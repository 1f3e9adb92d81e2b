//! Types of values, functions, tables, memories and globals.

use vstd::prelude::*;
use vstd::string::*;

use crate::text;

verus! {

/// Type of a value.
#[derive(Clone, Copy, Debug, PartialEq, Eq, Structural)]
pub enum ValueType {
    I32,
    I64,
    F32,
    F64,
}

impl ValueType {
    /// The name of the type.
    pub open spec fn text_spec(self) -> Seq<char> {
        match self {
            ValueType::I32 => "I32"@,
            ValueType::I64 => "I64"@,
            ValueType::F32 => "F32"@,
            ValueType::F64 => "F64"@,
        }
    }

    /// The name of the type.
    pub fn text(&self) -> (text: &'static str)
        ensures
            text@ == self.text_spec(),
    {
        match self {
            ValueType::I32 => "I32",
            ValueType::I64 => "I64",
            ValueType::F32 => "F32",
            ValueType::F64 => "F64",
        }
    }
}

/// The names of value types, separated by commas.
pub open spec fn list_text(types: Seq<ValueType>) -> Seq<char>
    decreases types.len(),
{
    if types.len() == 0 {
        Seq::empty()
    } else if types.len() == 1 {
        types[0].text_spec()
    } else {
        list_text(types.drop_last()) + ", "@ + types.last().text_spec()
    }
}

/// Signature of a function.
#[derive(Debug)]
pub struct FunctionType {
    pub params: Vec<ValueType>,
    pub return_type: Option<ValueType>,
}

/// Model of a [`FunctionType`].
#[verifier::ext_equal]
pub struct FunctionTypeView {
    pub params: Seq<ValueType>,
    pub return_type: Option<ValueType>,
}

impl View for FunctionType {
    type V = FunctionTypeView;

    open spec fn view(&self) -> FunctionTypeView {
        FunctionTypeView { params: self.params@, return_type: self.return_type }
    }
}

impl FunctionTypeView {
    /// How the signature is written in messages.
    pub open spec fn text(self) -> Seq<char> {
        "FunctionType { params: ["@ + list_text(self.params) + "], return_type: "@ + (
        match self.return_type {
            Some(t) => "Some("@ + t.text_spec() + ")"@,
            None => "None"@,
        }) + " }"@
    }
}

/// Two signatures are the same where their parameters and their result are.
impl PartialEq for FunctionType {
    fn eq(&self, other: &FunctionType) -> (same: bool) {
        if self.params.len() != other.params.len() || self.return_type != other.return_type {
            return false;
        }
        let mut i: usize = 0;
        while i < self.params.len()
            invariant
                self.params@.len() == other.params@.len(),
                i <= self.params@.len(),
                forall|j: int| 0 <= j < i ==> self.params@[j] == other.params@[j],
            decreases self.params@.len() - i,
        {
            if self.params[i] != other.params[i] {
                return false;
            }
            i += 1;
        }
        assert(self.params@ =~= other.params@);
        true
    }
}

impl vstd::std_specs::cmp::PartialEqSpecImpl for FunctionType {
    open spec fn obeys_eq_spec() -> bool {
        true
    }

    open spec fn eq_spec(&self, other: &FunctionType) -> bool {
        self@ == other@
    }
}

impl Eq for FunctionType {

}

impl Clone for FunctionType {
    fn clone(&self) -> (copy: FunctionType)
        ensures
            copy@ == self@,
    {
        let params = self.params.clone();
        assert(params@ =~= self.params@);
        FunctionType { params, return_type: self.return_type }
    }
}

impl FunctionType {
    /// Appends the signature to `out`, as it is written in messages.
    pub fn push_text(&self, out: &mut String)
        ensures
            final(out)@ == old(out)@ + self@.text(),
    {
        out.append("FunctionType { params: [");
        let mut i: usize = 0;
        let ghost start = out@;
        while i < self.params.len()
            invariant
                i <= self.params@.len(),
                out@ == start + list_text(self.params@.take(i as int)),
            decreases self.params@.len() - i,
        {
            if i > 0 {
                out.append(", ");
            }
            out.append(self.params[i].text());
            proof {
                let before = self.params@.take(i as int);
                let after = self.params@.take(i + 1);
                assert(after.drop_last() =~= before);
                assert(out@ =~= start + list_text(after));
            }
            i += 1;
        }
        assert(self.params@.take(i as int) =~= self.params@);
        out.append("], return_type: ");
        match self.return_type {
            Some(t) => {
                out.append("Some(");
                out.append(t.text());
                out.append(")");
            },
            None => {
                out.append("None");
            },
        }
        out.append(" }");
        assert(out@ =~= old(out)@ + self@.text());
    }
}

/// Appends the decimal notation of an optional number to `out`.
pub fn push_maximum(out: &mut String, maximum: Option<u32>)
    ensures
        final(out)@ == old(out)@ + maximum_text(maximum),
{
    match maximum {
        Some(m) => {
            out.append("Some(");
            text::push_decimal(out, m as u64);
            out.append(")");
        },
        None => {
            out.append("None");
        },
    }
    assert(out@ =~= old(out)@ + maximum_text(maximum));
}

/// How an optional maximum is written in messages.
pub open spec fn maximum_text(maximum: Option<u32>) -> Seq<char> {
    match maximum {
        Some(m) => "Some("@ + text::decimal(m as nat) + ")"@,
        None => "None"@,
    }
}

/// Bounds of a table or of a memory.
#[derive(Clone, Copy, Debug, PartialEq, Eq, Structural)]
pub struct ResizableLimits {
    pub initial: u32,
    pub maximum: Option<u32>,
}

impl ResizableLimits {
    /// How the bounds are written in messages.
    pub open spec fn text(self) -> Seq<char> {
        "ResizableLimits { initial: "@ + text::decimal(self.initial as nat) + ", maximum: "@
            + maximum_text(self.maximum) + " }"@
    }

    /// Appends the bounds to `out`, as they are written in messages.
    pub fn push_text(&self, out: &mut String)
        ensures
            final(out)@ == old(out)@ + self.text(),
    {
        out.append("ResizableLimits { initial: ");
        text::push_decimal(out, self.initial as u64);
        out.append(", maximum: ");
        push_maximum(out, self.maximum);
        out.append(" }");
        assert(out@ =~= old(out)@ + self.text());
    }
}

/// Type of a table.
#[derive(Clone, Copy, Debug, PartialEq, Eq, Structural)]
pub struct TableType {
    pub limits: ResizableLimits,
}

/// Type of a linear memory.
#[derive(Clone, Copy, Debug, PartialEq, Eq, Structural)]
pub struct MemoryType {
    pub limits: ResizableLimits,
}

/// Type of a global.
#[derive(Clone, Copy, Debug, PartialEq, Eq, Structural)]
pub struct GlobalType {
    pub content_type: ValueType,
    pub is_mutable: bool,
}

} // verus!
