//! Laws of the texts of messages.

use vstd::prelude::*;

use crate::error::{Error, Reason};
use crate::func::FuncInstance;
use crate::instance::ExternVal;
use crate::link;
use crate::module::External;
use crate::text;
use crate::text::push_decimal;
use crate::types;
use crate::types::{FunctionType, ResizableLimits, ValueType, push_maximum};

verus! {

/// The number that a row of decimal digits denotes.
pub open spec fn number(digits: Seq<char>) -> int
    decreases digits.len(),
{
    if digits.len() == 0 {
        0
    } else {
        10 * number(digits.drop_last()) + (digits.last() as int - '0' as int)
    }
}

/// The decimal notation of a number is a row of digits that denotes it and, but for zero itself,
/// does not begin with a zero.
pub proof fn law_decimal(n: nat)
    ensures
        text::decimal(n).len() > 0,
        forall|i: int|
            0 <= i < text::decimal(n).len() ==> '0' <= #[trigger] text::decimal(n)[i] <= '9',
        number(text::decimal(n)) == n,
        n > 0 ==> text::decimal(n)[0] != '0',
        n == 0 ==> text::decimal(n).len() == 1,
    decreases n,
{
    reveal_with_fuel(number, 2);
    let digits = text::decimal(n);
    if n >= 10 {
        law_decimal(n / 10);
        assert(digits.drop_last() =~= text::decimal(n / 10));
        assert forall|i: int| 0 <= i < digits.len() implies '0' <= #[trigger] digits[i] <= '9' by {
            if i < digits.len() - 1 {
                assert(digits[i] == text::decimal(n / 10)[i]);
            }
        }
    }
}

/// A number is appended in its decimal notation.
pub proof fn law_push_decimal(out: &mut String, n: u64)
    requires
        call_ensures(push_decimal, (out, n), ()),
    ensures
        final(out)@ == old(out)@ + text::decimal(n as nat),
{
}

/// An optional number is appended as `None`, or as `Some` of its decimal notation.
pub proof fn law_push_maximum(out: &mut String, maximum: Option<u32>)
    requires
        call_ensures(push_maximum, (out, maximum), ()),
    ensures
        maximum is None ==> final(out)@ == old(out)@ + "None"@,
        maximum matches Some(m) ==> final(out)@ == old(out)@ + ("Some("@ + text::decimal(m as nat)
            + ")"@),
{
}

/// The names of value types.
pub proof fn law_value_type_names(t: ValueType, name: &'static str)
    requires
        call_ensures(ValueType::text, (&t,), name),
    ensures
        t is I32 ==> name@ == "I32"@,
        t is I64 ==> name@ == "I64"@,
        t is F32 ==> name@ == "F32"@,
        t is F64 ==> name@ == "F64"@,
{
}

/// A list of value types is written with the names of its members in order, and a comma between
/// each two.
pub proof fn law_lists_of_types(types: Seq<ValueType>, t: ValueType, name: &'static str)
    requires
        call_ensures(ValueType::text, (&t,), name),
    ensures
        types::list_text(Seq::empty()) == Seq::<char>::empty(),
        types.len() == 0 ==> types::list_text(types.push(t)) == name@,
        types.len() > 0 ==> types::list_text(types.push(t)) == types::list_text(types) + ", "@
            + name@,
{
    assert(types.push(t).drop_last() =~= types);
}

/// A signature is appended with its parameters in order and its return type.
pub proof fn law_signature_text(func_type: FunctionType, out: &mut String, name: &'static str)
    requires
        call_ensures(FunctionType::push_text, (&func_type, out), ()),
        func_type.return_type matches Some(t) ==> call_ensures(ValueType::text, (&t,), name),
    ensures
        final(out)@ == old(out)@ + func_type@.text(),
        func_type.return_type is None ==> func_type@.text() == "FunctionType { params: ["@
            + types::list_text(func_type.params@) + "], return_type: "@ + "None"@ + " }"@,
        func_type.return_type is Some ==> func_type@.text() == "FunctionType { params: ["@
            + types::list_text(func_type.params@) + "], return_type: "@ + ("Some("@ + name@ + ")"@)
            + " }"@,
{
}

/// Bounds are appended with their first size and their maximum.
pub proof fn law_limits_text(limits: ResizableLimits, out: &mut String)
    requires
        call_ensures(ResizableLimits::push_text, (&limits, out), ()),
    ensures
        limits.maximum is None ==> final(out)@ == old(out)@ + ("ResizableLimits { initial: "@
            + text::decimal(limits.initial as nat) + ", maximum: "@ + "None"@ + " }"@),
        limits.maximum matches Some(m) ==> final(out)@ == old(out)@ + (
        "ResizableLimits { initial: "@ + text::decimal(limits.initial as nat) + ", maximum: "@ + (
        "Some("@ + text::decimal(m as nat) + ")"@) + " }"@),
{
}

/// What an import asks for is appended with its kind and its index, its bounds or its type.
pub proof fn law_external_text(external: External, out: &mut String, name: &'static str)
    requires
        call_ensures(External::push_text, (&external, out), ()),
        external matches External::Global(t) ==> call_ensures(
            ValueType::text,
            (&t.content_type,),
            name,
        ),
    ensures
        final(out)@ == old(out)@ + external.text(),
        external matches External::Function(idx) ==> external.text() == "Function("@
            + text::decimal(idx as nat) + ")"@,
        external matches External::Table(t) ==> external.text() == "Table(TableType { limits: "@
            + t.limits.text() + " })"@,
        external matches External::Memory(t) ==> external.text() == "Memory(MemoryType { limits: "@
            + t.limits.text() + " })"@,
        external matches External::Global(t) ==> external.text()
            == "Global(GlobalType { content_type: "@ + name@ + ", is_mutable: "@ + (
        if t.is_mutable {
            "true"@
        } else {
            "false"@
        }) + " })"@,
{
}

/// A function is written with its signature and, where a module defines it, the text of its
/// instance.
pub proof fn law_function_text(func: FuncInstance, module: &str, text: String)
    requires
        call_ensures(FuncInstance::fmt, (&func, module), text),
    ensures
        func matches FuncInstance::Internal { func_type, .. } ==> text@ == "Internal { type="@
            + func_type@.text() + ", module="@ + module@ + " }"@,
        func matches FuncInstance::Host { func_type, .. } ==> text@ == "Host { type="@
            + func_type@.text() + " }"@,
{
}

/// A value that passes between modules is written with its kind and the text of what it holds.
pub proof fn law_extern_text(val: ExternVal, held: &str, text: String)
    requires
        call_ensures(ExternVal::fmt, (&val, held), text),
    ensures
        val is Func ==> text@ == "Func("@ + held@ + ")"@,
        val is Table ==> text@ == "Table("@ + held@ + ")"@,
        val is Memory ==> text@ == "Memory("@ + held@ + ")"@,
        val is Global ==> text@ == "Global("@ + held@ + ")"@,
{
}

/// A reason in words is its own message, and a mismatch of kinds names what was asked for and what
/// was given.
pub proof fn law_reason_message(reason: Reason, actual: &str, message: String)
    requires
        call_ensures(Reason::message, (&reason, actual), message),
    ensures
        reason matches Reason::Message(words) ==> message@ == words@,
        reason matches Reason::Kind { expected, .. } ==> message@ == "Expected "@ + expected.text()
            + " type, but provided "@ + actual@ + " extern_val"@,
{
}

/// An error about the kind of a value is about the value at the position that it names, and an
/// error of any other sort is about none.
pub proof fn law_offered(e: Error, vals: &[ExternVal], val: Option<&ExternVal>)
    requires
        call_ensures(Error::offered, (&e, vals), val),
    ensures
        match e {
            Error::Initialization(Reason::Kind { position, .. }) => if position < vals@.len() {
                val matches Some(v) && v@ == vals@[position as int]@
            } else {
                val is None
            },
            _ => val is None,
        },
{
    let views = link::extern_views(vals@);
    assert(views.len() == vals@.len());
}

/// An error about the kind of a value is put into words with the text of that value; any other
/// error keeps what it says.
pub proof fn law_in_words(
    e: Error,
    vals: &[ExternVal],
    held: &str,
    val: Option<&ExternVal>,
    text: &str,
    message: String,
    words: Error,
)
    requires
        call_ensures(Error::offered, (&e, vals), val),
        val matches Some(v) ==> text@ == v@.text(held@),
        e matches Error::Initialization(reason) ==> call_ensures(
            Reason::message,
            (&reason, text),
            message,
        ),
        call_ensures(Error::in_words, (e, vals, held), words),
    ensures
        val is Some ==> (words matches Error::Initialization(Reason::Message(m)) && m@
            == message@),
        val is None ==> words@ == e@,
{
}

/// Errors are told apart by their sort and by what they say.
pub proof fn law_errors_are_told_apart(e: Error, other: Error)
    requires
        e@ == other@,
    ensures
        e is Validation <==> other is Validation,
        e is Initialization <==> other is Initialization,
        e is Engine <==> other is Engine,
        e is Validation ==> e->Validation_0@ == other->Validation_0@,
        e is Engine ==> e->Engine_0@ == other->Engine_0@,
        e is Initialization ==> match (e->Initialization_0, other->Initialization_0) {
            (Reason::Message(m), Reason::Message(n)) => m@ == n@,
            (
                Reason::Kind { position: i, expected: a },
                Reason::Kind { position: j, expected: b },
            ) => i == j && a == b,
            _ => false,
        },
{
}

} // verus!
