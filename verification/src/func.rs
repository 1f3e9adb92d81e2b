//! Function instances.

use std::collections::HashMap;
use std::rc::Rc;

use vstd::prelude::*;
use vstd::string::*;

use crate::module::{Local, Opcode, OpcodeView};
use crate::module;
use crate::types::{FunctionType, FunctionTypeView};

verus! {

/// Handle of a module instance in the heap.
#[derive(Clone, Copy, Debug, PartialEq, Eq, Structural)]
pub struct ModuleId(pub usize);

/// Handle of a function that the embedder provides; the embedder keeps the function itself.
#[derive(Clone, Copy, Debug, PartialEq, Eq, Structural)]
pub struct HostFuncId(pub usize);

/// Code of a function that a module defines.
#[derive(Debug)]
pub struct FuncBody {
    pub locals: Vec<Local>,
    pub opcodes: Vec<Opcode>,
    /// For each block, by the position of its opening instruction, where its branches lead.
    pub labels: HashMap<usize, usize>,
}

/// Model of a [`FuncBody`].
#[verifier::ext_equal]
pub struct FuncBodyView {
    pub locals: Seq<Local>,
    pub opcodes: Seq<OpcodeView>,
    pub labels: Map<usize, usize>,
}

impl View for FuncBody {
    type V = FuncBodyView;

    open spec fn view(&self) -> FuncBodyView {
        FuncBodyView {
            locals: self.locals@,
            opcodes: module::opcode_views(self.opcodes@),
            labels: self.labels@,
        }
    }
}

impl Clone for FuncBody {
    fn clone(&self) -> (copy: FuncBody)
        ensures
            copy@ == self@,
    {
        FuncBody {
            locals: module::copy_locals(&self.locals),
            opcodes: module::copy_opcodes(&self.opcodes),
            labels: self.labels.clone(),
        }
    }
}

/// A function that can be called: one that a module defines, which runs in the instance of that
/// module, or one that the embedder provides.
pub enum FuncInstance {
    Internal { func_type: Rc<FunctionType>, module: ModuleId, body: Rc<FuncBody> },
    Host { func_type: Rc<FunctionType>, host_func: HostFuncId },
}

/// Model of a [`FuncInstance`].
#[verifier::ext_equal]
pub enum FuncView {
    Internal { func_type: FunctionTypeView, module: ModuleId, body: FuncBodyView },
    Host { func_type: FunctionTypeView, host_func: HostFuncId },
}

impl View for FuncInstance {
    type V = FuncView;

    open spec fn view(&self) -> FuncView {
        match *self {
            FuncInstance::Internal { func_type, module, body } => FuncView::Internal {
                func_type: func_type@,
                module,
                body: body@,
            },
            FuncInstance::Host { func_type, host_func } => FuncView::Host {
                func_type: func_type@,
                host_func,
            },
        }
    }
}

impl FuncView {
    /// The signature of the function.
    pub open spec fn func_type(self) -> FunctionTypeView {
        match self {
            FuncView::Internal { func_type, .. } => func_type,
            FuncView::Host { func_type, .. } => func_type,
        }
    }

    /// The code of the function, where a module defines it.
    pub open spec fn body(self) -> Option<FuncBodyView> {
        match self {
            FuncView::Internal { body, .. } => Some(body),
            FuncView::Host { .. } => None,
        }
    }

    /// How the function is written in messages, where the instance that it runs in, if any, is
    /// written as `module`.
    pub open spec fn text(self, module: Seq<char>) -> Seq<char> {
        match self {
            FuncView::Internal { func_type, .. } => "Internal { type="@ + func_type.text()
                + ", module="@ + module + " }"@,
            FuncView::Host { func_type, .. } => "Host { type="@ + func_type.text() + " }"@,
        }
    }
}

impl Clone for FuncInstance {
    fn clone(&self) -> (copy: FuncInstance)
        ensures
            copy == *self,
    {
        match self {
            FuncInstance::Internal { func_type, module, body } => FuncInstance::Internal {
                func_type: Rc::clone(func_type),
                module: *module,
                body: Rc::clone(body),
            },
            FuncInstance::Host { func_type, host_func } => FuncInstance::Host {
                func_type: Rc::clone(func_type),
                host_func: *host_func,
            },
        }
    }
}

impl FuncInstance {
    /// The signature of the function.
    pub fn func_type(&self) -> (func_type: Rc<FunctionType>)
        ensures
            func_type@ == self@.func_type(),
            match *self {
                FuncInstance::Internal { func_type: own, .. } => func_type == own,
                FuncInstance::Host { func_type: own, .. } => func_type == own,
            },
    {
        match self {
            FuncInstance::Internal { func_type, .. } => Rc::clone(func_type),
            FuncInstance::Host { func_type, .. } => Rc::clone(func_type),
        }
    }

    /// The code of the function, where a module defines it.
    pub fn body(&self) -> (body: Option<Rc<FuncBody>>)
        ensures
            match *self {
                FuncInstance::Internal { body: own, .. } => body == Some(own),
                FuncInstance::Host { .. } => body is None,
            },
            match body {
                Some(b) => self@.body() == Some(b@),
                None => self@.body() is None,
            },
    {
        match self {
            FuncInstance::Internal { body, .. } => Some(Rc::clone(body)),
            FuncInstance::Host { .. } => None,
        }
    }

    /// The function as it is written in messages: its signature and, where a module defines it,
    /// the instance that it runs in, which is written as `module`.
    pub fn fmt(&self, module: &str) -> (text: String)
        ensures
            text@ == self@.text(module@),
    {
        let mut out: String = String::new();
        match self {
            FuncInstance::Internal { func_type, .. } => {
                out.append("Internal { type=");
                func_type.push_text(&mut out);
                out.append(", module=");
                out.append(module);
                out.append(" }");
            },
            FuncInstance::Host { func_type, .. } => {
                out.append("Host { type=");
                func_type.push_text(&mut out);
                out.append(" }");
            },
        }
        assert(out@ =~= self@.text(module@));
        out
    }
}

} // verus!
