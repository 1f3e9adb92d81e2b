//! Laws of invocation.

use std::rc::Rc;

use vstd::prelude::*;

use crate::error::Error;
use crate::func::FuncInstance;
use crate::invoke::{Invocation, StackLimits};
use crate::store::Store;
use crate::value::RuntimeValue;

verus! {

/// A function that a module defines has its arguments, all of them and as they are, checked against
/// its own signature; one of the embedder is called at once, with the arguments as they are.
pub proof fn law_invoke(
    store: &mut Store,
    func: Rc<FuncInstance>,
    args: Vec<RuntimeValue>,
    limits: StackLimits,
    invocation: Invocation,
)
    requires
        call_ensures(Store::invoke, (store, func, args, limits), invocation),
    ensures
        *func matches FuncInstance::Internal { func_type, .. } ==> {
            &&& invocation matches Invocation::Prepare(call)
            &&& call.func == func
            &&& call.func_type == func_type
            &&& call.args == args
            &&& call.limits.value_stack == limits.value_stack
            &&& call.limits.frame_stack == limits.frame_stack
        },
        *func matches FuncInstance::Host { host_func, .. } ==> {
            &&& invocation matches Invocation::CallHost(called, passed)
            &&& called == host_func
            &&& passed == args
        },
{
}

/// A function that a module defines is run with the arguments that the check gave back, with its
/// own signature and with the limits that the invocation began with. Where the check refuses the
/// arguments, the invocation ends with that refusal, and nothing is run.
pub proof fn law_prepared(
    store: &mut Store,
    func: Rc<FuncInstance>,
    args: Vec<RuntimeValue>,
    limits: StackLimits,
    invocation: Invocation,
    checked: Result<Vec<RuntimeValue>, Error>,
    next: Invocation,
)
    requires
        *func is Internal,
        call_ensures(Store::invoke, (store, func, args, limits), invocation),
        call_ensures(Invocation::prepared, (invocation, checked), next),
    ensures
        checked matches Ok(checked_args) ==> {
            &&& next matches Invocation::Run(context)
            &&& context.func == func
            &&& context.func_type == func->Internal_func_type
            &&& context.args == checked_args
            &&& context.value_stack_limit == limits.value_stack
            &&& context.frame_stack_limit == limits.frame_stack
        },
        checked matches Err(e) ==> next == Invocation::Done(Err(e)),
{
}

/// What a function returns, or fails with, is what comes of its invocation.
pub proof fn law_returned(
    invocation: Invocation,
    outcome: Result<Option<RuntimeValue>, Error>,
    next: Invocation,
)
    requires
        call_ensures(Invocation::returned, (invocation, outcome), next),
    ensures
        next matches Invocation::Done(result) && result == outcome,
{
}

} // verus!
