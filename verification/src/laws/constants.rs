//! Laws of constant expressions.

use vstd::prelude::*;

use crate::heap::Heap;
use crate::init::{check_const_expr, const_value, eval_init_expr};
use crate::instance::{GlobalId, GlobalInstance, ModuleInstance};
use crate::module::{InitExpr, Opcode};
use crate::value::RuntimeValue;

verus! {

/// An expression that begins with a constant gives that very constant, with its type, and one that
/// begins with a read of a global gives the value that the global of the instance with that index
/// has on the heap.
pub proof fn law_eval_init_expr(
    expr: InitExpr,
    instance: ModuleInstance,
    heap: Heap,
    val: RuntimeValue,
)
    requires
        call_ensures(eval_init_expr, (&expr, &instance, &heap), val),
    ensures
        expr.code@[0] matches Opcode::I32Const(v) ==> val == RuntimeValue::I32(v),
        expr.code@[0] matches Opcode::I64Const(v) ==> val == RuntimeValue::I64(v),
        expr.code@[0] matches Opcode::F32Const(v) ==> val == RuntimeValue::F32(v),
        expr.code@[0] matches Opcode::F64Const(v) ==> val == RuntimeValue::F64(v),
        expr.code@[0] matches Opcode::GetGlobal(idx) ==> (idx < instance@.globals.len() ==> val
            == heap@.globals[instance@.globals[idx as int].0 as int].val),
{
}

/// An expression that begins with a read of a global gives what is read through the handle that the
/// instance has for that global.
pub proof fn law_get_global_reads_the_global(
    expr: InitExpr,
    instance: ModuleInstance,
    heap: Heap,
    idx: u32,
    id: Option<GlobalId>,
    global: &GlobalInstance,
    read: RuntimeValue,
    val: RuntimeValue,
)
    requires
        expr.code@[0] == Opcode::GetGlobal(idx),
        call_ensures(ModuleInstance::global_by_index, (&instance, idx), id),
        id is Some,
        call_ensures(Heap::global, (&heap, id->0), global),
        call_ensures(GlobalInstance::get, (global,), read),
        call_ensures(eval_init_expr, (&expr, &instance, &heap), val),
    ensures
        val == read,
{
}

/// Where the values of globals are given one by one, an expression gives the constant that it
/// begins with, or the value with the index that it reads.
pub proof fn law_const_value(expr: InitExpr, globals: Vec<RuntimeValue>, val: RuntimeValue)
    requires
        call_ensures(const_value, (&expr, &globals), val),
    ensures
        expr.code@[0] matches Opcode::I32Const(v) ==> val == RuntimeValue::I32(v),
        expr.code@[0] matches Opcode::I64Const(v) ==> val == RuntimeValue::I64(v),
        expr.code@[0] matches Opcode::F32Const(v) ==> val == RuntimeValue::F32(v),
        expr.code@[0] matches Opcode::F64Const(v) ==> val == RuntimeValue::F64(v),
        expr.code@[0] matches Opcode::GetGlobal(idx) ==> val == globals@[idx as int],
{
}

/// An expression is constant where it has two instructions and the first is a constant or reads a
/// global that there is, and only there.
pub proof fn law_check_const_expr(expr: InitExpr, global_count: u128, ok: bool)
    requires
        call_ensures(check_const_expr, (&expr, global_count), ok),
    ensures
        ok <==> expr.code@.len() == 2 && (expr.code@[0] is I32Const || expr.code@[0] is I64Const
            || expr.code@[0] is F32Const || expr.code@[0] is F64Const || (
        expr.code@[0] is GetGlobal && expr.code@[0]->GetGlobal_0 < global_count)),
{
}

} // verus!
