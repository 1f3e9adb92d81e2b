//! Constant expressions: the initial values of globals and the offsets of segments.

use vstd::pervasive::unreached;
use vstd::prelude::*;

use crate::heap::Heap;
use crate::instance::ModuleInstance;
use crate::module::{InitExpr, Opcode};
use crate::value::RuntimeValue;

verus! {

/// Whether an expression is one instruction that gives a value, and the closing `End`, where
/// that many globals can be read.
pub open spec fn is_const_expr(expr: InitExpr, global_count: nat) -> bool {
    &&& expr.code@.len() == 2
    &&& match expr.code@[0] {
        Opcode::I32Const(_) | Opcode::I64Const(_) | Opcode::F32Const(_) | Opcode::F64Const(_) => true,
        Opcode::GetGlobal(idx) => idx < global_count,
        _ => false,
    }
}

/// The value of a constant expression, where the globals have these values.
pub open spec fn init_value(expr: InitExpr, globals: Seq<RuntimeValue>) -> RuntimeValue
    recommends
        is_const_expr(expr, globals.len()),
{
    match expr.code@[0] {
        Opcode::I32Const(v) => RuntimeValue::I32(v),
        Opcode::I64Const(v) => RuntimeValue::I64(v),
        Opcode::F32Const(v) => RuntimeValue::F32(v),
        Opcode::F64Const(v) => RuntimeValue::F64(v),
        Opcode::GetGlobal(idx) => globals[idx as int],
        _ => arbitrary(),
    }
}

/// Evaluates a constant expression in an instance.
pub fn eval_init_expr(init_expr: &InitExpr, module: &ModuleInstance, heap: &Heap) -> (val:
    RuntimeValue)
    requires
        is_const_expr(*init_expr, module@.globals.len()),
        forall|i: int|
            0 <= i < module@.globals.len() ==> heap@.has_global(#[trigger] module@.globals[i]),
    ensures
        val == init_value(*init_expr, heap@.values(module@.globals)),
{
    match &init_expr.code[0] {
        Opcode::I32Const(v) => RuntimeValue::I32(*v),
        Opcode::I64Const(v) => RuntimeValue::I64(*v),
        Opcode::F32Const(v) => RuntimeValue::F32(*v),
        Opcode::F64Const(v) => RuntimeValue::F64(*v),
        Opcode::GetGlobal(idx) => {
            match module.global_by_index(*idx) {
                Some(global) => heap.global(global).get(),
                None => unreached(),
            }
        },
        _ => unreached(),
    }
}

/// Tells whether an expression is constant, where that many globals can be read.
pub fn check_const_expr(expr: &InitExpr, global_count: u128) -> (ok: bool)
    ensures
        ok == is_const_expr(*expr, global_count as nat),
{
    if expr.code.len() != 2 {
        return false;
    }
    match &expr.code[0] {
        Opcode::I32Const(_) | Opcode::I64Const(_) | Opcode::F32Const(_) | Opcode::F64Const(_) => true,
        Opcode::GetGlobal(idx) => (*idx as u128) < global_count,
        _ => false,
    }
}

/// Evaluates a constant expression, where the globals have these values.
pub fn const_value(expr: &InitExpr, globals: &Vec<RuntimeValue>) -> (val: RuntimeValue)
    requires
        is_const_expr(*expr, globals@.len()),
    ensures
        val == init_value(*expr, globals@),
{
    match &expr.code[0] {
        Opcode::I32Const(v) => RuntimeValue::I32(*v),
        Opcode::I64Const(v) => RuntimeValue::I64(*v),
        Opcode::F32Const(v) => RuntimeValue::F32(*v),
        Opcode::F64Const(v) => RuntimeValue::F64(*v),
        Opcode::GetGlobal(idx) => globals[*idx as usize],
        _ => unreached(),
    }
}

} // verus!
