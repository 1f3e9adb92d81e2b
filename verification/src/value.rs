//! Values of a running program.

use vstd::prelude::*;

verus! {

/// Value of a global, of an argument or of a result. A float is held as the word that encodes
/// it; the execution engine decodes it.
#[derive(Clone, Copy, Debug, PartialEq, Eq, Structural)]
pub enum RuntimeValue {
    I32(i32),
    I64(i64),
    F32(u32),
    F64(u64),
}

} // verus!
