use vstd::prelude::*;

verus! {

/// The scalar types that cross the boundary in a register.
#[derive(Clone, Copy, Debug, PartialEq, Eq, Structural, Hash)]
pub enum Primitive {
    Bool,
    F32,
    F64,
    I8,
    I16,
    I32,
    I64,
    U8,
    U16,
    U32,
    U64,
}

} // verus!
