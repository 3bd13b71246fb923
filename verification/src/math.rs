use vstd::prelude::*;

verus! {

/// Marks the arguments of the `add` method.
#[derive(Debug, Clone, Copy)]
pub struct AddArgs;

/// Marks the arguments of the `sub` method.
#[derive(Debug, Clone, Copy)]
pub struct SubArgs;

/// Marks the arguments of the `mul` method.
#[derive(Debug, Clone, Copy)]
pub struct MulArgs;

} // verus!
