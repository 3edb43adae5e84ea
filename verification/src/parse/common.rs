//! What the descriptions of data have in common.

use vstd::prelude::*;

verus! {

/// The type of a field.
#[derive(Debug, Clone, Copy, PartialEq, Eq, Structural)]
pub enum DataType {
    AutoId,
    String,
    Int8,
    Int16,
    Int32,
    Int64,
    Float32,
    Float64,
    Bool,
    DateTime,
    Object,
    List,
    Ref,
}

} // verus!
