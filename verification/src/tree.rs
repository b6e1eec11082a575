//! The dynamically typed payload tree: the engine's internal representation
//! of the resource body under review. A tree is an ordered mapping from
//! field names to subtrees, an ordered sequence of subtrees, or a scalar
//! (string, integer, boolean, null).

use vstd::prelude::*;

verus! {

/// A JSON-like document: the body of the resource under review.
/// Read-only to the engine; rules never mutate it.
pub enum PayloadTree {
    /// Scalar: absence of a value.
    Null,
    /// Scalar: a boolean.
    Bool(bool),
    /// Scalar: an integer number.
    Num(i64),
    /// Scalar: a string.
    Str(String),
    /// An ordered sequence of subtrees.
    Arr(Vec<PayloadTree>),
    /// An ordered mapping from field names to subtrees.
    Obj(Vec<(String, PayloadTree)>),
}

} // verus!
