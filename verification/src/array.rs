//! Copiable fixed-size array wrapper.
//!
//! Lets large fixed-size buffers sit inside copiable on-disk records whatever
//! their length.

use vstd::prelude::*;

verus! {

/// Copiable, comparable, arbitrary-size array.
#[derive(Clone, Copy, Debug, PartialEq, Eq)]
pub struct Array<T, const C: usize>(pub [T; C]);

} // verus!
