//! Teachers, known to this library by their identifier alone.

use vstd::prelude::*;

verus! {

/// Identifier of a teacher.
#[derive(Clone, Copy, Debug, PartialEq, Eq, Hash)]
pub struct TeacherID(pub u64);

} // verus!
