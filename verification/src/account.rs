//! Accounts, known to this library by their identifier alone.

use vstd::prelude::*;

verus! {

/// Identifier of an account.
#[derive(Clone, Copy, Debug, PartialEq, Eq, Hash)]
pub struct AccountID(pub u64);

} // verus!
