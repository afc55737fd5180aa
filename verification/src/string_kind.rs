//! The kind of string that a context trace holds.

use crate::str_error::StrContext;
use vstd::prelude::*;

verus! {

/// A message of a context trace: a string of the program's text or one built
/// at run time.
pub type StringKind = StrContext;

} // verus!
