//! Open unions of errors: a value known to be of one of several declared
//! candidate types, with the set algebra that narrows, widens and splits it.
//!
//! A candidate type is named by a key, and a list of candidates is a type
//! built from `Cons` and `End`: it takes no room at run time, and what holds
//! between two lists (one holds a candidate, one is the other without a
//! candidate, one covers the other) is decided when the program is compiled
//! and proved of the lists' keys. A union holds a payload together with the
//! key of the candidate that the payload is of; that key is always one of
//! its list's. Narrowing, widening and splitting compare keys and change the
//! list; the payload, the context pushed on the union and the backtrace taken
//! when it was built go through them untouched.

pub mod backtrace;
pub mod context;
pub mod error_union;
pub mod generic_error;
pub mod laws;
pub mod one_of;
pub mod render;
pub mod str;
pub mod str_error;
pub mod string_kind;
pub mod traced_union;
pub mod type_set;
pub mod union_to_enum;

pub use context::{AbsentValueError, Context, Contextable};
pub use error_union::{ErrorUnion, IntoUnionResult, ReshapeUnionResult};
pub use generic_error::{AnyError, IntoTraced, Traced, TracedDyn, TracedError};
pub use one_of::U;
pub use str_error::{StrContext, StrError};
pub use traced_union::{
    IntoUnion, IntoUnionSingle, ReshapeUnion, SendSyncError, TracedUnion, Union, ANY_ERROR,
};
pub use type_set::{Cons, End, Recurse, TypeKey};
pub use union_to_enum::{E1, E2, E3, E4, E5, E6, E7, E8, E9};
