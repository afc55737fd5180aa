//! A message, as it is pushed on a context trace or carried as an error.

use std::borrow::Cow;
use vstd::prelude::*;
use vstd::string::*;

verus! {

/// A message that is either a string of the program's text or one built at
/// run time. The first takes no allocation.
#[derive(Debug, PartialEq, Eq, PartialOrd, Ord, Hash)]
pub enum StrContext {
    Static(&'static str),
    Owned(String),
}

/// The name under which a message stands for an error of its own.
pub type StrError = StrContext;

impl View for StrContext {
    type V = Seq<char>;

    /// The characters of the message.
    open spec fn view(&self) -> Seq<char> {
        match self {
            StrContext::Static(s) => s@,
            StrContext::Owned(s) => s@,
        }
    }
}

impl StrContext {
    /// The message as a string slice.
    pub fn as_str(&self) -> (s: &str)
        ensures
            s@ == self@,
    {
        match self {
            StrContext::Static(s) => s,
            StrContext::Owned(s) => s.as_str(),
        }
    }

    /// The message as an owned string: what displaying it gives.
    pub fn to_string(&self) -> (text: String)
        ensures
            text@ == self@,
    {
        String::from_str(self.as_str())
    }
}

impl Clone for StrContext {
    fn clone(&self) -> (copy: Self)
        ensures
            copy == *self,
    {
        match self {
            StrContext::Static(s) => StrContext::Static(s),
            StrContext::Owned(s) => StrContext::Owned(s.clone()),
        }
    }
}

impl From<&'static str> for StrContext {
    fn from(s: &'static str) -> (message: StrContext) {
        StrContext::Static(s)
    }
}

impl vstd::std_specs::convert::FromSpecImpl<&'static str> for StrContext {
    open spec fn obeys_from_spec() -> bool {
        true
    }

    open spec fn from_spec(s: &'static str) -> StrContext {
        StrContext::Static(s)
    }
}

impl From<String> for StrContext {
    fn from(s: String) -> (message: StrContext) {
        StrContext::Owned(s)
    }
}

impl vstd::std_specs::convert::FromSpecImpl<String> for StrContext {
    open spec fn obeys_from_spec() -> bool {
        true
    }

    open spec fn from_spec(s: String) -> StrContext {
        StrContext::Owned(s)
    }
}

impl From<Cow<'static, str>> for StrContext {
    fn from(s: Cow<'static, str>) -> (message: StrContext) {
        match s {
            Cow::Borrowed(s) => StrContext::Static(s),
            Cow::Owned(s) => StrContext::Owned(s),
        }
    }
}

impl vstd::std_specs::convert::FromSpecImpl<Cow<'static, str>> for StrContext {
    open spec fn obeys_from_spec() -> bool {
        true
    }

    open spec fn from_spec(s: Cow<'static, str>) -> StrContext {
        match s {
            Cow::Borrowed(s) => StrContext::Static(s),
            Cow::Owned(s) => StrContext::Owned(s),
        }
    }
}

} // verus!
