//! A string that is either part of the program's text or built at run time.

use std::borrow::Cow;
use vstd::prelude::*;
use vstd::string::*;

verus! {

/// A string in its static or its owned form. The static form takes no
/// allocation.
#[derive(Debug)]
pub enum Str {
    Static(&'static str),
    Owned(String),
}

impl View for Str {
    type V = Seq<char>;

    /// The characters of the string.
    open spec fn view(&self) -> Seq<char> {
        match self {
            Str::Static(s) => s@,
            Str::Owned(s) => s@,
        }
    }
}

impl Str {
    /// The string as a slice.
    pub fn as_str(&self) -> (s: &str)
        ensures
            s@ == self@,
    {
        match self {
            Str::Static(s) => s,
            Str::Owned(s) => s.as_str(),
        }
    }

    /// The string as an owned string: what displaying it gives.
    pub fn to_string(&self) -> (text: String)
        ensures
            text@ == self@,
    {
        String::from_str(self.as_str())
    }
}

impl Clone for Str {
    fn clone(&self) -> (copy: Self)
        ensures
            copy == *self,
    {
        match self {
            Str::Static(s) => Str::Static(s),
            Str::Owned(s) => Str::Owned(s.clone()),
        }
    }
}

impl From<&'static str> for Str {
    fn from(s: &'static str) -> (string: Str) {
        Str::Static(s)
    }
}

impl vstd::std_specs::convert::FromSpecImpl<&'static str> for Str {
    open spec fn obeys_from_spec() -> bool {
        true
    }

    open spec fn from_spec(s: &'static str) -> Str {
        Str::Static(s)
    }
}

impl From<String> for Str {
    fn from(s: String) -> (string: Str) {
        Str::Owned(s)
    }
}

impl vstd::std_specs::convert::FromSpecImpl<String> for Str {
    open spec fn obeys_from_spec() -> bool {
        true
    }

    open spec fn from_spec(s: String) -> Str {
        Str::Owned(s)
    }
}

impl From<Cow<'static, str>> for Str {
    fn from(s: Cow<'static, str>) -> (string: Str) {
        match s {
            Cow::Borrowed(s) => Str::Static(s),
            Cow::Owned(s) => Str::Owned(s),
        }
    }
}

impl vstd::std_specs::convert::FromSpecImpl<Cow<'static, str>> for Str {
    open spec fn obeys_from_spec() -> bool {
        true
    }

    open spec fn from_spec(s: Cow<'static, str>) -> Str {
        match s {
            Cow::Borrowed(s) => Str::Static(s),
            Cow::Owned(s) => Str::Owned(s),
        }
    }
}

} // verus!
