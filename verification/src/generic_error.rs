//! An error of one known type, with the context that was pushed on it and the
//! backtrace taken when it was wrapped.

use crate::backtrace::Snapshot;
use crate::context::Contextable;
use crate::error_union::ErrorUnion;
use crate::render::{debug_text, texts, traced_text, write_backtrace, write_context};
use crate::str_error::{StrContext, StrError};
use crate::traced_union::SendSyncError;
use crate::type_set::{Cons, End};
use std::borrow::Cow;
use vstd::prelude::*;
use vstd::std_specs::convert::IntoSpec;
use vstd::string::*;

verus! {

/// Any error that can be displayed and debugged can be traced.
pub trait AnyError: SendSyncError {

}

impl<T: SendSyncError> AnyError for T {

}

/// An error with the messages that the callers on its way up have pushed on
/// it, oldest first, and the backtrace taken when it was wrapped. A caller
/// that handles the error drops the context unseen; one that reports it has
/// all of it in one text.
#[derive(Debug)]
pub struct TracedError<T: AnyError> {
    inner: T,
    backtrace: Snapshot,
    context: Vec<StrError>,
}

/// Whether `text` is what displaying `inner` gives, followed by the block of
/// the messages.
pub open spec fn displays_traced<T: AnyError>(inner: &T, items: Seq<Seq<char>>, text: Seq<char>) -> bool {
    exists|head: Seq<char>| #[trigger] inner.displays(head) && text == traced_text(head, items)
}

/// Whether `text` is what displaying `inner` gives, followed by the block of
/// the messages and the block of the backtrace.
pub open spec fn debugs_traced<T: AnyError>(
    inner: &T,
    items: Seq<Seq<char>>,
    trace: Option<Seq<char>>,
    text: Seq<char>,
) -> bool {
    exists|head: Seq<char>| #[trigger] inner.displays(head) && text == debug_text(head, items, trace)
}

/// The text of the root of a chain of errors: its own text, and after it the
/// backtrace that came along with the chain, where one did.
pub open spec fn chain_root(root: Seq<char>, trace: Option<Seq<char>>) -> Seq<char> {
    match trace {
        Some(text) => root + "\n\nBacktrace:\n"@ + text,
        None => root,
    }
}

impl<T: AnyError> TracedError<Box<T>> where Box<T>: AnyError {
    /// Wraps an error that is moved to the heap first.
    pub fn boxed(source: T) -> (traced: Self)
        ensures
            *traced.payload() == source,
            traced.messages() == Seq::<StrError>::empty(),
    {
        TracedError::new(Box::new(source))
    }
}

impl<T: AnyError> TracedError<T> {
    /// The error that is wrapped.
    pub closed spec fn payload(&self) -> T {
        self.inner
    }

    /// The messages pushed so far, oldest first.
    pub closed spec fn messages(&self) -> Seq<StrError> {
        self.context@
    }

    /// The backtrace taken when the error was wrapped, if one could be.
    pub closed spec fn backtrace(&self) -> Snapshot {
        self.backtrace
    }

    /// Wraps an error. The backtrace is taken here, once; the context
    /// starts empty.
    pub fn new(source: T) -> (traced: Self)
        ensures
            traced.payload() == source,
            traced.messages() == Seq::<StrError>::empty(),
    {
        TracedError { inner: source, backtrace: Snapshot::take(), context: Vec::new() }
    }

    /// The same error on the heap, with the messages and the backtrace it had.
    pub fn traced_dyn(self) -> (traced: TracedError<Box<T>>) where Box<T>: AnyError
        ensures
            *traced.payload() == self.payload(),
            traced.messages() == self.messages(),
            traced.backtrace() == self.backtrace(),
    {
        TracedError { inner: Box::new(self.inner), backtrace: self.backtrace, context: self.context }
    }

    /// The error, without its trace.
    pub fn into_inner(self) -> (inner: T)
        ensures
            inner == self.payload(),
    {
        self.inner
    }

    /// The error, borrowed.
    pub fn inner(&self) -> (inner: &T)
        ensures
            *inner == self.payload(),
    {
        &self.inner
    }

    /// The error, borrowed to be changed. The trace stays.
    pub fn inner_mut(&mut self) -> (inner: &mut T)
        ensures
            *inner == old(self).payload(),
            final(self).payload() == *final(inner),
            final(self).messages() == old(self).messages(),
            final(self).backtrace() == old(self).backtrace(),
    {
        &mut self.inner
    }

    /// The messages pushed so far, oldest first.
    pub fn context_messages(&self) -> (messages: &Vec<StrError>)
        ensures
            messages@ == self.messages(),
    {
        &self.context
    }

    /// The backtrace taken when the error was wrapped, if one could be.
    pub fn captured_backtrace(&self) -> (trace: &Snapshot)
        ensures
            *trace == self.backtrace(),
    {
        &self.backtrace
    }

    /// Puts in place of the error what `f` makes of it. The messages and the
    /// backtrace stay.
    pub fn map<U, F>(self, f: F) -> (mapped: TracedError<U>) where U: AnyError, F: FnOnce(T) -> U
        requires
            f.requires((self.payload(),)),
        ensures
            f.ensures((self.payload(),), mapped.payload()),
            mapped.messages() == self.messages(),
            mapped.backtrace() == self.backtrace(),
    {
        TracedError { inner: f(self.inner), backtrace: self.backtrace, context: self.context }
    }

    /// Pushes a message on the context trace, after those already there.
    pub fn context<C: Into<StrError>>(self, context: C) -> (traced: Self)
        ensures
            traced.payload() == self.payload(),
            traced.backtrace() == self.backtrace(),
            traced.messages().len() == self.messages().len() + 1,
            traced.messages().drop_last() == self.messages(),
            C::obeys_into_spec() ==> traced.messages() == self.messages().push(context.into_spec()),
    {
        let message: StrError = context.into();
        let mut messages = self.context;
        messages.push(message);
        assert(messages@.drop_last() =~= self.context@);
        TracedError { inner: self.inner, backtrace: self.backtrace, context: messages }
    }

    /// Pushes the message that `f` makes on the context trace.
    pub fn with_context<F, C: Into<StrError>>(self, f: F) -> (traced: TracedError<T>) where
        F: FnOnce() -> C,

        requires
            f.requires(()),
        ensures
            traced.payload() == self.payload(),
            traced.backtrace() == self.backtrace(),
            traced.messages().len() == self.messages().len() + 1,
            traced.messages().drop_last() == self.messages(),
            exists|made: C| #[trigger]
                f.ensures((), made) && (C::obeys_into_spec() ==> traced.messages()
                    == self.messages().push(made.into_spec())),
    {
        let made = f();
        let ghost witness = made;
        let traced = self.context(made);
        assert(f.ensures((), witness) && (C::obeys_into_spec() ==> traced.messages()
            == self.messages().push(witness.into_spec())));
        traced
    }

    /// The cause of the error, as `cause` finds it.
    pub fn source<'a, S, F: FnOnce(&'a T) -> Option<S>>(&'a self, cause: F) -> (source: Option<S>)
        requires
            cause.requires((&self.payload(),)),
        ensures
            cause.ensures((&self.payload(),), source),
    {
        cause(&self.inner)
    }

    /// The text that displays the traced error: that of the error, then the
    /// messages pushed on it, oldest first.
    pub fn to_string(&self) -> (text: String)
        ensures
            displays_traced(&self.payload(), texts(self.messages()), text@),
    {
        let mut text = self.inner.display();
        let ghost head = text@;
        write_context(&mut text, &self.context);
        assert(self.inner.displays(head) && text@ == traced_text(head, texts(self.context@)));
        text
    }

    /// The text that shows the traced error for debugging: what displays it,
    /// then the backtrace if one was captured.
    pub fn to_debug_string(&self) -> (text: String)
        ensures
            debugs_traced(
                &self.payload(),
                texts(self.messages()),
                self.backtrace().shown(),
                text@,
            ),
    {
        let mut text = self.inner.display();
        let ghost head = text@;
        write_context(&mut text, &self.context);
        write_backtrace(&mut text, &self.backtrace);
        assert(self.inner.displays(head) && text@ == debug_text(
            head,
            texts(self.context@),
            self.backtrace.shown(),
        ));
        text
    }
}

impl<S, E, const A: u64> IntoTraced<Result<S, TracedError<E>>> for Result<
    S,
    ErrorUnion<TracedError<E>, Cons<A, End>>,
> where E: AnyError {
    /// The traced error that the union holds is handed out as it is.
    fn into_traced(self) -> (outcome: Result<S, TracedError<E>>)
        ensures
            match (self, outcome) {
                (Ok(value), Ok(same)) => same == value,
                (Err(union), Err(traced)) => traced == union.payload(),
                _ => false,
            },
    {
        match self {
            Ok(value) => Ok(value),
            Err(union) => Err(union.into_inner()),
        }
    }
}

impl<T: AnyError> Contextable for TracedError<T> {
    open spec fn with_message(&self, message: StrContext, after: Self) -> bool {
        &&& after.payload() == self.payload()
        &&& after.backtrace() == self.backtrace()
        &&& after.messages() == self.messages().push(message)
    }

    fn add_context(&mut self, message: StrContext) {
        self.context.push(message);
    }
}

impl TracedError<StrError> {
    /// The traced error for a chain of texts that arrives from elsewhere:
    /// `root` is the error itself, `links` are its causes in order, and
    /// `trace` is the backtrace that came with it, if one was captured.
    ///
    /// A backtrace that came along is written into the root's text and none
    /// is kept beside it; where none came, one is taken now. The links become
    /// the messages.
    pub fn from_chain(root: String, links: Vec<String>, trace: Option<String>) -> (traced: Self)
        ensures
            traced.payload()@ == chain_root(
                root@,
                match trace {
                    Some(came) => Some(came@),
                    None => None,
                },
            ),
            trace is Some ==> !traced.backtrace().captured(),
            traced.messages().len() == links@.len(),
            forall|i: int|
                0 <= i < links@.len() ==> #[trigger] traced.messages()[i] == StrContext::Owned(
                    links@[i],
                ),
    {
        let mut text = root;
        let backtrace = match trace {
            Some(came) => {
                text.append("\n\nBacktrace:\n");
                text.append(came.as_str());
                Snapshot::disabled()
            },
            None => Snapshot::take(),
        };
        let mut context: Vec<StrError> = Vec::new();
        let mut links = links;
        let ghost all = links@;
        while links.len() > 0
            invariant
                context@.len() + links@.len() == all.len(),
                forall|i: int| 0 <= i < links@.len() ==> links@[i] == all[context@.len() + i],
                forall|i: int|
                    0 <= i < context@.len() ==> #[trigger] context@[i] == StrContext::Owned(all[i]),
            decreases links@.len(),
        {
            let link = links.remove(0);
            context.push(StrContext::Owned(link));
        }
        TracedError { inner: StrContext::Owned(text), backtrace, context }
    }
}

/// The backtrace is taken when the error is made, so what comes back is not
/// a function of the text alone.
impl vstd::std_specs::convert::FromSpecImpl<String> for TracedError<StrError> {
    open spec fn obeys_from_spec() -> bool {
        false
    }

    open spec fn from_spec(s: String) -> Self {
        arbitrary()
    }
}

impl From<String> for TracedError<StrError> {
    fn from(s: String) -> (traced: Self)
        ensures
            traced.payload() == StrContext::Owned(s),
            traced.messages() == Seq::<StrError>::empty(),
    {
        TracedError::new(StrContext::Owned(s))
    }
}

/// The backtrace is taken when the error is made, so what comes back is not
/// a function of the text alone.
impl vstd::std_specs::convert::FromSpecImpl<&'static str> for TracedError<StrError> {
    open spec fn obeys_from_spec() -> bool {
        false
    }

    open spec fn from_spec(s: &'static str) -> Self {
        arbitrary()
    }
}

impl From<&'static str> for TracedError<StrError> {
    fn from(s: &'static str) -> (traced: Self)
        ensures
            traced.payload() == StrContext::Static(s),
            traced.messages() == Seq::<StrError>::empty(),
    {
        TracedError::new(StrContext::Static(s))
    }
}

/// The backtrace is taken when the error is made, so what comes back is not
/// a function of the text alone.
impl vstd::std_specs::convert::FromSpecImpl<Cow<'static, str>> for TracedError<StrError> {
    open spec fn obeys_from_spec() -> bool {
        false
    }

    open spec fn from_spec(s: Cow<'static, str>) -> Self {
        arbitrary()
    }
}

impl From<Cow<'static, str>> for TracedError<StrError> {
    fn from(s: Cow<'static, str>) -> (traced: Self)
        ensures
            traced.payload()@ == s@,
            traced.messages() == Seq::<StrError>::empty(),
    {
        let message: StrContext = StrContext::from(s);
        TracedError::new(message)
    }
}

/// Wrapping an error, on the heap, into a traced error.
pub trait TracedDyn<O2>: Sized {
    /// The error, moved to the heap and wrapped.
    fn traced_dyn(self) -> O2;
}

impl<E> TracedDyn<TracedError<Box<E>>> for E where E: AnyError, Box<E>: AnyError {
    fn traced_dyn(self) -> (traced: TracedError<Box<E>>)
        ensures
            *traced.payload() == self,
            traced.messages() == Seq::<StrError>::empty(),
    {
        TracedError::new(Box::new(self))
    }
}

impl<S, E> TracedDyn<Result<S, TracedError<Box<E>>>> for Result<S, E> where
    E: AnyError,
    Box<E>: AnyError,
 {
    fn traced_dyn(self) -> (outcome: Result<S, TracedError<Box<E>>>)
        ensures
            match (self, outcome) {
                (Ok(value), Ok(same)) => same == value,
                (Err(error), Err(traced)) => *traced.payload() == error && traced.messages()
                    == Seq::<StrError>::empty(),
                _ => false,
            },
    {
        match self {
            Ok(value) => Ok(value),
            Err(error) => Err(error.traced_dyn()),
        }
    }
}

impl<S, E> TracedDyn<Result<S, TracedError<Box<E>>>> for Result<S, TracedError<E>> where
    E: AnyError,
    Box<E>: AnyError,
 {
    fn traced_dyn(self) -> (outcome: Result<S, TracedError<Box<E>>>)
        ensures
            match (self, outcome) {
                (Ok(value), Ok(same)) => same == value,
                (Err(before), Err(traced)) => *traced.payload() == before.payload()
                    && traced.messages() == before.messages() && traced.backtrace()
                    == before.backtrace(),
                _ => false,
            },
    {
        match self {
            Ok(value) => Ok(value),
            Err(traced) => Err(TracedError::traced_dyn(traced)),
        }
    }
}

/// Wrapping an error into a traced error of the same type.
pub trait Traced<O1>: Sized {
    /// The error, wrapped.
    fn traced(self) -> O1;
}

impl<E> Traced<TracedError<E>> for E where E: AnyError {
    fn traced(self) -> (traced: TracedError<E>)
        ensures
            traced.payload() == self,
            traced.messages() == Seq::<StrError>::empty(),
    {
        TracedError::new(self)
    }
}

impl<S, E> Traced<Result<S, TracedError<E>>> for Result<S, E> where E: AnyError {
    fn traced(self) -> (outcome: Result<S, TracedError<E>>)
        ensures
            match (self, outcome) {
                (Ok(value), Ok(same)) => same == value,
                (Err(error), Err(traced)) => traced.payload() == error && traced.messages()
                    == Seq::<StrError>::empty(),
                _ => false,
            },
    {
        match self {
            Ok(value) => Ok(value),
            Err(error) => Err(error.traced()),
        }
    }
}

impl<S, E, const A: u64> Traced<Result<S, TracedError<E>>> for Result<
    S,
    ErrorUnion<TracedError<E>, Cons<A, End>>,
> where E: AnyError {
    /// The traced error that the union holds is handed out as it is.
    fn traced(self) -> (outcome: Result<S, TracedError<E>>)
        ensures
            match (self, outcome) {
                (Ok(value), Ok(same)) => same == value,
                (Err(union), Err(traced)) => traced == union.payload(),
                _ => false,
            },
    {
        match self {
            Ok(value) => Ok(value),
            Err(union) => Err(union.into_inner()),
        }
    }
}

/// Wrapping an error into a traced error of the type it converts into.
pub trait IntoTraced<O1>: Sized {
    /// The error, converted and wrapped.
    fn into_traced(self) -> O1;
}

impl<E1, E2> IntoTraced<TracedError<E2>> for E1 where E1: AnyError, E2: AnyError, E1: Into<E2> {
    fn into_traced(self) -> (traced: TracedError<E2>)
        ensures
            E1::obeys_into_spec() ==> traced.payload() == self.into_spec(),
            traced.messages() == Seq::<StrError>::empty(),
    {
        TracedError::new(self.into())
    }
}

impl<S, E1, E2> IntoTraced<Result<S, TracedError<E2>>> for Result<S, E1> where
    E1: AnyError,
    E2: AnyError,
    E1: Into<E2>,
 {
    fn into_traced(self) -> (outcome: Result<S, TracedError<E2>>)
        ensures
            match (self, outcome) {
                (Ok(value), Ok(same)) => same == value,
                (Err(error), Err(traced)) => traced.messages() == Seq::<StrError>::empty() && (
                E1::obeys_into_spec() ==> traced.payload() == error.into_spec()),
                _ => false,
            },
    {
        match self {
            Ok(value) => Ok(value),
            Err(error) => Err(error.into_traced()),
        }
    }
}

impl<S, E1, E2> IntoTraced<Result<S, TracedError<E2>>> for Result<S, TracedError<E1>> where
    E1: AnyError,
    E2: AnyError,
    E1: Into<E2>,
 {
    fn into_traced(self) -> (outcome: Result<S, TracedError<E2>>)
        ensures
            match (self, outcome) {
                (Ok(value), Ok(same)) => same == value,
                (Err(before), Err(traced)) => traced.messages() == before.messages()
                    && traced.backtrace() == before.backtrace() && (E1::obeys_into_spec()
                    ==> traced.payload() == before.payload().into_spec()),
                _ => false,
            },
    {
        match self {
            Ok(value) => Ok(value),
            Err(traced) => Err(
                TracedError {
                    inner: traced.inner.into(),
                    backtrace: traced.backtrace,
                    context: traced.context,
                },
            ),
        }
    }
}

/// The backtrace is taken when the error is wrapped, so what comes back is
/// not a function of the error alone.
impl<T: AnyError> vstd::std_specs::convert::FromSpecImpl<T> for TracedError<T> {
    open spec fn obeys_from_spec() -> bool {
        false
    }

    open spec fn from_spec(e: T) -> Self {
        arbitrary()
    }
}

impl<T: AnyError> From<T> for TracedError<T> {
    fn from(e: T) -> (traced: Self)
        ensures
            traced.payload() == e,
            traced.messages() == Seq::<StrError>::empty(),
    {
        TracedError::new(e)
    }
}

} // verus!
