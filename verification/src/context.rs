//! Pushing context on whatever may carry it: a union inside a `Result`, a
//! bare error, or an `Option` that should have held a value.

use crate::str_error::StrContext;
use crate::traced_union::{SendSyncError, TracedUnion, ANY_ERROR};
use crate::type_set::{Cons, End, TypeSet};
use vstd::prelude::*;
use vstd::std_specs::convert::IntoSpec;
use vstd::string::*;

verus! {

/// A payload that keeps the context pushed on it.
pub trait Contextable: Sized {
    /// Whether `after` is this value with `message` pushed on it and all
    /// else as it was.
    spec fn with_message(&self, message: StrContext, after: Self) -> bool;

    /// Pushes a message, after those already there.
    fn add_context(&mut self, message: StrContext)
        ensures
            old(self).with_message(message, *final(self)),
    ;
}

/// Adds context to a value, which becomes an `O`.
pub trait Context<O>: Sized {
    /// Pushes a message.
    fn context<C: Into<StrContext>>(self, context: C) -> O;

    /// Pushes the message that `f` makes. Where there is no error to push
    /// it on, `f` is not called.
    fn with_context<F, C: Into<StrContext>>(self, f: F) -> O where F: FnOnce() -> C
        requires
            f.requires(()),
    ;
}

/// Whether `union` is freshly built from `error`, under the candidate for
/// forgotten types, with one message on it: `pushed`, where the conversion
/// into a message is known.
pub open spec fn wrapped_with<P, C: Into<StrContext>>(
    error: P,
    union: &TracedUnion<P>,
    pushed: C,
) -> bool {
    &&& union.key() == ANY_ERROR
    &&& union.payload() == error
    &&& union.messages().len() == 1
    &&& union.valid()
    &&& (C::obeys_into_spec() ==> union.messages() == seq![pushed.into_spec()])
}

impl<T, P, E: TypeSet> Context<Result<T, TracedUnion<P, E>>> for Result<T, TracedUnion<P, E>> {
    fn context<C: Into<StrContext>>(self, context: C) -> (outcome: Result<T, TracedUnion<P, E>>)
        ensures
            match (self, outcome) {
                (Ok(value), Ok(same)) => same == value,
                (Err(before), Err(after)) => before.pushed_from(context, &after),
                _ => false,
            },
    {
        match self {
            Ok(value) => Ok(value),
            Err(union) => Err(union.context(context)),
        }
    }

    fn with_context<F, C: Into<StrContext>>(self, f: F) -> (outcome: Result<
        T,
        TracedUnion<P, E>,
    >) where F: FnOnce() -> C
        ensures
            match (self, outcome) {
                (Ok(value), Ok(same)) => same == value,
                (Err(before), Err(after)) => exists|made: C| #[trigger]
                    f.ensures((), made) && before.pushed_from(made, &after),
                _ => false,
            },
    {
        match self {
            Ok(value) => Ok(value),
            Err(union) => {
                let made = f();
                let ghost witness = made;
                let after = union.context(made);
                assert(f.ensures((), witness) && union.pushed_from(witness, &after));
                Err(after)
            },
        }
    }
}

impl<T, P: SendSyncError> Context<Result<T, TracedUnion<P>>> for Result<T, P> {
    fn context<C: Into<StrContext>>(self, context: C) -> (outcome: Result<T, TracedUnion<P>>)
        ensures
            match (self, outcome) {
                (Ok(value), Ok(same)) => same == value,
                (Err(error), Err(union)) => wrapped_with(error, &union, context),
                _ => false,
            },
    {
        match self {
            Ok(value) => Ok(value),
            Err(error) => Err(error.context(context)),
        }
    }

    fn with_context<F, C: Into<StrContext>>(self, f: F) -> (outcome: Result<
        T,
        TracedUnion<P>,
    >) where F: FnOnce() -> C
        ensures
            match (self, outcome) {
                (Ok(value), Ok(same)) => same == value,
                (Err(error), Err(union)) => exists|made: C| #[trigger]
                    f.ensures((), made) && wrapped_with(error, &union, made),
                _ => false,
            },
    {
        match self {
            Ok(value) => Ok(value),
            Err(error) => Err(error.with_context(f)),
        }
    }
}

impl<P: SendSyncError> Context<TracedUnion<P>> for P {
    fn context<C: Into<StrContext>>(self, context: C) -> (union: TracedUnion<P>)
        ensures
            wrapped_with(self, &union, context),
    {
        proof {
            assert(Cons::<ANY_ERROR, End>::keys() =~= seq![ANY_ERROR]);
        }
        let fresh: TracedUnion<P> = TracedUnion::any_error::<End>(self);
        let union = fresh.context(context);
        proof {
            let message = choose|message: StrContext| fresh.pushed(message, &union);
            assert(union.messages() =~= seq![message]);
            if C::obeys_into_spec() {
                assert(union.messages() =~= seq![context.into_spec()]);
            }
        }
        union
    }

    fn with_context<F, C: Into<StrContext>>(self, f: F) -> (union: TracedUnion<P>) where
        F: FnOnce() -> C,

        ensures
            exists|made: C| #[trigger] f.ensures((), made) && wrapped_with(self, &union, made),
    {
        let made = f();
        let ghost witness = made;
        let union = self.context(made);
        assert(f.ensures((), witness) && wrapped_with(self, &union, witness));
        union
    }
}

/// The error of an `Option` that was `None` where a value was expected. It
/// says nothing of its own: the context pushed with it says what was missing.
#[derive(Debug, Clone, Copy, PartialEq, Eq, PartialOrd, Ord, Hash, Default)]
pub struct AbsentValueError(());

impl AbsentValueError {
    /// The text that displays the error.
    pub open spec fn text() -> Seq<char> {
        "An `Option` was unexpectedly `None`"@
    }
}

impl SendSyncError for AbsentValueError {
    open spec fn displays(&self, text: Seq<char>) -> bool {
        text == Self::text()
    }

    fn display(&self) -> (text: String) {
        String::from_str("An `Option` was unexpectedly `None`")
    }

    open spec fn debugs(&self, text: Seq<char>) -> bool {
        text == "AbsentValueError(())"@
    }

    fn debug(&self) -> (text: String) {
        String::from_str("AbsentValueError(())")
    }
}

impl<T> Context<Result<T, TracedUnion<AbsentValueError>>> for Option<T> {
    /// A value passes; `None` becomes an [`AbsentValueError`] with the
    /// message pushed on it.
    fn context<C: Into<StrContext>>(self, context: C) -> (outcome: Result<
        T,
        TracedUnion<AbsentValueError>,
    >)
        ensures
            match (self, outcome) {
                (Some(value), Ok(same)) => same == value,
                (None, Err(union)) => wrapped_with(union.payload(), &union, context),
                _ => false,
            },
    {
        match self {
            Some(value) => Ok(value),
            None => Err(AbsentValueError(()).context(context)),
        }
    }

    /// A value passes; `None` becomes an [`AbsentValueError`] with the
    /// message that `f` makes pushed on it.
    fn with_context<F, C: Into<StrContext>>(self, f: F) -> (outcome: Result<
        T,
        TracedUnion<AbsentValueError>,
    >) where F: FnOnce() -> C
        ensures
            match (self, outcome) {
                (Some(value), Ok(same)) => same == value,
                (None, Err(union)) => exists|made: C| #[trigger]
                    f.ensures((), made) && wrapped_with(union.payload(), &union, made),
                _ => false,
            },
    {
        match self {
            Some(value) => Ok(value),
            None => Err(AbsentValueError(()).with_context(f)),
        }
    }
}

} // verus!
