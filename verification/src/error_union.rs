//! A union that keeps no trace of its own: the context sits in the payload.

use crate::backtrace::Snapshot;
use crate::context::{Context, Contextable};
use crate::generic_error::{AnyError, TracedError};
use crate::render::debug_text;
use crate::str_error::StrContext;
use crate::traced_union::{SendSyncError, Tag};
use crate::type_set::{
    distinct, position_of, remove_key, subtract, Cons, Contains, DebugFold, DisplayFold, End,
    ErrorFold, IsFold, Narrow, SupersetOf, TypeKey, TypeSet,
};
use crate::union_to_enum::{EnumForm, E1};
use vstd::prelude::*;
use vstd::std_specs::convert::IntoSpec;
use vstd::string::*;

verus! {

/// A value of one of the candidate types of the list `E`, and nothing else:
/// where the payload can carry context, context pushed on the union goes
/// into the payload.
#[derive(Debug)]
pub struct ErrorUnion<P, E: TypeSet> {
    tag: Tag<E>,
    value: P,
}

impl<P, E: TypeSet> ErrorUnion<P, E> {
    /// The identity of the payload's type.
    pub closed spec fn key(&self) -> TypeKey {
        self.tag.key()
    }

    /// The value that the union holds.
    pub closed spec fn payload(&self) -> P {
        self.value
    }

    /// What holds of every union: the identity of its payload's type is a
    /// candidate of the list, and the list names no candidate twice.
    pub open spec fn valid(&self) -> bool {
        E::keys().contains(self.key()) && distinct::<E>()
    }

    /// Whether `other` holds the same payload, of the same identity.
    pub open spec fn carried_by<E2: TypeSet>(&self, other: &ErrorUnion<P, E2>) -> bool {
        other.key() == self.key() && other.payload() == self.payload()
    }

    /// The union that holds `value` under the candidate `key`.
    pub closed spec fn holding(key: TypeKey, value: P) -> Self {
        ErrorUnion { tag: Tag::spec_of(key), value }
    }

    /// Builds a union from a value of the candidate `KEY`.
    pub fn new<const KEY: u64, Index>(t: P) -> (union: ErrorUnion<P, E>) where
        P: Contextable,
        E: Contains<KEY, Index>,

        requires
            distinct::<E>(),
        ensures
            union == Self::holding(KEY, t),
            union.key() == KEY,
            union.payload() == t,
            union.valid(),
    {
        proof {
            <E as Contains<KEY, Index>>::contained();
        }
        ErrorUnion { tag: Tag::of(KEY), value: t }
    }

    /// The identity of the payload's type.
    pub fn type_key(&self) -> (key: TypeKey)
        ensures
            key == self.key(),
            self.valid(),
    {
        self.tag.get()
    }

    /// Takes the payload out if it is of the candidate `TARGET`; else hands
    /// the union back over the list without `TARGET`.
    pub fn narrow<const TARGET: u64, Index>(self) -> (outcome: Result<
        P,
        ErrorUnion<P, <E as Narrow<TARGET, Index>>::Remainder>,
    >) where E: Narrow<TARGET, Index>
        ensures
            match outcome {
                Ok(value) => self.key() == TARGET && value == self.payload(),
                Err(rest) => self.key() != TARGET && self.carried_by(&rest) && rest.valid(),
            },
            <E as Narrow<TARGET, Index>>::Remainder::keys() == remove_key(E::keys(), TARGET),
    {
        let key = self.tag.get();
        proof {
            <E as Narrow<TARGET, Index>>::narrowed();
        }
        if key == TARGET {
            Ok(self.value)
        } else {
            Err(ErrorUnion { tag: self.tag.relabel(), value: self.value })
        }
    }

    /// Relabels the union over a list that covers its own, in any order.
    pub fn widen<Other, Index>(self) -> (wide: ErrorUnion<P, Other>) where
        Other: TypeSet + SupersetOf<E, Index>,

        requires
            distinct::<Other>(),
        ensures
            self.carried_by(&wide),
            wide.valid(),
    {
        let key = self.tag.get();
        proof {
            <Other as SupersetOf<E, Index>>::covered();
        }
        ErrorUnion { tag: self.tag.relabel(), value: self.value }
    }

    /// Splits the union: over `TargetList` if the payload is of one of its
    /// candidates, else over what is left of the list without them.
    pub fn subset<TargetList, Index>(self) -> (outcome: Result<
        ErrorUnion<P, TargetList>,
        ErrorUnion<P, <E as SupersetOf<TargetList, Index>>::Remainder>,
    >) where TargetList: IsFold, E: SupersetOf<TargetList, Index>
        ensures
            match outcome {
                Ok(part) => TargetList::keys().contains(self.key()) && self.carried_by(&part)
                    && part.valid(),
                Err(rest) => !TargetList::keys().contains(self.key()) && self.carried_by(&rest)
                    && rest.valid(),
            },
            <E as SupersetOf<TargetList, Index>>::Remainder::keys() == subtract(
                E::keys(),
                TargetList::keys(),
            ),
    {
        let key = self.tag.get();
        proof {
            <E as SupersetOf<TargetList, Index>>::covered();
        }
        if TargetList::is_fold(key) {
            Ok(ErrorUnion { tag: self.tag.relabel(), value: self.value })
        } else {
            Err(ErrorUnion { tag: self.tag.relabel(), value: self.value })
        }
    }

    /// The union as the closed enum that mirrors its list.
    pub fn to_enum(self) -> (mirror: <E as EnumForm<P>>::Enum) where E: EnumForm<P>
        ensures
            <E as EnumForm<P>>::position(&mirror) == position_of(E::keys(), self.key()),
            <E as EnumForm<P>>::content(&mirror) == self.payload(),
    {
        let key = self.tag.get();
        E::pick(key, self.value)
    }

    /// The mirror of the union, over the borrowed payload.
    pub fn as_enum<'a>(&'a self) -> (mirror: <E as EnumForm<&'a P>>::Enum) where
        E: EnumForm<&'a P>,

        ensures
            <E as EnumForm<&'a P>>::position(&mirror) == position_of(E::keys(), self.key()),
            *<E as EnumForm<&'a P>>::content(&mirror) == self.payload(),
    {
        let key = self.tag.get();
        E::pick(key, &self.value)
    }

    /// The cause of the error, as `cause` finds it in the payload.
    pub fn source<'a, S, F: FnOnce(&'a P) -> Option<S>>(&'a self, cause: F) -> (source: Option<S>) where
        E: ErrorFold,

        requires
            cause.requires((&self.payload(),)),
        ensures
            cause.ensures((&self.payload(),), source),
    {
        let key = self.tag.get();
        E::source_fold(key, &self.value, cause)
    }

    /// The text that displays the union: that of its payload.
    pub fn to_string(&self) -> (text: String) where P: SendSyncError, E: DisplayFold
        ensures
            self.payload().displays(text@),
    {
        let key = self.tag.get();
        E::display_fold(key, &self.value).unwrap()
    }

    /// The text that shows the union for debugging: that of its payload.
    pub fn to_debug_string(&self) -> (text: String) where P: SendSyncError, E: DebugFold
        ensures
            self.payload().debugs(text@),
    {
        let key = self.tag.get();
        let none: Vec<StrContext> = Vec::new();
        let trace = Snapshot::disabled();
        let text = E::debug_fold(key, &self.value, &none, &trace).unwrap();
        proof {
            let head = choose|head: Seq<char>| #[trigger]
                self.payload().debugs(head) && text@ == debug_text(
                    head,
                    crate::render::texts(none@),
                    trace.shown(),
                );
            assert(text@ =~= head);
        }
        text
    }
}

impl<T, const A: u64> ErrorUnion<T, Cons<A, End>> {
    /// The payload of a union over a single candidate.
    pub fn take(self) -> (value: T)
        ensures
            value == self.payload(),
            self.key() == A,
    {
        let key = self.tag.get();
        proof {
            assert(Cons::<A, End>::keys()[0] == A);
        }
        self.value
    }

    /// The payload of a union over a single candidate, by way of its mirror.
    pub fn into_inner(self) -> (value: T)
        ensures
            value == self.payload(),
    {
        match self.to_enum() {
            E1::A(inner) => inner,
        }
    }
}

impl<T: AnyError, const A: u64> ErrorUnion<TracedError<T>, Cons<A, End>> {
    /// The traced error that the union holds: it is not wrapped again.
    pub fn traced(self) -> (traced: TracedError<T>)
        ensures
            traced == self.payload(),
    {
        self.into_inner()
    }
}

impl<T: AnyError, const A: u64> ErrorUnion<TracedError<Box<T>>, Cons<A, End>> where Box<T>: AnyError {
    /// The traced error that the union holds, which is on the heap already:
    /// it is not wrapped again.
    pub fn traced_dyn(self) -> (traced: TracedError<Box<T>>)
        ensures
            traced == self.payload(),
    {
        self.into_inner()
    }
}

impl<T, P: Contextable, E: TypeSet> Context<Result<T, ErrorUnion<P, E>>> for Result<
    T,
    ErrorUnion<P, E>,
> {
    /// Pushes the message on the payload of the error. A success passes.
    fn context<C: Into<StrContext>>(self, context: C) -> (outcome: Result<T, ErrorUnion<P, E>>)
        ensures
            match (self, outcome) {
                (Ok(value), Ok(same)) => same == value,
                (Err(before), Err(after)) => after.key() == before.key() && (C::obeys_into_spec()
                    ==> before.payload().with_message(context.into_spec(), after.payload())),
                _ => false,
            },
    {
        match self {
            Ok(value) => Ok(value),
            Err(union) => {
                let mut union = union;
                union.value.add_context(context.into());
                Err(union)
            },
        }
    }

    /// Pushes the message that `f` makes on the payload of the error.
    fn with_context<F, C: Into<StrContext>>(self, f: F) -> (outcome: Result<
        T,
        ErrorUnion<P, E>,
    >) where F: FnOnce() -> C
        ensures
            match (self, outcome) {
                (Ok(value), Ok(same)) => same == value,
                (Err(before), Err(after)) => after.key() == before.key() && exists|made: C| #[trigger]
                    f.ensures((), made) && (C::obeys_into_spec() ==> before.payload().with_message(
                        made.into_spec(),
                        after.payload(),
                    )),
                _ => false,
            },
    {
        match self {
            Ok(value) => Ok(value),
            Err(union) => {
                let mut union = union;
                let made = f();
                let ghost witness = made;
                let ghost before = union;
                union.value.add_context(made.into());
                assert(f.ensures((), witness) && (C::obeys_into_spec()
                    ==> before.payload().with_message(witness.into_spec(), union.payload())));
                Err(union)
            },
        }
    }
}

/// Widening and narrowing on a `Result` whose error is a union.
pub trait ReshapeUnionResult<S, P, E: TypeSet>: Sized {
    /// Relabels the error over a list that covers its own. A success passes.
    fn widen<Other, Index>(self) -> Result<S, ErrorUnion<P, Other>> where
        Other: TypeSet + SupersetOf<E, Index>,

        requires
            distinct::<Other>(),
    ;

    /// Takes the payload out of the error if it is of the candidate `TARGET`;
    /// else hands back, as the failure, the success or the narrowed error.
    fn narrow<const TARGET: u64, Index>(self) -> Result<
        P,
        Result<S, ErrorUnion<P, <E as Narrow<TARGET, Index>>::Remainder>>,
    > where E: Narrow<TARGET, Index>;
}

impl<S, P, E: TypeSet> ReshapeUnionResult<S, P, E> for Result<S, ErrorUnion<P, E>> {
    fn widen<Other, Index>(self) -> (wide: Result<S, ErrorUnion<P, Other>>) where
        Other: TypeSet + SupersetOf<E, Index>,

        ensures
            match (self, wide) {
                (Ok(value), Ok(same)) => same == value,
                (Err(union), Err(relabelled)) => union.carried_by(&relabelled),
                _ => false,
            },
    {
        match self {
            Ok(value) => Ok(value),
            Err(union) => Err(union.widen::<Other, Index>()),
        }
    }

    fn narrow<const TARGET: u64, Index>(self) -> (outcome: Result<
        P,
        Result<S, ErrorUnion<P, <E as Narrow<TARGET, Index>>::Remainder>>,
    >) where E: Narrow<TARGET, Index>
        ensures
            match (self, outcome) {
                (Ok(value), Err(Ok(same))) => same == value,
                (Err(union), Ok(payload)) => union.key() == TARGET && payload == union.payload(),
                (Err(union), Err(Err(rest))) => union.key() != TARGET && union.carried_by(&rest),
                _ => false,
            },
    {
        match self {
            Ok(value) => Err(Ok(value)),
            Err(union) => match union.narrow::<TARGET, Index>() {
                Ok(payload) => Ok(payload),
                Err(rest) => Err(Err(rest)),
            },
        }
    }
}

/// Turning the error of a `Result` into a union that holds it.
pub trait IntoUnionResult<S, F>: Sized {
    /// The error becomes a union over `Other`, under the candidate `KEY`.
    fn union<const KEY: u64, Index, Other>(self) -> Result<S, ErrorUnion<F, Other>> where
        Other: TypeSet + Contains<KEY, Index>,

        requires
            distinct::<Other>(),
    ;
}

impl<S, F: Contextable> IntoUnionResult<S, F> for Result<S, F> {
    fn union<const KEY: u64, Index, Other>(self) -> (outcome: Result<S, ErrorUnion<F, Other>>) where
        Other: TypeSet + Contains<KEY, Index>,

        ensures
            match (self, outcome) {
                (Ok(value), Ok(same)) => same == value,
                (Err(error), Err(union)) => union.key() == KEY && union.payload() == error,
                _ => false,
            },
    {
        match self {
            Ok(value) => Ok(value),
            Err(error) => Err(ErrorUnion::new::<KEY, Index>(error)),
        }
    }
}

impl<T: Contextable, const A: u64> vstd::std_specs::convert::FromSpecImpl<T> for ErrorUnion<T, Cons<A, End>> {
    open spec fn obeys_from_spec() -> bool {
        true
    }

    open spec fn from_spec(t: T) -> Self {
        Self::holding(A, t)
    }
}

impl<T: Contextable, const A: u64> From<T> for ErrorUnion<T, Cons<A, End>> {
    /// The union over the single candidate `A` that holds the value.
    fn from(t: T) -> (union: Self)
        ensures
            union.key() == A,
            union.payload() == t,
            union.valid(),
    {
        proof {
            assert(Cons::<A, End>::keys() =~= seq![A]);
        }
        ErrorUnion::new::<A, End>(t)
    }
}

} // verus!
