//! The union itself: one value of one of the candidates of a list, with the
//! context that was pushed on it and the backtrace taken when it was built.

use crate::backtrace::Snapshot;
use crate::render::{debug_text, texts};
use crate::str_error::StrContext;
use crate::type_set::{
    distinct, position_of, remove_key, subtract, Cons, Contains, DebugFold, DisplayFold, End,
    ErrorFold, IsFold, Narrow, SupersetOf, TypeKey, TypeSet,
};
use crate::union_to_enum::EnumForm;
use core::fmt::{Debug, Display};
use core::marker::PhantomData;
use vstd::prelude::*;
use vstd::std_specs::convert::IntoSpec;
use vstd::string::*;

verus! {

/// What a payload must offer to be carried as an error: a text for display
/// and a text for debugging, and leave to be sent to another thread and to
/// be shared between threads.
pub trait SendSyncError: Send + Sync + 'static {
    /// Whether `text` is what displaying the value gives.
    spec fn displays(&self, text: Seq<char>) -> bool;

    fn display(&self) -> (text: String)
        ensures
            self.displays(text@),
    ;

    /// Whether `text` is what debugging the value gives.
    spec fn debugs(&self, text: Seq<char>) -> bool;

    fn debug(&self) -> (text: String)
        ensures
            self.debugs(text@),
    ;
}

/// Whether `text` is what debugging a payload gives, followed by the block of
/// its messages and the block of its backtrace.
pub open spec fn debugs_as<P: SendSyncError>(
    payload: &P,
    items: Seq<Seq<char>>,
    trace: Option<Seq<char>>,
    text: Seq<char>,
) -> bool {
    exists|head: Seq<char>| #[trigger] payload.debugs(head) && text == debug_text(head, items, trace)
}

/// The text that formatting a value with `{:?}` gives. Nothing is claimed of it.
#[verifier::external_body]
fn debug_string<T: Debug>(value: &T) -> (text: String) {
    format!("{:?}", value)
}

impl<T: Display + Debug + Send + Sync + 'static> SendSyncError for T {
    open spec fn displays(&self, text: Seq<char>) -> bool {
        exists|shown: String| shown@ == text && to_string_from_display_ensures::<T>(self, shown)
    }

    fn display(&self) -> (text: String) {
        self.to_string()
    }

    open spec fn debugs(&self, text: Seq<char>) -> bool {
        true
    }

    fn debug(&self) -> (text: String) {
        debug_string(self)
    }
}

impl SendSyncError for StrContext {
    open spec fn displays(&self, text: Seq<char>) -> bool {
        text == self@
    }

    fn display(&self) -> (text: String) {
        self.to_string()
    }

    open spec fn debugs(&self, text: Seq<char>) -> bool {
        text == self@
    }

    fn debug(&self) -> (text: String) {
        self.to_string()
    }
}

/// The candidate that stands for an error whose own type has been forgotten.
pub const ANY_ERROR: u64 = 0;

/// The identity of a payload's type, known to be a candidate of the list `E`,
/// which names no candidate twice.
#[derive(Debug)]
pub struct Tag<E: TypeSet> {
    key: TypeKey,
    _pd: PhantomData<E>,
}

impl<E: TypeSet> Tag<E> {
    #[verifier::type_invariant]
    spec fn well_formed(&self) -> bool {
        E::keys().contains(self.key) && distinct::<E>()
    }

    /// The identity.
    pub closed spec fn key(&self) -> TypeKey {
        self.key
    }

    /// The tag of the candidate `key`, as a value of specifications.
    pub closed spec fn spec_of(key: TypeKey) -> Self {
        Tag { key, _pd: PhantomData }
    }

    /// The tag of the candidate `key`.
    pub fn of(key: TypeKey) -> (tag: Self)
        requires
            E::keys().contains(key),
            distinct::<E>(),
        ensures
            tag == Self::spec_of(key),
            tag.key() == key,
    {
        Tag { key, _pd: PhantomData }
    }

    /// The identity, known to be a candidate of the list.
    pub fn get(&self) -> (key: TypeKey)
        ensures
            key == self.key(),
            E::keys().contains(key),
            distinct::<E>(),
    {
        proof {
            use_type_invariant(self);
        }
        self.key
    }

    /// The same identity under another list that holds it.
    pub fn relabel<Other: TypeSet>(self) -> (tag: Tag<Other>)
        requires
            Other::keys().contains(self.key()),
            distinct::<Other>(),
        ensures
            tag.key() == self.key(),
    {
        Tag { key: self.key, _pd: PhantomData }
    }
}

/// A value of one of the candidate types of the list `E`.
///
/// The list is part of the type and takes no room in the value. The value
/// holds the payload, the identity of the payload's type, the messages pushed
/// on it and the backtrace taken when it was built. The identity is always
/// one of the candidates of `E`, and `E` names no candidate twice.
#[derive(Debug)]
pub struct TracedUnion<P, E: TypeSet = Cons<ANY_ERROR, End>> {
    tag: Tag<E>,
    inner: P,
    backtrace: Snapshot,
    context: Vec<StrContext>,
}

impl<P, E: TypeSet> TracedUnion<P, E> {
    /// What holds of every union: the identity of its payload's type is a
    /// candidate of the list, and the list names no candidate twice.
    pub open spec fn valid(&self) -> bool {
        E::keys().contains(self.key()) && distinct::<E>()
    }

    /// The identity of the payload's type.
    pub closed spec fn key(&self) -> TypeKey {
        self.tag.key()
    }

    /// The value that the union holds.
    pub closed spec fn payload(&self) -> P {
        self.inner
    }

    /// The messages pushed so far, oldest first.
    pub closed spec fn messages(&self) -> Seq<StrContext> {
        self.context@
    }

    /// The backtrace taken when the union was built, if one could be.
    pub closed spec fn backtrace(&self) -> Snapshot {
        self.backtrace
    }

    /// Whether `other` holds the same payload, of the same identity, with the
    /// same messages and the same backtrace: all but the list is the same.
    pub open spec fn carried_by<E2: TypeSet>(&self, other: &TracedUnion<P, E2>) -> bool {
        &&& other.key() == self.key()
        &&& other.payload() == self.payload()
        &&& other.messages() == self.messages()
        &&& other.backtrace() == self.backtrace()
    }

    /// Whether the union is as one newly built from `value` under the
    /// candidate `key`: it holds that value, of that identity, and no message.
    pub open spec fn built_from(&self, key: TypeKey, value: P) -> bool {
        &&& self.key() == key
        &&& self.payload() == value
        &&& self.messages() == Seq::<StrContext>::empty()
        &&& self.valid()
    }

    /// Whether `outcome` is what narrowing the union to the candidate
    /// `target` gives: the payload itself where it is of that candidate;
    /// else the union over the list `R`, with all it carried.
    pub open spec fn narrows_to<R: TypeSet>(
        &self,
        target: TypeKey,
        outcome: Result<P, TracedUnion<P, R>>,
    ) -> bool {
        match outcome {
            Ok(value) => self.key() == target && value == self.payload(),
            Err(rest) => self.key() != target && self.carried_by(&rest) && rest.valid(),
        }
    }

    /// Whether `outcome` is what splitting the union by the list `T` gives:
    /// the union over `T` where the payload is of one of its candidates;
    /// else the union over the list `R`. Either way with all it carried.
    pub open spec fn splits_to<T: TypeSet, R: TypeSet>(
        &self,
        outcome: Result<TracedUnion<P, T>, TracedUnion<P, R>>,
    ) -> bool {
        match outcome {
            Ok(part) => T::keys().contains(self.key()) && self.carried_by(&part) && part.valid(),
            Err(rest) => !T::keys().contains(self.key()) && self.carried_by(&rest) && rest.valid(),
        }
    }

    /// Whether `after` is the union with `message` pushed on its context
    /// and all else as it was.
    pub open spec fn pushed(&self, message: StrContext, after: &Self) -> bool {
        &&& after.key() == self.key()
        &&& after.payload() == self.payload()
        &&& after.backtrace() == self.backtrace()
        &&& after.messages() == self.messages().push(message)
    }

    /// Whether `after` is the union with one message pushed on its context,
    /// which is what `given` converts into where that is known.
    pub open spec fn pushed_from<C: Into<StrContext>>(&self, given: C, after: &Self) -> bool {
        &&& (exists|message: StrContext| self.pushed(message, after))
        &&& (C::obeys_into_spec() ==> self.pushed(given.into_spec(), after))
    }

    /// Builds a union from a value of the candidate `KEY`. The backtrace is
    /// taken here, once; the context starts empty.
    pub fn new<const KEY: u64, Index>(t: P) -> (union: TracedUnion<P, E>) where E: Contains<KEY, Index>
        requires
            distinct::<E>(),
        ensures
            union.built_from(KEY, t),
    {
        proof {
            <E as Contains<KEY, Index>>::contained();
        }
        TracedUnion { tag: Tag::of(KEY), inner: t, backtrace: Snapshot::take(), context: Vec::new() }
    }

    /// Builds a union from an error of the candidate `KEY`.
    pub fn error<const KEY: u64, Index>(t: P) -> (union: TracedUnion<P, E>) where
        P: SendSyncError,
        E: Contains<KEY, Index>,

        requires
            distinct::<E>(),
        ensures
            union.built_from(KEY, t),
    {
        TracedUnion::new::<KEY, Index>(t)
    }

    /// Builds a union from an error whose own type is to be forgotten: it
    /// stands under the candidate `ANY_ERROR`.
    pub fn any_error<Index>(source: P) -> (union: TracedUnion<P, E>) where
        P: SendSyncError,
        E: Contains<ANY_ERROR, Index>,

        requires
            distinct::<E>(),
        ensures
            union.built_from(ANY_ERROR, source),
    {
        TracedUnion::error::<ANY_ERROR, Index>(source)
    }

    /// The identity of the payload's type.
    pub fn type_key(&self) -> (key: TypeKey)
        ensures
            key == self.key(),
            self.valid(),
    {
        proof {
            use_type_invariant(&self.tag);
        }
        self.tag.get()
    }

    /// The messages pushed so far, oldest first.
    pub fn context_messages(&self) -> (messages: &Vec<StrContext>)
        ensures
            messages@ == self.messages(),
    {
        &self.context
    }

    /// The backtrace taken when the union was built, if one could be.
    pub fn captured_backtrace(&self) -> (trace: &Snapshot)
        ensures
            *trace == self.backtrace(),
    {
        &self.backtrace
    }

    /// Takes the payload out if it is of the candidate `TARGET`; else hands
    /// the union back over the list without `TARGET`, with all it carried.
    pub fn narrow<const TARGET: u64, Index>(self) -> (outcome: Result<
        P,
        TracedUnion<P, <E as Narrow<TARGET, Index>>::Remainder>,
    >) where E: Narrow<TARGET, Index>
        ensures
            self.narrows_to(TARGET, outcome),
            <E as Narrow<TARGET, Index>>::Remainder::keys() == remove_key(E::keys(), TARGET),
            !<E as Narrow<TARGET, Index>>::Remainder::keys().contains(TARGET),
    {
        proof {
            use_type_invariant(&self.tag);
            <E as Narrow<TARGET, Index>>::narrowed();
        }
        if self.tag.get() == TARGET {
            Ok(self.inner)
        } else {
            Err(
                TracedUnion {
                    tag: self.tag.relabel(),
                    inner: self.inner,
                    backtrace: self.backtrace,
                    context: self.context,
                },
            )
        }
    }

    /// Relabels the union over a list that covers its own, in any order.
    /// Nothing but the list changes.
    pub fn widen<Other, Index>(self) -> (wide: TracedUnion<P, Other>) where
        Other: TypeSet + SupersetOf<E, Index>,

        requires
            distinct::<Other>(),
        ensures
            self.carried_by(&wide),
            wide.valid(),
    {
        proof {
            use_type_invariant(&self.tag);
            <Other as SupersetOf<E, Index>>::covered();
        }
        TracedUnion {
            tag: self.tag.relabel(),
            inner: self.inner,
            backtrace: self.backtrace,
            context: self.context,
        }
    }

    /// Splits the union: over `TargetList` if the payload is of one of its
    /// candidates, else over what is left of the list without them. Either
    /// way it carries what it carried.
    pub fn subset<TargetList, Index>(self) -> (outcome: Result<
        TracedUnion<P, TargetList>,
        TracedUnion<P, <E as SupersetOf<TargetList, Index>>::Remainder>,
    >) where TargetList: IsFold, E: SupersetOf<TargetList, Index>
        ensures
            self.splits_to(outcome),
            <E as SupersetOf<TargetList, Index>>::Remainder::keys() == subtract(
                E::keys(),
                TargetList::keys(),
            ),
    {
        proof {
            use_type_invariant(&self.tag);
            <E as SupersetOf<TargetList, Index>>::covered();
        }
        if TargetList::is_fold(self.tag.get()) {
            Ok(
                TracedUnion {
                    tag: self.tag.relabel(),
                    inner: self.inner,
                    backtrace: self.backtrace,
                    context: self.context,
                },
            )
        } else {
            Err(
                TracedUnion {
                    tag: self.tag.relabel(),
                    inner: self.inner,
                    backtrace: self.backtrace,
                    context: self.context,
                },
            )
        }
    }

    /// The union as the closed enum that mirrors its list: the payload in the
    /// variant of the position at which its candidate stands.
    pub fn to_enum(self) -> (mirror: <E as EnumForm<P>>::Enum) where E: EnumForm<P>
        ensures
            <E as EnumForm<P>>::position(&mirror) == position_of(E::keys(), self.key()),
            <E as EnumForm<P>>::content(&mirror) == self.payload(),
    {
        let key = self.tag.get();
        E::pick(key, self.inner)
    }

    /// The mirror of the union, over the borrowed payload.
    pub fn ref_enum<'a>(&'a self) -> (mirror: <E as EnumForm<&'a P>>::Enum) where
        E: EnumForm<&'a P>,

        ensures
            <E as EnumForm<&'a P>>::position(&mirror) == position_of(E::keys(), self.key()),
            *<E as EnumForm<&'a P>>::content(&mirror) == self.payload(),
    {
        let key = self.tag.get();
        E::pick(key, &self.inner)
    }

    /// The mirror of the union, over the payload borrowed to be changed.
    pub fn mut_enum<'a>(&'a mut self) -> (mirror: <E as EnumForm<&'a mut P>>::Enum) where
        E: EnumForm<&'a mut P>,

        ensures
            <E as EnumForm<&'a mut P>>::position(&mirror) == position_of(E::keys(), old(self).key()),
            *<E as EnumForm<&'a mut P>>::content(&mirror) == old(self).payload(),
            final(self).payload() == *final(<E as EnumForm<&'a mut P>>::content(&mirror)),
            final(self).key() == old(self).key(),
            final(self).messages() == old(self).messages(),
            final(self).backtrace() == old(self).backtrace(),
    {
        let key = self.tag.get();
        E::pick(key, &mut self.inner)
    }

    /// Pushes a message on the context trace, after those already there.
    pub fn context<C: Into<StrContext>>(self, context: C) -> (union: Self)
        ensures
            self.pushed_from(context, &union),
            union.valid(),
    {
        proof {
            use_type_invariant(&self.tag);
        }
        let message: StrContext = context.into();
        let mut messages = self.context;
        messages.push(message);
        let union = TracedUnion {
            tag: self.tag,
            inner: self.inner,
            backtrace: self.backtrace,
            context: messages,
        };
        assert(self.pushed(message, &union));
        union
    }

    /// Pushes the message that `f` makes on the context trace.
    pub fn with_context<F, C: Into<StrContext>>(self, f: F) -> (union: Self) where F: FnOnce() -> C
        requires
            f.requires(()),
        ensures
            exists|made: C| #[trigger] f.ensures((), made) && self.pushed_from(made, &union),
            union.valid(),
    {
        let made = f();
        let ghost witness = made;
        let union = self.context(made);
        assert(f.ensures((), witness) && self.pushed_from(witness, &union));
        union
    }

    /// The cause of the error, as `cause` finds it in the payload.
    pub fn source<'a, S, F: FnOnce(&'a P) -> Option<S>>(&'a self, cause: F) -> (source: Option<S>) where
        E: ErrorFold,

        requires
            cause.requires((&self.payload(),)),
        ensures
            cause.ensures((&self.payload(),), source),
    {
        proof {
            use_type_invariant(&self.tag);
        }
        E::source_fold(self.tag.get(), &self.inner, cause)
    }

    /// The text that displays the union: that of its payload, and no more.
    pub fn to_string(&self) -> (text: String) where P: SendSyncError, E: DisplayFold
        ensures
            self.payload().displays(text@),
    {
        proof {
            use_type_invariant(&self.tag);
        }
        E::display_fold(self.tag.get(), &self.inner).unwrap()
    }

    /// The text that shows the union for debugging: that of its payload, then
    /// the messages pushed on it, oldest first, then the backtrace if one was
    /// captured.
    pub fn to_debug_string(&self) -> (text: String) where P: SendSyncError, E: DebugFold
        ensures
            debugs_as(
                &self.payload(),
                texts(self.messages()),
                self.backtrace().shown(),
                text@,
            ),
    {
        proof {
            use_type_invariant(&self.tag);
        }
        E::debug_fold(self.tag.get(), &self.inner, &self.context, &self.backtrace).unwrap()
    }
}

impl<P, const A: u64> TracedUnion<P, Cons<A, End>> {
    /// The payload of a union over a single candidate.
    pub fn take(self) -> (value: P)
        ensures
            value == self.payload(),
            self.key() == A,
    {
        proof {
            use_type_invariant(&self.tag);
            assert(Cons::<A, End>::keys()[0] == A);
        }
        self.inner
    }

    /// The payload of a union over a single candidate.
    pub fn into_inner(self) -> (value: P)
        ensures
            value == self.payload(),
    {
        self.inner
    }

    /// The payload, borrowed.
    pub fn inner(&self) -> (value: &P)
        ensures
            *value == self.payload(),
    {
        &self.inner
    }

    /// The payload, borrowed to be changed. All else stays.
    pub fn inner_mut(&mut self) -> (value: &mut P)
        ensures
            *value == old(self).payload(),
            final(self).payload() == *final(value),
            final(self).key() == old(self).key(),
            final(self).messages() == old(self).messages(),
            final(self).backtrace() == old(self).backtrace(),
    {
        &mut self.inner
    }

    /// Puts in place of the payload what `f` makes of it, under the candidate
    /// `KEY`. The messages and the backtrace stay.
    pub fn map<U, const KEY: u64, F>(self, f: F) -> (mapped: TracedUnion<U, Cons<KEY, End>>) where
        F: FnOnce(P) -> U,

        requires
            f.requires((self.payload(),)),
        ensures
            f.ensures((self.payload(),), mapped.payload()),
            mapped.key() == KEY,
            mapped.messages() == self.messages(),
            mapped.backtrace() == self.backtrace(),
    {
        proof {
            assert(Cons::<KEY, End>::keys() =~= seq![KEY]);
            assert(Cons::<KEY, End>::keys()[0] == KEY);
        }
        TracedUnion {
            tag: Tag::of(KEY),
            inner: f(self.inner),
            backtrace: self.backtrace,
            context: self.context,
        }
    }
}

/// Widening and narrowing on a `Result` whose error is a union.
pub trait ReshapeUnion<S, P, E: TypeSet>: Sized {
    /// Relabels the error over a list that covers its own. A success passes.
    fn widen<Other, Index>(self) -> Result<S, TracedUnion<P, Other>> where
        Other: TypeSet + SupersetOf<E, Index>,

        requires
            distinct::<Other>(),
    ;

    /// Takes the payload out of the error if it is of the candidate `TARGET`;
    /// else hands back, as the failure, the success or the narrowed error.
    fn narrow<const TARGET: u64, Index>(self) -> Result<
        P,
        Result<S, TracedUnion<P, <E as Narrow<TARGET, Index>>::Remainder>>,
    > where E: Narrow<TARGET, Index>;
}

impl<S, P, E: TypeSet> ReshapeUnion<S, P, E> for Result<S, TracedUnion<P, E>> {
    fn widen<Other, Index>(self) -> (wide: Result<S, TracedUnion<P, Other>>) where
        Other: TypeSet + SupersetOf<E, Index>,

        ensures
            match (self, wide) {
                (Ok(value), Ok(same)) => same == value,
                (Err(union), Err(relabelled)) => union.carried_by(&relabelled),
                _ => false,
            },
    {
        match self {
            Ok(value) => Ok(value),
            Err(union) => Err(union.widen::<Other, Index>()),
        }
    }

    fn narrow<const TARGET: u64, Index>(self) -> (outcome: Result<
        P,
        Result<S, TracedUnion<P, <E as Narrow<TARGET, Index>>::Remainder>>,
    >) where E: Narrow<TARGET, Index>
        ensures
            match (self, outcome) {
                (Ok(value), Err(Ok(same))) => same == value,
                (Err(union), Ok(payload)) => union.narrows_to::<
                    <E as Narrow<TARGET, Index>>::Remainder,
                >(TARGET, Ok(payload)),
                (Err(union), Err(Err(rest))) => union.narrows_to(TARGET, Err(rest)),
                _ => false,
            },
    {
        match self {
            Ok(value) => Err(Ok(value)),
            Err(union) => match union.narrow::<TARGET, Index>() {
                Ok(payload) => Ok(payload),
                Err(rest) => Err(Err(rest)),
            },
        }
    }
}

/// Turning the error of a `Result` into a union that holds it.
pub trait Union<S, F>: Sized {
    /// The error becomes a union over `Other`, under the candidate `KEY`.
    fn union<const KEY: u64, Index, Other>(self) -> Result<S, TracedUnion<F, Other>> where
        Other: TypeSet + Contains<KEY, Index>,

        requires
            distinct::<Other>(),
    ;
}

impl<S, F: SendSyncError> Union<S, F> for Result<S, F> {
    fn union<const KEY: u64, Index, Other>(self) -> (outcome: Result<S, TracedUnion<F, Other>>) where
        Other: TypeSet + Contains<KEY, Index>,

        ensures
            match (self, outcome) {
                (Ok(value), Ok(same)) => same == value,
                (Err(error), Err(union)) => union.built_from(KEY, error),
                _ => false,
            },
    {
        match self {
            Ok(value) => Ok(value),
            Err(error) => Err(TracedUnion::error::<KEY, Index>(error)),
        }
    }
}

/// Turning the error of a `Result` into a union that holds what the error
/// converts into.
pub trait IntoUnion<S, F>: Sized {
    /// The converted error becomes a union over `Other`, under the candidate `KEY`.
    fn into_union<const KEY: u64, Index, Other>(self) -> Result<S, TracedUnion<F, Other>> where
        Other: TypeSet + Contains<KEY, Index>,

        requires
            distinct::<Other>(),
    ;
}

impl<S, F1, F2> IntoUnion<S, F2> for Result<S, F1> where F1: Into<F2> + SendSyncError {
    fn into_union<const KEY: u64, Index, Other>(self) -> (outcome: Result<
        S,
        TracedUnion<F2, Other>,
    >) where Other: TypeSet + Contains<KEY, Index>
        ensures
            match (self, outcome) {
                (Ok(value), Ok(same)) => same == value,
                (Err(error), Err(union)) => union.key() == KEY && union.messages() == Seq::<
                    StrContext,
                >::empty() && (F1::obeys_into_spec() ==> union.payload() == error.into_spec()),
                _ => false,
            },
    {
        match self {
            Ok(value) => Ok(value),
            Err(error) => Err(TracedUnion::new::<KEY, Index>(error.into())),
        }
    }
}

/// Converting the payload of a union over a single candidate, inside a `Result`.
pub trait IntoUnionSingle<S, F>: Sized {
    /// The payload is converted and stands under the candidate `KEY`; the
    /// messages and the backtrace stay.
    fn into_union<const KEY: u64>(self) -> Result<S, TracedUnion<F, Cons<KEY, End>>>;
}

impl<S, F1, F2, const A: u64> IntoUnionSingle<S, F2> for Result<
    S,
    TracedUnion<F1, Cons<A, End>>,
> where F1: Into<F2> {
    fn into_union<const KEY: u64>(self) -> (outcome: Result<S, TracedUnion<F2, Cons<KEY, End>>>)
        ensures
            match (self, outcome) {
                (Ok(value), Ok(same)) => same == value,
                (Err(union), Err(mapped)) => mapped.key() == KEY && mapped.messages()
                    == union.messages() && mapped.backtrace() == union.backtrace() && (
                F1::obeys_into_spec() ==> mapped.payload() == union.payload().into_spec()),
                _ => false,
            },
    {
        match self {
            Ok(value) => Ok(value),
            Err(union) => {
                proof {
                    assert(Cons::<KEY, End>::keys() =~= seq![KEY]);
                    assert(Cons::<KEY, End>::keys()[0] == KEY);
                }
                Err(
                    TracedUnion {
                        tag: Tag::of(KEY),
                        inner: union.inner.into(),
                        backtrace: union.backtrace,
                        context: union.context,
                    },
                )
            },
        }
    }
}

/// The backtrace is taken when the union is built, so what comes back is not
/// a function of the error alone.
impl<T: SendSyncError, const A: u64> vstd::std_specs::convert::FromSpecImpl<T> for TracedUnion<T, Cons<A, End>> {
    open spec fn obeys_from_spec() -> bool {
        false
    }

    open spec fn from_spec(t: T) -> Self {
        arbitrary()
    }
}

impl<T: SendSyncError, const A: u64> From<T> for TracedUnion<T, Cons<A, End>> {
    /// The union over the single candidate `A` that holds the error.
    fn from(t: T) -> (union: Self)
        ensures
            union.built_from(A, t),
    {
        proof {
            assert(Cons::<A, End>::keys() =~= seq![A]);
        }
        TracedUnion::error::<A, End>(t)
    }
}

} // verus!
