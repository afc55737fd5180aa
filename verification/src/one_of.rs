//! The plain open union: a value of one of several candidates, shown with
//! the context it carries and, for debugging, always with its backtrace.

use crate::backtrace::Snapshot;
use crate::render::{bullets, texts, write_bullets};
use crate::string_kind::StringKind;
use crate::traced_union::{SendSyncError, Tag};
use crate::type_set::{
    distinct, position_of, remove_key, subtract, Cons, Contains, DisplayFold, End, ErrorFold,
    IsFold, Narrow, SupersetOf, TypeKey, TypeSet,
};
use crate::union_to_enum::EnumForm;
use vstd::prelude::*;
use vstd::std_specs::convert::IntoSpec;
use vstd::string::*;

verus! {

/// The candidate that stands for the empty value, which has no text.
pub const UNIT: u64 = 1;

/// A value of one of the candidate types of the list `E`, with its context
/// and the backtrace taken when it was built.
#[derive(Debug)]
pub struct U<P, E: TypeSet> {
    tag: Tag<E>,
    value: P,
    backtrace: Snapshot,
    context: Vec<StringKind>,
}

/// What displays a union: the payload's text, then, where there is context,
/// its heading and the messages, oldest first. After the empty value the
/// heading stands at the start.
pub open spec fn shown_text(head: Seq<char>, key: TypeKey, items: Seq<Seq<char>>) -> Seq<char> {
    if items.len() == 0 {
        head
    } else if key == UNIT {
        head + "Context:"@ + bullets(items, "\n    - "@)
    } else {
        head + "\n\n"@ + "Context:"@ + bullets(items, "\n    - "@)
    }
}

impl<P, E: TypeSet> U<P, E> {
    /// The identity of the payload's type.
    pub closed spec fn key(&self) -> TypeKey {
        self.tag.key()
    }

    /// The value that the union holds.
    pub closed spec fn payload(&self) -> P {
        self.value
    }

    /// The messages of the context, oldest first.
    pub closed spec fn messages(&self) -> Seq<StringKind> {
        self.context@
    }

    /// The backtrace taken when the union was built.
    pub closed spec fn backtrace(&self) -> Snapshot {
        self.backtrace
    }

    /// What holds of every union: the identity of its payload's type is a
    /// candidate of the list, and the list names no candidate twice.
    pub open spec fn valid(&self) -> bool {
        E::keys().contains(self.key()) && distinct::<E>()
    }

    /// Whether `other` holds the same payload, of the same identity, with the
    /// same context and the same backtrace.
    pub open spec fn carried_by<E2: TypeSet>(&self, other: &U<P, E2>) -> bool {
        &&& other.key() == self.key()
        &&& other.payload() == self.payload()
        &&& other.messages() == self.messages()
        &&& other.backtrace() == self.backtrace()
    }

    /// Whether `text` is what displaying the union gives.
    pub open spec fn displays(&self, text: Seq<char>) -> bool where P: SendSyncError {
        exists|head: Seq<char>| #[trigger]
            self.payload().displays(head) && text == shown_text(
                head,
                self.key(),
                texts(self.messages()),
            )
    }

    /// Builds a union from a value of the candidate `KEY`. The backtrace is
    /// taken here, once; the context starts empty.
    pub fn new<const KEY: u64, Index>(t: P) -> (union: U<P, E>) where E: Contains<KEY, Index>
        requires
            distinct::<E>(),
        ensures
            union.key() == KEY,
            union.payload() == t,
            union.messages() == Seq::<StringKind>::empty(),
            union.valid(),
    {
        proof {
            <E as Contains<KEY, Index>>::contained();
        }
        U { tag: Tag::of(KEY), value: t, backtrace: Snapshot::take(), context: Vec::new() }
    }

    /// Pushes a message on the context, after those already there.
    pub fn context<C: Into<StringKind>>(self, context: C) -> (union: Self)
        ensures
            union.key() == self.key(),
            union.payload() == self.payload(),
            union.backtrace() == self.backtrace(),
            union.messages().len() == self.messages().len() + 1,
            union.messages().drop_last() == self.messages(),
            C::obeys_into_spec() ==> union.messages() == self.messages().push(context.into_spec()),
            union.valid(),
    {
        let key = self.tag.get();
        let message: StringKind = context.into();
        let mut messages = self.context;
        messages.push(message);
        assert(messages@.drop_last() =~= self.context@);
        U { tag: self.tag, value: self.value, backtrace: self.backtrace, context: messages }
    }

    /// The identity of the payload's type.
    pub fn type_key(&self) -> (key: TypeKey)
        ensures
            key == self.key(),
            self.valid(),
    {
        self.tag.get()
    }

    /// Takes the payload out if it is of the candidate `TARGET`; else hands
    /// the union back over the list without `TARGET`, with all it carried.
    pub fn narrow<const TARGET: u64, Index>(self) -> (outcome: Result<
        P,
        U<P, <E as Narrow<TARGET, Index>>::Remainder>,
    >) where E: Narrow<TARGET, Index>
        ensures
            match outcome {
                Ok(value) => self.key() == TARGET && value == self.payload(),
                Err(rest) => self.key() != TARGET && self.carried_by(&rest) && rest.valid(),
            },
            <E as Narrow<TARGET, Index>>::Remainder::keys() == remove_key(E::keys(), TARGET),
    {
        let key = self.tag.get();
        proof {
            <E as Narrow<TARGET, Index>>::narrowed();
        }
        if key == TARGET {
            Ok(self.value)
        } else {
            Err(
                U {
                    tag: self.tag.relabel(),
                    value: self.value,
                    backtrace: self.backtrace,
                    context: self.context,
                },
            )
        }
    }

    /// Relabels the union over a list that covers its own, in any order.
    /// Nothing but the list changes.
    pub fn broaden<Other, Index>(self) -> (wide: U<P, Other>) where
        Other: TypeSet + SupersetOf<E, Index>,

        requires
            distinct::<Other>(),
        ensures
            self.carried_by(&wide),
            wide.valid(),
    {
        let key = self.tag.get();
        proof {
            <Other as SupersetOf<E, Index>>::covered();
        }
        U {
            tag: self.tag.relabel(),
            value: self.value,
            backtrace: self.backtrace,
            context: self.context,
        }
    }

    /// Splits the union: over `TargetList` if the payload is of one of its
    /// candidates, else over what is left of the list without them.
    pub fn subset<TargetList, Index>(self) -> (outcome: Result<
        U<P, TargetList>,
        U<P, <E as SupersetOf<TargetList, Index>>::Remainder>,
    >) where TargetList: IsFold, E: SupersetOf<TargetList, Index>
        ensures
            match outcome {
                Ok(part) => TargetList::keys().contains(self.key()) && self.carried_by(&part)
                    && part.valid(),
                Err(rest) => !TargetList::keys().contains(self.key()) && self.carried_by(&rest)
                    && rest.valid(),
            },
            <E as SupersetOf<TargetList, Index>>::Remainder::keys() == subtract(
                E::keys(),
                TargetList::keys(),
            ),
    {
        let key = self.tag.get();
        proof {
            <E as SupersetOf<TargetList, Index>>::covered();
        }
        if TargetList::is_fold(key) {
            Ok(
                U {
                    tag: self.tag.relabel(),
                    value: self.value,
                    backtrace: self.backtrace,
                    context: self.context,
                },
            )
        } else {
            Err(
                U {
                    tag: self.tag.relabel(),
                    value: self.value,
                    backtrace: self.backtrace,
                    context: self.context,
                },
            )
        }
    }

    /// The union as the closed enum that mirrors its list.
    pub fn to_enum(self) -> (mirror: <E as EnumForm<P>>::Enum) where E: EnumForm<P>
        ensures
            <E as EnumForm<P>>::position(&mirror) == position_of(E::keys(), self.key()),
            <E as EnumForm<P>>::content(&mirror) == self.payload(),
    {
        let key = self.tag.get();
        E::pick(key, self.value)
    }

    /// The mirror of the union, over the borrowed payload.
    pub fn as_enum<'a>(&'a self) -> (mirror: <E as EnumForm<&'a P>>::Enum) where
        E: EnumForm<&'a P>,

        ensures
            <E as EnumForm<&'a P>>::position(&mirror) == position_of(E::keys(), self.key()),
            *<E as EnumForm<&'a P>>::content(&mirror) == self.payload(),
    {
        let key = self.tag.get();
        E::pick(key, &self.value)
    }

    /// The cause of the error, as `cause` finds it in the payload.
    pub fn source<'a, S, F: FnOnce(&'a P) -> Option<S>>(&'a self, cause: F) -> (source: Option<S>) where
        E: ErrorFold,

        requires
            cause.requires((&self.payload(),)),
        ensures
            cause.ensures((&self.payload(),), source),
    {
        let key = self.tag.get();
        E::source_fold(key, &self.value, cause)
    }

    /// The text that displays the union: that of its payload, then its
    /// context.
    pub fn to_string(&self) -> (text: String) where P: SendSyncError, E: DisplayFold
        ensures
            self.displays(text@),
    {
        let key = self.tag.get();
        let mut text = E::display_fold(key, &self.value).unwrap();
        let ghost head = text@;
        if self.context.len() > 0 {
            if key != UNIT {
                text.append("\n\n");
            }
            text.append("Context:");
            write_bullets(&mut text, &self.context, "\n    - ");
        }
        assert(self.payload().displays(head) && text@ =~= shown_text(
            head,
            self.key(),
            texts(self.messages()),
        ));
        text
    }

    /// The text that shows the union for debugging: what displays it, then
    /// the backtrace, whether or not it holds frames.
    pub fn to_debug_string(&self) -> (text: String) where P: SendSyncError, E: DisplayFold
        ensures
            exists|shown: Seq<char>| #[trigger]
                self.displays(shown) && text@ == shown + "\n\nBacktrace:\n"@
                    + self.backtrace().text(),
    {
        let mut text = self.to_string();
        let ghost shown = text@;
        text.append("\n\nBacktrace:\n");
        text.append(self.backtrace.as_str());
        assert(self.displays(shown) && text@ == shown + "\n\nBacktrace:\n"@
            + self.backtrace().text());
        text
    }
}

impl<P, const A: u64> U<P, Cons<A, End>> {
    /// The payload of a union over a single candidate.
    pub fn take(self) -> (value: P)
        ensures
            value == self.payload(),
            self.key() == A,
    {
        let key = self.tag.get();
        proof {
            assert(Cons::<A, End>::keys()[0] == A);
        }
        self.value
    }
}

/// The backtrace is taken when the union is built, so what comes back is not
/// a function of the value alone.
impl<T, const A: u64> vstd::std_specs::convert::FromSpecImpl<T> for U<T, Cons<A, End>> {
    open spec fn obeys_from_spec() -> bool {
        false
    }

    open spec fn from_spec(t: T) -> Self {
        arbitrary()
    }
}

impl<T, const A: u64> From<T> for U<T, Cons<A, End>> {
    /// The union over the single candidate `A` that holds the value.
    fn from(t: T) -> (union: Self)
        ensures
            union.key() == A,
            union.payload() == t,
            union.valid(),
    {
        proof {
            assert(Cons::<A, End>::keys() =~= seq![A]);
        }
        U::new::<A, End>(t)
    }
}

} // verus!
