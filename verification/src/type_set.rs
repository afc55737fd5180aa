//! Lists of candidate types, written as types, and the relations between them.
//!
//! A candidate type is named by a [`TypeKey`]. A list of candidates is a type
//! built from [`Cons`] and [`End`]; it has no value at run time. What a list
//! holds is the sequence `keys()`, and every relation between lists is stated
//! over those sequences.

use crate::backtrace::Snapshot;
use crate::render::{debug_text, texts, write_backtrace, write_context};
use crate::str_error::StrContext;
use crate::traced_union::{debugs_as, SendSyncError};
use core::marker::PhantomData;
use vstd::prelude::*;

verus! {

/// The identity of a candidate type.
pub type TypeKey = u64;

/// The end of a list of candidates, and the index of a match at the head.
#[derive(Debug)]
pub enum End {
    Empty,
}

/// A list of candidates: the candidate `HEAD`, then the list `Tail`.
#[derive(Debug)]
pub struct Cons<const HEAD: u64, Tail>(PhantomData<Tail>);

/// The index of a match that lies one step further down the list than `Tail`.
#[derive(Debug)]
pub struct Recurse<Tail>(PhantomData<Tail>);

/// The first position at which `key` stands in `keys`, or the length of `keys`
/// where it stands nowhere.
pub open spec fn position_of(keys: Seq<TypeKey>, key: TypeKey) -> int
    decreases keys.len(),
{
    if keys.len() == 0 {
        0
    } else if keys[0] == key {
        0
    } else {
        1 + position_of(keys.drop_first(), key)
    }
}

/// `keys` without the first slot that holds `key`; `keys` itself where none does.
pub open spec fn remove_key(keys: Seq<TypeKey>, key: TypeKey) -> Seq<TypeKey> {
    if keys.contains(key) {
        keys.remove(position_of(keys, key))
    } else {
        keys
    }
}

/// `keys` after each entry of `other`, in turn, has been taken out of it.
pub open spec fn subtract(keys: Seq<TypeKey>, other: Seq<TypeKey>) -> Seq<TypeKey>
    decreases other.len(),
{
    if other.len() == 0 {
        keys
    } else {
        subtract(remove_key(keys, other[0]), other.drop_first())
    }
}

/// `position_of` finds the first slot that holds the key.
pub proof fn lemma_position_of(keys: Seq<TypeKey>, key: TypeKey)
    ensures
        0 <= position_of(keys, key) <= keys.len(),
        keys.contains(key) <==> position_of(keys, key) < keys.len(),
        keys.contains(key) ==> keys[position_of(keys, key)] == key,
        forall|j: int| 0 <= j < position_of(keys, key) ==> keys[j] != key,
    decreases keys.len(),
{
    if keys.len() == 0 {
    } else if keys[0] == key {
    } else {
        let rest = keys.drop_first();
        lemma_position_of(rest, key);
        let p = position_of(rest, key);
        if rest.contains(key) {
            assert(keys[p + 1] == rest[p]);
        }
        if keys.contains(key) {
            let i = choose|i: int| 0 <= i < keys.len() && keys[i] == key;
            assert(rest[i - 1] == key);
        }
        assert forall|j: int| 0 <= j < p + 1 implies keys[j] != key by {
            if j > 0 {
                assert(rest[j - 1] == keys[j]);
            }
        }
    }
}

/// In a list without duplicates the slot that holds a key is the first one.
pub proof fn lemma_position_distinct(keys: Seq<TypeKey>, key: TypeKey, slot: int)
    requires
        keys.no_duplicates(),
        0 <= slot < keys.len(),
        keys[slot] == key,
    ensures
        position_of(keys, key) == slot,
        remove_key(keys, key) == keys.remove(slot),
{
    lemma_position_of(keys, key);
}

/// Taking a slot out keeps every other key, adds none, and keeps a list
/// without duplicates free of them.
pub proof fn lemma_remove_slot(keys: Seq<TypeKey>, slot: int)
    requires
        0 <= slot < keys.len(),
    ensures
        forall|k: TypeKey| keys.remove(slot).contains(k) ==> keys.contains(k),
        forall|k: TypeKey| keys.contains(k) && k != keys[slot] ==> keys.remove(slot).contains(k),
        keys.no_duplicates() ==> keys.remove(slot).no_duplicates() && !keys.remove(slot).contains(
            keys[slot],
        ),
{
    let rest = keys.remove(slot);
    assert forall|k: TypeKey| rest.contains(k) implies keys.contains(k) by {
        let i = choose|i: int| 0 <= i < rest.len() && rest[i] == k;
        if i < slot {
            assert(keys[i] == k);
        } else {
            assert(keys[i + 1] == k);
        }
    }
    assert forall|k: TypeKey| keys.contains(k) && k != keys[slot] implies rest.contains(k) by {
        let i = choose|i: int| 0 <= i < keys.len() && keys[i] == k;
        if i < slot {
            assert(rest[i] == k);
        } else {
            assert(rest[i - 1] == k);
        }
    }
    if keys.no_duplicates() {
        assert forall|i: int, j: int| 0 <= i < rest.len() && 0 <= j < rest.len() && i != j implies rest[i]
            != rest[j] by {
            let a = if i < slot { i } else { i + 1 };
            let b = if j < slot { j } else { j + 1 };
            assert(rest[i] == keys[a] && rest[j] == keys[b]);
        }
        if rest.contains(keys[slot]) {
            let i = choose|i: int| 0 <= i < rest.len() && rest[i] == keys[slot];
            let a = if i < slot { i } else { i + 1 };
            assert(keys[a] == keys[slot]);
        }
    }
}

/// In a list without duplicates, taking a key out leaves the keys that
/// differ from it, in the order they had.
pub proof fn lemma_remove_key_is_filter(keys: Seq<TypeKey>, key: TypeKey)
    requires
        keys.no_duplicates(),
    ensures
        remove_key(keys, key) == keys.filter(|k: TypeKey| k != key),
    decreases keys.len(),
{
    let differs = |k: TypeKey| k != key;
    if keys.len() == 0 {
        reveal(Seq::filter);
    } else {
        let init = keys.drop_last();
        let last = keys.last();
        assert(keys =~= init.push(last));
        init.lemma_filter_push(last, differs);
        assert(init.no_duplicates());
        lemma_remove_key_is_filter(init, key);
        lemma_position_of(keys, key);
        lemma_position_of(init, key);
        if last == key {
            assert(!init.contains(key)) by {
                if init.contains(key) {
                    let i = choose|i: int| 0 <= i < init.len() && init[i] == key;
                    assert(keys[i] == keys[keys.len() - 1]);
                }
            }
            lemma_position_distinct(keys, key, keys.len() - 1);
            assert(keys.remove(keys.len() - 1) =~= init);
        } else if init.contains(key) {
            let slot = position_of(init, key);
            assert(keys[slot] == key);
            lemma_position_distinct(keys, key, slot);
            assert(keys.remove(slot) =~= init.remove(slot).push(last));
        } else {
            assert(!keys.contains(key)) by {
                if keys.contains(key) {
                    let i = choose|i: int| 0 <= i < keys.len() && keys[i] == key;
                    assert(init[i] == key);
                }
            }
        }
    }
}

/// Filtering by one test and then by another is filtering by both.
pub proof fn lemma_filter_twice(
    keys: Seq<TypeKey>,
    first: spec_fn(TypeKey) -> bool,
    second: spec_fn(TypeKey) -> bool,
)
    ensures
        keys.filter(first).filter(second) == keys.filter(|k: TypeKey| first(k) && second(k)),
    decreases keys.len(),
{
    let both = |k: TypeKey| first(k) && second(k);
    if keys.len() == 0 {
        reveal(Seq::filter);
    } else {
        let init = keys.drop_last();
        let last = keys.last();
        assert(keys =~= init.push(last));
        lemma_filter_twice(init, first, second);
        init.lemma_filter_push(last, first);
        init.lemma_filter_push(last, both);
        if first(last) {
            init.filter(first).lemma_filter_push(last, second);
        }
    }
}

/// What `subtract` leaves of a list without duplicates is the keys that
/// `other` does not hold, in the order they had.
pub proof fn lemma_subtract_is_filter(keys: Seq<TypeKey>, other: Seq<TypeKey>)
    requires
        keys.no_duplicates(),
    ensures
        subtract(keys, other) == keys.filter(|k: TypeKey| !other.contains(k)),
    decreases other.len(),
{
    let outside = |k: TypeKey| !other.contains(k);
    if other.len() == 0 {
        let all = |k: TypeKey| true;
        assert(outside =~= all);
        lemma_filter_all(keys);
    } else {
        let head = other[0];
        let rest = other.drop_first();
        let differs = |k: TypeKey| k != head;
        let outside_rest = |k: TypeKey| !rest.contains(k);
        let both = |k: TypeKey| differs(k) && outside_rest(k);
        lemma_remove_key_is_filter(keys, head);
        let less = remove_key(keys, head);
        lemma_position_of(keys, head);
        if keys.contains(head) {
            lemma_remove_slot(keys, position_of(keys, head));
        }
        lemma_subtract_is_filter(less, rest);
        lemma_filter_twice(keys, differs, outside_rest);
        assert forall|k: TypeKey| #[trigger] outside(k) == both(k) by {
            if other.contains(k) {
                let i = choose|i: int| 0 <= i < other.len() && other[i] == k;
                if i > 0 {
                    assert(rest[i - 1] == k);
                }
            }
            if rest.contains(k) {
                let i = choose|i: int| 0 <= i < rest.len() && rest[i] == k;
                assert(other[i + 1] == k);
            }
            if k == head {
                assert(other[0] == k);
            }
        }
        assert(outside =~= both);
    }
}

/// Filtering by a test that every key passes changes nothing.
pub proof fn lemma_filter_all(keys: Seq<TypeKey>)
    ensures
        keys.filter(|k: TypeKey| true) == keys,
    decreases keys.len(),
{
    let all = |k: TypeKey| true;
    if keys.len() == 0 {
        reveal(Seq::filter);
    } else {
        let init = keys.drop_last();
        assert(keys =~= init.push(keys.last()));
        lemma_filter_all(init);
        init.lemma_filter_push(keys.last(), all);
    }
}

/// A list of candidate types.
pub trait TypeSet: Sized {
    /// The candidates, in the order in which they are declared.
    spec fn keys() -> Seq<TypeKey>;
}

impl TypeSet for End {
    open spec fn keys() -> Seq<TypeKey> {
        Seq::empty()
    }
}

impl<const HEAD: u64, Tail: TypeSet> TypeSet for Cons<HEAD, Tail> {
    open spec fn keys() -> Seq<TypeKey> {
        seq![HEAD] + Tail::keys()
    }
}

/// Whether no candidate stands twice in the list `E`: the only lists over which
/// a union may be built.
pub open spec fn distinct<E: TypeSet>() -> bool {
    E::keys().no_duplicates()
}

/// A list of candidates that can be had as a flat sequence at run time.
pub trait TupleForm: TypeSet {
    /// The candidates, in declared order.
    fn tuple() -> (flat: Vec<TypeKey>)
        ensures
            flat@ == Self::keys(),
    ;
}

impl TupleForm for End {
    fn tuple() -> (flat: Vec<TypeKey>) {
        Vec::new()
    }
}

impl<const HEAD: u64, Tail: TupleForm> TupleForm for Cons<HEAD, Tail> {
    fn tuple() -> (flat: Vec<TypeKey>) {
        let mut flat = Tail::tuple();
        flat.insert(0, HEAD);
        assert(flat@ =~= Self::keys());
        flat
    }
}

/// `T` is a candidate of the list, at the slot that `Index` leads to.
pub trait Contains<const T: u64, Index>: TypeSet {
    /// The slot at which `T` stands.
    spec fn slot() -> int;

    /// `T` stands at `slot()`; in a list without duplicates that is its only place.
    proof fn contained()
        ensures
            0 <= Self::slot() < Self::keys().len(),
            Self::keys()[Self::slot()] == T,
            Self::keys().contains(T),
            distinct::<Self>() ==> position_of(Self::keys(), T) == Self::slot(),
    ;
}

impl<const T: u64, Tail: TypeSet> Contains<T, End> for Cons<T, Tail> {
    open spec fn slot() -> int {
        0
    }

    proof fn contained() {
        assert(Self::keys()[0] == T);
    }
}

impl<const T: u64, const HEAD: u64, Tail, Index> Contains<T, Recurse<Index>> for Cons<HEAD, Tail> where
    Tail: Contains<T, Index>,
 {
    open spec fn slot() -> int {
        <Tail as Contains<T, Index>>::slot() + 1
    }

    proof fn contained() {
        <Tail as Contains<T, Index>>::contained();
        let slot = <Tail as Contains<T, Index>>::slot() + 1;
        assert(Self::keys()[slot] == Tail::keys()[slot - 1]);
        if distinct::<Self>() {
            lemma_position_distinct(Self::keys(), T, slot);
        }
    }
}

/// `Target` is a candidate of the list, and `Remainder` is the list without
/// the slot at which it was found, in the same order.
pub trait Narrow<const TARGET: u64, Index>: TupleForm {
    type Remainder: TupleForm;

    /// The slot at which `TARGET` was found.
    spec fn slot() -> int;

    /// `Remainder` is the list without `slot()`. In a list without duplicates
    /// `TARGET` is then gone from it, and nothing else is.
    proof fn narrowed()
        ensures
            0 <= Self::slot() < Self::keys().len(),
            Self::keys()[Self::slot()] == TARGET,
            Self::Remainder::keys() == Self::keys().remove(Self::slot()),
            forall|k: TypeKey|
                Self::keys().contains(k) && k != TARGET ==> Self::Remainder::keys().contains(k),
            forall|k: TypeKey| Self::Remainder::keys().contains(k) ==> Self::keys().contains(k),
            distinct::<Self>() ==> distinct::<Self::Remainder>()
                && !Self::Remainder::keys().contains(TARGET)
                && Self::Remainder::keys() == remove_key(Self::keys(), TARGET)
                && Self::Remainder::keys() == Self::keys().filter(|k: TypeKey| k != TARGET),
    ;
}

impl<const TARGET: u64, Tail: TupleForm> Narrow<TARGET, End> for Cons<TARGET, Tail> {
    type Remainder = Tail;

    open spec fn slot() -> int {
        0
    }

    proof fn narrowed() {
        assert(Self::keys()[0] == TARGET);
        assert(Self::keys().remove(0) =~= Tail::keys());
        lemma_remove_slot(Self::keys(), 0);
        if distinct::<Self>() {
            lemma_position_distinct(Self::keys(), TARGET, 0);
            lemma_remove_key_is_filter(Self::keys(), TARGET);
        }
    }
}

impl<const HEAD: u64, const TARGET: u64, Tail, Index> Narrow<TARGET, Recurse<Index>> for Cons<
    HEAD,
    Tail,
> where Tail: Narrow<TARGET, Index> {
    type Remainder = Cons<HEAD, <Tail as Narrow<TARGET, Index>>::Remainder>;

    open spec fn slot() -> int {
        <Tail as Narrow<TARGET, Index>>::slot() + 1
    }

    proof fn narrowed() {
        <Tail as Narrow<TARGET, Index>>::narrowed();
        let slot = <Tail as Narrow<TARGET, Index>>::slot() + 1;
        assert(Self::keys()[slot] == Tail::keys()[slot - 1]);
        assert(<Self as Narrow<TARGET, Recurse<Index>>>::Remainder::keys() =~= Self::keys().remove(
            slot,
        ));
        lemma_remove_slot(Self::keys(), slot);
        if distinct::<Self>() {
            lemma_position_distinct(Self::keys(), TARGET, slot);
            lemma_remove_key_is_filter(Self::keys(), TARGET);
        }
    }
}

/// Every candidate of `Other` is a candidate of the list, each at a slot of
/// its own, and `Remainder` is the list without those slots, in the same order.
pub trait SupersetOf<Other: TypeSet, Index>: TypeSet {
    type Remainder: TupleForm;

    /// The list covers `Other`, and `Remainder` holds what `Other` does not.
    /// In a list without duplicates the two parts do not meet, and `Remainder`
    /// is what `subtract` leaves: the keys that `Other` does not hold, in the
    /// order they had.
    proof fn covered()
        ensures
            forall|k: TypeKey| Other::keys().contains(k) ==> Self::keys().contains(k),
            forall|k: TypeKey| Self::Remainder::keys().contains(k) ==> Self::keys().contains(k),
            forall|k: TypeKey|
                Self::keys().contains(k) ==> Other::keys().contains(k)
                    || Self::Remainder::keys().contains(k),
            distinct::<Self>() ==> distinct::<Other>() && distinct::<Self::Remainder>(),
            distinct::<Self>() ==> forall|k: TypeKey|
                !(Other::keys().contains(k) && Self::Remainder::keys().contains(k)),
            distinct::<Self>() ==> Self::Remainder::keys() == subtract(Self::keys(), Other::keys()),
            distinct::<Self>() ==> Self::Remainder::keys() == Self::keys().filter(
                |k: TypeKey| !Other::keys().contains(k),
            ),
    ;
}

impl<T: TupleForm> SupersetOf<End, End> for T {
    type Remainder = T;

    proof fn covered() {
        if distinct::<Self>() {
            lemma_subtract_is_filter(Self::keys(), End::keys());
        }
    }
}

impl<
    const SUB: u64,
    SubTail,
    const SUPER: u64,
    SuperTail,
    HeadIndex,
    TailIndex,
> SupersetOf<Cons<SUB, SubTail>, (HeadIndex, TailIndex)> for Cons<SUPER, SuperTail> where
    SubTail: TypeSet,
    SuperTail: TypeSet,
    Cons<SUPER, SuperTail>: Narrow<SUB, HeadIndex>,
    <Cons<SUPER, SuperTail> as Narrow<SUB, HeadIndex>>::Remainder: SupersetOf<SubTail, TailIndex>,
 {
    type Remainder = <<Cons<SUPER, SuperTail> as Narrow<
        SUB,
        HeadIndex,
    >>::Remainder as SupersetOf<SubTail, TailIndex>>::Remainder;

    proof fn covered() {
        <Self as Narrow<SUB, HeadIndex>>::narrowed();
        <<Self as Narrow<SUB, HeadIndex>>::Remainder as SupersetOf<SubTail, TailIndex>>::covered();
        let all = Self::keys();
        let other = Cons::<SUB, SubTail>::keys();
        let slot = <Self as Narrow<SUB, HeadIndex>>::slot();
        let less = <Self as Narrow<SUB, HeadIndex>>::Remainder::keys();
        let rest = <<Self as Narrow<SUB, HeadIndex>>::Remainder as SupersetOf<
            SubTail,
            TailIndex,
        >>::Remainder::keys();
        assert(other[0] == SUB);
        assert(other.drop_first() =~= SubTail::keys());
        assert forall|k: TypeKey| other.contains(k) implies all.contains(k) by {
            let i = choose|i: int| 0 <= i < other.len() && other[i] == k;
            if i > 0 {
                assert(SubTail::keys()[i - 1] == k);
            }
        }
        assert forall|k: TypeKey| all.contains(k) implies other.contains(k) || rest.contains(k) by {
            if k != SUB {
                assert(less.contains(k));
                if SubTail::keys().contains(k) {
                    let i = choose|i: int| 0 <= i < SubTail::keys().len() && SubTail::keys()[i] == k;
                    assert(other[i + 1] == k);
                }
            }
        }
        if distinct::<Self>() {
            assert(!SubTail::keys().contains(SUB));
            assert forall|i: int, j: int| 0 <= i < other.len() && 0 <= j < other.len() && i != j implies other[i]
                != other[j] by {
                if i > 0 {
                    assert(SubTail::keys()[i - 1] == other[i]);
                }
                if j > 0 {
                    assert(SubTail::keys()[j - 1] == other[j]);
                }
            }
            assert forall|k: TypeKey| !(other.contains(k) && rest.contains(k)) by {
                if other.contains(k) && rest.contains(k) {
                    let i = choose|i: int| 0 <= i < other.len() && other[i] == k;
                    assert(less.contains(k));
                    if i > 0 {
                        assert(SubTail::keys()[i - 1] == k);
                        assert(SubTail::keys().contains(k));
                    }
                }
            }
            assert(remove_key(all, other[0]) == less);
            lemma_subtract_is_filter(all, other);
        }
    }
}

/// Whether a value of a given identity is of one of the candidates: a walk
/// down the list that stops at the first match.
pub trait IsFold: TypeSet {
    fn is_fold(key: TypeKey) -> (found: bool)
        ensures
            found == Self::keys().contains(key),
    ;
}

impl IsFold for End {
    fn is_fold(key: TypeKey) -> (found: bool) {
        false
    }
}

impl<const HEAD: u64, Tail: IsFold> IsFold for Cons<HEAD, Tail> {
    fn is_fold(key: TypeKey) -> (found: bool) {
        if key == HEAD {
            assert(Self::keys()[0] == key);
            true
        } else {
            let found = Tail::is_fold(key);
            proof {
                lemma_cons_contains::<HEAD, Tail>(key);
            }
            found
        }
    }
}

/// A list holds a key where its head is the key or its tail holds it.
pub proof fn lemma_cons_contains<const HEAD: u64, Tail: TypeSet>(key: TypeKey)
    ensures
        Cons::<HEAD, Tail>::keys().contains(key) <==> key == HEAD || Tail::keys().contains(key),
        position_of(Cons::<HEAD, Tail>::keys(), key) == if key == HEAD {
            0
        } else {
            position_of(Tail::keys(), key) + 1
        },
{
    let keys = Cons::<HEAD, Tail>::keys();
    assert(keys[0] == HEAD);
    assert(keys.drop_first() =~= Tail::keys());
    if Tail::keys().contains(key) {
        let i = choose|i: int| 0 <= i < Tail::keys().len() && Tail::keys()[i] == key;
        assert(keys[i + 1] == key);
    }
    if keys.contains(key) && key != HEAD {
        let i = choose|i: int| 0 <= i < keys.len() && keys[i] == key;
        assert(Tail::keys()[i - 1] == key);
    }
}

/// The cause of an error, found by walking the candidates: at the first one
/// that the value is of, `cause` is asked; a value of none of them has none.
pub trait ErrorFold: TypeSet {
    fn source_fold<'a, P, S, F: FnOnce(&'a P) -> Option<S>>(
        key: TypeKey,
        payload: &'a P,
        cause: F,
    ) -> (source:
        Option<S>)
        requires
            cause.requires((payload,)),
        ensures
            Self::keys().contains(key) ==> cause.ensures((payload,), source),
            !Self::keys().contains(key) ==> source is None,
    ;
}

impl ErrorFold for End {
    fn source_fold<'a, P, S, F: FnOnce(&'a P) -> Option<S>>(
        key: TypeKey,
        payload: &'a P,
        cause: F,
    ) -> (source:
        Option<S>) {
        None
    }
}

impl<const HEAD: u64, Tail: ErrorFold> ErrorFold for Cons<HEAD, Tail> {
    fn source_fold<'a, P, S, F: FnOnce(&'a P) -> Option<S>>(
        key: TypeKey,
        payload: &'a P,
        cause: F,
    ) -> (source:
        Option<S>) {
        proof {
            lemma_cons_contains::<HEAD, Tail>(key);
        }
        if key == HEAD {
            cause(payload)
        } else {
            Tail::source_fold(key, payload, cause)
        }
    }
}

/// A value's text for display, found by walking the candidates: the first one
/// that the value is of renders it; a value of none of them has no text.
pub trait DisplayFold: TypeSet {
    fn display_fold<P: SendSyncError>(key: TypeKey, payload: &P) -> (text: Option<String>)
        ensures
            text is Some <==> Self::keys().contains(key),
            text matches Some(shown) ==> payload.displays(shown@),
    ;
}

impl DisplayFold for End {
    fn display_fold<P: SendSyncError>(key: TypeKey, payload: &P) -> (text: Option<String>) {
        None
    }
}

impl<const HEAD: u64, Tail: DisplayFold> DisplayFold for Cons<HEAD, Tail> {
    fn display_fold<P: SendSyncError>(key: TypeKey, payload: &P) -> (text: Option<String>) {
        proof {
            lemma_cons_contains::<HEAD, Tail>(key);
        }
        if key == HEAD {
            Some(payload.display())
        } else {
            Tail::display_fold(key, payload)
        }
    }
}

/// A value's text for debugging, found by walking the candidates: the first
/// one that the value is of renders it, and the context trace and the
/// backtrace follow; a value of none of them has no text.
pub trait DebugFold: TypeSet {
    fn debug_fold<P: SendSyncError>(
        key: TypeKey,
        payload: &P,
        context: &Vec<StrContext>,
        backtrace: &Snapshot,
    ) -> (text: Option<String>)
        ensures
            text is Some <==> Self::keys().contains(key),
            text matches Some(shown) ==> debugs_as(
                payload,
                texts(context@),
                backtrace.shown(),
                shown@,
            ),
    ;
}

impl DebugFold for End {
    fn debug_fold<P: SendSyncError>(
        key: TypeKey,
        payload: &P,
        context: &Vec<StrContext>,
        backtrace: &Snapshot,
    ) -> (text: Option<String>) {
        None
    }
}

impl<const HEAD: u64, Tail: DebugFold> DebugFold for Cons<HEAD, Tail> {
    fn debug_fold<P: SendSyncError>(
        key: TypeKey,
        payload: &P,
        context: &Vec<StrContext>,
        backtrace: &Snapshot,
    ) -> (text: Option<String>) {
        proof {
            lemma_cons_contains::<HEAD, Tail>(key);
        }
        if key == HEAD {
            let mut shown = payload.debug();
            let ghost head = shown@;
            write_context(&mut shown, context);
            write_backtrace(&mut shown, backtrace);
            assert(payload.debugs(head) && shown@ == debug_text(
                head,
                texts(context@),
                backtrace.shown(),
            ));
            Some(shown)
        } else {
            Tail::debug_fold(key, payload, context, backtrace)
        }
    }
}

} // verus!
