//! What holds of the union's operations taken together.

use crate::render::{bullets, context_block, debug_text, lemma_bullets_push, texts};
use crate::str_error::StrContext;
use crate::traced_union::TracedUnion;
use crate::type_set::{
    lemma_position_of, position_of, remove_key, subtract, Narrow, SupersetOf, TypeKey, TypeSet,
};
use std::borrow::Cow;
use vstd::prelude::*;

verus! {

/// Round trip: a union built from a value under a candidate, then narrowed
/// to that candidate, gives the value back unchanged.
pub proof fn law_round_trip<P, E: TypeSet, R: TypeSet>(
    key: TypeKey,
    value: P,
    union: TracedUnion<P, E>,
    outcome: Result<P, TracedUnion<P, R>>,
)
    requires
        union.built_from(key, value),
        union.narrows_to(key, outcome),
    ensures
        outcome == Ok::<P, TracedUnion<P, R>>(value),
{
}

/// Narrowing is total and its two outcomes exclude each other: the payload
/// comes out exactly where it is of the target; else the union comes back
/// with all it carried, over the list that has lost the target and nothing
/// else, and its payload's candidate is still in that list.
pub proof fn law_narrow_complementary<P, E, const TARGET: u64, Index>(
    union: TracedUnion<P, E>,
    outcome: Result<P, TracedUnion<P, <E as Narrow<TARGET, Index>>::Remainder>>,
) where E: Narrow<TARGET, Index>
    requires
        union.valid(),
        union.narrows_to(TARGET, outcome),
    ensures
        outcome is Ok <==> union.key() == TARGET,
        outcome is Err <==> union.key() != TARGET,
        outcome matches Ok(value) ==> value == union.payload(),
        outcome matches Err(rest) ==> union.carried_by(&rest),
        <E as Narrow<TARGET, Index>>::Remainder::keys() == remove_key(E::keys(), TARGET),
        <E as Narrow<TARGET, Index>>::Remainder::keys() == E::keys().filter(
            |k: TypeKey| k != TARGET,
        ),
        !<E as Narrow<TARGET, Index>>::Remainder::keys().contains(TARGET),
        forall|k: TypeKey|
            k != TARGET ==> (<E as Narrow<TARGET, Index>>::Remainder::keys().contains(k)
                <==> E::keys().contains(k)),
{
    <E as Narrow<TARGET, Index>>::narrowed();
}

/// Widening changes the list and nothing else: the payload, its identity,
/// the messages and the backtrace of the widened union are those of the
/// union it came from, and narrowing it to a candidate gives what narrowing
/// the first would have given.
pub proof fn law_widen_preserves<P, E: TypeSet, Other: TypeSet>(
    union: TracedUnion<P, E>,
    wide: TracedUnion<P, Other>,
)
    requires
        union.carried_by(&wide),
    ensures
        wide.key() == union.key(),
        wide.payload() == union.payload(),
        wide.messages() == union.messages(),
        wide.backtrace() == union.backtrace(),
        forall|target: TypeKey, value: P|
            union.narrows_to::<E>(target, Ok(value)) <==> wide.narrows_to::<Other>(
                target,
                Ok(value),
            ),
{
}

/// Subset idempotence: a union that was split off as a part over `T` is
/// split off over `T` again, unchanged, however often that is asked.
pub proof fn law_subset_idempotent<P, E: TypeSet, T: TypeSet, R1: TypeSet, R2: TypeSet>(
    union: TracedUnion<P, E>,
    first: Result<TracedUnion<P, T>, TracedUnion<P, R1>>,
    second: Result<TracedUnion<P, T>, TracedUnion<P, R2>>,
)
    requires
        union.splits_to(first),
        first matches Ok(part) && part.splits_to(second),
    ensures
        second is Ok,
        second matches Ok(again) ==> union.carried_by(&again),
{
}

/// Splitting is total and its two outcomes exclude each other; what is left
/// over holds exactly the candidates that the target list does not.
pub proof fn law_subset_complementary<P, E, T: TypeSet, Index>(
    union: TracedUnion<P, E>,
    outcome: Result<TracedUnion<P, T>, TracedUnion<P, <E as SupersetOf<T, Index>>::Remainder>>,
) where E: SupersetOf<T, Index>
    requires
        union.valid(),
        union.splits_to(outcome),
    ensures
        outcome is Ok <==> T::keys().contains(union.key()),
        outcome is Err <==> <E as SupersetOf<T, Index>>::Remainder::keys().contains(union.key()),
        <E as SupersetOf<T, Index>>::Remainder::keys() == subtract(E::keys(), T::keys()),
        <E as SupersetOf<T, Index>>::Remainder::keys() == E::keys().filter(
            |k: TypeKey| !T::keys().contains(k),
        ),
        forall|k: TypeKey|
            E::keys().contains(k) <==> T::keys().contains(k) || <E as SupersetOf<
                T,
                Index,
            >>::Remainder::keys().contains(k),
        forall|k: TypeKey|
            !(T::keys().contains(k) && <E as SupersetOf<T, Index>>::Remainder::keys().contains(k)),
{
    <E as SupersetOf<T, Index>>::covered();
}

/// Context ordering: of two messages pushed one after the other, the first
/// is listed before the second, and both after all that was pushed before.
pub proof fn law_context_order<P, E: TypeSet>(
    start: TracedUnion<P, E>,
    first: StrContext,
    middle: TracedUnion<P, E>,
    second: StrContext,
    end: TracedUnion<P, E>,
)
    requires
        start.pushed(first, &middle),
        middle.pushed(second, &end),
    ensures
        end.messages() == start.messages().push(first).push(second),
        context_block(texts(end.messages())) == "\n\nContext:"@ + bullets(
            texts(start.messages()),
            "\n\t- "@,
        ) + "\n\t- "@ + first@ + "\n\t- "@ + second@,
        forall|head: Seq<char>|
            debug_text(head, texts(end.messages()), None) == head + "\n\nContext:"@ + bullets(
                texts(start.messages()),
                "\n\t- "@,
            ) + "\n\t- "@ + first@ + "\n\t- "@ + second@,
{
    let bullet = "\n\t- "@;
    let before = texts(start.messages());
    assert(texts(middle.messages()) =~= before.push(first@));
    assert(texts(end.messages()) =~= before.push(first@).push(second@));
    lemma_bullets_push(before, bullet, first@);
    lemma_bullets_push(before.push(first@), bullet, second@);
    assert(context_block(texts(end.messages())) =~= "\n\nContext:"@ + bullets(before, bullet)
        + bullet + first@ + bullet + second@);
    assert forall|head: Seq<char>|
        debug_text(head, texts(end.messages()), None) == head + "\n\nContext:"@ + bullets(
            before,
            bullet,
        ) + bullet + first@ + bullet + second@ by {
        assert(debug_text(head, texts(end.messages()), None) =~= head + "\n\nContext:"@ + bullets(
            before,
            bullet,
        ) + bullet + first@ + bullet + second@);
    }
}

/// The walk down a list stops at the first candidate that matches: a slot
/// that holds the key, with no such slot before it, is the position that the
/// mirror of a union takes.
pub proof fn law_first_match_decides(keys: Seq<TypeKey>, key: TypeKey, slot: int)
    requires
        0 <= slot < keys.len(),
        keys[slot] == key,
        forall|j: int| 0 <= j < slot ==> keys[j] != key,
    ensures
        position_of(keys, key) == slot,
{
    lemma_position_of(keys, key);
}

/// Whatever a message is made from, its characters are those it was given.
pub proof fn law_message_keeps_text(text: &'static str, owned: String, cow: Cow<'static, str>)
    ensures
        <StrContext as vstd::std_specs::convert::FromSpec<&'static str>>::from_spec(text)@ == text@,
        <StrContext as vstd::std_specs::convert::FromSpec<String>>::from_spec(owned)@ == owned@,
        <StrContext as vstd::std_specs::convert::FromSpec<Cow<'static, str>>>::from_spec(cow)@
            == cow@,
{
}

/// The order of a list decides where the walk down it stops, never what it
/// finds: two lists of the same candidates hold a key or both do not.
pub proof fn law_order_is_no_matter(keys: Seq<TypeKey>, other: Seq<TypeKey>, key: TypeKey)
    requires
        keys.to_multiset() == other.to_multiset(),
    ensures
        keys.contains(key) <==> other.contains(key),
{
    keys.to_multiset_ensures();
    other.to_multiset_ensures();
    assert(keys.contains(key) <==> keys.to_multiset().count(key) > 0);
    assert(other.contains(key) <==> other.to_multiset().count(key) > 0);
}

} // verus!
