//! The closed enums that mirror a union: one variant for each position of
//! its list, so that a match on the union can be exhaustive.

use crate::type_set::{lemma_cons_contains, position_of, Cons, End, TypeKey, TypeSet};
use vstd::prelude::*;

verus! {

/// The mirror of a union over 1 candidate.
#[derive(Debug, PartialEq, Eq)]
pub enum E1<A> {
    A(A),
}

/// The mirror of a union over 2 candidates.
#[derive(Debug, PartialEq, Eq)]
pub enum E2<A, B> {
    A(A),
    B(B),
}

/// The mirror of a union over 3 candidates.
#[derive(Debug, PartialEq, Eq)]
pub enum E3<A, B, C> {
    A(A),
    B(B),
    C(C),
}

/// The mirror of a union over 4 candidates.
#[derive(Debug, PartialEq, Eq)]
pub enum E4<A, B, C, D> {
    A(A),
    B(B),
    C(C),
    D(D),
}

/// The mirror of a union over 5 candidates.
#[derive(Debug, PartialEq, Eq)]
pub enum E5<A, B, C, D, E> {
    A(A),
    B(B),
    C(C),
    D(D),
    E(E),
}

/// The mirror of a union over 6 candidates.
#[derive(Debug, PartialEq, Eq)]
pub enum E6<A, B, C, D, E, F> {
    A(A),
    B(B),
    C(C),
    D(D),
    E(E),
    F(F),
}

/// The mirror of a union over 7 candidates.
#[derive(Debug, PartialEq, Eq)]
pub enum E7<A, B, C, D, E, F, G> {
    A(A),
    B(B),
    C(C),
    D(D),
    E(E),
    F(F),
    G(G),
}

/// The mirror of a union over 8 candidates.
#[derive(Debug, PartialEq, Eq)]
pub enum E8<A, B, C, D, E, F, G, H> {
    A(A),
    B(B),
    C(C),
    D(D),
    E(E),
    F(F),
    G(G),
    H(H),
}

/// The mirror of a union over 9 candidates.
#[derive(Debug, PartialEq, Eq)]
pub enum E9<A, B, C, D, E, F, G, H, I> {
    A(A),
    B(B),
    C(C),
    D(D),
    E(E),
    F(F),
    G(G),
    H(H),
    I(I),
}

/// A list that has a mirror: the closed enum with one variant for each of
/// its positions, all of them holding a `P`.
pub trait EnumForm<P>: TypeSet {
    type Enum;

    /// The position of the variant that `mirror` is.
    spec fn position(mirror: &Self::Enum) -> int;

    /// The value that `mirror` holds.
    spec fn content(mirror: &Self::Enum) -> P;

    /// Wraps `payload` in the variant of the first candidate that `key` is:
    /// the candidates are tried in declared order.
    fn pick(key: TypeKey, payload: P) -> (mirror: Self::Enum)
        requires
            Self::keys().contains(key),
        ensures
            Self::position(&mirror) == position_of(Self::keys(), key),
            Self::content(&mirror) == payload,
    ;
}

impl<P, const KA: u64> EnumForm<P> for Cons<KA, End> {
    type Enum = E1<P>;

    open spec fn position(mirror: &E1<P>) -> int {
        match mirror {
            E1::A(_) => 0,
        }
    }

    open spec fn content(mirror: &E1<P>) -> P {
        match mirror {
            E1::A(value) => *value,
        }
    }

    fn pick(key: TypeKey, payload: P) -> (mirror: E1<P>) {
        proof {
            lemma_cons_contains::<KA, End>(key);
        }
        E1::A(payload)
    }
}

impl<P, const KA: u64, const KB: u64> EnumForm<P> for Cons<KA, Cons<KB, End>> {
    type Enum = E2<P, P>;

    open spec fn position(mirror: &E2<P, P>) -> int {
        match mirror {
            E2::A(_) => 0,
            E2::B(_) => 1,
        }
    }

    open spec fn content(mirror: &E2<P, P>) -> P {
        match mirror {
            E2::A(value) => *value,
            E2::B(value) => *value,
        }
    }

    fn pick(key: TypeKey, payload: P) -> (mirror: E2<P, P>) {
        proof {
            lemma_cons_contains::<KA, Cons<KB, End>>(key);
            lemma_cons_contains::<KB, End>(key);
        }
        if key == KA {
            E2::A(payload)
        } else {
            E2::B(payload)
        }
    }
}

impl<P, const KA: u64, const KB: u64, const KC: u64> EnumForm<P> for Cons<KA, Cons<KB, Cons<KC, End>>> {
    type Enum = E3<P, P, P>;

    open spec fn position(mirror: &E3<P, P, P>) -> int {
        match mirror {
            E3::A(_) => 0,
            E3::B(_) => 1,
            E3::C(_) => 2,
        }
    }

    open spec fn content(mirror: &E3<P, P, P>) -> P {
        match mirror {
            E3::A(value) => *value,
            E3::B(value) => *value,
            E3::C(value) => *value,
        }
    }

    fn pick(key: TypeKey, payload: P) -> (mirror: E3<P, P, P>) {
        proof {
            lemma_cons_contains::<KA, Cons<KB, Cons<KC, End>>>(key);
            lemma_cons_contains::<KB, Cons<KC, End>>(key);
            lemma_cons_contains::<KC, End>(key);
        }
        if key == KA {
            E3::A(payload)
        } else if key == KB {
            E3::B(payload)
        } else {
            E3::C(payload)
        }
    }
}

impl<P, const KA: u64, const KB: u64, const KC: u64, const KD: u64> EnumForm<P> for Cons<KA, Cons<KB, Cons<KC, Cons<KD, End>>>> {
    type Enum = E4<P, P, P, P>;

    open spec fn position(mirror: &E4<P, P, P, P>) -> int {
        match mirror {
            E4::A(_) => 0,
            E4::B(_) => 1,
            E4::C(_) => 2,
            E4::D(_) => 3,
        }
    }

    open spec fn content(mirror: &E4<P, P, P, P>) -> P {
        match mirror {
            E4::A(value) => *value,
            E4::B(value) => *value,
            E4::C(value) => *value,
            E4::D(value) => *value,
        }
    }

    fn pick(key: TypeKey, payload: P) -> (mirror: E4<P, P, P, P>) {
        proof {
            lemma_cons_contains::<KA, Cons<KB, Cons<KC, Cons<KD, End>>>>(key);
            lemma_cons_contains::<KB, Cons<KC, Cons<KD, End>>>(key);
            lemma_cons_contains::<KC, Cons<KD, End>>(key);
            lemma_cons_contains::<KD, End>(key);
        }
        if key == KA {
            E4::A(payload)
        } else if key == KB {
            E4::B(payload)
        } else if key == KC {
            E4::C(payload)
        } else {
            E4::D(payload)
        }
    }
}

impl<P, const KA: u64, const KB: u64, const KC: u64, const KD: u64, const KE: u64> EnumForm<P> for Cons<KA, Cons<KB, Cons<KC, Cons<KD, Cons<KE, End>>>>> {
    type Enum = E5<P, P, P, P, P>;

    open spec fn position(mirror: &E5<P, P, P, P, P>) -> int {
        match mirror {
            E5::A(_) => 0,
            E5::B(_) => 1,
            E5::C(_) => 2,
            E5::D(_) => 3,
            E5::E(_) => 4,
        }
    }

    open spec fn content(mirror: &E5<P, P, P, P, P>) -> P {
        match mirror {
            E5::A(value) => *value,
            E5::B(value) => *value,
            E5::C(value) => *value,
            E5::D(value) => *value,
            E5::E(value) => *value,
        }
    }

    fn pick(key: TypeKey, payload: P) -> (mirror: E5<P, P, P, P, P>) {
        proof {
            lemma_cons_contains::<KA, Cons<KB, Cons<KC, Cons<KD, Cons<KE, End>>>>>(key);
            lemma_cons_contains::<KB, Cons<KC, Cons<KD, Cons<KE, End>>>>(key);
            lemma_cons_contains::<KC, Cons<KD, Cons<KE, End>>>(key);
            lemma_cons_contains::<KD, Cons<KE, End>>(key);
            lemma_cons_contains::<KE, End>(key);
        }
        if key == KA {
            E5::A(payload)
        } else if key == KB {
            E5::B(payload)
        } else if key == KC {
            E5::C(payload)
        } else if key == KD {
            E5::D(payload)
        } else {
            E5::E(payload)
        }
    }
}

impl<P, const KA: u64, const KB: u64, const KC: u64, const KD: u64, const KE: u64, const KF: u64> EnumForm<P> for Cons<KA, Cons<KB, Cons<KC, Cons<KD, Cons<KE, Cons<KF, End>>>>>> {
    type Enum = E6<P, P, P, P, P, P>;

    open spec fn position(mirror: &E6<P, P, P, P, P, P>) -> int {
        match mirror {
            E6::A(_) => 0,
            E6::B(_) => 1,
            E6::C(_) => 2,
            E6::D(_) => 3,
            E6::E(_) => 4,
            E6::F(_) => 5,
        }
    }

    open spec fn content(mirror: &E6<P, P, P, P, P, P>) -> P {
        match mirror {
            E6::A(value) => *value,
            E6::B(value) => *value,
            E6::C(value) => *value,
            E6::D(value) => *value,
            E6::E(value) => *value,
            E6::F(value) => *value,
        }
    }

    fn pick(key: TypeKey, payload: P) -> (mirror: E6<P, P, P, P, P, P>) {
        proof {
            lemma_cons_contains::<KA, Cons<KB, Cons<KC, Cons<KD, Cons<KE, Cons<KF, End>>>>>>(key);
            lemma_cons_contains::<KB, Cons<KC, Cons<KD, Cons<KE, Cons<KF, End>>>>>(key);
            lemma_cons_contains::<KC, Cons<KD, Cons<KE, Cons<KF, End>>>>(key);
            lemma_cons_contains::<KD, Cons<KE, Cons<KF, End>>>(key);
            lemma_cons_contains::<KE, Cons<KF, End>>(key);
            lemma_cons_contains::<KF, End>(key);
        }
        if key == KA {
            E6::A(payload)
        } else if key == KB {
            E6::B(payload)
        } else if key == KC {
            E6::C(payload)
        } else if key == KD {
            E6::D(payload)
        } else if key == KE {
            E6::E(payload)
        } else {
            E6::F(payload)
        }
    }
}

impl<P, const KA: u64, const KB: u64, const KC: u64, const KD: u64, const KE: u64, const KF: u64, const KG: u64> EnumForm<P> for Cons<KA, Cons<KB, Cons<KC, Cons<KD, Cons<KE, Cons<KF, Cons<KG, End>>>>>>> {
    type Enum = E7<P, P, P, P, P, P, P>;

    open spec fn position(mirror: &E7<P, P, P, P, P, P, P>) -> int {
        match mirror {
            E7::A(_) => 0,
            E7::B(_) => 1,
            E7::C(_) => 2,
            E7::D(_) => 3,
            E7::E(_) => 4,
            E7::F(_) => 5,
            E7::G(_) => 6,
        }
    }

    open spec fn content(mirror: &E7<P, P, P, P, P, P, P>) -> P {
        match mirror {
            E7::A(value) => *value,
            E7::B(value) => *value,
            E7::C(value) => *value,
            E7::D(value) => *value,
            E7::E(value) => *value,
            E7::F(value) => *value,
            E7::G(value) => *value,
        }
    }

    fn pick(key: TypeKey, payload: P) -> (mirror: E7<P, P, P, P, P, P, P>) {
        proof {
            lemma_cons_contains::<KA, Cons<KB, Cons<KC, Cons<KD, Cons<KE, Cons<KF, Cons<KG, End>>>>>>>(key);
            lemma_cons_contains::<KB, Cons<KC, Cons<KD, Cons<KE, Cons<KF, Cons<KG, End>>>>>>(key);
            lemma_cons_contains::<KC, Cons<KD, Cons<KE, Cons<KF, Cons<KG, End>>>>>(key);
            lemma_cons_contains::<KD, Cons<KE, Cons<KF, Cons<KG, End>>>>(key);
            lemma_cons_contains::<KE, Cons<KF, Cons<KG, End>>>(key);
            lemma_cons_contains::<KF, Cons<KG, End>>(key);
            lemma_cons_contains::<KG, End>(key);
        }
        if key == KA {
            E7::A(payload)
        } else if key == KB {
            E7::B(payload)
        } else if key == KC {
            E7::C(payload)
        } else if key == KD {
            E7::D(payload)
        } else if key == KE {
            E7::E(payload)
        } else if key == KF {
            E7::F(payload)
        } else {
            E7::G(payload)
        }
    }
}

impl<P, const KA: u64, const KB: u64, const KC: u64, const KD: u64, const KE: u64, const KF: u64, const KG: u64, const KH: u64> EnumForm<P> for Cons<KA, Cons<KB, Cons<KC, Cons<KD, Cons<KE, Cons<KF, Cons<KG, Cons<KH, End>>>>>>>> {
    type Enum = E8<P, P, P, P, P, P, P, P>;

    open spec fn position(mirror: &E8<P, P, P, P, P, P, P, P>) -> int {
        match mirror {
            E8::A(_) => 0,
            E8::B(_) => 1,
            E8::C(_) => 2,
            E8::D(_) => 3,
            E8::E(_) => 4,
            E8::F(_) => 5,
            E8::G(_) => 6,
            E8::H(_) => 7,
        }
    }

    open spec fn content(mirror: &E8<P, P, P, P, P, P, P, P>) -> P {
        match mirror {
            E8::A(value) => *value,
            E8::B(value) => *value,
            E8::C(value) => *value,
            E8::D(value) => *value,
            E8::E(value) => *value,
            E8::F(value) => *value,
            E8::G(value) => *value,
            E8::H(value) => *value,
        }
    }

    fn pick(key: TypeKey, payload: P) -> (mirror: E8<P, P, P, P, P, P, P, P>) {
        proof {
            lemma_cons_contains::<KA, Cons<KB, Cons<KC, Cons<KD, Cons<KE, Cons<KF, Cons<KG, Cons<KH, End>>>>>>>>(key);
            lemma_cons_contains::<KB, Cons<KC, Cons<KD, Cons<KE, Cons<KF, Cons<KG, Cons<KH, End>>>>>>>(key);
            lemma_cons_contains::<KC, Cons<KD, Cons<KE, Cons<KF, Cons<KG, Cons<KH, End>>>>>>(key);
            lemma_cons_contains::<KD, Cons<KE, Cons<KF, Cons<KG, Cons<KH, End>>>>>(key);
            lemma_cons_contains::<KE, Cons<KF, Cons<KG, Cons<KH, End>>>>(key);
            lemma_cons_contains::<KF, Cons<KG, Cons<KH, End>>>(key);
            lemma_cons_contains::<KG, Cons<KH, End>>(key);
            lemma_cons_contains::<KH, End>(key);
        }
        if key == KA {
            E8::A(payload)
        } else if key == KB {
            E8::B(payload)
        } else if key == KC {
            E8::C(payload)
        } else if key == KD {
            E8::D(payload)
        } else if key == KE {
            E8::E(payload)
        } else if key == KF {
            E8::F(payload)
        } else if key == KG {
            E8::G(payload)
        } else {
            E8::H(payload)
        }
    }
}

impl<P, const KA: u64, const KB: u64, const KC: u64, const KD: u64, const KE: u64, const KF: u64, const KG: u64, const KH: u64, const KI: u64> EnumForm<P> for Cons<KA, Cons<KB, Cons<KC, Cons<KD, Cons<KE, Cons<KF, Cons<KG, Cons<KH, Cons<KI, End>>>>>>>>> {
    type Enum = E9<P, P, P, P, P, P, P, P, P>;

    open spec fn position(mirror: &E9<P, P, P, P, P, P, P, P, P>) -> int {
        match mirror {
            E9::A(_) => 0,
            E9::B(_) => 1,
            E9::C(_) => 2,
            E9::D(_) => 3,
            E9::E(_) => 4,
            E9::F(_) => 5,
            E9::G(_) => 6,
            E9::H(_) => 7,
            E9::I(_) => 8,
        }
    }

    open spec fn content(mirror: &E9<P, P, P, P, P, P, P, P, P>) -> P {
        match mirror {
            E9::A(value) => *value,
            E9::B(value) => *value,
            E9::C(value) => *value,
            E9::D(value) => *value,
            E9::E(value) => *value,
            E9::F(value) => *value,
            E9::G(value) => *value,
            E9::H(value) => *value,
            E9::I(value) => *value,
        }
    }

    fn pick(key: TypeKey, payload: P) -> (mirror: E9<P, P, P, P, P, P, P, P, P>) {
        proof {
            lemma_cons_contains::<KA, Cons<KB, Cons<KC, Cons<KD, Cons<KE, Cons<KF, Cons<KG, Cons<KH, Cons<KI, End>>>>>>>>>(key);
            lemma_cons_contains::<KB, Cons<KC, Cons<KD, Cons<KE, Cons<KF, Cons<KG, Cons<KH, Cons<KI, End>>>>>>>>(key);
            lemma_cons_contains::<KC, Cons<KD, Cons<KE, Cons<KF, Cons<KG, Cons<KH, Cons<KI, End>>>>>>>(key);
            lemma_cons_contains::<KD, Cons<KE, Cons<KF, Cons<KG, Cons<KH, Cons<KI, End>>>>>>(key);
            lemma_cons_contains::<KE, Cons<KF, Cons<KG, Cons<KH, Cons<KI, End>>>>>(key);
            lemma_cons_contains::<KF, Cons<KG, Cons<KH, Cons<KI, End>>>>(key);
            lemma_cons_contains::<KG, Cons<KH, Cons<KI, End>>>(key);
            lemma_cons_contains::<KH, Cons<KI, End>>(key);
            lemma_cons_contains::<KI, End>(key);
        }
        if key == KA {
            E9::A(payload)
        } else if key == KB {
            E9::B(payload)
        } else if key == KC {
            E9::C(payload)
        } else if key == KD {
            E9::D(payload)
        } else if key == KE {
            E9::E(payload)
        } else if key == KF {
            E9::F(payload)
        } else if key == KG {
            E9::G(payload)
        } else if key == KH {
            E9::H(payload)
        } else {
            E9::I(payload)
        }
    }
}

} // verus!
