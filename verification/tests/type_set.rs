use eros::type_set::{
    Cons, Contains, End, IsFold, Narrow, Recurse, SupersetOf, TupleForm, TypeSet,
};

const U32: u64 = 1;
const STRING: u64 = 2;
const I32: u64 = 3;
const VEC_U8: u64 = 4;
const VEC_I8: u64 = 5;
const F32: u64 = 6;
const F64: u64 = 7;
const U8: u64 = 8;
const U16: u64 = 9;
const U64: u64 = 10;
const U128: u64 = 11;

fn can_narrow<Types, const TARGET: u64, Remainder, Index>() -> Vec<u64>
where
    Types: Narrow<TARGET, Index, Remainder = Remainder>,
    Remainder: TupleForm,
{
    Remainder::tuple()
}

fn is_superset<S1, S2, Remainder, Index>() -> Vec<u64>
where
    S2: TypeSet,
    S1: SupersetOf<S2, Index, Remainder = Remainder>,
    Remainder: TupleForm,
{
    Remainder::tuple()
}

fn contains<Types, const T: u64, Index>()
where
    Types: Contains<T, Index>,
{
}

type T0 = Cons<U32, End>;
type T1A = Cons<U32, Cons<STRING, End>>;
type T1B = Cons<STRING, Cons<U32, End>>;
type T2 = Cons<STRING, Cons<I32, Cons<U32, End>>>;
type T3 = Cons<
    VEC_U8,
    Cons<VEC_I8, Cons<U32, Cons<F32, Cons<STRING, Cons<F64, Cons<I32, End>>>>>>,
>;

#[test]
fn narrow_test() {
    assert_eq!(can_narrow::<T1A, U32, _, _>(), vec![STRING]);
    assert_eq!(can_narrow::<T1A, STRING, Cons<U32, End>, _>(), vec![U32]);
    assert_eq!(can_narrow::<T2, I32, _, _>(), vec![STRING, U32]);
    assert_eq!(can_narrow::<T0, U32, End, End>(), Vec::<u64>::new());
    assert_eq!(
        can_narrow::<T3, STRING, _, Recurse<Recurse<Recurse<Recurse<End>>>>>(),
        vec![VEC_U8, VEC_I8, U32, F32, F64, I32]
    );
}

#[test]
fn superset_test() {
    assert_eq!(is_superset::<T0, T0, _, _>(), Vec::<u64>::new());
    assert_eq!(is_superset::<T1A, T1A, _, _>(), Vec::<u64>::new());
    assert_eq!(is_superset::<T1A, T1B, _, _>(), Vec::<u64>::new());
    assert_eq!(is_superset::<T1B, T1A, _, _>(), Vec::<u64>::new());
    assert_eq!(is_superset::<T2, T2, _, _>(), Vec::<u64>::new());
    assert_eq!(is_superset::<T1A, T0, _, _>(), vec![STRING]);
    assert_eq!(is_superset::<T1B, T0, _, _>(), vec![STRING]);
    assert_eq!(
        is_superset::<T2, T0, Cons<STRING, Cons<I32, End>>, _>(),
        vec![STRING, I32]
    );
    assert_eq!(is_superset::<T2, T1A, Cons<I32, End>, _>(), vec![I32]);
    assert_eq!(is_superset::<T2, T1B, Cons<I32, End>, _>(), vec![I32]);
    assert_eq!(
        is_superset::<
            T3,
            T1A,
            Cons<VEC_U8, Cons<VEC_I8, Cons<F32, Cons<F64, Cons<I32, End>>>>>,
            _,
        >(),
        vec![VEC_U8, VEC_I8, F32, F64, I32]
    );
    assert_eq!(
        is_superset::<T3, T1B, _, _>(),
        vec![VEC_U8, VEC_I8, F32, F64, I32]
    );
    assert_eq!(
        is_superset::<T3, T0, _, _>(),
        vec![VEC_U8, VEC_I8, F32, STRING, F64, I32]
    );
    assert_eq!(is_superset::<T3, T2, _, _>(), vec![VEC_U8, VEC_I8, F32, F64]);

    type T5sup = Cons<U8, Cons<U16, Cons<U32, Cons<U64, Cons<U128, End>>>>>;
    type T5sub = Cons<U8, Cons<U128, End>>;
    type T5rem = Cons<U16, Cons<U32, Cons<U64, End>>>;

    assert_eq!(is_superset::<T5sup, T5sub, T5rem, _>(), vec![U16, U32, U64]);
    assert_eq!(is_superset::<T5sup, End, T5sup, End>().len(), 5);
}

#[test]
fn contains_finds_each_candidate_once() {
    contains::<T2, STRING, End>();
    contains::<T2, I32, Recurse<End>>();
    contains::<T2, U32, Recurse<Recurse<End>>>();
    contains::<T3, F64, _>();
}

#[test]
fn tuple_gives_the_candidates_in_declared_order() {
    assert_eq!(End::tuple(), Vec::<u64>::new());
    assert_eq!(T0::tuple(), vec![U32]);
    assert_eq!(T1B::tuple(), vec![STRING, U32]);
    assert_eq!(
        T3::tuple(),
        vec![VEC_U8, VEC_I8, U32, F32, STRING, F64, I32]
    );
}

#[test]
fn is_fold_scans_the_whole_list() {
    assert!(!End::is_fold(U32));
    assert!(T0::is_fold(U32));
    assert!(!T0::is_fold(STRING));
    assert!(T3::is_fold(VEC_U8));
    assert!(T3::is_fold(STRING));
    assert!(T3::is_fold(I32));
    assert!(!T3::is_fold(U128));
    // the order of the list does not change the answer
    assert_eq!(T1A::is_fold(STRING), T1B::is_fold(STRING));
    assert_eq!(T1A::is_fold(I32), T1B::is_fold(I32));
}
