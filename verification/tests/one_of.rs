use eros::one_of::{U, UNIT};
use eros::str::Str;
use eros::type_set::{Cons, End};
use eros::union_to_enum::E2;

const U32: u64 = 4;
const STRING: u64 = 5;

type U32String = Cons<U32, Cons<STRING, End>>;

#[test]
fn one_of_narrows_and_broadens() {
    let one: U<String, U32String> = U::new::<STRING, _>("text".to_string());
    let rest: U<String, Cons<STRING, End>> = one.narrow::<U32, _>().unwrap_err();
    let wide: U<String, Cons<STRING, Cons<UNIT, Cons<U32, End>>>> = rest.broaden();
    assert_eq!(wide.type_key(), STRING);
    let part: U<String, Cons<STRING, End>> = wide.subset().unwrap();
    assert_eq!(part.take(), "text");
}

#[test]
fn one_of_mirrors_and_renders() {
    let one: U<String, U32String> = U::new::<STRING, _>("text".to_string());
    assert_eq!(one.as_enum(), E2::B(&"text".to_string()));
    assert_eq!(one.to_string(), "text");
    let debug = one.to_debug_string();
    assert!(debug.starts_with("text\n\nBacktrace:\n"), "{}", debug);
    assert_eq!(one.to_enum(), E2::B("text".to_string()));
    let single: U<u32, Cons<U32, End>> = 3u32.into();
    assert_eq!(single.take(), 3);
}

#[test]
fn str_keeps_its_text_in_either_form() {
    let fixed = Str::from("fixed");
    let owned = Str::from("owned".to_string());
    let cow = Str::from(std::borrow::Cow::Borrowed("cow"));
    assert_eq!(fixed.as_str(), "fixed");
    assert_eq!(owned.as_str(), "owned");
    assert_eq!(cow.as_str(), "cow");
    assert!(matches!(fixed, Str::Static(_)));
    assert!(matches!(owned, Str::Owned(_)));
    assert!(matches!(cow, Str::Static(_)));
    assert_eq!(owned.clone().to_string(), "owned");
    let built = Str::from(std::borrow::Cow::Owned("built".to_string()));
    assert!(matches!(built, Str::Owned(_)));
}

#[test]
fn one_of_lists_its_context_under_the_payload() {
    let one: U<String, U32String> = U::new::<STRING, _>("text".to_string());
    let one = one.context("first").context("second".to_string());
    assert_eq!(
        one.to_string(),
        "text\n\nContext:\n    - first\n    - second"
    );
    let debug = one.to_debug_string();
    assert!(
        debug.starts_with("text\n\nContext:\n    - first\n    - second\n\nBacktrace:\n"),
        "{}",
        debug
    );
    let rest: U<String, Cons<STRING, End>> = one.narrow::<U32, _>().unwrap_err();
    assert_eq!(
        rest.to_string(),
        "text\n\nContext:\n    - first\n    - second"
    );
}

#[test]
fn one_of_the_empty_value_starts_with_the_heading() {
    let empty: U<String, Cons<UNIT, End>> = U::new::<UNIT, _>(String::new());
    assert_eq!(empty.to_string(), "");
    let empty = empty.context("only");
    assert_eq!(empty.to_string(), "Context:\n    - only");
}
