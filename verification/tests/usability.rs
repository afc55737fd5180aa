use std::error::Error;
use std::fmt::Display;
use std::io;

use eros::traced_union::{IntoUnion, IntoUnionSingle, ReshapeUnion, TracedUnion, Union, ANY_ERROR};
use eros::context::Context;
use eros::str_error::StrContext;
use eros::type_set::{Cons, End};
use eros::union_to_enum::E2;

const NOT_ENOUGH_MEMORY: u64 = 11;
const TIMEOUT: u64 = 12;
const RETRIES_EXHAUSTED: u64 = 13;
const U8: u64 = 21;
const U16: u64 = 22;
const U64: u64 = 23;
const U128: u64 = 24;
const IO: u64 = 31;
const IO_WRAPPER: u64 = 32;
const MY_ERROR_TYPE: u64 = 33;
const OUR_ERROR: u64 = 34;
const ANOTHER_ERROR: u64 = 35;
const MY_CUSTOM_ERROR: u64 = 36;

/// The errors of the retry example: each variant stands for a candidate type.
#[derive(Debug, PartialEq, Eq)]
enum Failure {
    NotEnoughMemory,
    Timeout,
    RetriesExhausted,
}

impl Display for Failure {
    fn fmt(&self, fmt: &mut std::fmt::Formatter<'_>) -> std::fmt::Result {
        match self {
            Failure::NotEnoughMemory => fmt.write_str("Not enough memory"),
            Failure::Timeout => fmt.write_str("Timeout"),
            Failure::RetriesExhausted => fmt.write_str("Retries exhausted"),
        }
    }
}

impl std::error::Error for Failure {}

#[test]
fn retry_example() {
    fn does_stuff() -> Result<(), TracedUnion<Failure, Cons<NOT_ENOUGH_MEMORY, Cons<TIMEOUT, End>>>>
    {
        let _allocation = match allocates() {
            Ok(a) => a,
            Err(e) => return Err(e.widen()),
        };

        let _chat = match chats() {
            Ok(c) => c,
            Err(e) => return Err(TracedUnion::error::<TIMEOUT, _>(e)),
        };

        Ok(())
    }

    fn allocates() -> Result<(), TracedUnion<Failure, Cons<NOT_ENOUGH_MEMORY, End>>> {
        let result: Result<(), Failure> = Err(Failure::NotEnoughMemory);

        result?;

        Ok(())
    }

    fn chats() -> Result<(), Failure> {
        Err(Failure::Timeout)
    }

    fn inner(
    ) -> Result<(), TracedUnion<Failure, Cons<NOT_ENOUGH_MEMORY, Cons<RETRIES_EXHAUSTED, End>>>>
    {
        for _ in 0..3 {
            let Err(err) = does_stuff() else {
                return Ok(());
            };

            match err.narrow::<TIMEOUT, _>() {
                Ok(_timeout) => continue,
                Err(not_enough_memory_union) => {
                    return Err(not_enough_memory_union.widen());
                }
            }
        }

        Err(TracedUnion::error::<RETRIES_EXHAUSTED, _>(
            Failure::RetriesExhausted,
        ))
    }

    let Err(err) = inner() else {
        panic!("Should be error");
    };
    let err = match err.narrow::<RETRIES_EXHAUSTED, _>() {
        Ok(_) => panic!("Should not have RetriesExhausted"),
        Err(err) => err,
    };
    let err = match err.narrow::<NOT_ENOUGH_MEMORY, _>() {
        Ok(err) => err,
        Err(_) => panic!("Should have NotEnoughMemory"),
    };
    assert_eq!(err, Failure::NotEnoughMemory);
}

#[test]
fn widen_narrow() {
    type MemoryTimeout = Cons<NOT_ENOUGH_MEMORY, Cons<TIMEOUT, End>>;
    type TimeoutMemory = Cons<TIMEOUT, Cons<NOT_ENOUGH_MEMORY, End>>;

    let o_1: TracedUnion<Failure, MemoryTimeout> =
        TracedUnion::error::<NOT_ENOUGH_MEMORY, _>(Failure::NotEnoughMemory);
    let _narrowed_1: Failure = o_1.narrow::<NOT_ENOUGH_MEMORY, _>().unwrap();

    let o_2: TracedUnion<Failure, TimeoutMemory> =
        TracedUnion::error::<NOT_ENOUGH_MEMORY, _>(Failure::NotEnoughMemory);
    let _narrowed_2: Failure = o_2.narrow::<NOT_ENOUGH_MEMORY, _>().unwrap();

    let o_3: TracedUnion<Failure, MemoryTimeout> = TracedUnion::error::<TIMEOUT, _>(Failure::Timeout);
    let _narrowed_3: TracedUnion<Failure, Cons<TIMEOUT, End>> =
        o_3.narrow::<NOT_ENOUGH_MEMORY, _>().unwrap_err();

    let o_4: TracedUnion<Failure, MemoryTimeout> = TracedUnion::error::<TIMEOUT, _>(Failure::Timeout);

    let _: Failure = o_4.narrow::<TIMEOUT, _>().unwrap();

    let o_5: TracedUnion<Failure, TimeoutMemory> = TracedUnion::error::<TIMEOUT, _>(Failure::Timeout);
    o_5.narrow::<TIMEOUT, _>().unwrap();

    let o_6: TracedUnion<Failure, TimeoutMemory> = TracedUnion::error::<TIMEOUT, _>(Failure::Timeout);
    let o_7: TracedUnion<Failure, MemoryTimeout> = o_6.widen();
    let o_8: TracedUnion<Failure, TimeoutMemory> = o_7.subset().unwrap();
    let _: TracedUnion<Failure, MemoryTimeout> = o_8.subset().unwrap();

    type Three = Cons<U8, Cons<U16, Cons<NOT_ENOUGH_MEMORY, End>>>;
    type Rest = Cons<U8, Cons<NOT_ENOUGH_MEMORY, End>>;
    let o_9: TracedUnion<Failure, Three> =
        TracedUnion::error::<NOT_ENOUGH_MEMORY, _>(Failure::NotEnoughMemory);
    let _: Result<TracedUnion<Failure, Cons<U16, End>>, TracedUnion<Failure, Rest>> = o_9.subset();
    let o_10: TracedUnion<Failure, Three> =
        TracedUnion::error::<NOT_ENOUGH_MEMORY, _>(Failure::NotEnoughMemory);
    let _: Result<Failure, TracedUnion<Failure, Rest>> = o_10.narrow::<U16, _>();
}

#[test]
fn debug() {
    type MemoryTimeout = Cons<NOT_ENOUGH_MEMORY, Cons<TIMEOUT, End>>;

    let o_1: TracedUnion<Failure, MemoryTimeout> =
        TracedUnion::error::<NOT_ENOUGH_MEMORY, _>(Failure::NotEnoughMemory);

    // the debug text is there where the payload has one
    println!("{}", o_1.to_debug_string());

    // the display text is there where the payload has one
    println!("{}", o_1.to_string());
    assert_eq!(o_1.to_string(), "Not enough memory");

    let e = io::Error::new(io::ErrorKind::Other, "wuaaaaahhhzzaaaaaaaa");

    let o_2: TracedUnion<io::Error, Cons<IO, End>> = TracedUnion::error::<IO, _>(e);

    // the cause is asked of the payload
    let cause = o_2.source(|e: &io::Error| e.source());
    println!("{:?}", cause);
    assert!(cause.is_none());

    let o_3: TracedUnion<Failure, MemoryTimeout> = TracedUnion::error::<TIMEOUT, _>(Failure::Timeout);
    println!("{}", o_3.to_debug_string());
    assert!(o_3.to_debug_string().starts_with("Timeout"));
}

#[test]
fn multi_match() {
    let o_1: TracedUnion<Failure, Cons<NOT_ENOUGH_MEMORY, Cons<TIMEOUT, End>>> =
        TracedUnion::error::<NOT_ENOUGH_MEMORY, _>(Failure::NotEnoughMemory);
    let mut is_hit = false;
    match o_1.ref_enum() {
        E2::A(_u) => {
            is_hit = true;
        }
        E2::B(_s) => {
            unreachable!()
        }
    }
    assert!(is_hit);
    is_hit = false;
    match o_1.to_enum() {
        E2::A(_u) => {
            is_hit = true;
        }
        E2::B(_s) => {
            unreachable!()
        }
    }
    assert!(is_hit);
}

#[test]
fn multi_narrow() {
    type Five = Cons<U8, Cons<U16, Cons<NOT_ENOUGH_MEMORY, Cons<U64, Cons<U128, End>>>>>;
    let o_1: TracedUnion<Failure, Five> =
        TracedUnion::error::<NOT_ENOUGH_MEMORY, _>(Failure::NotEnoughMemory);

    let _narrow_res: Result<
        TracedUnion<Failure, Cons<U8, Cons<U128, End>>>,
        TracedUnion<Failure, Cons<U16, Cons<NOT_ENOUGH_MEMORY, Cons<U64, End>>>>,
    > = o_1.subset();

    type Six =
        Cons<U8, Cons<U16, Cons<TIMEOUT, Cons<NOT_ENOUGH_MEMORY, Cons<U64, Cons<U128, End>>>>>>;
    let o_2: TracedUnion<Failure, Six> = TracedUnion::error::<TIMEOUT, _>(Failure::Timeout);

    let mut is_hit: bool = false;
    match o_2
        .subset::<Cons<TIMEOUT, Cons<NOT_ENOUGH_MEMORY, End>>, _>()
        .unwrap()
        .to_enum()
    {
        E2::A(Failure::Timeout) => {
            is_hit = true;
        }
        E2::A(_) => {
            unreachable!()
        }
        E2::B(_) => {
            unreachable!()
        }
    }
    assert!(is_hit);
}

#[derive(Debug)]
struct IoErrorWrapper(std::io::Error);

impl Display for IoErrorWrapper {
    fn fmt(&self, fmt: &mut std::fmt::Formatter<'_>) -> std::fmt::Result {
        fmt.write_str(&format!("IoErrorWrapper: {}", self.0))
    }
}

impl std::error::Error for IoErrorWrapper {
    fn source(&self) -> Option<&(dyn std::error::Error + 'static)> {
        Some(&self.0)
    }
}

#[derive(Debug)]
struct MyErrorType(Box<dyn std::error::Error + Send + Sync>);

impl Display for MyErrorType {
    fn fmt(&self, fmt: &mut std::fmt::Formatter<'_>) -> std::fmt::Result {
        fmt.write_str(&format!("MyErrorType: {}", self.0))
    }
}

impl std::error::Error for MyErrorType {
    fn source(&self) -> Option<&(dyn std::error::Error + 'static)> {
        Some(self.0.as_ref())
    }
}

#[test]
fn map_inner() {
    let error: TracedUnion<std::io::Error, Cons<IO, End>> =
        TracedUnion::error::<IO, _>(std::io::Error::new(std::io::ErrorKind::Other, "wuaaaaahhh"));
    let error: TracedUnion<IoErrorWrapper, Cons<IO_WRAPPER, End>> = error.map(|e| IoErrorWrapper(e));
    let message = error.to_debug_string();
    assert!(
        !message.contains("Context:"),
        "Expected no context in message:\n{}",
        message
    );
    let error: TracedUnion<MyErrorType, Cons<MY_ERROR_TYPE, End>> =
        error.map(|e| MyErrorType(Box::new(e)));
    let message = error.to_debug_string();
    assert!(
        !message.contains("Context:"),
        "Expected no context in message:\n{}",
        message
    );
    let error: TracedUnion<std::io::Error> =
        TracedUnion::any_error(std::io::Error::new(std::io::ErrorKind::Other, "io error"));
    assert_eq!(error.type_key(), ANY_ERROR);
    let error: TracedUnion<MyErrorType, Cons<MY_ERROR_TYPE, End>> =
        error.map(|e| MyErrorType(Box::new(e)));
    let message = error.to_debug_string();
    assert!(
        !message.contains("Context:"),
        "Expected no context in message:\n{}",
        message
    );
    assert_eq!(error.to_string(), "MyErrorType: io error");
}

#[test]
fn source_lives_long_enough() {
    enum Wrapper {
        TracedUnion(TracedUnion<StrContext>),
    }

    let error = TracedUnion::any_error(StrContext::Static("Error"));
    let wrapper_binding = Wrapper::TracedUnion(error);
    let wrapper = &wrapper_binding;
    let source = match wrapper {
        Wrapper::TracedUnion(traced_error) => {
            traced_error.source(|_e: &StrContext| None::<&(dyn Error + 'static)>)
        }
    };
    let _source = source;
    assert!(_source.is_none());

    enum Wrapped {
        TracedUnion(TracedUnion<IoErrorWrapper>),
    }

    let error = TracedUnion::any_error(IoErrorWrapper(std::io::Error::new(
        std::io::ErrorKind::Other,
        "Error",
    )));
    let wrapper_binding = Wrapped::TracedUnion(error);
    let wrapper = &wrapper_binding;
    let source = match wrapper {
        Wrapped::TracedUnion(traced_error) => {
            traced_error.source(|e: &IoErrorWrapper| std::error::Error::source(e))
        }
    };
    assert_eq!(source.unwrap().to_string(), "Error");
}

#[derive(Debug)]
pub enum OurError {
    IoError(std::io::Error),
}

impl std::error::Error for OurError {}

impl core::fmt::Display for OurError {
    fn fmt(&self, f: &mut core::fmt::Formatter) -> core::fmt::Result {
        match &*self {
            OurError::IoError(source) => f.write_str(&source.to_string()),
        }
    }
}

impl From<std::io::Error> for OurError {
    fn from(error: std::io::Error) -> Self {
        OurError::IoError(error)
    }
}

#[derive(Debug)]
pub enum AnotherError {
    AnotherErrorVariant,
    IoError(std::io::Error),
}

impl std::error::Error for AnotherError {}

impl core::fmt::Display for AnotherError {
    fn fmt(&self, f: &mut core::fmt::Formatter) -> core::fmt::Result {
        match &*self {
            AnotherError::AnotherErrorVariant => f.write_str("AnotherError::AnotherErrorVariant"),
            AnotherError::IoError(source) => f.write_str(&source.to_string()),
        }
    }
}

impl From<OurError> for AnotherError {
    fn from(error: OurError) -> Self {
        match error {
            OurError::IoError(source) => AnotherError::IoError(source),
        }
    }
}

impl From<std::io::Error> for AnotherError {
    fn from(error: std::io::Error) -> Self {
        AnotherError::IoError(error)
    }
}

fn raw_error_result() -> Result<(), std::io::Error> {
    Err(std::io::Error::new(
        std::io::ErrorKind::Other,
        "this is a raw io error",
    ))
}

fn traced_error_result() -> Result<(), TracedUnion<std::io::Error, Cons<IO, End>>> {
    raw_error_result()
        .union::<IO, _, _>()
        .context("Here is some context")
}

fn traced_our_error_enum_result1() -> Result<(), TracedUnion<OurError, Cons<OUR_ERROR, End>>> {
    let _ = IntoUnionSingle::into_union::<OUR_ERROR>(traced_error_result())
        .context("More context")?;
    let _ = IntoUnion::into_union::<OUR_ERROR, _, _>(raw_error_result())
        .context("Different context")?;
    Ok(())
}

fn traced_our_error_enum_result2(
) -> Result<(), TracedUnion<AnotherError, Cons<ANOTHER_ERROR, End>>> {
    let _ = IntoUnionSingle::into_union::<ANOTHER_ERROR>(traced_our_error_enum_result1())?;
    Ok(())
}

#[test]
fn into_traced() {
    let error = traced_our_error_enum_result2().unwrap_err();
    assert!(matches!(error.inner(), AnotherError::IoError(_)));
    let messages: Vec<&str> = error
        .context_messages()
        .iter()
        .map(|m| m.as_str())
        .collect();
    assert_eq!(messages, vec!["Here is some context", "More context"]);
}

#[test]
fn union() {
    #[derive(Debug)]
    struct MyCustomError(std::io::Error);

    impl Display for MyCustomError {
        fn fmt(&self, fmt: &mut std::fmt::Formatter<'_>) -> std::fmt::Result {
            fmt.write_str(&format!("MyCustomError: {}", self.0))
        }
    }

    impl std::error::Error for MyCustomError {}

    impl From<std::io::Error> for MyCustomError {
        fn from(value: std::io::Error) -> Self {
            MyCustomError(value)
        }
    }

    fn regular_union() -> TracedUnion<std::io::Error, Cons<IO, End>> {
        let error =
            std::io::Error::new(std::io::ErrorKind::AddrInUse, "Address in use message here");
        return error.into();
    }

    fn result_union() -> Result<(), TracedUnion<std::io::Error, Cons<IO, End>>> {
        let error =
            std::io::Error::new(std::io::ErrorKind::AddrInUse, "Address in use message here");
        return Err(error).union::<IO, _, _>();
    }

    fn mapped_result_union() -> Result<(), TracedUnion<MyCustomError, Cons<MY_CUSTOM_ERROR, End>>>
    {
        let error =
            std::io::Error::new(std::io::ErrorKind::AddrInUse, "Address in use message here");
        return IntoUnion::into_union::<MY_CUSTOM_ERROR, _, _>(Err(error));
    }

    let error = regular_union();
    assert_eq!(error.into_inner().kind(), std::io::ErrorKind::AddrInUse);
    let result = result_union();
    assert!(result.is_err());
    let error = result.unwrap_err();
    assert_eq!(error.into_inner().kind(), std::io::ErrorKind::AddrInUse);
    let result = mapped_result_union();
    assert!(result.is_err());
    let error = result.unwrap_err();
    assert_eq!(error.into_inner().0.kind(), std::io::ErrorKind::AddrInUse);
}

#[test]
fn unions_are_send_and_sync() {
    fn is_send<T: Send>(_: &T) {}
    fn is_sync<T: Sync>(_: &T) {}

    let error_union: TracedUnion<std::io::Error, Cons<IO, Cons<TIMEOUT, End>>> =
        TracedUnion::error::<IO, _>(std::io::Error::new(std::io::ErrorKind::Other, "yooo"));
    is_send(&error_union);
    is_sync(&error_union);
    let message: TracedUnion<StrContext> = TracedUnion::any_error(StrContext::Static("yooo"));
    is_send(&message);
    is_sync(&message);
}
