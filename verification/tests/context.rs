use eros::context::{AbsentValueError, Context};
use eros::generic_error::TracedError;
use eros::str_error::StrContext;
use eros::traced_union::{ReshapeUnion, TracedUnion, ANY_ERROR};
use eros::type_set::{Cons, End};

const IO: u64 = 1;
const I32: u64 = 2;
const BOOL: u64 = 3;

type Any = Cons<ANY_ERROR, End>;

/// An error that is just a message, under the candidate for forgotten types.
fn traced(message: &'static str) -> TracedUnion<StrContext> {
    TracedUnion::any_error(StrContext::Static(message))
}

/// The same for a message built at run time.
fn traced_owned(message: String) -> TracedUnion<StrContext> {
    TracedUnion::any_error(StrContext::Owned(message))
}

#[test]
fn traced_error_union() {
    fn func1() -> Result<(), TracedUnion<std::io::Error, Cons<IO, End>>> {
        return Err(std::io::Error::new(
            std::io::ErrorKind::AddrInUse,
            "Address in use message here",
        )
        .into());
    }

    fn func2() -> Result<(), TracedUnion<std::io::Error, Cons<I32, Cons<IO, End>>>> {
        func1().widen().context("From func2".to_string())
    }

    fn func3() -> Result<(), TracedUnion<std::io::Error, Cons<IO, Cons<I32, Cons<BOOL, End>>>>> {
        return func2()
            .with_context(|| "From func3")
            .map_err(TracedUnion::widen);
    }

    fn func4() -> Result<(), TracedUnion<std::io::Error, Cons<IO, Cons<BOOL, End>>>> {
        return match func3().with_context(|| "From func4").narrow::<I32, _>() {
            Ok(_) => panic!("should exist"),
            Err(result) => result,
        };
    }

    fn func5() -> Result<(), TracedUnion<StrContext, Cons<IO, Cons<BOOL, Cons<ANY_ERROR, End>>>>> {
        return Err(traced("Error")).context("From func5").widen();
    }

    let result: Result<(), TracedUnion<std::io::Error, Cons<IO, Cons<I32, Cons<BOOL, End>>>>> =
        func3();
    assert!(result.is_err());
    let error = result.unwrap_err();
    let message = error.to_debug_string();
    assert!(
        message.contains("Context:"),
        "Expected context in message:\n{}",
        message
    );
    let message = error.to_string();
    assert!(
        !message.contains("Context:"),
        "Expected no context in message:\n{}",
        message
    );
    let result: Result<(), TracedUnion<std::io::Error, Cons<IO, Cons<BOOL, End>>>> = func4();
    assert!(result.is_err());
    let message = result.unwrap_err().to_debug_string();
    assert!(
        message.contains("Context:"),
        "Expected context in message:\n{}",
        message
    );
    let result: Result<(), TracedUnion<StrContext, Cons<IO, Cons<BOOL, Cons<ANY_ERROR, End>>>>> =
        func5();
    assert!(result.is_err());
    let message = result.unwrap_err().to_debug_string();
    assert!(
        message.contains("Context:"),
        "Expected context in message:\n{}",
        message
    );
}

#[test]
fn generic_context_error_to_traced_error_union() {
    fn func1() -> Result<(), TracedUnion<StrContext>> {
        return Err(traced("This is root error message"));
    }

    fn func2() -> Result<(), TracedUnion<StrContext>> {
        func1().context("Generic context")
    }

    fn func3() -> Result<(), TracedUnion<StrContext, Cons<IO, Any>>> {
        func2().map_err(TracedUnion::widen)
    }

    let result: Result<(), TracedUnion<StrContext, Cons<IO, Any>>> = func3();
    println!("{}", result.as_ref().unwrap_err().to_debug_string());
    assert!(result.is_err());
    let message = result.unwrap_err().to_debug_string();
    assert!(
        message.contains("Context:"),
        "Expected context in message:\n{}",
        message
    );
}

#[test]
fn generic_error_to_error_union() {
    fn func1() -> Result<(), TracedUnion<StrContext>> {
        return Err(traced("This is root error message"));
    }

    fn func2() -> Result<(), TracedUnion<StrContext, Cons<IO, Any>>> {
        func1().widen()
    }

    let result: Result<(), TracedUnion<StrContext, Cons<IO, Any>>> = func2();
    println!("{}", result.as_ref().unwrap_err().to_debug_string());
    assert!(result.is_err());
    let message = result.unwrap_err().to_debug_string();
    assert!(
        !message.contains("Context:"),
        "Expected no context in message:\n{}",
        message
    );
}

#[test]
fn bail() {
    fn func1() -> Result<(), TracedUnion<StrContext>> {
        return Err(traced_owned(format!("This is a bailing message {}", 1)));
    }

    fn func2() -> Result<(), TracedUnion<StrContext, Any>> {
        func1().context("From func2".to_string())
    }

    fn func3() -> Result<(), TracedUnion<StrContext, Cons<ANY_ERROR, Cons<I32, Cons<BOOL, End>>>>>
    {
        return func2().map_err(TracedUnion::widen);
    }

    fn func4() -> Result<(), TracedUnion<std::io::Error>> {
        let error = TracedUnion::any_error(std::io::Error::new(
            std::io::ErrorKind::AddrInUse,
            "Address in use message here",
        ));
        return Err(error);
    }

    let result: Result<(), TracedUnion<StrContext, Cons<ANY_ERROR, Cons<I32, Cons<BOOL, End>>>>> =
        func3();
    println!("{}", result.as_ref().unwrap_err().to_debug_string());
    assert!(result.is_err());
    let message = result.unwrap_err().to_debug_string();
    assert!(
        message.contains("Context:"),
        "Expected context in message:\n{}",
        message
    );
    assert!(message.starts_with("This is a bailing message 1\n\nContext:\n\t- From func2"));
    let result: Result<(), TracedUnion<std::io::Error>> = func4();
    println!("{}", result.as_ref().unwrap_err().to_debug_string());
    assert!(result.is_err());
    let message = result.unwrap_err().to_debug_string();
    assert!(
        !message.contains("Context:"),
        "Expected no context in message:\n{}",
        message
    );
}

#[test]
fn ensure() {
    fn func1() -> Result<(), TracedUnion<StrContext>> {
        if !(1 == 2) {
            return Err(traced_owned(format!("This is a bailing message {}", 1)));
        }
        Ok(())
    }

    fn func2() -> Result<(), TracedUnion<StrContext, Any>> {
        func1().context("From func2".to_string())
    }

    fn func3() -> Result<(), TracedUnion<StrContext, Cons<ANY_ERROR, Cons<I32, Cons<BOOL, End>>>>>
    {
        return func2().map_err(TracedUnion::widen);
    }

    fn func4() -> Result<(), TracedUnion<std::io::Error>> {
        let error = TracedUnion::any_error(std::io::Error::new(
            std::io::ErrorKind::AddrInUse,
            "Address in use message here",
        ));
        return Err(error);
    }

    let result: Result<(), TracedUnion<StrContext, Cons<ANY_ERROR, Cons<I32, Cons<BOOL, End>>>>> =
        func3();
    println!("{}", result.as_ref().unwrap_err().to_debug_string());
    assert!(result.is_err());
    let message = result.unwrap_err().to_debug_string();
    assert!(
        message.contains("Context:"),
        "Expected context in message:\n{}",
        message
    );
    let result: Result<(), TracedUnion<std::io::Error>> = func4();
    println!("{}", result.as_ref().unwrap_err().to_debug_string());
    assert!(result.is_err());
    let message = result.unwrap_err().to_debug_string();
    assert!(
        !message.contains("Context:"),
        "Expected no context in message:\n{}",
        message
    );
}

#[test]
fn context_directly_on_error() {
    fn on_error() -> Result<(), TracedUnion<std::io::Error>> {
        let error =
            std::io::Error::new(std::io::ErrorKind::AddrInUse, "Address in use message here")
                .context("This is some context");
        return Err(error);
    }

    fn on_result() -> Result<(), TracedUnion<std::io::Error>> {
        let error =
            std::io::Error::new(std::io::ErrorKind::AddrInUse, "Address in use message here");
        let result: Result<(), std::io::Error> = Err(error);
        let value = result.context("This is some context")?;
        return Ok(value);
    }

    fn on_result_again() -> Result<(), TracedUnion<std::io::Error>> {
        let error =
            std::io::Error::new(std::io::ErrorKind::AddrInUse, "Address in use message here");
        let result: Result<(), std::io::Error> = Err(error);
        let value = result.context("This is some context")?;
        return Ok(value);
    }

    let result: Result<(), TracedUnion<std::io::Error>> = on_error();
    println!("{}", result.as_ref().unwrap_err().to_debug_string());
    assert!(result.is_err());
    let message = result.unwrap_err().to_debug_string();
    assert!(
        message.contains("Context:"),
        "Expected context in message:\n{}",
        message
    );
    let result: Result<(), TracedUnion<std::io::Error>> = on_result();
    println!("{}", result.as_ref().unwrap_err().to_debug_string());
    assert!(result.is_err());
    let message = result.unwrap_err().to_debug_string();
    assert!(
        message.contains("Context:"),
        "Expected context in message:\n{}",
        message
    );
    let result: Result<(), TracedUnion<std::io::Error>> = on_result_again();
    println!("{}", result.as_ref().unwrap_err().to_debug_string());
    assert!(result.is_err());
    let message = result.unwrap_err().to_debug_string();
    assert!(
        message.contains("Context:"),
        "Expected context in message:\n{}",
        message
    );
}

#[test]
fn absent_value_error() {
    fn func1() -> Result<(), TracedUnion<AbsentValueError>> {
        None.context("This value should be some")
    }

    let result = func1().context("Some context");
    println!("{:?}", result);
    let error = result.unwrap_err();
    assert_eq!(error.to_string(), "An `Option` was unexpectedly `None`");
    assert_eq!(
        error.to_debug_string().lines().next(),
        Some("AbsentValueError(())")
    );
    let messages: Vec<&str> = error
        .context_messages()
        .iter()
        .map(|m| m.as_str())
        .collect();
    assert_eq!(messages, vec!["This value should be some", "Some context"]);
    let inner_error: AbsentValueError = error.into_inner();
    assert_eq!(inner_error, AbsentValueError::default());
}

#[test]
fn integration_with_anyhow() {
    fn anyhow_result() -> anyhow::Result<()> {
        anyhow::Context::context(
            Err(anyhow::Error::from(std::io::Error::new(
                std::io::ErrorKind::AddrInUse,
                "This is the root",
            ))),
            "This is some anyhow context",
        )
    }

    fn from_anyhow(error: anyhow::Error) -> TracedError<StrContext> {
        let mut chain = error.chain().map(|link| link.to_string());
        let root = chain.next().unwrap();
        TracedError::from_chain(root, chain.collect(), None)
    }

    fn eros_result() -> Result<(), TracedError<StrContext>> {
        anyhow_result().map_err(from_anyhow)?;
        Ok(())
    }

    let result = eros_result().map_err(|e| e.context("eros context"));

    let text = result.as_ref().unwrap_err().to_debug_string();
    println!("{}", text);
    assert!(text.starts_with(
        "This is some anyhow context\n\nContext:\n\t- This is the root\n\t- eros context"
    ));
}
