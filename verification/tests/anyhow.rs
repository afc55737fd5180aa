use anyhow::Context;

use eros::generic_error::TracedError;

#[test]
fn nesting_context_anyhow() {
    fn func1() -> anyhow::Result<()> {
        return Err(anyhow::Error::new(std::io::Error::new(
            std::io::ErrorKind::AddrInUse,
            "Address in use message here",
        )))
        .context("From func1");
    }

    fn func2() -> anyhow::Result<()> {
        return func1().context("From func2".to_string());
    }

    fn func3() -> anyhow::Result<()> {
        return func2().with_context(|| "From func3");
    }

    let result = func3();
    println!("{:?}", result.unwrap_err());
}

#[test]
fn anyhow_chain_becomes_a_trace() {
    let error = anyhow::Error::new(std::io::Error::new(
        std::io::ErrorKind::AddrInUse,
        "This is the root",
    ))
    .context("This is some anyhow context");
    let mut chain = error.chain().map(|link| link.to_string());
    let root = chain.next().unwrap();
    let links: Vec<String> = chain.collect();
    let traced = TracedError::from_chain(root, links, None);
    assert_eq!(traced.inner().as_str(), "This is some anyhow context");
    assert_eq!(traced.context_messages().len(), 1);
    assert_eq!(traced.context_messages()[0].as_str(), "This is the root");
    let traced = traced.context("eros context");
    let text = traced.to_string();
    assert_eq!(
        text,
        "This is some anyhow context\n\nContext:\n\t- This is the root\n\t- eros context"
    );
}

#[test]
fn chain_with_backtrace_keeps_it_in_the_root() {
    let traced = TracedError::from_chain(
        "root".to_string(),
        vec!["cause".to_string()],
        Some("frame 0\nframe 1".to_string()),
    );
    assert_eq!(
        traced.inner().as_str(),
        "root\n\nBacktrace:\nframe 0\nframe 1"
    );
    assert!(!traced.captured_backtrace().is_captured());
    assert_eq!(
        traced.to_debug_string(),
        "root\n\nBacktrace:\nframe 0\nframe 1\n\nContext:\n\t- cause"
    );
}
