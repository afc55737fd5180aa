//! The one-time stack snapshot that an error takes when it is built.

use vstd::prelude::*;
use vstd::string::*;

verus! {

#[verifier::external_type_specification]
#[verifier::external_body]
pub struct ExBacktrace(std::backtrace::Backtrace);

/// `std::backtrace::Backtrace::capture`: a backtrace of the calling thread,
/// or an empty one where the environment has backtraces switched off. Which
/// of the two comes back is not claimed.
#[verifier::external_body]
fn capture() -> (trace: std::backtrace::Backtrace) {
    std::backtrace::Backtrace::capture()
}

/// `std::backtrace::Backtrace::status`: whether the backtrace holds frames.
/// Nothing is claimed of the answer.
#[verifier::external_body]
fn is_captured(trace: &std::backtrace::Backtrace) -> (captured: bool) {
    matches!(trace.status(), std::backtrace::BacktraceStatus::Captured)
}

/// Whether `text` is what displaying a backtrace gives.
pub open spec fn is_backtrace_text(text: Seq<char>) -> bool {
    exists|trace: std::backtrace::Backtrace, shown: String| #[trigger]
        to_string_from_display_ensures::<std::backtrace::Backtrace>(&trace, shown) && shown@
            == text
}

/// A backtrace as it was when it was taken: whether frames were captured,
/// and its text. It is taken once and never again, so that it shows where
/// the error came from and not where it was last passed on.
#[derive(Debug)]
pub struct Snapshot {
    captured: bool,
    text: String,
}

impl Snapshot {
    /// Whether frames were captured.
    pub closed spec fn captured(&self) -> bool {
        self.captured
    }

    /// The text of the backtrace; where no frames were captured, the text
    /// that says so.
    pub closed spec fn text(&self) -> Seq<char> {
        self.text@
    }

    /// The text to show under an error: that of the backtrace where frames
    /// were captured, and none else.
    pub open spec fn shown(&self) -> Option<Seq<char>> {
        if self.captured() {
            Some(self.text())
        } else {
            None
        }
    }

    /// Takes the snapshot of the calling thread: its text is what displaying
    /// the backtrace that was captured gives. Capture is best effort: the
    /// environment decides whether frames come back, and no caller may depend
    /// on it.
    pub fn take() -> (snapshot: Snapshot)
        ensures
            is_backtrace_text(snapshot.text()),
    {
        let trace = capture();
        let text = trace.to_string();
        assert(to_string_from_display_ensures::<std::backtrace::Backtrace>(&trace, text));
        Snapshot { captured: is_captured(&trace), text }
    }

    /// The snapshot that holds no frames: for an error that brings its
    /// backtrace along in another form.
    pub fn disabled() -> (snapshot: Snapshot)
        ensures
            !snapshot.captured(),
            snapshot.text() == "disabled backtrace"@,
    {
        Snapshot { captured: false, text: String::from_str("disabled backtrace") }
    }

    /// Whether frames were captured.
    pub fn is_captured(&self) -> (captured: bool)
        ensures
            captured == self.captured(),
    {
        self.captured
    }

    /// The text of the backtrace.
    pub fn as_str(&self) -> (text: &str)
        ensures
            text@ == self.text(),
    {
        self.text.as_str()
    }
}

} // verus!
