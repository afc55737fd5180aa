//! How a context trace and a backtrace are written out after a payload.

use crate::backtrace::Snapshot;
use crate::str_error::StrContext;
use vstd::prelude::*;
use vstd::string::*;

verus! {

/// The characters of each message of a trace, oldest first.
pub open spec fn texts(context: Seq<StrContext>) -> Seq<Seq<char>> {
    context.map_values(|message: StrContext| message@)
}

/// Each item on a line of its own behind `bullet`, in the order given.
pub open spec fn bullets(items: Seq<Seq<char>>, bullet: Seq<char>) -> Seq<char>
    decreases items.len(),
{
    if items.len() == 0 {
        Seq::empty()
    } else {
        bullets(items.drop_last(), bullet) + bullet + items.last()
    }
}

/// The block that lists a trace: nothing for an empty trace, else the heading
/// and the messages, oldest first.
pub open spec fn context_block(items: Seq<Seq<char>>) -> Seq<char> {
    if items.len() == 0 {
        Seq::empty()
    } else {
        "\n\nContext:"@ + bullets(items, "\n\t- "@)
    }
}

/// The block that shows a backtrace: nothing where none was captured.
pub open spec fn backtrace_block(trace: Option<Seq<char>>) -> Seq<char> {
    match trace {
        Some(text) => "\n\nBacktrace:\n"@ + text,
        None => Seq::empty(),
    }
}

/// A payload's text with its trace: what displaying a traced error gives.
pub open spec fn traced_text(payload: Seq<char>, items: Seq<Seq<char>>) -> Seq<char> {
    payload + context_block(items)
}

/// A payload's text with its trace and backtrace: what debugging gives.
pub open spec fn debug_text(
    payload: Seq<char>,
    items: Seq<Seq<char>>,
    trace: Option<Seq<char>>,
) -> Seq<char> {
    payload + context_block(items) + backtrace_block(trace)
}

/// Appends to `out` each message behind `bullet`, oldest first.
pub fn write_bullets(out: &mut String, context: &Vec<StrContext>, bullet: &str)
    ensures
        final(out)@ == old(out)@ + bullets(texts(context@), bullet@),
{
    let ghost items = texts(context@);
    let mut i: usize = 0;
    assert(items.take(0) =~= Seq::<Seq<char>>::empty());
    while i < context.len()
        invariant
            0 <= i <= context.len(),
            items == texts(context@),
            out@ == old(out)@ + bullets(items.take(i as int), bullet@),
        decreases context.len() - i,
    {
        out.append(bullet);
        out.append(context[i].as_str());
        proof {
            let next = items.take(i + 1);
            assert(next.drop_last() =~= items.take(i as int));
            assert(next.last() == context[i as int]@);
            assert(out@ =~= old(out)@ + bullets(next, bullet@));
        }
        i += 1;
    }
    assert(items.take(i as int) =~= items);
}

/// Appends to `out` the block that lists the trace.
pub fn write_context(out: &mut String, context: &Vec<StrContext>)
    ensures
        final(out)@ == old(out)@ + context_block(texts(context@)),
{
    if context.len() > 0 {
        out.append("\n\nContext:");
        write_bullets(out, context, "\n\t- ");
        assert(out@ =~= old(out)@ + context_block(texts(context@)));
    } else {
        assert(out@ =~= old(out)@ + context_block(texts(context@)));
    }
}

/// Appends to `out` the block that shows the backtrace.
pub fn write_backtrace(out: &mut String, backtrace: &Snapshot)
    ensures
        final(out)@ == old(out)@ + backtrace_block(backtrace.shown()),
{
    if backtrace.is_captured() {
        out.append("\n\nBacktrace:\n");
        out.append(backtrace.as_str());
        assert(out@ =~= old(out)@ + backtrace_block(backtrace.shown()));
    } else {
        assert(out@ =~= old(out)@ + backtrace_block(backtrace.shown()));
    }
}

/// Two messages pushed one after the other are listed in that order, after
/// all that was pushed before them.
pub proof fn lemma_bullets_push(items: Seq<Seq<char>>, bullet: Seq<char>, item: Seq<char>)
    ensures
        bullets(items.push(item), bullet) == bullets(items, bullet) + bullet + item,
{
    assert(items.push(item).drop_last() =~= items);
}

} // verus!
