//! The lines of a file's content.
//!
//! A line ends with a line feed, or with the end of the content. The line feed, and a
//! carriage return directly before it, are no part of the line.

use vstd::prelude::*;

verus! {

/// The byte that ends a line.
pub const LINE_FEED: u8 = 0x0a;

/// The byte that may precede the line feed.
pub const CARRIAGE_RETURN: u8 = 0x0d;

/// The number of bytes before the first line feed of `content`; its length where it has
/// none.
pub open spec fn first_break(content: Seq<u8>) -> int
    decreases content.len(),
{
    if content.len() == 0 || content[0] == LINE_FEED {
        0
    } else {
        1 + first_break(content.drop_first())
    }
}

/// A line as read: without the carriage return that stood before its line feed.
pub open spec fn strip_carriage_return(line: Seq<u8>) -> Seq<u8> {
    if line.len() > 0 && line.last() == CARRIAGE_RETURN {
        line.drop_last()
    } else {
        line
    }
}

/// The lines of `content`, in order, terminators stripped. Empty content has no line; a
/// last line need not be terminated.
pub open spec fn lines_of(content: Seq<u8>) -> Seq<Seq<u8>>
    decreases content.len(),
{
    let end = first_break(content);
    if content.len() == 0 {
        Seq::empty()
    } else if 0 <= end < content.len() {
        seq![strip_carriage_return(content.take(end))] + lines_of(content.skip(end + 1))
    } else {
        seq![content]
    }
}

/// `first_break` is the least index of a line feed.
pub proof fn lemma_first_break(content: Seq<u8>)
    ensures
        0 <= first_break(content) <= content.len(),
        forall|i: int| 0 <= i < first_break(content) ==> content[i] != LINE_FEED,
        first_break(content) < content.len() ==> content[first_break(content)] == LINE_FEED,
    decreases content.len(),
{
    if content.len() == 0 || content[0] == LINE_FEED {
    } else {
        let rest = content.drop_first();
        lemma_first_break(rest);
        assert forall|i: int| 0 <= i < first_break(content) implies content[i] != LINE_FEED by {
            if i > 0 {
                assert(content[i] == rest[i - 1]);
            }
        }
        if first_break(content) < content.len() {
            assert(content[first_break(content)] == rest[first_break(rest)]);
        }
    }
}

/// An index before which no line feed stands, and at which the content breaks, is the
/// first break.
pub proof fn lemma_first_break_unique(content: Seq<u8>, end: int)
    requires
        0 <= end <= content.len(),
        forall|i: int| 0 <= i < end ==> content[i] != LINE_FEED,
        end < content.len() ==> content[end] == LINE_FEED,
    ensures
        first_break(content) == end,
{
    lemma_first_break(content);
}

/// Where the line that starts at `start` ends, and where the next line starts.
pub fn next_line(content: &[u8], start: usize) -> (bounds: (usize, usize))
    requires
        start < content.len(),
    ensures
        start <= bounds.0 <= bounds.1 <= content.len(),
        start < bounds.1,
        lines_of(content@.skip(start as int)) == seq![
            content@.subrange(start as int, bounds.0 as int),
        ] + lines_of(content@.skip(bounds.1 as int)),
{
    let ghost rest = content@.skip(start as int);
    let mut at: usize = start;
    while at < content.len() && content[at] != LINE_FEED
        invariant
            start <= at <= content.len(),
            rest == content@.skip(start as int),
            forall|i: int| 0 <= i < at - start ==> rest[i] != LINE_FEED,
        decreases content.len() - at,
    {
        at = at + 1;
    }
    proof {
        lemma_first_break_unique(rest, at - start);
    }
    if at == content.len() {
        proof {
            assert(rest =~= content@.subrange(start as int, at as int));
            assert(lines_of(content@.skip(at as int)) =~= Seq::<Seq<u8>>::empty());
            assert(lines_of(rest) =~= seq![rest]);
        }
        (at, at)
    } else {
        let end: usize = if at > start && content[at - 1] == CARRIAGE_RETURN {
            at - 1
        } else {
            at
        };
        proof {
            let line = rest.take(at - start);
            assert(line =~= content@.subrange(start as int, at as int));
            assert(strip_carriage_return(line) =~= content@.subrange(start as int, end as int));
            assert(rest.skip(at - start + 1) =~= content@.skip(at + 1));
        }
        (end, at + 1)
    }
}

} // verus!
