//! The line structure of recipe text.
//!
//! Recipe text is a sequence of bytes in which every line is ended by a line
//! feed; the line feed after the last line may be left out. A line is
//! located by a [`Span`], the half-open range of positions of its bytes,
//! line feed excluded.

use vstd::prelude::*;

verus! {

/// The byte that ends a line.
pub const LINE_FEED: u8 = 10u8;

/// A half-open range `start..end` of positions in a text.
#[derive(Clone, Copy, Debug, PartialEq, Eq, Structural)]
pub struct Span {
    pub start: usize,
    pub end: usize,
}

impl Span {
    /// The range as a pair of mathematical integers.
    pub open spec fn range(self) -> (int, int) {
        (self.start as int, self.end as int)
    }

    /// Whether the span is a range of positions of `text`.
    pub open spec fn within(self, text: Seq<u8>) -> bool {
        self.start <= self.end <= text.len()
    }

    /// The bytes of `text` that the span covers.
    pub open spec fn of(self, text: Seq<u8>) -> Seq<u8> {
        text.subrange(self.start as int, self.end as int)
    }
}

/// The ranges that a vector of spans stands for.
pub open spec fn ranges_of(spans: Seq<Span>) -> Seq<(int, int)> {
    Seq::new(spans.len(), |i: int| spans[i].range())
}

/// Whether `pattern` stands in `text` at position `start`.
pub open spec fn occurs_at(text: Seq<u8>, start: int, pattern: Seq<u8>) -> bool {
    start + pattern.len() <= text.len() && text.subrange(start, start + pattern.len()) == pattern
}

/// Whether `line` is `prefix` followed by at least one more byte.
pub open spec fn extends_prefix(line: Seq<u8>, prefix: Seq<u8>) -> bool {
    prefix.len() < line.len() && line.subrange(0, prefix.len() as int) == prefix
}

/// The position at which the line that holds position `from` ends: that of
/// the first line feed at or after `from`, or the length of the text where
/// there is none.
pub open spec fn line_end(text: Seq<u8>, from: int) -> int
    decreases text.len() - from,
{
    if from >= text.len() || text[from] == LINE_FEED {
        from
    } else {
        line_end(text, from + 1)
    }
}

/// The ranges of the lines of `text` that start at or after position `from`,
/// where `from` is the start of a line.
pub open spec fn line_ranges_from(text: Seq<u8>, from: int) -> Seq<(int, int)>
    decreases text.len() - from,
    via line_ranges_from_decreases
{
    if from >= text.len() {
        Seq::empty()
    } else {
        let end = line_end(text, from);
        if end >= text.len() {
            seq![(from, end)]
        } else {
            seq![(from, end)] + line_ranges_from(text, end + 1)
        }
    }
}

#[via_fn]
proof fn line_ranges_from_decreases(text: Seq<u8>, from: int) {
    lemma_line_end_from(text, from);
}

/// The ranges of all lines of `text`, in order.
pub open spec fn line_ranges(text: Seq<u8>) -> Seq<(int, int)> {
    line_ranges_from(text, 0)
}

/// The lines of `text`, in order, each without its line feed.
pub open spec fn lines(text: Seq<u8>) -> Seq<Seq<u8>> {
    Seq::new(
        line_ranges(text).len(),
        |i: int| text.subrange(line_ranges(text)[i].0, line_ranges(text)[i].1),
    )
}

/// A line never ends before the position it is searched from.
pub proof fn lemma_line_end_from(text: Seq<u8>, from: int)
    ensures
        from <= line_end(text, from),
    decreases text.len() - from,
{
    if from < text.len() && text[from] != LINE_FEED {
        lemma_line_end_from(text, from + 1);
    }
}

/// A line ends inside the text, holds no line feed, and is followed by one
/// unless it reaches the end of the text.
pub proof fn lemma_line_end(text: Seq<u8>, from: int)
    requires
        0 <= from <= text.len(),
    ensures
        from <= line_end(text, from) <= text.len(),
        forall|k: int| from <= k < line_end(text, from) ==> text[k] != LINE_FEED,
        line_end(text, from) < text.len() ==> text[line_end(text, from)] == LINE_FEED,
    decreases text.len() - from,
{
    if from < text.len() && text[from] != LINE_FEED {
        lemma_line_end(text, from + 1);
    }
}

/// Whether `ranges` are the lines of `text` from position `from` on: the
/// first starts at `from`, each holds no line feed and is followed by one,
/// the next starts right after that line feed, and the last ends where the
/// text ends or at a line feed that is the last byte of the text.
pub open spec fn tiles(text: Seq<u8>, from: int, ranges: Seq<(int, int)>) -> bool {
    &&& ranges.len() == 0 <==> from >= text.len()
    &&& ranges.len() > 0 ==> ranges[0].0 == from && text.len() - 1 <= ranges.last().1
    &&& forall|i: int|
        0 <= i < ranges.len() ==> {
            let (start, end) = #[trigger] ranges[i];
            &&& 0 <= start <= end <= text.len()
            &&& forall|k: int| start <= k < end ==> text[k] != LINE_FEED
            &&& end < text.len() ==> text[end] == LINE_FEED
            &&& i + 1 < ranges.len() ==> end < text.len() && ranges[i + 1].0 == end + 1
        }
}

/// The line ranges from the start of a line on tile the rest of the text;
/// from position 0 on, the whole of it.
pub proof fn lemma_line_ranges_tile(text: Seq<u8>, from: int)
    requires
        0 <= from,
    ensures
        tiles(text, from, line_ranges_from(text, from)),
    decreases text.len() - from,
{
    if from < text.len() {
        lemma_line_end(text, from);
        let end = line_end(text, from);
        let ranges = line_ranges_from(text, from);
        if end < text.len() {
            let rest = line_ranges_from(text, end + 1);
            lemma_line_ranges_tile(text, end + 1);
            assert(ranges =~= seq![(from, end)] + rest);
            assert forall|i: int| 0 <= i < ranges.len() implies {
                let (start, end) = #[trigger] ranges[i];
                &&& 0 <= start <= end <= text.len()
                &&& forall|k: int| start <= k < end ==> text[k] != LINE_FEED
                &&& end < text.len() ==> text[end] == LINE_FEED
                &&& i + 1 < ranges.len() ==> end < text.len() && ranges[i + 1].0 == end + 1
            } by {
                if i > 0 {
                    assert(ranges[i] == rest[i - 1]);
                    if i + 1 < ranges.len() {
                        assert(ranges[i + 1] == rest[i]);
                    }
                } else if ranges.len() > 1 {
                    assert(ranges[1] == rest[0]);
                }
            }
            if rest.len() > 0 {
                assert(ranges.last() == rest.last());
            }
        }
    }
}

/// Finds the end of the line that holds position `from`.
pub fn find_line_end(text: &[u8], from: usize) -> (end: usize)
    ensures
        end == line_end(text@, from as int),
        from <= end,
        from <= text@.len() ==> end <= text@.len(),
{
    let mut i: usize = from;
    while i < text.len() && text[i] != LINE_FEED
        invariant
            from <= i,
            from <= text@.len() ==> i <= text@.len(),
            line_end(text@, i as int) == line_end(text@, from as int),
        decreases text@.len() - i,
    {
        i += 1;
    }
    i
}

/// Whether the bytes of `text` from position `start` on begin with `pattern`.
pub fn matches_at(text: &[u8], start: usize, pattern: &[u8]) -> (found: bool)
    ensures
        found == occurs_at(text@, start as int, pattern@),
{
    if start > text.len() || pattern.len() > text.len() - start {
        return false;
    }
    let ghost window = text@.subrange(start as int, start + pattern@.len());
    let mut i: usize = 0;
    while i < pattern.len()
        invariant
            i <= pattern@.len(),
            start + pattern@.len() <= text@.len() <= usize::MAX,
            window == text@.subrange(start as int, start + pattern@.len()),
            forall|k: int| 0 <= k < i ==> window[k] == pattern@[k],
        decreases pattern@.len() - i,
    {
        if text[start + i] != pattern[i] {
            assert(window[i as int] != pattern@[i as int]);
            return false;
        }
        i += 1;
    }
    assert(window =~= pattern@);
    true
}

/// Whether `span` lies inside `text` and the line at `span` is exactly
/// `pattern`.
pub fn line_equals(text: &[u8], span: Span, pattern: &[u8]) -> (equal: bool)
    ensures
        equal == (span.within(text@) && span.of(text@) == pattern@),
{
    span.start <= span.end && span.end - span.start == pattern.len() && matches_at(
        text,
        span.start,
        pattern,
    )
}

/// Whether `span` lies inside `text` and the line at `span` is `prefix`
/// followed by at least one more byte.
pub fn line_extends(text: &[u8], span: Span, prefix: &[u8]) -> (extends: bool)
    ensures
        extends == (span.within(text@) && extends_prefix(span.of(text@), prefix@)),
{
    if span.start <= span.end && span.end <= text.len() && span.end - span.start > prefix.len() {
        assert(span.of(text@).subrange(0, prefix@.len() as int) =~= text@.subrange(
            span.start as int,
            span.start + prefix@.len(),
        ));
        matches_at(text, span.start, prefix)
    } else {
        false
    }
}

/// Splits `text` into its lines and returns the span of each, in order.
pub fn split_lines(text: &[u8]) -> (spans: Vec<Span>)
    ensures
        ranges_of(spans@) == line_ranges(text@),
        forall|i: int| 0 <= i < spans@.len() ==> (#[trigger] spans@[i]).within(text@),
{
    let mut spans: Vec<Span> = Vec::new();
    let mut pos: usize = 0;
    while pos < text.len()
        invariant
            pos <= text@.len(),
            line_ranges(text@) =~= ranges_of(spans@) + line_ranges_from(text@, pos as int),
            forall|i: int| 0 <= i < spans@.len() ==> (#[trigger] spans@[i]).within(text@),
        decreases text@.len() - pos,
    {
        let end = find_line_end(text, pos);
        spans.push(Span { start: pos, end });
        if end < text.len() {
            pos = end + 1;
        } else {
            pos = end;
        }
    }
    spans
}

} // verus!
