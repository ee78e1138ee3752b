//! Text cut into spans, so that the characters that a filter matched can be
//! shown highlighted.

use crate::text::{chars_of, string_of};
use vstd::prelude::*;

verus! {

/// A run of text that is shown in one style.
#[derive(Debug)]
pub struct StyledSpan {
    pub text: String,
    /// Whether the run is highlighted.
    pub bold: bool,
}

/// A span as a mathematical value.
pub struct SpanView {
    pub text: Seq<char>,
    pub bold: bool,
}

impl View for StyledSpan {
    type V = SpanView;

    open spec fn view(&self) -> SpanView {
        SpanView { text: self.text@, bold: self.bold }
    }
}

/// The spans as mathematical values.
pub open spec fn span_views(spans: Seq<StyledSpan>) -> Seq<SpanView> {
    Seq::new(spans.len(), |i: int| spans[i]@)
}

/// A span that is not highlighted.
pub open spec fn plain(text: Seq<char>) -> SpanView {
    SpanView { text, bold: false }
}

/// A highlighted span.
pub open spec fn bold(text: Seq<char>) -> SpanView {
    SpanView { text, bold: true }
}

/// How many of `indices` have been met, in their sequence, among the first
/// `upto` offsets: an index is met when the offset reaches it while all before
/// it have been met.
pub open spec fn met(indices: Seq<usize>, upto: nat) -> nat
    decreases upto,
{
    if upto == 0 {
        0
    } else {
        let before = met(indices, (upto - 1) as nat);
        if before < indices.len() && indices[before as int] == upto - 1 {
            before + 1
        } else {
            before
        }
    }
}

/// Whether the character at `offset` is highlighted when `indices` are taken
/// in their sequence.
pub open spec fn is_met(indices: Seq<usize>, offset: int) -> bool {
    let before = met(indices, offset as nat);
    before < indices.len() && indices[before as int] == offset
}

/// One span for each character of `text`, highlighted where the character's
/// offset is met.
pub open spec fn text_spans(text: Seq<char>, indices: Seq<usize>) -> Seq<SpanView> {
    Seq::new(
        text.len(),
        |i: int| SpanView { text: seq![text[i]], bold: is_met(indices, i) },
    )
}

/// Whether some index lies beyond the last character of a text of `len` characters.
pub open spec fn any_beyond(indices: Seq<usize>, len: nat) -> bool {
    exists|k: int| 0 <= k < indices.len() && #[trigger] indices[k] >= len
}

/// The spans of the first `upto` characters of `text`, and the offset at
/// which the span that is still open begins: each character whose offset is
/// among `indices` closes the open span and stands in a highlighted span of
/// its own.
pub open spec fn cut(text: Seq<char>, indices: Seq<usize>, upto: nat) -> (Seq<SpanView>, int)
    decreases upto,
{
    if upto == 0 {
        (Seq::empty(), 0)
    } else {
        let (spans, start) = cut(text, indices, (upto - 1) as nat);
        let at = upto - 1;
        if indices.contains(at as usize) {
            (
                spans.push(plain(text.subrange(start, at))).push(bold(text.subrange(at, at + 1))),
                at + 1,
            )
        } else {
            (spans, start)
        }
    }
}

/// `text` cut into spans at `indices`.
///
/// Where an index lies beyond the text there is one empty span. Otherwise the
/// highlighted characters stand each in a span of its own, with the text
/// between two of them, and before the first, in a span in front of each,
/// empty where there is none; the text after the last follows in a last span.
pub open spec fn styled_spans(text: Seq<char>, indices: Seq<usize>) -> Seq<SpanView> {
    if any_beyond(indices, text.len()) {
        seq![plain(Seq::empty())]
    } else {
        let (spans, start) = cut(text, indices, text.len());
        if start < text.len() {
            spans.push(plain(text.subrange(start, text.len() as int)))
        } else {
            spans
        }
    }
}

/// What stands for a highlighted character in a rendered line: the escape
/// sequence that turns the colour to yellow, and at once the one that resets it.
pub open spec fn marker() -> Seq<char> {
    "\u{1b}[33m\u{1b}[0m"@
}

/// The spans as one line of text: the text of the spans that are not
/// highlighted, and a marker for each that is.
pub open spec fn rendered(spans: Seq<SpanView>) -> Seq<char>
    decreases spans.len(),
{
    if spans.len() == 0 {
        Seq::empty()
    } else {
        let last = spans.last();
        rendered(spans.drop_last()) + if last.bold {
            marker()
        } else {
            last.text
        }
    }
}

/// All the text of the spans, in their sequence.
pub open spec fn joined(spans: Seq<SpanView>) -> Seq<char>
    decreases spans.len(),
{
    if spans.len() == 0 {
        Seq::empty()
    } else {
        joined(spans.drop_last()) + spans.last().text
    }
}

/// Tells whether `offset` is among `indices`.
pub fn is_among(indices: &Vec<usize>, offset: usize) -> (found: bool)
    ensures
        found == indices@.contains(offset),
{
    let mut k: usize = 0;
    while k < indices.len()
        invariant
            k <= indices.len(),
            forall|j: int| 0 <= j < k ==> indices@[j] != offset,
        decreases indices.len() - k,
    {
        if indices[k] == offset {
            return true;
        }
        k += 1;
    }
    false
}

/// Tells whether an index lies beyond a text of `len` characters.
pub fn has_beyond(indices: &Vec<usize>, len: usize) -> (found: bool)
    ensures
        found == any_beyond(indices@, len as nat),
{
    let mut k: usize = 0;
    while k < indices.len()
        invariant
            k <= indices.len(),
            forall|j: int| 0 <= j < k ==> indices@[j] < len,
        decreases indices.len() - k,
    {
        if indices[k] >= len {
            return true;
        }
        k += 1;
    }
    false
}

/// Cuts `raw_string` into one span for each character, for a line in which
/// the matched characters are highlighted.
///
/// The indices are taken in their sequence: a character is highlighted when
/// its offset is the first index not yet used. For ascending indices these are
/// the characters at the indices.
pub fn string_to_styled_text(raw_string: &str, indices: &[usize]) -> (line: Vec<StyledSpan>)
    ensures
        span_views(line@) == text_spans(raw_string@, indices@),
{
    let chars = chars_of(raw_string);
    let mut line: Vec<StyledSpan> = Vec::new();
    let mut next: usize = 0;
    let mut i: usize = 0;
    while i < chars.len()
        invariant
            i <= chars.len(),
            chars@ == raw_string@,
            next <= indices@.len(),
            next == met(indices@, i as nat),
            span_views(line@) == text_spans(raw_string@, indices@).take(i as int),
        decreases chars.len() - i,
    {
        let hit = next < indices.len() && indices[next] == i;
        let span = StyledSpan { text: string_of(&chars, i, i + 1), bold: hit };
        let ghost before = line@;
        line.push(span);
        proof {
            assert(span@.text =~= seq![raw_string@[i as int]]);
            assert(span_views(line@) =~= span_views(before).push(span@));
            assert(text_spans(raw_string@, indices@).take(i + 1) =~= text_spans(
                raw_string@,
                indices@,
            ).take(i as int).push(span@));
        }
        if hit {
            next += 1;
        }
        i += 1;
    }
    proof {
        assert(text_spans(raw_string@, indices@).take(chars.len() as int) =~= text_spans(
            raw_string@,
            indices@,
        ));
    }
    line
}

/// Cuts `raw_string` into spans at `indices`, in whatever sequence these come:
/// the highlighted characters each in a span of its own, the text between
/// them in spans that are not highlighted. Gives one empty span where an
/// index lies beyond the text.
pub fn string_to_styled_spans(raw_string: String, indices: Vec<usize>) -> (spans: Vec<StyledSpan>)
    ensures
        span_views(spans@) == styled_spans(raw_string@, indices@),
{
    let chars = chars_of(raw_string.as_str());
    let mut spans: Vec<StyledSpan> = Vec::new();
    if has_beyond(&indices, chars.len()) {
        let span = StyledSpan { text: String::new(), bold: false };
        spans.push(span);
        proof {
            assert(span_views(spans@) =~= seq![plain(Seq::empty())]);
        }
        return spans;
    }
    let mut start: usize = 0;
    let mut i: usize = 0;
    proof {
        assert(span_views(spans@) =~= Seq::<SpanView>::empty());
    }
    while i < chars.len()
        invariant
            i <= chars.len(),
            start <= i,
            chars@ == raw_string@,
            (span_views(spans@), start as int) == cut(raw_string@, indices@, i as nat),
        decreases chars.len() - i,
    {
        if is_among(&indices, i) {
            let gap = StyledSpan { text: string_of(&chars, start, i), bold: false };
            let mark = StyledSpan { text: string_of(&chars, i, i + 1), bold: true };
            let ghost before = spans@;
            spans.push(gap);
            spans.push(mark);
            proof {
                assert(span_views(spans@) =~= span_views(before).push(gap@).push(mark@));
            }
            start = i + 1;
        }
        i += 1;
    }
    if start < chars.len() {
        let rest = StyledSpan { text: string_of(&chars, start, chars.len()), bold: false };
        let ghost before = spans@;
        spans.push(rest);
        proof {
            assert(span_views(spans@) =~= span_views(before).push(rest@));
        }
    }
    spans
}

/// Renders `raw_string` as one line in which a yellow marker stands for each
/// of the characters at `indices`; an empty line where an index lies beyond
/// the text.
pub fn string_to_styled_string(raw_string: &String, indices: &Vec<usize>) -> (line: String)
    ensures
        line@ == rendered(styled_spans(raw_string@, indices@)),
{
    let mut copy: Vec<usize> = Vec::new();
    let mut k: usize = 0;
    while k < indices.len()
        invariant
            k <= indices.len(),
            copy@ == indices@.take(k as int),
        decreases indices.len() - k,
    {
        copy.push(indices[k]);
        proof {
            assert(copy@ =~= indices@.take(k + 1));
        }
        k += 1;
    }
    proof {
        assert(indices@.take(indices.len() as int) =~= indices@);
    }
    let spans = string_to_styled_spans(raw_string.clone(), copy);
    let ghost views = span_views(spans@);
    let mut line = String::new();
    let mut i: usize = 0;
    while i < spans.len()
        invariant
            i <= spans.len(),
            views == span_views(spans@),
            line@ == rendered(views.take(i as int)),
        decreases spans.len() - i,
    {
        proof {
            assert(views.take(i + 1).drop_last() =~= views.take(i as int));
            assert(views.take(i + 1).last() == spans@[i as int]@);
        }
        if spans[i].bold {
            line.append("\u{1b}[33m\u{1b}[0m");
        } else {
            line.append(spans[i].text.as_str());
        }
        i += 1;
    }
    proof {
        assert(views.take(spans.len() as int) =~= views);
    }
    line
}

/// Ascending indices are met one after the other: before an offset, those
/// that are smaller have been met and no other.
pub proof fn lemma_met_of_ascending(indices: Seq<usize>, upto: nat)
    requires
        forall|i: int, j: int| 0 <= i < j < indices.len() ==> indices[i] < indices[j],
    ensures
        met(indices, upto) <= indices.len(),
        forall|i: int| 0 <= i < met(indices, upto) ==> indices[i] < upto,
        met(indices, upto) < indices.len() ==> indices[met(indices, upto) as int] >= upto,
    decreases upto,
{
    if upto > 0 {
        lemma_met_of_ascending(indices, (upto - 1) as nat);
        let before = met(indices, (upto - 1) as nat);
        if before < indices.len() && indices[before as int] == upto - 1 {
            if before + 1 < indices.len() {
                assert(indices[before as int] < indices[before as int + 1]);
            }
        }
    }
}

/// For ascending indices the highlighted characters of a line are exactly
/// those whose offset is among the indices.
pub proof fn lemma_ascending_indices_are_met(indices: Seq<usize>, offset: int)
    requires
        forall|i: int, j: int| 0 <= i < j < indices.len() ==> indices[i] < indices[j],
        0 <= offset <= usize::MAX,
    ensures
        is_met(indices, offset) <==> indices.contains(offset as usize),
{
    lemma_met_of_ascending(indices, offset as nat);
    let before = met(indices, offset as nat);
    if indices.contains(offset as usize) {
        let at = choose|at: int| 0 <= at < indices.len() && indices[at] == offset as usize;
        if at < before {
            assert(indices[at] < offset);
        }
        if at > before {
            assert(indices[before as int] < indices[at]);
        }
    }
}

/// The spans that `cut` gives hold, between them, all the text up to the
/// offset at which the open span begins.
pub proof fn lemma_cut_joined(text: Seq<char>, indices: Seq<usize>, upto: nat)
    requires
        upto <= text.len(),
    ensures
        0 <= cut(text, indices, upto).1 <= upto,
        joined(cut(text, indices, upto).0) == text.subrange(0, cut(text, indices, upto).1),
    decreases upto,
{
    if upto == 0 {
        assert(joined(cut(text, indices, upto).0) =~= text.subrange(0, 0));
    } else {
        lemma_cut_joined(text, indices, (upto - 1) as nat);
        let (spans, start) = cut(text, indices, (upto - 1) as nat);
        let at = upto - 1;
        if indices.contains(at as usize) {
            let gap = plain(text.subrange(start, at));
            let mark = bold(text.subrange(at, at + 1));
            let with_gap = spans.push(gap);
            let both = with_gap.push(mark);
            assert(with_gap.drop_last() =~= spans);
            assert(both.drop_last() =~= with_gap);
            assert(joined(with_gap) == joined(spans) + gap.text);
            assert(joined(with_gap) =~= text.subrange(0, at));
            assert(joined(both) == joined(with_gap) + mark.text);
            assert(joined(both) =~= text.subrange(0, at + 1));
        }
    }
}

/// Cutting loses nothing: where no index lies beyond the text, the spans
/// hold, between them and in their sequence, exactly the text.
pub proof fn lemma_styled_spans_joined(text: Seq<char>, indices: Seq<usize>)
    requires
        !any_beyond(indices, text.len()),
    ensures
        joined(styled_spans(text, indices)) == text,
{
    lemma_cut_joined(text, indices, text.len());
    let (spans, start) = cut(text, indices, text.len());
    if start < text.len() {
        let rest = plain(text.subrange(start, text.len() as int));
        assert(spans.push(rest).drop_last() =~= spans);
        assert(joined(spans.push(rest)) =~= text);
    } else {
        assert(text.subrange(0, start) =~= text);
    }
}

} // verus!
