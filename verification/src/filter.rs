//! The filtered view of the raw index.
//!
//! With an empty filter every entry is listed, in the sequence of the raw
//! index. Otherwise each file name is matched against the filter, entries
//! without a positive score are dropped, and the rest are listed by descending
//! score, entries of equal score in the sequence of the raw index.

use crate::index::FileEntry;
use crate::order::{
    arrange, descending_order, is_descending_order, lemma_arrange_identity,
    lemma_arranged_holds_all,
    lemma_descending_order_ranks, lemma_order_of_nonincreasing, precedes, rank_descending,
};
use crate::text::{
    chars_of, count_letters, find, is_first_occurrence, letter_count, occurs_at, occurs_in,
};
use vstd::prelude::*;

verus! {

/// Most characters, white space not counted, of a filter that the fuzzy
/// search is asked to look for. The search passes over white space in the
/// filter and goes a level deeper for each other character; to match, a name
/// has to hold a character for each of them.
pub const MAX_FILTER_LETTERS: usize = 256;

/// Longest name, in characters, in which the fuzzy search is asked to look.
/// For each gap between two matched characters the search takes the length
/// of the gap times the penalty off the score, and a gap is as long as the
/// name lets it be.
pub const MAX_NAME_CHARS: usize = 4096;

/// Largest bonus or penalty, in either direction, that a scoring may hold.
/// The search adds up products of bonuses and run lengths, and takes off
/// products of the penalty and the lengths of the gaps. With values of this
/// size, a filter of up to `MAX_FILTER_LETTERS` letters and a name of up to
/// `MAX_NAME_CHARS` characters, each product and their sum stay inside an
/// `isize` of 32 bits, and so of any more.
pub const MAX_BONUS: isize = 256;

/// The bonuses and penalties by which a fuzzy match is scored.
#[derive(Clone, Copy, Debug, PartialEq, Eq, Structural)]
pub struct Scoring {
    /// Added, times the length of the run so far, for each character that
    /// directly follows the one matched before it.
    pub bonus_consecutive: isize,
    /// Added for a character matched at the start of a word.
    pub bonus_word_start: isize,
    /// Added for a character matched in the same case.
    pub bonus_match_case: isize,
    /// Taken off for each character skipped between two matched ones.
    pub penalty_distance: isize,
}

impl Scoring {
    /// Whether all four values lie within `MAX_BONUS` of zero.
    pub open spec fn is_moderate(&self) -> bool {
        &&& -MAX_BONUS <= self.bonus_consecutive <= MAX_BONUS
        &&& -MAX_BONUS <= self.bonus_word_start <= MAX_BONUS
        &&& -MAX_BONUS <= self.bonus_match_case <= MAX_BONUS
        &&& -MAX_BONUS <= self.penalty_distance <= MAX_BONUS
    }
}

/// How a filter is matched against a file name.
#[derive(Clone, Copy, Debug, PartialEq, Eq, Structural)]
pub enum Matcher {
    /// The filter's characters are looked for in the name in their sequence,
    /// not necessarily side by side, without regard to case; the best such
    /// match is scored.
    Fuzzy(Scoring),
    /// The filter is looked for in the name as it stands, side by side.
    Substring,
}

impl Matcher {
    /// Whether the matcher's scoring, if it has one, is moderate.
    pub open spec fn is_moderate(&self) -> bool {
        match *self {
            Matcher::Fuzzy(scoring) => scoring.is_moderate(),
            Matcher::Substring => true,
        }
    }
}

/// A match of a filter in a name: its score and the offsets, in characters, of
/// the characters of the name that were matched.
#[derive(Debug)]
pub struct FuzzyMatch {
    pub score: isize,
    pub positions: Vec<usize>,
}

/// One line of the filtered view.
#[derive(Debug)]
pub struct FileLine {
    pub entry: FileEntry,
    /// Offsets of the characters of the file name that the filter matched.
    pub indices: Vec<usize>,
    /// The score of the match; 0 where no filter is active.
    pub score: isize,
}

/// A line of the filtered view, as a mathematical value.
pub struct LineView {
    pub entry: FileEntry,
    pub indices: Seq<usize>,
    pub score: isize,
}

impl View for FileLine {
    type V = LineView;

    open spec fn view(&self) -> LineView {
        LineView { entry: self.entry, indices: self.indices@, score: self.score }
    }
}

impl Clone for FileLine {
    fn clone(&self) -> (copy: Self)
        ensures
            copy@ == self@,
    {
        FileLine {
            entry: self.entry.clone(),
            indices: copy_offsets(&self.indices),
            score: self.score,
        }
    }
}

/// The lines as mathematical values.
pub open spec fn line_views(lines: Seq<FileLine>) -> Seq<LineView> {
    Seq::new(lines.len(), |i: int| lines[i]@)
}

/// A match as a mathematical value.
pub open spec fn match_view(found: Option<FuzzyMatch>) -> Option<(isize, Seq<usize>)> {
    match found {
        Some(m) => Some((m.score, m.positions@)),
        None => None,
    }
}

/// The matches as mathematical values.
pub open spec fn match_views(found: Seq<Option<FuzzyMatch>>) -> Seq<Option<(isize, Seq<usize>)>> {
    Seq::new(found.len(), |i: int| match_view(found[i]))
}

/// Whether the offsets are ascending, none twice, and all below `len`.
pub open spec fn are_offsets_in(positions: Seq<usize>, len: nat) -> bool {
    &&& forall|i: int, j: int| 0 <= i < j < positions.len() ==> positions[i] < positions[j]
    &&& forall|i: int| 0 <= i < positions.len() ==> positions[i] < len
}

/// Whether the offsets of every line lie, ascending, inside the name of its entry.
pub open spec fn have_offsets_in_names(lines: Seq<LineView>) -> bool {
    forall|i: int|
        0 <= i < lines.len() ==> are_offsets_in(
            (#[trigger] lines[i]).indices,
            lines[i].entry.name@.len(),
        )
}

/// Whether the offsets of every match lie, ascending, inside the name of the
/// entry in which it was found.
pub open spec fn are_found_in_names(
    raw: Seq<FileEntry>,
    found: Seq<Option<(isize, Seq<usize>)>>,
) -> bool {
    forall|i: int|
        0 <= i < raw.len() && i < found.len() ==> match #[trigger] found[i] {
            Some((score, positions)) => are_offsets_in(positions, raw[i].name@.len()),
            None => true,
        }
}

/// What `sublime_fuzzy`'s case-insensitive search returns for a query, a
/// target and a scoring: the score and the matched offsets of its best match,
/// if the whole query can be matched.
pub uninterp spec fn best_match_of(query: Seq<char>, target: Seq<char>, scoring: Scoring) -> Option<
    (isize, Seq<usize>),
>;

/// Runs `sublime_fuzzy::FuzzySearch::best_match`, case-insensitive and with
/// the given scoring, on `query` and `target`.
///
/// Believed of it: the result is a function of the three arguments; the
/// matched offsets count characters of `target`, ascend, and lie inside it.
/// The search drops the white space of the query, recurses once for each
/// character that is left, adds up products of run lengths and bonuses, and
/// takes off the penalty times the length of each gap in the target: so the
/// query's letters, the target's length and the scoring are bounded.
#[verifier::external_body]
fn best_match(query: &str, target: &str, scoring: &Scoring) -> (found: Option<FuzzyMatch>)
    requires
        letter_count(query@) <= MAX_FILTER_LETTERS,
        target@.len() <= MAX_NAME_CHARS,
        scoring.is_moderate(),
    ensures
        match_view(found) == best_match_of(query@, target@, *scoring),
        found matches Some(m) ==> are_offsets_in(m.positions@, target@.len()),
{
    let rules = sublime_fuzzy::Scoring::new(
        scoring.bonus_consecutive,
        scoring.bonus_word_start,
        scoring.bonus_match_case,
        scoring.penalty_distance,
    );
    let search = sublime_fuzzy::FuzzySearch::new(query, target).case_insensitive();
    let found = search.score_with(&rules).best_match()?;
    let positions = found.matched_indices().copied().collect();
    Some(FuzzyMatch { score: found.score(), positions })
}

/// Gives `sublime_fuzzy::Scoring::default()`: the scoring that favours word
/// starts, which the crate's source lists as 8, 72, 8 and 4.
#[verifier::external_body]
pub(crate) fn default_scoring() -> (scoring: Scoring)
    ensures
        scoring == (Scoring {
            bonus_consecutive: 8,
            bonus_word_start: 72,
            bonus_match_case: 8,
            penalty_distance: 4,
        }),
{
    let rules = sublime_fuzzy::Scoring::default();
    Scoring {
        bonus_consecutive: rules.bonus_consecutive,
        bonus_word_start: rules.bonus_word_start,
        bonus_match_case: rules.bonus_match_case,
        penalty_distance: rules.penalty_distance,
    }
}

/// The offsets `at`, `at + 1`, ... of a run of `len` characters.
pub open spec fn run_of(at: int, len: nat) -> Seq<usize> {
    Seq::new(len, |i: int| (at + i) as usize)
}

/// The score of a substring match of `len` characters: their number, as far
/// as a score can count.
pub open spec fn substring_score(len: nat) -> isize {
    if len <= isize::MAX {
        len as isize
    } else {
        isize::MAX
    }
}

/// The match of `filter` as a substring of `name`: its first occurrence,
/// scored by the number of characters matched.
pub open spec fn substring_match_of(filter: Seq<char>, name: Seq<char>) -> Option<
    (isize, Seq<usize>),
> {
    if occurs_in(filter, name) {
        let at = choose|at: int| is_first_occurrence(filter, name, at);
        Some((substring_score(filter.len()), run_of(at, filter.len())))
    } else {
        None
    }
}

/// Whether the fuzzy search is asked to look for `filter` in `name`: the
/// filter has no more than `MAX_FILTER_LETTERS` characters that are not
/// white space, and the name no more than `MAX_NAME_CHARS` characters.
pub open spec fn is_searched(filter: Seq<char>, name: Seq<char>) -> bool {
    letter_count(filter) <= MAX_FILTER_LETTERS && name.len() <= MAX_NAME_CHARS
}

/// The fuzzy match of `filter` in `name`: what the search finds, where it is
/// asked; a filter of more letters, or a longer name, gives no match.
pub open spec fn fuzzy_match_of(filter: Seq<char>, name: Seq<char>, scoring: Scoring) -> Option<
    (isize, Seq<usize>),
> {
    if is_searched(filter, name) {
        best_match_of(filter, name, scoring)
    } else {
        None
    }
}

/// What `matcher` finds of `filter` in `name`.
pub open spec fn line_match(matcher: Matcher, filter: Seq<char>, name: Seq<char>) -> Option<
    (isize, Seq<usize>),
> {
    match matcher {
        Matcher::Fuzzy(scoring) => fuzzy_match_of(filter, name, scoring),
        Matcher::Substring => substring_match_of(filter, name),
    }
}

/// What `matcher` finds of `filter` in the name of each entry.
pub open spec fn found_by(matcher: Matcher, filter: Seq<char>, raw: Seq<FileEntry>) -> Seq<
    Option<(isize, Seq<usize>)>,
> {
    Seq::new(raw.len(), |i: int| line_match(matcher, filter, raw[i].name@))
}

/// The line for an entry and what was found in its name: one where the score
/// is positive, none otherwise.
pub open spec fn matched_line(entry: FileEntry, found: Option<(isize, Seq<usize>)>) -> Option<
    LineView,
> {
    match found {
        Some((score, indices)) => if score > 0 {
            Some(LineView { entry, indices, score })
        } else {
            None
        },
        None => None,
    }
}

/// Each entry beside what was found in its name.
pub open spec fn paired(raw: Seq<FileEntry>, found: Seq<Option<(isize, Seq<usize>)>>) -> Seq<
    (FileEntry, Option<(isize, Seq<usize>)>),
> {
    Seq::new(raw.len(), |i: int| (raw[i], found[i]))
}

/// The lines of the entries that matched, in the sequence of the raw index.
pub open spec fn matched_lines(
    raw: Seq<FileEntry>,
    found: Seq<Option<(isize, Seq<usize>)>>,
) -> Seq<LineView> {
    paired(raw, found).filter_map(
        |pair: (FileEntry, Option<(isize, Seq<usize>)>)| matched_line(pair.0, pair.1),
    )
}

/// The scores of the lines, as ranking keys.
pub open spec fn score_keys(lines: Seq<LineView>) -> Seq<i128> {
    Seq::new(lines.len(), |i: int| lines[i].score as i128)
}

/// The lines by descending score, lines of equal score in their sequence.
pub open spec fn ranked(lines: Seq<LineView>) -> Seq<LineView> {
    arrange(lines, descending_order(score_keys(lines)))
}

/// The view without a filter: every entry, nothing highlighted.
pub open spec fn unfiltered(raw: Seq<FileEntry>) -> Seq<LineView> {
    Seq::new(raw.len(), |i: int| LineView { entry: raw[i], indices: Seq::empty(), score: 0 })
}

/// The filtered view of `raw` under `filter`.
pub open spec fn filtered(raw: Seq<FileEntry>, filter: Seq<char>, matcher: Matcher) -> Seq<
    LineView,
> {
    if filter.len() == 0 {
        unfiltered(raw)
    } else {
        ranked(matched_lines(raw, found_by(matcher, filter, raw)))
    }
}

/// Whether the lines are in descending sequence of score.
pub open spec fn best_first(lines: Seq<LineView>) -> bool {
    forall|i: int, j: int| 0 <= i < j < lines.len() ==> lines[i].score >= lines[j].score
}

/// Whether some line is for `entry`.
pub open spec fn lists(lines: Seq<LineView>, entry: FileEntry) -> bool {
    exists|i: int| 0 <= i < lines.len() && (#[trigger] lines[i]).entry == entry
}

/// `at` is the first line for `file_path`.
pub open spec fn is_first_line_of(lines: Seq<LineView>, file_path: Seq<char>, at: int) -> bool {
    &&& 0 <= at < lines.len()
    &&& lines[at].entry.path@ == file_path
    &&& forall|i: int| 0 <= i < at ==> (#[trigger] lines[i]).entry.path@ != file_path
}

/// Where `file_path` is found in `lines`: at the first line with that path,
/// or at 0 where the path is empty or no line has it.
pub open spec fn located_at(lines: Seq<LineView>, file_path: Seq<char>) -> int {
    if file_path.len() > 0 && exists|at: int| is_first_line_of(lines, file_path, at) {
        choose|at: int| is_first_line_of(lines, file_path, at)
    } else {
        0
    }
}

fn copy_offsets(offsets: &Vec<usize>) -> (copy: Vec<usize>)
    ensures
        copy@ == offsets@,
{
    let mut copy: Vec<usize> = Vec::new();
    let mut i: usize = 0;
    while i < offsets.len()
        invariant
            i <= offsets.len(),
            copy@ == offsets@.take(i as int),
        decreases offsets.len() - i,
    {
        copy.push(offsets[i]);
        proof {
            assert(copy@ =~= offsets@.take(i + 1));
        }
        i += 1;
    }
    proof {
        assert(offsets@.take(offsets.len() as int) =~= offsets@);
    }
    copy
}

/// Looks for `pattern` in `name` as a substring.
pub fn substring_match(pattern: &Vec<char>, name: &str) -> (found: Option<FuzzyMatch>)
    ensures
        match_view(found) == substring_match_of(pattern@, name@),
        found matches Some(m) ==> are_offsets_in(m.positions@, name@.len()),
{
    let hay = chars_of(name);
    match find(pattern, &hay) {
        None => None,
        Some(at) => {
            proof {
                let chosen = choose|k: int| is_first_occurrence(pattern@, name@, k);
                assert(is_first_occurrence(pattern@, name@, at as int));
                assert(occurs_in(pattern@, name@));
                if chosen < at {
                    assert(!occurs_at(pattern@, name@, chosen));
                }
                if at < chosen {
                    assert(!occurs_at(pattern@, name@, at as int));
                }
                assert(chosen == at);
            }
            let mut positions: Vec<usize> = Vec::new();
            let mut i: usize = 0;
            while i < pattern.len()
                invariant
                    i <= pattern.len(),
                    at + pattern.len() <= hay.len(),
                    positions@ == run_of(at as int, pattern.len() as nat).take(i as int),
                decreases pattern.len() - i,
            {
                positions.push(at + i);
                proof {
                    assert(positions@ =~= run_of(at as int, pattern.len() as nat).take(i + 1));
                }
                i += 1;
            }
            proof {
                assert(positions@ =~= run_of(at as int, pattern.len() as nat));
            }
            let score: isize = if pattern.len() > isize::MAX as usize {
                isize::MAX
            } else {
                pattern.len() as isize
            };
            Some(FuzzyMatch { score, positions })
        },
    }
}

/// Looks for `filter` in `name` with the fuzzy search; `pattern` holds the
/// filter's characters. A filter of more than `MAX_FILTER_LETTERS` letters
/// is not handed to the search, nor is a name of more than `MAX_NAME_CHARS`
/// characters: there is no match then.
pub fn fuzzy_match(filter: &str, pattern: &Vec<char>, name: &str, scoring: &Scoring) -> (found:
    Option<FuzzyMatch>)
    requires
        pattern@ == filter@,
        scoring.is_moderate(),
    ensures
        match_view(found) == fuzzy_match_of(filter@, name@, *scoring),
        found matches Some(m) ==> are_offsets_in(m.positions@, name@.len()),
{
    if count_letters(pattern) > MAX_FILTER_LETTERS || name.unicode_len() > MAX_NAME_CHARS {
        None
    } else {
        best_match(filter, name, scoring)
    }
}

/// Matches `filter` against `name`; `pattern` holds the filter's characters.
pub fn find_match(matcher: &Matcher, filter: &str, pattern: &Vec<char>, name: &str) -> (found:
    Option<FuzzyMatch>)
    requires
        pattern@ == filter@,
        matcher.is_moderate(),
    ensures
        match_view(found) == line_match(*matcher, filter@, name@),
        found matches Some(m) ==> are_offsets_in(m.positions@, name@.len()),
{
    match matcher {
        Matcher::Fuzzy(scoring) => fuzzy_match(filter, pattern, name, scoring),
        Matcher::Substring => substring_match(pattern, name),
    }
}

/// The view without a filter.
pub fn list_all(raw_index: &Vec<FileEntry>) -> (lines: Vec<FileLine>)
    ensures
        line_views(lines@) == unfiltered(raw_index@),
{
    let mut lines: Vec<FileLine> = Vec::new();
    let mut i: usize = 0;
    while i < raw_index.len()
        invariant
            i <= raw_index.len(),
            line_views(lines@) == unfiltered(raw_index@).take(i as int),
        decreases raw_index.len() - i,
    {
        let ghost before = lines@;
        let line = FileLine { entry: raw_index[i].clone(), indices: Vec::new(), score: 0 };
        lines.push(line);
        proof {
            lemma_line_views_push(before, line);
            assert(unfiltered(raw_index@).take(i + 1) =~= unfiltered(raw_index@).take(
                i as int,
            ).push(line@));
        }
        i += 1;
    }
    proof {
        assert(line_views(lines@) =~= unfiltered(raw_index@));
    }
    lines
}

/// Puts the lines in descending sequence of score; lines of equal score keep
/// their sequence.
pub fn rank_lines(lines: &Vec<FileLine>) -> (sorted: Vec<FileLine>)
    ensures
        line_views(sorted@) == ranked(line_views(lines@)),
        best_first(line_views(sorted@)),
{
    let ghost views = line_views(lines@);
    let mut keys: Vec<i128> = Vec::new();
    let mut i: usize = 0;
    while i < lines.len()
        invariant
            i <= lines.len(),
            views == line_views(lines@),
            keys@ == score_keys(views).take(i as int),
        decreases lines.len() - i,
    {
        keys.push(lines[i].score as i128);
        proof {
            assert(keys@ =~= score_keys(views).take(i + 1));
        }
        i += 1;
    }
    proof {
        assert(keys@ =~= score_keys(views));
    }
    let order = rank_descending(&keys);
    let mut sorted: Vec<FileLine> = Vec::new();
    let mut k: usize = 0;
    while k < order.len()
        invariant
            k <= order.len(),
            views == line_views(lines@),
            is_descending_order(keys@, order@),
            keys@ == score_keys(views),
            line_views(sorted@) == arrange(views, order@).take(k as int),
        decreases order.len() - k,
    {
        let ghost before = sorted@;
        let line = lines[order[k]].clone();
        sorted.push(line);
        proof {
            lemma_line_views_push(before, line);
            assert(line@ == views[order@[k as int] as int]);
            assert(arrange(views, order@).take(k + 1) =~= arrange(views, order@).take(
                k as int,
            ).push(line@));
        }
        k += 1;
    }
    proof {
        assert(line_views(sorted@) =~= arrange(views, order@));
        lemma_ranked_best_first(views);
    }
    sorted
}

/// Builds the filtered view from the raw index and what the matcher found in
/// each entry's name: `found` holds one result for each entry of `raw_index`.
///
/// Entries without a match, or with a score that is not positive, are dropped.
/// The others are listed by descending score, entries of equal score in the
/// sequence of the raw index, each with the offsets that were matched.
pub fn rank_matches(raw_index: &Vec<FileEntry>, found: &Vec<Option<FuzzyMatch>>) -> (lines: Vec<
    FileLine,
>)
    requires
        found.len() == raw_index.len(),
    ensures
        line_views(lines@) == ranked(matched_lines(raw_index@, match_views(found@))),
        best_first(line_views(lines@)),
        are_found_in_names(raw_index@, match_views(found@)) ==> have_offsets_in_names(
            line_views(lines@),
        ),
{
    let ghost pairs = paired(raw_index@, match_views(found@));
    let ghost keep = |pair: (FileEntry, Option<(isize, Seq<usize>)>)|
        matched_line(pair.0, pair.1);
    let mut kept: Vec<FileLine> = Vec::new();
    let mut i: usize = 0;
    proof {
        assert(pairs.take(0).filter_map(keep) =~= Seq::<LineView>::empty());
        assert(line_views(kept@) =~= Seq::<LineView>::empty());
    }
    while i < raw_index.len()
        invariant
            i <= raw_index.len(),
            found.len() == raw_index.len(),
            pairs == paired(raw_index@, match_views(found@)),
            keep == |pair: (FileEntry, Option<(isize, Seq<usize>)>)|
                matched_line(pair.0, pair.1),
            line_views(kept@) == pairs.take(i as int).filter_map(keep),
        decreases raw_index.len() - i,
    {
        proof {
            pairs.lemma_filter_map_take_succ(keep, i as int);
            assert(pairs[i as int] == (raw_index@[i as int], match_view(found@[i as int])));
        }
        let ghost before = line_views(kept@);
        match &found[i] {
            Some(m) => {
                if m.score > 0 {
                    let line = FileLine {
                        entry: raw_index[i].clone(),
                        indices: copy_offsets(&m.positions),
                        score: m.score,
                    };
                    let ghost lines_before = kept@;
                    kept.push(line);
                    proof {
                        lemma_line_views_push(lines_before, line);
                        assert(line_views(kept@) =~= before + seq![line@]);
                    }
                }
            },
            None => {},
        }
        i += 1;
    }
    proof {
        assert(pairs.take(raw_index.len() as int) =~= pairs);
        if are_found_in_names(raw_index@, match_views(found@)) {
            lemma_ranked_offsets(raw_index@, match_views(found@));
        }
    }
    rank_lines(&kept)
}

/// Narrows the raw index by `filter`.
///
/// With an empty filter the view lists every entry of the raw index in its
/// sequence, with nothing highlighted. Otherwise it lists the entries in whose
/// name the matcher finds the filter with a positive score, best score first,
/// entries of equal score in the sequence of the raw index. A filter of any
/// length is taken, and names of any length: the fuzzy search finds no match
/// where it is not asked, which is for a filter of more than
/// `MAX_FILTER_LETTERS` letters and in a name of more than `MAX_NAME_CHARS`
/// characters.
pub fn apply(raw_index: &Vec<FileEntry>, filter: &str, matcher: &Matcher) -> (lines: Vec<FileLine>)
    requires
        matcher.is_moderate(),
    ensures
        line_views(lines@) == filtered(raw_index@, filter@, *matcher),
        best_first(line_views(lines@)),
        have_offsets_in_names(line_views(lines@)),
        lines.len() <= raw_index.len(),
{
    let pattern = chars_of(filter);
    if pattern.len() == 0 {
        let lines = list_all(raw_index);
        proof {
            assert(line_views(lines@).len() == lines.len());
        }
        return lines;
    }
    let ghost all = found_by(*matcher, filter@, raw_index@);
    let mut found: Vec<Option<FuzzyMatch>> = Vec::new();
    let mut i: usize = 0;
    while i < raw_index.len()
        invariant
            i <= raw_index.len(),
            pattern@ == filter@,
            matcher.is_moderate(),
            all == found_by(*matcher, filter@, raw_index@),
            match_views(found@) == all.take(i as int),
            are_found_in_names(raw_index@, match_views(found@)),
        decreases raw_index.len() - i,
    {
        let result = find_match(matcher, filter, &pattern, raw_index[i].name.as_str());
        let ghost before = found@;
        found.push(result);
        proof {
            assert(match_views(found@) =~= match_views(before).push(match_view(result)));
            assert(all.take(i + 1) =~= all.take(i as int).push(match_view(result)));
        }
        i += 1;
    }
    proof {
        assert(match_views(found@) =~= all);
        assert(are_found_in_names(raw_index@, all));
        lemma_matched_lines_len(raw_index@, all);
        lemma_descending_order_ranks(score_keys(matched_lines(raw_index@, all)));
    }
    let lines = rank_matches(raw_index, &found);
    proof {
        assert(line_views(lines@).len() == lines.len());
    }
    lines
}

/// Finds the line of `file_path` in the filtered view: the index of the first
/// line with that path, or 0 where `file_path` is empty or no line has it.
///
/// The index is a valid offset into the view, or 0 where the view is empty.
pub fn locate_current(filtered: &Vec<FileLine>, file_path: &str) -> (at: usize)
    ensures
        at == located_at(line_views(filtered@), file_path@),
        filtered.len() == 0 ==> at == 0,
        filtered.len() > 0 ==> at < filtered.len(),
{
    if file_path.unicode_len() == 0 {
        return 0;
    }
    let wanted = String::from_str(file_path);
    let mut i: usize = 0;
    while i < filtered.len()
        invariant
            i <= filtered.len(),
            wanted@ == file_path@,
            file_path@.len() > 0,
            forall|k: int|
                0 <= k < i ==> (#[trigger] line_views(filtered@)[k]).entry.path@ != file_path@,
        decreases filtered.len() - i,
    {
        if filtered[i].entry.path == wanted {
            proof {
                let lines = line_views(filtered@);
                assert(lines[i as int].entry.path@ == file_path@);
                assert(is_first_line_of(lines, file_path@, i as int));
                lemma_first_line_unique(
                    lines,
                    file_path@,
                    i as int,
                    choose|at: int| is_first_line_of(lines, file_path@, at),
                );
            }
            return i;
        }
        i += 1;
    }
    proof {
        let lines = line_views(filtered@);
        assert forall|at: int| !is_first_line_of(lines, file_path@, at) by {
            if 0 <= at < lines.len() {
                assert(lines[at].entry.path@ != file_path@);
            }
        }
    }
    0
}

/// Two lines of the same path that are both the first are the same line.
pub proof fn lemma_first_line_unique(lines: Seq<LineView>, file_path: Seq<char>, a: int, b: int)
    requires
        is_first_line_of(lines, file_path, a),
        is_first_line_of(lines, file_path, b),
    ensures
        a == b,
{
    if a < b {
        assert(lines[a].entry.path@ != file_path);
    }
    if b < a {
        assert(lines[b].entry.path@ != file_path);
    }
}

/// Where a path is located is a valid offset into the view, or 0 where the
/// view is empty.
pub proof fn lemma_located_in_view(lines: Seq<LineView>, file_path: Seq<char>)
    ensures
        lines.len() == 0 ==> located_at(lines, file_path) == 0,
        lines.len() > 0 ==> 0 <= located_at(lines, file_path) < lines.len(),
{
}

/// The view of a sequence of lines with one more line at its end.
pub proof fn lemma_line_views_push(lines: Seq<FileLine>, line: FileLine)
    ensures
        line_views(lines.push(line)) == line_views(lines).push(line@),
{
    assert(line_views(lines.push(line)) =~= line_views(lines).push(line@));
}

/// Ranked lines carry the offsets of the matches from which they were made.
pub proof fn lemma_ranked_offsets(raw: Seq<FileEntry>, found: Seq<Option<(isize, Seq<usize>)>>)
    requires
        raw.len() <= usize::MAX,
        found.len() == raw.len(),
        are_found_in_names(raw, found),
    ensures
        have_offsets_in_names(ranked(matched_lines(raw, found))),
{
    let pairs = paired(raw, found);
    let keep = |pair: (FileEntry, Option<(isize, Seq<usize>)>)| matched_line(pair.0, pair.1);
    let lines = matched_lines(raw, found);
    lemma_matched_lines_len(raw, found);
    lemma_descending_order_ranks(score_keys(lines));
    let order = descending_order(score_keys(lines));
    let sorted = ranked(lines);
    assert forall|i: int| 0 <= i < sorted.len() implies are_offsets_in(
        (#[trigger] sorted[i]).indices,
        sorted[i].entry.name@.len(),
    ) by {
        let line = lines[order[i] as int];
        assert(sorted[i] == line);
        assert(lines.contains(line));
        pairs.lemma_filter_map_contains(keep, line);
        let pair = choose|pair: (FileEntry, Option<(isize, Seq<usize>)>)|
            #[trigger] pairs.contains(pair) && keep(pair) == Some(line);
        let k = choose|k: int| 0 <= k < pairs.len() && pairs[k] == pair;
        assert(found[k] == pair.1);
    }
}

/// Lines ranked by score come out best first.
pub proof fn lemma_ranked_best_first(lines: Seq<LineView>)
    requires
        lines.len() <= usize::MAX,
    ensures
        best_first(ranked(lines)),
        ranked(lines).len() == lines.len(),
{
    let keys = score_keys(lines);
    let order = descending_order(keys);
    lemma_descending_order_ranks(keys);
    let sorted = ranked(lines);
    assert forall|i: int, j: int| 0 <= i < j < sorted.len() implies sorted[i].score
        >= sorted[j].score by {
        assert(precedes(keys, order[i] as int, order[j] as int));
    }
}

/// No more lines match than there are entries.
pub proof fn lemma_matched_lines_len(
    raw: Seq<FileEntry>,
    found: Seq<Option<(isize, Seq<usize>)>>,
)
    ensures
        matched_lines(raw, found).len() <= raw.len(),
{
    let keep = |pair: (FileEntry, Option<(isize, Seq<usize>)>)| matched_line(pair.0, pair.1);
    lemma_filter_map_len(paired(raw, found), keep);
}

/// What is kept of a sequence is no longer than the sequence.
pub proof fn lemma_filter_map_len<A, B>(items: Seq<A>, keep: spec_fn(A) -> Option<B>)
    ensures
        items.filter_map(keep).len() <= items.len(),
    decreases items.len(),
{
    if items.len() > 0 {
        lemma_filter_map_len(items.drop_last(), keep);
    }
}

/// What is kept of an item stands in what is kept of the sequence.
pub proof fn lemma_filter_map_keeps<A, B>(items: Seq<A>, keep: spec_fn(A) -> Option<B>, at: int)
    requires
        0 <= at < items.len(),
        keep(items[at]) is Some,
    ensures
        items.filter_map(keep).contains(keep(items[at])->0),
    decreases items.len(),
{
    let rest = items.drop_last().filter_map(keep);
    let kept = items.filter_map(keep);
    if at == items.len() - 1 {
        assert(kept == rest + seq![keep(items[at])->0]);
        assert(kept[rest.len() as int] == keep(items[at])->0);
    } else {
        lemma_filter_map_keeps(items.drop_last(), keep, at);
        let found = choose|k: int| 0 <= k < rest.len() && rest[k] == keep(items[at])->0;
        assert(kept[found] == rest[found]);
    }
}

/// Every line of a filtered view is the line of an entry of the raw index,
/// and under a filter that is not empty every line has a positive score.
pub proof fn lemma_filtered_from_raw(raw: Seq<FileEntry>, filter: Seq<char>, matcher: Matcher)
    requires
        raw.len() <= usize::MAX,
    ensures
        forall|i: int|
            0 <= i < filtered(raw, filter, matcher).len() ==> raw.contains(
                (#[trigger] filtered(raw, filter, matcher)[i]).entry,
            ),
        filter.len() > 0 ==> forall|i: int|
            0 <= i < filtered(raw, filter, matcher).len() ==> (#[trigger] filtered(
                raw,
                filter,
                matcher,
            )[i]).score > 0,
        filtered(raw, filter, matcher).len() <= raw.len(),
        best_first(filtered(raw, filter, matcher)),
{
    let view = filtered(raw, filter, matcher);
    if filter.len() == 0 {
        assert forall|i: int| 0 <= i < view.len() implies raw.contains(
            (#[trigger] view[i]).entry,
        ) by {
            assert(raw[i] == view[i].entry);
        }
    } else {
        let found = found_by(matcher, filter, raw);
        let pairs = paired(raw, found);
        let keep = |pair: (FileEntry, Option<(isize, Seq<usize>)>)| matched_line(pair.0, pair.1);
        let lines = matched_lines(raw, found);
        lemma_matched_lines_len(raw, found);
        lemma_ranked_best_first(lines);
        lemma_descending_order_ranks(score_keys(lines));
        let order = descending_order(score_keys(lines));
        assert forall|i: int| 0 <= i < view.len() implies raw.contains((#[trigger] view[i]).entry)
            && view[i].score > 0 by {
            let line = lines[order[i] as int];
            assert(view[i] == line);
            assert(lines.contains(line));
            pairs.lemma_filter_map_contains(keep, line);
            let pair = choose|pair: (FileEntry, Option<(isize, Seq<usize>)>)|
                #[trigger] pairs.contains(pair) && keep(pair) == Some(line);
            let k = choose|k: int| 0 <= k < pairs.len() && pairs[k] == pair;
            assert(raw[k] == line.entry);
        }
    }
}

/// Under a filter that is not empty the view lists every entry in whose name
/// the matcher finds the filter with a positive score.
pub proof fn lemma_filtered_lists_matches(
    raw: Seq<FileEntry>,
    filter: Seq<char>,
    matcher: Matcher,
    at: int,
)
    requires
        raw.len() <= usize::MAX,
        filter.len() > 0,
        0 <= at < raw.len(),
        matched_line(raw[at], line_match(matcher, filter, raw[at].name@)) is Some,
    ensures
        lists(filtered(raw, filter, matcher), raw[at]),
{
    let found = found_by(matcher, filter, raw);
    let pairs = paired(raw, found);
    let keep = |pair: (FileEntry, Option<(isize, Seq<usize>)>)| matched_line(pair.0, pair.1);
    let lines = matched_lines(raw, found);
    lemma_matched_lines_len(raw, found);
    assert(keep(pairs[at]) is Some);
    lemma_filter_map_keeps(pairs, keep, at);
    let line = keep(pairs[at])->0;
    let k = choose|k: int| 0 <= k < lines.len() && lines[k] == line;
    lemma_arranged_holds_all(lines, score_keys(lines), k);
    let view = filtered(raw, filter, matcher);
    let place = choose|place: int| 0 <= place < view.len() && view[place] == line;
    assert(view[place].entry == raw[at]);
}

/// A filter of more letters than the fuzzy search is asked to look for gives
/// the empty view.
pub proof fn lemma_long_filter_lists_nothing(
    raw: Seq<FileEntry>,
    filter: Seq<char>,
    scoring: Scoring,
)
    requires
        letter_count(filter) > MAX_FILTER_LETTERS,
    ensures
        filtered(raw, filter, Matcher::Fuzzy(scoring)).len() == 0,
{
    let found = found_by(Matcher::Fuzzy(scoring), filter, raw);
    let pairs = paired(raw, found);
    let keep = |pair: (FileEntry, Option<(isize, Seq<usize>)>)| matched_line(pair.0, pair.1);
    let lines = matched_lines(raw, found);
    if lines.len() > 0 {
        assert(lines.contains(lines[0]));
        pairs.lemma_filter_map_contains(keep, lines[0]);
        let pair = choose|pair: (FileEntry, Option<(isize, Seq<usize>)>)|
            #[trigger] pairs.contains(pair) && keep(pair) == Some(lines[0]);
        let k = choose|k: int| 0 <= k < pairs.len() && pairs[k] == pair;
        assert(pair.1 == fuzzy_match_of(filter, raw[k].name@, scoring));
    }
    lemma_descending_order_ranks(score_keys(lines));
}

/// A substring match is scored by the length of the filter.
pub proof fn lemma_substring_lines_unranked(raw: Seq<FileEntry>, filter: Seq<char>)
    requires
        raw.len() <= usize::MAX,
        0 < filter.len(),
    ensures
        filtered(raw, filter, Matcher::Substring) == matched_lines(
            raw,
            found_by(Matcher::Substring, filter, raw),
        ),
{
    let found = found_by(Matcher::Substring, filter, raw);
    let pairs = paired(raw, found);
    let keep = |pair: (FileEntry, Option<(isize, Seq<usize>)>)| matched_line(pair.0, pair.1);
    let lines = matched_lines(raw, found);
    lemma_matched_lines_len(raw, found);
    let keys = score_keys(lines);
    assert forall|i: int| 0 <= i < lines.len() implies (#[trigger] lines[i]).score
        == substring_score(filter.len()) by {
        assert(lines.contains(lines[i]));
        pairs.lemma_filter_map_contains(keep, lines[i]);
        let pair = choose|pair: (FileEntry, Option<(isize, Seq<usize>)>)|
            #[trigger] pairs.contains(pair) && keep(pair) == Some(lines[i]);
        let k = choose|k: int| 0 <= k < pairs.len() && pairs[k] == pair;
        assert(pair.1 == substring_match_of(filter, raw[k].name@));
    }
    assert forall|i: int, j: int| 0 <= i < j < keys.len() implies keys[i] >= keys[j] by {
        assert(lines[i].score == substring_score(filter.len()));
        assert(lines[j].score == substring_score(filter.len()));
    }
    lemma_order_of_nonincreasing(keys, keys.len());
    lemma_arrange_identity(lines);
}

/// Where a filter occurs, each of its prefixes occurs.
pub proof fn lemma_prefix_occurs(shorter: Seq<char>, longer: Seq<char>, name: Seq<char>)
    requires
        shorter.is_prefix_of(longer),
        occurs_in(longer, name),
    ensures
        occurs_in(shorter, name),
{
    let at = choose|at: int| occurs_at(longer, name, at);
    assert(name.subrange(at, at + shorter.len()) =~= shorter) by {
        assert(name.subrange(at, at + longer.len()) == longer);
        assert forall|i: int| 0 <= i < shorter.len() implies name[at + i] == shorter[i] by {
            assert(name.subrange(at, at + longer.len())[i] == longer[i]);
            assert(longer.subrange(0, shorter.len() as int)[i] == longer[i]);
        }
    }
    assert(occurs_at(shorter, name, at));
}

/// Typing more characters narrows the view: under substring matching, every
/// entry that a filter lists is listed by each prefix of that filter.
pub proof fn lemma_substring_filter_narrows(
    raw: Seq<FileEntry>,
    shorter: Seq<char>,
    longer: Seq<char>,
)
    requires
        raw.len() <= usize::MAX,
        shorter.is_prefix_of(longer),
    ensures
        forall|entry: FileEntry|
            lists(filtered(raw, longer, Matcher::Substring), entry) ==> lists(
                filtered(raw, shorter, Matcher::Substring),
                entry,
            ),
{
    let wide = filtered(raw, shorter, Matcher::Substring);
    let narrow = filtered(raw, longer, Matcher::Substring);
    let keep = |pair: (FileEntry, Option<(isize, Seq<usize>)>)| matched_line(pair.0, pair.1);
    assert forall|entry: FileEntry| lists(narrow, entry) implies lists(wide, entry) by {
        let i = choose|i: int| 0 <= i < narrow.len() && (#[trigger] narrow[i]).entry == entry;
        if longer.len() == 0 {
            assert(wide =~= narrow);
        } else {
            lemma_substring_lines_unranked(raw, longer);
            let found = found_by(Matcher::Substring, longer, raw);
            let pairs = paired(raw, found);
            assert(narrow.contains(narrow[i]));
            pairs.lemma_filter_map_contains(keep, narrow[i]);
            let pair = choose|pair: (FileEntry, Option<(isize, Seq<usize>)>)|
                #[trigger] pairs.contains(pair) && keep(pair) == Some(narrow[i]);
            let k = choose|k: int| 0 <= k < pairs.len() && pairs[k] == pair;
            assert(raw[k] == entry);
            assert(occurs_in(longer, raw[k].name@));
            if shorter.len() == 0 {
                assert(wide[k].entry == entry);
            } else {
                lemma_prefix_occurs(shorter, longer, raw[k].name@);
                lemma_substring_lines_unranked(raw, shorter);
                let found_wide = found_by(Matcher::Substring, shorter, raw);
                let pairs_wide = paired(raw, found_wide);
                assert(keep(pairs_wide[k]) is Some);
                lemma_filter_map_keeps(pairs_wide, keep, k);
                let line = keep(pairs_wide[k])->0;
                let at = choose|at: int| 0 <= at < wide.len() && wide[at] == line;
                assert(wide[at].entry == entry);
            }
        }
    }
}

} // verus!
