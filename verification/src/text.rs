//! Strings as sequences of characters: prefixes, suffixes, occurrences, and
//! the editing of a string at its end.

use vstd::prelude::*;

verus! {

/// `String::push` appends one character to the string.
pub assume_specification[ String::push ](text: &mut String, ch: char)
    ensures
        final(text)@ == old(text)@.push(ch),
;

/// Whether `ch` is white space: what std's `char::is_whitespace` says of it.
pub uninterp spec fn is_white_space(ch: char) -> bool;

/// `char::is_whitespace` tells whether the character has Unicode's property
/// White_Space; its answer depends on the character alone.
pub assume_specification[ char::is_whitespace ](ch: char) -> (white: bool)
    ensures
        white == is_white_space(ch),
;

/// How many characters of `text` are not white space.
pub open spec fn letter_count(text: Seq<char>) -> nat
    decreases text.len(),
{
    if text.len() == 0 {
        0
    } else if is_white_space(text.last()) {
        letter_count(text.drop_last())
    } else {
        letter_count(text.drop_last()) + 1
    }
}

/// Whether `needle` stands in `hay` at offset `at`.
pub open spec fn occurs_at(needle: Seq<char>, hay: Seq<char>, at: int) -> bool {
    &&& 0 <= at
    &&& at + needle.len() <= hay.len()
    &&& hay.subrange(at, at + needle.len()) == needle
}

/// Whether `needle` stands somewhere in `hay`.
pub open spec fn occurs_in(needle: Seq<char>, hay: Seq<char>) -> bool {
    exists|at: int| occurs_at(needle, hay, at)
}

/// `at` is the first offset at which `needle` stands in `hay`.
pub open spec fn is_first_occurrence(needle: Seq<char>, hay: Seq<char>, at: int) -> bool {
    &&& occurs_at(needle, hay, at)
    &&& forall|earlier: int| 0 <= earlier < at ==> !occurs_at(needle, hay, earlier)
}

/// The place of the last `ch` in `text`, or -1 where `text` holds none.
pub open spec fn last_index_of(text: Seq<char>, ch: char) -> int
    decreases text.len(),
{
    if text.len() == 0 {
        -1
    } else if text.last() == ch {
        text.len() - 1
    } else {
        last_index_of(text.drop_last(), ch)
    }
}

/// The last component of a path: what follows its last slash, or the whole
/// path where it holds none.
pub open spec fn last_component(path: Seq<char>) -> Seq<char> {
    path.subrange(last_index_of(path, '/') + 1, path.len() as int)
}

/// The extension of a path: the characters after the last dot of its last
/// component. A component without a dot has none, nor has one whose only
/// dot is its first character.
pub open spec fn extension_of(path: Seq<char>) -> Option<Seq<char>> {
    let name = last_component(path);
    let dot = last_index_of(name, '.');
    if dot <= 0 {
        None
    } else {
        Some(name.subrange(dot + 1, name.len() as int))
    }
}

/// The characters of `text`, in a vector.
pub fn chars_of(text: &str) -> (chars: Vec<char>)
    ensures
        chars@ == text@,
{
    let mut chars: Vec<char> = Vec::new();
    for c in it: text.chars()
        invariant
            chars@ == it.seq().take(it.index()),
            it.seq() == text@,
    {
        chars.push(c);
    }
    chars
}

/// The characters of `chars` from `from` up to `to`, as a string.
pub fn string_of(chars: &Vec<char>, from: usize, to: usize) -> (text: String)
    requires
        from <= to <= chars.len(),
    ensures
        text@ == chars@.subrange(from as int, to as int),
{
    let mut text = String::new();
    let mut i: usize = from;
    while i < to
        invariant
            from <= i <= to <= chars.len(),
            text@ == chars@.subrange(from as int, i as int),
        decreases to - i,
    {
        text.push(chars[i]);
        proof {
            assert(text@ =~= chars@.subrange(from as int, i + 1));
        }
        i += 1;
    }
    text
}

/// Tells whether `needle` stands in `hay` at offset `at`.
pub fn matches_at(needle: &Vec<char>, hay: &Vec<char>, at: usize) -> (found: bool)
    ensures
        found == occurs_at(needle@, hay@, at as int),
{
    if needle.len() > hay.len() || at > hay.len() - needle.len() {
        return false;
    }
    let mut i: usize = 0;
    while i < needle.len()
        invariant
            i <= needle.len(),
            at + needle.len() <= hay.len(),
            forall|k: int| 0 <= k < i ==> hay@[at + k] == needle@[k],
        decreases needle.len() - i,
    {
        if hay[at + i] != needle[i] {
            proof {
                assert(hay@.subrange(at as int, at + needle.len())[i as int] == hay@[at + i]);
            }
            return false;
        }
        i += 1;
    }
    proof {
        assert(hay@.subrange(at as int, at + needle.len()) =~= needle@);
    }
    true
}

/// Finds the first offset at which `needle` stands in `hay`.
pub fn find(needle: &Vec<char>, hay: &Vec<char>) -> (found: Option<usize>)
    ensures
        found matches Some(at) ==> is_first_occurrence(needle@, hay@, at as int),
        found is None ==> !occurs_in(needle@, hay@),
{
    if needle.len() > hay.len() {
        return None;
    }
    let last: usize = hay.len() - needle.len();
    let mut at: usize = 0;
    loop
        invariant
            at <= last,
            last == hay.len() - needle.len(),
            needle.len() <= hay.len(),
            forall|earlier: int| 0 <= earlier < at ==> !occurs_at(needle@, hay@, earlier),
        decreases last - at,
    {
        if matches_at(needle, hay, at) {
            return Some(at);
        }
        if at == last {
            return None;
        }
        at += 1;
    }
}

/// Tells whether `text` begins with `prefix`.
pub fn starts_with(text: &str, prefix: &str) -> (found: bool)
    ensures
        found == prefix@.is_prefix_of(text@),
{
    let hay = chars_of(text);
    let needle = chars_of(prefix);
    matches_at(&needle, &hay, 0)
}

/// `text` with `ch` added at its end.
pub fn with_char(text: &str, ch: char) -> (longer: String)
    ensures
        longer@ == text@.push(ch),
{
    let mut longer = String::from_str(text);
    longer.push(ch);
    longer
}

/// `text` without its last character; an empty text stays empty.
pub fn without_last(text: &str) -> (shorter: String)
    ensures
        shorter@ == if text@.len() == 0 {
            text@
        } else {
            text@.drop_last()
        },
{
    let chars = chars_of(text);
    if chars.len() == 0 {
        return String::new();
    }
    string_of(&chars, 0, chars.len() - 1)
}

/// What `last_index_of` finds: a place inside the text that holds `ch` and
/// after which no `ch` stands, or -1 where the text holds none.
pub proof fn lemma_last_index_of(text: Seq<char>, ch: char)
    ensures
        -1 <= last_index_of(text, ch) < text.len(),
        last_index_of(text, ch) >= 0 ==> text[last_index_of(text, ch)] == ch,
        forall|i: int| last_index_of(text, ch) < i < text.len() ==> text[i] != ch,
    decreases text.len(),
{
    if text.len() > 0 && text.last() != ch {
        lemma_last_index_of(text.drop_last(), ch);
        assert forall|i: int| last_index_of(text, ch) < i < text.len() implies text[i] != ch by {
            if i < text.len() - 1 {
                assert(text.drop_last()[i] == text[i]);
            }
        }
    }
}

/// Finds the last `ch` among the first `upto` characters.
pub fn find_last(chars: &Vec<char>, upto: usize, ch: char) -> (found: Option<usize>)
    requires
        upto <= chars.len(),
    ensures
        match found {
            Some(at) => at == last_index_of(chars@.take(upto as int), ch),
            None => last_index_of(chars@.take(upto as int), ch) == -1,
        },
{
    let mut i: usize = upto;
    while i > 0
        invariant
            i <= upto <= chars.len(),
            last_index_of(chars@.take(upto as int), ch) == last_index_of(chars@.take(i as int), ch),
        decreases i,
    {
        proof {
            assert(chars@.take(i as int).drop_last() =~= chars@.take(i - 1));
            assert(chars@.take(i as int).last() == chars@[i - 1]);
        }
        if chars[i - 1] == ch {
            return Some(i - 1);
        }
        i -= 1;
    }
    None
}

/// Gives the extension of a path.
pub fn extension(path: &str) -> (found: Option<String>)
    ensures
        match found {
            Some(text) => extension_of(path@) == Some(text@),
            None => extension_of(path@) is None,
        },
{
    let chars = chars_of(path);
    proof {
        assert(chars@.take(chars.len() as int) =~= chars@);
        lemma_last_index_of(chars@, '/');
    }
    let start: usize = match find_last(&chars, chars.len(), '/') {
        Some(slash) => slash + 1,
        None => 0,
    };
    let mut name: Vec<char> = Vec::new();
    let mut i: usize = start;
    while i < chars.len()
        invariant
            start <= i <= chars.len(),
            name@ == chars@.subrange(start as int, i as int),
        decreases chars.len() - i,
    {
        name.push(chars[i]);
        proof {
            assert(name@ =~= chars@.subrange(start as int, i + 1));
        }
        i += 1;
    }
    proof {
        assert(name@ == last_component(path@));
        assert(name@.take(name.len() as int) =~= name@);
        lemma_last_index_of(name@, '.');
    }
    match find_last(&name, name.len(), '.') {
        Some(dot) => {
            if dot == 0 {
                None
            } else {
                Some(string_of(&name, dot + 1, name.len()))
            }
        },
        None => None,
    }
}

/// Counts the characters that are not white space.
pub fn count_letters(chars: &Vec<char>) -> (count: usize)
    ensures
        count == letter_count(chars@),
        count <= chars.len(),
{
    let mut count: usize = 0;
    let mut i: usize = 0;
    proof {
        assert(chars@.take(0) =~= Seq::<char>::empty());
    }
    while i < chars.len()
        invariant
            i <= chars.len(),
            count <= i,
            count == letter_count(chars@.take(i as int)),
        decreases chars.len() - i,
    {
        proof {
            assert(chars@.take(i + 1).drop_last() =~= chars@.take(i as int));
            assert(chars@.take(i + 1).last() == chars@[i as int]);
        }
        if !chars[i].is_whitespace() {
            count += 1;
        }
        i += 1;
    }
    proof {
        assert(chars@.take(chars.len() as int) =~= chars@);
    }
    count
}

} // verus!
