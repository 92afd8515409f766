//! Resolving the identifier under the cursor, for hover requests.
//!
//! Hover is positional: it looks at one line only, scanning left and right
//! from the cursor over contiguous identifier characters and concatenating
//! both halves.

use vstd::prelude::*;
use vstd::string::StrSliceExecFns;
use crate::chars::{alphabetic_char, char_alphabetic, is_word_char, is_word_start_char,
    word_char, word_start_char};
use crate::tokenizer::{word_run_end, lemma_word_run_end_is};

verus! {

/// Where the run of identifier characters that touches position `p` from
/// the left begins: the first position at or before `p` that no identifier
/// character precedes.
pub open spec fn word_left_start(s: Seq<char>, p: int) -> int
    decreases p,
{
    if p <= 0 || p > s.len() || !is_word_char(s[p - 1]) {
        p
    } else {
        word_left_start(s, p - 1)
    }
}

/// A scan that saw identifier characters on all of `[a, p)` and then stopped
/// has found exactly the start of the run.
pub proof fn lemma_word_left_start_is(s: Seq<char>, a: int, p: int)
    requires
        0 <= a <= p <= s.len(),
        forall|k: int| a <= k < p ==> is_word_char(s[k]),
        a == 0 || !is_word_char(s[a - 1]),
    ensures
        word_left_start(s, p) == a,
    decreases p - a,
{
    if a < p {
        lemma_word_left_start_is(s, a, p - 1);
    }
}

/// The identifier under the cursor: nothing when the cursor is past the end
/// of the line or on a character that is not alphabetic; otherwise the
/// contiguous run of letters, digits and underscores around the cursor.
pub open spec fn spec_find_word(s: Seq<char>, pos: int) -> Option<Seq<char>> {
    if pos < 0 || pos >= s.len() {
        None
    } else if !char_alphabetic(s[pos]) {
        None
    } else {
        Some(s.subrange(word_left_start(s, pos), word_run_end(s, pos + 1)))
    }
}

/// Finds the identifier that touches the cursor position in a line.
///
/// The cursor character must itself be alphabetic for a word to be found;
/// the word then extends over letters, digits and underscores on both
/// sides.
pub fn find_word(line: String, position: u32) -> (r: Option<String>)
    ensures
        match r {
            Some(w) => spec_find_word(line@, position as int) == Some(w@),
            None => spec_find_word(line@, position as int) is None,
        },
{
    let s: &str = line.as_str();
    let n: usize = s.unicode_len();
    let ghost sq = line@;
    let pos = position as usize;
    if pos >= n {
        return None;
    }
    let c = s.get_char(pos);
    if !alphabetic_char(c) {
        return None;
    }
    let mut a: usize = pos;
    while a > 0 && word_char(s.get_char(a - 1))
        invariant
            s@ == sq,
            n == sq.len(),
            0 <= a <= pos < n,
            forall|k: int| a <= k < pos ==> is_word_char(sq[k]),
        decreases a,
    {
        a -= 1;
    }
    proof {
        lemma_word_left_start_is(sq, a as int, pos as int);
    }
    let mut b: usize = pos + 1;
    while b < n && word_char(s.get_char(b))
        invariant
            s@ == sq,
            n == sq.len(),
            pos < b <= n,
            forall|k: int| pos + 1 <= k < b ==> is_word_char(sq[k]),
        decreases n - b,
    {
        b += 1;
    }
    proof {
        lemma_word_run_end_is(sq, pos as int + 1, b as int);
    }
    let word = s.substring_char(a, b).to_owned();
    Some(word)
}

/// Separators that end the search for a word fragment at once.
pub open spec fn is_separator_char(c: char) -> bool {
    c == ' ' || c == '\t' || c == '\r' || c == '\n' || c == '(' || c == ')' || c == ','
        || c == ';' || c == '.' || c == '=' || c == '!' || c == '<' || c == '>' || c == '+'
        || c == '-' || c == ':'
}

/// Executable check for [`is_separator_char`].
fn separator_char(c: char) -> (r: bool)
    ensures
        r == is_separator_char(c),
{
    c == ' ' || c == '\t' || c == '\r' || c == '\n' || c == '(' || c == ')' || c == ','
        || c == ';' || c == '.' || c == '=' || c == '!' || c == '<' || c == '>' || c == '+'
        || c == '-' || c == ':'
}

/// The leading word fragment of a line: the first identifier run if one
/// comes before any separator, an empty fragment if a separator comes
/// first, and nothing if the line ends before either.
pub open spec fn spec_partial_word(s: Seq<char>, i: int) -> Option<Seq<char>>
    decreases s.len() - i,
    when 0 <= i <= s.len()
{
    if i >= s.len() {
        None
    } else if is_word_start_char(s[i]) {
        Some(s.subrange(i, word_run_end(s, i + 1)))
    } else if is_separator_char(s[i]) {
        Some(Seq::empty())
    } else {
        spec_partial_word(s, i + 1)
    }
}

/// Scans a line from its start for the first word fragment.
pub fn get_partial_word(line: String) -> (r: Option<String>)
    ensures
        match r {
            Some(w) => spec_partial_word(line@, 0) == Some(w@),
            None => spec_partial_word(line@, 0) is None,
        },
{
    let s: &str = line.as_str();
    let n: usize = s.unicode_len();
    let ghost sq = line@;
    let mut i: usize = 0;
    while i < n
        invariant
            line@ == sq,
            s@ == sq,
            n == sq.len(),
            0 <= i <= n,
            spec_partial_word(sq, 0) == spec_partial_word(sq, i as int),
        decreases n - i,
    {
        let c = s.get_char(i);
        if word_start_char(c) {
            let start = i;
            i += 1;
            while i < n && word_char(s.get_char(i))
                invariant
                    line@ == sq,
                    s@ == sq,
                    n == sq.len(),
                    start < i <= n,
                    spec_partial_word(sq, 0) == spec_partial_word(sq, start as int),
                    is_word_start_char(sq[start as int]),
                    forall|k: int| start + 1 <= k < i ==> is_word_char(sq[k]),
                decreases n - i,
            {
                i += 1;
            }
            proof {
                lemma_word_run_end_is(sq, start as int + 1, i as int);
                assert(spec_partial_word(sq, start as int) == Some(
                    sq.subrange(start as int, word_run_end(sq, start as int + 1)),
                ));
            }
            let word = s.substring_char(start, i).to_owned();
            return Some(word);
        } else if separator_char(c) {
            proof {
                assert(is_separator_char(sq[i as int]));
                assert(spec_partial_word(sq, i as int) == Some(Seq::<char>::empty()));
            }
            return Some(String::new());
        }
        i += 1;
    }
    None
}

/// The identifier under a cursor placed in a document given as its lines:
/// nothing when the line number is out of range, else what the line scan
/// finds.
pub open spec fn spec_word_at(lines: Seq<Seq<char>>, line_num: int, char_num: int) -> Option<
    Seq<char>,
> {
    if 0 <= line_num < lines.len() {
        spec_find_word(lines[line_num], char_num)
    } else {
        None
    }
}

/// Resolves the identifier under the cursor in a document.
pub fn get_word_at_position(lines: &Vec<String>, line_num: u32, char_num: u32) -> (r: Option<
    String,
>)
    ensures
        match r {
            Some(w) => spec_word_at(lines.deep_view(), line_num as int, char_num as int)
                == Some(w@),
            None => spec_word_at(lines.deep_view(), line_num as int, char_num as int) is None,
        },
{
    if (line_num as usize) < lines.len() {
        let line = lines[line_num as usize].clone();
        assert(line@ == lines.deep_view()[line_num as int]);
        find_word(line, char_num)
    } else {
        None
    }
}

} // verus!
