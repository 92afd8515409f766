//! Lexical analysis of document text.
//!
//! `tokenize` splits a document into words, numbers and other characters.
//! The produced collection is a set: duplicate tokens collapse, and order
//! carries no meaning to the consumers.  `intersection` computes which known
//! names occur among the words of a document.

use vstd::prelude::*;
use vstd::string::StrSliceExecFns;
use crate::chars::{
    digit_char, is_digit_char, is_space_char, is_word_char, is_word_start_char, space_char,
    word_char, word_start_char,
};

verus! {

/// A lexical token of a document.
#[derive(Debug, Eq)]
pub enum Token {
    /// A maximal run of ASCII digits.
    Number(String),
    /// A maximal identifier: a letter or underscore followed by letters,
    /// digits and underscores.
    Token(String),
    /// Any single character that neither whitespace nor a word nor a number
    /// claims.
    Ignored(String),
}

/// The mathematical value of a [`Token`].
pub enum TokenView {
    Number(Seq<char>),
    Token(Seq<char>),
    Ignored(Seq<char>),
}

impl View for Token {
    type V = TokenView;

    open spec fn view(&self) -> TokenView {
        match self {
            Token::Number(t) => TokenView::Number(t@),
            Token::Token(t) => TokenView::Token(t@),
            Token::Ignored(t) => TokenView::Ignored(t@),
        }
    }
}

impl DeepView for Token {
    type V = TokenView;

    open spec fn deep_view(&self) -> TokenView {
        self@
    }
}

impl PartialEq for Token {
    fn eq(&self, other: &Self) -> (r: bool) {
        match (self, other) {
            (Token::Number(a), Token::Number(b)) => *a == *b,
            (Token::Token(a), Token::Token(b)) => *a == *b,
            (Token::Ignored(a), Token::Ignored(b)) => *a == *b,
            _ => false,
        }
    }
}

impl vstd::std_specs::cmp::PartialEqSpecImpl for Token {
    open spec fn obeys_eq_spec() -> bool {
        true
    }

    open spec fn eq_spec(&self, other: &Self) -> bool {
        self@ == other@
    }
}

/// Where the run of digits beginning at `i` ends: the first position at or
/// after `i` that is past the end or holds no digit.
pub open spec fn digit_run_end(s: Seq<char>, i: int) -> int
    decreases s.len() - i,
{
    if i < 0 || i >= s.len() || !is_digit_char(s[i]) {
        i
    } else {
        digit_run_end(s, i + 1)
    }
}

/// Where the run of word characters beginning at `i` ends.
pub open spec fn word_run_end(s: Seq<char>, i: int) -> int
    decreases s.len() - i,
{
    if i < 0 || i >= s.len() || !is_word_char(s[i]) {
        i
    } else {
        word_run_end(s, i + 1)
    }
}

/// A digit run ends within the text and not before it starts.
pub proof fn lemma_digit_run_end_bounds(s: Seq<char>, i: int)
    requires
        0 <= i <= s.len(),
    ensures
        i <= digit_run_end(s, i) <= s.len(),
    decreases s.len() - i,
{
    if i < s.len() && is_digit_char(s[i]) {
        lemma_digit_run_end_bounds(s, i + 1);
    }
}

/// A word run ends within the text and not before it starts.
pub proof fn lemma_word_run_end_bounds(s: Seq<char>, i: int)
    requires
        0 <= i <= s.len(),
    ensures
        i <= word_run_end(s, i) <= s.len(),
    decreases s.len() - i,
{
    if i < s.len() && is_word_char(s[i]) {
        lemma_word_run_end_bounds(s, i + 1);
    }
}

/// A scan that saw digits on all of `[a, b)` and then stopped has found
/// exactly the run end.
pub proof fn lemma_digit_run_end_is(s: Seq<char>, a: int, b: int)
    requires
        0 <= a <= b <= s.len(),
        forall|k: int| a <= k < b ==> is_digit_char(s[k]),
        b == s.len() || !is_digit_char(s[b]),
    ensures
        digit_run_end(s, a) == b,
    decreases b - a,
{
    if a < b {
        lemma_digit_run_end_is(s, a + 1, b);
    }
}

/// A scan that saw word characters on all of `[a, b)` and then stopped has
/// found exactly the run end.
pub proof fn lemma_word_run_end_is(s: Seq<char>, a: int, b: int)
    requires
        0 <= a <= b <= s.len(),
        forall|k: int| a <= k < b ==> is_word_char(s[k]),
        b == s.len() || !is_word_char(s[b]),
    ensures
        word_run_end(s, a) == b,
    decreases b - a,
{
    if a < b {
        lemma_word_run_end_is(s, a + 1, b);
    }
}

/// The set of tokens of the text from position `i` on: whitespace is
/// dropped, a digit opens a number run, a letter or underscore opens a word
/// run, and any other character is a token of its own.
pub open spec fn spec_tokens_from(s: Seq<char>, i: int) -> Set<TokenView>
    decreases s.len() - i,
    when 0 <= i <= s.len()
    via spec_tokens_from_dec
{
    if i >= s.len() {
        Set::empty()
    } else if is_space_char(s[i]) {
        spec_tokens_from(s, i + 1)
    } else if is_digit_char(s[i]) {
        spec_tokens_from(s, digit_run_end(s, i + 1)).insert(
            TokenView::Number(s.subrange(i, digit_run_end(s, i + 1))),
        )
    } else if is_word_start_char(s[i]) {
        spec_tokens_from(s, word_run_end(s, i + 1)).insert(
            TokenView::Token(s.subrange(i, word_run_end(s, i + 1))),
        )
    } else {
        spec_tokens_from(s, i + 1).insert(TokenView::Ignored(seq![s[i]]))
    }
}

#[via_fn]
proof fn spec_tokens_from_dec(s: Seq<char>, i: int) {
    if 0 <= i && i < s.len() {
        lemma_digit_run_end_bounds(s, i + 1);
        lemma_word_run_end_bounds(s, i + 1);
    }
}

/// The set of tokens of a whole text.
pub open spec fn spec_tokenize(s: Seq<char>) -> Set<TokenView> {
    spec_tokens_from(s, 0)
}

/// Whether the token list holds this exact token.
fn contains_token(tokens: &Vec<Token>, t: &Token) -> (b: bool)
    ensures
        b == tokens.deep_view().contains(t@),
{
    let ghost s = tokens.deep_view();
    let mut i: usize = 0;
    while i < tokens.len()
        invariant
            0 <= i <= tokens.len(),
            s == tokens.deep_view(),
            forall|j: int| 0 <= j < i ==> s[j] != t@,
        decreases tokens.len() - i,
    {
        assert(s[i as int] == tokens[i as int]@);
        if tokens[i] == *t {
            assert(s.contains(s[i as int]));
            return true;
        }
        i += 1;
    }
    false
}

/// Splits the text into its token set.
///
/// Total and deterministic: it accepts any text, and the tokens produced are
/// a function of the text's characters alone.  The result carries each
/// distinct token once; order carries no meaning.
pub fn tokenize(sql: String) -> (tokens: Vec<Token>)
    ensures
        tokens.deep_view().to_set() == spec_tokenize(sql@),
        tokens.deep_view().no_duplicates(),
{
    let s: &str = sql.as_str();
    let n: usize = s.unicode_len();
    let ghost sq = sql@;
    let mut tokens: Vec<Token> = Vec::new();
    let mut i: usize = 0;
    while i < n
        invariant
            s@ == sq,
            n == sq.len(),
            0 <= i <= n,
            tokens.deep_view().no_duplicates(),
            spec_tokens_from(sq, 0) == tokens.deep_view().to_set().union(
                spec_tokens_from(sq, i as int),
            ),
        decreases n - i,
    {
        let ghost prev = tokens.deep_view();
        let c = s.get_char(i);
        if space_char(c) {
            i += 1;
        } else if digit_char(c) {
            let start = i;
            i += 1;
            while i < n && digit_char(s.get_char(i))
                invariant
                    s@ == sq,
                    n == sq.len(),
                    start < i <= n,
                    forall|k: int| start + 1 <= k < i ==> is_digit_char(sq[k]),
                decreases n - i,
            {
                i += 1;
            }
            proof {
                lemma_digit_run_end_is(sq, start + 1, i as int);
            }
            let text = s.substring_char(start, i).to_owned();
            let tok = Token::Number(text);
            push_new(&mut tokens, tok);
            proof {
                lemma_union_insert(prev.to_set(), spec_tokens_from(sq, i as int), tok@);
            }
        } else if word_start_char(c) {
            let start = i;
            i += 1;
            while i < n && word_char(s.get_char(i))
                invariant
                    s@ == sq,
                    n == sq.len(),
                    start < i <= n,
                    forall|k: int| start + 1 <= k < i ==> is_word_char(sq[k]),
                decreases n - i,
            {
                i += 1;
            }
            proof {
                lemma_word_run_end_is(sq, start + 1, i as int);
            }
            let text = s.substring_char(start, i).to_owned();
            let tok = Token::Token(text);
            push_new(&mut tokens, tok);
            proof {
                lemma_union_insert(prev.to_set(), spec_tokens_from(sq, i as int), tok@);
            }
        } else {
            let text = s.substring_char(i, i + 1).to_owned();
            let tok = Token::Ignored(text);
            assert(text@ =~= seq![sq[i as int]]);
            i += 1;
            push_new(&mut tokens, tok);
            proof {
                lemma_union_insert(prev.to_set(), spec_tokens_from(sq, i as int), tok@);
            }
        }
    }
    assert(tokens.deep_view().to_set() =~= tokens.deep_view().to_set().union(
        spec_tokens_from(sq, n as int),
    ));
    tokens
}

/// Adds the token unless an equal one is already there; the list stays a
/// set, and afterwards it holds exactly the old tokens and this one.
fn push_new(tokens: &mut Vec<Token>, t: Token)
    requires
        old(tokens).deep_view().no_duplicates(),
    ensures
        final(tokens).deep_view().no_duplicates(),
        final(tokens).deep_view().to_set() == old(tokens).deep_view().to_set().insert(t@),
{
    let ghost before = tokens.deep_view();
    if !contains_token(tokens, &t) {
        let ghost tv = t@;
        tokens.push(t);
        proof {
            let after = tokens.deep_view();
            assert(after =~= before.push(tv));
            assert forall|x: TokenView| after.to_set().contains(x)
                <==> before.to_set().insert(tv).contains(x) by {
                if after.contains(x) {
                    let j = choose|j: int| 0 <= j < after.len() && after[j] == x;
                    if j < before.len() {
                        assert(before.contains(x));
                    }
                }
                if before.contains(x) {
                    let j = choose|j: int| 0 <= j < before.len() && before[j] == x;
                    assert(after[j] == x);
                    assert(after.contains(x));
                }
                if x == tv {
                    assert(after[after.len() - 1] == tv);
                    assert(after.contains(tv));
                }
            }
            assert(after.to_set() =~= before.to_set().insert(tv));
        }
    } else {
        proof {
            assert(before.to_set().contains(t@));
            assert(before.to_set() =~= before.to_set().insert(t@));
        }
    }
}

/// Inserting a token known to the whole into the gathered part keeps the
/// union the whole.
proof fn lemma_union_insert(gathered: Set<TokenView>, rest: Set<TokenView>, t: TokenView)
    ensures
        gathered.insert(t).union(rest) == gathered.union(rest.insert(t)),
{
    assert(gathered.insert(t).union(rest) =~= gathered.union(rest.insert(t)));
}

/// Whether the string list holds a string with these characters.
pub fn contains_string(list: &Vec<String>, s: &String) -> (b: bool)
    ensures
        b == list.deep_view().contains(s@),
{
    let ghost ls = list.deep_view();
    let mut i: usize = 0;
    while i < list.len()
        invariant
            0 <= i <= list.len(),
            ls == list.deep_view(),
            forall|j: int| 0 <= j < i ==> ls[j] != s@,
        decreases list.len() - i,
    {
        assert(ls[i as int] == list[i as int]@);
        if list[i] == *s {
            assert(ls.contains(ls[i as int]));
            return true;
        }
        i += 1;
    }
    false
}

/// Case-sensitive exact set intersection of two name lists.
///
/// The result holds each common name once: a name is in the result exactly
/// when both lists hold it.  An empty list on either side gives an empty
/// result, and no partial or substring matches occur.
pub fn intersection(list1: Vec<String>, list2: Vec<String>) -> (r: Vec<String>)
    ensures
        r.deep_view().no_duplicates(),
        r.deep_view().to_set() == list1.deep_view().to_set().intersect(
            list2.deep_view().to_set(),
        ),
{
    let ghost s1 = list1.deep_view();
    let ghost s2 = list2.deep_view();
    let mut r: Vec<String> = Vec::new();
    let mut i: usize = 0;
    while i < list1.len()
        invariant
            0 <= i <= list1.len(),
            s1 == list1.deep_view(),
            s2 == list2.deep_view(),
            r.deep_view().no_duplicates(),
            forall|w: Seq<char>| #[trigger] r.deep_view().contains(w)
                <==> (s1.take(i as int).contains(w) && s2.contains(w)),
        decreases list1.len() - i,
    {
        let ghost before = r.deep_view();
        assert(s1[i as int] == list1[i as int]@);
        if contains_string(&list2, &list1[i]) && !contains_string(&r, &list1[i]) {
            let ghost w = list1[i as int]@;
            r.push(list1[i].clone());
            proof {
                assert(r.deep_view() =~= before.push(w));
                assert forall|x: Seq<char>| #[trigger] r.deep_view().contains(x)
                    implies (s1.take(i + 1).contains(x) && s2.contains(x)) by {
                    let j = choose|j: int|
                        0 <= j < r.deep_view().len() && r.deep_view()[j] == x;
                    if j < before.len() {
                        assert(before.contains(x));
                        let k = choose|k: int|
                            0 <= k < i && s1.take(i as int)[k] == x;
                        assert(s1.take(i + 1)[k] == x);
                        assert(s1.take(i + 1).contains(x));
                    } else {
                        assert(x == w);
                        assert(s1.take(i + 1)[i as int] == w);
                        assert(s1.take(i + 1).contains(w));
                    }
                }
                assert forall|x: Seq<char>|
                    s1.take(i + 1).contains(x) && s2.contains(x)
                    implies #[trigger] r.deep_view().contains(x) by {
                    let k = choose|k: int| 0 <= k < i + 1 && #[trigger] s1.take(i + 1)[k] == x;
                    if k < i {
                        assert(s1.take(i as int)[k] == x);
                        assert(s1.take(i as int).contains(x));
                        assert(before.contains(x));
                        let j = choose|j: int| 0 <= j < before.len() && before[j] == x;
                        assert(r.deep_view()[j] == x);
                    } else {
                        assert(x == w);
                        assert(r.deep_view()[before.len() as int] == w);
                    }
                }
            }
        } else {
            proof {
                assert forall|x: Seq<char>| #[trigger] before.contains(x)
                    implies s1.take(i + 1).contains(x) && s2.contains(x) by {
                    let k = choose|k: int| 0 <= k < i && #[trigger] s1.take(i as int)[k] == x;
                    assert(s1.take(i + 1)[k] == x);
                }
                assert forall|x: Seq<char>|
                    s1.take(i + 1).contains(x) && s2.contains(x)
                    implies #[trigger] before.contains(x) by {
                    let k = choose|k: int| 0 <= k < i + 1 && #[trigger] s1.take(i + 1)[k] == x;
                    if k < i {
                        assert(s1.take(i as int)[k] == x);
                        assert(s1.take(i as int).contains(x));
                    } else {
                        assert(x == s1[i as int]);
                        if !s2.contains(x) {
                        } else {
                            assert(before.contains(x));
                        }
                    }
                }
            }
        }
        i += 1;
    }
    proof {
        assert(s1.take(s1.len() as int) =~= s1);
        assert forall|x: Seq<char>| #[trigger] r.deep_view().to_set().contains(x)
            <==> s1.to_set().intersect(s2.to_set()).contains(x) by {
            assert(r.deep_view().to_set().contains(x) == r.deep_view().contains(x));
        }
        assert(r.deep_view().to_set() =~= s1.to_set().intersect(s2.to_set()));
    }
    r
}

/// Intersecting is commutative: both orders give the same name set.
pub proof fn lemma_intersection_commutative(a: Set<Seq<char>>, b: Set<Seq<char>>)
    ensures
        a.intersect(b) == b.intersect(a),
{
    assert(a.intersect(b) =~= b.intersect(a));
}

/// Intersecting a name set with itself gives the set back.
pub proof fn lemma_intersection_idempotent(a: Set<Seq<char>>)
    ensures
        a.intersect(a) == a,
{
    assert(a.intersect(a) =~= a);
}

/// Intersecting with the empty set gives the empty set.
pub proof fn lemma_intersection_empty(a: Set<Seq<char>>)
    ensures
        a.intersect(Set::empty()) == Set::<Seq<char>>::empty(),
{
    assert(a.intersect(Set::empty()) =~= Set::<Seq<char>>::empty());
}

} // verus!
