//! The lexical highlighter: a function from a line's characters, the
//! language toggles and an optional search term to one category per
//! character.

use vstd::prelude::*;
use crate::filetype::HighlightingOptions;
use crate::search::{matches_at, occurs_at};

verus! {

/// What a character is shown as.
#[derive(Clone, Copy, Debug, PartialEq, Eq, Structural)]
pub enum Category {
    Plain,
    Number,
    Match,
    String,
    Character,
    Comment,
}

/// `'0'` to `'9'`.
pub open spec fn is_digit(c: char) -> bool {
    '0' <= c <= '9'
}

/// ASCII punctuation or ASCII whitespace: what may stand before a number.
pub open spec fn is_separator(c: char) -> bool {
    ||| '!' <= c <= '/'
    ||| ':' <= c <= '@'
    ||| '[' <= c <= '`'
    ||| '{' <= c <= '~'
    ||| c == ' '
    ||| c == '\t'
    ||| c == '\n'
    ||| c == '\x0C'
    ||| c == '\r'
}

/// A line comment opens at `i`: two slashes.
pub open spec fn comment_at(s: Seq<char>, i: int) -> bool {
    i + 1 < s.len() && s[i] == '/' && s[i + 1] == '/'
}

/// How many characters from `j` on belong to a string literal that is open
/// at `j`: up to and including the closing quote, or to the end of the line.
/// A backslash takes the character behind it along.
pub open spec fn string_tail_len(s: Seq<char>, j: int) -> nat
    decreases s.len() - j,
{
    if j >= s.len() {
        0
    } else if s[j] == '"' {
        1
    } else if s[j] == '\\' && j + 1 < s.len() {
        2 + string_tail_len(s, j + 2)
    } else {
        1 + string_tail_len(s, j + 1)
    }
}

/// The offset of the closing quote of a character literal that opens at `i`:
/// one character behind the opening quote, or a backslash and one character.
pub open spec fn character_close(s: Seq<char>, i: int) -> int {
    if i + 1 < s.len() && s[i + 1] == '\\' {
        i + 3
    } else {
        i + 2
    }
}

/// A complete character literal opens at `i`.
pub open spec fn character_at(s: Seq<char>, i: int) -> bool {
    &&& s[i] == '\''
    &&& character_close(s, i) < s.len()
    &&& s[character_close(s, i)] == '\''
}

/// A number opens at `i`: a digit at the start of the line or behind a separator.
pub open spec fn number_at(s: Seq<char>, i: int) -> bool {
    is_digit(s[i]) && (i == 0 || is_separator(s[i - 1]))
}

/// How many characters from `j` on continue a number: digits and dots.
pub open spec fn number_tail_len(s: Seq<char>, j: int) -> nat
    decreases s.len() - j,
{
    if j < s.len() && (is_digit(s[j]) || s[j] == '.') {
        1 + number_tail_len(s, j + 1)
    } else {
        0
    }
}

/// The token that starts at offset `i < s.len()`: its category and its
/// length, which is at least one. Where several kinds could start, the first
/// of comment, string, character, number wins; a character that starts none
/// of them is a plain token of its own.
pub open spec fn token_at(s: Seq<char>, opts: HighlightingOptions, i: int) -> (Category, nat) {
    if opts.comments && comment_at(s, i) {
        (Category::Comment, (s.len() - i) as nat)
    } else if opts.strings && s[i] == '"' {
        (Category::String, 1 + string_tail_len(s, i + 1))
    } else if opts.characters && character_at(s, i) {
        (Category::Character, (character_close(s, i) - i + 1) as nat)
    } else if opts.numbers && number_at(s, i) {
        (Category::Number, 1 + number_tail_len(s, i + 1))
    } else {
        (Category::Plain, 1)
    }
}

/// The categories of the characters from offset `i` to the end of the line,
/// token by token, left to right.
pub open spec fn categories_from(s: Seq<char>, opts: HighlightingOptions, i: int) -> Seq<Category>
    decreases
            (if i < s.len() {
                s.len() - i
            } else {
                0
            }),
{
    if 0 <= i < s.len() {
        let token = token_at(s, opts, i);
        Seq::new(token.1, |k: int| token.0) + categories_from(s, opts, i + token.1)
    } else {
        Seq::empty()
    }
}

/// The language categories of a whole line.
pub open spec fn language_categories(s: Seq<char>, opts: HighlightingOptions) -> Seq<Category> {
    categories_from(s, opts, 0)
}

/// Offset `i` lies inside some occurrence of `word` in `s`.
pub open spec fn in_match(s: Seq<char>, word: Seq<char>, i: int) -> bool {
    exists|p: int| occurs_at(s, word, p) && p <= i < p + word.len()
}

/// The categories of a line: every character inside an occurrence of the
/// search term is a `Match`; every other character has its language category.
pub open spec fn highlighted(
    s: Seq<char>,
    opts: HighlightingOptions,
    word: Option<Seq<char>>,
) -> Seq<Category> {
    Seq::new(
        s.len(),
        |i: int|
            if word is Some && in_match(s, word->0, i) {
                Category::Match
            } else {
                language_categories(s, opts)[i]
            },
    )
}

/// A string literal that is open at `j` ends within the line.
pub proof fn lemma_string_tail_fits(s: Seq<char>, j: int)
    requires
        0 <= j <= s.len(),
    ensures
        j + string_tail_len(s, j) <= s.len(),
    decreases s.len() - j,
{
    if j < s.len() && s[j] != '"' {
        if s[j] == '\\' && j + 1 < s.len() {
            lemma_string_tail_fits(s, j + 2);
        } else {
            lemma_string_tail_fits(s, j + 1);
        }
    }
}

/// A number that continues at `j` ends within the line.
pub proof fn lemma_number_tail_fits(s: Seq<char>, j: int)
    requires
        0 <= j <= s.len(),
    ensures
        j + number_tail_len(s, j) <= s.len(),
    decreases s.len() - j,
{
    if j < s.len() && (is_digit(s[j]) || s[j] == '.') {
        lemma_number_tail_fits(s, j + 1);
    }
}

/// Every token is at least one character long and ends within the line.
pub proof fn lemma_token_fits(s: Seq<char>, opts: HighlightingOptions, i: int)
    requires
        0 <= i < s.len(),
    ensures
        1 <= token_at(s, opts, i).1,
        i + token_at(s, opts, i).1 <= s.len(),
{
    lemma_string_tail_fits(s, i + 1);
    lemma_number_tail_fits(s, i + 1);
}

/// The language categories cover the rest of the line, one for each character.
pub proof fn lemma_categories_len(s: Seq<char>, opts: HighlightingOptions, i: int)
    requires
        0 <= i <= s.len(),
    ensures
        categories_from(s, opts, i).len() == s.len() - i,
    decreases s.len() - i,
{
    if i < s.len() {
        lemma_token_fits(s, opts, i);
        lemma_categories_len(s, opts, i + token_at(s, opts, i).1);
    }
}

/// With every toggle off, every character of the line is plain.
pub proof fn lemma_plain_without_toggles(s: Seq<char>, i: int)
    requires
        0 <= i <= s.len(),
    ensures
        categories_from(s, HighlightingOptions::disabled(), i) == Seq::new(
            (s.len() - i) as nat,
            |k: int| Category::Plain,
        ),
    decreases s.len() - i,
{
    let opts = HighlightingOptions::disabled();
    if i < s.len() {
        lemma_plain_without_toggles(s, i + 1);
    }
}

/// Every character inside an occurrence of the search term is a match, and
/// without a search term every character has its language category.
pub proof fn lemma_highlighted(s: Seq<char>, opts: HighlightingOptions, word: Seq<char>, p: int)
    requires
        occurs_at(s, word, p),
    ensures
        highlighted(s, opts, Some(word)).len() == s.len(),
        forall|i: int| p <= i < p + word.len() ==> highlighted(s, opts, Some(word))[i] == Category::Match,
        highlighted(s, opts, None) == language_categories(s, opts),
{
    lemma_categories_len(s, opts, 0);
}

fn digit(c: char) -> (b: bool)
    ensures
        b == is_digit(c),
{
    '0' <= c && c <= '9'
}

fn separator(c: char) -> (b: bool)
    ensures
        b == is_separator(c),
{
    ('!' <= c && c <= '/') || (':' <= c && c <= '@') || ('[' <= c && c <= '`') || ('{' <= c && c
        <= '~') || c == ' ' || c == '\t' || c == '\n' || c == '\x0C' || c == '\r'
}

/// The length of the rest of a string literal that is open at `from`.
fn string_tail(s: &Vec<char>, from: usize) -> (len: usize)
    requires
        from <= s@.len(),
    ensures
        len == string_tail_len(s@, from as int),
        from + len <= s@.len(),
{
    let n = s.len();
    let mut j: usize = from;
    proof {
        lemma_string_tail_fits(s@, from as int);
    }
    while j < n
        invariant
            n == s@.len(),
            from <= j <= n,
            (j - from) + string_tail_len(s@, j as int) == string_tail_len(s@, from as int),
        decreases n - j,
    {
        if s[j] == '"' {
            return j + 1 - from;
        }
        if s[j] == '\\' && j + 1 < n {
            j += 2;
        } else {
            j += 1;
        }
    }
    j - from
}

/// The length of the run of digits and dots that starts at `from`.
fn number_tail(s: &Vec<char>, from: usize) -> (len: usize)
    requires
        from <= s@.len(),
    ensures
        len == number_tail_len(s@, from as int),
        from + len <= s@.len(),
{
    let n = s.len();
    let mut j: usize = from;
    while j < n && (digit(s[j]) || s[j] == '.')
        invariant
            n == s@.len(),
            from <= j <= n,
            (j - from) + number_tail_len(s@, j as int) == number_tail_len(s@, from as int),
        decreases n - j,
    {
        j += 1;
    }
    j - from
}

/// The token that starts at offset `i`.
fn next_token(s: &Vec<char>, opts: HighlightingOptions, i: usize) -> (t: (Category, usize))
    requires
        i < s@.len(),
    ensures
        t.0 == token_at(s@, opts, i as int).0,
        t.1 == token_at(s@, opts, i as int).1,
        1 <= t.1,
        i + t.1 <= s@.len(),
{
    let n = s.len();
    let c = s[i];
    if opts.comments && c == '/' && i + 1 < n && s[i + 1] == '/' {
        return (Category::Comment, n - i);
    }
    if opts.strings && c == '"' {
        let tail = string_tail(s, i + 1);
        return (Category::String, 1 + tail);
    }
    if opts.characters && c == '\'' {
        let width: usize = if i + 1 < n && s[i + 1] == '\\' {
            3
        } else {
            2
        };
        if width < n - i && s[i + width] == '\'' {
            return (Category::Character, width + 1);
        }
    }
    if opts.numbers && digit(c) && (i == 0 || separator(s[i - 1])) {
        let tail = number_tail(s, i + 1);
        return (Category::Number, 1 + tail);
    }
    (Category::Plain, 1)
}

/// The language categories of a line.
pub fn highlight_language(s: &Vec<char>, opts: HighlightingOptions) -> (cats: Vec<Category>)
    ensures
        cats@ == language_categories(s@, opts),
{
    let n = s.len();
    let mut cats: Vec<Category> = Vec::new();
    let mut i: usize = 0;
    while i < n
        invariant
            n == s@.len(),
            i <= n,
            cats@ + categories_from(s@, opts, i as int) == categories_from(s@, opts, 0),
        decreases n - i,
    {
        let (category, len) = next_token(s, opts, i);
        let ghost before = cats@;
        let mut k: usize = 0;
        while k < len
            invariant
                k <= len,
                cats@ == before + Seq::new(k as nat, |j: int| category),
            decreases len - k,
        {
            cats.push(category);
            k += 1;
        }
        assert(categories_from(s@, opts, i as int) == Seq::new(len as nat, |j: int| category)
            + categories_from(s@, opts, i + len));
        i += len;
    }
    cats
}

/// Offset `i` lies inside an occurrence of `word` that starts below `bound`.
spec fn in_match_below(s: Seq<char>, word: Seq<char>, i: int, bound: int) -> bool {
    exists|p: int| p < bound && occurs_at(s, word, p) && p <= i < p + word.len()
}

/// Re-tags as `Match` every character that lies inside an occurrence of `word`.
fn mark_matches(cats: &mut Vec<Category>, s: &Vec<char>, word: &Vec<char>)
    requires
        old(cats)@.len() == s@.len(),
    ensures
        final(cats)@.len() == s@.len(),
        forall|i: int|
            0 <= i < s@.len() ==> final(cats)@[i] == if in_match(s@, word@, i) {
                Category::Match
            } else {
                old(cats)@[i]
            },
{
    let n = s.len();
    let m = word.len();
    if m == 0 || m > n {
        return;
    }
    let last = n - m;
    let mut p: usize = 0;
    while p <= last
        invariant
            n == s@.len(),
            m == word@.len(),
            1 <= m <= n,
            last == n - m,
            p <= last + 1,
            cats@.len() == n,
            forall|i: int|
                0 <= i < n ==> cats@[i] == if in_match_below(s@, word@, i, p as int) {
                    Category::Match
                } else {
                    old(cats)@[i]
                },
        decreases last + 1 - p,
    {
        let ghost before = cats@;
        if matches_at(s, word, p) {
            let mut k: usize = p;
            while k < p + m
                invariant
                    n == s@.len(),
                    m == word@.len(),
                    p + m <= n,
                    p <= k <= p + m,
                    cats@.len() == n,
                    forall|i: int|
                        0 <= i < n ==> cats@[i] == if p <= i < k {
                            Category::Match
                        } else {
                            before[i]
                        },
                decreases p + m - k,
            {
                cats.set(k, Category::Match);
                k += 1;
            }
        }
        p += 1;
    }
}

/// The categories of a line: its language categories, with every occurrence
/// of the search term re-tagged as a match.
pub fn highlight(s: &Vec<char>, opts: HighlightingOptions, word: Option<&Vec<char>>) -> (cats: Vec<
    Category,
>)
    ensures
        cats@ == highlighted(
            s@,
            opts,
            match word {
                Some(w) => Some(w@),
                None => None,
            },
        ),
{
    let mut cats = highlight_language(s, opts);
    proof {
        lemma_categories_len(s@, opts, 0);
    }
    match word {
        Some(w) => {
            mark_matches(&mut cats, s, w);
        },
        None => {
        },
    }
    cats
}

/// A stretch `[start, end)` of a line whose characters share one category.
#[derive(Clone, Copy, Debug, PartialEq, Eq, Structural)]
pub struct HighlightSpan {
    pub start: usize,
    pub end: usize,
    pub category: Category,
}

impl HighlightSpan {
    /// Offset `i` lies inside the span.
    pub open spec fn covers(self, i: int) -> bool {
        self.start <= i < self.end
    }

    /// The span is a longest stretch of `cats` of one category other than plain.
    pub open spec fn is_run_of(self, cats: Seq<Category>) -> bool {
        &&& self.start < self.end <= cats.len()
        &&& self.category != Category::Plain
        &&& forall|i: int| self.start <= i < self.end ==> cats[i] == self.category
        &&& (self.start == 0 || cats[self.start - 1] != self.category)
        &&& (self.end == cats.len() || cats[self.end as int] != self.category)
    }
}

/// `spans` lists, from left to right, exactly the longest stretches of `cats`
/// that are not plain: the spans do not overlap, and whatever lies outside
/// all of them is plain.
pub open spec fn are_spans_of(spans: Seq<HighlightSpan>, cats: Seq<Category>) -> bool {
    &&& forall|k: int| 0 <= k < spans.len() ==> (#[trigger] spans[k]).is_run_of(cats)
    &&& forall|k: int, l: int| 0 <= k < l < spans.len() ==> spans[k].end <= spans[l].start
    &&& forall|i: int|
        0 <= i < cats.len() && cats[i] != Category::Plain ==> exists|k: int|
            0 <= k < spans.len() && (#[trigger] spans[k]).covers(i)
}

/// As far as two lists of spans of the same categories both go, they agree.
proof fn lemma_spans_agree(a: Seq<HighlightSpan>, b: Seq<HighlightSpan>, cats: Seq<Category>, k: int)
    requires
        are_spans_of(a, cats),
        are_spans_of(b, cats),
        0 <= k <= a.len(),
        k <= b.len(),
    ensures
        forall|j: int| 0 <= j < k ==> a[j] == b[j],
    decreases k,
{
    if k > 0 {
        lemma_spans_agree(a, b, cats, k - 1);
        let x = a[k - 1];
        let y = b[k - 1];
        assert(x.is_run_of(cats) && y.is_run_of(cats));
        lemma_span_start_not_before(a, b, cats, k - 1);
        lemma_span_start_not_before(b, a, cats, k - 1);
        assert(x.start == y.start);
        assert(cats[x.start as int] == x.category);
        assert(cats[y.start as int] == y.category);
        if x.end < y.end {
            assert(cats[x.end as int] == y.category);
        }
        if y.end < x.end {
            assert(cats[y.end as int] == x.category);
        }
    }
}

/// Where two lists of spans of the same categories agree before place `k`,
/// the span `k` of the second does not start behind the span `k` of the first.
proof fn lemma_span_start_not_before(
    a: Seq<HighlightSpan>,
    b: Seq<HighlightSpan>,
    cats: Seq<Category>,
    k: int,
)
    requires
        are_spans_of(a, cats),
        are_spans_of(b, cats),
        0 <= k < a.len(),
        k < b.len(),
        forall|j: int| 0 <= j < k ==> a[j] == b[j],
    ensures
        b[k].start <= a[k].start,
{
    let i = a[k].start as int;
    assert(a[k].is_run_of(cats));
    assert(cats[i] == a[k].category);
    let l = choose|l: int| 0 <= l < b.len() && (#[trigger] b[l]).covers(i);
    assert(b[l].is_run_of(cats));
    assert(b[k].is_run_of(cats));
    if l < k {
        assert(a[l] == b[l]);
        assert(a[l].end <= a[k].start);
    } else if l > k {
        assert(b[k].end <= b[l].start);
    }
}

/// The categories decide their spans: two lists of spans of the same
/// categories are the same list.
pub proof fn lemma_spans_unique(a: Seq<HighlightSpan>, b: Seq<HighlightSpan>, cats: Seq<Category>)
    requires
        are_spans_of(a, cats),
        are_spans_of(b, cats),
    ensures
        a == b,
{
    if a.len() <= b.len() {
        lemma_spans_agree(a, b, cats, a.len() as int);
        lemma_no_further_span(a, b, cats);
    } else {
        lemma_spans_agree(b, a, cats, b.len() as int);
        lemma_no_further_span(b, a, cats);
    }
    assert(a =~= b);
}

/// Of two lists of spans of the same categories, one of which starts with
/// the other, neither is longer.
proof fn lemma_no_further_span(a: Seq<HighlightSpan>, b: Seq<HighlightSpan>, cats: Seq<Category>)
    requires
        are_spans_of(a, cats),
        are_spans_of(b, cats),
        a.len() <= b.len(),
        forall|j: int| 0 <= j < a.len() ==> a[j] == b[j],
    ensures
        a.len() == b.len(),
{
    if a.len() < b.len() {
        let n = a.len() as int;
        let i = b[n].start as int;
        assert(b[n].is_run_of(cats));
        assert(cats[i] == b[n].category);
        let l = choose|l: int| 0 <= l < a.len() && (#[trigger] a[l]).covers(i);
        assert(a[l] == b[l]);
        assert(b[l].end <= b[n].start);
    }
}

/// The spans of a sequence of categories.
pub fn spans_of(cats: &Vec<Category>) -> (spans: Vec<HighlightSpan>)
    ensures
        are_spans_of(spans@, cats@),
{
    let n = cats.len();
    let mut spans: Vec<HighlightSpan> = Vec::new();
    let mut i: usize = 0;
    while i < n
        invariant
            n == cats@.len(),
            i <= n,
            i == 0 || i == n || cats@[i - 1] != cats@[i as int],
            forall|k: int| 0 <= k < spans@.len() ==> (#[trigger] spans@[k]).is_run_of(cats@),
            forall|k: int| 0 <= k < spans@.len() ==> (#[trigger] spans@[k]).end <= i,
            forall|k: int, l: int| 0 <= k < l < spans@.len() ==> spans@[k].end <= spans@[l].start,
            forall|j: int|
                0 <= j < i && cats@[j] != Category::Plain ==> exists|k: int|
                    0 <= k < spans@.len() && (#[trigger] spans@[k]).covers(j),
        decreases n - i,
    {
        let category = cats[i];
        let mut j: usize = i + 1;
        while j < n && cats[j] == category
            invariant
                n == cats@.len(),
                i < j <= n,
                forall|k: int| i <= k < j ==> cats@[k] == category,
            decreases n - j,
        {
            j += 1;
        }
        let ghost before = spans@;
        if category != Category::Plain {
            let span = HighlightSpan { start: i, end: j, category };
            spans.push(span);
            assert forall|x: int| 0 <= x < j && cats@[x] != Category::Plain implies exists|k: int|
                0 <= k < spans@.len() && (#[trigger] spans@[k]).covers(x) by {
                if x < i {
                    let k = choose|k: int| 0 <= k < before.len() && (#[trigger] before[k]).covers(x);
                    assert(spans@[k].covers(x));
                } else {
                    assert(spans@[before.len() as int].covers(x));
                }
            }
        }
        i = j;
    }
    spans
}

} // verus!
