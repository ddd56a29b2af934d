//! Extraction of a dotted version triple (`D+.D+.D+`, `D` a decimal digit)
//! from arbitrary text: the leftmost such substring, with each digit run
//! taken maximally, is returned; text without one yields `None`.

use vstd::prelude::*;

verus! {

/// A decimal digit.
pub open spec fn is_digit(c: char) -> bool {
    '0' <= c && c <= '9'
}

/// End (exclusive) of the maximal run of digits starting at `i`:
/// the least `j >= i` with `j == s.len()` or `s[j]` not a digit.
pub open spec fn digit_run_end(s: Seq<char>, i: int) -> int
    decreases s.len() - i when i <= s.len()
{
    if 0 <= i < s.len() && is_digit(s[i]) {
        digit_run_end(s, i + 1)
    } else {
        i
    }
}

/// A version triple `D+.D+.D+` begins at `i`, each digit run maximal.
pub open spec fn match_at(s: Seq<char>, i: int) -> bool {
    let j = digit_run_end(s, i);
    let k = digit_run_end(s, j + 1);
    &&& 0 <= i < s.len() && is_digit(s[i])
    &&& j < s.len() && s[j] == '.'
    &&& j + 1 < s.len() && is_digit(s[j + 1])
    &&& k < s.len() && s[k] == '.'
    &&& k + 1 < s.len() && is_digit(s[k + 1])
}

/// End (exclusive) of the triple beginning at `i` (meaningful when
/// `match_at(s, i)` holds): the end of its third digit run.
pub open spec fn match_end(s: Seq<char>, i: int) -> int {
    let j = digit_run_end(s, i);
    let k = digit_run_end(s, j + 1);
    digit_run_end(s, k + 1)
}

/// Position of the leftmost triple at or after `i`, if any.
pub open spec fn first_match_from(s: Seq<char>, i: int) -> Option<int>
    decreases s.len() - i when 0 <= i <= s.len()
{
    if 0 <= i < s.len() {
        if match_at(s, i) {
            Some(i)
        } else {
            first_match_from(s, i + 1)
        }
    } else {
        None
    }
}

/// What extraction returns: the leftmost triple, with its digit runs
/// taken whole, or nothing.
pub open spec fn parse_version_spec(s: Seq<char>) -> Option<Seq<char>> {
    match first_match_from(s, 0) {
        Some(i) => Some(s.subrange(i, match_end(s, i))),
        None => None,
    }
}

/// The whole of `s` is a version triple: exactly two dots, everything
/// else a digit, none of the three digit runs empty.
pub open spec fn is_version_triple(s: Seq<char>) -> bool {
    exists|d1: int, d2: int|
        #![trigger s[d1], s[d2]]
        {
            &&& 1 <= d1
            &&& d1 + 2 <= d2
            &&& d2 + 2 <= s.len()
            &&& s[d1] == '.'
            &&& s[d2] == '.'
            &&& forall|m: int| 0 <= m < s.len() && m != d1 && m != d2 ==> is_digit(s[m])
        }
}

/// A digit run's end lies between its start and the end of the text.
pub proof fn lemma_run_bounds(s: Seq<char>, i: int)
    requires
        0 <= i <= s.len(),
    ensures
        i <= digit_run_end(s, i) <= s.len(),
    decreases s.len() - i,
{
    if i < s.len() && is_digit(s[i]) {
        lemma_run_bounds(s, i + 1);
    }
}

/// Every position inside a digit run holds a digit.
pub proof fn lemma_run_digits(s: Seq<char>, i: int, m: int)
    requires
        0 <= i <= s.len(),
        i <= m < digit_run_end(s, i),
    ensures
        is_digit(s[m]),
    decreases s.len() - i,
{
    lemma_run_bounds(s, i);
    if i < s.len() && is_digit(s[i]) {
        if m > i {
            lemma_run_digits(s, i + 1, m);
        }
    }
}

/// A digit run ends at the end of the text or before a non-digit.
pub proof fn lemma_run_stop(s: Seq<char>, i: int)
    requires
        0 <= i <= s.len(),
    ensures
        digit_run_end(s, i) == s.len() || !is_digit(s[digit_run_end(s, i)]),
    decreases s.len() - i,
{
    if i < s.len() && is_digit(s[i]) {
        lemma_run_stop(s, i + 1);
    }
}

/// A digit run starting on a digit is non-empty.
pub proof fn lemma_run_strict(s: Seq<char>, i: int)
    requires
        0 <= i < s.len(),
        is_digit(s[i]),
    ensures
        i + 1 <= digit_run_end(s, i) <= s.len(),
{
    lemma_run_bounds(s, i + 1);
}

/// A stretch of digits up to a boundary (text end or non-digit) is
/// exactly the maximal run from its start.
pub proof fn lemma_run_of_digits(s: Seq<char>, a: int, b: int)
    requires
        0 <= a <= b <= s.len(),
        forall|m: int| a <= m < b ==> is_digit(#[trigger] s[m]),
        b == s.len() || !is_digit(s[b]),
    ensures
        digit_run_end(s, a) == b,
    decreases b - a,
{
    if a < b {
        lemma_run_of_digits(s, a + 1, b);
    }
}

/// Scanning from anywhere at or before a triple that nothing earlier
/// precedes arrives exactly at it.
proof fn lemma_first_match_from_reaches(s: Seq<char>, lo: int, i: int)
    requires
        0 <= lo <= i,
        match_at(s, i),
        forall|j: int| lo <= j < i ==> !match_at(s, j),
    ensures
        first_match_from(s, lo) == Some(i),
    decreases i - lo,
{
    if lo < i {
        lemma_first_match_from_reaches(s, lo + 1, i);
    }
}

/// Where no position starts a triple, the scan finds none.
proof fn lemma_first_match_from_none(s: Seq<char>, lo: int)
    requires
        0 <= lo <= s.len(),
        forall|j: int| lo <= j < s.len() ==> !match_at(s, j),
    ensures
        first_match_from(s, lo) is None,
    decreases s.len() - lo,
{
    if lo < s.len() {
        lemma_first_match_from_none(s, lo + 1);
    }
}

/// A triple whose start follows a digit also starts one position earlier:
/// the leftmost triple is never entered in the middle of a digit run.
proof fn lemma_match_extends_left(s: Seq<char>, i: int)
    requires
        match_at(s, i),
        1 <= i,
        is_digit(s[i - 1]),
    ensures
        match_at(s, i - 1),
        match_end(s, i - 1) == match_end(s, i),
{
}

/// Extraction returns exactly the leftmost version triple: for a triple
/// at `i` with none earlier, the result is the text from `i` to the end
/// of the triple's third digit run. Such a leftmost triple is not
/// immediately preceded or followed by a further digit, so its first and
/// last numbers are whole digit runs of the text.
pub proof fn lemma_extracts_first_match(s: Seq<char>, i: int)
    requires
        match_at(s, i),
        forall|j: int| 0 <= j < i ==> !match_at(s, j),
    ensures
        parse_version_spec(s) == Some(s.subrange(i, match_end(s, i))),
        i == 0 || !is_digit(s[i - 1]),
        match_end(s, i) == s.len() || !is_digit(s[match_end(s, i)]),
{
    lemma_first_match_from_reaches(s, 0, i);
    if i >= 1 && is_digit(s[i - 1]) {
        lemma_match_extends_left(s, i);
    }
    let j = digit_run_end(s, i);
    let k = digit_run_end(s, j + 1);
    lemma_run_bounds(s, i);
    lemma_run_bounds(s, j + 1);
    lemma_run_stop(s, k + 1);
}

/// Text without a version triple at any position yields no extraction.
pub proof fn lemma_no_match_no_result(s: Seq<char>)
    requires
        forall|i: int| 0 <= i < s.len() ==> !match_at(s, i),
    ensures
        parse_version_spec(s) is None,
{
    lemma_first_match_from_none(s, 0);
}

/// A triple found in surrounding text, cut out, is a version triple on
/// its own: so everything extraction returns satisfies
/// `is_version_triple`.
pub proof fn lemma_match_is_version_triple(s: Seq<char>, i: int)
    requires
        match_at(s, i),
    ensures
        is_version_triple(s.subrange(i, match_end(s, i))),
{
    let j = digit_run_end(s, i);
    let k = digit_run_end(s, j + 1);
    let e = digit_run_end(s, k + 1);
    lemma_run_strict(s, i);
    lemma_run_strict(s, j + 1);
    lemma_run_strict(s, k + 1);
    let sub = s.subrange(i, e);
    let d1 = j - i;
    let d2 = k - i;
    assert(sub[d1] == '.');
    assert(sub[d2] == '.');
    assert forall|m: int| 0 <= m < sub.len() && m != d1 && m != d2 implies is_digit(
        sub[m],
    ) by {
        let p = i + m;
        if p < j {
            lemma_run_digits(s, i, p);
        } else if p < k {
            lemma_run_digits(s, j + 1, p);
        } else {
            lemma_run_digits(s, k + 1, p);
        }
    }
    assert(is_version_triple(sub));
}

/// The scan only reports positions where a triple begins.
proof fn lemma_first_match_from_sound(s: Seq<char>, lo: int)
    requires
        0 <= lo <= s.len(),
    ensures
        first_match_from(s, lo) matches Some(i) ==> lo <= i && match_at(s, i),
    decreases s.len() - lo,
{
    if lo < s.len() && !match_at(s, lo) {
        lemma_first_match_from_sound(s, lo + 1);
    }
}

/// Everything extraction returns is itself a version triple on its own:
/// three non-empty digit runs with a dot between each pair and nothing
/// else.
pub proof fn lemma_extracted_is_version_triple(s: Seq<char>, v: Seq<char>)
    requires
        parse_version_spec(s) == Some(v),
    ensures
        is_version_triple(v),
{
    lemma_first_match_from_sound(s, 0);
    let i = first_match_from(s, 0)->0;
    lemma_match_is_version_triple(s, i);
}

/// Extraction has no hidden state: its result is a function of the text
/// alone, so any two results its contract admits for the same text are
/// equal, and re-running it can never yield a different answer.
pub proof fn lemma_extraction_deterministic(
    s: Seq<char>,
    r1: Option<Seq<char>>,
    r2: Option<Seq<char>>,
)
    requires
        r1 == parse_version_spec(s),
        r2 == parse_version_spec(s),
    ensures
        r1 == r2,
{
}

/// A whole text is a version triple exactly when a triple starts at its
/// first character and runs to its end.
pub proof fn lemma_triple_iff_whole_match(s: Seq<char>)
    ensures
        is_version_triple(s) <==> (match_at(s, 0) && match_end(s, 0) == s.len()),
{
    if is_version_triple(s) {
        let (d1, d2): (int, int) = choose|d1: int, d2: int|
            #![trigger s[d1], s[d2]]
            {
                &&& 1 <= d1
                &&& d1 + 2 <= d2
                &&& d2 + 2 <= s.len()
                &&& s[d1] == '.'
                &&& s[d2] == '.'
                &&& forall|m: int| 0 <= m < s.len() && m != d1 && m != d2 ==> is_digit(s[m])
            };
        lemma_run_of_digits(s, 0, d1);
        lemma_run_of_digits(s, d1 + 1, d2);
        lemma_run_of_digits(s, d2 + 1, s.len() as int);
    }
    if match_at(s, 0) && match_end(s, 0) == s.len() {
        lemma_match_is_version_triple(s, 0);
        assert(s.subrange(0, s.len() as int) =~= s);
    }
}

/// Decides `is_digit`.
fn digit(c: char) -> (r: bool)
    ensures
        r == is_digit(c),
{
    '0' <= c && c <= '9'
}

/// Walks to the end of the maximal digit run starting at `start`.
fn scan_digit_run(text: &str, start: usize, n: usize) -> (r: usize)
    requires
        n == text@.len(),
        start <= n,
    ensures
        r == digit_run_end(text@, start as int),
        start <= r <= n,
{
    let mut i: usize = start;
    while i < n
        invariant
            n == text@.len(),
            start <= i <= n,
            digit_run_end(text@, start as int) == digit_run_end(text@, i as int),
        decreases n - i,
    {
        if !digit(text.get_char(i)) {
            return i;
        }
        i = i + 1;
    }
    i
}

/// Looks for a version triple beginning exactly at `i`; returns its end.
fn match_from(text: &str, i: usize, n: usize) -> (r: Option<usize>)
    requires
        n == text@.len(),
        i < n,
    ensures
        match r {
            Some(e) => match_at(text@, i as int) && e == match_end(text@, i as int) && i < e <= n,
            None => !match_at(text@, i as int),
        },
{
    if !digit(text.get_char(i)) {
        return None;
    }
    let j = scan_digit_run(text, i, n);
    if j == n || text.get_char(j) != '.' {
        return None;
    }
    if j + 1 == n || !digit(text.get_char(j + 1)) {
        return None;
    }
    let k = scan_digit_run(text, j + 1, n);
    if k == n || text.get_char(k) != '.' {
        return None;
    }
    if k + 1 == n || !digit(text.get_char(k + 1)) {
        return None;
    }
    let e = scan_digit_run(text, k + 1, n);
    Some(e)
}

/// Returns the leftmost substring of `text` of the form `D+.D+.D+`
/// (`D` a decimal digit, each digit run taken maximally), or `None`
/// when no such substring occurs.
pub fn parse_version(text: &str) -> (r: Option<String>)
    ensures
        match r {
            Some(v) => parse_version_spec(text@) == Some(v@) && is_version_triple(v@),
            None => parse_version_spec(text@) is None,
        },
{
    let n = text.unicode_len();
    let mut i: usize = 0;
    while i < n
        invariant
            n == text@.len(),
            i <= n,
            first_match_from(text@, 0) == first_match_from(text@, i as int),
        decreases n - i,
    {
        match match_from(text, i, n) {
            Some(e) => {
                proof {
                    lemma_match_is_version_triple(text@, i as int);
                }
                let found = text.substring_char(i, e);
                return Some(String::from_str(found));
            },
            None => {
                i = i + 1;
            },
        }
    }
    None
}

/// Decides whether the whole of `text` is a version triple `D+.D+.D+`,
/// with nothing before or after: the form required of the compile-time
/// fallback version.
pub fn is_valid_version(text: &str) -> (r: bool)
    ensures
        r == is_version_triple(text@),
{
    proof {
        lemma_triple_iff_whole_match(text@);
    }
    let n = text.unicode_len();
    if n == 0 {
        return false;
    }
    match match_from(text, 0, n) {
        Some(e) => e == n,
        None => false,
    }
}

} // verus!
