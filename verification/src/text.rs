//! Character-level text primitives with exact specifications.
//!
//! Every function here works on the `char` view of a string (`Seq<char>`);
//! whitespace follows the Unicode `White_Space` property, which is what
//! `char::is_whitespace`, `str::trim` and `str::split_whitespace` use.

use vstd::prelude::*;
use vstd::string::*;
use vstd::utf8::{decode_utf8, valid_utf8};

verus! {

/// The Unicode `White_Space` property.
pub open spec fn is_ws(c: char) -> bool {
    let u = c as u32;
    ||| (0x9 <= u && u <= 0xd)
    ||| u == 0x20
    ||| u == 0x85
    ||| u == 0xa0
    ||| u == 0x1680
    ||| (0x2000 <= u && u <= 0x200a)
    ||| u == 0x2028
    ||| u == 0x2029
    ||| u == 0x202f
    ||| u == 0x205f
    ||| u == 0x3000
}

/// `s` without its leading whitespace.
pub open spec fn trimmed_start(s: Seq<char>) -> Seq<char>
    decreases s.len(),
{
    if s.len() > 0 && is_ws(s[0]) {
        trimmed_start(s.drop_first())
    } else {
        s
    }
}

/// `s` without its trailing whitespace.
pub open spec fn trimmed_end(s: Seq<char>) -> Seq<char>
    decreases s.len(),
{
    if s.len() > 0 && is_ws(s.last()) {
        trimmed_end(s.drop_last())
    } else {
        s
    }
}

/// `s` without leading or trailing whitespace.
pub open spec fn trimmed(s: Seq<char>) -> Seq<char> {
    trimmed_end(trimmed_start(s))
}

/// Whether `p` occurs in `s` starting at position `i`.
pub open spec fn matches_at(s: Seq<char>, p: Seq<char>, i: int) -> bool {
    0 <= i && i + p.len() <= s.len() && s.subrange(i, i + p.len()) == p
}

/// The first position at or after `i` where `p` occurs in `s`.
pub open spec fn find_from(s: Seq<char>, p: Seq<char>, i: int) -> Option<int>
    decreases s.len() + 1 - i,
{
    if i < 0 || i + p.len() > s.len() {
        None
    } else if matches_at(s, p, i) {
        Some(i)
    } else {
        find_from(s, p, i + 1)
    }
}

/// The first position where `p` occurs in `s`.
pub open spec fn find_first(s: Seq<char>, p: Seq<char>) -> Option<int> {
    find_from(s, p, 0)
}

pub open spec fn has_sub(s: Seq<char>, p: Seq<char>) -> bool {
    find_first(s, p) is Some
}

pub open spec fn begins_with(s: Seq<char>, p: Seq<char>) -> bool {
    p.len() <= s.len() && s.take(p.len() as int) == p
}

pub open spec fn finishes_with(s: Seq<char>, p: Seq<char>) -> bool {
    p.len() <= s.len() && s.skip(s.len() - p.len()) == p
}

/// The last position of `c` in `s`.
pub open spec fn last_index_of(s: Seq<char>, c: char) -> Option<int>
    decreases s.len(),
{
    if s.len() == 0 {
        None
    } else if s.last() == c {
        Some(s.len() - 1)
    } else {
        last_index_of(s.drop_last(), c)
    }
}

/// Length of the longest prefix of `s` free of whitespace.
pub open spec fn word_len(s: Seq<char>) -> nat
    decreases s.len(),
{
    if s.len() == 0 || is_ws(s[0]) {
        0
    } else {
        1 + word_len(s.drop_first())
    }
}

/// The whitespace-separated words of `s`, joined by single spaces
/// (`split_whitespace` followed by `join(" ")`). `started` records whether a
/// word has been emitted yet, `gap` whether whitespace followed it.
pub open spec fn joined_words_from(s: Seq<char>, started: bool, gap: bool) -> Seq<char>
    decreases s.len(),
{
    if s.len() == 0 {
        Seq::empty()
    } else if is_ws(s[0]) {
        joined_words_from(s.drop_first(), started, started)
    } else if gap {
        seq![' ', s[0]] + joined_words_from(s.drop_first(), true, false)
    } else {
        seq![s[0]] + joined_words_from(s.drop_first(), true, false)
    }
}

pub open spec fn joined_words(s: Seq<char>) -> Seq<char> {
    joined_words_from(s, false, false)
}

pub open spec fn is_digit(c: char) -> bool {
    '0' <= c && c <= '9'
}

pub open spec fn all_digits(s: Seq<char>) -> bool {
    forall|i: int| 0 <= i < s.len() ==> is_digit(#[trigger] s[i])
}

/// Length of the longest prefix of `s` made of ASCII digits.
pub open spec fn digit_run(s: Seq<char>) -> nat
    decreases s.len(),
{
    if s.len() == 0 || !is_digit(s[0]) {
        0
    } else {
        1 + digit_run(s.drop_first())
    }
}

pub open spec fn digit_value(c: char) -> nat {
    ((c as u32) - ('0' as u32)) as nat
}

/// The number a string of decimal digits denotes.
pub open spec fn decimal_value(s: Seq<char>) -> nat
    decreases s.len(),
{
    if s.len() == 0 {
        0
    } else {
        decimal_value(s.drop_last()) * 10 + digit_value(s.last())
    }
}

/// The shortest decimal spelling of `n`.
pub open spec fn decimal(n: nat) -> Seq<char>
    decreases n,
{
    if n < 10 {
        seq![digit_char(n)]
    } else {
        decimal(n / 10) + seq![digit_char(n % 10)]
    }
}

pub open spec fn digit_char(d: nat) -> char {
    if d == 0 { '0' } else if d == 1 { '1' } else if d == 2 { '2' } else if d == 3 { '3' }
    else if d == 4 { '4' } else if d == 5 { '5' } else if d == 6 { '6' } else if d == 7 { '7' }
    else if d == 8 { '8' } else { '9' }
}

// ---------------------------------------------------------------------------
// Lemmas
// ---------------------------------------------------------------------------

pub proof fn lemma_trimmed_start_skip(s: Seq<char>, k: int)
    requires
        0 <= k <= s.len(),
        forall|j: int| 0 <= j < k ==> is_ws(#[trigger] s[j]),
    ensures
        trimmed_start(s) == trimmed_start(s.skip(k)),
    decreases k,
{
    if k > 0 {
        assert(is_ws(s[0]));
        let t = s.drop_first();
        assert forall|j: int| 0 <= j < k - 1 implies is_ws(#[trigger] t[j]) by {
            assert(t[j] == s[j + 1]);
        }
        lemma_trimmed_start_skip(t, k - 1);
        assert(t.skip(k - 1) =~= s.skip(k));
    } else {
        assert(s.skip(0) =~= s);
    }
}

pub proof fn lemma_trimmed_end_take(s: Seq<char>, k: int)
    requires
        0 <= k <= s.len(),
        forall|j: int| k <= j < s.len() ==> is_ws(#[trigger] s[j]),
    ensures
        trimmed_end(s) == trimmed_end(s.take(k)),
    decreases s.len() - k,
{
    if k < s.len() {
        assert(is_ws(s.last()));
        let t = s.drop_last();
        assert forall|j: int| k <= j < t.len() implies is_ws(#[trigger] t[j]) by {
            assert(t[j] == s[j]);
        }
        lemma_trimmed_end_take(t, k);
        assert(t.take(k) =~= s.take(k));
    } else {
        assert(s.take(k) =~= s);
    }
}

pub proof fn lemma_last_index_of_bound(s: Seq<char>, c: char)
    ensures
        last_index_of(s, c) matches Some(k) ==> 0 <= k < s.len() && s[k] == c,
    decreases s.len(),
{
    if s.len() > 0 && s.last() != c {
        lemma_last_index_of_bound(s.drop_last(), c);
    }
}

pub proof fn lemma_digit_run_bound(s: Seq<char>)
    ensures
        digit_run(s) <= s.len(),
        all_digits(s.take(digit_run(s) as int)),
    decreases s.len(),
{
    if s.len() > 0 && is_digit(s[0]) {
        let t = s.drop_first();
        lemma_digit_run_bound(t);
        let k = digit_run(s) as int;
        assert forall|j: int| 0 <= j < k implies is_digit(#[trigger] s.take(k)[j]) by {
            if j > 0 {
                assert(s.take(k)[j] == t.take(k - 1)[j - 1]);
            }
        }
    } else {
        assert(s.take(0).len() == 0);
    }
}

pub proof fn lemma_word_len_bound(s: Seq<char>)
    ensures
        word_len(s) <= s.len(),
        forall|j: int| 0 <= j < word_len(s) ==> !is_ws(#[trigger] s[j]),
        word_len(s) < s.len() ==> is_ws(s[word_len(s) as int]),
    decreases s.len(),
{
    if s.len() > 0 && !is_ws(s[0]) {
        let t = s.drop_first();
        lemma_word_len_bound(t);
        assert forall|j: int| 0 <= j < word_len(s) implies !is_ws(#[trigger] s[j]) by {
            if j > 0 {
                assert(s[j] == t[j - 1]);
            }
        }
        if word_len(s) < s.len() {
            assert(s[word_len(s) as int] == t[word_len(t) as int]);
        }
    }
}

// ---------------------------------------------------------------------------
// Executable primitives
// ---------------------------------------------------------------------------

/// `char::is_whitespace`.
pub fn is_whitespace(c: char) -> (r: bool)
    ensures
        r == is_ws(c),
{
    let u = c as u32;
    (0x9 <= u && u <= 0xd) || u == 0x20 || u == 0x85 || u == 0xa0 || u == 0x1680 || (0x2000 <= u
        && u <= 0x200a) || u == 0x2028 || u == 0x2029 || u == 0x202f || u == 0x205f || u == 0x3000
}

/// Whether the two strings hold the same characters.
pub fn str_eq(a: &str, b: &str) -> (r: bool)
    ensures
        r == (a@ == b@),
{
    let n = a.unicode_len();
    if n != b.unicode_len() {
        return false;
    }
    let mut i: usize = 0;
    while i < n
        invariant
            n == a@.len(),
            n == b@.len(),
            i <= n,
            forall|j: int| 0 <= j < i ==> a@[j] == b@[j],
        decreases n - i,
    {
        if a.get_char(i) != b.get_char(i) {
            return false;
        }
        i = i + 1;
    }
    assert(a@ =~= b@);
    true
}

/// Index of the first non-whitespace character at or after `from`.
fn skip_ws(s: &str, from: usize) -> (k: usize)
    requires
        from <= s@.len(),
    ensures
        from <= k <= s@.len(),
        forall|j: int| from <= j < k ==> is_ws(#[trigger] s@[j]),
        k < s@.len() ==> !is_ws(s@[k as int]),
{
    let n = s.unicode_len();
    let mut k = from;
    while k < n
        invariant
            n == s@.len(),
            from <= k <= n,
            forall|j: int| from <= j < k ==> is_ws(#[trigger] s@[j]),
        decreases n - k,
    {
        if !is_whitespace(s.get_char(k)) {
            return k;
        }
        k = k + 1;
    }
    k
}

/// `str::trim`.
pub fn trim(s: &str) -> (r: &str)
    ensures
        r@ == trimmed(s@),
{
    let n = s.unicode_len();
    let lo = skip_ws(s, 0);
    proof {
        lemma_trimmed_start_skip(s@, lo as int);
        if lo < n {
            assert(trimmed_start(s@.skip(lo as int)) == s@.skip(lo as int));
        } else {
            assert(s@.skip(lo as int).len() == 0);
        }
    }
    let mut hi = n;
    while hi > lo
        invariant
            n == s@.len(),
            lo <= hi <= n,
            forall|j: int| hi <= j < n ==> is_ws(#[trigger] s@[j]),
        ensures
            lo <= hi <= n,
            forall|j: int| hi <= j < n ==> is_ws(#[trigger] s@[j]),
            hi == lo || !is_ws(s@[hi - 1]),
        decreases hi,
    {
        if !is_whitespace(s.get_char(hi - 1)) {
            break;
        }
        hi = hi - 1;
    }
    let ghost t = s@.skip(lo as int);
    proof {
        assert forall|j: int| hi - lo <= j < t.len() implies is_ws(#[trigger] t[j]) by {
            assert(t[j] == s@[j + lo]);
        }
        lemma_trimmed_end_take(t, hi - lo);
        let u = t.take(hi - lo);
        if hi > lo {
            assert(u.last() == s@[hi - 1]);
        }
        assert(trimmed_end(u) == u);
        assert(u =~= s@.subrange(lo as int, hi as int));
    }
    s.substring_char(lo, hi)
}

/// `str::trim_end`.
pub fn trim_end(s: &str) -> (r: &str)
    ensures
        r@ == trimmed_end(s@),
{
    let n = s.unicode_len();
    let mut hi = n;
    while hi > 0
        invariant
            n == s@.len(),
            hi <= n,
            forall|j: int| hi <= j < n ==> is_ws(#[trigger] s@[j]),
        ensures
            hi <= n,
            forall|j: int| hi <= j < n ==> is_ws(#[trigger] s@[j]),
            hi == 0 || !is_ws(s@[hi - 1]),
        decreases hi,
    {
        if !is_whitespace(s.get_char(hi - 1)) {
            break;
        }
        hi = hi - 1;
    }
    proof {
        lemma_trimmed_end_take(s@, hi as int);
        let u = s@.take(hi as int);
        if hi > 0 {
            assert(u.last() == s@[hi - 1]);
        }
        assert(trimmed_end(u) == u);
        assert(u =~= s@.subrange(0, hi as int));
    }
    s.substring_char(0, hi)
}


/// Whether `p` occurs in `s` at position `i`.
pub fn match_at(s: &str, p: &str, i: usize) -> (r: bool)
    ensures
        r == matches_at(s@, p@, i as int),
{
    let n = s.unicode_len();
    let m = p.unicode_len();
    if i > n || m > n - i {
        return false;
    }
    let mut j: usize = 0;
    while j < m
        invariant
            n == s@.len(),
            m == p@.len(),
            i + m <= n,
            j <= m,
            forall|k: int| 0 <= k < j ==> s@[i + k] == p@[k],
        decreases m - j,
    {
        if s.get_char(i + j) != p.get_char(j) {
            assert(s@.subrange(i as int, i + m)[j as int] != p@[j as int]);
            return false;
        }
        j = j + 1;
    }
    assert(s@.subrange(i as int, i + m) =~= p@);
    true
}

/// `str::find` from position `from`, counted in characters.
pub fn find_str_from(s: &str, p: &str, from: usize) -> (r: Option<usize>)
    ensures
        r matches Some(k) ==> find_from(s@, p@, from as int) == Some(k as int),
        r is None ==> find_from(s@, p@, from as int) is None,
{
    let n = s.unicode_len();
    let m = p.unicode_len();
    if m > n || from > n - m {
        return None;
    }
    let last = n - m;
    let mut i = from;
    loop
        invariant
            n == s@.len(),
            m == p@.len(),
            m <= n,
            last == n - m,
            from <= i <= last,
            find_from(s@, p@, from as int) == find_from(s@, p@, i as int),
        decreases last - i,
    {
        if match_at(s, p, i) {
            return Some(i);
        }
        if i == last {
            assert(find_from(s@, p@, i + 1) is None);
            return None;
        }
        i = i + 1;
    }
}

/// `str::find`, counted in characters.
pub fn find_str(s: &str, p: &str) -> (r: Option<usize>)
    ensures
        r matches Some(k) ==> find_first(s@, p@) == Some(k as int),
        r is None ==> find_first(s@, p@) is None,
{
    find_str_from(s, p, 0)
}

/// `str::contains` with a string pattern.
pub fn contains_str(s: &str, p: &str) -> (r: bool)
    ensures
        r == has_sub(s@, p@),
{
    find_str(s, p).is_some()
}

/// `str::contains` with a character pattern.
pub fn contains_char(s: &str, c: char) -> (r: bool)
    ensures
        r == s@.contains(c),
{
    let n = s.unicode_len();
    let mut i: usize = 0;
    while i < n
        invariant
            n == s@.len(),
            i <= n,
            forall|j: int| 0 <= j < i ==> s@[j] != c,
        decreases n - i,
    {
        if s.get_char(i) == c {
            return true;
        }
        i = i + 1;
    }
    false
}

/// `str::starts_with` with a string pattern.
pub fn starts_with_str(s: &str, p: &str) -> (r: bool)
    ensures
        r == begins_with(s@, p@),
{
    let r = match_at(s, p, 0);
    proof {
        if p@.len() <= s@.len() {
            assert(s@.subrange(0, p@.len() as int) =~= s@.take(p@.len() as int));
        }
    }
    r
}

/// `str::ends_with` with a string pattern.
pub fn ends_with_str(s: &str, p: &str) -> (r: bool)
    ensures
        r == finishes_with(s@, p@),
{
    let n = s.unicode_len();
    let m = p.unicode_len();
    if m > n {
        return false;
    }
    let r = match_at(s, p, n - m);
    proof {
        assert(s@.subrange(n - m, n as int) =~= s@.skip(n - m));
    }
    r
}

/// Whether the first character of `s` is `c`.
pub fn starts_with_char(s: &str, c: char) -> (r: bool)
    ensures
        r == (s@.len() > 0 && s@[0] == c),
{
    s.unicode_len() > 0 && s.get_char(0) == c
}

/// Whether the last character of `s` is `c`.
pub fn ends_with_char(s: &str, c: char) -> (r: bool)
    ensures
        r == (s@.len() > 0 && s@.last() == c),
{
    let n = s.unicode_len();
    n > 0 && s.get_char(n - 1) == c
}

/// `str::rfind` with a character pattern, counted in characters.
pub fn rfind_char(s: &str, c: char) -> (r: Option<usize>)
    ensures
        r matches Some(k) ==> last_index_of(s@, c) == Some(k as int) && k < s@.len(),
        r is None ==> last_index_of(s@, c) is None,
{
    proof {
        lemma_last_index_of_bound(s@, c);
    }
    let n = s.unicode_len();
    let mut i = n;
    assert(s@.take(n as int) =~= s@);
    while i > 0
        invariant
            n == s@.len(),
            i <= n,
            last_index_of(s@, c) == last_index_of(s@.take(i as int), c),
        decreases i,
    {
        let ghost t = s@.take(i as int);
        if s.get_char(i - 1) == c {
            assert(t.last() == s@[i - 1]);
            return Some(i - 1);
        }
        assert(t.drop_last() =~= s@.take(i - 1));
        i = i - 1;
    }
    None
}

/// Length of the longest whitespace-free prefix of `s` (the first word of a
/// string with no leading whitespace).
pub fn first_word_len(s: &str) -> (k: usize)
    ensures
        k == word_len(s@),
{
    let n = s.unicode_len();
    let mut k: usize = 0;
    assert(s@.skip(0) =~= s@);
    while k < n
        invariant
            n == s@.len(),
            k <= n,
            word_len(s@) == k + word_len(s@.skip(k as int)),
        decreases n - k,
    {
        let ghost t = s@.skip(k as int);
        if is_whitespace(s.get_char(k)) {
            assert(t[0] == s@[k as int]);
            return k;
        }
        assert(t[0] == s@[k as int]);
        assert(t.drop_first() =~= s@.skip(k + 1));
        k = k + 1;
    }
    assert(s@.skip(k as int).len() == 0);
    k
}

/// Whether `s` is made only of ASCII digits.
pub fn is_all_digits(s: &str) -> (r: bool)
    ensures
        r == all_digits(s@),
{
    let n = s.unicode_len();
    let mut i: usize = 0;
    while i < n
        invariant
            n == s@.len(),
            i <= n,
            forall|j: int| 0 <= j < i ==> is_digit(#[trigger] s@[j]),
        decreases n - i,
    {
        let c = s.get_char(i);
        if !('0' <= c && c <= '9') {
            return false;
        }
        i = i + 1;
    }
    true
}

/// Length of the run of ASCII digits that starts `s`.
pub fn digit_prefix_len(s: &str) -> (k: usize)
    ensures
        k == digit_run(s@),
{
    let n = s.unicode_len();
    let mut k: usize = 0;
    assert(s@.skip(0) =~= s@);
    while k < n
        invariant
            n == s@.len(),
            k <= n,
            digit_run(s@) == k + digit_run(s@.skip(k as int)),
        decreases n - k,
    {
        let ghost t = s@.skip(k as int);
        let c = s.get_char(k);
        assert(t[0] == s@[k as int]);
        if !('0' <= c && c <= '9') {
            return k;
        }
        assert(t.drop_first() =~= s@.skip(k + 1));
        k = k + 1;
    }
    assert(s@.skip(k as int).len() == 0);
    k
}


pub proof fn lemma_decimal_value_grows(s: Seq<char>, j: int)
    requires
        0 <= j <= s.len(),
    ensures
        decimal_value(s.take(j)) <= decimal_value(s),
    decreases s.len() - j,
{
    if j < s.len() {
        assert(s.drop_last().take(j) =~= s.take(j));
        lemma_decimal_value_grows(s.drop_last(), j);
    } else {
        assert(s.take(j) =~= s);
    }
}

/// The value of a string of ASCII digits, when it fits in a `usize`.
pub fn decimal_of(s: &str) -> (r: Option<usize>)
    requires
        all_digits(s@),
    ensures
        r matches Some(v) ==> v == decimal_value(s@),
        r is None <==> decimal_value(s@) > usize::MAX,
{
    let n = s.unicode_len();
    let mut v: usize = 0;
    let mut i: usize = 0;
    assert(s@.take(0) =~= Seq::<char>::empty());
    while i < n
        invariant
            n == s@.len(),
            i <= n,
            all_digits(s@),
            v == decimal_value(s@.take(i as int)),
        decreases n - i,
    {
        let c = s.get_char(i);
        assert(is_digit(s@[i as int]));
        let d = (c as u32 - '0' as u32) as usize;
        let ghost t = s@.take(i + 1);
        assert(t.drop_last() =~= s@.take(i as int));
        assert(t.last() == c);
        if v > (usize::MAX - d) / 10 {
            proof {
                assert(decimal_value(t) == v * 10 + d);
                assert(v * 10 + d > usize::MAX) by (nonlinear_arith)
                    requires
                        v > (usize::MAX - d) / 10,
                        d <= 9,
                ;
                lemma_decimal_value_grows(s@, i + 1);
            }
            return None;
        }
        proof {
            assert(v * 10 + d <= usize::MAX) by (nonlinear_arith)
                requires
                    v <= (usize::MAX - d) / 10,
                    d <= 9,
            ;
        }
        v = v * 10 + d;
        i = i + 1;
    }
    assert(s@.take(n as int) =~= s@);
    Some(v)
}

/// What `u32::from_str` accepts: an optional `+`, then at least one ASCII
/// digit, with a value that fits.
pub open spec fn parsed_u32(s: Seq<char>) -> Option<u32> {
    let body = if s.len() > 0 && s[0] == '+' { s.skip(1) } else { s };
    if body.len() > 0 && all_digits(body) && decimal_value(body) <= u32::MAX {
        Some(decimal_value(body) as u32)
    } else {
        None
    }
}

/// `u32::from_str`.
pub fn parse_u32(s: &str) -> (r: Option<u32>)
    ensures
        r == parsed_u32(s@),
{
    let n = s.unicode_len();
    let body = if n > 0 && s.get_char(0) == '+' {
        s.substring_char(1, n)
    } else {
        s.substring_char(0, n)
    };
    proof {
        if n > 0 && s@[0] == '+' {
            assert(body@ =~= s@.skip(1));
        } else {
            assert(body@ =~= s@);
        }
    }
    if body.unicode_len() == 0 || !is_all_digits(body) {
        return None;
    }
    match decimal_of(body) {
        Some(v) => {
            if v <= u32::MAX as usize {
                Some(v as u32)
            } else {
                None
            }
        },
        None => None,
    }
}

/// The single character `c` as a string.
pub fn char_string(s: &str, i: usize) -> (r: String)
    requires
        i < s@.len(),
    ensures
        r@ == seq![s@[i as int]],
{
    let _n = s.unicode_len();
    let t = s.substring_char(i, i + 1);
    assert(t@ =~= seq![s@[i as int]]);
    String::from_str(t)
}

/// The characters of `s` from `lo` to `hi` as an owned string.
pub fn substring(s: &str, lo: usize, hi: usize) -> (r: String)
    requires
        lo <= hi <= s@.len(),
    ensures
        r@ == s@.subrange(lo as int, hi as int),
{
    String::from_str(s.substring_char(lo, hi))
}

/// An owned copy of `s`.
pub fn owned(s: &str) -> (r: String)
    ensures
        r@ == s@,
{
    String::from_str(s)
}

/// The digit `d` as a one-character string.
fn digit_string(d: u64) -> (r: String)
    requires
        d < 10,
    ensures
        r@ == seq![digit_char(d as nat)],
{
    let digits = "0123456789";
    proof {
        reveal_strlit("0123456789");
    }
    let r = char_string(digits, d as usize);
    proof {
        assert(digits@[d as int] == digit_char(d as nat));
    }
    r
}

/// The decimal spelling of `n`, as `format!("{n}")` writes it.
pub fn decimal_string(n: u64) -> (r: String)
    ensures
        r@ == decimal(n as nat),
    decreases n,
{
    if n < 10 {
        digit_string(n)
    } else {
        let mut r = decimal_string(n / 10);
        let d = digit_string(n % 10);
        r.append(d.as_str());
        r
    }
}

/// The words of `s` joined by single spaces, as
/// `s.split_whitespace().collect::<Vec<_>>().join(" ")` gives them.
pub fn join_words(s: &str) -> (r: String)
    ensures
        r@ == joined_words(s@),
{
    let n = s.unicode_len();
    let mut out = String::new();
    let mut started = false;
    let mut gap = false;
    let mut i: usize = 0;
    assert(s@.skip(0) =~= s@);
    while i < n
        invariant
            n == s@.len(),
            i <= n,
            !started ==> !gap,
            out@ + joined_words_from(s@.skip(i as int), started, gap) == joined_words(s@),
        decreases n - i,
    {
        let ghost t = s@.skip(i as int);
        let c = s.get_char(i);
        assert(t[0] == c);
        assert(t.drop_first() =~= s@.skip(i + 1));
        if is_whitespace(c) {
            gap = started;
        } else {
            if gap {
                out.append(" ");
                proof {
                    reveal_strlit(" ");
                }
            }
            let cs = char_string(s, i);
            out.append(cs.as_str());
            proof {
                if gap {
                    assert(out@ =~= (out@.take(out@.len() - 2)) + seq![' ', c]);
                }
            }
            started = true;
            gap = false;
        }
        proof {
            assert(out@ + joined_words_from(s@.skip(i + 1), started, gap) =~= joined_words(s@));
        }
        i = i + 1;
    }
    assert(s@.skip(n as int) =~= Seq::<char>::empty());
    assert(out@ =~= joined_words(s@));
    out
}


/// A line as `str::lines` yields it: a `\r` before the line feed dropped.
pub open spec fn strip_cr(l: Seq<char>) -> Seq<char> {
    if l.len() > 0 && l.last() == '\r' {
        l.drop_last()
    } else {
        l
    }
}

/// `str::lines`, with `cur` the part of a line already read: lines end at
/// `\n` (a `\r` just before it dropped), and a last line without one counts
/// only when it is not empty.
pub open spec fn lines_from(s: Seq<char>, cur: Seq<char>) -> Seq<Seq<char>>
    decreases s.len(),
{
    if s.len() == 0 {
        if cur.len() > 0 {
            seq![cur]
        } else {
            Seq::empty()
        }
    } else if s[0] == '\n' {
        seq![strip_cr(cur)] + lines_from(s.drop_first(), Seq::empty())
    } else {
        lines_from(s.drop_first(), cur.push(s[0]))
    }
}

pub open spec fn text_lines(s: Seq<char>) -> Seq<Seq<char>> {
    lines_from(s, Seq::empty())
}

pub open spec fn strings_view(v: Seq<String>) -> Seq<Seq<char>> {
    v.map_values(|l: String| l@)
}

/// `String::push`: appends `c` to the end of `s`, as its documentation says.
#[verifier::external_body]
pub(crate) fn push_char(s: &mut String, c: char)
    ensures
        final(s)@ == old(s)@.push(c),
{
    s.push(c)
}

/// The line being read, with a `\r` that has been seen but not yet kept.
pub open spec fn pending_line(cur: Seq<char>, cr: bool) -> Seq<char> {
    if cr {
        cur.push('\r')
    } else {
        cur
    }
}

/// `str::lines`, each line owned. One pass over the characters.
pub fn split_lines(s: &str) -> (r: Vec<String>)
    ensures
        strings_view(r@) == text_lines(s@),
{
    let mut out: Vec<String> = Vec::new();
    let mut cur = String::new();
    let mut cr = false;
    assert(strings_view(out@) =~= Seq::<Seq<char>>::empty());
    assert(s@.skip(0) =~= s@);
    assert(pending_line(cur@, cr) =~= Seq::<char>::empty());
    for c in iter: s.chars()
        invariant
            iter.seq() == s@,
            !cr ==> cur@.len() == 0 || cur@.last() != '\r',
            strings_view(out@) + lines_from(s@.skip(iter.index()), pending_line(cur@, cr)) == text_lines(s@),
    {
        let ghost rest = s@.skip(iter.index());
        let ghost before = pending_line(cur@, cr);
        assert(rest[0] == c);
        assert(rest.drop_first() =~= s@.skip(iter.index() + 1));
        if c == '\n' {
            let ghost old_view = strings_view(out@);
            assert(strip_cr(before) == cur@) by {
                if cr {
                    assert(before.drop_last() =~= cur@);
                }
            }
            out.push(cur);
            cur = String::new();
            cr = false;
            assert(strings_view(out@) =~= old_view.push(strip_cr(before)));
            assert(old_view.push(strip_cr(before)) + lines_from(s@.skip(iter.index() + 1), Seq::empty())
                =~= old_view + (seq![strip_cr(before)] + lines_from(s@.skip(iter.index() + 1), Seq::empty())));
            assert(pending_line(cur@, cr) =~= Seq::<char>::empty());
        } else {
            if cr {
                push_char(&mut cur, '\r');
            }
            if c == '\r' {
                cr = true;
            } else {
                cr = false;
                push_char(&mut cur, c);
            }
            assert(pending_line(cur@, cr) =~= before.push(c));
        }
    }
    assert(s@.skip(s@.len() as int) =~= Seq::<char>::empty());
    if cr {
        push_char(&mut cur, '\r');
    }
    if cur.as_str().unicode_len() > 0 {
        let ghost old_view = strings_view(out@);
        out.push(cur);
        assert(strings_view(out@) =~= old_view + seq![cur@]);
    } else {
        assert(strings_view(out@) + Seq::<Seq<char>>::empty() =~= strings_view(out@));
    }
    out
}

/// The parts joined with `sep` between each two.
pub open spec fn joined(parts: Seq<Seq<char>>, sep: Seq<char>) -> Seq<char>
    decreases parts.len(),
{
    if parts.len() == 0 {
        Seq::empty()
    } else if parts.len() == 1 {
        parts[0]
    } else {
        joined(parts.drop_last(), sep) + sep + parts.last()
    }
}

/// `parts.join(sep)`.
pub fn join(parts: &[String], sep: &str) -> (r: String)
    ensures
        r@ == joined(strings_view(parts@), sep@),
{
    let n = parts.len();
    let mut out = String::new();
    let mut i: usize = 0;
    let ghost pv = strings_view(parts@);
    assert(pv.take(0) =~= Seq::<Seq<char>>::empty());
    while i < n
        invariant
            n == parts@.len(),
            pv == strings_view(parts@),
            i <= n,
            out@ == joined(pv.take(i as int), sep@),
        decreases n - i,
    {
        let ghost t = pv.take(i + 1);
        assert(t.drop_last() =~= pv.take(i as int));
        if i > 0 {
            out.append(sep);
        }
        out.append(parts[i].as_str());
        proof {
            if i == 0 {
                assert(out@ =~= t[0]);
            }
        }
        i = i + 1;
    }
    assert(pv.take(n as int) =~= pv);
    out
}


/// `char::is_alphanumeric` of `c`: whether it has the Unicode `Alphabetic`
/// or `Numeric` property.
pub uninterp spec fn unicode_alphanumeric(c: char) -> bool;

/// `char::is_alphanumeric`. Claimed: its result is a function of `c` alone,
/// named `unicode_alphanumeric`; the Unicode tables behind it are not
/// written out.
#[verifier::external_body]
pub(crate) fn is_alphanumeric(c: char) -> (r: bool)
    ensures
        r == unicode_alphanumeric(c),
{
    c.is_alphanumeric()
}

/// `String::from_utf8_lossy(bytes)`: the bytes read as UTF-8, each invalid
/// sequence replaced by U+FFFD.
pub uninterp spec fn utf8_lossy(bytes: Seq<u8>) -> Seq<char>;

/// `String::from_utf8_lossy`, made owned. Claimed: the result is
/// `utf8_lossy(bytes)`, and, as its documentation says, the bytes decoded
/// unchanged when they are valid UTF-8.
#[verifier::external_body]
pub(crate) fn lossy_text(bytes: &[u8]) -> (r: String)
    ensures
        r@ == utf8_lossy(bytes@),
        valid_utf8(bytes@) ==> r@ == decode_utf8(bytes@),
{
    String::from_utf8_lossy(bytes).into_owned()
}

/// `str::to_lowercase` of `s`: each character replaced by its Unicode
/// lowercase mapping.
pub uninterp spec fn lowercase(s: Seq<char>) -> Seq<char>;

/// `str::to_lowercase`. Claimed: the result is `lowercase(s)`, a function of
/// `s` alone; the Unicode case tables behind it are not written out.
#[verifier::external_body]
pub(crate) fn to_lowercase(s: &str) -> (r: String)
    ensures
        r@ == lowercase(s@),
{
    s.to_lowercase()
}

} // verus!
