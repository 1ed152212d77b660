//! Character-sequence helpers shared by the text-processing modules.
//!
//! Every function here works on `Seq<char>` in its specification and on
//! `Vec<char>` in executable code; strings enter through `chars_of` and leave
//! through `string_of`.

use vstd::prelude::*;

verus! {

// ───────────────────────────── specifications ─────────────────────────────

/// `char::is_whitespace`: the Unicode `White_Space` property.
pub open spec fn is_ws(c: char) -> bool {
    ||| c == ' '
    ||| ('\t' <= c && c <= '\r')
    ||| c == '\u{85}'
    ||| c == '\u{a0}'
    ||| c == '\u{1680}'
    ||| ('\u{2000}' <= c && c <= '\u{200a}')
    ||| c == '\u{2028}'
    ||| c == '\u{2029}'
    ||| c == '\u{202f}'
    ||| c == '\u{205f}'
    ||| c == '\u{3000}'
}

/// `str::trim_start`.
pub open spec fn trim_start(s: Seq<char>) -> Seq<char>
    decreases s.len(),
{
    if s.len() > 0 && is_ws(s[0]) {
        trim_start(s.drop_first())
    } else {
        s
    }
}

/// `str::trim_end`.
pub open spec fn trim_end(s: Seq<char>) -> Seq<char>
    decreases s.len(),
{
    if s.len() > 0 && is_ws(s.last()) {
        trim_end(s.drop_last())
    } else {
        s
    }
}

/// `str::trim`.
pub open spec fn trim(s: Seq<char>) -> Seq<char> {
    trim_end(trim_start(s))
}

/// `p` occurs in `s` starting at index `i`.
pub open spec fn occurs_at(s: Seq<char>, p: Seq<char>, i: int) -> bool {
    0 <= i && i + p.len() <= s.len() && s.subrange(i, i + p.len()) == p
}

/// `str::starts_with`.
pub open spec fn starts_with(s: Seq<char>, p: Seq<char>) -> bool {
    occurs_at(s, p, 0)
}

/// `str::ends_with`.
pub open spec fn ends_with(s: Seq<char>, p: Seq<char>) -> bool {
    occurs_at(s, p, s.len() - p.len())
}

/// `str::contains`.
pub open spec fn contains(s: Seq<char>, p: Seq<char>) -> bool {
    exists|i: int| occurs_at(s, p, i)
}

/// The first occurrence of `p` in `s` at or after `i`.
pub open spec fn find_from(s: Seq<char>, p: Seq<char>, i: int) -> Option<int>
    decreases s.len() - i,
{
    if i < 0 || i + p.len() > s.len() {
        None
    } else if occurs_at(s, p, i) {
        Some(i)
    } else if i >= s.len() {
        None
    } else {
        find_from(s, p, i + 1)
    }
}

/// `str::find`.
pub open spec fn find(s: Seq<char>, p: Seq<char>) -> Option<int> {
    find_from(s, p, 0)
}

/// `str::strip_prefix`: what follows `p`, when `s` starts with it.
pub open spec fn after_prefix(s: Seq<char>, p: Seq<char>) -> Seq<char> {
    s.subrange(p.len() as int, s.len() as int)
}

/// Drop a trailing `'\r'`.
pub open spec fn strip_cr(s: Seq<char>) -> Seq<char> {
    if s.len() > 0 && s.last() == '\r' {
        s.drop_last()
    } else {
        s
    }
}

/// Index of the first `c` in `s` at or after `i`, or `s.len()` when there is none.
pub open spec fn index_of_char_from(s: Seq<char>, c: char, i: int) -> int
    decreases s.len() - i,
{
    if i < 0 || i >= s.len() {
        s.len() as int
    } else if s[i] == c {
        i
    } else {
        index_of_char_from(s, c, i + 1)
    }
}

/// `str::lines`: split at `'\n'`, dropping one `'\r'` before each `'\n'`;
/// a final line ending is optional and the empty string has no lines.
pub open spec fn lines(s: Seq<char>) -> Seq<Seq<char>>
    decreases s.len(),
{
    if s.len() == 0 {
        Seq::empty()
    } else {
        let i = index_of_char_from(s, '\n', 0);
        if i >= s.len() {
            seq![s]
        } else {
            proof {
                lemma_index_of_char_from_bounds(s, '\n', 0);
            }
            seq![strip_cr(s.subrange(0, i))] + lines(s.subrange(i + 1, s.len() as int))
        }
    }
}

/// Each line followed by `'\n'`.
pub open spec fn join_nl(ls: Seq<Seq<char>>) -> Seq<char>
    decreases ls.len(),
{
    if ls.len() == 0 {
        Seq::empty()
    } else {
        ls[0] + seq!['\n'] + join_nl(ls.drop_first())
    }
}

/// `Vec::join("\n")` on strings.
pub open spec fn join_sep_nl(ls: Seq<Seq<char>>) -> Seq<char>
    decreases ls.len(),
{
    if ls.len() == 0 {
        Seq::empty()
    } else if ls.len() == 1 {
        ls[0]
    } else {
        ls[0] + seq!['\n'] + join_sep_nl(ls.drop_first())
    }
}

/// `str::replace(from, to)`: left-to-right, non-overlapping.
pub open spec fn replace_all(s: Seq<char>, from: Seq<char>, to: Seq<char>) -> Seq<char>
    decreases s.len(),
{
    if from.len() == 0 {
        if s.len() == 0 {
            to
        } else {
            to + seq![s[0]] + replace_all(s.drop_first(), from, to)
        }
    } else if s.len() == 0 {
        s
    } else if starts_with(s, from) {
        to + replace_all(s.subrange(from.len() as int, s.len() as int), from, to)
    } else {
        seq![s[0]] + replace_all(s.drop_first(), from, to)
    }
}

/// Replace every `from` character by `to`.
pub open spec fn replace_char(s: Seq<char>, from: char, to: Seq<char>) -> Seq<char>
    decreases s.len(),
{
    if s.len() == 0 {
        s
    } else if s[0] == from {
        to + replace_char(s.drop_first(), from, to)
    } else {
        seq![s[0]] + replace_char(s.drop_first(), from, to)
    }
}

/// The leading whitespace of `s`.
pub open spec fn leading_ws(s: Seq<char>) -> Seq<char>
    decreases s.len(),
{
    if s.len() > 0 && is_ws(s[0]) {
        seq![s[0]] + leading_ws(s.drop_first())
    } else {
        Seq::empty()
    }
}

/// `str::trim_end_matches(c)` for a single character.
pub open spec fn trim_end_char(s: Seq<char>, c: char) -> Seq<char>
    decreases s.len(),
{
    if s.len() > 0 && s.last() == c {
        trim_end_char(s.drop_last(), c)
    } else {
        s
    }
}

/// `str::trim_start_matches(p)` for a string pattern.
pub open spec fn trim_start_str(s: Seq<char>, p: Seq<char>) -> Seq<char>
    decreases s.len(),
{
    if p.len() > 0 && starts_with(s, p) {
        trim_start_str(after_prefix(s, p), p)
    } else {
        s
    }
}

/// `str::split_whitespace`.
pub open spec fn words(s: Seq<char>) -> Seq<Seq<char>>
    decreases s.len(),
{
    let t = trim_start(s);
    if t.len() == 0 {
        Seq::empty()
    } else {
        let w = word_prefix(t);
        proof {
            lemma_trim_start_len(s);
            lemma_word_prefix_nonempty(t);
        }
        seq![w] + words(t.subrange(w.len() as int, t.len() as int))
    }
}

/// The longest prefix of `s` without whitespace.
pub open spec fn word_prefix(s: Seq<char>) -> Seq<char>
    decreases s.len(),
{
    if s.len() > 0 && !is_ws(s[0]) {
        seq![s[0]] + word_prefix(s.drop_first())
    } else {
        Seq::empty()
    }
}

/// The first whitespace-separated word of `s`, if any.
pub open spec fn first_word(s: Seq<char>) -> Option<Seq<char>> {
    let w = words(s);
    if w.len() > 0 {
        Some(w[0])
    } else {
        None
    }
}

/// `c.is_ascii_digit()`.
pub open spec fn is_digit(c: char) -> bool {
    '0' <= c && c <= '9'
}

/// `c.is_ascii_alphanumeric()`.
pub open spec fn is_ascii_alnum(c: char) -> bool {
    ||| is_digit(c)
    ||| ('a' <= c && c <= 'z')
    ||| ('A' <= c && c <= 'Z')
}

/// The value of a run of decimal digits.
pub open spec fn digits_value(s: Seq<char>) -> nat
    decreases s.len(),
{
    if s.len() == 0 {
        0
    } else {
        digits_value(s.drop_last()) * 10 + ((s.last() as int - '0' as int) as nat)
    }
}

/// All characters of `s` are decimal digits.
pub open spec fn all_digits(s: Seq<char>) -> bool {
    forall|i: int| 0 <= i < s.len() ==> is_digit(#[trigger] s[i])
}

/// What `str::parse::<u64>` accepts, with an upper bound: an optional `'+'`
/// followed by one or more decimal digits whose value is at most `max`.
pub open spec fn parse_uint(s: Seq<char>, max: nat) -> Option<nat> {
    let d = if s.len() > 0 && s[0] == '+' { s.drop_first() } else { s };
    if d.len() > 0 && all_digits(d) && digits_value(d) <= max {
        Some(digits_value(d))
    } else {
        None
    }
}

/// `str::parse::<u16>`.
pub open spec fn parse_u16(s: Seq<char>) -> Option<u16> {
    match parse_uint(s, 0xffff) {
        Some(n) => Some(n as u16),
        None => None,
    }
}

/// `str::parse::<u32>`.
pub open spec fn parse_u32(s: Seq<char>) -> Option<u32> {
    match parse_uint(s, 0xffff_ffff) {
        Some(n) => Some(n as u32),
        None => None,
    }
}

/// The decimal digit for `d < 10`.
pub open spec fn digit_char(d: nat) -> char {
    ((d + 48) as u8) as char
}

/// The views of a sequence of character vectors.
pub open spec fn views(v: Seq<Vec<char>>) -> Seq<Seq<char>> {
    v.map_values(|x: Vec<char>| x@)
}

/// `n.to_string()` for an unsigned integer.
pub open spec fn decimal(n: nat) -> Seq<char>
    decreases n,
{
    if n < 10 {
        seq![digit_char(n)]
    } else {
        decimal(n / 10) + seq![digit_char(n % 10)]
    }
}

// ───────────────────────────── lemmas ─────────────────────────────

pub proof fn lemma_index_of_char_from_bounds(s: Seq<char>, c: char, i: int)
    requires
        0 <= i,
    ensures
        ({
            let j = index_of_char_from(s, c, i);
            &&& (i <= s.len() ==> i <= j)
            &&& j <= s.len()
            &&& j < s.len() ==> s[j] == c
            &&& forall|k: int| i <= k < j ==> s[k] != c
        }),
    decreases s.len() - i,
{
    if i < s.len() && s[i] != c {
        lemma_index_of_char_from_bounds(s, c, i + 1);
    }
}

pub proof fn lemma_trim_start_len(s: Seq<char>)
    ensures
        trim_start(s).len() <= s.len(),
        trim_start(s) == s.subrange(s.len() - trim_start(s).len(), s.len() as int),
        trim_start(s).len() > 0 ==> !is_ws(trim_start(s)[0]),
    decreases s.len(),
{
    if s.len() > 0 && is_ws(s[0]) {
        lemma_trim_start_len(s.drop_first());
        assert(s.drop_first().subrange(
            s.drop_first().len() - trim_start(s).len(),
            s.drop_first().len() as int,
        ) =~= s.subrange(s.len() - trim_start(s).len(), s.len() as int));
    } else {
        assert(s.subrange(0, s.len() as int) =~= s);
    }
}

pub proof fn lemma_word_prefix_nonempty(s: Seq<char>)
    requires
        s.len() > 0,
        !is_ws(s[0]),
    ensures
        word_prefix(s).len() > 0,
        word_prefix(s).len() <= s.len(),
        word_prefix(s) == s.subrange(0, word_prefix(s).len() as int),
{
    lemma_word_prefix_len(s);
}

pub proof fn lemma_word_prefix_len(s: Seq<char>)
    ensures
        word_prefix(s).len() <= s.len(),
        word_prefix(s) == s.subrange(0, word_prefix(s).len() as int),
        forall|i: int| 0 <= i < word_prefix(s).len() ==> !is_ws(#[trigger] s[i]),
        word_prefix(s).len() < s.len() ==> is_ws(s[word_prefix(s).len() as int]),
    decreases s.len(),
{
    if s.len() > 0 && !is_ws(s[0]) {
        lemma_word_prefix_len(s.drop_first());
        assert(word_prefix(s) =~= s.subrange(0, word_prefix(s).len() as int));
        assert forall|i: int| 0 <= i < word_prefix(s).len() implies !is_ws(#[trigger] s[i]) by {
            if i > 0 {
                assert(s[i] == s.drop_first()[i - 1]);
            }
        }
    } else {
        assert(word_prefix(s) =~= s.subrange(0, 0));
    }
}


// ───────────────────────────── executable helpers ─────────────────────────────

/// `String::push`.
#[verifier::external_body]
fn push_char(s: &mut String, c: char)
    ensures
        final(s)@ == old(s)@.push(c),
{
    s.push(c);
}

/// What `str::to_lowercase` gives for `s` (Unicode lower-case mapping).
pub uninterp spec fn lowercase(s: Seq<char>) -> Seq<char>;

/// Every character of `s` is ASCII.
pub open spec fn is_ascii_text(s: Seq<char>) -> bool {
    forall|i: int| 0 <= i < s.len() ==> (#[trigger] s[i] as u32) < 128
}

/// The lower-case of an ASCII character: `'A'..='Z'` become `'a'..='z'`,
/// every other character stays.
pub open spec fn ascii_lower_char(c: char) -> char {
    if 'A' <= c && c <= 'Z' {
        ((c as u32) + 32) as char
    } else {
        c
    }
}

/// The ASCII lower-case of every character of `s`.
pub open spec fn ascii_lower(s: Seq<char>) -> Seq<char> {
    s.map_values(|c: char| ascii_lower_char(c))
}

/// `str::to_lowercase`. Trusted: the result is the lower-case mapping of
/// `s`, a function of `s` alone, named `lowercase`; on ASCII text it is the
/// ASCII mapping of each character (Unicode lower-cases `'A'..='Z'` to
/// `'a'..='z'` and leaves the other ASCII characters). The tables for the
/// other characters are not stated.
#[verifier::external_body]
pub(crate) fn to_lowercase(s: &str) -> (r: String)
    ensures
        r@ == lowercase(s@),
        is_ascii_text(s@) ==> r@ == ascii_lower(s@),
{
    s.to_lowercase()
}

/// The characters of `s`, in order.
pub fn chars_of(s: &str) -> (v: Vec<char>)
    ensures
        v@ == s@,
{
    let mut v: Vec<char> = Vec::new();
    for c in it: s.chars()
        invariant
            v@ == it.seq().take(it.index() as int),
    {
        v.push(c);
    }
    v
}

/// The string made of the characters of `v`.
pub fn string_of(v: &Vec<char>) -> (s: String)
    ensures
        s@ == v@,
{
    let mut s = String::new();
    let mut i: usize = 0;
    while i < v.len()
        invariant
            i <= v.len(),
            s@ == v@.subrange(0, i as int),
        decreases v.len() - i,
    {
        push_char(&mut s, v[i]);
        i = i + 1;
        assert(s@ =~= v@.subrange(0, i as int));
    }
    assert(v@.subrange(0, v.len() as int) =~= v@);
    s
}

/// Append the characters of `src` to `out`.
pub fn push_all(out: &mut Vec<char>, src: &Vec<char>)
    ensures
        final(out)@ == old(out)@ + src@,
{
    let ghost start = out@;
    let mut i: usize = 0;
    while i < src.len()
        invariant
            i <= src.len(),
            out@ == start + src@.subrange(0, i as int),
        decreases src.len() - i,
    {
        out.push(src[i]);
        i = i + 1;
        assert(out@ =~= start + src@.subrange(0, i as int));
    }
    assert(src@.subrange(0, src.len() as int) =~= src@);
}

/// Append the characters of `s` to `out`.
pub fn push_str(out: &mut Vec<char>, s: &str)
    ensures
        final(out)@ == old(out)@ + s@,
{
    let v = chars_of(s);
    push_all(out, &v);
}

/// The characters of `v` from `a` up to `b`.
pub fn slice(v: &Vec<char>, a: usize, b: usize) -> (r: Vec<char>)
    requires
        a <= b <= v.len(),
    ensures
        r@ == v@.subrange(a as int, b as int),
{
    let mut r: Vec<char> = Vec::new();
    let mut i = a;
    while i < b
        invariant
            a <= i <= b <= v.len(),
            r@ == v@.subrange(a as int, i as int),
        decreases b - i,
    {
        r.push(v[i]);
        i = i + 1;
        assert(r@ =~= v@.subrange(a as int, i as int));
    }
    r
}

/// `char::is_whitespace`.
pub fn is_ws_char(c: char) -> (b: bool)
    ensures
        b == is_ws(c),
{
    c == ' ' || ('\t' <= c && c <= '\r') || c == '\u{85}' || c == '\u{a0}' || c == '\u{1680}'
        || ('\u{2000}' <= c && c <= '\u{200a}') || c == '\u{2028}' || c == '\u{2029}'
        || c == '\u{202f}' || c == '\u{205f}' || c == '\u{3000}'
}

/// Index at which `trim_start` of `v[lo..hi]` begins.
fn trim_start_index(v: &Vec<char>, lo: usize, hi: usize) -> (k: usize)
    requires
        lo <= hi <= v.len(),
    ensures
        lo <= k <= hi,
        trim_start(v@.subrange(lo as int, hi as int)) == v@.subrange(k as int, hi as int),
{
    let mut k = lo;
    while k < hi && is_ws_char(v[k])
        invariant
            lo <= k <= hi <= v.len(),
            trim_start(v@.subrange(lo as int, hi as int)) == trim_start(
                v@.subrange(k as int, hi as int),
            ),
        decreases hi - k,
    {
        assert(v@.subrange(k as int, hi as int).drop_first() =~= v@.subrange(k + 1, hi as int));
        k = k + 1;
    }
    k
}

/// Index at which `trim_end` of `v[lo..hi]` ends.
fn trim_end_index(v: &Vec<char>, lo: usize, hi: usize) -> (m: usize)
    requires
        lo <= hi <= v.len(),
    ensures
        lo <= m <= hi,
        trim_end(v@.subrange(lo as int, hi as int)) == v@.subrange(lo as int, m as int),
{
    let mut m = hi;
    while m > lo && is_ws_char(v[m - 1])
        invariant
            lo <= m <= hi <= v.len(),
            trim_end(v@.subrange(lo as int, hi as int)) == trim_end(
                v@.subrange(lo as int, m as int),
            ),
        decreases m - lo,
    {
        assert(v@.subrange(lo as int, m as int).drop_last() =~= v@.subrange(lo as int, m - 1));
        m = m - 1;
    }
    m
}

/// `str::trim`, as a range of `v`.
pub fn trim_range(v: &Vec<char>) -> (r: (usize, usize))
    ensures
        r.0 <= r.1 <= v.len(),
        trim(v@) == v@.subrange(r.0 as int, r.1 as int),
{
    assert(v@.subrange(0, v.len() as int) =~= v@);
    let a = trim_start_index(v, 0, v.len());
    let b = trim_end_index(v, a, v.len());
    (a, b)
}

/// `str::trim`.
pub fn trim_vec(v: &Vec<char>) -> (r: Vec<char>)
    ensures
        r@ == trim(v@),
{
    let (a, b) = trim_range(v);
    slice(v, a, b)
}

/// `str::trim_start`.
pub fn trim_start_vec(v: &Vec<char>) -> (r: Vec<char>)
    ensures
        r@ == trim_start(v@),
{
    assert(v@.subrange(0, v.len() as int) =~= v@);
    let a = trim_start_index(v, 0, v.len());
    slice(v, a, v.len())
}

/// `str::trim_end`.
pub fn trim_end_vec(v: &Vec<char>) -> (r: Vec<char>)
    ensures
        r@ == trim_end(v@),
{
    assert(v@.subrange(0, v.len() as int) =~= v@);
    let b = trim_end_index(v, 0, v.len());
    slice(v, 0, b)
}

/// Whether `p` occurs in `s` at index `i`.
pub fn occurs_at_exec(s: &Vec<char>, p: &Vec<char>, i: usize) -> (b: bool)
    ensures
        b == occurs_at(s@, p@, i as int),
{
    if i > s.len() || p.len() > s.len() - i {
        return false;
    }
    let mut k: usize = 0;
    while k < p.len()
        invariant
            i + p.len() <= s.len(),
            k <= p.len(),
            forall|j: int| 0 <= j < k ==> s@[i + j] == p@[j],
        decreases p.len() - k,
    {
        if s[i + k] != p[k] {
            assert(s@.subrange(i as int, i + p.len())[k as int] != p@[k as int]);
            return false;
        }
        k = k + 1;
    }
    assert(s@.subrange(i as int, i + p.len()) =~= p@);
    true
}

/// `str::starts_with` against a literal.
pub fn starts_with_str(s: &Vec<char>, p: &str) -> (b: bool)
    ensures
        b == starts_with(s@, p@),
{
    let pv = chars_of(p);
    occurs_at_exec(s, &pv, 0)
}

/// `str::ends_with` against a literal.
pub fn ends_with_str(s: &Vec<char>, p: &str) -> (b: bool)
    ensures
        b == ends_with(s@, p@),
{
    let pv = chars_of(p);
    if pv.len() > s.len() {
        false
    } else {
        occurs_at_exec(s, &pv, s.len() - pv.len())
    }
}

/// The first occurrence of `p` in `s` at or after `i`.
pub fn find_from_exec(s: &Vec<char>, p: &Vec<char>, i: usize) -> (r: Option<usize>)
    ensures
        r == (match find_from(s@, p@, i as int) {
            Some(k) => Some(k as usize),
            None => None,
        }),
        r matches Some(k) ==> i <= k && k + p.len() <= s.len() && find_from(s@, p@, i as int)
            == Some(k as int),
        r is None ==> find_from(s@, p@, i as int) is None,
{
    proof {
        lemma_find_from_contains(s@, p@, i as int);
    }
    let mut k = i;
    while k <= s.len() && p.len() <= s.len() - k
        invariant
            i <= k,
            find_from(s@, p@, i as int) == find_from(s@, p@, k as int),
        decreases s.len() + 1 - k,
    {
        if occurs_at_exec(s, p, k) {
            return Some(k);
        }
        if k >= s.len() {
            return None;
        }
        k = k + 1;
    }
    None
}

/// `str::contains` against a literal.
pub fn contains_str(s: &Vec<char>, p: &str) -> (b: bool)
    ensures
        b == contains(s@, p@),
{
    let pv = chars_of(p);
    let r = find_from_exec(s, &pv, 0);
    proof {
        lemma_find_from_contains(s@, p@, 0);
    }
    r.is_some()
}

pub proof fn lemma_find_from_contains(s: Seq<char>, p: Seq<char>, i: int)
    requires
        0 <= i,
    ensures
        find_from(s, p, i) matches Some(k) ==> i <= k && occurs_at(s, p, k),
        find_from(s, p, i) is None ==> forall|k: int| i <= k ==> !occurs_at(s, p, k),
        i == 0 ==> (find_from(s, p, i) is Some <==> contains(s, p)),
    decreases s.len() - i,
{
    if i + p.len() > s.len() {
    } else if occurs_at(s, p, i) {
    } else if i >= s.len() {
    } else {
        lemma_find_from_contains(s, p, i + 1);
        if find_from(s, p, i) is None {
            assert forall|k: int| i <= k implies !occurs_at(s, p, k) by {
                if k == i {
                }
            }
        }
    }
}


pub proof fn lemma_index_of_char_shift(s: Seq<char>, c: char, a: int, k: int)
    requires
        0 <= a <= s.len(),
        0 <= k,
        a + k <= s.len(),
    ensures
        index_of_char_from(s.subrange(a, s.len() as int), c, k) == index_of_char_from(s, c, a + k)
            - a,
    decreases s.len() - (a + k),
{
    let t = s.subrange(a, s.len() as int);
    if a + k < s.len() && s[a + k] != c {
        lemma_index_of_char_shift(s, c, a, k + 1);
    }
}

/// Index of the first `c` in `v` at or after `from`, or `v.len()`.
pub fn index_of_char(v: &Vec<char>, c: char, from: usize) -> (r: usize)
    requires
        from <= v.len(),
    ensures
        r == index_of_char_from(v@, c, from as int),
        from <= r <= v.len(),
{
    let mut k = from;
    proof {
        lemma_index_of_char_from_bounds(v@, c, from as int);
    }
    while k < v.len() && v[k] != c
        invariant
            from <= k <= v.len(),
            index_of_char_from(v@, c, from as int) == index_of_char_from(v@, c, k as int),
        decreases v.len() - k,
    {
        k = k + 1;
    }
    k
}

/// The lines of `v`, as `str::lines` gives them.
pub fn split_lines(v: &Vec<char>) -> (r: Vec<Vec<char>>)
    ensures
        views(r@) == lines(v@),
{
    let mut r: Vec<Vec<char>> = Vec::new();
    let mut pos: usize = 0;
    assert(v@.subrange(0, v.len() as int) =~= v@);
    while pos < v.len()
        invariant
            pos <= v.len(),
            lines(v@) == views(r@) + lines(v@.subrange(pos as int, v.len() as int)),
        decreases v.len() - pos,
    {
        let ghost rest = v@.subrange(pos as int, v.len() as int);
        let j = index_of_char(v, '\n', pos);
        proof {
            lemma_index_of_char_shift(v@, '\n', pos as int, 0);
        }
        let ghost old_r = r@;
        if j >= v.len() {
            let line = slice(v, pos, v.len());
            r.push(line);
            pos = v.len();
            assert(views(r@) =~= views(old_r) + seq![rest]);
            assert(lines(v@.subrange(pos as int, v.len() as int)) =~= Seq::<Seq<char>>::empty());
        } else {
            let mut e = j;
            if e > pos && v[e - 1] == '\r' {
                e = e - 1;
            }
            let line = slice(v, pos, e);
            proof {
                let piece = rest.subrange(0, j - pos);
                assert(piece =~= v@.subrange(pos as int, j as int));
                assert(line@ == strip_cr(piece)) by {
                    if e < j {
                        assert(piece.drop_last() =~= v@.subrange(pos as int, e as int));
                    }
                }
                assert(rest.subrange(j - pos + 1, rest.len() as int) =~= v@.subrange(
                    j + 1,
                    v.len() as int,
                ));
            }
            r.push(line);
            pos = j + 1;
            assert(views(r@) =~= views(old_r) + seq![line@]);
        }
    }
    assert(lines(v@.subrange(pos as int, v.len() as int)) =~= Seq::<Seq<char>>::empty());
    assert(views(r@) + Seq::<Seq<char>>::empty() =~= views(r@));
    r
}

/// `str::replace(from, to)`.
pub fn replace_all_exec(s: &Vec<char>, from: &Vec<char>, to: &Vec<char>) -> (r: Vec<char>)
    ensures
        r@ == replace_all(s@, from@, to@),
{
    let mut out: Vec<char> = Vec::new();
    let mut pos: usize = 0;
    assert(s@.subrange(0, s.len() as int) =~= s@);
    while pos < s.len()
        invariant
            pos <= s.len(),
            replace_all(s@, from@, to@) == out@ + replace_all(
                s@.subrange(pos as int, s.len() as int),
                from@,
                to@,
            ),
        decreases s.len() - pos,
    {
        let ghost rest = s@.subrange(pos as int, s.len() as int);
        let ghost old_out = out@;
        if from.len() == 0 {
            push_all(&mut out, to);
            out.push(s[pos]);
            assert(rest.drop_first() =~= s@.subrange(pos + 1, s.len() as int));
            pos = pos + 1;
            assert(out@ =~= old_out + to@ + seq![rest[0]]);
        } else if occurs_at_exec(s, from, pos) {
            push_all(&mut out, to);
            assert(from.len() <= s.len() - pos);
            assert(rest.subrange(0, from@.len() as int) =~= s@.subrange(
                pos as int,
                pos + from@.len(),
            ));
            assert(rest.subrange(from@.len() as int, rest.len() as int) =~= s@.subrange(
                pos + from@.len(),
                s.len() as int,
            ));
            pos = pos + from.len();
        } else {
            if from.len() <= s.len() - pos {
                assert(rest.subrange(0, from@.len() as int) =~= s@.subrange(
                    pos as int,
                    pos + from@.len(),
                ));
            }
            out.push(s[pos]);
            assert(rest.drop_first() =~= s@.subrange(pos + 1, s.len() as int));
            pos = pos + 1;
            assert(out@ =~= old_out + seq![rest[0]]);
        }
    }
    if from.len() == 0 {
        push_all(&mut out, to);
    }
    proof {
        let e = s@.subrange(pos as int, s.len() as int);
        assert(e.len() == 0);
    }
    r_finish(out, s, from, to, pos)
}

/// Closes `replace_all_exec`: the empty rest contributes nothing beyond what was pushed.
fn r_finish(out: Vec<char>, s: &Vec<char>, from: &Vec<char>, to: &Vec<char>, pos: usize) -> (r: Vec<
    char,
>)
    requires
        pos == s.len(),
        from.len() == 0 ==> replace_all(s@, from@, to@) == out@,
        from.len() > 0 ==> replace_all(s@, from@, to@) == out@ + replace_all(
            s@.subrange(pos as int, s.len() as int),
            from@,
            to@,
        ),
    ensures
        r@ == replace_all(s@, from@, to@),
{
    proof {
        if from.len() > 0 {
            let e = s@.subrange(pos as int, s.len() as int);
            assert(e.len() == 0);
            assert(out@ + e =~= out@);
        }
    }
    out
}

/// `str::replace` with literal arguments.
pub fn replace_str(s: &Vec<char>, from: &str, to: &Vec<char>) -> (r: Vec<char>)
    ensures
        r@ == replace_all(s@, from@, to@),
{
    let f = chars_of(from);
    replace_all_exec(s, &f, to)
}

/// Replace every `from` character of `s` by `to`.
pub fn replace_char_exec(s: &Vec<char>, from: char, to: &str) -> (r: Vec<char>)
    ensures
        r@ == replace_char(s@, from, to@),
{
    let tv = chars_of(to);
    let mut out: Vec<char> = Vec::new();
    let mut pos: usize = 0;
    assert(s@.subrange(0, s.len() as int) =~= s@);
    while pos < s.len()
        invariant
            pos <= s.len(),
            tv@ == to@,
            replace_char(s@, from, to@) == out@ + replace_char(
                s@.subrange(pos as int, s.len() as int),
                from,
                to@,
            ),
        decreases s.len() - pos,
    {
        let ghost rest = s@.subrange(pos as int, s.len() as int);
        let ghost old_out = out@;
        if s[pos] == from {
            push_all(&mut out, &tv);
        } else {
            out.push(s[pos]);
            assert(out@ =~= old_out + seq![rest[0]]);
        }
        assert(rest.drop_first() =~= s@.subrange(pos + 1, s.len() as int));
        pos = pos + 1;
    }
    let ghost e = s@.subrange(pos as int, s.len() as int);
    assert(e.len() == 0);
    assert(out@ + replace_char(e, from, to@) =~= out@);
    out
}

pub proof fn lemma_leading_ws(s: Seq<char>)
    ensures
        leading_ws(s) == s.subrange(0, s.len() - trim_start(s).len()),
    decreases s.len(),
{
    lemma_trim_start_len(s);
    if s.len() > 0 && is_ws(s[0]) {
        lemma_leading_ws(s.drop_first());
        assert(leading_ws(s) =~= s.subrange(0, s.len() - trim_start(s).len()));
    } else {
        assert(leading_ws(s) =~= s.subrange(0, 0));
    }
}

/// The leading whitespace of `v`.
pub fn leading_ws_vec(v: &Vec<char>) -> (r: Vec<char>)
    ensures
        r@ == leading_ws(v@),
{
    assert(v@.subrange(0, v.len() as int) =~= v@);
    let a = trim_start_index(v, 0, v.len());
    proof {
        lemma_leading_ws(v@);
    }
    slice(v, 0, a)
}

/// `str::trim_end_matches(c)` for a single character.
pub fn trim_end_char_vec(v: &Vec<char>, c: char) -> (r: Vec<char>)
    ensures
        r@ == trim_end_char(v@, c),
{
    let mut m = v.len();
    assert(v@.subrange(0, v.len() as int) =~= v@);
    while m > 0 && v[m - 1] == c
        invariant
            m <= v.len(),
            trim_end_char(v@, c) == trim_end_char(v@.subrange(0, m as int), c),
        decreases m,
    {
        assert(v@.subrange(0, m as int).drop_last() =~= v@.subrange(0, m - 1));
        m = m - 1;
    }
    slice(v, 0, m)
}

/// `str::trim_start_matches(p)` for a literal.
pub fn trim_start_str_vec(v: &Vec<char>, p: &str) -> (r: Vec<char>)
    ensures
        r@ == trim_start_str(v@, p@),
{
    let pv = chars_of(p);
    let mut a: usize = 0;
    assert(v@.subrange(0, v.len() as int) =~= v@);
    while pv.len() > 0 && occurs_at_exec(v, &pv, a)
        invariant
            a <= v.len(),
            pv@ == p@,
            trim_start_str(v@, p@) == trim_start_str(v@.subrange(a as int, v.len() as int), p@),
        decreases v.len() - a,
    {
        let ghost rest = v@.subrange(a as int, v.len() as int);
        assert(rest.subrange(0, p@.len() as int) =~= v@.subrange(a as int, a + p@.len()));
        assert(after_prefix(rest, p@) =~= v@.subrange(a + p@.len(), v.len() as int));
        a = a + pv.len();
    }
    proof {
        let rest = v@.subrange(a as int, v.len() as int);
        if pv.len() > 0 && a + p@.len() <= v.len() {
            assert(rest.subrange(0, p@.len() as int) =~= v@.subrange(a as int, a + p@.len()));
        }
    }
    slice(v, a, v.len())
}

/// `str::trim_start_matches(p)` for a pattern held in a vector.
pub fn trim_start_by(v: &Vec<char>, p: &Vec<char>) -> (r: Vec<char>)
    ensures
        r@ == trim_start_str(v@, p@),
{
    let mut a: usize = 0;
    assert(v@.subrange(0, v.len() as int) =~= v@);
    while p.len() > 0 && occurs_at_exec(v, p, a)
        invariant
            a <= v.len(),
            trim_start_str(v@, p@) == trim_start_str(v@.subrange(a as int, v.len() as int), p@),
        decreases v.len() - a,
    {
        let ghost rest = v@.subrange(a as int, v.len() as int);
        assert(rest.subrange(0, p@.len() as int) =~= v@.subrange(a as int, a + p@.len()));
        assert(after_prefix(rest, p@) =~= v@.subrange(
            a + p@.len(),
            v.len() as int,
        ));
        a = a + p.len();
    }
    proof {
        let rest = v@.subrange(a as int, v.len() as int);
        if p.len() > 0 && a + p@.len() <= v.len() {
            assert(rest.subrange(0, p@.len() as int) =~= v@.subrange(a as int, a + p@.len()));
        }
    }
    slice(v, a, v.len())
}

/// The characters of `v` after its first `n`.
pub fn after_prefix_vec(v: &Vec<char>, n: usize) -> (r: Vec<char>)
    requires
        n <= v.len(),
    ensures
        r@ == v@.subrange(n as int, v.len() as int),
{
    slice(v, n, v.len())
}

/// The longest prefix of `v` without whitespace.
pub fn word_prefix_vec(v: &Vec<char>) -> (r: Vec<char>)
    ensures
        r@ == word_prefix(v@),
{
    let mut b: usize = 0;
    while b < v.len() && !is_ws_char(v[b])
        invariant
            b <= v.len(),
            forall|k: int| 0 <= k < b ==> !is_ws(#[trigger] v@[k]),
        decreases v.len() - b,
    {
        b = b + 1;
    }
    proof {
        lemma_word_prefix_len(v@);
        let l = word_prefix(v@).len() as int;
        if b < l {
            assert(!is_ws(v@[b as int]));
        }
        if l < b {
            assert(!is_ws(v@[l]));
        }
    }
    slice(v, 0, b)
}

/// `str::split_whitespace`.
pub fn words_vec(v: &Vec<char>) -> (r: Vec<Vec<char>>)
    ensures
        views(r@) == words(v@),
{
    let mut r: Vec<Vec<char>> = Vec::new();
    let mut pos: usize = 0;
    assert(v@.subrange(0, v.len() as int) =~= v@);
    loop
        invariant
            pos <= v.len(),
            words(v@) == views(r@) + words(v@.subrange(pos as int, v.len() as int)),
        decreases v.len() - pos,
    {
        let ghost rest = v@.subrange(pos as int, v.len() as int);
        let a = trim_start_index(v, pos, v.len());
        if a == v.len() {
            assert(words(rest) =~= Seq::<Seq<char>>::empty());
            assert(views(r@) + Seq::<Seq<char>>::empty() =~= views(r@));
            return r;
        }
        let mut b = a;
        while b < v.len() && !is_ws_char(v[b])
            invariant
                a <= b <= v.len(),
                forall|k: int| a <= k < b ==> !is_ws(#[trigger] v@[k]),
            decreases v.len() - b,
        {
            b = b + 1;
        }
        let w = slice(v, a, b);
        proof {
            let t = trim_start(rest);
            assert(t =~= v@.subrange(a as int, v.len() as int));
            lemma_word_prefix_len(t);
            let n = word_prefix(t).len() as int;
            assert(n == b - a) by {
                if n < b - a {
                    assert(is_ws(t[n]));
                    assert(t[n] == v@[a + n]);
                }
                if n > b - a {
                    assert(!is_ws(t[b - a]));
                    assert(t[b - a] == v@[b as int]);
                }
            }
            assert(word_prefix(t) =~= w@);
            assert(t.subrange(n, t.len() as int) =~= v@.subrange(b as int, v.len() as int));
        }
        let ghost old_r = r@;
        r.push(w);
        assert(views(r@) =~= views(old_r) + seq![w@]);
        pos = b;
    }
}

pub proof fn lemma_digits_value_prefix(s: Seq<char>, k: int)
    requires
        0 <= k <= s.len(),
        all_digits(s),
    ensures
        digits_value(s.subrange(0, k)) <= digits_value(s),
    decreases s.len() - k,
{
    if k < s.len() {
        lemma_digits_value_prefix(s, k + 1);
        let t = s.subrange(0, k + 1);
        assert(t.drop_last() =~= s.subrange(0, k));
        assert(is_digit(t.last()));
    } else {
        assert(s.subrange(0, k) =~= s);
    }
}

/// `str::parse` for an unsigned integer of at most `max`.
pub fn parse_uint_exec(v: &Vec<char>, max: u64) -> (r: Option<u64>)
    ensures
        r == (match parse_uint(v@, max as nat) {
            Some(n) => Some(n as u64),
            None => None,
        }),
{
    let start: usize = if v.len() > 0 && v[0] == '+' { 1 } else { 0 };
    let ghost d = if v@.len() > 0 && v@[0] == '+' { v@.drop_first() } else { v@ };
    assert(d =~= v@.subrange(start as int, v.len() as int));
    if start >= v.len() {
        return None;
    }
    let mut k = start;
    let mut acc: u64 = 0;
    while k < v.len()
        invariant
            start <= k <= v.len(),
            d == v@.subrange(start as int, v.len() as int),
            d == (if v@.len() > 0 && v@[0] == '+' { v@.drop_first() } else { v@ }),
            all_digits(v@.subrange(start as int, k as int)),
            acc as nat == digits_value(v@.subrange(start as int, k as int)),
            acc <= max,
        decreases v.len() - k,
    {
        let c = v[k];
        if !('0' <= c && c <= '9') {
            assert(!is_digit(d[k - start]));
            assert(!all_digits(d));
            return None;
        }
        let dv = (c as u64) - ('0' as u64);
        let ghost pre = v@.subrange(start as int, k + 1);
        assert(pre.drop_last() =~= v@.subrange(start as int, k as int));
        if dv > max || acc > (max - dv) / 10 {
            proof {
                assert(digits_value(pre) == acc * 10 + dv);
                assert(acc * 10 + dv > max) by (nonlinear_arith)
                    requires
                        dv > max || acc > (max - dv) / 10,
                        dv <= 9,
                ;
                if all_digits(d) {
                    assert(pre =~= d.subrange(0, k + 1 - start));
                    lemma_digits_value_prefix(d, k + 1 - start);
                }
            }
            return None;
        }
        assert(acc * 10 + dv <= max) by (nonlinear_arith)
            requires
                dv <= max,
                acc <= (max - dv) / 10,
        ;
        assert(all_digits(pre)) by {
            assert forall|i: int| 0 <= i < pre.len() implies is_digit(#[trigger] pre[i]) by {
                if i < pre.len() - 1 {
                    assert(pre[i] == v@.subrange(start as int, k as int)[i]);
                }
            }
        }
        acc = acc * 10 + dv;
        k = k + 1;
    }
    assert(v@.subrange(start as int, k as int) =~= d);
    Some(acc)
}

/// `str::parse::<u16>`.
pub fn parse_u16_exec(v: &Vec<char>) -> (r: Option<u16>)
    ensures
        r == parse_u16(v@),
{
    match parse_uint_exec(v, 0xffff) {
        Some(n) => Some(n as u16),
        None => None,
    }
}

/// `str::parse::<u32>`.
pub fn parse_u32_exec(v: &Vec<char>) -> (r: Option<u32>)
    ensures
        r == parse_u32(v@),
{
    match parse_uint_exec(v, 0xffff_ffff) {
        Some(n) => Some(n as u32),
        None => None,
    }
}

/// Append the decimal digits of `n`.
pub fn push_decimal(out: &mut Vec<char>, n: u64)
    ensures
        final(out)@ == old(out)@ + decimal(n as nat),
    decreases n,
{
    if n < 10 {
        out.push(((n as u8) + 48) as char);
    } else {
        push_decimal(out, n / 10);
        out.push((((n % 10) as u8) + 48) as char);
    }
}


/// Append the decimal digits of a wide `n`.
pub fn push_decimal_wide(out: &mut Vec<char>, n: u128)
    ensures
        final(out)@ == old(out)@ + decimal(n as nat),
    decreases n,
{
    if n < 10 {
        out.push(((n as u8) + 48) as char);
    } else {
        push_decimal_wide(out, n / 10);
        out.push((((n % 10) as u8) + 48) as char);
    }
}

/// Index of the last `c` in `s`, or `-1`.
pub open spec fn rindex_of_char(s: Seq<char>, c: char) -> int
    decreases s.len(),
{
    if s.len() == 0 {
        -1
    } else if s.last() == c {
        s.len() - 1
    } else {
        rindex_of_char(s.drop_last(), c)
    }
}

pub proof fn lemma_rindex_of_char(s: Seq<char>, c: char)
    ensures
        -1 <= rindex_of_char(s, c) < s.len(),
        rindex_of_char(s, c) >= 0 ==> s[rindex_of_char(s, c)] == c,
        forall|k: int| rindex_of_char(s, c) < k < s.len() ==> s[k] != c,
    decreases s.len(),
{
    if s.len() > 0 && s.last() != c {
        lemma_rindex_of_char(s.drop_last(), c);
        assert forall|k: int| rindex_of_char(s, c) < k < s.len() implies s[k] != c by {
            if k < s.len() - 1 {
                assert(s[k] == s.drop_last()[k]);
            }
        }
    }
}

/// What follows the last `c` in `s` (all of `s` when there is none):
/// `s.rsplit(c).next()`.
pub open spec fn after_last(s: Seq<char>, c: char) -> Seq<char> {
    s.subrange(rindex_of_char(s, c) + 1, s.len() as int)
}

/// The last `c` in `v`, if any.
pub fn rindex_of_char_exec(v: &Vec<char>, c: char) -> (r: Option<usize>)
    ensures
        r == (if rindex_of_char(v@, c) >= 0 {
            Some(rindex_of_char(v@, c) as usize)
        } else {
            None
        }),
        r matches Some(i) ==> i < v.len(),
{
    let mut m = v.len();
    assert(v@.subrange(0, v.len() as int) =~= v@);
    while m > 0
        invariant
            m <= v.len(),
            rindex_of_char(v@, c) == rindex_of_char(v@.subrange(0, m as int), c),
        decreases m,
    {
        if v[m - 1] == c {
            return Some(m - 1);
        }
        assert(v@.subrange(0, m as int).drop_last() =~= v@.subrange(0, m - 1));
        m = m - 1;
    }
    None
}

/// What follows the last `c` in `v`.
pub fn after_last_exec(v: &Vec<char>, c: char) -> (r: Vec<char>)
    ensures
        r@ == after_last(v@, c),
{
    proof {
        lemma_rindex_of_char(v@, c);
    }
    match rindex_of_char_exec(v, c) {
        Some(i) => slice(v, i + 1, v.len()),
        None => slice(v, 0, v.len()),
    }
}

/// Equality of two character vectors.
pub fn vec_eq(a: &Vec<char>, b: &Vec<char>) -> (r: bool)
    ensures
        r == (a@ == b@),
{
    if a.len() != b.len() {
        return false;
    }
    let mut i: usize = 0;
    while i < a.len()
        invariant
            a.len() == b.len(),
            i <= a.len(),
            forall|k: int| 0 <= k < i ==> a@[k] == b@[k],
        decreases a.len() - i,
    {
        if a[i] != b[i] {
            return false;
        }
        i = i + 1;
    }
    assert(a@ =~= b@);
    true
}

/// Equality of a character vector with a literal.
pub fn eq_str(a: &Vec<char>, s: &str) -> (r: bool)
    ensures
        r == (a@ == s@),
{
    let b = chars_of(s);
    vec_eq(a, &b)
}

/// `words(s)` is empty exactly when `s` is all whitespace, and otherwise
/// starts with the first word of the trimmed text.
pub fn first_word_exec(v: &Vec<char>) -> (r: Option<Vec<char>>)
    ensures
        match r {
            Some(w) => first_word(v@) == Some(w@),
            None => first_word(v@) is None,
        },
{
    let ws = words_vec(v);
    if ws.len() > 0 {
        assert(views(ws@)[0] == ws@[0]@);
        Some(ws[0].clone())
    } else {
        None
    }
}

/// `join_sep_nl` of what is left, preceded by `'\n'` when something came before.
pub open spec fn sep_tail(ls: Seq<Seq<char>>, lead: bool) -> Seq<char> {
    if ls.len() == 0 {
        Seq::empty()
    } else if lead {
        seq!['\n'] + join_sep_nl(ls)
    } else {
        join_sep_nl(ls)
    }
}

pub proof fn lemma_join_sep_nl_step(ls: Seq<Seq<char>>)
    requires
        ls.len() > 0,
    ensures
        join_sep_nl(ls) == ls[0] + sep_tail(ls.drop_first(), true),
{
    if ls.len() == 1 {
        assert(ls[0] + Seq::<char>::empty() =~= ls[0]);
    } else {
        assert(ls[0] + seq!['\n'] + join_sep_nl(ls.drop_first()) =~= ls[0] + (seq!['\n']
            + join_sep_nl(ls.drop_first())));
    }
}

/// Join character vectors with `'\n'`.
pub fn join_sep_nl_exec(ls: &Vec<Vec<char>>) -> (r: Vec<char>)
    ensures
        r@ == join_sep_nl(views(ls@)),
{
    let ghost m = views(ls@);
    let mut out: Vec<char> = Vec::new();
    let mut i: usize = 0;
    assert(m.skip(0) =~= m);
    while i < ls.len()
        invariant
            i <= ls.len(),
            m == views(ls@),
            join_sep_nl(m) == out@ + sep_tail(m.skip(i as int), i > 0),
        decreases ls.len() - i,
    {
        let ghost cur = m.skip(i as int);
        assert(cur[0] == ls@[i as int]@);
        assert(cur.drop_first() =~= m.skip(i + 1));
        proof {
            lemma_join_sep_nl_step(cur);
        }
        let ghost old_out = out@;
        if i > 0 {
            out.push('\n');
        }
        push_all(&mut out, &ls[i]);
        if i > 0 {
            assert(out@ =~= old_out + seq!['\n'] + cur[0]);
        } else {
            assert(out@ =~= old_out + cur[0]);
        }
        i = i + 1;
    }
    assert(out@ + sep_tail(m.skip(i as int), i > 0) =~= out@);
    out
}

/// The view of an optional string.
pub open spec fn opt_view(o: Option<String>) -> Option<Seq<char>> {
    match o {
        Some(s) => Some(s@),
        None => None,
    }
}

/// The view of an optional character vector.
pub open spec fn opt_vec_view(o: Option<Vec<char>>) -> Option<Seq<char>> {
    match o {
        Some(s) => Some(s@),
        None => None,
    }
}


pub proof fn lemma_trim_end_prefix(x: Seq<char>)
    ensures
        trim_end(x).len() <= x.len(),
        trim_end(x) == x.subrange(0, trim_end(x).len() as int),
        forall|k: int| trim_end(x).len() <= k < x.len() ==> is_ws(#[trigger] x[k]),
        trim_end(x).len() > 0 ==> !is_ws(x[trim_end(x).len() - 1]),
    decreases x.len(),
{
    if x.len() > 0 && is_ws(x.last()) {
        lemma_trim_end_prefix(x.drop_last());
        assert(trim_end(x) =~= x.subrange(0, trim_end(x).len() as int));
        assert forall|k: int| trim_end(x).len() <= k < x.len() implies is_ws(#[trigger] x[k]) by {
            if k < x.len() - 1 {
                assert(x[k] == x.drop_last()[k]);
            }
        }
    } else {
        assert(x.subrange(0, x.len() as int) =~= x);
    }
}

pub proof fn lemma_trim_end_idem(x: Seq<char>)
    ensures
        trim_end(trim_end(x)) == trim_end(x),
{
    lemma_trim_end_prefix(x);
    let t = trim_end(x);
    if t.len() > 0 {
        assert(t.last() == x[t.len() - 1]);
    }
}

pub proof fn lemma_trim_end_append_ws(x: Seq<char>, w: Seq<char>)
    requires
        forall|k: int| 0 <= k < w.len() ==> is_ws(#[trigger] w[k]),
    ensures
        trim_end(x + w) == trim_end(x),
    decreases w.len(),
{
    if w.len() == 0 {
        assert(x + w =~= x);
    } else {
        assert((x + w).last() == w.last());
        assert((x + w).drop_last() =~= x + w.drop_last());
        lemma_trim_end_append_ws(x, w.drop_last());
    }
}

pub proof fn lemma_trim_empty_iff(s: Seq<char>)
    ensures
        trim(s).len() == 0 <==> forall|k: int| 0 <= k < s.len() ==> is_ws(#[trigger] s[k]),
{
    lemma_trim_start_len(s);
    let t = trim_start(s);
    lemma_trim_end_prefix(t);
    lemma_trim_start_all_ws(s);
    let n = s.len() - t.len();
    if trim(s).len() == 0 {
        assert forall|k: int| 0 <= k < s.len() implies is_ws(#[trigger] s[k]) by {
            if k >= n {
                assert(s[k] == t[k - n]);
            }
        }
    } else {
        assert(!is_ws(t[trim_end(t).len() - 1]));
        assert(s[n + trim_end(t).len() - 1] == t[trim_end(t).len() - 1]);
    }
}

pub proof fn lemma_trim_start_all_ws(s: Seq<char>)
    ensures
        forall|k: int| 0 <= k < s.len() - trim_start(s).len() ==> is_ws(#[trigger] s[k]),
    decreases s.len(),
{
    lemma_trim_start_len(s);
    if s.len() > 0 && is_ws(s[0]) {
        lemma_trim_start_all_ws(s.drop_first());
        assert forall|k: int| 0 <= k < s.len() - trim_start(s).len() implies is_ws(
            #[trigger] s[k],
        ) by {
            if k > 0 {
                assert(s[k] == s.drop_first()[k - 1]);
            }
        }
    }
}


/// `p` has no line break.
pub open spec fn no_newline(p: Seq<char>) -> bool {
    forall|i: int| 0 <= i < p.len() ==> #[trigger] p[i] != '\n'
}

pub proof fn lemma_find_from_first(s: Seq<char>, p: Seq<char>, i: int, j: int)
    requires
        0 <= i <= j,
        occurs_at(s, p, j),
        forall|k: int| i <= k < j ==> !occurs_at(s, p, k),
    ensures
        find_from(s, p, i) == Some(j),
    decreases j - i,
{
    if i < j {
        assert(!occurs_at(s, p, i));
        lemma_find_from_first(s, p, i + 1, j);
    }
}

/// No occurrence of a line-free `p` starts inside `x` when `x` ends a line.
pub proof fn lemma_no_straddle(x: Seq<char>, y: Seq<char>, p: Seq<char>)
    requires
        !contains(x, p),
        x.len() == 0 || x.last() == '\n',
        no_newline(p),
    ensures
        forall|k: int| 0 <= k < x.len() ==> !occurs_at(x + y, p, k),
{
    assert forall|k: int| 0 <= k < x.len() implies !occurs_at(x + y, p, k) by {
        if occurs_at(x + y, p, k) {
            if k + p.len() <= x.len() {
                assert(x.subrange(k, k + p.len()) =~= (x + y).subrange(k, k + p.len()));
                assert(occurs_at(x, p, k));
            } else {
                let j = x.len() - 1 - k;
                assert((x + y).subrange(k, k + p.len())[j] == (x + y)[x.len() - 1]);
                assert(p[j] == '\n');
            }
        }
    }
}

/// Joining two texts free of `p` with a line break keeps them free of `p`.
pub proof fn lemma_no_contains_join(a: Seq<char>, b: Seq<char>, p: Seq<char>)
    requires
        !contains(a, p),
        !contains(b, p),
        no_newline(p),
    ensures
        !contains(a + "\n"@ + b, p),
{
    reveal_strlit("\n");
    let s = a + "\n"@ + b;
    assert forall|k: int| !occurs_at(s, p, k) by {
        if occurs_at(s, p, k) {
            if k + p.len() <= a.len() {
                assert(a.subrange(k, k + p.len()) =~= s.subrange(k, k + p.len()));
                assert(occurs_at(a, p, k));
            } else if k > a.len() {
                assert(b.subrange(k - a.len() - 1, k - a.len() - 1 + p.len()) =~= s.subrange(
                    k,
                    k + p.len(),
                ));
                assert(occurs_at(b, p, k - a.len() - 1));
            } else {
                let j = a.len() - k;
                assert(s.subrange(k, k + p.len())[j] == s[a.len() as int]);
                assert(p[j] == '\n');
            }
        }
    }
}

/// An occurrence inside a prefix is an occurrence in the whole.
pub proof fn lemma_contains_prefix(x: Seq<char>, n: int, p: Seq<char>)
    requires
        0 <= n <= x.len(),
        contains(x.subrange(0, n), p),
    ensures
        contains(x, p),
{
    let k = choose|k: int| occurs_at(x.subrange(0, n), p, k);
    assert(x.subrange(0, n).subrange(k, k + p.len()) =~= x.subrange(k, k + p.len()));
    assert(occurs_at(x, p, k));
}


/// Lexicographic order of character sequences (`str`'s `<=`: by code
/// point, a prefix first).
pub open spec fn text_le(a: Seq<char>, b: Seq<char>) -> bool
    decreases a.len(),
{
    if a.len() == 0 {
        true
    } else if b.len() == 0 {
        false
    } else if a[0] != b[0] {
        a[0] < b[0]
    } else {
        text_le(a.drop_first(), b.drop_first())
    }
}

pub proof fn lemma_text_le_total(a: Seq<char>, b: Seq<char>)
    ensures
        text_le(a, b) || text_le(b, a),
    decreases a.len(),
{
    if a.len() > 0 && b.len() > 0 && a[0] == b[0] {
        lemma_text_le_total(a.drop_first(), b.drop_first());
    }
}

pub proof fn lemma_text_le_trans(a: Seq<char>, b: Seq<char>, c: Seq<char>)
    requires
        text_le(a, b),
        text_le(b, c),
    ensures
        text_le(a, c),
    decreases a.len(),
{
    if a.len() > 0 && b.len() > 0 && c.len() > 0 && a[0] == b[0] && b[0] == c[0] {
        lemma_text_le_trans(a.drop_first(), b.drop_first(), c.drop_first());
    }
}

/// `a <= b` on strings.
pub fn text_le_exec(a: &Vec<char>, b: &Vec<char>) -> (r: bool)
    ensures
        r == text_le(a@, b@),
{
    let mut i: usize = 0;
    assert(a@.skip(0) =~= a@);
    assert(b@.skip(0) =~= b@);
    while i < a.len() && i < b.len() && a[i] == b[i]
        invariant
            i <= a.len(),
            i <= b.len(),
            text_le(a@, b@) == text_le(a@.skip(i as int), b@.skip(i as int)),
        decreases a.len() - i,
    {
        assert(a@.skip(i as int).drop_first() =~= a@.skip(i + 1));
        assert(b@.skip(i as int).drop_first() =~= b@.skip(i + 1));
        i = i + 1;
    }
    if i == a.len() {
        true
    } else if i == b.len() {
        false
    } else {
        a[i] < b[i]
    }
}


/// A text that starts and ends with non-whitespace is its own trim.
pub proof fn lemma_trim_fixed(s: Seq<char>)
    requires
        s.len() == 0 || (!is_ws(s[0]) && !is_ws(s.last())),
    ensures
        trim(s) == s,
{
    assert(trim_start(s) == s);
}

/// A trimmed text is empty or starts and ends with non-whitespace.
pub proof fn lemma_trim_shape(s: Seq<char>)
    ensures
        trim(s).len() == 0 || (!is_ws(trim(s)[0]) && !is_ws(trim(s).last())),
{
    lemma_trim_start_len(s);
    let ts = trim_start(s);
    lemma_trim_end_prefix(ts);
    let t = trim_end(ts);
    if t.len() > 0 {
        assert(t[0] == ts[0]);
        assert(t.last() == ts[t.len() - 1]);
    }
}


/// The first `c` in `x + y` from `i` is the one in `x` when `x` has one.
pub proof fn lemma_index_prefix(x: Seq<char>, y: Seq<char>, c: char, i: int, k: int)
    requires
        0 <= i <= k < x.len(),
        x[k] == c,
    ensures
        index_of_char_from(x + y, c, i) == index_of_char_from(x, c, i),
    decreases k - i,
{
    if x[i] != c {
        lemma_index_prefix(x, y, c, i + 1, k);
    }
}

/// The lines of a text that ends with a line break, followed by more text,
/// are its lines followed by those of the rest.
pub proof fn lemma_lines_append(x: Seq<char>, y: Seq<char>)
    requires
        x.len() > 0,
        x.last() == '\n',
    ensures
        lines(x + y) == lines(x) + lines(y),
    decreases x.len(),
{
    let s = x + y;
    lemma_index_prefix(x, y, '\n', 0, x.len() - 1);
    lemma_index_of_char_from_bounds(x, '\n', 0);
    let i = index_of_char_from(x, '\n', 0);
    assert(s.subrange(0, i) =~= x.subrange(0, i));
    let xr = x.subrange(i + 1, x.len() as int);
    assert(s.subrange(i + 1, s.len() as int) =~= xr + y);
    if xr.len() == 0 {
        assert(xr + y =~= y);
        assert(lines(xr) =~= Seq::<Seq<char>>::empty());
        assert(lines(x) =~= seq![strip_cr(x.subrange(0, i))]);
        assert(lines(s) =~= seq![strip_cr(x.subrange(0, i))] + lines(y));
    } else {
        assert(xr.last() == x.last());
        lemma_lines_append(xr, y);
        assert(lines(s) =~= seq![strip_cr(x.subrange(0, i))] + (lines(xr) + lines(y)));
        assert(lines(x) =~= seq![strip_cr(x.subrange(0, i))] + lines(xr));
    }
}

/// A line without line breaks, followed by one, is that one line.
pub proof fn lemma_lines_single(v: Seq<char>)
    requires
        no_newline(v),
    ensures
        lines(v + seq!['\n']) == seq![strip_cr(v)],
{
    let x = v + seq!['\n'];
    lemma_index_of_char_from_bounds(x, '\n', 0);
    let i = index_of_char_from(x, '\n', 0);
    assert(x[v.len() as int] == '\n');
    if i < v.len() {
        assert(x[i] == v[i]);
    }
    assert(i == v.len());
    assert(x.subrange(0, i) =~= v);
    assert(x.subrange(i + 1, x.len() as int) =~= Seq::<char>::empty());
    assert(lines(Seq::<char>::empty()) =~= Seq::<Seq<char>>::empty());
    assert(lines(x) =~= seq![strip_cr(v)] + Seq::<Seq<char>>::empty());
}

/// Lines without line breaks, none ending in `'\r'`, each followed by a
/// line break, read back as the same lines.
pub proof fn lemma_lines_join(vs: Seq<Seq<char>>)
    requires
        forall|k: int| 0 <= k < vs.len() ==> no_newline(#[trigger] vs[k]),
        forall|k: int| 0 <= k < vs.len() ==> !((#[trigger] vs[k]).len() > 0 && vs[k].last() == '\r'),
    ensures
        lines(join_nl(vs)) == vs,
    decreases vs.len(),
{
    if vs.len() == 0 {
        assert(lines(Seq::<char>::empty()) =~= Seq::<Seq<char>>::empty());
    } else {
        let v = vs[0];
        let rest = vs.drop_first();
        assert forall|k: int| 0 <= k < rest.len() implies no_newline(#[trigger] rest[k]) by {
            assert(rest[k] == vs[k + 1]);
        }
        assert forall|k: int| 0 <= k < rest.len() implies !((#[trigger] rest[k]).len() > 0
            && rest[k].last() == '\r') by {
            assert(rest[k] == vs[k + 1]);
        }
        lemma_lines_join(rest);
        let x = v + seq!['\n'];
        lemma_lines_append(x, join_nl(rest));
        lemma_lines_single(v);
        assert(strip_cr(v) == v);
        assert(join_nl(vs) =~= x + join_nl(rest));
        assert(lines(join_nl(vs)) =~= seq![v] + rest);
        assert(seq![v] + rest =~= vs);
    }
}

/// No line of a text holds a line break.
/// Lines written with `'\n'` after each read back as themselves, less a
/// `'\r'` that ended one.
pub proof fn lemma_lines_join_cr(vs: Seq<Seq<char>>)
    requires
        forall|k: int| 0 <= k < vs.len() ==> no_newline(#[trigger] vs[k]),
    ensures
        lines(join_nl(vs)) == vs.map_values(|v: Seq<char>| strip_cr(v)),
    decreases vs.len(),
{
    if vs.len() == 0 {
        assert(lines(Seq::<char>::empty()) =~= Seq::<Seq<char>>::empty());
        assert(vs.map_values(|v: Seq<char>| strip_cr(v)) =~= Seq::<Seq<char>>::empty());
    } else {
        let v = vs[0];
        let rest = vs.drop_first();
        assert forall|k: int| 0 <= k < rest.len() implies no_newline(#[trigger] rest[k]) by {
            assert(rest[k] == vs[k + 1]);
        }
        lemma_lines_join_cr(rest);
        let x = v + seq!['\n'];
        lemma_lines_append(x, join_nl(rest));
        lemma_lines_single(v);
        assert(join_nl(vs) =~= x + join_nl(rest));
        assert(vs.map_values(|v: Seq<char>| strip_cr(v)) =~= seq![strip_cr(v)] + rest.map_values(
            |v: Seq<char>| strip_cr(v),
        ));
    }
}

proof fn lemma_trim_start_ws_prefix(x: Seq<char>, w: Seq<char>)
    requires
        trim_start(x).len() == 0,
    ensures
        trim_start(x + w) == trim_start(w),
    decreases x.len(),
{
    if x.len() > 0 {
        assert(is_ws(x[0]));
        assert((x + w)[0] == x[0]);
        assert((x + w).drop_first() =~= x.drop_first() + w);
        lemma_trim_start_ws_prefix(x.drop_first(), w);
    } else {
        assert(x + w =~= w);
    }
}

/// Dropping a `'\r'` that ends a line does not change the line trimmed.
pub proof fn lemma_trim_strip_cr(v: Seq<char>)
    ensures
        trim(strip_cr(v)) == trim(v),
{
    if v.len() > 0 && v.last() == '\r' {
        let x = v.drop_last();
        let w = seq!['\r'];
        assert(v =~= x + w);
        assert(is_ws('\r'));
        assert forall|k: int| 0 <= k < w.len() implies is_ws(#[trigger] w[k]) by {}
        if trim_start(x).len() > 0 {
            lemma_trim_start_concat(x, w);
            lemma_trim_end_append_ws(trim_start(x), w);
        } else {
            lemma_trim_start_ws_prefix(x, w);
            assert(w.drop_first() =~= Seq::<char>::empty());
            assert(w[0] == '\r');
            assert(trim_start(w.drop_first()) =~= Seq::<char>::empty());
            assert(trim_start(w) =~= Seq::<char>::empty());
            assert(trim_end(trim_start(x)) =~= Seq::<char>::empty());
        }
    }
}

pub proof fn lemma_lines_no_newline(s: Seq<char>)
    ensures
        forall|k: int| 0 <= k < lines(s).len() ==> no_newline(#[trigger] lines(s)[k]),
    decreases s.len(),
{
    if s.len() > 0 {
        lemma_index_of_char_from_bounds(s, '\n', 0);
        let i = index_of_char_from(s, '\n', 0);
        if i < s.len() {
            let rest = s.subrange(i + 1, s.len() as int);
            lemma_lines_no_newline(rest);
            let p = strip_cr(s.subrange(0, i));
            assert(no_newline(p)) by {
                assert forall|j: int| 0 <= j < p.len() implies #[trigger] p[j] != '\n' by {
                    assert(p[j] == s[j]);
                }
            }
            assert forall|k: int| 0 <= k < lines(s).len() implies no_newline(#[trigger] lines(s)[k]) by {
                if k > 0 {
                    assert(lines(s)[k] == lines(rest)[k - 1]);
                }
            }
        } else {
            assert forall|j: int| 0 <= j < s.len() implies #[trigger] s[j] != '\n' by {}
            assert(lines(s) =~= seq![s]);
        }
    }
}


/// `join_nl` of a sequence with one more line at the end.
pub proof fn lemma_join_nl_push(vs: Seq<Seq<char>>, v: Seq<char>)
    ensures
        join_nl(vs.push(v)) == join_nl(vs) + v + seq!['\n'],
    decreases vs.len(),
{
    if vs.len() == 0 {
        let t = vs.push(v);
        assert(t[0] == v);
        assert(t.drop_first() =~= Seq::<Seq<char>>::empty());
        assert(join_nl(t.drop_first()) == Seq::<char>::empty());
        assert(join_nl(t) == v + seq!['\n'] + Seq::<char>::empty());
        assert(join_nl(vs) == Seq::<char>::empty());
        assert(v + seq!['\n'] + Seq::<char>::empty() =~= join_nl(vs) + v + seq!['\n']);
    } else {
        assert(vs.push(v).drop_first() =~= vs.drop_first().push(v));
        lemma_join_nl_push(vs.drop_first(), v);
        assert(join_nl(vs.push(v)) =~= vs[0] + seq!['\n'] + (join_nl(vs.drop_first()) + v
            + seq!['\n']));
    }
}

/// `join_nl` around the line at `k`.
pub proof fn lemma_join_nl_split(vs: Seq<Seq<char>>, k: int)
    requires
        0 <= k < vs.len(),
    ensures
        join_nl(vs) == join_nl(vs.take(k)) + vs[k] + seq!['\n'] + join_nl(vs.skip(k + 1)),
    decreases k,
{
    if k == 0 {
        assert(vs.take(0) =~= Seq::<Seq<char>>::empty());
        assert(vs.skip(1) =~= vs.drop_first());
        assert(join_nl(vs.take(0)) =~= Seq::<char>::empty());
        assert(join_nl(vs) =~= Seq::<char>::empty() + vs[0] + seq!['\n'] + join_nl(vs.skip(1)));
    } else {
        let r = vs.drop_first();
        lemma_join_nl_split(r, k - 1);
        assert(r.take(k - 1) =~= vs.take(k).drop_first());
        assert(r.skip(k) =~= vs.skip(k + 1));
        assert(r[k - 1] == vs[k]);
        assert(vs.take(k)[0] == vs[0]);
        assert(join_nl(vs.take(k)) =~= vs[0] + seq!['\n'] + join_nl(r.take(k - 1)));
        assert(join_nl(vs) =~= join_nl(vs.take(k)) + vs[k] + seq!['\n'] + join_nl(vs.skip(k + 1)));
    }
}

/// `trim_end` of a concatenation whose end keeps something.
pub proof fn lemma_trim_end_concat(a: Seq<char>, b: Seq<char>)
    requires
        trim_end(b).len() > 0,
    ensures
        trim_end(a + b) == a + trim_end(b),
    decreases b.len(),
{
    if b.len() > 0 && is_ws(b.last()) {
        assert((a + b).last() == b.last());
        assert((a + b).drop_last() =~= a + b.drop_last());
        lemma_trim_end_concat(a, b.drop_last());
    } else {
        assert(b.len() > 0);
        assert((a + b).last() == b.last());
    }
}

/// `trim_start` of a concatenation whose start keeps something.
pub proof fn lemma_trim_start_concat(a: Seq<char>, b: Seq<char>)
    requires
        trim_start(a).len() > 0,
    ensures
        trim_start(a + b) == trim_start(a) + b,
    decreases a.len(),
{
    if a.len() > 0 && is_ws(a[0]) {
        assert((a + b)[0] == a[0]);
        assert((a + b).drop_first() =~= a.drop_first() + b);
        lemma_trim_start_concat(a.drop_first(), b);
    } else {
        assert(a.len() > 0);
        assert((a + b)[0] == a[0]);
    }
}

/// Trimming only the end first does not change the full trim.
pub proof fn lemma_trim_of_trim_end(v: Seq<char>)
    requires
        trim_end(v).len() > 0,
    ensures
        trim(trim_end(v)) == trim(v),
{
    let l = trim_end(v);
    lemma_trim_end_prefix(v);
    let w = v.subrange(l.len() as int, v.len() as int);
    assert(v =~= l + w);
    assert(!is_ws(l.last()));
    lemma_trim_start_len(l);
    assert(trim_start(l).len() > 0) by {
        if trim_start(l).len() == 0 {
            lemma_trim_start_all_ws(l);
            assert(is_ws(l[l.len() - 1]));
        }
    }
    lemma_trim_start_concat(l, w);
    assert forall|k: int| 0 <= k < w.len() implies is_ws(#[trigger] w[k]) by {
        assert(w[k] == v[l.len() + k]);
    }
    lemma_trim_end_append_ws(trim_start(l), w);
}

} // verus!
