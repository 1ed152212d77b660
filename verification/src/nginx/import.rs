//! Importing a production nginx config as a HyperHost development config,
//! and exporting a development config back for production.

use vstd::prelude::*;
use crate::text::{
    after_last, after_last_exec, after_prefix, after_prefix_vec, chars_of, eq_str, first_word,
    first_word_exec, index_of_char, index_of_char_from, is_ws, is_ws_char, contains,
    contains_str, decimal, join_sep_nl, opt_view, push_decimal, replace_all, replace_str,
    string_of, replace_char, replace_char_exec, replace_all_exec, join_sep_nl_exec, lemma_join_sep_nl_step, sep_tail, leading_ws, leading_ws_vec, push_str, trim_end, trim_end_vec,
    lemma_index_of_char_from_bounds, lemma_rindex_of_char, lines, occurs_at, occurs_at_exec,
    parse_u16, parse_u16_exec, push_all, rindex_of_char, rindex_of_char_exec, slice,
    split_lines, starts_with, starts_with_str, trim, trim_end_char, trim_end_char_vec,
    trim_start, trim_start_vec, join_nl, no_newline, strip_cr, lemma_trim_end_prefix, trim_start_str, trim_start_str_vec, trim_vec, vec_eq, views, words, words_vec,
};

verus! {

// ───────────────────────────── comments ─────────────────────────────

/// A line cut at its first `#` outside quotes; `'` and `"` both toggle quoting.
pub open spec fn cut_comment(l: Seq<char>, q: bool) -> Seq<char>
    decreases l.len(),
{
    if l.len() == 0 {
        l
    } else if l[0] == '"' || l[0] == '\'' {
        seq![l[0]] + cut_comment(l.drop_first(), !q)
    } else if l[0] == '#' && !q {
        Seq::empty()
    } else {
        seq![l[0]] + cut_comment(l.drop_first(), q)
    }
}

/// Every line of `ls`, cut at its comment and followed by `'\n'`.
pub open spec fn cut_lines(ls: Seq<Seq<char>>) -> Seq<char>
    decreases ls.len(),
{
    if ls.len() == 0 {
        Seq::empty()
    } else {
        cut_comment(ls[0], false) + seq!['\n'] + cut_lines(ls.drop_first())
    }
}

/// The input with its `#` comments removed, line by line.
pub open spec fn strip_comments_spec(input: Seq<char>) -> Seq<char> {
    cut_lines(lines(input))
}

proof fn lemma_cut_comment_prefix(l: Seq<char>, q: bool)
    ensures
        cut_comment(l, q).len() <= l.len(),
        cut_comment(l, q) == l.subrange(0, cut_comment(l, q).len() as int),
    decreases l.len(),
{
    if l.len() > 0 {
        if l[0] == '"' || l[0] == '\'' {
            lemma_cut_comment_prefix(l.drop_first(), !q);
        } else if l[0] == '#' && !q {
        } else {
            lemma_cut_comment_prefix(l.drop_first(), q);
        }
        assert(cut_comment(l, q) =~= l.subrange(0, cut_comment(l, q).len() as int));
    } else {
        assert(l.subrange(0, 0) =~= l);
    }
}

/// `cut_comment(l, false)` as a prefix length of `l`.
fn cut_comment_len(l: &Vec<char>) -> (e: usize)
    ensures
        e <= l.len(),
        cut_comment(l@, false) == l@.subrange(0, e as int),
{
    let mut q = false;
    let mut k: usize = 0;
    assert(l@.subrange(0, l.len() as int) =~= l@);
    assert(l@.subrange(0, 0) + l@ =~= l@);
    while k < l.len()
        invariant
            k <= l.len(),
            cut_comment(l@, false) == l@.subrange(0, k as int) + cut_comment(
                l@.subrange(k as int, l.len() as int),
                q,
            ),
        decreases l.len() - k,
    {
        let ghost rest = l@.subrange(k as int, l.len() as int);
        assert(rest.drop_first() =~= l@.subrange(k + 1, l.len() as int));
        let c = l[k];
        if c == '"' || c == '\'' {
            q = !q;
        } else if c == '#' && !q {
            assert(l@.subrange(0, k as int) + Seq::<char>::empty() =~= l@.subrange(0, k as int));
            return k;
        }
        assert(l@.subrange(0, k as int) + seq![c] =~= l@.subrange(0, k + 1));
        k = k + 1;
    }
    assert(l@.subrange(0, k as int) + Seq::<char>::empty() =~= l@.subrange(0, k as int));
    k
}

/// Remove `#` comments from every line; each line ends with `'\n'`.
fn strip_comments(input: &Vec<char>) -> (out: Vec<char>)
    ensures
        out@ == strip_comments_spec(input@),
{
    let ls = split_lines(input);
    let ghost lsv = lines(input@);
    let mut out: Vec<char> = Vec::new();
    let mut i: usize = 0;
    assert(lsv.skip(0) =~= lsv);
    while i < ls.len()
        invariant
            i <= ls.len(),
            views(ls@) == lsv,
            cut_lines(lsv) == out@ + cut_lines(lsv.skip(i as int)),
        decreases ls.len() - i,
    {
        let e = cut_comment_len(&ls[i]);
        let piece = slice(&ls[i], 0, e);
        let ghost old_out = out@;
        assert(lsv.skip(i as int)[0] == ls@[i as int]@);
        assert(lsv.skip(i as int).drop_first() =~= lsv.skip(i + 1));
        push_all(&mut out, &piece);
        out.push('\n');
        assert(out@ =~= old_out + cut_comment(lsv[i as int], false) + seq!['\n']);
        i = i + 1;
    }
    assert(out@ + cut_lines(lsv.skip(i as int)) =~= out@);
    out
}


// ───────────────────────────── blocks ─────────────────────────────

/// Characters that may precede a keyword.
pub open spec fn kw_before_ok(c: char) -> bool {
    c == ' ' || c == '\t' || c == '\n' || c == '\r' || c == ';' || c == '}'
}

/// Characters that may follow a keyword.
pub open spec fn kw_after_ok(c: char) -> bool {
    c == ' ' || c == '\t' || c == '\n' || c == '\r' || c == '{'
}

/// `kw` stands at `p` as a word; the search started at `base`, where no
/// preceding character is required.
pub open spec fn kw_at(s: Seq<char>, kw: Seq<char>, base: int, p: int) -> bool {
    &&& occurs_at(s, kw, p)
    &&& (p == base || kw_before_ok(s[p - 1]))
    &&& p + kw.len() < s.len()
    &&& kw_after_ok(s[p + kw.len()])
}

/// The first position at or after `p` where `kw` stands as a word.
pub open spec fn find_kw(s: Seq<char>, kw: Seq<char>, base: int, p: int) -> Option<int>
    decreases s.len() - p,
{
    if p < base || p + kw.len() > s.len() {
        None
    } else if kw_at(s, kw, base, p) {
        Some(p)
    } else if p >= s.len() {
        None
    } else {
        find_kw(s, kw, base, p + 1)
    }
}

/// How a character changes the brace depth.
pub open spec fn brace_delta(c: char) -> int {
    if c == '{' {
        1
    } else if c == '}' {
        -1
    } else {
        0
    }
}

/// Index of the `'}'` that brings `depth` to zero, scanning from `k`.
pub open spec fn match_close(s: Seq<char>, k: int, depth: int) -> Option<int>
    decreases s.len() - k,
{
    if k < 0 || k >= s.len() {
        None
    } else {
        let d = depth + brace_delta(s[k]);
        if d == 0 {
            Some(k)
        } else {
            match_close(s, k + 1, d)
        }
    }
}

pub proof fn lemma_find_kw(s: Seq<char>, kw: Seq<char>, base: int, p: int)
    ensures
        find_kw(s, kw, base, p) matches Some(x) ==> p <= x && base <= x && kw_at(s, kw, base, x)
            && (forall|y: int| p <= y < x ==> !kw_at(s, kw, base, y)),
        find_kw(s, kw, base, p) is None ==> (p >= base ==> forall|y: int|
            p <= y ==> !kw_at(s, kw, base, y)),
    decreases s.len() - p,
{
    if p < base || p + kw.len() > s.len() {
    } else if kw_at(s, kw, base, p) {
    } else if p >= s.len() {
    } else {
        lemma_find_kw(s, kw, base, p + 1);
        assert forall|y: int| p <= y < p + 1 implies !kw_at(s, kw, base, y) by {}
    }
}

pub proof fn lemma_match_close(s: Seq<char>, k: int, depth: int)
    ensures
        match_close(s, k, depth) matches Some(x) ==> k <= x < s.len(),
    decreases s.len() - k,
{
    if k >= 0 && k < s.len() {
        let d = depth + brace_delta(s[k]);
        if d != 0 {
            lemma_match_close(s, k + 1, d);
        }
    }
}

/// The blocks `kw ... { body }` of `s` found from `i` on, each as its trimmed
/// header and its body, skipping nested braces.
pub open spec fn blocks_from(s: Seq<char>, kw: Seq<char>, i: int) -> Seq<(Seq<char>, Seq<char>)>
    decreases s.len() - i,
{
    if i < 0 || i >= s.len() {
        Seq::empty()
    } else {
        match find_kw(s, kw, i, i) {
            None => Seq::empty(),
            Some(start) => {
                let j = index_of_char_from(s, '{', start + kw.len());
                if j >= s.len() {
                    Seq::empty()
                } else {
                    match match_close(s, j + 1, 1) {
                        None => Seq::empty(),
                        Some(k) => {
                            proof {
                                lemma_find_kw(s, kw, i, i);
                                lemma_index_of_char_from_bounds(s, '{', start + kw.len());
                                lemma_match_close(s, j + 1, 1);
                            }
                            seq![(trim(s.subrange(start, j)), s.subrange(j + 1, k))] + blocks_from(
                                s,
                                kw,
                                k + 1,
                            )
                        },
                    }
                }
            },
        }
    }
}

/// The `kw` blocks of an nginx config, comments removed.
pub open spec fn blocks_of(input: Seq<char>, kw: Seq<char>) -> Seq<(Seq<char>, Seq<char>)> {
    blocks_from(strip_comments_spec(input), kw, 0)
}

/// The views of header/body pairs.
pub open spec fn pair_views(v: Seq<(Vec<char>, Vec<char>)>) -> Seq<(Seq<char>, Seq<char>)> {
    v.map_values(|p: (Vec<char>, Vec<char>)| (p.0@, p.1@))
}

/// The first position at or after `base` where `keyword` stands as a word.
fn find_keyword(s: &Vec<char>, keyword: &Vec<char>, base: usize) -> (r: Option<usize>)
    requires
        base <= s.len(),
    ensures
        r == (match find_kw(s@, keyword@, base as int, base as int) {
            Some(x) => Some(x as usize),
            None => None,
        }),
{
    let mut p = base;
    while p <= s.len() && keyword.len() <= s.len() - p
        invariant
            base <= p,
            find_kw(s@, keyword@, base as int, base as int) == find_kw(
                s@,
                keyword@,
                base as int,
                p as int,
            ),
        decreases s.len() + 1 - p,
    {
        if occurs_at_exec(s, keyword, p) {
            let before_ok = p == base || {
                let c = s[p - 1];
                c == ' ' || c == '\t' || c == '\n' || c == '\r' || c == ';' || c == '}'
            };
            let after_ok = p + keyword.len() < s.len() && {
                let c = s[p + keyword.len()];
                c == ' ' || c == '\t' || c == '\n' || c == '\r' || c == '{'
            };
            if before_ok && after_ok {
                return Some(p);
            }
        }
        if p >= s.len() {
            return None;
        }
        p = p + 1;
    }
    None
}

/// Index of the `'}'` closing a block whose body starts at `from`.
fn matching_close(s: &Vec<char>, from: usize) -> (r: Option<usize>)
    requires
        1 <= from <= s.len(),
    ensures
        r == (match match_close(s@, from as int, 1) {
            Some(x) => Some(x as usize),
            None => None,
        }),
{
    let mut k = from;
    let mut depth: usize = 1;
    while k < s.len()
        invariant
            1 <= from <= k <= s.len(),
            1 <= depth <= k - from + 1,
            match_close(s@, from as int, 1) == match_close(s@, k as int, depth as int),
        decreases s.len() - k,
    {
        let c = s[k];
        if c == '{' {
            depth = depth + 1;
        } else if c == '}' {
            depth = depth - 1;
            if depth == 0 {
                return Some(k);
            }
        }
        k = k + 1;
    }
    None
}

/// Every top-level `keyword ... { body }` block of `input`, as its trimmed
/// header and its body.
fn extract_top_blocks_with_header(input: &Vec<char>, keyword: &str) -> (r: Vec<(Vec<char>, Vec<char>)>)
    ensures
        pair_views(r@) == blocks_of(input@, keyword@),
{
    let stripped = strip_comments(input);
    let kw = chars_of(keyword);
    let ghost s = stripped@;
    let mut result: Vec<(Vec<char>, Vec<char>)> = Vec::new();
    let mut i: usize = 0;
    while i < stripped.len()
        invariant
            i <= stripped.len(),
            s == stripped@,
            s == strip_comments_spec(input@),
            kw@ == keyword@,
            blocks_from(s, kw@, 0) == pair_views(result@) + blocks_from(s, kw@, i as int),
        decreases stripped.len() - i,
    {
        let pos = find_keyword(&stripped, &kw, i);
        proof {
            lemma_find_kw(s, kw@, i as int, i as int);
        }
        match pos {
            None => {
                assert(find_kw(s, kw@, i as int, i as int) is None);
                assert(blocks_from(s, kw@, i as int) =~= Seq::<(Seq<char>, Seq<char>)>::empty());
                assert(pair_views(result@) + blocks_from(s, kw@, i as int) =~= pair_views(
                    result@,
                ));
                return result;
            },
            Some(start) => {
                let j = index_of_char(&stripped, '{', start + kw.len());
                if j >= stripped.len() {
                    assert(blocks_from(s, kw@, i as int) =~= Seq::<(Seq<char>, Seq<char>)>::empty());
                    assert(pair_views(result@) + blocks_from(s, kw@, i as int) =~= pair_views(
                        result@,
                    ));
                    return result;
                }
                let close = matching_close(&stripped, j + 1);
                proof {
                    lemma_match_close(s, j + 1, 1);
                }
                match close {
                    None => {
                        assert(pair_views(result@) + blocks_from(s, kw@, i as int)
                            =~= pair_views(result@));
                        return result;
                    },
                    Some(k) => {
                        let h = slice(&stripped, start, j);
                        let header = trim_vec(&h);
                        let body = slice(&stripped, j + 1, k);
                        let ghost old_r = result@;
                        result.push((header, body));
                        assert(pair_views(result@) =~= pair_views(old_r) + seq![
                            (trim(s.subrange(start as int, j as int)), s.subrange(j + 1, k as int)),
                        ]);
                        i = k + 1;
                    },
                }
            },
        }
    }
    assert(pair_views(result@) + blocks_from(s, kw@, i as int) =~= pair_views(result@));
    result
}

/// The bodies of every top-level `keyword` block of `input`.
fn extract_top_blocks(input: &Vec<char>, keyword: &str) -> (r: Vec<Vec<char>>)
    ensures
        views(r@) == blocks_of(input@, keyword@).map_values(|p: (Seq<char>, Seq<char>)| p.1),
{
    let all = extract_top_blocks_with_header(input, keyword);
    let mut r: Vec<Vec<char>> = Vec::new();
    let mut i: usize = 0;
    while i < all.len()
        invariant
            i <= all.len(),
            pair_views(all@) == blocks_of(input@, keyword@),
            views(r@) == pair_views(all@).take(i as int).map_values(
                |p: (Seq<char>, Seq<char>)| p.1,
            ),
        decreases all.len() - i,
    {
        let b = all[i].1.clone();
        let ghost old_r = r@;
        r.push(b);
        assert(pair_views(all@)[i as int] == (all@[i as int].0@, all@[i as int].1@));
        assert(pair_views(all@).take(i + 1) =~= pair_views(all@).take(i as int).push(
            pair_views(all@)[i as int],
        ));
        assert(views(r@) =~= views(old_r).push(b@));
        i = i + 1;
        assert(views(r@) =~= pair_views(all@).take(i as int).map_values(
            |p: (Seq<char>, Seq<char>)| p.1,
        ));
    }
    assert(pair_views(all@).take(i as int) =~= pair_views(all@));
    r
}


// ───────────────────────────── upstreams ─────────────────────────────

/// `'{'` or whitespace.
pub open spec fn is_brace_or_ws(c: char) -> bool {
    c == '{' || is_ws(c)
}

/// `s` without leading `'{'` or whitespace.
pub open spec fn trim_bw_start(s: Seq<char>) -> Seq<char>
    decreases s.len(),
{
    if s.len() > 0 && is_brace_or_ws(s[0]) {
        trim_bw_start(s.drop_first())
    } else {
        s
    }
}

/// `s` without trailing `'{'` or whitespace.
pub open spec fn trim_bw_end(s: Seq<char>) -> Seq<char>
    decreases s.len(),
{
    if s.len() > 0 && is_brace_or_ws(s.last()) {
        trim_bw_end(s.drop_last())
    } else {
        s
    }
}

/// The name of an upstream: the second word of its header, without braces.
pub open spec fn upstream_name(header: Seq<char>) -> Seq<char> {
    let w = words(header);
    if w.len() > 1 {
        trim_bw_end(trim_bw_start(w[1]))
    } else {
        Seq::empty()
    }
}

/// A separator between the fields of a `server` line.
pub open spec fn is_addr_sep(c: char) -> bool {
    is_ws(c) || c == ';'
}

/// `s` without its leading separators.
pub open spec fn drop_seps(s: Seq<char>) -> Seq<char>
    decreases s.len(),
{
    if s.len() > 0 && is_addr_sep(s[0]) {
        drop_seps(s.drop_first())
    } else {
        s
    }
}

/// The longest prefix of `s` without separators.
pub open spec fn field_prefix(s: Seq<char>) -> Seq<char>
    decreases s.len(),
{
    if s.len() > 0 && !is_addr_sep(s[0]) {
        seq![s[0]] + field_prefix(s.drop_first())
    } else {
        Seq::empty()
    }
}

/// The address of a `server ADDR ...;` line inside an upstream block.
pub open spec fn server_addr(line: Seq<char>) -> Option<Seq<char>> {
    let t = trim(line);
    if starts_with(t, "server "@) {
        let a = field_prefix(drop_seps(after_prefix(t, "server "@)));
        if a.len() > 0 {
            Some(a)
        } else {
            None
        }
    } else {
        None
    }
}

/// The first server address among the lines of an upstream body.
pub open spec fn first_server(ls: Seq<Seq<char>>) -> Option<Seq<char>>
    decreases ls.len(),
{
    if ls.len() == 0 {
        None
    } else {
        match server_addr(ls[0]) {
            Some(a) => Some(a),
            None => first_server(ls.drop_first()),
        }
    }
}

/// Name and first server of every named upstream block that has one, in order.
pub open spec fn upstream_entries(bs: Seq<(Seq<char>, Seq<char>)>) -> Seq<(Seq<char>, Seq<char>)>
    decreases bs.len(),
{
    if bs.len() == 0 {
        Seq::empty()
    } else {
        let name = upstream_name(bs[0].0);
        let rest = upstream_entries(bs.drop_first());
        if name.len() == 0 {
            rest
        } else {
            match first_server(lines(bs[0].1)) {
                Some(a) => seq![(name, a)] + rest,
                None => rest,
            }
        }
    }
}

/// The upstreams of a config, in the order they are declared.
pub open spec fn upstreams_of(input: Seq<char>) -> Seq<(Seq<char>, Seq<char>)> {
    upstream_entries(blocks_of(input, "upstream"@))
}

/// The address recorded for upstream `k`: a later declaration replaces an earlier one.
pub open spec fn lookup(es: Seq<(Seq<char>, Seq<char>)>, k: Seq<char>) -> Option<Seq<char>>
    decreases es.len(),
{
    if es.len() == 0 {
        None
    } else if es.last().0 == k {
        Some(es.last().1)
    } else {
        lookup(es.drop_last(), k)
    }
}

fn trim_bw(v: &Vec<char>) -> (r: Vec<char>)
    ensures
        r@ == trim_bw_end(trim_bw_start(v@)),
{
    let mut a: usize = 0;
    assert(v@.subrange(0, v.len() as int) =~= v@);
    while a < v.len() && (v[a] == '{' || is_ws_char(v[a]))
        invariant
            a <= v.len(),
            trim_bw_start(v@) == trim_bw_start(v@.subrange(a as int, v.len() as int)),
        decreases v.len() - a,
    {
        assert(v@.subrange(a as int, v.len() as int).drop_first() =~= v@.subrange(
            a + 1,
            v.len() as int,
        ));
        a = a + 1;
    }
    let mut b = v.len();
    assert(trim_bw_start(v@) == v@.subrange(a as int, b as int));
    while b > a && (v[b - 1] == '{' || is_ws_char(v[b - 1]))
        invariant
            a <= b <= v.len(),
            trim_bw_end(trim_bw_start(v@)) == trim_bw_end(v@.subrange(a as int, b as int)),
        decreases b - a,
    {
        assert(v@.subrange(a as int, b as int).drop_last() =~= v@.subrange(a as int, b - 1));
        b = b - 1;
    }
    slice(v, a, b)
}

proof fn lemma_field_prefix(s: Seq<char>)
    ensures
        field_prefix(s).len() <= s.len(),
        field_prefix(s) == s.subrange(0, field_prefix(s).len() as int),
        field_prefix(s).len() < s.len() ==> is_addr_sep(s[field_prefix(s).len() as int]),
        forall|i: int| 0 <= i < field_prefix(s).len() ==> !is_addr_sep(#[trigger] s[i]),
    decreases s.len(),
{
    if s.len() > 0 && !is_addr_sep(s[0]) {
        lemma_field_prefix(s.drop_first());
        assert(field_prefix(s) =~= s.subrange(0, field_prefix(s).len() as int));
        assert forall|i: int| 0 <= i < field_prefix(s).len() implies !is_addr_sep(
            #[trigger] s[i],
        ) by {
            if i > 0 {
                assert(s[i] == s.drop_first()[i - 1]);
            }
        }
    } else {
        assert(field_prefix(s) =~= s.subrange(0, 0));
    }
}

/// The first field of `v`: `v.split(sep).find(|s| !s.is_empty())`, or empty.
fn first_field(v: &Vec<char>) -> (r: Vec<char>)
    ensures
        r@ == field_prefix(drop_seps(v@)),
{
    let mut a: usize = 0;
    assert(v@.subrange(0, v.len() as int) =~= v@);
    while a < v.len() && (v[a] == ';' || is_ws_char(v[a]))
        invariant
            a <= v.len(),
            drop_seps(v@) == drop_seps(v@.subrange(a as int, v.len() as int)),
        decreases v.len() - a,
    {
        assert(v@.subrange(a as int, v.len() as int).drop_first() =~= v@.subrange(
            a + 1,
            v.len() as int,
        ));
        a = a + 1;
    }
    let ghost t = v@.subrange(a as int, v.len() as int);
    assert(drop_seps(v@) == t);
    let mut b = a;
    while b < v.len() && !(v[b] == ';' || is_ws_char(v[b]))
        invariant
            a <= b <= v.len(),
            forall|k: int| a <= k < b ==> !is_addr_sep(#[trigger] v@[k]),
        decreases v.len() - b,
    {
        b = b + 1;
    }
    proof {
        lemma_field_prefix(t);
        let n = field_prefix(t).len() as int;
        assert(n == b - a) by {
            if n < b - a {
                assert(is_addr_sep(t[n]));
                assert(t[n] == v@[a + n]);
            }
            if n > b - a {
                assert(!is_addr_sep(t[b - a]));
                assert(t[b - a] == v@[b as int]);
            }
        }
        assert(field_prefix(t) =~= v@.subrange(a as int, b as int));
    }
    slice(v, a, b)
}

/// The address of a `server` line of an upstream body.
fn server_addr_exec(line: &Vec<char>) -> (r: Option<Vec<char>>)
    ensures
        match r {
            Some(a) => server_addr(line@) == Some(a@),
            None => server_addr(line@) is None,
        },
{
    let t = trim_vec(line);
    if starts_with_str(&t, "server ") {
        let n = chars_of("server ");
        let rest = after_prefix_vec(&t, n.len());
        let a = first_field(&rest);
        if a.len() > 0 {
            Some(a)
        } else {
            None
        }
    } else {
        None
    }
}

/// The upstream blocks of `input` as name / address pairs, in declaration order.
fn extract_upstreams(input: &Vec<char>) -> (r: Vec<(Vec<char>, Vec<char>)>)
    ensures
        pair_views(r@) == upstreams_of(input@),
{
    let blocks = extract_top_blocks_with_header(input, "upstream");
    let ghost bs = pair_views(blocks@);
    let mut result: Vec<(Vec<char>, Vec<char>)> = Vec::new();
    let mut i: usize = 0;
    assert(bs.skip(0) =~= bs);
    while i < blocks.len()
        invariant
            i <= blocks.len(),
            bs == pair_views(blocks@),
            bs == blocks_of(input@, "upstream"@),
            upstream_entries(bs) == pair_views(result@) + upstream_entries(bs.skip(i as int)),
        decreases blocks.len() - i,
    {
        let ghost cur = bs.skip(i as int);
        assert(cur[0] == (blocks@[i as int].0@, blocks@[i as int].1@));
        assert(cur.drop_first() =~= bs.skip(i + 1));
        let words = words_vec(&blocks[i].0);
        let name = if words.len() > 1 {
            assert(views(words@)[1] == words@[1]@);
            trim_bw(&words[1])
        } else {
            Vec::new()
        };
        assert(name@ == upstream_name(cur[0].0));
        if name.len() > 0 {
            let ls = split_lines(&blocks[i].1);
            let ghost lsv = lines(cur[0].1);
            let mut j: usize = 0;
            let mut found: Option<Vec<char>> = None;
            assert(lsv.skip(0) =~= lsv);
            while j < ls.len()
                invariant_except_break
                    found is None,
                    first_server(lsv) == first_server(lsv.skip(j as int)),
                invariant
                    j <= ls.len(),
                    views(ls@) == lsv,
                    lsv.len() == ls.len(),
                ensures
                    found matches Some(a) ==> first_server(lsv) == Some(a@),
                    found is None ==> first_server(lsv) is None,
                decreases ls.len() - j,
            {
                assert(lsv.skip(j as int)[0] == ls@[j as int]@);
                assert(lsv.skip(j as int).drop_first() =~= lsv.skip(j + 1));
                match server_addr_exec(&ls[j]) {
                    Some(a) => {
                        found = Some(a);
                        break;
                    },
                    None => {},
                }
                j = j + 1;
            }
            match found {
                Some(a) => {
                    let ghost old_r = result@;
                    assert(first_server(lsv) == Some(a@));
                    result.push((name, a));
                    assert(pair_views(result@) =~= pair_views(old_r) + seq![(name@, a@)]);
                },
                None => {},
            }
        }
        i = i + 1;
    }
    assert(pair_views(result@) + upstream_entries(bs.skip(i as int)) =~= pair_views(result@));
    result
}

/// The address recorded for upstream `k`.
fn lookup_exec(es: &Vec<(Vec<char>, Vec<char>)>, k: &Vec<char>) -> (r: Option<Vec<char>>)
    ensures
        match r {
            Some(v) => lookup(pair_views(es@), k@) == Some(v@),
            None => lookup(pair_views(es@), k@) is None,
        },
{
    let mut m = es.len();
    assert(pair_views(es@).take(m as int) =~= pair_views(es@));
    while m > 0
        invariant
            m <= es.len(),
            lookup(pair_views(es@), k@) == lookup(pair_views(es@).take(m as int), k@),
        decreases m,
    {
        let ghost t = pair_views(es@).take(m as int);
        assert(t.last() == (es@[m - 1].0@, es@[m - 1].1@));
        if vec_eq(&es[m - 1].0, k) {
            return Some(es[m - 1].1.clone());
        }
        assert(t.drop_last() =~= pair_views(es@).take(m - 1));
        m = m - 1;
    }
    None
}


// ───────────────────────────── directives ─────────────────────────────

/// The value of `d` on a line, when the line holds that directive:
/// `Some(None)` when it holds it with no value.
pub open spec fn directive_on_line(line: Seq<char>, d: Seq<char>) -> Option<Option<Seq<char>>> {
    let t = trim(line);
    if !starts_with(t, d) {
        None
    } else {
        let rest = after_prefix(t, d);
        if !(rest.len() > 0 && (rest[0] == ' ' || rest[0] == '\t')) {
            None
        } else {
            Some(first_word(trim(trim_end_char(trim(rest), ';'))))
        }
    }
}

/// The value of the first line of `ls` that holds directive `d`.
pub open spec fn directive_value(ls: Seq<Seq<char>>, d: Seq<char>) -> Option<Seq<char>>
    decreases ls.len(),
{
    if ls.len() == 0 {
        None
    } else {
        match directive_on_line(ls[0], d) {
            Some(v) => v,
            None => directive_value(ls.drop_first(), d),
        }
    }
}

/// The first value of directive `directive` in `block`.
fn find_directive_value(block: &Vec<char>, directive: &str) -> (r: Option<Vec<char>>)
    ensures
        match r {
            Some(v) => directive_value(lines(block@), directive@) == Some(v@),
            None => directive_value(lines(block@), directive@) is None,
        },
{
    let ls = split_lines(block);
    let dv = chars_of(directive);
    let ghost lsv = lines(block@);
    let mut i: usize = 0;
    assert(lsv.skip(0) =~= lsv);
    while i < ls.len()
        invariant
            i <= ls.len(),
            views(ls@) == lsv,
            lsv == lines(block@),
            dv@ == directive@,
            directive_value(lsv, directive@) == directive_value(lsv.skip(i as int), directive@),
        decreases ls.len() - i,
    {
        assert(lsv.skip(i as int)[0] == ls@[i as int]@);
        assert(lsv.skip(i as int).drop_first() =~= lsv.skip(i + 1));
        let t = trim_vec(&ls[i]);
        if starts_with_str(&t, directive) {
            let rest = after_prefix_vec(&t, dv.len());
            if rest.len() > 0 && (rest[0] == ' ' || rest[0] == '\t') {
                let r1 = trim_vec(&rest);
                let r2 = trim_end_char_vec(&r1, ';');
                let value = trim_vec(&r2);
                assert(t@ == trim(lsv.skip(i as int)[0]));
                assert(directive_on_line(lsv.skip(i as int)[0], directive@) == Some(
                    first_word(value@),
                ));
                assert(directive_value(lsv, directive@) == first_word(value@));
                return first_word_exec(&value);
            }
        }
        i = i + 1;
    }
    None
}

// ───────────────────────────── proxy targets ─────────────────────────────

/// The target of a trimmed `proxy_pass` line.
pub open spec fn proxy_target(t: Seq<char>) -> Seq<char> {
    trim(trim_end_char(trim(after_prefix(t, "proxy_pass"@)), ';'))
}

fn proxy_target_exec(t: &Vec<char>) -> (r: Vec<char>)
    requires
        starts_with(t@, "proxy_pass"@),
    ensures
        r@ == proxy_target(t@),
{
    let n = chars_of("proxy_pass");
    let rest = after_prefix_vec(t, n.len());
    let r1 = trim_vec(&rest);
    let r2 = trim_end_char_vec(&r1, ';');
    trim_vec(&r2)
}

/// The path a location header names.
pub open spec fn location_path(header: Seq<char>) -> Seq<char> {
    match first_word(trim(trim_start_str(header, "location"@))) {
        Some(w) => w,
        None => Seq::empty(),
    }
}

/// The target of the first `proxy_pass` line of `ls`.
pub open spec fn first_proxy(ls: Seq<Seq<char>>) -> Option<Seq<char>>
    decreases ls.len(),
{
    if ls.len() == 0 {
        None
    } else if starts_with(trim(ls[0]), "proxy_pass"@) {
        Some(proxy_target(trim(ls[0])))
    } else {
        first_proxy(ls.drop_first())
    }
}

/// The `proxy_pass` target of the first location block for `path` that has one.
pub open spec fn location_proxy(bs: Seq<(Seq<char>, Seq<char>)>, path: Seq<char>) -> Option<
    Seq<char>,
>
    decreases bs.len(),
{
    if bs.len() == 0 {
        None
    } else if location_path(bs[0].0) == path && first_proxy(lines(bs[0].1)) is Some {
        first_proxy(lines(bs[0].1))
    } else {
        location_proxy(bs.drop_first(), path)
    }
}

fn first_proxy_exec(body: &Vec<char>) -> (r: Option<Vec<char>>)
    ensures
        match r {
            Some(v) => first_proxy(lines(body@)) == Some(v@),
            None => first_proxy(lines(body@)) is None,
        },
{
    let ls = split_lines(body);
    let ghost lsv = lines(body@);
    let mut i: usize = 0;
    assert(lsv.skip(0) =~= lsv);
    while i < ls.len()
        invariant
            i <= ls.len(),
            views(ls@) == lsv,
            lsv == lines(body@),
            first_proxy(lsv) == first_proxy(lsv.skip(i as int)),
        decreases ls.len() - i,
    {
        assert(lsv.skip(i as int)[0] == ls@[i as int]@);
        assert(lsv.skip(i as int).drop_first() =~= lsv.skip(i + 1));
        let t = trim_vec(&ls[i]);
        if starts_with_str(&t, "proxy_pass") {
            let pt = proxy_target_exec(&t);
            assert(t@ == trim(lsv.skip(i as int)[0]));
            assert(first_proxy(lsv) == Some(pt@));
            return Some(pt);
        }
        i = i + 1;
    }
    None
}

/// The `proxy_pass` target of the `location` block for `path`.
fn find_location_proxy_pass(block: &Vec<char>, path: &str) -> (r: Option<Vec<char>>)
    ensures
        match r {
            Some(v) => location_proxy(blocks_of(block@, "location"@), path@) == Some(v@),
            None => location_proxy(blocks_of(block@, "location"@), path@) is None,
        },
{
    let bs = extract_top_blocks_with_header(block, "location");
    let ghost bsv = pair_views(bs@);
    let mut i: usize = 0;
    assert(bsv.skip(0) =~= bsv);
    while i < bs.len()
        invariant
            i <= bs.len(),
            bsv == pair_views(bs@),
            bsv == blocks_of(block@, "location"@),
            location_proxy(bsv, path@) == location_proxy(bsv.skip(i as int), path@),
        decreases bs.len() - i,
    {
        assert(bsv.skip(i as int)[0] == (bs@[i as int].0@, bs@[i as int].1@));
        assert(bsv.skip(i as int).drop_first() =~= bsv.skip(i + 1));
        let h1 = trim_start_str_vec(&bs[i].0, "location");
        let h2 = trim_vec(&h1);
        let hp = match first_word_exec(&h2) {
            Some(w) => w,
            None => Vec::new(),
        };
        if eq_str(&hp, path) {
            match first_proxy_exec(&bs[i].1) {
                Some(t) => {
                    return Some(t);
                },
                None => {},
            }
        }
        i = i + 1;
    }
    None
}

// ───────────────────────────── ports ─────────────────────────────

/// The `host:port` part of a proxy target.
pub open spec fn target_host_port(target: Seq<char>) -> Seq<char> {
    let stripped = trim_start_str(trim_start_str(target, "http://"@), "https://"@);
    stripped.subrange(0, index_of_char_from(stripped, '/', 0))
}

/// The port a proxy target reaches, through an upstream when it names one.
pub open spec fn extract_port_spec(target: Seq<char>, ups: Seq<(Seq<char>, Seq<char>)>) -> Option<
    u16,
> {
    let hp = target_host_port(target);
    match lookup(ups, hp) {
        Some(addr) => parse_u16(trim(after_last(addr, ':'))),
        None => if rindex_of_char(hp, ':') >= 0 {
            parse_u16(after_last(hp, ':'))
        } else {
            None
        },
    }
}

fn extract_port(target: &Vec<char>, upstreams: &Vec<(Vec<char>, Vec<char>)>) -> (r: Option<u16>)
    ensures
        r == extract_port_spec(target@, pair_views(upstreams@)),
{
    let s1 = trim_start_str_vec(target, "http://");
    let stripped = trim_start_str_vec(&s1, "https://");
    let slash = index_of_char(&stripped, '/', 0);
    let host_port = slice(&stripped, 0, slash);
    match lookup_exec(upstreams, &host_port) {
        Some(addr) => {
            let p = after_last_exec(&addr, ':');
            let t = trim_vec(&p);
            parse_u16_exec(&t)
        },
        None => {
            proof {
                lemma_rindex_of_char(host_port@, ':');
            }
            match rindex_of_char_exec(&host_port, ':') {
                Some(_) => {
                    let p = after_last_exec(&host_port, ':');
                    parse_u16_exec(&p)
                },
                None => None,
            }
        },
    }
}

/// The port of the first `proxy_pass` line of `ls` whose target names one.
pub open spec fn proxy_port_lines(ls: Seq<Seq<char>>, ups: Seq<(Seq<char>, Seq<char>)>) -> Option<
    u16,
>
    decreases ls.len(),
{
    if ls.len() == 0 {
        None
    } else if starts_with(trim(ls[0]), "proxy_pass"@) && extract_port_spec(
        proxy_target(trim(ls[0])),
        ups,
    ) is Some {
        extract_port_spec(proxy_target(trim(ls[0])), ups)
    } else {
        proxy_port_lines(ls.drop_first(), ups)
    }
}

/// The port of the main upstream of a server block: that of `location /`,
/// else that of the first `proxy_pass` naming one.
pub open spec fn main_upstream_port(block: Seq<char>, ups: Seq<(Seq<char>, Seq<char>)>) -> Option<
    u16,
> {
    match location_proxy(blocks_of(block, "location"@), "/"@) {
        Some(t) if extract_port_spec(t, ups) is Some => extract_port_spec(t, ups),
        _ => proxy_port_lines(lines(block), ups),
    }
}

fn find_main_upstream_port(block: &Vec<char>, upstreams: &Vec<(Vec<char>, Vec<char>)>) -> (r:
    Option<u16>)
    ensures
        r == main_upstream_port(block@, pair_views(upstreams@)),
{
    match find_location_proxy_pass(block, "/") {
        Some(target) => {
            match extract_port(&target, upstreams) {
                Some(p) => {
                    return Some(p);
                },
                None => {},
            }
        },
        None => {},
    }
    let ls = split_lines(block);
    let ghost lsv = lines(block@);
    let ghost ups = pair_views(upstreams@);
    let mut i: usize = 0;
    assert(lsv.skip(0) =~= lsv);
    while i < ls.len()
        invariant
            i <= ls.len(),
            views(ls@) == lsv,
            ups == pair_views(upstreams@),
            main_upstream_port(block@, ups) == proxy_port_lines(lsv.skip(i as int), ups),
        decreases ls.len() - i,
    {
        assert(lsv.skip(i as int)[0] == ls@[i as int]@);
        assert(lsv.skip(i as int).drop_first() =~= lsv.skip(i + 1));
        let t = trim_vec(&ls[i]);
        if starts_with_str(&t, "proxy_pass") {
            let target = proxy_target_exec(&t);
            match extract_port(&target, upstreams) {
                Some(p) => {
                    return Some(p);
                },
                None => {},
            }
        }
        i = i + 1;
    }
    None
}


// ───────────────────────────── cleaning ─────────────────────────────

/// A host that designates the main upstream of the imported server.
pub open spec fn is_main_host(hp: Seq<char>, ups: Seq<(Seq<char>, Seq<char>)>) -> bool {
    ||| lookup(ups, hp) is Some
    ||| hp == "localhost"@
    ||| starts_with(hp, "localhost:"@)
    ||| starts_with(hp, "127.0.0.1"@)
}

/// A proxy target with its main-upstream host replaced by `$UPSTREAM`.
pub open spec fn rewrite_target_spec(target: Seq<char>, ups: Seq<(Seq<char>, Seq<char>)>) -> Seq<
    char,
> {
    let scheme = if starts_with(target, "https://"@) {
        "https://"@
    } else {
        "http://"@
    };
    if !starts_with(target, "https://"@) && !starts_with(target, "http://"@) {
        target
    } else {
        let rest = after_prefix(target, scheme);
        let i = index_of_char_from(rest, '/', 0);
        if is_main_host(rest.subrange(0, i), ups) {
            "$UPSTREAM"@ + rest.subrange(i, rest.len() as int)
        } else {
            target
        }
    }
}

/// A `proxy_pass` line rewritten to `$UPSTREAM` when it targets the main upstream.
pub open spec fn rewrite_proxy_pass_spec(line: Seq<char>, ups: Seq<(Seq<char>, Seq<char>)>) -> Seq<
    char,
> {
    let t = trim(line);
    if !starts_with(t, "proxy_pass"@) {
        line
    } else {
        leading_ws(line) + "proxy_pass "@ + rewrite_target_spec(proxy_target(t), ups) + ";"@
    }
}

/// Lines of a production server block that have no place in a dev config.
pub open spec fn dropped_line(t: Seq<char>) -> bool {
    ||| starts_with(t, "listen "@)
    ||| starts_with(t, "listen\t"@)
    ||| starts_with(t, "server_name "@)
    ||| starts_with(t, "server_name\t"@)
    ||| starts_with(t, "ssl_certificate"@)
    ||| starts_with(t, "ssl_protocols"@)
    ||| starts_with(t, "ssl_ciphers"@)
    ||| starts_with(t, "ssl_dhparam"@)
    ||| starts_with(t, "ssl_session"@)
    ||| (starts_with(t, "include"@) && contains(t, "letsencrypt"@))
    ||| starts_with(t, "access_log "@)
    ||| starts_with(t, "error_log "@)
    ||| starts_with(t, "root "@)
    ||| (starts_with(t, "if ("@) && contains(t, "$host"@))
    ||| (starts_with(t, "return 301"@) && contains(t, "https://"@))
}

/// The kept lines of a server block, each followed by `'\n'`.
pub open spec fn cleaned_lines(ls: Seq<Seq<char>>, ups: Seq<(Seq<char>, Seq<char>)>) -> Seq<char>
    decreases ls.len(),
{
    if ls.len() == 0 {
        Seq::empty()
    } else {
        let t = trim(ls[0]);
        let rest = cleaned_lines(ls.drop_first(), ups);
        if dropped_line(t) {
            rest
        } else if starts_with(t, "proxy_pass "@) || starts_with(t, "proxy_pass\t"@) {
            rewrite_proxy_pass_spec(ls[0], ups) + seq!['\n'] + rest
        } else {
            ls[0] + seq!['\n'] + rest
        }
    }
}

/// Lines with runs of blank lines cut to one, each followed by `'\n'`.
pub open spec fn squash_lines(ls: Seq<Seq<char>>, prev_blank: bool) -> Seq<char>
    decreases ls.len(),
{
    if ls.len() == 0 {
        Seq::empty()
    } else {
        let blank = trim(ls[0]).len() == 0;
        if blank && prev_blank {
            squash_lines(ls.drop_first(), prev_blank)
        } else {
            ls[0] + seq!['\n'] + squash_lines(ls.drop_first(), blank)
        }
    }
}

/// `s` with each run of blank lines reduced to one.
pub open spec fn squash_spec(s: Seq<char>) -> Seq<char> {
    squash_lines(lines(s), false)
}

/// A server block cleaned of production-only directives.
pub open spec fn clean_server_body_spec(block: Seq<char>, ups: Seq<(Seq<char>, Seq<char>)>) -> Seq<
    char,
> {
    squash_spec(cleaned_lines(lines(trim(block)), ups))
}

/// One line indented by `prefix`, or empty when blank.
pub open spec fn indent_line(l: Seq<char>, prefix: Seq<char>) -> Seq<char> {
    if trim(l).len() == 0 {
        Seq::empty()
    } else {
        prefix + trim_end(l)
    }
}

/// Every line of `s` indented by `prefix`, joined by `'\n'`.
pub open spec fn indent_lines_spec(s: Seq<char>, prefix: Seq<char>) -> Seq<char> {
    join_sep_nl(lines(s).map_values(|l: Seq<char>| indent_line(l, prefix)))
}

/// The head of the dev template that an imported server body is placed in.
pub const TEMPLATE_HEAD: &'static str = "server {\n    listen 443 ssl;\n    http2  on;\n    server_name $DOMAIN;\n\n    ssl_certificate     \"$CERT_PATH\";\n    ssl_certificate_key \"$KEY_PATH\";\n    ssl_protocols       TLSv1.2 TLSv1.3;\n    ssl_ciphers         HIGH:!aNULL:!MD5;\n    ssl_session_cache   shared:SSL:1m;\n\n    # --- Imported from prod ---\n";

/// The close of the dev template.
pub const TEMPLATE_TAIL: &'static str = "\n}\n";

/// The dev server template around a cleaned body.
pub open spec fn server_template(cleaned: Seq<char>) -> Seq<char> {
    TEMPLATE_HEAD@ + indent_lines_spec(trim(cleaned), "    "@) + TEMPLATE_TAIL@
}

fn rewrite_target(target: &Vec<char>, upstreams: &Vec<(Vec<char>, Vec<char>)>) -> (r: Vec<char>)
    ensures
        r@ == rewrite_target_spec(target@, pair_views(upstreams@)),
{
    let n: usize = if starts_with_str(target, "https://") {
        8
    } else if starts_with_str(target, "http://") {
        7
    } else {
        return slice(target, 0, target.len());
    };
    proof {
        reveal_strlit("https://");
        reveal_strlit("http://");
    }
    let rest = after_prefix_vec(target, n);
    let i = index_of_char(&rest, '/', 0);
    let host_port = slice(&rest, 0, i);
    let is_main = lookup_exec(upstreams, &host_port).is_some() || eq_str(&host_port, "localhost")
        || starts_with_str(&host_port, "localhost:") || starts_with_str(&host_port, "127.0.0.1");
    if is_main {
        let mut out = chars_of("$UPSTREAM");
        let path = slice(&rest, i, rest.len());
        push_all(&mut out, &path);
        out
    } else {
        slice(target, 0, target.len())
    }
}

fn rewrite_proxy_pass(line: &Vec<char>, upstreams: &Vec<(Vec<char>, Vec<char>)>) -> (r: Vec<char>)
    ensures
        r@ == rewrite_proxy_pass_spec(line@, pair_views(upstreams@)),
{
    let t = trim_vec(line);
    if !starts_with_str(&t, "proxy_pass") {
        return slice(line, 0, line.len());
    }
    let target = proxy_target_exec(&t);
    let new_target = rewrite_target(&target, upstreams);
    let mut out = leading_ws_vec(line);
    push_str(&mut out, "proxy_pass ");
    push_all(&mut out, &new_target);
    push_str(&mut out, ";");
    out
}

fn is_dropped_line(t: &Vec<char>) -> (b: bool)
    ensures
        b == dropped_line(t@),
{
    starts_with_str(t, "listen ") || starts_with_str(t, "listen\t") || starts_with_str(
        t,
        "server_name ",
    ) || starts_with_str(t, "server_name\t") || starts_with_str(t, "ssl_certificate")
        || starts_with_str(t, "ssl_protocols") || starts_with_str(t, "ssl_ciphers")
        || starts_with_str(t, "ssl_dhparam") || starts_with_str(t, "ssl_session") || (
    starts_with_str(t, "include") && contains_str(t, "letsencrypt")) || starts_with_str(
        t,
        "access_log ",
    ) || starts_with_str(t, "error_log ") || starts_with_str(t, "root ") || (starts_with_str(
        t,
        "if (",
    ) && contains_str(t, "$host")) || (starts_with_str(t, "return 301") && contains_str(
        t,
        "https://",
    ))
}

/// Collapse runs of blank lines to a single one.
fn squash_blank_lines(s: &Vec<char>) -> (r: Vec<char>)
    ensures
        r@ == squash_spec(s@),
{
    let ls = split_lines(s);
    let ghost lsv = lines(s@);
    let mut out: Vec<char> = Vec::new();
    let mut prev_blank = false;
    let mut i: usize = 0;
    assert(lsv.skip(0) =~= lsv);
    while i < ls.len()
        invariant
            i <= ls.len(),
            views(ls@) == lsv,
            squash_lines(lsv, false) == out@ + squash_lines(lsv.skip(i as int), prev_blank),
        decreases ls.len() - i,
    {
        assert(lsv.skip(i as int)[0] == ls@[i as int]@);
        assert(lsv.skip(i as int).drop_first() =~= lsv.skip(i + 1));
        let t = trim_vec(&ls[i]);
        let blank = t.len() == 0;
        if !(blank && prev_blank) {
            let ghost old_out = out@;
            push_all(&mut out, &ls[i]);
            out.push('\n');
            assert(out@ =~= old_out + ls@[i as int]@ + seq!['\n']);
            prev_blank = blank;
        }
        i = i + 1;
    }
    assert(out@ + squash_lines(lsv.skip(i as int), prev_blank) =~= out@);
    out
}

/// Drop the production-only lines of a server block and point its main
/// `proxy_pass` at `$UPSTREAM`.
fn clean_server_body(block: &Vec<char>, upstreams: &Vec<(Vec<char>, Vec<char>)>) -> (r: Vec<char>)
    ensures
        r@ == clean_server_body_spec(block@, pair_views(upstreams@)),
{
    let body = trim_vec(block);
    let ls = split_lines(&body);
    let ghost lsv = lines(body@);
    let ghost ups = pair_views(upstreams@);
    let mut out: Vec<char> = Vec::new();
    let mut i: usize = 0;
    assert(lsv.skip(0) =~= lsv);
    while i < ls.len()
        invariant
            i <= ls.len(),
            views(ls@) == lsv,
            ups == pair_views(upstreams@),
            cleaned_lines(lsv, ups) == out@ + cleaned_lines(lsv.skip(i as int), ups),
        decreases ls.len() - i,
    {
        assert(lsv.skip(i as int)[0] == ls@[i as int]@);
        assert(lsv.skip(i as int).drop_first() =~= lsv.skip(i + 1));
        let t = trim_vec(&ls[i]);
        let ghost old_out = out@;
        if is_dropped_line(&t) {
        } else if starts_with_str(&t, "proxy_pass ") || starts_with_str(&t, "proxy_pass\t") {
            let rewritten = rewrite_proxy_pass(&ls[i], upstreams);
            push_all(&mut out, &rewritten);
            out.push('\n');
            assert(out@ =~= old_out + rewritten@ + seq!['\n']);
        } else {
            push_all(&mut out, &ls[i]);
            out.push('\n');
            assert(out@ =~= old_out + ls@[i as int]@ + seq!['\n']);
        }
        i = i + 1;
    }
    assert(out@ + cleaned_lines(lsv.skip(i as int), ups) =~= out@);
    squash_blank_lines(&out)
}

/// Indent every non-blank line by `prefix`; blank lines become empty.
fn indent_lines(s: &Vec<char>, prefix: &str) -> (r: Vec<char>)
    ensures
        r@ == indent_lines_spec(s@, prefix@),
{
    let ls = split_lines(s);
    let ghost m = lines(s@).map_values(|l: Seq<char>| indent_line(l, prefix@));
    let mut out: Vec<char> = Vec::new();
    let mut i: usize = 0;
    assert(m.skip(0) =~= m);
    while i < ls.len()
        invariant
            i <= ls.len(),
            views(ls@) == lines(s@),
            m == lines(s@).map_values(|l: Seq<char>| indent_line(l, prefix@)),
            join_sep_nl(m) == out@ + sep_tail(m.skip(i as int), i > 0),
        decreases ls.len() - i,
    {
        let ghost cur = m.skip(i as int);
        assert(cur[0] == indent_line(ls@[i as int]@, prefix@));
        assert(cur.drop_first() =~= m.skip(i + 1));
        proof {
            lemma_join_sep_nl_step(cur);
        }
        let ghost old_out = out@;
        if i > 0 {
            out.push('\n');
        }
        let t = trim_vec(&ls[i]);
        if t.len() > 0 {
            push_str(&mut out, prefix);
            let e = trim_end_vec(&ls[i]);
            push_all(&mut out, &e);
        }
        if i > 0 {
            assert(out@ =~= old_out + seq!['\n'] + cur[0]);
        } else {
            assert(out@ =~= old_out + cur[0]);
        }
        i = i + 1;
    }
    assert(out@ + sep_tail(m.skip(i as int), i > 0) =~= out@);
    out
}

/// The dev server template around a cleaned body.
fn build_server_template(cleaned_body: &Vec<char>) -> (r: Vec<char>)
    ensures
        r@ == server_template(cleaned_body@),
{
    let mut out = chars_of(TEMPLATE_HEAD);
    let t = trim_vec(cleaned_body);
    let body = indent_lines(&t, "    ");
    push_all(&mut out, &body);
    push_str(&mut out, TEMPLATE_TAIL);
    out
}


// ───────────────────────────── prod → dev ─────────────────────────────

/// What importing a production config gives: a dev template, the upstream it
/// pointed at, and its server name.
pub struct ImportedNginx {
    pub advanced_config: String,
    pub suggested_upstream: Option<String>,
    pub server_name: Option<String>,
}

/// The error when a config holds no server block.
pub const NO_SERVER_BLOCK: &'static str = "Không tìm thấy server block trong config";

/// A server block that serves HTTPS.
pub open spec fn is_https_block(b: Seq<char>) -> bool {
    contains(b, "ssl_certificate"@) || contains(b, "listen 443"@) || contains(b, "listen\t443"@)
}

/// The first HTTPS block among `bs`.
pub open spec fn first_https(bs: Seq<Seq<char>>) -> Option<Seq<char>>
    decreases bs.len(),
{
    if bs.len() == 0 {
        None
    } else if is_https_block(bs[0]) {
        Some(bs[0])
    } else {
        first_https(bs.drop_first())
    }
}

/// The server block an import works on: the first HTTPS one, else the first.
pub open spec fn chosen_server(input: Seq<char>) -> Option<Seq<char>> {
    let bodies = blocks_of(input, "server"@).map_values(|p: (Seq<char>, Seq<char>)| p.1);
    match first_https(bodies) {
        Some(b) => Some(b),
        None => if bodies.len() > 0 {
            Some(bodies[0])
        } else {
            None
        },
    }
}

/// The upstream URL for a detected port.
pub open spec fn upstream_url(p: Option<u16>) -> Option<Seq<char>> {
    match p {
        Some(n) => Some("http://127.0.0.1:"@ + decimal(n as nat)),
        None => None,
    }
}

/// Turn a production nginx config into a HyperHost dev template.
pub fn convert_prod_to_dev(input: &str) -> (r: Result<ImportedNginx, String>)
    ensures
        match r {
            Ok(v) => {
                &&& chosen_server(input@) is Some
                &&& ({
                    let b = chosen_server(input@)->0;
                    let ups = upstreams_of(input@);
                    &&& v.advanced_config@ == server_template(clean_server_body_spec(b, ups))
                    &&& opt_view(v.suggested_upstream) == upstream_url(main_upstream_port(b, ups))
                    &&& opt_view(v.server_name) == directive_value(lines(b), "server_name"@)
                })
            },
            Err(e) => chosen_server(input@) is None && e@ == NO_SERVER_BLOCK@,
        },
{
    let inp = chars_of(input);
    let upstreams = extract_upstreams(&inp);
    let server_blocks = extract_top_blocks(&inp, "server");
    let ghost bodies = blocks_of(inp@, "server"@).map_values(|p: (Seq<char>, Seq<char>)| p.1);
    let mut chosen: Option<usize> = None;
    let mut i: usize = 0;
    assert(bodies.skip(0) =~= bodies);
    while i < server_blocks.len()
        invariant_except_break
            chosen is None,
            first_https(bodies) == first_https(bodies.skip(i as int)),
        invariant
            i <= server_blocks.len(),
            views(server_blocks@) == bodies,
        ensures
            chosen matches Some(k) ==> k < server_blocks.len() && first_https(bodies) == Some(
                bodies[k as int],
            ),
            chosen is None ==> first_https(bodies) is None,
        decreases server_blocks.len() - i,
    {
        assert(bodies.skip(i as int)[0] == server_blocks@[i as int]@);
        assert(bodies.skip(i as int).drop_first() =~= bodies.skip(i + 1));
        let b = &server_blocks[i];
        if contains_str(b, "ssl_certificate") || contains_str(b, "listen 443") || contains_str(
            b,
            "listen\t443",
        ) {
            chosen = Some(i);
            break;
        }
        i = i + 1;
    }
    let idx = match chosen {
        Some(k) => k,
        None => {
            if server_blocks.len() == 0 {
                return Err(NO_SERVER_BLOCK.to_string());
            }
            assert(views(server_blocks@)[0] == server_blocks@[0]@);
            0
        },
    };
    let https_block = &server_blocks[idx];
    assert(chosen_server(input@) == Some(https_block@));
    let server_name = find_directive_value(https_block, "server_name");
    let port = find_main_upstream_port(https_block, &upstreams);
    let cleaned = clean_server_body(https_block, &upstreams);
    let advanced = build_server_template(&cleaned);
    let suggested = match port {
        Some(p) => {
            let mut u = chars_of("http://127.0.0.1:");
            push_decimal(&mut u, p as u64);
            Some(string_of(&u))
        },
        None => None,
    };
    let name = match server_name {
        Some(n) => Some(string_of(&n)),
        None => None,
    };
    Ok(ImportedNginx { advanced_config: string_of(&advanced), suggested_upstream: suggested, server_name: name })
}

// ───────────────────────────── dev → prod ─────────────────────────────

/// Lines a production config leaves out.
pub open spec fn prod_skip(t: Seq<char>) -> bool {
    ||| starts_with(t, "ssl_certificate"@)
    ||| starts_with(t, "ssl_protocols"@)
    ||| starts_with(t, "ssl_ciphers"@)
    ||| starts_with(t, "ssl_session"@)
    ||| starts_with(t, "ssl_dhparam"@)
    ||| starts_with(t, "listen 443"@)
    ||| starts_with(t, "listen\t443"@)
    ||| t == "http2 on;"@
    ||| t == "http2  on;"@
    ||| (starts_with(t, "include"@) && contains(t, "letsencrypt"@))
}

/// A line that opens a server block.
pub open spec fn is_server_open(t: Seq<char>) -> bool {
    starts_with(t, "server "@) || starts_with(t, "server\t"@) || t == "server{"@ || starts_with(
        t,
        "server {"@,
    )
}

/// What is added after the brace of a server block in production.
pub const LISTEN_80_NOTE: &'static str = "    listen 80;\n    # Run: sudo certbot --nginx -d ";

/// The production lines for the dev lines `ls`.
pub open spec fn prod_lines(ls: Seq<Seq<char>>, domain: Seq<char>, inside: bool, injected: bool) -> Seq<
    char,
>
    decreases ls.len(),
{
    if ls.len() == 0 {
        Seq::empty()
    } else {
        let t = trim(ls[0]);
        if is_server_open(t) {
            ls[0] + seq!['\n'] + prod_lines(ls.drop_first(), domain, true, injected)
        } else if inside && !injected && starts_with(t, "{"@) {
            ls[0] + seq!['\n'] + LISTEN_80_NOTE@ + domain + seq!['\n'] + prod_lines(
                ls.drop_first(),
                domain,
                inside,
                true,
            )
        } else if prod_skip(t) {
            prod_lines(ls.drop_first(), domain, inside, injected)
        } else {
            ls[0] + seq!['\n'] + prod_lines(ls.drop_first(), domain, inside, injected)
        }
    }
}

/// A dev config exported for production.
pub open spec fn dev_to_prod_spec(dev: Seq<char>, domain: Seq<char>, upstream: Seq<char>) -> Seq<
    char,
> {
    prod_lines(
        lines(replace_all(replace_all(dev, "$DOMAIN"@, domain), "$UPSTREAM"@, upstream)),
        domain,
        false,
        false,
    )
}

fn is_prod_skip(t: &Vec<char>) -> (b: bool)
    ensures
        b == prod_skip(t@),
{
    starts_with_str(t, "ssl_certificate") || starts_with_str(t, "ssl_protocols")
        || starts_with_str(t, "ssl_ciphers") || starts_with_str(t, "ssl_session")
        || starts_with_str(t, "ssl_dhparam") || starts_with_str(t, "listen 443")
        || starts_with_str(t, "listen\t443") || eq_str(t, "http2 on;") || eq_str(t, "http2  on;")
        || (starts_with_str(t, "include") && contains_str(t, "letsencrypt"))
}

/// Turn a HyperHost dev config into one for production on `prod_domain`,
/// proxying to `prod_upstream`.
pub fn convert_dev_to_prod(dev_config: &str, prod_domain: &str, prod_upstream: &str) -> (r: String)
    ensures
        r@ == dev_to_prod_spec(dev_config@, prod_domain@, prod_upstream@),
{
    let dev = chars_of(dev_config);
    let domain = chars_of(prod_domain);
    let upstream = chars_of(prod_upstream);
    let b1 = replace_str(&dev, "$DOMAIN", &domain);
    let body = replace_str(&b1, "$UPSTREAM", &upstream);
    let ls = split_lines(&body);
    let ghost lsv = lines(body@);
    let mut out: Vec<char> = Vec::new();
    let mut inside = false;
    let mut injected = false;
    let mut i: usize = 0;
    assert(lsv.skip(0) =~= lsv);
    while i < ls.len()
        invariant
            i <= ls.len(),
            views(ls@) == lsv,
            domain@ == prod_domain@,
            prod_lines(lsv, domain@, false, false) == out@ + prod_lines(
                lsv.skip(i as int),
                domain@,
                inside,
                injected,
            ),
        decreases ls.len() - i,
    {
        assert(lsv.skip(i as int)[0] == ls@[i as int]@);
        assert(lsv.skip(i as int).drop_first() =~= lsv.skip(i + 1));
        let line = &ls[i];
        let t = trim_vec(line);
        let ghost old_out = out@;
        let open = starts_with_str(&t, "server ") || starts_with_str(&t, "server\t") || eq_str(
            &t,
            "server{",
        ) || starts_with_str(&t, "server {");
        if open {
            inside = true;
            push_all(&mut out, line);
            out.push('\n');
            assert(out@ =~= old_out + line@ + seq!['\n']);
        } else if inside && !injected && starts_with_str(&t, "{") {
            push_all(&mut out, line);
            out.push('\n');
            push_str(&mut out, LISTEN_80_NOTE);
            push_all(&mut out, &domain);
            out.push('\n');
            assert(out@ =~= old_out + line@ + seq!['\n'] + LISTEN_80_NOTE@ + domain@ + seq!['\n']);
            injected = true;
        } else if is_prod_skip(&t) {
        } else {
            push_all(&mut out, line);
            out.push('\n');
            assert(out@ =~= old_out + line@ + seq!['\n']);
        }
        i = i + 1;
    }
    assert(out@ + prod_lines(lsv.skip(i as int), domain@, inside, injected) =~= out@);
    string_of(&out)
}


/// The server block wrapped round an advanced snippet that is not a whole
/// server block, before it is exported for production.
pub const DEV_SERVER_HEAD: &'static str = "server {\n    listen 443 ssl;\n    http2 on;\n    server_name $DOMAIN;\n\n";

/// The end of that server block.
pub const DEV_SERVER_TAIL: &'static str = "\n\n    location / {\n        proxy_pass $UPSTREAM;\n    }\n}\n";

/// The dev config of a domain whose advanced config is `adv`: the snippet
/// itself when it already starts with `server`, else the snippet inside a
/// server block that proxies to `$UPSTREAM`.
pub open spec fn project_dev_config_spec(adv: Seq<char>) -> Seq<char> {
    if starts_with(trim_start(adv), "server"@) {
        adv
    } else {
        DEV_SERVER_HEAD@ + adv + DEV_SERVER_TAIL@
    }
}

/// The dev config that is exported to a project for a domain with the
/// advanced config `advanced` (none counts as empty).
pub fn project_dev_config(advanced: Option<&str>) -> (r: String)
    ensures
        r@ == project_dev_config_spec(
            match advanced {
                Some(a) => a@,
                None => Seq::empty(),
            },
        ),
{
    let adv = match advanced {
        Some(a) => chars_of(a),
        None => Vec::new(),
    };
    let t = trim_start_vec(&adv);
    if starts_with_str(&t, "server") {
        string_of(&adv)
    } else {
        let mut out = chars_of(DEV_SERVER_HEAD);
        push_all(&mut out, &adv);
        push_str(&mut out, DEV_SERVER_TAIL);
        string_of(&out)
    }
}

/// The first line the production note adds after a server block's brace.
pub open spec fn note_listen() -> Seq<char> {
    "    listen 80;"@
}

/// The second line of that note, before the domain.
pub open spec fn note_certbot() -> Seq<char> {
    "    # Run: sudo certbot --nginx -d "@
}

/// The lines `prod_lines` writes, each followed there by `'\n'`.
pub open spec fn prod_out(ls: Seq<Seq<char>>, domain: Seq<char>, inside: bool, injected: bool) -> Seq<
    Seq<char>,
>
    decreases ls.len(),
{
    if ls.len() == 0 {
        Seq::empty()
    } else {
        let t = trim(ls[0]);
        if is_server_open(t) {
            seq![ls[0]] + prod_out(ls.drop_first(), domain, true, injected)
        } else if inside && !injected && starts_with(t, "{"@) {
            seq![ls[0], note_listen(), note_certbot() + domain] + prod_out(
                ls.drop_first(),
                domain,
                inside,
                true,
            )
        } else if prod_skip(t) {
            prod_out(ls.drop_first(), domain, inside, injected)
        } else {
            seq![ls[0]] + prod_out(ls.drop_first(), domain, inside, injected)
        }
    }
}

proof fn lemma_join_nl_concat(a: Seq<Seq<char>>, b: Seq<Seq<char>>)
    ensures
        join_nl(a + b) == join_nl(a) + join_nl(b),
    decreases a.len(),
{
    if a.len() == 0 {
        assert(a + b =~= b);
        assert(join_nl(a) + join_nl(b) =~= join_nl(b));
    } else {
        assert((a + b).drop_first() =~= a.drop_first() + b);
        assert((a + b)[0] == a[0]);
        lemma_join_nl_concat(a.drop_first(), b);
        assert(join_nl(a + b) =~= join_nl(a) + join_nl(b));
    }
}

proof fn lemma_join_nl_one(x: Seq<char>)
    ensures
        join_nl(seq![x]) == x + seq!['\n'],
{
    assert(seq![x].drop_first() =~= Seq::<Seq<char>>::empty());
    assert(join_nl(seq![x].drop_first()) =~= Seq::<char>::empty());
    assert(seq![x][0] == x);
    assert(join_nl(seq![x]) =~= x + seq!['\n']);
}

proof fn lemma_prod_out_joined(ls: Seq<Seq<char>>, domain: Seq<char>, inside: bool, injected: bool)
    ensures
        prod_lines(ls, domain, inside, injected) == join_nl(prod_out(ls, domain, inside, injected)),
    decreases ls.len(),
{
    if ls.len() == 0 {
        assert(join_nl(Seq::<Seq<char>>::empty()) =~= Seq::<char>::empty());
    } else {
        let t = trim(ls[0]);
        let r = ls.drop_first();
        lemma_join_nl_one(ls[0]);
        if is_server_open(t) {
            lemma_prod_out_joined(r, domain, true, injected);
            lemma_join_nl_concat(seq![ls[0]], prod_out(r, domain, true, injected));
        } else if inside && !injected && starts_with(t, "{"@) {
            lemma_prod_out_joined(r, domain, inside, true);
            let three = seq![ls[0], note_listen(), note_certbot() + domain];
            lemma_join_nl_concat(three, prod_out(r, domain, inside, true));
            reveal_strlit("    listen 80;\n    # Run: sudo certbot --nginx -d ");
            reveal_strlit("    listen 80;");
            reveal_strlit("    # Run: sudo certbot --nginx -d ");
            assert(seq![note_listen(), note_certbot() + domain] =~= seq![note_listen()] + seq![
                note_certbot() + domain,
            ]);
            lemma_join_nl_one(note_listen());
            lemma_join_nl_one(note_certbot() + domain);
            lemma_join_nl_concat(seq![note_listen()], seq![note_certbot() + domain]);
            assert(three =~= seq![ls[0]] + seq![note_listen(), note_certbot() + domain]);
            lemma_join_nl_concat(seq![ls[0]], seq![note_listen(), note_certbot() + domain]);
            assert(join_nl(three) =~= ls[0] + seq!['\n'] + LISTEN_80_NOTE@ + domain + seq!['\n']);
        } else if prod_skip(t) {
            lemma_prod_out_joined(r, domain, inside, injected);
        } else {
            lemma_prod_out_joined(r, domain, inside, injected);
            lemma_join_nl_concat(seq![ls[0]], prod_out(r, domain, inside, injected));
        }
    }
}

/// A text that starts with a character that is no whitespace keeps it
/// first when trimmed.
proof fn lemma_trim_keeps_first(x: Seq<char>)
    requires
        x.len() > 0,
        !is_ws(x[0]),
    ensures
        trim(x).len() > 0,
        trim(x)[0] == x[0],
{
    assert(trim_start(x) == x);
    lemma_trim_end_prefix(x);
    if trim_end(x).len() == 0 {
        assert(is_ws(x[0]));
    }
}

proof fn lemma_prefix_char(t: Seq<char>, q: Seq<char>, i: int)
    requires
        starts_with(t, q),
        0 <= i < q.len(),
    ensures
        t[i] == q[i],
{
    assert(t.subrange(0, q.len() as int)[i] == t[i]);
}

/// A line whose first character starts none of the directives that
/// production leaves out is kept.
proof fn lemma_first_char_kept(t: Seq<char>)
    requires
        t.len() > 0,
        t[0] != 's' && t[0] != 'l' && t[0] != 'h' && t[0] != 'i',
    ensures
        !prod_skip(t),
{
    reveal_strlit("ssl_certificate");
    reveal_strlit("ssl_protocols");
    reveal_strlit("ssl_ciphers");
    reveal_strlit("ssl_session");
    reveal_strlit("ssl_dhparam");
    reveal_strlit("listen 443");
    reveal_strlit("listen\t443");
    reveal_strlit("include");
    reveal_strlit("http2 on;");
    reveal_strlit("http2  on;");
    if starts_with(t, "ssl_certificate"@) {
        lemma_prefix_char(t, "ssl_certificate"@, 0);
    }
    if starts_with(t, "ssl_protocols"@) {
        lemma_prefix_char(t, "ssl_protocols"@, 0);
    }
    if starts_with(t, "ssl_ciphers"@) {
        lemma_prefix_char(t, "ssl_ciphers"@, 0);
    }
    if starts_with(t, "ssl_session"@) {
        lemma_prefix_char(t, "ssl_session"@, 0);
    }
    if starts_with(t, "ssl_dhparam"@) {
        lemma_prefix_char(t, "ssl_dhparam"@, 0);
    }
    if starts_with(t, "listen 443"@) {
        lemma_prefix_char(t, "listen 443"@, 0);
    }
    if starts_with(t, "listen\t443"@) {
        lemma_prefix_char(t, "listen\t443"@, 0);
    }
    if starts_with(t, "include"@) {
        lemma_prefix_char(t, "include"@, 0);
    }
}

/// A line that opens a server block is none that production leaves out.
proof fn lemma_server_open_kept(t: Seq<char>)
    requires
        is_server_open(t),
    ensures
        !prod_skip(t),
{
    reveal_strlit("server ");
    reveal_strlit("server\t");
    reveal_strlit("server{");
    reveal_strlit("server {");
    if starts_with(t, "server "@) {
        lemma_prefix_char(t, "server "@, 0);
        lemma_prefix_char(t, "server "@, 1);
    } else if starts_with(t, "server\t"@) {
        lemma_prefix_char(t, "server\t"@, 0);
        lemma_prefix_char(t, "server\t"@, 1);
    } else if t == "server{"@ {
    } else {
        lemma_prefix_char(t, "server {"@, 0);
        lemma_prefix_char(t, "server {"@, 1);
    }
    assert(t.len() >= 2 && t[0] == 's' && t[1] == 'e');
    let q1 = "ssl_certificate"@;
    let q2 = "ssl_protocols"@;
    let q3 = "ssl_ciphers"@;
    let q4 = "ssl_session"@;
    let q5 = "ssl_dhparam"@;
    let q6 = "listen 443"@;
    let q7 = "listen\t443"@;
    let q8 = "include"@;
    reveal_strlit("ssl_certificate");
    reveal_strlit("ssl_protocols");
    reveal_strlit("ssl_ciphers");
    reveal_strlit("ssl_session");
    reveal_strlit("ssl_dhparam");
    reveal_strlit("listen 443");
    reveal_strlit("listen\t443");
    reveal_strlit("include");
    reveal_strlit("http2 on;");
    reveal_strlit("http2  on;");
    if starts_with(t, q1) {
        lemma_prefix_char(t, q1, 1);
    }
    if starts_with(t, q2) {
        lemma_prefix_char(t, q2, 1);
    }
    if starts_with(t, q3) {
        lemma_prefix_char(t, q3, 1);
    }
    if starts_with(t, q4) {
        lemma_prefix_char(t, q4, 1);
    }
    if starts_with(t, q5) {
        lemma_prefix_char(t, q5, 1);
    }
    if starts_with(t, q6) {
        lemma_prefix_char(t, q6, 0);
    }
    if starts_with(t, q7) {
        lemma_prefix_char(t, q7, 0);
    }
    if starts_with(t, q8) {
        lemma_prefix_char(t, q8, 0);
    }
}

/// No line `prod_out` writes is, trimmed, one that production leaves out,
/// and none holds a line break, when the lines read and the domain hold none.
proof fn lemma_prod_out_clean(ls: Seq<Seq<char>>, domain: Seq<char>, inside: bool, injected: bool)
    requires
        forall|k: int| 0 <= k < ls.len() ==> no_newline(#[trigger] ls[k]),
        no_newline(domain),
    ensures
        forall|k: int|
            0 <= k < prod_out(ls, domain, inside, injected).len() ==> !prod_skip(
                trim(#[trigger] prod_out(ls, domain, inside, injected)[k]),
            ) && no_newline(prod_out(ls, domain, inside, injected)[k]),
    decreases ls.len(),
{
    reveal_strlit("ssl_certificate");
    reveal_strlit("ssl_protocols");
    reveal_strlit("ssl_ciphers");
    reveal_strlit("ssl_session");
    reveal_strlit("ssl_dhparam");
    reveal_strlit("listen 443");
    reveal_strlit("listen\t443");
    reveal_strlit("http2 on;");
    reveal_strlit("http2  on;");
    reveal_strlit("include");
    reveal_strlit("server ");
    reveal_strlit("server\t");
    reveal_strlit("server{");
    reveal_strlit("server {");
    reveal_strlit("{");
    if ls.len() > 0 {
        let t = trim(ls[0]);
        let r = ls.drop_first();
        assert forall|k: int| 0 <= k < r.len() implies no_newline(#[trigger] r[k]) by {
            assert(r[k] == ls[k + 1]);
        }
        let out = prod_out(ls, domain, inside, injected);
        if is_server_open(t) {
            lemma_prod_out_clean(r, domain, true, injected);
            let rest = prod_out(r, domain, true, injected);
            lemma_server_open_kept(t);
            assert forall|k: int| 0 <= k < out.len() implies !prod_skip(trim(#[trigger] out[k]))
                && no_newline(out[k]) by {
                if k > 0 {
                    assert(out[k] == rest[k - 1]);
                }
            }
        } else if inside && !injected && starts_with(t, "{"@) {
            lemma_prod_out_clean(r, domain, inside, true);
            let rest = prod_out(r, domain, inside, true);
            lemma_prefix_char(t, "{"@, 0);
            lemma_first_char_kept(t);
            reveal_strlit("    listen 80;");
            reveal_strlit("    # Run: sudo certbot --nginx -d ");
            reveal_strlit("listen 80;");
            let a = note_listen();
            let l80 = "listen 80;"@;
            assert(a =~= seq![' ', ' ', ' ', ' '] + l80);
            reveal_with_fuel(crate::text::trim_start, 6);
            assert(a.drop_first().drop_first().drop_first().drop_first() =~= l80);
            assert(trim_start(a) =~= l80);
            crate::text::lemma_trim_fixed(l80);
            assert(trim(a) == l80);
            reveal_strlit("listen 443");
            reveal_strlit("listen\t443");
            if starts_with(l80, "listen 443"@) {
                lemma_prefix_char(l80, "listen 443"@, 7);
            }
            if starts_with(l80, "listen\t443"@) {
                lemma_prefix_char(l80, "listen\t443"@, 6);
            }
            reveal_strlit("ssl_certificate");
            reveal_strlit("ssl_protocols");
            reveal_strlit("ssl_ciphers");
            reveal_strlit("ssl_session");
            reveal_strlit("ssl_dhparam");
            reveal_strlit("include");
            reveal_strlit("http2 on;");
            reveal_strlit("http2  on;");
            if starts_with(l80, "ssl_certificate"@) {
                lemma_prefix_char(l80, "ssl_certificate"@, 0);
            }
            if starts_with(l80, "ssl_protocols"@) {
                lemma_prefix_char(l80, "ssl_protocols"@, 0);
            }
            if starts_with(l80, "ssl_ciphers"@) {
                lemma_prefix_char(l80, "ssl_ciphers"@, 0);
            }
            if starts_with(l80, "ssl_session"@) {
                lemma_prefix_char(l80, "ssl_session"@, 0);
            }
            if starts_with(l80, "ssl_dhparam"@) {
                lemma_prefix_char(l80, "ssl_dhparam"@, 0);
            }
            if starts_with(l80, "include"@) {
                lemma_prefix_char(l80, "include"@, 0);
            }
            assert(!prod_skip(trim(a)));
            let b = note_certbot() + domain;
            let b0 = "# Run: sudo certbot --nginx -d "@ + domain;
            let rb = "# Run: sudo certbot --nginx -d "@;
            reveal_strlit("# Run: sudo certbot --nginx -d ");
            assert(note_certbot() =~= seq![' ', ' ', ' ', ' '] + rb);
            assert(note_certbot().drop_first().drop_first().drop_first().drop_first() =~= rb);
            assert(trim_start(note_certbot()) =~= rb);
            crate::text::lemma_trim_start_concat(note_certbot(), domain);
            assert(trim_start(b) =~= b0);
            lemma_trim_keeps_first(b0);
            assert(trim(b) == trim_end(trim_start(b)));
            assert(trim(b).len() > 0 && trim(b)[0] == '#');
            lemma_first_char_kept(trim(b));
            assert(no_newline(a));
            assert(no_newline(b)) by {
                assert forall|j: int| 0 <= j < b.len() implies #[trigger] b[j] != '\n' by {
                    if j >= note_certbot().len() {
                        assert(b[j] == domain[j - note_certbot().len()]);
                    }
                }
            }
            assert forall|k: int| 0 <= k < out.len() implies !prod_skip(trim(#[trigger] out[k]))
                && no_newline(out[k]) by {
                if k == 0 {
                    assert(out[k] == ls[0]);
                } else if k == 1 {
                    assert(out[k] == a);
                } else if k == 2 {
                    assert(out[k] == b);
                } else {
                    assert(out[k] == rest[k - 3]);
                }
            }
        } else if prod_skip(t) {
            lemma_prod_out_clean(r, domain, inside, injected);
            assert(out == prod_out(r, domain, inside, injected));
        } else {
            lemma_prod_out_clean(r, domain, inside, injected);
            let rest = prod_out(r, domain, inside, injected);
            assert(out == seq![ls[0]] + rest);
            assert forall|k: int| 0 <= k < out.len() implies !prod_skip(trim(#[trigger] out[k]))
                && no_newline(out[k]) by {
                if k > 0 {
                    assert(out[k] == rest[k - 1]);
                }
            }
        }
    }
}

/// A production config keeps nothing of the development TLS setup: no
/// line of it, read back and trimmed, is a certificate, protocol, cipher,
/// session or DH parameter directive, a `listen 443`, an `http2 on;`, or a
/// Let's Encrypt include; this holds for every development config, as long
/// as the production domain holds no line break.
pub proof fn law_prod_drops_tls(dev: Seq<char>, domain: Seq<char>, upstream: Seq<char>)
    requires
        no_newline(domain),
    ensures
        forall|k: int|
            0 <= k < lines(dev_to_prod_spec(dev, domain, upstream)).len() ==> !prod_skip(
                trim(#[trigger] lines(dev_to_prod_spec(dev, domain, upstream))[k]),
            ),
{
    let body = replace_all(replace_all(dev, "$DOMAIN"@, domain), "$UPSTREAM"@, upstream);
    let ls = lines(body);
    crate::text::lemma_lines_no_newline(body);
    lemma_prod_out_joined(ls, domain, false, false);
    lemma_prod_out_clean(ls, domain, false, false);
    let out = prod_out(ls, domain, false, false);
    crate::text::lemma_lines_join_cr(out);
    assert forall|k: int|
        0 <= k < lines(dev_to_prod_spec(dev, domain, upstream)).len() implies !prod_skip(
        trim(#[trigger] lines(dev_to_prod_spec(dev, domain, upstream))[k]),
    ) by {
        assert(lines(dev_to_prod_spec(dev, domain, upstream))[k] == strip_cr(out[k]));
        crate::text::lemma_trim_strip_cr(out[k]);
    }
}

// ───────────────────────────── validation ─────────────────────────────

/// Lines left out of a snippet before `nginx -t` checks it.
pub open spec fn validation_skip(t: Seq<char>) -> bool {
    ||| starts_with(t, "ssl_certificate"@)
    ||| starts_with(t, "ssl_dhparam"@)
    ||| starts_with(t, "ssl_trusted_certificate"@)
    ||| (starts_with(t, "include"@) && contains(t, "letsencrypt"@))
}

/// A `listen` line for 443 or SSL.
pub open spec fn is_ssl_listen(t: Seq<char>) -> bool {
    starts_with(t, "listen"@) && (contains(t, "443"@) || contains(t, " ssl"@) || contains(
        t,
        "\tssl"@,
    ))
}

/// The lines of a snippet as `nginx -t` checks them.
pub open spec fn prepared_lines(ls: Seq<Seq<char>>) -> Seq<char>
    decreases ls.len(),
{
    if ls.len() == 0 {
        Seq::empty()
    } else {
        let t = trim(ls[0]);
        if validation_skip(t) {
            prepared_lines(ls.drop_first())
        } else if is_ssl_listen(t) {
            leading_ws(ls[0]) + "listen 18080;\n"@ + prepared_lines(ls.drop_first())
        } else {
            ls[0] + seq!['\n'] + prepared_lines(ls.drop_first())
        }
    }
}

/// A snippet with its placeholders filled by dummy values, without
/// certificate directives and with SSL `listen` lines on a plain port.
pub open spec fn prepare_spec(content: Seq<char>) -> Seq<char> {
    prepared_lines(
        lines(
            replace_all(
                replace_all(content, "$DOMAIN"@, "hyperhost-validate.test"@),
                "$UPSTREAM"@,
                "http://127.0.0.1:65000"@,
            ),
        ),
    )
}

fn prepare_for_validation(content: &Vec<char>) -> (r: Vec<char>)
    ensures
        r@ == prepare_spec(content@),
{
    let d = chars_of("hyperhost-validate.test");
    let u = chars_of("http://127.0.0.1:65000");
    let b1 = replace_str(content, "$DOMAIN", &d);
    let body = replace_str(&b1, "$UPSTREAM", &u);
    let ls = split_lines(&body);
    let ghost lsv = lines(body@);
    let mut out: Vec<char> = Vec::new();
    let mut i: usize = 0;
    assert(lsv.skip(0) =~= lsv);
    while i < ls.len()
        invariant
            i <= ls.len(),
            views(ls@) == lsv,
            prepared_lines(lsv) == out@ + prepared_lines(lsv.skip(i as int)),
        decreases ls.len() - i,
    {
        assert(lsv.skip(i as int)[0] == ls@[i as int]@);
        assert(lsv.skip(i as int).drop_first() =~= lsv.skip(i + 1));
        let line = &ls[i];
        let t = trim_vec(line);
        let ghost old_out = out@;
        let skip = starts_with_str(&t, "ssl_certificate") || starts_with_str(&t, "ssl_dhparam")
            || starts_with_str(&t, "ssl_trusted_certificate") || (starts_with_str(&t, "include")
            && contains_str(&t, "letsencrypt"));
        if skip {
        } else if starts_with_str(&t, "listen") && (contains_str(&t, "443") || contains_str(
            &t,
            " ssl",
        ) || contains_str(&t, "\tssl")) {
            let indent = leading_ws_vec(line);
            push_all(&mut out, &indent);
            push_str(&mut out, "listen 18080;\n");
        } else {
            push_all(&mut out, line);
            out.push('\n');
            assert(out@ =~= old_out + line@ + seq!['\n']);
        }
        i = i + 1;
    }
    assert(out@ + prepared_lines(lsv.skip(i as int)) =~= out@);
    out
}

/// A path with backslashes turned into slashes.
pub open spec fn forward_slashes(p: Seq<char>) -> Seq<char> {
    replace_char(p, '\\', "/"@)
}

/// The nginx config that checks `content` with `nginx -t`: the snippet,
/// prepared and indented, inside a minimal `http` block whose pid file,
/// error log and temp paths are the given ones.
pub open spec fn validation_config_spec(
    content: Seq<char>,
    pid: Seq<char>,
    err: Seq<char>,
    tmp: Seq<char>,
) -> Seq<char> {
    let t = forward_slashes(tmp);
    "worker_processes 1;\npid \""@ + forward_slashes(pid) + "\";\nerror_log \""@ + forward_slashes(
        err,
    ) + "\" info;\nevents { worker_connections 64; }\nhttp {\n    default_type application/octet-stream;\n    client_body_temp_path \""@
        + t + "/client\";\n    proxy_temp_path \""@ + t + "/proxy\";\n    fastcgi_temp_path \""@ + t
        + "/fastcgi\";\n    uwsgi_temp_path \""@ + t + "/uwsgi\";\n    scgi_temp_path \""@ + t
        + "/scgi\";\n"@ + indent_lines_spec(prepare_spec(content), "    "@) + "\n}\n"@
}

/// The nginx config that `validate_config` hands to `nginx -t` for `content`.
pub fn validation_config(content: &str, pid_path: &str, error_log: &str, temp_dir: &str) -> (r:
    String)
    ensures
        r@ == validation_config_spec(content@, pid_path@, error_log@, temp_dir@),
{
    let c = chars_of(content);
    let prepared = prepare_for_validation(&c);
    let pid = replace_char_exec(&chars_of(pid_path), '\\', "/");
    let err = replace_char_exec(&chars_of(error_log), '\\', "/");
    let t = replace_char_exec(&chars_of(temp_dir), '\\', "/");
    let mut out = chars_of("worker_processes 1;\npid \"");
    push_all(&mut out, &pid);
    push_str(&mut out, "\";\nerror_log \"");
    push_all(&mut out, &err);
    push_str(
        &mut out,
        "\" info;\nevents { worker_connections 64; }\nhttp {\n    default_type application/octet-stream;\n    client_body_temp_path \"",
    );
    push_all(&mut out, &t);
    push_str(&mut out, "/client\";\n    proxy_temp_path \"");
    push_all(&mut out, &t);
    push_str(&mut out, "/proxy\";\n    fastcgi_temp_path \"");
    push_all(&mut out, &t);
    push_str(&mut out, "/fastcgi\";\n    uwsgi_temp_path \"");
    push_all(&mut out, &t);
    push_str(&mut out, "/uwsgi\";\n    scgi_temp_path \"");
    push_all(&mut out, &t);
    push_str(&mut out, "/scgi\";\n");
    let body = indent_lines(&prepared, "    ");
    push_all(&mut out, &body);
    push_str(&mut out, "\n}\n");
    string_of(&out)
}

/// The lines of `nginx -t` output worth showing, with the config path hidden.
pub open spec fn stderr_lines(ls: Seq<Seq<char>>, conf: Seq<char>) -> Seq<Seq<char>>
    decreases ls.len(),
{
    if ls.len() == 0 {
        Seq::empty()
    } else if contains(ls[0], "[emerg]"@) && contains(ls[0], "still could not"@) {
        stderr_lines(ls.drop_first(), conf)
    } else {
        seq![replace_all(ls[0], conf, "<config>"@)] + stderr_lines(ls.drop_first(), conf)
    }
}

/// `nginx -t` output as shown to the user.
pub open spec fn clean_stderr_spec(stderr: Seq<char>, conf: Seq<char>) -> Seq<char> {
    trim(join_sep_nl(stderr_lines(lines(stderr), conf)))
}

/// `nginx -t` output with the retry noise removed and the config path
/// replaced by `<config>`.
pub fn clean_validation_stderr(stderr: &str, conf_path: &str) -> (r: String)
    ensures
        r@ == clean_stderr_spec(stderr@, conf_path@),
{
    let e = chars_of(stderr);
    let conf = chars_of(conf_path);
    let marker = chars_of("<config>");
    let ls = split_lines(&e);
    let ghost lsv = lines(e@);
    let mut kept: Vec<Vec<char>> = Vec::new();
    let mut i: usize = 0;
    assert(lsv.skip(0) =~= lsv);
    while i < ls.len()
        invariant
            i <= ls.len(),
            views(ls@) == lsv,
            conf@ == conf_path@,
            marker@ == "<config>"@,
            stderr_lines(lsv, conf@) == views(kept@) + stderr_lines(lsv.skip(i as int), conf@),
        decreases ls.len() - i,
    {
        assert(lsv.skip(i as int)[0] == ls@[i as int]@);
        assert(lsv.skip(i as int).drop_first() =~= lsv.skip(i + 1));
        if !(contains_str(&ls[i], "[emerg]") && contains_str(&ls[i], "still could not")) {
            let r = replace_all_exec(&ls[i], &conf, &marker);
            let ghost old_k = views(kept@);
            kept.push(r);
            assert(views(kept@) =~= old_k + seq![r@]);
        }
        i = i + 1;
    }
    assert(views(kept@) + stderr_lines(lsv.skip(i as int), conf@) =~= views(kept@));
    let joined = join_sep_nl_exec(&kept);
    let t = trim_vec(&joined);
    string_of(&t)
}


/// The first `c` at or after `k` is at `n` when none stands in `[k, n)` and
/// `n` is the end of `s` or holds `c`.
proof fn lemma_first_char_at(s: Seq<char>, c: char, k: int, n: int)
    requires
        0 <= k <= n <= s.len(),
        forall|m: int| k <= m < n ==> s[m] != c,
        n == s.len() || s[n] == c,
    ensures
        index_of_char_from(s, c, k) == n,
    decreases n - k,
{
    if k < n {
        lemma_first_char_at(s, c, k + 1, n);
    }
}

/// An upstream declared under `k` is found under `k`.
proof fn lemma_lookup_declared(es: Seq<(Seq<char>, Seq<char>)>, k: Seq<char>, j: int)
    requires
        0 <= j < es.len(),
        es[j].0 == k,
    ensures
        lookup(es, k) is Some,
    decreases es.len(),
{
    if es.last().0 != k {
        lemma_lookup_declared(es.drop_last(), k, j);
    }
}

/// How a target made of a scheme, a host with no `/`, and a path is split.
proof fn lemma_split_target(scheme: Seq<char>, hp: Seq<char>, path: Seq<char>, ups: Seq<(Seq<char>, Seq<char>)>)
    requires
        scheme == "http://"@ || scheme == "https://"@,
        forall|m: int| 0 <= m < hp.len() ==> hp[m] != '/',
        path.len() == 0 || path[0] == '/',
    ensures
        rewrite_target_spec(scheme + hp + path, ups) == if is_main_host(hp, ups) {
            "$UPSTREAM"@ + path
        } else {
            scheme + hp + path
        },
{
    reveal_strlit("http://");
    reveal_strlit("https://");
    let t = scheme + hp + path;
    assert(t.subrange(0, scheme.len() as int) =~= scheme);
    if scheme == "http://"@ {
        assert(t[4] == ':');
        assert(!starts_with(t, "https://"@));
    }
    let rest = after_prefix(t, scheme);
    assert(rest =~= hp + path);
    lemma_first_char_at(rest, '/', 0, hp.len() as int);
    assert(rest.subrange(0, hp.len() as int) =~= hp);
    assert(rest.subrange(hp.len() as int, rest.len() as int) =~= path);
}

/// In an imported config, a `proxy_pass` to this machine, by
/// `http(s)://127.0.0.1[...]`, `http(s)://localhost` or
/// `http(s)://localhost:port`, followed by an optional path, points at the
/// upstream the developer picks: its target becomes `$UPSTREAM` and the path.
pub proof fn law_loopback_targets_become_upstream(
    scheme: Seq<char>,
    port: Seq<char>,
    path: Seq<char>,
    ups: Seq<(Seq<char>, Seq<char>)>,
)
    requires
        scheme == "http://"@ || scheme == "https://"@,
        forall|m: int| 0 <= m < port.len() ==> port[m] != '/',
        path.len() == 0 || path[0] == '/',
    ensures
        rewrite_target_spec(scheme + "127.0.0.1"@ + port + path, ups) == "$UPSTREAM"@ + path,
        port.len() == 0 || port[0] == ':' ==> rewrite_target_spec(
            scheme + "localhost"@ + port + path,
            ups,
        ) == "$UPSTREAM"@ + path,
{
    reveal_strlit("127.0.0.1");
    reveal_strlit("localhost");
    reveal_strlit("localhost:");
    let ip = "127.0.0.1"@ + port;
    assert(ip.subrange(0, 9) =~= "127.0.0.1"@);
    assert(is_main_host(ip, ups));
    assert(scheme + "127.0.0.1"@ + port + path =~= scheme + ip + path);
    lemma_split_target(scheme, ip, path, ups);
    if port.len() == 0 || port[0] == ':' {
        let lh = "localhost"@ + port;
        if port.len() == 0 {
            assert(lh =~= "localhost"@);
        } else {
            assert(lh.subrange(0, 10) =~= "localhost:"@);
        }
        assert(is_main_host(lh, ups));
        assert(scheme + "localhost"@ + port + path =~= scheme + lh + path);
        lemma_split_target(scheme, lh, path, ups);
    }
}

/// A `proxy_pass` to an upstream block that the imported config declares
/// points, in the dev config, at the upstream the developer picks.
pub proof fn law_named_upstream_target_becomes_upstream(
    scheme: Seq<char>,
    name: Seq<char>,
    path: Seq<char>,
    ups: Seq<(Seq<char>, Seq<char>)>,
    j: int,
)
    requires
        scheme == "http://"@ || scheme == "https://"@,
        forall|m: int| 0 <= m < name.len() ==> name[m] != '/',
        path.len() == 0 || path[0] == '/',
        0 <= j < ups.len(),
        ups[j].0 == name,
    ensures
        rewrite_target_spec(scheme + name + path, ups) == "$UPSTREAM"@ + path,
{
    lemma_lookup_declared(ups, name, j);
    lemma_split_target(scheme, name, path, ups);
}

/// Whitespace before a text that starts with non-whitespace is what
/// `trim_start` drops and `leading_ws` keeps.
proof fn lemma_ws_then_text(ws: Seq<char>, x: Seq<char>)
    requires
        forall|m: int| 0 <= m < ws.len() ==> is_ws(ws[m]),
        x.len() > 0,
        !is_ws(x[0]),
    ensures
        trim_start(ws + x) == x,
        leading_ws(ws + x) == ws,
    decreases ws.len(),
{
    if ws.len() == 0 {
        assert(ws + x =~= x);
        assert(leading_ws(x) =~= Seq::<char>::empty());
    } else {
        lemma_ws_then_text(ws.drop_first(), x);
        assert((ws + x).drop_first() =~= ws.drop_first() + x);
        assert(seq![ws[0]] + ws.drop_first() =~= ws);
    }
}

/// A `proxy_pass` line, indented by `ws`, to a target that starts and ends
/// with neither whitespace nor `;`, keeps its indent and has its target
/// rewritten.
proof fn lemma_proxy_pass_line(ws: Seq<char>, target: Seq<char>, ups: Seq<(Seq<char>, Seq<char>)>)
    requires
        forall|m: int| 0 <= m < ws.len() ==> is_ws(ws[m]),
        target.len() > 0,
        !is_ws(target[0]),
        !is_ws(target.last()),
        target.last() != ';',
    ensures
        rewrite_proxy_pass_spec(ws + "proxy_pass "@ + target + ";"@, ups) == ws + "proxy_pass "@
            + rewrite_target_spec(target, ups) + ";"@,
{
    reveal_strlit("proxy_pass ");
    reveal_strlit("proxy_pass");
    reveal_strlit(";");
    reveal_strlit(" ");
    let x = "proxy_pass "@ + target + ";"@;
    let line = ws + "proxy_pass "@ + target + ";"@;
    assert(line =~= ws + x);
    lemma_ws_then_text(ws, x);
    assert(trim_end(x) == x);
    let t = trim(line);
    assert(t == x);
    assert(t.subrange(0, 10) =~= "proxy_pass"@);
    let y = after_prefix(t, "proxy_pass"@);
    assert(y =~= " "@ + (target + ";"@));
    assert(y.drop_first() =~= target + ";"@);
    assert(trim_start(y) == trim_start(target + ";"@));
    assert(trim_start(target + ";"@) == target + ";"@);
    assert(trim_end(target + ";"@) == target + ";"@);
    assert((target + ";"@).drop_last() =~= target);
    assert(trim_end_char(target + ";"@, ';') == trim_end_char(target, ';'));
    assert(trim_end_char(target, ';') == target);
    crate::text::lemma_trim_fixed(target);
    assert(proxy_target(t) == target);
}

/// In an imported config, a `proxy_pass` line to this machine
/// (`http(s)://127.0.0.1...`, `http(s)://localhost` or
/// `http(s)://localhost:port`, with an optional path) is written as
/// `proxy_pass $UPSTREAM<path>;`, under the same indent.
pub proof fn law_loopback_proxy_pass_lines(
    ws: Seq<char>,
    scheme: Seq<char>,
    port: Seq<char>,
    path: Seq<char>,
    ups: Seq<(Seq<char>, Seq<char>)>,
)
    requires
        forall|m: int| 0 <= m < ws.len() ==> is_ws(ws[m]),
        scheme == "http://"@ || scheme == "https://"@,
        forall|m: int| 0 <= m < port.len() ==> port[m] != '/',
        path.len() == 0 || path[0] == '/',
        (port + path).len() == 0 || (!is_ws((port + path).last()) && (port + path).last() != ';'),
    ensures
        rewrite_proxy_pass_spec(ws + "proxy_pass "@ + (scheme + "127.0.0.1"@ + port + path) + ";"@, ups)
            == ws + "proxy_pass $UPSTREAM"@ + path + ";"@,
        port.len() == 0 || port[0] == ':' ==> rewrite_proxy_pass_spec(
            ws + "proxy_pass "@ + (scheme + "localhost"@ + port + path) + ";"@,
            ups,
        ) == ws + "proxy_pass $UPSTREAM"@ + path + ";"@,
{
    reveal_strlit("http://");
    reveal_strlit("https://");
    reveal_strlit("127.0.0.1");
    reveal_strlit("localhost");
    reveal_strlit("proxy_pass $UPSTREAM");
    reveal_strlit("proxy_pass ");
    reveal_strlit("$UPSTREAM");
    law_loopback_targets_become_upstream(scheme, port, path, ups);
    assert("proxy_pass "@ + "$UPSTREAM"@ =~= "proxy_pass $UPSTREAM"@);
    let t1 = scheme + "127.0.0.1"@ + port + path;
    assert(t1 =~= (scheme + "127.0.0.1"@) + (port + path));
    assert(t1[0] == 'h');
    if (port + path).len() > 0 {
        assert(t1.last() == (port + path).last());
    }
    lemma_proxy_pass_line(ws, t1, ups);
    assert(ws + "proxy_pass "@ + ("$UPSTREAM"@ + path) + ";"@ =~= ws + "proxy_pass $UPSTREAM"@ + path
        + ";"@);
    if port.len() == 0 || port[0] == ':' {
        let t2 = scheme + "localhost"@ + port + path;
        assert(t2 =~= (scheme + "localhost"@) + (port + path));
        assert(t2[0] == 'h');
        if (port + path).len() > 0 {
            assert(t2.last() == (port + path).last());
        }
        lemma_proxy_pass_line(ws, t2, ups);
    }
}

/// The kept lines of `ls` are those of its first `k` lines followed by
/// those of the rest.
proof fn lemma_cleaned_split(ls: Seq<Seq<char>>, k: int, ups: Seq<(Seq<char>, Seq<char>)>)
    requires
        0 <= k <= ls.len(),
    ensures
        cleaned_lines(ls, ups) == cleaned_lines(ls.take(k), ups) + cleaned_lines(ls.skip(k), ups),
    decreases k,
{
    if k == 0 {
        assert(ls.take(0) =~= Seq::<Seq<char>>::empty());
        assert(ls.skip(0) =~= ls);
        assert(cleaned_lines(ls.take(0), ups) + cleaned_lines(ls, ups) =~= cleaned_lines(ls, ups));
    } else {
        let df = ls.drop_first();
        lemma_cleaned_split(df, k - 1, ups);
        assert(df.skip(k - 1) =~= ls.skip(k));
        assert(ls.take(k).drop_first() =~= df.take(k - 1));
        assert(ls.take(k)[0] == ls[0]);
        let e = cleaned_lines(ls, ups);
        let head = cleaned_lines(ls.take(k), ups);
        assert(e =~= head + cleaned_lines(ls.skip(k), ups));
    }
}

/// Where the rewritten loopback `proxy_pass` line stands in the kept lines.
proof fn lemma_cleaned_loopback_split(
    ls: Seq<Seq<char>>,
    k: int,
    ws: Seq<char>,
    scheme: Seq<char>,
    host: Seq<char>,
    port: Seq<char>,
    path: Seq<char>,
    ups: Seq<(Seq<char>, Seq<char>)>,
)
    requires
        0 <= k < ls.len(),
        ls[k] == ws + "proxy_pass "@ + (scheme + host + port + path) + ";"@,
        forall|m: int| 0 <= m < ws.len() ==> is_ws(ws[m]),
        scheme == "http://"@ || scheme == "https://"@,
        host == "127.0.0.1"@ || (host == "localhost"@ && (port.len() == 0 || port[0] == ':')),
        forall|m: int| 0 <= m < port.len() ==> port[m] != '/',
        path.len() == 0 || path[0] == '/',
        (port + path).len() == 0 || (!is_ws((port + path).last()) && (port + path).last() != ';'),
    ensures
        cleaned_lines(ls, ups) == cleaned_lines(ls.take(k), ups) + (ws + "proxy_pass $UPSTREAM"@
            + path + ";"@ + seq!['\n']) + cleaned_lines(ls.skip(k + 1), ups),
{
    reveal_strlit("proxy_pass ");
    reveal_strlit("proxy_pass\t");
    reveal_strlit(";");
    reveal_strlit(";\n");
    reveal_strlit("http://");
    reveal_strlit("https://");
    reveal_strlit("proxy_pass $UPSTREAM");
    reveal_strlit("listen ");
    reveal_strlit("listen\t");
    reveal_strlit("server_name ");
    reveal_strlit("server_name\t");
    reveal_strlit("ssl_certificate");
    reveal_strlit("ssl_protocols");
    reveal_strlit("ssl_ciphers");
    reveal_strlit("ssl_dhparam");
    reveal_strlit("ssl_session");
    reveal_strlit("include");
    reveal_strlit("access_log ");
    reveal_strlit("error_log ");
    reveal_strlit("root ");
    reveal_strlit("if (");
    reveal_strlit("return 301");
    law_loopback_proxy_pass_lines(ws, scheme, port, path, ups);
    let target = scheme + host + port + path;
    let x = "proxy_pass "@ + target + ";"@;
    let line = ls[k];
    assert(line =~= ws + x);
    lemma_ws_then_text(ws, x);
    assert(trim_end(x) == x);
    let t = trim(line);
    assert(t == x);
    assert(t[0] == 'p');
    assert forall|lit: Seq<char>| lit.len() > 0 && lit[0] != 'p' implies !starts_with(t, lit) by {
        if starts_with(t, lit) {
            assert(t.subrange(0, lit.len() as int)[0] == t[0]);
        }
    }
    assert(!dropped_line(t));
    assert(t.subrange(0, 11) =~= "proxy_pass "@);
    let out = ws + "proxy_pass $UPSTREAM"@ + path + ";"@;
    if host == "127.0.0.1"@ {
        assert(rewrite_proxy_pass_spec(line, ups) == out);
    } else {
        assert(rewrite_proxy_pass_spec(line, ups) == out);
    }
    lemma_cleaned_split(ls, k, ups);
    let sk = ls.skip(k);
    assert(sk[0] == line);
    assert(sk.drop_first() =~= ls.skip(k + 1));
    let before = cleaned_lines(ls.take(k), ups);
    let after = cleaned_lines(ls.skip(k + 1), ups);
    assert(cleaned_lines(sk, ups) == out + seq!['\n'] + after);
    assert(cleaned_lines(ls, ups) =~= before + (out + seq!['\n']) + after);
}

/// An imported server body keeps a `proxy_pass` line to this machine
/// (`http(s)://127.0.0.1...`, `http(s)://localhost` or
/// `http(s)://localhost:port`, with an optional path), written as
/// `proxy_pass $UPSTREAM<path>;` under the same indent, on a line of its
/// own.
pub proof fn law_cleaned_body_loopback_proxy_pass(
    ls: Seq<Seq<char>>,
    k: int,
    ws: Seq<char>,
    scheme: Seq<char>,
    host: Seq<char>,
    port: Seq<char>,
    path: Seq<char>,
    ups: Seq<(Seq<char>, Seq<char>)>,
)
    requires
        0 <= k < ls.len(),
        ls[k] == ws + "proxy_pass "@ + (scheme + host + port + path) + ";"@,
        forall|m: int| 0 <= m < ws.len() ==> is_ws(ws[m]),
        scheme == "http://"@ || scheme == "https://"@,
        host == "127.0.0.1"@ || (host == "localhost"@ && (port.len() == 0 || port[0] == ':')),
        forall|m: int| 0 <= m < port.len() ==> port[m] != '/',
        path.len() == 0 || path[0] == '/',
        (port + path).len() == 0 || (!is_ws((port + path).last()) && (port + path).last() != ';'),
    ensures
        contains(cleaned_lines(ls, ups), ws + "proxy_pass $UPSTREAM"@ + path + ";\n"@),
{
    reveal_strlit(";");
    reveal_strlit(";\n");
    lemma_cleaned_loopback_split(ls, k, ws, scheme, host, port, path, ups);
    let before = cleaned_lines(ls.take(k), ups);
    let after = cleaned_lines(ls.skip(k + 1), ups);
    let c = cleaned_lines(ls, ups);
    let want = ws + "proxy_pass $UPSTREAM"@ + path + ";\n"@;
    assert(want =~= ws + "proxy_pass $UPSTREAM"@ + path + ";"@ + seq!['\n']);
    assert(c =~= before + want + after);
    assert(c.subrange(before.len() as int, before.len() + want.len() as int) =~= want);
    assert(occurs_at(c, want, before.len() as int));
}

/// What `squash_lines` carries from one line to the next after `ls`.
pub open spec fn squash_state(ls: Seq<Seq<char>>, prev_blank: bool) -> bool
    decreases ls.len(),
{
    if ls.len() == 0 {
        prev_blank
    } else {
        let blank = trim(ls[0]).len() == 0;
        if blank && prev_blank {
            squash_state(ls.drop_first(), prev_blank)
        } else {
            squash_state(ls.drop_first(), blank)
        }
    }
}

proof fn lemma_squash_concat(a: Seq<Seq<char>>, b: Seq<Seq<char>>, prev_blank: bool)
    ensures
        squash_lines(a + b, prev_blank) == squash_lines(a, prev_blank) + squash_lines(
            b,
            squash_state(a, prev_blank),
        ),
    decreases a.len(),
{
    if a.len() == 0 {
        assert(a + b =~= b);
        assert(squash_lines(a, prev_blank) + squash_lines(b, prev_blank) =~= squash_lines(
            b,
            prev_blank,
        ));
    } else {
        assert((a + b).drop_first() =~= a.drop_first() + b);
        assert((a + b)[0] == a[0]);
        let blank = trim(a[0]).len() == 0;
        if blank && prev_blank {
            lemma_squash_concat(a.drop_first(), b, prev_blank);
        } else {
            lemma_squash_concat(a.drop_first(), b, blank);
            assert(squash_lines(a + b, prev_blank) =~= squash_lines(a, prev_blank) + squash_lines(
                b,
                squash_state(a, prev_blank),
            ));
        }
    }
}

/// Kept lines are empty or end with a line break.
proof fn lemma_cleaned_ends_nl(ls: Seq<Seq<char>>, ups: Seq<(Seq<char>, Seq<char>)>)
    ensures
        cleaned_lines(ls, ups).len() == 0 || cleaned_lines(ls, ups).last() == '\n',
    decreases ls.len(),
{
    if ls.len() > 0 {
        lemma_cleaned_ends_nl(ls.drop_first(), ups);
    }
}

/// Squashed lines are empty or end with a line break.
proof fn lemma_squash_ends_nl(ls: Seq<Seq<char>>, prev_blank: bool)
    ensures
        squash_lines(ls, prev_blank).len() == 0 || squash_lines(ls, prev_blank).last() == '\n',
    decreases ls.len(),
{
    if ls.len() > 0 {
        let blank = trim(ls[0]).len() == 0;
        if blank && prev_blank {
            lemma_squash_ends_nl(ls.drop_first(), prev_blank);
        } else {
            lemma_squash_ends_nl(ls.drop_first(), blank);
        }
    }
}

/// Where the rewritten loopback `proxy_pass` line stands in a cleaned and
/// squashed server body: after text that is empty or ends a line, and
/// before a line break.
proof fn lemma_clean_body_loopback_split(
    block: Seq<char>,
    k: int,
    ws: Seq<char>,
    scheme: Seq<char>,
    host: Seq<char>,
    port: Seq<char>,
    path: Seq<char>,
    ups: Seq<(Seq<char>, Seq<char>)>,
)
    requires
        0 <= k < lines(trim(block)).len(),
        lines(trim(block))[k] == ws + "proxy_pass "@ + (scheme + host + port + path) + ";"@,
        forall|m: int| 0 <= m < ws.len() ==> is_ws(ws[m]),
        scheme == "http://"@ || scheme == "https://"@,
        host == "127.0.0.1"@ || (host == "localhost"@ && (port.len() == 0 || port[0] == ':')),
        forall|m: int| 0 <= m < port.len() ==> port[m] != '/',
        path.len() == 0 || path[0] == '/',
        (port + path).len() == 0 || (!is_ws((port + path).last()) && (port + path).last() != ';'),
    ensures
        crate::text::no_newline(ws + "proxy_pass $UPSTREAM"@ + path + ";"@),
        exists|h: Seq<char>, t: Seq<char>|
            (h.len() == 0 || h.last() == '\n') && clean_server_body_spec(block, ups) == h + (ws
                + "proxy_pass $UPSTREAM"@ + path + ";"@) + (seq!['\n'] + t),
{
    reveal_strlit(";");
    reveal_strlit(";\n");
    reveal_strlit("proxy_pass $UPSTREAM");
    let ls = lines(trim(block));
    lemma_cleaned_loopback_split(ls, k, ws, scheme, host, port, path, ups);
    let before = cleaned_lines(ls.take(k), ups);
    let after = cleaned_lines(ls.skip(k + 1), ups);
    let l = ws + "proxy_pass $UPSTREAM"@ + path + ";"@;
    let c = cleaned_lines(ls, ups);
    assert(c == before + (l + seq!['\n']) + after);
    // the rewritten line has no line break and is not blank
    crate::text::lemma_lines_no_newline(trim(block));
    assert(crate::text::no_newline(ls[k]));
    let pre = ws + "proxy_pass "@ + scheme + host + port;
    assert(ls[k] =~= pre + path + ";"@);
    assert(crate::text::no_newline(l)) by {
        let lit = "proxy_pass $UPSTREAM"@;
        assert forall|m: int| 0 <= m < l.len() implies #[trigger] l[m] != '\n' by {
            if m < ws.len() {
                assert(l[m] == ws[m]);
                assert(ls[k][m] == ws[m]);
            } else if m < ws.len() + lit.len() {
                assert(l[m] == lit[m - ws.len()]);
            } else if m < ws.len() + lit.len() + path.len() {
                let j = m - ws.len() - lit.len();
                assert(l[m] == path[j]);
                assert(ls[k][pre.len() + j] == path[j]);
            } else {
                assert(l[m] == ';');
            }
        }
    }
    assert(l.last() == ';');
    assert(crate::text::strip_cr(l) == l);
    let x = "proxy_pass $UPSTREAM"@ + path + ";"@;
    assert(l =~= ws + x);
    lemma_ws_then_text(ws, x);
    assert(trim_end(x) == x);
    assert(trim(l) == x);
    // its place among the lines of the kept text
    crate::text::lemma_lines_single(l);
    lemma_cleaned_ends_nl(ls.take(k), ups);
    let mid = l + seq!['\n'];
    assert(mid.last() == '\n');
    crate::text::lemma_lines_append(mid, after);
    if before.len() == 0 {
        assert(c =~= mid + after);
        assert(lines(c) =~= seq![l] + lines(after));
        lemma_squash_concat(Seq::<Seq<char>>::empty(), seq![l] + lines(after), false);
        assert(Seq::<Seq<char>>::empty() + (seq![l] + lines(after)) =~= seq![l] + lines(after));
    } else {
        crate::text::lemma_lines_append(before, mid + after);
        assert(c =~= before + (mid + after));
        assert(lines(c) =~= lines(before) + (seq![l] + lines(after)));
    }
    let a = if before.len() == 0 {
        Seq::<Seq<char>>::empty()
    } else {
        lines(before)
    };
    assert(lines(c) =~= a + (seq![l] + lines(after)));
    lemma_squash_concat(a, seq![l] + lines(after), false);
    let st = squash_state(a, false);
    let rest = seq![l] + lines(after);
    assert(rest[0] == l);
    assert(rest.drop_first() =~= lines(after));
    let tail = squash_lines(rest, st);
    assert(tail == l + seq!['\n'] + squash_lines(lines(after), false));
    let sq = clean_server_body_spec(block, ups);
    let head = squash_lines(a, false);
    assert(sq == head + tail);
    lemma_squash_ends_nl(a, false);
    assert(sq =~= head + l + (seq!['\n'] + squash_lines(lines(after), false)));
}

/// An imported server body, once cleaned and with blank runs squashed,
/// still holds a `proxy_pass` line to this machine
/// (`http(s)://127.0.0.1...`, `http(s)://localhost` or
/// `http(s)://localhost:port`, with an optional path) as
/// `proxy_pass $UPSTREAM<path>;` under the same indent, on a line of its
/// own.
pub proof fn law_clean_body_loopback_proxy_pass(
    block: Seq<char>,
    k: int,
    ws: Seq<char>,
    scheme: Seq<char>,
    host: Seq<char>,
    port: Seq<char>,
    path: Seq<char>,
    ups: Seq<(Seq<char>, Seq<char>)>,
)
    requires
        0 <= k < lines(trim(block)).len(),
        lines(trim(block))[k] == ws + "proxy_pass "@ + (scheme + host + port + path) + ";"@,
        forall|m: int| 0 <= m < ws.len() ==> is_ws(ws[m]),
        scheme == "http://"@ || scheme == "https://"@,
        host == "127.0.0.1"@ || (host == "localhost"@ && (port.len() == 0 || port[0] == ':')),
        forall|m: int| 0 <= m < port.len() ==> port[m] != '/',
        path.len() == 0 || path[0] == '/',
        (port + path).len() == 0 || (!is_ws((port + path).last()) && (port + path).last() != ';'),
    ensures
        contains(clean_server_body_spec(block, ups), ws + "proxy_pass $UPSTREAM"@ + path + ";\n"@),
{
    reveal_strlit(";");
    reveal_strlit(";\n");
    lemma_clean_body_loopback_split(block, k, ws, scheme, host, port, path, ups);
    let sq = clean_server_body_spec(block, ups);
    let l = ws + "proxy_pass $UPSTREAM"@ + path + ";"@;
    let (h, t) = choose|h: Seq<char>, t: Seq<char>|
        (h.len() == 0 || h.last() == '\n') && sq == h + l + (seq!['\n'] + t);
    let want = ws + "proxy_pass $UPSTREAM"@ + path + ";\n"@;
    assert(want =~= l + seq!['\n']);
    assert(sq =~= h + want + t);
    assert(sq.subrange(h.len() as int, h.len() + want.len() as int) =~= want);
    assert(occurs_at(sq, want, h.len() as int));
}

proof fn lemma_trim_start_concat(h: Seq<char>, r: Seq<char>)
    ensures
        trim_start(h).len() > 0 ==> trim_start(h + r) == trim_start(h) + r,
        trim_start(h).len() == 0 ==> trim_start(h + r) == trim_start(r),
    decreases h.len(),
{
    if h.len() == 0 {
        assert(h + r =~= r);
    } else if is_ws(h[0]) {
        assert((h + r).drop_first() =~= h.drop_first() + r);
        lemma_trim_start_concat(h.drop_first(), r);
    } else {
        assert((h + r)[0] == h[0]);
    }
}

proof fn lemma_trim_end_concat(r: Seq<char>, n: Seq<char>)
    requires
        trim_end(n).len() > 0,
    ensures
        trim_end(r + n) == r + trim_end(n),
    decreases n.len(),
{
    assert((r + n).last() == n.last());
    if is_ws(n.last()) {
        assert((r + n).drop_last() =~= r + n.drop_last());
        lemma_trim_end_concat(r, n.drop_last());
    } else {
        assert(r + n =~= r + trim_end(n));
    }
}

/// A nonempty text without line breaks is one line.
proof fn lemma_lines_one(v: Seq<char>)
    requires
        v.len() > 0,
        crate::text::no_newline(v),
    ensures
        lines(v) == seq![v],
{
    lemma_first_char_at(v, '\n', 0, v.len() as int);
}

/// Each of the texts joined by line breaks occurs in the result.
proof fn lemma_join_contains(vs: Seq<Seq<char>>, q: int)
    requires
        0 <= q < vs.len(),
    ensures
        contains(join_sep_nl(vs), vs[q]),
    decreases vs.len(),
{
    crate::text::lemma_join_sep_nl_step(vs);
    let rest = crate::text::sep_tail(vs.drop_first(), true);
    let j = join_sep_nl(vs);
    assert(j == vs[0] + rest);
    if q == 0 {
        assert(j.subrange(0, vs[0].len() as int) =~= vs[0]);
        assert(occurs_at(j, vs[0], 0));
    } else {
        lemma_join_contains(vs.drop_first(), q - 1);
        let jt = join_sep_nl(vs.drop_first());
        assert(rest == seq!['\n'] + jt);
        let i = choose|i: int| occurs_at(jt, vs[q], i);
        let at = vs[0].len() + 1 + i;
        assert(j.subrange(at, at + vs[q].len() as int) =~= jt.subrange(i, i + vs[q].len() as int));
        assert(occurs_at(j, vs[q], at));
    }
}

/// `mid` occurs in `pre + mid + post`.
proof fn lemma_contains_in(pre: Seq<char>, mid: Seq<char>, post: Seq<char>)
    ensures
        contains(pre + mid + post, mid),
{
    let s = pre + mid + post;
    assert(s.subrange(pre.len() as int, pre.len() + mid.len() as int) =~= mid);
    assert(occurs_at(s, mid, pre.len() as int));
}

/// A body holding, after text that is empty or ends a line, an indented
/// line `ws + x` followed by a line break, where `x` starts and ends with
/// non-whitespace, keeps `x`, with part of its indent, as a line once
/// trimmed.
proof fn lemma_trimmed_lines_keep(h: Seq<char>, ws: Seq<char>, x: Seq<char>, t: Seq<char>)
    requires
        h.len() == 0 || h.last() == '\n',
        forall|m: int| 0 <= m < ws.len() ==> is_ws(ws[m]),
        x.len() > 0,
        !is_ws(x[0]),
        !is_ws(x.last()),
        x.last() != '\r',
        crate::text::no_newline(ws + x),
    ensures
        exists|q: int, y: Seq<char>|
            0 <= q < lines(trim(h + (ws + x) + (seq!['\n'] + t))).len() && lines(
                trim(h + (ws + x) + (seq!['\n'] + t)),
            )[q] == y + x && (forall|m: int| 0 <= m < y.len() ==> is_ws(#[trigger] y[m])),
{
    let l = ws + x;
    let n = seq!['\n'] + t;
    let s = h + l + n;
    lemma_ws_then_text(ws, x);
    // trimming the front
    lemma_trim_start_concat(h, l + n);
    assert(s =~= h + (l + n));
    lemma_trim_start_concat(l, n);
    let hh = if trim_start(h).len() > 0 {
        trim_start(h)
    } else {
        Seq::<char>::empty()
    };
    let ll = if trim_start(h).len() > 0 {
        l
    } else {
        x
    };
    crate::text::lemma_trim_start_len(h);
    if trim_start(h).len() > 0 {
        assert(hh.last() == h.last());
    }
    assert(trim_start(s) =~= hh + ll + n);
    // ll is a suffix of l ending with x
    let y = if trim_start(h).len() > 0 {
        ws
    } else {
        Seq::<char>::empty()
    };
    assert(ll =~= y + x);
    assert(ll.len() > 0 && ll.last() == x.last());
    assert(crate::text::no_newline(ll)) by {
        assert forall|m: int| 0 <= m < ll.len() implies #[trigger] ll[m] != '\n' by {
            assert(ll[m] == l[m + l.len() - ll.len()]);
        }
    }
    // trimming the back
    crate::text::lemma_trim_end_prefix(n);
    let nn = trim_end(n);
    let tr = trim(s);
    if nn.len() > 0 {
        lemma_trim_end_concat(hh + ll, n);
        assert(nn[0] == '\n');
        assert(tr == hh + ll + nn);
    } else {
        assert(forall|k: int| 0 <= k < n.len() ==> is_ws(#[trigger] n[k]));
        crate::text::lemma_trim_end_append_ws(hh + ll, n);
        assert((hh + ll).last() == x.last());
        assert(trim_end(hh + ll) == hh + ll);
        assert(tr == hh + ll);
    }
    // the lines of the trimmed body
    let rest_lines = if nn.len() > 0 {
        lines(nn.drop_first())
    } else {
        Seq::<Seq<char>>::empty()
    };
    let mid_lines = if hh.len() > 0 {
        lines(hh)
    } else {
        Seq::<Seq<char>>::empty()
    };
    if nn.len() > 0 {
        crate::text::lemma_lines_single(ll);
        assert(nn =~= seq!['\n'] + nn.drop_first());
        crate::text::lemma_lines_append(ll + seq!['\n'], nn.drop_first());
        assert(ll + nn =~= (ll + seq!['\n']) + nn.drop_first());
        assert(lines(ll + nn) == seq![ll] + rest_lines);
    } else {
        lemma_lines_one(ll);
        assert(ll + nn =~= ll);
        assert(lines(ll + nn) =~= seq![ll] + rest_lines);
    }
    if hh.len() > 0 {
        crate::text::lemma_lines_append(hh, ll + nn);
        assert(hh + ll + nn =~= hh + (ll + nn));
    } else {
        assert(hh + ll + nn =~= ll + nn);
    }
    assert(tr =~= hh + ll + nn);
    assert(lines(tr) =~= mid_lines + (seq![ll] + rest_lines));
    let q = mid_lines.len() as int;
    assert(s == h + (ws + x) + (seq!['\n'] + t));
    assert(lines(tr)[q] == y + x);
}

/// The dev template of a body one of whose trimmed lines is `x` behind
/// whitespace, where `x` starts and ends with non-whitespace, holds `x`.
proof fn lemma_template_keeps_line(c: Seq<char>, q: int, y: Seq<char>, x: Seq<char>)
    requires
        0 <= q < lines(trim(c)).len(),
        lines(trim(c))[q] == y + x,
        forall|m: int| 0 <= m < y.len() ==> is_ws(#[trigger] y[m]),
        x.len() > 0,
        !is_ws(x[0]),
        !is_ws(x.last()),
    ensures
        contains(server_template(c), x),
{
    let tr = trim(c);
    let ll = y + x;
    lemma_ws_then_text(y, x);
    assert(ll.last() == x.last());
    let ls = lines(tr);
    let ind = ls.map_values(|v: Seq<char>| indent_line(v, "    "@));
    assert(ind[q] == indent_line(ll, "    "@));
    assert(trim_start(ll) == x);
    assert(trim_end(ll) == ll);
    assert(trim(ll).len() > 0);
    assert(indent_line(ll, "    "@) == "    "@ + ll);
    lemma_join_contains(ind, q);
    let body = indent_lines_spec(tr, "    "@);
    assert(body == join_sep_nl(ind));
    let i = choose|i: int| occurs_at(body, ind[q], i);
    let tpl = server_template(c);
    assert(tpl == TEMPLATE_HEAD@ + body + TEMPLATE_TAIL@);
    reveal_strlit("    ");
    let at = TEMPLATE_HEAD@.len() + i + 4 + y.len();
    assert(tpl.subrange(at, at + x.len() as int) =~= x) by {
        assert(body.subrange(i, i + ind[q].len() as int) == ind[q]);
        assert(ind[q] =~= "    "@ + y + x);
        assert(ind[q].len() == 4 + y.len() + x.len());
        assert(i + ind[q].len() <= body.len());
        assert forall|m: int| 0 <= m < x.len() implies tpl[at + m] == x[m] by {
            let j = i + 4 + y.len() + m;
            assert(0 <= j < body.len());
            assert(tpl[TEMPLATE_HEAD@.len() + j] == body[j]);
            assert(body[j] == body.subrange(i, i + ind[q].len() as int)[4 + y.len() + m]);
            assert(ind[q][4 + y.len() + m] == x[m]);
        }
    }
    assert(occurs_at(tpl, x, at));
}

/// The dev template made from an imported server body holds
/// `proxy_pass $UPSTREAM<path>;` for every `proxy_pass` line of the body to
/// this machine (`http(s)://127.0.0.1...`, `http(s)://localhost` or
/// `http(s)://localhost:port`, with an optional path): the dev domain
/// proxies there to the upstream the developer picks.
pub proof fn law_template_loopback_proxy_pass(
    block: Seq<char>,
    k: int,
    ws: Seq<char>,
    scheme: Seq<char>,
    host: Seq<char>,
    port: Seq<char>,
    path: Seq<char>,
    ups: Seq<(Seq<char>, Seq<char>)>,
)
    requires
        0 <= k < lines(trim(block)).len(),
        lines(trim(block))[k] == ws + "proxy_pass "@ + (scheme + host + port + path) + ";"@,
        forall|m: int| 0 <= m < ws.len() ==> is_ws(ws[m]),
        scheme == "http://"@ || scheme == "https://"@,
        host == "127.0.0.1"@ || (host == "localhost"@ && (port.len() == 0 || port[0] == ':')),
        forall|m: int| 0 <= m < port.len() ==> port[m] != '/',
        path.len() == 0 || path[0] == '/',
        (port + path).len() == 0 || (!is_ws((port + path).last()) && (port + path).last() != ';'),
    ensures
        contains(
            server_template(clean_server_body_spec(block, ups)),
            "proxy_pass $UPSTREAM"@ + path + ";"@,
        ),
{
    reveal_strlit("proxy_pass $UPSTREAM");
    reveal_strlit(";");
    lemma_clean_body_loopback_split(block, k, ws, scheme, host, port, path, ups);
    let sq = clean_server_body_spec(block, ups);
    let x = "proxy_pass $UPSTREAM"@ + path + ";"@;
    let l = ws + "proxy_pass $UPSTREAM"@ + path + ";"@;
    assert(l =~= ws + x);
    let (h, t) = choose|h: Seq<char>, t: Seq<char>|
        (h.len() == 0 || h.last() == '\n') && sq == h + l + (seq!['\n'] + t);
    assert(x[0] == 'p');
    assert(x.last() == ';');
    lemma_trimmed_lines_keep(h, ws, x, t);
    let tr = trim(h + (ws + x) + (seq!['\n'] + t));
    assert(sq == h + (ws + x) + (seq!['\n'] + t));
    let (q, y) = choose|q: int, y: Seq<char>|
        0 <= q < lines(tr).len() && lines(tr)[q] == y + x && (forall|m: int|
            0 <= m < y.len() ==> is_ws(#[trigger] y[m]));
    lemma_template_keeps_line(sq, q, y, x);
}
} // verus!
