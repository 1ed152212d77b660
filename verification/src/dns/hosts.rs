//! The HyperHost-managed block of the system hosts file.

use vstd::prelude::*;
use crate::text::{
    chars_of, contains, eq_str, is_ws, join_nl, lemma_join_nl_push, lemma_join_nl_split,
    lemma_lines_append, lemma_lines_join, lemma_lines_no_newline, lemma_lines_single,
    lemma_trim_end_append_ws, lemma_trim_end_concat, lemma_trim_end_idem, lemma_trim_end_prefix,
    lemma_trim_fixed, lemma_trim_of_trim_end, lines, no_newline, occurs_at,
    push_all, push_str, split_lines, string_of, strip_cr, trim, trim_end, trim_end_vec, trim_vec,
    views,
};

verus! {

/// First line of the managed block.
pub const MARKER_START: &'static str = "# ── HyperHost BEGIN ──";

/// Last line of the managed block.
pub const MARKER_END: &'static str = "# ── HyperHost END ──";

/// First line of the block that earlier versions managed.
pub const MARKER_START_LEGACY: &'static str = "# ── DevHost BEGIN ──";

/// Last line of the block that earlier versions managed.
pub const MARKER_END_LEGACY: &'static str = "# ── DevHost END ──";

/// A trimmed line that opens a managed block.
pub open spec fn is_block_start(t: Seq<char>) -> bool {
    t == MARKER_START@ || t == MARKER_START_LEGACY@
}

/// A trimmed line that closes a managed block.
pub open spec fn is_block_end(t: Seq<char>) -> bool {
    t == MARKER_END@ || t == MARKER_END_LEGACY@
}

/// The lines outside managed blocks, each followed by `'\n'`.
pub open spec fn unmanaged_lines(ls: Seq<Seq<char>>, in_block: bool) -> Seq<char>
    decreases ls.len(),
{
    if ls.len() == 0 {
        Seq::empty()
    } else {
        let t = trim(ls[0]);
        if is_block_start(t) {
            unmanaged_lines(ls.drop_first(), true)
        } else if is_block_end(t) {
            unmanaged_lines(ls.drop_first(), false)
        } else if !in_block {
            ls[0] + seq!['\n'] + unmanaged_lines(ls.drop_first(), in_block)
        } else {
            unmanaged_lines(ls.drop_first(), in_block)
        }
    }
}

/// A hosts file without its managed blocks, current or legacy.
pub open spec fn strip_spec(content: Seq<char>) -> Seq<char> {
    unmanaged_lines(lines(content), false)
}

/// How many times `c` occurs in `s`.
pub open spec fn count_char(s: Seq<char>, c: char) -> nat
    decreases s.len(),
{
    if s.len() == 0 {
        0
    } else {
        (if s[0] == c {
            1nat
        } else {
            0nat
        }) + count_char(s.drop_first(), c)
    }
}

/// The hosts lines for one domain: the domain itself and, for a name with
/// exactly one dot, its `www.` form.
pub open spec fn domain_entry(d: Seq<char>) -> Seq<char> {
    "127.0.0.1\t"@ + d + "\n"@ + (if count_char(d, '.') == 1 {
        "127.0.0.1\twww."@ + d + "\n"@
    } else {
        Seq::empty()
    })
}

/// The hosts lines for every domain, in order.
pub open spec fn domain_entries(ds: Seq<Seq<char>>) -> Seq<char>
    decreases ds.len(),
{
    if ds.len() == 0 {
        Seq::empty()
    } else {
        domain_entry(ds[0]) + domain_entries(ds.drop_first())
    }
}

/// A hosts file whose managed block maps exactly `ds` to 127.0.0.1.
pub open spec fn synced_spec(content: Seq<char>, ds: Seq<Seq<char>>) -> Seq<char> {
    trim_end(strip_spec(content)) + "\n"@ + MARKER_START@ + "\n"@ + domain_entries(ds)
        + MARKER_END@ + "\n"@
}

/// A hosts file with no managed block left.
pub open spec fn removed_spec(content: Seq<char>) -> Seq<char> {
    trim_end(strip_spec(content))
}

/// The views of a slice of strings.
pub open spec fn string_views(ds: Seq<String>) -> Seq<Seq<char>> {
    ds.map_values(|d: String| d@)
}

/// Strip both the current and the legacy managed blocks.
pub fn strip_managed_block(content: &str) -> (r: String)
    ensures
        r@ == strip_spec(content@),
{
    let c = chars_of(content);
    let out = strip_managed_vec(&c);
    string_of(&out)
}

fn strip_managed_vec(c: &Vec<char>) -> (out: Vec<char>)
    ensures
        out@ == strip_spec(c@),
{
    let ls = split_lines(c);
    let ghost lsv = lines(c@);
    let mut out: Vec<char> = Vec::new();
    let mut in_block = false;
    let mut i: usize = 0;
    assert(lsv.skip(0) =~= lsv);
    while i < ls.len()
        invariant
            i <= ls.len(),
            views(ls@) == lsv,
            lsv == lines(c@),
            unmanaged_lines(lsv, false) == out@ + unmanaged_lines(lsv.skip(i as int), in_block),
        decreases ls.len() - i,
    {
        assert(lsv.skip(i as int)[0] == ls@[i as int]@);
        assert(lsv.skip(i as int).drop_first() =~= lsv.skip(i + 1));
        let t = trim_vec(&ls[i]);
        if eq_str(&t, MARKER_START) || eq_str(&t, MARKER_START_LEGACY) {
            in_block = true;
        } else if eq_str(&t, MARKER_END) || eq_str(&t, MARKER_END_LEGACY) {
            in_block = false;
        } else if !in_block {
            let ghost old_out = out@;
            push_all(&mut out, &ls[i]);
            out.push('\n');
            assert(out@ =~= old_out + ls@[i as int]@ + seq!['\n']);
        }
        i = i + 1;
    }
    assert(out@ + unmanaged_lines(lsv.skip(i as int), in_block) =~= out@);
    out
}

fn has_one_dot(d: &Vec<char>) -> (b: bool)
    ensures
        b == (count_char(d@, '.') == 1),
{
    let mut n: usize = 0;
    let mut i: usize = 0;
    assert(d@.skip(0) =~= d@);
    while i < d.len()
        invariant
            i <= d.len(),
            n <= i,
            count_char(d@, '.') == n + count_char(d@.skip(i as int), '.'),
        decreases d.len() - i,
    {
        assert(d@.skip(i as int).drop_first() =~= d@.skip(i + 1));
        if d[i] == '.' {
            n = n + 1;
        }
        i = i + 1;
    }
    n == 1
}

/// The new hosts file content for `domains`: everything outside the managed
/// blocks is kept, and a fresh managed block lists the domains.
pub fn synced_hosts_content(content: &str, domains: &[String]) -> (r: String)
    ensures
        r@ == synced_spec(content@, string_views(domains@)),
{
    let c = chars_of(content);
    let stripped = strip_managed_vec(&c);
    let mut out = trim_end_vec(&stripped);
    let ghost head = out@;
    push_str(&mut out, "\n");
    push_str(&mut out, MARKER_START);
    push_str(&mut out, "\n");
    let ghost start = out@;
    let ghost ds = string_views(domains@);
    let mut block: Vec<char> = Vec::new();
    let mut i: usize = 0;
    assert(ds.skip(0) =~= ds);
    while i < domains.len()
        invariant
            i <= domains.len(),
            ds == string_views(domains@),
            domain_entries(ds) == block@ + domain_entries(ds.skip(i as int)),
        decreases domains.len() - i,
    {
        assert(ds.skip(i as int)[0] == domains@[i as int]@);
        assert(ds.skip(i as int).drop_first() =~= ds.skip(i + 1));
        let d = chars_of(domains[i].as_str());
        let mut entry = chars_of("127.0.0.1\t");
        push_all(&mut entry, &d);
        push_str(&mut entry, "\n");
        let ghost first = entry@;
        if has_one_dot(&d) {
            push_str(&mut entry, "127.0.0.1\twww.");
            push_all(&mut entry, &d);
            push_str(&mut entry, "\n");
            assert(entry@ =~= first + ("127.0.0.1\twww."@ + d@ + "\n"@));
        } else {
            assert(entry@ =~= first + Seq::<char>::empty());
        }
        let ghost old_block = block@;
        push_all(&mut block, &entry);
        assert(block@ + domain_entries(ds.skip(i + 1)) =~= old_block + (domain_entry(ds[i as int])
            + domain_entries(ds.skip(i + 1))));
        i = i + 1;
    }
    assert(block@ + domain_entries(ds.skip(i as int)) =~= block@);
    push_all(&mut out, &block);
    push_str(&mut out, MARKER_END);
    push_str(&mut out, "\n");
    string_of(&out)
}

/// The hosts file content with every managed block removed.
pub fn removed_hosts_content(content: &str) -> (r: String)
    ensures
        r@ == removed_spec(content@),
{
    let c = chars_of(content);
    let stripped = strip_managed_vec(&c);
    let out = trim_end_vec(&stripped);
    string_of(&out)
}


// ───────────────────── what syncing keeps of the file ─────────────────────

/// A trimmed line that opens or closes a managed block.
pub open spec fn is_marker(t: Seq<char>) -> bool {
    is_block_start(t) || is_block_end(t)
}

/// The lines kept outside managed blocks.
pub open spec fn kept_lines(ls: Seq<Seq<char>>, in_block: bool) -> Seq<Seq<char>>
    decreases ls.len(),
{
    if ls.len() == 0 {
        Seq::empty()
    } else {
        let t = trim(ls[0]);
        if is_block_start(t) {
            kept_lines(ls.drop_first(), true)
        } else if is_block_end(t) {
            kept_lines(ls.drop_first(), false)
        } else if !in_block {
            seq![ls[0]] + kept_lines(ls.drop_first(), in_block)
        } else {
            kept_lines(ls.drop_first(), in_block)
        }
    }
}

/// Whether a managed block is open after the lines.
pub open spec fn open_after(ls: Seq<Seq<char>>, in_block: bool) -> bool
    decreases ls.len(),
{
    if ls.len() == 0 {
        in_block
    } else {
        let t = trim(ls[0]);
        open_after(
            ls.drop_first(),
            if is_block_start(t) {
                true
            } else if is_block_end(t) {
                false
            } else {
                in_block
            },
        )
    }
}

proof fn lemma_markers()
    ensures
        MARKER_START@.len() > 0 && MARKER_START@[0] == '#' && !is_ws(MARKER_START@.last())
            && MARKER_START@.last() != '\r' && no_newline(MARKER_START@),
        MARKER_END@.len() > 0 && MARKER_END@[0] == '#' && !is_ws(MARKER_END@.last())
            && MARKER_END@.last() != '\r' && no_newline(MARKER_END@),
        MARKER_START_LEGACY@.len() > 0 && MARKER_START_LEGACY@[0] == '#',
        MARKER_END_LEGACY@.len() > 0 && MARKER_END_LEGACY@[0] == '#',
{
    reveal_strlit("# ── HyperHost BEGIN ──");
    reveal_strlit("# ── HyperHost END ──");
    reveal_strlit("# ── DevHost BEGIN ──");
    reveal_strlit("# ── DevHost END ──");
}

proof fn lemma_kept(ls: Seq<Seq<char>>, b: bool)
    requires
        forall|k: int| 0 <= k < ls.len() ==> no_newline(#[trigger] ls[k]),
    ensures
        unmanaged_lines(ls, b) == join_nl(kept_lines(ls, b)),
        forall|k: int|
            0 <= k < kept_lines(ls, b).len() ==> no_newline(#[trigger] kept_lines(ls, b)[k])
                && !is_marker(trim(kept_lines(ls, b)[k])),
    decreases ls.len(),
{
    if ls.len() > 0 {
        let r = ls.drop_first();
        assert forall|k: int| 0 <= k < r.len() implies no_newline(#[trigger] r[k]) by {
            assert(r[k] == ls[k + 1]);
        }
        let t = trim(ls[0]);
        if is_block_start(t) {
            lemma_kept(r, true);
        } else if is_block_end(t) {
            lemma_kept(r, false);
        } else {
            lemma_kept(r, b);
            if !b {
                let kr = kept_lines(r, b);
                assert(kept_lines(ls, b) == seq![ls[0]] + kr);
                assert((seq![ls[0]] + kr).drop_first() =~= kr);
                assert((seq![ls[0]] + kr)[0] == ls[0]);
                assert forall|k: int| 0 <= k < kept_lines(ls, b).len() implies no_newline(
                    #[trigger] kept_lines(ls, b)[k],
                ) && !is_marker(trim(kept_lines(ls, b)[k])) by {
                    if k > 0 {
                        assert(kept_lines(ls, b)[k] == kr[k - 1]);
                    }
                }
            }
        }
    }
}

proof fn lemma_unmanaged_append(xs: Seq<Seq<char>>, ys: Seq<Seq<char>>, b: bool)
    ensures
        unmanaged_lines(xs + ys, b) == unmanaged_lines(xs, b) + unmanaged_lines(ys, open_after(xs, b)),
    decreases xs.len(),
{
    if xs.len() == 0 {
        assert(xs + ys =~= ys);
        assert(unmanaged_lines(xs, b) + unmanaged_lines(ys, b) =~= unmanaged_lines(ys, b));
    } else {
        assert((xs + ys)[0] == xs[0]);
        assert((xs + ys).drop_first() =~= xs.drop_first() + ys);
        let t = trim(xs[0]);
        if is_block_start(t) {
            lemma_unmanaged_append(xs.drop_first(), ys, true);
        } else if is_block_end(t) {
            lemma_unmanaged_append(xs.drop_first(), ys, false);
        } else {
            lemma_unmanaged_append(xs.drop_first(), ys, b);
            if !b {
                assert(unmanaged_lines(xs + ys, b) =~= xs[0] + seq!['\n'] + (unmanaged_lines(
                    xs.drop_first(),
                    b,
                ) + unmanaged_lines(ys, open_after(xs, b))));
            }
        }
    }
}

/// Lines that are not markers are all kept outside a block.
proof fn lemma_unmanaged_plain(vs: Seq<Seq<char>>)
    requires
        forall|k: int| 0 <= k < vs.len() ==> !is_marker(trim(#[trigger] vs[k])),
    ensures
        unmanaged_lines(vs, false) == join_nl(vs),
    decreases vs.len(),
{
    if vs.len() > 0 {
        let r = vs.drop_first();
        assert forall|k: int| 0 <= k < r.len() implies !is_marker(trim(#[trigger] r[k])) by {
            assert(r[k] == vs[k + 1]);
        }
        lemma_unmanaged_plain(r);
    }
}

/// No line of `ls`, trimmed, closes a managed block.
pub open spec fn no_block_end(ls: Seq<Seq<char>>) -> bool {
    forall|k: int| 0 <= k < ls.len() ==> !is_block_end(trim(#[trigger] ls[k]))
}

/// Inside a block, lines that do not close it are all dropped, and the
/// block stays open.
proof fn lemma_skipped_in_block(ls: Seq<Seq<char>>)
    requires
        no_block_end(ls),
    ensures
        unmanaged_lines(ls, true) == Seq::<char>::empty(),
        open_after(ls, true),
    decreases ls.len(),
{
    if ls.len() > 0 {
        let r = ls.drop_first();
        assert forall|k: int| 0 <= k < r.len() implies !is_block_end(trim(#[trigger] r[k])) by {
            assert(r[k] == ls[k + 1]);
        }
        assert(!is_block_end(trim(ls[0])));
        lemma_skipped_in_block(r);
    }
}

/// The entries of the managed block end with a line break, when there are any.
proof fn lemma_entries_end(ds: Seq<Seq<char>>)
    ensures
        domain_entries(ds).len() > 0 ==> domain_entries(ds).last() == '\n',
    decreases ds.len(),
{
    reveal_strlit("\n");
    if ds.len() > 0 {
        lemma_entries_end(ds.drop_first());
        let d = ds[0];
        let e = domain_entry(d);
        let w = if count_char(d, '.') == 1 {
            "127.0.0.1\twww."@ + d + "\n"@
        } else {
            Seq::empty()
        };
        assert(e == "127.0.0.1\t"@ + d + "\n"@ + w);
        if w.len() > 0 {
            assert(e.last() == w.last());
        } else {
            assert(e.last() == '\n');
        }
        assert(e.len() > 0 && e.last() == '\n');
        let rest = domain_entries(ds.drop_first());
        if rest.len() > 0 {
            assert((e + rest).last() == rest.last());
        } else {
            assert(e + rest =~= e);
        }
    }
}

/// The managed block written for `ds`.
pub open spec fn block_text(ds: Seq<Seq<char>>) -> Seq<char> {
    MARKER_START@ + "\n"@ + domain_entries(ds) + MARKER_END@ + "\n"@
}

/// Nothing of the managed block is kept, whatever came before it, as long
/// as no line of its entries closes it early.
proof fn lemma_block_vanishes(ds: Seq<Seq<char>>, st: bool)
    requires
        no_block_end(lines(domain_entries(ds))),
    ensures
        unmanaged_lines(lines(block_text(ds)), st) == Seq::<char>::empty(),
{
    lemma_markers();
    reveal_strlit("\n");
    let st_line = MARKER_START@;
    let en_line = MARKER_END@;
    let e = domain_entries(ds);
    let x = e + (en_line + seq!['\n']);
    assert(block_text(ds) =~= (st_line + seq!['\n']) + x);
    lemma_lines_append(st_line + seq!['\n'], x);
    lemma_lines_single(st_line);
    lemma_trim_fixed(st_line);
    assert(lines(block_text(ds)) =~= seq![st_line] + lines(x));
    assert((seq![st_line] + lines(x))[0] == st_line);
    assert((seq![st_line] + lines(x)).drop_first() =~= lines(x));
    assert(strip_cr(st_line) == st_line);
    assert(trim(st_line) == st_line);
    assert(is_block_start(trim(st_line)));
    assert(unmanaged_lines(seq![st_line] + lines(x), st) == unmanaged_lines(lines(x), true));
    lemma_lines_single(en_line);
    lemma_trim_fixed(en_line);
    assert(strip_cr(en_line) == en_line);
    assert(lines(en_line + seq!['\n']) == seq![en_line]);
    assert(is_block_end(trim(en_line)));
    assert(seq![en_line].drop_first() =~= Seq::<Seq<char>>::empty());
    assert(seq![en_line][0] == en_line);
    assert(seq![en_line].len() == 1);
    assert(unmanaged_lines(Seq::<Seq<char>>::empty(), false) == Seq::<char>::empty());
    assert(unmanaged_lines(Seq::<Seq<char>>::empty(), true) == Seq::<char>::empty());
    assert(unmanaged_lines(seq![en_line], true) == Seq::<char>::empty());
    lemma_entries_end(ds);
    if e.len() > 0 {
        lemma_lines_append(e, en_line + seq!['\n']);
        lemma_unmanaged_append(lines(e), seq![en_line], true);
        lemma_skipped_in_block(lines(e));
        assert(unmanaged_lines(lines(x), true) =~= Seq::<char>::empty());
    } else {
        assert(x =~= en_line + seq!['\n']);
    }
}

/// The lines without the trailing blank ones, the last trimmed at its end.
pub open spec fn trimmed_lines(vs: Seq<Seq<char>>) -> Seq<Seq<char>>
    decreases vs.len(),
{
    if vs.len() == 0 {
        vs
    } else if trim_end(vs.last()).len() == 0 {
        trimmed_lines(vs.drop_last())
    } else {
        vs.drop_last().push(trim_end(vs.last()))
    }
}

proof fn lemma_trimmed(vs: Seq<Seq<char>>)
    requires
        forall|k: int| 0 <= k < vs.len() ==> no_newline(#[trigger] vs[k]) && !is_marker(trim(vs[k])),
    ensures
        trimmed_lines(vs).len() == 0 ==> trim_end(join_nl(vs)).len() == 0,
        trimmed_lines(vs).len() > 0 ==> trim_end(join_nl(vs)) + seq!['\n'] == join_nl(
            trimmed_lines(vs),
        ),
        forall|k: int|
            0 <= k < trimmed_lines(vs).len() ==> no_newline(#[trigger] trimmed_lines(vs)[k])
                && !is_marker(trim(trimmed_lines(vs)[k])),
        trimmed_lines(vs).len() > 0 ==> !is_ws(trimmed_lines(vs).last().last()),
    decreases vs.len(),
{
    if vs.len() == 0 {
        assert(join_nl(vs) =~= Seq::<char>::empty());
    } else {
        let v = vs.last();
        let r = vs.drop_last();
        assert forall|k: int| 0 <= k < r.len() implies no_newline(#[trigger] r[k]) && !is_marker(
            trim(r[k]),
        ) by {
            assert(r[k] == vs[k]);
        }
        assert(vs =~= r.push(v));
        lemma_join_nl_push(r, v);
        lemma_trim_end_prefix(v);
        let w = v + seq!['\n'];
        if trim_end(v).len() == 0 {
            lemma_trimmed(r);
            assert forall|k: int| 0 <= k < w.len() implies is_ws(#[trigger] w[k]) by {
                if k < v.len() {
                    assert(w[k] == v[k]);
                }
            }
            assert(join_nl(vs) =~= join_nl(r) + w);
            lemma_trim_end_append_ws(join_nl(r), w);
        } else {
            let tv = trim_end(v);
            assert forall|k: int| 0 <= k < seq!['\n'].len() implies is_ws(#[trigger] seq!['\n'][k]) by {}
            lemma_trim_end_append_ws(v, seq!['\n']);
            assert(join_nl(vs) =~= join_nl(r) + w);
            lemma_trim_end_concat(join_nl(r), w);
            lemma_join_nl_push(r, tv);
            assert(trim_end(join_nl(vs)) + seq!['\n'] =~= join_nl(r.push(tv)));
            lemma_trim_of_trim_end(v);
            assert(no_newline(tv)) by {
                assert forall|j: int| 0 <= j < tv.len() implies #[trigger] tv[j] != '\n' by {
                    assert(tv[j] == v[j]);
                }
            }
            let t = r.push(tv);
            assert forall|k: int| 0 <= k < t.len() implies no_newline(#[trigger] t[k])
                && !is_marker(trim(t[k])) by {
                if k < r.len() {
                    assert(t[k] == r[k]);
                } else {
                    assert(t[k] == tv);
                }
            }
            assert(t.last() == tv);
        }
    }
}

/// Syncing the hosts file leaves everything outside the managed block as
/// it was: removing the block after a sync gives what removing it before
/// gave. Files with CR-LF line endings are covered: reading a line drops
/// the `'\r'` of its ending, so the kept text holds no `"\r\n"`. Left out
/// are domains whose text holds a line that closes the managed block (the
/// entries after it would be read as outside the block), and files with a
/// line whose own text ends in `'\r'` (as `"a\r\r\nb"`): written back
/// followed by `'\n'`, that `'\r'` would be read as part of a CR-LF ending
/// and lost.
pub proof fn law_sync_keeps_outside(c: Seq<char>, ds: Seq<Seq<char>>)
    requires
        no_block_end(lines(domain_entries(ds))),
        !contains(removed_spec(c), seq!['\r', '\n']),
    ensures
        removed_spec(synced_spec(c, ds)) == removed_spec(c),
{
    lemma_markers();
    reveal_strlit("\n");
    let ls = lines(c);
    lemma_lines_no_newline(c);
    lemma_kept(ls, false);
    let kl = kept_lines(ls, false);
    let u = strip_spec(c);
    let r = removed_spec(c);
    assert(u == join_nl(kl));
    lemma_trimmed(kl);
    let t = trimmed_lines(kl);
    let s = synced_spec(c, ds);
    assert(s =~= (r + seq!['\n']) + block_text(ds));
    lemma_lines_append(r + seq!['\n'], block_text(ds));
    lemma_unmanaged_append(lines(r + seq!['\n']), lines(block_text(ds)), false);
    lemma_block_vanishes(ds, open_after(lines(r + seq!['\n']), false));
    let front = unmanaged_lines(lines(r + seq!['\n']), false);
    assert(unmanaged_lines(lines(s), false) =~= front);
    if t.len() == 0 {
        assert(r =~= Seq::<char>::empty());
        assert(r + seq!['\n'] =~= Seq::<char>::empty() + seq!['\n']);
        lemma_lines_single(Seq::<char>::empty());
        let e = Seq::<char>::empty();
        assert(trim(e) =~= e);
        assert(strip_cr(e) == e);
        assert(lines(r + seq!['\n']) == seq![e]);
        assert(!is_marker(trim(e)));
        assert(seq![e][0] == e);
        assert(seq![e].drop_first() =~= Seq::<Seq<char>>::empty());
        assert(unmanaged_lines(Seq::<Seq<char>>::empty(), false) == e);
        assert(front == e + seq!['\n'] + e);
        assert(front =~= seq!['\n']);
        assert(seq!['\n'].drop_last() =~= Seq::<char>::empty());
    } else {
        assert(r + seq!['\n'] == join_nl(t));
        assert forall|k: int| 0 <= k < t.len() implies !((#[trigger] t[k]).len() > 0 && t[k].last()
            == '\r') by {
            if k == t.len() - 1 {
                assert(t[k] == t.last());
            } else if t[k].len() > 0 && t[k].last() == '\r' {
                lemma_join_nl_split(t, k);
                let a = join_nl(t.take(k));
                let b = join_nl(t.skip(k + 1));
                assert(t.skip(k + 1).len() > 0);
                assert(b.len() > 0);
                let p = a.len() + t[k].len() - 1;
                let j = join_nl(t);
                assert(j =~= a + t[k] + seq!['\n'] + b);
                assert(j[p] == '\r');
                assert(j[p + 1] == '\n');
                assert(r =~= j.subrange(0, j.len() - 1));
                assert(r.subrange(p, p + 2) =~= seq!['\r', '\n']);
                assert(occurs_at(r, seq!['\r', '\n'], p));
                assert(false);
            }
        }
        lemma_lines_join(t);
        assert forall|k: int| 0 <= k < t.len() implies !is_marker(trim(#[trigger] t[k])) by {}
        lemma_unmanaged_plain(t);
        assert(front == r + seq!['\n']);
        assert forall|k: int| 0 <= k < seq!['\n'].len() implies is_ws(#[trigger] seq!['\n'][k]) by {}
        lemma_trim_end_append_ws(r, seq!['\n']);
        lemma_trim_end_idem(u);
    }
}

/// Syncing twice with the same domains gives what syncing once gives.
pub proof fn law_sync_idempotent(c: Seq<char>, ds: Seq<Seq<char>>)
    requires
        no_block_end(lines(domain_entries(ds))),
        !contains(removed_spec(c), seq!['\r', '\n']),
    ensures
        synced_spec(synced_spec(c, ds), ds) == synced_spec(c, ds),
{
    law_sync_keeps_outside(c, ds);
}

} // verus!
