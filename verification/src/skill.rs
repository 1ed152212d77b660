//! The HyperHost instructions that coding tools read, and how they
//! are merged into a project's instruction files.

use vstd::prelude::*;
use crate::text::{
    contains, is_ws, lemma_contains_prefix, lemma_find_from_first, lemma_no_contains_join,
    lemma_no_straddle, lemma_trim_empty_iff, lemma_trim_end_append_ws, lemma_trim_end_idem,
    lemma_trim_end_prefix, no_newline, occurs_at, after_prefix_vec, chars_of, find, find_from, find_from_exec, push_all, push_str, slice,
    starts_with, starts_with_str, string_of, trim, trim_end, trim_end_vec, trim_vec,
};

verus! {

/// The `/hyh` command file of the coding tools, with its front matter.
pub const SKILL_CONTENT: &'static str = "---\ndescription: Manage local HTTPS domains with HyperHost (hyh)\n---\n\n# HyperHost (`hyh`)\n\nHyperHost maps local domains such as `myapp.test` to dev servers on\n`localhost` with trusted HTTPS certificates, through nginx and the hosts file.\n\n## Domains\n\n- `hyh add <domain> <upstream>`: add a domain ending in `.test` or `.local`, e.g. `hyh add api.test http://127.0.0.1:3000`.\n- `hyh remove <domain>`: remove a domain and its certificates.\n- `hyh list`: list the configured domains.\n- `hyh toggle <domain>`: enable or disable a domain.\n\n## nginx and the CA\n\n- `hyh nginx start|stop|reload|status|logs`: control the bundled nginx.\n- `hyh ca install|status`: install or inspect the local certificate authority.\n\nCommands that edit the hosts file or manage nginx need administrator rights.\n";

/// Where the HyperHost section of an instruction file begins.
pub const BEGIN_MARKER: &'static str = "<!-- HyperHost BEGIN -->";

/// Where the HyperHost section of an instruction file ends.
pub const END_MARKER: &'static str = "<!-- HyperHost END -->";

/// The instructions with their front matter.
pub fn skill_content_raw() -> (r: &'static str)
    ensures
        r@ == SKILL_CONTENT@,
{
    SKILL_CONTENT
}

/// `s` without leading `'\r'` and `'\n'`.
pub open spec fn trim_start_crlf(s: Seq<char>) -> Seq<char>
    decreases s.len(),
{
    if s.len() > 0 && (s[0] == '\r' || s[0] == '\n') {
        trim_start_crlf(s.drop_first())
    } else {
        s
    }
}

/// `content` without a leading `---` front matter block.
pub open spec fn strip_frontmatter_spec(content: Seq<char>) -> Seq<char> {
    if !starts_with(content, "---"@) {
        content
    } else {
        match find_from(content, "---"@, 3) {
            Some(e) => trim_start_crlf(content.subrange(e + 3, content.len() as int)),
            None => content,
        }
    }
}

/// The HyperHost section for instructions `body`.
pub open spec fn section_spec(body: Seq<char>) -> Seq<char> {
    BEGIN_MARKER@ + "\n"@ + trim(body) + "\n"@ + END_MARKER@ + "\n"@
}

/// `existing` without its first HyperHost section.
pub open spec fn without_section(existing: Seq<char>) -> Seq<char> {
    match find(existing, BEGIN_MARKER@) {
        Some(st) => match find_from(existing, END_MARKER@, st) {
            Some(en) => trim_end(existing.subrange(0, st)) + existing.subrange(
                en + END_MARKER@.len(),
                existing.len() as int,
            ),
            None => trim_end(existing.subrange(0, st)),
        },
        None => existing,
    }
}

/// `existing` with its HyperHost section replaced by (or extended with) one
/// holding `body`.
pub open spec fn upsert_spec(existing: Seq<char>, body: Seq<char>) -> Seq<char> {
    let cleaned = without_section(existing);
    if trim(cleaned).len() == 0 {
        section_spec(body)
    } else {
        trim_end(cleaned) + "\n\n"@ + section_spec(body)
    }
}

/// Remove a leading `---` front matter block.
pub fn strip_frontmatter(content: &str) -> (r: String)
    ensures
        r@ == strip_frontmatter_spec(content@),
{
    let c = chars_of(content);
    if !starts_with_str(&c, "---") {
        return string_of(&c);
    }
    let dashes = chars_of("---");
    proof {
        reveal_strlit("---");
    }
    match find_from_exec(&c, &dashes, 3) {
        Some(e) => {
            let mut a = e + 3;
            assert(c@.subrange(a as int, c.len() as int) =~= c@.subrange(e + 3, c.len() as int));
            while a < c.len() && (c[a] == '\r' || c[a] == '\n')
                invariant
                    e + 3 <= a <= c.len(),
                    trim_start_crlf(c@.subrange(e + 3, c.len() as int)) == trim_start_crlf(
                        c@.subrange(a as int, c.len() as int),
                    ),
                decreases c.len() - a,
            {
                assert(c@.subrange(a as int, c.len() as int).drop_first() =~= c@.subrange(
                    a + 1,
                    c.len() as int,
                ));
                a = a + 1;
            }
            let rest = slice(&c, a, c.len());
            string_of(&rest)
        },
        None => string_of(&c),
    }
}

fn upsert_vec(existing: &Vec<char>, body: &Vec<char>) -> (r: Vec<char>)
    ensures
        r@ == upsert_spec(existing@, body@),
{
    let mut section = chars_of(BEGIN_MARKER);
    push_str(&mut section, "\n");
    let tb = trim_vec(body);
    push_all(&mut section, &tb);
    push_str(&mut section, "\n");
    push_str(&mut section, END_MARKER);
    push_str(&mut section, "\n");
    let begin = chars_of(BEGIN_MARKER);
    let end = chars_of(END_MARKER);
    let cleaned: Vec<char> = match find_from_exec(existing, &begin, 0) {
        Some(start) => {
            match find_from_exec(existing, &end, start) {
                Some(en) => {
                    let before = slice(existing, 0, start);
                    let mut c = trim_end_vec(&before);
                    let after = slice(existing, en + end.len(), existing.len());
                    push_all(&mut c, &after);
                    c
                },
                None => {
                    let before = slice(existing, 0, start);
                    trim_end_vec(&before)
                },
            }
        },
        None => slice(existing, 0, existing.len()),
    };
    assert(cleaned@ == without_section(existing@));
    let t = trim_vec(&cleaned);
    if t.len() == 0 {
        section
    } else {
        let mut out = trim_end_vec(&cleaned);
        push_str(&mut out, "\n\n");
        push_all(&mut out, &section);
        out
    }
}

/// Put `body` in the HyperHost section of `existing`, replacing the section
/// that is there, or appending one after a blank line.
pub fn upsert_marked_section(existing: &str, body: &str) -> (r: String)
    ensures
        r@ == upsert_spec(existing@, body@),
{
    let e = chars_of(existing);
    let b = chars_of(body);
    let out = upsert_vec(&e, &b);
    string_of(&out)
}

/// What installing the instructions for one coding tool gave.
pub struct SkillInstallResult {
    pub target: String,
    pub ok: bool,
    pub path: String,
}


proof fn lemma_markers()
    ensures
        BEGIN_MARKER@.len() == 24,
        END_MARKER@.len() == 22,
        no_newline(BEGIN_MARKER@),
        no_newline(END_MARKER@),
        !contains(BEGIN_MARKER@, END_MARKER@),
        !contains(Seq::<char>::empty(), BEGIN_MARKER@),
        !contains(Seq::<char>::empty(), END_MARKER@),
{
    reveal_strlit("<!-- HyperHost BEGIN -->");
    reveal_strlit("<!-- HyperHost END -->");
    let b = BEGIN_MARKER@;
    let e = END_MARKER@;
    assert forall|k: int| !occurs_at(b, e, k) by {
        if occurs_at(b, e, k) {
            assert(b.subrange(k, k + e.len())[0] == b[k]);
            if k == 0 {
                assert(b.subrange(k, k + e.len())[15] == b[15]);
            }
        }
    }
}

/// Installing the same instructions a second time leaves the file as the first
/// install left it, as long as the file outside its HyperHost section holds no
/// second section start and the instructions do not hold the end marker.
pub proof fn law_upsert_idempotent(existing: Seq<char>, body: Seq<char>)
    requires
        !contains(without_section(existing), BEGIN_MARKER@),
        !contains(trim(body), END_MARKER@),
    ensures
        upsert_spec(upsert_spec(existing, body), body) == upsert_spec(existing, body),
{
    reveal_strlit("\n");
    reveal_strlit("\n\n");
    lemma_markers();
    let b = BEGIN_MARKER@;
    let e = END_MARKER@;
    let nl = "\n"@;
    let c = without_section(existing);
    let tb = trim(body);
    let s = section_spec(body);
    let r = upsert_spec(existing, body);
    let te = trim_end(c);
    let empty = Seq::<char>::empty();
    let p = if trim(c).len() == 0 { empty } else { te + "\n\n"@ };
    assert(r =~= p + s);
    lemma_trim_end_prefix(c);
    // no section start before the new section
    if p.len() > 0 {
        if contains(te, b) {
            lemma_contains_prefix(c, te.len() as int, b);
        }
        lemma_no_contains_join(te, empty, b);
        lemma_no_contains_join(te + nl + empty, empty, b);
        assert(te + nl + empty + nl + empty =~= p);
    }
    assert(!contains(p, b));
    assert(p.len() == 0 || p.last() == '\n');
    lemma_no_straddle(p, s, b);
    assert(s.subrange(0, b.len() as int) =~= b);
    assert(r.subrange(p.len() as int, (p.len() + b.len()) as int) =~= b);
    lemma_find_from_first(r, b, 0, p.len() as int);
    // the end marker found is the one closing the new section
    let z = b + nl + tb + nl;
    assert(s =~= z + e + nl);
    lemma_no_contains_join(b, tb, e);
    lemma_no_contains_join(b + nl + tb, empty, e);
    assert(b + nl + tb + nl + empty =~= z);
    lemma_no_straddle(z, e + nl, e);
    let en: int = (p.len() + z.len()) as int;
    assert forall|k: int| p.len() <= k < en implies !occurs_at(r, e, k) by {
        if occurs_at(r, e, k) {
            assert(r.subrange(k, k + e.len()) =~= (z + (e + nl)).subrange(
                k - p.len(),
                k - p.len() + e.len(),
            ));
            assert(occurs_at(z + (e + nl), e, k - p.len()));
        }
    }
    assert(r.subrange(en, en + e.len()) =~= e);
    lemma_find_from_first(r, e, p.len() as int, en);
    let c2 = without_section(r);
    assert(r.subrange(0, p.len() as int) =~= p);
    assert(r.subrange(en + e.len(), r.len() as int) =~= nl);
    assert(c2 == trim_end(p) + nl);
    if p.len() == 0 {
        assert(trim_end(p) =~= empty);
        lemma_trim_empty_iff(c2);
        assert(trim(c2).len() == 0);
    } else {
        lemma_trim_end_append_ws(te, "\n\n"@);
        lemma_trim_end_idem(c);
        assert(trim_end(p) == te);
        lemma_trim_empty_iff(c);
        let i = choose|i: int| 0 <= i < c.len() && !is_ws(c[i]);
        assert(i < te.len());
        assert(c2[i] == c[i]);
        lemma_trim_empty_iff(c2);
        lemma_trim_end_append_ws(te, nl);
        assert(trim_end(c2) == te);
        assert(upsert_spec(r, body) =~= te + "\n\n"@ + s);
    }
}

} // verus!
