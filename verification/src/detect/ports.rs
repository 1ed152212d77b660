//! Listening-port detection: the framework guess for a port, and the
//! parsing of what `lsof`, `netstat` and `tasklist` print.

use vstd::prelude::*;
use std::collections::{HashMap, HashSet};
use crate::text::{
    after_last, after_last_exec, chars_of, contains, eq_str, find, find_from_exec, parse_u16,
    parse_u16_exec, rindex_of_char, rindex_of_char_exec, slice, starts_with, starts_with_str,
    lemma_rindex_of_char, lemma_find_from_contains, opt_view, lines, split_lines, views,
    parse_u32, parse_u32_exec, string_of, trim, words, trim_vec, words_vec, contains_str,
    ends_with, ends_with_str, trim_start_str, trim_end_char, trim_end_char_vec, after_prefix,
    occurs_at_exec, trim_start_by,
};

verus! {

/// The ports probed when no native tool answers.
pub const COMMON_PORTS: [u16; 38] = [
    1337, 2368, 3000, 3001, 3002, 3003, 3030, 3333, 4000, 4200, 4321, 5000, 5001, 5173, 5174,
    5175, 5555, 6006, 7000, 7001, 7777, 8000, 8001, 8080, 8081, 8082, 8088, 8090, 8443, 8787,
    8888, 9000, 9001, 9090, 9229, 10000, 11434, 19006,
];

/// The framework that usually serves on `port`.
pub open spec fn framework_of(port: u16) -> Option<&'static str> {
    if port == 1337 { Some("Strapi") }
    else if port == 2368 { Some("Ghost") }
    else if port == 3000 { Some("Next.js / Node / Rails") }
    else if port == 3001 || port == 3002 || port == 3003 { Some("Node (alt)") }
    else if port == 3030 { Some("Feathers / Meteor") }
    else if port == 3333 { Some("NestJS (default)") }
    else if port == 4000 { Some("Phoenix / Apollo") }
    else if port == 4200 { Some("Angular CLI") }
    else if port == 4321 { Some("Astro") }
    else if port == 5000 { Some("Flask / .NET") }
    else if port == 5173 || port == 5174 || port == 5175 { Some("Vite / SvelteKit") }
    else if port == 5555 { Some("Prisma Studio") }
    else if port == 6006 { Some("Storybook") }
    else if port == 7000 || port == 7001 { Some("Cassandra / dev") }
    else if port == 7777 { Some("dev server") }
    else if port == 8000 { Some("Django / Laravel / FastAPI") }
    else if port == 8001 { Some("Django (alt)") }
    else if port == 8080 { Some("Go / Spring Boot / generic") }
    else if port == 8081 || port == 8082 { Some("Go / generic (alt)") }
    else if port == 8088 || port == 8090 { Some("dev server") }
    else if port == 8443 { Some("HTTPS dev") }
    else if port == 8787 { Some("R Shiny") }
    else if port == 8888 { Some("Jupyter / dev") }
    else if port == 9000 { Some("PHP-FPM / SonarQube") }
    else if port == 9001 { Some("Supervisor / dev") }
    else if port == 9090 { Some("Prometheus / dev") }
    else if port == 9229 { Some("Node Inspector") }
    else if port == 10000 { Some("Webmin / dev") }
    else if port == 11434 { Some("Ollama") }
    else if port == 19006 { Some("Expo web") }
    else { None }
}

/// The framework usually found on a well-known development port.
pub fn guess_framework(port: u16) -> (r: Option<&'static str>)
    ensures
        r == framework_of(port),
{
    match port {
        1337 => Some("Strapi"),
        2368 => Some("Ghost"),
        3000 => Some("Next.js / Node / Rails"),
        3001 | 3002 | 3003 => Some("Node (alt)"),
        3030 => Some("Feathers / Meteor"),
        3333 => Some("NestJS (default)"),
        4000 => Some("Phoenix / Apollo"),
        4200 => Some("Angular CLI"),
        4321 => Some("Astro"),
        5000 => Some("Flask / .NET"),
        5173 | 5174 | 5175 => Some("Vite / SvelteKit"),
        5555 => Some("Prisma Studio"),
        6006 => Some("Storybook"),
        7000 | 7001 => Some("Cassandra / dev"),
        7777 => Some("dev server"),
        8000 => Some("Django / Laravel / FastAPI"),
        8001 => Some("Django (alt)"),
        8080 => Some("Go / Spring Boot / generic"),
        8081 | 8082 => Some("Go / generic (alt)"),
        8088 | 8090 => Some("dev server"),
        8443 => Some("HTTPS dev"),
        8787 => Some("R Shiny"),
        8888 => Some("Jupyter / dev"),
        9000 => Some("PHP-FPM / SonarQube"),
        9001 => Some("Supervisor / dev"),
        9090 => Some("Prometheus / dev"),
        9229 => Some("Node Inspector"),
        10000 => Some("Webmin / dev"),
        11434 => Some("Ollama"),
        19006 => Some("Expo web"),
        _ => None,
    }
}

/// A local address that is loopback or any-address, as `netstat` prints it.
pub open spec fn loopback_or_any(local: Seq<char>) -> bool {
    ||| starts_with(local, "127."@)
    ||| starts_with(local, "0.0.0.0"@)
    ||| starts_with(local, "[::1]"@)
    ||| starts_with(local, "[::]"@)
    ||| starts_with(local, "::1"@)
    ||| local == "*"@
}

/// Whether a `netstat` local address is loopback or any-address.
pub fn is_loopback_or_any(local: &Vec<char>) -> (b: bool)
    ensures
        b == loopback_or_any(local@),
{
    starts_with_str(local, "127.") || starts_with_str(local, "0.0.0.0") || starts_with_str(
        local,
        "[::1]",
    ) || starts_with_str(local, "[::]") || starts_with_str(local, "::1") || eq_str(local, "*")
}

/// The port after the last `':'` of an address (the whole text when there is none).
pub fn parse_trailing_port(s: &Vec<char>) -> (r: Option<u16>)
    ensures
        r == parse_u16(after_last(s@, ':')),
{
    let tail = after_last_exec(s, ':');
    parse_u16_exec(&tail)
}

/// What comes before the first `"->"` of an `lsof` name (all of it when there is none).
pub open spec fn before_arrow(s: Seq<char>) -> Seq<char> {
    match find(s, "->"@) {
        Some(i) => s.subrange(0, i),
        None => s,
    }
}

/// An `lsof` listening address that is loopback or any-address.
pub open spec fn lsof_addr_ok(a: Seq<char>) -> bool {
    ||| a == "*"@
    ||| a == "127.0.0.1"@
    ||| starts_with(a, "127."@)
    ||| a == "[::1]"@
    ||| a == "[::]"@
    ||| a == "localhost"@
}

/// The port of an `lsof` name field (`addr:port`, possibly followed by
/// `->peer`), when the address is loopback or any-address.
pub open spec fn lsof_name_port(name: Seq<char>) -> Option<u16> {
    let core = before_arrow(name);
    let i = rindex_of_char(core, ':');
    if i < 0 {
        None
    } else if lsof_addr_ok(core.subrange(0, i)) {
        parse_u16(core.subrange(i + 1, core.len() as int))
    } else {
        None
    }
}

/// The listening port of an `lsof -F n` name field, if it is a local one.
pub fn parse_lsof_name(name: &Vec<char>) -> (r: Option<u16>)
    ensures
        r == lsof_name_port(name@),
{
    let arrow = chars_of("->");
    let cut = find_from_exec(name, &arrow, 0);
    let core = match cut {
        Some(i) => slice(name, 0, i),
        None => slice(name, 0, name.len()),
    };
    assert(core@ == before_arrow(name@));
    proof {
        lemma_rindex_of_char(core@, ':');
    }
    match rindex_of_char_exec(&core, ':') {
        None => None,
        Some(i) => {
            let addr = slice(&core, 0, i);
            let ok = eq_str(&addr, "*") || eq_str(&addr, "127.0.0.1") || starts_with_str(
                &addr,
                "127.",
            ) || eq_str(&addr, "[::1]") || eq_str(&addr, "[::]") || eq_str(&addr, "localhost");
            if !ok {
                return None;
            }
            let port = slice(&core, i + 1, core.len());
            parse_u16_exec(&port)
        },
    }
}


/// A TCP port that something listens on, with the process behind it when
/// the native tool names it.
#[derive(Debug, Clone)]
pub struct ListeningPort {
    pub port: u16,
    pub pid: Option<u32>,
    pub process: Option<String>,
}

impl View for ListeningPort {
    type V = (u16, Option<u32>, Option<Seq<char>>);

    open spec fn view(&self) -> (u16, Option<u32>, Option<Seq<char>>) {
        (self.port, self.pid, opt_view(self.process))
    }
}

/// The views of a sequence of listening ports.
pub open spec fn port_views(s: Seq<ListeningPort>) -> Seq<(u16, Option<u32>, Option<Seq<char>>)> {
    s.map_values(|p: ListeningPort| p@)
}

/// No port occurs twice.
pub open spec fn ports_distinct(s: Seq<ListeningPort>) -> bool {
    forall|i: int, j: int| 0 <= i < j < s.len() ==> s[i].port != s[j].port
}

/// Ports strictly increase.
pub open spec fn ports_sorted(s: Seq<ListeningPort>) -> bool {
    forall|i: int, j: int| 0 <= i < j < s.len() ==> s[i].port < s[j].port
}

/// Ports never decrease.
pub open spec fn ports_ordered(s: Seq<ListeningPort>) -> bool {
    forall|i: int, j: int| 0 <= i < j < s.len() ==> s[i].port <= s[j].port
}

/// The entries of `s` on port `q`, in order.
pub open spec fn on_port(s: Seq<ListeningPort>, q: u16) -> Seq<ListeningPort>
    decreases s.len(),
{
    if s.len() == 0 {
        Seq::empty()
    } else if s.last().port == q {
        on_port(s.drop_last(), q).push(s.last())
    } else {
        on_port(s.drop_last(), q)
    }
}

proof fn lemma_on_port_concat(a: Seq<ListeningPort>, b: Seq<ListeningPort>, q: u16)
    ensures
        on_port(a + b, q) == on_port(a, q) + on_port(b, q),
    decreases b.len(),
{
    if b.len() == 0 {
        assert(a + b =~= a);
        assert(on_port(a, q) + on_port(b, q) =~= on_port(a, q));
    } else {
        lemma_on_port_concat(a, b.drop_last(), q);
        assert((a + b).drop_last() =~= a + b.drop_last());
        assert((a + b).last() == b.last());
        if b.last().port == q {
            assert(on_port(a, q) + on_port(b.drop_last(), q).push(b.last()) =~= (on_port(a, q)
                + on_port(b.drop_last(), q)).push(b.last()));
        }
    }
}

proof fn lemma_on_port_none(s: Seq<ListeningPort>, q: u16)
    requires
        forall|t: int| 0 <= t < s.len() ==> s[t].port != q,
    ensures
        on_port(s, q) == Seq::<ListeningPort>::empty(),
    decreases s.len(),
{
    if s.len() > 0 {
        lemma_on_port_none(s.drop_last(), q);
    }
}

proof fn lemma_on_port_one(x: ListeningPort, q: u16)
    ensures
        on_port(seq![x], q) == (if x.port == q {
            seq![x]
        } else {
            Seq::<ListeningPort>::empty()
        }),
{
    assert(seq![x].drop_last() =~= Seq::<ListeningPort>::empty());
    assert(on_port(seq![x].drop_last(), q) =~= Seq::<ListeningPort>::empty());
    assert(seq![x].last() == x);
    if x.port == q {
        assert(Seq::<ListeningPort>::empty().push(x) =~= seq![x]);
    }
}

/// `sort_by_key(|p| p.port)`: the same entries with ports never
/// decreasing, and entries on the same port in their original order (the
/// sort is stable); ports strictly increase when no port occurs twice.
pub fn sort_by_port(v: Vec<ListeningPort>) -> (r: Vec<ListeningPort>)
    ensures
        ports_ordered(r@),
        forall|q: u16| #[trigger] on_port(r@, q) == on_port(v@, q),
        port_views(r@).to_multiset() == port_views(v@).to_multiset(),
        ports_distinct(v@) ==> ports_sorted(r@),
{
    broadcast use vstd::seq_lib::group_to_multiset_ensures;

    let ghost orig = port_views(v@);
    let ghost ov = v@;
    let ghost distinct = ports_distinct(v@);
    let mut rem = v;
    let mut out: Vec<ListeningPort> = Vec::new();
    assert(port_views(out@) + port_views(rem@) =~= orig);
    assert forall|q: u16| #[trigger] on_port(ov, q) == on_port(out@, q) + on_port(rem@, q) by {
        assert(on_port(out@, q) =~= Seq::<ListeningPort>::empty());
        assert(on_port(out@, q) + on_port(rem@, q) =~= on_port(rem@, q));
    }
    while rem.len() > 0
        invariant
            ports_ordered(out@),
            distinct ==> ports_sorted(out@),
            distinct ==> ports_distinct(rem@),
            forall|i: int, j: int|
                0 <= i < out.len() && 0 <= j < rem.len() ==> out@[i].port <= rem@[j].port,
            distinct ==> forall|i: int, j: int|
                0 <= i < out.len() && 0 <= j < rem.len() ==> out@[i].port < rem@[j].port,
            forall|q: u16| #[trigger] on_port(ov, q) == on_port(out@, q) + on_port(rem@, q),
            (port_views(out@) + port_views(rem@)).to_multiset() == orig.to_multiset(),
        decreases rem.len(),
    {
        let mut m: usize = 0;
        let mut j: usize = 1;
        while j < rem.len()
            invariant
                m < j <= rem.len(),
                forall|t: int| 0 <= t < j ==> rem@[m as int].port <= rem@[t].port,
                forall|t: int| 0 <= t < m ==> rem@[m as int].port < rem@[t].port,
            decreases rem.len() - j,
        {
            if rem[j].port < rem[m].port {
                m = j;
            }
            j = j + 1;
        }
        let ghost a = port_views(out@);
        let ghost b = port_views(rem@);
        let ghost old_rem = rem@;
        let ghost old_out = out@;
        let x = rem.remove(m);
        assert(port_views(rem@) =~= b.remove(m as int));
        assert(b[m as int] == x@);
        out.push(x);
        assert(port_views(out@) =~= a.push(x@));
        proof {
            vstd::seq_lib::lemma_multiset_commutative(a, b);
            vstd::seq_lib::lemma_multiset_commutative(a.push(x@), b.remove(m as int));
            vstd::seq_lib::to_multiset_remove(b, m as int);
            vstd::seq_lib::to_multiset_build(a, x@);
            assert(b.contains(x@));
            vstd::seq_lib::to_multiset_contains(b, x@);
            broadcast use vstd::multiset::group_multiset_axioms;
            assert((a.push(x@) + b.remove(m as int)).to_multiset() =~= (a + b).to_multiset());
            let pa = old_rem.take(m as int);
            let pb = old_rem.skip(m + 1);
            assert(old_rem =~= pa + seq![x] + pb);
            assert(rem@ =~= pa + pb);
            assert(out@ =~= old_out + seq![x]);
            assert forall|q: u16| #[trigger] on_port(ov, q) == on_port(out@, q) + on_port(rem@, q) by {
                lemma_on_port_concat(pa + seq![x], pb, q);
                lemma_on_port_concat(pa, seq![x], q);
                lemma_on_port_concat(pa, pb, q);
                lemma_on_port_concat(old_out, seq![x], q);
                lemma_on_port_one(x, q);
                if x.port == q {
                    assert forall|t: int| 0 <= t < pa.len() implies pa[t].port != q by {
                        assert(pa[t] == old_rem[t]);
                    }
                    lemma_on_port_none(pa, q);
                    assert(on_port(out@, q) + on_port(rem@, q) =~= on_port(old_out, q)
                        + on_port(old_rem, q));
                } else {
                    assert(on_port(out@, q) + on_port(rem@, q) =~= on_port(old_out, q)
                        + on_port(old_rem, q));
                }
            }
            assert forall|i: int, j2: int| 0 <= i < j2 < out.len() implies out@[i].port
                <= out@[j2].port by {
                if j2 < out.len() - 1 {
                    assert(out@[i] == old_out[i] && out@[j2] == old_out[j2]);
                } else {
                    assert(out@[j2] == old_rem[m as int]);
                    assert(out@[i] == old_out[i]);
                }
            }
            if distinct {
                assert forall|i: int, j2: int| 0 <= i < j2 < out.len() implies out@[i].port
                    < out@[j2].port by {
                    if j2 < out.len() - 1 {
                        assert(out@[i] == old_out[i] && out@[j2] == old_out[j2]);
                    } else {
                        assert(out@[j2] == old_rem[m as int]);
                        assert(out@[i] == old_out[i]);
                    }
                }
                assert forall|i: int, j2: int| 0 <= i < j2 < rem.len() implies rem@[i].port
                    != rem@[j2].port by {
                    let ii = if i < m { i } else { i + 1 };
                    let jj = if j2 < m { j2 } else { j2 + 1 };
                    assert(rem@[i] == old_rem[ii] && rem@[j2] == old_rem[jj]);
                }
            }
            assert forall|i: int, j2: int| 0 <= i < out.len() && 0 <= j2 < rem.len() implies out@[i].port
                <= rem@[j2].port by {
                let jj = if j2 < m { j2 } else { j2 + 1 };
                assert(rem@[j2] == old_rem[jj]);
                if i < out.len() - 1 {
                    assert(out@[i] == old_out[i]);
                } else {
                    assert(out@[i] == old_rem[m as int]);
                }
            }
            if distinct {
                assert forall|i: int, j2: int| 0 <= i < out.len() && 0 <= j2 < rem.len() implies out@[i].port
                    < rem@[j2].port by {
                    let jj = if j2 < m { j2 } else { j2 + 1 };
                    assert(rem@[j2] == old_rem[jj]);
                    if i < out.len() - 1 {
                        assert(out@[i] == old_out[i]);
                    } else {
                        assert(jj != m);
                    }
                }
            }
        }
    }
    assert(port_views(out@) + port_views(rem@) =~= port_views(out@));
    assert forall|q: u16| #[trigger] on_port(out@, q) == on_port(ov, q) by {
        assert(on_port(rem@, q) =~= Seq::<ListeningPort>::empty());
        assert(on_port(out@, q) + on_port(rem@, q) =~= on_port(out@, q));
    }
    out
}


/// What the `lsof -F pcn` reader holds between lines: the current process
/// id, the current command, and the ports found so far.
pub type LsofState = (Option<u32>, Option<Seq<char>>, Seq<(u16, Option<u32>, Option<Seq<char>>)>);

/// `port` is already among the entries.
pub open spec fn has_port(acc: Seq<(u16, Option<u32>, Option<Seq<char>>)>, port: u16) -> bool {
    exists|i: int| 0 <= i < acc.len() && acc[i].0 == port
}

/// One line of `lsof -F pcn` output: `p<pid>` starts a process, `c<command>`
/// names it, `n<name>` adds its listening port the first time that port is seen.
pub open spec fn lsof_step(st: LsofState, line: Seq<char>) -> LsofState {
    if line.len() == 0 {
        st
    } else {
        let rest = line.drop_first();
        if line[0] == 'p' {
            (parse_u32(rest), None, st.2)
        } else if line[0] == 'c' {
            (st.0, Some(rest), st.2)
        } else if line[0] == 'n' {
            match lsof_name_port(rest) {
                Some(port) => if has_port(st.2, port) {
                    st
                } else {
                    (st.0, st.1, st.2.push((port, st.0, st.1)))
                },
                None => st,
            }
        } else {
            st
        }
    }
}

/// The reader's state after the given lines.
pub open spec fn lsof_scan(ls: Seq<Seq<char>>) -> LsofState
    decreases ls.len(),
{
    if ls.len() == 0 {
        (None, None, Seq::empty())
    } else {
        lsof_step(lsof_scan(ls.drop_last()), ls.last())
    }
}

/// Every non-empty line starts with a one-byte character, so that its tag
/// can be cut off.
pub open spec fn lines_tagged(ls: Seq<Seq<char>>) -> bool {
    forall|i: int| 0 <= i < ls.len() && ls[i].len() > 0 ==> (#[trigger] ls[i])[0] < '\u{80}'
}

/// The listening ports in the output of `lsof -iTCP -sTCP:LISTEN -nP -F pcn`,
/// each port once (with the process where it first appears), by increasing port.
pub fn parse_lsof_output(text: &str) -> (r: Vec<ListeningPort>)
    requires
        lines_tagged(lines(text@)),
    ensures
        ports_sorted(r@),
        port_views(r@).to_multiset() == lsof_scan(lines(text@)).2.to_multiset(),
{
    let tv = chars_of(text);
    let ls = split_lines(&tv);
    let ghost all = lines(text@);
    let mut results: Vec<ListeningPort> = Vec::new();
    let mut seen: HashSet<u16> = HashSet::new();
    let mut cur_pid: Option<u32> = None;
    let mut cur_cmd: Option<String> = None;
    let mut k: usize = 0;
    assert(all.take(0) =~= Seq::<Seq<char>>::empty());
    while k < ls.len()
        invariant
            k <= ls.len(),
            views(ls@) == all,
            lsof_scan(all.take(k as int)) == (cur_pid, opt_view(cur_cmd), port_views(results@)),
            forall|p: u16| seen@.contains(p) <==> has_port(port_views(results@), p),
            ports_distinct(results@),
        decreases ls.len() - k,
    {
        let line = &ls[k];
        assert(line@ == all[k as int]);
        assert(all.take(k + 1).drop_last() =~= all.take(k as int));
        assert(all.take(k + 1).last() == line@);
        if line.len() > 0 {
            let tag = line[0];
            let rest = slice(line, 1, line.len());
            assert(rest@ == line@.drop_first());
            if tag == 'p' {
                cur_pid = parse_u32_exec(&rest);
                cur_cmd = None;
            } else if tag == 'c' {
                cur_cmd = Some(string_of(&rest));
            } else if tag == 'n' {
                match parse_lsof_name(&rest) {
                    Some(port) => {
                        if seen.insert(port) {
                            let process = match &cur_cmd {
                                Some(c) => Some(c.clone()),
                                None => None,
                            };
                            let ghost old_results = results@;
                            results.push(ListeningPort { port, pid: cur_pid, process });
                            assert(port_views(results@) =~= port_views(old_results).push(
                                (port, cur_pid, opt_view(cur_cmd)),
                            ));
                            assert forall|q: u16| seen@.contains(q) <==> has_port(
                                port_views(results@),
                                q,
                            ) by {
                                if has_port(port_views(results@), q) && q != port {
                                    let i = choose|i: int|
                                        0 <= i < port_views(results@).len()
                                            && port_views(results@)[i].0 == q;
                                    assert(port_views(old_results)[i].0 == q);
                                }
                                if has_port(port_views(old_results), q) {
                                    let i = choose|i: int|
                                        0 <= i < port_views(old_results).len()
                                            && port_views(old_results)[i].0 == q;
                                    assert(port_views(results@)[i].0 == q);
                                }
                                if q == port {
                                    assert(port_views(results@)[old_results.len() as int].0 == q);
                                }
                            }
                            assert forall|i: int, j: int|
                                0 <= i < j < results@.len() implies results@[i].port
                                != results@[j].port by {
                                if j == old_results.len() {
                                    assert(port_views(old_results)[i].0 == old_results[i].port);
                                }
                            }
                        }
                    },
                    None => {},
                }
            }
        }
        k = k + 1;
    }
    assert(all.take(ls.len() as int) =~= all);
    sort_by_port(results)
}


/// The (port, pid) of a `netstat -ano -p TCP` line in state LISTENING on a
/// loopback or any-address.
pub open spec fn netstat_entry(line: Seq<char>) -> Option<(u16, u32)> {
    let t = trim(line);
    let parts = words(t);
    if !contains(t, "LISTENING"@) || parts.len() < 5 || !loopback_or_any(parts[1]) {
        None
    } else {
        match parse_u16(after_last(parts[1], ':')) {
            None => None,
            Some(port) => match parse_u32(parts[4]) {
                None => None,
                Some(pid) => Some((port, pid)),
            },
        }
    }
}

/// The listening entries of `netstat` lines, each port once, in order of appearance.
pub open spec fn netstat_scan(ls: Seq<Seq<char>>) -> Seq<(u16, Option<u32>, Option<Seq<char>>)>
    decreases ls.len(),
{
    if ls.len() == 0 {
        Seq::empty()
    } else {
        let acc = netstat_scan(ls.drop_last());
        match netstat_entry(ls.last()) {
            Some((port, pid)) => if has_port(acc, port) {
                acc
            } else {
                acc.push((port, Some(pid), None))
            },
            None => acc,
        }
    }
}

/// The `","` that separates `tasklist /FO CSV` fields.
pub open spec fn csv_sep() -> Seq<char> {
    seq!['"', ',', '"']
}

/// The (pid, image name without `.exe`) of a `tasklist /FO CSV /NH` line.
pub open spec fn tasklist_entry(line: Seq<char>) -> Option<(u32, Seq<char>)> {
    match find(line, csv_sep()) {
        None => None,
        Some(i) => {
            let f0 = line.subrange(0, i);
            let after = line.subrange(i + 3, line.len() as int);
            let f1 = match find(after, csv_sep()) {
                Some(j) => after.subrange(0, j),
                None => after,
            };
            let name_raw = trim_start_str(f0, seq!['"']);
            let name = if ends_with(name_raw, ".exe"@) {
                name_raw.subrange(0, name_raw.len() - ".exe"@.len())
            } else {
                name_raw
            };
            match parse_u32(trim_end_char(trim_start_str(f1, seq!['"']), '"')) {
                Some(pid) => Some((pid, name)),
                None => None,
            }
        },
    }
}

/// Process names by pid from `tasklist` lines; a later line wins.
pub open spec fn tasklist_names(ls: Seq<Seq<char>>) -> Map<u32, Seq<char>>
    decreases ls.len(),
{
    if ls.len() == 0 {
        Map::empty()
    } else {
        let m = tasklist_names(ls.drop_last());
        match tasklist_entry(ls.last()) {
            Some((pid, name)) => m.insert(pid, name),
            None => m,
        }
    }
}

/// A map of strings that holds the given texts under the same keys.
pub open spec fn names_view(m: Map<u32, String>, v: Map<u32, Seq<char>>) -> bool {
    &&& m.dom() == v.dom()
    &&& forall|k: u32| #[trigger] m.contains_key(k) ==> m[k]@ == v[k]
}

/// An entry with the process named after its pid, when the pid has a name.
pub open spec fn named(e: (u16, Option<u32>, Option<Seq<char>>), names: Map<u32, Seq<char>>) -> (
    u16,
    Option<u32>,
    Option<Seq<char>>,
) {
    match e.1 {
        Some(pid) => if names.contains_key(pid) {
            (e.0, e.1, Some(names[pid]))
        } else {
            e
        },
        None => e,
    }
}

/// The listening entries of `netstat -ano -p TCP` output, each port once,
/// in order of appearance, with no process names yet.
pub fn parse_netstat_output(text: &str) -> (r: Vec<ListeningPort>)
    ensures
        port_views(r@) == netstat_scan(lines(text@)),
        ports_distinct(r@),
{
    let tv = chars_of(text);
    let ls = split_lines(&tv);
    let ghost all = lines(text@);
    let mut results: Vec<ListeningPort> = Vec::new();
    let mut seen: HashSet<u16> = HashSet::new();
    let mut k: usize = 0;
    assert(all.take(0) =~= Seq::<Seq<char>>::empty());
    while k < ls.len()
        invariant
            k <= ls.len(),
            views(ls@) == all,
            netstat_scan(all.take(k as int)) == port_views(results@),
            forall|p: u16| seen@.contains(p) <==> has_port(port_views(results@), p),
            ports_distinct(results@),
        decreases ls.len() - k,
    {
        let line = &ls[k];
        assert(line@ == all[k as int]);
        assert(all.take(k + 1).drop_last() =~= all.take(k as int));
        assert(all.take(k + 1).last() == line@);
        match netstat_line(line) {
            Some((port, pid)) => {
                if seen.insert(port) {
                    let ghost old_results = results@;
                    results.push(ListeningPort { port, pid: Some(pid), process: None });
                    assert(port_views(results@) =~= port_views(old_results).push(
                        (port, Some(pid), None),
                    ));
                    assert forall|q: u16| seen@.contains(q) <==> has_port(
                        port_views(results@),
                        q,
                    ) by {
                        if has_port(port_views(results@), q) && q != port {
                            let i = choose|i: int|
                                0 <= i < port_views(results@).len() && port_views(results@)[i].0
                                    == q;
                            assert(port_views(old_results)[i].0 == q);
                        }
                        if has_port(port_views(old_results), q) {
                            let i = choose|i: int|
                                0 <= i < port_views(old_results).len()
                                    && port_views(old_results)[i].0 == q;
                            assert(port_views(results@)[i].0 == q);
                        }
                        if q == port {
                            assert(port_views(results@)[old_results.len() as int].0 == q);
                        }
                    }
                    assert forall|i: int, j: int|
                        0 <= i < j < results@.len() implies results@[i].port
                        != results@[j].port by {
                        if j == old_results.len() {
                            assert(port_views(old_results)[i].0 == old_results[i].port);
                        }
                    }
                }
            },
            None => {},
        }
        k = k + 1;
    }
    assert(all.take(ls.len() as int) =~= all);
    results
}

/// One `netstat` line.
fn netstat_line(line: &Vec<char>) -> (r: Option<(u16, u32)>)
    ensures
        r == netstat_entry(line@),
{
    let t = trim_vec(line);
    if !contains_str(&t, "LISTENING") {
        return None;
    }
    let parts = words_vec(&t);
    assert(views(parts@) == words(t@));
    if parts.len() < 5 {
        return None;
    }
    assert(views(parts@)[1] == parts@[1]@ && views(parts@)[4] == parts@[4]@);
    if !is_loopback_or_any(&parts[1]) {
        return None;
    }
    let port = match parse_trailing_port(&parts[1]) {
        Some(p) => p,
        None => return None,
    };
    let pid = match parse_u32_exec(&parts[4]) {
        Some(n) => n,
        None => return None,
    };
    Some((port, pid))
}

/// One `tasklist` line.
fn tasklist_line(line: &Vec<char>) -> (r: Option<(u32, Vec<char>)>)
    ensures
        match r {
            Some((pid, name)) => tasklist_entry(line@) == Some((pid, name@)),
            None => tasklist_entry(line@) is None,
        },
{
    let mut sep: Vec<char> = Vec::new();
    sep.push('"');
    sep.push(',');
    sep.push('"');
    assert(sep@ =~= csv_sep());
    let i = match find_from_exec(line, &sep, 0) {
        Some(i) => i,
        None => return None,
    };
    let f0 = slice(line, 0, i);
    let after = slice(line, i + 3, line.len());
    let f1 = match find_from_exec(&after, &sep, 0) {
        Some(j) => slice(&after, 0, j),
        None => slice(&after, 0, after.len()),
    };
    assert(after@.subrange(0, after@.len() as int) =~= after@);
    let mut quote: Vec<char> = Vec::new();
    quote.push('"');
    assert(quote@ =~= seq!['"']);
    let name_raw = trim_start_by(&f0, &quote);
    let exe = chars_of(".exe");
    let name = if ends_with_str(&name_raw, ".exe") {
        slice(&name_raw, 0, name_raw.len() - exe.len())
    } else {
        name_raw
    };
    let pid_start = trim_start_by(&f1, &quote);
    let pid_raw = trim_end_char_vec(&pid_start, '"');
    match parse_u32_exec(&pid_raw) {
        Some(pid) => Some((pid, name)),
        None => None,
    }
}

/// Process names by pid from `tasklist /FO CSV /NH` output.
pub fn parse_tasklist_output(text: &str) -> (r: HashMap<u32, String>)
    ensures
        names_view(r@, tasklist_names(lines(text@))),
{
    let tv = chars_of(text);
    let ls = split_lines(&tv);
    let ghost all = lines(text@);
    let mut map: HashMap<u32, String> = HashMap::new();
    let mut k: usize = 0;
    assert(all.take(0) =~= Seq::<Seq<char>>::empty());
    assert(map@.dom() =~= tasklist_names(all.take(0)).dom());
    while k < ls.len()
        invariant
            k <= ls.len(),
            views(ls@) == all,
            names_view(map@, tasklist_names(all.take(k as int))),
        decreases ls.len() - k,
    {
        let line = &ls[k];
        assert(line@ == all[k as int]);
        assert(all.take(k + 1).drop_last() =~= all.take(k as int));
        assert(all.take(k + 1).last() == line@);
        let ghost before = tasklist_names(all.take(k as int));
        match tasklist_line(line) {
            Some((pid, name)) => {
                let s = string_of(&name);
                map.insert(pid, s);
                assert(map@.dom() =~= before.insert(pid, name@).dom());
            },
            None => {},
        }
        k = k + 1;
    }
    assert(all.take(ls.len() as int) =~= all);
    map
}

/// The entries with each process named after its pid where `names` knows it.
pub fn with_process_names(v: &Vec<ListeningPort>, names: &HashMap<u32, String>) -> (r: Vec<
    ListeningPort,
>)
    ensures
        r@.len() == v@.len(),
        forall|i: int| 0 <= i < v.len() ==> r@[i].port == v@[i].port,
        forall|m: Map<u32, Seq<char>>|
            names_view(names@, m) ==> port_views(r@) == port_views(v@).map_values(
                |e: (u16, Option<u32>, Option<Seq<char>>)| named(e, m),
            ),
{
    let mut out: Vec<ListeningPort> = Vec::new();
    let mut i: usize = 0;
    while i < v.len()
        invariant
            i <= v.len(),
            out@.len() == i,
            forall|j: int| 0 <= j < i ==> out@[j].port == v@[j].port,
            forall|m: Map<u32, Seq<char>>|
                names_view(names@, m) ==> forall|j: int|
                    0 <= j < i ==> (#[trigger] out@[j])@ == named(v@[j]@, m),
        decreases v.len() - i,
    {
        let e = &v[i];
        let process = match e.pid {
            Some(pid) => match names.get(&pid) {
                Some(name) => Some(name.clone()),
                None => match &e.process {
                    Some(c) => Some(c.clone()),
                    None => None,
                },
            },
            None => match &e.process {
                Some(c) => Some(c.clone()),
                None => None,
            },
        };
        out.push(ListeningPort { port: e.port, pid: e.pid, process });
        i = i + 1;
    }
    proof {
        assert forall|m: Map<u32, Seq<char>>| names_view(names@, m) implies port_views(out@)
            == port_views(v@).map_values(
            |e: (u16, Option<u32>, Option<Seq<char>>)| named(e, m),
        ) by {
            assert(port_views(out@) =~= port_views(v@).map_values(
                |e: (u16, Option<u32>, Option<Seq<char>>)| named(e, m),
            ));
        }
    }
    out
}


/// The listening ports of `netstat -ano -p TCP` output, each port once,
/// named from `tasklist /FO CSV /NH` output, by increasing port.
pub fn windows_listening_ports(netstat: &str, tasklist: &str) -> (r: Vec<ListeningPort>)
    ensures
        ports_sorted(r@),
        port_views(r@).to_multiset() == netstat_scan(lines(netstat@)).map_values(
            |e: (u16, Option<u32>, Option<Seq<char>>)| named(e, tasklist_names(lines(tasklist@))),
        ).to_multiset(),
{
    let results = parse_netstat_output(netstat);
    let ghost m = tasklist_names(lines(tasklist@));
    let named_results = if results.len() > 0 {
        let names = parse_tasklist_output(tasklist);
        with_process_names(&results, &names)
    } else {
        assert(port_views(results@).map_values(
            |e: (u16, Option<u32>, Option<Seq<char>>)| named(e, m),
        ) =~= port_views(results@));
        results
    };
    assert(ports_distinct(named_results@)) by {
        assert forall|i: int, j: int| 0 <= i < j < named_results@.len() implies named_results@[
            i].port != named_results@[j].port by {
            assert(port_views(named_results@)[i].0 == named_results@[i].port);
            assert(port_views(named_results@)[j].0 == named_results@[j].port);
            assert(port_views(results@)[i].0 == results@[i].port);
            assert(port_views(results@)[j].0 == results@[j].port);
        }
    }
    sort_by_port(named_results)
}

/// The ports that answered a connection probe, as listening entries
/// without process, by increasing port.
pub fn probed_listening_ports(open: &Vec<u16>) -> (r: Vec<ListeningPort>)
    ensures
        forall|i: int, j: int| 0 <= i < j < r.len() ==> r@[i].port <= r@[j].port,
        r@.map_values(|p: ListeningPort| p.port).to_multiset() == open@.to_multiset(),
        forall|i: int| 0 <= i < r.len() ==> r@[i].pid is None && r@[i].process is None,
{
    broadcast use vstd::seq_lib::group_to_multiset_ensures;

    let mut sorted: Vec<u16> = Vec::new();
    let mut i: usize = 0;
    assert(open@.take(0) =~= Seq::<u16>::empty());
    while i < open.len()
        invariant
            i <= open.len(),
            forall|a: int, b: int| 0 <= a < b < sorted.len() ==> sorted@[a] <= sorted@[b],
            sorted@.to_multiset() == open@.take(i as int).to_multiset(),
        decreases open.len() - i,
    {
        let x = open[i];
        let mut k: usize = 0;
        while k < sorted.len() && sorted[k] <= x
            invariant
                k <= sorted.len(),
                forall|a: int| 0 <= a < k ==> sorted@[a] <= x,
            decreases sorted.len() - k,
        {
            k = k + 1;
        }
        let ghost before = sorted@;
        sorted.insert(k, x);
        assert(sorted@ == before.insert(k as int, x));
        proof {
            vstd::seq_lib::to_multiset_insert(before, k as int, x);
            assert(open@.take(i + 1) =~= open@.take(i as int).push(x));
            vstd::seq_lib::to_multiset_build(open@.take(i as int), x);
            assert forall|a: int, b: int| 0 <= a < b < sorted.len() implies sorted@[a]
                <= sorted@[b] by {
                if b < k {
                } else if b == k {
                } else if a < k {
                    assert(sorted@[b] == before[b - 1]);
                    if k < before.len() {
                        assert(before[k as int] > x);
                        assert(before[k as int] <= before[b - 1]);
                    }
                } else if a == k {
                    assert(sorted@[b] == before[b - 1]);
                    assert(before[k as int] > x);
                    assert(before[k as int] <= before[b - 1]);
                } else {
                    assert(sorted@[a] == before[a - 1]);
                    assert(sorted@[b] == before[b - 1]);
                }
            }
        }
        i = i + 1;
    }
    assert(open@.take(open.len() as int) =~= open@);
    let mut out: Vec<ListeningPort> = Vec::new();
    let mut j: usize = 0;
    while j < sorted.len()
        invariant
            j <= sorted.len(),
            out@.len() == j,
            forall|a: int, b: int| 0 <= a < b < sorted.len() ==> sorted@[a] <= sorted@[b],
            forall|a: int| 0 <= a < j ==> (#[trigger] out@[a]).port == sorted@[a],
            forall|a: int| 0 <= a < j ==> (#[trigger] out@[a]).pid is None,
            forall|a: int| 0 <= a < j ==> (#[trigger] out@[a]).process is None,
        decreases sorted.len() - j,
    {
        out.push(ListeningPort { port: sorted[j], pid: None, process: None });
        j = j + 1;
    }
    assert(out@.map_values(|p: ListeningPort| p.port) =~= sorted@);
    assert forall|a: int, b: int| 0 <= a < b < out.len() implies out@[a].port <= out@[b].port by {
        assert(out@[a].port == sorted@[a] && out@[b].port == sorted@[b]);
    }
    out
}

} // verus!
