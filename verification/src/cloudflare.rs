//! Cloudflare tunnels: the public URL in a quick tunnel's log, when that
//! tunnel is ready, what `cloudflared tunnel create` reports, and the
//! configuration file of a named tunnel.

use vstd::prelude::*;
use crate::text::{
    chars_of, contains, contains_str, ends_with, find, find_from_exec, is_ws, is_ws_char, lemma_find_from_contains,
    lines, lowercase, occurs_at, push_all, push_str, replace_char, replace_char_exec, slice, split_lines,
    starts_with, string_of, to_lowercase, trim, trim_end_char, trim_end_char_vec, trim_vec, views,
    word_prefix, word_prefix_vec,
};

verus! {

/// Index of the first whitespace or `'|'` in `s`, or its length.
pub open spec fn url_end(s: Seq<char>) -> int
    decreases s.len(),
{
    if s.len() == 0 || is_ws(s[0]) || s[0] == '|' {
        0
    } else {
        1 + url_end(s.drop_first())
    }
}

pub proof fn lemma_url_end(s: Seq<char>)
    ensures
        0 <= url_end(s) <= s.len(),
    decreases s.len(),
{
    if s.len() > 0 && !is_ws(s[0]) && s[0] != '|' {
        lemma_url_end(s.drop_first());
    }
}

/// The TryCloudflare URL in a line of `cloudflared` log: from the first
/// `https://` up to whitespace, `'|'` or the end of the line, when it
/// mentions `trycloudflare.com`.
pub open spec fn trycloudflare_url(line: Seq<char>) -> Option<Seq<char>> {
    match find(line, "https://"@) {
        None => None,
        Some(start) => {
            let rest = line.subrange(start, line.len() as int);
            let url = rest.subrange(0, url_end(rest));
            if contains(url, "trycloudflare.com"@) && starts_with(url, "https://"@) {
                Some(url)
            } else {
                None
            }
        },
    }
}

/// The TryCloudflare URL in a line of `cloudflared` log, if any.
pub fn extract_trycloudflare_url(line: &str) -> (r: Option<String>)
    ensures
        match r {
            Some(u) => trycloudflare_url(line@) == Some(u@),
            None => trycloudflare_url(line@) is None,
        },
{
    let l = chars_of(line);
    let pat = chars_of("https://");
    let start = match find_from_exec(&l, &pat, 0) {
        Some(s) => s,
        None => return None,
    };
    let rest = slice(&l, start, l.len());
    let mut e: usize = 0;
    proof {
        lemma_url_end(rest@);
    }
    assert(rest@.skip(0) =~= rest@);
    while e < rest.len() && !is_ws_char(rest[e]) && rest[e] != '|'
        invariant
            e <= rest.len(),
            url_end(rest@) == e + url_end(rest@.skip(e as int)),
        decreases rest.len() - e,
    {
        assert(rest@.skip(e as int).drop_first() =~= rest@.skip(e + 1));
        e = e + 1;
    }
    assert(url_end(rest@.skip(e as int)) == 0);
    let url = slice(&rest, 0, e);
    if contains_str(&url, "trycloudflare.com") && crate::text::starts_with_str(&url, "https://") {
        Some(string_of(&url))
    } else {
        None
    }
}

/// A log line, lower-cased, that says the quick tunnel is up.
pub open spec fn ready_line(lower: Seq<char>) -> bool {
    ||| contains(lower, "registered"@)
    ||| contains(lower, "connected"@)
    ||| contains(lower, "your quick tunnel has been created"@)
}

/// One log line of a quick tunnel: the URL is held once seen, and given out
/// when a later line says the tunnel is ready. Gives the URL held next and
/// the URL now confirmed, if any.
pub open spec fn tunnel_log_step(pending: Option<Seq<char>>, line: Seq<char>) -> (
    Option<Seq<char>>,
    Option<Seq<char>>,
) {
    match pending {
        None => match trycloudflare_url(line) {
            Some(u) => (Some(u), None),
            None => (None, None),
        },
        Some(u) => if ready_line(lowercase(line)) {
            (None, Some(u))
        } else {
            (Some(u), None)
        },
    }
}

/// Reads one log line of a quick tunnel; see `tunnel_log_step`.
pub fn tunnel_log_line(pending: Option<String>, line: &str) -> (r: (Option<String>, Option<String>))
    ensures
        (crate::text::opt_view(r.0), crate::text::opt_view(r.1)) == tunnel_log_step(
            crate::text::opt_view(pending),
            line@,
        ),
{
    match pending {
        None => match extract_trycloudflare_url(line) {
            Some(u) => (Some(u), None),
            None => (None, None),
        },
        Some(u) => {
            let lower = to_lowercase(line);
            let lv = chars_of(lower.as_str());
            if contains_str(&lv, "registered") || contains_str(&lv, "connected") || contains_str(
                &lv,
                "your quick tunnel has been created",
            ) {
                (None, Some(u))
            } else {
                (Some(u), None)
            }
        },
    }
}


/// The error a quick tunnel for `domain` reports when cloudflared's log
/// ends: none once the tunnel was confirmed, else why it did not start.
pub open spec fn tunnel_end_error(confirmed: bool, pending: Option<Seq<char>>, domain: Seq<char>) -> Option<
    Seq<char>,
> {
    if confirmed {
        None
    } else {
        match pending {
            Some(u) => Some(
                "Tunnel for "@ + domain + " failed: cloudflared exited before "@ + u
                    + " was confirmed"@,
            ),
            None => Some(
                "Tunnel for "@ + domain + " failed: cloudflared exited before a public URL was assigned"@,
            ),
        }
    }
}

/// Reads the end of a quick tunnel's log; see `tunnel_end_error`.
pub fn tunnel_log_end(confirmed: bool, pending: &Option<String>, domain: &str) -> (r: Option<String>)
    ensures
        crate::text::opt_view(r) == tunnel_end_error(
            confirmed,
            crate::text::opt_view(*pending),
            domain@,
        ),
{
    if confirmed {
        return None;
    }
    let mut out = chars_of("Tunnel for ");
    push_str(&mut out, domain);
    match pending {
        Some(u) => {
            push_str(&mut out, " failed: cloudflared exited before ");
            push_str(&mut out, u.as_str());
            push_str(&mut out, " was confirmed");
        },
        None => {
            push_str(&mut out, " failed: cloudflared exited before a public URL was assigned");
        },
    }
    Some(string_of(&out))
}

/// `line.split(pat).nth(1)` for a line in which `pat` occurs: what follows
/// its first occurrence, up to the next one.
pub open spec fn second_piece(line: Seq<char>, pat: Seq<char>) -> Seq<char> {
    let i = match find(line, pat) {
        Some(i) => i,
        None => 0,
    };
    let rest = line.subrange(i + pat.len(), line.len() as int);
    match find(rest, pat) {
        Some(j) => rest.subrange(0, j),
        None => rest,
    }
}

/// The piece after `pat` in the first line where `pat` occurs.
pub open spec fn first_field(ls: Seq<Seq<char>>, pat: Seq<char>) -> Option<Seq<char>>
    decreases ls.len(),
{
    if ls.len() == 0 {
        None
    } else if contains(ls[0], pat) {
        Some(second_piece(ls[0], pat))
    } else {
        first_field(ls.drop_first(), pat)
    }
}

fn field_after(ls: &Vec<Vec<char>>, pat: &Vec<char>) -> (r: Option<Vec<char>>)
    requires
        pat@.len() > 0,
    ensures
        match r {
            Some(v) => first_field(views(ls@), pat@) == Some(v@),
            None => first_field(views(ls@), pat@) is None,
        },
{
    let ghost all = views(ls@);
    let mut k: usize = 0;
    assert(all.skip(0) =~= all);
    while k < ls.len()
        invariant
            k <= ls.len(),
            all == views(ls@),
            first_field(all, pat@) == first_field(all.skip(k as int), pat@),
        decreases ls.len() - k,
    {
        let line = &ls[k];
        assert(all.skip(k as int)[0] == line@);
        proof {
            lemma_find_from_contains(line@, pat@, 0);
        }
        match find_from_exec(line, pat, 0) {
            Some(i) => {
                let rest = slice(line, i + pat.len(), line.len());
                proof {
                    lemma_find_from_contains(rest@, pat@, 0);
                }
                let piece = match find_from_exec(&rest, pat, 0) {
                    Some(j) => slice(&rest, 0, j),
                    None => slice(&rest, 0, rest.len()),
                };
                assert(rest@.subrange(0, rest@.len() as int) =~= rest@);
                return Some(piece);
            },
            None => {},
        }
        assert(all.skip(k as int).drop_first() =~= all.skip(k + 1));
        k = k + 1;
    }
    None
}

/// What `cloudflared tunnel create` printed: its output and error output
/// joined by a line break.
pub open spec fn create_output(stdout: Seq<char>, stderr: Seq<char>) -> Seq<char> {
    stdout + seq!['\n'] + stderr
}

/// The credentials file path in what follows `credentials written to `:
/// its first whitespace-separated piece, without the full stop that ends
/// the sentence.
pub open spec fn credentials_path(after: Seq<char>) -> Seq<char> {
    trim_end_char(word_prefix(trim(after)), '.')
}

/// The tunnel id and credentials file that `cloudflared tunnel create`
/// reports (`Created tunnel <name> with id <id>`, `Tunnel credentials
/// written to <path>. ...`), or why they cannot be had.
pub open spec fn tunnel_created(success: bool, stdout: Seq<char>, stderr: Seq<char>) -> Result<
    (Seq<char>, Seq<char>),
    Seq<char>,
> {
    let combined = create_output(stdout, stderr);
    let ls = lines(combined);
    if !success {
        Err("cloudflared tunnel create failed:\n"@ + combined)
    } else {
        match first_field(ls, "with id "@) {
            None => Err("Could not parse tunnel ID from output:\n"@ + combined),
            Some(id) => match first_field(ls, "credentials written to "@) {
                None => Err("Could not parse credentials path from output:\n"@ + combined),
                Some(c) => Ok((trim(id), credentials_path(c))),
            },
        }
    }
}

fn prefixed(p: &str, v: &Vec<char>) -> (r: String)
    ensures
        r@ == p@ + v@,
{
    let mut out = chars_of(p);
    push_all(&mut out, v);
    string_of(&out)
}

/// The tunnel id and credentials path from what `cloudflared tunnel create`
/// printed and whether it succeeded.
pub fn parse_tunnel_create(success: bool, stdout: &str, stderr: &str) -> (r: Result<
    (String, String),
    String,
>)
    ensures
        match r {
            Ok((id, c)) => tunnel_created(success, stdout@, stderr@) == Ok::<
                (Seq<char>, Seq<char>),
                Seq<char>,
            >((id@, c@)),
            Err(e) => tunnel_created(success, stdout@, stderr@) == Err::<
                (Seq<char>, Seq<char>),
                Seq<char>,
            >(e@),
        },
{
    let mut combined = chars_of(stdout);
    combined.push('\n');
    push_str(&mut combined, stderr);
    assert(combined@ =~= create_output(stdout@, stderr@));
    if !success {
        return Err(prefixed("cloudflared tunnel create failed:\n", &combined));
    }
    let ls = split_lines(&combined);
    let id_pat = chars_of("with id ");
    let cred_pat = chars_of("credentials written to ");
    proof {
        reveal_strlit("with id ");
        reveal_strlit("credentials written to ");
    }
    let id = match field_after(&ls, &id_pat) {
        Some(v) => v,
        None => return Err(prefixed("Could not parse tunnel ID from output:\n", &combined)),
    };
    let cred = match field_after(&ls, &cred_pat) {
        Some(v) => v,
        None => return Err(
            prefixed("Could not parse credentials path from output:\n", &combined),
        ),
    };
    let id_t = trim_vec(&id);
    let cred_t = trim_end_char_vec(&word_prefix_vec(&trim_vec(&cred)), '.');
    Ok((string_of(&id_t), string_of(&cred_t)))
}

/// The ingress rules of a named tunnel, one per (hostname, upstream).
pub open spec fn routes_text(routes: Seq<(Seq<char>, Seq<char>)>) -> Seq<char>
    decreases routes.len(),
{
    if routes.len() == 0 {
        Seq::empty()
    } else {
        routes_text(routes.drop_last()) + "  - hostname: "@ + routes.last().0 + "\n    service: "@
            + routes.last().1 + "\n"@
    }
}

/// The `config.yml` of a named tunnel: its id, its credentials file (with
/// `/` for `\`), one ingress rule per route, and a final 404 rule.
pub open spec fn tunnel_config_spec(
    tunnel_id: Seq<char>,
    credentials_path: Seq<char>,
    routes: Seq<(Seq<char>, Seq<char>)>,
) -> Seq<char> {
    "tunnel: "@ + tunnel_id + "\ncredentials-file: \""@ + replace_char(credentials_path, '\\', "/"@)
        + "\"\n\ningress:\n"@ + routes_text(routes) + "  - service: http_status:404\n"@
}

/// The views of (hostname, upstream) pairs.
pub open spec fn route_views(rs: Seq<(String, String)>) -> Seq<(Seq<char>, Seq<char>)> {
    rs.map_values(|r: (String, String)| (r.0@, r.1@))
}

/// The `config.yml` text of a named tunnel routing each hostname to its upstream.
pub fn generate_config(tunnel_id: &str, credentials_path: &str, routes: &Vec<(String, String)>) -> (r:
    String)
    ensures
        r@ == tunnel_config_spec(tunnel_id@, credentials_path@, route_views(routes@)),
{
    let mut out = chars_of("tunnel: ");
    push_str(&mut out, tunnel_id);
    push_str(&mut out, "\ncredentials-file: \"");
    let creds = replace_char_exec(&chars_of(credentials_path), '\\', "/");
    push_all(&mut out, &creds);
    push_str(&mut out, "\"\n\ningress:\n");
    let ghost head = out@;
    let mut i: usize = 0;
    assert(route_views(routes@).take(0) =~= Seq::<(Seq<char>, Seq<char>)>::empty());
    assert(head + routes_text(Seq::empty()) =~= head);
    while i < routes.len()
        invariant
            i <= routes.len(),
            out@ == head + routes_text(route_views(routes@).take(i as int)),
        decreases routes.len() - i,
    {
        let ghost rv = route_views(routes@);
        assert(rv.take(i + 1).drop_last() =~= rv.take(i as int));
        assert(rv.take(i + 1).last() == (routes@[i as int].0@, routes@[i as int].1@));
        push_str(&mut out, "  - hostname: ");
        push_str(&mut out, routes[i].0.as_str());
        push_str(&mut out, "\n    service: ");
        push_str(&mut out, routes[i].1.as_str());
        push_str(&mut out, "\n");
        i = i + 1;
        assert(out@ =~= head + routes_text(rv.take(i as int)));
    }
    assert(route_views(routes@).take(routes.len() as int) =~= route_views(routes@));
    push_str(&mut out, "  - service: http_status:404\n");
    string_of(&out)
}


/// The tunnel id and credentials file a named tunnel runs with, or why it
/// cannot run yet.
pub open spec fn run_credentials(tunnel_id: Option<Seq<char>>, credentials: Option<Seq<char>>) -> Result<
    (Seq<char>, Seq<char>),
    Seq<char>,
> {
    match tunnel_id {
        None => Err("Tunnel not provisioned yet — click Provision first"@),
        Some(id) => match credentials {
            None => Err("Credentials path missing — re-provision the tunnel"@),
            Some(c) => Ok((id, c)),
        },
    }
}

/// The tunnel id and credentials file a named tunnel runs with.
pub fn provisioned_credentials(tunnel_id: &Option<String>, credentials: &Option<String>) -> (r:
    Result<(String, String), String>)
    ensures
        match r {
            Ok((id, c)) => run_credentials(
                crate::text::opt_view(*tunnel_id),
                crate::text::opt_view(*credentials),
            ) == Ok::<(Seq<char>, Seq<char>), Seq<char>>((id@, c@)),
            Err(e) => run_credentials(
                crate::text::opt_view(*tunnel_id),
                crate::text::opt_view(*credentials),
            ) == Err::<(Seq<char>, Seq<char>), Seq<char>>(e@),
        },
{
    match tunnel_id {
        None => Err("Tunnel not provisioned yet — click Provision first".to_owned()),
        Some(id) => match credentials {
            None => Err("Credentials path missing — re-provision the tunnel".to_owned()),
            Some(c) => Ok((id.clone(), c.clone())),
        },
    }
}


/// The ingress rule of one route of a named tunnel.
pub open spec fn ingress_rule(r: (Seq<char>, Seq<char>)) -> Seq<char> {
    "  - hostname: "@ + r.0 + "\n    service: "@ + r.1 + "\n"@
}

/// The head of a named tunnel's config, before its ingress rules.
pub open spec fn tunnel_config_head(tunnel_id: Seq<char>, credentials_path: Seq<char>) -> Seq<char> {
    "tunnel: "@ + tunnel_id + "\ncredentials-file: \""@ + replace_char(credentials_path, '\\', "/"@)
        + "\"\n\ningress:\n"@
}

proof fn lemma_routes_text_concat(a: Seq<(Seq<char>, Seq<char>)>, b: Seq<(Seq<char>, Seq<char>)>)
    ensures
        routes_text(a + b) == routes_text(a) + routes_text(b),
    decreases b.len(),
{
    if b.len() == 0 {
        assert(a + b =~= a);
        assert(routes_text(a) + routes_text(b) =~= routes_text(a));
    } else {
        lemma_routes_text_concat(a, b.drop_last());
        assert((a + b).drop_last() =~= a + b.drop_last());
        assert((a + b).last() == b.last());
        assert(routes_text(a + b) =~= routes_text(a) + routes_text(b));
    }
}

proof fn lemma_routes_text_one(r: (Seq<char>, Seq<char>))
    ensures
        routes_text(seq![r]) == ingress_rule(r),
{
    let one = seq![r];
    assert(one.drop_last() =~= Seq::<(Seq<char>, Seq<char>)>::empty());
    assert(one.last() == r);
    assert(routes_text(one.drop_last()) == Seq::<char>::empty());
    assert(routes_text(one) == Seq::<char>::empty() + "  - hostname: "@ + r.0 + "\n    service: "@
        + r.1 + "\n"@);
    assert(routes_text(one) =~= ingress_rule(r));
}

proof fn lemma_rule_at(routes: Seq<(Seq<char>, Seq<char>)>, i: int)
    requires
        0 <= i < routes.len(),
    ensures
        routes_text(routes) == routes_text(routes.take(i)) + ingress_rule(routes[i]) + routes_text(
            routes.skip(i + 1),
        ),
        routes_text(routes.take(i + 1)) == routes_text(routes.take(i)) + ingress_rule(routes[i]),
{
    assert(routes =~= routes.take(i) + seq![routes[i]] + routes.skip(i + 1));
    assert(routes.take(i + 1) =~= routes.take(i) + seq![routes[i]]);
    lemma_routes_text_concat(routes.take(i) + seq![routes[i]], routes.skip(i + 1));
    lemma_routes_text_concat(routes.take(i), seq![routes[i]]);
    lemma_routes_text_one(routes[i]);
}

/// Where the rule of route `i` stands in the text of all the routes.
proof fn lemma_rule_occurs(
    h: Seq<char>,
    routes: Seq<(Seq<char>, Seq<char>)>,
    t: Seq<char>,
    i: int,
)
    requires
        0 <= i < routes.len(),
    ensures
        occurs_at(
            h + routes_text(routes) + t,
            ingress_rule(routes[i]),
            h.len() as int + routes_text(routes.take(i)).len() as int,
        ),
{
    lemma_rule_at(routes, i);
    let c = h + routes_text(routes) + t;
    let p: int = h.len() as int + routes_text(routes.take(i)).len() as int;
    let r = ingress_rule(routes[i]);
    assert(c =~= (h + routes_text(routes.take(i))) + r + (routes_text(routes.skip(i + 1)) + t));
    assert(c.subrange(p, p + r.len()) =~= r);
}

/// The rules of earlier routes end before those of later ones begin.
proof fn lemma_rule_order(routes: Seq<(Seq<char>, Seq<char>)>, i: int, j: int)
    requires
        0 <= i < j <= routes.len(),
    ensures
        routes_text(routes.take(i)).len() + ingress_rule(routes[i]).len() <= routes_text(
            routes.take(j),
        ).len(),
{
    lemma_rule_at(routes, i);
    let tj = routes.take(j);
    assert(tj =~= routes.take(i + 1) + tj.skip(i + 1));
    lemma_routes_text_concat(routes.take(i + 1), tj.skip(i + 1));
}

/// `a` occurs in `s`, and `b` occurs after that occurrence ends.
pub open spec fn occurs_before(s: Seq<char>, a: Seq<char>, b: Seq<char>) -> bool {
    exists|p: int, q: int| p + a.len() <= q && occurs_at(s, a, p) && occurs_at(s, b, q)
}

/// The total length of the ingress rules of `routes`.
pub open spec fn rules_len(routes: Seq<(Seq<char>, Seq<char>)>) -> int {
    routes.fold_left(0int, |acc: int, r: (Seq<char>, Seq<char>)| acc + ingress_rule(r).len())
}

proof fn lemma_routes_text_len(routes: Seq<(Seq<char>, Seq<char>)>)
    ensures
        routes_text(routes).len() == rules_len(routes),
    decreases routes.len(),
{
    if routes.len() > 0 {
        lemma_routes_text_len(routes.drop_last());
    }
}

/// The config of a named tunnel holds one ingress rule per route, each
/// naming that route's hostname and service, in the order of the routes,
/// between its head and the final 404 rule, and nothing else: its length is
/// that of the head, the rules and the 404 rule. No route is dropped, moved
/// or repeated.
pub proof fn law_tunnel_config_routes(
    tunnel_id: Seq<char>,
    credentials_path: Seq<char>,
    routes: Seq<(Seq<char>, Seq<char>)>,
)
    ensures
        starts_with(
            tunnel_config_spec(tunnel_id, credentials_path, routes),
            tunnel_config_head(tunnel_id, credentials_path),
        ),
        forall|i: int|
            0 <= i < routes.len() ==> contains(
                tunnel_config_spec(tunnel_id, credentials_path, routes),
                #[trigger] ingress_rule(routes[i]),
            ),
        forall|i: int, j: int|
            0 <= i < j < routes.len() ==> occurs_before(
                tunnel_config_spec(tunnel_id, credentials_path, routes),
                #[trigger] ingress_rule(routes[i]),
                #[trigger] ingress_rule(routes[j]),
            ),
        ends_with(
            tunnel_config_spec(tunnel_id, credentials_path, routes),
            "  - service: http_status:404\n"@,
        ),
        tunnel_config_spec(tunnel_id, credentials_path, routes).len() == tunnel_config_head(
            tunnel_id,
            credentials_path,
        ).len() + rules_len(routes) + "  - service: http_status:404\n"@.len(),
{
    lemma_routes_text_len(routes);
    let h = tunnel_config_head(tunnel_id, credentials_path);
    let t = "  - service: http_status:404\n"@;
    let c = tunnel_config_spec(tunnel_id, credentials_path, routes);
    assert(c =~= h + routes_text(routes) + t);
    assert(c.subrange(0, h.len() as int) =~= h);
    let k: int = h.len() as int + routes_text(routes).len() as int;
    assert(c.subrange(k, k + t.len()) =~= t);
    assert(occurs_at(c, t, k));
    assert forall|i: int| 0 <= i < routes.len() implies contains(
        c,
        #[trigger] ingress_rule(routes[i]),
    ) by {
        lemma_rule_occurs(h, routes, t, i);
        let p: int = h.len() as int + routes_text(routes.take(i)).len() as int;
        assert(occurs_at(c, ingress_rule(routes[i]), p));
    }
    assert forall|i: int, j: int| 0 <= i < j < routes.len() implies occurs_before(
        c,
        #[trigger] ingress_rule(routes[i]),
        #[trigger] ingress_rule(routes[j]),
    ) by {
        lemma_rule_occurs(h, routes, t, i);
        lemma_rule_occurs(h, routes, t, j);
        lemma_rule_order(routes, i, j);
        let p: int = h.len() as int + routes_text(routes.take(i)).len() as int;
        let q: int = h.len() as int + routes_text(routes.take(j)).len() as int;
        assert(occurs_at(c, ingress_rule(routes[i]), p));
        assert(occurs_at(c, ingress_rule(routes[j]), q));
    }
}
} // verus!
