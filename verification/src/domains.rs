//! The rules for the domains users register: which names and upstreams are
//! accepted, the record written for a new or edited domain, and the checks
//! made on a configured domain.

use vstd::prelude::*;
use crate::db::{DomainConfig, DomainStatus};
use crate::text::{
    chars_of, ends_with, ends_with_str, eq_str, lines, opt_view, push_all, push_str, split_lines,
    starts_with, starts_with_str, string_of, trim, trim_start, trim_start_vec, trim_vec, views,
    words, words_vec, lemma_trim_fixed, lemma_trim_shape, index_of_char, index_of_char_from,
    lemma_index_of_char_from_bounds, parse_u16, parse_u16_exec, slice, trim_start_str,
    trim_start_str_vec,
};

verus! {

/// A domain name with one of the local suffixes.
pub open spec fn local_suffix(d: Seq<char>) -> bool {
    ends_with(d, ".test"@) || ends_with(d, ".local"@)
}

/// An upstream given as an HTTP or HTTPS URL.
pub open spec fn http_upstream(u: Seq<char>) -> bool {
    starts_with(u, "http://"@) || starts_with(u, "https://"@)
}

fn has_local_suffix(d: &Vec<char>) -> (b: bool)
    ensures
        b == local_suffix(d@),
{
    ends_with_str(d, ".test") || ends_with_str(d, ".local")
}

fn is_http_upstream(u: &Vec<char>) -> (b: bool)
    ensures
        b == http_upstream(u@),
{
    starts_with_str(u, "http://") || starts_with_str(u, "https://")
}

/// The domain the window registers for what the user typed: trimmed, with
/// `.test` added unless it already ends in `.test` or `.local`.
pub open spec fn normalized_domain(d: Seq<char>) -> Seq<char> {
    let t = trim(d);
    if local_suffix(t) {
        t
    } else {
        t + ".test"@
    }
}

/// The domain to register for what the user typed.
pub fn normalize_domain(domain: &str) -> (r: String)
    ensures
        r@ == normalized_domain(domain@),
{
    let mut t = trim_vec(&chars_of(domain));
    if !has_local_suffix(&t) {
        push_str(&mut t, ".test");
    }
    string_of(&t)
}

/// The refusal of an upstream that is not an HTTP(S) URL.
pub open spec fn upstream_error() -> Seq<char> {
    "Upstream must start with http:// or https://"@
}

/// The domain to register, or why the request is refused: the window
/// completes the domain name and only refuses a non-HTTP upstream.
pub open spec fn prepared_domain(domain: Seq<char>, upstream: Seq<char>) -> Result<
    Seq<char>,
    Seq<char>,
> {
    if http_upstream(upstream) {
        Ok(normalized_domain(domain))
    } else {
        Err(upstream_error())
    }
}

/// The domain to register from the window's form, or why it is refused.
pub fn prepare_domain(domain: &str, upstream: &str) -> (r: Result<String, String>)
    ensures
        match r {
            Ok(d) => prepared_domain(domain@, upstream@) == Ok::<Seq<char>, Seq<char>>(d@),
            Err(e) => prepared_domain(domain@, upstream@) == Err::<Seq<char>, Seq<char>>(e@),
        },
{
    let d = normalize_domain(domain);
    if !is_http_upstream(&chars_of(upstream)) {
        return Err("Upstream must start with http:// or https://".to_owned());
    }
    Ok(d)
}

/// Why the command line and the tool server refuse a domain, if they do:
/// they take the name as given and ask for a local suffix.
pub open spec fn strict_refusal(domain: Seq<char>, upstream: Seq<char>) -> Option<Seq<char>> {
    if !local_suffix(domain) {
        Some("Domain must end with .test or .local"@)
    } else if !http_upstream(upstream) {
        Some(upstream_error())
    } else {
        None
    }
}

/// Checks a domain and upstream given on the command line or to the tool server.
pub fn check_new_domain(domain: &str, upstream: &str) -> (r: Result<(), String>)
    ensures
        match r {
            Ok(()) => strict_refusal(domain@, upstream@) is None,
            Err(e) => strict_refusal(domain@, upstream@) == Some(e@),
        },
{
    if !has_local_suffix(&chars_of(domain)) {
        return Err("Domain must end with .test or .local".to_owned());
    }
    if !is_http_upstream(&chars_of(upstream)) {
        return Err("Upstream must start with http:// or https://".to_owned());
    }
    Ok(())
}

/// Whether an imported domain is taken: it needs a local suffix and an
/// HTTP(S) upstream; the others are skipped.
pub fn import_accepts(cfg: &DomainConfig) -> (b: bool)
    ensures
        b == (local_suffix(cfg.domain@) && http_upstream(cfg.upstream@)),
{
    has_local_suffix(&chars_of(cfg.domain.as_str())) && is_http_upstream(
        &chars_of(cfg.upstream.as_str()),
    )
}

/// Why a named tunnel cannot be registered, if it cannot.
pub open spec fn tunnel_refusal(name: Seq<char>, hostname: Seq<char>, upstream: Seq<char>) -> Option<
    Seq<char>,
> {
    if trim(name).len() == 0 {
        Some("Tunnel name cannot be empty"@)
    } else if trim(hostname).len() == 0 {
        Some("Hostname cannot be empty"@)
    } else if !http_upstream(upstream) {
        Some(upstream_error())
    } else {
        None
    }
}

/// Checks a named tunnel about to be registered.
pub fn check_named_tunnel(name: &str, hostname: &str, upstream: &str) -> (r: Result<(), String>)
    ensures
        match r {
            Ok(()) => tunnel_refusal(name@, hostname@, upstream@) is None,
            Err(e) => tunnel_refusal(name@, hostname@, upstream@) == Some(e@),
        },
{
    if trim_vec(&chars_of(name)).len() == 0 {
        return Err("Tunnel name cannot be empty".to_owned());
    }
    if trim_vec(&chars_of(hostname)).len() == 0 {
        return Err("Hostname cannot be empty".to_owned());
    }
    if !is_http_upstream(&chars_of(upstream)) {
        return Err("Upstream must start with http:// or https://".to_owned());
    }
    Ok(())
}

/// The certificate and key file names of a domain.
pub fn cert_file_names(domain: &str) -> (r: (String, String))
    ensures
        r.0@ == domain@ + ".crt"@,
        r.1@ == domain@ + ".key"@,
{
    let mut c = chars_of(domain);
    push_str(&mut c, ".crt");
    let mut k = chars_of(domain);
    push_str(&mut k, ".key");
    (string_of(&c), string_of(&k))
}

/// The names a domain's certificate covers: the domain and its subdomains.
pub fn leaf_subject_names(domain: &str) -> (r: Vec<String>)
    ensures
        r@.len() == 2,
        r@[0]@ == domain@,
        r@[1]@ == "*."@ + domain@,
{
    let mut w = chars_of("*.");
    push_str(&mut w, domain);
    let mut v: Vec<String> = Vec::new();
    v.push(domain.to_owned());
    v.push(string_of(&w));
    v
}

/// The address a domain is served at.
pub fn domain_url(domain: &str) -> (r: String)
    ensures
        r@ == "https://"@ + domain@,
{
    let mut u = chars_of("https://");
    push_str(&mut u, domain);
    string_of(&u)
}

/// The error when the built-in authority failed and no `mkcert` was found.
pub fn mkcert_missing_error(rcgen_error: &str) -> (r: String)
    ensures
        r@ == "rcgen failed ("@ + rcgen_error@ + ") and mkcert binary not found"@,
{
    let mut v = chars_of("rcgen failed (");
    push_str(&mut v, rcgen_error);
    push_str(&mut v, ") and mkcert binary not found");
    string_of(&v)
}

/// The error when both the built-in authority and `mkcert` failed.
pub fn both_issuers_failed_error(rcgen_error: &str, mkcert_error: &str) -> (r: String)
    ensures
        r@ == "Both rcgen and mkcert failed. rcgen: "@ + rcgen_error@ + ". mkcert: "@
            + mkcert_error@,
{
    let mut v = chars_of("Both rcgen and mkcert failed. rcgen: ");
    push_str(&mut v, rcgen_error);
    push_str(&mut v, ". mkcert: ");
    push_str(&mut v, mkcert_error);
    string_of(&v)
}

/// The CORS setting an edited domain keeps: that of the record it replaces,
/// off when there is none.
pub open spec fn kept_cors(ds: Seq<DomainConfig>, old_domain: Seq<char>) -> bool
    decreases ds.len(),
{
    if ds.len() == 0 {
        false
    } else if ds[0].domain@ == old_domain {
        ds[0].cors_enabled
    } else {
        kept_cors(ds.drop_first(), old_domain)
    }
}

/// The CORS setting of the first record named `old_domain`, off when there is none.
pub fn existing_cors(ds: &Vec<DomainConfig>, old_domain: &str) -> (b: bool)
    ensures
        b == kept_cors(ds@, old_domain@),
{
    let old = chars_of(old_domain);
    let mut i: usize = 0;
    assert(ds@.skip(0) =~= ds@);
    while i < ds.len()
        invariant
            i <= ds.len(),
            old@ == old_domain@,
            kept_cors(ds@, old_domain@) == kept_cors(ds@.skip(i as int), old_domain@),
        decreases ds.len() - i,
    {
        assert(ds@.skip(i as int)[0] == ds@[i as int]);
        if eq_str(&chars_of(ds[i].domain.as_str()), old_domain) {
            return ds[i].cors_enabled;
        }
        assert(ds@.skip(i as int).drop_first() =~= ds@.skip(i + 1));
        i = i + 1;
    }
    false
}

/// The record written for a domain that was just (re)issued a certificate:
/// enabled, with the given expiry and settings, no id or creation time yet.
pub fn new_domain_config(
    domain: String,
    upstream: String,
    cors_enabled: bool,
    cert_expiry: Option<String>,
    advanced_config: Option<String>,
    project_path: Option<String>,
    run_command: Option<String>,
) -> (r: DomainConfig)
    ensures
        r.id is None,
        r.domain == domain,
        r.upstream == upstream,
        r.enabled,
        r.cors_enabled == cors_enabled,
        r.cert_expiry == cert_expiry,
        r.created_at is None,
        r.advanced_config == advanced_config,
        r.project_path == project_path,
        r.run_command == run_command,
{
    DomainConfig {
        id: None,
        domain,
        upstream,
        enabled: true,
        cors_enabled,
        cert_expiry,
        created_at: None,
        advanced_config,
        project_path,
        run_command,
    }
}

/// A record as exported: without its id, creation time and certificate expiry.
pub fn export_record(d: DomainConfig) -> (r: DomainConfig)
    ensures
        r == exported(d),
{
    DomainConfig { id: None, created_at: None, cert_expiry: None, ..d }
}

/// A record as imported: with the new expiry, and without id or creation time.
pub fn import_record(d: DomainConfig, cert_expiry: Option<String>) -> (r: DomainConfig)
    ensures
        r == imported(d, cert_expiry),
{
    DomainConfig { id: None, created_at: None, cert_expiry, ..d }
}

/// The status shown for a domain whose certificate is valid or not.
pub fn domain_status(config: DomainConfig, cert_valid: bool) -> (r: DomainStatus)
    ensures
        r.config == config,
        r.cert_valid == cert_valid,
        opt_view(r.cert_expiry) == opt_view(config.cert_expiry),
{
    let cert_expiry = match &config.cert_expiry {
        Some(e) => Some(e.clone()),
        None => None,
    };
    DomainStatus { config, cert_valid, cert_expiry }
}

/// A hosts file maps `domain`: some line that is not a comment has it as a
/// whitespace-separated word.
pub open spec fn hosts_maps(content: Seq<char>, domain: Seq<char>) -> bool {
    exists|i: int, j: int|
        #![trigger words(lines(content)[i])[j]]
        0 <= i < lines(content).len() && !starts_with(trim_start(lines(content)[i]), "#"@) && 0
            <= j < words(lines(content)[i]).len() && words(lines(content)[i])[j] == domain
}

/// Whether a hosts file maps `domain`.
pub fn hosts_file_has(content: &str, domain: &str) -> (b: bool)
    ensures
        b == hosts_maps(content@, domain@),
{
    let ls = split_lines(&chars_of(content));
    let ghost all = lines(content@);
    let mut i: usize = 0;
    while i < ls.len()
        invariant
            i <= ls.len(),
            views(ls@) == all,
            all == lines(content@),
            forall|a: int, j: int|
                0 <= a < i && !starts_with(trim_start(all[a]), "#"@) && 0 <= j < words(
                    all[a],
                ).len() ==> words(all[a])[j] != domain@,
        decreases ls.len() - i,
    {
        let line = &ls[i];
        assert(line@ == all[i as int]);
        if !starts_with_str(&trim_start_vec(line), "#") {
            let ws = words_vec(line);
            let mut j: usize = 0;
            while j < ws.len()
                invariant
                    j <= ws.len(),
                    views(ws@) == words(line@),
                    i < ls.len(),
                    views(ls@) == all,
                    line@ == all[i as int],
                    all == lines(content@),
                    !starts_with(trim_start(line@), "#"@),
                    forall|t: int| 0 <= t < j ==> words(line@)[t] != domain@,
                decreases ws.len() - j,
            {
                assert(views(ws@)[j as int] == ws@[j as int]@);
                if eq_str(&ws[j], domain) {
                    assert(views(ls@).len() == ls@.len());
                    assert(0 <= i < lines(content@).len() && !starts_with(
                        trim_start(lines(content@)[i as int]),
                        "#"@,
                    ) && 0 <= j < words(lines(content@)[i as int]).len() && words(
                        lines(content@)[i as int],
                    )[j as int] == domain@);
                    return true;
                }
                j = j + 1;
            }
        }
        i = i + 1;
    }
    false
}

/// The last `n` lines of a text (all of them when it has fewer).
pub fn last_lines(content: &str, n: usize) -> (r: Vec<String>)
    ensures
        views_of_strings(r@) == lines(content@).skip(
            if lines(content@).len() > n {
                lines(content@).len() - n
            } else {
                0
            },
        ),
{
    let ls = split_lines(&chars_of(content));
    let start: usize = if ls.len() > n {
        ls.len() - n
    } else {
        0
    };
    let mut out: Vec<String> = Vec::new();
    let mut i = start;
    while i < ls.len()
        invariant
            start <= i <= ls.len(),
            views(ls@) == lines(content@),
            views_of_strings(out@) == views(ls@).subrange(start as int, i as int),
        decreases ls.len() - i,
    {
        let ghost before = views_of_strings(out@);
        out.push(string_of(&ls[i]));
        assert(views_of_strings(out@) =~= before.push(ls@[i as int]@));
        assert(views(ls@).subrange(start as int, i + 1) =~= views(ls@).subrange(
            start as int,
            i as int,
        ).push(ls@[i as int]@));
        i = i + 1;
    }
    assert(views(ls@).subrange(start as int, ls.len() as int) =~= views(ls@).skip(start as int));
    out
}

/// What precedes the first `c` in `s` (all of `s` when there is none).
pub open spec fn before_char(s: Seq<char>, c: char) -> Seq<char> {
    s.subrange(0, index_of_char_from(s, c, 0))
}

/// The host and port a health check connects to for an upstream URL: the
/// scheme removed, the path dropped, the host before the first `':'`, and
/// the port after it, else 443 for HTTPS and 80 otherwise; none when the
/// given port is not a number.
pub open spec fn upstream_address(u: Seq<char>) -> Option<(Seq<char>, u16)> {
    let rest = trim_start_str(trim_start_str(u, "http://"@), "https://"@);
    let hostport = before_char(rest, '/');
    let host = before_char(hostport, ':');
    let colon = index_of_char_from(hostport, ':', 0);
    if colon < hostport.len() {
        match parse_u16(hostport.subrange(colon + 1, hostport.len() as int)) {
            Some(p) => Some((host, p)),
            None => None,
        }
    } else if starts_with(u, "https://"@) {
        Some((host, 443))
    } else {
        Some((host, 80))
    }
}

/// The host and port a health check connects to for an upstream URL.
pub fn upstream_host_port(upstream: &str) -> (r: Option<(String, u16)>)
    ensures
        match r {
            Some((h, p)) => upstream_address(upstream@) == Some((h@, p)),
            None => upstream_address(upstream@) is None,
        },
{
    let u = chars_of(upstream);
    let rest = trim_start_str_vec(&trim_start_str_vec(&u, "http://"), "https://");
    proof {
        lemma_index_of_char_from_bounds(rest@, '/', 0);
    }
    let slash = index_of_char(&rest, '/', 0);
    let hostport = slice(&rest, 0, slash);
    proof {
        lemma_index_of_char_from_bounds(hostport@, ':', 0);
    }
    let colon = index_of_char(&hostport, ':', 0);
    let host = string_of(&slice(&hostport, 0, colon));
    if colon < hostport.len() {
        match parse_u16_exec(&slice(&hostport, colon + 1, hostport.len())) {
            Some(p) => Some((host, p)),
            None => None,
        }
    } else if starts_with_str(&u, "https://") {
        Some((host, 443))
    } else {
        Some((host, 80))
    }
}

/// The views of a sequence of strings.
pub open spec fn views_of_strings(v: Seq<String>) -> Seq<Seq<char>> {
    v.map_values(|s: String| s@)
}

/// The depth a project scan from the window goes to: 3 unless asked, at most 6.
pub fn scan_depth(depth: Option<usize>) -> (r: usize)
    ensures
        r == (match depth {
            Some(d) => if d < 6 {
                d
            } else {
                6
            },
            None => 3,
        }),
{
    match depth {
        Some(d) => if d < 6 {
            d
        } else {
            6
        },
        None => 3,
    }
}

/// A stored setting that is on: exactly the text `true`.
pub fn setting_on(value: Option<&str>) -> (b: bool)
    ensures
        b == (match value {
            Some(v) => v@ == "true"@,
            None => false,
        }),
{
    match value {
        Some(v) => eq_str(&chars_of(v), "true"),
        None => false,
    }
}

/// The text a boolean setting is stored as.
pub fn setting_text(enabled: bool) -> (r: &'static str)
    ensures
        r == (if enabled {
            "true"
        } else {
            "false"
        }),
{
    if enabled {
        "true"
    } else {
        "false"
    }
}

/// The start-up command registered for the application: its executable
/// quoted, with `--minimized` when it should start hidden.
pub fn autostart_command(exe: &str, start_hidden: bool) -> (r: String)
    ensures
        r@ == (if start_hidden {
            "\""@ + exe@ + "\" --minimized"@
        } else {
            "\""@ + exe@ + "\""@
        }),
{
    let mut v = chars_of("\"");
    push_str(&mut v, exe);
    if start_hidden {
        push_str(&mut v, "\" --minimized");
    } else {
        push_str(&mut v, "\"");
    }
    string_of(&v)
}


/// A domain completed by the window always ends in `.test` or `.local`
/// (so the command line would take it as it is), and completing it again
/// changes nothing.
pub proof fn law_normalized_domain(d: Seq<char>)
    ensures
        local_suffix(normalized_domain(d)),
        normalized_domain(normalized_domain(d)) == normalized_domain(d),
{
    let t = trim(d);
    lemma_trim_shape(d);
    reveal_strlit(".test");
    let n = normalized_domain(d);
    if !local_suffix(t) {
        assert(n == t + ".test"@);
        assert(n.subrange(n.len() - ".test"@.len(), n.len() as int) =~= ".test"@);
        assert(ends_with(n, ".test"@));
        assert(n.last() == 't');
        if t.len() > 0 {
            assert(n[0] == t[0]);
        } else {
            assert(n[0] == '.');
        }
    }
    lemma_trim_fixed(n);
}

/// The record an export writes.
pub open spec fn exported(d: DomainConfig) -> DomainConfig {
    DomainConfig { id: None, created_at: None, cert_expiry: None, ..d }
}

/// The record an import writes for an exported one, with a fresh expiry.
pub open spec fn imported(d: DomainConfig, cert_expiry: Option<String>) -> DomainConfig {
    DomainConfig { id: None, created_at: None, cert_expiry, ..d }
}

/// Exporting a domain and importing it again gives back the domain with
/// its new certificate's expiry: only the id, the creation time and the
/// old expiry are lost.
pub proof fn law_export_then_import(d: DomainConfig, cert_expiry: Option<String>)
    ensures
        imported(exported(d), cert_expiry) == imported(d, cert_expiry),
        imported(exported(d), cert_expiry).domain == d.domain,
        imported(exported(d), cert_expiry).upstream == d.upstream,
        imported(exported(d), cert_expiry).enabled == d.enabled,
        imported(exported(d), cert_expiry).cors_enabled == d.cors_enabled,
        imported(exported(d), cert_expiry).advanced_config == d.advanced_config,
        imported(exported(d), cert_expiry).project_path == d.project_path,
        imported(exported(d), cert_expiry).run_command == d.run_command,
{
}


/// A record an import takes: a local suffix and an HTTP(S) upstream.
pub open spec fn import_taken(d: DomainConfig) -> bool {
    local_suffix(d.domain@) && http_upstream(d.upstream@)
}

/// The records of `rs` an import takes, in order.
pub open spec fn taken_records(rs: Seq<DomainConfig>) -> Seq<DomainConfig>
    decreases rs.len(),
{
    if rs.len() == 0 {
        Seq::empty()
    } else {
        let before = taken_records(rs.drop_last());
        if import_taken(rs.last()) {
            before.push(rs.last())
        } else {
            before
        }
    }
}

/// The records of an import file that are registered, in order; the
/// others are skipped.
pub fn importable(records: Vec<DomainConfig>) -> (r: Vec<DomainConfig>)
    ensures
        r@ == taken_records(records@),
{
    let ghost orig = records@;
    assert(orig.len() == records.len());
    let mut rest = records;
    let mut out: Vec<DomainConfig> = Vec::new();
    let mut k: usize = 0;
    assert(orig.take(0) =~= Seq::<DomainConfig>::empty());
    assert(orig.skip(0) =~= orig);
    while rest.len() > 0
        invariant
            k <= orig.len(),
            rest@ == orig.skip(k as int),
            rest.len() == orig.len() - k,
            orig.len() <= usize::MAX,
            out@ == taken_records(orig.take(k as int)),
        decreases rest.len(),
    {
        assert(orig.take(k + 1).drop_last() =~= orig.take(k as int));
        assert(orig.take(k + 1).last() == orig[k as int]);
        let d = rest.remove(0);
        assert(rest@ =~= orig.skip(k + 1));
        if import_accepts(&d) {
            out.push(d);
        }
        k = k + 1;
    }
    assert(orig.take(k as int) =~= orig);
    out
}

/// Importing an export of the rows `ds` registers exactly the rows of `ds`
/// with a local suffix and an HTTP(S) upstream, in their order, each as
/// `imported` gives it: the same as importing the rows themselves.
pub proof fn law_import_of_export(ds: Seq<DomainConfig>, cert_expiry: Option<String>)
    ensures
        taken_records(ds.map_values(|d: DomainConfig| exported(d))).map_values(
            |d: DomainConfig| imported(d, cert_expiry),
        ) == taken_records(ds).map_values(|d: DomainConfig| imported(d, cert_expiry)),
        taken_records(ds.map_values(|d: DomainConfig| exported(d))) == taken_records(ds).map_values(
            |d: DomainConfig| exported(d),
        ),
    decreases ds.len(),
{
    let ex = ds.map_values(|d: DomainConfig| exported(d));
    if ds.len() > 0 {
        law_import_of_export(ds.drop_last(), cert_expiry);
        assert(ex.drop_last() =~= ds.drop_last().map_values(|d: DomainConfig| exported(d)));
        assert(ex.last() == exported(ds.last()));
        let b = taken_records(ds.drop_last());
        if import_taken(ds.last()) {
            assert(b.push(ds.last()).map_values(|d: DomainConfig| exported(d)) =~= b.map_values(
                |d: DomainConfig| exported(d),
            ).push(exported(ds.last())));
            assert(b.map_values(|d: DomainConfig| exported(d)).push(exported(ds.last())).map_values(
                |d: DomainConfig| imported(d, cert_expiry),
            ) =~= b.map_values(|d: DomainConfig| exported(d)).map_values(
                |d: DomainConfig| imported(d, cert_expiry),
            ).push(imported(exported(ds.last()), cert_expiry)));
            assert(b.push(ds.last()).map_values(|d: DomainConfig| imported(d, cert_expiry))
                =~= b.map_values(|d: DomainConfig| imported(d, cert_expiry)).push(
                imported(ds.last(), cert_expiry),
            ));
        }
    } else {
        assert(ex =~= Seq::<DomainConfig>::empty());
        assert(taken_records(ds).map_values(|d: DomainConfig| exported(d)) =~= Seq::<DomainConfig>::empty());
        assert(taken_records(ds).map_values(|d: DomainConfig| imported(d, cert_expiry)) =~= Seq::<DomainConfig>::empty());
        assert(taken_records(ex).map_values(|d: DomainConfig| imported(d, cert_expiry)) =~= Seq::<DomainConfig>::empty());
    }
}
} // verus!
