//! The nginx.conf that HyperHost generates from its domains.

use vstd::prelude::*;
use crate::db::DomainConfig;
use crate::nginx::import::forward_slashes;
use crate::text::{
    chars_of, push_all, push_str, replace_all, replace_char_exec, replace_str, starts_with,
    starts_with_str, string_of, trim, trim_vec,
};

verus! {

/// Opening of the generated nginx.conf, up to the error log path.
pub const CONF_START: &'static str = "worker_processes 1;\nerror_log  \"";

/// After the error log path, up to the pid file path.
pub const CONF_AFTER_ERROR_LOG: &'static str = "/logs/error.log\" warn;\npid        \"";

/// After the pid file path, up to the mime types path.
pub const CONF_AFTER_PID: &'static str = "/nginx.pid\";\n\nevents {\n    worker_connections 256;\n}\n\nhttp {\n    include      \"";

/// After the mime types path, up to the access log path.
pub const CONF_AFTER_MIME_TYPES: &'static str = "/conf/mime.types\";\n    default_type  application/octet-stream;\n    sendfile      on;\n    keepalive_timeout 65;\n    server_tokens off;\n    server_names_hash_bucket_size 128;\n\n    # HTTP → redirect all to HTTPS\n    log_format json_log escape=json '{\"time\":\"$time_iso8601\",\"host\":\"$host\",\"method\":\"$request_method\",\"uri\":\"$request_uri\",\"status\":$status,\"latency\":\"$request_time\",\"req_body\":\"$request_body\"}';\n    access_log \"";

/// After the access log path: the HTTP to HTTPS redirect.
pub const CONF_AFTER_ACCESS_LOG: &'static str = "/logs/access.json\" json_log;\n\n    server {\n        listen 80;\n        server_name _;\n        return 301 https://$host$request_uri;\n    }\n";

/// Opening of a proxied HTTPS server, up to its name.
pub const SERVER_OPEN: &'static str = "\n    server {\n        listen 443 ssl;\n        http2  on;\n        server_name ";

/// After the server name, up to the certificate path.
pub const SERVER_AFTER_NAME: &'static str = ";\n\n        ssl_certificate     \"";

/// After the certificate path, up to the key path.
pub const SERVER_AFTER_CERT: &'static str = "\";\n        ssl_certificate_key \"";

/// After the key path: TLS and WebSocket settings.
pub const SERVER_AFTER_KEY: &'static str = "\";\n        ssl_protocols       TLSv1.2 TLSv1.3;\n        ssl_ciphers         HIGH:!aNULL:!MD5;\n        ssl_session_cache   shared:SSL:1m;\n\n        # WebSocket support\n        proxy_http_version 1.1;\n        proxy_set_header   Upgrade    $http_upgrade;\n        proxy_set_header   Connection \"upgrade\";\n        proxy_set_header   Host       $host;\n        proxy_set_header   X-Real-IP  $remote_addr;\n        proxy_read_timeout 300s;\n        proxy_send_timeout 300s;\n";

/// Between the CORS block and the advanced config.
pub const SERVER_AFTER_CORS: &'static str = "\n";

/// After the advanced config, up to the upstream.
pub const SERVER_AFTER_ADVANCED: &'static str = "\n\n        location / {\n            proxy_pass ";

/// After the upstream: the end of the server.
pub const SERVER_CLOSE: &'static str = ";\n        }\n    }\n";

/// The CORS headers added when a domain has CORS on.
pub const CORS_BLOCK: &'static str = "\n        # CORS headers\n        add_header 'Access-Control-Allow-Origin'  '*' always;\n        add_header 'Access-Control-Allow-Methods' 'GET, POST, PUT, DELETE, PATCH, OPTIONS' always;\n        add_header 'Access-Control-Allow-Headers' 'Authorization, Content-Type, Accept, X-Requested-With' always;\n        add_header 'Access-Control-Max-Age'       86400 always;\n\n        if ($request_method = 'OPTIONS') {\n            add_header 'Access-Control-Allow-Origin'  '*';\n            add_header 'Access-Control-Allow-Methods' 'GET, POST, PUT, DELETE, PATCH, OPTIONS';\n            add_header 'Access-Control-Allow-Headers' 'Authorization, Content-Type, Accept, X-Requested-With';\n            add_header 'Content-Length' 0;\n            return 204;\n        }";

/// An advanced config that is a whole server block of its own.
pub open spec fn is_full_server(adv: Seq<char>) -> bool {
    ||| starts_with(adv, "server {"@)
    ||| starts_with(adv, "server\n{"@)
    ||| starts_with(adv, "server\r\n{"@)
    ||| starts_with(adv, "server "@)
}

/// The text of an optional advanced config.
pub open spec fn advanced_text(a: Option<String>) -> Seq<char> {
    match a {
        Some(s) => s@,
        None => Seq::empty(),
    }
}

/// The certificate file of `domain` in `cert_dir`.
pub open spec fn cert_file(cert_dir: Seq<char>, domain: Seq<char>) -> Seq<char> {
    forward_slashes(cert_dir) + "/"@ + domain + ".crt"@
}

/// The key file of `domain` in `cert_dir`.
pub open spec fn key_file(cert_dir: Seq<char>, domain: Seq<char>) -> Seq<char> {
    forward_slashes(cert_dir) + "/"@ + domain + ".key"@
}

/// The part of nginx.conf for one enabled domain: its own server block with
/// the placeholders filled in, or the standard proxied server.
pub open spec fn domain_section(d: DomainConfig, cert_dir: Seq<char>) -> Seq<char> {
    let cert = cert_file(cert_dir, d.domain@);
    let key = key_file(cert_dir, d.domain@);
    let raw = advanced_text(d.advanced_config);
    let adv = trim(raw);
    if is_full_server(adv) {
        "\n"@ + replace_all(
            replace_all(
                replace_all(replace_all(adv, "$DOMAIN"@, d.domain@), "$CERT_PATH"@, cert),
                "$KEY_PATH"@,
                key,
            ),
            "$UPSTREAM"@,
            d.upstream@,
        ) + "\n"@
    } else {
        SERVER_OPEN@ + d.domain@ + SERVER_AFTER_NAME@ + cert + SERVER_AFTER_CERT@ + key
            + SERVER_AFTER_KEY@ + (if d.cors_enabled {
            CORS_BLOCK@
        } else {
            Seq::empty()
        }) + SERVER_AFTER_CORS@ + raw + SERVER_AFTER_ADVANCED@ + d.upstream@ + SERVER_CLOSE@
    }
}

/// The sections of the enabled domains among `ds`, in order.
pub open spec fn domain_sections(ds: Seq<DomainConfig>, cert_dir: Seq<char>) -> Seq<char>
    decreases ds.len(),
{
    if ds.len() == 0 {
        Seq::empty()
    } else {
        (if ds[0].enabled {
            domain_section(ds[0], cert_dir)
        } else {
            Seq::empty()
        }) + domain_sections(ds.drop_first(), cert_dir)
    }
}

/// The head of nginx.conf for an nginx directory written with forward slashes.
pub open spec fn conf_head(dir: Seq<char>) -> Seq<char> {
    CONF_START@ + dir + CONF_AFTER_ERROR_LOG@ + dir + CONF_AFTER_PID@ + dir
        + CONF_AFTER_MIME_TYPES@ + dir + CONF_AFTER_ACCESS_LOG@
}

/// The whole nginx.conf.
pub open spec fn nginx_conf(ds: Seq<DomainConfig>, cert_dir: Seq<char>, nginx_dir: Seq<char>) -> Seq<
    char,
> {
    conf_head(forward_slashes(nginx_dir)) + domain_sections(ds, cert_dir) + "}\n"@
}

fn push_domain_section(out: &mut Vec<char>, d: &DomainConfig, cert_dir: &Vec<char>)
    ensures
        final(out)@ == old(out)@ + domain_section(*d, cert_dir@),
{
    let cert_dir_fwd = replace_char_exec(cert_dir, '\\', "/");
    let domain = chars_of(d.domain.as_str());
    let upstream = chars_of(d.upstream.as_str());
    let mut cert = cert_dir_fwd.clone();
    push_str(&mut cert, "/");
    push_all(&mut cert, &domain);
    push_str(&mut cert, ".crt");
    let mut key = cert_dir_fwd.clone();
    push_str(&mut key, "/");
    push_all(&mut key, &domain);
    push_str(&mut key, ".key");
    let raw: Vec<char> = match &d.advanced_config {
        Some(a) => chars_of(a.as_str()),
        None => Vec::new(),
    };
    assert(raw@ == advanced_text(d.advanced_config));
    let adv = trim_vec(&raw);
    let full = starts_with_str(&adv, "server {") || starts_with_str(&adv, "server\n{")
        || starts_with_str(&adv, "server\r\n{") || starts_with_str(&adv, "server ");
    let mut sec: Vec<char>;
    if full {
        let r1 = replace_str(&adv, "$DOMAIN", &domain);
        let r2 = replace_str(&r1, "$CERT_PATH", &cert);
        let r3 = replace_str(&r2, "$KEY_PATH", &key);
        let r4 = replace_str(&r3, "$UPSTREAM", &upstream);
        sec = chars_of("\n");
        push_all(&mut sec, &r4);
        push_str(&mut sec, "\n");
    } else {
        sec = chars_of(SERVER_OPEN);
        push_all(&mut sec, &domain);
        push_str(&mut sec, SERVER_AFTER_NAME);
        push_all(&mut sec, &cert);
        push_str(&mut sec, SERVER_AFTER_CERT);
        push_all(&mut sec, &key);
        push_str(&mut sec, SERVER_AFTER_KEY);
        let ghost before_cors = sec@;
        if d.cors_enabled {
            push_str(&mut sec, CORS_BLOCK);
        } else {
            assert(before_cors + Seq::<char>::empty() =~= before_cors);
        }
        push_str(&mut sec, SERVER_AFTER_CORS);
        push_all(&mut sec, &raw);
        push_str(&mut sec, SERVER_AFTER_ADVANCED);
        push_all(&mut sec, &upstream);
        push_str(&mut sec, SERVER_CLOSE);
    }
    assert(sec@ == domain_section(*d, cert_dir@));
    push_all(out, &sec);
}

/// Generate a complete nginx.conf from the list of domain configs.
pub fn generate(domains: &[DomainConfig], cert_dir: &str, nginx_dir: &str) -> (r: String)
    ensures
        r@ == nginx_conf(domains@, cert_dir@, nginx_dir@),
{
    let dir = replace_char_exec(&chars_of(nginx_dir), '\\', "/");
    let cd = chars_of(cert_dir);
    let mut conf = chars_of(CONF_START);
    push_all(&mut conf, &dir);
    push_str(&mut conf, CONF_AFTER_ERROR_LOG);
    push_all(&mut conf, &dir);
    push_str(&mut conf, CONF_AFTER_PID);
    push_all(&mut conf, &dir);
    push_str(&mut conf, CONF_AFTER_MIME_TYPES);
    push_all(&mut conf, &dir);
    push_str(&mut conf, CONF_AFTER_ACCESS_LOG);
    let ghost head = conf@;
    let ghost ds = domains@;
    let mut i: usize = 0;
    assert(ds.skip(0) =~= ds);
    while i < domains.len()
        invariant
            i <= domains.len(),
            ds == domains@,
            cd@ == cert_dir@,
            domain_sections(ds, cert_dir@) == conf@.subrange(head.len() as int, conf@.len() as int)
                + domain_sections(ds.skip(i as int), cert_dir@),
            head.len() <= conf@.len(),
            conf@.subrange(0, head.len() as int) == head,
        decreases domains.len() - i,
    {
        let ghost cur = ds.skip(i as int);
        assert(cur[0] == domains[i as int]);
        assert(cur.drop_first() =~= ds.skip(i + 1));
        let ghost old_conf = conf@;
        if domains[i].enabled {
            push_domain_section(&mut conf, &domains[i], &cd);
        }
        assert(conf@.subrange(head.len() as int, conf@.len() as int) =~= old_conf.subrange(
            head.len() as int,
            old_conf.len() as int,
        ) + (if domains[i as int].enabled {
            domain_section(domains[i as int], cert_dir@)
        } else {
            Seq::empty()
        }));
        assert(conf@.subrange(0, head.len() as int) =~= old_conf.subrange(0, head.len() as int));
        i = i + 1;
    }
    let ghost body = conf@.subrange(head.len() as int, conf@.len() as int);
    assert(body + domain_sections(ds.skip(i as int), cert_dir@) =~= body);
    assert(conf@ =~= head + body);
    push_str(&mut conf, "}\n");
    string_of(&conf)
}


proof fn lemma_sections_concat(a: Seq<DomainConfig>, b: Seq<DomainConfig>, cert_dir: Seq<char>)
    ensures
        domain_sections(a + b, cert_dir) == domain_sections(a, cert_dir) + domain_sections(
            b,
            cert_dir,
        ),
    decreases a.len(),
{
    if a.len() == 0 {
        assert(a + b =~= b);
        assert(domain_sections(a, cert_dir) + domain_sections(b, cert_dir) =~= domain_sections(
            b,
            cert_dir,
        ));
    } else {
        assert((a + b).drop_first() =~= a.drop_first() + b);
        assert((a + b)[0] == a[0]);
        lemma_sections_concat(a.drop_first(), b, cert_dir);
        assert(domain_sections(a + b, cert_dir) =~= domain_sections(a, cert_dir)
            + domain_sections(b, cert_dir));
    }
}

/// A disabled domain leaves the generated config as it would be without it,
/// wherever it stands in the list.
pub proof fn law_disabled_domain_ignored(
    before: Seq<DomainConfig>,
    d: DomainConfig,
    after: Seq<DomainConfig>,
    cert_dir: Seq<char>,
    nginx_dir: Seq<char>,
)
    requires
        !d.enabled,
    ensures
        nginx_conf(before + seq![d] + after, cert_dir, nginx_dir) == nginx_conf(
            before + after,
            cert_dir,
            nginx_dir,
        ),
{
    lemma_sections_concat(before + seq![d], after, cert_dir);
    lemma_sections_concat(before, seq![d], cert_dir);
    lemma_sections_concat(before, after, cert_dir);
    assert(seq![d].drop_first() =~= Seq::<DomainConfig>::empty());
    assert(domain_sections(seq![d].drop_first(), cert_dir) =~= Seq::<char>::empty());
    assert(domain_sections(seq![d], cert_dir) =~= Seq::<char>::empty());
    assert(domain_sections(before + seq![d], cert_dir) =~= domain_sections(before, cert_dir));
}

/// Each enabled domain adds its own server section, in list order: the
/// config for `before + [d] + after` holds `d`'s section between those of
/// `before` and `after`.
pub proof fn law_enabled_domain_section(
    before: Seq<DomainConfig>,
    d: DomainConfig,
    after: Seq<DomainConfig>,
    cert_dir: Seq<char>,
    nginx_dir: Seq<char>,
)
    requires
        d.enabled,
    ensures
        nginx_conf(before + seq![d] + after, cert_dir, nginx_dir) == conf_head(
            forward_slashes(nginx_dir),
        ) + domain_sections(before, cert_dir) + domain_section(d, cert_dir) + domain_sections(
            after,
            cert_dir,
        ) + "}\n"@,
{
    lemma_sections_concat(before + seq![d], after, cert_dir);
    lemma_sections_concat(before, seq![d], cert_dir);
    assert(seq![d].drop_first() =~= Seq::<DomainConfig>::empty());
    assert(domain_sections(seq![d].drop_first(), cert_dir) =~= Seq::<char>::empty());
    assert(domain_sections(seq![d], cert_dir) =~= domain_section(d, cert_dir));
    assert(nginx_conf(before + seq![d] + after, cert_dir, nginx_dir) =~= conf_head(
        forward_slashes(nginx_dir),
    ) + domain_sections(before, cert_dir) + domain_section(d, cert_dir) + domain_sections(
        after,
        cert_dir,
    ) + "}\n"@);
}


/// The enabled domains of `ds`, in order.
pub open spec fn enabled_only(ds: Seq<DomainConfig>) -> Seq<DomainConfig>
    decreases ds.len(),
{
    if ds.len() == 0 {
        Seq::empty()
    } else if ds.last().enabled {
        enabled_only(ds.drop_last()).push(ds.last())
    } else {
        enabled_only(ds.drop_last())
    }
}

proof fn lemma_sections_one(d: DomainConfig, cert_dir: Seq<char>)
    ensures
        domain_sections(seq![d], cert_dir) == (if d.enabled {
            domain_section(d, cert_dir)
        } else {
            Seq::<char>::empty()
        }),
{
    assert(seq![d].drop_first() =~= Seq::<DomainConfig>::empty());
    assert(domain_sections(seq![d].drop_first(), cert_dir) =~= Seq::<char>::empty());
    assert(seq![d][0] == d);
    if d.enabled {
        assert(domain_section(d, cert_dir) + Seq::<char>::empty() =~= domain_section(d, cert_dir));
    } else {
        assert(Seq::<char>::empty() + Seq::<char>::empty() =~= Seq::<char>::empty());
    }
}

proof fn lemma_sections_enabled(ds: Seq<DomainConfig>, cert_dir: Seq<char>)
    ensures
        domain_sections(ds, cert_dir) == domain_sections(enabled_only(ds), cert_dir),
    decreases ds.len(),
{
    if ds.len() > 0 {
        let dl = ds.drop_last();
        let x = ds.last();
        lemma_sections_enabled(dl, cert_dir);
        assert(ds =~= dl + seq![x]);
        lemma_sections_concat(dl, seq![x], cert_dir);
        lemma_sections_one(x, cert_dir);
        if x.enabled {
            assert(enabled_only(ds) =~= enabled_only(dl) + seq![x]);
            lemma_sections_concat(enabled_only(dl), seq![x], cert_dir);
        } else {
            assert(domain_sections(dl, cert_dir) + Seq::<char>::empty() =~= domain_sections(dl, cert_dir));
        }
    } else {
        assert(enabled_only(ds) =~= ds);
    }
}

/// The generated config depends only on the enabled domains: dropping
/// every disabled one, keeping the others in order, changes nothing (with
/// none enabled it is the config for no domain at all).
pub proof fn law_generate_enabled_only(ds: Seq<DomainConfig>, cert_dir: Seq<char>, nginx_dir: Seq<char>)
    ensures
        nginx_conf(ds, cert_dir, nginx_dir) == nginx_conf(enabled_only(ds), cert_dir, nginx_dir),
        enabled_only(ds).len() == 0 ==> nginx_conf(ds, cert_dir, nginx_dir) == nginx_conf(
            Seq::empty(),
            cert_dir,
            nginx_dir,
        ),
{
    lemma_sections_enabled(ds, cert_dir);
    if enabled_only(ds).len() == 0 {
        assert(enabled_only(ds) =~= Seq::<DomainConfig>::empty());
    }
}

/// `s` holds no `'$'`.
pub open spec fn no_dollar(s: Seq<char>) -> bool {
    forall|m: int| 0 <= m < s.len() ==> s[m] != '$'
}

/// A placeholder is left alone by the replacement of another one whose
/// second character differs, and a text with no `'$'` by any of them.
proof fn lemma_replace_no_dollar(s: Seq<char>, from: Seq<char>, to: Seq<char>)
    requires
        from.len() > 0,
        from[0] == '$',
        no_dollar(s),
    ensures
        replace_all(s, from, to) == s,
    decreases s.len(),
{
    if s.len() > 0 {
        assert(!starts_with(s, from)) by {
            if starts_with(s, from) {
                assert(s.subrange(0, from.len() as int)[0] == s[0]);
            }
        }
        lemma_replace_no_dollar(s.drop_first(), from, to);
        assert(seq![s[0]] + s.drop_first() =~= s);
    }
}

/// Replacing in `a + x`, where `a` has no `'$'`, keeps `a` as it is.
proof fn lemma_replace_after_plain(a: Seq<char>, x: Seq<char>, from: Seq<char>, to: Seq<char>)
    requires
        from.len() > 0,
        from[0] == '$',
        no_dollar(a),
    ensures
        replace_all(a + x, from, to) == a + replace_all(x, from, to),
    decreases a.len(),
{
    if a.len() > 0 {
        let s = a + x;
        assert(!starts_with(s, from)) by {
            if starts_with(s, from) {
                assert(s.subrange(0, from.len() as int)[0] == s[0]);
            }
        }
        assert(s.drop_first() =~= a.drop_first() + x);
        lemma_replace_after_plain(a.drop_first(), x, from, to);
        assert(seq![a[0]] + (a.drop_first() + replace_all(x, from, to)) =~= a + replace_all(
            x,
            from,
            to,
        ));
    }
}

/// One replacement step on `a + p + b`, where only `p` holds a `'$'` and
/// `p` is a placeholder: `p` becomes `to` when it is `from`, and otherwise
/// stays (the two differ in their second character).
proof fn lemma_replace_step(
    a: Seq<char>,
    p: Seq<char>,
    b: Seq<char>,
    from: Seq<char>,
    to: Seq<char>,
)
    requires
        no_dollar(a),
        no_dollar(b),
        p.len() >= 2,
        p[0] == '$',
        no_dollar(p.drop_first()),
        from.len() >= 2,
        from[0] == '$',
        p == from || p[1] != from[1],
    ensures
        p == from ==> replace_all(a + p + b, from, to) == a + to + b,
        p != from ==> replace_all(a + p + b, from, to) == a + p + b,
{
    assert(a + p + b =~= a + (p + b));
    lemma_replace_after_plain(a, p + b, from, to);
    let s = p + b;
    if p == from {
        assert(s.subrange(0, from.len() as int) =~= from);
        assert(s.subrange(from.len() as int, s.len() as int) =~= b);
        lemma_replace_no_dollar(b, from, to);
        assert(a + (to + b) =~= a + to + b);
    } else {
        assert(!starts_with(s, from)) by {
            if starts_with(s, from) {
                assert(s.subrange(0, from.len() as int)[1] == s[1]);
            }
        }
        assert(s.drop_first() =~= p.drop_first() + b);
        lemma_replace_no_dollar(s.drop_first(), from, to);
        assert(seq![s[0]] + s.drop_first() =~= s);
    }
}

/// Replacing a character by `"/"` brings in no `'$'`.
proof fn lemma_forward_slashes_no_dollar(s: Seq<char>)
    requires
        no_dollar(s),
    ensures
        no_dollar(forward_slashes(s)),
    decreases s.len(),
{
    reveal_strlit("/");
    if s.len() > 0 {
        lemma_forward_slashes_no_dollar(s.drop_first());
        let r = crate::text::replace_char(s.drop_first(), '\\', "/"@);
        if s[0] == '\\' {
            assert(forward_slashes(s) == "/"@ + r);
        } else {
            assert(forward_slashes(s) == seq![s[0]] + r);
        }
        assert forall|m: int| 0 <= m < forward_slashes(s).len() implies forward_slashes(s)[m]
            != '$' by {
            if m > 0 {
                assert(forward_slashes(s)[m] == r[m - 1]);
            }
        }
    }
}

proof fn lemma_no_dollar_concat(x: Seq<char>, y: Seq<char>)
    requires
        no_dollar(x),
        no_dollar(y),
    ensures
        no_dollar(x + y),
{
    assert forall|m: int| 0 <= m < (x + y).len() implies (x + y)[m] != '$' by {
        if m >= x.len() {
            assert((x + y)[m] == y[m - x.len()]);
        }
    }
}

/// The four placeholder replacements, in the order nginx.conf makes them,
/// on `a + p + b` where only the placeholder `p` holds a `'$'`.
proof fn lemma_fill_placeholder(
    a: Seq<char>,
    p: Seq<char>,
    b: Seq<char>,
    vd: Seq<char>,
    vc: Seq<char>,
    vk: Seq<char>,
    vu: Seq<char>,
)
    requires
        no_dollar(a),
        no_dollar(b),
        no_dollar(vd),
        no_dollar(vc),
        no_dollar(vk),
        no_dollar(vu),
        p == "$DOMAIN"@ || p == "$CERT_PATH"@ || p == "$KEY_PATH"@ || p == "$UPSTREAM"@,
    ensures
        replace_all(
            replace_all(
                replace_all(replace_all(a + p + b, "$DOMAIN"@, vd), "$CERT_PATH"@, vc),
                "$KEY_PATH"@,
                vk,
            ),
            "$UPSTREAM"@,
            vu,
        ) == a + (if p == "$DOMAIN"@ {
            vd
        } else if p == "$CERT_PATH"@ {
            vc
        } else if p == "$KEY_PATH"@ {
            vk
        } else {
            vu
        }) + b,
{
    reveal_strlit("$DOMAIN");
    reveal_strlit("$CERT_PATH");
    reveal_strlit("$KEY_PATH");
    reveal_strlit("$UPSTREAM");
    let dom = "$DOMAIN"@;
    let crt = "$CERT_PATH"@;
    let kp = "$KEY_PATH"@;
    let up = "$UPSTREAM"@;
    assert(no_dollar(p.drop_first()));
    let v = if p == dom {
        vd
    } else if p == crt {
        vc
    } else if p == kp {
        vk
    } else {
        vu
    };
    lemma_no_dollar_concat(a, v);
    lemma_no_dollar_concat(a + v, b);
    let adv = a + p + b;
    lemma_replace_step(a, p, b, dom, vd);
    let s1 = replace_all(adv, dom, vd);
    let s2 = replace_all(s1, crt, vc);
    if p == dom {
        lemma_replace_no_dollar(s1, crt, vc);
    } else {
        lemma_replace_step(a, p, b, crt, vc);
    }
    let s3 = replace_all(s2, kp, vk);
    if p == dom || p == crt {
        lemma_replace_no_dollar(s2, kp, vk);
    } else {
        lemma_replace_step(a, p, b, kp, vk);
    }
    if p == up {
        lemma_replace_step(a, p, b, up, vu);
    } else {
        lemma_replace_no_dollar(s3, up, vu);
    }
}

/// The certificate and key files of a domain hold no `'$'` when neither
/// the directory nor the domain does.
proof fn lemma_files_no_dollar(cert_dir: Seq<char>, domain: Seq<char>)
    requires
        no_dollar(cert_dir),
        no_dollar(domain),
    ensures
        no_dollar(cert_file(cert_dir, domain)),
        no_dollar(key_file(cert_dir, domain)),
{
    reveal_strlit("/");
    reveal_strlit(".crt");
    reveal_strlit(".key");
    lemma_forward_slashes_no_dollar(cert_dir);
    let fs = forward_slashes(cert_dir);
    assert(no_dollar("/"@));
    assert(no_dollar(".crt"@));
    assert(no_dollar(".key"@));
    lemma_no_dollar_concat(fs, "/"@);
    lemma_no_dollar_concat(fs + "/"@, domain);
    lemma_no_dollar_concat(fs + "/"@ + domain, ".crt"@);
    lemma_no_dollar_concat(fs + "/"@ + domain, ".key"@);
}

/// A domain's own server block, free of `'$'` but for one of the
/// placeholders `$DOMAIN`, `$CERT_PATH`, `$KEY_PATH` and `$UPSTREAM`, goes
/// into nginx.conf with that placeholder replaced by the domain, its
/// certificate file, its key file, or its upstream, and nothing else
/// changed (given that none of these values holds a `'$'`).
pub proof fn law_server_block_placeholder(
    d: DomainConfig,
    cert_dir: Seq<char>,
    a: Seq<char>,
    p: Seq<char>,
    b: Seq<char>,
)
    requires
        trim(advanced_text(d.advanced_config)) == a + p + b,
        is_full_server(a + p + b),
        no_dollar(a),
        no_dollar(b),
        p == "$DOMAIN"@ || p == "$CERT_PATH"@ || p == "$KEY_PATH"@ || p == "$UPSTREAM"@,
        no_dollar(d.domain@),
        no_dollar(cert_dir),
        no_dollar(d.upstream@),
    ensures
        p == "$DOMAIN"@ ==> domain_section(d, cert_dir) == "\n"@ + a + d.domain@ + b + "\n"@,
        p == "$CERT_PATH"@ ==> domain_section(d, cert_dir) == "\n"@ + a + forward_slashes(cert_dir)
            + "/"@ + d.domain@ + ".crt"@ + b + "\n"@,
        p == "$KEY_PATH"@ ==> domain_section(d, cert_dir) == "\n"@ + a + forward_slashes(cert_dir)
            + "/"@ + d.domain@ + ".key"@ + b + "\n"@,
        p == "$UPSTREAM"@ ==> domain_section(d, cert_dir) == "\n"@ + a + d.upstream@ + b + "\n"@,
{
    reveal_strlit("/");
    reveal_strlit(".crt");
    reveal_strlit(".key");
    reveal_strlit("$DOMAIN");
    reveal_strlit("$CERT_PATH");
    reveal_strlit("$KEY_PATH");
    reveal_strlit("$UPSTREAM");
    assert("$CERT_PATH"@ != "$DOMAIN"@ && "$KEY_PATH"@ != "$DOMAIN"@ && "$KEY_PATH"@ != "$CERT_PATH"@)
        by {
        assert("$CERT_PATH"@[1] != "$DOMAIN"@[1]);
        assert("$KEY_PATH"@[1] != "$DOMAIN"@[1]);
        assert("$KEY_PATH"@[1] != "$CERT_PATH"@[1]);
    }
    assert("$UPSTREAM"@ != "$DOMAIN"@ && "$UPSTREAM"@ != "$CERT_PATH"@ && "$UPSTREAM"@ != "$KEY_PATH"@)
        by {
        assert("$UPSTREAM"@[1] != "$DOMAIN"@[1]);
        assert("$UPSTREAM"@[1] != "$CERT_PATH"@[1]);
        assert("$UPSTREAM"@[1] != "$KEY_PATH"@[1]);
    }
    let cert = cert_file(cert_dir, d.domain@);
    let key = key_file(cert_dir, d.domain@);
    let fs = forward_slashes(cert_dir);
    lemma_files_no_dollar(cert_dir, d.domain@);
    lemma_fill_placeholder(a, p, b, d.domain@, cert, key, d.upstream@);
    assert("\n"@ + (a + cert + b) + "\n"@ =~= "\n"@ + a + fs + "/"@ + d.domain@ + ".crt"@ + b
        + "\n"@);
    assert("\n"@ + (a + key + b) + "\n"@ =~= "\n"@ + a + fs + "/"@ + d.domain@ + ".key"@ + b
        + "\n"@);
}

/// Every `'$'` of `s` begins an occurrence of one of the texts in `ps`.
pub open spec fn dollars_begin(s: Seq<char>, ps: Set<Seq<char>>) -> bool {
    forall|m: int|
        0 <= m < s.len() && s[m] == '$' ==> exists|q: Seq<char>| #[trigger]
            ps.contains(q) && crate::text::occurs_at(s, q, m)
}

/// `q` is a placeholder that `from` can be told from by its second
/// character, unless they are the same.
pub open spec fn placeholder_apart(q: Seq<char>, from: Seq<char>) -> bool {
    &&& q.len() >= 2
    &&& q[0] == '$'
    &&& no_dollar(q.drop_first())
    &&& (q == from || q[1] != from[1])
}

proof fn lemma_dollars_shift(x: Seq<char>, s: Seq<char>, ps: Set<Seq<char>>)
    requires
        no_dollar(x),
        dollars_begin(s, ps),
    ensures
        dollars_begin(x + s, ps),
{
    let t = x + s;
    assert forall|m: int| 0 <= m < t.len() && t[m] == '$' implies exists|q: Seq<char>| #[trigger]
        ps.contains(q) && crate::text::occurs_at(t, q, m) by {
        assert(m >= x.len());
        assert(s[m - x.len()] == '$');
        let q = choose|q: Seq<char>| #[trigger]
            ps.contains(q) && crate::text::occurs_at(s, q, m - x.len());
        assert(t.subrange(m, m + q.len()) =~= s.subrange(m - x.len(), m - x.len() + q.len()));
        assert(ps.contains(q) && crate::text::occurs_at(t, q, m));
    }
}

proof fn lemma_dollars_suffix(s: Seq<char>, k: int, ps: Set<Seq<char>>)
    requires
        0 <= k <= s.len(),
        dollars_begin(s, ps),
    ensures
        dollars_begin(s.subrange(k, s.len() as int), ps),
{
    let t = s.subrange(k, s.len() as int);
    assert forall|m: int| 0 <= m < t.len() && t[m] == '$' implies exists|q: Seq<char>| #[trigger]
        ps.contains(q) && crate::text::occurs_at(t, q, m) by {
        assert(s[m + k] == '$');
        let q = choose|q: Seq<char>| #[trigger]
            ps.contains(q) && crate::text::occurs_at(s, q, m + k);
        assert(t.subrange(m, m + q.len()) =~= s.subrange(m + k, m + k + q.len()));
        assert(ps.contains(q) && crate::text::occurs_at(t, q, m));
    }
}

/// Replacing one placeholder by a text with no `'$'` leaves every other
/// `'$'` at the head of one of the other placeholders.
proof fn lemma_replace_keeps_placeholders(
    s: Seq<char>,
    ps: Set<Seq<char>>,
    from: Seq<char>,
    to: Seq<char>,
)
    requires
        dollars_begin(s, ps),
        ps.contains(from),
        forall|q: Seq<char>| #[trigger] ps.contains(q) ==> placeholder_apart(q, from),
        no_dollar(to),
    ensures
        dollars_begin(replace_all(s, from, to), ps.remove(from)),
    decreases s.len(),
{
    let rest = ps.remove(from);
    assert(placeholder_apart(from, from));
    if s.len() == 0 {
    } else if starts_with(s, from) {
        let tail = s.subrange(from.len() as int, s.len() as int);
        lemma_dollars_suffix(s, from.len() as int, ps);
        lemma_replace_keeps_placeholders(tail, ps, from, to);
        lemma_dollars_shift(to, replace_all(tail, from, to), rest);
    } else {
        let tail = s.drop_first();
        lemma_dollars_suffix(s, 1, ps);
        assert(tail =~= s.subrange(1, s.len() as int));
        lemma_replace_keeps_placeholders(tail, ps, from, to);
        let r = replace_all(tail, from, to);
        let t = seq![s[0]] + r;
        if s[0] == '$' {
            let q = choose|q: Seq<char>| #[trigger]
                ps.contains(q) && crate::text::occurs_at(s, q, 0);
            assert(placeholder_apart(q, from));
            assert(q != from);
            assert(rest.contains(q));
            let qt = q.drop_first();
            assert(tail =~= qt + s.subrange(q.len() as int, s.len() as int));
            lemma_replace_after_plain(qt, s.subrange(q.len() as int, s.len() as int), from, to);
            assert(t.subrange(0, q.len() as int) =~= q) by {
                assert(s.subrange(0, q.len() as int) == q);
                assert forall|k: int| 0 <= k < q.len() implies t[k] == q[k] by {
                    if k > 0 {
                        assert(t[k] == r[k - 1]);
                        assert(r[k - 1] == qt[k - 1]);
                    } else {
                        assert(s[0] == s.subrange(0, q.len() as int)[0]);
                    }
                }
            }
            assert(rest.contains(q) && crate::text::occurs_at(t, q, 0));
            assert forall|m: int| 0 <= m < t.len() && t[m] == '$' implies exists|p: Seq<char>|
                #[trigger] rest.contains(p) && crate::text::occurs_at(t, p, m) by {
                if m == 0 {
                    assert(rest.contains(q) && crate::text::occurs_at(t, q, 0));
                } else {
                    assert(r[m - 1] == '$');
                    let p = choose|p: Seq<char>| #[trigger]
                        rest.contains(p) && crate::text::occurs_at(r, p, m - 1);
                    assert(t.subrange(m, m + p.len()) =~= r.subrange(m - 1, m - 1 + p.len()));
                    assert(rest.contains(p) && crate::text::occurs_at(t, p, m));
                }
            }
        } else {
            assert(no_dollar(seq![s[0]]));
            lemma_dollars_shift(seq![s[0]], r, rest);
        }
        assert(!starts_with(s, from));
        assert(replace_all(s, from, to) == t);
    }
}

/// A domain's own server block in which every `'$'` begins one of the
/// placeholders `$DOMAIN`, `$CERT_PATH`, `$KEY_PATH` and `$UPSTREAM` goes into
/// nginx.conf with no `'$'` left, so with none of these placeholders left
/// (given that the domain, the certificate directory and the upstream hold
/// no `'$'`).
pub proof fn law_server_block_placeholders_filled(d: DomainConfig, cert_dir: Seq<char>)
    requires
        is_full_server(trim(advanced_text(d.advanced_config))),
        dollars_begin(
            trim(advanced_text(d.advanced_config)),
            set!["$DOMAIN"@, "$CERT_PATH"@, "$KEY_PATH"@, "$UPSTREAM"@],
        ),
        no_dollar(d.domain@),
        no_dollar(cert_dir),
        no_dollar(d.upstream@),
    ensures
        no_dollar(domain_section(d, cert_dir)),
        !crate::text::contains(domain_section(d, cert_dir), "$DOMAIN"@),
        !crate::text::contains(domain_section(d, cert_dir), "$CERT_PATH"@),
        !crate::text::contains(domain_section(d, cert_dir), "$KEY_PATH"@),
        !crate::text::contains(domain_section(d, cert_dir), "$UPSTREAM"@),
{
    reveal_strlit("$DOMAIN");
    reveal_strlit("$CERT_PATH");
    reveal_strlit("$KEY_PATH");
    reveal_strlit("$UPSTREAM");
    reveal_strlit("\n");
    let dom = "$DOMAIN"@;
    let crt = "$CERT_PATH"@;
    let kp = "$KEY_PATH"@;
    let up = "$UPSTREAM"@;
    let cert = cert_file(cert_dir, d.domain@);
    let key = key_file(cert_dir, d.domain@);
    lemma_files_no_dollar(cert_dir, d.domain@);
    let adv = trim(advanced_text(d.advanced_config));
    let ps0 = set![dom, crt, kp, up];
    let ps1 = ps0.remove(dom);
    let ps2 = ps1.remove(crt);
    let ps3 = ps2.remove(kp);
    let ps4 = ps3.remove(up);
    assert(forall|q: Seq<char>| #[trigger] ps0.contains(q) ==> placeholder_apart(q, dom));
    assert(forall|q: Seq<char>| #[trigger] ps1.contains(q) ==> placeholder_apart(q, crt));
    assert(forall|q: Seq<char>| #[trigger] ps2.contains(q) ==> placeholder_apart(q, kp));
    assert(forall|q: Seq<char>| #[trigger] ps3.contains(q) ==> placeholder_apart(q, up));
    let s1 = replace_all(adv, dom, d.domain@);
    lemma_replace_keeps_placeholders(adv, ps0, dom, d.domain@);
    let s2 = replace_all(s1, crt, cert);
    lemma_replace_keeps_placeholders(s1, ps1, crt, cert);
    let s3 = replace_all(s2, kp, key);
    lemma_replace_keeps_placeholders(s2, ps2, kp, key);
    let s4 = replace_all(s3, up, d.upstream@);
    lemma_replace_keeps_placeholders(s3, ps3, up, d.upstream@);
    assert(ps4 =~= Set::<Seq<char>>::empty());
    assert(no_dollar(s4)) by {
        assert forall|m: int| 0 <= m < s4.len() implies s4[m] != '$' by {
            if s4[m] == '$' {
                let q = choose|q: Seq<char>| #[trigger]
                    ps4.contains(q) && crate::text::occurs_at(s4, q, m);
            }
        }
    }
    let sec = domain_section(d, cert_dir);
    assert(sec == "\n"@ + s4 + "\n"@);
    assert(no_dollar("\n"@));
    lemma_no_dollar_concat("\n"@, s4);
    lemma_no_dollar_concat("\n"@ + s4, "\n"@);
    assert forall|q: Seq<char>, i: int| q.len() > 0 && q[0] == '$' implies !crate::text::occurs_at(
        sec,
        q,
        i,
    ) by {
        if crate::text::occurs_at(sec, q, i) {
            assert(sec.subrange(i, i + q.len())[0] == sec[i]);
        }
    }
}

/// `mid` occurs in `pre + mid + post`.
proof fn lemma_contains_mid(pre: Seq<char>, mid: Seq<char>, post: Seq<char>)
    ensures
        crate::text::contains(pre + mid + post, mid),
{
    let s = pre + mid + post;
    assert(s.subrange(pre.len() as int, pre.len() + mid.len() as int) =~= mid);
    assert(crate::text::occurs_at(s, mid, pre.len() as int));
}

/// `l + x + r` occurs in `o + x + a + rest` when `o` ends with `l` and `a`
/// starts with `r`.
proof fn lemma_contains_framed(
    o: Seq<char>,
    x: Seq<char>,
    a: Seq<char>,
    rest: Seq<char>,
    l: Seq<char>,
    r: Seq<char>,
)
    requires
        l.len() <= o.len(),
        o.subrange(o.len() - l.len(), o.len() as int) == l,
        r.len() <= a.len(),
        a.subrange(0, r.len() as int) == r,
    ensures
        crate::text::contains(o + x + a + rest, l + x + r),
{
    let pre = o.subrange(0, o.len() - l.len());
    let post = a.subrange(r.len() as int, a.len() as int) + rest;
    assert(o =~= pre + l);
    assert(a =~= r + a.subrange(r.len() as int, a.len() as int));
    assert(o + x + a + rest =~= pre + (l + x + r) + post);
    lemma_contains_mid(pre, l + x + r, post);
}

/// The standard section of a domain, in its parts.
proof fn lemma_standard_parts(d: DomainConfig, cert_dir: Seq<char>)
    requires
        !is_full_server(trim(advanced_text(d.advanced_config))),
    ensures
        domain_section(d, cert_dir) == SERVER_OPEN@ + d.domain@ + SERVER_AFTER_NAME@ + cert_file(
            cert_dir,
            d.domain@,
        ) + SERVER_AFTER_CERT@ + key_file(cert_dir, d.domain@) + SERVER_AFTER_KEY@ + (if d.cors_enabled {
            CORS_BLOCK@
        } else {
            Seq::empty()
        }) + SERVER_AFTER_CORS@ + advanced_text(d.advanced_config) + SERVER_AFTER_ADVANCED@
            + d.upstream@ + SERVER_CLOSE@,
{
}

/// A domain without a server block of its own gets the standard proxied
/// server named after the domain.
pub proof fn law_standard_server_name(d: DomainConfig, cert_dir: Seq<char>)
    requires
        !is_full_server(trim(advanced_text(d.advanced_config))),
    ensures
        crate::text::contains(domain_section(d, cert_dir), "server_name "@ + d.domain@ + ";"@),
{
    reveal_strlit("\n    server {\n        listen 443 ssl;\n        http2  on;\n        server_name ");
    reveal_strlit(";\n\n        ssl_certificate     \"");
    reveal_strlit("server_name ");
    reveal_strlit(";");
    lemma_standard_parts(d, cert_dir);
    let o = SERVER_OPEN@;
    let a = SERVER_AFTER_NAME@;
    assert(o.subrange(o.len() - 12, o.len() as int) =~= "server_name "@);
    assert(a.subrange(0, 1) =~= ";"@);
    let rest = domain_section(d, cert_dir).subrange(
        (o + d.domain@ + a).len() as int,
        domain_section(d, cert_dir).len() as int,
    );
    assert(domain_section(d, cert_dir) =~= o + d.domain@ + a + rest);
    lemma_contains_framed(o, d.domain@, a, rest, "server_name "@, ";"@);
}

/// The standard server of a domain uses the domain's certificate and key
/// files in the certificate directory.
pub proof fn law_standard_server_cert_files(d: DomainConfig, cert_dir: Seq<char>)
    requires
        !is_full_server(trim(advanced_text(d.advanced_config))),
    ensures
        crate::text::contains(
            domain_section(d, cert_dir),
            "ssl_certificate     \""@ + forward_slashes(cert_dir) + "/"@ + d.domain@ + ".crt\";"@,
        ),
        crate::text::contains(
            domain_section(d, cert_dir),
            "ssl_certificate_key \""@ + forward_slashes(cert_dir) + "/"@ + d.domain@ + ".key\";"@,
        ),
{
    reveal_strlit(";\n\n        ssl_certificate     \"");
    reveal_strlit("\";\n        ssl_certificate_key \"");
    reveal_strlit("\";\n        ssl_protocols       TLSv1.2 TLSv1.3;\n        ssl_ciphers         HIGH:!aNULL:!MD5;\n        ssl_session_cache   shared:SSL:1m;\n\n        # WebSocket support\n        proxy_http_version 1.1;\n        proxy_set_header   Upgrade    $http_upgrade;\n        proxy_set_header   Connection \"upgrade\";\n        proxy_set_header   Host       $host;\n        proxy_set_header   X-Real-IP  $remote_addr;\n        proxy_read_timeout 300s;\n        proxy_send_timeout 300s;\n");
    reveal_strlit("ssl_certificate     \"");
    reveal_strlit("ssl_certificate_key \"");
    reveal_strlit("\";");
    reveal_strlit(".crt");
    reveal_strlit(".key");
    reveal_strlit(".crt\";");
    reveal_strlit(".key\";");
    lemma_standard_parts(d, cert_dir);
    let sec = domain_section(d, cert_dir);
    let fs = forward_slashes(cert_dir);
    let cert = cert_file(cert_dir, d.domain@);
    let key = key_file(cert_dir, d.domain@);
    let an = SERVER_AFTER_NAME@;
    let ac = SERVER_AFTER_CERT@;
    let ak = SERVER_AFTER_KEY@;
    let o1 = SERVER_OPEN@ + d.domain@ + an;
    assert(an.subrange(an.len() - 21, an.len() as int) =~= "ssl_certificate     \""@);
    assert(o1.subrange(o1.len() - 21, o1.len() as int) =~= "ssl_certificate     \""@);
    assert(ac.subrange(0, 2) =~= "\";"@);
    let rest1 = sec.subrange((o1 + cert + ac).len() as int, sec.len() as int);
    assert(sec =~= o1 + cert + ac + rest1);
    lemma_contains_framed(o1, cert, ac, rest1, "ssl_certificate     \""@, "\";"@);
    assert("ssl_certificate     \""@ + cert + "\";"@ =~= "ssl_certificate     \""@ + fs + "/"@
        + d.domain@ + ".crt\";"@);
    let o2 = o1 + cert + ac;
    assert(ac.subrange(ac.len() - 21, ac.len() as int) =~= "ssl_certificate_key \""@);
    assert(o2.subrange(o2.len() - 21, o2.len() as int) =~= "ssl_certificate_key \""@);
    assert(ak.subrange(0, 2) =~= "\";"@);
    let rest2 = sec.subrange((o2 + key + ak).len() as int, sec.len() as int);
    assert(sec =~= o2 + key + ak + rest2);
    lemma_contains_framed(o2, key, ak, rest2, "ssl_certificate_key \""@, "\";"@);
    assert("ssl_certificate_key \""@ + key + "\";"@ =~= "ssl_certificate_key \""@ + fs + "/"@
        + d.domain@ + ".key\";"@);
}

/// The standard server of a domain proxies to the domain's upstream and
/// holds the domain's advanced config.
pub proof fn law_standard_server_upstream(d: DomainConfig, cert_dir: Seq<char>)
    requires
        !is_full_server(trim(advanced_text(d.advanced_config))),
    ensures
        crate::text::contains(domain_section(d, cert_dir), "proxy_pass "@ + d.upstream@ + ";"@),
        crate::text::contains(domain_section(d, cert_dir), advanced_text(d.advanced_config)),
{
    reveal_strlit("\n\n        location / {\n            proxy_pass ");
    reveal_strlit(";\n        }\n    }\n");
    reveal_strlit("proxy_pass ");
    reveal_strlit(";");
    lemma_standard_parts(d, cert_dir);
    let sec = domain_section(d, cert_dir);
    let aa = SERVER_AFTER_ADVANCED@;
    let cl = SERVER_CLOSE@;
    let raw = advanced_text(d.advanced_config);
    let o = sec.subrange(0, sec.len() - cl.len() - d.upstream@.len());
    assert(sec =~= o + d.upstream@ + cl + Seq::<char>::empty());
    assert(aa.subrange(aa.len() - 11, aa.len() as int) =~= "proxy_pass "@);
    assert(o.subrange(o.len() - 11, o.len() as int) =~= "proxy_pass "@);
    assert(cl.subrange(0, 1) =~= ";"@);
    lemma_contains_framed(o, d.upstream@, cl, Seq::<char>::empty(), "proxy_pass "@, ";"@);
    let pre = sec.subrange(0, sec.len() - cl.len() - d.upstream@.len() - aa.len() - raw.len());
    assert(sec =~= pre + raw + (aa + d.upstream@ + cl));
    lemma_contains_mid(pre, raw, aa + d.upstream@ + cl);
}

/// Where the CORS block allows every origin.
proof fn lemma_cors_allow_origin()
    ensures
        CORS_BLOCK@.len() >= 85,
        CORS_BLOCK@.subrange(32, 85) == "add_header 'Access-Control-Allow-Origin'  '*' always;"@,
{
    reveal_strlit("\n        # CORS headers\n        add_header 'Access-Control-Allow-Origin'  '*' always;\n        add_header 'Access-Control-Allow-Methods' 'GET, POST, PUT, DELETE, PATCH, OPTIONS' always;\n        add_header 'Access-Control-Allow-Headers' 'Authorization, Content-Type, Accept, X-Requested-With' always;\n        add_header 'Access-Control-Max-Age'       86400 always;\n\n        if ($request_method = 'OPTIONS') {\n            add_header 'Access-Control-Allow-Origin'  '*';\n            add_header 'Access-Control-Allow-Methods' 'GET, POST, PUT, DELETE, PATCH, OPTIONS';\n            add_header 'Access-Control-Allow-Headers' 'Authorization, Content-Type, Accept, X-Requested-With';\n            add_header 'Content-Length' 0;\n            return 204;\n        }");
    reveal_strlit("add_header 'Access-Control-Allow-Origin'  '*' always;");
    assert(CORS_BLOCK@.subrange(32, 85) =~= "add_header 'Access-Control-Allow-Origin'  '*' always;"@);
}

/// The standard server of a domain with CORS on sends the CORS headers.
pub proof fn law_standard_server_cors(d: DomainConfig, cert_dir: Seq<char>)
    requires
        !is_full_server(trim(advanced_text(d.advanced_config))),
        d.cors_enabled,
    ensures
        crate::text::contains(
            domain_section(d, cert_dir),
            "add_header 'Access-Control-Allow-Origin'  '*' always;"@,
        ),
{
    lemma_standard_parts(d, cert_dir);
    lemma_cors_allow_origin();
    let sec = domain_section(d, cert_dir);
    let cb = CORS_BLOCK@;
    let hdr = "add_header 'Access-Control-Allow-Origin'  '*' always;"@;
    let pre = SERVER_OPEN@ + d.domain@ + SERVER_AFTER_NAME@ + cert_file(cert_dir, d.domain@)
        + SERVER_AFTER_CERT@ + key_file(cert_dir, d.domain@) + SERVER_AFTER_KEY@;
    let post = sec.subrange((pre + cb).len() as int, sec.len() as int);
    assert(sec =~= pre + cb + post);
    assert(cb =~= cb.subrange(0, 32) + hdr + cb.subrange(85, cb.len() as int));
    assert(sec =~= (pre + cb.subrange(0, 32)) + hdr + (cb.subrange(85, cb.len() as int) + post));
    lemma_contains_mid(pre + cb.subrange(0, 32), hdr, cb.subrange(85, cb.len() as int) + post);
}
} // verus!
