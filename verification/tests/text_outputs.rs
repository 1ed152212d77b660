use hyperhost::db::DomainConfig;
use hyperhost::dns::hosts::{removed_hosts_content, strip_managed_block, synced_hosts_content};
use hyperhost::nginx::config::generate;
use hyperhost::nginx::import::{clean_validation_stderr, convert_dev_to_prod, project_dev_config, validation_config};
use hyperhost::skill::{skill_content_raw, strip_frontmatter, upsert_marked_section};

#[test]
fn hosts_block_is_replaced() {
    let before = "127.0.0.1 localhost\n# ── DevHost BEGIN ──\n127.0.0.1\told.test\n# ── DevHost END ──\n";
    let domains = vec!["app.test".to_string(), "api.dev.test".to_string()];
    let synced = synced_hosts_content(before, &domains);
    assert_eq!(
        synced,
        "127.0.0.1 localhost\n# ── HyperHost BEGIN ──\n127.0.0.1\tapp.test\n127.0.0.1\twww.app.test\n127.0.0.1\tapi.dev.test\n# ── HyperHost END ──\n"
    );
    assert_eq!(strip_managed_block(&synced), "127.0.0.1 localhost\n");
    assert_eq!(removed_hosts_content(&synced), "127.0.0.1 localhost");
    assert_eq!(removed_hosts_content(&synced), removed_hosts_content(before));
    assert_eq!(synced_hosts_content(&synced, &domains), synced);
}

#[test]
fn skill_sections() {
    let body = strip_frontmatter(skill_content_raw());
    assert!(body.starts_with("# HyperHost"));
    assert_eq!(strip_frontmatter("no front matter"), "no front matter");
    let once = upsert_marked_section("# Notes\n", &body);
    let twice = upsert_marked_section(&once, &body);
    assert_eq!(once, twice);
    assert!(once.starts_with("# Notes\n\n<!-- HyperHost BEGIN -->\n"));
    assert!(once.ends_with("<!-- HyperHost END -->\n"));
    assert_eq!(upsert_marked_section("", "x"), "<!-- HyperHost BEGIN -->\nx\n<!-- HyperHost END -->\n");
}

fn domain(name: &str, enabled: bool, cors: bool, adv: Option<&str>) -> DomainConfig {
    DomainConfig {
        id: None,
        domain: name.to_string(),
        upstream: "http://127.0.0.1:3000".to_string(),
        enabled,
        cors_enabled: cors,
        cert_expiry: None,
        created_at: None,
        advanced_config: adv.map(|s| s.to_string()),
        project_path: None,
        run_command: None,
    }
}

#[test]
fn nginx_conf_sections() {
    let conf = generate(
        &[
            domain("on.test", true, true, None),
            domain("off.test", false, false, None),
            domain("raw.test", true, false, Some("server {\n  server_name $DOMAIN;\n  ssl_certificate $CERT_PATH;\n  proxy_pass $UPSTREAM;\n}")),
        ],
        "C:\\hh\\certs",
        "C:\\hh\\nginx",
    );
    assert!(conf.starts_with("worker_processes 1;\nerror_log  \"C:/hh/nginx/logs/error.log\" warn;"));
    assert!(conf.contains("server_name on.test;"));
    assert!(conf.contains("ssl_certificate     \"C:/hh/certs/on.test.crt\";"));
    assert!(conf.contains("# CORS headers"));
    assert!(!conf.contains("off.test"));
    assert!(conf.contains("server_name raw.test;\n  ssl_certificate C:/hh/certs/raw.test.crt;\n  proxy_pass http://127.0.0.1:3000;"));
    assert!(conf.ends_with("}\n"));
}

#[test]
fn dev_to_prod_and_validation_messages() {
    let dev = "server {\n    listen 443 ssl;\n    server_name $DOMAIN;\n    location / {\n        proxy_pass $UPSTREAM;\n    }\n}\n";
    let prod = convert_dev_to_prod(dev, "example.com", "http://10.0.0.2:8080");
    assert!(prod.contains("example.com"));
    assert!(prod.contains("http://10.0.0.2:8080"));
    assert!(!prod.contains("$DOMAIN"));
    let cleaned = clean_validation_stderr("nginx: [emerg] x in /tmp/v.conf:3\n", "/tmp/v.conf");
    assert_eq!(cleaned, "nginx: [emerg] x in <config>:3");
}

#[test]
fn project_dev_config_wraps_snippets() {
    let whole = "  server {\n    listen 80;\n}\n";
    assert_eq!(project_dev_config(Some(whole)), whole);
    assert_eq!(
        project_dev_config(Some("gzip on;")),
        "server {\n    listen 443 ssl;\n    http2 on;\n    server_name $DOMAIN;\n\ngzip on;\n\n    location / {\n        proxy_pass $UPSTREAM;\n    }\n}\n"
    );
    assert_eq!(
        project_dev_config(None),
        "server {\n    listen 443 ssl;\n    http2 on;\n    server_name $DOMAIN;\n\n\n\n    location / {\n        proxy_pass $UPSTREAM;\n    }\n}\n"
    );
}

#[test]
fn validation_harness_config() {
    let snippet = "listen 443 ssl;\nssl_certificate /x.pem;\nserver_name $DOMAIN;";
    let conf = validation_config(snippet, "C:\\t\\nginx.pid", "/t/logs/error.log", "/t/temp");
    assert_eq!(
        conf,
        "worker_processes 1;\npid \"C:/t/nginx.pid\";\nerror_log \"/t/logs/error.log\" info;\nevents { worker_connections 64; }\nhttp {\n    default_type application/octet-stream;\n    client_body_temp_path \"/t/temp/client\";\n    proxy_temp_path \"/t/temp/proxy\";\n    fastcgi_temp_path \"/t/temp/fastcgi\";\n    uwsgi_temp_path \"/t/temp/uwsgi\";\n    scgi_temp_path \"/t/temp/scgi\";\n    listen 18080;\n    server_name hyperhost-validate.test;\n}\n"
    );
}

#[test]
fn disabled_domain_leaves_config_unchanged() {
    let with_off = generate(
        &[domain("a.test", true, false, None), domain("off.test", false, true, None), domain("b.test", true, true, None)],
        "/c",
        "/n",
    );
    let without = generate(&[domain("a.test", true, false, None), domain("b.test", true, true, None)], "/c", "/n");
    assert_eq!(with_off, without);
    let a = with_off.find("server_name a.test;").unwrap();
    let b = with_off.find("server_name b.test;").unwrap();
    assert!(a < b);
}

#[test]
fn crlf_hosts_file_keeps_its_outside_lines() {
    let before = "127.0.0.1 localhost\r\n# comment\r\n";
    let domains = vec!["a.test".to_string()];
    let synced = synced_hosts_content(before, &domains);
    assert_eq!(removed_hosts_content(&synced), removed_hosts_content(before));
    assert_eq!(removed_hosts_content(before), "127.0.0.1 localhost\n# comment");
}

#[test]
fn production_config_has_no_tls_lines() {
    let dev = "server {\n    listen 443 ssl;\n    http2 on;\n    ssl_certificate $CERT_PATH;\n    ssl_certificate_key $KEY_PATH;\n    ssl_protocols TLSv1.2;\n    include /etc/letsencrypt/options.conf;\n    server_name $DOMAIN;\n    location / { proxy_pass $UPSTREAM; }\n}\n";
    let prod = convert_dev_to_prod(dev, "example.com", "http://10.0.0.2:8080");
    for line in prod.lines() {
        let t = line.trim();
        assert!(!t.starts_with("ssl_") && !t.starts_with("listen 443") && t != "http2 on;");
        assert!(!(t.starts_with("include") && t.contains("letsencrypt")));
    }
    assert!(prod.contains("server_name example.com;"));
}
