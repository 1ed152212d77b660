use hyperhost::db::DomainConfig;
use hyperhost::domains::{
    autostart_command, both_issuers_failed_error, cert_file_names, check_named_tunnel,
    check_new_domain, domain_status, domain_url, existing_cors, export_record, hosts_file_has,
    import_accepts, import_record, last_lines, leaf_subject_names, mkcert_missing_error,
    new_domain_config, normalize_domain, prepare_domain, scan_depth, setting_on, setting_text,
};
use hyperhost::expiry::{
    cert_due_before, cert_valid_at, cert_valid_now, expiry_after_validity, new_cert_expiry,
    renewal_due_now, renewal_threshold, CERT_VALIDITY_DAYS,
};

fn cfg(domain: &str, cors: bool) -> DomainConfig {
    DomainConfig {
        id: Some(7),
        domain: domain.to_string(),
        upstream: "http://127.0.0.1:3000".to_string(),
        enabled: true,
        cors_enabled: cors,
        cert_expiry: Some("2030-01-01T00:00:00+00:00".to_string()),
        created_at: Some("2024-01-01 00:00:00".to_string()),
        advanced_config: None,
        project_path: Some("/p".to_string()),
        run_command: None,
    }
}

#[test]
fn domain_normalisation() {
    assert_eq!(normalize_domain("  myapp "), "myapp.test");
    assert_eq!(normalize_domain("api.local"), "api.local");
    assert_eq!(normalize_domain("x.test\n"), "x.test");
    assert_eq!(normalize_domain("shop.dev"), "shop.dev.test");
    assert_eq!(normalize_domain(normalize_domain("  myapp ").as_str()), "myapp.test");
    assert_eq!(prepare_domain("x", "ftp://h"), Err("Upstream must start with http:// or https://".to_string()));
    assert_eq!(prepare_domain(" x ", "https://h"), Ok("x.test".to_string()));
}

#[test]
fn strict_domain_checks() {
    assert_eq!(check_new_domain("a.test", "http://127.0.0.1:1"), Ok(()));
    assert_eq!(check_new_domain("a.com", "http://x"), Err("Domain must end with .test or .local".to_string()));
    assert_eq!(check_new_domain("a.local", "x"), Err("Upstream must start with http:// or https://".to_string()));
    assert!(import_accepts(&cfg("a.test", false)));
    assert!(!import_accepts(&cfg("a.com", false)));
    assert_eq!(check_named_tunnel(" ", "h", "http://x"), Err("Tunnel name cannot be empty".to_string()));
    assert_eq!(check_named_tunnel("t", "\t", "http://x"), Err("Hostname cannot be empty".to_string()));
    assert_eq!(check_named_tunnel("t", "h", "x"), Err("Upstream must start with http:// or https://".to_string()));
    assert_eq!(check_named_tunnel("t", "h", "https://x"), Ok(()));
}

#[test]
fn names_and_messages() {
    assert_eq!(cert_file_names("a.test"), ("a.test.crt".to_string(), "a.test.key".to_string()));
    assert_eq!(leaf_subject_names("a.test"), vec!["a.test".to_string(), "*.a.test".to_string()]);
    assert_eq!(domain_url("a.test"), "https://a.test");
    assert_eq!(mkcert_missing_error("boom"), "rcgen failed (boom) and mkcert binary not found");
    assert_eq!(both_issuers_failed_error("a", "b"), "Both rcgen and mkcert failed. rcgen: a. mkcert: b");
    assert_eq!(autostart_command("C:\\hh.exe", true), "\"C:\\hh.exe\" --minimized");
    assert_eq!(autostart_command("/bin/hh", false), "\"/bin/hh\"");
    assert_eq!(scan_depth(None), 3);
    assert_eq!(scan_depth(Some(10)), 6);
    assert_eq!(scan_depth(Some(2)), 2);
    assert!(setting_on(Some("true")));
    assert!(!setting_on(Some("TRUE")));
    assert!(!setting_on(None));
    assert_eq!(setting_text(true), "true");
}

#[test]
fn records() {
    let list = vec![cfg("a.test", false), cfg("b.test", true), cfg("b.test", false)];
    assert!(existing_cors(&list, "b.test"));
    assert!(!existing_cors(&list, "c.test"));
    let n = new_domain_config("n.test".into(), "http://x".into(), true, None, None, None, Some("npm run dev".into()));
    assert!(n.enabled && n.cors_enabled && n.id.is_none() && n.created_at.is_none());
    let e = export_record(cfg("a.test", true));
    assert!(e.id.is_none() && e.created_at.is_none() && e.cert_expiry.is_none());
    assert_eq!(e.project_path.as_deref(), Some("/p"));
    let i = import_record(e, Some("2031-01-01T00:00:00+00:00".into()));
    assert_eq!(i.cert_expiry.as_deref(), Some("2031-01-01T00:00:00+00:00"));
    assert!(i.cors_enabled);
    let s = domain_status(cfg("a.test", false), true);
    assert!(s.cert_valid);
    assert_eq!(s.cert_expiry.as_deref(), Some("2030-01-01T00:00:00+00:00"));
}

#[test]
fn hosts_lookup_and_tails() {
    let hosts = "127.0.0.1 localhost\n127.0.0.1\tapp.test www.app.test\n# 127.0.0.1 old.test\n   #127.0.0.1 older.test\n";
    assert!(hosts_file_has(hosts, "app.test"));
    assert!(hosts_file_has(hosts, "www.app.test"));
    assert!(!hosts_file_has(hosts, "old.test"));
    assert!(!hosts_file_has(hosts, "older.test"));
    assert!(!hosts_file_has(hosts, "app"));
    assert_eq!(last_lines("a\nb\nc\n", 2), vec!["b", "c"]);
    assert_eq!(last_lines("a\nb", 5), vec!["a", "b"]);
    assert!(last_lines("a\nb", 0).is_empty());
}

#[test]
fn certificate_expiry() {
    let now = (1_700_000_000i64, 0u32);
    assert!(cert_valid_at(&Some("2030-01-01T00:00:00+00:00".into()), now));
    assert!(!cert_valid_at(&Some("2020-01-01T00:00:00Z".into()), now));
    assert!(!cert_valid_at(&Some("not a date".into()), now));
    assert!(!cert_valid_at(&None, now));
    let t = renewal_threshold(now);
    assert_eq!(t, (1_700_000_000 + 30 * 86400, 0));
    assert!(cert_due_before(&None, t));
    assert!(cert_due_before(&Some("garbage".into()), t));
    assert!(cert_due_before(&Some("2023-11-20T00:00:00Z".into()), t));
    assert!(!cert_due_before(&Some("2030-01-01T00:00:00Z".into()), t));
    assert_eq!(expiry_after_validity((0, 0)).as_deref(), Some("1971-01-01T00:00:00+00:00"));
    assert_eq!(CERT_VALIDITY_DAYS, 365);
    assert!(!cert_valid_now(&None));
    assert!(cert_valid_now(&Some("2999-01-01T00:00:00Z".into())));
    assert!(renewal_due_now(&Some("2000-01-01T00:00:00Z".into())));
    assert!(!renewal_due_now(&Some("2999-01-01T00:00:00Z".into())));
    let fresh = new_cert_expiry().unwrap();
    assert!(cert_valid_now(&Some(fresh.clone())));
    assert!(!renewal_due_now(&Some(fresh)));
}

#[test]
fn clock_reading() {
    let now = hyperhost::expiry::clock_now().unwrap();
    assert!(now.0 > 1_600_000_000 && now.1 < 1_000_000_000);
}

#[test]
fn clock_helpers() {
    use_clock_helpers();
}

fn use_clock_helpers() {
    assert_eq!(hyperhost::expiry::instant_of(Some((5, 7))), Some((5, 7)));
    assert_eq!(hyperhost::expiry::instant_of(Some((10_000_000_000_000, 0))), None);
    assert_eq!(hyperhost::expiry::instant_of(None), None);
    let far = Some("2999-01-01T00:00:00Z".to_string());
    assert!(hyperhost::expiry::cert_valid_on(&far, Some((1_700_000_000, 0))));
    assert!(!hyperhost::expiry::cert_valid_on(&far, None));
    assert!(hyperhost::expiry::renewal_due_at(&far, None));
    assert!(!hyperhost::expiry::renewal_due_at(&far, Some((1_700_000_000, 0))));
    assert!(hyperhost::expiry::renewal_due_at(&Some("2023-11-20T00:00:00Z".into()), Some((1_700_000_000, 0))));
    assert_eq!(hyperhost::expiry::expiry_on(None), None);
    assert_eq!(hyperhost::expiry::expiry_on(Some((0, 0))).as_deref(), Some("1971-01-01T00:00:00+00:00"));
}

#[test]
fn import_takes_local_http_records() {
    let mk = |d: &str, u: &str| DomainConfig {
        id: Some(3),
        domain: d.to_string(),
        upstream: u.to_string(),
        enabled: true,
        cors_enabled: false,
        cert_expiry: None,
        created_at: None,
        advanced_config: None,
        project_path: None,
        run_command: None,
    };
    let taken = hyperhost::domains::importable(vec![
        mk("a.test", "http://x"),
        mk("b.com", "http://x"),
        mk("c.local", "ftp://x"),
        mk("d.local", "https://y"),
    ]);
    let names: Vec<String> = taken.iter().map(|d| d.domain.clone()).collect();
    assert_eq!(names, vec!["a.test".to_string(), "d.local".to_string()]);
}
