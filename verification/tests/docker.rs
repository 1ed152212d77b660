use hyperhost::docker::{
    check_compose_save, compose_down, compose_logs, compose_outcome, compose_ps_chunks,
    compose_restart, compose_up, docker_status, find_compose_names, format_publishers,
    is_safe_compose_filename, matches_compose_pattern, parse_one_service, services_from_records,
    ComposeContext, PublishedPort, ServiceRecord, parse_compose_ps,
};

fn ctx(has: bool, exists: bool) -> ComposeContext {
    ComposeContext { project_display: "/p".to_string(), has_compose_files: has, file_exists: exists }
}

#[test]
fn compose_name_patterns() {
    assert!(matches_compose_pattern("docker-compose.yml"));
    assert!(matches_compose_pattern("Compose.YAML"));
    assert!(matches_compose_pattern("docker-compose.prod.yml"));
    assert!(matches_compose_pattern("compose.override.yaml"));
    assert!(!matches_compose_pattern("my-compose.yml"));
    assert!(!matches_compose_pattern("compose.json"));
    assert!(!matches_compose_pattern("composer.yml"));
}

#[test]
fn safe_compose_names() {
    assert!(is_safe_compose_filename("docker-compose.yml"));
    assert!(is_safe_compose_filename("x.YML"));
    assert!(is_safe_compose_filename("a_b-c.yaml"));
    assert!(!is_safe_compose_filename(""));
    assert!(!is_safe_compose_filename("../x.yml"));
    assert!(!is_safe_compose_filename("a/b.yml"));
    assert!(!is_safe_compose_filename("a\\b.yml"));
    assert!(!is_safe_compose_filename("a b.yml"));
    assert!(!is_safe_compose_filename("x.txt"));
    assert!(!is_safe_compose_filename("é.yml"));
    let long = format!("{}.yml", "a".repeat(77));
    assert!(!is_safe_compose_filename(&long));
    let fits = format!("{}.yml", "a".repeat(76));
    assert!(is_safe_compose_filename(&fits));
}

#[test]
fn compose_files_filtered_and_sorted() {
    let names: Vec<String> = ["b.txt", "docker-compose.yml", "compose.yml", "Compose.prod.yaml"]
        .iter()
        .map(|s| s.to_string())
        .collect();
    let r = find_compose_names(&names);
    assert_eq!(r, vec!["Compose.prod.yaml", "compose.yml", "docker-compose.yml"]);
}

#[test]
fn compose_commands() {
    assert_eq!(compose_up(&ctx(false, false), None), Err("Không tìm thấy file compose trong /p".to_string()));
    assert_eq!(compose_up(&ctx(true, true), Some("bad/x.yml")), Err("Tên file compose không hợp lệ".to_string()));
    assert_eq!(compose_up(&ctx(true, false), Some("x.yml")), Err("File compose không tồn tại: x.yml".to_string()));
    assert_eq!(compose_up(&ctx(true, true), Some("x.yml")).unwrap(), vec!["compose", "-f", "x.yml", "up", "-d"]);
    assert_eq!(compose_down(&ctx(true, false), None).unwrap(), vec!["compose", "down"]);
    assert_eq!(compose_restart(&ctx(true, false), None).unwrap(), vec!["compose", "restart"]);
    assert_eq!(compose_logs(&ctx(true, false), None, 50).unwrap(), vec!["compose", "logs", "--tail", "50", "--no-color"]);
}

#[test]
fn compose_outcomes() {
    assert_eq!(compose_outcome(true, "out", ""), Ok("out".to_string()));
    assert_eq!(compose_outcome(true, "", "err"), Ok("err".to_string()));
    assert_eq!(compose_outcome(true, "a", "b"), Ok("a\nb".to_string()));
    assert_eq!(compose_outcome(false, "a\n", "err\n"), Err("a\n\nerr".to_string()));
}

#[test]
fn docker_status_values() {
    let s = docker_status(false, Some("27.0.1"), true);
    assert!(!s.installed && s.version.is_none() && !s.daemon_running);
    let s = docker_status(true, Some(" 27.0.1\n"), false);
    assert!(s.installed && !s.daemon_running);
    assert_eq!(s.version.as_deref(), Some("27.0.1"));
}

#[test]
fn compose_save_checks() {
    assert_eq!(check_compose_save(false, "/p", "x.yml"), Err("Thư mục dự án không tồn tại: /p".to_string()));
    assert_eq!(
        check_compose_save(true, "/p", "x.txt"),
        Err("Tên file không hợp lệ. Phải kết thúc bằng .yml/.yaml và chỉ dùng chữ/số/dấu chấm/gạch.".to_string())
    );
    assert_eq!(check_compose_save(true, "/p", "x.yml"), Ok(()));
}

#[test]
fn ps_framing() {
    let (arr, chunks) = compose_ps_chunks("  [{\"Name\":\"a\"}]\n");
    assert!(arr);
    assert_eq!(chunks, vec!["[{\"Name\":\"a\"}]"]);
    let (arr, chunks) = compose_ps_chunks("{\"a\":1}\n\n  {\"b\":2}  \n");
    assert!(!arr);
    assert_eq!(chunks, vec!["{\"a\":1}", "{\"b\":2}"]);
    let (arr, chunks) = compose_ps_chunks("   \n");
    assert!(!arr && chunks.is_empty());
}

fn record(service: Option<&str>, name: Option<&str>, ports: Option<&str>, publishers: Option<Vec<PublishedPort>>) -> ServiceRecord {
    ServiceRecord {
        service: service.map(|s| s.to_string()),
        name: name.map(|s| s.to_string()),
        image: Some("nginx:latest".to_string()),
        state: Some("running".to_string()),
        status: None,
        ports: ports.map(|s| s.to_string()),
        publishers,
    }
}

#[test]
fn publishers_and_services() {
    let pubs = vec![
        PublishedPort { published: Some(8080), target: Some(80) },
        PublishedPort { published: Some(0), target: Some(443) },
        PublishedPort { published: None, target: None },
        PublishedPort { published: Some(5432), target: Some(5432) },
    ];
    assert_eq!(format_publishers(&Some(pubs.clone())), "8080->80, 443, 5432->5432");
    assert_eq!(format_publishers(&None), "");
    assert_eq!(format_publishers(&Some(vec![])), "");
    let s = parse_one_service(&record(Some(""), Some("web-1"), Some("0.0.0.0:80->80/tcp"), Some(vec![]))).unwrap();
    assert_eq!(s.name, "web-1");
    assert_eq!(s.ports, "0.0.0.0:80->80/tcp");
    assert_eq!(s.image, "nginx:latest");
    assert_eq!(s.status, "");
    let s = parse_one_service(&record(Some("web"), Some("web-1"), Some("x"), Some(pubs))).unwrap();
    assert_eq!(s.name, "web");
    assert_eq!(s.ports, "8080->80, 443, 5432->5432");
    assert!(parse_one_service(&record(None, Some(""), None, None)).is_none());
    let all = services_from_records(&vec![record(None, None, None, None), record(Some("db"), None, None, None)]);
    assert_eq!(all.len(), 1);
    assert_eq!(all[0].name, "db");
}

#[test]
fn compose_ps_json_in_both_formats() {
    let array = r#"[{"Service":"web","Name":"p-web-1","Image":"nginx","State":"running","Status":"Up","Ports":"","Publishers":[{"PublishedPort":8080,"TargetPort":80}]},{"Name":"","Service":""}]"#;
    let s = parse_compose_ps(array);
    assert_eq!(s.len(), 1);
    assert_eq!(s[0].name, "web");
    assert_eq!(s[0].image, "nginx");
    assert_eq!(s[0].ports, "8080->80");
    let lines = "{\"Name\":\"a-1\",\"State\":\"exited\"}\nnot json\n{\"Service\":\"b\"}\n";
    let s = parse_compose_ps(lines);
    assert_eq!(s.len(), 2);
    assert_eq!(s[0].name, "a-1");
    assert_eq!(s[0].state, "exited");
    assert_eq!(s[1].name, "b");
    assert!(parse_compose_ps("").is_empty());
}
