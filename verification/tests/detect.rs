use hyperhost::detect::ports::{
    guess_framework, parse_lsof_output, parse_netstat_output, parse_tasklist_output,
    probed_listening_ports, windows_listening_ports, is_loopback_or_any, parse_lsof_name,
    parse_trailing_port, sort_by_port, ListeningPort, COMMON_PORTS,
};
use hyperhost::detect::projects::{
    detect_kind, detect_node_flavor, is_skipped_dir, scan_projects, slugify, suggested_command,
    DirNode, DirTree, ProjectFiles, MAX_RESULTS,
};
use hyperhost::detect::templates::all;

fn chars(s: &str) -> Vec<char> {
    s.chars().collect()
}

#[test]
fn guess_framework_known_and_unknown_ports() {
    assert_eq!(guess_framework(3000), Some("Next.js / Node / Rails"));
    assert_eq!(guess_framework(5174), Some("Vite / SvelteKit"));
    assert_eq!(guess_framework(11434), Some("Ollama"));
    assert_eq!(guess_framework(8090), Some("dev server"));
    assert_eq!(guess_framework(1), None);
    assert_eq!(guess_framework(65535), None);
}

#[test]
fn common_ports_and_their_guesses() {
    assert_eq!(COMMON_PORTS.len(), 38);
    let unguessed: Vec<u16> = COMMON_PORTS.iter().copied().filter(|p| guess_framework(*p).is_none()).collect();
    assert_eq!(unguessed, vec![5001]);
}

#[test]
fn trailing_port_and_loopback() {
    assert_eq!(parse_trailing_port(&chars("127.0.0.1:3000")), Some(3000));
    assert_eq!(parse_trailing_port(&chars("[::]:135")), Some(135));
    assert_eq!(parse_trailing_port(&chars("8080")), Some(8080));
    assert_eq!(parse_trailing_port(&chars("x:99999")), None);
    assert!(is_loopback_or_any(&chars("0.0.0.0:80")));
    assert!(is_loopback_or_any(&chars("[::1]:80")));
    assert!(is_loopback_or_any(&chars("*")));
    assert!(!is_loopback_or_any(&chars("192.168.1.5:139")));
}

#[test]
fn lsof_names() {
    assert_eq!(parse_lsof_name(&chars("127.0.0.1:3000")), Some(3000));
    assert_eq!(parse_lsof_name(&chars("*:8000")), Some(8000));
    assert_eq!(parse_lsof_name(&chars("localhost:5173")), Some(5173));
    assert_eq!(parse_lsof_name(&chars("[::1]:5173->[::1]:50000")), Some(5173));
    assert_eq!(parse_lsof_name(&chars("10.0.0.5:9000")), None);
    assert_eq!(parse_lsof_name(&chars("nocolon")), None);
}

#[test]
fn lsof_output_deduplicated_and_sorted() {
    let text = "p1234\ncnode\nn127.0.0.1:3000\nn*:3000\np99\ncpython3\nn*:8000\nn10.0.0.5:9000\nn[::1]:5173->[::1]:50000\n";
    let r = parse_lsof_output(text);
    let ports: Vec<u16> = r.iter().map(|p| p.port).collect();
    assert_eq!(ports, vec![3000, 5173, 8000]);
    assert_eq!(r[0].pid, Some(1234));
    assert_eq!(r[0].process.as_deref(), Some("node"));
    assert_eq!(r[1].pid, Some(99));
    assert_eq!(r[1].process.as_deref(), Some("python3"));
    assert_eq!(r[2].process.as_deref(), Some("python3"));
}

#[test]
fn lsof_pid_resets_command() {
    let text = "p1\ncfirst\np2\nn*:4000\n";
    let r = parse_lsof_output(text);
    assert_eq!(r.len(), 1);
    assert_eq!(r[0].pid, Some(2));
    assert_eq!(r[0].process, None);
}

#[test]
fn netstat_and_tasklist() {
    let netstat = "\r\nActive Connections\r\n\r\n  Proto  Local Address          Foreign Address        State           PID\r\n  TCP    0.0.0.0:135            0.0.0.0:0              LISTENING       1048\r\n  TCP    127.0.0.1:3000         0.0.0.0:0              LISTENING       4321\r\n  TCP    192.168.1.5:139        0.0.0.0:0              LISTENING       4\r\n  TCP    [::]:135               [::]:0                 LISTENING       1048\r\n  TCP    127.0.0.1:52000        127.0.0.1:3000         ESTABLISHED     999\r\n";
    let entries = parse_netstat_output(netstat);
    let ports: Vec<(u16, Option<u32>)> = entries.iter().map(|p| (p.port, p.pid)).collect();
    assert_eq!(ports, vec![(135, Some(1048)), (3000, Some(4321))]);
    let tasklist = "\"node.exe\",\"4321\",\"Console\",\"1\",\"50,000 K\"\r\n\"svchost.exe\",\"1048\",\"Services\",\"0\",\"10,000 K\"\r\n";
    let names = parse_tasklist_output(tasklist);
    assert_eq!(names.get(&4321).map(|s| s.as_str()), Some("node"));
    assert_eq!(names.get(&1048).map(|s| s.as_str()), Some("svchost"));
    let r = windows_listening_ports(netstat, tasklist);
    assert_eq!(r.len(), 2);
    assert_eq!((r[0].port, r[0].process.as_deref()), (135, Some("svchost")));
    assert_eq!((r[1].port, r[1].process.as_deref()), (3000, Some("node")));
}

#[test]
fn sort_and_probe() {
    let v = vec![
        ListeningPort { port: 9000, pid: None, process: None },
        ListeningPort { port: 80, pid: Some(1), process: None },
    ];
    let s = sort_by_port(v);
    assert_eq!(s.iter().map(|p| p.port).collect::<Vec<_>>(), vec![80, 9000]);
    let p = probed_listening_ports(&vec![8080, 3000, 5173]);
    assert_eq!(p.iter().map(|p| p.port).collect::<Vec<_>>(), vec![3000, 5173, 8080]);
    assert!(p.iter().all(|x| x.pid.is_none() && x.process.is_none()));
}

fn files() -> ProjectFiles {
    ProjectFiles {
        package_json: None,
        cargo_toml: false,
        manage_py: false,
        artisan: false,
        composer_json: false,
        config_application_rb: false,
        gemfile: false,
        go_mod: false,
        pom_xml: false,
        build_gradle: false,
        build_gradle_kts: false,
        pyproject_toml: None,
        requirements_txt: false,
        mix_exs: false,
        package_swift: false,
    }
}

#[test]
fn node_flavors() {
    assert_eq!(detect_node_flavor(r#"{"dependencies":{"next":"14.0.0"}}"#), ("nextjs", 3000));
    assert_eq!(detect_node_flavor(r#"{"devDependencies":{"vite":"5"}}"#), ("vite", 5173));
    assert_eq!(detect_node_flavor(r#"{"dependencies":{"@sveltejs/kit":"2","vite":"5"}}"#), ("sveltekit", 5173));
    assert_eq!(detect_node_flavor(r#"{"dependencies":{"express":"4"}}"#), ("node-api", 3000));
    assert_eq!(detect_node_flavor(r#"{"dependencies":{"expo":"50"}}"#), ("expo", 19006));
    assert_eq!(detect_node_flavor(r#"{"name":"nextjs-demo"}"#), ("node", 3000));
}

#[test]
fn kinds_from_marker_files() {
    let mut f = files();
    assert_eq!(detect_kind(&f), None);
    f.go_mod = true;
    assert_eq!(detect_kind(&f), Some(("go", 8080)));
    f.cargo_toml = true;
    assert_eq!(detect_kind(&f), Some(("rust", 8080)));
    let mut p = files();
    p.pyproject_toml = Some("[project]\ndependencies = [\"flask\"]\n".to_string());
    assert_eq!(detect_kind(&p), Some(("flask", 5000)));
    p.pyproject_toml = Some("fastapi flask".to_string());
    assert_eq!(detect_kind(&p), Some(("fastapi", 8000)));
    p.pyproject_toml = Some(String::new());
    assert_eq!(detect_kind(&p), Some(("python", 8000)));
    let mut g = files();
    g.gemfile = true;
    assert_eq!(detect_kind(&g), Some(("rails", 3000)));
}

#[test]
fn suggested_commands() {
    let mut f = files();
    f.package_json = Some(r#"{"scripts":{"dev": "vite", "start": "node ."}}"#.to_string());
    assert_eq!(suggested_command("vite", &f, false).as_deref(), Some("npm run dev"));
    f.package_json = Some(r#"{"scripts":{"build":"vite build"}}"#.to_string());
    assert_eq!(suggested_command("vite", &f, false).as_deref(), Some("npm install"));
    f.package_json = Some(r#"{"scripts":{"dev":"vite"}}"#.to_string());
    assert_eq!(suggested_command("vite", &f, false).as_deref(), Some("npm run dev"));
    f.package_json = Some(r#"{"scripts":{"start":"node ."}}"#.to_string());
    assert_eq!(suggested_command("node", &f, false).as_deref(), Some("npm start"));
    let mut j = files();
    j.build_gradle = true;
    assert_eq!(suggested_command("java", &j, true).as_deref(), Some("gradlew.bat bootRun"));
    assert_eq!(suggested_command("java", &j, false).as_deref(), Some("./gradlew bootRun"));
    assert_eq!(suggested_command("java", &files(), false).as_deref(), Some("mvn spring-boot:run"));
    assert_eq!(suggested_command("django", &files(), false).as_deref(), Some("python manage.py runserver"));
    assert_eq!(suggested_command("unknown", &files(), false), None);
}

#[test]
fn slugs() {
    assert_eq!(slugify("My Cool_App!"), "my-cool-app");
    assert_eq!(slugify("---"), "project");
    assert_eq!(slugify(""), "project");
    assert_eq!(slugify("api-v2"), "api-v2");
    assert_eq!(slugify("Ünïcode"), "n-code");
}

#[test]
fn skipped_dirs() {
    assert!(is_skipped_dir("node_modules"));
    assert!(is_skipped_dir(".anything"));
    assert!(is_skipped_dir("target"));
    assert!(!is_skipped_dir("src"));
}

fn node(name: Option<&str>, path: &str, files: ProjectFiles, subdirs: Vec<usize>) -> DirNode {
    DirNode { name: name.map(|s| s.to_string()), path: path.to_string(), files, subdirs }
}

#[test]
fn project_scan_walks_depth_first() {
    let mut pkg = files();
    pkg.package_json = Some("{}".to_string());
    let mut go = files();
    go.go_mod = true;
    let mut rust = files();
    rust.cargo_toml = true;
    let tree = DirTree {
        nodes: vec![
            node(Some("work"), "/work", files(), vec![1, 2, 3, 4, 5, 42]),
            node(Some("App1"), "/work/App1", pkg, vec![]),
            node(Some("node_modules"), "/work/node_modules", rust.clone_files(), vec![]),
            node(Some(".hidden"), "/work/.hidden", rust.clone_files(), vec![]),
            node(Some("svc"), "/work/svc", go, vec![]),
            node(Some("deep"), "/work/deep", files(), vec![6]),
            node(Some("inner"), "/work/deep/inner", rust, vec![]),
        ],
    };
    let shallow = scan_projects(&tree, 1, false);
    let names: Vec<&str> = shallow.iter().map(|p| p.name.as_str()).collect();
    assert_eq!(names, vec!["App1", "svc"]);
    assert_eq!(shallow[0].suggested_domain, "app1.test");
    assert_eq!(shallow[0].kind, "node");
    assert_eq!(shallow[0].suggested_port, 3000);
    assert_eq!(shallow[0].suggested_command.as_deref(), Some("npm install"));
    assert_eq!(shallow[1].path, "/work/svc");
    assert_eq!(shallow[1].suggested_command.as_deref(), Some("go run ."));
    let deep = scan_projects(&tree, 2, false);
    let names: Vec<&str> = deep.iter().map(|p| p.name.as_str()).collect();
    assert_eq!(names, vec!["App1", "svc", "inner"]);
    assert_eq!(deep[2].suggested_command.as_deref(), Some("cargo run"));
    assert!(scan_projects(&DirTree { nodes: vec![] }, 3, false).is_empty());
}

#[test]
fn project_scan_stops_at_the_limit() {
    let mut nodes = vec![node(None, "/", files(), (1..=250).collect())];
    for i in 1..=250usize {
        let mut f = files();
        f.mix_exs = true;
        nodes.push(node(Some(&format!("p{}", i)), &format!("/p{}", i), f, vec![]));
    }
    let r = scan_projects(&DirTree { nodes }, 3, false);
    assert_eq!(r.len(), MAX_RESULTS);
    assert_eq!(r[0].name, "p1");
    assert_eq!(r[199].name, "p200");
    assert_eq!(r[0].kind, "phoenix");
}

#[test]
fn templates_table() {
    let t = all();
    assert_eq!(t.len(), 25);
    assert_eq!(t[0].id, "nextjs");
    assert_eq!(t[0].default_upstream, "http://127.0.0.1:3000");
    assert_eq!(t[24].id, "grafana");
    assert_eq!(t[23].default_upstream, "http://127.0.0.1:11434");
    assert!(t.iter().all(|x| x.advanced_config.is_none()));
}

trait CloneFiles {
    fn clone_files(&self) -> ProjectFiles;
}

impl CloneFiles for ProjectFiles {
    fn clone_files(&self) -> ProjectFiles {
        ProjectFiles {
            package_json: self.package_json.clone(),
            cargo_toml: self.cargo_toml,
            manage_py: self.manage_py,
            artisan: self.artisan,
            composer_json: self.composer_json,
            config_application_rb: self.config_application_rb,
            gemfile: self.gemfile,
            go_mod: self.go_mod,
            pom_xml: self.pom_xml,
            build_gradle: self.build_gradle,
            build_gradle_kts: self.build_gradle_kts,
            pyproject_toml: self.pyproject_toml.clone(),
            requirements_txt: self.requirements_txt,
            mix_exs: self.mix_exs,
            package_swift: self.package_swift,
        }
    }
}

#[test]
fn sort_by_port_is_stable() {
    let e = |port: u16, pid: u32| ListeningPort { port, pid: Some(pid), process: None };
    let s = sort_by_port(vec![e(80, 1), e(22, 2), e(80, 3), e(22, 4), e(443, 5)]);
    let got: Vec<(u16, Option<u32>)> = s.iter().map(|p| (p.port, p.pid)).collect();
    assert_eq!(got, vec![(22, Some(2)), (22, Some(4)), (80, Some(1)), (80, Some(3)), (443, Some(5))]);
}
