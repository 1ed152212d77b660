//! Project detection: which kind of development project a directory holds,
//! the port and command it usually runs with, and the domain suggested for it.
//!
//! The file system is read by the caller into a [`DirTree`]; the rules that
//! decide what is found are here.

use vstd::prelude::*;
use crate::text::{
    ascii_lower, is_ascii_text, chars_of, contains, contains_str, eq_str, is_ascii_alnum, opt_view, push_str, starts_with,
    starts_with_str, string_of, trim_end_char, lowercase, to_lowercase, trim_start_by, trim_end_char_vec, trim_start_str,
    find_from_exec, lemma_find_from_contains, slice,
};

verus! {

/// The most projects a scan reports.
pub const MAX_RESULTS: usize = 200;

/// What a directory holds that project detection looks at. A file that
/// is read is present with its text (empty when it could not be read).
pub struct ProjectFiles {
    pub package_json: Option<String>,
    pub cargo_toml: bool,
    pub manage_py: bool,
    pub artisan: bool,
    pub composer_json: bool,
    pub config_application_rb: bool,
    pub gemfile: bool,
    pub go_mod: bool,
    pub pom_xml: bool,
    pub build_gradle: bool,
    pub build_gradle_kts: bool,
    pub pyproject_toml: Option<String>,
    pub requirements_txt: bool,
    pub mix_exs: bool,
    pub package_swift: bool,
}

/// A project found on disk.
pub struct ProjectInfo {
    pub path: String,
    pub name: String,
    pub kind: String,
    pub suggested_port: u16,
    pub suggested_domain: String,
    pub suggested_command: Option<String>,
}

impl View for ProjectInfo {
    type V = (Seq<char>, Seq<char>, Seq<char>, u16, Seq<char>, Option<Seq<char>>);

    open spec fn view(&self) -> Self::V {
        (
            self.path@,
            self.name@,
            self.kind@,
            self.suggested_port,
            self.suggested_domain@,
            opt_view(self.suggested_command),
        )
    }
}

/// `"key"`: a key as it stands quoted in `package.json`.
pub open spec fn quoted(k: Seq<char>) -> Seq<char> {
    seq!['"'] + k + seq!['"']
}

/// `package.json` mentions `k` as a quoted string.
pub open spec fn has_key(pkg: Seq<char>, k: Seq<char>) -> bool {
    contains(pkg, quoted(k))
}

/// The flavour of a Node project and its usual port, from its `package.json`.
pub open spec fn node_flavor(pkg: Seq<char>) -> (&'static str, u16) {
    if has_key(pkg, "next"@) {
        ("nextjs", 3000)
    } else if has_key(pkg, "nuxt"@) || has_key(pkg, "nuxt3"@) {
        ("nuxt", 3000)
    } else if has_key(pkg, "@angular/core"@) {
        ("angular", 4200)
    } else if has_key(pkg, "astro"@) {
        ("astro", 4321)
    } else if has_key(pkg, "@remix-run/react"@) || has_key(pkg, "@remix-run/node"@) {
        ("remix", 3000)
    } else if has_key(pkg, "@sveltejs/kit"@) {
        ("sveltekit", 5173)
    } else if has_key(pkg, "vite"@) {
        ("vite", 5173)
    } else if has_key(pkg, "react-scripts"@) {
        ("cra", 3000)
    } else if has_key(pkg, "@strapi/strapi"@) || has_key(pkg, "strapi"@) {
        ("strapi", 1337)
    } else if has_key(pkg, "@nestjs/core"@) {
        ("nestjs", 3000)
    } else if has_key(pkg, "express"@) || has_key(pkg, "fastify"@) || has_key(pkg, "koa"@)
        || has_key(pkg, "hono"@) {
        ("node-api", 3000)
    } else if has_key(pkg, "expo"@) {
        ("expo", 19006)
    } else {
        ("node", 3000)
    }
}

/// Whether `pkg` mentions `k` as a quoted string.
fn has_quoted(pkg: &Vec<char>, k: &str) -> (b: bool)
    ensures
        b == has_key(pkg@, k@),
{
    let mut q: Vec<char> = Vec::new();
    q.push('"');
    push_str(&mut q, k);
    q.push('"');
    assert(q@ =~= quoted(k@));
    proof {
        lemma_find_from_contains(pkg@, q@, 0);
    }
    find_from_exec(pkg, &q, 0).is_some()
}

/// The flavour of a Node project and its usual port, from its `package.json`.
pub fn detect_node_flavor(pkg: &str) -> (r: (&'static str, u16))
    ensures
        r == node_flavor(pkg@),
{
    let p = chars_of(pkg);
    if has_quoted(&p, "next") {
        return ("nextjs", 3000);
    }
    if has_quoted(&p, "nuxt") || has_quoted(&p, "nuxt3") {
        return ("nuxt", 3000);
    }
    if has_quoted(&p, "@angular/core") {
        return ("angular", 4200);
    }
    if has_quoted(&p, "astro") {
        return ("astro", 4321);
    }
    if has_quoted(&p, "@remix-run/react") || has_quoted(&p, "@remix-run/node") {
        return ("remix", 3000);
    }
    if has_quoted(&p, "@sveltejs/kit") {
        return ("sveltekit", 5173);
    }
    if has_quoted(&p, "vite") {
        return ("vite", 5173);
    }
    if has_quoted(&p, "react-scripts") {
        return ("cra", 3000);
    }
    if has_quoted(&p, "@strapi/strapi") || has_quoted(&p, "strapi") {
        return ("strapi", 1337);
    }
    if has_quoted(&p, "@nestjs/core") {
        return ("nestjs", 3000);
    }
    if has_quoted(&p, "express") || has_quoted(&p, "fastify") || has_quoted(&p, "koa")
        || has_quoted(&p, "hono") {
        return ("node-api", 3000);
    }
    if has_quoted(&p, "expo") {
        return ("expo", 19006);
    }
    ("node", 3000)
}

/// The kind of project a directory holds and its usual port; marker files
/// are tried in a fixed order and the first present decides.
pub open spec fn kind_of(f: ProjectFiles) -> Option<(&'static str, u16)> {
    match f.package_json {
        Some(pkg) => Some(node_flavor(pkg@)),
        None => if f.cargo_toml {
            Some(("rust", 8080))
        } else if f.manage_py {
            Some(("django", 8000))
        } else if f.artisan {
            Some(("laravel", 8000))
        } else if f.composer_json {
            Some(("php", 8000))
        } else if f.config_application_rb || f.gemfile {
            Some(("rails", 3000))
        } else if f.go_mod {
            Some(("go", 8080))
        } else if f.pom_xml || f.build_gradle || f.build_gradle_kts {
            Some(("java", 8080))
        } else {
            match f.pyproject_toml {
                Some(c) => if contains(c@, "fastapi"@) {
                    Some(("fastapi", 8000))
                } else if contains(c@, "flask"@) {
                    Some(("flask", 5000))
                } else {
                    Some(("python", 8000))
                },
                None => if f.requirements_txt {
                    Some(("python", 8000))
                } else if f.mix_exs {
                    Some(("phoenix", 4000))
                } else if f.package_swift {
                    Some(("swift", 8080))
                } else {
                    None
                },
            }
        },
    }
}

/// The kind of project a directory holds and its usual port.
pub fn detect_kind(f: &ProjectFiles) -> (r: Option<(&'static str, u16)>)
    ensures
        r == kind_of(*f),
{
    if let Some(pkg) = &f.package_json {
        return Some(detect_node_flavor(pkg.as_str()));
    }
    if f.cargo_toml {
        return Some(("rust", 8080));
    }
    if f.manage_py {
        return Some(("django", 8000));
    }
    if f.artisan {
        return Some(("laravel", 8000));
    }
    if f.composer_json {
        return Some(("php", 8000));
    }
    if f.config_application_rb || f.gemfile {
        return Some(("rails", 3000));
    }
    if f.go_mod {
        return Some(("go", 8080));
    }
    if f.pom_xml || f.build_gradle || f.build_gradle_kts {
        return Some(("java", 8080));
    }
    if let Some(content) = &f.pyproject_toml {
        let c = chars_of(content.as_str());
        if contains_str(&c, "fastapi") {
            return Some(("fastapi", 8000));
        }
        if contains_str(&c, "flask") {
            return Some(("flask", 5000));
        }
        return Some(("python", 8000));
    }
    if f.requirements_txt {
        return Some(("python", 8000));
    }
    if f.mix_exs {
        return Some(("phoenix", 4000));
    }
    if f.package_swift {
        return Some(("swift", 8080));
    }
    None
}


/// The kinds that run through `npm`.
pub open spec fn npm_kind(kind: Seq<char>) -> bool {
    ||| kind == "nextjs"@
    ||| kind == "vite"@
    ||| kind == "nuxt"@
    ||| kind == "sveltekit"@
    ||| kind == "angular"@
    ||| kind == "astro"@
    ||| kind == "remix"@
    ||| kind == "cra"@
    ||| kind == "nestjs"@
    ||| kind == "strapi"@
    ||| kind == "expo"@
    ||| kind == "node"@
    ||| kind == "node-api"@
}

/// The command that usually starts a project of `kind`. An npm project
/// runs its `dev` script, else its `start` script, else needs an install
/// first; a Gradle build runs through the wrapper of the platform.
pub open spec fn command_of(kind: Seq<char>, f: ProjectFiles, windows: bool) -> Option<Seq<char>> {
    if npm_kind(kind) {
        let pkg = match f.package_json {
            Some(p) => p@,
            None => Seq::empty(),
        };
        if contains(pkg, "\"dev\":"@) {
            Some("npm run dev"@)
        } else if contains(pkg, "\"start\":"@) {
            Some("npm start"@)
        } else {
            Some("npm install"@)
        }
    } else if kind == "rust"@ {
        Some("cargo run"@)
    } else if kind == "django"@ {
        Some("python manage.py runserver"@)
    } else if kind == "laravel"@ {
        Some("php artisan serve"@)
    } else if kind == "php"@ {
        Some("php -S 127.0.0.1:8000"@)
    } else if kind == "rails"@ {
        Some("bundle exec rails server"@)
    } else if kind == "go"@ {
        Some("go run ."@)
    } else if kind == "phoenix"@ {
        Some("mix phx.server"@)
    } else if kind == "fastapi"@ {
        Some("uvicorn main:app --reload"@)
    } else if kind == "flask"@ {
        Some("flask run"@)
    } else if kind == "python"@ {
        Some("python main.py"@)
    } else if kind == "swift"@ {
        Some("swift run"@)
    } else if kind == "java"@ {
        if f.build_gradle || f.build_gradle_kts {
            if windows {
                Some("gradlew.bat bootRun"@)
            } else {
                Some("./gradlew bootRun"@)
            }
        } else {
            Some("mvn spring-boot:run"@)
        }
    } else {
        None
    }
}

/// Some owned copy of a literal.
fn some_text(s: &str) -> (r: Option<String>)
    ensures
        opt_view(r) == Some(s@),
{
    Some(s.to_owned())
}

/// The command that usually starts a project of `kind`; `windows` tells
/// which Gradle wrapper the platform runs.
pub fn suggested_command(kind: &str, f: &ProjectFiles, windows: bool) -> (r: Option<String>)
    ensures
        opt_view(r) == command_of(kind@, *f, windows),
{
    let k = chars_of(kind);
    let npm = eq_str(&k, "nextjs") || eq_str(&k, "vite") || eq_str(&k, "nuxt") || eq_str(
        &k,
        "sveltekit",
    ) || eq_str(&k, "angular") || eq_str(&k, "astro") || eq_str(&k, "remix") || eq_str(&k, "cra")
        || eq_str(&k, "nestjs") || eq_str(&k, "strapi") || eq_str(&k, "expo") || eq_str(
        &k,
        "node",
    ) || eq_str(&k, "node-api");
    if npm {
        let pkg = match &f.package_json {
            Some(p) => chars_of(p.as_str()),
            None => Vec::new(),
        };
        if contains_str(&pkg, "\"dev\":") {
            some_text("npm run dev")
        } else if contains_str(&pkg, "\"start\":") {
            some_text("npm start")
        } else {
            some_text("npm install")
        }
    } else if eq_str(&k, "rust") {
        some_text("cargo run")
    } else if eq_str(&k, "django") {
        some_text("python manage.py runserver")
    } else if eq_str(&k, "laravel") {
        some_text("php artisan serve")
    } else if eq_str(&k, "php") {
        some_text("php -S 127.0.0.1:8000")
    } else if eq_str(&k, "rails") {
        some_text("bundle exec rails server")
    } else if eq_str(&k, "go") {
        some_text("go run .")
    } else if eq_str(&k, "phoenix") {
        some_text("mix phx.server")
    } else if eq_str(&k, "fastapi") {
        some_text("uvicorn main:app --reload")
    } else if eq_str(&k, "flask") {
        some_text("flask run")
    } else if eq_str(&k, "python") {
        some_text("python main.py")
    } else if eq_str(&k, "swift") {
        some_text("swift run")
    } else if eq_str(&k, "java") {
        if f.build_gradle || f.build_gradle_kts {
            if windows {
                some_text("gradlew.bat bootRun")
            } else {
                some_text("./gradlew bootRun")
            }
        } else {
            some_text("mvn spring-boot:run")
        }
    } else {
        None
    }
}

/// A character kept in a slug: ASCII letters, digits and `'-'`; anything
/// else becomes `'-'`.
pub open spec fn slug_char(c: char) -> char {
    if is_ascii_alnum(c) || c == '-' {
        c
    } else {
        '-'
    }
}

/// The slug of an already lower-cased name: characters mapped by
/// `slug_char`, `'-'` trimmed from both ends, and `"project"` when nothing is left.
pub open spec fn slug_of(lower: Seq<char>) -> Seq<char> {
    let mapped = lower.map_values(|c: char| slug_char(c));
    let t = trim_end_char(trim_start_str(mapped, seq!['-']), '-');
    if t.len() == 0 {
        "project"@
    } else {
        t
    }
}

/// The slug of an already lower-cased name.
pub fn slug_from_lowercase(lower: &Vec<char>) -> (r: Vec<char>)
    ensures
        r@ == slug_of(lower@),
{
    let mut mapped: Vec<char> = Vec::new();
    let mut i: usize = 0;
    while i < lower.len()
        invariant
            i <= lower.len(),
            mapped@ == lower@.subrange(0, i as int).map_values(|c: char| slug_char(c)),
        decreases lower.len() - i,
    {
        let c = lower[i];
        let m = if ('0' <= c && c <= '9') || ('a' <= c && c <= 'z') || ('A' <= c && c <= 'Z')
            || c == '-' {
            c
        } else {
            '-'
        };
        mapped.push(m);
        i = i + 1;
        assert(mapped@ =~= lower@.subrange(0, i as int).map_values(|c: char| slug_char(c)));
    }
    assert(lower@.subrange(0, lower.len() as int) =~= lower@);
    let mut dash: Vec<char> = Vec::new();
    dash.push('-');
    assert(dash@ =~= seq!['-']);
    let start = trim_start_by(&mapped, &dash);
    let t = trim_end_char_vec(&start, '-');
    if t.len() == 0 {
        chars_of("project")
    } else {
        t
    }
}

/// The slug of a directory name, used for its suggested domain.
pub fn slugify(s: &str) -> (r: String)
    ensures
        r@ == slug_of(lowercase(s@)),
        is_ascii_text(s@) ==> r@ == slug_of(ascii_lower(s@)),
{
    let lower = to_lowercase(s);
    let lv = chars_of(lower.as_str());
    let slug = slug_from_lowercase(&lv);
    string_of(&slug)
}


/// A directory as read from disk: its own name when that is valid UTF-8,
/// its path as displayed, the marker files it holds, and the indices in
/// [`DirTree::nodes`] of its subdirectories, in the order the system lists them.
pub struct DirNode {
    pub name: Option<String>,
    pub path: String,
    pub files: ProjectFiles,
    pub subdirs: Vec<usize>,
}

/// A directory tree; the root is the first node.
pub struct DirTree {
    pub nodes: Vec<DirNode>,
}

/// A directory that a scan never enters: hidden ones, and the usual
/// dependency, build, cache and editor directories.
pub open spec fn skipped_dir(name: Seq<char>) -> bool {
    ||| starts_with(name, "."@)
    ||| name == "node_modules"@
    ||| name == ".git"@
    ||| name == "target"@
    ||| name == "dist"@
    ||| name == ".next"@
    ||| name == "build"@
    ||| name == "vendor"@
    ||| name == "__pycache__"@
    ||| name == ".venv"@
    ||| name == "venv"@
    ||| name == ".cargo"@
    ||| name == ".svelte-kit"@
    ||| name == ".nuxt"@
    ||| name == ".output"@
    ||| name == "out"@
    ||| name == "coverage"@
    ||| name == ".turbo"@
    ||| name == ".parcel-cache"@
    ||| name == ".cache"@
    ||| name == "tmp"@
    ||| name == "logs"@
    ||| name == ".idea"@
    ||| name == ".vscode"@
    ||| name == ".DS_Store"@
}

/// Whether a scan leaves the subdirectory `name` alone.
pub fn is_skipped_dir(name: &str) -> (b: bool)
    ensures
        b == skipped_dir(name@),
{
    let n = chars_of(name);
    starts_with_str(&n, ".") || eq_str(&n, "node_modules") || eq_str(&n, ".git") || eq_str(
        &n,
        "target",
    ) || eq_str(&n, "dist") || eq_str(&n, ".next") || eq_str(&n, "build") || eq_str(&n, "vendor")
        || eq_str(&n, "__pycache__") || eq_str(&n, ".venv") || eq_str(&n, "venv") || eq_str(
        &n,
        ".cargo",
    ) || eq_str(&n, ".svelte-kit") || eq_str(&n, ".nuxt") || eq_str(&n, ".output") || eq_str(
        &n,
        "out",
    ) || eq_str(&n, "coverage") || eq_str(&n, ".turbo") || eq_str(&n, ".parcel-cache") || eq_str(
        &n,
        ".cache",
    ) || eq_str(&n, "tmp") || eq_str(&n, "logs") || eq_str(&n, ".idea") || eq_str(&n, ".vscode")
        || eq_str(&n, ".DS_Store")
}

/// The project a directory holds, if it has a name and a kind: its path,
/// name, kind, usual port, `<slug>.test` domain and usual command.
pub open spec fn project_of(n: DirNode, windows: bool) -> Option<
    (Seq<char>, Seq<char>, Seq<char>, u16, Seq<char>, Option<Seq<char>>),
> {
    match n.name {
        None => None,
        Some(nm) => match kind_of(n.files) {
            None => None,
            Some((k, port)) => Some(
                (
                    n.path@,
                    nm@,
                    k@,
                    port,
                    slug_of(lowercase(nm@)) + ".test"@,
                    command_of(k@, n.files, windows),
                ),
            ),
        },
    }
}

/// The project a directory holds, if any.
pub fn detect_project(n: &DirNode, windows: bool) -> (r: Option<ProjectInfo>)
    ensures
        match r {
            Some(p) => project_of(*n, windows) == Some(p@),
            None => project_of(*n, windows) is None,
        },
{
    let name = match &n.name {
        Some(nm) => nm,
        None => return None,
    };
    let (kind, port) = match detect_kind(&n.files) {
        Some(kp) => kp,
        None => return None,
    };
    let slug = slugify(name.as_str());
    let mut domain = chars_of(slug.as_str());
    push_str(&mut domain, ".test");
    let command = suggested_command(kind, &n.files, windows);
    Some(
        ProjectInfo {
            path: n.path.clone(),
            name: name.clone(),
            kind: kind.to_owned(),
            suggested_port: port,
            suggested_domain: string_of(&domain),
            suggested_command: command,
        },
    )
}

/// The views of a sequence of projects.
pub open spec fn infos(s: Seq<ProjectInfo>) -> Seq<
    (Seq<char>, Seq<char>, Seq<char>, u16, Seq<char>, Option<Seq<char>>),
> {
    s.map_values(|p: ProjectInfo| p@)
}

/// At most the first `MAX_RESULTS` entries.
pub open spec fn capped<A>(s: Seq<A>) -> Seq<A> {
    if s.len() <= MAX_RESULTS {
        s
    } else {
        s.take(MAX_RESULTS as int)
    }
}

pub proof fn lemma_capped_append<A>(a: Seq<A>, b: Seq<A>)
    ensures
        capped(capped(a) + b) == capped(a + b),
{
    if a.len() > MAX_RESULTS {
        assert((a.take(MAX_RESULTS as int) + b).take(MAX_RESULTS as int) =~= a.take(
            MAX_RESULTS as int,
        ));
        assert((a + b).take(MAX_RESULTS as int) =~= a.take(MAX_RESULTS as int));
    }
}

/// The projects found from node `i` at `depth`: none below `max_depth`;
/// the node itself when it is a project (its subdirectories are then not
/// searched); else those found in its subdirectories, in order.
pub open spec fn scan_node(nodes: Seq<DirNode>, i: int, depth: int, max_depth: int, windows: bool) -> Seq<
    (Seq<char>, Seq<char>, Seq<char>, u16, Seq<char>, Option<Seq<char>>),
>
    decreases max_depth + 1 - depth, 0int,
{
    if depth > max_depth || i < 0 || i >= nodes.len() {
        Seq::empty()
    } else {
        match project_of(nodes[i], windows) {
            Some(p) => seq![p],
            None => scan_children(nodes, nodes[i].subdirs@, depth + 1, max_depth, windows),
        }
    }
}

/// The projects found in the listed subdirectories at `depth`, skipping
/// those without a UTF-8 name and those `skipped_dir` names.
pub open spec fn scan_children(
    nodes: Seq<DirNode>,
    cs: Seq<usize>,
    depth: int,
    max_depth: int,
    windows: bool,
) -> Seq<(Seq<char>, Seq<char>, Seq<char>, u16, Seq<char>, Option<Seq<char>>)>
    decreases max_depth + 1 - depth, cs.len(),
{
    if depth > max_depth || cs.len() == 0 {
        Seq::empty()
    } else {
        let before = scan_children(nodes, cs.drop_last(), depth, max_depth, windows);
        let j = cs.last() as int;
        if j >= nodes.len() {
            before
        } else {
            match nodes[j].name {
                None => before,
                Some(nm) => if skipped_dir(nm@) {
                    before
                } else {
                    before + scan_node(nodes, j, depth, max_depth, windows)
                },
            }
        }
    }
}

fn walk(
    nodes: &Vec<DirNode>,
    i: usize,
    depth: usize,
    max_depth: usize,
    windows: bool,
    out: &mut Vec<ProjectInfo>,
)
    requires
        i < nodes.len(),
        old(out).len() <= MAX_RESULTS,
    ensures
        final(out).len() <= MAX_RESULTS,
        infos(final(out)@) == capped(
            infos(old(out)@) + scan_node(nodes@, i as int, depth as int, max_depth as int, windows),
        ),
    decreases max_depth - depth,
{
    let ghost out0 = infos(out@);
    let ghost whole = scan_node(nodes@, i as int, depth as int, max_depth as int, windows);
    if out.len() >= MAX_RESULTS {
        assert((out0 + whole).take(MAX_RESULTS as int) =~= out0);
        return;
    }
    if depth > max_depth {
        assert(out0 + whole =~= out0);
        return;
    }
    let node = &nodes[i];
    match detect_project(node, windows) {
        Some(p) => {
            let ghost pv = p@;
            out.push(p);
            assert(infos(out@) =~= out0 + whole);
            return;
        },
        None => {},
    }
    if depth >= max_depth {
        assert(out0 + whole =~= out0);
        return;
    }
    let ghost cs = node.subdirs@;
    let mut k: usize = 0;
    assert(cs.take(0) =~= Seq::<usize>::empty());
    assert(out0 + Seq::empty() =~= out0);
    while k < node.subdirs.len()
        invariant
            k <= node.subdirs.len(),
            cs == node.subdirs@,
            node == nodes@[i as int],
            depth < max_depth,
            out.len() <= MAX_RESULTS,
            infos(out@) == capped(
                out0 + scan_children(
                    nodes@,
                    cs.take(k as int),
                    depth + 1,
                    max_depth as int,
                    windows,
                ),
            ),
        decreases node.subdirs.len() - k,
    {
        let j = node.subdirs[k];
        let ghost before = scan_children(
            nodes@,
            cs.take(k as int),
            depth + 1,
            max_depth as int,
            windows,
        );
        assert(cs.take(k + 1).drop_last() =~= cs.take(k as int));
        assert(cs.take(k + 1).last() == j);
        if j < nodes.len() {
            match &nodes[j].name {
                Some(nm) => {
                    if !is_skipped_dir(nm.as_str()) {
                        let ghost part = scan_node(
                            nodes@,
                            j as int,
                            depth + 1,
                            max_depth as int,
                            windows,
                        );
                        walk(nodes, j, depth + 1, max_depth, windows, out);
                        proof {
                            lemma_capped_append(out0 + before, part);
                            assert(out0 + before + part =~= out0 + (before + part));
                        }
                    }
                },
                None => {},
            }
        }
        k = k + 1;
    }
    assert(cs.take(node.subdirs.len() as int) =~= cs);
}

/// The projects under the root of `tree` down to `max_depth` levels, at most
/// `MAX_RESULTS`, in the order a depth-first walk finds them; `windows`
/// tells which Gradle wrapper the suggested commands use.
pub fn scan_projects(tree: &DirTree, max_depth: usize, windows: bool) -> (r: Vec<ProjectInfo>)
    ensures
        infos(r@) == capped(scan_node(tree.nodes@, 0, 0, max_depth as int, windows)),
{
    let mut out: Vec<ProjectInfo> = Vec::new();
    if tree.nodes.len() == 0 {
        assert(infos(out@) =~= capped(scan_node(tree.nodes@, 0, 0, max_depth as int, windows)));
        return out;
    }
    walk(&tree.nodes, 0, 0, max_depth, windows, &mut out);
    assert(infos(Seq::<ProjectInfo>::empty()) + scan_node(
        tree.nodes@,
        0,
        0,
        max_depth as int,
        windows,
    ) =~= scan_node(tree.nodes@, 0, 0, max_depth as int, windows));
    out
}


/// A valid slug: non-empty, ASCII letters, digits and `'-'` only, and
/// neither starting nor ending with `'-'`.
pub open spec fn is_slug(s: Seq<char>) -> bool {
    &&& s.len() > 0
    &&& forall|i: int| 0 <= i < s.len() ==> is_ascii_alnum(#[trigger] s[i]) || s[i] == '-'
    &&& s[0] != '-'
    &&& s.last() != '-'
}

proof fn lemma_trim_start_dash(s: Seq<char>)
    ensures
        exists|k: int| 0 <= k <= s.len() && trim_start_str(s, seq!['-']) == s.subrange(k, s.len() as int),
        trim_start_str(s, seq!['-']).len() > 0 ==> trim_start_str(s, seq!['-'])[0] != '-',
    decreases s.len(),
{
    let p = seq!['-'];
    if starts_with(s, p) {
        let rest = crate::text::after_prefix(s, p);
        assert(rest =~= s.subrange(1, s.len() as int));
        lemma_trim_start_dash(rest);
        let k = choose|k: int|
            0 <= k <= rest.len() && trim_start_str(rest, p) == rest.subrange(k, rest.len() as int);
        assert(rest.subrange(k, rest.len() as int) =~= s.subrange(k + 1, s.len() as int));
    } else {
        assert(s.subrange(0, s.len() as int) =~= s);
        if s.len() > 0 {
            assert(s.subrange(0, 1) =~= seq![s[0]]);
        }
    }
}

proof fn lemma_trim_end_dash(s: Seq<char>)
    ensures
        trim_end_char(s, '-').len() <= s.len(),
        trim_end_char(s, '-') == s.subrange(0, trim_end_char(s, '-').len() as int),
        trim_end_char(s, '-').len() > 0 ==> trim_end_char(s, '-').last() != '-',
    decreases s.len(),
{
    if s.len() > 0 && s.last() == '-' {
        lemma_trim_end_dash(s.drop_last());
        assert(s.drop_last().subrange(0, trim_end_char(s, '-').len() as int) =~= s.subrange(
            0,
            trim_end_char(s, '-').len() as int,
        ));
    } else {
        assert(s.subrange(0, s.len() as int) =~= s);
    }
}

/// Every slug, so every suggested domain name before `.test`, is a valid
/// one: made of ASCII letters, digits and inner dashes, never empty.
pub proof fn law_slug_valid(lower: Seq<char>)
    ensures
        is_slug(slug_of(lower)),
{
    let mapped = lower.map_values(|c: char| slug_char(c));
    let s1 = trim_start_str(mapped, seq!['-']);
    let t = trim_end_char(s1, '-');
    lemma_trim_start_dash(mapped);
    lemma_trim_end_dash(s1);
    let k = choose|k: int|
        0 <= k <= mapped.len() && s1 == mapped.subrange(k, mapped.len() as int);
    if t.len() == 0 {
        reveal_strlit("project");
    } else {
        assert forall|i: int| 0 <= i < t.len() implies is_ascii_alnum(#[trigger] t[i]) || t[i] == '-' by {
            assert(t[i] == s1[i]);
            assert(s1[i] == mapped[k + i]);
            assert(mapped[k + i] == slug_char(lower[k + i]));
        }
        assert(t[0] == s1[0]);
    }
}


/// `x` is what `project_of` gives for some directory of `nodes`.
pub open spec fn found_project(
    nodes: Seq<DirNode>,
    x: (Seq<char>, Seq<char>, Seq<char>, u16, Seq<char>, Option<Seq<char>>),
    windows: bool,
) -> bool {
    exists|j: int| 0 <= j < nodes.len() && #[trigger] project_of(nodes[j], windows) == Some(x)
}

/// Every entry of `s` is what `project_of` gives for some directory of `nodes`.
pub open spec fn found_in(
    nodes: Seq<DirNode>,
    s: Seq<(Seq<char>, Seq<char>, Seq<char>, u16, Seq<char>, Option<Seq<char>>)>,
    windows: bool,
) -> bool {
    forall|k: int| 0 <= k < s.len() ==> found_project(nodes, #[trigger] s[k], windows)
}

proof fn lemma_found_append(
    nodes: Seq<DirNode>,
    a: Seq<(Seq<char>, Seq<char>, Seq<char>, u16, Seq<char>, Option<Seq<char>>)>,
    b: Seq<(Seq<char>, Seq<char>, Seq<char>, u16, Seq<char>, Option<Seq<char>>)>,
    windows: bool,
)
    requires
        found_in(nodes, a, windows),
        found_in(nodes, b, windows),
    ensures
        found_in(nodes, a + b, windows),
{
    assert forall|k: int| 0 <= k < (a + b).len() implies found_project(nodes, #[trigger] (a + b)[k], windows) by {
        if k < a.len() {
            assert((a + b)[k] == a[k]);
        } else {
            assert((a + b)[k] == b[k - a.len()]);
        }
    }
}

proof fn lemma_scan_node_found(nodes: Seq<DirNode>, i: int, depth: int, max_depth: int, windows: bool)
    ensures
        found_in(nodes, scan_node(nodes, i, depth, max_depth, windows), windows),
    decreases max_depth + 1 - depth, 0int,
{
    if depth > max_depth || i < 0 || i >= nodes.len() {
    } else {
        match project_of(nodes[i], windows) {
            Some(p) => {
                let s = scan_node(nodes, i, depth, max_depth, windows);
                assert(s =~= seq![p]);
                assert forall|k: int| 0 <= k < s.len() implies found_project(nodes, #[trigger] s[k], windows) by {
                    assert(project_of(nodes[i], windows) == Some(s[k]));
                }
            },
            None => {
                lemma_scan_children_found(nodes, nodes[i].subdirs@, depth + 1, max_depth, windows);
            },
        }
    }
}

proof fn lemma_scan_children_found(
    nodes: Seq<DirNode>,
    cs: Seq<usize>,
    depth: int,
    max_depth: int,
    windows: bool,
)
    ensures
        found_in(nodes, scan_children(nodes, cs, depth, max_depth, windows), windows),
    decreases max_depth + 1 - depth, cs.len(),
{
    if depth > max_depth || cs.len() == 0 {
    } else {
        lemma_scan_children_found(nodes, cs.drop_last(), depth, max_depth, windows);
        let before = scan_children(nodes, cs.drop_last(), depth, max_depth, windows);
        let j = cs.last() as int;
        if j < nodes.len() {
            match nodes[j].name {
                None => {},
                Some(nm) => if !skipped_dir(nm@) {
                    lemma_scan_node_found(nodes, j, depth, max_depth, windows);
                    lemma_found_append(
                        nodes,
                        before,
                        scan_node(nodes, j, depth, max_depth, windows),
                        windows,
                    );
                },
            }
        }
    }
}

/// A project scan reports at most `MAX_RESULTS` projects, and each one is
/// what `project_of` makes of some directory of the tree.
pub proof fn law_scan_reports_projects(nodes: Seq<DirNode>, max_depth: int, windows: bool)
    ensures
        capped(scan_node(nodes, 0, 0, max_depth, windows)).len() <= MAX_RESULTS,
        found_in(nodes, capped(scan_node(nodes, 0, 0, max_depth, windows)), windows),
{
    let s = scan_node(nodes, 0, 0, max_depth, windows);
    lemma_scan_node_found(nodes, 0, 0, max_depth, windows);
    if s.len() > MAX_RESULTS {
        let c = s.take(MAX_RESULTS as int);
        assert forall|k: int| 0 <= k < c.len() implies found_project(nodes, #[trigger] c[k], windows) by {
            assert(c[k] == s[k]);
        }
    }
}

/// Which kind a directory is taken for, by the first marker present in a
/// fixed order: `package.json`, `Cargo.toml`, `manage.py`, `artisan`,
/// `composer.json`, Rails files, `go.mod`, Java build files, then Python,
/// Elixir and Swift files. A marker decides whatever later markers the
/// directory also holds: a Laravel project (with `artisan` and
/// `composer.json`) is Laravel, not plain PHP.
pub proof fn law_kind_by_first_marker(f: ProjectFiles)
    ensures
        f.package_json is None && f.cargo_toml ==> kind_of(f) == Some(("rust", 8080u16)),
        f.package_json is None && !f.cargo_toml && f.manage_py ==> kind_of(f) == Some(
            ("django", 8000u16),
        ),
        f.package_json is None && !f.cargo_toml && !f.manage_py && f.artisan ==> kind_of(f)
            == Some(("laravel", 8000u16)),
        f.package_json is None && !f.cargo_toml && !f.manage_py && !f.artisan && f.composer_json
            ==> kind_of(f) == Some(("php", 8000u16)),
        f.package_json is None && !f.cargo_toml && !f.manage_py && !f.artisan && !f.composer_json
            && (f.config_application_rb || f.gemfile) ==> kind_of(f) == Some(("rails", 3000u16)),
        f.package_json is None && !f.cargo_toml && !f.manage_py && !f.artisan && !f.composer_json
            && !f.config_application_rb && !f.gemfile && f.go_mod ==> kind_of(f) == Some(
            ("go", 8080u16),
        ),
        f.package_json is None && !f.cargo_toml && !f.manage_py && !f.artisan && !f.composer_json
            && !f.config_application_rb && !f.gemfile && !f.go_mod && (f.pom_xml || f.build_gradle
            || f.build_gradle_kts) ==> kind_of(f) == Some(("java", 8080u16)),
{
}

/// A Laravel project is run with `php artisan serve`, a plain PHP one with
/// PHP's built-in server on port 8000.
pub proof fn law_php_commands(f: ProjectFiles, windows: bool)
    ensures
        command_of("laravel"@, f, windows) == Some("php artisan serve"@),
        command_of("php"@, f, windows) == Some("php -S 127.0.0.1:8000"@),
{
    reveal_strlit("laravel");
    reveal_strlit("php");
    reveal_strlit("rust");
    reveal_strlit("django");
    assert("laravel"@.len() != "rust"@.len());
    assert("laravel"@.len() != "django"@.len());
    assert("php"@.len() != "rust"@.len());
    assert("php"@.len() != "django"@.len());
    assert("php"@.len() != "laravel"@.len());
    reveal_strlit("nextjs");
    assert("laravel"@.len() != "nextjs"@.len());
    reveal_strlit("vite");
    assert("laravel"@.len() != "vite"@.len());
    reveal_strlit("nuxt");
    assert("laravel"@.len() != "nuxt"@.len());
    reveal_strlit("sveltekit");
    assert("laravel"@.len() != "sveltekit"@.len());
    reveal_strlit("angular");
    assert("laravel"@[0] != "angular"@[0]);
    reveal_strlit("astro");
    assert("laravel"@.len() != "astro"@.len());
    reveal_strlit("remix");
    assert("laravel"@.len() != "remix"@.len());
    reveal_strlit("cra");
    assert("laravel"@.len() != "cra"@.len());
    reveal_strlit("nestjs");
    assert("laravel"@.len() != "nestjs"@.len());
    reveal_strlit("strapi");
    assert("laravel"@.len() != "strapi"@.len());
    reveal_strlit("expo");
    assert("laravel"@.len() != "expo"@.len());
    reveal_strlit("node");
    assert("laravel"@.len() != "node"@.len());
    reveal_strlit("node-api");
    assert("laravel"@.len() != "node-api"@.len());
    reveal_strlit("nextjs");
    assert("php"@.len() != "nextjs"@.len());
    reveal_strlit("vite");
    assert("php"@.len() != "vite"@.len());
    reveal_strlit("nuxt");
    assert("php"@.len() != "nuxt"@.len());
    reveal_strlit("sveltekit");
    assert("php"@.len() != "sveltekit"@.len());
    reveal_strlit("angular");
    assert("php"@.len() != "angular"@.len());
    reveal_strlit("astro");
    assert("php"@.len() != "astro"@.len());
    reveal_strlit("remix");
    assert("php"@.len() != "remix"@.len());
    reveal_strlit("cra");
    assert("php"@[0] != "cra"@[0]);
    reveal_strlit("nestjs");
    assert("php"@.len() != "nestjs"@.len());
    reveal_strlit("strapi");
    assert("php"@.len() != "strapi"@.len());
    reveal_strlit("expo");
    assert("php"@.len() != "expo"@.len());
    reveal_strlit("node");
    assert("php"@.len() != "node"@.len());
    reveal_strlit("node-api");
    assert("php"@.len() != "node-api"@.len());
    assert(!npm_kind("laravel"@));
    assert(!npm_kind("php"@));
}
} // verus!
