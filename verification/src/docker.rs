//! Docker Compose support: which files in a project are compose files,
//! which names may be written, the `docker compose` command lines run for a
//! project, and what is made of their output.
//!
//! Running `docker` and reading the directory are left to the caller; it
//! hands over what it found and what the commands printed.

use vstd::prelude::*;
use serde_json::Value;
use crate::text::{
    ascii_lower, is_ascii_text, chars_of, contains, contains_str, ends_with, ends_with_str, eq_str, is_ascii_alnum, lowercase,
    slice, starts_with, starts_with_str, string_of, to_lowercase, text_le, text_le_exec,
    lemma_text_le_total, lemma_text_le_trans, decimal, push_decimal, trim, trim_vec, opt_view,
    lines, split_lines, views,
};

verus! {

/// Whether Docker is installed, its client version, and whether its daemon answers.
#[derive(Debug, Clone)]
pub struct DockerStatus {
    pub installed: bool,
    pub version: Option<String>,
    pub daemon_running: bool,
}

/// The compose files of a project, with their services.
#[derive(Debug, Clone)]
pub struct ComposeStatus {
    pub files: Vec<ComposeFile>,
}

/// A compose file and the services `docker compose ps` lists for it.
#[derive(Debug, Clone)]
pub struct ComposeFile {
    pub path: String,
    pub name: String,
    pub services: Vec<ComposeService>,
}

/// A service as `docker compose ps` describes it.
#[derive(Debug, Clone)]
pub struct ComposeService {
    pub name: String,
    pub image: String,
    pub state: String,
    pub status: String,
    pub ports: String,
}

/// The part of a lower-cased file name before `.yml` or `.yaml`.
pub open spec fn compose_stem(lower: Seq<char>) -> Option<Seq<char>> {
    if ends_with(lower, ".yml"@) {
        Some(lower.subrange(0, lower.len() - ".yml"@.len()))
    } else if ends_with(lower, ".yaml"@) {
        Some(lower.subrange(0, lower.len() - ".yaml"@.len()))
    } else {
        None
    }
}

/// A lower-cased file name that Docker Compose picks up: `compose` or
/// `docker-compose`, possibly with a `.something` part, then `.yml`/`.yaml`.
pub open spec fn compose_name_lower(lower: Seq<char>) -> bool {
    match compose_stem(lower) {
        None => false,
        Some(st) => {
            ||| st == "docker-compose"@
            ||| st == "compose"@
            ||| starts_with(st, "docker-compose."@)
            ||| starts_with(st, "compose."@)
        },
    }
}

/// Whether an already lower-cased file name is a compose file name.
pub fn compose_name_matches(lower: &Vec<char>) -> (b: bool)
    ensures
        b == compose_name_lower(lower@),
{
    let yml = chars_of(".yml");
    let yaml = chars_of(".yaml");
    let stem = if ends_with_str(lower, ".yml") {
        slice(lower, 0, lower.len() - yml.len())
    } else if ends_with_str(lower, ".yaml") {
        slice(lower, 0, lower.len() - yaml.len())
    } else {
        return false;
    };
    eq_str(&stem, "docker-compose") || eq_str(&stem, "compose") || starts_with_str(
        &stem,
        "docker-compose.",
    ) || starts_with_str(&stem, "compose.")
}

/// Whether a file name, compared without case, is a compose file name.
pub fn matches_compose_pattern(name: &str) -> (b: bool)
    ensures
        b == compose_name_lower(lowercase(name@)),
        is_ascii_text(name@) ==> b == compose_name_lower(ascii_lower(name@)),
{
    let lower = to_lowercase(name);
    let lv = chars_of(lower.as_str());
    compose_name_matches(&lv)
}

/// A character allowed in a compose file name that is written.
pub open spec fn safe_char(c: char) -> bool {
    is_ascii_alnum(c) || c == '.' || c == '-' || c == '_'
}

/// A compose file name that may be written in a project: 1 to 80
/// characters among ASCII letters, digits, `.`, `-` and `_`, no `..`, and
/// ending in `.yml` or `.yaml` whatever the case (`lower` is the name lower-cased).
pub open spec fn safe_compose_filename(name: Seq<char>, lower: Seq<char>) -> bool {
    &&& name.len() > 0
    &&& name.len() <= 80
    &&& !contains(name, seq!['/'])
    &&& !contains(name, seq!['\\'])
    &&& !contains(name, ".."@)
    &&& (ends_with(lower, ".yml"@) || ends_with(lower, ".yaml"@))
    &&& forall|i: int| 0 <= i < name.len() ==> safe_char(#[trigger] name[i])
}

/// Whether `name` may be written as a compose file of a project.
pub fn is_safe_compose_filename(name: &str) -> (b: bool)
    ensures
        b == safe_compose_filename(name@, lowercase(name@)),
        is_ascii_text(name@) ==> b == safe_compose_filename(name@, ascii_lower(name@)),
{
    let n = chars_of(name);
    if n.len() == 0 || n.len() > 80 {
        return false;
    }
    proof {
        reveal_strlit("/");
        reveal_strlit("\\");
        assert("/"@ =~= seq!['/']);
        assert("\\"@ =~= seq!['\\']);
    }
    if contains_str(&n, "/") || contains_str(&n, "\\") || contains_str(&n, "..") {
        return false;
    }
    let lower = to_lowercase(name);
    let lv = chars_of(lower.as_str());
    if !(ends_with_str(&lv, ".yml") || ends_with_str(&lv, ".yaml")) {
        return false;
    }
    let mut i: usize = 0;
    while i < n.len()
        invariant
            i <= n.len(),
            n@ == name@,
            forall|k: int| 0 <= k < i ==> safe_char(#[trigger] n@[k]),
        decreases n.len() - i,
    {
        let c = n[i];
        if !(('0' <= c && c <= '9') || ('a' <= c && c <= 'z') || ('A' <= c && c <= 'Z') || c == '.'
            || c == '-' || c == '_') {
            assert(!safe_char(name@[i as int]));
            return false;
        }
        i = i + 1;
    }
    true
}


/// The compose files among the names of the regular files of a directory
/// (`lowers[i]` is `names[i]` lower-cased).
pub open spec fn compose_names(names: Seq<Seq<char>>, lowers: Seq<Seq<char>>) -> Seq<Seq<char>>
    decreases names.len(),
{
    if names.len() == 0 {
        Seq::empty()
    } else {
        let before = compose_names(names.drop_last(), lowers.drop_last());
        if compose_name_lower(lowers[names.len() - 1]) {
            before.push(names.last())
        } else {
            before
        }
    }
}

/// The views of a sequence of strings.
pub open spec fn texts(v: Seq<String>) -> Seq<Seq<char>> {
    v.map_values(|s: String| s@)
}

/// Strings in increasing order.
pub open spec fn texts_sorted(v: Seq<Seq<char>>) -> bool {
    forall|i: int, j: int| 0 <= i < j < v.len() ==> text_le(v[i], v[j])
}

/// The same strings in increasing order.
pub fn sort_texts(v: Vec<String>) -> (r: Vec<String>)
    ensures
        texts_sorted(texts(r@)),
        texts(r@).to_multiset() == texts(v@).to_multiset(),
{
    broadcast use vstd::seq_lib::group_to_multiset_ensures;

    let ghost orig = texts(v@);
    let mut rem = v;
    let mut out: Vec<String> = Vec::new();
    assert(texts(out@) + texts(rem@) =~= orig);
    while rem.len() > 0
        invariant
            texts_sorted(texts(out@)),
            forall|i: int, j: int|
                0 <= i < out.len() && 0 <= j < rem.len() ==> text_le(out@[i]@, rem@[j]@),
            (texts(out@) + texts(rem@)).to_multiset() == orig.to_multiset(),
        decreases rem.len(),
    {
        let mut m: usize = 0;
        let mut j: usize = 1;
        let first = chars_of(rem[0].as_str());
        let mut best = first;
        proof {
            lemma_text_le_total(rem@[0]@, rem@[0]@);
        }
        while j < rem.len()
            invariant
                m < j <= rem.len(),
                best@ == rem@[m as int]@,
                forall|t: int| 0 <= t < j ==> text_le(rem@[m as int]@, rem@[t]@),
            decreases rem.len() - j,
        {
            let cand = chars_of(rem[j].as_str());
            if !text_le_exec(&best, &cand) {
                proof {
                    lemma_text_le_total(best@, cand@);
                    assert forall|t: int| 0 <= t < j + 1 implies text_le(cand@, rem@[t]@) by {
                        if t < j {
                            lemma_text_le_trans(cand@, best@, rem@[t]@);
                        } else {
                            lemma_text_le_total(cand@, cand@);
                        }
                    }
                }
                m = j;
                best = cand;
            }
            j = j + 1;
        }
        let ghost a = texts(out@);
        let ghost b = texts(rem@);
        let ghost old_rem = rem@;
        let ghost old_out = out@;
        let x = rem.remove(m);
        assert(texts(rem@) =~= b.remove(m as int));
        assert(b[m as int] == x@);
        out.push(x);
        assert(texts(out@) =~= a.push(x@));
        proof {
            vstd::seq_lib::lemma_multiset_commutative(a, b);
            vstd::seq_lib::lemma_multiset_commutative(a.push(x@), b.remove(m as int));
            vstd::seq_lib::to_multiset_remove(b, m as int);
            vstd::seq_lib::to_multiset_build(a, x@);
            assert(b.contains(x@));
            vstd::seq_lib::to_multiset_contains(b, x@);
            broadcast use vstd::multiset::group_multiset_axioms;

            assert((a.push(x@) + b.remove(m as int)).to_multiset() =~= (a + b).to_multiset());
            assert forall|i: int, j2: int| 0 <= i < j2 < out.len() implies text_le(
                texts(out@)[i],
                texts(out@)[j2],
            ) by {
                if j2 < out.len() - 1 {
                    assert(texts(old_out)[i] == texts(out@)[i]);
                    assert(texts(old_out)[j2] == texts(out@)[j2]);
                } else {
                    assert(out@[j2] == old_rem[m as int]);
                    assert(out@[i] == old_out[i]);
                }
            }
            assert forall|i: int, j2: int|
                0 <= i < out.len() && 0 <= j2 < rem.len() implies text_le(
                out@[i]@,
                rem@[j2]@,
            ) by {
                let jj = if j2 < m {
                    j2
                } else {
                    j2 + 1
                };
                assert(rem@[j2] == old_rem[jj]);
                if i < out.len() - 1 {
                    assert(out@[i] == old_out[i]);
                }
            }
        }
    }
    assert(texts(out@) + texts(rem@) =~= texts(out@));
    out
}

/// The compose files among the names of the regular files of a project
/// directory, in increasing order.
pub fn find_compose_names(names: &Vec<String>) -> (r: Vec<String>)
    ensures
        texts_sorted(texts(r@)),
        texts(r@).to_multiset() == compose_names(
            texts(names@),
            texts(names@).map_values(|n: Seq<char>| lowercase(n)),
        ).to_multiset(),
{
    let ghost all = texts(names@);
    let ghost lowers = all.map_values(|n: Seq<char>| lowercase(n));
    let mut kept: Vec<String> = Vec::new();
    let mut i: usize = 0;
    while i < names.len()
        invariant
            i <= names.len(),
            all == texts(names@),
            lowers == all.map_values(|n: Seq<char>| lowercase(n)),
            texts(kept@) == compose_names(all.take(i as int), lowers.take(i as int)),
        decreases names.len() - i,
    {
        assert(all.take(i + 1).drop_last() =~= all.take(i as int));
        assert(lowers.take(i + 1).drop_last() =~= lowers.take(i as int));
        assert(lowers.take(i + 1)[i as int] == lowercase(names@[i as int]@));
        if matches_compose_pattern(names[i].as_str()) {
            let ghost before = texts(kept@);
            kept.push(names[i].clone());
            assert(texts(kept@) =~= before.push(names@[i as int]@));
        }
        i = i + 1;
    }
    assert(all.take(names.len() as int) =~= all);
    assert(lowers.take(names.len() as int) =~= lowers);
    sort_texts(kept)
}


/// What the caller found on disk before a compose command: the project
/// directory as displayed, whether it holds any compose file, and whether
/// the requested file (if one is named) is a regular file in it.
pub struct ComposeContext {
    pub project_display: String,
    pub has_compose_files: bool,
    pub file_exists: bool,
}

/// The view of an optional literal.
pub open spec fn opt_str(o: Option<&str>) -> Option<Seq<char>> {
    match o {
        Some(s) => Some(s@),
        None => None,
    }
}

/// The view of a result of string lists.
pub open spec fn args_result(r: Result<Vec<String>, String>) -> Result<Seq<Seq<char>>, Seq<char>> {
    match r {
        Ok(v) => Ok(texts(v@)),
        Err(e) => Err(e@),
    }
}

/// The arguments of `docker` for a compose sub-command `args` in a project,
/// or why it is refused: no compose file in the project, an unsafe file
/// name, or a named file that is not there.
pub open spec fn compose_command(
    ctx: ComposeContext,
    file: Option<Seq<char>>,
    args: Seq<Seq<char>>,
) -> Result<Seq<Seq<char>>, Seq<char>> {
    if !ctx.has_compose_files {
        Err("Không tìm thấy file compose trong "@ + ctx.project_display@)
    } else {
        match file {
            Some(f) => if !safe_compose_filename(f, lowercase(f)) {
                Err("Tên file compose không hợp lệ"@)
            } else if !ctx.file_exists {
                Err("File compose không tồn tại: "@ + f)
            } else {
                Ok(seq!["compose"@, "-f"@, f] + args)
            },
            None => Ok(seq!["compose"@] + args),
        }
    }
}

fn owned(s: &str) -> (r: String)
    ensures
        r@ == s@,
{
    s.to_owned()
}

fn concat(a: &str, b: &str) -> (r: String)
    ensures
        r@ == a@ + b@,
{
    let mut v = chars_of(a);
    crate::text::push_str(&mut v, b);
    string_of(&v)
}

/// The `docker` arguments of a compose sub-command, or why it is refused.
fn run_compose(ctx: &ComposeContext, file: Option<&str>, args: Vec<String>) -> (r: Result<
    Vec<String>,
    String,
>)
    ensures
        args_result(r) == compose_command(*ctx, opt_str(file), texts(args@)),
{
    if !ctx.has_compose_files {
        return Err(concat("Không tìm thấy file compose trong ", ctx.project_display.as_str()));
    }
    let mut out: Vec<String> = Vec::new();
    out.push(owned("compose"));
    match file {
        Some(f) => {
            if !is_safe_compose_filename(f) {
                return Err(owned("Tên file compose không hợp lệ"));
            }
            if !ctx.file_exists {
                return Err(concat("File compose không tồn tại: ", f));
            }
            out.push(owned("-f"));
            out.push(owned(f));
        },
        None => {},
    }
    let ghost head = texts(out@);
    let mut i: usize = 0;
    while i < args.len()
        invariant
            i <= args.len(),
            texts(out@) == head + texts(args@).take(i as int),
        decreases args.len() - i,
    {
        let c = args[i].clone();
        assert(c@ == texts(args@)[i as int]);
        let ghost before = texts(out@);
        out.push(c);
        assert(texts(out@) =~= before.push(c@));
        assert(texts(args@).take(i + 1) =~= texts(args@).take(i as int).push(c@));
        i = i + 1;
        assert(texts(out@) =~= head + texts(args@).take(i as int));
    }
    assert(texts(args@).take(args.len() as int) =~= texts(args@));
    match file {
        Some(f) => {
            assert(head =~= seq!["compose"@, "-f"@, f@]);
        },
        None => {
            assert(head =~= seq!["compose"@]);
        },
    }
    Ok(out)
}

/// `docker compose [-f FILE] up -d` for a project, or why it is refused.
pub fn compose_up(ctx: &ComposeContext, file: Option<&str>) -> (r: Result<Vec<String>, String>)
    ensures
        args_result(r) == compose_command(*ctx, opt_str(file), seq!["up"@, "-d"@]),
{
    let mut args: Vec<String> = Vec::new();
    args.push(owned("up"));
    args.push(owned("-d"));
    assert(texts(args@) =~= seq!["up"@, "-d"@]);
    run_compose(ctx, file, args)
}

/// `docker compose [-f FILE] down` for a project, or why it is refused.
pub fn compose_down(ctx: &ComposeContext, file: Option<&str>) -> (r: Result<Vec<String>, String>)
    ensures
        args_result(r) == compose_command(*ctx, opt_str(file), seq!["down"@]),
{
    let mut args: Vec<String> = Vec::new();
    args.push(owned("down"));
    assert(texts(args@) =~= seq!["down"@]);
    run_compose(ctx, file, args)
}

/// `docker compose [-f FILE] restart` for a project, or why it is refused.
pub fn compose_restart(ctx: &ComposeContext, file: Option<&str>) -> (r: Result<
    Vec<String>,
    String,
>)
    ensures
        args_result(r) == compose_command(*ctx, opt_str(file), seq!["restart"@]),
{
    let mut args: Vec<String> = Vec::new();
    args.push(owned("restart"));
    assert(texts(args@) =~= seq!["restart"@]);
    run_compose(ctx, file, args)
}

/// `docker compose [-f FILE] logs --tail LINES --no-color` for a project,
/// or why it is refused.
pub fn compose_logs(ctx: &ComposeContext, file: Option<&str>, lines: usize) -> (r: Result<
    Vec<String>,
    String,
>)
    ensures
        args_result(r) == compose_command(
            *ctx,
            opt_str(file),
            seq!["logs"@, "--tail"@, decimal(lines as nat), "--no-color"@],
        ),
{
    let mut args: Vec<String> = Vec::new();
    args.push(owned("logs"));
    args.push(owned("--tail"));
    let mut n: Vec<char> = Vec::new();
    push_decimal(&mut n, lines as u64);
    assert(n@ =~= decimal(lines as nat));
    args.push(string_of(&n));
    args.push(owned("--no-color"));
    assert(texts(args@) =~= seq!["logs"@, "--tail"@, decimal(lines as nat), "--no-color"@]);
    run_compose(ctx, file, args)
}

/// What a command printed: its output, its error output, or both on
/// separate lines.
pub open spec fn combined_output(stdout: Seq<char>, stderr: Seq<char>) -> Seq<char> {
    if stderr.len() == 0 {
        stdout
    } else if stdout.len() == 0 {
        stderr
    } else {
        stdout + seq!['\n'] + stderr
    }
}

/// The view of a string result.
pub open spec fn text_result(r: Result<String, String>) -> Result<Seq<char>, Seq<char>> {
    match r {
        Ok(s) => Ok(s@),
        Err(e) => Err(e@),
    }
}

/// The answer to a compose command that ran: what it printed when it
/// succeeded, else the same trimmed as the error.
pub fn compose_outcome(success: bool, stdout: &str, stderr: &str) -> (r: Result<String, String>)
    ensures
        text_result(r) == (if success {
            Ok(combined_output(stdout@, stderr@))
        } else {
            Err(trim(combined_output(stdout@, stderr@)))
        }),
{
    let o = chars_of(stdout);
    let e = chars_of(stderr);
    let mut combined: Vec<char>;
    if e.len() == 0 {
        combined = o;
    } else if o.len() == 0 {
        combined = e;
    } else {
        combined = o;
        combined.push('\n');
        crate::text::push_all(&mut combined, &e);
        assert(combined@ =~= stdout@ + seq!['\n'] + stderr@);
    }
    assert(combined@ == combined_output(stdout@, stderr@));
    if success {
        Ok(string_of(&combined))
    } else {
        let t = trim_vec(&combined);
        Err(string_of(&t))
    }
}

/// The Docker status from what was found: nothing more is known when the
/// `docker` executable is not on the path; the version is the trimmed
/// output of `docker version` when it succeeded.
pub fn docker_status(installed: bool, version_output: Option<&str>, daemon_answered: bool) -> (r:
    DockerStatus)
    ensures
        r.installed == installed,
        r.daemon_running == (installed && daemon_answered),
        opt_view(r.version) == (if installed {
            match version_output {
                Some(v) => Some(trim(v@)),
                None => None,
            }
        } else {
            None
        }),
{
    if !installed {
        return DockerStatus { installed: false, version: None, daemon_running: false };
    }
    let version = match version_output {
        Some(v) => {
            let t = trim_vec(&chars_of(v));
            Some(string_of(&t))
        },
        None => None,
    };
    DockerStatus { installed: true, version, daemon_running: daemon_answered }
}

/// Why a compose file cannot be written, if it cannot: the project
/// directory is missing, or the name is not a safe compose file name.
pub open spec fn save_refusal(dir_exists: bool, display: Seq<char>, file_name: Seq<char>) -> Option<
    Seq<char>,
> {
    if !dir_exists {
        Some("Thư mục dự án không tồn tại: "@ + display)
    } else if !safe_compose_filename(file_name, lowercase(file_name)) {
        Some(
            "Tên file không hợp lệ. Phải kết thúc bằng .yml/.yaml và chỉ dùng chữ/số/dấu chấm/gạch."@,
        )
    } else {
        None
    }
}

/// Checks a compose file about to be written in a project.
pub fn check_compose_save(dir_exists: bool, display: &str, file_name: &str) -> (r: Result<
    (),
    String,
>)
    ensures
        match r {
            Ok(()) => save_refusal(dir_exists, display@, file_name@) is None,
            Err(e) => save_refusal(dir_exists, display@, file_name@) == Some(e@),
        },
{
    if !dir_exists {
        return Err(concat("Thư mục dự án không tồn tại: ", display));
    }
    if !is_safe_compose_filename(file_name) {
        return Err(
            owned(
                "Tên file không hợp lệ. Phải kết thúc bằng .yml/.yaml và chỉ dùng chữ/số/dấu chấm/gạch.",
            ),
        );
    }
    Ok(())
}


impl View for ComposeService {
    type V = (Seq<char>, Seq<char>, Seq<char>, Seq<char>, Seq<char>);

    open spec fn view(&self) -> Self::V {
        (self.name@, self.image@, self.state@, self.status@, self.ports@)
    }
}

/// The non-empty lines of a text, each trimmed.
pub open spec fn nonempty_trimmed(ls: Seq<Seq<char>>) -> Seq<Seq<char>>
    decreases ls.len(),
{
    if ls.len() == 0 {
        Seq::empty()
    } else {
        let before = nonempty_trimmed(ls.drop_last());
        let l = trim(ls.last());
        if l.len() == 0 {
            before
        } else {
            before.push(l)
        }
    }
}

/// How `docker compose ps --format json` output is cut into JSON texts:
/// newer versions print one array (flag set, the whole trimmed text), older
/// ones one object per line (each trimmed non-empty line).
pub open spec fn ps_chunks(text: Seq<char>) -> (bool, Seq<Seq<char>>) {
    let t = trim(text);
    if t.len() == 0 {
        (false, Seq::empty())
    } else if t[0] == '[' {
        (true, seq![t])
    } else {
        (false, nonempty_trimmed(lines(t)))
    }
}

/// The JSON texts in `docker compose ps --format json` output, and whether
/// the one text is an array of services.
pub fn compose_ps_chunks(text: &str) -> (r: (bool, Vec<String>))
    ensures
        (r.0, texts(r.1@)) == ps_chunks(text@),
{
    let t = trim_vec(&chars_of(text));
    let mut out: Vec<String> = Vec::new();
    if t.len() == 0 {
        assert(texts(out@) =~= Seq::<Seq<char>>::empty());
        return (false, out);
    }
    if t[0] == '[' {
        out.push(string_of(&t));
        assert(texts(out@) =~= seq![t@]);
        return (true, out);
    }
    let ls = split_lines(&t);
    let ghost all = lines(t@);
    let mut k: usize = 0;
    assert(all.take(0) =~= Seq::<Seq<char>>::empty());
    while k < ls.len()
        invariant
            k <= ls.len(),
            views(ls@) == all,
            texts(out@) == nonempty_trimmed(all.take(k as int)),
        decreases ls.len() - k,
    {
        assert(all.take(k + 1).drop_last() =~= all.take(k as int));
        assert(all.take(k + 1).last() == ls@[k as int]@);
        let l = trim_vec(&ls[k]);
        if l.len() > 0 {
            let ghost before = texts(out@);
            out.push(string_of(&l));
            assert(texts(out@) =~= before.push(l@));
        }
        k = k + 1;
    }
    assert(all.take(ls.len() as int) =~= all);
    (false, out)
}

/// A port mapping of a service as `docker compose ps` reports it; a number
/// that is missing or not an unsigned integer is absent.
#[derive(Debug, Clone)]
pub struct PublishedPort {
    pub published: Option<u64>,
    pub target: Option<u64>,
}

/// The fields of one service object of `docker compose ps`; a field that
/// is missing or not a string (or not an array, for `Publishers`) is absent.
#[derive(Debug, Clone)]
pub struct ServiceRecord {
    pub service: Option<String>,
    pub name: Option<String>,
    pub image: Option<String>,
    pub state: Option<String>,
    pub status: Option<String>,
    pub ports: Option<String>,
    pub publishers: Option<Vec<PublishedPort>>,
}

/// A string field, empty when absent.
pub open spec fn text_or_empty(o: Option<String>) -> Seq<char> {
    match o {
        Some(s) => s@,
        None => Seq::empty(),
    }
}

/// `published->target` for each mapping, or `target` alone when nothing is
/// published; mappings with neither are left out (absent numbers count as 0).
pub open spec fn publisher_parts(ps: Seq<PublishedPort>) -> Seq<Seq<char>>
    decreases ps.len(),
{
    if ps.len() == 0 {
        Seq::empty()
    } else {
        let before = publisher_parts(ps.drop_last());
        let p = match ps.last().published {
            Some(n) => n,
            None => 0,
        };
        let t = match ps.last().target {
            Some(n) => n,
            None => 0,
        };
        if p == 0 && t == 0 {
            before
        } else if p == 0 {
            before.push(decimal(t as nat))
        } else {
            before.push(decimal(p as nat) + "->"@ + decimal(t as nat))
        }
    }
}

/// The pieces joined with `sep` between them.
pub open spec fn join_with(ps: Seq<Seq<char>>, sep: Seq<char>) -> Seq<char>
    decreases ps.len(),
{
    if ps.len() == 0 {
        Seq::empty()
    } else if ps.len() == 1 {
        ps[0]
    } else {
        join_with(ps.drop_last(), sep) + sep + ps.last()
    }
}

/// The published ports of a service, joined with `", "`.
pub open spec fn publishers_text(p: Option<Vec<PublishedPort>>) -> Seq<char> {
    match p {
        None => Seq::empty(),
        Some(v) => join_with(publisher_parts(v@), seq![',', ' ']),
    }
}

/// The published ports of a service, joined with `", "`.
pub fn format_publishers(p: &Option<Vec<PublishedPort>>) -> (r: String)
    ensures
        r@ == publishers_text(*p),
{
    let v = match p {
        Some(v) => v,
        None => return String::new(),
    };
    let mut out: Vec<char> = Vec::new();
    let ghost mut parts: Seq<Seq<char>> = Seq::empty();
    let mut any = false;
    let mut i: usize = 0;
    assert(v@.take(0) =~= Seq::<PublishedPort>::empty());
    while i < v.len()
        invariant
            i <= v.len(),
            parts == publisher_parts(v@.take(i as int)),
            out@ == join_with(parts, seq![',', ' ']),
            any == (parts.len() > 0),
        decreases v.len() - i,
    {
        assert(v@.take(i + 1).drop_last() =~= v@.take(i as int));
        assert(v@.take(i + 1).last() == v@[i as int]);
        let e = &v[i];
        let pp: u64 = match e.published {
            Some(n) => n,
            None => 0,
        };
        let tp: u64 = match e.target {
            Some(n) => n,
            None => 0,
        };
        if !(pp == 0 && tp == 0) {
            let mut part: Vec<char> = Vec::new();
            if pp == 0 {
                push_decimal(&mut part, tp);
                assert(part@ =~= decimal(tp as nat));
            } else {
                push_decimal(&mut part, pp);
                crate::text::push_str(&mut part, "->");
                push_decimal(&mut part, tp);
                assert(part@ =~= decimal(pp as nat) + "->"@ + decimal(tp as nat));
            }
            let ghost old_out = out@;
            if any {
                out.push(',');
                out.push(' ');
            }
            crate::text::push_all(&mut out, &part);
            proof {
                let np = parts.push(part@);
                assert(np.drop_last() =~= parts);
                if parts.len() > 0 {
                    assert(out@ =~= old_out + seq![',', ' '] + part@);
                } else {
                    assert(out@ =~= part@);
                }
                parts = np;
            }
            any = true;
        }
        i = i + 1;
    }
    assert(v@.take(v.len() as int) =~= v@);
    string_of(&out)
}

fn text_or_empty_exec(o: &Option<String>) -> (r: String)
    ensures
        r@ == text_or_empty(*o),
{
    match o {
        Some(s) => s.clone(),
        None => String::new(),
    }
}

/// The service described by a record: named after `Service`, else `Name`
/// (none when both are empty), with its published ports, else its `Ports` text.
pub open spec fn service_of(r: ServiceRecord) -> Option<
    (Seq<char>, Seq<char>, Seq<char>, Seq<char>, Seq<char>),
> {
    let name = if text_or_empty(r.service).len() > 0 {
        text_or_empty(r.service)
    } else {
        text_or_empty(r.name)
    };
    if name.len() == 0 {
        None
    } else {
        let pubs = publishers_text(r.publishers);
        Some(
            (
                name,
                text_or_empty(r.image),
                text_or_empty(r.state),
                text_or_empty(r.status),
                if pubs.len() == 0 {
                    text_or_empty(r.ports)
                } else {
                    pubs
                },
            ),
        )
    }
}

/// The service a record describes, if it names one.
pub fn parse_one_service(r: &ServiceRecord) -> (s: Option<ComposeService>)
    ensures
        match s {
            Some(c) => service_of(*r) == Some(c@),
            None => service_of(*r) is None,
        },
{
    let service = text_or_empty_exec(&r.service);
    let name = if !service.as_str().is_empty() {
        service
    } else {
        text_or_empty_exec(&r.name)
    };
    if name.as_str().is_empty() {
        return None;
    }
    let publishers = format_publishers(&r.publishers);
    let ports = if publishers.as_str().is_empty() {
        text_or_empty_exec(&r.ports)
    } else {
        publishers
    };
    Some(
        ComposeService {
            name,
            image: text_or_empty_exec(&r.image),
            state: text_or_empty_exec(&r.state),
            status: text_or_empty_exec(&r.status),
            ports,
        },
    )
}

/// The services that the records describe, in order.
pub open spec fn services_of(rs: Seq<ServiceRecord>) -> Seq<
    (Seq<char>, Seq<char>, Seq<char>, Seq<char>, Seq<char>),
>
    decreases rs.len(),
{
    if rs.len() == 0 {
        Seq::empty()
    } else {
        let before = services_of(rs.drop_last());
        match service_of(rs.last()) {
            Some(s) => before.push(s),
            None => before,
        }
    }
}

/// The services that the records of `docker compose ps` describe, in order.
pub fn services_from_records(rs: &Vec<ServiceRecord>) -> (r: Vec<ComposeService>)
    ensures
        r@.map_values(|c: ComposeService| c@) == services_of(rs@),
{
    let mut out: Vec<ComposeService> = Vec::new();
    let mut i: usize = 0;
    assert(rs@.take(0) =~= Seq::<ServiceRecord>::empty());
    while i < rs.len()
        invariant
            i <= rs.len(),
            out@.map_values(|c: ComposeService| c@) == services_of(rs@.take(i as int)),
        decreases rs.len() - i,
    {
        assert(rs@.take(i + 1).drop_last() =~= rs@.take(i as int));
        assert(rs@.take(i + 1).last() == rs@[i as int]);
        match parse_one_service(&rs[i]) {
            Some(c) => {
                let ghost before = out@;
                let ghost cv = c@;
                out.push(c);
                assert(out@.map_values(|c: ComposeService| c@) =~= before.map_values(
                    |c: ComposeService| c@,
                ).push(cv));
            },
            None => {},
        }
        i = i + 1;
    }
    assert(rs@.take(rs.len() as int) =~= rs@);
    out
}


/// A compose command that names a file runs only for a project that has
/// compose files, and only with a safe name of a file that is there, passed
/// with `-f`.
pub proof fn law_named_file_checked(ctx: ComposeContext, f: Seq<char>, args: Seq<Seq<char>>)
    requires
        compose_command(ctx, Some(f), args) is Ok,
    ensures
        ctx.has_compose_files,
        ctx.file_exists,
        safe_compose_filename(f, lowercase(f)),
        compose_command(ctx, Some(f), args) == Ok::<Seq<Seq<char>>, Seq<char>>(
            seq!["compose"@, "-f"@, f] + args,
        ),
{
}


// ───────────────────────────── compose ps JSON ─────────────────────────────

/// What `serde_json` reads from one JSON text of `docker compose ps`, if it
/// is JSON: whether it is an array, and the service fields of each of its
/// elements (of the text itself when it is no array).
pub uninterp spec fn compose_json(chunk: Seq<char>) -> Option<(bool, Seq<ServiceRecord>)>;

/// A JSON value of `serde_json`.
#[verifier::external_type_specification]
#[verifier::external_body]
pub struct ExJsonValue(serde_json::Value);

/// The service fields of a JSON value: each of `Service`, `Name`, `Image`,
/// `State`, `Status` and `Ports` when it is a string, and of `Publishers`
/// when it is an array, the `PublishedPort` and `TargetPort` of each
/// element when they are unsigned integers. Trusted: a conversion (field
/// picks); the value is opaque to Verus.
#[verifier::external_body]
fn record_of(v: &Value) -> (r: ServiceRecord) {
    let text = |k: &str| v.get(k).and_then(|x| x.as_str()).map(String::from);
    let num = |e: &Value, k: &str| e.get(k).and_then(|x| x.as_u64());
    ServiceRecord {
        service: text("Service"), name: text("Name"), image: text("Image"),
        state: text("State"), status: text("Status"), ports: text("Ports"),
        publishers: v.get("Publishers").and_then(|x| x.as_array()).map(|a| a.iter().map(|e| PublishedPort {
            published: num(e, "PublishedPort"), target: num(e, "TargetPort") }).collect()),
    }
}

/// `serde_json::from_str::<Value>` on one JSON text, read as service
/// fields (see `record_of`). Trusted: the result depends on the text alone
/// (named `compose_json`).
#[verifier::external_body]
fn json_records(chunk: &str) -> (r: Option<(bool, Vec<ServiceRecord>)>)
    ensures
        match r {
            Some((a, rs)) => compose_json(chunk@) == Some((a, rs@)),
            None => compose_json(chunk@) is None,
        },
{
    let v: serde_json::Value = serde_json::from_str(chunk).ok()?;
    match v.as_array() {
        Some(items) => Some((true, items.iter().map(record_of).collect())),
        None => Some((false, vec![record_of(&v)])),
    }
}

/// The service records of one JSON text: the elements of an array in the
/// array format, the one object in the line format; nothing from a text
/// that is no JSON or of the other shape.
pub open spec fn chunk_records(array: bool, chunk: Seq<char>) -> Seq<ServiceRecord> {
    match compose_json(chunk) {
        Some((is_array, rs)) => if is_array == array {
            rs
        } else {
            Seq::empty()
        },
        None => Seq::empty(),
    }
}

/// The service records of all JSON texts, in order.
pub open spec fn ps_records(array: bool, chunks: Seq<Seq<char>>) -> Seq<ServiceRecord>
    decreases chunks.len(),
{
    if chunks.len() == 0 {
        Seq::empty()
    } else {
        ps_records(array, chunks.drop_last()) + chunk_records(array, chunks.last())
    }
}

/// The services that `docker compose ps --format json` output lists.
pub open spec fn compose_ps_services(text: Seq<char>) -> Seq<
    (Seq<char>, Seq<char>, Seq<char>, Seq<char>, Seq<char>),
> {
    services_of(ps_records(ps_chunks(text).0, ps_chunks(text).1))
}

/// The services in `docker compose ps --format json` output, as either
/// format of docker prints it.
pub fn parse_compose_ps(text: &str) -> (r: Vec<ComposeService>)
    ensures
        r@.map_values(|c: ComposeService| c@) == compose_ps_services(text@),
{
    let (array, chunks) = compose_ps_chunks(text);
    let ghost cs = texts(chunks@);
    let mut records: Vec<ServiceRecord> = Vec::new();
    let mut i: usize = 0;
    assert(cs.take(0) =~= Seq::<Seq<char>>::empty());
    while i < chunks.len()
        invariant
            i <= chunks.len(),
            cs == texts(chunks@),
            records@ == ps_records(array, cs.take(i as int)),
        decreases chunks.len() - i,
    {
        assert(cs.take(i + 1).drop_last() =~= cs.take(i as int));
        assert(cs.take(i + 1).last() == chunks@[i as int]@);
        match json_records(chunks[i].as_str()) {
            Some((is_array, rs)) => {
                if is_array == array {
                    let mut more = rs;
                    records.append(&mut more);
                } else {
                    assert(records@ + Seq::<ServiceRecord>::empty() =~= records@);
                }
            },
            None => {
                assert(records@ + Seq::<ServiceRecord>::empty() =~= records@);
            },
        }
        i = i + 1;
    }
    assert(cs.take(chunks.len() as int) =~= cs);
    services_from_records(&records)
}
} // verus!
