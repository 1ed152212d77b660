//! Running nginx: the command lines given to it, the pid file it leaves,
//! how a running process is recognised, and following its access log.
//!
//! Starting, signalling and killing processes are left to the caller.

use vstd::prelude::*;
use crate::nginx::import::forward_slashes;
use crate::paths::{join, join_path};
use crate::text::{
    chars_of, contains, contains_str, decimal, lines, parse_u32, parse_u32_exec, push_decimal,
    push_str, replace_char_exec, string_of, trim, trim_vec,
};

verus! {

/// What nginx is asked to do.
#[derive(Debug, Clone, Copy, PartialEq, Eq, Structural)]
pub enum NginxAction {
    /// Start the server.
    Start,
    /// Reload its configuration (`-s reload`).
    Reload,
    /// Quit gracefully (`-s quit`).
    Quit,
    /// Test the configuration (`-t`).
    Test,
}

/// The arguments after the configuration and prefix for an action.
pub open spec fn action_args(a: NginxAction) -> Seq<Seq<char>> {
    match a {
        NginxAction::Start => Seq::empty(),
        NginxAction::Reload => seq!["-s"@, "reload"@],
        NginxAction::Quit => seq!["-s"@, "quit"@],
        NginxAction::Test => seq!["-t"@],
    }
}

/// The arguments of nginx for an action: `-c <conf> -p <prefix>` with
/// forward slashes, then those of the action.
pub open spec fn nginx_args_spec(conf: Seq<char>, prefix: Seq<char>, a: NginxAction) -> Seq<Seq<char>> {
    seq!["-c"@, forward_slashes(conf), "-p"@, forward_slashes(prefix)] + action_args(a)
}

/// The views of a sequence of strings.
pub open spec fn arg_views(v: Seq<String>) -> Seq<Seq<char>> {
    v.map_values(|s: String| s@)
}

/// The arguments nginx is run with for an action.
pub fn nginx_args(conf: &str, prefix: &str, action: NginxAction) -> (r: Vec<String>)
    ensures
        arg_views(r@) == nginx_args_spec(conf@, prefix@, action),
{
    let mut v: Vec<String> = Vec::new();
    v.push("-c".to_owned());
    v.push(string_of(&replace_char_exec(&chars_of(conf), '\\', "/")));
    v.push("-p".to_owned());
    v.push(string_of(&replace_char_exec(&chars_of(prefix), '\\', "/")));
    match action {
        NginxAction::Start => {},
        NginxAction::Reload => {
            v.push("-s".to_owned());
            v.push("reload".to_owned());
        },
        NginxAction::Quit => {
            v.push("-s".to_owned());
            v.push("quit".to_owned());
        },
        NginxAction::Test => {
            v.push("-t".to_owned());
        },
    }
    assert(arg_views(v@) =~= nginx_args_spec(conf@, prefix@, action));
    v
}

/// The pid recorded in nginx's pid file, if it holds one.
pub fn parse_pid_file(text: &str) -> (r: Option<u32>)
    ensures
        r == parse_u32(trim(text@)),
{
    parse_u32_exec(&trim_vec(&chars_of(text)))
}

/// Whether `tasklist /FI "PID eq <pid>" /NH` output shows the process.
pub fn tasklist_shows_pid(stdout: &str, pid: u32) -> (b: bool)
    ensures
        b == (!contains(stdout@, "No tasks"@) && contains(stdout@, decimal(pid as nat))),
{
    let s = chars_of(stdout);
    let mut p: Vec<char> = Vec::new();
    push_decimal(&mut p, pid as u64);
    let found = crate::text::find_from_exec(&s, &p, 0);
    proof {
        crate::text::lemma_find_from_contains(s@, p@, 0);
    }
    !contains_str(&s, "No tasks") && found.is_some()
}

/// The filter `tasklist` is given to look for a pid.
pub fn tasklist_pid_filter(pid: u32) -> (r: String)
    ensures
        r@ == "PID eq "@ + decimal(pid as nat),
{
    let mut v = chars_of("PID eq ");
    push_decimal(&mut v, pid as u64);
    string_of(&v)
}

/// The outcome of `nginx -t`: its report when it passed, else the report
/// after a heading.
pub fn config_test_outcome(success: bool, stderr: &str) -> (r: Result<String, String>)
    ensures
        match r {
            Ok(s) => success && s@ == stderr@,
            Err(e) => !success && e@ == "nginx config test failed:\n"@ + stderr@,
        },
{
    if success {
        Ok(stderr.to_owned())
    } else {
        let mut v = chars_of("nginx config test failed:\n");
        push_str(&mut v, stderr);
        Err(string_of(&v))
    }
}

/// The error of a reload refused because the configuration does not pass.
pub fn reload_aborted_error(test_error: &str) -> (r: String)
    ensures
        r@ == "nginx config validation failed, reload aborted:\n"@ + test_error@,
{
    let mut v = chars_of("nginx config validation failed, reload aborted:\n");
    push_str(&mut v, test_error);
    string_of(&v)
}

/// What a reload does next.
#[derive(Debug, Clone, PartialEq, Eq)]
pub enum ReloadStep {
    /// nginx does not run: nothing to reload.
    Skip,
    /// Run `nginx -t` and come back with its outcome.
    RunTest,
    /// The configuration failed its test: stop with this error.
    Abort(String),
    /// The configuration passed: send `-s reload`.
    Signal,
}

/// The next step of a reload, given whether nginx runs and, once it was
/// run, the outcome of `nginx -t` (see `config_test_outcome`).
pub open spec fn reload_step_spec(running: bool, test: Option<Result<Seq<char>, Seq<char>>>) -> Option<
    Result<bool, Seq<char>>,
> {
    if !running {
        None
    } else {
        match test {
            None => Some(Ok(false)),
            Some(Err(e)) => Some(Err("nginx config validation failed, reload aborted:\n"@ + e)),
            Some(Ok(_)) => Some(Ok(true)),
        }
    }
}

/// The view of a reload step: `None` to skip, `Ok(false)` to run the
/// test, `Ok(true)` to signal, `Err` to abort with that error.
pub open spec fn reload_step_view(s: ReloadStep) -> Option<Result<bool, Seq<char>>> {
    match s {
        ReloadStep::Skip => None,
        ReloadStep::RunTest => Some(Ok(false)),
        ReloadStep::Abort(e) => Some(Err(e@)),
        ReloadStep::Signal => Some(Ok(true)),
    }
}

/// The next step of a reload: skip when nginx does not run, test the
/// configuration first, abort when the test fails, else signal nginx.
pub fn reload_step(running: bool, test: &Option<Result<String, String>>) -> (r: ReloadStep)
    ensures
        reload_step_view(r) == reload_step_spec(
            running,
            match test {
                None => None,
                Some(Ok(o)) => Some(Ok(o@)),
                Some(Err(e)) => Some(Err(e@)),
            },
        ),
{
    if !running {
        return ReloadStep::Skip;
    }
    match test {
        None => ReloadStep::RunTest,
        Some(Err(e)) => ReloadStep::Abort(reload_aborted_error(e.as_str())),
        Some(Ok(_)) => ReloadStep::Signal,
    }
}

/// Where to read the access log from next: from the start after the file
/// shrank (rotated or truncated), else from where reading stopped; whether
/// there is anything new; and where reading stops this time.
pub open spec fn tail_plan(last_pos: u64, current_len: u64) -> (u64, bool, u64) {
    let from = if current_len < last_pos {
        0u64
    } else {
        last_pos
    };
    (from, current_len > from, if current_len > from {
        current_len
    } else {
        from
    })
}

/// Where to read the access log from next, and whether to read.
pub fn tail_step(last_pos: u64, current_len: u64) -> (r: (u64, bool, u64))
    ensures
        r == tail_plan(last_pos, current_len),
{
    let from: u64 = if current_len < last_pos {
        0
    } else {
        last_pos
    };
    if current_len > from {
        (from, true, current_len)
    } else {
        (from, false, from)
    }
}

/// While the access log only grows, each poll reads exactly what was
/// appended since the previous one: from where that one stopped up to the
/// current end; after the log shrank, reading starts over from its start.
pub proof fn law_tail_reads_appended(last_pos: u64, len1: u64, len2: u64)
    ensures
        last_pos <= len1 ==> tail_plan(last_pos, len1).0 == last_pos && tail_plan(
            last_pos,
            len1,
        ).2 == len1,
        last_pos <= len1 <= len2 ==> tail_plan(tail_plan(last_pos, len1).2, len2).0 == len1,
        len1 < last_pos ==> tail_plan(last_pos, len1).0 == 0 && tail_plan(last_pos, len1).2
            == len1,
        tail_plan(last_pos, len1).1 <==> tail_plan(last_pos, len1).0 < len1,
{
}

/// The access-log records in newly read text: its trimmed non-empty lines.
pub fn access_log_records(chunk: &str) -> (r: Vec<String>)
    ensures
        crate::docker::texts(r@) == crate::docker::nonempty_trimmed(lines(chunk@)),
{
    let ls = crate::text::split_lines(&chars_of(chunk));
    let ghost all = lines(chunk@);
    let mut out: Vec<String> = Vec::new();
    let mut k: usize = 0;
    assert(all.take(0) =~= Seq::<Seq<char>>::empty());
    while k < ls.len()
        invariant
            k <= ls.len(),
            crate::text::views(ls@) == all,
            crate::docker::texts(out@) == crate::docker::nonempty_trimmed(all.take(k as int)),
        decreases ls.len() - k,
    {
        assert(all.take(k + 1).drop_last() =~= all.take(k as int));
        assert(all.take(k + 1).last() == ls@[k as int]@);
        let l = trim_vec(&ls[k]);
        if l.len() > 0 {
            let ghost before = crate::docker::texts(out@);
            out.push(string_of(&l));
            assert(crate::docker::texts(out@) =~= before.push(l@));
        }
        k = k + 1;
    }
    assert(all.take(ls.len() as int) =~= all);
    out
}

/// Whether `serde_json` reads `text` as a JSON value.
pub uninterp spec fn json_valid(text: Seq<char>) -> bool;

/// `serde_json::from_str::<Value>(rec).is_ok()`. Trusted: whether a text is
/// JSON depends on the text alone (named `json_valid`).
#[verifier::external_body]
fn is_json(rec: &str) -> (b: bool)
    ensures
        b == json_valid(rec@),
{
    serde_json::from_str::<serde_json::Value>(rec).is_ok()
}

/// The texts of `rs` that are JSON, in order.
pub open spec fn json_texts(rs: Seq<Seq<char>>) -> Seq<Seq<char>>
    decreases rs.len(),
{
    if rs.len() == 0 {
        Seq::empty()
    } else {
        let before = json_texts(rs.drop_last());
        if json_valid(rs.last()) {
            before.push(rs.last())
        } else {
            before
        }
    }
}

/// The access-log events in newly read text: its trimmed non-empty lines
/// that are JSON, in order.
pub fn access_log_events(chunk: &str) -> (r: Vec<String>)
    ensures
        crate::docker::texts(r@) == json_texts(crate::docker::nonempty_trimmed(lines(chunk@))),
{
    let recs = access_log_records(chunk);
    let ghost all = crate::docker::texts(recs@);
    let mut out: Vec<String> = Vec::new();
    let mut k: usize = 0;
    assert(all.take(0) =~= Seq::<Seq<char>>::empty());
    while k < recs.len()
        invariant
            k <= recs.len(),
            all == crate::docker::texts(recs@),
            crate::docker::texts(out@) == json_texts(all.take(k as int)),
        decreases recs.len() - k,
    {
        assert(all.take(k + 1).drop_last() =~= all.take(k as int));
        assert(all.take(k + 1).last() == recs@[k as int]@);
        if is_json(recs[k].as_str()) {
            let ghost before = crate::docker::texts(out@);
            out.push(recs[k].clone());
            assert(crate::docker::texts(out@) =~= before.push(recs@[k as int]@));
        }
        k = k + 1;
    }
    assert(all.take(recs.len() as int) =~= all);
    out
}

/// The file name of a bundled helper: `base-<target triple><exe suffix>`, or
/// `base<exe suffix>` on a platform without a known triple.
pub open spec fn sidecar_spec(base: Seq<char>, triple: Seq<char>, exe_suffix: Seq<char>) -> Seq<char> {
    if triple.len() == 0 {
        base + exe_suffix
    } else {
        base + "-"@ + triple + exe_suffix
    }
}

/// The file name of a bundled helper program.
pub fn sidecar_name(base: &str, triple: &str, exe_suffix: &str) -> (r: String)
    ensures
        r@ == sidecar_spec(base@, triple@, exe_suffix@),
{
    let t = chars_of(triple);
    let mut v = chars_of(base);
    if t.len() > 0 {
        push_str(&mut v, "-");
        push_str(&mut v, triple);
    }
    push_str(&mut v, exe_suffix);
    string_of(&v)
}

/// The target triple of the bundled helpers for an operating system and
/// architecture (as `std::env::consts` names them); empty for others.
pub open spec fn triple_of(os: Seq<char>, arch: Seq<char>) -> &'static str {
    if os == "windows"@ && arch == "x86_64"@ {
        "x86_64-pc-windows-msvc"
    } else if os == "windows"@ && arch == "aarch64"@ {
        "aarch64-pc-windows-msvc"
    } else if os == "macos"@ && arch == "x86_64"@ {
        "x86_64-apple-darwin"
    } else if os == "macos"@ && arch == "aarch64"@ {
        "aarch64-apple-darwin"
    } else if os == "linux"@ && arch == "x86_64"@ {
        "x86_64-unknown-linux-gnu"
    } else if os == "linux"@ && arch == "aarch64"@ {
        "aarch64-unknown-linux-gnu"
    } else {
        ""
    }
}

/// The target triple of the bundled helpers.
pub fn target_triple(os: &str, arch: &str) -> (r: &'static str)
    ensures
        r == triple_of(os@, arch@),
{
    let o = chars_of(os);
    let a = chars_of(arch);
    if crate::text::eq_str(&o, "windows") && crate::text::eq_str(&a, "x86_64") {
        "x86_64-pc-windows-msvc"
    } else if crate::text::eq_str(&o, "windows") && crate::text::eq_str(&a, "aarch64") {
        "aarch64-pc-windows-msvc"
    } else if crate::text::eq_str(&o, "macos") && crate::text::eq_str(&a, "x86_64") {
        "x86_64-apple-darwin"
    } else if crate::text::eq_str(&o, "macos") && crate::text::eq_str(&a, "aarch64") {
        "aarch64-apple-darwin"
    } else if crate::text::eq_str(&o, "linux") && crate::text::eq_str(&a, "x86_64") {
        "x86_64-unknown-linux-gnu"
    } else if crate::text::eq_str(&o, "linux") && crate::text::eq_str(&a, "aarch64") {
        "aarch64-unknown-linux-gnu"
    } else {
        ""
    }
}

/// The first candidate that exists, else the fallback.
pub open spec fn first_existing_spec(cands: Seq<Seq<char>>, exists: Seq<bool>, fallback: Seq<char>) -> Seq<char>
    decreases cands.len(),
{
    if cands.len() == 0 || exists.len() == 0 {
        fallback
    } else if exists[0] {
        cands[0]
    } else {
        first_existing_spec(cands.drop_first(), exists.drop_first(), fallback)
    }
}

/// The first candidate path that exists (`exists[i]` tells of `candidates[i]`),
/// else the fallback.
pub fn first_existing(candidates: &Vec<String>, exists: &Vec<bool>, fallback: &str) -> (r: String)
    ensures
        r@ == first_existing_spec(arg_views(candidates@), exists@, fallback@),
{
    let ghost cs = arg_views(candidates@);
    let mut i: usize = 0;
    assert(cs.skip(0) =~= cs);
    assert(exists@.skip(0) =~= exists@);
    while i < candidates.len() && i < exists.len()
        invariant
            i <= candidates.len(),
            i <= exists.len(),
            cs == arg_views(candidates@),
            first_existing_spec(cs, exists@, fallback@) == first_existing_spec(
                cs.skip(i as int),
                exists@.skip(i as int),
                fallback@,
            ),
        decreases candidates.len() - i,
    {
        assert(cs.skip(i as int)[0] == candidates@[i as int]@);
        assert(exists@.skip(i as int)[0] == exists@[i as int]);
        if exists[i] {
            return candidates[i].clone();
        }
        assert(cs.skip(i as int).drop_first() =~= cs.skip(i + 1));
        assert(exists@.skip(i as int).drop_first() =~= exists@.skip(i + 1));
        i = i + 1;
    }
    assert(cs.len() == candidates@.len());
    assert(cs.skip(i as int).len() == 0 || exists@.skip(i as int).len() == 0);
    fallback.to_owned()
}


/// Where a helper bundled with HyperHost may be, in order: its platform
/// file name, then its plain file name, in the program's directory; then
/// its platform file name under `src-tauri/binaries` and under `binaries`
/// (the paths of a development checkout).
pub open spec fn bundled_spec(base: Seq<char>, dir: Seq<char>, triple: Seq<char>, suffix: Seq<char>, sep: char) -> Seq<Seq<char>> {
    let sc = sidecar_spec(base, triple, suffix);
    seq![
        join_path(dir, sc, sep),
        join_path(dir, base + suffix, sep),
        join_path("src-tauri/binaries"@, sc, sep),
        join_path("binaries"@, sc, sep),
    ]
}

/// The places a bundled helper program `base` is looked for (see
/// `bundled_spec`), for the program's directory `exe_dir`, the platform
/// named by `os`, `arch` and `exe_suffix`, and the path separator `sep`.
pub fn bundled_candidates(base: &str, exe_dir: &str, os: &str, arch: &str, exe_suffix: &str, sep: char) -> (r: Vec<String>)
    ensures
        arg_views(r@) == bundled_spec(base@, exe_dir@, triple_of(os@, arch@)@, exe_suffix@, sep),
{
    let triple = target_triple(os, arch);
    let sc = sidecar_name(base, triple, exe_suffix);
    let dir = chars_of(exe_dir);
    let mut plain = chars_of(base);
    push_str(&mut plain, exe_suffix);
    let plain_s = string_of(&plain);
    let mut v: Vec<String> = Vec::new();
    v.push(string_of(&join(&dir, sc.as_str(), sep)));
    v.push(string_of(&join(&dir, plain_s.as_str(), sep)));
    v.push(string_of(&join(&chars_of("src-tauri/binaries"), sc.as_str(), sep)));
    v.push(string_of(&join(&chars_of("binaries"), sc.as_str(), sep)));
    assert(arg_views(v@) =~= bundled_spec(base@, exe_dir@, triple_of(os@, arch@)@, exe_suffix@, sep));
    v
}

/// Where nginx is looked for: the bundled copy on Windows, Homebrew and
/// MacPorts places on macOS, the usual system places elsewhere.
pub open spec fn nginx_candidates_spec(os: Seq<char>, arch: Seq<char>, dir: Seq<char>, suffix: Seq<char>, sep: char) -> Seq<Seq<char>> {
    if os == "windows"@ {
        bundled_spec("nginx"@, dir, triple_of(os, arch)@, suffix, sep)
    } else if os == "macos"@ {
        seq!["/opt/homebrew/bin/nginx"@, "/usr/local/bin/nginx"@, "/opt/local/bin/nginx"@]
    } else {
        seq!["/usr/sbin/nginx"@, "/usr/bin/nginx"@, "/usr/local/sbin/nginx"@, "/usr/local/bin/nginx"@]
    }
}

/// The program name nginx is run by when no candidate exists.
pub open spec fn nginx_fallback_spec(os: Seq<char>, suffix: Seq<char>) -> Seq<char> {
    if os == "windows"@ {
        "nginx"@ + suffix
    } else {
        "nginx"@
    }
}

/// The places nginx is looked for, in order, and the name to run when none
/// exists.
pub fn nginx_candidates(os: &str, arch: &str, exe_dir: &str, exe_suffix: &str, sep: char) -> (r: (Vec<String>, String))
    ensures
        arg_views(r.0@) == nginx_candidates_spec(os@, arch@, exe_dir@, exe_suffix@, sep),
        r.1@ == nginx_fallback_spec(os@, exe_suffix@),
{
    let o = chars_of(os);
    if crate::text::eq_str(&o, "windows") {
        let mut f = chars_of("nginx");
        push_str(&mut f, exe_suffix);
        (bundled_candidates("nginx", exe_dir, os, arch, exe_suffix, sep), string_of(&f))
    } else if crate::text::eq_str(&o, "macos") {
        let mut v: Vec<String> = Vec::new();
        v.push("/opt/homebrew/bin/nginx".to_string());
        v.push("/usr/local/bin/nginx".to_string());
        v.push("/opt/local/bin/nginx".to_string());
        assert(arg_views(v@) =~= nginx_candidates_spec(os@, arch@, exe_dir@, exe_suffix@, sep));
        (v, "nginx".to_string())
    } else {
        let mut v: Vec<String> = Vec::new();
        v.push("/usr/sbin/nginx".to_string());
        v.push("/usr/bin/nginx".to_string());
        v.push("/usr/local/sbin/nginx".to_string());
        v.push("/usr/local/bin/nginx".to_string());
        assert(arg_views(v@) =~= nginx_candidates_spec(os@, arch@, exe_dir@, exe_suffix@, sep));
        (v, "nginx".to_string())
    }
}

/// Where cloudflared is looked for: its platform file name in the program's
/// directory, then under `binaries` of the directory two levels up (a
/// development build), when there is one.
pub open spec fn cloudflared_candidates_spec(dir: Seq<char>, dev_dir: Option<Seq<char>>, triple: Seq<char>, suffix: Seq<char>, sep: char) -> Seq<Seq<char>> {
    let sc = sidecar_spec("cloudflared"@, triple, suffix);
    match dev_dir {
        Some(d) => seq![join_path(dir, sc, sep), join_path(join_path(d, "binaries"@, sep), sc, sep)],
        None => seq![join_path(dir, sc, sep)],
    }
}

/// The places cloudflared is looked for, in order, and the name to run
/// when none exists (`cloudflared` with the platform's suffix).
pub fn cloudflared_candidates(exe_dir: &str, dev_dir: Option<&str>, os: &str, arch: &str, exe_suffix: &str, sep: char) -> (r: (Vec<String>, String))
    ensures
        arg_views(r.0@) == cloudflared_candidates_spec(
            exe_dir@,
            match dev_dir {
                Some(d) => Some(d@),
                None => None,
            },
            triple_of(os@, arch@)@,
            exe_suffix@,
            sep,
        ),
        r.1@ == "cloudflared"@ + exe_suffix@,
{
    let sc = sidecar_name("cloudflared", target_triple(os, arch), exe_suffix);
    let mut v: Vec<String> = Vec::new();
    v.push(string_of(&join(&chars_of(exe_dir), sc.as_str(), sep)));
    match dev_dir {
        Some(d) => {
            let b = join(&chars_of(d), "binaries", sep);
            v.push(string_of(&join(&b, sc.as_str(), sep)));
        },
        None => {},
    }
    let mut f = chars_of("cloudflared");
    push_str(&mut f, exe_suffix);
    assert(arg_views(v@) =~= cloudflared_candidates_spec(
        exe_dir@,
        match dev_dir {
            Some(d) => Some(d@),
            None => None,
        },
        triple_of(os@, arch@)@,
        exe_suffix@,
        sep,
    ));
    (v, string_of(&f))
}
} // verus!
