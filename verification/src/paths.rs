//! Where HyperHost keeps its data: one base directory and fixed names under it.

use vstd::prelude::*;
use crate::text::{chars_of, push_str, string_of};

verus! {

/// The platform's path separator (`std::path::MAIN_SEPARATOR`). Trusted:
/// it is `'/'` or `'\\'`; which one depends on the platform.
#[verifier::external_body]
fn main_separator() -> (c: char)
    ensures
        c == '/' || c == '\\',
{
    std::path::MAIN_SEPARATOR
}

/// `base` joined with a relative `part`, as `PathBuf::join` does: a
/// separator goes between them unless `base` is empty or already ends with one.
pub open spec fn join_path(base: Seq<char>, part: Seq<char>, sep: char) -> Seq<char> {
    if base.len() == 0 {
        part
    } else if base.last() == sep || base.last() == '/' {
        base + part
    } else {
        base + seq![sep] + part
    }
}

pub(crate) fn join(base: &Vec<char>, part: &str, sep: char) -> (r: Vec<char>)
    ensures
        r@ == join_path(base@, part@, sep),
{
    let mut out = base.clone();
    assert(out@ == base@);
    if base.len() > 0 && base[base.len() - 1] != sep && base[base.len() - 1] != '/' {
        out.push(sep);
    }
    push_str(&mut out, part);
    out
}

/// The data directory of a fresh install and of an older one.
pub open spec fn base_dir_for(local_app_data: Option<Seq<char>>, legacy_exists: bool, sep: char) -> Seq<char> {
    match local_app_data {
        None => "."@,
        Some(d) => if legacy_exists {
            join_path(d, "DevHost"@, sep)
        } else {
            join_path(d, "HyperHost"@, sep)
        },
    }
}

/// All data lives under one base directory: `<LOCALAPPDATA>/HyperHost`, or
/// an existing `<LOCALAPPDATA>/DevHost` of an older install, or `.` when
/// there is no local application data directory.
pub struct AppPaths {
    base: String,
    sep: char,
}

impl AppPaths {
    /// The separator the paths are built with.
    pub closed spec fn separator(&self) -> char {
        self.sep
    }

    /// The base directory.
    pub closed spec fn base(&self) -> Seq<char> {
        self.base@
    }

    /// `name` under the base directory.
    pub open spec fn under(&self, name: Seq<char>) -> Seq<char> {
        join_path(self.base(), name, self.separator())
    }

    /// `a/b` under the base directory.
    pub open spec fn under2(&self, a: Seq<char>, b: Seq<char>) -> Seq<char> {
        join_path(self.under(a), b, self.separator())
    }

    /// The separator the paths are built with.
    pub fn separator_char(&self) -> (c: char)
        ensures
            c == self.separator(),
            c == '/' || c == '\\',
    {
        proof {
            use_type_invariant(self);
        }
        self.sep
    }

    #[verifier::type_invariant]
    spec fn wf(self) -> bool {
        self.sep == '/' || self.sep == '\\'
    }

    /// Paths under the data directory found from the local application
    /// data directory (if the environment names one) and whether an older
    /// `DevHost` directory exists there.
    pub fn new(local_app_data: Option<&str>, legacy_exists: bool) -> (r: Self)
        ensures
            r.base() == base_dir_for(
                match local_app_data {
                    Some(d) => Some(d@),
                    None => None,
                },
                legacy_exists,
                r.separator(),
            ),
    {
        let sep = main_separator();
        let base = match local_app_data {
            None => chars_of("."),
            Some(d) => {
                let dv = chars_of(d);
                if legacy_exists {
                    join(&dv, "DevHost", sep)
                } else {
                    join(&dv, "HyperHost", sep)
                }
            },
        };
        AppPaths { base: string_of(&base), sep }
    }

    /// The base directory.
    pub fn base_dir(&self) -> (r: &String)
        ensures
            r@ == self.base(),
    {
        &self.base
    }

    fn path(&self, name: &str) -> (r: String)
        ensures
            r@ == self.under(name@),
    {
        let b = chars_of(self.base.as_str());
        string_of(&join(&b, name, self.sep))
    }

    fn path2(&self, a: &str, b: &str) -> (r: String)
        ensures
            r@ == self.under2(a@, b@),
    {
        let base = chars_of(self.base.as_str());
        let first = join(&base, a, self.sep);
        string_of(&join(&first, b, self.sep))
    }

    /// The database file of an older install.
    pub fn legacy_db_path(&self) -> (r: String)
        ensures
            r@ == self.under("devhost.db"@),
    {
        self.path("devhost.db")
    }

    /// The database: the older `devhost.db` when it exists, else `hyperhost.db`.
    pub fn db_path(&self, legacy_exists: bool) -> (r: String)
        ensures
            r@ == (if legacy_exists {
                self.under("devhost.db"@)
            } else {
                self.under("hyperhost.db"@)
            }),
    {
        if legacy_exists {
            self.path("devhost.db")
        } else {
            self.path("hyperhost.db")
        }
    }

    /// The certificate of the local authority.
    pub fn ca_cert(&self) -> (r: String)
        ensures
            r@ == self.under("ca.crt"@),
    {
        self.path("ca.crt")
    }

    /// The private key of the local authority.
    pub fn ca_key(&self) -> (r: String)
        ensures
            r@ == self.under("ca.key"@),
    {
        self.path("ca.key")
    }

    /// Where the domain certificates are kept.
    pub fn cert_dir(&self) -> (r: String)
        ensures
            r@ == self.under("certs"@),
    {
        self.path("certs")
    }

    /// The nginx prefix directory.
    pub fn nginx_dir(&self) -> (r: String)
        ensures
            r@ == self.under("nginx"@),
    {
        self.path("nginx")
    }

    /// The generated `nginx.conf`.
    pub fn nginx_conf(&self) -> (r: String)
        ensures
            r@ == self.under2("nginx"@, "nginx.conf"@),
    {
        self.path2("nginx", "nginx.conf")
    }

    /// The nginx log directory.
    pub fn nginx_logs(&self) -> (r: String)
        ensures
            r@ == self.under2("nginx"@, "logs"@),
    {
        self.path2("nginx", "logs")
    }

    /// The nginx `conf` directory (where `mime.types` lives).
    pub fn nginx_conf_subdir(&self) -> (r: String)
        ensures
            r@ == self.under2("nginx"@, "conf"@),
    {
        self.path2("nginx", "conf")
    }

    /// Where cloudflared tunnel configurations are kept.
    pub fn cloudflared_dir(&self) -> (r: String)
        ensures
            r@ == self.under("cloudflared"@),
    {
        self.path("cloudflared")
    }

    /// The configuration file of a named tunnel: `<name>.yml` in the cloudflared directory.
    pub fn tunnel_config(&self, tunnel_name: &str) -> (r: String)
        ensures
            r@ == join_path(self.under("cloudflared"@), tunnel_name@ + ".yml"@, self.separator()),
    {
        let base = chars_of(self.base.as_str());
        let dir = join(&base, "cloudflared", self.sep);
        let mut file = chars_of(tunnel_name);
        push_str(&mut file, ".yml");
        let f = string_of(&file);
        string_of(&join(&dir, f.as_str(), self.sep))
    }

    /// The application log.
    pub fn log_path(&self) -> (r: String)
        ensures
            r@ == self.under("hyperhost.log"@),
    {
        self.path("hyperhost.log")
    }
}


/// Every path built under a directory starts with that directory.
pub proof fn law_joined_under(base: Seq<char>, part: Seq<char>, sep: char)
    ensures
        join_path(base, part, sep).subrange(0, base.len() as int) == base,
        join_path(base, part, sep).len() >= base.len(),
{
    if base.len() > 0 {
        assert(join_path(base, part, sep).subrange(0, base.len() as int) =~= base);
    }
}

} // verus!
