//! Writing protected files and installing the local authority with
//! administrator rights on Windows: the PowerShell scripts run for it, the
//! temporary file names they use, and how their recorded result is read.
//!
//! Writing the scripts and starting PowerShell are left to the caller.

use vstd::prelude::*;
use crate::text::{
    chars_of, push_all, push_decimal_wide, push_str, replace_char, replace_char_exec, starts_with,
    starts_with_str, string_of, trim, trim_start_by, trim_start_str, trim_vec, decimal,
};

verus! {

/// A text quoted for a single-quoted PowerShell string: each `'` doubled.
pub open spec fn ps_quoted(s: Seq<char>) -> Seq<char> {
    replace_char(s, '\'', "''"@)
}

/// A text quoted for a single-quoted PowerShell string.
pub fn ps_quote(s: &str) -> (r: String)
    ensures
        r@ == ps_quoted(s@),
{
    string_of(&replace_char_exec(&chars_of(s), '\'', "''"))
}

/// A temporary file name: `prefix`, the timestamp in decimal, `suffix`.
pub fn temp_file_name(prefix: &str, timestamp_ms: u128, suffix: &str) -> (r: String)
    ensures
        r@ == prefix@ + decimal(timestamp_ms as nat) + suffix@,
{
    let mut v = chars_of(prefix);
    push_decimal_wide(&mut v, timestamp_ms);
    push_str(&mut v, suffix);
    string_of(&v)
}

/// What an elevated script recorded, read: the byte-order marks and the
/// surrounding whitespace removed.
pub open spec fn recorded_result(text: Seq<char>) -> Seq<char> {
    trim(trim_start_str(text, seq!['\u{feff}']))
}

/// The outcome an elevated script recorded: nothing means the prompt was
/// refused (`empty_error`); anything but `OK...` is the error, after `failed`.
pub open spec fn elevated_outcome(text: Seq<char>, empty_error: Seq<char>, failed: Seq<char>) -> Result<
    (),
    Seq<char>,
> {
    let r = recorded_result(text);
    if r.len() == 0 {
        Err(empty_error)
    } else if !starts_with(r, "OK"@) {
        Err(failed + r)
    } else {
        Ok(())
    }
}

fn outcome(text: &str, empty_error: &str, failed: &str) -> (r: Result<(), String>)
    ensures
        match r {
            Ok(()) => elevated_outcome(text@, empty_error@, failed@) is Ok,
            Err(e) => elevated_outcome(text@, empty_error@, failed@) == Err::<(), Seq<char>>(e@),
        },
{
    let mut bom: Vec<char> = Vec::new();
    bom.push('\u{feff}');
    assert(bom@ =~= seq!['\u{feff}']);
    let r = trim_vec(&trim_start_by(&chars_of(text), &bom));
    if r.len() == 0 {
        return Err(empty_error.to_owned());
    }
    if !starts_with_str(&r, "OK") {
        let mut m = chars_of(failed);
        push_all(&mut m, &r);
        return Err(string_of(&m));
    }
    Ok(())
}

/// The outcome of an elevated file write, from what its script recorded.
pub fn elevated_write_outcome(recorded: &str) -> (r: Result<(), String>)
    ensures
        match r {
            Ok(()) => elevated_outcome(
                recorded@,
                "Elevated write failed: no result — user may have denied UAC prompt"@,
                "Elevated write failed: "@,
            ) is Ok,
            Err(e) => elevated_outcome(
                recorded@,
                "Elevated write failed: no result — user may have denied UAC prompt"@,
                "Elevated write failed: "@,
            ) == Err::<(), Seq<char>>(e@),
        },
{
    outcome(
        recorded,
        "Elevated write failed: no result — user may have denied UAC prompt",
        "Elevated write failed: ",
    )
}

/// The outcome of installing the authority in the machine's root store,
/// from what its script recorded.
pub fn ca_install_outcome(recorded: &str) -> (r: Result<(), String>)
    ensures
        match r {
            Ok(()) => elevated_outcome(
                recorded@,
                "CA install failed: no result written — user may have denied UAC prompt, or elevated process crashed before writing"@,
                "CA install failed: "@,
            ) is Ok,
            Err(e) => elevated_outcome(
                recorded@,
                "CA install failed: no result written — user may have denied UAC prompt, or elevated process crashed before writing"@,
                "CA install failed: "@,
            ) == Err::<(), Seq<char>>(e@),
        },
{
    outcome(
        recorded,
        "CA install failed: no result written — user may have denied UAC prompt, or elevated process crashed before writing",
        "CA install failed: ",
    )
}

/// The PowerShell script, run elevated, that copies `content` over `target` and records `OK` or the error in `result` (paths already quoted for single-quoted strings).
pub open spec fn copy_script_text(content: Seq<char>, target: Seq<char>, result: Seq<char>) -> Seq<char> {
    "\n        try {\n            Copy-Item -Path '"@ + content + "' -Destination '"@ + target + "' -Force\n            Set-Content -Path '"@ + result + "' -Value 'OK' -Encoding UTF8\n        } catch {\n            Set-Content -Path '"@ + result + "' -Value \"ERROR: $_\" -Encoding UTF8\n        }\n        "@
}

/// The PowerShell script, run elevated, that copies `content` over `target` and records `OK` or the error in `result` (paths already quoted for single-quoted strings).
pub fn elevated_copy_script(content: &str, target: &str, result: &str) -> (r: String)
    ensures
        r@ == copy_script_text(content@, target@, result@),
{
    let mut v: Vec<char> = Vec::new();
    push_str(&mut v, "\n        try {\n            Copy-Item -Path '");
    push_str(&mut v, content);
    push_str(&mut v, "' -Destination '");
    push_str(&mut v, target);
    push_str(&mut v, "' -Force\n            Set-Content -Path '");
    push_str(&mut v, result);
    push_str(&mut v, "' -Value 'OK' -Encoding UTF8\n        } catch {\n            Set-Content -Path '");
    push_str(&mut v, result);
    push_str(&mut v, "' -Value \"ERROR: $_\" -Encoding UTF8\n        }\n        ");
    assert(v@ =~= copy_script_text(content@, target@, result@));
    string_of(&v)
}

/// The PowerShell script that runs `install_script` elevated and waits for it (the path already quoted).
pub open spec fn wrapper_script_text(install_script: Seq<char>) -> Seq<char> {
    "\n        Start-Process powershell -Verb RunAs -Wait -ArgumentList @(\n            '-NoProfile',\n            '-NonInteractive',\n            '-ExecutionPolicy', 'Bypass',\n            '-WindowStyle', 'Hidden',\n            '-File', '"@ + install_script + "'\n        )\n        "@
}

/// The PowerShell script that runs `install_script` elevated and waits for it (the path already quoted).
pub fn elevation_wrapper_script(install_script: &str) -> (r: String)
    ensures
        r@ == wrapper_script_text(install_script@),
{
    let mut v: Vec<char> = Vec::new();
    push_str(&mut v, "\n        Start-Process powershell -Verb RunAs -Wait -ArgumentList @(\n            '-NoProfile',\n            '-NonInteractive',\n            '-ExecutionPolicy', 'Bypass',\n            '-WindowStyle', 'Hidden',\n            '-File', '");
    push_str(&mut v, install_script);
    push_str(&mut v, "'\n        )\n        ");
    assert(v@ =~= wrapper_script_text(install_script@));
    string_of(&v)
}

/// The PowerShell script that exits with 0 exactly when the certificate at `cert` is in the machine's root store, compared by thumbprint (the path already quoted).
pub open spec fn ca_check_script_text(cert: Seq<char>) -> Seq<char> {
    "\n        try {\n            $cert = New-Object System.Security.Cryptography.X509Certificates.X509Certificate2 '"@ + cert + "'\n            $thumb = $cert.Thumbprint\n            \n            $store = New-Object System.Security.Cryptography.X509Certificates.X509Store 'Root', 'LocalMachine'\n            $store.Open('ReadOnly')\n            \n            $found = $false\n            foreach ($c in $store.Certificates) {\n                if ($c.Thumbprint -eq $thumb) {\n                    $found = $true\n                    break\n                }\n            }\n            \n            $store.Close()\n            \n            if ($found) { exit 0 } else { exit 1 }\n        } catch {\n            exit 1\n        }\n        "@
}

/// The PowerShell script that exits with 0 exactly when the certificate at `cert` is in the machine's root store, compared by thumbprint (the path already quoted).
pub fn ca_check_script(cert: &str) -> (r: String)
    ensures
        r@ == ca_check_script_text(cert@),
{
    let mut v: Vec<char> = Vec::new();
    push_str(&mut v, "\n        try {\n            $cert = New-Object System.Security.Cryptography.X509Certificates.X509Certificate2 '");
    push_str(&mut v, cert);
    push_str(&mut v, "'\n            $thumb = $cert.Thumbprint\n            \n            $store = New-Object System.Security.Cryptography.X509Certificates.X509Store 'Root', 'LocalMachine'\n            $store.Open('ReadOnly')\n            \n            $found = $false\n            foreach ($c in $store.Certificates) {\n                if ($c.Thumbprint -eq $thumb) {\n                    $found = $true\n                    break\n                }\n            }\n            \n            $store.Close()\n            \n            if ($found) { exit 0 } else { exit 1 }\n        } catch {\n            exit 1\n        }\n        ");
    assert(v@ =~= ca_check_script_text(cert@));
    string_of(&v)
}

/// The PowerShell script, run elevated, that adds the certificate at `cert` to the machine's root store and records `OK` or the error in `result` (paths already quoted).
pub open spec fn ca_install_script_text(cert: Seq<char>, result: Seq<char>) -> Seq<char> {
    "\n        try {\n            $cert = New-Object System.Security.Cryptography.X509Certificates.X509Certificate2 '"@ + cert + "'\n            $store = New-Object System.Security.Cryptography.X509Certificates.X509Store 'Root', 'LocalMachine'\n            $store.Open('ReadWrite')\n            $store.Add($cert)\n            $store.Close()\n            Set-Content -Path '"@ + result + "' -Value 'OK' -Encoding UTF8\n        } catch {\n            Set-Content -Path '"@ + result + "' -Value \"ERROR: $_\" -Encoding UTF8\n        }\n        "@
}

/// The PowerShell script, run elevated, that adds the certificate at `cert` to the machine's root store and records `OK` or the error in `result` (paths already quoted).
pub fn ca_install_script(cert: &str, result: &str) -> (r: String)
    ensures
        r@ == ca_install_script_text(cert@, result@),
{
    let mut v: Vec<char> = Vec::new();
    push_str(&mut v, "\n        try {\n            $cert = New-Object System.Security.Cryptography.X509Certificates.X509Certificate2 '");
    push_str(&mut v, cert);
    push_str(&mut v, "'\n            $store = New-Object System.Security.Cryptography.X509Certificates.X509Store 'Root', 'LocalMachine'\n            $store.Open('ReadWrite')\n            $store.Add($cert)\n            $store.Close()\n            Set-Content -Path '");
    push_str(&mut v, result);
    push_str(&mut v, "' -Value 'OK' -Encoding UTF8\n        } catch {\n            Set-Content -Path '");
    push_str(&mut v, result);
    push_str(&mut v, "' -Value \"ERROR: $_\" -Encoding UTF8\n        }\n        ");
    assert(v@ =~= ca_install_script_text(cert@, result@));
    string_of(&v)
}

} // verus!
