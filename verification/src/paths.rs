use vstd::prelude::*;
use crate::text::{chars_of, decimal, decimal_chars, string_from_chars};

verus! {

/// `base` joined with `rel` as `Path::join` does on Unix: an absolute `rel`
/// replaces `base`; otherwise a `/` separates them unless `base` is empty or
/// already ends in `/`.
pub open spec fn joined(base: Seq<char>, rel: Seq<char>) -> Seq<char> {
    if rel.len() > 0 && rel[0] == '/' {
        rel
    } else if base.len() == 0 || base.last() == '/' {
        base + rel
    } else {
        base + seq!['/'] + rel
    }
}

/// Appends the characters of `s` to `v`.
fn append_chars(v: &mut Vec<char>, s: &[char])
    ensures
        final(v)@ == old(v)@ + s@,
{
    let n = s.len();
    let ghost start = v@;
    for i in 0..n
        invariant
            n == s@.len(),
            v@ == start + s@.take(i as int),
    {
        v.push(s[i]);
        assert(v@ =~= start + s@.take(i + 1));
    }
    assert(s@.take(n as int) =~= s@);
}

/// Joins a relative or absolute path onto `base` (Unix `Path::join`).
pub fn path_join(base: &str, rel: &str) -> (r: String)
    ensures
        r@ == joined(base@, rel@),
{
    let b = chars_of(base);
    let x = chars_of(rel);
    if x.len() > 0 && x[0] == '/' {
        return string_from_chars(&x);
    }
    let mut out: Vec<char> = Vec::new();
    append_chars(&mut out, &b);
    if !(b.len() == 0 || b[b.len() - 1] == '/') {
        out.push('/');
    }
    append_chars(&mut out, &x);
    string_from_chars(&out)
}

/// The runtime directory: `$XDG_RUNTIME_DIR` when it is set, else `/run/user/<uid>`.
pub open spec fn runtime_dir_of(xdg_runtime_dir: Option<Seq<char>>, uid: u32) -> Seq<char> {
    match xdg_runtime_dir {
        Some(d) => d,
        None => "/run/user/"@ + decimal(uid as nat),
    }
}

/// Return the XDG user runtime directory (`/run/user/<uid>` unless
/// `$XDG_RUNTIME_DIR`, given here as `xdg_runtime_dir`, is set).
pub fn runtime_dir(xdg_runtime_dir: Option<&str>, uid: u32) -> (r: String)
    ensures
        r@ == runtime_dir_of(
            match xdg_runtime_dir {
                Some(d) => Some(d@),
                None => None,
            },
            uid,
        ),
{
    match xdg_runtime_dir {
        Some(d) => d.to_owned(),
        None => {
            let mut out = chars_of("/run/user/");
            let digits = decimal_chars(uid as u64);
            append_chars(&mut out, &digits);
            string_from_chars(&out)
        },
    }
}

/// Main daemon socket (subscribable API), inside the runtime directory.
pub fn daemon_socket(runtime_dir: &str) -> (r: String)
    ensures
        r@ == joined(runtime_dir@, "rs-shell.sock"@),
{
    path_join(runtime_dir, "rs-shell.sock")
}

/// Clipboard daemon socket, inside the runtime directory.
pub fn clipboard_socket(runtime_dir: &str) -> (r: String)
    ensures
        r@ == joined(runtime_dir@, "rs-shell-clipboard.sock"@),
{
    path_join(runtime_dir, "rs-shell-clipboard.sock")
}

/// Bar process activation socket, inside the runtime directory.
pub fn bar_socket(runtime_dir: &str) -> (r: String)
    ensures
        r@ == joined(runtime_dir@, "rs-shell-bar.sock"@),
{
    path_join(runtime_dir, "rs-shell-bar.sock")
}

/// A per-user directory: `<xdg>/rs-shell` when the XDG variable is set, else
/// `<platform>/rs-shell` when the platform directory is known, else `fallback`.
pub open spec fn user_dir_of(
    xdg: Option<Seq<char>>,
    platform: Option<Seq<char>>,
    fallback: Seq<char>,
) -> Seq<char> {
    match xdg {
        Some(d) => joined(d, "rs-shell"@),
        None => match platform {
            Some(p) => joined(p, "rs-shell"@),
            None => fallback,
        },
    }
}

/// The characters of an optional string slice.
pub open spec fn opt_str_view(s: Option<&str>) -> Option<Seq<char>> {
    match s {
        Some(v) => Some(v@),
        None => None,
    }
}

/// User data directory for rs-shell, from `$XDG_DATA_HOME` and the platform's
/// data directory.
pub fn data_dir(xdg_data_home: Option<&str>, platform_data_dir: Option<&str>) -> (r: String)
    ensures
        r@ == user_dir_of(
            opt_str_view(xdg_data_home),
            opt_str_view(platform_data_dir),
            "/tmp/rs-shell-data"@,
        ),
{
    match xdg_data_home {
        Some(d) => path_join(d, "rs-shell"),
        None => match platform_data_dir {
            Some(p) => path_join(p, "rs-shell"),
            None => "/tmp/rs-shell-data".to_owned(),
        },
    }
}

/// User config directory for rs-shell, from `$XDG_CONFIG_HOME` and the
/// platform's config directory.
pub fn config_dir(xdg_config_home: Option<&str>, platform_config_dir: Option<&str>) -> (r: String)
    ensures
        r@ == user_dir_of(
            opt_str_view(xdg_config_home),
            opt_str_view(platform_config_dir),
            "/tmp/rs-shell-config"@,
        ),
{
    match xdg_config_home {
        Some(d) => path_join(d, "rs-shell"),
        None => match platform_config_dir {
            Some(p) => path_join(p, "rs-shell"),
            None => "/tmp/rs-shell-config".to_owned(),
        },
    }
}

} // verus!
