//! The lines that put each category's `bin` directory on `PATH`, for a
//! shell profile.

use vstd::prelude::*;
use vstd::string::StringExecFns;

use crate::paths::{bin_subdir, category_dir, joined_path};

verus! {

/// The shells that a snippet can be written for.
#[derive(Clone, Copy, Debug, PartialEq, Eq)]
pub enum ShellKind {
    /// `sh`, `bash`, `zsh`.
    Posix,
    /// PowerShell.
    PowerShell,
    /// `cmd.exe`.
    Cmd,
}

/// The line that puts `bin` in front of `PATH`, in `shell`'s syntax.
pub open spec fn spec_path_line(bin: Seq<char>, shell: ShellKind) -> Seq<char> {
    match shell {
        ShellKind::Posix => "export PATH=\""@ + bin + ":$PATH\"\n"@,
        ShellKind::PowerShell => "$env:PATH = \""@ + bin + ";\" + $env:PATH\n"@,
        ShellKind::Cmd => "set PATH="@ + bin + ";%PATH%\n"@,
    }
}

/// One line per category, in the order given, each putting `bin` under the
/// category's directory in front of `PATH`.
pub open spec fn spec_path_snippet(names: Seq<Seq<char>>, dir: Seq<char>, shell: ShellKind) -> Seq<char>
    decreases names.len(),
{
    if names.len() == 0 {
        Seq::<char>::empty()
    } else {
        spec_path_snippet(names.drop_last(), dir, shell) + spec_path_line(
            joined_path(joined_path(dir, names.last()), "bin"@),
            shell,
        )
    }
}

/// The line that puts `bin` in front of `PATH`, in `shell`'s syntax.
pub fn path_line(bin: &str, shell: ShellKind) -> (r: String)
    ensures
        r@ == spec_path_line(bin@, shell),
{
    let mut out = String::new();
    match shell {
        ShellKind::Posix => {
            out.append("export PATH=\"");
            out.append(bin);
            out.append(":$PATH\"\n");
        },
        ShellKind::PowerShell => {
            out.append("$env:PATH = \"");
            out.append(bin);
            out.append(";\" + $env:PATH\n");
        },
        ShellKind::Cmd => {
            out.append("set PATH=");
            out.append(bin);
            out.append(";%PATH%\n");
        },
    }
    out
}

/// The snippet for a profile: one line per category in `names`, in order,
/// each putting `bin` under the category's directory in front of `PATH`.
pub fn path_snippet(names: &Vec<&str>, config_dir: &str, shell: ShellKind) -> (r: String)
    ensures
        r@ == spec_path_snippet(names@.map_values(|s: &str| s@), config_dir@, shell),
{
    let ghost ns = names@.map_values(|s: &str| s@);
    let mut out = String::new();
    let n = names.len();
    let mut i: usize = 0;
    assert(ns.take(0) =~= Seq::<Seq<char>>::empty());
    while i < n
        invariant
            n == names@.len(),
            i <= n,
            ns == names@.map_values(|s: &str| s@),
            out@ == spec_path_snippet(ns.take(i as int), config_dir@, shell),
        decreases n - i,
    {
        let dir = category_dir(config_dir, names[i]);
        let bin = bin_subdir(dir.as_str());
        let line = path_line(bin.as_str(), shell);
        out.append(line.as_str());
        assert(ns.take(i + 1).drop_last() =~= ns.take(i as int));
        assert(ns.take(i + 1).last() == names@[i as int]@);
        i = i + 1;
    }
    assert(ns.take(n as int) =~= ns);
    out
}

} // verus!
