use vm_core::{path_snippet, ShellKind};

#[test]
fn posix_snippet_has_one_line_per_category() {
    assert_eq!(
        path_snippet(&vec!["java", "nodejs"], "/home/u/.vm", ShellKind::Posix),
        "export PATH=\"/home/u/.vm/java/bin:$PATH\"\nexport PATH=\"/home/u/.vm/nodejs/bin:$PATH\"\n"
    );
}

#[test]
fn powershell_and_cmd_snippets() {
    assert_eq!(
        path_snippet(&vec!["go"], "/h/.vm", ShellKind::PowerShell),
        "$env:PATH = \"/h/.vm/go/bin;\" + $env:PATH\n"
    );
    assert_eq!(path_snippet(&vec!["go"], "/h/.vm", ShellKind::Cmd), "set PATH=/h/.vm/go/bin;%PATH%\n");
}

#[test]
fn snippet_of_no_category_is_empty() {
    assert_eq!(path_snippet(&vec![], "/h/.vm", ShellKind::Posix), "");
}
