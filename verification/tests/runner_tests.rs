use cliup::runner::{
    command_candidates, command_display, effective_path, effective_path_entries, first_line,
    join_paths, path_eq, shell_quote, split_on, version_text,
};

#[test]
fn shell_quote_quotes_only_when_needed() {
    assert_eq!(shell_quote("@openai/codex@latest"), "@openai/codex@latest");
    assert_eq!(shell_quote("--depth=0"), "--depth=0");
    assert_eq!(shell_quote("a b"), "'a b'");
    assert_eq!(shell_quote("it's"), "'it'\\''s'");
    assert_eq!(shell_quote(""), "");
    assert_eq!(shell_quote("é"), "'é'");
}

#[test]
fn command_display_joins_quoted_arguments() {
    let args = vec!["ls".to_string(), "-g".to_string(), "my pkg".to_string()];
    assert_eq!(command_display("npm", &args), "npm ls -g 'my pkg'");
    assert_eq!(command_display("brew", &Vec::new()), "brew");
}

#[test]
fn first_line_and_versions() {
    assert_eq!(first_line("v20.1.0\nmore"), "v20.1.0");
    assert_eq!(first_line("one\r\ntwo"), "one");
    assert_eq!(first_line(""), "");
    assert_eq!(version_text(b"  10.2.4\n", b"ignored"), "10.2.4");
    assert_eq!(version_text(b"", b"Homebrew 4.0\n"), "Homebrew 4.0");
    assert_eq!(version_text(b"", b"  \n"), "version unknown");
    assert_eq!(version_text(b"\xff1.0", b""), "\u{fffd}1.0");
}

fn list(items: &[&str]) -> Vec<Vec<u8>> {
    items.iter().map(|i| i.as_bytes().to_vec()).collect()
}

#[test]
fn split_on_keeps_empty_pieces() {
    assert_eq!(split_on(b"a::b:", b':'), list(&["a", "", "b", ""]));
    assert_eq!(split_on(b"", b':'), list(&[""]));
    assert_eq!(split_on(b"/x::/y", b':'), list(&["/x", "", "/y"]));
}

#[test]
fn path_equality_is_by_components() {
    assert!(path_eq(b"/usr/bin", b"/usr/bin/"));
    assert!(path_eq(b"/usr//bin", b"/usr/bin"));
    assert!(path_eq(b"/usr/./bin", b"/usr/bin"));
    assert!(!path_eq(b"./bin", b"bin"));
    assert!(!path_eq(b"/bin", b"bin"));
    assert!(!path_eq(b"/usr/bin", b"/usr/sbin"));
    for (a, b) in [("/a/b", "/a/b/"), ("./a", "a"), ("a/.", "a"), ("//a", "/a"), ("a/..", "a")] {
        assert_eq!(
            path_eq(a.as_bytes(), b.as_bytes()),
            std::path::Path::new(a) == std::path::Path::new(b),
            "{a} {b}"
        );
    }
}

#[test]
fn effective_path_puts_base_directories_first_without_repeats() {
    let entries = effective_path_entries(
        Some(&b"/Users/me"[..]),
        Some(&b"/usr/bin:/Users/me/.cargo/bin/::/opt/x"[..]),
    );
    assert_eq!(
        entries,
        list(&[
            "/opt/homebrew/bin",
            "/usr/local/bin",
            "/usr/bin",
            "/bin",
            "/usr/sbin",
            "/sbin",
            "/Users/me/.local/bin",
            "/Users/me/.cargo/bin",
            "/Users/me/.bun/bin",
            "/Users/me/bin",
            "/opt/x",
        ])
    );
    assert_eq!(
        effective_path(None, None),
        b"/opt/homebrew/bin:/usr/local/bin:/usr/bin:/bin:/usr/sbin:/sbin".to_vec()
    );
    assert_eq!(
        effective_path(Some(&b"/h"[..]), None),
        b"/opt/homebrew/bin:/usr/local/bin:/usr/bin:/bin:/usr/sbin:/sbin:/h/.local/bin:/h/.cargo/bin:/h/.bun/bin:/h/bin".to_vec()
    );
}

#[test]
fn search_path_keeps_bytes_that_are_not_utf8() {
    let p = effective_path(Some(&b"/h\xff"[..]), Some(&b"/x\xfe"[..]));
    assert!(p.ends_with(b":/h\xff/bin:/x\xfe"));
    assert_eq!(command_candidates("npm", b"/a\xff"), vec![b"/a\xff/npm".to_vec()]);
}

#[test]
fn a_colon_in_home_falls_back_to_the_base_directories() {
    assert_eq!(
        effective_path(Some(&b"/we:ird"[..]), Some(&b"/x"[..])),
        b"/opt/homebrew/bin:/usr/local/bin:/usr/bin:/bin:/usr/sbin:/sbin".to_vec()
    );
    assert_eq!(join_paths(&list(&["a", "b:c"])), None);
    assert_eq!(join_paths(&list(&["a", "b"])), Some(b"a:b".to_vec()));
    assert_eq!(join_paths(&Vec::new()), Some(Vec::new()));
}

#[test]
fn command_candidates_follow_the_search_path() {
    assert_eq!(command_candidates("/usr/bin/env", b"/a:/b"), list(&["/usr/bin/env"]));
    assert_eq!(command_candidates("./x", b"/a"), list(&["./x"]));
    assert_eq!(command_candidates("npm", b"/a:/b/:"), list(&["/a/npm", "/b/npm", "npm"]));
}
