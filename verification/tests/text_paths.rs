use codex_repair::paths::{base_name, dir_exists, file_exists};
use codex_repair::text::{contains_chars, decimal_text, text_of};

fn chars(s: &str) -> Vec<char> {
    s.chars().collect()
}

#[test]
fn base_name_takes_last_component() {
    assert_eq!(base_name("C:\\Users\\me\\.codex\\plugins\\chrome\\1.2.3"), "1.2.3");
    assert_eq!(base_name("C:/Users/me/.codex/plugins/cache/openai-bundled/chrome/0.9.1"), "0.9.1");
    assert_eq!(base_name("a/b/"), "b");
    assert_eq!(base_name("a/b/."), "b");
    assert_eq!(base_name("a/./b"), "b");
    assert_eq!(base_name("name"), "name");
}

#[test]
fn base_name_empty_when_none() {
    assert_eq!(base_name(""), "");
    assert_eq!(base_name("/"), "");
    assert_eq!(base_name("a/.."), "");
    assert_eq!(base_name(".."), "");
    assert_eq!(base_name("."), "");
    assert_eq!(base_name("C:"), "");
    assert_eq!(base_name("C:\\"), "");
    assert_eq!(base_name("C:foo"), "foo");
}

#[test]
fn base_name_skips_windows_prefixes() {
    assert_eq!(base_name("\\\\server\\share"), "");
    assert_eq!(base_name("\\\\server\\share\\"), "");
    assert_eq!(base_name("\\\\server\\share\\x"), "x");
    assert_eq!(base_name("//server/share"), "");
    assert_eq!(base_name("//server/share/x"), "x");
    assert_eq!(base_name("\\\\server"), "server");
    assert_eq!(base_name("\\\\?\\C:\\a\\b"), "b");
    assert_eq!(base_name("\\\\?\\C:"), "");
    assert_eq!(base_name("\\\\?\\C:\\a\\."), "");
    assert_eq!(base_name("\\\\?\\C:\\a/b"), "a/b");
    assert_eq!(base_name("\\\\?\\UNC\\srv\\shr"), "");
    assert_eq!(base_name("\\\\?\\UNC\\srv\\shr\\f"), "f");
    assert_eq!(base_name("\\\\?\\pictures\\kittens"), "kittens");
    assert_eq!(base_name("\\\\.\\COM42"), "");
    assert_eq!(base_name("\\\\.\\pipe\\name"), "name");
}

#[test]
fn existence_checks() {
    assert!(dir_exists("/"));
    assert!(!dir_exists(""));
    assert!(!dir_exists("/no/such/directory/anywhere"));
    assert!(!file_exists(""));
    assert!(!file_exists("/"));
}

#[test]
fn decimal_and_text() {
    assert_eq!(decimal_text(0), "0");
    assert_eq!(decimal_text(7), "7");
    assert_eq!(decimal_text(10), "10");
    assert_eq!(decimal_text(18446744073709551615), "18446744073709551615");
    assert_eq!(text_of(&chars("héllo")), "héllo");
}

#[test]
fn infix_search() {
    assert!(contains_chars(&chars("x = [\"chrome@openai-bundled\"]"), &chars("chrome@openai-bundled")));
    assert!(!contains_chars(&chars("chrome@openai"), &chars("chrome@openai-bundled")));
    assert!(contains_chars(&chars("abc"), &chars("")));
    assert!(!contains_chars(&chars(""), &chars("a")));
}

#[test]
fn joined_name_is_the_file_name() {
    for d in ["", "a", "a/b", "C:", "C:\\x", "\\\\server\\share", "//srv/shr/dir", "\\\\.\\pipe", "a/..", "."] {
        for n in ["x", "1.2.3", "...", "name.txt"] {
            assert_eq!(base_name(&format!("{}/{}", d, n)), n, "{} / {}", d, n);
        }
    }
    // Where the join forms a prefix that takes in the name, or the path is verbatim.
    assert_eq!(base_name("\\\\server/share"), "");
    assert_eq!(base_name("\\\\./COM1"), "");
    assert_eq!(base_name("\\\\?\\C:\\d/n"), "d/n");
}
