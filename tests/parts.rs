use coia::flags::{only_digits, process_flags, sort_digits};
use coia::locale::{lookup_pronoun, lookup_scope_template, lookup_template, same_text};
use coia::text::{chars_of, replace, trim};

fn v(s: &str) -> Vec<char> {
    s.chars().collect()
}

#[test]
fn digits_sorted() {
    assert_eq!(sort_digits(&v("31")), v("13"));
    assert_eq!(sort_digits(&v("9090")), v("0099"));
    assert_eq!(sort_digits(&v("")), v(""));
    assert_eq!(process_flags(&v("31")), v("13 "));
    assert_eq!(process_flags(&v("")), v(""));
}

#[test]
fn digits_recognized() {
    assert!(only_digits(&v("0123456789")));
    assert!(only_digits(&v("")));
    assert!(!only_digits(&v("3a")));
    assert!(!only_digits(&v("\u{661}")));
}

#[test]
fn tables_lookup() {
    assert_eq!(lookup_pronoun("he"), Some("אני"));
    assert_eq!(lookup_pronoun("xx"), None);
    assert_eq!(lookup_template("de"), Some("{flags}{who} als {role}{scope}"));
    assert_eq!(lookup_scope_template("ko"), Some("-{org}"));
    assert_eq!(lookup_scope_template(""), None);
}

#[test]
fn text_helpers() {
    assert_eq!(chars_of("añb"), v("añb"));
    assert_eq!(trim(&v(" \u{3000}x y\t")), v("x y"));
    assert_eq!(replace(&v("{a}{a}b"), &v("{a}"), &v("z")), v("zzb"));
    assert_eq!(replace(&v("aaa"), &v("aa"), &v("b")), v("ba"));
    assert!(same_text("en", "en"));
    assert!(!same_text("en", "e"));
}
