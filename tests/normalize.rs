use coia::normalize::{canonicalize, normalize_unicode};

#[test]
fn normalize_empty() {
    assert_eq!(normalize_unicode(""), "");
    assert_eq!(normalize_unicode("   "), "");
}

#[test]
fn normalize_is_idempotent_on_examples() {
    for raw in ["me as Admin", "13 Alice as Engineer  at Acme Corp", "Müller & Söhne", "Ｆｕｌｌ　Ｗｉｄｔｈ"] {
        let once = normalize_unicode(raw);
        assert_eq!(normalize_unicode(&once), once);
    }
}

#[test]
fn width_and_composition_equivalence() {
    assert_eq!(normalize_unicode("Ａｃｍｅ，Ｉｎｃ．"), normalize_unicode("Acme,Inc."));
    assert_eq!(normalize_unicode("Ａｃｍｅ，Ｉｎｃ．"), "acme-inc");
    assert_eq!(normalize_unicode("Cafe\u{301} Noir"), normalize_unicode("Caf\u{e9} Noir"));
    assert_eq!(normalize_unicode("Cafe\u{301} Noir"), "caf\u{e9}-noir");
    assert_eq!(normalize_unicode("Tom＆Jerry"), normalize_unicode("Tom&Jerry"));
}

#[test]
fn compatibility_forms_fold() {
    assert_eq!(normalize_unicode("\u{fb01}ne"), "fine");
    assert_eq!(normalize_unicode("ＡＢＣ"), "abc");
}

#[test]
fn punctuation_becomes_separator() {
    assert_eq!(canonicalize("a&b"), "a-b");
    assert_eq!(canonicalize("rock-n-roll"), "rock-n-roll");
    assert_eq!(canonicalize("\u{201c}quoted\u{201d} (x)"), "quoted-x");
    assert_eq!(canonicalize("o\u{2019}neil"), "o-neil");
}

#[test]
fn symbols_are_deleted() {
    assert_eq!(canonicalize("a\u{a9}b"), "ab");
    assert_eq!(canonicalize("price $5!"), "price-5");
    assert_eq!(canonicalize("e\u{301}"), "e");
}

#[test]
fn whitespace_runs_collapse() {
    assert_eq!(canonicalize("a \t\n b"), "a-b");
    assert_eq!(canonicalize("  a b  "), "a-b");
}

#[test]
fn edge_hyphen_after_deletion() {
    assert_eq!(canonicalize("$ a"), "-a");
    assert_eq!(normalize_unicode("$ a"), "-a");
}

#[test]
fn lowercasing_applies() {
    assert_eq!(normalize_unicode("HELLO World"), "hello-world");
    assert_eq!(canonicalize("HELLO"), "HELLO");
}
