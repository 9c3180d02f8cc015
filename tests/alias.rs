use coia::alias::{compose_raw, create_alias, AliasError};
use coia::locale::LocaleTable;

fn ok(s: &str) -> Result<String, AliasError> {
    Ok(s.to_string())
}

fn unknown(table: LocaleTable, lang: &str) -> Result<String, AliasError> {
    Err(AliasError::UnknownLanguage { table, lang: lang.to_string() })
}

#[test]
fn pronoun_substitution() {
    assert_eq!(compose_raw("en", None, None, "Admin", None), ok("me as Admin"));
    assert_eq!(create_alias("en", None, None, "Admin", None), ok("me-as-admin"));
}

#[test]
fn full_composition() {
    assert_eq!(
        compose_raw("en", Some("31"), Some("Alice"), "Engineer", Some("Acme Corp")),
        ok("13 Alice as Engineer  at Acme Corp")
    );
    assert_eq!(
        create_alias("en", Some("31"), Some("Alice"), "Engineer", Some("Acme Corp")),
        ok("13-alice-as-engineer-at-acme-corp")
    );
}

#[test]
fn empty_role_rejected() {
    assert_eq!(create_alias("en", Some("12"), Some("Bob"), "", Some("X")), Err(AliasError::EmptyRole));
    assert_eq!(create_alias("en", None, None, "   \t", None), Err(AliasError::EmptyRole));
    assert_eq!(create_alias("xx", Some("3a"), None, " ", None), Err(AliasError::EmptyRole));
}

#[test]
fn non_digit_flags_rejected() {
    assert_eq!(create_alias("en", Some("3a"), None, "Admin", None), Err(AliasError::InvalidFlags));
    assert_eq!(create_alias("xx", Some("1.5"), None, "Admin", None), Err(AliasError::InvalidFlags));
    assert_eq!(create_alias("en", Some("12345678901a"), None, "Admin", None), Err(AliasError::InvalidFlags));
}

#[test]
fn flags_length_boundary() {
    assert_eq!(
        create_alias("en", Some("9876543210"), Some("Ann"), "Lead", None),
        ok("0123456789-ann-as-lead")
    );
    assert_eq!(
        create_alias("en", Some("98765432100"), Some("Ann"), "Lead", None),
        Err(AliasError::FlagsTooLong)
    );
    assert_eq!(
        create_alias("en", Some("  9876543210  "), Some("Ann"), "Lead", None),
        ok("0123456789-ann-as-lead")
    );
}

#[test]
fn flag_ordering() {
    assert_eq!(compose_raw("en", Some("3311"), Some("Z"), "R", None), ok("1133 Z as R"));
    assert_eq!(compose_raw("en", Some(""), Some("Z"), "R", None), ok("Z as R"));
    assert_eq!(compose_raw("en", Some("   "), Some("Z"), "R", None), ok("Z as R"));
}

#[test]
fn unknown_language() {
    assert_eq!(create_alias("xx", Some("1"), Some("Alice"), "Engineer", None), unknown(LocaleTable::Sentence, "xx"));
    assert_eq!(create_alias("xx", None, None, "Engineer", None), unknown(LocaleTable::Sentence, "xx"));
    assert_eq!(create_alias("xx", None, Some("Al"), "Engineer", Some("Co")), unknown(LocaleTable::Sentence, "xx"));
    assert_eq!(compose_raw("xx", Some("12"), None, "Engineer", Some("Co")), unknown(LocaleTable::Sentence, "xx"));
}

#[test]
fn explicit_empty_who_is_pronoun() {
    assert_eq!(create_alias("fr", None, Some(""), "Chef", None), ok("moi-comme-chef"));
    assert_eq!(create_alias("fr", None, Some("  "), "Chef", None), ok("moi-comme-chef"));
}

#[test]
fn blank_scope_adds_nothing() {
    assert_eq!(compose_raw("en", None, Some("Al"), "Ops", Some("  ")), ok("Al as Ops"));
}

#[test]
fn earlier_slot_marker_in_value_is_kept() {
    assert_eq!(compose_raw("en", None, Some("{flags}"), "X", None), ok("{flags} as X"));
    assert_eq!(create_alias("en", None, Some("{flags}"), "X", None), ok("flags-as-x"));
}

#[test]
fn later_slot_marker_in_value_is_filled() {
    assert_eq!(compose_raw("en", None, Some("{role}"), "X", None), ok("X as X"));
}

#[test]
fn accented_latin_languages() {
    assert_eq!(
        create_alias("fr", None, None, "Développeur", Some("Société Générale")),
        ok("moi-comme-développeur-à-société-générale")
    );
    assert_eq!(
        create_alias("de", None, Some("Ju\u{308}rgen"), "Koch", Some("Müller & Söhne")),
        ok("jürgen-als-koch-bei-müller-söhne")
    );
    assert_eq!(
        create_alias("pt", Some("7"), None, "Gerente", Some("Empresa")),
        ok("7-eu-como-gerente-na-empresa")
    );
}

#[test]
fn other_scripts() {
    assert_eq!(
        create_alias("ja", None, None, "エンジニア", Some("アクメ")),
        ok("私としてエンジニア-に-アクメ")
    );
    assert_eq!(
        create_alias("ru", None, Some("Иван"), "Инженер", Some("Рога")),
        ok("иван-как-инженер-в-рога")
    );
    assert_eq!(create_alias("ko", None, None, "관리자", Some("회사")), ok("나로서관리자-회사"));
    assert_eq!(create_alias("he", None, None, "מנהל", None), ok("אני-בתור-מנהל"));
    assert_eq!(create_alias("ar", None, None, "مدير", None), ok("أنا-بصفتي-مدير"));
    assert_eq!(create_alias("zh", None, None, "经理", Some("公司")), ok("我作为经理-在-公司"));
    assert_eq!(create_alias("es", None, None, "Jefe", Some("Acme")), ok("yo-como-jefe-en-acme"));
}

#[test]
fn same_request_same_answer() {
    let a = create_alias("en", Some("52"), Some("Kim"), "Analyst", Some("Data Co"));
    let b = create_alias("en", Some("52"), Some("Kim"), "Analyst", Some("Data Co"));
    assert_eq!(a, b);
    assert_eq!(a, ok("25-kim-as-analyst-at-data-co"));
    let e1 = create_alias("zz", Some("52"), Some("Kim"), "Analyst", None);
    let e2 = create_alias("zz", Some("52"), Some("Kim"), "Analyst", None);
    assert_eq!(e1, e2);
}
