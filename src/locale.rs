//! The locale tables: for each supported language, the first-person
//! pronoun, the sentence template and the scope-clause template.
use vstd::prelude::*;

verus! {

/// Which of the three locale tables a lookup went to.
#[derive(Clone, Copy, Debug, PartialEq, Eq, Structural)]
pub enum LocaleTable {
    Pronoun,
    Sentence,
    Scope,
}

/// The row of the tables that holds `lang`, if any.
pub open spec fn language_row(lang: Seq<char>) -> Option<int> {
    if lang == "en"@ {
        Some(0)
    } else if lang == "fr"@ {
        Some(1)
    } else if lang == "es"@ {
        Some(2)
    } else if lang == "de"@ {
        Some(3)
    } else if lang == "pt"@ {
        Some(4)
    } else if lang == "ja"@ {
        Some(5)
    } else if lang == "zh"@ {
        Some(6)
    } else if lang == "ko"@ {
        Some(7)
    } else if lang == "ar"@ {
        Some(8)
    } else if lang == "he"@ {
        Some(9)
    } else if lang == "ru"@ {
        Some(10)
    } else {
        None
    }
}

/// Row `i` of the pronoun table.
pub open spec fn pronoun_at(i: int) -> &'static str {
    if i == 0 {
        "me"
    } else if i == 1 {
        "moi"
    } else if i == 2 {
        "yo"
    } else if i == 3 {
        "ich"
    } else if i == 4 {
        "eu"
    } else if i == 5 {
        "私"
    } else if i == 6 {
        "我"
    } else if i == 7 {
        "나"
    } else if i == 8 {
        "أنا"
    } else if i == 9 {
        "אני"
    } else if i == 10 {
        "я"
    } else {
        ""
    }
}

/// Row `i` of the sentence-template table.
pub open spec fn template_at(i: int) -> &'static str {
    if i == 0 {
        "{flags}{who} as {role}{scope}"
    } else if i == 1 {
        "{flags}{who} comme {role}{scope}"
    } else if i == 2 {
        "{flags}{who} como {role}{scope}"
    } else if i == 3 {
        "{flags}{who} als {role}{scope}"
    } else if i == 4 {
        "{flags}{who} como {role}{scope}"
    } else if i == 5 {
        "{flags}{who}として{role}{scope}"
    } else if i == 6 {
        "{flags}{who}作为{role}{scope}"
    } else if i == 7 {
        "{flags}{who}로서{role}{scope}"
    } else if i == 8 {
        "{flags}{who} بصفتي {role}{scope}"
    } else if i == 9 {
        "{flags}{who} בתור {role}{scope}"
    } else if i == 10 {
        "{flags}{who} как {role}{scope}"
    } else {
        ""
    }
}

/// Row `i` of the scope-template table.
pub open spec fn scope_template_at(i: int) -> &'static str {
    if i == 0 {
        " at {org}"
    } else if i == 1 {
        " à {org}"
    } else if i == 2 {
        " en {org}"
    } else if i == 3 {
        " bei {org}"
    } else if i == 4 {
        " na {org}"
    } else if i == 5 {
        "に-{org}"
    } else if i == 6 {
        "在-{org}"
    } else if i == 7 {
        "-{org}"
    } else if i == 8 {
        " في {org}"
    } else if i == 9 {
        " ב{org}"
    } else if i == 10 {
        " в {org}"
    } else {
        ""
    }
}

/// The first-person pronoun of `lang`.
pub open spec fn pronoun_of(lang: Seq<char>) -> Option<Seq<char>> {
    match language_row(lang) {
        Some(i) => Some(pronoun_at(i)@),
        None => None,
    }
}

/// The sentence template of `lang`, with the slots `{flags}`, `{who}`,
/// `{role}` and `{scope}`.
pub open spec fn template_of(lang: Seq<char>) -> Option<Seq<char>> {
    match language_row(lang) {
        Some(i) => Some(template_at(i)@),
        None => None,
    }
}

/// The scope-clause template of `lang`, with the slot `{org}`.
pub open spec fn scope_template_of(lang: Seq<char>) -> Option<Seq<char>> {
    match language_row(lang) {
        Some(i) => Some(scope_template_at(i)@),
        None => None,
    }
}

pub open spec fn text_of(r: Option<&'static str>) -> Option<Seq<char>> {
    match r {
        Some(s) => Some(s@),
        None => None,
    }
}

/// Whether `a` and `b` hold the same characters.
pub fn same_text(a: &str, b: &str) -> (r: bool)
    ensures
        r == (a@ == b@),
{
    let n = a.unicode_len();
    if n != b.unicode_len() {
        return false;
    }
    let mut i: usize = 0;
    while i < n
        invariant
            n == a@.len() == b@.len(),
            i <= n,
            forall|k: int| 0 <= k < i ==> a@[k] == b@[k],
        decreases n - i,
    {
        if a.get_char(i) != b.get_char(i) {
            return false;
        }
        i += 1;
    }
    assert(a@ =~= b@);
    true
}

fn row_of(lang: &str) -> (r: Option<usize>)
    ensures
        r matches Some(i) ==> language_row(lang@) == Some(i as int) && i < 11,
        r is None ==> language_row(lang@) is None,
{
    if same_text(lang, "en") {
        Some(0)
    } else if same_text(lang, "fr") {
        Some(1)
    } else if same_text(lang, "es") {
        Some(2)
    } else if same_text(lang, "de") {
        Some(3)
    } else if same_text(lang, "pt") {
        Some(4)
    } else if same_text(lang, "ja") {
        Some(5)
    } else if same_text(lang, "zh") {
        Some(6)
    } else if same_text(lang, "ko") {
        Some(7)
    } else if same_text(lang, "ar") {
        Some(8)
    } else if same_text(lang, "he") {
        Some(9)
    } else if same_text(lang, "ru") {
        Some(10)
    } else {
        None
    }
}

fn pronoun_in_row(i: usize) -> (r: &'static str)
    ensures
        r == pronoun_at(i as int),
{
    if i == 0 {
        "me"
    } else if i == 1 {
        "moi"
    } else if i == 2 {
        "yo"
    } else if i == 3 {
        "ich"
    } else if i == 4 {
        "eu"
    } else if i == 5 {
        "私"
    } else if i == 6 {
        "我"
    } else if i == 7 {
        "나"
    } else if i == 8 {
        "أنا"
    } else if i == 9 {
        "אני"
    } else if i == 10 {
        "я"
    } else {
        ""
    }
}

fn template_in_row(i: usize) -> (r: &'static str)
    ensures
        r == template_at(i as int),
{
    if i == 0 {
        "{flags}{who} as {role}{scope}"
    } else if i == 1 {
        "{flags}{who} comme {role}{scope}"
    } else if i == 2 {
        "{flags}{who} como {role}{scope}"
    } else if i == 3 {
        "{flags}{who} als {role}{scope}"
    } else if i == 4 {
        "{flags}{who} como {role}{scope}"
    } else if i == 5 {
        "{flags}{who}として{role}{scope}"
    } else if i == 6 {
        "{flags}{who}作为{role}{scope}"
    } else if i == 7 {
        "{flags}{who}로서{role}{scope}"
    } else if i == 8 {
        "{flags}{who} بصفتي {role}{scope}"
    } else if i == 9 {
        "{flags}{who} בתור {role}{scope}"
    } else if i == 10 {
        "{flags}{who} как {role}{scope}"
    } else {
        ""
    }
}

fn scope_template_in_row(i: usize) -> (r: &'static str)
    ensures
        r == scope_template_at(i as int),
{
    if i == 0 {
        " at {org}"
    } else if i == 1 {
        " à {org}"
    } else if i == 2 {
        " en {org}"
    } else if i == 3 {
        " bei {org}"
    } else if i == 4 {
        " na {org}"
    } else if i == 5 {
        "に-{org}"
    } else if i == 6 {
        "在-{org}"
    } else if i == 7 {
        "-{org}"
    } else if i == 8 {
        " في {org}"
    } else if i == 9 {
        " ב{org}"
    } else if i == 10 {
        " в {org}"
    } else {
        ""
    }
}

/// The first-person pronoun of `lang`, or `None` for a language the table
/// does not hold.
pub fn lookup_pronoun(lang: &str) -> (r: Option<&'static str>)
    ensures
        text_of(r) == pronoun_of(lang@),
{
    match row_of(lang) {
        Some(i) => Some(pronoun_in_row(i)),
        None => None,
    }
}

/// The sentence template of `lang`, or `None` for a language the table does
/// not hold.
pub fn lookup_template(lang: &str) -> (r: Option<&'static str>)
    ensures
        text_of(r) == template_of(lang@),
{
    match row_of(lang) {
        Some(i) => Some(template_in_row(i)),
        None => None,
    }
}

/// The scope-clause template of `lang`, or `None` for a language the table
/// does not hold.
pub fn lookup_scope_template(lang: &str) -> (r: Option<&'static str>)
    ensures
        text_of(r) == scope_template_of(lang@),
{
    match row_of(lang) {
        Some(i) => Some(scope_template_in_row(i)),
        None => None,
    }
}

} // verus!
