//! The alias composer: validation, field processing, template substitution,
//! and the normalized result.
use vstd::prelude::*;

use crate::flags::{all_digits, flags_text, only_digits, process_flags, MAX_FLAGS};
use crate::locale::{
    language_row, lookup_pronoun, lookup_scope_template, lookup_template, pronoun_of,
    scope_template_of, template_of, LocaleTable,
};
use crate::normalize::{normalize_chars, normalized};
use crate::text::{chars_of, replace, replace_all, string_of, trim, trimmed};

verus! {

/// Why an alias could not be composed.
#[derive(Debug, PartialEq, Eq)]
pub enum AliasError {
    /// The role is blank after trimming.
    EmptyRole,
    /// The flags hold a character that is not an ASCII digit.
    InvalidFlags,
    /// The flags are longer than ten characters.
    FlagsTooLong,
    /// The language has no entry in the named table.
    UnknownLanguage { table: LocaleTable, lang: String },
}

/// What an `AliasError` says, with the language as characters.
pub enum AliasFault {
    EmptyRole,
    InvalidFlags,
    FlagsTooLong,
    UnknownLanguage(LocaleTable, Seq<char>),
}

impl View for AliasError {
    type V = AliasFault;

    open spec fn view(&self) -> AliasFault {
        match self {
            AliasError::EmptyRole => AliasFault::EmptyRole,
            AliasError::InvalidFlags => AliasFault::InvalidFlags,
            AliasError::FlagsTooLong => AliasFault::FlagsTooLong,
            AliasError::UnknownLanguage { table, lang } => AliasFault::UnknownLanguage(
                *table,
                lang@,
            ),
        }
    }
}

/// An optional field: an absent one reads as the empty string.
pub open spec fn or_empty(o: Option<&str>) -> Seq<char> {
    match o {
        Some(s) => s@,
        None => Seq::empty(),
    }
}

/// The scope clause: one space, then the scope template with `{org}` filled.
pub open spec fn scope_clause(template: Seq<char>, org: Seq<char>) -> Seq<char> {
    seq![' '] + replace_all(template, "{org}"@, org)
}

/// The template with its four slots filled in the fixed order flags, who,
/// role, scope.
pub open spec fn fill_slots(
    template: Seq<char>,
    flags: Seq<char>,
    who: Seq<char>,
    role: Seq<char>,
    scope: Seq<char>,
) -> Seq<char> {
    replace_all(
        replace_all(replace_all(replace_all(template, "{flags}"@, flags), "{who}"@, who), "{role}"@, role),
        "{scope}"@,
        scope,
    )
}

/// The raw sentence for a request, or the first error that it meets.
/// A blank `who` stands for the pronoun of the language, so an absent and an
/// explicitly empty `who` cannot be told apart. The slots are filled one
/// after the other by literal replacement: a slot marker inside a field is
/// left alone by the slots already filled and replaced by the later ones.
pub open spec fn raw_alias(
    lang: Seq<char>,
    flags: Seq<char>,
    who: Seq<char>,
    role: Seq<char>,
    scope: Seq<char>,
) -> Result<Seq<char>, AliasFault> {
    let role = trimmed(role);
    let flags = trimmed(flags);
    let who = trimmed(who);
    let scope = trimmed(scope);
    if role.len() == 0 {
        Err(AliasFault::EmptyRole)
    } else if !all_digits(flags) {
        Err(AliasFault::InvalidFlags)
    } else if flags.len() > MAX_FLAGS {
        Err(AliasFault::FlagsTooLong)
    } else if template_of(lang) is None {
        Err(AliasFault::UnknownLanguage(LocaleTable::Sentence, lang))
    } else if who.len() == 0 && pronoun_of(lang) is None {
        Err(AliasFault::UnknownLanguage(LocaleTable::Pronoun, lang))
    } else if scope.len() > 0 && scope_template_of(lang) is None {
        Err(AliasFault::UnknownLanguage(LocaleTable::Scope, lang))
    } else {
        let who_text = if who.len() == 0 {
            pronoun_of(lang)->0
        } else {
            who
        };
        let scope_text = if scope.len() == 0 {
            scope
        } else {
            scope_clause(scope_template_of(lang)->0, scope)
        };
        Ok(fill_slots(template_of(lang)->0, flags_text(flags), who_text, role, scope_text))
    }
}

/// The canonical alias for a request, or the first error that it meets.
pub open spec fn alias_of(
    lang: Seq<char>,
    flags: Seq<char>,
    who: Seq<char>,
    role: Seq<char>,
    scope: Seq<char>,
) -> Result<Seq<char>, AliasFault> {
    match raw_alias(lang, flags, who, role, scope) {
        Ok(raw) => Ok(normalized(raw)),
        Err(e) => Err(e),
    }
}

pub open spec fn result_view(r: Result<String, AliasError>) -> Result<Seq<char>, AliasFault> {
    match r {
        Ok(s) => Ok(s@),
        Err(e) => Err(e@),
    }
}

fn chars_or_empty(o: Option<&str>) -> (r: Vec<char>)
    ensures
        r@ == or_empty(o),
{
    match o {
        Some(s) => chars_of(s),
        None => Vec::new(),
    }
}

fn unknown(table: LocaleTable, lang: &str) -> (e: AliasError)
    ensures
        e@ == AliasFault::UnknownLanguage(table, lang@),
{
    AliasError::UnknownLanguage { table, lang: lang.to_owned() }
}

fn compose_chars(
    lang: &str,
    flags: Option<&str>,
    who: Option<&str>,
    role: &str,
    scope: Option<&str>,
) -> (r: Result<Vec<char>, AliasError>)
    ensures
        match r {
            Ok(v) => raw_alias(lang@, or_empty(flags), or_empty(who), role@, or_empty(scope))
                == Ok::<Seq<char>, AliasFault>(v@),
            Err(e) => raw_alias(lang@, or_empty(flags), or_empty(who), role@, or_empty(scope))
                == Err::<Seq<char>, AliasFault>(e@),
        },
{
    let role = trim(&chars_of(role));
    if role.len() == 0 {
        return Err(AliasError::EmptyRole);
    }
    let flags = trim(&chars_or_empty(flags));
    let mut who = trim(&chars_or_empty(who));
    let scope = trim(&chars_or_empty(scope));
    if !only_digits(&flags) {
        return Err(AliasError::InvalidFlags);
    }
    if flags.len() > MAX_FLAGS {
        return Err(AliasError::FlagsTooLong);
    }
    let template = match lookup_template(lang) {
        Some(t) => t,
        None => {
            return Err(unknown(LocaleTable::Sentence, lang));
        },
    };
    if who.len() == 0 {
        match lookup_pronoun(lang) {
            Some(p) => {
                who = chars_of(p);
            },
            None => {
                return Err(unknown(LocaleTable::Pronoun, lang));
            },
        }
    }
    let flags_part = process_flags(&flags);
    let mut scope_part: Vec<char> = Vec::new();
    if scope.len() > 0 {
        match lookup_scope_template(lang) {
            Some(t) => {
                proof {
                    reveal_strlit("{org}");
                }
                let filled = replace(&chars_of(t), &chars_of("{org}"), &scope);
                scope_part.push(' ');
                scope_part.extend_from_slice(filled.as_slice());
                assert(scope_part@ =~= scope_clause(t@, scope@));
            },
            None => {
                return Err(unknown(LocaleTable::Scope, lang));
            },
        }
    }
    if scope.len() == 0 {
        assert(scope_part@ =~= scope@);
    }
    proof {
        reveal_strlit("{flags}");
        reveal_strlit("{who}");
        reveal_strlit("{role}");
        reveal_strlit("{scope}");
    }
    let s = replace(&chars_of(template), &chars_of("{flags}"), &flags_part);
    let s = replace(&s, &chars_of("{who}"), &who);
    let s = replace(&s, &chars_of("{role}"), &role);
    let s = replace(&s, &chars_of("{scope}"), &scope_part);
    Ok(s)
}

/// The raw sentence for a request, before normalization: the template of
/// `lang` with its slots filled by the trimmed fields. A blank or absent
/// `who` is replaced by the pronoun of the language; non-empty flags are
/// sorted and followed by a space; a non-empty scope becomes a space and the
/// scope clause of the language.
pub fn compose_raw(
    lang: &str,
    flags: Option<&str>,
    who: Option<&str>,
    role: &str,
    scope: Option<&str>,
) -> (r: Result<String, AliasError>)
    ensures
        result_view(r) == raw_alias(lang@, or_empty(flags), or_empty(who), role@, or_empty(scope)),
{
    match compose_chars(lang, flags, who, role, scope) {
        Ok(v) => Ok(string_of(&v)),
        Err(e) => Err(e),
    }
}

/// The canonical alias for a request: the raw sentence of `compose_raw`,
/// normalized. Errors come in the order empty role, invalid flags, flags too
/// long, then a language missing from the sentence, pronoun or scope table.
pub fn create_alias(
    lang: &str,
    flags: Option<&str>,
    who: Option<&str>,
    role: &str,
    scope: Option<&str>,
) -> (r: Result<String, AliasError>)
    ensures
        result_view(r) == alias_of(lang@, or_empty(flags), or_empty(who), role@, or_empty(scope)),
{
    match compose_chars(lang, flags, who, role, scope) {
        Ok(v) => Ok(string_of(&normalize_chars(&v))),
        Err(e) => Err(e),
    }
}

/// Composition depends on the request alone: equal requests get the same
/// alias or the same error.
pub proof fn lemma_alias_deterministic(
    lang: Seq<char>,
    flags: Seq<char>,
    who: Seq<char>,
    role: Seq<char>,
    scope: Seq<char>,
    lang2: Seq<char>,
    flags2: Seq<char>,
    who2: Seq<char>,
    role2: Seq<char>,
    scope2: Seq<char>,
)
    requires
        lang == lang2,
        flags == flags2,
        who == who2,
        role == role2,
        scope == scope2,
    ensures
        alias_of(lang, flags, who, role, scope) == alias_of(lang2, flags2, who2, role2, scope2),
{
}

/// For a known language, a non-blank role and digit-only flags, the request
/// succeeds exactly when the trimmed flags have at most ten characters;
/// longer flags are rejected as too long.
pub proof fn lemma_flags_length_boundary(
    lang: Seq<char>,
    flags: Seq<char>,
    who: Seq<char>,
    role: Seq<char>,
    scope: Seq<char>,
)
    requires
        language_row(lang) is Some,
        trimmed(role).len() > 0,
        all_digits(trimmed(flags)),
    ensures
        alias_of(lang, flags, who, role, scope) is Ok <==> trimmed(flags).len() <= MAX_FLAGS,
        trimmed(flags).len() > MAX_FLAGS ==> alias_of(lang, flags, who, role, scope) == Err::<
            Seq<char>,
            AliasFault,
        >(AliasFault::FlagsTooLong),
{
}

/// A language missing from the sentence table, with otherwise valid fields,
/// is reported against the sentence table, whatever `who` and `scope` hold.
pub proof fn lemma_unknown_language(
    lang: Seq<char>,
    flags: Seq<char>,
    who: Seq<char>,
    role: Seq<char>,
    scope: Seq<char>,
)
    requires
        template_of(lang) is None,
        trimmed(role).len() > 0,
        all_digits(trimmed(flags)),
        trimmed(flags).len() <= MAX_FLAGS,
    ensures
        alias_of(lang, flags, who, role, scope) == Err::<Seq<char>, AliasFault>(
            AliasFault::UnknownLanguage(LocaleTable::Sentence, lang),
        ),
{
}

} // verus!
