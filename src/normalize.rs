//! The normalizer: compatibility composition, lowercasing, and the
//! character-class rules that fold a string into a hyphenated slug.
use unicode_normalization::UnicodeNormalization;
use vstd::prelude::*;

use crate::text::{chars_of, is_white_space, string_of, trim, trim_end, trim_start, trimmed, white_space};

verus! {

/// Dash, quotation, bracket punctuation, the ampersand in its presentation
/// forms, and the period, comma and apostrophe variants: each becomes a space.
pub const SPACED_PUNCTUATION: &'static str = r#"[\p{Pd}\p{Pi}\p{Pf}\p{Ps}\p{Pe}&﹠＆.,‚،․。﹒．｡'’‘‚‛＇]"#;

/// Control, format, private-use and unassigned characters, symbols, the
/// remaining punctuation, combining marks and modifier letters: each is
/// deleted. Surrogates are never a `char`, so they need no class here (and
/// the regex syntax has no `\p{Cs}`).
pub const DISALLOWED: &'static str = r#"[\p{Cc}\p{Cf}\p{Co}\p{Cn}\p{So}\p{Sm}\p{Sc}\p{Sk}\p{P}\p{M}\p{Lm}]"#;

/// The NFKC form of `s`, as `unicode_normalization` computes it.
pub uninterp spec fn nfkc_of(s: Seq<char>) -> Seq<char>;

/// `s` lowercased by `str::to_lowercase`.
pub uninterp spec fn lower_of(s: Seq<char>) -> Seq<char>;

/// Whether the regular expression `pattern` compiles and matches the text
/// made of the single character `c`.
pub uninterp spec fn class_has(pattern: Seq<char>, c: char) -> bool;

/// Relies on `UnicodeNormalization::nfkc`: compatibility decomposition
/// followed by canonical composition of the characters given.
#[verifier::external_body]
fn nfkc(s: &Vec<char>) -> (r: Vec<char>)
    ensures
        r@ == nfkc_of(s@),
        s@.len() == 0 ==> r@.len() == 0,
{
    s.iter().copied().nfkc().collect()
}

/// Relies on `str::to_lowercase`: the Unicode lowercase mapping of the text.
#[verifier::external_body]
fn lowercase(s: &Vec<char>) -> (r: Vec<char>)
    ensures
        r@ == lower_of(s@),
        s@.len() == 0 ==> r@.len() == 0,
{
    let text: String = s.iter().collect();
    text.to_lowercase().chars().collect()
}

/// Relies on `regex::Regex::new` and `regex::Regex::is_match`: whether
/// `pattern` compiles and matches the one-character text `c`.
#[verifier::external_body]
fn in_class(pattern: &str, c: char) -> (r: bool)
    ensures
        r == class_has(pattern@, c),
{
    let mut buf = [0u8; 4];
    match regex::Regex::new(pattern) {
        Ok(re) => re.is_match(c.encode_utf8(&mut buf)),
        Err(_) => false,
    }
}

/// Whether `c` becomes a space. HYPHEN-MINUS is dash punctuation; it is named
/// here so that the rules can be reasoned about without the Unicode tables.
pub open spec fn spaced_punct(c: char) -> bool {
    c == '-' || class_has(SPACED_PUNCTUATION@, c)
}

/// Whether `c` is deleted. SPACE is a space separator, never deleted.
pub open spec fn disallowed(c: char) -> bool {
    c != ' ' && class_has(DISALLOWED@, c)
}

fn is_spaced_punct(c: char) -> (r: bool)
    ensures
        r == spaced_punct(c),
{
    c == '-' || in_class(SPACED_PUNCTUATION, c)
}

fn is_disallowed(c: char) -> (r: bool)
    ensures
        r == disallowed(c),
{
    c != ' ' && in_class(DISALLOWED, c)
}

/// Each spaced punctuation character replaced by a space.
pub open spec fn punct_to_space(s: Seq<char>) -> Seq<char> {
    s.map_values(|c: char| if spaced_punct(c) { ' ' } else { c })
}

/// `s` without its disallowed characters.
pub open spec fn strip_disallowed(s: Seq<char>) -> Seq<char>
    decreases s.len(),
{
    if s.len() == 0 {
        s
    } else if disallowed(s.last()) {
        strip_disallowed(s.drop_last())
    } else {
        strip_disallowed(s.drop_last()).push(s.last())
    }
}

/// Each maximal run of `White_Space` in `s` replaced by one hyphen.
pub open spec fn hyphenate(s: Seq<char>) -> Seq<char>
    decreases s.len(),
{
    if s.len() == 0 {
        s
    } else if !is_white_space(s.last()) {
        hyphenate(s.drop_last()).push(s.last())
    } else if s.len() >= 2 && is_white_space(s[s.len() - 2]) {
        hyphenate(s.drop_last())
    } else {
        hyphenate(s.drop_last()).push('-')
    }
}

/// Steps three to six of the normalizer, on text already composed and
/// lowercased: punctuation to spaces, edge trim, deletion, hyphenation.
pub open spec fn canonical_form(s: Seq<char>) -> Seq<char> {
    hyphenate(strip_disallowed(trimmed(punct_to_space(s))))
}

/// The normalizer's whole output for a raw string.
pub open spec fn normalized(s: Seq<char>) -> Seq<char> {
    canonical_form(lower_of(nfkc_of(s)))
}

fn spaced_out(s: &Vec<char>) -> (r: Vec<char>)
    ensures
        r@ == punct_to_space(s@),
{
    let n = s.len();
    let mut r: Vec<char> = Vec::new();
    let mut i: usize = 0;
    while i < n
        invariant
            n == s@.len(),
            i <= n,
            r@ == punct_to_space(s@.subrange(0, i as int)),
        decreases n - i,
    {
        let c = s[i];
        if is_spaced_punct(c) {
            r.push(' ');
        } else {
            r.push(c);
        }
        i += 1;
        assert(r@ =~= punct_to_space(s@.subrange(0, i as int)));
    }
    assert(s@.subrange(0, n as int) =~= s@);
    r
}

fn without_disallowed(s: &Vec<char>) -> (r: Vec<char>)
    ensures
        r@ == strip_disallowed(s@),
{
    let n = s.len();
    let mut r: Vec<char> = Vec::new();
    let mut i: usize = 0;
    while i < n
        invariant
            n == s@.len(),
            i <= n,
            r@ == strip_disallowed(s@.subrange(0, i as int)),
        decreases n - i,
    {
        let c = s[i];
        assert(s@.subrange(0, i + 1).drop_last() =~= s@.subrange(0, i as int));
        if !is_disallowed(c) {
            r.push(c);
        }
        i += 1;
    }
    assert(s@.subrange(0, n as int) =~= s@);
    r
}

fn hyphenated(s: &Vec<char>) -> (r: Vec<char>)
    ensures
        r@ == hyphenate(s@),
{
    let n = s.len();
    let mut r: Vec<char> = Vec::new();
    let mut i: usize = 0;
    while i < n
        invariant
            n == s@.len(),
            i <= n,
            r@ == hyphenate(s@.subrange(0, i as int)),
        decreases n - i,
    {
        let c = s[i];
        let ghost prefix = s@.subrange(0, i + 1);
        assert(prefix.drop_last() =~= s@.subrange(0, i as int));
        if !white_space(c) {
            r.push(c);
        } else if i == 0 || !white_space(s[i - 1]) {
            r.push('-');
        }
        i += 1;
    }
    assert(s@.subrange(0, n as int) =~= s@);
    r
}

fn canonical_chars(s: &Vec<char>) -> (r: Vec<char>)
    ensures
        r@ == canonical_form(s@),
{
    let spaced = spaced_out(s);
    let edged = trim(&spaced);
    let kept = without_disallowed(&edged);
    hyphenated(&kept)
}

/// Steps three to six of the normalizer on text that is already composed and
/// lowercased: spaced punctuation becomes a space, the edges are trimmed,
/// disallowed characters are deleted, and each run of white space becomes a
/// single hyphen.
pub fn canonicalize(folded: &str) -> (r: String)
    ensures
        r@ == canonical_form(folded@),
{
    let s = chars_of(folded);
    string_of(&canonical_chars(&s))
}

pub(crate) fn normalize_chars(s: &Vec<char>) -> (r: Vec<char>)
    ensures
        r@ == normalized(s@),
        s@.len() == 0 ==> r@.len() == 0,
{
    let composed = nfkc(s);
    let folded = lowercase(&composed);
    if folded.len() == 0 {
        assert(punct_to_space(folded@) =~= folded@);
        assert(strip_disallowed(trimmed(folded@)) =~= folded@);
    }
    canonical_chars(&folded)
}

/// The canonical form of a raw string: NFKC, lowercase, then the character
/// rules of `canonicalize`. It never fails; the empty string maps to itself.
pub fn normalize_unicode(s: &str) -> (r: String)
    ensures
        r@ == normalized(s@),
        s@.len() == 0 ==> r@.len() == 0,
{
    let chars = chars_of(s);
    string_of(&normalize_chars(&chars))
}

/// A character that the rules keep as it is.
pub open spec fn kept(c: char) -> bool {
    !is_white_space(c) && !spaced_punct(c) && !disallowed(c)
}

/// Text in the shape the rules produce: kept characters and hyphens, with
/// no two hyphens side by side.
pub open spec fn is_canonical(s: Seq<char>) -> bool {
    &&& forall|i: int| 0 <= i < s.len() ==> #[trigger] s[i] == '-' || kept(s[i])
    &&& forall|i: int| 0 <= i < s.len() - 1 ==> !(#[trigger] s[i] == '-' && s[i + 1] == '-')
}

/// No hyphen, and each character is white space or not spaced punctuation.
spec fn spaced(s: Seq<char>) -> bool {
    forall|i: int|
        0 <= i < s.len() ==> #[trigger] s[i] != '-' && (is_white_space(s[i]) || !spaced_punct(
            s[i],
        ))
}

spec fn all_allowed(s: Seq<char>) -> bool {
    forall|i: int| 0 <= i < s.len() ==> !disallowed(#[trigger] s[i])
}

proof fn lemma_trim_start_spaced(s: Seq<char>)
    requires
        spaced(s),
    ensures
        spaced(trim_start(s)),
    decreases s.len(),
{
    if s.len() > 0 && is_white_space(s[0]) {
        assert forall|i: int| 0 <= i < s.drop_first().len() implies #[trigger] s.drop_first()[i]
            != '-' && (is_white_space(s.drop_first()[i]) || !spaced_punct(s.drop_first()[i])) by {
            assert(s.drop_first()[i] == s[i + 1]);
        }
        lemma_trim_start_spaced(s.drop_first());
    }
}

proof fn lemma_trim_end_spaced(s: Seq<char>)
    requires
        spaced(s),
    ensures
        spaced(trim_end(s)),
    decreases s.len(),
{
    if s.len() > 0 && is_white_space(s.last()) {
        assert forall|i: int| 0 <= i < s.drop_last().len() implies #[trigger] s.drop_last()[i]
            != '-' && (is_white_space(s.drop_last()[i]) || !spaced_punct(s.drop_last()[i])) by {
            assert(s.drop_last()[i] == s[i]);
        }
        lemma_trim_end_spaced(s.drop_last());
    }
}

proof fn lemma_strip_spaced(s: Seq<char>)
    requires
        spaced(s),
    ensures
        spaced(strip_disallowed(s)),
        all_allowed(strip_disallowed(s)),
    decreases s.len(),
{
    if s.len() > 0 {
        assert forall|i: int| 0 <= i < s.drop_last().len() implies #[trigger] s.drop_last()[i]
            != '-' && (is_white_space(s.drop_last()[i]) || !spaced_punct(s.drop_last()[i])) by {
            assert(s.drop_last()[i] == s[i]);
        }
        lemma_strip_spaced(s.drop_last());
        let r = strip_disallowed(s.drop_last());
        if !disallowed(s.last()) {
            assert(s.last() == s[s.len() - 1]);
            assert forall|i: int| 0 <= i < r.push(s.last()).len() implies #[trigger] r.push(
                s.last(),
            )[i] != '-' && (is_white_space(r.push(s.last())[i]) || !spaced_punct(
                r.push(s.last())[i],
            )) && !disallowed(r.push(s.last())[i]) by {
                if i < r.len() {
                    assert(r.push(s.last())[i] == r[i]);
                }
            }
        }
    }
}

proof fn lemma_hyphenate_canonical(w: Seq<char>)
    requires
        spaced(w),
        all_allowed(w),
    ensures
        is_canonical(hyphenate(w)),
        w.len() > 0 && !is_white_space(w.last()) ==> hyphenate(w).len() > 0
            && hyphenate(w).last() == w.last(),
    decreases w.len(),
{
    if w.len() > 0 {
        let p = w.drop_last();
        assert forall|i: int| 0 <= i < p.len() implies #[trigger] p[i] != '-' && (
        is_white_space(p[i]) || !spaced_punct(p[i])) && !disallowed(p[i]) by {
            assert(p[i] == w[i]);
        }
        lemma_hyphenate_canonical(p);
        let h = hyphenate(p);
        let c = w.last();
        assert(c == w[w.len() - 1]);
        if !is_white_space(c) {
            assert(kept(c));
            assert forall|i: int| 0 <= i < h.push(c).len() implies #[trigger] h.push(c)[i] == '-'
                || kept(h.push(c)[i]) by {
                if i < h.len() {
                    assert(h.push(c)[i] == h[i]);
                }
            }
            assert forall|i: int| 0 <= i < h.push(c).len() - 1 implies !(#[trigger] h.push(c)[i]
                == '-' && h.push(c)[i + 1] == '-') by {
                if i + 1 < h.len() {
                    assert(h.push(c)[i] == h[i] && h.push(c)[i + 1] == h[i + 1]);
                }
            }
        } else if w.len() >= 2 && is_white_space(w[w.len() - 2]) {
        } else {
            if p.len() > 0 {
                assert(p.last() == w[w.len() - 2]);
            }
            assert forall|i: int| 0 <= i < h.push('-').len() implies #[trigger] h.push('-')[i]
                == '-' || kept(h.push('-')[i]) by {
                if i < h.len() {
                    assert(h.push('-')[i] == h[i]);
                }
            }
            assert forall|i: int| 0 <= i < h.push('-').len() - 1 implies !(
            #[trigger] h.push('-')[i] == '-' && h.push('-')[i + 1] == '-') by {
                if i + 1 < h.len() {
                    assert(h.push('-')[i] == h[i] && h.push('-')[i + 1] == h[i + 1]);
                } else {
                    assert(h.push('-')[i] == h.last());
                }
            }
        }
    }
}

/// What the rules produce is canonical.
pub proof fn lemma_canonical_form_shape(s: Seq<char>)
    ensures
        is_canonical(canonical_form(s)),
{
    let p = punct_to_space(s);
    assert(spaced(p));
    lemma_trim_start_spaced(p);
    lemma_trim_end_spaced(trim_start(p));
    lemma_strip_spaced(trimmed(p));
    lemma_hyphenate_canonical(strip_disallowed(trimmed(p)));
}

proof fn lemma_strip_nothing(s: Seq<char>)
    requires
        all_allowed(s),
    ensures
        strip_disallowed(s) == s,
    decreases s.len(),
{
    if s.len() > 0 {
        assert(!disallowed(s[s.len() - 1]));
        assert forall|i: int| 0 <= i < s.drop_last().len() implies !disallowed(
            #[trigger] s.drop_last()[i],
        ) by {
            assert(s.drop_last()[i] == s[i]);
        }
        lemma_strip_nothing(s.drop_last());
        assert(s.drop_last().push(s.last()) =~= s);
    }
}

proof fn lemma_rehyphenate(t: Seq<char>, k: int)
    requires
        is_canonical(t),
        t.len() > 0 ==> t[0] != '-',
        0 <= k <= t.len(),
    ensures
        hyphenate(punct_to_space(t).subrange(0, k)) == t.subrange(0, k),
    decreases k,
{
    let u = punct_to_space(t);
    if k > 0 {
        lemma_rehyphenate(t, k - 1);
        let pre = u.subrange(0, k);
        assert(pre.drop_last() =~= u.subrange(0, k - 1));
        assert(t.subrange(0, k - 1).push(t[k - 1]) =~= t.subrange(0, k));
        assert(t[k - 1] == '-' || kept(t[k - 1]));
        if t[k - 1] == '-' {
            assert(k >= 2);
            assert(t[k - 2] == '-' || kept(t[k - 2]));
            assert(!(t[k - 2] == '-' && t[k - 1] == '-'));
            assert(pre[k - 2] == u[k - 2]);
        }
    }
}

/// Applying the character rules to their own output changes nothing, unless
/// that output starts or ends with a hyphen (`"$ a"` gives `"-a"`, and then
/// `"a"`).
pub proof fn lemma_canonical_form_idempotent(s: Seq<char>)
    requires
        canonical_form(s).len() > 0 ==> canonical_form(s)[0] != '-' && canonical_form(s).last()
            != '-',
    ensures
        canonical_form(canonical_form(s)) == canonical_form(s),
{
    let t = canonical_form(s);
    lemma_canonical_form_shape(s);
    let u = punct_to_space(t);
    if t.len() > 0 {
        assert(t[0] == '-' || kept(t[0]));
        assert(t.last() == t[t.len() - 1]);
        assert(t[t.len() - 1] == '-' || kept(t[t.len() - 1]));
        assert(u[0] == t[0]);
        assert(u.last() == t.last());
    }
    assert(trim_start(u) == u);
    assert(trim_end(u) == u);
    assert forall|i: int| 0 <= i < u.len() implies !disallowed(#[trigger] u[i]) by {
        assert(t[i] == '-' || kept(t[i]));
    }
    lemma_strip_nothing(u);
    lemma_rehyphenate(t, t.len() as int);
    assert(u.subrange(0, u.len() as int) =~= u);
    assert(t.subrange(0, t.len() as int) =~= t);
}

/// Normalizing an alias a second time gives it back, where composition and
/// lowercasing leave it as it is and it neither starts nor ends with a
/// hyphen.
pub proof fn lemma_normalize_idempotent(s: Seq<char>)
    requires
        nfkc_of(normalized(s)) == normalized(s),
        lower_of(normalized(s)) == normalized(s),
        normalized(s).len() > 0 ==> normalized(s)[0] != '-' && normalized(s).last() != '-',
    ensures
        normalized(normalized(s)) == normalized(s),
{
    lemma_canonical_form_idempotent(lower_of(nfkc_of(s)));
}

/// Two raw strings with the same NFKC form, such as full-width and
/// half-width punctuation, or composed and decomposed accented letters,
/// normalize to the same text.
pub proof fn lemma_equivalent_forms_agree(a: Seq<char>, b: Seq<char>)
    requires
        nfkc_of(a) == nfkc_of(b),
    ensures
        normalized(a) == normalized(b),
{
}

} // verus!
