//! Flags: a short string of ASCII digits, written out in ascending order.
use vstd::prelude::*;

verus! {

/// The longest flags string that is accepted.
pub const MAX_FLAGS: usize = 10;

pub open spec fn is_digit(c: char) -> bool {
    '0' <= c && c <= '9'
}

pub open spec fn all_digits(s: Seq<char>) -> bool {
    forall|i: int| 0 <= i < s.len() ==> is_digit(#[trigger] s[i])
}

/// The digit whose value is `d`, for `d` from 0 to 9.
pub open spec fn digit_at(d: int) -> char {
    if d <= 0 {
        '0'
    } else if d == 1 {
        '1'
    } else if d == 2 {
        '2'
    } else if d == 3 {
        '3'
    } else if d == 4 {
        '4'
    } else if d == 5 {
        '5'
    } else if d == 6 {
        '6'
    } else if d == 7 {
        '7'
    } else if d == 8 {
        '8'
    } else {
        '9'
    }
}

/// How many times `c` occurs in `s`.
pub open spec fn occurrences(s: Seq<char>, c: char) -> nat
    decreases s.len(),
{
    if s.len() == 0 {
        0
    } else {
        occurrences(s.drop_last(), c) + if s.last() == c {
            1nat
        } else {
            0nat
        }
    }
}

/// The digits of `s` whose value is below `d`, in ascending order.
pub open spec fn digit_runs(s: Seq<char>, d: nat) -> Seq<char>
    decreases d,
{
    if d == 0 {
        Seq::empty()
    } else {
        digit_runs(s, (d - 1) as nat) + Seq::new(
            occurrences(s, digit_at(d - 1)),
            |k: int| digit_at(d - 1),
        )
    }
}

/// The digits of `s` in ascending order.
pub open spec fn sorted_digits(s: Seq<char>) -> Seq<char> {
    digit_runs(s, 10)
}

/// The flags as they enter a sentence: empty stays empty, otherwise the
/// digits in ascending order followed by one space.
pub open spec fn flags_text(f: Seq<char>) -> Seq<char> {
    if f.len() == 0 {
        f
    } else {
        sorted_digits(f).push(' ')
    }
}

pub open spec fn is_sorted(s: Seq<char>) -> bool {
    forall|i: int, j: int| 0 <= i <= j < s.len() ==> s[i] <= s[j]
}

fn digit_char(d: usize) -> (c: char)
    requires
        d < 10,
    ensures
        c == digit_at(d as int),
{
    if d == 0 {
        '0'
    } else if d == 1 {
        '1'
    } else if d == 2 {
        '2'
    } else if d == 3 {
        '3'
    } else if d == 4 {
        '4'
    } else if d == 5 {
        '5'
    } else if d == 6 {
        '6'
    } else if d == 7 {
        '7'
    } else if d == 8 {
        '8'
    } else {
        '9'
    }
}

/// Whether every character of `s` is an ASCII digit.
pub fn only_digits(s: &Vec<char>) -> (r: bool)
    ensures
        r == all_digits(s@),
{
    let n = s.len();
    let mut i: usize = 0;
    while i < n
        invariant
            n == s@.len(),
            i <= n,
            forall|k: int| 0 <= k < i ==> is_digit(#[trigger] s@[k]),
        decreases n - i,
    {
        if !('0' <= s[i] && s[i] <= '9') {
            return false;
        }
        i += 1;
    }
    true
}

fn count_of(s: &Vec<char>, c: char) -> (r: usize)
    ensures
        r == occurrences(s@, c),
{
    let n = s.len();
    let mut r: usize = 0;
    let mut i: usize = 0;
    while i < n
        invariant
            n == s@.len(),
            i <= n,
            r <= i,
            r == occurrences(s@.subrange(0, i as int), c),
        decreases n - i,
    {
        assert(s@.subrange(0, i + 1).drop_last() =~= s@.subrange(0, i as int));
        if s[i] == c {
            r += 1;
        }
        i += 1;
    }
    assert(s@.subrange(0, n as int) =~= s@);
    r
}

/// The digits of `s` in ascending order.
pub fn sort_digits(s: &Vec<char>) -> (r: Vec<char>)
    ensures
        r@ == sorted_digits(s@),
{
    let mut r: Vec<char> = Vec::new();
    let mut d: usize = 0;
    while d < 10
        invariant
            d <= 10,
            r@ == digit_runs(s@, d as nat),
        decreases 10 - d,
    {
        let c = digit_char(d);
        let count = count_of(s, c);
        let ghost before = r@;
        let mut k: usize = 0;
        while k < count
            invariant
                k <= count,
                r@ == before + Seq::new(k as nat, |j: int| c),
            decreases count - k,
        {
            r.push(c);
            k += 1;
            assert(r@ =~= before + Seq::new(k as nat, |j: int| c));
        }
        d += 1;
        assert(r@ =~= digit_runs(s@, d as nat));
    }
    r
}

/// The flags as they enter a sentence: nothing when empty, otherwise the
/// digits in ascending order and one trailing space.
pub fn process_flags(f: &Vec<char>) -> (r: Vec<char>)
    ensures
        r@ == flags_text(f@),
{
    if f.len() == 0 {
        Vec::new()
    } else {
        let mut r = sort_digits(f);
        r.push(' ');
        r
    }
}

proof fn lemma_occurrences_concat(a: Seq<char>, b: Seq<char>, c: char)
    ensures
        occurrences(a + b, c) == occurrences(a, c) + occurrences(b, c),
    decreases b.len(),
{
    if b.len() == 0 {
        assert(a + b =~= a);
    } else {
        assert((a + b).drop_last() =~= a + b.drop_last());
        lemma_occurrences_concat(a, b.drop_last(), c);
    }
}

proof fn lemma_occurrences_repeat(n: nat, x: char, c: char)
    ensures
        occurrences(Seq::new(n, |k: int| x), c) == if x == c {
            n
        } else {
            0
        },
    decreases n,
{
    if n > 0 {
        assert(Seq::new(n, |k: int| x).drop_last() =~= Seq::new((n - 1) as nat, |k: int| x));
        lemma_occurrences_repeat((n - 1) as nat, x, c);
    }
}

proof fn lemma_no_other_characters(s: Seq<char>, c: char)
    requires
        all_digits(s),
        !is_digit(c),
    ensures
        occurrences(s, c) == 0,
    decreases s.len(),
{
    if s.len() > 0 {
        assert(is_digit(s[s.len() - 1]));
        lemma_no_other_characters(s.drop_last(), c);
    }
}

proof fn lemma_runs_occurrences(s: Seq<char>, d: nat, k: int)
    requires
        d <= 10,
        0 <= k < 10,
    ensures
        occurrences(digit_runs(s, d), digit_at(k)) == if k < d {
            occurrences(s, digit_at(k))
        } else {
            0
        },
    decreases d,
{
    if d > 0 {
        let run = Seq::new(occurrences(s, digit_at(d - 1)), |j: int| digit_at(d - 1));
        lemma_runs_occurrences(s, (d - 1) as nat, k);
        lemma_occurrences_concat(digit_runs(s, (d - 1) as nat), run, digit_at(k));
        lemma_occurrences_repeat(occurrences(s, digit_at(d - 1)), digit_at(d - 1), digit_at(k));
    }
}

proof fn lemma_runs_non_digit(s: Seq<char>, d: nat, c: char)
    requires
        d <= 10,
        !is_digit(c),
    ensures
        occurrences(digit_runs(s, d), c) == 0,
    decreases d,
{
    if d > 0 {
        let run = Seq::new(occurrences(s, digit_at(d - 1)), |j: int| digit_at(d - 1));
        lemma_runs_non_digit(s, (d - 1) as nat, c);
        lemma_occurrences_concat(digit_runs(s, (d - 1) as nat), run, c);
        lemma_occurrences_repeat(occurrences(s, digit_at(d - 1)), digit_at(d - 1), c);
    }
}

proof fn lemma_runs_sorted(s: Seq<char>, d: nat)
    requires
        d <= 10,
    ensures
        is_sorted(digit_runs(s, d)),
        forall|i: int|
            0 <= i < digit_runs(s, d).len() ==> #[trigger] digit_runs(s, d)[i] <= digit_at(
                d - 1,
            ),
    decreases d,
{
    if d > 0 {
        let prev = digit_runs(s, (d - 1) as nat);
        let run = Seq::new(occurrences(s, digit_at(d - 1)), |j: int| digit_at(d - 1));
        lemma_runs_sorted(s, (d - 1) as nat);
        let all = digit_runs(s, d);
        assert(all == prev + run);
        assert forall|i: int| 0 <= i < prev.len() implies prev[i] < digit_at(d - 1) by {
            assert(prev[i] <= digit_at(d - 2));
        }
        assert forall|i: int, j: int| 0 <= i <= j < all.len() implies all[i] <= all[j] by {
            if j < prev.len() {
                assert(all[i] == prev[i] && all[j] == prev[j]);
            } else if i < prev.len() {
                assert(all[i] == prev[i]);
                assert(all[j] == run[j - prev.len()]);
            } else {
                assert(all[i] == run[i - prev.len()]);
                assert(all[j] == run[j - prev.len()]);
            }
        }
        assert forall|i: int| 0 <= i < all.len() implies #[trigger] all[i] <= digit_at(d - 1) by {
            if i < prev.len() {
                assert(all[i] == prev[i]);
            } else {
                assert(all[i] == run[i - prev.len()]);
            }
        }
    }
}

/// For a string of digits, the processed flags are its characters in
/// ascending order, each as often as in the input, followed by one space.
pub proof fn lemma_flags_sorted(f: Seq<char>)
    requires
        all_digits(f),
    ensures
        is_sorted(sorted_digits(f)),
        forall|c: char| occurrences(#[trigger] sorted_digits(f), c) == occurrences(f, c),
        f.len() > 0 ==> flags_text(f) == sorted_digits(f).push(' '),
{
    lemma_runs_sorted(f, 10);
    assert forall|c: char| occurrences(#[trigger] sorted_digits(f), c) == occurrences(f, c) by {
        if is_digit(c) {
            let k: int = if c == '0' {
                0
            } else if c == '1' {
                1
            } else if c == '2' {
                2
            } else if c == '3' {
                3
            } else if c == '4' {
                4
            } else if c == '5' {
                5
            } else if c == '6' {
                6
            } else if c == '7' {
                7
            } else if c == '8' {
                8
            } else {
                9
            };
            assert(digit_at(k) == c);
            lemma_runs_occurrences(f, 10, k);
        } else {
            lemma_runs_non_digit(f, 10, c);
            lemma_no_other_characters(f, c);
        }
    }
}

} // verus!
