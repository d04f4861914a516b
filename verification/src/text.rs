//! Character-level helpers on strings: conversion to and from character
//! vectors, decimal rendering of integers, ASCII case folding and the
//! lexicographic order of strings.
use vstd::prelude::*;

verus! {

/// Appends one character to a string (`String::push`).
#[verifier::external_body]
pub(crate) fn push_char(s: &mut String, c: char)
    ensures
        final(s)@ == old(s)@.push(c),
{
    s.push(c);
}

/// The characters of a string, in order.
pub fn chars_of(s: &str) -> (res: Vec<char>)
    ensures
        res@ == s@,
{
    let mut res: Vec<char> = Vec::new();
    for c in it: s.chars()
        invariant
            res@ == it.seq().take(it.index() as int),
            it.seq() == s@,
    {
        res.push(c);
    }
    res
}

/// Appends the characters of `cs` to `out`.
pub fn append_chars(out: &mut String, cs: &Vec<char>)
    ensures
        final(out)@ == old(out)@ + cs@,
{
    let n = cs.len();
    for i in 0..n
        invariant
            n == cs@.len(),
            out@ == old(out)@ + cs@.take(i as int),
    {
        push_char(out, cs[i]);
        assert(cs@.take(i + 1) == cs@.take(i as int).push(cs@[i as int]));
    }
    assert(cs@.take(n as int) == cs@);
}

/// Whether two strings hold the same characters.
pub fn str_eq(a: &str, b: &str) -> (res: bool)
    ensures
        res == (a@ == b@),
{
    let sa = String::from_str(a);
    let sb = String::from_str(b);
    sa == sb
}

/// The character of a decimal digit.
pub open spec fn digit_char(d: nat) -> char {
    (d + 48) as char
}

/// The decimal rendering of a natural number, without sign or leading zeros.
pub open spec fn decimal(n: nat) -> Seq<char>
    decreases n,
{
    if n < 10 {
        seq![digit_char(n)]
    } else {
        decimal(n / 10).push(digit_char(n % 10))
    }
}

/// The number that a string of decimal digits denotes.
pub open spec fn decimal_value(s: Seq<char>) -> nat
    decreases s.len(),
{
    if s.len() == 0 {
        0
    } else {
        (decimal_value(s.drop_last()) * 10 + (s.last() as nat - 48)) as nat
    }
}

/// Whether every character of `s` is one of `0`..`9`.
pub open spec fn all_digits(s: Seq<char>) -> bool {
    forall|i: int| 0 <= i < s.len() ==> '0' <= #[trigger] s[i] && s[i] <= '9'
}

/// The decimal rendering of `n`, padded on the left with `0` to at least two digits.
pub open spec fn decimal_pad2(n: nat) -> Seq<char> {
    if n < 10 {
        seq!['0', digit_char(n)]
    } else {
        decimal(n)
    }
}

/// Decimal rendering reads back as the number it renders: it is made of
/// digits only, and the digits denote `n`.
pub proof fn lemma_decimal_round_trip(n: nat)
    ensures
        all_digits(decimal(n)),
        decimal(n).len() > 0,
        decimal_value(decimal(n)) == n,
    decreases n,
{
    if n >= 10 {
        lemma_decimal_round_trip(n / 10);
        let s = decimal(n);
        assert(s.drop_last() == decimal(n / 10));
        assert(n == (n / 10) * 10 + n % 10);
        assert(digit_char(n % 10) as nat == n % 10 + 48);
        assert(s.last() == digit_char(n % 10));
        assert(decimal_value(s) == decimal_value(s.drop_last()) * 10 + (s.last() as nat - 48));
        assert(decimal_value(s.drop_last()) == n / 10);
    } else {
        assert(digit_char(n) as nat == n + 48);
        let s = decimal(n);
        assert(s.drop_last() == Seq::<char>::empty());
        assert(decimal_value(s.drop_last()) == 0);
        assert(s.last() == digit_char(n));
    }
}

fn digit(d: u64) -> (c: char)
    requires
        d < 10,
    ensures
        c == digit_char(d as nat),
{
    let b: u8 = 48u8 + (d as u8);
    b as char
}

/// Appends the decimal rendering of `n` to `out`.
pub fn push_decimal(out: &mut String, n: u64)
    ensures
        final(out)@ == old(out)@ + decimal(n as nat),
    decreases n,
{
    if n >= 10 {
        push_decimal(out, n / 10);
    }
    push_char(out, digit(n % 10));
}

/// The decimal rendering of `n`.
pub fn u64_to_string(n: u64) -> (res: String)
    ensures
        res@ == decimal(n as nat),
{
    let mut s = String::new();
    push_decimal(&mut s, n);
    s
}

/// The decimal rendering of `n`.
pub fn usize_to_string(n: usize) -> (res: String)
    ensures
        res@ == decimal(n as nat),
{
    u64_to_string(n as u64)
}

/// Appends the decimal rendering of `n`, padded with `0` to two digits.
pub fn push_decimal_pad2(out: &mut String, n: u64)
    ensures
        final(out)@ == old(out)@ + decimal_pad2(n as nat),
{
    if n < 10 {
        push_char(out, '0');
        push_char(out, digit(n));
        assert(decimal_pad2(n as nat) == seq!['0', digit_char(n as nat)]);
        assert(old(out)@.push('0').push(digit_char(n as nat)) == old(out)@ + seq!['0', digit_char(n as nat)]);
    } else {
        push_decimal(out, n);
    }
}

/// The ASCII lower-case form of a character; other characters are unchanged.
pub open spec fn ascii_lower(c: char) -> char {
    if 'A' <= c && c <= 'Z' {
        ((c as u32) + 32) as char
    } else {
        c
    }
}

/// Equality of two character sequences when ASCII letters are compared
/// without regard to case.
pub open spec fn eq_ignore_ascii_case(a: Seq<char>, b: Seq<char>) -> bool {
    &&& a.len() == b.len()
    &&& forall|i: int| 0 <= i < a.len() ==> ascii_lower(#[trigger] a[i]) == ascii_lower(b[i])
}

/// Equality without regard to ASCII case is an equivalence: reflexive,
/// symmetric and transitive.
pub proof fn lemma_eq_ignore_ascii_case_equivalence(a: Seq<char>, b: Seq<char>, c: Seq<char>)
    ensures
        eq_ignore_ascii_case(a, a),
        eq_ignore_ascii_case(a, b) ==> eq_ignore_ascii_case(b, a),
        eq_ignore_ascii_case(a, b) && eq_ignore_ascii_case(b, c) ==> eq_ignore_ascii_case(a, c),
{
    if eq_ignore_ascii_case(a, b) && eq_ignore_ascii_case(b, c) {
        assert forall|i: int| 0 <= i < a.len() implies ascii_lower(#[trigger] a[i]) == ascii_lower(
            c[i],
        ) by {
            assert(ascii_lower(a[i]) == ascii_lower(b[i]));
            assert(ascii_lower(b[i]) == ascii_lower(c[i]));
        }
    }
}

/// Folding ASCII case (`char::to_ascii_lowercase`) leaves no ASCII
/// upper-case letter: each of `A` to `Z` becomes the letter 32 code points
/// above it, from `a` to `z`, and every other character stays as it is.
pub proof fn lemma_ascii_lower_folds(c: char)
    ensures
        !('A' <= ascii_lower(c) && ascii_lower(c) <= 'Z'),
        'A' <= c && c <= 'Z' ==> ascii_lower(c) as u32 == c as u32 + 32 && 'a' <= ascii_lower(c)
            && ascii_lower(c) <= 'z',
        !('A' <= c && c <= 'Z') ==> ascii_lower(c) == c,
{
}

/// Two names whose characters are pairwise equal or the upper- and
/// lower-case forms of one ASCII letter are equal without regard to ASCII
/// case; names of different lengths never are.
pub proof fn lemma_case_variants_match(a: Seq<char>, b: Seq<char>)
    ensures
        a.len() == b.len() && (forall|i: int|
            0 <= i < a.len() ==> #[trigger] a[i] == b[i] || ('A' <= a[i] && a[i] <= 'Z' && b[i]
                as u32 == a[i] as u32 + 32) || ('A' <= b[i] && b[i] <= 'Z' && a[i] as u32 == b[i]
                as u32 + 32)) ==> eq_ignore_ascii_case(a, b),
        a.len() != b.len() ==> !eq_ignore_ascii_case(a, b),
{
    if a.len() == b.len() && (forall|i: int|
        0 <= i < a.len() ==> #[trigger] a[i] == b[i] || ('A' <= a[i] && a[i] <= 'Z' && b[i] as u32
            == a[i] as u32 + 32) || ('A' <= b[i] && b[i] <= 'Z' && a[i] as u32 == b[i] as u32
            + 32)) {
        assert forall|i: int| 0 <= i < a.len() implies ascii_lower(#[trigger] a[i]) == ascii_lower(
            b[i],
        ) by {
            lemma_ascii_lower_folds(a[i]);
            lemma_ascii_lower_folds(b[i]);
            if a[i] != b[i] {
                if 'A' <= a[i] && a[i] <= 'Z' && b[i] as u32 == a[i] as u32 + 32 {
                    assert(ascii_lower(a[i]) as u32 == b[i] as u32);
                } else {
                    assert(ascii_lower(b[i]) as u32 == a[i] as u32);
                }
            }
        }
    }
}

fn lower_char(c: char) -> (r: char)
    ensures
        r == ascii_lower(c),
{
    if 'A' <= c && c <= 'Z' {
        let b: u8 = (c as u8) + 32u8;
        b as char
    } else {
        c
    }
}

/// Whether two strings are equal when ASCII letters are compared without
/// regard to case (`str::eq_ignore_ascii_case`).
pub fn str_eq_ignore_ascii_case(a: &str, b: &str) -> (res: bool)
    ensures
        res == eq_ignore_ascii_case(a@, b@),
{
    let ca = chars_of(a);
    let cb = chars_of(b);
    if ca.len() != cb.len() {
        return false;
    }
    let n = ca.len();
    for i in 0..n
        invariant
            n == ca@.len(),
            n == cb@.len(),
            ca@ == a@,
            cb@ == b@,
            forall|j: int| 0 <= j < i ==> ascii_lower(#[trigger] ca@[j]) == ascii_lower(cb@[j]),
    {
        if lower_char(ca[i]) != lower_char(cb[i]) {
            return false;
        }
    }
    true
}

/// Strict lexicographic order of character sequences, comparing characters by
/// their code points. On strings this is the order of `str`'s `Ord`, since
/// UTF-8 preserves the order of code points.
pub open spec fn seq_lt(a: Seq<char>, b: Seq<char>) -> bool
    decreases a.len(),
{
    if a.len() == 0 {
        b.len() > 0
    } else if b.len() == 0 {
        false
    } else if a[0] != b[0] {
        a[0] < b[0]
    } else {
        seq_lt(a.drop_first(), b.drop_first())
    }
}

/// Lexicographic order, allowing equality.
pub open spec fn seq_le(a: Seq<char>, b: Seq<char>) -> bool {
    a == b || seq_lt(a, b)
}

/// The strict order is irreflexive.
pub proof fn lemma_seq_lt_irreflexive(a: Seq<char>)
    ensures
        !seq_lt(a, a),
    decreases a.len(),
{
    if a.len() > 0 {
        lemma_seq_lt_irreflexive(a.drop_first());
    }
}

/// The strict order is transitive.
pub proof fn lemma_seq_lt_transitive(a: Seq<char>, b: Seq<char>, c: Seq<char>)
    requires
        seq_lt(a, b),
        seq_lt(b, c),
    ensures
        seq_lt(a, c),
    decreases a.len(),
{
    if a.len() > 0 && b.len() > 0 && c.len() > 0 && a[0] == b[0] && b[0] == c[0] {
        lemma_seq_lt_transitive(a.drop_first(), b.drop_first(), c.drop_first());
    }
}

/// Any two different sequences are ordered one way or the other.
pub proof fn lemma_seq_lt_total(a: Seq<char>, b: Seq<char>)
    ensures
        a == b || seq_lt(a, b) || seq_lt(b, a),
    decreases a.len(),
{
    if a.len() > 0 && b.len() > 0 && a[0] == b[0] {
        lemma_seq_lt_total(a.drop_first(), b.drop_first());
        if a.drop_first() == b.drop_first() {
            assert(a == seq![a[0]] + a.drop_first());
            assert(b == seq![b[0]] + b.drop_first());
        }
    } else if a.len() == 0 && b.len() == 0 {
        assert(a == b);
    }
}

/// The order of names is the lexicographic order of `String`: at the first
/// position where two names differ, the one with the smaller character comes
/// first, whatever their lengths.
pub proof fn lemma_seq_lt_first_difference(a: Seq<char>, b: Seq<char>, i: int)
    requires
        0 <= i < a.len(),
        i < b.len(),
        a.take(i) == b.take(i),
        a[i] < b[i],
    ensures
        seq_lt(a, b),
        !seq_lt(b, a),
    decreases i,
{
    if i > 0 {
        assert(a[0] == a.take(i)[0]);
        assert(b[0] == b.take(i)[0]);
        assert(a.drop_first().take(i - 1) =~= a.take(i).drop_first());
        assert(b.drop_first().take(i - 1) =~= b.take(i).drop_first());
        lemma_seq_lt_first_difference(a.drop_first(), b.drop_first(), i - 1);
    }
}

/// A proper prefix of a name comes before the name.
pub proof fn lemma_seq_lt_prefix(a: Seq<char>, b: Seq<char>)
    requires
        a.len() < b.len(),
        b.take(a.len() as int) == a,
    ensures
        seq_lt(a, b),
        !seq_lt(b, a),
    decreases a.len(),
{
    if a.len() > 0 {
        assert(b[0] == b.take(a.len() as int)[0]);
        assert(b.drop_first().take(a.len() - 1) =~= a.drop_first());
        lemma_seq_lt_prefix(a.drop_first(), b.drop_first());
    }
}

/// Whether `a` comes strictly before `b` in lexicographic order.
pub fn chars_lt(a: &Vec<char>, b: &Vec<char>) -> (res: bool)
    ensures
        res == seq_lt(a@, b@),
{
    let mut i: usize = 0;
    assert(a@.skip(0) == a@);
    assert(b@.skip(0) == b@);
    while i < a.len() && i < b.len()
        invariant
            i <= a@.len(),
            i <= b@.len(),
            forall|j: int| 0 <= j < i ==> a@[j] == b@[j],
            seq_lt(a@, b@) == seq_lt(a@.skip(i as int), b@.skip(i as int)),
        decreases a@.len() - i,
    {
        if a[i] != b[i] {
            assert(a@.skip(i as int)[0] == a@[i as int]);
            assert(b@.skip(i as int)[0] == b@[i as int]);
            return a[i] < b[i];
        }
        assert(a@.skip(i as int).drop_first() == a@.skip(i + 1));
        assert(b@.skip(i as int).drop_first() == b@.skip(i + 1));
        i = i + 1;
    }
    i < b.len()
}

/// Whether the sequence is in ascending lexicographic order.
pub open spec fn sorted(s: Seq<Seq<char>>) -> bool {
    forall|i: int, j: int| 0 <= i < j < s.len() ==> seq_le(#[trigger] s[i], #[trigger] s[j])
}

/// The character sequences of a vector of strings.
pub open spec fn views(v: Seq<String>) -> Seq<Seq<char>> {
    v.map_values(|s: String| s@)
}

/// The strings of `v` in ascending lexicographic order, duplicates kept.
pub fn sort_strings(v: Vec<String>) -> (res: Vec<String>)
    ensures
        sorted(views(res@)),
        views(res@).to_multiset() == views(v@).to_multiset(),
{
    broadcast use vstd::seq_lib::group_to_multiset_ensures;

    let mut rest = v;
    let mut res: Vec<String> = Vec::new();
    let mut rest_chars: Vec<Vec<char>> = Vec::new();
    let n = rest.len();
    for i in 0..n
        invariant
            n == rest@.len(),
            rest_chars@.len() == i,
            forall|j: int| 0 <= j < i ==> (#[trigger] rest_chars@[j])@ == rest@[j]@,
    {
        rest_chars.push(chars_of(rest[i].as_str()));
    }
    assert(views(res@) == Seq::<Seq<char>>::empty());
    while rest.len() > 0
        invariant
            rest_chars@.len() == rest@.len(),
            forall|j: int| 0 <= j < rest@.len() ==> (#[trigger] rest_chars@[j])@ == rest@[j]@,
            sorted(views(res@)),
            forall|x: int, y: int|
                0 <= x < res@.len() && 0 <= y < rest@.len() ==> seq_le(
                    #[trigger] res@[x]@,
                    #[trigger] rest@[y]@,
                ),
            views(res@).to_multiset().add(views(rest@).to_multiset()) == views(v@).to_multiset(),
        decreases rest@.len(),
    {
        let mut k: usize = 0;
        let mut i: usize = 1;
        while i < rest.len()
            invariant
                rest_chars@.len() == rest@.len(),
                forall|j: int| 0 <= j < rest@.len() ==> (#[trigger] rest_chars@[j])@ == rest@[j]@,
                0 <= k < i <= rest@.len(),
                forall|j: int| 0 <= j < i ==> seq_le(rest@[k as int]@, #[trigger] rest@[j]@),
            decreases rest@.len() - i,
        {
            if chars_lt(&rest_chars[i], &rest_chars[k]) {
                proof {
                    assert forall|j: int| 0 <= j < i + 1 implies seq_le(
                        rest@[i as int]@,
                        #[trigger] rest@[j]@,
                    ) by {
                        if j < i && rest@[k as int]@ != rest@[j]@ {
                            lemma_seq_lt_transitive(rest@[i as int]@, rest@[k as int]@, rest@[j]@);
                        }
                    }
                }
                k = i;
            } else {
                proof {
                    lemma_seq_lt_total(rest@[i as int]@, rest@[k as int]@);
                }
            }
            i = i + 1;
        }
        let ghost old_rest = rest@;
        let ghost old_res = res@;
        let m = rest.remove(k);
        let _ = rest_chars.remove(k);
        res.push(m);
        proof {
            assert(views(old_rest).remove(k as int) == views(rest@));
            assert(views(res@) == views(old_res).push(m@));
            assert(views(old_rest)[k as int] == m@);
            vstd::seq_lib::to_multiset_remove(views(old_rest), k as int);
            vstd::seq_lib::to_multiset_contains(views(old_rest), m@);
            assert(views(old_rest).contains(m@));
            vstd::seq_lib::to_multiset_build(views(old_res), m@);
            assert(views(res@).to_multiset().add(views(rest@).to_multiset()) =~= views(
                old_res,
            ).to_multiset().add(views(old_rest).to_multiset())) by {
                broadcast use vstd::multiset::group_multiset_axioms;

            }
            assert forall|x: int, y: int| 0 <= x < y < res@.len() implies seq_le(
                #[trigger] views(res@)[x],
                #[trigger] views(res@)[y],
            ) by {
                if y < res@.len() - 1 {
                    assert(views(old_res)[x] == views(res@)[x]);
                    assert(views(old_res)[y] == views(res@)[y]);
                } else {
                    assert(res@[x] == old_res[x]);
                }
            }
            assert forall|x: int, y: int|
                0 <= x < res@.len() && 0 <= y < rest@.len() implies seq_le(
                #[trigger] res@[x]@,
                #[trigger] rest@[y]@,
            ) by {
                let yy = if y < k { y } else { y + 1 };
                assert(rest@[y] == old_rest[yy]);
                if x < res@.len() - 1 {
                    assert(res@[x] == old_res[x]);
                }
            }
        }
    }
    assert(views(rest@) == Seq::<Seq<char>>::empty());
    res
}

} // verus!
