//! Character-sequence utilities shared by the protocol codec: substring
//! search, splitting, and decimal/hexadecimal number parsing and formatting.

use vstd::prelude::*;
use vstd::string::*;

verus! {

/// The pattern `pat` occurs in `s` at position `i`.
pub open spec fn matches_at(s: Seq<char>, pat: Seq<char>, i: int) -> bool {
    0 <= i && i + pat.len() <= s.len() && s.subrange(i, i + pat.len() as int) == pat
}

/// Index of the first occurrence of `pat` in `s`, if any.
pub open spec fn find_sub(s: Seq<char>, pat: Seq<char>) -> Option<int>
    decreases s.len(),
{
    if pat.len() > s.len() {
        None
    } else if s.subrange(0, pat.len() as int) == pat {
        Some(0)
    } else if s.len() == 0 {
        None
    } else {
        match find_sub(s.subrange(1, s.len() as int), pat) {
            Some(i) => Some(i + 1),
            None => None,
        }
    }
}

pub open spec fn contains_sub(s: Seq<char>, pat: Seq<char>) -> bool {
    find_sub(s, pat) is Some
}

/// `find_sub` returns the least position at which `pat` matches.
pub proof fn lemma_find_sub(s: Seq<char>, pat: Seq<char>)
    ensures
        match find_sub(s, pat) {
            Some(i) => matches_at(s, pat, i) && (forall|j: int|
                0 <= j < i ==> !matches_at(s, pat, j)),
            None => forall|j: int| !matches_at(s, pat, j),
        },
    decreases s.len(),
{
    if pat.len() > s.len() {
    } else if s.subrange(0, pat.len() as int) == pat {
        assert(matches_at(s, pat, 0));
    } else if s.len() == 0 {
        assert(forall|j: int| !matches_at(s, pat, j));
    } else {
        let t = s.subrange(1, s.len() as int);
        lemma_find_sub(t, pat);
        assert forall|j: int| 0 <= j implies (matches_at(s, pat, j + 1) <==> matches_at(
            t,
            pat,
            j,
        )) by {
            if j + 1 + pat.len() <= s.len() {
                assert(s.subrange(j + 1, j + 1 + pat.len() as int) =~= t.subrange(
                    j,
                    j + pat.len() as int,
                ));
            }
        }
        match find_sub(t, pat) {
            Some(i) => {
                assert(matches_at(s, pat, i + 1));
                assert forall|j: int| 0 <= j < i + 1 implies !matches_at(s, pat, j) by {
                    if j == 0 {
                        assert(s.subrange(0, pat.len() as int) != pat);
                    } else {
                        assert(!matches_at(t, pat, j - 1));
                    }
                }
            },
            None => {
                assert forall|j: int| !matches_at(s, pat, j) by {
                    if 0 < j {
                        assert(!matches_at(t, pat, j - 1));
                    } else if j == 0 {
                        assert(s.subrange(0, pat.len() as int) != pat);
                    }
                }
            },
        }
    }
}

/// If `pat` matches at `i` and at no earlier position, the search finds `i`.
pub proof fn lemma_find_sub_at(s: Seq<char>, pat: Seq<char>, i: int)
    requires
        matches_at(s, pat, i),
        forall|j: int| 0 <= j < i ==> !matches_at(s, pat, j),
    ensures
        find_sub(s, pat) == Some(i),
{
    lemma_find_sub(s, pat);
    match find_sub(s, pat) {
        Some(k) => {
            if k < i {
                assert(!matches_at(s, pat, k));
            } else if i < k {
                assert(!matches_at(s, pat, i));
            }
        },
        None => {
            assert(!matches_at(s, pat, i));
        },
    }
}

/// Exec search for the first occurrence of `pat` in `s`, by character index.
pub fn find_sub_str(s: &str, pat: &str) -> (r: Option<usize>)
    ensures
        match r {
            Some(i) => find_sub(s@, pat@) == Some(i as int),
            None => find_sub(s@, pat@) is None,
        },
{
    let n = s.unicode_len();
    let m = pat.unicode_len();
    if m > n {
        proof {
            lemma_find_sub(s@, pat@);
        }
        return None;
    }
    if m == 0 {
        proof {
            assert(s@.subrange(0, 0) =~= pat@);
            lemma_find_sub_at(s@, pat@, 0);
        }
        return Some(0);
    }
    let mut i: usize = 0;
    while i <= n - m
        invariant
            1 <= m <= n,
            n == s@.len(),
            m == pat@.len(),
            i <= n - m + 1,
            forall|j: int| 0 <= j < i ==> !matches_at(s@, pat@, j),
        decreases n - i,
    {
        let mut k: usize = 0;
        let mut ok = true;
        while k < m && ok
            invariant
                1 <= m <= n,
                n == s@.len(),
                m == pat@.len(),
                i + m <= n,
                k <= m,
                ok ==> forall|t: int| 0 <= t < k ==> s@[i + t] == pat@[t],
                !ok ==> !matches_at(s@, pat@, i as int),
            decreases m - k,
        {
            if s.get_char(i + k) != pat.get_char(k) {
                proof {
                    if matches_at(s@, pat@, i as int) {
                        assert(s@.subrange(i as int, i + m as int)[k as int] == pat@[k as int]);
                    }
                }
                ok = false;
            }
            k = k + 1;
        }
        if ok {
            proof {
                assert forall|t: int| 0 <= t < m implies s@.subrange(i as int, i + m as int)[t]
                    == pat@[t] by {
                    assert(s@[i + t] == pat@[t]);
                }
                assert(s@.subrange(i as int, i + m as int) =~= pat@);
                lemma_find_sub_at(s@, pat@, i as int);
            }
            return Some(i);
        }
        i = i + 1;
    }
    proof {
        assert forall|j: int| !matches_at(s@, pat@, j) by {
            if 0 <= j && j + m <= n {
                assert(j < i);
            }
        }
        lemma_find_sub(s@, pat@);
        if find_sub(s@, pat@) is Some {
            let k = find_sub(s@, pat@)->Some_0;
            assert(matches_at(s@, pat@, k));
        }
    }
    None
}

/// A match of `pat` wholly inside the tail `t` of `x + t` is a match in `t`,
/// and the other way round.
pub proof fn lemma_matches_at_shift(x: Seq<char>, t: Seq<char>, pat: Seq<char>, i: int)
    requires
        0 <= i,
    ensures
        matches_at(x + t, pat, x.len() + i) <==> matches_at(t, pat, i),
{
    let s = x + t;
    if i + pat.len() <= t.len() {
        assert(s.subrange(x.len() + i, x.len() + i + pat.len() as int) =~= t.subrange(
            i,
            i + pat.len() as int,
        ));
    }
}

/// When no match of `pat` begins inside the prefix `x`, the first match in
/// `x + t` is the first match in `t`, shifted.
pub proof fn lemma_find_sub_skip_prefix(x: Seq<char>, t: Seq<char>, pat: Seq<char>)
    requires
        pat.len() > 0,
        forall|j: int| 0 <= j < x.len() ==> !matches_at(x + t, pat, j),
    ensures
        find_sub(x + t, pat) == (match find_sub(t, pat) {
            Some(i) => Some(i + x.len()),
            None => None::<int>,
        }),
{
    let s = x + t;
    lemma_find_sub(t, pat);
    assert forall|i: int| 0 <= i implies (matches_at(s, pat, x.len() + i) <==> matches_at(
        t,
        pat,
        i,
    )) by {
        lemma_matches_at_shift(x, t, pat, i);
    }
    match find_sub(t, pat) {
        Some(i) => {
            assert(matches_at(s, pat, x.len() + i));
            assert forall|j: int| 0 <= j < x.len() + i implies !matches_at(s, pat, j) by {
                if j >= x.len() {
                    assert(!matches_at(t, pat, j - x.len()));
                    lemma_matches_at_shift(x, t, pat, j - x.len());
                }
            }
            lemma_find_sub_at(s, pat, x.len() + i);
        },
        None => {
            lemma_find_sub(s, pat);
            if find_sub(s, pat) is Some {
                let k = find_sub(s, pat)->Some_0;
                assert(matches_at(s, pat, k));
                if k >= x.len() {
                    lemma_matches_at_shift(x, t, pat, k - x.len());
                    assert(!matches_at(t, pat, k - x.len()));
                }
            }
        },
    }
}

/// The two pieces around the first occurrence of `pat` in `s`.
pub open spec fn split_first(s: Seq<char>, pat: Seq<char>) -> Option<(Seq<char>, Seq<char>)> {
    match find_sub(s, pat) {
        Some(i) => Some(
            (s.subrange(0, i), s.subrange(i + pat.len() as int, s.len() as int)),
        ),
        None => None,
    }
}

/// Lowercase code point of a character, folding only ASCII letters.
pub open spec fn lower_u32(c: char) -> u32 {
    if 'A' as u32 <= c as u32 <= 'Z' as u32 {
        (c as u32 + 32) as u32
    } else {
        c as u32
    }
}

/// Equality of two character sequences, ignoring ASCII case.
pub open spec fn eq_ci(a: Seq<char>, b: Seq<char>) -> bool {
    a.len() == b.len() && forall|i: int| 0 <= i < a.len() ==> lower_u32(a[i]) == lower_u32(b[i])
}

fn lower_code(c: char) -> (r: u32)
    ensures
        r == lower_u32(c),
{
    let u = c as u32;
    if 65 <= u && u <= 90 {
        u + 32
    } else {
        u
    }
}

/// Exec comparison of two strings, ignoring ASCII case.
pub fn str_eq_ci(a: &str, b: &str) -> (r: bool)
    ensures
        r == eq_ci(a@, b@),
{
    let n = a.unicode_len();
    if b.unicode_len() != n {
        return false;
    }
    let mut i: usize = 0;
    while i < n
        invariant
            n == a@.len(),
            n == b@.len(),
            i <= n,
            forall|j: int| 0 <= j < i ==> lower_u32(a@[j]) == lower_u32(b@[j]),
        decreases n - i,
    {
        if lower_code(a.get_char(i)) != lower_code(b.get_char(i)) {
            return false;
        }
        i = i + 1;
    }
    true
}

// --- decimal and hexadecimal numbers ---

pub open spec fn is_digit(c: char) -> bool {
    '0' as u32 <= c as u32 <= '9' as u32
}

pub open spec fn digit_val(c: char) -> int {
    c as u32 - '0' as u32
}

pub open spec fn all_digits(s: Seq<char>) -> bool {
    forall|i: int| 0 <= i < s.len() ==> is_digit(s[i])
}

/// Value of a sequence of decimal digits.
pub open spec fn dec_val(s: Seq<char>) -> int
    decreases s.len(),
{
    if s.len() == 0 {
        0
    } else {
        dec_val(s.drop_last()) * 10 + digit_val(s.last())
    }
}

pub open spec fn is_hex_digit(c: char) -> bool {
    ('0' as u32 <= c as u32 <= '9' as u32) || ('a' as u32 <= c as u32 <= 'f' as u32) || ('A'
        as u32 <= c as u32 <= 'F' as u32)
}

pub open spec fn hex_digit_val(c: char) -> int {
    if '0' as u32 <= c as u32 <= '9' as u32 {
        c as u32 - '0' as u32
    } else if 'a' as u32 <= c as u32 <= 'f' as u32 {
        c as u32 - 'a' as u32 + 10
    } else {
        c as u32 - 'A' as u32 + 10
    }
}

pub open spec fn all_hex_digits(s: Seq<char>) -> bool {
    forall|i: int| 0 <= i < s.len() ==> is_hex_digit(s[i])
}

/// Value of a sequence of hexadecimal digits.
pub open spec fn hex_val(s: Seq<char>) -> int
    decreases s.len(),
{
    if s.len() == 0 {
        0
    } else {
        hex_val(s.drop_last()) * 16 + hex_digit_val(s.last())
    }
}

proof fn lemma_dec_val_nonneg(s: Seq<char>)
    requires
        all_digits(s),
    ensures
        dec_val(s) >= 0,
    decreases s.len(),
{
    if s.len() > 0 {
        assert(all_digits(s.drop_last()));
        lemma_dec_val_nonneg(s.drop_last());
    }
}

proof fn lemma_hex_val_nonneg(s: Seq<char>)
    requires
        all_hex_digits(s),
    ensures
        hex_val(s) >= 0,
    decreases s.len(),
{
    if s.len() > 0 {
        assert(all_hex_digits(s.drop_last()));
        lemma_hex_val_nonneg(s.drop_last());
    }
}

proof fn lemma_dec_val_step(s: Seq<char>, i: int)
    requires
        0 <= i < s.len(),
    ensures
        dec_val(s.take(i + 1)) == dec_val(s.take(i)) * 10 + digit_val(s[i]),
{
    assert(s.take(i + 1).drop_last() =~= s.take(i));
    assert(s.take(i + 1).last() == s[i]);
}

proof fn lemma_hex_val_step(s: Seq<char>, i: int)
    requires
        0 <= i < s.len(),
    ensures
        hex_val(s.take(i + 1)) == hex_val(s.take(i)) * 16 + hex_digit_val(s[i]),
{
    assert(s.take(i + 1).drop_last() =~= s.take(i));
    assert(s.take(i + 1).last() == s[i]);
}

proof fn lemma_dec_val_prefix_le(s: Seq<char>, a: int, b: int)
    requires
        all_digits(s),
        0 <= a <= b <= s.len(),
    ensures
        dec_val(s.take(a)) <= dec_val(s.take(b)),
    decreases b - a,
{
    if a < b {
        lemma_dec_val_prefix_le(s, a, b - 1);
        lemma_dec_val_step(s, b - 1);
        assert(all_digits(s.take(b - 1)));
        lemma_dec_val_nonneg(s.take(b - 1));
    }
}

proof fn lemma_hex_val_prefix_le(s: Seq<char>, a: int, b: int)
    requires
        all_hex_digits(s),
        0 <= a <= b <= s.len(),
    ensures
        hex_val(s.take(a)) <= hex_val(s.take(b)),
    decreases b - a,
{
    if a < b {
        lemma_hex_val_prefix_le(s, a, b - 1);
        lemma_hex_val_step(s, b - 1);
        assert(all_hex_digits(s.take(b - 1)));
        lemma_hex_val_nonneg(s.take(b - 1));
    }
}

/// Parse an unsigned decimal number that must fit in `u16`.
pub fn parse_u16_dec(s: &str) -> (r: Option<u16>)
    ensures
        match r {
            Some(v) => s@.len() > 0 && all_digits(s@) && dec_val(s@) == v as int,
            None => !(s@.len() > 0 && all_digits(s@) && dec_val(s@) <= u16::MAX as int),
        },
{
    let n = s.unicode_len();
    if n == 0 {
        return None;
    }
    let mut acc: u32 = 0;
    let mut i: usize = 0;
    while i < n
        invariant
            n == s@.len(),
            0 < n,
            i <= n,
            forall|j: int| 0 <= j < i ==> is_digit(s@[j]),
            acc == dec_val(s@.take(i as int)),
            acc <= u16::MAX,
        decreases n - i,
    {
        let c = s.get_char(i);
        let u = c as u32;
        if u < 48 || u > 57 {
            return None;
        }
        let d = u - 48;
        proof {
            lemma_dec_val_step(s@, i as int);
        }
        acc = acc * 10 + d;
        i = i + 1;
        if acc > 65535 {
            proof {
                if all_digits(s@) {
                    lemma_dec_val_prefix_le(s@, i as int, n as int);
                    assert(s@.take(n as int) =~= s@);
                }
            }
            return None;
        }
    }
    proof {
        assert(s@.take(n as int) =~= s@);
    }
    Some(acc as u16)
}

/// Parse an unsigned decimal number that must fit in `usize`.
pub fn parse_usize_dec(s: &str) -> (r: Option<usize>)
    ensures
        match r {
            Some(v) => s@.len() > 0 && all_digits(s@) && dec_val(s@) == v as int,
            None => !(s@.len() > 0 && all_digits(s@) && dec_val(s@) <= usize::MAX as int),
        },
{
    let n = s.unicode_len();
    if n == 0 {
        return None;
    }
    let mut acc: usize = 0;
    let mut i: usize = 0;
    while i < n
        invariant
            n == s@.len(),
            0 < n,
            i <= n,
            forall|j: int| 0 <= j < i ==> is_digit(s@[j]),
            acc == dec_val(s@.take(i as int)),
        decreases n - i,
    {
        let c = s.get_char(i);
        let u = c as u32;
        if u < 48 || u > 57 {
            return None;
        }
        let d = (u - 48) as usize;
        proof {
            lemma_dec_val_step(s@, i as int);
        }
        if acc > (usize::MAX - d) / 10 {
            proof {
                assert(acc * 10 + d > usize::MAX as int) by (nonlinear_arith)
                    requires
                        acc > (usize::MAX - d) / 10,
                        0 <= d <= 9,
                        usize::MAX >= 9,
                ;
                if all_digits(s@) {
                    lemma_dec_val_prefix_le(s@, i + 1, n as int);
                    assert(s@.take(n as int) =~= s@);
                }
            }
            return None;
        }
        proof {
            assert(acc * 10 + d <= usize::MAX as int) by (nonlinear_arith)
                requires
                    acc <= (usize::MAX - d) / 10,
                    0 <= d <= 9,
                    usize::MAX >= 9,
            ;
        }
        acc = acc * 10 + d;
        i = i + 1;
    }
    proof {
        assert(s@.take(n as int) =~= s@);
    }
    Some(acc)
}

/// Parse an unsigned hexadecimal number that must fit in `usize`.
pub fn parse_usize_hex(s: &str) -> (r: Option<usize>)
    ensures
        match r {
            Some(v) => s@.len() > 0 && all_hex_digits(s@) && hex_val(s@) == v as int,
            None => !(s@.len() > 0 && all_hex_digits(s@) && hex_val(s@) <= usize::MAX as int),
        },
{
    let n = s.unicode_len();
    if n == 0 {
        return None;
    }
    let mut acc: usize = 0;
    let mut i: usize = 0;
    while i < n
        invariant
            n == s@.len(),
            0 < n,
            i <= n,
            forall|j: int| 0 <= j < i ==> is_hex_digit(s@[j]),
            acc == hex_val(s@.take(i as int)),
        decreases n - i,
    {
        let c = s.get_char(i);
        let u = c as u32;
        let d: usize;
        if 48 <= u && u <= 57 {
            d = (u - 48) as usize;
        } else if 97 <= u && u <= 102 {
            d = (u - 97 + 10) as usize;
        } else if 65 <= u && u <= 70 {
            d = (u - 65 + 10) as usize;
        } else {
            return None;
        }
        proof {
            lemma_hex_val_step(s@, i as int);
        }
        if acc > (usize::MAX - 15) / 16 {
            proof {
                assert(acc * 16 + d > usize::MAX as int) by (nonlinear_arith)
                    requires
                        acc > (usize::MAX - 15) / 16,
                        d >= 0,
                        usize::MAX >= 15,
                ;
                if all_hex_digits(s@) {
                    lemma_hex_val_prefix_le(s@, i + 1, n as int);
                    assert(s@.take(n as int) =~= s@);
                }
            }
            return None;
        }
        acc = acc * 16 + d;
        i = i + 1;
    }
    proof {
        assert(s@.take(n as int) =~= s@);
    }
    Some(acc)
}

// --- decimal formatting ---

pub open spec fn digit_char(d: int) -> char {
    if d == 0 {
        '0'
    } else if d == 1 {
        '1'
    } else if d == 2 {
        '2'
    } else if d == 3 {
        '3'
    } else if d == 4 {
        '4'
    } else if d == 5 {
        '5'
    } else if d == 6 {
        '6'
    } else if d == 7 {
        '7'
    } else if d == 8 {
        '8'
    } else {
        '9'
    }
}

/// Decimal representation of a number, most significant digit first.
pub open spec fn dec_repr(n: nat) -> Seq<char>
    decreases n,
{
    if n <= 9 {
        seq![digit_char(n as int)]
    } else {
        dec_repr(n / 10).push(digit_char((n % 10) as int))
    }
}

pub proof fn lemma_dec_repr_digits(n: nat)
    ensures
        dec_repr(n).len() >= 1,
        all_digits(dec_repr(n)),
        dec_val(dec_repr(n)) == n,
    decreases n,
{
    if n <= 9 {
        assert(dec_val(dec_repr(n)) == dec_val(dec_repr(n).drop_last()) * 10 + digit_val(
            dec_repr(n).last(),
        ));
        assert(dec_repr(n).drop_last() =~= Seq::<char>::empty());
    } else {
        lemma_dec_repr_digits(n / 10);
        assert(dec_repr(n).drop_last() =~= dec_repr(n / 10));
        assert(dec_repr(n).last() == digit_char((n % 10) as int));
    }
}

fn append_digit(out: &mut String, d: u32)
    requires
        d <= 9,
    ensures
        final(out)@ == old(out)@.push(digit_char(d as int)),
{
    proof {
        reveal_strlit("0");
        reveal_strlit("1");
        reveal_strlit("2");
        reveal_strlit("3");
        reveal_strlit("4");
        reveal_strlit("5");
        reveal_strlit("6");
        reveal_strlit("7");
        reveal_strlit("8");
        reveal_strlit("9");
    }
    let piece = if d == 0 {
        "0"
    } else if d == 1 {
        "1"
    } else if d == 2 {
        "2"
    } else if d == 3 {
        "3"
    } else if d == 4 {
        "4"
    } else if d == 5 {
        "5"
    } else if d == 6 {
        "6"
    } else if d == 7 {
        "7"
    } else if d == 8 {
        "8"
    } else {
        "9"
    };
    out.append(piece);
    proof {
        assert(out@ =~= old(out)@.push(digit_char(d as int)));
    }
}

/// Append the decimal representation of `n` to `out`.
pub fn append_dec(out: &mut String, n: usize)
    ensures
        final(out)@ == old(out)@ + dec_repr(n as nat),
    decreases n,
{
    if n <= 9 {
        append_digit(out, n as u32);
        proof {
            assert(out@ =~= old(out)@ + dec_repr(n as nat));
        }
    } else {
        append_dec(out, n / 10);
        append_digit(out, (n % 10) as u32);
        proof {
            assert(out@ =~= old(out)@ + dec_repr(n as nat));
        }
    }
}

/// Whether `pat` is a prefix of `s`.
pub open spec fn has_prefix(s: Seq<char>, pat: Seq<char>) -> bool {
    s.len() >= pat.len() && s.subrange(0, pat.len() as int) == pat
}

/// Exec prefix test, by character.
pub fn starts_with_str(s: &str, pat: &str) -> (r: bool)
    ensures
        r == has_prefix(s@, pat@),
{
    let n = s.unicode_len();
    let m = pat.unicode_len();
    if m > n {
        return false;
    }
    let mut k: usize = 0;
    while k < m
        invariant
            m <= n,
            n == s@.len(),
            m == pat@.len(),
            k <= m,
            forall|t: int| 0 <= t < k ==> s@[t] == pat@[t],
        decreases m - k,
    {
        if s.get_char(k) != pat.get_char(k) {
            proof {
                if has_prefix(s@, pat@) {
                    assert(s@.subrange(0, m as int)[k as int] == pat@[k as int]);
                }
            }
            return false;
        }
        k = k + 1;
    }
    proof {
        assert forall|t: int| 0 <= t < m implies s@.subrange(0, m as int)[t] == pat@[t] by {
            assert(s@[t] == pat@[t]);
        }
        assert(s@.subrange(0, m as int) =~= pat@);
    }
    true
}

/// Exec counterpart of `split_first`, copying both pieces out.
pub fn split_once_str(s: &str, pat: &str) -> (r: Option<(String, String)>)
    ensures
        match r {
            Some(p) => split_first(s@, pat@) == Some((p.0@, p.1@)),
            None => split_first(s@, pat@) is None,
        },
{
    match find_sub_str(s, pat) {
        Some(i) => {
            proof {
                lemma_find_sub(s@, pat@);
            }
            let n = s.unicode_len();
            let m = pat.unicode_len();
            let left = String::from_str(s.substring_char(0, i));
            let right = String::from_str(s.substring_char(i + m, n));
            Some((left, right))
        },
        None => None,
    }
}

} // verus!
