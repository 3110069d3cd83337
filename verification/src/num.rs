//! Numeric field grammars.
//!
//! The integer columns of a record must hold unsigned decimal text whose
//! value fits in 32 bits, and the coordinate columns must hold a floating
//! point literal: an optional sign, then either one of the keywords
//! `inf`, `infinity` or `nan` (letter case free), or digits with at most
//! one decimal point and at least one digit, optionally followed by an
//! exponent marker `e` or `E`, an optional sign and a nonempty digit run.

use vstd::prelude::*;

verus! {

pub open spec fn is_digit(c: char) -> bool {
    '0' <= c && c <= '9'
}

/// The value of one digit character; zero on anything else.
pub open spec fn digit_val(c: char) -> nat {
    if is_digit(c) {
        (c as u32 - '0' as u32) as nat
    } else {
        0
    }
}

pub open spec fn all_digits(s: Seq<char>) -> bool {
    forall|i: int| 0 <= i < s.len() ==> is_digit(#[trigger] s[i])
}

/// The value of a digit sequence read as a decimal numeral.
pub open spec fn dec_val(s: Seq<char>) -> nat
    decreases s.len(),
{
    if s.len() == 0 {
        0
    } else {
        dec_val(s.drop_last()) * 10 + digit_val(s.last())
    }
}

/// A numeral's value never falls when more digits follow.
pub proof fn lemma_dec_val_prefix_le(s: Seq<char>, j: int)
    requires
        0 <= j <= s.len(),
    ensures
        dec_val(s.take(j)) <= dec_val(s),
    decreases s.len() - j,
{
    if j == s.len() {
        assert(s.take(j) =~= s);
    } else {
        assert(s.take(j + 1).drop_last() =~= s.take(j));
        assert(dec_val(s.take(j)) <= dec_val(s.take(j + 1)));
        lemma_dec_val_prefix_le(s, j + 1);
    }
}

/// One leading `+` removed, if present.
pub open spec fn strip_plus(s: Seq<char>) -> Seq<char> {
    if s.len() > 0 && s[0] == '+' {
        s.skip(1)
    } else {
        s
    }
}

/// Text accepted as a `u32`: an optional `+`, then a nonempty digit run
/// whose value fits in 32 bits.
pub open spec fn is_u32_text(s: Seq<char>) -> bool {
    let b = strip_plus(s);
    b.len() > 0 && all_digits(b) && dec_val(b) <= u32::MAX
}

/// Parses unsigned decimal text, accepting exactly the texts that
/// `is_u32_text` admits and returning the numeral's value.
pub fn parse_u32(s: &str) -> (r: Option<u32>)
    ensures
        r is Some <==> is_u32_text(s@),
        r is Some ==> r->Some_0 == dec_val(strip_plus(s@)),
{
    let n = s.unicode_len();
    let off: usize = if n > 0 && s.get_char(0) == '+' {
        1
    } else {
        0
    };
    let ghost b = strip_plus(s@);
    proof {
        assert(b =~= s@.skip(off as int));
    }
    if n == off {
        return None;
    }
    let mut acc: u64 = 0;
    let mut i: usize = off;
    while i < n
        invariant
            n == s@.len(),
            off <= i <= n,
            b == strip_plus(s@),
            b == s@.skip(off as int),
            b.len() == n - off,
            forall|j: int| 0 <= j < i - off ==> is_digit(#[trigger] b[j]),
            acc == dec_val(b.take(i - off)),
            acc <= u32::MAX,
        decreases n - i,
    {
        let c = s.get_char(i);
        proof {
            assert(b[i - off] == s@[i as int]);
        }
        if !(c >= '0' && c <= '9') {
            proof {
                assert(!is_digit(b[i - off]));
                assert(!all_digits(b));
            }
            return None;
        }
        let d: u64 = (c as u32 - '0' as u32) as u64;
        acc = acc * 10 + d;
        proof {
            assert(b.take(i - off + 1).drop_last() =~= b.take(i - off));
            assert(b.take(i - off + 1).last() == b[i - off]);
        }
        if acc > 0xffff_ffff {
            proof {
                assert(acc == dec_val(b.take(i - off + 1)));
                lemma_dec_val_prefix_le(b, i - off + 1);
                assert(dec_val(b) > u32::MAX);
            }
            return None;
        }
        i = i + 1;
    }
    proof {
        assert(b.take(n - off) =~= b);
    }
    Some(acc as u32)
}

/// One leading `+` or `-` removed, if present.
pub open spec fn strip_sign(s: Seq<char>) -> Seq<char> {
    if s.len() > 0 && (s[0] == '+' || s[0] == '-') {
        s.skip(1)
    } else {
        s
    }
}

pub open spec fn eq_ci(c: char, lower: char, upper: char) -> bool {
    c == lower || c == upper
}

pub open spec fn is_inf_text(b: Seq<char>) -> bool {
    b.len() == 3 && eq_ci(b[0], 'i', 'I') && eq_ci(b[1], 'n', 'N') && eq_ci(b[2], 'f', 'F')
}

pub open spec fn is_infinity_text(b: Seq<char>) -> bool {
    b.len() == 8 && eq_ci(b[0], 'i', 'I') && eq_ci(b[1], 'n', 'N') && eq_ci(b[2], 'f', 'F')
        && eq_ci(b[3], 'i', 'I') && eq_ci(b[4], 'n', 'N') && eq_ci(b[5], 'i', 'I') && eq_ci(
        b[6],
        't',
        'T',
    ) && eq_ci(b[7], 'y', 'Y')
}

pub open spec fn is_nan_text(b: Seq<char>) -> bool {
    b.len() == 3 && eq_ci(b[0], 'n', 'N') && eq_ci(b[1], 'a', 'A') && eq_ci(b[2], 'n', 'N')
}

/// Digits with at most one decimal point and at least one digit.
pub open spec fn is_mantissa(m: Seq<char>) -> bool {
    &&& exists|i: int| 0 <= i < m.len() && is_digit(#[trigger] m[i])
    &&& forall|i: int| 0 <= i < m.len() ==> is_digit(#[trigger] m[i]) || m[i] == '.'
    &&& forall|i: int, j: int|
        0 <= i < j < m.len() ==> !(#[trigger] m[i] == '.' && #[trigger] m[j] == '.')
}

pub open spec fn is_exp_char(c: char) -> bool {
    c == 'e' || c == 'E'
}

/// An exponent after the marker: an optional sign, then a nonempty digit run.
pub open spec fn is_exp_tail(t: Seq<char>) -> bool {
    strip_sign(t).len() > 0 && all_digits(strip_sign(t))
}

/// A decimal number: a mantissa, optionally followed by an exponent
/// marker and an exponent.
pub open spec fn is_number_text(b: Seq<char>) -> bool {
    ||| is_mantissa(b)
    ||| exists|j: int|
        0 <= j < b.len() && is_exp_char(#[trigger] b[j]) && is_mantissa(b.take(j)) && is_exp_tail(
            b.skip(j + 1),
        )
}

/// Text accepted as a floating point value: an optional sign, then an
/// infinity or not-a-number keyword, or a decimal number.
pub open spec fn is_float_text(s: Seq<char>) -> bool {
    let b = strip_sign(s);
    is_inf_text(b) || is_infinity_text(b) || is_nan_text(b) || is_number_text(b)
}

fn char_ci(c: char, lower: char, upper: char) -> (r: bool)
    ensures
        r == eq_ci(c, lower, upper),
{
    c == lower || c == upper
}

/// Decides whether `s` is accepted as a floating point value, exactly as
/// `is_float_text` describes.
pub fn is_float_field(s: &str) -> (r: bool)
    ensures
        r == is_float_text(s@),
{
    let n = s.unicode_len();
    let off: usize = if n > 0 {
        let c0 = s.get_char(0);
        if c0 == '+' || c0 == '-' {
            1
        } else {
            0
        }
    } else {
        0
    };
    let ghost b = strip_sign(s@);
    proof {
        assert(b =~= s@.skip(off as int));
    }
    let m = n - off;
    if m == 3 && char_ci(s.get_char(off), 'i', 'I') && char_ci(s.get_char(off + 1), 'n', 'N')
        && char_ci(s.get_char(off + 2), 'f', 'F') {
        return true;
    }
    if m == 8 && char_ci(s.get_char(off), 'i', 'I') && char_ci(s.get_char(off + 1), 'n', 'N')
        && char_ci(s.get_char(off + 2), 'f', 'F') && char_ci(s.get_char(off + 3), 'i', 'I')
        && char_ci(s.get_char(off + 4), 'n', 'N') && char_ci(s.get_char(off + 5), 'i', 'I')
        && char_ci(s.get_char(off + 6), 't', 'T') && char_ci(s.get_char(off + 7), 'y', 'Y') {
        return true;
    }
    if m == 3 && char_ci(s.get_char(off), 'n', 'N') && char_ci(s.get_char(off + 1), 'a', 'A')
        && char_ci(s.get_char(off + 2), 'n', 'N') {
        return true;
    }
    let mut saw_digit = false;
    let mut saw_dot = false;
    let mut i: usize = off;
    while i < n
        invariant
            n == s@.len(),
            off <= i <= n,
            b == strip_sign(s@),
            b == s@.skip(off as int),
            b.len() == n - off,
            forall|j: int| 0 <= j < i - off ==> is_digit(#[trigger] b[j]) || b[j] == '.',
            forall|j: int| 0 <= j < i - off ==> !is_exp_char(#[trigger] b[j]),
            saw_digit == exists|j: int| 0 <= j < i - off && is_digit(#[trigger] b[j]),
            saw_dot == exists|j: int| 0 <= j < i - off && #[trigger] b[j] == '.',
            forall|j1: int, j2: int|
                0 <= j1 < j2 < i - off ==> !(#[trigger] b[j1] == '.' && #[trigger] b[j2] == '.'),
            !is_inf_text(b),
            !is_infinity_text(b),
            !is_nan_text(b),
        decreases n - i,
    {
        let c = s.get_char(i);
        proof {
            assert(b[i - off] == s@[i as int]);
        }
        if c == 'e' || c == 'E' {
            if !saw_digit {
                proof {
                    lemma_no_number_bad_mantissa_char(b, i - off);
                }
                return false;
            }
            let mut j = i + 1;
            if j < n {
                let cj = s.get_char(j);
                if cj == '+' || cj == '-' {
                    j = j + 1;
                }
            }
            let ghost t = b.skip(i - off + 1);
            let ghost ts = strip_sign(t);
            proof {
                assert(t =~= s@.skip(i + 1));
                assert(ts =~= s@.skip(j as int));
                let mtk = b.take(i - off);
                let qd = choose|q: int| 0 <= q < i - off && is_digit(#[trigger] b[q]);
                assert(mtk[qd] == b[qd]);
                assert(forall|q: int| 0 <= q < mtk.len() ==> #[trigger] mtk[q] == b[q]);
                assert(is_mantissa(mtk));
            }
            if j == n {
                proof {
                    assert(strip_sign(b.skip(i - off + 1)) == ts);
                    assert(ts.len() == 0);
                    lemma_number_unique_split(b, i - off);
                }
                return false;
            }
            let mut k = j;
            while k < n
                invariant
                    n == s@.len(),
                    off <= i < n,
                    i + 1 <= j <= k <= n,
                    j < n,
                    strip_sign(b.skip(i - off + 1)) == ts,
                    b == strip_sign(s@),
                    b == s@.skip(off as int),
                    b.len() == n - off,
                    ts == s@.skip(j as int),
                    ts.len() == n - j,
                    forall|q: int| 0 <= q < k - j ==> is_digit(#[trigger] ts[q]),
                    is_exp_char(b[i - off]),
                    is_mantissa(b.take(i - off)),
                    forall|q: int| 0 <= q < i - off ==> !is_exp_char(#[trigger] b[q]),
                    !is_inf_text(b),
                    !is_infinity_text(b),
                    !is_nan_text(b),
                decreases n - k,
            {
                let ck = s.get_char(k);
                if !(ck >= '0' && ck <= '9') {
                    proof {
                        assert(ts[k - j] == s@[k as int]);
                        assert(!is_digit(ts[k - j]));
                        assert(!all_digits(ts));
                        lemma_number_unique_split(b, i - off);
                    }
                    return false;
                }
                k = k + 1;
            }
            proof {
                assert(ts.len() == n - j);
                assert(is_exp_tail(b.skip(i - off + 1)));
                assert(is_number_text(b)) by {
                    assert(is_exp_char(b[i - off]) && is_mantissa(b.take(i - off)) && is_exp_tail(
                        b.skip(i - off + 1),
                    ));
                }
            }
            return true;
        }
        if c >= '0' && c <= '9' {
            saw_digit = true;
        } else if c == '.' {
            if saw_dot {
                proof {
                    lemma_no_number_two_dots(b, i - off);
                }
                return false;
            }
            saw_dot = true;
        } else {
            proof {
                lemma_no_number_bad_mantissa_char(b, i - off);
            }
            return false;
        }
        i = i + 1;
    }
    if saw_digit {
        proof {
            assert(b.take(n - off) =~= b);
        }
        true
    } else {
        proof {
            assert(forall|j: int|
                0 <= j < b.len() ==> !is_exp_char(#[trigger] b[j]));
        }
        false
    }
}

/// With a character at `p` that is neither digit, point nor exponent
/// marker, no way of reading `b` as a decimal number remains.
proof fn lemma_no_number_bad_mantissa_char(b: Seq<char>, p: int)
    requires
        0 <= p < b.len(),
        forall|q: int| 0 <= q < p ==> !is_exp_char(#[trigger] b[q]),
        !is_exp_char(b[p]) ==> !is_digit(b[p]) && b[p] != '.',
        is_exp_char(b[p]) ==> !(exists|q: int| 0 <= q < p && is_digit(#[trigger] b[q])),
        forall|q: int| 0 <= q < p ==> is_digit(#[trigger] b[q]) || b[q] == '.',
    ensures
        !is_number_text(b),
{
    assert(!is_mantissa(b)) by {
        if is_exp_char(b[p]) {
            assert(!is_digit(b[p]) && b[p] != '.');
        }
    }
    assert forall|j: int|
        0 <= j < b.len() && is_exp_char(#[trigger] b[j]) implies !(is_mantissa(b.take(j))
        && is_exp_tail(b.skip(j + 1))) by {
        if j < p {
            assert(!is_exp_char(b[j]));
        } else if j == p {
            if is_exp_char(b[p]) {
                assert forall|q: int| 0 <= q < p && is_digit(#[trigger] b.take(j)[q]) implies false by {
                    assert(b.take(j)[q] == b[q]);
                }
                assert(!is_mantissa(b.take(j)));
            }
        } else {
            assert(b.take(j)[p] == b[p]);
            assert(!is_mantissa(b.take(j)));
        }
    }
}

/// With two decimal points before any exponent marker, no way of reading
/// `b` as a decimal number remains.
proof fn lemma_no_number_two_dots(b: Seq<char>, p: int)
    requires
        0 <= p < b.len(),
        b[p] == '.',
        exists|q: int| 0 <= q < p && #[trigger] b[q] == '.',
        forall|q: int| 0 <= q < p ==> !is_exp_char(#[trigger] b[q]),
    ensures
        !is_number_text(b),
{
    let q = choose|q: int| 0 <= q < p && #[trigger] b[q] == '.';
    assert(!is_mantissa(b));
    assert forall|j: int|
        0 <= j < b.len() && is_exp_char(#[trigger] b[j]) implies !(is_mantissa(b.take(j))
        && is_exp_tail(b.skip(j + 1))) by {
        if j <= p {
            assert(!is_exp_char(b[j]));
        } else {
            assert(b.take(j)[q] == b[q]);
            assert(b.take(j)[p] == b[p]);
            assert(!is_mantissa(b.take(j)));
        }
    }
}

/// With an exponent marker at `p` and none earlier, only the split at `p`
/// can read `b` as mantissa and exponent; when that split's exponent is
/// not well formed, `b` is no decimal number.
proof fn lemma_number_unique_split(b: Seq<char>, p: int)
    requires
        0 <= p < b.len(),
        is_exp_char(b[p]),
        forall|q: int| 0 <= q < p ==> !is_exp_char(#[trigger] b[q]),
        !is_exp_tail(b.skip(p + 1)),
    ensures
        !is_number_text(b),
{
    assert(!is_mantissa(b)) by {
        assert(!is_digit(b[p]) && b[p] != '.');
    }
    assert forall|j: int|
        0 <= j < b.len() && is_exp_char(#[trigger] b[j]) implies !(is_mantissa(b.take(j))
        && is_exp_tail(b.skip(j + 1))) by {
        if j < p {
            assert(!is_exp_char(b[j]));
        } else if j > p {
            assert(b.take(j)[p] == b[p]);
            assert(!is_digit(b[p]) && b[p] != '.');
            assert(!is_mantissa(b.take(j)));
        }
    }
}

} // verus!
