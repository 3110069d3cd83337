//! Step numerals, file names and the frame label.
//!
//! Every per-step file name embeds the step as a five digit zero padded
//! decimal numeral, and the files stand in fixed project-relative
//! directories: step 7 reads from `../../../result/cells_00007` and
//! writes `../../../image/cells_00007.png`.  The label band shows the
//! same numeral.

use crate::num::{all_digits, dec_val, digit_val, is_digit};
use vstd::prelude::*;

verus! {

pub open spec fn digit_char(d: nat) -> char {
    if d == 0 {
        '0'
    } else if d == 1 {
        '1'
    } else if d == 2 {
        '2'
    } else if d == 3 {
        '3'
    } else if d == 4 {
        '4'
    } else if d == 5 {
        '5'
    } else if d == 6 {
        '6'
    } else if d == 7 {
        '7'
    } else if d == 8 {
        '8'
    } else {
        '9'
    }
}

/// The decimal digit characters of `n`, most significant first.
pub open spec fn dec_digits(n: nat) -> Seq<char>
    decreases n,
{
    if n < 10 {
        seq![digit_char(n)]
    } else {
        dec_digits(n / 10).push(digit_char(n % 10))
    }
}

/// `s` left padded with zeros to at least five characters.
pub open spec fn zero_pad5(s: Seq<char>) -> Seq<char> {
    if s.len() >= 5 {
        s
    } else {
        Seq::new((5 - s.len()) as nat, |i: int| '0') + s
    }
}

/// A step index as a five digit zero padded numeral (wider only past
/// 99999).
pub open spec fn step_digits(n: nat) -> Seq<char> {
    zero_pad5(dec_digits(n))
}

/// Reading the digit characters of `n` back as a numeral yields `n`: the
/// numeral loses nothing.
pub proof fn lemma_dec_digits_val(n: nat)
    ensures
        dec_val(dec_digits(n)) == n,
        all_digits(dec_digits(n)),
        dec_digits(n).len() >= 1,
    decreases n,
{
    if n < 10 {
        assert(dec_val(seq![digit_char(n)].drop_last()) == 0) by {
            assert(seq![digit_char(n)].drop_last() =~= Seq::<char>::empty());
        }
        assert(digit_val(digit_char(n)) == n);
    } else {
        lemma_dec_digits_val(n / 10);
        let pre = dec_digits(n / 10);
        let whole = pre.push(digit_char(n % 10));
        assert(whole.drop_last() =~= pre);
        assert(whole.last() == digit_char(n % 10));
        assert(digit_val(digit_char(n % 10)) == n % 10);
        assert(dec_val(whole) == dec_val(pre) * 10 + n % 10);
        assert(forall|i: int| 0 <= i < whole.len() ==> is_digit(#[trigger] whole[i])) by {
            assert(forall|i: int| 0 <= i < pre.len() ==> is_digit(#[trigger] pre[i]));
        }
    }
}

/// Zeros in front of a numeral do not change its value.
pub proof fn lemma_leading_zeros_val(z: Seq<char>, s: Seq<char>)
    requires
        forall|i: int| 0 <= i < z.len() ==> #[trigger] z[i] == '0',
    ensures
        dec_val(z + s) == dec_val(s),
    decreases s.len(), z.len(),
{
    if s.len() == 0 {
        assert(z + s =~= z);
        if z.len() == 0 {
            assert(dec_val(z) == 0);
        } else {
            assert(z.drop_last() + s =~= z.drop_last());
            lemma_leading_zeros_val(z.drop_last(), s);
            assert(dec_val(z) == dec_val(z.drop_last()) * 10 + digit_val(z.last()));
            assert(digit_val('0') == 0);
        }
    } else {
        assert((z + s).drop_last() =~= z + s.drop_last());
        assert((z + s).last() == s.last());
        lemma_leading_zeros_val(z, s.drop_last());
    }
}

/// Two steps with the same padded numeral are the same step: the padded
/// numeral still determines its step.
pub proof fn lemma_step_digits_injective(a: nat, b: nat)
    requires
        step_digits(a) == step_digits(b),
    ensures
        a == b,
{
    lemma_step_digits_val(a);
    lemma_step_digits_val(b);
}

/// The padded numeral reads back to its step.
pub proof fn lemma_step_digits_val(n: nat)
    ensures
        dec_val(step_digits(n)) == n,
        step_digits(n).len() >= 5,
{
    lemma_dec_digits_val(n);
    let d = dec_digits(n);
    if d.len() < 5 {
        let z = Seq::new((5 - d.len()) as nat, |i: int| '0');
        lemma_leading_zeros_val(z, d);
    }
}

fn digit_str(d: u32) -> (r: &'static str)
    requires
        d < 10,
    ensures
        r@ == seq![digit_char(d as nat)],
{
    let r: &'static str = if d == 0 {
        "0"
    } else if d == 1 {
        "1"
    } else if d == 2 {
        "2"
    } else if d == 3 {
        "3"
    } else if d == 4 {
        "4"
    } else if d == 5 {
        "5"
    } else if d == 6 {
        "6"
    } else if d == 7 {
        "7"
    } else if d == 8 {
        "8"
    } else {
        "9"
    };
    proof {
        reveal_strlit("0");
        reveal_strlit("1");
        reveal_strlit("2");
        reveal_strlit("3");
        reveal_strlit("4");
        reveal_strlit("5");
        reveal_strlit("6");
        reveal_strlit("7");
        reveal_strlit("8");
        reveal_strlit("9");
        assert(r@ =~= seq![digit_char(d as nat)]);
    }
    r
}

/// The decimal numeral of `n`.
pub fn dec_string(n: u32) -> (r: String)
    ensures
        r@ == dec_digits(n as nat),
    decreases n,
{
    if n < 10 {
        String::from_str(digit_str(n))
    } else {
        let mut r = dec_string(n / 10);
        r.append(digit_str(n % 10));
        proof {
            assert(r@ =~= dec_digits((n / 10) as nat).push(digit_char((n % 10) as nat)));
        }
        r
    }
}

/// The five digit zero padded numeral of a step, e.g. step 7 as `00007`.
pub fn step_numeral(n: u32) -> (r: String)
    ensures
        r@ == step_digits(n as nat),
{
    let digits = dec_string(n);
    let len = digits.as_str().unicode_len();
    if len >= 5 {
        return digits;
    }
    let mut r = String::from_str("");
    proof {
        reveal_strlit("");
        assert(r@ =~= Seq::new(0, |i: int| '0'));
    }
    let mut pad: usize = 0;
    let need = 5 - len;
    while pad < need
        invariant
            pad <= need,
            r@ == Seq::new(pad as nat, |i: int| '0'),
        decreases need - pad,
    {
        r.append("0");
        proof {
            reveal_strlit("0");
            assert(r@ =~= Seq::new((pad + 1) as nat, |i: int| '0'));
        }
        pad = pad + 1;
    }
    let r = r.concat(digits.as_str());
    proof {
        assert(r@ =~= step_digits(n as nat));
    }
    r
}

/// The name of the step's input file: `cells_` then the step's padded
/// numeral, with no extension.
pub fn data_file_name(step: u32) -> (r: String)
    ensures
        r@ == "cells_"@ + step_digits(step as nat),
{
    String::from_str("cells_").concat(step_numeral(step).as_str())
}

/// The name of the step's output image: the input file's name with a
/// `.png` extension.
pub fn image_file_name(step: u32) -> (r: String)
    ensures
        r@ == "cells_"@ + step_digits(step as nat) + ".png"@,
{
    let r = String::from_str("cells_").concat(step_numeral(step).as_str()).concat(".png");
    proof {
        assert(r@ =~= "cells_"@ + step_digits(step as nat) + ".png"@);
    }
    r
}

/// The project-relative path a step's input is read from: the fixed data
/// directory, then the input file's name.
pub fn data_file_path(step: u32) -> (r: String)
    ensures
        r@ == "../../../result/"@ + "cells_"@ + step_digits(step as nat),
{
    let r = String::from_str("../../../result/").concat(data_file_name(step).as_str());
    proof {
        assert(r@ =~= "../../../result/"@ + "cells_"@ + step_digits(step as nat));
    }
    r
}

/// The project-relative path a step's image is written to: the fixed
/// image directory, then the image file's name.
pub fn image_file_path(step: u32) -> (r: String)
    ensures
        r@ == "../../../image/"@ + "cells_"@ + step_digits(step as nat) + ".png"@,
{
    let r = String::from_str("../../../image/").concat(image_file_name(step).as_str());
    proof {
        assert(r@ =~= "../../../image/"@ + "cells_"@ + step_digits(step as nat) + ".png"@);
    }
    r
}

/// The text drawn in the label band, e.g. `step: 00007`.
pub fn step_label(step: u32) -> (r: String)
    ensures
        r@ == "step: "@ + step_digits(step as nat),
{
    String::from_str("step: ").concat(step_numeral(step).as_str())
}

/// Law: an image file name embeds its step, so two different steps never
/// write to the same image file.
pub proof fn lemma_image_name_injective(a: nat, b: nat)
    requires
        "cells_"@ + step_digits(a) + ".png"@ == "cells_"@ + step_digits(b) + ".png"@,
    ensures
        a == b,
{
    let na = "cells_"@ + step_digits(a) + ".png"@;
    let nb = "cells_"@ + step_digits(b) + ".png"@;
    lemma_step_digits_val(a);
    lemma_step_digits_val(b);
    let la = step_digits(a).len() as int;
    let p = "cells_"@.len() as int;
    assert(na.len() == p + la + ".png"@.len());
    assert(nb.len() == p + step_digits(b).len() + ".png"@.len());
    assert(la == step_digits(b).len());
    assert forall|i: int| 0 <= i < la implies step_digits(a)[i] == step_digits(b)[i] by {
        assert(na[p + i] == step_digits(a)[i]);
        assert(nb[p + i] == step_digits(b)[i]);
    }
    assert(step_digits(a) =~= step_digits(b));
    lemma_step_digits_injective(a, b);
}

} // verus!
