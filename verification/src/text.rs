//! Decimal text for integers, and the padding and repetition helpers that
//! the rendering functions are specified with.

use vstd::prelude::*;
use vstd::string::StringExecFns;
use vstd::string::StrSliceExecFns;

verus! {

/// The one-character text of a decimal digit.
pub open spec fn digit_text(d: int) -> Seq<char> {
    if d == 0 {
        "0"@
    } else if d == 1 {
        "1"@
    } else if d == 2 {
        "2"@
    } else if d == 3 {
        "3"@
    } else if d == 4 {
        "4"@
    } else if d == 5 {
        "5"@
    } else if d == 6 {
        "6"@
    } else if d == 7 {
        "7"@
    } else if d == 8 {
        "8"@
    } else {
        "9"@
    }
}

/// The decimal text of a natural number: most significant digit first,
/// no leading zeros (except for the number zero itself).
pub open spec fn dec_digits(n: nat) -> Seq<char>
    decreases n,
{
    if n < 10 {
        digit_text(n as int)
    } else {
        dec_digits(n / 10) + digit_text((n % 10) as int)
    }
}

/// The decimal text of an integer: a minus sign before the digits of the
/// magnitude when negative.
pub open spec fn dec_int(x: int) -> Seq<char> {
    if x < 0 {
        "-"@ + dec_digits((-x) as nat)
    } else {
        dec_digits(x as nat)
    }
}

/// `unit` written `n` times in a row.
pub open spec fn repeat_text(unit: Seq<char>, n: nat) -> Seq<char>
    decreases n,
{
    if n == 0 {
        Seq::empty()
    } else {
        repeat_text(unit, (n - 1) as nat) + unit
    }
}

/// `n` spaces.
pub open spec fn spaces(n: nat) -> Seq<char> {
    repeat_text(" "@, n)
}

/// `t` right-aligned in a field of width `w`: spaces, then `t`.
/// Text that is already at least `w` long is left unchanged.
pub open spec fn pad_left(t: Seq<char>, w: nat) -> Seq<char> {
    if t.len() >= w {
        t
    } else {
        spaces((w - t.len()) as nat) + t
    }
}

/// Splitting a repetition: `m + n` copies are `m` copies then `n` copies.
pub proof fn lemma_repeat_text_add(unit: Seq<char>, m: nat, n: nat)
    ensures
        repeat_text(unit, m + n) == repeat_text(unit, m) + repeat_text(unit, n),
    decreases n,
{
    if n == 0 {
        assert(repeat_text(unit, m + n) =~= repeat_text(unit, m) + repeat_text(unit, n));
    } else {
        lemma_repeat_text_add(unit, m, (n - 1) as nat);
        assert(repeat_text(unit, m + n) =~= repeat_text(unit, m) + repeat_text(unit, n));
    }
}

/// Appends the text of one decimal digit to `s`.
fn append_digit(s: &mut String, d: u64)
    requires
        d < 10,
    ensures
        final(s)@ == old(s)@ + digit_text(d as int),
{
    if d == 0 {
        s.append("0");
    } else if d == 1 {
        s.append("1");
    } else if d == 2 {
        s.append("2");
    } else if d == 3 {
        s.append("3");
    } else if d == 4 {
        s.append("4");
    } else if d == 5 {
        s.append("5");
    } else if d == 6 {
        s.append("6");
    } else if d == 7 {
        s.append("7");
    } else if d == 8 {
        s.append("8");
    } else {
        s.append("9");
    }
}

/// The decimal text of a `u64`.
pub fn u64_text(n: u64) -> (r: String)
    ensures
        r@ == dec_digits(n as nat),
    decreases n,
{
    if n < 10 {
        let mut s = String::new();
        append_digit(&mut s, n);
        proof {
            assert(s@ =~= dec_digits(n as nat));
        }
        s
    } else {
        let mut s = u64_text(n / 10);
        append_digit(&mut s, n % 10);
        proof {
            assert(s@ =~= dec_digits(n as nat));
        }
        s
    }
}

/// The decimal text of a `usize`.
pub fn usize_text(n: usize) -> (r: String)
    ensures
        r@ == dec_digits(n as nat),
    decreases n,
{
    if n < 10 {
        let mut s = String::new();
        append_digit(&mut s, n as u64);
        proof {
            assert(s@ =~= dec_digits(n as nat));
        }
        s
    } else {
        let mut s = usize_text(n / 10);
        append_digit(&mut s, (n % 10) as u64);
        proof {
            assert(s@ =~= dec_digits(n as nat));
        }
        s
    }
}

/// The decimal text of an `i64`, minus sign included.
pub fn i64_text(x: i64) -> (r: String)
    ensures
        r@ == dec_int(x as int),
{
    if x >= 0 {
        let r = u64_text(x as u64);
        proof {
            assert(r@ =~= dec_int(x as int));
        }
        r
    } else {
        let magnitude: u64 = if x == i64::MIN {
            9223372036854775808u64
        } else {
            (-x) as u64
        };
        assert(magnitude as int == -(x as int));
        let digits = u64_text(magnitude);
        let mut s = String::new();
        s.append("-");
        s.append(digits.as_str());
        proof {
            assert(s@ =~= dec_int(x as int));
        }
        s
    }
}

/// Appends `t` right-aligned in a field of width `w`.
pub fn append_padded(s: &mut String, t: &String, w: usize)
    requires
        t@.len() <= w,
    ensures
        final(s)@ == old(s)@ + pad_left(t@, w as nat),
{
    let len = t.as_str().unicode_len();
    let pad = w - len;
    let mut k: usize = 0;
    while k < pad
        invariant
            k <= pad,
            pad == w - t@.len(),
            s@ == old(s)@ + spaces(k as nat),
        decreases pad - k,
    {
        s.append(" ");
        proof {
            assert(s@ =~= old(s)@ + spaces((k + 1) as nat));
        }
        k = k + 1;
    }
    s.append(t.as_str());
    proof {
        assert(s@ =~= old(s)@ + pad_left(t@, w as nat));
    }
}

/// Appends `unit` to `s`, `n` times.
pub fn append_repeated(s: &mut String, unit: &str, n: usize)
    ensures
        final(s)@ == old(s)@ + repeat_text(unit@, n as nat),
{
    let mut k: usize = 0;
    while k < n
        invariant
            k <= n,
            s@ == old(s)@ + repeat_text(unit@, k as nat),
        decreases n - k,
    {
        s.append(unit);
        proof {
            assert(s@ =~= old(s)@ + repeat_text(unit@, (k + 1) as nat));
        }
        k = k + 1;
    }
}

} // verus!
