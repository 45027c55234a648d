//! Decimal text for the numbers that appear in destination paths and in the
//! configuration summary: plain decimals, and the zero-padded two- and
//! four-digit fields of a date stamp.

use vstd::prelude::*;
use vstd::string::StringExecFns;

verus! {

/// The one-character text of a decimal digit; values outside `0..=9` are
/// given the defensive value `"9"`.
pub open spec fn dig(d: int) -> Seq<char> {
    if d == 0 {
        "0"@
    } else if d == 1 {
        "1"@
    } else if d == 2 {
        "2"@
    } else if d == 3 {
        "3"@
    } else if d == 4 {
        "4"@
    } else if d == 5 {
        "5"@
    } else if d == 6 {
        "6"@
    } else if d == 7 {
        "7"@
    } else if d == 8 {
        "8"@
    } else {
        "9"@
    }
}

/// Decimal text of `n >= 0`, without padding.
pub open spec fn dec_digits(n: int) -> Seq<char>
    decreases n,
{
    if n < 10 {
        dig(n)
    } else {
        dec_digits(n / 10) + dig(n % 10)
    }
}

/// Decimal text of an integer, `-` before the digits of a negative one.
pub open spec fn dec_int(n: int) -> Seq<char> {
    if n < 0 {
        "-"@ + dec_digits(-n)
    } else {
        dec_digits(n)
    }
}

/// Two-digit zero-padded field, for `0 <= n <= 99`.
pub open spec fn two_digits(n: int) -> Seq<char> {
    dig(n / 10) + dig(n % 10)
}

/// Four-digit zero-padded field, for `0 <= n <= 9999`.
pub open spec fn four_digits(n: int) -> Seq<char> {
    dig(n / 1000) + dig(n / 100 % 10) + dig(n / 10 % 10) + dig(n % 10)
}

pub fn digit_str(d: u32) -> (r: &'static str)
    requires
        d < 10,
    ensures
        r@ == dig(d as int),
{
    match d {
        0 => "0",
        1 => "1",
        2 => "2",
        3 => "3",
        4 => "4",
        5 => "5",
        6 => "6",
        7 => "7",
        8 => "8",
        _ => "9",
    }
}

pub fn two_digit_string(n: u32) -> (r: String)
    requires
        n < 100,
    ensures
        r@ == two_digits(n as int),
{
    let mut r = String::new();
    r.append(digit_str(n / 10));
    r.append(digit_str(n % 10));
    proof {
        assert(r@ =~= two_digits(n as int));
    }
    r
}

pub fn four_digit_string(n: u32) -> (r: String)
    requires
        n < 10000,
    ensures
        r@ == four_digits(n as int),
{
    let mut r = String::new();
    r.append(digit_str(n / 1000));
    r.append(digit_str(n / 100 % 10));
    r.append(digit_str(n / 10 % 10));
    r.append(digit_str(n % 10));
    proof {
        assert(r@ =~= four_digits(n as int));
    }
    r
}

/// The digit texts of a digit sequence, last digit first.
spec fn rev_digit_chars(ds: Seq<u32>) -> Seq<char>
    decreases ds.len(),
{
    if ds.len() == 0 {
        Seq::empty()
    } else {
        rev_digit_chars(ds.drop_first()) + dig(ds.first() as int)
    }
}

proof fn lemma_rev_digit_chars_push(ds: Seq<u32>, x: u32)
    ensures
        rev_digit_chars(ds.push(x)) == dig(x as int) + rev_digit_chars(ds),
    decreases ds.len(),
{
    if ds.len() == 0 {
        assert(ds.push(x).first() == x);
        assert(ds.push(x).drop_first() =~= Seq::<u32>::empty());
        assert(rev_digit_chars(ds.push(x)) == rev_digit_chars(Seq::<u32>::empty()) + dig(
            x as int,
        ));
        assert(rev_digit_chars(Seq::<u32>::empty()) + dig(x as int) =~= dig(x as int)
            + rev_digit_chars(ds));
    } else {
        assert(ds.push(x).drop_first() =~= ds.drop_first().push(x));
        lemma_rev_digit_chars_push(ds.drop_first(), x);
        assert(rev_digit_chars(ds.push(x)) == (dig(x as int) + rev_digit_chars(ds.drop_first()))
            + dig(ds.first() as int));
        assert((dig(x as int) + rev_digit_chars(ds.drop_first())) + dig(ds.first() as int) =~= dig(
            x as int,
        ) + rev_digit_chars(ds));
    }
}

/// Decimal text of `n`, without padding.
pub fn u32_string(n: u32) -> (r: String)
    ensures
        r@ == dec_digits(n as int),
{
    let mut digits: Vec<u32> = Vec::new();
    digits.push(n % 10);
    proof {
        lemma_rev_digit_chars_push(Seq::empty(), n % 10);
        assert(rev_digit_chars(Seq::<u32>::empty()) =~= Seq::<char>::empty());
        assert(dig((n % 10) as int) + Seq::<char>::empty() =~= dig((n % 10) as int));
        if n >= 10 {
            assert(dec_digits(n as int) =~= dec_digits((n as int) / 10) + rev_digit_chars(
                digits@,
            ));
        }
    }
    let mut m: u32 = n / 10;
    while m > 0
        invariant
            m == 0 ==> dec_digits(n as int) == rev_digit_chars(digits@),
            m > 0 ==> dec_digits(n as int) == dec_digits(m as int) + rev_digit_chars(digits@),
            forall|k: int| 0 <= k < digits@.len() ==> digits@[k] < 10,
        decreases m,
    {
        let d: u32 = m % 10;
        proof {
            lemma_rev_digit_chars_push(digits@, d);
            if m >= 10 {
                assert((dec_digits((m as int) / 10) + dig(d as int)) + rev_digit_chars(digits@)
                    =~= dec_digits((m as int) / 10) + (dig(d as int) + rev_digit_chars(digits@)));
            } else {
                assert(dec_digits(m as int) + rev_digit_chars(digits@) =~= dig(d as int)
                    + rev_digit_chars(digits@));
            }
        }
        digits.push(d);
        m = m / 10;
    }
    let ghost all: Seq<u32> = digits@;
    let mut r = String::new();
    let mut j: usize = digits.len();
    proof {
        assert(all.skip(all.len() as int) =~= Seq::<u32>::empty());
    }
    while j > 0
        invariant
            j <= digits@.len(),
            digits@ == all,
            dec_digits(n as int) == rev_digit_chars(all),
            r@ == rev_digit_chars(all.skip(j as int)),
            forall|k: int| 0 <= k < all.len() ==> all[k] < 10,
        decreases j,
    {
        j = j - 1;
        let d: u32 = digits[j];
        proof {
            assert(all.skip(j as int).first() == d);
            assert(all.skip(j as int).drop_first() =~= all.skip(j as int + 1));
        }
        r.append(digit_str(d));
    }
    proof {
        assert(all.skip(0) =~= all);
    }
    r
}

/// Decimal text of a signed integer.
pub fn i32_string(n: i32) -> (r: String)
    ensures
        r@ == dec_int(n as int),
{
    if n >= 0 {
        u32_string(n as u32)
    } else {
        let mag: u32 = (-(n as i64)) as u32;
        proof {
            assert(0 <= -(n as int) < 0x1_0000_0000);
            assert(mag as int == -(n as int));
        }
        let mut r: String = "-".to_owned();
        let tail: String = u32_string(mag);
        r.append(tail.as_str());
        r
    }
}

} // verus!
