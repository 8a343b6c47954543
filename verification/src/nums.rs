//! Verified numeric helpers: parsing decimal integers the way the standard
//! parser does (optional sign, digits only, rejection on overflow), and
//! rendering numbers as decimal and fixed-width hexadecimal text.

use vstd::prelude::*;

verus! {

/// `c` is a decimal digit.
pub open spec fn is_dec_digit(c: char) -> bool {
    48 <= c as int && c as int <= 57
}

/// Numeric value of a decimal digit character.
pub open spec fn digit_val(c: char) -> int {
    c as int - 48
}

/// Every character of `s` is a decimal digit.
pub open spec fn all_dec_digits(s: Seq<char>) -> bool {
    forall|i: int| 0 <= i < s.len() ==> is_dec_digit(#[trigger] s[i])
}

/// Value of a digit string, most significant digit first.
pub open spec fn digits_val(s: Seq<char>) -> int
    decreases s.len(),
{
    if s.len() == 0 {
        0
    } else {
        digits_val(s.drop_last()) * 10 + digit_val(s.last())
    }
}

pub proof fn lemma_digits_val_nonneg(s: Seq<char>)
    requires
        all_dec_digits(s),
    ensures
        digits_val(s) >= 0,
    decreases s.len(),
{
    if s.len() > 0 {
        assert(all_dec_digits(s.drop_last()));
        lemma_digits_val_nonneg(s.drop_last());
    }
}

/// What `str::parse::<i32>` accepts: an optional sign, then one or more
/// decimal digits, value within the 32-bit signed range.
pub open spec fn parse_i32_spec(s: Seq<char>) -> Option<i32> {
    let signed = s.len() > 0 && (s[0] == '+' || s[0] == '-');
    let neg = s.len() > 0 && s[0] == '-';
    let ds = if signed {
        s.skip(1)
    } else {
        s
    };
    if ds.len() > 0 && all_dec_digits(ds) {
        let v = if neg {
            -digits_val(ds)
        } else {
            digits_val(ds)
        };
        if -0x8000_0000 <= v && v <= 0x7fff_ffff {
            Some(v as i32)
        } else {
            None
        }
    } else {
        None
    }
}

/// What `str::parse::<u32>` accepts: an optional plus sign, then one or more
/// decimal digits, value within the 32-bit unsigned range.
pub open spec fn parse_u32_spec(s: Seq<char>) -> Option<u32> {
    let ds = if s.len() > 0 && s[0] == '+' {
        s.skip(1)
    } else {
        s
    };
    if ds.len() > 0 && all_dec_digits(ds) && digits_val(ds) <= 0xffff_ffff {
        Some(digits_val(ds) as u32)
    } else {
        None
    }
}

/// Accumulates the value of the digit run `s@.skip(start)`, saturating once
/// the value can no longer be a 32-bit quantity. Returns `None` if some
/// character of the run is not a decimal digit, or if the run is empty.
fn digits_accum(s: &str, start: usize) -> (r: Option<u64>)
    requires
        start <= s@.len() <= usize::MAX,
    ensures
        match r {
            Some(acc) => {
                &&& s@.skip(start as int).len() > 0
                &&& all_dec_digits(s@.skip(start as int))
                &&& digits_val(s@.skip(start as int)) <= 0xffff_ffff
                    ==> acc == digits_val(s@.skip(start as int))
                &&& digits_val(s@.skip(start as int)) > 0xffff_ffff ==> acc > 0xffff_ffff
            },
            None => s@.skip(start as int).len() == 0 || !all_dec_digits(s@.skip(start as int)),
        },
{
    let len = s.unicode_len();
    if start == len {
        proof {
            assert(s@.skip(start as int).len() == 0);
        }
        return None;
    }
    let ghost ds = s@.skip(start as int);
    let mut acc: u64 = 0;
    let mut i: usize = start;
    while i < len
        invariant
            start <= i <= len,
            len == s@.len(),
            ds == s@.skip(start as int),
            ds.len() == len - start,
            forall|j: int| 0 <= j < ds.len() ==> ds[j] == s@[start + j],
            all_dec_digits(ds.take(i - start)),
            acc <= 0xffff_ffff * 10 + 9,
            digits_val(ds.take(i - start)) <= 0xffff_ffff ==> acc == digits_val(ds.take(i - start)),
            digits_val(ds.take(i - start)) > 0xffff_ffff ==> acc > 0xffff_ffff,
        decreases len - i,
    {
        let c = s.get_char(i);
        let cv = c as u32;
        if cv < 48 || cv > 57 {
            proof {
                assert(ds[i - start] == c);
                assert(!is_dec_digit(ds[i - start]));
            }
            return None;
        }
        let d: u64 = (cv - 48) as u64;
        proof {
            let k = i - start;
            assert(ds.take(k + 1).drop_last() =~= ds.take(k));
            assert(ds.take(k + 1).last() == ds[k]);
            assert(ds[k] == c);
            assert(digits_val(ds.take(k + 1)) == digits_val(ds.take(k)) * 10 + digit_val(c));
            lemma_digits_val_nonneg(ds.take(k));
        }
        if acc <= 0xffff_ffff {
            acc = acc * 10 + d;
        }
        i += 1;
    }
    proof {
        assert(ds.take(len - start) =~= ds);
        lemma_digits_val_nonneg(ds);
    }
    Some(acc)
}

/// Parse a 32-bit signed integer exactly as the standard parser does.
pub fn parse_i32(s: &str) -> (r: Option<i32>)
    ensures
        r == parse_i32_spec(s@),
{
    let len = s.unicode_len();
    if len == 0 {
        return None;
    }
    let c0 = s.get_char(0);
    let neg = c0 == '-';
    let start: usize = if c0 == '-' || c0 == '+' {
        1
    } else {
        0
    };
    match digits_accum(s, start) {
        None => None,
        Some(acc) => {
            proof {
                if start == 0 {
                    assert(s@.skip(0) =~= s@);
                }
            }
            if neg {
                if acc <= 0x8000_0000 {
                    Some((-(acc as i64)) as i32)
                } else {
                    None
                }
            } else {
                if acc <= 0x7fff_ffff {
                    Some(acc as i32)
                } else {
                    None
                }
            }
        },
    }
}

/// Parse a 32-bit unsigned integer exactly as the standard parser does
/// (a leading minus sign is rejected).
pub fn parse_u32(s: &str) -> (r: Option<u32>)
    ensures
        r == parse_u32_spec(s@),
{
    let len = s.unicode_len();
    if len == 0 {
        return None;
    }
    let c0 = s.get_char(0);
    if c0 == '-' {
        proof {
            if s@.len() > 0 && s@[0] == '+' {
            } else {
                assert(s@[0] == '-');
                assert(!is_dec_digit(s@[0]));
            }
        }
        return None;
    }
    let start: usize = if c0 == '+' {
        1
    } else {
        0
    };
    match digits_accum(s, start) {
        None => None,
        Some(acc) => {
            proof {
                if start == 0 {
                    assert(s@.skip(0) =~= s@);
                }
            }
            if acc <= 0xffff_ffff {
                Some(acc as u32)
            } else {
                None
            }
        },
    }
}

/// The decimal digit character for `d`.
pub open spec fn digit_char(d: int) -> char {
    if d == 0 {
        '0'
    } else if d == 1 {
        '1'
    } else if d == 2 {
        '2'
    } else if d == 3 {
        '3'
    } else if d == 4 {
        '4'
    } else if d == 5 {
        '5'
    } else if d == 6 {
        '6'
    } else if d == 7 {
        '7'
    } else if d == 8 {
        '8'
    } else {
        '9'
    }
}

/// The lower-case hexadecimal digit character for `d`.
pub open spec fn hex_char(d: int) -> char {
    if d < 10 {
        digit_char(d)
    } else if d == 10 {
        'a'
    } else if d == 11 {
        'b'
    } else if d == 12 {
        'c'
    } else if d == 13 {
        'd'
    } else if d == 14 {
        'e'
    } else {
        'f'
    }
}

/// Decimal rendering of a non-negative number, most significant digit first.
pub open spec fn dec_spec(n: int) -> Seq<char>
    recommends
        n >= 0,
    decreases n,
{
    if n < 10 {
        seq![digit_char(n)]
    } else {
        dec_spec(n / 10).push(digit_char(n % 10))
    }
}

/// Decimal rendering of a signed number.
pub open spec fn i32_dec_spec(n: int) -> Seq<char> {
    if n < 0 {
        seq!['-'] + dec_spec(-n)
    } else {
        dec_spec(n)
    }
}

/// One character of "0123456789abcdef".
fn hex_digit_str(d: u32) -> (r: &'static str)
    requires
        d < 16,
    ensures
        r@ == seq![hex_char(d as int)],
{
    let s = "0123456789abcdef";
    proof {
        reveal_strlit("0123456789abcdef");
    }
    let r = s.substring_char(d as usize, d as usize + 1);
    proof {
        assert(r@ =~= seq![hex_char(d as int)]);
    }
    r
}

/// Render `n` in decimal.
pub fn u32_to_dec(n: u32) -> (r: String)
    ensures
        r@ == dec_spec(n as int),
    decreases n,
{
    if n < 10 {
        let d = hex_digit_str(n);
        String::from_str(d)
    } else {
        proof {
            assert(n / 10 < n) by (nonlinear_arith)
                requires
                    n >= 10,
            ;
        }
        let mut r = u32_to_dec(n / 10);
        r.append(hex_digit_str(n % 10));
        r
    }
}

/// Render `n` in decimal, with a minus sign when it is negative.
pub fn i32_to_dec(n: i32) -> (r: String)
    ensures
        r@ == i32_dec_spec(n as int),
{
    if n >= 0 {
        u32_to_dec(n as u32)
    } else {
        let mag: u32 = (-(n as i64)) as u32;
        let mut r = String::from_str("-");
        let digits = u32_to_dec(mag);
        r.append(digits.as_str());
        proof {
            reveal_strlit("-");
            assert(r@ =~= seq!['-'] + dec_spec(mag as int));
        }
        r
    }
}

/// The nibble of `n` rendered at position `i` of its 8-digit form.
pub open spec fn nibble(n: u32, i: int) -> int {
    ((n >> (((7 - i) * 4) as u32)) & 0xf) as int
}

/// Fixed-width, zero-padded, lower-case hexadecimal rendering of `n`,
/// as the `{:08x}` format writes it.
pub open spec fn hex8_spec(n: u32) -> Seq<char> {
    Seq::new(8, |i: int| hex_char(nibble(n, i)))
}

/// Render `n` as exactly eight lower-case hexadecimal digits.
pub fn u32_to_hex8(n: u32) -> (r: String)
    ensures
        r@ == hex8_spec(n),
{
    let mut r = String::new();
    let mut i: usize = 0;
    while i < 8
        invariant
            i <= 8,
            r@ == hex8_spec(n).take(i as int),
        decreases 8 - i,
    {
        let shift: u32 = (7 - i as u32) * 4;
        let d: u32 = (n >> shift) & 0xf;
        proof {
            assert((n >> shift) & 0xf < 16) by (bit_vector);
            assert(d == nibble(n, i as int));
        }
        r.append(hex_digit_str(d));
        proof {
            assert(hex8_spec(n).take(i + 1) =~= hex8_spec(n).take(i as int) + seq![
                hex_char(nibble(n, i as int)),
            ]);
        }
        i += 1;
    }
    proof {
        assert(hex8_spec(n).take(8) =~= hex8_spec(n));
    }
    r
}

/// Two numbers with the same eight-digit hexadecimal rendering are equal.
pub proof fn lemma_hex8_injective(a: u32, b: u32)
    requires
        hex8_spec(a) == hex8_spec(b),
    ensures
        a == b,
{
    assert forall|i: int| 0 <= i < 8 implies nibble(a, i) == nibble(b, i) by {
        assert(hex8_spec(a)[i] == hex8_spec(b)[i]);
        assert(hex8_spec(a)[i] == hex_char(nibble(a, i)));
        assert(hex8_spec(b)[i] == hex_char(nibble(b, i)));
        assert(0 <= nibble(a, i) < 16) by {
            let sh = ((7 - i) * 4) as u32;
            assert((a >> sh) & 0xf < 16) by (bit_vector);
        }
        assert(0 <= nibble(b, i) < 16) by {
            let sh = ((7 - i) * 4) as u32;
            assert((b >> sh) & 0xf < 16) by (bit_vector);
        }
    }
    assert(nibble(a, 0) == nibble(b, 0));
    assert(nibble(a, 1) == nibble(b, 1));
    assert(nibble(a, 2) == nibble(b, 2));
    assert(nibble(a, 3) == nibble(b, 3));
    assert(nibble(a, 4) == nibble(b, 4));
    assert(nibble(a, 5) == nibble(b, 5));
    assert(nibble(a, 6) == nibble(b, 6));
    assert(nibble(a, 7) == nibble(b, 7));
    assert(a == b) by (bit_vector)
        requires
            (a >> 28u32) & 0xf == (b >> 28u32) & 0xf,
            (a >> 24u32) & 0xf == (b >> 24u32) & 0xf,
            (a >> 20u32) & 0xf == (b >> 20u32) & 0xf,
            (a >> 16u32) & 0xf == (b >> 16u32) & 0xf,
            (a >> 12u32) & 0xf == (b >> 12u32) & 0xf,
            (a >> 8u32) & 0xf == (b >> 8u32) & 0xf,
            (a >> 4u32) & 0xf == (b >> 4u32) & 0xf,
            (a >> 0u32) & 0xf == (b >> 0u32) & 0xf,
    ;
}

} // verus!
