//! Decimal numbers as they appear on the wire.
//!
//! The protocol carries volumes, prices and rates as plain JSON decimals.
//! The library keeps such a number exactly as written: a sign, an unsigned
//! magnitude read off all the digits, and a scale giving how many of those
//! digits sit behind the decimal point. `Decimal { neg: false, mag: 1250,
//! scale: 2 }` is the wire text `12.50`. This loses nothing in either
//! direction, so encoding and decoding round-trip exactly.

use vstd::prelude::*;

verus! {

/// A signed decimal: the value is `mag / 10^scale`, negated when `neg`.
#[derive(Clone, Copy, Debug, PartialEq, Eq, Structural)]
pub struct Decimal {
    pub neg: bool,
    pub mag: u64,
    pub scale: u32,
}

/// ASCII decimal digit.
pub open spec fn is_digit_byte(b: u8) -> bool {
    0x30 <= b && b <= 0x39
}

/// The digit byte for a value below ten.
pub open spec fn digit_byte(d: nat) -> u8
    recommends
        d < 10,
{
    (0x30 + d) as u8
}

/// The value of a digit byte.
pub open spec fn digit_val(b: u8) -> nat
    recommends
        is_digit_byte(b),
{
    (b - 0x30) as nat
}

/// The shortest digit string of `n`, most significant digit first.
pub open spec fn spec_digits(n: nat) -> Seq<u8>
    decreases n,
{
    if n < 10 {
        seq![digit_byte(n)]
    } else {
        spec_digits(n / 10).push(digit_byte(n % 10))
    }
}

/// The number a digit string denotes.
pub open spec fn digits_val(s: Seq<u8>) -> nat
    decreases s.len(),
{
    if s.len() == 0 {
        0
    } else {
        digits_val(s.drop_last()) * 10 + digit_val(s.last())
    }
}

pub open spec fn all_digits(s: Seq<u8>) -> bool {
    forall|i: int| 0 <= i < s.len() ==> is_digit_byte(#[trigger] s[i])
}

/// `n` zero digits.
pub open spec fn zero_bytes(n: nat) -> Seq<u8> {
    Seq::new(n, |i: int| 0x30u8)
}

pub proof fn lemma_spec_digits_wf(n: nat)
    ensures
        spec_digits(n).len() >= 1,
        all_digits(spec_digits(n)),
    decreases n,
{
    if n >= 10 {
        lemma_spec_digits_wf(n / 10);
    }
}

/// Reading back the digit string of `n` gives `n`.
pub proof fn lemma_digits_val_of_spec_digits(n: nat)
    ensures
        digits_val(spec_digits(n)) == n,
    decreases n,
{
    assert(digits_val(Seq::<u8>::empty()) == 0);
    if n < 10 {
        assert(spec_digits(n).drop_last() =~= Seq::<u8>::empty());
        assert(digits_val(spec_digits(n)) == digit_val(digit_byte(n)));
    } else {
        lemma_digits_val_of_spec_digits(n / 10);
        assert(spec_digits(n).drop_last() =~= spec_digits(n / 10));
        assert(digits_val(spec_digits(n)) == digits_val(spec_digits(n / 10)) * 10 + digit_val(
            digit_byte(n % 10),
        ));
    }
}

proof fn lemma_digits_val_all_zero(z: nat)
    ensures
        digits_val(zero_bytes(z)) == 0,
    decreases z,
{
    if z > 0 {
        assert(zero_bytes(z).drop_last() =~= zero_bytes((z - 1) as nat));
        lemma_digits_val_all_zero((z - 1) as nat);
    }
}

/// Zeros in front of a digit string do not change its value.
pub proof fn lemma_digits_val_zero_prefix(z: nat, s: Seq<u8>)
    ensures
        digits_val(zero_bytes(z) + s) == digits_val(s),
    decreases s.len(),
{
    if s.len() == 0 {
        assert(zero_bytes(z) + s =~= zero_bytes(z));
        lemma_digits_val_all_zero(z);
    } else {
        assert((zero_bytes(z) + s).drop_last() =~= zero_bytes(z) + s.drop_last());
        lemma_digits_val_zero_prefix(z, s.drop_last());
    }
}

/// Appending digits never makes the value smaller.
pub proof fn lemma_digits_val_prefix_le(s: Seq<u8>, t: Seq<u8>)
    ensures
        digits_val(s) <= digits_val(s + t),
    decreases t.len(),
{
    if t.len() == 0 {
        assert(s + t =~= s);
    } else {
        assert((s + t).drop_last() =~= s + t.drop_last());
        lemma_digits_val_prefix_le(s, t.drop_last());
        assert(digits_val(s + t) == digits_val(s + t.drop_last()) * 10 + digit_val((s
            + t).last()));
    }
}

/// The digit string of `mag`, padded with leading zeros so that at least
/// `scale + 1` digits stand there: enough for one digit in front of the point.
pub open spec fn spec_padded_digits(mag: nat, scale: nat) -> Seq<u8> {
    let ds = spec_digits(mag);
    if ds.len() >= scale + 1 {
        ds
    } else {
        zero_bytes((scale + 1 - ds.len()) as nat) + ds
    }
}

/// The wire text of a decimal: sign, integer digits, and a fractional part
/// exactly when the scale is positive.
pub open spec fn spec_print_decimal(d: Decimal) -> Seq<u8> {
    let sign: Seq<u8> = if d.neg {
        seq![0x2du8]
    } else {
        Seq::empty()
    };
    let pad = spec_padded_digits(d.mag as nat, d.scale as nat);
    if d.scale == 0 {
        sign + pad
    } else {
        sign + pad.take(pad.len() - d.scale) + seq![0x2eu8] + pad.skip(pad.len() - d.scale)
    }
}

pub proof fn lemma_padded_digits_wf(mag: nat, scale: nat)
    ensures
        spec_padded_digits(mag, scale).len() >= scale + 1,
        all_digits(spec_padded_digits(mag, scale)),
        digits_val(spec_padded_digits(mag, scale)) == mag,
{
    lemma_spec_digits_wf(mag);
    lemma_digits_val_of_spec_digits(mag);
    let ds = spec_digits(mag);
    if ds.len() < scale + 1 {
        lemma_digits_val_zero_prefix((scale + 1 - ds.len()) as nat, ds);
    }
}

/// Appends the digit string of `n`.
pub fn push_digits(out: &mut Vec<u8>, n: u64)
    ensures
        final(out)@ == old(out)@ + spec_digits(n as nat),
    decreases n,
{
    if n < 10 {
        out.push(0x30 + n as u8);
        assert(out@ =~= old(out)@ + spec_digits(n as nat));
    } else {
        push_digits(out, n / 10);
        out.push(0x30 + (n % 10) as u8);
        assert(out@ =~= old(out)@ + spec_digits(n as nat));
    }
}

/// Appends the wire text of `d`.
pub fn push_decimal(out: &mut Vec<u8>, d: &Decimal)
    ensures
        final(out)@ == old(out)@ + spec_print_decimal(*d),
{
    if d.neg {
        out.push(0x2d);
    }
    let mut pad: Vec<u8> = Vec::new();
    let ghost ds = spec_digits(d.mag as nat);
    proof {
        lemma_spec_digits_wf(d.mag as nat);
    }
    // The shortest digit string of a u64 has at most 20 digits, so the
    // padding below stays within usize.
    proof {
        lemma_spec_digits_len_le(d.mag as nat);
    }
    if (ds_len_exec(d.mag) as u64) < d.scale as u64 + 1 {
        let need: u64 = d.scale as u64 + 1 - ds_len_exec(d.mag) as u64;
        let mut i: u64 = 0;
        while i < need
            invariant
                i <= need,
                pad@ =~= zero_bytes(i as nat),
            decreases need - i,
        {
            pad.push(0x30);
            assert(pad@ =~= zero_bytes((i + 1) as nat));
            i = i + 1;
        }
    }
    push_digits(&mut pad, d.mag);
    assert(pad@ =~= spec_padded_digits(d.mag as nat, d.scale as nat));
    proof {
        lemma_padded_digits_wf(d.mag as nat, d.scale as nat);
    }
    if d.scale == 0 {
        let mut j: usize = 0;
        while j < pad.len()
            invariant
                j <= pad@.len(),
                out@ =~= old(out)@ + spec_print_decimal(*d).take(
                    spec_print_decimal(*d).len() - pad@.len() + j,
                ),
                pad@ =~= spec_padded_digits(d.mag as nat, d.scale as nat),
                d.scale == 0,
            decreases pad@.len() - j,
        {
            out.push(pad[j]);
            assert(out@ =~= old(out)@ + spec_print_decimal(*d).take(
                spec_print_decimal(*d).len() - pad@.len() + j + 1,
            ));
            j = j + 1;
        }
        assert(out@ =~= old(out)@ + spec_print_decimal(*d));
    } else {
        let cut: usize = pad.len() - d.scale as usize;
        let mut j: usize = 0;
        while j < pad.len()
            invariant
                j <= pad@.len(),
                cut == pad@.len() - d.scale as nat,
                d.scale > 0,
                pad@ =~= spec_padded_digits(d.mag as nat, d.scale as nat),
                out@ =~= old(out)@ + spec_print_decimal(*d).take(
                    if j <= cut {
                        spec_print_decimal(*d).len() - pad@.len() - 1 + j
                    } else {
                        spec_print_decimal(*d).len() - pad@.len() + j
                    },
                ),
            decreases pad@.len() - j,
        {
            if j == cut {
                out.push(0x2e);
                assert(out@ =~= old(out)@ + spec_print_decimal(*d).take(
                    spec_print_decimal(*d).len() - pad@.len() + j,
                ));
            }
            out.push(pad[j]);
            assert(out@ =~= old(out)@ + spec_print_decimal(*d).take(
                if j + 1 <= cut {
                    spec_print_decimal(*d).len() - pad@.len() - 1 + j + 1
                } else {
                    spec_print_decimal(*d).len() - pad@.len() + j + 1
                },
            ));
            j = j + 1;
        }
        assert(out@ =~= old(out)@ + spec_print_decimal(*d));
    }
}

/// Number of digits in the shortest digit string of a `u64`: at most 20.
pub proof fn lemma_spec_digits_len_le(n: nat)
    ensures
        n <= u64::MAX ==> spec_digits(n).len() <= 20,
{
    if n <= u64::MAX {
        assert(pow10(20) == 0x5_6bc7_5e2d_6310_0000) by {
            reveal_with_fuel(pow10, 21);
        }
        lemma_spec_digits_len_bound(n, 20);
    }
}

proof fn lemma_spec_digits_len_bound(n: nat, k: nat)
    requires
        k >= 1,
        n < pow10(k),
    ensures
        spec_digits(n).len() <= k,
    decreases n,
{
    if n >= 10 {
        if k == 1 {
            assert(pow10(1) == 10) by {
                reveal_with_fuel(pow10, 2);
            }
            assert(false);
        }
        assert(pow10(k) == 10 * pow10((k - 1) as nat));
        assert(n / 10 < pow10((k - 1) as nat)) by (nonlinear_arith)
            requires
                n < 10 * pow10((k - 1) as nat),
        ;
        lemma_spec_digits_len_bound(n / 10, (k - 1) as nat);
    }
}

pub open spec fn pow10(k: nat) -> nat
    decreases k,
{
    if k == 0 {
        1
    } else {
        10 * pow10((k - 1) as nat)
    }
}

/// Exec count of the digits of `n`, matching `spec_digits(n).len()`.
fn ds_len_exec(n: u64) -> (r: usize)
    ensures
        r == spec_digits(n as nat).len(),
        1 <= r <= 20,
    decreases n,
{
    proof {
        lemma_spec_digits_len_le(n as nat);
        lemma_spec_digits_wf(n as nat);
    }
    if n < 10 {
        1
    } else {
        let rest = ds_len_exec(n / 10);
        rest + 1
    }
}

/// Appends the digit string of `n`, padded with leading zeros to at least
/// `width` digits.
pub fn push_padded_digits(out: &mut Vec<u8>, n: u64, width: u32)
    requires
        width >= 1,
    ensures
        final(out)@ == old(out)@ + spec_padded_digits(n as nat, (width - 1) as nat),
{
    proof {
        lemma_spec_digits_len_le(n as nat);
        lemma_spec_digits_wf(n as nat);
    }
    if (ds_len_exec(n) as u64) < width as u64 {
        let need: u64 = width as u64 - ds_len_exec(n) as u64;
        let mut i: u64 = 0;
        while i < need
            invariant
                i <= need,
                out@ =~= old(out)@ + zero_bytes(i as nat),
            decreases need - i,
        {
            out.push(0x30);
            assert(out@ =~= old(out)@ + zero_bytes((i + 1) as nat));
            i = i + 1;
        }
    }
    push_digits(out, n);
    assert(out@ =~= old(out)@ + spec_padded_digits(n as nat, (width - 1) as nat));
}

/// The integer a decimal denotes, when it is an integer at all.
pub open spec fn spec_dec_int(d: Decimal) -> int {
    if d.neg {
        -(d.mag as int)
    } else {
        d.mag as int
    }
}

/// The decimal standing for an integer.
pub open spec fn spec_dec_of_int(v: int) -> Decimal
    recommends
        -(u64::MAX as int) <= v <= u64::MAX as int,
{
    Decimal { neg: v < 0, mag: (if v < 0 { -v } else { v }) as u64, scale: 0 }
}

/// Reading an unscaled decimal back as a signed integer.
pub open spec fn spec_dec_to_i64(d: Decimal) -> Option<i64> {
    if d.scale == 0 && i64::MIN <= spec_dec_int(d) <= i64::MAX {
        Some(spec_dec_int(d) as i64)
    } else {
        None
    }
}

/// Reading an unscaled, unsigned decimal back as a `u64`.
pub open spec fn spec_dec_to_u64(d: Decimal) -> Option<u64> {
    if d.scale == 0 && !d.neg {
        Some(d.mag)
    } else {
        None
    }
}

pub open spec fn spec_dec_to_u32(d: Decimal) -> Option<u32> {
    match spec_dec_to_u64(d) {
        Some(v) => if v <= u32::MAX {
            Some(v as u32)
        } else {
            None
        },
        None => None,
    }
}

pub open spec fn spec_dec_to_u16(d: Decimal) -> Option<u16> {
    match spec_dec_to_u64(d) {
        Some(v) => if v <= u16::MAX {
            Some(v as u16)
        } else {
            None
        },
        None => None,
    }
}

pub open spec fn spec_dec_to_i32(d: Decimal) -> Option<i32> {
    match spec_dec_to_i64(d) {
        Some(v) => if i32::MIN <= v <= i32::MAX {
            Some(v as i32)
        } else {
            None
        },
        None => None,
    }
}

impl Decimal {
    /// The decimal carrying exactly the signed integer `v`.
    pub fn from_i64(v: i64) -> (d: Decimal)
        ensures
            d == spec_dec_of_int(v as int),
    {
        if v < 0 {
            if v == i64::MIN {
                Decimal { neg: true, mag: 0x8000_0000_0000_0000u64, scale: 0 }
            } else {
                Decimal { neg: true, mag: (-v) as u64, scale: 0 }
            }
        } else {
            Decimal { neg: false, mag: v as u64, scale: 0 }
        }
    }

    /// The decimal carrying exactly the unsigned integer `v`.
    pub fn from_u64(v: u64) -> (d: Decimal)
        ensures
            d == spec_dec_of_int(v as int),
    {
        Decimal { neg: false, mag: v, scale: 0 }
    }

    pub fn to_i64(&self) -> (r: Option<i64>)
        ensures
            r == spec_dec_to_i64(*self),
    {
        if self.scale != 0 {
            return None;
        }
        if self.neg {
            if self.mag <= 0x7fff_ffff_ffff_ffffu64 {
                Some(-(self.mag as i64))
            } else if self.mag == 0x8000_0000_0000_0000u64 {
                Some(i64::MIN)
            } else {
                None
            }
        } else {
            if self.mag <= 0x7fff_ffff_ffff_ffffu64 {
                Some(self.mag as i64)
            } else {
                None
            }
        }
    }

    pub fn to_u64(&self) -> (r: Option<u64>)
        ensures
            r == spec_dec_to_u64(*self),
    {
        if self.scale == 0 && !self.neg {
            Some(self.mag)
        } else {
            None
        }
    }

    pub fn to_u32(&self) -> (r: Option<u32>)
        ensures
            r == spec_dec_to_u32(*self),
    {
        match self.to_u64() {
            Some(v) => if v <= 0xffff_ffffu64 {
                Some(v as u32)
            } else {
                None
            },
            None => None,
        }
    }

    pub fn to_u16(&self) -> (r: Option<u16>)
        ensures
            r == spec_dec_to_u16(*self),
    {
        match self.to_u64() {
            Some(v) => if v <= 0xffffu64 {
                Some(v as u16)
            } else {
                None
            },
            None => None,
        }
    }

    pub fn to_i32(&self) -> (r: Option<i32>)
        ensures
            r == spec_dec_to_i32(*self),
    {
        match self.to_i64() {
            Some(v) => if -0x8000_0000i64 <= v && v <= 0x7fff_ffffi64 {
                Some(v as i32)
            } else {
                None
            },
            None => None,
        }
    }
}

} // verus!
