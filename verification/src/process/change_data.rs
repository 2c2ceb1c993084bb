//! Conversion of bytes to a printable list form: the bytes themselves, a
//! decimal list such as `[71, 69, 84]`, or a hexadecimal list such as
//! `[0x47, 0x45, 0x54]`.

use vstd::prelude::*;
use vstd::slice::slice_to_vec;

use crate::process::out_arg::OutType;

verus! {

/// The decimal digits of one byte, without leading zeroes.
pub open spec fn spec_dec_bytes(b: u8) -> Seq<u8> {
    if b < 10 {
        seq![(48 + b) as u8]
    } else if b < 100 {
        seq![(48 + b / 10) as u8, (48 + b % 10) as u8]
    } else {
        seq![(48 + b / 100) as u8, (48 + (b / 10) % 10) as u8, (48 + b % 10) as u8]
    }
}

/// The ASCII digit for a value below sixteen, upper case.
pub open spec fn spec_hex_digit(n: u8) -> u8 {
    if n < 10 {
        (48 + n) as u8
    } else {
        (55 + n) as u8
    }
}

/// One byte in the form `0xHH`, upper case, always two digits.
pub open spec fn spec_hex_bytes(b: u8) -> Seq<u8> {
    seq![48u8, 120u8, spec_hex_digit(b / 16), spec_hex_digit(b % 16)]
}

/// The items of a byte list joined with `", "`, each rendered by `f`.
pub open spec fn spec_joined_items(data: Seq<u8>, f: spec_fn(u8) -> Seq<u8>) -> Seq<u8>
    decreases data.len(),
{
    if data.len() == 0 {
        Seq::empty()
    } else if data.len() == 1 {
        f(data[0])
    } else {
        spec_joined_items(data.drop_last(), f) + seq![44u8, 32u8] + f(data.last())
    }
}

/// A whole byte list in brackets, each item rendered by `f`.
pub open spec fn spec_byte_list(data: Seq<u8>, f: spec_fn(u8) -> Seq<u8>) -> Seq<u8> {
    seq![91u8] + spec_joined_items(data, f) + seq![93u8]
}

fn push_dec_bytes(out: &mut Vec<u8>, b: u8)
    ensures
        final(out)@ == old(out)@ + spec_dec_bytes(b),
{
    if b >= 100 {
        out.push(48 + b / 100);
        out.push(48 + (b / 10) % 10);
        out.push(48 + b % 10);
    } else if b >= 10 {
        out.push(48 + b / 10);
        out.push(48 + b % 10);
    } else {
        out.push(48 + b);
    }
    proof {
        assert(final(out)@ =~= old(out)@ + spec_dec_bytes(b));
    }
}

fn push_hex_bytes(out: &mut Vec<u8>, b: u8)
    ensures
        final(out)@ == old(out)@ + spec_hex_bytes(b),
{
    out.push(48);
    out.push(120);
    let hi = b / 16;
    let lo = b % 16;
    out.push(
        if hi < 10 {
            48 + hi
        } else {
            55 + hi
        },
    );
    out.push(
        if lo < 10 {
            48 + lo
        } else {
            55 + lo
        },
    );
    proof {
        assert(final(out)@ =~= old(out)@ + spec_hex_bytes(b));
    }
}

/// Render bytes as a decimal list, `[71, 69, 84]` style.
pub fn u8_to_10(data: &[u8]) -> (out: Vec<u8>)
    ensures
        out@ == spec_byte_list(data@, |b: u8| spec_dec_bytes(b)),
{
    let ghost f = |b: u8| spec_dec_bytes(b);
    let mut out: Vec<u8> = Vec::new();
    out.push(91);
    let n = data.len();
    let mut i: usize = 0;
    while i < n
        invariant
            0 <= i <= n,
            n == data@.len(),
            f == (|b: u8| spec_dec_bytes(b)),
            out@ == seq![91u8] + spec_joined_items(data@.take(i as int), f),
        decreases n - i,
    {
        proof {
            assert(data@.take(i + 1).drop_last() =~= data@.take(i as int));
            assert(data@.take(i + 1).last() == data@[i as int]);
            if i == 0 {
                assert(data@.take(1) =~= seq![data@[0]]);
            }
        }
        if i > 0 {
            out.push(44);
            out.push(32);
        }
        push_dec_bytes(&mut out, data[i]);
        proof {
            assert(out@ =~= seq![91u8] + spec_joined_items(data@.take(i + 1), f));
        }
        i += 1;
    }
    out.push(93);
    proof {
        assert(data@.take(n as int) =~= data@);
        assert(out@ =~= spec_byte_list(data@, f));
    }
    out
}

/// Render bytes as a hexadecimal list, `[0x47, 0x45, 0x54]` style.
pub fn u8_to_16(data: &[u8]) -> (out: Vec<u8>)
    ensures
        out@ == spec_byte_list(data@, |b: u8| spec_hex_bytes(b)),
{
    let ghost f = |b: u8| spec_hex_bytes(b);
    let mut out: Vec<u8> = Vec::new();
    out.push(91);
    let n = data.len();
    let mut i: usize = 0;
    while i < n
        invariant
            0 <= i <= n,
            n == data@.len(),
            f == (|b: u8| spec_hex_bytes(b)),
            out@ == seq![91u8] + spec_joined_items(data@.take(i as int), f),
        decreases n - i,
    {
        proof {
            assert(data@.take(i + 1).drop_last() =~= data@.take(i as int));
            assert(data@.take(i + 1).last() == data@[i as int]);
            if i == 0 {
                assert(data@.take(1) =~= seq![data@[0]]);
            }
        }
        if i > 0 {
            out.push(44);
            out.push(32);
        }
        push_hex_bytes(&mut out, data[i]);
        proof {
            assert(out@ =~= seq![91u8] + spec_joined_items(data@.take(i + 1), f));
        }
        i += 1;
    }
    out.push(93);
    proof {
        assert(data@.take(n as int) =~= data@);
        assert(out@ =~= spec_byte_list(data@, f));
    }
    out
}

/// What the chosen output form turns bytes into.
pub open spec fn spec_change_data(out_type: OutType, data: Seq<u8>) -> Seq<u8> {
    match out_type {
        OutType::Itself => data,
        OutType::Decimal => spec_byte_list(data, |b: u8| spec_dec_bytes(b)),
        OutType::Hexadecimal => spec_byte_list(data, |b: u8| spec_hex_bytes(b)),
    }
}

/// Convert bytes to the chosen output form.
pub fn change_data_fn(out_type: &OutType, data: &[u8]) -> (out: Vec<u8>)
    ensures
        out@ == spec_change_data(*out_type, data@),
{
    match out_type {
        OutType::Itself => slice_to_vec(data),
        OutType::Decimal => u8_to_10(data),
        OutType::Hexadecimal => u8_to_16(data),
    }
}

} // verus!
