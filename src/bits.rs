use vstd::arithmetic::power2::{lemma2_to64, pow2};
use vstd::prelude::*;

verus! {

/// The unsigned value held in the bit window of `byte` that starts at bit
/// `start` (bit 0 being the most significant) and spans `width` bits.
pub open spec fn bit_window(byte: u8, start: nat, width: nat) -> nat {
    ((byte as nat) / pow2((8 - start - width) as nat)) % pow2(width)
}

/// Value of a big-endian pair of bytes.
pub open spec fn be_u16(hi: u8, lo: u8) -> nat {
    hi as nat * 256 + lo as nat
}

/// Two to the power `n`, for the exponents that fit in a byte window.
fn small_pow2(n: usize) -> (r: u16)
    requires
        n <= 8,
    ensures
        r as nat == pow2(n as nat),
        1 <= r <= 256,
{
    proof {
        lemma2_to64();
    }
    let mut r: u16 = 1;
    let mut i: usize = 0;
    while i < n
        invariant
            i <= n <= 8,
            r as nat == pow2(i as nat),
            pow2(0) == 1 && pow2(1) == 2 && pow2(2) == 4 && pow2(3) == 8 && pow2(4) == 16
                && pow2(5) == 32 && pow2(6) == 64 && pow2(7) == 128 && pow2(8) == 256,
        decreases n - i,
    {
        proof {
            vstd::arithmetic::power2::lemma_pow2_unfold((i + 1) as nat);
        }
        r = r * 2;
        i = i + 1;
    }
    r
}

/// Reads the `bit_count` bits of `byte` that start at `start_bit`, counting
/// bit 0 as the most significant one.
pub fn get_u8_from_bit_slice(byte: u8, start_bit: usize, bit_count: usize) -> (r: u8)
    requires
        start_bit + bit_count <= 8,
    ensures
        r as nat == bit_window(byte, start_bit as nat, bit_count as nat),
{
    let shift: usize = 8 - (start_bit + bit_count);
    let divisor = small_pow2(shift);
    let modulus = small_pow2(bit_count);
    let v: u16 = ((byte as u16) / divisor) % modulus;
    assert(v < 256) by {
        assert((byte as u16) / divisor <= byte as u16) by (nonlinear_arith)
            requires
                divisor >= 1,
        ;
    }
    v as u8
}

/// Splits a `u16` into its big-endian bytes.
pub fn u16_to_be_bytes(value: u16) -> (r: (u8, u8))
    ensures
        be_u16(r.0, r.1) == value as nat,
        r.0 as nat == value as nat / 256,
        r.1 as nat == value as nat % 256,
{
    ((value / 256) as u8, (value % 256) as u8)
}

/// Joins two big-endian bytes into a `u16`.
pub fn u16_from_be_bytes(hi: u8, lo: u8) -> (r: u16)
    ensures
        r as nat == be_u16(hi, lo),
{
    (hi as u16) * 256 + (lo as u16)
}

/// Splitting a `u16` into bytes and joining them again gives it back.
pub proof fn lemma_u16_be_round_trip(value: u16)
    ensures
        be_u16((value as nat / 256) as u8, (value as nat % 256) as u8) == value as nat,
{
}

} // verus!
