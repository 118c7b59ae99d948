//! Little-endian integers read from a byte slice.
use crate::grammar::{has_bytes, le_signed, le_unsigned, pow256};
use vstd::prelude::*;

verus! {

/// The powers of 256 that the integer readers use.
pub proof fn lemma_pow256_values()
    ensures
        pow256(0) == 1,
        pow256(1) == 0x100,
        pow256(2) == 0x1_0000,
        pow256(3) == 0x100_0000,
        pow256(4) == 0x1_0000_0000,
        pow256(5) == 0x100_0000_0000,
        pow256(6) == 0x1_0000_0000_0000,
        pow256(7) == 0x100_0000_0000_0000,
        pow256(8) == 0x1_0000_0000_0000_0000,
{
    reveal_with_fuel(pow256, 9);
}

/// Whether `n` bytes are left in `data` from `pos` on, without overflow.
pub fn has_room(data: &[u8], pos: usize, n: usize) -> (r: bool)
    requires
        pos <= data@.len(),
    ensures
        r == has_bytes(data@, pos as int, n as int),
{
    data.len() - pos >= n
}

/// The unsigned little-endian integer of the `n` bytes from `pos` on.
pub fn read_le(data: &[u8], pos: usize, n: usize) -> (r: u64)
    requires
        n <= 8,
        has_bytes(data@, pos as int, n as int),
    ensures
        r as nat == le_unsigned(data@, pos as int, n as nat),
        (r as nat) < pow256(n as nat),
{
    proof {
        lemma_pow256_values();
    }
    let total: usize = data.len();
    let mut r: u64 = 0;
    let mut i: usize = n;
    while i > 0
        invariant
            i <= n <= 8,
            total == data@.len(),
            has_bytes(data@, pos as int, n as int),
            r as nat == le_unsigned(data@, pos + i, (n - i) as nat),
            (r as nat) < pow256((n - i) as nat),
        decreases i,
    {
        i = i - 1;
        let b: u8 = data[pos + i];
        proof {
            lemma_pow256_values();
            let k: nat = (n - i) as nat;
            let pk: nat = pow256((k - 1) as nat);
            assert(pow256(k) == 256 * pk);
            assert(le_unsigned(data@, pos + i, k) == b as nat + 256 * le_unsigned(
                data@,
                pos + i + 1,
                (k - 1) as nat,
            ));
            assert((r as nat) * 256 + (b as nat) < 256 * pk) by (nonlinear_arith)
                requires
                    (r as nat) < pk,
                    (b as nat) < 256,
            ;
            assert(k <= 8);
            assert(pow256(k) <= 0x1_0000_0000_0000_0000) by {
                if k < 8 {
                    assert(k <= 7);
                    lemma_pow256_below(k, 7);
                }
            }
        }
        r = r * 256 + b as u64;
    }
    r
}

/// `pow256` grows with its exponent.
pub proof fn lemma_pow256_below(a: nat, b: nat)
    requires
        a <= b,
    ensures
        pow256(a) <= pow256(b),
    decreases b,
{
    if a < b {
        lemma_pow256_below(a, (b - 1) as nat);
    }
}

/// Two bytes little-endian, unsigned.
pub fn read_u16(data: &[u8], pos: usize) -> (r: usize)
    requires
        has_bytes(data@, pos as int, 2),
    ensures
        r as nat == le_unsigned(data@, pos as int, 2),
        r < 0x1_0000,
{
    proof {
        lemma_pow256_values();
    }
    read_le(data, pos, 2) as usize
}

/// Four bytes little-endian, unsigned.
pub fn read_u32(data: &[u8], pos: usize) -> (r: u32)
    requires
        has_bytes(data@, pos as int, 4),
    ensures
        r as nat == le_unsigned(data@, pos as int, 4),
{
    proof {
        lemma_pow256_values();
    }
    read_le(data, pos, 4) as u32
}

/// Four bytes little-endian, two's complement.
pub fn read_i32(data: &[u8], pos: usize) -> (r: i32)
    requires
        has_bytes(data@, pos as int, 4),
    ensures
        r as int == le_signed(data@, pos as int, 4),
{
    proof {
        lemma_pow256_values();
    }
    let u: u32 = read_u32(data, pos);
    if u >= 0x8000_0000 {
        ((u - 0x8000_0000) as i32) + i32::MIN
    } else {
        u as i32
    }
}

/// Eight bytes little-endian, two's complement.
pub fn read_i64(data: &[u8], pos: usize) -> (r: i64)
    requires
        has_bytes(data@, pos as int, 8),
    ensures
        r as int == le_signed(data@, pos as int, 8),
{
    proof {
        lemma_pow256_values();
    }
    let u: u64 = read_le(data, pos, 8);
    if u >= 0x8000_0000_0000_0000 {
        ((u - 0x8000_0000_0000_0000) as i64) + i64::MIN
    } else {
        u as i64
    }
}

} // verus!
