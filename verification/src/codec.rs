//! Little-endian integers inside a byte buffer.

use vstd::prelude::*;

verus! {

/// The unsigned 64-bit integer that the eight bytes from `at` on encode.
pub open spec fn le_u64(s: Seq<u8>, at: int) -> int {
    s[at] as int
        + s[at + 1] as int * 0x100
        + s[at + 2] as int * 0x1_0000
        + s[at + 3] as int * 0x100_0000
        + s[at + 4] as int * 0x1_0000_0000
        + s[at + 5] as int * 0x100_0000_0000
        + s[at + 6] as int * 0x1_0000_0000_0000
        + s[at + 7] as int * 0x100_0000_0000_0000
}

/// The unsigned 32-bit integer that the four bytes from `at` on encode.
pub open spec fn le_u32(s: Seq<u8>, at: int) -> int {
    s[at] as int
        + s[at + 1] as int * 0x100
        + s[at + 2] as int * 0x1_0000
        + s[at + 3] as int * 0x100_0000
}

/// The signed 32-bit integer that the four bytes from `at` on encode, in
/// two's complement.
pub open spec fn le_i32(s: Seq<u8>, at: int) -> int {
    let u = le_u32(s, at);
    if u < 0x8000_0000 {
        u
    } else {
        u - 0x1_0000_0000
    }
}

/// The eight bytes that encode `v`, lowest first.
pub open spec fn u64_bytes(v: u64) -> Seq<u8> {
    seq![
        (v % 0x100) as u8,
        (v / 0x100 % 0x100) as u8,
        (v / 0x1_0000 % 0x100) as u8,
        (v / 0x100_0000 % 0x100) as u8,
        (v / 0x1_0000_0000 % 0x100) as u8,
        (v / 0x100_0000_0000 % 0x100) as u8,
        (v / 0x1_0000_0000_0000 % 0x100) as u8,
        (v / 0x100_0000_0000_0000 % 0x100) as u8,
    ]
}

/// The four bytes that encode `v` in two's complement, lowest first.
pub open spec fn i32_bytes(v: i32) -> Seq<u8> {
    let u: int = if v >= 0 { v as int } else { v + 0x1_0000_0000 };
    seq![
        (u % 0x100) as u8,
        (u / 0x100 % 0x100) as u8,
        (u / 0x1_0000 % 0x100) as u8,
        (u / 0x100_0000 % 0x100) as u8,
    ]
}

/// `s` with the bytes from `at` on replaced by `patch`.
pub open spec fn overwrite(s: Seq<u8>, at: int, patch: Seq<u8>) -> Seq<u8> {
    Seq::new(s.len(), |i: int| if at <= i < at + patch.len() { patch[i - at] } else { s[i] })
}

/// Decoding what `u64_bytes` wrote gives the integer back.
pub proof fn lemma_u64_round_trip(v: u64)
    ensures
        u64_bytes(v).len() == 8,
        le_u64(u64_bytes(v), 0) == v,
{
    assert(v == (v % 0x100) + (v / 0x100 % 0x100) * 0x100 + (v / 0x1_0000 % 0x100) * 0x1_0000 + (v
        / 0x100_0000 % 0x100) * 0x100_0000 + (v / 0x1_0000_0000 % 0x100) * 0x1_0000_0000 + (v
        / 0x100_0000_0000 % 0x100) * 0x100_0000_0000 + (v / 0x1_0000_0000_0000 % 0x100)
        * 0x1_0000_0000_0000 + (v / 0x100_0000_0000_0000 % 0x100) * 0x100_0000_0000_0000)
        by (bit_vector);
}

/// Decoding what `i32_bytes` wrote gives the integer back.
pub proof fn lemma_i32_round_trip(v: i32)
    ensures
        i32_bytes(v).len() == 4,
        le_i32(i32_bytes(v), 0) == v,
{
}

/// An integer that was written into a buffer is read back from the same
/// place.
pub proof fn lemma_overwrite_u64(s: Seq<u8>, at: int, v: u64)
    requires
        0 <= at,
        at + 8 <= s.len(),
    ensures
        le_u64(overwrite(s, at, u64_bytes(v)), at) == v,
{
    lemma_u64_round_trip(v);
    let t = overwrite(s, at, u64_bytes(v));
    assert forall|k: int| 0 <= k < 8 implies t[at + k] == u64_bytes(v)[k] by {}
}

/// A counter that was written into a buffer is read back from the same
/// place.
pub proof fn lemma_overwrite_i32(s: Seq<u8>, at: int, v: i32)
    requires
        0 <= at,
        at + 4 <= s.len(),
    ensures
        le_i32(overwrite(s, at, i32_bytes(v)), at) == v,
{
    lemma_i32_round_trip(v);
    let t = overwrite(s, at, i32_bytes(v));
    assert forall|k: int| 0 <= k < 4 implies t[at + k] == i32_bytes(v)[k] by {}
}

/// Reads the unsigned 64-bit integer at `at`.
pub fn read_u64(bytes: &[u8], at: usize) -> (v: u64)
    requires
        at + 8 <= bytes@.len(),
    ensures
        v == le_u64(bytes@, at as int),
{
    let b0 = bytes[at] as u64;
    let b1 = bytes[at + 1] as u64;
    let b2 = bytes[at + 2] as u64;
    let b3 = bytes[at + 3] as u64;
    let b4 = bytes[at + 4] as u64;
    let b5 = bytes[at + 5] as u64;
    let b6 = bytes[at + 6] as u64;
    let b7 = bytes[at + 7] as u64;
    b0 + b1 * 0x100 + b2 * 0x1_0000 + b3 * 0x100_0000 + b4 * 0x1_0000_0000 + b5
        * 0x100_0000_0000 + b6 * 0x1_0000_0000_0000 + b7 * 0x100_0000_0000_0000
}

/// Reads the signed 32-bit integer at `at`.
pub fn read_i32(bytes: &[u8], at: usize) -> (v: i32)
    requires
        at + 4 <= bytes@.len(),
    ensures
        v == le_i32(bytes@, at as int),
{
    let b0 = bytes[at] as u32;
    let b1 = bytes[at + 1] as u32;
    let b2 = bytes[at + 2] as u32;
    let b3 = bytes[at + 3] as u32;
    let u: u32 = b0 + b1 * 0x100 + b2 * 0x1_0000 + b3 * 0x100_0000;
    if u < 0x8000_0000 {
        u as i32
    } else {
        ((u - 0x8000_0000) as i32) + i32::MIN
    }
}

/// Writes `v` at `at`, lowest byte first, and leaves the rest alone.
pub fn write_u64(bytes: &mut Vec<u8>, at: usize, v: u64)
    requires
        at + 8 <= old(bytes)@.len(),
    ensures
        final(bytes)@ == overwrite(old(bytes)@, at as int, u64_bytes(v)),
{
    let _ = bytes.len();
    bytes[at] = (v % 0x100) as u8;
    bytes[at + 1] = (v / 0x100 % 0x100) as u8;
    bytes[at + 2] = (v / 0x1_0000 % 0x100) as u8;
    bytes[at + 3] = (v / 0x100_0000 % 0x100) as u8;
    bytes[at + 4] = (v / 0x1_0000_0000 % 0x100) as u8;
    bytes[at + 5] = (v / 0x100_0000_0000 % 0x100) as u8;
    bytes[at + 6] = (v / 0x1_0000_0000_0000 % 0x100) as u8;
    bytes[at + 7] = (v / 0x100_0000_0000_0000 % 0x100) as u8;
    assert(bytes@ =~= overwrite(old(bytes)@, at as int, u64_bytes(v)));
}

/// Writes `v` at `at` in two's complement, lowest byte first, and leaves the
/// rest alone.
pub fn write_i32(bytes: &mut Vec<u8>, at: usize, v: i32)
    requires
        at + 4 <= old(bytes)@.len(),
    ensures
        final(bytes)@ == overwrite(old(bytes)@, at as int, i32_bytes(v)),
{
    let _ = bytes.len();
    let u: u64 = if v >= 0 { v as u64 } else { (v as i64 + 0x1_0000_0000) as u64 };
    bytes[at] = (u % 0x100) as u8;
    bytes[at + 1] = (u / 0x100 % 0x100) as u8;
    bytes[at + 2] = (u / 0x1_0000 % 0x100) as u8;
    bytes[at + 3] = (u / 0x100_0000 % 0x100) as u8;
    assert(bytes@ =~= overwrite(old(bytes)@, at as int, i32_bytes(v)));
}

/// Copies the thirty-two bytes at `at` out of the buffer.
pub fn read_key(bytes: &[u8], at: usize) -> (key: [u8; 32])
    requires
        at + 32 <= bytes@.len(),
    ensures
        key@ == bytes@.subrange(at as int, at + 32),
{
    let mut key = [0u8; 32];
    let total = bytes.len();
    let mut i: usize = 0;
    while i < 32
        invariant
            i <= 32,
            at + 32 <= total,
            total == bytes@.len(),
            forall|k: int| 0 <= k < i ==> key@[k] == bytes@[at + k],
        decreases 32 - i,
    {
        key[i] = bytes[at + i];
        i += 1;
    }
    assert(key@ =~= bytes@.subrange(at as int, at + 32));
    key
}

/// Copies `patch` into the buffer at `at` and leaves the rest alone.
pub fn write_bytes(bytes: &mut Vec<u8>, at: usize, patch: &[u8])
    requires
        at + patch@.len() <= old(bytes)@.len(),
    ensures
        final(bytes)@ == overwrite(old(bytes)@, at as int, patch@),
{
    let n = patch.len();
    let total = bytes.len();
    let mut i: usize = 0;
    while i < n
        invariant
            i <= n,
            n == patch@.len(),
            at + n <= total,
            bytes@.len() == total,
            old(bytes)@.len() == total,
            forall|k: int|
                0 <= k < bytes@.len() ==> bytes@[k] == if at <= k < at + i {
                    patch@[k - at]
                } else {
                    old(bytes)@[k]
                },
        decreases n - i,
    {
        bytes[at + i] = patch[i];
        i += 1;
    }
    assert(bytes@ =~= overwrite(old(bytes)@, at as int, patch@));
}

/// The eight bytes that encode `v`, lowest first.
pub fn u64_to_le(v: u64) -> (bytes: [u8; 8])
    ensures
        bytes@ == u64_bytes(v),
{
    let bytes = [
        (v % 0x100) as u8,
        (v / 0x100 % 0x100) as u8,
        (v / 0x1_0000 % 0x100) as u8,
        (v / 0x100_0000 % 0x100) as u8,
        (v / 0x1_0000_0000 % 0x100) as u8,
        (v / 0x100_0000_0000 % 0x100) as u8,
        (v / 0x1_0000_0000_0000 % 0x100) as u8,
        (v / 0x100_0000_0000_0000 % 0x100) as u8,
    ];
    assert(bytes@ =~= u64_bytes(v));
    bytes
}

/// Copies `patch` into the array at `at` and leaves the rest alone.
pub fn put_bytes<const N: usize>(array: &mut [u8; N], at: usize, patch: &[u8])
    requires
        at + patch@.len() <= N,
    ensures
        final(array)@ == overwrite(old(array)@, at as int, patch@),
{
    let n = patch.len();
    let mut i: usize = 0;
    while i < n
        invariant
            i <= n,
            n == patch@.len(),
            at + n <= N,
            forall|k: int|
                0 <= k < N ==> array@[k] == if at <= k < at + i {
                    patch@[k - at]
                } else {
                    old(array)@[k]
                },
        decreases n - i,
    {
        array[at + i] = patch[i];
        i += 1;
    }
    assert(array@ =~= overwrite(old(array)@, at as int, patch@));
}

} // verus!
