//! Little-endian numbers in byte strings.

use vstd::prelude::*;

verus! {

/// The 16-bit number stored least significant byte first at `at`.
pub open spec fn le_u16(bytes: Seq<u8>, at: int) -> int
    recommends
        0 <= at,
        at + 2 <= bytes.len(),
{
    bytes[at] as int + 0x100 * bytes[at + 1] as int
}

/// The 32-bit number stored least significant byte first at `at`.
pub open spec fn le_u32(bytes: Seq<u8>, at: int) -> int
    recommends
        0 <= at,
        at + 4 <= bytes.len(),
{
    le_u16(bytes, at) + 0x1_0000 * le_u16(bytes, at + 2)
}

/// The 64-bit number stored least significant byte first at `at`.
pub open spec fn le_u64(bytes: Seq<u8>, at: int) -> int
    recommends
        0 <= at,
        at + 8 <= bytes.len(),
{
    le_u32(bytes, at) + 0x1_0000_0000 * le_u32(bytes, at + 4)
}

/// The `count` bytes that store `value` least significant byte first.
pub open spec fn le_bytes(value: int, count: nat) -> Seq<u8>
    decreases count,
{
    if count == 0 {
        Seq::empty()
    } else {
        seq![(value % 0x100) as u8] + le_bytes(value / 0x100, (count - 1) as nat)
    }
}

/// The eight bytes of a 64-bit number, one by one.
pub proof fn lemma_le_bytes_u64(value: u64)
    ensures
        le_bytes(value as int, 8).len() == 8,
        le_bytes(value as int, 8) == {
            let q1 = value as int / 0x100;
            let q2 = q1 / 0x100;
            let q3 = q2 / 0x100;
            let q4 = q3 / 0x100;
            let q5 = q4 / 0x100;
            let q6 = q5 / 0x100;
            let q7 = q6 / 0x100;
            seq![
                (value as int % 0x100) as u8,
                (q1 % 0x100) as u8,
                (q2 % 0x100) as u8,
                (q3 % 0x100) as u8,
                (q4 % 0x100) as u8,
                (q5 % 0x100) as u8,
                (q6 % 0x100) as u8,
                (q7 % 0x100) as u8,
            ]
        },
        le_u64(le_bytes(value as int, 8), 0) == value,
{
    reveal_with_fuel(le_bytes, 9);
    let q1 = value as int / 0x100;
    let q2 = q1 / 0x100;
    let q3 = q2 / 0x100;
    let q4 = q3 / 0x100;
    let q5 = q4 / 0x100;
    let q6 = q5 / 0x100;
    let q7 = q6 / 0x100;
    let expected = seq![
        (value as int % 0x100) as u8,
        (q1 % 0x100) as u8,
        (q2 % 0x100) as u8,
        (q3 % 0x100) as u8,
        (q4 % 0x100) as u8,
        (q5 % 0x100) as u8,
        (q6 % 0x100) as u8,
        (q7 % 0x100) as u8,
    ];
    assert(le_bytes(value as int, 8) =~= expected);
    assert(q7 < 0x100);
    assert(le_u16(expected, 0) == value as int % 0x100 + 0x100 * (q1 % 0x100));
    assert(le_u16(expected, 2) == q2 % 0x100 + 0x100 * (q3 % 0x100));
    assert(le_u16(expected, 4) == q4 % 0x100 + 0x100 * (q5 % 0x100));
    assert(le_u16(expected, 6) == q6 % 0x100 + 0x100 * (q7 % 0x100));
}

/// The two bytes of a 16-bit number, one by one.
pub proof fn lemma_le_bytes_u16(value: u16)
    ensures
        le_bytes(value as int, 2).len() == 2,
        le_bytes(value as int, 2) == seq![(value % 0x100) as u8, (value / 0x100) as u8],
        le_u16(le_bytes(value as int, 2), 0) == value,
{
    reveal_with_fuel(le_bytes, 3);
    assert(le_bytes(value as int, 2) =~= seq![(value % 0x100) as u8, (value / 0x100) as u8]);
}

/// Reads the 16-bit little-endian number at `at`.
pub fn read_le_u16(bytes: &[u8], at: usize) -> (value: u16)
    requires
        at + 2 <= bytes@.len(),
    ensures
        value == le_u16(bytes@, at as int),
{
    let len: usize = bytes.len();
    assert(at + 2 <= len);
    let low: u16 = bytes[at] as u16;
    let high: u16 = bytes[at + 1] as u16;
    low + high * 0x100
}

/// Reads the 32-bit little-endian number at `at`.
pub fn read_le_u32(bytes: &[u8], at: usize) -> (value: u32)
    requires
        at + 4 <= bytes@.len(),
    ensures
        value == le_u32(bytes@, at as int),
{
    let len: usize = bytes.len();
    assert(at + 4 <= len);
    let low: u32 = read_le_u16(bytes, at) as u32;
    let high: u32 = read_le_u16(bytes, at + 2) as u32;
    low + high * 0x1_0000
}

/// Reads the 64-bit little-endian number at `at`.
pub fn read_le_u64(bytes: &[u8], at: usize) -> (value: u64)
    requires
        at + 8 <= bytes@.len(),
    ensures
        value == le_u64(bytes@, at as int),
{
    let len: usize = bytes.len();
    assert(at + 8 <= len);
    let low: u64 = read_le_u32(bytes, at) as u64;
    let high: u64 = read_le_u32(bytes, at + 4) as u64;
    low + high * 0x1_0000_0000
}

} // verus!
