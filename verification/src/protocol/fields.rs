//! Fields of a binary record, written with their highest byte first.

use vstd::prelude::*;

verus! {

/// The number some bytes write, highest first.
pub open spec fn big_endian(bytes: Seq<u8>) -> nat
    decreases bytes.len(),
{
    if bytes.len() == 0 {
        0
    } else {
        256 * big_endian(bytes.drop_last()) + bytes.last() as nat
    }
}

/// A 32-bit number read as one that may be below nought.
pub open spec fn signed(n: nat) -> int {
    if n < 0x8000_0000 {
        n as int
    } else {
        n - 0x1_0000_0000
    }
}

/// The bytes of a field of so many, where the record holds them.
pub open spec fn field(bytes: Seq<u8>, at: int, size: int) -> Option<Seq<u8>> {
    if 0 <= at && at + size <= bytes.len() {
        Some(bytes.subrange(at, at + size))
    } else {
        None
    }
}

/// The 32-bit field at a place.
pub open spec fn u32_in(bytes: Seq<u8>, at: int) -> Option<u32> {
    match field(bytes, at, 4) {
        Some(field) => Some(big_endian(field) as u32),
        None => None,
    }
}

/// The 32-bit field at a place, which may be below nought.
pub open spec fn i32_in(bytes: Seq<u8>, at: int) -> Option<i32> {
    match field(bytes, at, 4) {
        Some(field) => Some(signed(big_endian(field)) as i32),
        None => None,
    }
}

/// The 64-bit field at a place.
pub open spec fn u64_in(bytes: Seq<u8>, at: int) -> Option<u64> {
    match field(bytes, at, 8) {
        Some(field) => Some(big_endian(field) as u64),
        None => None,
    }
}

proof fn four_bytes(b: Seq<u8>)
    requires
        b.len() == 4,
    ensures
        big_endian(b) == 0x100_0000 * b[0] + 0x1_0000 * b[1] + 0x100 * b[2] + b[3],
{
    reveal_with_fuel(big_endian, 5);
    let three = b.drop_last();
    let two = three.drop_last();
    let one = two.drop_last();
    assert(one.drop_last() =~= Seq::empty());
}

proof fn eight_bytes(b: Seq<u8>)
    requires
        b.len() == 8,
    ensures
        big_endian(b) == 0x1_0000_0000 * big_endian(b.subrange(0, 4)) + big_endian(
            b.subrange(4, 8),
        ),
{
    reveal_with_fuel(big_endian, 5);
    let high = b.subrange(0, 4);
    let low = b.subrange(4, 8);
    four_bytes(low);
    let seven = b.drop_last();
    let six = seven.drop_last();
    let five = six.drop_last();
    assert(five.drop_last() =~= high);
}

/// The 32-bit field at a place.
pub fn u32_at(bytes: &[u8], at: usize) -> (read: Option<u32>)
    ensures
        read == u32_in(bytes@, at as int),
        read is Some <==> at + 4 <= bytes@.len(),
        read is Some ==> at + 4 <= usize::MAX && read->Some_0 == big_endian(
            bytes@.subrange(at as int, at + 4),
        ),
{
    if bytes.len() < 4 || at > bytes.len() - 4 {
        return None;
    }
    proof {
        let b = bytes@.subrange(at as int, at + 4);
        four_bytes(b);
    }
    Some(
        0x100_0000 * (bytes[at] as u32) + 0x1_0000 * (bytes[at + 1] as u32) + 0x100 * (bytes[at
            + 2] as u32) + bytes[at + 3] as u32,
    )
}

/// The 32-bit field at a place, which may be below nought.
pub fn i32_at(bytes: &[u8], at: usize) -> (read: Option<i32>)
    ensures
        read == i32_in(bytes@, at as int),
        read is Some <==> at + 4 <= bytes@.len(),
        read is Some ==> at + 4 <= usize::MAX,
{
    match u32_at(bytes, at) {
        Some(n) => {
            if n < 0x8000_0000 {
                Some(n as i32)
            } else {
                Some((n as i64 - 0x1_0000_0000) as i32)
            }
        },
        None => None,
    }
}

/// The 64-bit field at a place.
pub fn u64_at(bytes: &[u8], at: usize) -> (read: Option<u64>)
    ensures
        read == u64_in(bytes@, at as int),
        read is Some <==> at + 8 <= bytes@.len(),
        read is Some ==> at + 8 <= usize::MAX,
{
    if bytes.len() < 8 || at > bytes.len() - 8 {
        return None;
    }
    match (u32_at(bytes, at), u32_at(bytes, at + 4)) {
        (Some(high), Some(low)) => {
            proof {
                let b = bytes@.subrange(at as int, at + 8);
                eight_bytes(b);
                assert(b.subrange(0, 4) =~= bytes@.subrange(at as int, at + 4));
                assert(b.subrange(4, 8) =~= bytes@.subrange(at + 4, at + 8));
            }
            Some(0x1_0000_0000 * (high as u64) + low as u64)
        },
        _ => None,
    }
}

} // verus!
