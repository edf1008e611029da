//! Little-endian encoding of the pointers and scalar values found in the target.

use vstd::prelude::*;

verus! {

/// The number that a little-endian byte string stands for: byte `i` weighs `256^i`.
pub open spec fn le_value(bytes: Seq<u8>) -> nat
    decreases bytes.len(),
{
    if bytes.len() == 0 {
        0
    } else {
        bytes[0] as nat + 256 * le_value(bytes.skip(1))
    }
}

/// `256^len`: the first number that `len` bytes cannot hold.
pub open spec fn le_limit(len: nat) -> nat
    decreases len,
{
    if len == 0 {
        1
    } else {
        256 * le_limit((len - 1) as nat)
    }
}

/// The first `width` bytes of `bytes`, or all of them where there are fewer.
pub open spec fn leading(bytes: Seq<u8>, width: nat) -> Seq<u8> {
    if bytes.len() <= width {
        bytes
    } else {
        bytes.take(width as int)
    }
}

/// The number of bytes in a pointer of the target.
pub open spec fn pointer_width() -> nat {
    (usize::BITS / 8) as nat
}

/// The pointer held in the leading bytes of `bytes`. Bytes that are missing count as zero.
pub open spec fn pointer_value(bytes: Seq<u8>) -> usize {
    le_value(leading(bytes, pointer_width())) as usize
}

/// The 32-bit pattern held in the leading four bytes of `bytes`. Bytes that are missing
/// count as zero.
pub open spec fn value_bits(bytes: Seq<u8>) -> u32 {
    le_value(leading(bytes, 4)) as u32
}

/// The four bytes that hold `bits`, least significant first.
pub open spec fn value_bytes(bits: u32) -> Seq<u8> {
    seq![
        (bits % 256) as u8,
        (bits / 256 % 256) as u8,
        (bits / 65536 % 256) as u8,
        (bits / 16777216) as u8,
    ]
}

/// A byte string stands for a number below `256^len`.
pub proof fn lemma_le_value_bound(bytes: Seq<u8>)
    ensures
        le_value(bytes) < le_limit(bytes.len()),
    decreases bytes.len(),
{
    if bytes.len() > 0 {
        lemma_le_value_bound(bytes.skip(1));
    }
}

/// The limits of the widths in use, as numbers.
pub proof fn lemma_le_limit_values()
    ensures
        le_limit(0) == 1,
        le_limit(4) == 0x1_0000_0000,
        le_limit(8) == 0x1_0000_0000_0000_0000,
        le_limit(pointer_width()) == usize::MAX + 1,
        forall|a: nat, b: nat| a <= b ==> le_limit(a) <= le_limit(b),
{
    reveal_with_fuel(le_limit, 9);
    assert forall|a: nat, b: nat| a <= b implies le_limit(a) <= le_limit(b) by {
        lemma_le_limit_grows(a, b);
    }
}

proof fn lemma_le_limit_grows(a: nat, b: nat)
    requires
        a <= b,
    ensures
        le_limit(a) <= le_limit(b),
        le_limit(a) >= 1,
    decreases b,
{
    if a < b {
        lemma_le_limit_grows(a, (b - 1) as nat);
    } else if a > 0 {
        lemma_le_limit_grows((a - 1) as nat, (b - 1) as nat);
    }
}

/// The value of a byte string from its most significant end: what decoding
/// the bytes from `from` on has to add to.
proof fn lemma_le_value_step(bytes: Seq<u8>, from: int)
    requires
        0 <= from < bytes.len(),
    ensures
        le_value(bytes.skip(from)) == bytes[from] as nat + 256 * le_value(bytes.skip(from + 1)),
{
    assert(bytes.skip(from).skip(1) =~= bytes.skip(from + 1));
}

/// Reads the number in the first `width` bytes of `bytes`, least significant byte first.
fn decode_le(bytes: &[u8], width: usize) -> (value: u64)
    requires
        width <= 8,
    ensures
        value == le_value(leading(bytes@, width as nat)),
{
    let count: usize = if bytes.len() <= width {
        bytes.len()
    } else {
        width
    };
    let ghost lead = leading(bytes@, width as nat);
    let mut value: u64 = 0;
    let mut at: usize = count;
    while at > 0
        invariant
            at <= count <= 8,
            count == lead.len(),
            count <= bytes@.len(),
            forall|i: int| 0 <= i < count ==> lead[i] == bytes@[i],
            value == le_value(lead.skip(at as int)),
        decreases at,
    {
        at = at - 1;
        proof {
            lemma_le_value_step(lead, at as int);
            lemma_le_value_bound(lead.skip(at as int));
            lemma_le_limit_values();
        }
        value = value * 256 + bytes[at] as u64;
    }
    assert(lead.skip(0) =~= lead);
    value
}

/// Decodes a pointer of the target from the bytes read at a pointer slot.
pub fn decode_pointer(bytes: &[u8]) -> (pointer: usize)
    ensures
        pointer == pointer_value(bytes@),
{
    let width: usize = (usize::BITS / 8) as usize;
    decode_le(bytes, width) as usize
}

/// Decodes the 32-bit pattern of a scalar from the bytes read at its address.
pub fn decode_value(bytes: &[u8]) -> (bits: u32)
    ensures
        bits == value_bits(bytes@),
{
    decode_le(bytes, 4) as u32
}

/// Encodes the 32-bit pattern of a scalar as the four bytes to write at its address.
pub fn encode_value(bits: u32) -> (bytes: [u8; 4])
    ensures
        bytes@ == value_bytes(bits),
{
    [
        (bits % 256) as u8,
        (bits / 256 % 256) as u8,
        (bits / 65536 % 256) as u8,
        (bits / 16777216) as u8,
    ]
}

/// Decoding undoes encoding: the four bytes written for a pattern read back as that pattern.
pub proof fn lemma_value_round_trip(bits: u32)
    ensures
        value_bytes(bits).len() == 4,
        le_value(value_bytes(bits)) == bits,
        value_bits(value_bytes(bits)) == bits,
{
    reveal_with_fuel(le_value, 5);
}

} // verus!
