use byteorder::{BigEndian, ByteOrder, LittleEndian};
use vstd::prelude::*;

verus! {

/// The four bytes of `n`, least significant first.
pub open spec fn le_bytes(n: u32) -> Seq<u8> {
    seq![
        (n % 0x100) as u8,
        ((n / 0x100) % 0x100) as u8,
        ((n / 0x10000) % 0x100) as u8,
        ((n / 0x1000000) % 0x100) as u8,
    ]
}

/// The four bytes of `n`, most significant first.
pub open spec fn be_bytes(n: u32) -> Seq<u8> {
    seq![
        ((n / 0x1000000) % 0x100) as u8,
        ((n / 0x10000) % 0x100) as u8,
        ((n / 0x100) % 0x100) as u8,
        (n % 0x100) as u8,
    ]
}

/// The number that the first four bytes of `b` denote, most significant
/// first.
pub open spec fn be_value(b: Seq<u8>) -> int {
    b[0] * 0x1000000 + b[1] * 0x10000 + b[2] * 0x100 + b[3]
}

/// byteorder's `LittleEndian::write_u32`: it stores `n` in the first four
/// bytes of `buf`, least significant byte first, and leaves the others.
#[verifier::external_body]
fn write_u32_le(buf: &mut Vec<u8>, n: u32)
    requires
        old(buf)@.len() >= 4,
    ensures
        final(buf)@ == le_bytes(n) + old(buf)@.skip(4),
{
    LittleEndian::write_u32(buf, n)
}

/// byteorder's `BigEndian::write_u32`: it stores `n` in the first four
/// bytes of `buf`, most significant byte first, and leaves the others.
#[verifier::external_body]
fn write_u32_be(buf: &mut Vec<u8>, n: u32)
    requires
        old(buf)@.len() >= 4,
    ensures
        final(buf)@ == be_bytes(n) + old(buf)@.skip(4),
{
    BigEndian::write_u32(buf, n)
}

/// byteorder's `BigEndian::read_u32`: the number that the first four bytes
/// of `buf` denote, most significant byte first.
#[verifier::external_body]
fn read_u32_be(buf: &[u8]) -> (n: u32)
    requires
        buf@.len() >= 4,
    ensures
        n as int == be_value(buf@),
{
    BigEndian::read_u32(buf)
}

/// Appends the four bytes of `n` to `out`, least significant first.
pub fn push_u32_le(out: &mut Vec<u8>, n: u32)
    ensures
        final(out)@ == old(out)@ + le_bytes(n),
{
    let mut buf: Vec<u8> = vec![0u8, 0u8, 0u8, 0u8];
    write_u32_le(&mut buf, n);
    let mut i: usize = 0;
    while i < 4
        invariant
            buf@ == le_bytes(n) + seq![0u8, 0u8, 0u8, 0u8].skip(4),
            0 <= i <= 4,
            out@ == old(out)@ + le_bytes(n).take(i as int),
        decreases 4 - i,
    {
        out.push(buf[i]);
        i = i + 1;
        assert(le_bytes(n).take(i as int) =~= le_bytes(n).take(i - 1).push(le_bytes(n)[i - 1]));
    }
    assert(le_bytes(n).take(4) =~= le_bytes(n));
}

/// Appends the four bytes of `n` to `out`, most significant first.
pub fn push_u32_be(out: &mut Vec<u8>, n: u32)
    ensures
        final(out)@ == old(out)@ + be_bytes(n),
{
    let mut buf: Vec<u8> = vec![0u8, 0u8, 0u8, 0u8];
    write_u32_be(&mut buf, n);
    let mut i: usize = 0;
    while i < 4
        invariant
            buf@ == be_bytes(n) + seq![0u8, 0u8, 0u8, 0u8].skip(4),
            0 <= i <= 4,
            out@ == old(out)@ + be_bytes(n).take(i as int),
        decreases 4 - i,
    {
        out.push(buf[i]);
        i = i + 1;
        assert(be_bytes(n).take(i as int) =~= be_bytes(n).take(i - 1).push(be_bytes(n)[i - 1]));
    }
    assert(be_bytes(n).take(4) =~= be_bytes(n));
}

/// The number that the first four bytes of `bytes` denote, most
/// significant first.
pub fn read_be_u32(bytes: &[u8]) -> (n: u32)
    requires
        bytes@.len() >= 4,
    ensures
        n as int == be_value(bytes@),
{
    read_u32_be(bytes)
}

/// Reading back the big-endian bytes of `n` gives `n`.
pub proof fn lemma_be_roundtrip(n: u32)
    ensures
        be_value(be_bytes(n)) == n,
        be_bytes(n).len() == 4,
        le_bytes(n).len() == 4,
{
    let b = be_bytes(n);
    assert(b[0] == (n / 0x1000000) % 0x100);
    assert(b[1] == (n / 0x10000) % 0x100);
    assert(b[2] == (n / 0x100) % 0x100);
    assert(b[3] == n % 0x100);
    assert(((n / 0x1000000) % 0x100) * 0x1000000 + ((n / 0x10000) % 0x100) * 0x10000 + ((n / 0x100)
        % 0x100) * 0x100 + n % 0x100 == n) by (bit_vector);
}

} // verus!
