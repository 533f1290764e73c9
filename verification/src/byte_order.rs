//! Big-endian integers on the wire, read and written through `byteorder`.

use byteorder::{BigEndian, ReadBytesExt, WriteBytesExt};
use std::io::Cursor;
use vstd::prelude::*;

verus! {

/// The number that a string of bytes denotes when the first byte is the most
/// significant one.
pub open spec fn be_value(bytes: Seq<u8>) -> nat
    decreases bytes.len(),
{
    if bytes.len() == 0 {
        0
    } else {
        be_value(bytes.drop_last()) * 256 + bytes.last() as nat
    }
}

/// The `len` low-order base-256 digits of `value`, most significant first.
pub open spec fn be_bytes(value: nat, len: nat) -> Seq<u8>
    decreases len,
{
    if len == 0 {
        Seq::empty()
    } else {
        be_bytes(value / 256, (len - 1) as nat).push((value % 256) as u8)
    }
}

/// 256 to the power `len`: the number of values that `len` bytes can denote.
pub open spec fn byte_range(len: nat) -> nat
    decreases len,
{
    if len == 0 {
        1
    } else {
        256 * byte_range((len - 1) as nat)
    }
}

/// `be_bytes` has the length asked for.
pub proof fn lemma_be_bytes_len(value: nat, len: nat)
    ensures
        be_bytes(value, len).len() == len,
    decreases len,
{
    if len > 0 {
        lemma_be_bytes_len(value / 256, (len - 1) as nat);
    }
}

/// A string of `n` bytes denotes a number below 256 to the `n`.
pub proof fn lemma_be_value_bound(bytes: Seq<u8>)
    ensures
        be_value(bytes) < byte_range(bytes.len()),
    decreases bytes.len(),
{
    if bytes.len() > 0 {
        lemma_be_value_bound(bytes.drop_last());
    }
}

/// Reading back what was written gives the number written, as long as the
/// number fits in the bytes.
pub proof fn lemma_be_value_of_bytes(value: nat, len: nat)
    requires
        value < byte_range(len),
    ensures
        be_value(be_bytes(value, len)) == value,
    decreases len,
{
    if len > 0 {
        let rest = be_bytes(value / 256, (len - 1) as nat);
        lemma_be_value_of_bytes(value / 256, (len - 1) as nat);
        assert(be_bytes(value, len).drop_last() =~= rest);
    }
}

/// Writing out what was read gives the bytes read.
pub proof fn lemma_be_bytes_of_value(bytes: Seq<u8>)
    ensures
        be_bytes(be_value(bytes), bytes.len()) == bytes,
    decreases bytes.len(),
{
    if bytes.len() > 0 {
        lemma_be_bytes_of_value(bytes.drop_last());
        assert(be_bytes(be_value(bytes), bytes.len()) =~= bytes);
    }
}

/// Eight bytes denote a number that fits in 64 bits, four bytes one that fits in 32.
pub proof fn lemma_byte_range_values()
    ensures
        byte_range(1) == 0x100,
        byte_range(4) == 0x1_0000_0000,
        byte_range(8) == 0x1_0000_0000_0000_0000,
{
    reveal_with_fuel(byte_range, 9);
}

/// The 64-bit word that eight bytes denote, most significant byte first.
pub open spec fn be_word(bytes: Seq<u8>) -> u64 {
    be_value(bytes) as u64
}

/// `ReadBytesExt::read_u8` on a cursor over `bytes` placed at `pos`: the byte
/// there, or nothing when the cursor is at or past the end.
#[verifier::external_body]
pub(crate) fn read_u8_at(bytes: &[u8], pos: u64) -> (r: Option<u8>)
    ensures
        pos < bytes@.len() ==> r == Some(bytes@[pos as int]),
        pos >= bytes@.len() ==> r is None,
{
    let mut rdr = Cursor::new(bytes);
    rdr.set_position(pos);
    rdr.read_u8().ok()
}

/// `ReadBytesExt::read_u64::<BigEndian>` on a cursor over `bytes` placed at
/// `pos`: the big-endian value of the next eight bytes, or nothing when fewer
/// than eight are left.
#[verifier::external_body]
pub(crate) fn read_u64_at(bytes: &[u8], pos: u64) -> (r: Option<u64>)
    ensures
        pos + 8 <= bytes@.len() ==> r == Some(be_word(bytes@.subrange(pos as int, pos + 8))),
        pos + 8 > bytes@.len() ==> r is None,
{
    let mut rdr = Cursor::new(bytes);
    rdr.set_position(pos);
    rdr.read_u64::<BigEndian>().ok()
}

/// `ReadBytesExt::read_u32::<BigEndian>` on a cursor over `bytes` placed at
/// `pos`: the big-endian value of the next four bytes, or nothing when fewer
/// than four are left.
#[verifier::external_body]
pub(crate) fn read_u32_at(bytes: &[u8], pos: u64) -> (r: Option<u32>)
    ensures
        pos + 4 <= bytes@.len() ==> r == Some(be_value(bytes@.subrange(pos as int, pos + 4)) as u32),
        pos + 4 > bytes@.len() ==> r is None,
{
    let mut rdr = Cursor::new(bytes);
    rdr.set_position(pos);
    rdr.read_u32::<BigEndian>().ok()
}

/// `ReadBytesExt::read_i32::<BigEndian>` on a cursor over `bytes` placed at
/// `pos`: the next four bytes as a big-endian number in two's complement, or
/// nothing when fewer than four are left.
#[verifier::external_body]
pub(crate) fn read_i32_at(bytes: &[u8], pos: u64) -> (r: Option<i32>)
    ensures
        pos + 4 <= bytes@.len() ==> r == Some(be_value(bytes@.subrange(pos as int, pos + 4)) as u32 as i32),
        pos + 4 > bytes@.len() ==> r is None,
{
    let mut rdr = Cursor::new(bytes);
    rdr.set_position(pos);
    rdr.read_i32::<BigEndian>().ok()
}

/// `ReadBytesExt::read_i64::<BigEndian>` on a cursor over `bytes` placed at
/// `pos`: the next eight bytes as a big-endian number in two's complement, or
/// nothing when fewer than eight are left.
#[verifier::external_body]
pub(crate) fn read_i64_at(bytes: &[u8], pos: u64) -> (r: Option<i64>)
    ensures
        pos + 8 <= bytes@.len() ==> r == Some(be_value(bytes@.subrange(pos as int, pos + 8)) as u64 as i64),
        pos + 8 > bytes@.len() ==> r is None,
{
    let mut rdr = Cursor::new(bytes);
    rdr.set_position(pos);
    rdr.read_i64::<BigEndian>().ok()
}

/// `WriteBytesExt::write_u8` on a vector: the byte is appended.
#[verifier::external_body]
pub(crate) fn write_u8(buffer: &mut Vec<u8>, n: u8)
    ensures
        final(buffer)@ == old(buffer)@.push(n),
{
    buffer.write_u8(n).unwrap();
}

/// `WriteBytesExt::write_u64::<BigEndian>` on a vector: the eight bytes of
/// `n` are appended, most significant first.
#[verifier::external_body]
pub(crate) fn write_u64(buffer: &mut Vec<u8>, n: u64)
    ensures
        final(buffer)@ == old(buffer)@ + be_bytes(n as nat, 8),
{
    buffer.write_u64::<BigEndian>(n).unwrap();
}

} // verus!
