//! Bit-level reading of byte buffers, through the `bitreader` crate.

use vstd::prelude::*;
use vstd::arithmetic::power2::pow2;
use bitreader::{BitReader, BitReaderError};

verus! {

/// The bits of a byte buffer, most significant bit of each byte first.
pub open spec fn bits_of(bytes: Seq<u8>) -> Seq<bool> {
    Seq::new(
        (bytes.len() * 8) as nat,
        |i: int| (bytes[i / 8] >> ((7 - i % 8) as u8)) & 1u8 == 1u8,
    )
}

/// The unsigned value of a bit string read most significant bit first.
pub open spec fn bits_value(s: Seq<bool>) -> nat
    decreases s.len(),
{
    if s.len() == 0 {
        0
    } else {
        2 * bits_value(s.drop_last()) + if s.last() { 1nat } else { 0nat }
    }
}

/// The two's-complement value of a bit string read most significant bit first.
pub open spec fn bits_signed(s: Seq<bool>) -> int {
    if s.len() > 0 && s[0] {
        bits_value(s) - pow2(s.len())
    } else {
        bits_value(s) as int
    }
}

pub proof fn lemma_bits_value_bound(s: Seq<bool>)
    ensures
        bits_value(s) < pow2(s.len()),
    decreases s.len(),
{
    if s.len() > 0 {
        lemma_bits_value_bound(s.drop_last());
        vstd::arithmetic::power2::lemma_pow2_unfold(s.len());
    } else {
        vstd::arithmetic::power2::lemma2_to64();
    }
}

/// The bits that a reader has not yet consumed.
pub uninterp spec fn unread_bits(r: BitReader) -> Seq<bool>;

#[verifier::external_type_specification]
#[verifier::external_body]
pub struct ExBitReader<'a>(BitReader<'a>);

#[verifier::external_type_specification]
#[verifier::external_body]
pub struct ExBitReaderError(BitReaderError);

/// Relies on `BitReader::new`: a fresh reader stands before the first bit of the buffer.
/// The length bound keeps the reader's bit positions, and the sums it forms from them,
/// within `u64`.
pub assume_specification<'a>[ BitReader::<'a>::new ](bytes: &'a [u8]) -> (r: BitReader<'a>)
    requires
        bytes@.len() <= u32::MAX,
    ensures
        unread_bits(r) == bits_of(bytes@),
;

/// Relies on `BitReader::skip`: it steps over `bit_count` bits, or fails and leaves the
/// reader where it was when fewer remain.
pub assume_specification<'a>[ BitReader::<'a>::skip ](
    reader: &mut BitReader<'a>,
    bit_count: u64,
) -> (r: Result<(), BitReaderError>)
    requires
        bit_count <= u32::MAX,
    ensures
        bit_count <= unread_bits(*old(reader)).len() ==> r is Ok && unread_bits(*final(reader))
            == unread_bits(*old(reader)).skip(bit_count as int),
        bit_count > unread_bits(*old(reader)).len() ==> r is Err && unread_bits(*final(reader))
            == unread_bits(*old(reader)),
;

/// Relies on `BitReader::read_u8`: the next `bit_count` bits as an unsigned number.
pub assume_specification<'a>[ BitReader::<'a>::read_u8 ](
    reader: &mut BitReader<'a>,
    bit_count: u8,
) -> (r: Result<u8, bitreader::BitReaderError>)
    requires
        bit_count <= 8,
    ensures
        ({
            let before = unread_bits(*old(reader));
            &&& bit_count <= before.len() ==> r is Ok && r->Ok_0 as nat == bits_value(before.take(bit_count as int))
                && unread_bits(*final(reader)) == before.skip(bit_count as int)
            &&& bit_count > before.len() ==> r is Err && unread_bits(*final(reader)) == before
        }),
;

/// Relies on `BitReader::read_u16`: the next `bit_count` bits as an unsigned number.
pub assume_specification<'a>[ BitReader::<'a>::read_u16 ](
    reader: &mut BitReader<'a>,
    bit_count: u8,
) -> (r: Result<u16, bitreader::BitReaderError>)
    requires
        bit_count <= 16,
    ensures
        ({
            let before = unread_bits(*old(reader));
            &&& bit_count <= before.len() ==> r is Ok && r->Ok_0 as nat == bits_value(before.take(bit_count as int))
                && unread_bits(*final(reader)) == before.skip(bit_count as int)
            &&& bit_count > before.len() ==> r is Err && unread_bits(*final(reader)) == before
        }),
;

/// Relies on `BitReader::read_i16`: the next `bit_count` bits as a two's-complement number.
pub assume_specification<'a>[ BitReader::<'a>::read_i16 ](
    reader: &mut BitReader<'a>,
    bit_count: u8,
) -> (r: Result<i16, bitreader::BitReaderError>)
    requires
        bit_count <= 16,
    ensures
        ({
            let before = unread_bits(*old(reader));
            &&& bit_count <= before.len() ==> r is Ok && r->Ok_0 as int == bits_signed(before.take(bit_count as int))
                && unread_bits(*final(reader)) == before.skip(bit_count as int)
            &&& bit_count > before.len() ==> r is Err && unread_bits(*final(reader)) == before
        }),
;

} // verus!
