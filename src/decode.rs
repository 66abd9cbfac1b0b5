//! Decoding of the fixed-layout sensor payload into integer measurements.
//!
//! The payload holds one format-tag byte, skipped, followed by the fields
//! temperature (16 bits), humidity (16), pressure (16), acceleration x, y, z
//! (16 each, two's complement), battery voltage (11), transmit power (5),
//! movement counter (8) and measurement sequence (16), read as one contiguous
//! big-endian bit stream.

use vstd::prelude::*;
use vstd::slice::slice_subrange;
use bitreader::BitReader;
use crate::bits::{bits_of, bits_value, bits_signed, unread_bits, lemma_bits_value_bound};

verus! {

/// Bytes that the fixed layout occupies: one tag byte and 136 bits of fields.
pub const FRAME_BYTES: usize = 18;

/// The measurements of one payload, kept as exact fixed-point integers.
#[derive(Clone, Copy, Debug, PartialEq, Eq, Structural)]
pub struct Measurements {
    /// Thousandths of a degree Celsius: the raw field times 5 (raw × 0.005 °C).
    pub temperature: u32,
    /// Ten-thousandths of a percent of relative humidity: the raw field times 25
    /// (raw × 0.0025 %RH).
    pub humidity: u32,
    /// Pascal: the raw field plus 50000.
    pub pressure: u32,
    /// Thousandths of g, signed.
    pub acceleration_x: i16,
    /// Thousandths of g, signed.
    pub acceleration_y: i16,
    /// Thousandths of g, signed.
    pub acceleration_z: i16,
    /// Millivolts: the raw 11-bit field plus 1600 (raw × 0.001 V + 1.6 V).
    pub battery_voltage: u16,
    /// dBm: the raw 5-bit field times 2, minus 40.
    pub tx_power: i8,
    /// Count of movements, wrapping at 256.
    pub movement_counter: u8,
    /// Sequence number of the measurement, wrapping at 65536.
    pub measurement_sequence: u16,
}

#[derive(Clone, Copy, Debug, PartialEq, Eq, Structural)]
pub enum DecodeError {
    /// The buffer is shorter than the fixed layout.
    Truncated,
}

/// The unsigned field of `width` bits that starts at bit `offset` of `raw`.
pub open spec fn field(raw: Seq<u8>, offset: int, width: int) -> nat {
    bits_value(bits_of(raw).subrange(offset, offset + width))
}

/// The two's-complement field of `width` bits that starts at bit `offset` of `raw`.
pub open spec fn signed_field(raw: Seq<u8>, offset: int, width: int) -> int {
    bits_signed(bits_of(raw).subrange(offset, offset + width))
}

/// What a payload of at least `FRAME_BYTES` bytes decodes to.
pub open spec fn decoded(raw: Seq<u8>) -> Measurements {
    Measurements {
        temperature: (5 * field(raw, 8, 16)) as u32,
        humidity: (25 * field(raw, 24, 16)) as u32,
        pressure: (field(raw, 40, 16) + 50000) as u32,
        acceleration_x: signed_field(raw, 56, 16) as i16,
        acceleration_y: signed_field(raw, 72, 16) as i16,
        acceleration_z: signed_field(raw, 88, 16) as i16,
        battery_voltage: (field(raw, 104, 11) + 1600) as u16,
        tx_power: (2 * field(raw, 115, 5) - 40) as i8,
        movement_counter: field(raw, 120, 8) as u8,
        measurement_sequence: field(raw, 128, 16) as u16,
    }
}

proof fn lemma_prefix_bits(raw: Seq<u8>, n: int)
    requires
        0 <= n <= raw.len(),
    ensures
        bits_of(raw.subrange(0, n)) == bits_of(raw).subrange(0, 8 * n),
{
    assert(bits_of(raw.subrange(0, n)) =~= bits_of(raw).subrange(0, 8 * n));
}

proof fn lemma_window(all: Seq<bool>, raw: Seq<u8>, offset: int, width: int)
    requires
        all.len() <= raw.len() * 8,
        all == bits_of(raw).subrange(0, all.len() as int),
        0 <= offset,
        0 <= width,
        offset + width <= all.len(),
    ensures
        all.skip(offset).take(width) == bits_of(raw).subrange(offset, offset + width),
        all.skip(offset).skip(width) == all.skip(offset + width),
{
    assert(all.skip(offset).take(width) =~= bits_of(raw).subrange(offset, offset + width));
    assert(all.skip(offset).skip(width) =~= all.skip(offset + width));
}

/// Decodes one payload. The result depends on the bytes alone; a buffer shorter than
/// the layout gives `Truncated` and nothing else.
pub fn decode(raw: &[u8]) -> (r: Result<Measurements, DecodeError>)
    ensures
        raw@.len() >= FRAME_BYTES ==> r == Ok::<Measurements, DecodeError>(decoded(raw@)),
        raw@.len() < FRAME_BYTES ==> r == Err::<Measurements, DecodeError>(DecodeError::Truncated),
{
    let len: usize = if raw.len() < FRAME_BYTES { raw.len() } else { FRAME_BYTES };
    let frame = slice_subrange(raw, 0, len);
    let mut reader = BitReader::new(frame);
    let ghost all = bits_of(frame@);
    proof {
        lemma_prefix_bits(raw@, len as int);
        assert(all.skip(0) =~= all);
    }
    if reader.skip(8).is_err() {
        return Err(DecodeError::Truncated);
    }
    proof { lemma_window(all, raw@, 0, 8); }
    let temperature = match reader.read_u16(16) {
        Ok(v) => v,
        Err(_) => { return Err(DecodeError::Truncated); },
    };
    proof { lemma_window(all, raw@, 8, 16); }
    let humidity = match reader.read_u16(16) {
        Ok(v) => v,
        Err(_) => { return Err(DecodeError::Truncated); },
    };
    proof { lemma_window(all, raw@, 24, 16); }
    let pressure = match reader.read_u16(16) {
        Ok(v) => v,
        Err(_) => { return Err(DecodeError::Truncated); },
    };
    proof { lemma_window(all, raw@, 40, 16); }
    let acceleration_x = match reader.read_i16(16) {
        Ok(v) => v,
        Err(_) => { return Err(DecodeError::Truncated); },
    };
    proof { lemma_window(all, raw@, 56, 16); }
    let acceleration_y = match reader.read_i16(16) {
        Ok(v) => v,
        Err(_) => { return Err(DecodeError::Truncated); },
    };
    proof { lemma_window(all, raw@, 72, 16); }
    let acceleration_z = match reader.read_i16(16) {
        Ok(v) => v,
        Err(_) => { return Err(DecodeError::Truncated); },
    };
    proof { lemma_window(all, raw@, 88, 16); }
    let voltage = match reader.read_u16(11) {
        Ok(v) => v,
        Err(_) => { return Err(DecodeError::Truncated); },
    };
    proof { lemma_window(all, raw@, 104, 11); }
    let power = match reader.read_u8(5) {
        Ok(v) => v,
        Err(_) => { return Err(DecodeError::Truncated); },
    };
    proof { lemma_window(all, raw@, 115, 5); }
    let movement_counter = match reader.read_u8(8) {
        Ok(v) => v,
        Err(_) => { return Err(DecodeError::Truncated); },
    };
    proof { lemma_window(all, raw@, 120, 8); }
    let measurement_sequence = match reader.read_u16(16) {
        Ok(v) => v,
        Err(_) => { return Err(DecodeError::Truncated); },
    };
    proof {
        lemma_window(all, raw@, 128, 16);
        lemma_bits_value_bound(bits_of(raw@).subrange(104, 115));
        lemma_bits_value_bound(bits_of(raw@).subrange(115, 120));
        vstd::arithmetic::power2::lemma2_to64();
    }
    let m = Measurements {
        temperature: temperature as u32 * 5,
        humidity: humidity as u32 * 25,
        pressure: pressure as u32 + 50000,
        acceleration_x,
        acceleration_y,
        acceleration_z,
        battery_voltage: voltage + 1600,
        tx_power: (power * 2) as i8 - 40,
        movement_counter,
        measurement_sequence,
    };
    Ok(m)
}

proof fn lemma_same_window(a: Seq<u8>, b: Seq<u8>, offset: int, width: int)
    requires
        a.len() >= FRAME_BYTES,
        b.len() >= FRAME_BYTES,
        a.subrange(0, FRAME_BYTES as int) == b.subrange(0, FRAME_BYTES as int),
        0 <= offset,
        0 <= width,
        offset + width <= 8 * FRAME_BYTES,
    ensures
        bits_of(a).subrange(offset, offset + width) == bits_of(b).subrange(offset, offset + width),
{
    assert forall|k: int| 0 <= k < FRAME_BYTES implies a[k] == b[k] by {
        assert(a[k] == a.subrange(0, FRAME_BYTES as int)[k]);
        assert(b[k] == b.subrange(0, FRAME_BYTES as int)[k]);
    }
    assert(bits_of(a).subrange(offset, offset + width) =~= bits_of(b).subrange(offset, offset + width));
}

/// Decoding is deterministic and reads nothing past the layout: two buffers that agree
/// on their first `FRAME_BYTES` bytes decode to the same measurements.
pub proof fn decode_depends_on_frame_only(a: Seq<u8>, b: Seq<u8>)
    requires
        a.len() >= FRAME_BYTES,
        b.len() >= FRAME_BYTES,
        a.subrange(0, FRAME_BYTES as int) == b.subrange(0, FRAME_BYTES as int),
    ensures
        decoded(a) == decoded(b),
{
    lemma_same_window(a, b, 8, 16);
    lemma_same_window(a, b, 24, 16);
    lemma_same_window(a, b, 40, 16);
    lemma_same_window(a, b, 56, 16);
    lemma_same_window(a, b, 72, 16);
    lemma_same_window(a, b, 88, 16);
    lemma_same_window(a, b, 104, 11);
    lemma_same_window(a, b, 115, 5);
    lemma_same_window(a, b, 120, 8);
    lemma_same_window(a, b, 128, 16);
}

} // verus!
