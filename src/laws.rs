//! Properties that hold of every register of this device.
use crate::codec::{bits_clear, clear_bits, word_of, CodecError, Field, Register};
use crate::registers::{AddressOption, Config, DeviceId, Gain, IntegrationTime};
use vstd::prelude::*;

verus! {

/// Decoding the bytes of any record gives that record back.
pub proof fn round_trip<R: Register>(record: R)
    ensures
        R::spec_decode(record.spec_encode()) == Ok::<R, CodecError>(record),
{
    R::lemma_round_trip(record);
}

/// The default record of a register is encoded in exactly the register's
/// width, as is every other record.
pub proof fn default_has_width<R: Register>()
    ensures
        R::spec_default().spec_encode().len() == R::spec_width(),
{
    R::lemma_encode_width(R::spec_default());
}

/// Reserved bits never change what bytes of the register's width decode to;
/// bytes that decode, once re-encoded, come back with their reserved bits
/// cleared; and every encoded record has them cleared.
pub proof fn reserved_bits<R: Register>(bytes: Seq<u8>, record: R)
    requires
        bytes.len() == R::spec_width(),
    ensures
        R::spec_decode(bytes) == R::spec_decode(clear_bits(bytes, R::spec_reserved())),
        R::spec_decode(bytes) is Ok ==> R::spec_decode(bytes)->Ok_0.spec_encode() == clear_bits(
            bytes,
            R::spec_reserved(),
        ),
        bits_clear(record.spec_encode(), R::spec_reserved()),
{
    R::lemma_reserved_ignored(bytes);
    if R::spec_decode(bytes) is Ok {
        R::lemma_decode_encode(bytes);
    }
    R::lemma_reserved_zero(record);
}

/// Bytes of the wrong length are refused with their length, whatever they hold.
pub proof fn wrong_width<R: Register>(bytes: Seq<u8>)
    requires
        bytes.len() != R::spec_width(),
    ensures
        R::spec_decode(bytes) == Err::<R, CodecError>(
            CodecError::WidthMismatch { expected: R::spec_width() as usize, actual: bytes.len() as usize },
        ),
{
    R::lemma_width_mismatch(bytes);
}

/// Configuration bytes whose integration time bits hold none of its values
/// are refused with those bits, not read as some default.
pub proof fn unknown_integration_time(bytes: Seq<u8>)
    requires
        bytes.len() == 2,
        IntegrationTime::spec_from_bits(((word_of(bytes[0], bytes[1]) >> 6u16) & 15u16) as u8)
            is None,
    ensures
        Config::spec_decode(bytes) == Err::<Config, CodecError>(
            CodecError::UnknownVariant(
                Field::IntegrationTime,
                ((word_of(bytes[0], bytes[1]) >> 6u16) & 15u16) as u8,
            ),
        ),
{
    let w = word_of(bytes[0], bytes[1]);
    let g = ((w >> 11u16) & 3u16) as u8;
    assert(g < 4u8) by (bit_vector)
        requires
            g == ((w >> 11u16) & 3u16) as u8,
    ;
    assert(Gain::spec_from_bits(g) is Some);
}

/// A device ID whose first byte is no known address option is refused with
/// that byte, not read as some default.
pub proof fn unknown_address_option(bytes: Seq<u8>)
    requires
        bytes.len() == 2,
        AddressOption::spec_from_bits(bytes[0]) is None,
    ensures
        DeviceId::spec_decode(bytes) == Err::<DeviceId, CodecError>(
            CodecError::UnknownVariant(Field::SlaveAddress, bytes[0]),
        ),
{
}

} // verus!
