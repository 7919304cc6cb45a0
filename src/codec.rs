use vstd::prelude::*;

verus! {

/// The fields of this device's registers whose raw bits can fall outside
/// their closed set of values.
#[derive(Clone, Copy, Debug, PartialEq, Eq, Structural)]
pub enum Field {
    Gain,
    IntegrationTime,
    InterruptThresholdCount,
    PowerSavingMode,
    SlaveAddress,
}

/// Why a byte sequence could not be turned into a register record.
#[derive(Clone, Copy, Debug, PartialEq, Eq, Structural)]
pub enum CodecError {
    /// The bits of an enum field hold a value outside its declared set.
    UnknownVariant(Field, u8),
    /// The byte sequence does not have the register's width.
    WidthMismatch { expected: usize, actual: usize },
}

/// Which operations a register allows.
#[derive(Clone, Copy, Debug, PartialEq, Eq, Structural)]
pub enum Access {
    Read,
    Write,
    ReadWrite,
}

impl Access {
    pub open spec fn spec_readable(self) -> bool {
        self is Read || self is ReadWrite
    }

    pub open spec fn spec_writable(self) -> bool {
        self is Write || self is ReadWrite
    }

    pub fn readable(&self) -> (r: bool)
        ensures
            r == self.spec_readable(),
    {
        match self {
            Access::Read => true,
            Access::Write => false,
            Access::ReadWrite => true,
        }
    }

    pub fn writable(&self) -> (r: bool)
        ensures
            r == self.spec_writable(),
    {
        match self {
            Access::Read => false,
            Access::Write => true,
            Access::ReadWrite => true,
        }
    }
}

/// The 16-bit word that two bytes form, the first byte most significant.
pub open spec fn word_of(b0: u8, b1: u8) -> u16 {
    ((b0 as u16) << 8u16) | (b1 as u16)
}

/// The two bytes of a 16-bit word, most significant first.
pub open spec fn be_bytes(w: u16) -> Seq<u8> {
    seq![(w >> 8u16) as u8, (w & 0xffu16) as u8]
}

/// The bytes `b` with every bit that is set in `mask` cleared.
pub open spec fn clear_bits(b: Seq<u8>, mask: Seq<u8>) -> Seq<u8> {
    Seq::new(b.len(), |i: int| b[i] & !mask[i])
}

/// Whether no bit set in `mask` is set in `b`.
pub open spec fn bits_clear(b: Seq<u8>, mask: Seq<u8>) -> bool {
    forall|i: int| 0 <= i < b.len() ==> #[trigger] (b[i] & mask[i]) == 0
}

pub proof fn lemma_word_bytes(w: u16)
    ensures
        word_of(be_bytes(w)[0], be_bytes(w)[1]) == w,
{
    assert((((((w >> 8u16) as u8) as u16) << 8u16) | (((w & 0xffu16) as u8) as u16)) == w)
        by (bit_vector);
}

pub proof fn lemma_clear_word(b0: u8, b1: u8, m: u16)
    ensures
        word_of(clear_bits(seq![b0, b1], be_bytes(m))[0], clear_bits(seq![b0, b1], be_bytes(m))[1])
            == word_of(b0, b1) & !m,
{
    let c = clear_bits(seq![b0, b1], be_bytes(m));
    assert(c[0] == b0 & !((m >> 8u16) as u8));
    assert(c[1] == b1 & !((m & 0xffu16) as u8));
    assert(((((b0 & !((m >> 8u16) as u8)) as u16) << 8u16) | ((b1 & !((m & 0xffu16) as u8)) as u16))
        == ((((b0 as u16) << 8u16) | (b1 as u16)) & !m)) by (bit_vector);
}

pub proof fn lemma_word_clear(w: u16, m: u16)
    requires
        w & m == 0,
    ensures
        bits_clear(be_bytes(w), be_bytes(m)),
{
    assert(((w >> 8u16) as u8) & ((m >> 8u16) as u8) == 0) by (bit_vector)
        requires
            w & m == 0,
    ;
    assert(((w & 0xffu16) as u8) & ((m & 0xffu16) as u8) == 0) by (bit_vector)
        requires
            w & m == 0,
    ;
    let b = be_bytes(w);
    let k = be_bytes(m);
    assert forall|i: int| 0 <= i < b.len() implies #[trigger] (b[i] & k[i]) == 0 by {
        if i == 0 {
        } else {
        }
    }
}

pub proof fn lemma_bytes_clear(b0: u8, b1: u8, m: u16)
    ensures
        be_bytes(word_of(b0, b1) & !m) == clear_bits(seq![b0, b1], be_bytes(m)),
{
    let w = word_of(b0, b1);
    assert(((w & !m) >> 8u16) as u8 == b0 & !((m >> 8u16) as u8) && ((w & !m) & 0xffu16) as u8
        == b1 & !((m & 0xffu16) as u8)) by (bit_vector)
        requires
            w == ((b0 as u16) << 8u16) | (b1 as u16),
    ;
    assert(be_bytes(w & !m) =~= clear_bits(seq![b0, b1], be_bytes(m)));
}

/// A bit as a 16-bit number is 0 or 1.
pub proof fn lemma_bit(w: u16, k: u16)
    requires
        k < 16,
    ensures
        (w >> k) & 1u16 == 0u16 || (w >> k) & 1u16 == 1u16,
{
    assert((w >> k) & 1u16 == 0u16 || (w >> k) & 1u16 == 1u16) by (bit_vector);
}

/// Splits a 16-bit word into its two bytes, most significant first.
pub fn word_to_bytes(w: u16) -> (r: Vec<u8>)
    ensures
        r@ == be_bytes(w),
{
    let mut r: Vec<u8> = Vec::new();
    r.push((w >> 8u16) as u8);
    r.push((w & 0xffu16) as u8);
    assert(r@ =~= be_bytes(w));
    r
}

/// A register: a record packed into a fixed number of bytes that lives at an
/// address on the device and allows some operations.
pub trait Register: Sized {
    /// The register's address on the device.
    spec fn spec_address() -> u8;

    spec fn spec_access() -> Access;

    /// The number of bytes on the wire.
    spec fn spec_width() -> nat;

    /// One mask byte for each wire byte: the reserved bits are set.
    spec fn spec_reserved() -> Seq<u8>;

    /// The record that the register holds after a reset of the device.
    spec fn spec_default() -> Self;

    /// The bytes of a record.
    spec fn spec_encode(self) -> Seq<u8>;

    /// The record that bytes stand for, or why there is none.
    spec fn spec_decode(bytes: Seq<u8>) -> Result<Self, CodecError>;

    fn address() -> (r: u8)
        ensures
            r == Self::spec_address(),
    ;

    fn access() -> (r: Access)
        ensures
            r == Self::spec_access(),
    ;

    fn width() -> (r: usize)
        ensures
            r == Self::spec_width(),
    ;

    fn default_record() -> (r: Self)
        ensures
            r == Self::spec_default(),
    ;

    fn encode(&self) -> (r: Vec<u8>)
        ensures
            r@ == self.spec_encode(),
    ;

    fn decode(bytes: &[u8]) -> (r: Result<Self, CodecError>)
        ensures
            r == Self::spec_decode(bytes@),
    ;

    /// Every record is encoded in exactly the register's width.
    proof fn lemma_encode_width(r: Self)
        ensures
            r.spec_encode().len() == Self::spec_width(),
            Self::spec_reserved().len() == Self::spec_width(),
    ;

    /// Decoding the bytes of a record gives the record back.
    proof fn lemma_round_trip(r: Self)
        ensures
            Self::spec_decode(r.spec_encode()) == Ok::<Self, CodecError>(r),
    ;

    /// Reserved bits are written as zero.
    proof fn lemma_reserved_zero(r: Self)
        ensures
            bits_clear(r.spec_encode(), Self::spec_reserved()),
    ;

    /// Reserved bits do not change what bytes decode to.
    proof fn lemma_reserved_ignored(b: Seq<u8>)
        requires
            b.len() == Self::spec_width(),
        ensures
            Self::spec_decode(b) == Self::spec_decode(clear_bits(b, Self::spec_reserved())),
    ;

    /// Bytes that decode give back, once re-encoded, themselves with the
    /// reserved bits cleared.
    proof fn lemma_decode_encode(b: Seq<u8>)
        requires
            b.len() == Self::spec_width(),
            Self::spec_decode(b) is Ok,
        ensures
            Self::spec_decode(b)->Ok_0.spec_encode() == clear_bits(b, Self::spec_reserved()),
    ;

    /// Bytes of another length are refused for their length.
    proof fn lemma_width_mismatch(b: Seq<u8>)
        requires
            b.len() != Self::spec_width(),
        ensures
            Self::spec_decode(b) == Err::<Self, CodecError>(
                CodecError::WidthMismatch { expected: Self::spec_width() as usize, actual: b.len() as usize },
            ),
    ;
}

} // verus!
