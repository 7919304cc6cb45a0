use crate::codec::{
    be_bytes, bits_clear, clear_bits, lemma_bit, lemma_bytes_clear, lemma_clear_word, lemma_word_bytes, lemma_word_clear,
    word_of, word_to_bytes, Access, CodecError, Field, Register,
};
use vstd::prelude::*;

verus! {

/// Gain selection of the ADC.
#[allow(non_camel_case_types)]
#[derive(Clone, Copy, Debug, PartialEq, Eq, Structural)]
pub enum Gain {
    /// x1 gain
    X_1,
    /// x2 gain
    X_2,
    /// x(1/8) gain
    X_1_8,
    /// x(1/4) gain
    X_1_4,
}

impl Gain {
    /// The raw bits that stand for this value.
    pub open spec fn spec_bits(self) -> u8 {
        match self {
            Gain::X_1 => 0b00u8,
            Gain::X_2 => 0b01u8,
            Gain::X_1_8 => 0b10u8,
            Gain::X_1_4 => 0b11u8,
        }
    }

    /// The value that raw bits stand for, if any.
    pub open spec fn spec_from_bits(b: u8) -> Option<Gain> {
        if b == 0b00u8 {
            Some(Gain::X_1)
        } else if b == 0b01u8 {
            Some(Gain::X_2)
        } else if b == 0b10u8 {
            Some(Gain::X_1_8)
        } else if b == 0b11u8 {
            Some(Gain::X_1_4)
        } else {
            None
        }
    }

    pub fn bits(&self) -> (r: u8)
        ensures
            r == self.spec_bits(),
    {
        match self {
            Gain::X_1 => 0b00,
            Gain::X_2 => 0b01,
            Gain::X_1_8 => 0b10,
            Gain::X_1_4 => 0b11,
        }
    }

    pub fn from_bits(b: u8) -> (r: Option<Gain>)
        ensures
            r == Self::spec_from_bits(b),
    {
        if b == 0b00 {
            Some(Gain::X_1)
        } else if b == 0b01 {
            Some(Gain::X_2)
        } else if b == 0b10 {
            Some(Gain::X_1_8)
        } else if b == 0b11 {
            Some(Gain::X_1_4)
        } else {
            None
        }
    }

    pub proof fn lemma_bits(self)
        ensures
            self.spec_bits() < 4u8,
            Self::spec_from_bits(self.spec_bits()) == Some(self),
    {
    }
}

/// Integration time of the ADC.
#[allow(non_camel_case_types)]
#[derive(Clone, Copy, Debug, PartialEq, Eq, Structural)]
pub enum IntegrationTime {
    /// 25 ms
    T_25,
    /// 50 ms
    T_50,
    /// 100 ms
    T_100,
    /// 200 ms
    T_200,
    /// 400 ms
    T_400,
    /// 800 ms
    T_800,
}

impl IntegrationTime {
    /// The raw bits that stand for this value.
    pub open spec fn spec_bits(self) -> u8 {
        match self {
            IntegrationTime::T_25 => 0b1100u8,
            IntegrationTime::T_50 => 0b1000u8,
            IntegrationTime::T_100 => 0b0000u8,
            IntegrationTime::T_200 => 0b0001u8,
            IntegrationTime::T_400 => 0b0010u8,
            IntegrationTime::T_800 => 0b0011u8,
        }
    }

    /// The value that raw bits stand for, if any.
    pub open spec fn spec_from_bits(b: u8) -> Option<IntegrationTime> {
        if b == 0b1100u8 {
            Some(IntegrationTime::T_25)
        } else if b == 0b1000u8 {
            Some(IntegrationTime::T_50)
        } else if b == 0b0000u8 {
            Some(IntegrationTime::T_100)
        } else if b == 0b0001u8 {
            Some(IntegrationTime::T_200)
        } else if b == 0b0010u8 {
            Some(IntegrationTime::T_400)
        } else if b == 0b0011u8 {
            Some(IntegrationTime::T_800)
        } else {
            None
        }
    }

    pub fn bits(&self) -> (r: u8)
        ensures
            r == self.spec_bits(),
    {
        match self {
            IntegrationTime::T_25 => 0b1100,
            IntegrationTime::T_50 => 0b1000,
            IntegrationTime::T_100 => 0b0000,
            IntegrationTime::T_200 => 0b0001,
            IntegrationTime::T_400 => 0b0010,
            IntegrationTime::T_800 => 0b0011,
        }
    }

    pub fn from_bits(b: u8) -> (r: Option<IntegrationTime>)
        ensures
            r == Self::spec_from_bits(b),
    {
        if b == 0b1100 {
            Some(IntegrationTime::T_25)
        } else if b == 0b1000 {
            Some(IntegrationTime::T_50)
        } else if b == 0b0000 {
            Some(IntegrationTime::T_100)
        } else if b == 0b0001 {
            Some(IntegrationTime::T_200)
        } else if b == 0b0010 {
            Some(IntegrationTime::T_400)
        } else if b == 0b0011 {
            Some(IntegrationTime::T_800)
        } else {
            None
        }
    }

    pub proof fn lemma_bits(self)
        ensures
            self.spec_bits() < 16u8,
            Self::spec_from_bits(self.spec_bits()) == Some(self),
    {
    }
}

/// Persistence protection number.
#[derive(Clone, Copy, Debug, PartialEq, Eq, Structural)]
pub enum InterruptThresholdCount {
    One,
    Two,
    Four,
    Eight,
}

impl InterruptThresholdCount {
    /// The raw bits that stand for this value.
    pub open spec fn spec_bits(self) -> u8 {
        match self {
            InterruptThresholdCount::One => 0b00u8,
            InterruptThresholdCount::Two => 0b01u8,
            InterruptThresholdCount::Four => 0b10u8,
            InterruptThresholdCount::Eight => 0b11u8,
        }
    }

    /// The value that raw bits stand for, if any.
    pub open spec fn spec_from_bits(b: u8) -> Option<InterruptThresholdCount> {
        if b == 0b00u8 {
            Some(InterruptThresholdCount::One)
        } else if b == 0b01u8 {
            Some(InterruptThresholdCount::Two)
        } else if b == 0b10u8 {
            Some(InterruptThresholdCount::Four)
        } else if b == 0b11u8 {
            Some(InterruptThresholdCount::Eight)
        } else {
            None
        }
    }

    pub fn bits(&self) -> (r: u8)
        ensures
            r == self.spec_bits(),
    {
        match self {
            InterruptThresholdCount::One => 0b00,
            InterruptThresholdCount::Two => 0b01,
            InterruptThresholdCount::Four => 0b10,
            InterruptThresholdCount::Eight => 0b11,
        }
    }

    pub fn from_bits(b: u8) -> (r: Option<InterruptThresholdCount>)
        ensures
            r == Self::spec_from_bits(b),
    {
        if b == 0b00 {
            Some(InterruptThresholdCount::One)
        } else if b == 0b01 {
            Some(InterruptThresholdCount::Two)
        } else if b == 0b10 {
            Some(InterruptThresholdCount::Four)
        } else if b == 0b11 {
            Some(InterruptThresholdCount::Eight)
        } else {
            None
        }
    }

    pub proof fn lemma_bits(self)
        ensures
            self.spec_bits() < 4u8,
            Self::spec_from_bits(self.spec_bits()) == Some(self),
    {
    }
}

/// Power saving mode.
#[derive(Clone, Copy, Debug, PartialEq, Eq, Structural)]
pub enum PowerSavingMode {
    Mode1,
    Mode2,
    Mode3,
    Mode4,
}

impl PowerSavingMode {
    /// The raw bits that stand for this value.
    pub open spec fn spec_bits(self) -> u8 {
        match self {
            PowerSavingMode::Mode1 => 0b00u8,
            PowerSavingMode::Mode2 => 0b01u8,
            PowerSavingMode::Mode3 => 0b10u8,
            PowerSavingMode::Mode4 => 0b11u8,
        }
    }

    /// The value that raw bits stand for, if any.
    pub open spec fn spec_from_bits(b: u8) -> Option<PowerSavingMode> {
        if b == 0b00u8 {
            Some(PowerSavingMode::Mode1)
        } else if b == 0b01u8 {
            Some(PowerSavingMode::Mode2)
        } else if b == 0b10u8 {
            Some(PowerSavingMode::Mode3)
        } else if b == 0b11u8 {
            Some(PowerSavingMode::Mode4)
        } else {
            None
        }
    }

    pub fn bits(&self) -> (r: u8)
        ensures
            r == self.spec_bits(),
    {
        match self {
            PowerSavingMode::Mode1 => 0b00,
            PowerSavingMode::Mode2 => 0b01,
            PowerSavingMode::Mode3 => 0b10,
            PowerSavingMode::Mode4 => 0b11,
        }
    }

    pub fn from_bits(b: u8) -> (r: Option<PowerSavingMode>)
        ensures
            r == Self::spec_from_bits(b),
    {
        if b == 0b00 {
            Some(PowerSavingMode::Mode1)
        } else if b == 0b01 {
            Some(PowerSavingMode::Mode2)
        } else if b == 0b10 {
            Some(PowerSavingMode::Mode3)
        } else if b == 0b11 {
            Some(PowerSavingMode::Mode4)
        } else {
            None
        }
    }

    pub proof fn lemma_bits(self)
        ensures
            self.spec_bits() < 4u8,
            Self::spec_from_bits(self.spec_bits()) == Some(self),
    {
    }
}

/// The device's I2C address as its ID register reports it (7-bit 0x10 or 0x48).
#[derive(Clone, Copy, Debug, PartialEq, Eq, Structural)]
pub enum AddressOption {
    X10,
    X48,
}

impl AddressOption {
    /// The raw bits that stand for this value.
    pub open spec fn spec_bits(self) -> u8 {
        match self {
            AddressOption::X10 => 0xC4u8,
            AddressOption::X48 => 0xC8u8,
        }
    }

    /// The value that raw bits stand for, if any.
    pub open spec fn spec_from_bits(b: u8) -> Option<AddressOption> {
        if b == 0xC4u8 {
            Some(AddressOption::X10)
        } else if b == 0xC8u8 {
            Some(AddressOption::X48)
        } else {
            None
        }
    }

    pub fn bits(&self) -> (r: u8)
        ensures
            r == self.spec_bits(),
    {
        match self {
            AddressOption::X10 => 0xC4,
            AddressOption::X48 => 0xC8,
        }
    }

    pub fn from_bits(b: u8) -> (r: Option<AddressOption>)
        ensures
            r == Self::spec_from_bits(b),
    {
        if b == 0xC4 {
            Some(AddressOption::X10)
        } else if b == 0xC8 {
            Some(AddressOption::X48)
        } else {
            None
        }
    }

    pub proof fn lemma_bits(self)
        ensures
            Self::spec_from_bits(self.spec_bits()) == Some(self),
    {
    }
}

impl IntegrationTime {
    /// The integration time in milliseconds.
    pub open spec fn spec_ms(self) -> u32 {
        match self {
            IntegrationTime::T_25 => 25,
            IntegrationTime::T_50 => 50,
            IntegrationTime::T_100 => 100,
            IntegrationTime::T_200 => 200,
            IntegrationTime::T_400 => 400,
            IntegrationTime::T_800 => 800,
        }
    }

    pub fn ms(&self) -> (r: u32)
        ensures
            r == self.spec_ms(),
    {
        match self {
            IntegrationTime::T_25 => 25,
            IntegrationTime::T_50 => 50,
            IntegrationTime::T_100 => 100,
            IntegrationTime::T_200 => 200,
            IntegrationTime::T_400 => 400,
            IntegrationTime::T_800 => 800,
        }
    }
}

/// A flag as a one-bit number.
pub open spec fn bit_of(b: bool) -> u16 {
    if b {
        1u16
    } else {
        0u16
    }
}

/// The ALS configuration register (address 0x00, read-write).
///
/// Bits, most significant first: 3 reserved, gain (2), 1 reserved,
/// integration time (4), interrupt threshold count (2), 2 reserved,
/// interrupt enable, shutdown.
#[derive(Clone, Copy, Debug, PartialEq, Eq, Structural)]
pub struct Config {
    /// ALS gain configuration.
    pub gain: Gain,
    /// ALS integration time configuration.
    pub integration_time: IntegrationTime,
    /// Number of measurements out of the threshold window before an interrupt.
    pub interrupt_threshold_count: InterruptThresholdCount,
    /// Interrupt enable setting.
    pub interrupt_enable: bool,
    /// Shutdown setting.
    pub shutdown: bool,
}

pub const CONFIG_RESERVED: u16 = 0xE40C;

impl Config {
    pub open spec fn spec_word(self) -> u16 {
        ((self.gain.spec_bits() as u16) << 11u16) | ((self.integration_time.spec_bits() as u16)
            << 6u16) | ((self.interrupt_threshold_count.spec_bits() as u16) << 4u16) | (bit_of(
            self.interrupt_enable,
        ) << 1u16) | bit_of(self.shutdown)
    }

    pub open spec fn spec_from_word(w: u16) -> Result<Config, CodecError> {
        let g = ((w >> 11u16) & 3u16) as u8;
        let t = ((w >> 6u16) & 15u16) as u8;
        let c = ((w >> 4u16) & 3u16) as u8;
        match Gain::spec_from_bits(g) {
            None => Err(CodecError::UnknownVariant(Field::Gain, g)),
            Some(gain) => match IntegrationTime::spec_from_bits(t) {
                None => Err(CodecError::UnknownVariant(Field::IntegrationTime, t)),
                Some(integration_time) => match InterruptThresholdCount::spec_from_bits(c) {
                    None => Err(CodecError::UnknownVariant(Field::InterruptThresholdCount, c)),
                    Some(interrupt_threshold_count) => Ok(
                        Config {
                            gain,
                            integration_time,
                            interrupt_threshold_count,
                            interrupt_enable: (w >> 1u16) & 1u16 == 1u16,
                            shutdown: w & 1u16 == 1u16,
                        },
                    ),
                },
            },
        }
    }

    proof fn lemma_fields(self)
        ensures
            ((self.spec_word() >> 11u16) & 3u16) as u8 == self.gain.spec_bits(),
            ((self.spec_word() >> 6u16) & 15u16) as u8 == self.integration_time.spec_bits(),
            ((self.spec_word() >> 4u16) & 3u16) as u8 == self.interrupt_threshold_count.spec_bits(),
            ((self.spec_word() >> 1u16) & 1u16 == 1u16) == self.interrupt_enable,
            (self.spec_word() & 1u16 == 1u16) == self.shutdown,
            self.spec_word() & CONFIG_RESERVED == 0,
    {
        self.gain.lemma_bits();
        self.integration_time.lemma_bits();
        self.interrupt_threshold_count.lemma_bits();
        let g = self.gain.spec_bits();
        let t = self.integration_time.spec_bits();
        let c = self.interrupt_threshold_count.spec_bits();
        let e = bit_of(self.interrupt_enable);
        let s = bit_of(self.shutdown);
        let w = self.spec_word();
        assert(((w >> 11u16) & 3u16) as u8 == g && ((w >> 6u16) & 15u16) as u8 == t && ((w
            >> 4u16) & 3u16) as u8 == c && (w >> 1u16) & 1u16 == e && w & 1u16 == s && w & 0xE40Cu16
            == 0) by (bit_vector)
            requires
                g < 4u8,
                t < 16u8,
                c < 4u8,
                e <= 1u16,
                s <= 1u16,
                w == ((g as u16) << 11u16) | ((t as u16) << 6u16) | ((c as u16) << 4u16) | (e
                    << 1u16) | s,
        ;
    }

    proof fn lemma_clear(w: u16)
        ensures
            Self::spec_from_word(w & !CONFIG_RESERVED) == Self::spec_from_word(w),
    {
        let v = w & !CONFIG_RESERVED;
        assert(((v >> 11u16) & 3u16) == ((w >> 11u16) & 3u16) && ((v >> 6u16) & 15u16) == ((w
            >> 6u16) & 15u16) && ((v >> 4u16) & 3u16) == ((w >> 4u16) & 3u16) && ((v >> 1u16)
            & 1u16) == ((w >> 1u16) & 1u16) && (v & 1u16) == (w & 1u16)) by (bit_vector)
            requires
                v == w & !0xE40Cu16,
        ;
    }
}

impl Register for Config {
    open spec fn spec_address() -> u8 {
        0x00
    }

    open spec fn spec_access() -> Access {
        Access::ReadWrite
    }

    open spec fn spec_width() -> nat {
        2
    }

    open spec fn spec_reserved() -> Seq<u8> {
        be_bytes(CONFIG_RESERVED)
    }

    open spec fn spec_default() -> Config {
        Config {
            gain: Gain::X_1_8,
            integration_time: IntegrationTime::T_100,
            interrupt_threshold_count: InterruptThresholdCount::One,
            interrupt_enable: false,
            shutdown: false,
        }
    }

    open spec fn spec_encode(self) -> Seq<u8> {
        be_bytes(self.spec_word())
    }

    open spec fn spec_decode(bytes: Seq<u8>) -> Result<Config, CodecError> {
        if bytes.len() != 2 {
            Err(CodecError::WidthMismatch { expected: 2, actual: bytes.len() as usize })
        } else {
            Self::spec_from_word(word_of(bytes[0], bytes[1]))
        }
    }

    fn address() -> (r: u8) {
        0x00
    }

    fn access() -> (r: Access) {
        Access::ReadWrite
    }

    fn width() -> (r: usize) {
        2
    }

    fn default_record() -> (r: Config) {
        Config {
            gain: Gain::X_1_8,
            integration_time: IntegrationTime::T_100,
            interrupt_threshold_count: InterruptThresholdCount::One,
            interrupt_enable: false,
            shutdown: false,
        }
    }

    fn encode(&self) -> (r: Vec<u8>) {
        let e: u16 = if self.interrupt_enable {
            1
        } else {
            0
        };
        let s: u16 = if self.shutdown {
            1
        } else {
            0
        };
        let w: u16 = ((self.gain.bits() as u16) << 11u16) | ((self.integration_time.bits() as u16)
            << 6u16) | ((self.interrupt_threshold_count.bits() as u16) << 4u16) | (e << 1u16) | s;
        word_to_bytes(w)
    }

    fn decode(bytes: &[u8]) -> (r: Result<Config, CodecError>) {
        if bytes.len() != 2 {
            return Err(CodecError::WidthMismatch { expected: 2, actual: bytes.len() });
        }
        let w: u16 = ((bytes[0] as u16) << 8u16) | (bytes[1] as u16);
        let g = ((w >> 11u16) & 3u16) as u8;
        let t = ((w >> 6u16) & 15u16) as u8;
        let c = ((w >> 4u16) & 3u16) as u8;
        let gain = match Gain::from_bits(g) {
            None => return Err(CodecError::UnknownVariant(Field::Gain, g)),
            Some(x) => x,
        };
        let integration_time = match IntegrationTime::from_bits(t) {
            None => return Err(CodecError::UnknownVariant(Field::IntegrationTime, t)),
            Some(x) => x,
        };
        let interrupt_threshold_count = match InterruptThresholdCount::from_bits(c) {
            None => return Err(CodecError::UnknownVariant(Field::InterruptThresholdCount, c)),
            Some(x) => x,
        };
        Ok(
            Config {
                gain,
                integration_time,
                interrupt_threshold_count,
                interrupt_enable: (w >> 1u16) & 1u16 == 1u16,
                shutdown: w & 1u16 == 1u16,
            },
        )
    }

    proof fn lemma_encode_width(r: Config) {
    }

    proof fn lemma_round_trip(r: Config) {
        lemma_word_bytes(r.spec_word());
        r.lemma_fields();
        r.gain.lemma_bits();
        r.integration_time.lemma_bits();
        r.interrupt_threshold_count.lemma_bits();
    }

    proof fn lemma_reserved_zero(r: Config) {
        r.lemma_fields();
        lemma_word_clear(r.spec_word(), CONFIG_RESERVED);
    }

    proof fn lemma_reserved_ignored(b: Seq<u8>) {
        assert(b =~= seq![b[0], b[1]]);
        lemma_clear_word(b[0], b[1], CONFIG_RESERVED);
        Self::lemma_clear(word_of(b[0], b[1]));
    }

    proof fn lemma_decode_encode(b: Seq<u8>) {
        let w = word_of(b[0], b[1]);
        lemma_bytes_clear(b[0], b[1], CONFIG_RESERVED);
        assert(b =~= seq![b[0], b[1]]);
        lemma_bit(w, 1);
        lemma_bit(w, 0);
        let x = Self::spec_decode(b)->Ok_0;
        let g = ((w >> 11u16) & 3u16) as u8;
        let t = ((w >> 6u16) & 15u16) as u8;
        let c = ((w >> 4u16) & 3u16) as u8;
        let e = (w >> 1u16) & 1u16;
        let s = w & 1u16;
        assert(x.gain.spec_bits() == g);
        assert(x.integration_time.spec_bits() == t);
        assert(x.interrupt_threshold_count.spec_bits() == c);
        assert(bit_of(x.interrupt_enable) == e);
        assert(bit_of(x.shutdown) == s) by {
            assert(w & 1u16 == (w >> 0u16) & 1u16) by (bit_vector);
        }
        assert(((g as u16) << 11u16) | ((t as u16) << 6u16) | ((c as u16) << 4u16) | (e << 1u16)
            | s == w & !0xE40Cu16) by (bit_vector)
            requires
                g == ((w >> 11u16) & 3u16) as u8,
                t == ((w >> 6u16) & 15u16) as u8,
                c == ((w >> 4u16) & 3u16) as u8,
                e == (w >> 1u16) & 1u16,
                s == w & 1u16,
        ;
    }

    proof fn lemma_width_mismatch(b: Seq<u8>) {
    }
}

/// A word without reserved bits: nothing of it is masked.
proof fn lemma_no_reserved(w: u16)
    ensures
        bits_clear(be_bytes(w), be_bytes(0)),
{
    assert(w & 0u16 == 0) by (bit_vector);
    lemma_word_clear(w, 0);
}

/// Two bytes are the bytes of the word they form.
proof fn lemma_word_bytes_inv(b: Seq<u8>)
    requires
        b.len() == 2,
    ensures
        be_bytes(word_of(b[0], b[1])) == b,
{
    let b0 = b[0];
    let b1 = b[1];
    let w = word_of(b0, b1);
    assert((w >> 8u16) as u8 == b0 && (w & 0xffu16) as u8 == b1) by (bit_vector)
        requires
            w == ((b0 as u16) << 8u16) | (b1 as u16),
    ;
    assert(be_bytes(w) =~= b);
}

/// Clearing no bits leaves two bytes as they are.
proof fn lemma_clear_nothing(b: Seq<u8>)
    requires
        b.len() == 2,
    ensures
        clear_bits(b, be_bytes(0)) == b,
{
    let z = be_bytes(0);
    assert(((0u16 >> 8u16) as u8) == 0u8 && ((0u16 & 0xffu16) as u8) == 0u8) by (bit_vector);
    assert(z[0] == 0 && z[1] == 0);
    let b0 = b[0];
    let b1 = b[1];
    assert(b0 & !0u8 == b0 && b1 & !0u8 == b1) by (bit_vector);
    assert(clear_bits(b, z) =~= b);
}

/// The ALS high threshold window register (address 0x01, read-write).
#[derive(Clone, Copy, Debug, PartialEq, Eq, Structural)]
pub struct ThresholdWindowHigh {
    /// ALS high threshold window setting.
    pub raw_threshold: u16,
}

impl Register for ThresholdWindowHigh {
    open spec fn spec_address() -> u8 {
        0x01
    }

    open spec fn spec_access() -> Access {
        Access::ReadWrite
    }

    open spec fn spec_width() -> nat {
        2
    }

    open spec fn spec_reserved() -> Seq<u8> {
        be_bytes(0)
    }

    open spec fn spec_default() -> ThresholdWindowHigh {
        ThresholdWindowHigh { raw_threshold: 0 }
    }

    open spec fn spec_encode(self) -> Seq<u8> {
        be_bytes(self.raw_threshold)
    }

    open spec fn spec_decode(bytes: Seq<u8>) -> Result<ThresholdWindowHigh, CodecError> {
        if bytes.len() != 2 {
            Err(CodecError::WidthMismatch { expected: 2, actual: bytes.len() as usize })
        } else {
            Ok(ThresholdWindowHigh { raw_threshold: word_of(bytes[0], bytes[1]) })
        }
    }

    fn address() -> (r: u8) {
        0x01
    }

    fn access() -> (r: Access) {
        Access::ReadWrite
    }

    fn width() -> (r: usize) {
        2
    }

    fn default_record() -> (r: ThresholdWindowHigh) {
        ThresholdWindowHigh { raw_threshold: 0 }
    }

    fn encode(&self) -> (r: Vec<u8>) {
        word_to_bytes(self.raw_threshold)
    }

    fn decode(bytes: &[u8]) -> (r: Result<ThresholdWindowHigh, CodecError>) {
        if bytes.len() != 2 {
            return Err(CodecError::WidthMismatch { expected: 2, actual: bytes.len() });
        }
        Ok(ThresholdWindowHigh { raw_threshold: ((bytes[0] as u16) << 8u16) | (bytes[1] as u16) })
    }

    proof fn lemma_encode_width(r: ThresholdWindowHigh) {
    }

    proof fn lemma_round_trip(r: ThresholdWindowHigh) {
        lemma_word_bytes(r.raw_threshold);
    }

    proof fn lemma_reserved_zero(r: ThresholdWindowHigh) {
        lemma_no_reserved(r.raw_threshold);
    }

    proof fn lemma_reserved_ignored(b: Seq<u8>) {
        lemma_clear_nothing(b);
    }

    proof fn lemma_decode_encode(b: Seq<u8>) {
        lemma_word_bytes_inv(b);
        lemma_clear_nothing(b);
    }

    proof fn lemma_width_mismatch(b: Seq<u8>) {
    }
}

/// The ALS low threshold window register (address 0x02, read-write).
#[derive(Clone, Copy, Debug, PartialEq, Eq, Structural)]
pub struct ThresholdWindowLow {
    /// ALS low threshold window setting.
    pub raw_threshold: u16,
}

impl Register for ThresholdWindowLow {
    open spec fn spec_address() -> u8 {
        0x02
    }

    open spec fn spec_access() -> Access {
        Access::ReadWrite
    }

    open spec fn spec_width() -> nat {
        2
    }

    open spec fn spec_reserved() -> Seq<u8> {
        be_bytes(0)
    }

    open spec fn spec_default() -> ThresholdWindowLow {
        ThresholdWindowLow { raw_threshold: 0 }
    }

    open spec fn spec_encode(self) -> Seq<u8> {
        be_bytes(self.raw_threshold)
    }

    open spec fn spec_decode(bytes: Seq<u8>) -> Result<ThresholdWindowLow, CodecError> {
        if bytes.len() != 2 {
            Err(CodecError::WidthMismatch { expected: 2, actual: bytes.len() as usize })
        } else {
            Ok(ThresholdWindowLow { raw_threshold: word_of(bytes[0], bytes[1]) })
        }
    }

    fn address() -> (r: u8) {
        0x02
    }

    fn access() -> (r: Access) {
        Access::ReadWrite
    }

    fn width() -> (r: usize) {
        2
    }

    fn default_record() -> (r: ThresholdWindowLow) {
        ThresholdWindowLow { raw_threshold: 0 }
    }

    fn encode(&self) -> (r: Vec<u8>) {
        word_to_bytes(self.raw_threshold)
    }

    fn decode(bytes: &[u8]) -> (r: Result<ThresholdWindowLow, CodecError>) {
        if bytes.len() != 2 {
            return Err(CodecError::WidthMismatch { expected: 2, actual: bytes.len() });
        }
        Ok(ThresholdWindowLow { raw_threshold: ((bytes[0] as u16) << 8u16) | (bytes[1] as u16) })
    }

    proof fn lemma_encode_width(r: ThresholdWindowLow) {
    }

    proof fn lemma_round_trip(r: ThresholdWindowLow) {
        lemma_word_bytes(r.raw_threshold);
    }

    proof fn lemma_reserved_zero(r: ThresholdWindowLow) {
        lemma_no_reserved(r.raw_threshold);
    }

    proof fn lemma_reserved_ignored(b: Seq<u8>) {
        lemma_clear_nothing(b);
    }

    proof fn lemma_decode_encode(b: Seq<u8>) {
        lemma_word_bytes_inv(b);
        lemma_clear_nothing(b);
    }

    proof fn lemma_width_mismatch(b: Seq<u8>) {
    }
}

/// The ALS output register (address 0x04, read-only).
#[derive(Clone, Copy, Debug, PartialEq, Eq, Structural)]
pub struct AlsData {
    /// ALS high resolution output data.
    pub raw_data: u16,
}

impl Register for AlsData {
    open spec fn spec_address() -> u8 {
        0x04
    }

    open spec fn spec_access() -> Access {
        Access::Read
    }

    open spec fn spec_width() -> nat {
        2
    }

    open spec fn spec_reserved() -> Seq<u8> {
        be_bytes(0)
    }

    open spec fn spec_default() -> AlsData {
        AlsData { raw_data: 0 }
    }

    open spec fn spec_encode(self) -> Seq<u8> {
        be_bytes(self.raw_data)
    }

    open spec fn spec_decode(bytes: Seq<u8>) -> Result<AlsData, CodecError> {
        if bytes.len() != 2 {
            Err(CodecError::WidthMismatch { expected: 2, actual: bytes.len() as usize })
        } else {
            Ok(AlsData { raw_data: word_of(bytes[0], bytes[1]) })
        }
    }

    fn address() -> (r: u8) {
        0x04
    }

    fn access() -> (r: Access) {
        Access::Read
    }

    fn width() -> (r: usize) {
        2
    }

    fn default_record() -> (r: AlsData) {
        AlsData { raw_data: 0 }
    }

    fn encode(&self) -> (r: Vec<u8>) {
        word_to_bytes(self.raw_data)
    }

    fn decode(bytes: &[u8]) -> (r: Result<AlsData, CodecError>) {
        if bytes.len() != 2 {
            return Err(CodecError::WidthMismatch { expected: 2, actual: bytes.len() });
        }
        Ok(AlsData { raw_data: ((bytes[0] as u16) << 8u16) | (bytes[1] as u16) })
    }

    proof fn lemma_encode_width(r: AlsData) {
    }

    proof fn lemma_round_trip(r: AlsData) {
        lemma_word_bytes(r.raw_data);
    }

    proof fn lemma_reserved_zero(r: AlsData) {
        lemma_no_reserved(r.raw_data);
    }

    proof fn lemma_reserved_ignored(b: Seq<u8>) {
        lemma_clear_nothing(b);
    }

    proof fn lemma_decode_encode(b: Seq<u8>) {
        lemma_word_bytes_inv(b);
        lemma_clear_nothing(b);
    }

    proof fn lemma_width_mismatch(b: Seq<u8>) {
    }
}

/// The white channel output register (address 0x05, read-only).
#[derive(Clone, Copy, Debug, PartialEq, Eq, Structural)]
pub struct WhiteData {
    /// White channel output data.
    pub raw_data: u16,
}

impl Register for WhiteData {
    open spec fn spec_address() -> u8 {
        0x05
    }

    open spec fn spec_access() -> Access {
        Access::Read
    }

    open spec fn spec_width() -> nat {
        2
    }

    open spec fn spec_reserved() -> Seq<u8> {
        be_bytes(0)
    }

    open spec fn spec_default() -> WhiteData {
        WhiteData { raw_data: 0 }
    }

    open spec fn spec_encode(self) -> Seq<u8> {
        be_bytes(self.raw_data)
    }

    open spec fn spec_decode(bytes: Seq<u8>) -> Result<WhiteData, CodecError> {
        if bytes.len() != 2 {
            Err(CodecError::WidthMismatch { expected: 2, actual: bytes.len() as usize })
        } else {
            Ok(WhiteData { raw_data: word_of(bytes[0], bytes[1]) })
        }
    }

    fn address() -> (r: u8) {
        0x05
    }

    fn access() -> (r: Access) {
        Access::Read
    }

    fn width() -> (r: usize) {
        2
    }

    fn default_record() -> (r: WhiteData) {
        WhiteData { raw_data: 0 }
    }

    fn encode(&self) -> (r: Vec<u8>) {
        word_to_bytes(self.raw_data)
    }

    fn decode(bytes: &[u8]) -> (r: Result<WhiteData, CodecError>) {
        if bytes.len() != 2 {
            return Err(CodecError::WidthMismatch { expected: 2, actual: bytes.len() });
        }
        Ok(WhiteData { raw_data: ((bytes[0] as u16) << 8u16) | (bytes[1] as u16) })
    }

    proof fn lemma_encode_width(r: WhiteData) {
    }

    proof fn lemma_round_trip(r: WhiteData) {
        lemma_word_bytes(r.raw_data);
    }

    proof fn lemma_reserved_zero(r: WhiteData) {
        lemma_no_reserved(r.raw_data);
    }

    proof fn lemma_reserved_ignored(b: Seq<u8>) {
        lemma_clear_nothing(b);
    }

    proof fn lemma_decode_encode(b: Seq<u8>) {
        lemma_word_bytes_inv(b);
        lemma_clear_nothing(b);
    }

    proof fn lemma_width_mismatch(b: Seq<u8>) {
    }
}
/// The power saving register (address 0x03, read-write).
///
/// Bits, most significant first: 13 reserved, mode (2), enable.
#[derive(Clone, Copy, Debug, PartialEq, Eq, Structural)]
pub struct PowerSaving {
    /// Power saving mode setting.
    pub mode: PowerSavingMode,
    /// Power saving mode enable setting.
    pub enable: bool,
}

pub const POWER_SAVING_RESERVED: u16 = 0xFFF8;

impl PowerSaving {
    pub open spec fn spec_word(self) -> u16 {
        ((self.mode.spec_bits() as u16) << 1u16) | bit_of(self.enable)
    }

    pub open spec fn spec_from_word(w: u16) -> Result<PowerSaving, CodecError> {
        let m = ((w >> 1u16) & 3u16) as u8;
        match PowerSavingMode::spec_from_bits(m) {
            None => Err(CodecError::UnknownVariant(Field::PowerSavingMode, m)),
            Some(mode) => Ok(PowerSaving { mode, enable: w & 1u16 == 1u16 }),
        }
    }

    proof fn lemma_fields(self)
        ensures
            ((self.spec_word() >> 1u16) & 3u16) as u8 == self.mode.spec_bits(),
            (self.spec_word() & 1u16 == 1u16) == self.enable,
            self.spec_word() & POWER_SAVING_RESERVED == 0,
    {
        self.mode.lemma_bits();
        let m = self.mode.spec_bits();
        let e = bit_of(self.enable);
        let w = self.spec_word();
        assert(((w >> 1u16) & 3u16) as u8 == m && w & 1u16 == e && w & 0xFFF8u16 == 0)
            by (bit_vector)
            requires
                m < 4u8,
                e <= 1u16,
                w == ((m as u16) << 1u16) | e,
        ;
    }

    proof fn lemma_clear(w: u16)
        ensures
            Self::spec_from_word(w & !POWER_SAVING_RESERVED) == Self::spec_from_word(w),
    {
        let v = w & !POWER_SAVING_RESERVED;
        assert(((v >> 1u16) & 3u16) == ((w >> 1u16) & 3u16) && (v & 1u16) == (w & 1u16))
            by (bit_vector)
            requires
                v == w & !0xFFF8u16,
        ;
    }
}

impl Register for PowerSaving {
    open spec fn spec_address() -> u8 {
        0x03
    }

    open spec fn spec_access() -> Access {
        Access::ReadWrite
    }

    open spec fn spec_width() -> nat {
        2
    }

    open spec fn spec_reserved() -> Seq<u8> {
        be_bytes(POWER_SAVING_RESERVED)
    }

    open spec fn spec_default() -> PowerSaving {
        PowerSaving { mode: PowerSavingMode::Mode1, enable: false }
    }

    open spec fn spec_encode(self) -> Seq<u8> {
        be_bytes(self.spec_word())
    }

    open spec fn spec_decode(bytes: Seq<u8>) -> Result<PowerSaving, CodecError> {
        if bytes.len() != 2 {
            Err(CodecError::WidthMismatch { expected: 2, actual: bytes.len() as usize })
        } else {
            Self::spec_from_word(word_of(bytes[0], bytes[1]))
        }
    }

    fn address() -> (r: u8) {
        0x03
    }

    fn access() -> (r: Access) {
        Access::ReadWrite
    }

    fn width() -> (r: usize) {
        2
    }

    fn default_record() -> (r: PowerSaving) {
        PowerSaving { mode: PowerSavingMode::Mode1, enable: false }
    }

    fn encode(&self) -> (r: Vec<u8>) {
        let e: u16 = if self.enable {
            1
        } else {
            0
        };
        word_to_bytes(((self.mode.bits() as u16) << 1u16) | e)
    }

    fn decode(bytes: &[u8]) -> (r: Result<PowerSaving, CodecError>) {
        if bytes.len() != 2 {
            return Err(CodecError::WidthMismatch { expected: 2, actual: bytes.len() });
        }
        let w: u16 = ((bytes[0] as u16) << 8u16) | (bytes[1] as u16);
        let m = ((w >> 1u16) & 3u16) as u8;
        match PowerSavingMode::from_bits(m) {
            None => Err(CodecError::UnknownVariant(Field::PowerSavingMode, m)),
            Some(mode) => Ok(PowerSaving { mode, enable: w & 1u16 == 1u16 }),
        }
    }

    proof fn lemma_encode_width(r: PowerSaving) {
    }

    proof fn lemma_round_trip(r: PowerSaving) {
        lemma_word_bytes(r.spec_word());
        r.lemma_fields();
        r.mode.lemma_bits();
    }

    proof fn lemma_reserved_zero(r: PowerSaving) {
        r.lemma_fields();
        lemma_word_clear(r.spec_word(), POWER_SAVING_RESERVED);
    }

    proof fn lemma_reserved_ignored(b: Seq<u8>) {
        assert(b =~= seq![b[0], b[1]]);
        lemma_clear_word(b[0], b[1], POWER_SAVING_RESERVED);
        Self::lemma_clear(word_of(b[0], b[1]));
    }

    proof fn lemma_decode_encode(b: Seq<u8>) {
        let w = word_of(b[0], b[1]);
        lemma_bytes_clear(b[0], b[1], POWER_SAVING_RESERVED);
        assert(b =~= seq![b[0], b[1]]);
        lemma_bit(w, 0);
        let x = Self::spec_decode(b)->Ok_0;
        let m = ((w >> 1u16) & 3u16) as u8;
        let e = w & 1u16;
        assert(x.mode.spec_bits() == m);
        assert(bit_of(x.enable) == e) by {
            assert(w & 1u16 == (w >> 0u16) & 1u16) by (bit_vector);
        }
        assert(((m as u16) << 1u16) | e == w & !0xFFF8u16) by (bit_vector)
            requires
                m == ((w >> 1u16) & 3u16) as u8,
                e == w & 1u16,
        ;
    }

    proof fn lemma_width_mismatch(b: Seq<u8>) {
    }
}

/// The interrupt status register (address 0x06, read-only).
///
/// Bits, most significant first: low threshold exceeded, high threshold
/// exceeded, 14 reserved.
#[derive(Clone, Copy, Debug, PartialEq, Eq, Structural)]
pub struct InterruptStatus {
    /// Indicates if the ALS low threshold has been exceeded.
    pub exceeded_low_threshold: bool,
    /// Indicates if the ALS high threshold has been exceeded.
    pub exceeded_high_threshold: bool,
}

pub const INTERRUPT_STATUS_RESERVED: u16 = 0x3FFF;

impl InterruptStatus {
    pub open spec fn spec_word(self) -> u16 {
        (bit_of(self.exceeded_low_threshold) << 15u16) | (bit_of(self.exceeded_high_threshold)
            << 14u16)
    }

    pub open spec fn spec_from_word(w: u16) -> InterruptStatus {
        InterruptStatus {
            exceeded_low_threshold: (w >> 15u16) & 1u16 == 1u16,
            exceeded_high_threshold: (w >> 14u16) & 1u16 == 1u16,
        }
    }

    proof fn lemma_fields(self)
        ensures
            ((self.spec_word() >> 15u16) & 1u16 == 1u16) == self.exceeded_low_threshold,
            ((self.spec_word() >> 14u16) & 1u16 == 1u16) == self.exceeded_high_threshold,
            self.spec_word() & INTERRUPT_STATUS_RESERVED == 0,
    {
        let l = bit_of(self.exceeded_low_threshold);
        let h = bit_of(self.exceeded_high_threshold);
        let w = self.spec_word();
        assert((w >> 15u16) & 1u16 == l && (w >> 14u16) & 1u16 == h && w & 0x3FFFu16 == 0)
            by (bit_vector)
            requires
                l <= 1u16,
                h <= 1u16,
                w == (l << 15u16) | (h << 14u16),
        ;
    }

    proof fn lemma_clear(w: u16)
        ensures
            Self::spec_from_word(w & !INTERRUPT_STATUS_RESERVED) == Self::spec_from_word(w),
    {
        let v = w & !INTERRUPT_STATUS_RESERVED;
        assert(((v >> 15u16) & 1u16) == ((w >> 15u16) & 1u16) && ((v >> 14u16) & 1u16) == ((w
            >> 14u16) & 1u16)) by (bit_vector)
            requires
                v == w & !0x3FFFu16,
        ;
    }
}

impl Register for InterruptStatus {
    open spec fn spec_address() -> u8 {
        0x06
    }

    open spec fn spec_access() -> Access {
        Access::Read
    }

    open spec fn spec_width() -> nat {
        2
    }

    open spec fn spec_reserved() -> Seq<u8> {
        be_bytes(INTERRUPT_STATUS_RESERVED)
    }

    open spec fn spec_default() -> InterruptStatus {
        InterruptStatus { exceeded_low_threshold: false, exceeded_high_threshold: false }
    }

    open spec fn spec_encode(self) -> Seq<u8> {
        be_bytes(self.spec_word())
    }

    open spec fn spec_decode(bytes: Seq<u8>) -> Result<InterruptStatus, CodecError> {
        if bytes.len() != 2 {
            Err(CodecError::WidthMismatch { expected: 2, actual: bytes.len() as usize })
        } else {
            Ok(Self::spec_from_word(word_of(bytes[0], bytes[1])))
        }
    }

    fn address() -> (r: u8) {
        0x06
    }

    fn access() -> (r: Access) {
        Access::Read
    }

    fn width() -> (r: usize) {
        2
    }

    fn default_record() -> (r: InterruptStatus) {
        InterruptStatus { exceeded_low_threshold: false, exceeded_high_threshold: false }
    }

    fn encode(&self) -> (r: Vec<u8>) {
        let l: u16 = if self.exceeded_low_threshold {
            1
        } else {
            0
        };
        let h: u16 = if self.exceeded_high_threshold {
            1
        } else {
            0
        };
        word_to_bytes((l << 15u16) | (h << 14u16))
    }

    fn decode(bytes: &[u8]) -> (r: Result<InterruptStatus, CodecError>) {
        if bytes.len() != 2 {
            return Err(CodecError::WidthMismatch { expected: 2, actual: bytes.len() });
        }
        let w: u16 = ((bytes[0] as u16) << 8u16) | (bytes[1] as u16);
        Ok(
            InterruptStatus {
                exceeded_low_threshold: (w >> 15u16) & 1u16 == 1u16,
                exceeded_high_threshold: (w >> 14u16) & 1u16 == 1u16,
            },
        )
    }

    proof fn lemma_encode_width(r: InterruptStatus) {
    }

    proof fn lemma_round_trip(r: InterruptStatus) {
        lemma_word_bytes(r.spec_word());
        r.lemma_fields();
    }

    proof fn lemma_reserved_zero(r: InterruptStatus) {
        r.lemma_fields();
        lemma_word_clear(r.spec_word(), INTERRUPT_STATUS_RESERVED);
    }

    proof fn lemma_reserved_ignored(b: Seq<u8>) {
        assert(b =~= seq![b[0], b[1]]);
        lemma_clear_word(b[0], b[1], INTERRUPT_STATUS_RESERVED);
        Self::lemma_clear(word_of(b[0], b[1]));
    }

    proof fn lemma_decode_encode(b: Seq<u8>) {
        let w = word_of(b[0], b[1]);
        lemma_bytes_clear(b[0], b[1], INTERRUPT_STATUS_RESERVED);
        assert(b =~= seq![b[0], b[1]]);
        lemma_bit(w, 15);
        lemma_bit(w, 14);
        let l = (w >> 15u16) & 1u16;
        let h = (w >> 14u16) & 1u16;
        assert((l << 15u16) | (h << 14u16) == w & !0x3FFFu16) by (bit_vector)
            requires
                l == (w >> 15u16) & 1u16,
                h == (w >> 14u16) & 1u16,
        ;
    }

    proof fn lemma_width_mismatch(b: Seq<u8>) {
    }
}

/// The device ID register (address 0x07, read-only): the address option in
/// the first byte, the device ID in the second.
#[derive(Clone, Copy, Debug, PartialEq, Eq, Structural)]
pub struct DeviceId {
    /// The I2C address option the device was built with.
    pub slave_address: AddressOption,
    /// Device ID.
    pub id: u8,
}

impl Register for DeviceId {
    open spec fn spec_address() -> u8 {
        0x07
    }

    open spec fn spec_access() -> Access {
        Access::Read
    }

    open spec fn spec_width() -> nat {
        2
    }

    open spec fn spec_reserved() -> Seq<u8> {
        be_bytes(0)
    }

    open spec fn spec_default() -> DeviceId {
        DeviceId { slave_address: AddressOption::X10, id: 0x81 }
    }

    open spec fn spec_encode(self) -> Seq<u8> {
        seq![self.slave_address.spec_bits(), self.id]
    }

    open spec fn spec_decode(bytes: Seq<u8>) -> Result<DeviceId, CodecError> {
        if bytes.len() != 2 {
            Err(CodecError::WidthMismatch { expected: 2, actual: bytes.len() as usize })
        } else {
            match AddressOption::spec_from_bits(bytes[0]) {
                None => Err(CodecError::UnknownVariant(Field::SlaveAddress, bytes[0])),
                Some(slave_address) => Ok(DeviceId { slave_address, id: bytes[1] }),
            }
        }
    }

    fn address() -> (r: u8) {
        0x07
    }

    fn access() -> (r: Access) {
        Access::Read
    }

    fn width() -> (r: usize) {
        2
    }

    fn default_record() -> (r: DeviceId) {
        DeviceId { slave_address: AddressOption::X10, id: 0x81 }
    }

    fn encode(&self) -> (r: Vec<u8>) {
        let mut r: Vec<u8> = Vec::new();
        r.push(self.slave_address.bits());
        r.push(self.id);
        assert(r@ =~= self.spec_encode());
        r
    }

    fn decode(bytes: &[u8]) -> (r: Result<DeviceId, CodecError>) {
        if bytes.len() != 2 {
            return Err(CodecError::WidthMismatch { expected: 2, actual: bytes.len() });
        }
        match AddressOption::from_bits(bytes[0]) {
            None => Err(CodecError::UnknownVariant(Field::SlaveAddress, bytes[0])),
            Some(slave_address) => Ok(DeviceId { slave_address, id: bytes[1] }),
        }
    }

    proof fn lemma_encode_width(r: DeviceId) {
    }

    proof fn lemma_round_trip(r: DeviceId) {
        r.slave_address.lemma_bits();
    }

    proof fn lemma_reserved_zero(r: DeviceId) {
        let a = r.slave_address.spec_bits();
        let i = r.id;
        assert(a & 0u8 == 0 && i & 0u8 == 0) by (bit_vector);
        assert(((0u16 >> 8u16) as u8) == 0u8 && ((0u16 & 0xffu16) as u8) == 0u8) by (bit_vector);
        let e = r.spec_encode();
        let z = be_bytes(0);
        assert forall|k: int| 0 <= k < e.len() implies #[trigger] (e[k] & z[k]) == 0 by {
            if k == 0 {
            } else {
            }
        }
    }

    proof fn lemma_reserved_ignored(b: Seq<u8>) {
        lemma_clear_nothing(b);
    }

    proof fn lemma_decode_encode(b: Seq<u8>) {
        lemma_clear_nothing(b);
        assert(Self::spec_decode(b)->Ok_0.spec_encode() =~= b);
    }

    proof fn lemma_width_mismatch(b: Seq<u8>) {
    }
}

} // verus!
