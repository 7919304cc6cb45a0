use veml7700::{
    Access, AddressOption, AlsData, CodecError, Config, DeviceId, Field, Gain, IntegrationTime,
    InterruptStatus, InterruptThresholdCount, PowerSaving, PowerSavingMode, Register,
    ThresholdWindowHigh, ThresholdWindowLow, WhiteData,
};

#[test]
fn config_default_encodes_gain_in_bits_12_11() {
    let c = Config {
        gain: Gain::X_1_8,
        integration_time: IntegrationTime::T_100,
        interrupt_threshold_count: InterruptThresholdCount::One,
        interrupt_enable: false,
        shutdown: false,
    };
    assert_eq!(c.encode(), vec![0x10, 0x00]);
    assert_eq!(Config::default_record(), c);
}

#[test]
fn config_fields_land_in_their_bits() {
    let c = Config {
        gain: Gain::X_1_4,
        integration_time: IntegrationTime::T_25,
        interrupt_threshold_count: InterruptThresholdCount::Eight,
        interrupt_enable: true,
        shutdown: true,
    };
    // 0b000_11_0_1100_11_00_1_1
    assert_eq!(c.encode(), vec![0x1B, 0x33]);
}

#[test]
fn config_decode_threshold_count_eight() {
    let c = Config::decode(&[0x00, 0x30]).unwrap();
    assert_eq!(c.interrupt_threshold_count, InterruptThresholdCount::Eight);
    assert_eq!(c.gain, Gain::X_1);
    assert_eq!(c.integration_time, IntegrationTime::T_100);
}

#[test]
fn two_bit_enum_all_ones_is_eight() {
    assert_eq!(
        InterruptThresholdCount::from_bits(0b11),
        Some(InterruptThresholdCount::Eight)
    );
    let p = PowerSaving::decode(&[0x00, 0x06]).unwrap();
    assert_eq!(p.mode, PowerSavingMode::Mode4);
    assert!(!p.enable);
}

#[test]
fn config_round_trip() {
    let gains = [Gain::X_1, Gain::X_2, Gain::X_1_8, Gain::X_1_4];
    let times = [
        IntegrationTime::T_25,
        IntegrationTime::T_50,
        IntegrationTime::T_100,
        IntegrationTime::T_200,
        IntegrationTime::T_400,
        IntegrationTime::T_800,
    ];
    for g in gains {
        for t in times {
            for e in [false, true] {
                let c = Config {
                    gain: g,
                    integration_time: t,
                    interrupt_threshold_count: InterruptThresholdCount::Two,
                    interrupt_enable: e,
                    shutdown: !e,
                };
                assert_eq!(Config::decode(&c.encode()), Ok(c));
            }
        }
    }
}

#[test]
fn data_registers_round_trip_big_endian() {
    let a = AlsData { raw_data: 0x1234 };
    assert_eq!(a.encode(), vec![0x12, 0x34]);
    assert_eq!(AlsData::decode(&[0x12, 0x34]), Ok(a));
    let w = WhiteData { raw_data: 0xFFFE };
    assert_eq!(WhiteData::decode(&w.encode()), Ok(w));
    let h = ThresholdWindowHigh { raw_threshold: 0x8001 };
    assert_eq!(ThresholdWindowHigh::decode(&h.encode()), Ok(h));
    let l = ThresholdWindowLow { raw_threshold: 7 };
    assert_eq!(l.encode(), vec![0x00, 0x07]);
    assert_eq!(ThresholdWindowLow::decode(&l.encode()), Ok(l));
}

#[test]
fn other_registers_round_trip() {
    let p = PowerSaving { mode: PowerSavingMode::Mode3, enable: true };
    assert_eq!(p.encode(), vec![0x00, 0x05]);
    assert_eq!(PowerSaving::decode(&p.encode()), Ok(p));
    let s = InterruptStatus { exceeded_low_threshold: true, exceeded_high_threshold: false };
    assert_eq!(s.encode(), vec![0x80, 0x00]);
    assert_eq!(InterruptStatus::decode(&s.encode()), Ok(s));
    let d = DeviceId { slave_address: AddressOption::X48, id: 0x81 };
    assert_eq!(d.encode(), vec![0xC8, 0x81]);
    assert_eq!(DeviceId::decode(&d.encode()), Ok(d));
}

#[test]
fn default_records_have_register_width() {
    assert_eq!(Config::default_record().encode().len(), Config::width());
    assert_eq!(PowerSaving::default_record().encode().len(), PowerSaving::width());
    assert_eq!(InterruptStatus::default_record().encode().len(), InterruptStatus::width());
    assert_eq!(DeviceId::default_record().encode().len(), DeviceId::width());
    assert_eq!(AlsData::default_record().encode().len(), AlsData::width());
    assert_eq!(
        ThresholdWindowHigh::default_record().encode().len(),
        ThresholdWindowHigh::width()
    );
    assert_eq!(DeviceId::default_record().encode(), vec![0xC4, 0x81]);
}

#[test]
fn reserved_bits_are_ignored_and_written_as_zero() {
    // every reserved bit of the configuration register set
    let dirty = Config::decode(&[0xE4, 0x0C]).unwrap();
    let clean = Config::decode(&[0x00, 0x00]).unwrap();
    assert_eq!(dirty, clean);
    assert_eq!(dirty.encode(), vec![0x00, 0x00]);
    let dirty = Config::decode(&[0xF7, 0x0F]).unwrap();
    assert_eq!(dirty.encode(), vec![0x13, 0x03]);
    let p = PowerSaving::decode(&[0xFF, 0xFB]).unwrap();
    assert_eq!(p.encode(), vec![0x00, 0x03]);
    let s = InterruptStatus::decode(&[0x7F, 0xFF]).unwrap();
    assert_eq!(s, InterruptStatus { exceeded_low_threshold: false, exceeded_high_threshold: true });
    assert_eq!(s.encode(), vec![0x40, 0x00]);
}

#[test]
fn unknown_integration_time_is_an_error() {
    // integration time bits 0b0101
    assert_eq!(
        Config::decode(&[0x01, 0x40]),
        Err(CodecError::UnknownVariant(Field::IntegrationTime, 0b0101))
    );
    assert_eq!(IntegrationTime::from_bits(0b0100), None);
}

#[test]
fn unknown_address_option_is_an_error() {
    assert_eq!(
        DeviceId::decode(&[0x00, 0x81]),
        Err(CodecError::UnknownVariant(Field::SlaveAddress, 0x00))
    );
    assert_eq!(AddressOption::from_bits(0xC4), Some(AddressOption::X10));
}

#[test]
fn wrong_width_is_refused() {
    assert_eq!(
        Config::decode(&[0x01]),
        Err(CodecError::WidthMismatch { expected: 2, actual: 1 })
    );
    assert_eq!(
        AlsData::decode(&[0x01, 0x02, 0x03]),
        Err(CodecError::WidthMismatch { expected: 2, actual: 3 })
    );
    assert_eq!(
        DeviceId::decode(&[]),
        Err(CodecError::WidthMismatch { expected: 2, actual: 0 })
    );
}

#[test]
fn integration_time_in_ms() {
    assert_eq!(IntegrationTime::T_25.ms(), 25);
    assert_eq!(IntegrationTime::T_50.ms(), 50);
    assert_eq!(IntegrationTime::T_100.ms(), 100);
    assert_eq!(IntegrationTime::T_200.ms(), 200);
    assert_eq!(IntegrationTime::T_400.ms(), 400);
    assert_eq!(IntegrationTime::T_800.ms(), 800);
}

#[test]
fn enum_bits() {
    assert_eq!(Gain::X_1_8.bits(), 0b10);
    assert_eq!(IntegrationTime::T_25.bits(), 0b1100);
    assert_eq!(PowerSavingMode::from_bits(4), None);
    assert_eq!(Gain::from_bits(0b11), Some(Gain::X_1_4));
}

#[test]
fn register_addresses_and_modes() {
    assert_eq!(Config::address(), 0x00);
    assert_eq!(ThresholdWindowHigh::address(), 0x01);
    assert_eq!(ThresholdWindowLow::address(), 0x02);
    assert_eq!(PowerSaving::address(), 0x03);
    assert_eq!(AlsData::address(), 0x04);
    assert_eq!(WhiteData::address(), 0x05);
    assert_eq!(InterruptStatus::address(), 0x06);
    assert_eq!(DeviceId::address(), 0x07);
    assert_eq!(Config::access(), Access::ReadWrite);
    assert_eq!(AlsData::access(), Access::Read);
    assert!(Access::Read.readable() && !Access::Read.writable());
    assert!(!Access::Write.readable() && Access::Write.writable());
}
