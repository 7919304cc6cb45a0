use veml7700::{
    Access, Address, AlsData, CodecError, Config, DeviceId, Field, Gain, IntegrationTime,
    InterfaceError, InterruptThresholdCount, ReadRequest, RegAddrCodec, WriteRequest, INA226,
};

#[derive(Debug, PartialEq)]
struct Nack;

struct FakeBus;

#[test]
fn address_resolves_to_u8() {
    assert_eq!(u8::from(Address::Regular), 0x10);
    assert_eq!(u8::from(Address::Custom(0x48)), 0x48);
    assert_eq!(Address::Custom(3).value(), 3);
}

#[test]
fn new_i2c_uses_the_address() {
    let dev = INA226::new_i2c(FakeBus, Address::Custom(0x29));
    assert_eq!(dev.device_address(), 0x29);
    let dev = INA226::new_i2c(FakeBus, Address::Regular);
    assert_eq!(dev.device_address(), 0x10);
}

#[test]
fn read_is_framed_with_one_byte_address() {
    let dev = INA226::new_i2c(FakeBus, Address::Regular);
    let req = dev.prepare_read::<AlsData, Nack>().unwrap();
    assert_eq!(req, ReadRequest { device_address: 0x10, header: vec![0x04], read_len: 2 });
}

#[test]
fn write_is_framed_with_address_then_bytes() {
    let dev = INA226::new_i2c(FakeBus, Address::Regular);
    let c = Config {
        gain: Gain::X_2,
        integration_time: IntegrationTime::T_800,
        interrupt_threshold_count: InterruptThresholdCount::One,
        interrupt_enable: false,
        shutdown: true,
    };
    let req = dev.prepare_write::<Config, Nack>(&c).unwrap();
    assert_eq!(req, WriteRequest { device_address: 0x10, bytes: vec![0x00, 0x08, 0xC1] });
}

#[test]
fn write_to_read_only_register_is_refused() {
    let dev = INA226::new_i2c(FakeBus, Address::Regular);
    let r = dev.prepare_write::<AlsData, Nack>(&AlsData { raw_data: 1 });
    assert_eq!(r, Err(InterfaceError::Access(Access::Read)));
    let r = dev.prepare_write::<DeviceId, Nack>(&<DeviceId as veml7700::Register>::default_record());
    assert_eq!(r, Err(InterfaceError::Access(Access::Read)));
}

#[test]
fn bus_error_on_read_is_passed_on() {
    let dev = INA226::new_i2c(FakeBus, Address::Regular);
    assert!(dev.prepare_read::<AlsData, Nack>().is_ok());
    let r = dev.finish_read::<AlsData, Nack>(Err(Nack));
    assert_eq!(r, Err(InterfaceError::Bus(Nack)));
}

#[test]
fn read_decodes_the_bytes() {
    let dev = INA226::new_i2c(FakeBus, Address::Regular);
    let r = dev.finish_read::<AlsData, Nack>(Ok(vec![0x01, 0x02]));
    assert_eq!(r, Ok(AlsData { raw_data: 0x0102 }));
    let r = dev.finish_read::<DeviceId, Nack>(Ok(vec![0xC9, 0x81]));
    assert_eq!(r, Err(InterfaceError::Codec(CodecError::UnknownVariant(Field::SlaveAddress, 0xC9))));
    let r = dev.finish_read::<AlsData, Nack>(Ok(vec![0x01]));
    assert_eq!(
        r,
        Err(InterfaceError::Codec(CodecError::WidthMismatch { expected: 2, actual: 1 }))
    );
}

#[test]
fn write_outcome_is_passed_on() {
    let dev = INA226::new_i2c(FakeBus, Address::Regular);
    assert_eq!(dev.finish_write::<Nack>(Ok(())), Ok(()));
    assert_eq!(dev.finish_write(Err(Nack)), Err(InterfaceError::Bus(Nack)));
}

#[test]
fn transport_codec_frames() {
    assert_eq!(RegAddrCodec::OneByte.header(0x07), vec![0x07]);
    assert_eq!(RegAddrCodec::TwoByte.header(0x07), vec![0x00, 0x07]);
    let w = RegAddrCodec::TwoByte.frame_write(0x10, 0x03, &[0xAA, 0xBB]);
    assert_eq!(w.bytes, vec![0x00, 0x03, 0xAA, 0xBB]);
    let r = RegAddrCodec::OneByte.frame_read(0x48, 0x05, 2);
    assert_eq!(r, ReadRequest { device_address: 0x48, header: vec![0x05], read_len: 2 });
    assert_eq!(RegAddrCodec::OneByte.parse_read(&[1, 2], 2), Ok(vec![1, 2]));
    assert_eq!(
        RegAddrCodec::OneByte.parse_read(&[1, 2, 3], 2),
        Err(CodecError::WidthMismatch { expected: 2, actual: 3 })
    );
}
