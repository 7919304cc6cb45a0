//! Typed, bit-packed registers of the VEML7700 ambient light sensor, the
//! framing of their I2C transactions, and the decisions of a device handle
//! that reads and writes them.

pub mod address;
pub mod codec;
pub mod device;
pub mod laws;
pub mod registers;
pub mod transport;

pub use address::Address;
pub use codec::{Access, CodecError, Field, Register};
pub use device::{InterfaceError, INA226};
pub use registers::{
    AddressOption, AlsData, Config, DeviceId, Gain, IntegrationTime, InterruptStatus,
    InterruptThresholdCount, PowerSaving, PowerSavingMode, ThresholdWindowHigh,
    ThresholdWindowLow, WhiteData,
};
pub use transport::{ReadRequest, RegAddrCodec, WriteRequest};
