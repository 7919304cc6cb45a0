use vstd::prelude::*;

verus! {

/// The device's fixed I2C address.
pub const REGULAR_ADDRESS: u8 = 0x10;

/// The I2C address of a VEML7700.
#[derive(Clone, Copy, Debug, PartialEq, Eq, Structural)]
pub enum Address {
    /// Regular device address 0x10.
    Regular,
    /// Custom address not directly supported by the device, but may be useful
    /// when using address translators.
    Custom(u8),
}

impl Address {
    /// The 7-bit address used on the bus.
    pub open spec fn spec_value(self) -> u8 {
        match self {
            Address::Regular => REGULAR_ADDRESS,
            Address::Custom(x) => x,
        }
    }

    pub fn value(&self) -> (r: u8)
        ensures
            r == self.spec_value(),
    {
        match self {
            Address::Regular => REGULAR_ADDRESS,
            Address::Custom(x) => *x,
        }
    }
}

impl From<Address> for u8 {
    fn from(address: Address) -> (r: u8) {
        address.value()
    }
}

impl vstd::std_specs::convert::FromSpecImpl<Address> for u8 {
    open spec fn obeys_from_spec() -> bool {
        true
    }

    open spec fn from_spec(v: Address) -> u8 {
        v.spec_value()
    }
}

} // verus!
