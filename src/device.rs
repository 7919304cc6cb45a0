use crate::address::Address;
use crate::codec::{Access, CodecError, Register};
use crate::transport::{ReadRequest, RegAddrCodec, WriteRequest};
use vstd::prelude::*;

verus! {

/// Why a register read or write failed.
#[derive(Debug, PartialEq, Eq)]
pub enum InterfaceError<E> {
    /// The bus failed; its error is passed on unchanged.
    Bus(E),
    /// The bytes could not be turned into a record.
    Codec(CodecError),
    /// The register does not allow the operation; nothing was sent.
    Access(Access),
}

/// A VEML7700 ambient light sensor on an I2C bus.
///
/// The handle owns the bus. Each register access is split in two: a
/// `prepare_*` step that checks the access mode and frames the transaction,
/// and a `finish_*` step that takes what the bus returned. The bus transfer
/// in between, blocking or not, is the caller's.
pub struct INA226<I> {
    /// The interface to communicate with the device.
    pub interface: I,
    address: u8,
    codec: RegAddrCodec,
}

/// What a read of register `R` gives, from what the bus returned.
pub open spec fn read_outcome<R: Register, E>(outcome: Result<Vec<u8>, E>) -> Result<
    R,
    InterfaceError<E>,
> {
    match outcome {
        Err(e) => Err(InterfaceError::Bus(e)),
        Ok(bytes) => match R::spec_decode(bytes@) {
            Ok(record) => Ok(record),
            Err(c) => Err(InterfaceError::Codec(c)),
        },
    }
}

/// What a write gives, from what the bus returned.
pub open spec fn write_outcome<E>(outcome: Result<(), E>) -> Result<(), InterfaceError<E>> {
    match outcome {
        Err(e) => Err(InterfaceError::Bus(e)),
        Ok(()) => Ok(()),
    }
}

impl<I> INA226<I> {
    /// The device address used in every transaction.
    pub closed spec fn spec_device_address(&self) -> u8 {
        self.address
    }

    /// The owned bus.
    pub closed spec fn spec_interface(&self) -> I {
        self.interface
    }

    /// How register addresses are framed on this device's bus.
    pub closed spec fn spec_codec(&self) -> RegAddrCodec {
        self.codec
    }

    /// Initializes a new device with the given address on the specified bus.
    /// This consumes the I2C bus `I`.
    pub fn new_i2c(interface: I, address: Address) -> (r: Self)
        ensures
            r.spec_interface() == interface,
            r.spec_device_address() == address.spec_value(),
            r.spec_codec() == RegAddrCodec::OneByte,
    {
        INA226 { interface, address: address.value(), codec: RegAddrCodec::OneByte }
    }

    pub fn device_address(&self) -> (r: u8)
        ensures
            r == self.spec_device_address(),
    {
        self.address
    }

    /// Frames the read of register `R`, or refuses it where `R` cannot be read.
    pub fn prepare_read<R: Register, E>(&self) -> (r: Result<ReadRequest, InterfaceError<E>>)
        ensures
            r is Ok <==> R::spec_access().spec_readable(),
            r is Ok ==> r->Ok_0.device_address == self.spec_device_address()
                && r->Ok_0.header@ == self.spec_codec().spec_header(R::spec_address())
                && r->Ok_0.read_len == R::spec_width(),
            r is Err ==> r == Err::<ReadRequest, InterfaceError<E>>(
                InterfaceError::Access(R::spec_access()),
            ),
    {
        let access = R::access();
        if !access.readable() {
            return Err(InterfaceError::Access(access));
        }
        Ok(self.codec.frame_read(self.address, R::address(), R::width()))
    }

    /// The result of a read of register `R`, from what the bus returned.
    pub fn finish_read<R: Register, E>(&self, outcome: Result<Vec<u8>, E>) -> (r: Result<
        R,
        InterfaceError<E>,
    >)
        ensures
            r == read_outcome::<R, E>(outcome),
    {
        match outcome {
            Err(e) => Err(InterfaceError::Bus(e)),
            Ok(bytes) => {
                let data = match self.codec.parse_read(bytes.as_slice(), R::width()) {
                    Err(c) => {
                        proof {
                            R::lemma_width_mismatch(bytes@);
                        }
                        return Err(InterfaceError::Codec(c));
                    },
                    Ok(d) => d,
                };
                match R::decode(data.as_slice()) {
                    Ok(record) => Ok(record),
                    Err(c) => Err(InterfaceError::Codec(c)),
                }
            },
        }
    }

    /// Frames the write of `record` to register `R`, or refuses it where `R`
    /// cannot be written.
    pub fn prepare_write<R: Register, E>(&self, record: &R) -> (r: Result<
        WriteRequest,
        InterfaceError<E>,
    >)
        ensures
            r is Ok <==> R::spec_access().spec_writable(),
            r is Ok ==> r->Ok_0.device_address == self.spec_device_address()
                && r->Ok_0.bytes@ == self.spec_codec().spec_header(R::spec_address())
                + record.spec_encode(),
            r is Err ==> r == Err::<WriteRequest, InterfaceError<E>>(
                InterfaceError::Access(R::spec_access()),
            ),
    {
        let access = R::access();
        if !access.writable() {
            return Err(InterfaceError::Access(access));
        }
        let data = record.encode();
        Ok(self.codec.frame_write(self.address, R::address(), data.as_slice()))
    }

    /// The result of a write, from what the bus returned.
    pub fn finish_write<E>(&self, outcome: Result<(), E>) -> (r: Result<(), InterfaceError<E>>)
        ensures
            r == write_outcome(outcome),
    {
        match outcome {
            Err(e) => Err(InterfaceError::Bus(e)),
            Ok(()) => Ok(()),
        }
    }
}

} // verus!
