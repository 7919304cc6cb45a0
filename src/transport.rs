use crate::codec::CodecError;
use vstd::prelude::*;

verus! {

/// How a register address is sent ahead of the register's bytes.
#[derive(Clone, Copy, Debug, PartialEq, Eq, Structural)]
pub enum RegAddrCodec {
    /// One byte: the register address.
    OneByte,
    /// Two bytes: the register address as a big-endian 16-bit number.
    TwoByte,
}

/// One read on the bus: send `header` to the device, then read `read_len`
/// bytes back.
#[derive(Clone, Debug, PartialEq, Eq)]
pub struct ReadRequest {
    pub device_address: u8,
    pub header: Vec<u8>,
    pub read_len: usize,
}

/// One write on the bus: send `bytes` to the device.
#[derive(Clone, Debug, PartialEq, Eq)]
pub struct WriteRequest {
    pub device_address: u8,
    pub bytes: Vec<u8>,
}

impl RegAddrCodec {
    /// The bytes that select a register.
    pub open spec fn spec_header(self, register_address: u8) -> Seq<u8> {
        match self {
            RegAddrCodec::OneByte => seq![register_address],
            RegAddrCodec::TwoByte => seq![0u8, register_address],
        }
    }

    pub fn header(&self, register_address: u8) -> (r: Vec<u8>)
        ensures
            r@ == self.spec_header(register_address),
    {
        let mut r: Vec<u8> = Vec::new();
        match self {
            RegAddrCodec::OneByte => {},
            RegAddrCodec::TwoByte => {
                r.push(0u8);
            },
        }
        r.push(register_address);
        assert(r@ =~= self.spec_header(register_address));
        r
    }

    /// Frames the read of a register of `width` bytes.
    pub fn frame_read(&self, device_address: u8, register_address: u8, width: usize) -> (r:
        ReadRequest)
        ensures
            r.device_address == device_address,
            r.header@ == self.spec_header(register_address),
            r.read_len == width,
    {
        ReadRequest { device_address, header: self.header(register_address), read_len: width }
    }

    /// Frames the write of the bytes `data` to a register.
    pub fn frame_write(&self, device_address: u8, register_address: u8, data: &[u8]) -> (r:
        WriteRequest)
        ensures
            r.device_address == device_address,
            r.bytes@ == self.spec_header(register_address) + data@,
    {
        let mut bytes = self.header(register_address);
        let ghost h = bytes@;
        let mut i: usize = 0;
        while i < data.len()
            invariant
                0 <= i <= data.len(),
                h == self.spec_header(register_address),
                bytes@ == h + data@.subrange(0, i as int),
            decreases data.len() - i,
        {
            bytes.push(data[i]);
            i = i + 1;
            assert(bytes@ =~= h + data@.subrange(0, i as int));
        }
        assert(data@.subrange(0, data.len() as int) =~= data@);
        WriteRequest { device_address, bytes }
    }

    /// The register's bytes out of what a read brought back.
    pub fn parse_read(&self, received: &[u8], width: usize) -> (r: Result<Vec<u8>, CodecError>)
        ensures
            received@.len() == width ==> r is Ok && r->Ok_0@ == received@,
            received@.len() != width ==> r == Err::<Vec<u8>, CodecError>(
                CodecError::WidthMismatch { expected: width, actual: received@.len() as usize },
            ),
    {
        if received.len() != width {
            return Err(CodecError::WidthMismatch { expected: width, actual: received.len() });
        }
        let mut r: Vec<u8> = Vec::new();
        let mut i: usize = 0;
        while i < received.len()
            invariant
                0 <= i <= received.len(),
                r@ == received@.subrange(0, i as int),
            decreases received.len() - i,
        {
            r.push(received[i]);
            i = i + 1;
            assert(r@ =~= received@.subrange(0, i as int));
        }
        assert(received@.subrange(0, received.len() as int) =~= received@);
        Ok(r)
    }
}

} // verus!
