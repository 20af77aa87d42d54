//! The byte transport the client runs over.

use crate::utils::bytes::{spec_u16_be, spec_u32_be, spec_u32_le};
use vstd::prelude::*;

verus! {

/// What `read_u8` makes of what `read_data` gave for one byte: the byte, or
/// the failure as it is.
pub open spec fn spec_u8_of(read: Result<Vec<u8>, std::io::Error>) -> Result<u8, std::io::Error> {
    match read {
        Ok(data) => Ok(data@[0]),
        Err(e) => Err(e),
    }
}

/// What `read_u32_le` makes of what `read_data` gave for four bytes: their
/// value, least significant first, or the failure as it is.
pub open spec fn spec_u32_le_of(read: Result<Vec<u8>, std::io::Error>) -> Result<
    u32,
    std::io::Error,
> {
    match read {
        Ok(data) => Ok(spec_u32_le(data@) as u32),
        Err(e) => Err(e),
    }
}

/// What `read_u32_be` makes of what `read_data` gave for four bytes: their
/// value, most significant first, or the failure as it is.
pub open spec fn spec_u32_be_of(read: Result<Vec<u8>, std::io::Error>) -> Result<
    u32,
    std::io::Error,
> {
    match read {
        Ok(data) => Ok(spec_u32_be(data@) as u32),
        Err(e) => Err(e),
    }
}

/// What `read_u16_be` makes of what `read_data` gave for two bytes: their
/// value, most significant first, or the failure as it is.
pub open spec fn spec_u16_be_of(read: Result<Vec<u8>, std::io::Error>) -> Result<
    u16,
    std::io::Error,
> {
    match read {
        Ok(data) => Ok(spec_u16_be(data@) as u16),
        Err(e) => Err(e),
    }
}

/// A blocking, ordered, reliable byte stream.
///
/// The client is verified against what is written here of `read_data`: a
/// transport that hands back fewer or more bytes than it was asked for
/// breaks every guarantee the client gives.
///
/// The readers of single values are given in terms of `read_data`: each
/// calls it once, for as many bytes as the value has, and makes the value
/// of what comes back. What comes back is the transport's own affair, so
/// their contracts speak of it as of some outcome of that one call.
pub trait Transport: Send {
    /// Opens the stream to the given host and port.
    fn connect(&mut self, ip: String, port: u16) -> (r: Result<(), std::io::Error>);

    /// Closes the stream.
    fn disconnect(&mut self) -> (r: Result<(), std::io::Error>);

    /// Reads exactly `size` bytes, or fails.
    fn read_data(&mut self, size: usize) -> (r: Result<Vec<u8>, std::io::Error>)
        ensures
            r matches Ok(data) ==> data@.len() == size,
    ;

    /// Writes all of `data`, or fails.
    fn write_data(&mut self, data: Vec<u8>) -> (r: Result<(), std::io::Error>);

    /// Reads one byte: one call of `read_data` for one byte takes the
    /// transport from its state before to its state after, and the result
    /// is that byte, or the failure of the call.
    fn read_u8(&mut self) -> (r: Result<u8, std::io::Error>) where Self: Sized
        ensures
            exists|m: &mut Self, read: Result<Vec<u8>, std::io::Error>|
                mut_ref_current(m) == *old(self) && mut_ref_future(m) == *final(self)
                    && #[trigger] call_ensures(Self::read_data, (m, 1usize), read) && r
                    == spec_u8_of(read),
    {
        let read = self.read_data(1);
        match read {
            Ok(data) => Ok(data[0]),
            Err(e) => Err(e),
        }
    }

    /// Reads a 32-bit little-endian integer: one call of `read_data` for
    /// four bytes takes the transport from its state before to its state
    /// after, and the result is the value of those bytes, least significant
    /// first, or the failure of the call.
    fn read_u32_le(&mut self) -> (r: Result<u32, std::io::Error>) where Self: Sized
        ensures
            exists|m: &mut Self, read: Result<Vec<u8>, std::io::Error>|
                mut_ref_current(m) == *old(self) && mut_ref_future(m) == *final(self)
                    && #[trigger] call_ensures(Self::read_data, (m, 4usize), read) && r
                    == spec_u32_le_of(read),
    {
        let read = self.read_data(4);
        match read {
            Ok(data) => Ok(
                data[3] as u32 * 0x100_0000 + data[2] as u32 * 0x1_0000 + data[1] as u32 * 0x100
                    + data[0] as u32,
            ),
            Err(e) => Err(e),
        }
    }

    /// Reads a 32-bit big-endian integer: one call of `read_data` for four
    /// bytes takes the transport from its state before to its state after,
    /// and the result is the value of those bytes, most significant first,
    /// or the failure of the call.
    fn read_u32_be(&mut self) -> (r: Result<u32, std::io::Error>) where Self: Sized
        ensures
            exists|m: &mut Self, read: Result<Vec<u8>, std::io::Error>|
                mut_ref_current(m) == *old(self) && mut_ref_future(m) == *final(self)
                    && #[trigger] call_ensures(Self::read_data, (m, 4usize), read) && r
                    == spec_u32_be_of(read),
    {
        let read = self.read_data(4);
        match read {
            Ok(data) => Ok(
                data[0] as u32 * 0x100_0000 + data[1] as u32 * 0x1_0000 + data[2] as u32 * 0x100
                    + data[3] as u32,
            ),
            Err(e) => Err(e),
        }
    }

    /// Reads a 16-bit big-endian integer: one call of `read_data` for two
    /// bytes takes the transport from its state before to its state after,
    /// and the result is the value of those bytes, most significant first,
    /// or the failure of the call.
    fn read_u16_be(&mut self) -> (r: Result<u16, std::io::Error>) where Self: Sized
        ensures
            exists|m: &mut Self, read: Result<Vec<u8>, std::io::Error>|
                mut_ref_current(m) == *old(self) && mut_ref_future(m) == *final(self)
                    && #[trigger] call_ensures(Self::read_data, (m, 2usize), read) && r
                    == spec_u16_be_of(read),
    {
        let read = self.read_data(2);
        match read {
            Ok(data) => Ok(data[0] as u16 * 0x100 + data[1] as u16),
            Err(e) => Err(e),
        }
    }
}

} // verus!
