//! The packets of the handshake and their wire format.

use crate::errors::Error;
use crate::utils::bytes::{
    array_from_slice, be_u32, be_u8, lemma_u32_be_of_prefix, put_slice, put_u32_be, spec_u32_be,
    take, u32_be_bytes, RTMPResult,
};
use vstd::prelude::*;

verus! {

/// The protocol version this client speaks.
pub const RTMP_PROTOCOL_VERSION: u8 = 3;

/// How many arbitrary bytes each side sends to be echoed.
pub const RANDOM_ECHO_SIZE: usize = 1528;

/// The size of C1, S1, C2 and S2 on the wire.
pub const HANDSHAKE_PACKET_SIZE: usize = 1536;

/// C0 and S0: the protocol version, one byte.
#[derive(Debug, Clone, Copy, PartialEq)]
pub struct Version {
    pub version: u8,
}

impl Default for Version {
    fn default() -> (r: Self)
        ensures
            r.version == RTMP_PROTOCOL_VERSION,
    {
        Version { version: RTMP_PROTOCOL_VERSION }
    }
}

impl Version {
    /// The packet on the wire.
    pub open spec fn spec_bytes(self) -> Seq<u8> {
        seq![self.version]
    }

    pub fn new(version: u8) -> (r: Self)
        ensures
            r.version == version,
    {
        Version { version }
    }

    /// Whether this is the version the client speaks.
    pub fn is_valid(&self) -> (r: bool)
        ensures
            r == (self.version == RTMP_PROTOCOL_VERSION),
    {
        self.version == RTMP_PROTOCOL_VERSION
    }

    pub fn to_bytes(&self) -> (r: [u8; 1])
        ensures
            r@ == self.spec_bytes(),
    {
        let r = [self.version];
        assert(r@ =~= self.spec_bytes());
        r
    }

    /// Reads the version byte at the front of `bytes`.
    pub fn from_bytes<'a>(bytes: &'a [u8]) -> (r: RTMPResult<'a, Self>)
        ensures
            match r {
                Ok((rest, v)) => bytes@.len() >= 1 && v.version == bytes@[0] && rest@
                    == bytes@.skip(1),
                Err(e) => bytes@.len() < 1 && e == (Error::Incomplete { needed: 1 }),
            },
    {
        let (i, version) = be_u8(bytes)?;
        Ok((i, Version { version }))
    }
}

/// C1 and S1: a timestamp, four bytes that are zero or a version, and the
/// random bytes to be echoed.
#[derive(Debug, Clone, Copy, PartialEq)]
pub struct C1S1Packet {
    pub time: u32,
    pub version: [u8; 4],
    pub random_data: [u8; 1528],
}

impl Default for C1S1Packet {
    fn default() -> (r: Self)
        ensures
            r.time == 0,
            r.version@ == seq![0u8, 0u8, 0u8, 0u8],
            r.random_data@ == Seq::new(1528, |i: int| 0u8),
    {
        let r = C1S1Packet { time: 0, version: [0, 0, 0, 0], random_data: [0;1528] };
        assert(r.version@ =~= seq![0u8, 0u8, 0u8, 0u8]);
        assert(r.random_data@ =~= Seq::new(1528, |i: int| 0u8));
        r
    }
}

impl C1S1Packet {
    /// The packet on the wire: 1536 bytes.
    pub open spec fn spec_bytes(self) -> Seq<u8> {
        u32_be_bytes(self.time) + self.version@ + self.random_data@
    }

    /// Whether this packet is the one that the first 1536 bytes of `s` hold.
    pub open spec fn spec_is_parse_of(self, s: Seq<u8>) -> bool
        recommends
            s.len() >= 1536,
    {
        &&& self.time == spec_u32_be(s)
        &&& self.version@ == s.subrange(4, 8)
        &&& self.random_data@ == s.subrange(8, 1536)
    }

    pub fn new(time: u32, random_data: [u8; 1528]) -> (r: Self)
        ensures
            r.time == time,
            r.version@ == seq![0u8, 0u8, 0u8, 0u8],
            r.random_data == random_data,
    {
        let r = C1S1Packet { time, version: [0, 0, 0, 0], random_data };
        assert(r.version@ =~= seq![0u8, 0u8, 0u8, 0u8]);
        r
    }

    pub fn to_bytes(&self) -> (r: Vec<u8>)
        ensures
            r@ == self.spec_bytes(),
            r@.len() == 1536,
    {
        let mut bytes = Vec::with_capacity(1536);
        put_u32_be(&mut bytes, self.time);
        put_slice(&mut bytes, self.version.as_slice());
        put_slice(&mut bytes, self.random_data.as_slice());
        bytes
    }

    /// Reads the packet that the first 1536 bytes of `bytes` hold.
    pub fn from_bytes<'a>(bytes: &'a [u8]) -> (r: RTMPResult<'a, Self>)
        ensures
            match r {
                Ok((rest, p)) => bytes@.len() >= 1536 && p.spec_is_parse_of(bytes@) && rest@
                    == bytes@.skip(1536),
                Err(e) => bytes@.len() < 1536 && e == (Error::Incomplete { needed: 1536 }),
            },
    {
        if bytes.len() < 1536 {
            return Err(Error::Incomplete { needed: 1536 });
        }
        let (i, time) = be_u32(bytes)?;
        let (i, version) = take(i, 4)?;
        let (i, random_data) = take(i, 1528)?;
        assert(version@ =~= bytes@.subrange(4, 8));
        assert(random_data@ =~= bytes@.subrange(8, 1536));
        assert(i@ =~= bytes@.skip(1536));
        Ok(
            (
                i,
                C1S1Packet {
                    time,
                    version: array_from_slice(version),
                    random_data: array_from_slice(random_data),
                },
            ),
        )
    }

    /// A packet is the one read back from its own bytes, whatever follows them.
    pub proof fn lemma_roundtrip(self, tail: Seq<u8>)
        ensures
            self.spec_bytes().len() == 1536,
            self.spec_is_parse_of(self.spec_bytes() + tail),
    {
        let s = self.spec_bytes() + tail;
        assert(s.take(4) =~= u32_be_bytes(self.time));
        lemma_u32_be_of_prefix(self.time, s);
        assert(s.subrange(4, 8) =~= self.version@);
        assert(s.subrange(8, 1536) =~= self.random_data@);
    }
}

/// C2 and S2: the peer's timestamp, the time its packet was read, and the
/// echo of the peer's random bytes.
#[derive(Debug, Clone, Copy, PartialEq)]
pub struct C2S2Packet {
    pub time: u32,
    pub time2: u32,
    pub random_echo: [u8; 1528],
}

impl Default for C2S2Packet {
    fn default() -> (r: Self)
        ensures
            r.time == 0,
            r.time2 == 0,
            r.random_echo@ == Seq::new(1528, |i: int| 0u8),
    {
        let r = C2S2Packet { time: 0, time2: 0, random_echo: [0;1528] };
        assert(r.random_echo@ =~= Seq::new(1528, |i: int| 0u8));
        r
    }
}

impl C2S2Packet {
    /// The packet on the wire: 1536 bytes.
    pub open spec fn spec_bytes(self) -> Seq<u8> {
        u32_be_bytes(self.time) + u32_be_bytes(self.time2) + self.random_echo@
    }

    /// Whether this packet is the one that the first 1536 bytes of `s` hold.
    pub open spec fn spec_is_parse_of(self, s: Seq<u8>) -> bool
        recommends
            s.len() >= 1536,
    {
        &&& self.time == spec_u32_be(s)
        &&& self.time2 == spec_u32_be(s.skip(4))
        &&& self.random_echo@ == s.subrange(8, 1536)
    }

    pub fn new(time: u32, time2: u32, random_echo: [u8; 1528]) -> (r: Self)
        ensures
            r.time == time,
            r.time2 == time2,
            r.random_echo == random_echo,
    {
        C2S2Packet { time, time2, random_echo }
    }

    pub fn to_bytes(&self) -> (r: Vec<u8>)
        ensures
            r@ == self.spec_bytes(),
            r@.len() == 1536,
    {
        let mut bytes = Vec::with_capacity(1536);
        put_u32_be(&mut bytes, self.time);
        put_u32_be(&mut bytes, self.time2);
        put_slice(&mut bytes, self.random_echo.as_slice());
        bytes
    }

    /// Reads the packet that the first 1536 bytes of `bytes` hold.
    pub fn from_bytes<'a>(bytes: &'a [u8]) -> (r: RTMPResult<'a, Self>)
        ensures
            match r {
                Ok((rest, p)) => bytes@.len() >= 1536 && p.spec_is_parse_of(bytes@) && rest@
                    == bytes@.skip(1536),
                Err(e) => bytes@.len() < 1536 && e == (Error::Incomplete { needed: 1536 }),
            },
    {
        if bytes.len() < 1536 {
            return Err(Error::Incomplete { needed: 1536 });
        }
        let (i, time) = be_u32(bytes)?;
        let (i, time2) = be_u32(i)?;
        let (i, random_data) = take(i, 1528)?;
        assert(random_data@ =~= bytes@.subrange(8, 1536));
        assert(i@ =~= bytes@.skip(1536));
        Ok((i, C2S2Packet { time, time2, random_echo: array_from_slice(random_data) }))
    }

    /// A packet is the one read back from its own bytes, whatever follows them.
    pub proof fn lemma_roundtrip(self, tail: Seq<u8>)
        ensures
            self.spec_bytes().len() == 1536,
            self.spec_is_parse_of(self.spec_bytes() + tail),
    {
        let s = self.spec_bytes() + tail;
        assert(s.take(4) =~= u32_be_bytes(self.time));
        lemma_u32_be_of_prefix(self.time, s);
        assert(s.skip(4).take(4) =~= u32_be_bytes(self.time2));
        lemma_u32_be_of_prefix(self.time2, s.skip(4));
        assert(s.subrange(8, 1536) =~= self.random_echo@);
    }
}

/// C0 and C1 together: what the client sends first.
#[derive(Debug, Clone, Copy, PartialEq)]
pub struct ClientHello {
    pub c0: Version,
    pub c1: C1S1Packet,
}

impl ClientHello {
    /// The packet on the wire: 1537 bytes.
    pub open spec fn spec_bytes(self) -> Seq<u8> {
        self.c0.spec_bytes() + self.c1.spec_bytes()
    }

    pub fn new(version: u8, time: u32, random_data: [u8; 1528]) -> (r: Self)
        ensures
            r.c0.version == version,
            r.c1.time == time,
            r.c1.version@ == seq![0u8, 0u8, 0u8, 0u8],
            r.c1.random_data == random_data,
    {
        ClientHello { c0: Version::new(version), c1: C1S1Packet::new(time, random_data) }
    }

    pub fn to_bytes(&self) -> (r: Vec<u8>)
        ensures
            r@ == self.spec_bytes(),
            r@.len() == 1537,
    {
        let mut bytes = Vec::with_capacity(1 + 1536);
        let c0 = self.c0.to_bytes();
        put_slice(&mut bytes, c0.as_slice());
        let c1 = self.c1.to_bytes();
        put_slice(&mut bytes, c1.as_slice());
        bytes
    }
}

/// S0, S1 and S2 together: the server's answer.
#[derive(Debug, Clone, Copy, PartialEq)]
pub struct ServerHelloAck {
    pub s0: Version,
    pub s1: C1S1Packet,
    pub s2: C2S2Packet,
}

impl ServerHelloAck {
    /// The answer on the wire: 3073 bytes.
    pub open spec fn spec_bytes(self) -> Seq<u8> {
        self.s0.spec_bytes() + self.s1.spec_bytes() + self.s2.spec_bytes()
    }

    /// Whether this answer is the one that the first 3073 bytes of `s` hold.
    pub open spec fn spec_is_parse_of(self, s: Seq<u8>) -> bool
        recommends
            s.len() >= 3073,
    {
        &&& self.s0.version == s[0]
        &&& self.s1.spec_is_parse_of(s.skip(1))
        &&& self.s2.spec_is_parse_of(s.skip(1537))
    }

    /// Reads the answer that the first 3073 bytes of `bytes` hold.
    pub fn from_bytes<'a>(bytes: &'a [u8]) -> (r: RTMPResult<'a, Self>)
        ensures
            match r {
                Ok((rest, p)) => bytes@.len() >= 3073 && p.spec_is_parse_of(bytes@) && rest@
                    == bytes@.skip(3073),
                Err(e) => bytes@.len() < 3073 && e == (Error::Incomplete { needed: 3073 }),
            },
    {
        if bytes.len() < 1 + 1536 + 1536 {
            return Err(Error::Incomplete { needed: 3073 });
        }
        let (i, s0) = Version::from_bytes(bytes)?;
        let (i, s1) = C1S1Packet::from_bytes(i)?;
        assert(i@ =~= bytes@.skip(1537));
        let (i, s2) = C2S2Packet::from_bytes(i)?;
        assert(i@ =~= bytes@.skip(3073));
        Ok((i, ServerHelloAck { s0, s1, s2 }))
    }

    /// An answer is the one read back from its own bytes, whatever follows them.
    pub proof fn lemma_roundtrip(self, tail: Seq<u8>)
        ensures
            self.spec_bytes().len() == 3073,
            self.spec_is_parse_of(self.spec_bytes() + tail),
    {
        let s = self.spec_bytes() + tail;
        self.s1.lemma_roundtrip(self.s2.spec_bytes() + tail);
        self.s2.lemma_roundtrip(tail);
        assert(s.skip(1) =~= self.s1.spec_bytes() + (self.s2.spec_bytes() + tail));
        assert(s.skip(1537) =~= self.s2.spec_bytes() + tail);
    }
}

/// C2: the client's acknowledgement, after which the connection is open.
#[derive(Debug, Clone, Copy, PartialEq)]
pub struct ClientAckAndConnect {
    pub c2: C2S2Packet,
}

impl ClientAckAndConnect {
    /// The packet on the wire: 1536 bytes.
    pub open spec fn spec_bytes(self) -> Seq<u8> {
        self.c2.spec_bytes()
    }

    pub fn new(c2: C2S2Packet) -> (r: Self)
        ensures
            r.c2 == c2,
    {
        ClientAckAndConnect { c2 }
    }

    pub fn to_bytes(&self) -> (r: Vec<u8>)
        ensures
            r@ == self.spec_bytes(),
            r@.len() == 1536,
    {
        self.c2.to_bytes()
    }
}

} // verus!
