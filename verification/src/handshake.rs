//! The version-3 handshake: C0+C1 out, S0+S1+S2 in, C2 out.

pub mod errors;
pub mod packets;

use crate::amf::AmfValue;
use crate::context::NetConnectionContext;
use crate::errors::Error;
use crate::handshake::errors::HandshakeError;
use crate::handshake::packets::{
    C1S1Packet, C2S2Packet, ClientAckAndConnect, ClientHello, ServerHelloAck,
    RTMP_PROTOCOL_VERSION,
};
use crate::net_connection::transaction_manager::TransactionResult;
use crate::transport::Transport;
use vstd::prelude::*;

verus! {

/// The size of S0, S1 and S2 together.
pub const SERVER_HELLO_ACK_SIZE: usize = 3073;

/// The byte that the client fills its random field with.
pub const RANDOM_FILL: u8 = 0x78;

/// What has been sent and received so far.
pub struct SentReceivedPackets {
    pub client_hello: Option<ClientHello>,
    pub server_hello_ack: Option<ServerHelloAck>,
}

impl Default for SentReceivedPackets {
    fn default() -> (r: Self)
        ensures
            r.client_hello is None,
            r.server_hello_ack is None,
    {
        SentReceivedPackets { client_hello: None, server_hello_ack: None }
    }
}

/// One run of the handshake.
pub struct RTMPHandshake {
    packets: SentReceivedPackets,
}

/// Whether a packet is the hello that the client sends: version 3, time 0,
/// four zero bytes, and 1528 bytes `x`.
pub open spec fn spec_is_client_hello(hello: ClientHello) -> bool {
    &&& hello.c0.version == RTMP_PROTOCOL_VERSION
    &&& hello.c1.time == 0
    &&& hello.c1.version@ == seq![0u8, 0u8, 0u8, 0u8]
    &&& hello.c1.random_data@ == Seq::new(1528, |i: int| RANDOM_FILL)
}

/// Whether a packet answers the server's S1: it has the time of S1, a zero
/// for the time S1 was read, and the random bytes of S1.
pub open spec fn spec_is_ack_of(ack: ClientAckAndConnect, s1: C1S1Packet) -> bool {
    &&& ack.c2.time == s1.time
    &&& ack.c2.time2 == 0
    &&& ack.c2.random_echo == s1.random_data
}

/// What is wrong with the server's answer to a hello, if anything.
pub enum AnswerFault {
    /// The answer is empty.
    NoData,
    /// The answer is shorter than S0, S1 and S2 together.
    Incomplete,
    /// S0 names a version other than 3.
    Version(u8),
    /// S2 does not echo the random bytes of the hello.
    Echo,
    /// Nothing is wrong.
    Faultless,
}

/// What is wrong with the server's answer to a hello: the first of the
/// faults, in the order of `AnswerFault`.
pub open spec fn spec_answer_fault(hello: ClientHello, payload: Seq<u8>) -> AnswerFault {
    if payload.len() == 0 {
        AnswerFault::NoData
    } else if payload.len() < SERVER_HELLO_ACK_SIZE {
        AnswerFault::Incomplete
    } else if payload[0] != RTMP_PROTOCOL_VERSION {
        AnswerFault::Version(payload[0])
    } else if payload.subrange(1545, 3073) != hello.c1.random_data@ {
        AnswerFault::Echo
    } else {
        AnswerFault::Faultless
    }
}

/// Whether an error is the one that a fault of the server's answer is
/// reported with.
pub open spec fn spec_reports(e: Error, fault: AnswerFault, hello: ClientHello, payload: Seq<u8>) -> bool {
    match fault {
        AnswerFault::NoData => e == Error::Handshake(HandshakeError::NoData),
        AnswerFault::Incomplete => e == (Error::Incomplete { needed: SERVER_HELLO_ACK_SIZE }),
        AnswerFault::Version(v) => e == Error::Handshake(HandshakeError::VersionError(v)),
        AnswerFault::Echo => e matches Error::Handshake(
            HandshakeError::EchoMismatch { expected, got },
        ) && expected == hello.c1.random_data && got@ == payload.subrange(1545, 3073),
        AnswerFault::Faultless => false,
    }
}

/// The hello that the client sends, on the wire: the version 3, the time
/// 0, four zero bytes, and 1528 bytes `x`.
pub open spec fn spec_client_hello_bytes() -> Seq<u8> {
    seq![RTMP_PROTOCOL_VERSION] + seq![0u8, 0u8, 0u8, 0u8] + seq![0u8, 0u8, 0u8, 0u8] + Seq::new(
        1528,
        |i: int| RANDOM_FILL,
    )
}

/// The packet that answers the server's answer, on the wire: the time of
/// S1, a zero for the time S1 was read, and the random bytes of S1.
pub open spec fn spec_ack_bytes(payload: Seq<u8>) -> Seq<u8>
    recommends
        payload.len() >= SERVER_HELLO_ACK_SIZE,
{
    payload.subrange(1, 5) + seq![0u8, 0u8, 0u8, 0u8] + payload.subrange(9, 1537)
}

/// The hello that the client sends has the bytes of `spec_client_hello_bytes`.
pub proof fn lemma_client_hello_bytes(hello: ClientHello)
    requires
        spec_is_client_hello(hello),
    ensures
        hello.spec_bytes() == spec_client_hello_bytes(),
{
    assert(crate::utils::bytes::u32_be_bytes(0) =~= seq![0u8, 0u8, 0u8, 0u8]);
    assert(hello.spec_bytes() =~= spec_client_hello_bytes());
}

/// Whether an error is the one that the handshake ends with on the given
/// answer of the server to the client's hello: the answer is whole, and
/// the error reports the first fault of it.
pub open spec fn spec_handshake_refused(e: Error, answer: Seq<u8>) -> bool {
    &&& answer.len() == SERVER_HELLO_ACK_SIZE
    &&& exists|hello: ClientHello| #[trigger]
        spec_is_client_hello(hello) && spec_reports(
            e,
            spec_answer_fault(hello, answer),
            hello,
            answer,
        )
}

impl RTMPHandshake {
    /// The hello that has been sent, if one has.
    pub closed spec fn spec_client_hello(&self) -> Option<ClientHello> {
        self.packets.client_hello
    }

    /// The answer that has been received, if one has.
    pub closed spec fn spec_server_hello_ack(&self) -> Option<ServerHelloAck> {
        self.packets.server_hello_ack
    }

    /// A handshake that has not begun.
    pub fn new() -> (r: Self)
        ensures
            r.spec_client_hello() is None,
            r.spec_server_hello_ack() is None,
    {
        RTMPHandshake { packets: SentReceivedPackets::default() }
    }

    /// The hello that the client sends.
    pub fn create_client_hello(&self) -> (r: ClientHello)
        ensures
            spec_is_client_hello(r),
    {
        let r = ClientHello::new(RTMP_PROTOCOL_VERSION, 0, [0x78;1528]);
        assert(r.c1.random_data@ =~= Seq::new(1528, |i: int| RANDOM_FILL));
        r
    }

    /// The packet that answers the server's S1.
    pub fn create_client_ack_and_connect(&self, s1: C1S1Packet) -> (r: ClientAckAndConnect)
        ensures
            spec_is_ack_of(r, s1),
    {
        ClientAckAndConnect::new(C2S2Packet { time: s1.time, time2: 0, random_echo: s1.random_data })
    }

    /// Checks the server's answer to the hello and makes the packet that
    /// answers it. The answer is kept on record when it is whole. Where no
    /// hello has been sent, there is no data to check the answer against.
    pub fn answer_server_hello(&mut self, payload: &[u8]) -> (r: Result<ClientAckAndConnect, Error>)
        ensures
            final(self).spec_client_hello() == old(self).spec_client_hello(),
            old(self).spec_client_hello() is None ==> (r matches Err(e) && e == Error::Handshake(
                HandshakeError::NoData,
            )),
            old(self).spec_client_hello() is Some ==> match r {
                Ok(ack) => spec_answer_fault(old(self).spec_client_hello()->0, payload@)
                    is Faultless && ack.spec_bytes() == spec_ack_bytes(payload@)
                        && final(self).spec_server_hello_ack() is Some,
                Err(e) => spec_reports(
                    e,
                    spec_answer_fault(old(self).spec_client_hello()->0, payload@),
                    old(self).spec_client_hello()->0,
                    payload@,
                ),
            },
    {
        let client_hello = match self.packets.client_hello {
            Some(h) => h,
            None => { return Err(Error::Handshake(HandshakeError::NoData)); },
        };
        if payload.len() == 0 {
            return Err(Error::Handshake(HandshakeError::NoData));
        }
        let (_, server_hello_ack) = match ServerHelloAck::from_bytes(payload) {
            Ok(x) => x,
            Err(e) => { return Err(e); },
        };
        self.packets.server_hello_ack = Some(server_hello_ack);
        if server_hello_ack.s0.version != RTMP_PROTOCOL_VERSION {
            return Err(Error::Handshake(HandshakeError::VersionError(server_hello_ack.s0.version)));
        }
        let c1_random_data = client_hello.c1.random_data;
        let s2_random_data = server_hello_ack.s2.random_echo;
        proof {
            assert(payload@.skip(1537).subrange(8, 1536) =~= payload@.subrange(1545, 3073));
            assert(payload@.skip(1).subrange(8, 1536) =~= payload@.subrange(9, 1537));
        }
        let mut same = true;
        let mut i: usize = 0;
        while i < 1528
            invariant
                i <= 1528,
                same == (forall|j: int| 0 <= j < i ==> c1_random_data@[j] == s2_random_data@[j]),
            decreases 1528 - i,
        {
            if c1_random_data[i] != s2_random_data[i] {
                same = false;
            }
            i += 1;
        }
        if !same {
            assert(c1_random_data@ != s2_random_data@);
            return Err(
                Error::Handshake(
                    HandshakeError::EchoMismatch { expected: c1_random_data, got: s2_random_data },
                ),
            );
        }
        assert(c1_random_data@ =~= s2_random_data@);
        let ack = self.create_client_ack_and_connect(server_hello_ack.s1);
        proof {
            crate::utils::bytes::lemma_u32_be_bytes_of_value(payload@.skip(1));
            assert(payload@.skip(1).take(4) =~= payload@.subrange(1, 5));
            assert(crate::utils::bytes::u32_be_bytes(0) =~= seq![0u8, 0u8, 0u8, 0u8]);
            assert(ack.spec_bytes() =~= spec_ack_bytes(payload@));
        }
        Ok(ack)
    }

    /// Sends the hello.
    fn send_client_hello<T: Transport, F: Fn(TransactionResult, AmfValue, Vec<AmfValue>)>(
        &mut self,
        context: &mut NetConnectionContext<T, F>,
    ) -> (r: Result<(), Error>)
        ensures
            final(context).spec_same_session(old(context)),
            final(context).chunk_streams == old(context).chunk_streams,
            final(context).received@ == old(context).received@,
            final(context).bytes_received == old(context).bytes_received,
            final(self).spec_server_hello_ack() == old(self).spec_server_hello_ack(),
            match r {
                Ok(()) => final(self).spec_client_hello() matches Some(hello)
                    && spec_is_client_hello(hello) && final(context).sent@ == old(context).sent@
                    + spec_client_hello_bytes(),
                Err(e) => e is Io && final(context).sent@ == old(context).sent@
                    && final(self).spec_client_hello() == old(self).spec_client_hello(),
            },
    {
        let client_hello = self.create_client_hello();
        proof {
            lemma_client_hello_bytes(client_hello);
        }
        context.write_data(client_hello.to_bytes())?;
        self.packets.client_hello = Some(client_hello);
        Ok(())
    }

    /// Reads the server's answer, checks it, and sends the packet that
    /// answers it.
    fn handle_server_hello_ack<T: Transport, F: Fn(TransactionResult, AmfValue, Vec<AmfValue>)>(
        &mut self,
        context: &mut NetConnectionContext<T, F>,
    ) -> (r: Result<(), Error>)
        requires
            old(self).spec_client_hello() is Some,
        ensures
            final(context).spec_same_session(old(context)),
            final(context).chunk_streams == old(context).chunk_streams,
            final(context).received@ == old(context).received@ + final(context).spec_read_since(
                old(context),
            ),
            final(self).spec_client_hello() == old(self).spec_client_hello(),
            match r {
                Ok(()) => {
                    let read = final(context).spec_read_since(old(context));
                    &&& read.len() == SERVER_HELLO_ACK_SIZE
                    &&& spec_answer_fault(old(self).spec_client_hello()->0, read) is Faultless
                    &&& final(context).sent@ == old(context).sent@ + spec_ack_bytes(read)
                },
                Err(e) => final(context).sent@ == old(context).sent@ && (e is Io
                    || (final(context).spec_read_since(old(context)).len()
                    == SERVER_HELLO_ACK_SIZE && spec_reports(
                    e,
                    spec_answer_fault(
                        old(self).spec_client_hello()->0,
                        final(context).spec_read_since(old(context)),
                    ),
                    old(self).spec_client_hello()->0,
                    final(context).spec_read_since(old(context)),
                ))),
            },
    {
        let payload = match context.read_data(SERVER_HELLO_ACK_SIZE) {
            Ok(p) => p,
            Err(e) => {
                assert(context.spec_read_since(old(context)) =~= Seq::<u8>::empty());
                assert(context.received@ =~= old(context).received@ + Seq::<u8>::empty());
                return Err(e);
            },
        };
        assert(context.spec_read_since(old(context)) =~= payload@);
        let client_ack_and_connect = self.answer_server_hello(payload.as_slice())?;
        context.write_data(client_ack_and_connect.to_bytes())
    }

    /// Runs the handshake: sends C0 and C1, reads S0, S1 and S2, checks
    /// them, and sends C2. A handshake runs once.
    pub fn do_handshake<T: Transport, F: Fn(TransactionResult, AmfValue, Vec<AmfValue>)>(
        &mut self,
        context: &mut NetConnectionContext<T, F>,
    ) -> (r: Result<(), Error>)
        ensures
            final(context).spec_same_session(old(context)),
            final(context).chunk_streams == old(context).chunk_streams,
            final(context).received@ == old(context).received@ + final(context).spec_read_since(
                old(context),
            ),
            old(self).spec_client_hello() is Some ==> (r matches Err(e) && e == Error::Handshake(
                HandshakeError::HandshakeAlreadyDone,
            ) && final(context).sent@ == old(context).sent@ && final(context).received@
                == old(context).received@),
            old(self).spec_client_hello() is None ==> match r {
                Ok(()) => {
                    let read = final(context).spec_read_since(old(context));
                    &&& read.len() == SERVER_HELLO_ACK_SIZE
                    &&& final(self).spec_client_hello() matches Some(hello) && spec_is_client_hello(
                        hello,
                    ) && spec_answer_fault(hello, read) is Faultless
                    &&& final(context).sent@ == old(context).sent@ + spec_client_hello_bytes()
                        + spec_ack_bytes(read)
                },
                Err(e) => (e is Io && (final(context).sent@ == old(context).sent@
                    || final(context).sent@ == old(context).sent@ + spec_client_hello_bytes()))
                    || (final(self).spec_client_hello() matches Some(hello)
                    && spec_is_client_hello(hello)
                    && final(context).sent@ == old(context).sent@ + spec_client_hello_bytes()
                    && final(context).spec_read_since(old(context)).len() == SERVER_HELLO_ACK_SIZE
                    && spec_reports(
                    e,
                    spec_answer_fault(hello, final(context).spec_read_since(old(context))),
                    hello,
                    final(context).spec_read_since(old(context)),
                )),
            },
    {
        if self.packets.client_hello.is_some() {
            assert(context.spec_read_since(old(context)) =~= Seq::<u8>::empty());
            assert(context.received@ =~= old(context).received@ + Seq::<u8>::empty());
            return Err(Error::Handshake(HandshakeError::HandshakeAlreadyDone));
        }
        match self.send_client_hello(context) {
            Ok(()) => {},
            Err(e) => {
                assert(context.spec_read_since(old(context)) =~= Seq::<u8>::empty());
                assert(context.received@ =~= old(context).received@ + Seq::<u8>::empty());
                return Err(e);
            },
        }
        let ghost middle = context.received@;
        let r = self.handle_server_hello_ack(context);
        assert(context.received@.skip(middle.len() as int) =~= context.spec_read_since(
            old(context),
        ));
        r
    }
}

} // verus!
