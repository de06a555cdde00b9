//! The version/verack handshake with one peer, as a state machine driven by transport
//! events, and the tally of outcomes over many peers
use vstd::prelude::*;
use crate::constants::PROTOCOL_VERSION;
use crate::messages::codec::{Codec, CodecError, Decode, Encode};
use crate::messages::{Chain, Message, MessageModel};
use crate::messages::types::verack::VerackMessage;
use crate::messages::types::version::{
    ipv6_octets, NetworkAddressModel, Services, SocketAddress, VersionMessage,
    VersionMessageModel,
};

verus! {

/// Why a handshake with one peer failed
#[derive(Debug, Clone, Copy, PartialEq, Eq, Structural)]
pub enum HandshakeError {
    /// The transport could not connect to the peer
    ConnectError,
    /// A message could not be encoded, or a reply could not be decoded
    Codec(CodecError),
    /// The peer replied on another network than the one spoken to it
    WrongNetwork,
    /// The handshake did not finish within its time budget
    Timeout,
}

/// Where a handshake stands
#[derive(Debug, Clone, Copy, PartialEq, Eq, Structural)]
pub enum HandshakeState {
    Connecting,
    AwaitingVersionReply,
    AwaitingVerackReply,
    Complete,
    Failed(HandshakeError),
}

/// What the transport reports to the handshake
#[derive(Debug, Clone)]
pub enum HandshakeEvent {
    /// The connection is open; carries both endpoints, the current Unix time in
    /// seconds and a fresh random nonce for the version message
    Connected { local: SocketAddress, peer: SocketAddress, timestamp: i64, nonce: u64 },
    /// The connection could not be opened, or failed while in use
    TransportFailed,
    /// Bytes arrived from the peer
    Received(Vec<u8>),
    /// The peer closed the stream
    Closed,
    /// The time budget ran out
    TimedOut,
}

/// What the handshake asks the transport to do next
#[derive(Debug, Clone)]
pub enum HandshakeAction {
    /// Write these bytes to the peer; then, unless the handshake has finished, report
    /// what is read next
    Send(Vec<u8>),
    /// Nothing to send: report the next event
    Wait,
    /// Nothing more: the handshake has finished
    Finish,
}

/// A handshake with one peer
pub struct Handshake {
    /// The network spoken to the peer
    pub chain: Chain,
    /// Services of this node
    pub services: Services,
    /// Services this node assumes of the peer
    pub receiving_services: Services,
    pub state: HandshakeState,
}

/// Whether `state` is final.
pub open spec fn is_terminal(state: HandshakeState) -> bool {
    state is Complete || state is Failed
}

/// The version message this node sends: its protocol version and services, the peer's
/// address as the receiving node, its own as the transmitting node, an empty user
/// agent, start height 0 and relay off.
pub open spec fn handshake_version(
    services: Services,
    receiving_services: Services,
    local: SocketAddress,
    peer: SocketAddress,
    timestamp: i64,
    nonce: u64,
) -> VersionMessageModel {
    VersionMessageModel {
        version: PROTOCOL_VERSION,
        services: services@,
        timestamp,
        receiving_node: NetworkAddressModel {
            services: receiving_services@,
            ip_address: ipv6_octets(peer.ip),
            port: peer.port,
        },
        transmitting_node: NetworkAddressModel {
            services: services@,
            ip_address: ipv6_octets(local.ip),
            port: local.port,
        },
        nonce,
        user_agent: Seq::empty(),
        start_height: 0,
        relay: false,
    }
}

/// The outcome of reading a version reply from `data`: the number of bytes its frame
/// took, or why the handshake fails.
pub open spec fn version_reply(chain: Chain, data: Seq<u8>) -> Result<nat, HandshakeError> {
    match Message::<VersionMessage>::spec_decode(data) {
        Ok((m, n)) => if m.chain != chain {
            Err(HandshakeError::WrongNetwork)
        } else {
            Ok(n)
        },
        Err(e) => Err(HandshakeError::Codec(e)),
    }
}

/// The outcome of reading a verack reply from `data`, as for `version_reply`.
pub open spec fn verack_reply(chain: Chain, data: Seq<u8>) -> Result<nat, HandshakeError> {
    match Message::<VerackMessage>::spec_decode(data) {
        Ok((m, n)) => if m.chain != chain {
            Err(HandshakeError::WrongNetwork)
        } else {
            Ok(n)
        },
        Err(e) => Err(HandshakeError::Codec(e)),
    }
}

/// The state after a verack reply read from `data`.
pub open spec fn after_verack(chain: Chain, data: Seq<u8>) -> HandshakeState {
    match verack_reply(chain, data) {
        Ok(_) => HandshakeState::Complete,
        Err(e) => HandshakeState::Failed(e),
    }
}

/// The frame that carries the verack message on `chain`.
pub open spec fn verack_frame(chain: Chain) -> Seq<u8> {
    Message::<VerackMessage>::spec_encode(MessageModel { chain, message: VerackMessage })->Ok_0
}

/// The state after `data` was read while awaiting the verack reply, and the peer
/// `closed` the stream or not: nothing at all on a closed stream is taken as
/// completion, since many peers never send their acknowledgment.
pub open spec fn verack_step(chain: Chain, data: Seq<u8>, closed: bool) -> HandshakeState {
    if data.len() == 0 {
        if closed {
            HandshakeState::Complete
        } else {
            HandshakeState::AwaitingVerackReply
        }
    } else {
        after_verack(chain, data)
    }
}

/// The state after `data` was read while awaiting the version reply. The bytes after
/// the version frame, if any, are read at once as the verack reply.
pub open spec fn after_version(chain: Chain, data: Seq<u8>) -> HandshakeState {
    match version_reply(chain, data) {
        Ok(n) => verack_step(chain, data.skip(n as int), false),
        Err(e) => HandshakeState::Failed(e),
    }
}

/// The state that `event` leads to from `state`, on a handshake over `chain`. A finished
/// handshake stays as it is, and so does one that gets an event it does not await.
pub open spec fn next_state(chain: Chain, state: HandshakeState, event: HandshakeEvent) -> HandshakeState {
    if is_terminal(state) {
        state
    } else {
        match event {
            HandshakeEvent::TimedOut => HandshakeState::Failed(HandshakeError::Timeout),
            HandshakeEvent::TransportFailed => HandshakeState::Failed(HandshakeError::ConnectError),
            HandshakeEvent::Connected { .. } => if state is Connecting {
                HandshakeState::AwaitingVersionReply
            } else {
                state
            },
            HandshakeEvent::Received(b) => match state {
                HandshakeState::AwaitingVersionReply => after_version(chain, b@),
                HandshakeState::AwaitingVerackReply => verack_step(chain, b@, false),
                _ => state,
            },
            HandshakeEvent::Closed => match state {
                HandshakeState::AwaitingVersionReply => after_version(chain, Seq::empty()),
                HandshakeState::AwaitingVerackReply => verack_step(chain, Seq::empty(), true),
                _ => state,
            },
        }
    }
}

/// The bytes read off the peer that `event` carries.
pub open spec fn event_data(event: HandshakeEvent) -> Seq<u8> {
    match event {
        HandshakeEvent::Received(b) => b@,
        _ => Seq::empty(),
    }
}

/// Whether `event` makes the handshake send a message: the version message once
/// connected, the verack once the peer's version message has been accepted.
pub open spec fn sends(chain: Chain, state: HandshakeState, event: HandshakeEvent) -> bool {
    ||| state is Connecting && event is Connected
    ||| state is AwaitingVersionReply && (event is Received || event is Closed) && version_reply(
        chain,
        event_data(event),
    ) is Ok
}

impl Handshake {
    /// A handshake on `chain` that has not connected yet.
    pub fn new(chain: Chain, services: Services, receiving_services: Services) -> (r: Self)
        ensures
            r.chain == chain,
            r.services == services,
            r.receiving_services == receiving_services,
            r.state == HandshakeState::Connecting,
    {
        Handshake { chain, services, receiving_services, state: HandshakeState::Connecting }
    }

    /// Whether the handshake has finished, successfully or not.
    pub fn is_finished(&self) -> (r: bool)
        ensures
            r == is_terminal(self.state),
    {
        match self.state {
            HandshakeState::Complete | HandshakeState::Failed(_) => true,
            _ => false,
        }
    }

    /// The outcome of a finished handshake.
    pub fn outcome(&self) -> (r: Option<Result<(), HandshakeError>>)
        ensures
            self.state is Complete ==> r == Some(Ok::<(), HandshakeError>(())),
            self.state is Failed ==> r == Some(Err::<(), HandshakeError>(self.state->Failed_0)),
            !is_terminal(self.state) ==> r is None,
    {
        match self.state {
            HandshakeState::Complete => Some(Ok(())),
            HandshakeState::Failed(e) => Some(Err(e)),
            _ => None,
        }
    }
}

impl Handshake {
    /// Opens the exchange: sends the version message framed for `self.chain`.
    fn on_connected(
        &mut self,
        local: SocketAddress,
        peer: SocketAddress,
        timestamp: i64,
        nonce: u64,
    ) -> (r: HandshakeAction)
        ensures
            final(self).chain == old(self).chain,
            final(self).services == old(self).services,
            final(self).receiving_services == old(self).receiving_services,
            final(self).state == HandshakeState::AwaitingVersionReply,
            r is Send,
            r->Send_0@ == Message::<VersionMessage>::spec_encode(
                MessageModel {
                    chain: old(self).chain,
                    message: handshake_version(
                        old(self).services,
                        old(self).receiving_services,
                        local,
                        peer,
                        timestamp,
                        nonce,
                    ),
                },
            )->Ok_0,
    {
        let version_message = VersionMessage::new(
            PROTOCOL_VERSION,
            self.services,
            timestamp,
            self.receiving_services,
            peer,
            local,
            self.services,
            nonce,
            String::new(),
            0,
            false,
        );
        let message = Message::<VersionMessage>::new(self.chain, version_message);
        assert(message@ == MessageModel {
            chain: self.chain,
            message: handshake_version(
                self.services,
                self.receiving_services,
                local,
                peer,
                timestamp,
                nonce,
            ),
        });
        let bytes = match message.encode() {
            Ok(bytes) => bytes,
            Err(_) => {
                // unreachable: with an empty user agent the message always encodes
                assert(false);
                Vec::new()
            },
        };
        self.state = HandshakeState::AwaitingVersionReply;
        HandshakeAction::Send(bytes)
    }
}

impl Handshake {
    /// Reads the peer's reply to the version message from `data`, and answers it with a
    /// verack message.
    fn on_version_reply(&mut self, data: &[u8]) -> (r: HandshakeAction)
        requires
            old(self).state == HandshakeState::AwaitingVersionReply,
        ensures
            final(self).chain == old(self).chain,
            final(self).services == old(self).services,
            final(self).receiving_services == old(self).receiving_services,
            final(self).state == after_version(old(self).chain, data@),
            version_reply(old(self).chain, data@) is Ok ==> r is Send && r->Send_0@
                == verack_frame(old(self).chain),
            version_reply(old(self).chain, data@) is Err ==> r is Finish,
    {
        let mut cursor: &[u8] = data;
        let received = Message::<VersionMessage>::decode(&mut cursor);
        match received {
            Err(e) => {
                self.state = HandshakeState::Failed(HandshakeError::Codec(e));
                HandshakeAction::Finish
            },
            Ok(message) => {
                if message.chain != self.chain {
                    self.state = HandshakeState::Failed(HandshakeError::WrongNetwork);
                    return HandshakeAction::Finish;
                }
                let verack = Message::<VerackMessage>::new(self.chain, VerackMessage);
                let bytes = match verack.encode() {
                    Ok(bytes) => bytes,
                    Err(_) => {
                        // unreachable: the empty acknowledgment always encodes
                        assert(false);
                        Vec::new()
                    },
                };
                self.on_verack_reply(cursor, false);
                HandshakeAction::Send(bytes)
            },
        }
    }

    /// Reads the peer's verack reply from `data`; `closed` says that the peer closed the
    /// stream.
    fn on_verack_reply(&mut self, data: &[u8], closed: bool)
        ensures
            final(self).chain == old(self).chain,
            final(self).services == old(self).services,
            final(self).receiving_services == old(self).receiving_services,
            final(self).state == verack_step(old(self).chain, data@, closed),
    {
        if data.len() == 0 {
            self.state = if closed {
                HandshakeState::Complete
            } else {
                HandshakeState::AwaitingVerackReply
            };
            return ;
        }
        let mut cursor: &[u8] = data;
        self.state = match Message::<VerackMessage>::decode(&mut cursor) {
            Err(e) => HandshakeState::Failed(HandshakeError::Codec(e)),
            Ok(message) => if message.chain != self.chain {
                HandshakeState::Failed(HandshakeError::WrongNetwork)
            } else {
                HandshakeState::Complete
            },
        };
    }

    /// Takes one event of the transport and says what to do next.
    pub fn step(&mut self, event: HandshakeEvent) -> (r: HandshakeAction)
        ensures
            final(self).chain == old(self).chain,
            final(self).services == old(self).services,
            final(self).receiving_services == old(self).receiving_services,
            final(self).state == next_state(old(self).chain, old(self).state, event),
            old(self).state is Connecting && event is Connected ==> r is Send && r->Send_0@
                == Message::<VersionMessage>::spec_encode(
                MessageModel {
                    chain: old(self).chain,
                    message: handshake_version(
                        old(self).services,
                        old(self).receiving_services,
                        event->Connected_local,
                        event->Connected_peer,
                        event->Connected_timestamp,
                        event->Connected_nonce,
                    ),
                },
            )->Ok_0,
            old(self).state is AwaitingVersionReply && sends(old(self).chain, old(self).state, event)
                ==> r is Send && r->Send_0@ == verack_frame(old(self).chain),
            !sends(old(self).chain, old(self).state, event) ==> (r is Finish || r is Wait) && (
            r is Finish <==> is_terminal(final(self).state)),
    {
        if self.is_finished() {
            return HandshakeAction::Finish;
        }
        match event {
            HandshakeEvent::TimedOut => {
                self.state = HandshakeState::Failed(HandshakeError::Timeout);
                HandshakeAction::Finish
            },
            HandshakeEvent::TransportFailed => {
                self.state = HandshakeState::Failed(HandshakeError::ConnectError);
                HandshakeAction::Finish
            },
            HandshakeEvent::Connected { local, peer, timestamp, nonce } => {
                match self.state {
                    HandshakeState::Connecting => self.on_connected(local, peer, timestamp, nonce),
                    _ => HandshakeAction::Wait,
                }
            },
            HandshakeEvent::Received(bytes) => {
                match self.state {
                    HandshakeState::AwaitingVersionReply => self.on_version_reply(bytes.as_slice()),
                    HandshakeState::AwaitingVerackReply => {
                        self.on_verack_reply(bytes.as_slice(), false);
                        if self.is_finished() {
                            HandshakeAction::Finish
                        } else {
                            HandshakeAction::Wait
                        }
                    },
                    _ => HandshakeAction::Wait,
                }
            },
            HandshakeEvent::Closed => {
                let none: Vec<u8> = Vec::new();
                match self.state {
                    HandshakeState::AwaitingVersionReply => self.on_version_reply(none.as_slice()),
                    HandshakeState::AwaitingVerackReply => {
                        self.on_verack_reply(none.as_slice(), true);
                        HandshakeAction::Finish
                    },
                    _ => HandshakeAction::Wait,
                }
            },
        }
    }
}

/// A peer that replies to the version message on another network than the one spoken
/// to it fails the handshake with `WrongNetwork`, though its frame is otherwise
/// well-formed.
pub proof fn lemma_version_network_mismatch(
    chain: Chain,
    other: Chain,
    version: VersionMessageModel,
    reply: Vec<u8>,
)
    requires
        other != chain,
        VersionMessage::well_formed(version),
        VersionMessage::spec_encode(version) is Ok,
        reply@ == Message::<VersionMessage>::spec_encode(
            MessageModel { chain: other, message: version },
        )->Ok_0,
    ensures
        next_state(chain, HandshakeState::AwaitingVersionReply, HandshakeEvent::Received(reply))
            == HandshakeState::Failed(HandshakeError::WrongNetwork),
{
    let m = MessageModel { chain: other, message: version };
    Message::<VersionMessage>::lemma_decode_encode(m);
    assert(version_reply(chain, reply@) == Err::<nat, HandshakeError>(
        HandshakeError::WrongNetwork,
    ));
}

/// A peer that acknowledges on another network than the one spoken to it fails the
/// handshake with `WrongNetwork`, though its frame is otherwise well-formed.
pub proof fn lemma_verack_network_mismatch(chain: Chain, other: Chain, reply: Vec<u8>)
    requires
        other != chain,
        reply@ == verack_frame(other),
    ensures
        next_state(chain, HandshakeState::AwaitingVerackReply, HandshakeEvent::Received(reply))
            == HandshakeState::Failed(HandshakeError::WrongNetwork),
{
    let m = MessageModel { chain: other, message: VerackMessage };
    Message::<VerackMessage>::lemma_decode_encode(m);
    assert(reply@.len() > 0);
    assert(verack_reply(chain, reply@) == Err::<nat, HandshakeError>(
        HandshakeError::WrongNetwork,
    ));
}

/// Relies on `rand::random`: a value drawn from the thread-local generator. Nothing is
/// promised of the value.
pub assume_specification<T>[ rand::random::<T> ]() -> (r: T)
    where
        rand::distributions::Standard: rand::distributions::Distribution<T>,
;

/// The event of a connection just opened between `local` and `peer`, at Unix time
/// `timestamp`, with a freshly drawn random nonce.
pub fn connected_event(local: SocketAddress, peer: SocketAddress, timestamp: i64) -> (r:
    HandshakeEvent)
    ensures
        r is Connected,
        r->Connected_local == local,
        r->Connected_peer == peer,
        r->Connected_timestamp == timestamp,
{
    let nonce: u64 = rand::random();
    HandshakeEvent::Connected { local, peer, timestamp, nonce }
}

/// Successes and failures over the outcomes of many handshakes
#[derive(Debug, Clone, Copy, PartialEq, Eq, Structural)]
pub struct HandshakeTally {
    pub success: u32,
    pub failure: u32,
}

/// The number of successful outcomes in `outcomes`.
pub open spec fn successes(outcomes: Seq<Result<(), HandshakeError>>) -> nat
    decreases outcomes.len(),
{
    if outcomes.len() == 0 {
        0
    } else {
        successes(outcomes.drop_last()) + if outcomes.last() is Ok {
            1nat
        } else {
            0nat
        }
    }
}

/// Counts the outcomes of a batch of handshakes, in the order they completed; a peer
/// that timed out is counted among the failures.
pub fn tally(outcomes: &[Result<(), HandshakeError>]) -> (r: HandshakeTally)
    requires
        outcomes@.len() <= u32::MAX,
    ensures
        r.success == successes(outcomes@),
        r.success + r.failure == outcomes@.len(),
{
    let mut success: u32 = 0;
    let mut failure: u32 = 0;
    let mut i: usize = 0;
    while i < outcomes.len()
        invariant
            i <= outcomes@.len(),
            outcomes@.len() <= u32::MAX,
            success == successes(outcomes@.take(i as int)),
            success + failure == i,
        decreases outcomes@.len() - i,
    {
        assert(outcomes@.take(i + 1).drop_last() =~= outcomes@.take(i as int));
        match outcomes[i] {
            Ok(()) => success = success + 1,
            Err(_) => failure = failure + 1,
        }
        i = i + 1;
    }
    assert(outcomes@.take(i as int) =~= outcomes@);
    HandshakeTally { success, failure }
}

/// Successes count the successful outcomes, whatever order they came in: two batches
/// that hold the same outcomes have the same count.
pub proof fn lemma_tally_order_free(
    a: Seq<Result<(), HandshakeError>>,
    b: Seq<Result<(), HandshakeError>>,
)
    requires
        a.to_multiset() == b.to_multiset(),
    ensures
        successes(a) == successes(b),
        a.len() - successes(a) == b.len() - successes(b),
{
    lemma_successes_count(a);
    lemma_successes_count(b);
    a.to_multiset_ensures();
    b.to_multiset_ensures();
}

/// The successes of `s` are the occurrences of `Ok(())` among its outcomes.
proof fn lemma_successes_count(s: Seq<Result<(), HandshakeError>>)
    ensures
        successes(s) == s.to_multiset().count(Ok(())),
        successes(s) <= s.len(),
    decreases s.len(),
{
    if s.len() > 0 {
        let t = s.drop_last();
        lemma_successes_count(t);
        assert(t.push(s.last()) =~= s);
        t.to_multiset_ensures();
        assert(s.to_multiset() =~= t.to_multiset().insert(s.last()));
        if s.last() is Ok {
            let u: () = s.last()->Ok_0;
            assert(u == ());
            assert(s.last() == Ok::<(), HandshakeError>(u));
        }
    } else {
        s.to_multiset_ensures();
        assert(!s.contains(Ok(())));
    }
}

} // verus!
