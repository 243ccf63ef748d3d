use vstd::prelude::*;
use vstd::slice::slice_subrange;
use crate::config::Config;
use crate::error::ProtocolError;
use crate::json::{disconnect_json, disconnect_text};
use crate::models::StatusResponse;
use crate::protocol::{
    first_packet, handshake_payload, lemma_first_packet_extent, lemma_first_packet_prefix,
    lemma_handshake_round_trip, lemma_packet_round_trip, next_packet, packet_body, packet_bytes,
    parse_handshake, read_handshake, response_fits, response_packet, send_pong, write_response,
    NextState, Packet, MAX_BODY_LEN, PING_PAYLOAD_LEN,
};

verus! {

/// Where a connection stands.
#[derive(Clone, Copy, Debug, PartialEq, Eq, Structural)]
pub enum ConnectionState {
    /// Nothing has been read; the first packet must be a handshake.
    Handshake,
    /// The client asked for the status, and its request is awaited.
    Status {
        /// The protocol version that the handshake gave.
        protocol_version: i32,
    },
    /// The status was sent; a ping may follow.
    Ping,
    /// The client asked to log in, and its login start is awaited.
    Login,
    /// The exchange is over. Nothing more is read or written.
    Closed,
}

/// What one packet leads to, as a value of specifications.
pub ghost struct Reaction {
    /// The state after the packet.
    pub next: ConnectionState,
    /// The bytes to write in answer; empty when there is no answer.
    pub written: Seq<u8>,
    /// Why the connection was given up, if it was.
    pub error: Option<ProtocolError>,
}

/// What one packet leads to.
pub struct Step {
    /// The state after the packet.
    pub next: ConnectionState,
    /// The bytes to write in answer; empty when there is no answer.
    pub written: Vec<u8>,
    /// Why the connection was given up, if it was.
    pub error: Option<ProtocolError>,
}

impl View for Step {
    type V = Reaction;

    open spec fn view(&self) -> Reaction {
        Reaction { next: self.next, written: self.written@, error: self.error }
    }
}

/// The answer to a packet that gives the connection up for `error`, or just ends it.
pub open spec fn closing(error: Option<ProtocolError>) -> Reaction {
    Reaction { next: ConnectionState::Closed, written: Seq::empty(), error }
}

/// Where a first packet leads. Anything but a handshake (id 0) ends the connection
/// in silence; so does a handshake that names no known state. A handshake that
/// cannot be read ends it with the error.
pub open spec fn after_handshake(id: i32, payload: Seq<u8>) -> Reaction {
    if id != 0 {
        closing(None)
    } else {
        match parse_handshake(payload) {
            Err(e) => closing(Some(e)),
            Ok(handshake) => match handshake.next_state {
                NextState::Status => Reaction {
                    next: ConnectionState::Status { protocol_version: handshake.protocol_version },
                    written: Seq::empty(),
                    error: None,
                },
                NextState::Login => Reaction {
                    next: ConnectionState::Login,
                    written: Seq::empty(),
                    error: None,
                },
                NextState::Unknown(_) => closing(None),
            },
        }
    }
}

/// The packet that carries the JSON document `text`, if there is such a text and
/// it fits in a packet.
pub open spec fn document_packet(text: Option<Seq<char>>) -> Result<Seq<u8>, ProtocolError> {
    match text {
        None => Err(ProtocolError::SerializationFailure),
        Some(text) => if response_fits(text) {
            Ok(response_packet(text))
        } else {
            Err(ProtocolError::PacketTooLong)
        },
    }
}

/// The answer to a status request from a client that speaks `protocol_version`:
/// the status document made for that client, after which a ping is awaited.
pub open spec fn after_status_request(status: StatusResponse, protocol_version: i32) -> Reaction {
    match document_packet(status.json_text(protocol_version)) {
        Ok(bytes) => Reaction { next: ConnectionState::Ping, written: bytes, error: None },
        Err(e) => closing(Some(e)),
    }
}

/// The answer to what follows the status: a pong that echoes the last eight bytes
/// of the payload, or nothing for a payload shorter than that. Either way the
/// connection is over.
pub open spec fn after_ping(payload: Seq<u8>) -> Reaction {
    Reaction {
        next: ConnectionState::Closed,
        written: if payload.len() >= PING_PAYLOAD_LEN {
            packet_bytes(1, payload.subrange(payload.len() - PING_PAYLOAD_LEN, payload.len() as int))
        } else {
            Seq::empty()
        },
        error: None,
    }
}

/// The answer to a login start: the disconnect packet with the kick message, and
/// the end of the connection.
pub open spec fn after_login_start(kick_msg: Seq<char>) -> Reaction {
    match document_packet(disconnect_text(kick_msg)) {
        Ok(bytes) => Reaction { next: ConnectionState::Closed, written: bytes, error: None },
        Err(e) => closing(Some(e)),
    }
}

/// What the packet with this id and payload leads to in `state`.
pub open spec fn react(config: Config, state: ConnectionState, id: i32, payload: Seq<u8>) -> Reaction {
    match state {
        ConnectionState::Handshake => after_handshake(id, payload),
        ConnectionState::Status { protocol_version } => after_status_request(
            config.status,
            protocol_version,
        ),
        ConnectionState::Ping => after_ping(payload),
        ConnectionState::Login => after_login_start(config.kick_msg@),
        ConnectionState::Closed => closing(None),
    }
}

/// What becomes of a JSON document once it is framed: its packet, `PacketTooLong`
/// if it does not fit in one, or the error that there is in its place.
pub open spec fn framed(document: Result<String, ProtocolError>) -> Result<Seq<u8>, ProtocolError> {
    match document {
        Ok(written) => document_packet(Some(written@)),
        Err(e) => Err(e),
    }
}

/// Frames a JSON document that the encoder wrote, or passes on why there is none.
pub fn frame_document(document: Result<String, ProtocolError>) -> (r: Result<
    Vec<u8>,
    ProtocolError,
>)
    ensures
        match r {
            Ok(bytes) => framed(document) == Ok::<Seq<u8>, ProtocolError>(bytes@),
            Err(e) => framed(document) == Err::<Seq<u8>, ProtocolError>(e),
        },
{
    match document {
        Ok(written) => write_response(written.as_str()),
        Err(e) => Err(e),
    }
}

/// Decides where the first packet of a connection leads.
pub fn handle_handshake(packet: &Packet) -> (step: Step)
    ensures
        step@ == after_handshake(packet.id, packet.payload@),
{
    let closed = ConnectionState::Closed;
    if packet.id != 0 {
        return Step { next: closed, written: Vec::new(), error: None };
    }
    match read_handshake(packet.payload.as_slice()) {
        Err(e) => Step { next: closed, written: Vec::new(), error: Some(e) },
        Ok(handshake) => {
            let next = match handshake.next_state {
                NextState::Status => ConnectionState::Status {
                    protocol_version: handshake.protocol_version,
                },
                NextState::Login => ConnectionState::Login,
                NextState::Unknown(_) => closed,
            };
            Step { next, written: Vec::new(), error: None }
        },
    }
}

/// Answers a status request: the status document of `config`, with the protocol
/// number that a client speaking `protocol_version` is owed, framed as a packet.
pub fn handle_status(config: &Config, protocol_version: i32) -> (step: Step)
    ensures
        step@ == after_status_request(config.status, protocol_version),
{
    let document = config.status.to_json(protocol_version);
    match frame_document(document) {
        Ok(bytes) => Step { next: ConnectionState::Ping, written: bytes, error: None },
        Err(e) => Step { next: ConnectionState::Closed, written: Vec::new(), error: Some(e) },
    }
}

/// Answers what follows the status. A payload of eight bytes or more is a ping and
/// gets its pong; a shorter one gets nothing, and is no error.
pub fn handle_ping(packet: &Packet) -> (step: Step)
    ensures
        step@ == after_ping(packet.payload@),
{
    let n = packet.payload.len();
    let written = if n >= PING_PAYLOAD_LEN {
        send_pong(packet.payload.as_slice(), n)
    } else {
        Vec::new()
    };
    Step { next: ConnectionState::Closed, written, error: None }
}

/// Answers a login start: the client is told the kick message of `config`.
pub fn handle_login(config: &Config) -> (step: Step)
    ensures
        step@ == after_login_start(config.kick_msg@),
{
    let document = disconnect_json(config.kick_msg.as_str());
    match frame_document(document) {
        Ok(bytes) => Step { next: ConnectionState::Closed, written: bytes, error: None },
        Err(e) => Step { next: ConnectionState::Closed, written: Vec::new(), error: Some(e) },
    }
}

/// Decides what a packet leads to in `state`: the next state, and what to write.
pub fn on_packet(config: &Config, state: ConnectionState, packet: &Packet) -> (step: Step)
    ensures
        step@ == react(*config, state, packet.id, packet.payload@),
{
    match state {
        ConnectionState::Handshake => handle_handshake(packet),
        ConnectionState::Status { protocol_version } => handle_status(config, protocol_version),
        ConnectionState::Ping => handle_ping(packet),
        ConnectionState::Login => handle_login(config),
        ConnectionState::Closed => Step {
            next: ConnectionState::Closed,
            written: Vec::new(),
            error: None,
        },
    }
}

/// How far a run of input takes a connection, as a value of specifications.
pub ghost struct Progress {
    /// The state reached.
    pub state: ConnectionState,
    /// The input that is left over: the beginning of a packet that is not all
    /// there yet.
    pub pending: Seq<u8>,
    /// Everything written in answer, in order.
    pub written: Seq<u8>,
    /// Why the connection was given up, if it was.
    pub error: Option<ProtocolError>,
}

/// Takes `input` packet by packet from `state`: each complete packet is answered
/// as `react` says, in turn, until the connection is closed or what is left of the
/// input is no complete packet. Input that is no packet closes the connection with
/// the error, and a closed connection keeps nothing.
pub open spec fn drain(config: Config, state: ConnectionState, input: Seq<u8>) -> Progress
    decreases input.len(),
    via drain_terminates
{
    if state is Closed {
        Progress { state, pending: Seq::empty(), written: Seq::empty(), error: None }
    } else {
        match first_packet(input) {
            Err(e) => Progress {
                state: ConnectionState::Closed,
                pending: Seq::empty(),
                written: Seq::empty(),
                error: Some(e),
            },
            Ok(None) => Progress { state, pending: input, written: Seq::empty(), error: None },
            Ok(Some((id, payload, end))) => {
                let reaction = react(config, state, id, payload);
                let rest = drain(config, reaction.next, input.skip(end as int));
                Progress {
                    state: rest.state,
                    pending: rest.pending,
                    written: reaction.written + rest.written,
                    error: if reaction.error is Some {
                        reaction.error
                    } else {
                        rest.error
                    },
                }
            },
        }
    }
}

#[via_fn]
proof fn drain_terminates(config: Config, state: ConnectionState, input: Seq<u8>) {
    lemma_first_packet_extent(input);
}

/// What a connection is, as a value of specifications.
pub ghost struct ConnectionView {
    /// Where the connection stands.
    pub state: ConnectionState,
    /// The bytes received and not yet used: the beginning of the next packet.
    pub pending: Seq<u8>,
}

/// One connection, from its first byte to its end. It holds no socket: bytes that
/// arrive are handed to `receive`, which hands back the bytes to send.
pub struct Connection {
    state: ConnectionState,
    pending: Vec<u8>,
}

/// What the caller of a connection has to do next.
pub struct Outcome {
    /// The bytes to send to the client, all of them, before anything more is read.
    pub written: Vec<u8>,
    /// Why the connection was given up, if it was.
    pub error: Option<ProtocolError>,
}

impl View for Connection {
    type V = ConnectionView;

    closed spec fn view(&self) -> ConnectionView {
        ConnectionView { state: self.state, pending: self.pending@ }
    }
}

impl Connection {
    /// A connection on which nothing has happened yet.
    pub fn new() -> (connection: Self)
        ensures
            connection@.state == ConnectionState::Handshake,
            connection@.pending == Seq::<u8>::empty(),
    {
        Connection { state: ConnectionState::Handshake, pending: Vec::new() }
    }

    /// Where the connection stands.
    pub fn state(&self) -> (state: ConnectionState)
        ensures
            state == self@.state,
    {
        self.state
    }

    /// Whether the exchange is over, so that the socket can be closed.
    pub fn is_closed(&self) -> (closed: bool)
        ensures
            closed == (self@.state is Closed),
    {
        match self.state {
            ConnectionState::Closed => true,
            _ => false,
        }
    }

    /// Takes in bytes that arrived, and answers every packet that they complete.
    ///
    /// The bytes are put behind those left over from earlier calls; the result is
    /// that of `drain` on the whole.
    pub fn receive(&mut self, config: &Config, data: &[u8]) -> (outcome: Outcome)
        ensures
            ({
                let progress = drain(*config, old(self)@.state, old(self)@.pending + data@);
                &&& final(self)@.state == progress.state
                &&& final(self)@.pending == progress.pending
                &&& outcome.written@ == progress.written
                &&& outcome.error == progress.error
            }),
    {
        self.pending.extend_from_slice(data);
        let ghost input = self.pending@;
        assert(input =~= old(self)@.pending + data@);
        let ghost first = self.state;
        let mut written: Vec<u8> = Vec::new();
        let mut error: Option<ProtocolError> = None;
        let mut used: usize = 0;
        assert(input.skip(0) =~= input);
        loop
            invariant_except_break
                error is None,
            invariant
                self.pending@ == input,
                used <= input.len(),
                ({
                    let whole = drain(*config, first, input);
                    let rest = drain(*config, self.state, input.skip(used as int));
                    &&& whole.state == rest.state
                    &&& whole.pending == rest.pending
                    &&& whole.written == written@ + rest.written
                    &&& whole.error == if error is Some {
                        error
                    } else {
                        rest.error
                    }
                }),
            ensures
                error is Some ==> self.state is Closed,
                error is None ==> first_packet(input.skip(used as int)) == Ok::<
                    Option<(i32, Seq<u8>, nat)>,
                    ProtocolError,
                >(None) || self.state is Closed,
            decreases input.len() - used,
        {
            if self.is_closed() {
                break;
            }
            let left = slice_subrange(self.pending.as_slice(), used, self.pending.len());
            match next_packet(left) {
                Err(e) => {
                    self.state = ConnectionState::Closed;
                    error = Some(e);
                    break;
                },
                Ok(None) => {
                    break;
                },
                Ok(Some((packet, taken))) => {
                    let mut step = on_packet(config, self.state, &packet);
                    assert(input.skip(used as int).skip(taken as int) =~= input.skip(used + taken));
                    written.append(&mut step.written);
                    self.state = step.next;
                    used = used + taken;
                    if step.error.is_some() {
                        error = step.error;
                        break;
                    }
                },
            }
        }
        if self.is_closed() {
            self.pending = Vec::new();
        } else {
            let left = self.pending.split_off(used);
            self.pending = left;
        }
        Outcome { written, error }
    }

    /// Takes note that nothing more will arrive: the client closed its side, or was
    /// given long enough. The connection is closed, after a last answer where one is
    /// owed; the result is that of `at_end`.
    pub fn end_of_input(&mut self, config: &Config) -> (outcome: Outcome)
        ensures
            final(self)@.state == ConnectionState::Closed,
            final(self)@.pending == Seq::<u8>::empty(),
            outcome.written@ == at_end(*config, old(self)@.state, old(self)@.pending).written,
            outcome.error == at_end(*config, old(self)@.state, old(self)@.pending).error,
    {
        let cut_off = self.pending.len() > 0;
        let step = match self.state {
            ConnectionState::Status { protocol_version } if !cut_off => handle_status(
                config,
                protocol_version,
            ),
            ConnectionState::Login if !cut_off => handle_login(config),
            ConnectionState::Ping | ConnectionState::Closed => Step {
                next: ConnectionState::Closed,
                written: Vec::new(),
                error: None,
            },
            _ => Step {
                next: ConnectionState::Closed,
                written: Vec::new(),
                error: Some(ProtocolError::UnexpectedEndOfStream),
            },
        };
        self.state = ConnectionState::Closed;
        self.pending = Vec::new();
        Outcome { written: step.written, error: step.error }
    }
}

/// What the end of the input leads to in `state`, with `pending` left over.
///
/// A client that asked for the status or to log in and then sent nothing at all is
/// answered as if its request had come: that packet holds nothing that is used. A
/// packet that was begun and not finished is an `UnexpectedEndOfStream`, and so is
/// a handshake that never came. After the status was sent the end of the input is
/// how an exchange ends when the client does not ping, whatever is left over, and
/// no error.
pub open spec fn at_end(config: Config, state: ConnectionState, pending: Seq<u8>) -> Reaction {
    match state {
        ConnectionState::Ping | ConnectionState::Closed => closing(None),
        ConnectionState::Status { protocol_version } if pending.len() == 0 => Reaction {
            next: ConnectionState::Closed,
            ..after_status_request(config.status, protocol_version)
        },
        ConnectionState::Login if pending.len() == 0 => after_login_start(config.kick_msg@),
        _ => closing(Some(ProtocolError::UnexpectedEndOfStream)),
    }
}

/// What a client that sends `input` and then nothing more is answered, and how the
/// exchange ends, as a value of specifications.
pub open spec fn transcript(config: Config, input: Seq<u8>) -> (Seq<u8>, Option<ProtocolError>) {
    let progress = drain(config, ConnectionState::Handshake, input);
    if progress.error is Some {
        (progress.written, progress.error)
    } else {
        let last = at_end(config, progress.state, progress.pending);
        (progress.written + last.written, last.error)
    }
}

/// Serves one client from beginning to end, given everything it sends: the bytes
/// it is sent in return, and the error that ended the exchange, if one did.
pub fn handle_client(config: &Config, input: &[u8]) -> (outcome: Outcome)
    ensures
        (outcome.written@, outcome.error) == transcript(*config, input@),
{
    let mut connection = Connection::new();
    let mut outcome = connection.receive(config, input);
    if outcome.error.is_none() {
        let mut last = connection.end_of_input(config);
        outcome.written.append(&mut last.written);
        outcome.error = last.error;
    }
    outcome
}

/// A framed packet at the front of the input is answered as `react` says, once,
/// and what follows the packet is taken from the state that the answer leads to.
pub proof fn lemma_drain_packet(
    config: Config,
    state: ConnectionState,
    id: i32,
    payload: Seq<u8>,
    rest: Seq<u8>,
)
    requires
        state !is Closed,
        packet_body(id, payload).len() <= MAX_BODY_LEN,
    ensures
        ({
            let whole = drain(config, state, packet_bytes(id, payload) + rest);
            let reaction = react(config, state, id, payload);
            let after = drain(config, reaction.next, rest);
            &&& whole.state == after.state
            &&& whole.pending == after.pending
            &&& whole.written == reaction.written + after.written
            &&& whole.error == if reaction.error is Some {
                reaction.error
            } else {
                after.error
            }
        }),
{
    let input = packet_bytes(id, payload) + rest;
    lemma_packet_round_trip(id, payload, rest);
    assert(input.skip(packet_bytes(id, payload).len() as int) =~= rest);
}

/// What is left pending is never a whole packet: a closed connection keeps
/// nothing, and an open one only the beginning of a packet that has yet to arrive
/// in full. So there is nothing more to answer until more arrives.
pub proof fn lemma_drain_settles(config: Config, state: ConnectionState, input: Seq<u8>)
    ensures
        ({
            let reached = drain(config, state, input);
            &&& reached.state is Closed ==> reached.pending == Seq::<u8>::empty()
            &&& reached.state !is Closed ==> first_packet(reached.pending) == Ok::<
                Option<(i32, Seq<u8>, nat)>,
                ProtocolError,
            >(None)
            &&& drain(config, reached.state, reached.pending) == Progress {
                state: reached.state,
                pending: reached.pending,
                written: Seq::empty(),
                error: None,
            }
        }),
    decreases input.len(),
{
    if state !is Closed {
        match first_packet(input) {
            Ok(Some((id, payload, end))) => {
                lemma_first_packet_extent(input);
                let next = react(config, state, id, payload).next;
                lemma_drain_settles(config, next, input.skip(end as int));
            },
            _ => {},
        }
    }
}

/// Input that arrives in two pieces is answered as if it had arrived in one. What
/// the first piece leaves pending is taken up with the second.
pub proof fn lemma_drain_in_pieces(
    config: Config,
    state: ConnectionState,
    first: Seq<u8>,
    second: Seq<u8>,
)
    ensures
        ({
            let whole = drain(config, state, first + second);
            let begun = drain(config, state, first);
            let ended = drain(config, begun.state, begun.pending + second);
            &&& whole.state == ended.state
            &&& whole.pending == ended.pending
            &&& whole.written == begun.written + ended.written
            &&& whole.error == if begun.error is Some {
                begun.error
            } else {
                ended.error
            }
        }),
    decreases first.len(),
{
    if state !is Closed {
        match first_packet(first) {
            Ok(None) => {},
            Err(_) => {
                lemma_first_packet_prefix(first, second);
            },
            Ok(Some((id, payload, end))) => {
                lemma_first_packet_prefix(first, second);
                lemma_first_packet_extent(first);
                let next = react(config, state, id, payload).next;
                assert((first + second).skip(end as int) =~= first.skip(end as int) + second);
                lemma_drain_in_pieces(config, next, first.skip(end as int), second);
            },
        }
    }
}

/// The handshake packet of a client that speaks `protocol_version` and asks for
/// `next_state`.
pub open spec fn handshake_packet(
    protocol_version: i32,
    server_address: Seq<u8>,
    server_port: u16,
    next_state: i32,
) -> Seq<u8> {
    packet_bytes(0, handshake_payload(protocol_version, server_address, server_port, next_state))
}

/// Whether a handshake with this server address fits in a packet.
pub open spec fn handshake_fits(
    protocol_version: i32,
    server_address: Seq<u8>,
    server_port: u16,
    next_state: i32,
) -> bool {
    &&& server_address.len() <= MAX_BODY_LEN
    &&& packet_body(
        0,
        handshake_payload(protocol_version, server_address, server_port, next_state),
    ).len() <= MAX_BODY_LEN
}

/// A handshake at the front of a connection's input leads where its next state
/// says, and nothing is written for it.
proof fn lemma_drain_handshake(
    config: Config,
    protocol_version: i32,
    server_address: Seq<u8>,
    server_port: u16,
    next_state: i32,
    rest: Seq<u8>,
)
    requires
        handshake_fits(protocol_version, server_address, server_port, next_state),
    ensures
        drain(
            config,
            ConnectionState::Handshake,
            handshake_packet(protocol_version, server_address, server_port, next_state) + rest,
        ) == drain(
            config,
            match NextState::of(next_state) {
                NextState::Status => ConnectionState::Status { protocol_version },
                NextState::Login => ConnectionState::Login,
                NextState::Unknown(_) => ConnectionState::Closed,
            },
            rest,
        ),
{
    let payload = handshake_payload(protocol_version, server_address, server_port, next_state);
    lemma_handshake_round_trip(
        protocol_version,
        server_address,
        server_port,
        next_state,
        Seq::empty(),
    );
    lemma_drain_packet(config, ConnectionState::Handshake, 0, payload, rest);
}

/// A handshake that asks for neither the status nor the login exchange is answered
/// with nothing at all, whatever the client sends after it, and the connection is
/// closed without an error.
pub proof fn lemma_unknown_state_is_silent(
    config: Config,
    protocol_version: i32,
    server_address: Seq<u8>,
    server_port: u16,
    next_state: i32,
    rest: Seq<u8>,
)
    requires
        next_state != 1,
        next_state != 2,
        handshake_fits(protocol_version, server_address, server_port, next_state),
    ensures
        transcript(
            config,
            handshake_packet(protocol_version, server_address, server_port, next_state) + rest,
        ) == (Seq::<u8>::empty(), None::<ProtocolError>),
{
    lemma_drain_handshake(config, protocol_version, server_address, server_port, next_state, rest);
}

/// A client that asks for the status is sent the status document made for its
/// protocol version, and a ping of eight bytes or more after that is answered with
/// a pong that echoes its last eight bytes. Nothing else is written, whatever the
/// client sends after the ping.
pub proof fn lemma_status_exchange(
    config: Config,
    protocol_version: i32,
    server_address: Seq<u8>,
    server_port: u16,
    request_id: i32,
    request: Seq<u8>,
    ping_id: i32,
    ping: Seq<u8>,
    rest: Seq<u8>,
)
    requires
        handshake_fits(protocol_version, server_address, server_port, 1),
        packet_body(request_id, request).len() <= MAX_BODY_LEN,
        packet_body(ping_id, ping).len() <= MAX_BODY_LEN,
        ping.len() >= PING_PAYLOAD_LEN,
        config.status.json_text(protocol_version) matches Some(text) && response_fits(text),
    ensures
        transcript(
            config,
            handshake_packet(protocol_version, server_address, server_port, 1) + packet_bytes(
                request_id,
                request,
            ) + packet_bytes(ping_id, ping) + rest,
        ) == (
            response_packet(config.status.json_text(protocol_version)->0) + packet_bytes(
                1,
                ping.subrange(ping.len() - PING_PAYLOAD_LEN, ping.len() as int),
            ),
            None::<ProtocolError>,
        ),
{
    let greeting = handshake_packet(protocol_version, server_address, server_port, 1);
    let asked = packet_bytes(request_id, request);
    let pinged = packet_bytes(ping_id, ping);
    let status = ConnectionState::Status { protocol_version };
    assert(greeting + asked + pinged + rest =~= greeting + (asked + (pinged + rest)));
    lemma_drain_handshake(
        config,
        protocol_version,
        server_address,
        server_port,
        1,
        asked + (pinged + rest),
    );
    lemma_drain_packet(config, status, request_id, request, pinged + rest);
    lemma_drain_packet(config, ConnectionState::Ping, ping_id, ping, rest);
}

/// A client that asks for the status and sends nothing more is sent the status
/// document made for its protocol version, and that it never pings is no error.
pub proof fn lemma_status_without_ping(
    config: Config,
    protocol_version: i32,
    server_address: Seq<u8>,
    server_port: u16,
    request_id: i32,
    request: Seq<u8>,
)
    requires
        handshake_fits(protocol_version, server_address, server_port, 1),
        packet_body(request_id, request).len() <= MAX_BODY_LEN,
        config.status.json_text(protocol_version) matches Some(text) && response_fits(text),
    ensures
        transcript(
            config,
            handshake_packet(protocol_version, server_address, server_port, 1) + packet_bytes(
                request_id,
                request,
            ),
        ) == (
            response_packet(config.status.json_text(protocol_version)->0),
            None::<ProtocolError>,
        ),
{
    let asked = packet_bytes(request_id, request);
    let status = ConnectionState::Status { protocol_version };
    lemma_drain_handshake(config, protocol_version, server_address, server_port, 1, asked);
    lemma_drain_packet(config, status, request_id, request, Seq::empty());
}

/// A client that sends its handshake and nothing after it is answered all the
/// same: with the status document made for its protocol version if it asked for
/// the status, with the disconnect if it asked to log in.
pub proof fn lemma_silent_client_is_answered(
    config: Config,
    protocol_version: i32,
    server_address: Seq<u8>,
    server_port: u16,
    next_state: i32,
)
    requires
        next_state == 1 || next_state == 2,
        handshake_fits(protocol_version, server_address, server_port, next_state),
    ensures
        transcript(
            config,
            handshake_packet(protocol_version, server_address, server_port, next_state),
        ) == if next_state == 1 {
            (
                after_status_request(config.status, protocol_version).written,
                after_status_request(config.status, protocol_version).error,
            )
        } else {
            (
                after_login_start(config.kick_msg@).written,
                after_login_start(config.kick_msg@).error,
            )
        },
{
    let greeting = handshake_packet(protocol_version, server_address, server_port, next_state);
    assert(greeting + Seq::<u8>::empty() =~= greeting);
    lemma_drain_handshake(
        config,
        protocol_version,
        server_address,
        server_port,
        next_state,
        Seq::empty(),
    );
}

/// A client that asks to log in is sent exactly one packet, the disconnect with
/// the configured kick message, whatever its login start holds and whatever it
/// sends after it.
pub proof fn lemma_login_exchange(
    config: Config,
    protocol_version: i32,
    server_address: Seq<u8>,
    server_port: u16,
    login_id: i32,
    login: Seq<u8>,
    rest: Seq<u8>,
)
    requires
        handshake_fits(protocol_version, server_address, server_port, 2),
        packet_body(login_id, login).len() <= MAX_BODY_LEN,
        disconnect_text(config.kick_msg@) matches Some(text) && response_fits(text),
    ensures
        transcript(
            config,
            handshake_packet(protocol_version, server_address, server_port, 2) + packet_bytes(
                login_id,
                login,
            ) + rest,
        ) == (response_packet(disconnect_text(config.kick_msg@)->0), None::<ProtocolError>),
{
    let greeting = handshake_packet(protocol_version, server_address, server_port, 2);
    let started = packet_bytes(login_id, login);
    assert(greeting + started + rest =~= greeting + (started + rest));
    lemma_drain_handshake(
        config,
        protocol_version,
        server_address,
        server_port,
        2,
        started + rest,
    );
    lemma_drain_packet(config, ConnectionState::Login, login_id, login, rest);
}

} // verus!
