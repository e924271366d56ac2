//! The client: the authentication handshake, and the reassembly of a response that
//! arrives in several packets.
//!
//! Nothing here touches a byte stream. Each operation says what is to be sent, or takes
//! a packet that was received and says where that leaves the exchange; whoever owns the
//! stream writes and reads in between.
//!
//! The protocol does not mark the end of a response. So every command is followed by a
//! second request, the control packet, to which the server answers with exactly one
//! packet, under an id that no command uses. A server answers in the order in which it
//! was asked: when the answer to the control packet arrives, the response to the command
//! is complete.
use crate::error::RconError;
use crate::raw_packet::{packet_of, PacketModel, PacketType, RawPacket, MAX_BODY_LEN};
use vstd::prelude::*;
use vstd::string::StringExecFns;
use vstd::utf8::*;

verus! {

/// The id of the control packet. No command carries it.
pub const CONTROL_ID: i32 = -1;

/// The id of the authentication request and of every command.
pub const START_ID: i32 = 0;

/// What a received packet says of an authentication request.
#[derive(Debug, Clone, Copy, PartialEq, Eq, Structural)]
pub enum AuthCheck {
    /// An authentication response under another id: the credentials were refused.
    Invalid,
    /// Not an authentication response.
    NoAuth,
    /// An authentication response under the id of the request.
    Valid,
}

/// What `packet`, taken as a response, says of the authentication request with the id
/// `packet_id`.
pub open spec fn auth_check(packet_id: i32, packet: PacketModel) -> AuthCheck {
    if PacketType::of_response(packet.kind) == Some(PacketType::ResponseAuth) {
        if packet.id == packet_id {
            AuthCheck::Valid
        } else {
            AuthCheck::Invalid
        }
    } else {
        AuthCheck::NoAuth
    }
}

/// Classifies a received packet as an answer to the authentication request with the id
/// `packet_id`.
pub fn check_auth(packet_id: i32, packet: &RawPacket) -> (check: AuthCheck)
    ensures
        check == auth_check(packet_id, packet@),
{
    match packet.response_type() {
        Some(PacketType::ResponseAuth) => {
            if packet.pid() == packet_id {
                AuthCheck::Valid
            } else {
                AuthCheck::Invalid
            }
        },
        _ => AuthCheck::NoAuth,
    }
}

/// Where a handshake stands.
///
/// Some servers answer an authentication request with an empty value response and then
/// the authentication response, others with the authentication response alone. Both are
/// accepted: a first packet that is no authentication response is passed over once.
#[derive(Debug, Clone, Copy, PartialEq, Eq, Structural)]
pub enum AuthState {
    /// The request is made and is to be sent.
    SentAuth,
    /// The request is out; no packet has arrived.
    AwaitingFirst,
    /// One packet has arrived, and it was no authentication response.
    AwaitingSecond,
    /// The server accepted the credentials.
    Authenticated,
    /// The server refused the credentials.
    Rejected,
    /// Two packets have arrived, and neither was an authentication response.
    ProtocolError,
}

impl AuthState {
    /// The handshake is over in this state.
    pub open spec fn terminal(self) -> bool {
        self == AuthState::Authenticated || self == AuthState::Rejected || self
            == AuthState::ProtocolError
    }

    /// The state after the request was written out.
    pub open spec fn after_sending(self) -> AuthState {
        if self == AuthState::SentAuth {
            AuthState::AwaitingFirst
        } else {
            self
        }
    }

    /// The state after `packet` arrived. Only a handshake that awaits a packet takes one.
    pub open spec fn after(self, login_id: i32, packet: PacketModel) -> AuthState {
        match self {
            AuthState::AwaitingFirst => match auth_check(login_id, packet) {
                AuthCheck::Valid => AuthState::Authenticated,
                AuthCheck::Invalid => AuthState::Rejected,
                AuthCheck::NoAuth => AuthState::AwaitingSecond,
            },
            AuthState::AwaitingSecond => match auth_check(login_id, packet) {
                AuthCheck::Valid => AuthState::Authenticated,
                AuthCheck::Invalid => AuthState::Rejected,
                AuthCheck::NoAuth => AuthState::ProtocolError,
            },
            _ => self,
        }
    }

    /// The state after the packets of `replies` arrived one after the other.
    pub open spec fn after_all(self, login_id: i32, replies: Seq<PacketModel>) -> AuthState
        decreases replies.len(),
    {
        if replies.len() == 0 {
            self
        } else {
            self.after_all(login_id, replies.drop_last()).after(login_id, replies.last())
        }
    }

    /// How a handshake that ended in this state is reported; `IoFailure` stands for one
    /// that did not end.
    pub open spec fn outcome(self) -> Result<(), RconError> {
        match self {
            AuthState::Authenticated => Ok(()),
            AuthState::Rejected => Err(RconError::AuthenticationRejected),
            AuthState::ProtocolError => Err(RconError::AuthenticationProtocolError),
            _ => Err(RconError::IoFailure),
        }
    }

    /// Tells whether the handshake is over.
    pub fn is_terminal(&self) -> (over: bool)
        ensures
            over == self.terminal(),
    {
        match self {
            AuthState::Authenticated | AuthState::Rejected | AuthState::ProtocolError => true,
            _ => false,
        }
    }
}

/// A handshake as a mathematical value.
pub struct HandshakeModel {
    pub login_id: i32,
    pub state: AuthState,
}

/// A handshake in progress: the id of its request, and where it stands.
#[derive(Debug)]
pub struct Handshake {
    login_id: i32,
    state: AuthState,
}

impl View for Handshake {
    type V = HandshakeModel;

    closed spec fn view(&self) -> HandshakeModel {
        HandshakeModel { login_id: self.login_id, state: self.state }
    }
}

impl Handshake {
    /// Starts a handshake with the password `pass`: makes the authentication request,
    /// under the id `START_ID`, and hands out its frame to be sent. Fails if and only if
    /// the password is longer than a body may be.
    pub fn begin(pass: &str) -> (r: Result<(Handshake, Vec<u8>), RconError>)
        ensures
            match r {
                Ok((handshake, request)) => {
                    &&& encode_utf8(pass@).len() <= MAX_BODY_LEN
                    &&& handshake@.login_id == START_ID
                    &&& handshake@.state == AuthState::SentAuth
                    &&& request@ == packet_of(
                        START_ID,
                        PacketType::RequestAuth.code(),
                        pass@,
                    ).wire()
                },
                Err(e) => encode_utf8(pass@).len() > MAX_BODY_LEN && e == RconError::BodyTooLarge,
            },
    {
        match RawPacket::new_auth(START_ID, pass) {
            Ok(auth_packet) => {
                let mut request: Vec<u8> = Vec::new();
                auth_packet.serialize(&mut request);
                Ok((Handshake { login_id: START_ID, state: AuthState::SentAuth }, request))
            },
            Err(e) => Err(e.to_io_error()),
        }
    }

    /// Records that the request was written out: the first packet is awaited.
    pub fn sent(&mut self)
        ensures
            final(self)@.login_id == old(self)@.login_id,
            final(self)@.state == old(self)@.state.after_sending(),
    {
        if self.state == AuthState::SentAuth {
            self.state = AuthState::AwaitingFirst;
        }
    }

    /// Takes a packet that was received. A handshake that awaits none leaves it aside.
    pub fn receive(&mut self, packet: &RawPacket)
        ensures
            final(self)@.login_id == old(self)@.login_id,
            final(self)@.state == old(self)@.state.after(old(self)@.login_id, packet@),
    {
        let awaiting_first: bool = self.state == AuthState::AwaitingFirst;
        if awaiting_first || self.state == AuthState::AwaitingSecond {
            self.state = match check_auth(self.login_id, packet) {
                AuthCheck::Valid => AuthState::Authenticated,
                AuthCheck::Invalid => AuthState::Rejected,
                AuthCheck::NoAuth => if awaiting_first {
                    AuthState::AwaitingSecond
                } else {
                    AuthState::ProtocolError
                },
            };
        }
    }

    /// Where the handshake stands.
    pub fn state(&self) -> (state: AuthState)
        ensures
            state == self@.state,
    {
        self.state
    }

    /// The id of the authentication request.
    pub fn login_id(&self) -> (id: i32)
        ensures
            id == self@.login_id,
    {
        self.login_id
    }
}

/// The packets of `packets` as mathematical values.
pub open spec fn models(packets: Seq<RawPacket>) -> Seq<PacketModel> {
    packets.map_values(|p: RawPacket| p@)
}

/// What a handshake whose request is out, under the id `packet_id`, concludes from the
/// packets that the server sent. `Ok(true)` stands for credentials accepted, `Ok(false)`
/// for credentials refused. Packets after the one that settles it are not looked at; a
/// stream that ends before it is settled is an `IoFailure`.
pub fn recv_auth(replies: &[RawPacket], packet_id: i32) -> (r: Result<bool, RconError>)
    ensures
        r == match AuthState::AwaitingFirst.after_all(packet_id, models(replies@)) {
            AuthState::Authenticated => Ok::<bool, RconError>(true),
            AuthState::Rejected => Ok(false),
            AuthState::ProtocolError => Err(RconError::AuthenticationProtocolError),
            _ => Err(RconError::IoFailure),
        },
{
    let mut handshake = Handshake { login_id: packet_id, state: AuthState::AwaitingFirst };
    let mut i: usize = 0;
    while i < replies.len()
        invariant
            i <= replies.len(),
            handshake.login_id == packet_id,
            handshake.state == AuthState::AwaitingFirst.after_all(
                packet_id,
                models(replies@).take(i as int),
            ),
        decreases replies.len() - i,
    {
        handshake.receive(&replies[i]);
        proof {
            let next = models(replies@).take(i + 1);
            assert(next.drop_last() =~= models(replies@).take(i as int));
            assert(next.last() == replies@[i as int]@);
        }
        i = i + 1;
    }
    proof {
        assert(models(replies@).take(i as int) =~= models(replies@));
    }
    match handshake.state {
        AuthState::Authenticated => Ok(true),
        AuthState::Rejected => Ok(false),
        AuthState::ProtocolError => Err(RconError::AuthenticationProtocolError),
        _ => Err(RconError::IoFailure),
    }
}

/// A session as a mathematical value: the control packet, and the id that commands go
/// out under.
pub struct ClientModel {
    pub control: PacketModel,
    pub command_id: i32,
}

/// A command in flight as a mathematical value: the session it belongs to, and what has
/// arrived of the response.
pub struct ExchangeModel {
    pub client: ClientModel,
    pub text: Seq<char>,
}

/// Where the execution of a command stands, as a mathematical value.
pub enum ProgressModel {
    Pending(ExchangeModel),
    Complete(ClientModel, Seq<char>),
}

impl ClientModel {
    /// The control packet is a packet, and no command shares its id.
    pub open spec fn wf(self) -> bool {
        self.control.wf() && self.control.id != self.command_id
    }

    /// What goes out for `command`: its frame, then the frame of the control packet.
    pub open spec fn request(self, command: Seq<char>) -> Seq<u8> {
        packet_of(self.command_id, PacketType::RequestExecCommand.code(), command).wire()
            + self.control.wire()
    }

    /// A command in flight of which nothing has arrived.
    pub open spec fn start(self) -> ExchangeModel {
        ExchangeModel { client: self, text: Seq::empty() }
    }
}

impl ExchangeModel {
    /// Where a received packet leaves the command: the answer to the control packet
    /// completes the response, and its body is dropped; the body of any other packet is
    /// appended to the response.
    pub open spec fn accept(self, packet: PacketModel) -> ProgressModel {
        if packet.id == self.client.control.id {
            ProgressModel::Complete(self.client, self.text)
        } else {
            ProgressModel::Pending(
                ExchangeModel { client: self.client, text: self.text + packet.body },
            )
        }
    }

    /// Where the packets of `replies`, received one after the other, leave the command.
    pub open spec fn accept_all(self, replies: Seq<PacketModel>) -> ProgressModel
        decreases replies.len(),
    {
        if replies.len() == 0 {
            ProgressModel::Pending(self)
        } else {
            self.accept_all(replies.drop_last()).accept(replies.last())
        }
    }
}

impl ProgressModel {
    /// Where a received packet leaves the execution. A response that is complete takes
    /// no further packet.
    pub open spec fn accept(self, packet: PacketModel) -> ProgressModel {
        match self {
            ProgressModel::Pending(exchange) => exchange.accept(packet),
            ProgressModel::Complete(_, _) => self,
        }
    }
}

/// The session that a handshake in the state `state` opens, with the control packet made
/// from `safe_command` where there is one.
pub open spec fn session_for(state: AuthState, safe_command: Option<Seq<char>>) -> Result<
    ClientModel,
    RconError,
> {
    match state.outcome() {
        Err(e) => Err(e),
        Ok(_) => match safe_command {
            Some(command) => if encode_utf8(command).len() <= MAX_BODY_LEN {
                Ok(
                    ClientModel {
                        control: packet_of(
                            CONTROL_ID,
                            PacketType::RequestExecCommand.code(),
                            command,
                        ),
                        command_id: START_ID,
                    },
                )
            } else {
                Err(RconError::BodyTooLarge)
            },
            None => Ok(
                ClientModel {
                    control: packet_of(
                        CONTROL_ID,
                        PacketType::ResponseValue.code(),
                        Seq::empty(),
                    ),
                    command_id: START_ID,
                },
            ),
        },
    }
}

/// An authenticated session, between two commands.
#[derive(Debug)]
pub struct RconClient {
    /// Sent after every command. The answer to it tells that the response to the
    /// command is complete.
    control_packet: RawPacket,
    command_id: i32,
}

/// A command in flight. It holds the session: no second command can go out before the
/// response to this one is complete.
#[derive(Debug)]
pub struct Exchange {
    client: RconClient,
    response: String,
}

/// Where the execution of a command stands after a packet was received.
#[derive(Debug)]
pub enum Progress {
    /// The response is not complete.
    Pending(Exchange),
    /// The response is complete: the session, free for the next command, and the text.
    Complete(RconClient, String),
}

impl View for RconClient {
    type V = ClientModel;

    closed spec fn view(&self) -> ClientModel {
        ClientModel { control: self.control_packet@, command_id: self.command_id }
    }
}

impl View for Exchange {
    type V = ExchangeModel;

    closed spec fn view(&self) -> ExchangeModel {
        ExchangeModel { client: self.client@, text: self.response@ }
    }
}

impl View for Progress {
    type V = ProgressModel;

    open spec fn view(&self) -> ProgressModel {
        match self {
            Progress::Pending(exchange) => ProgressModel::Pending(exchange@),
            Progress::Complete(client, text) => ProgressModel::Complete(client@, text@),
        }
    }
}

impl RconClient {
    #[verifier::type_invariant]
    spec fn well_formed(&self) -> bool {
        self@.wf()
    }

    /// Opens a session on a handshake that has ended.
    ///
    /// `safe_command` is a command to which the server answers with exactly one packet;
    /// it becomes the control packet. Without one, an empty value response is the control
    /// packet. The handshake decides first: credentials refused, no authentication
    /// response, or a handshake that did not end, each is reported as such. After that
    /// the only failure is a `safe_command` longer than a body may be.
    pub fn open(handshake: Handshake, safe_command: Option<&str>) -> (r: Result<
        RconClient,
        RconError,
    >)
        ensures
            match r {
                Ok(client) => session_for(
                    handshake@.state,
                    match safe_command {
                        Some(command) => Some(command@),
                        None => None,
                    },
                ) == Ok::<ClientModel, RconError>(client@) && client@.wf(),
                Err(e) => session_for(
                    handshake@.state,
                    match safe_command {
                        Some(command) => Some(command@),
                        None => None,
                    },
                ) == Err::<ClientModel, RconError>(e),
            },
    {
        match handshake.state() {
            AuthState::Authenticated => {
                let made = match safe_command {
                    Some(cmd) => RawPacket::new_exec(CONTROL_ID, cmd),
                    None => RawPacket::new_response_value(CONTROL_ID, ""),
                };
                proof {
                    reveal_strlit("");
                    assert(""@ =~= Seq::<char>::empty());
                    assert(encode_utf8(Seq::<char>::empty()).len() == 0);
                }
                match made {
                    Ok(control_packet) => {
                        let _ = control_packet.psize();
                        Ok(RconClient { control_packet, command_id: START_ID })
                    },
                    Err(e) => Err(e.to_io_error()),
                }
            },
            AuthState::Rejected => Err(RconError::AuthenticationRejected),
            AuthState::ProtocolError => Err(RconError::AuthenticationProtocolError),
            _ => Err(RconError::IoFailure),
        }
    }

    /// The control packet of the session.
    pub fn control_packet(&self) -> (packet: &RawPacket)
        ensures
            packet@ == self@.control,
            self@.wf(),
    {
        proof {
            use_type_invariant(self);
        }
        &self.control_packet
    }

    /// Starts the execution of `command`: makes the request, under the id that commands
    /// go out under, and hands out what is to be sent, the frame of the command and then
    /// the frame of the control packet. Fails if and only if the command is longer than a
    /// body may be; the session then comes back as it was.
    pub fn exec(self, command: &str) -> (r: Result<(Exchange, Vec<u8>), (RconClient, RconError)>)
        ensures
            match r {
                Ok((exchange, request)) => {
                    &&& encode_utf8(command@).len() <= MAX_BODY_LEN
                    &&& exchange@ == self@.start()
                    &&& request@ == self@.request(command@)
                },
                Err((client, e)) => {
                    &&& encode_utf8(command@).len() > MAX_BODY_LEN
                    &&& client@ == self@
                    &&& e == RconError::BodyTooLarge
                },
            },
    {
        match RawPacket::new_exec(self.command_id, command) {
            Ok(packet) => {
                let mut request: Vec<u8> = Vec::new();
                packet.serialize(&mut request);
                self.control_packet.serialize(&mut request);
                proof {
                    assert(request@ =~= self@.request(command@));
                }
                Ok((Exchange { client: self, response: String::new() }, request))
            },
            Err(e) => Err((self, e.to_io_error())),
        }
    }
}

impl Exchange {
    /// Takes a packet that was received. The answer to the control packet completes the
    /// response; the body of any other packet is appended to it.
    pub fn receive(self, packet: &RawPacket) -> (progress: Progress)
        ensures
            progress@ == self@.accept(packet@),
    {
        if packet.pid() == self.client.control_packet.pid() {
            Progress::Complete(self.client, self.response)
        } else {
            let mut exchange = self;
            exchange.response.append(packet.pbody());
            Progress::Pending(exchange)
        }
    }

    /// Takes the packets of `replies` one after the other, up to the one that completes
    /// the response. What follows that one is not looked at.
    pub fn receive_all(self, replies: &[RawPacket]) -> (progress: Progress)
        ensures
            progress@ == self@.accept_all(models(replies@)),
    {
        let mut progress = Progress::Pending(self);
        let mut i: usize = 0;
        while i < replies.len()
            invariant
                i <= replies.len(),
                progress@ == self@.accept_all(models(replies@).take(i as int)),
            decreases replies.len() - i,
        {
            progress = match progress {
                Progress::Pending(exchange) => exchange.receive(&replies[i]),
                Progress::Complete(client, text) => Progress::Complete(client, text),
            };
            proof {
                let next = models(replies@).take(i + 1);
                assert(next.drop_last() =~= models(replies@).take(i as int));
                assert(next.last() == replies@[i as int]@);
            }
            i = i + 1;
        }
        proof {
            assert(models(replies@).take(i as int) =~= models(replies@));
        }
        progress
    }
}

/// The bodies of `fragments`, one after the other, with nothing in between.
pub open spec fn text_of(fragments: Seq<PacketModel>) -> Seq<char>
    decreases fragments.len(),
{
    if fragments.len() == 0 {
        Seq::empty()
    } else {
        text_of(fragments.drop_last()) + fragments.last().body
    }
}

/// Packets that arrive one after the other can be taken in two batches.
pub proof fn lemma_after_all_in_two(
    state: AuthState,
    login_id: i32,
    first: Seq<PacketModel>,
    second: Seq<PacketModel>,
)
    ensures
        state.after_all(login_id, first + second) == state.after_all(login_id, first).after_all(
            login_id,
            second,
        ),
    decreases second.len(),
{
    if second.len() == 0 {
        assert(first + second =~= first);
    } else {
        assert((first + second).drop_last() =~= first + second.drop_last());
        assert((first + second).last() == second.last());
        lemma_after_all_in_two(state, login_id, first, second.drop_last());
    }
}

/// A handshake that is over stays as it is, whatever arrives.
pub proof fn lemma_terminal_state_stays(state: AuthState, login_id: i32, replies: Seq<PacketModel>)
    requires
        state.terminal(),
    ensures
        state.after_all(login_id, replies) == state,
    decreases replies.len(),
{
    if replies.len() > 0 {
        lemma_terminal_state_stays(state, login_id, replies.drop_last());
    }
}

/// The handshake accepts both ways in which servers answer. An authentication response
/// as the first packet settles it: accepted under the id of the request, refused under
/// any other. A first packet that is no authentication response is passed over, and the
/// second packet settles it in the same way; if that is no authentication response
/// either, the server does not speak the protocol. Nothing that arrives later changes
/// the outcome.
pub proof fn lemma_handshake_outcomes(
    login_id: i32,
    first: PacketModel,
    second: PacketModel,
    later: Seq<PacketModel>,
)
    ensures
        AuthState::AwaitingFirst.after_all(login_id, seq![first]) == match auth_check(
            login_id,
            first,
        ) {
            AuthCheck::Valid => AuthState::Authenticated,
            AuthCheck::Invalid => AuthState::Rejected,
            AuthCheck::NoAuth => AuthState::AwaitingSecond,
        },
        auth_check(login_id, first) != AuthCheck::NoAuth ==> AuthState::AwaitingFirst.after_all(
            login_id,
            seq![first] + later,
        ) == AuthState::AwaitingFirst.after_all(login_id, seq![first]),
        auth_check(login_id, first) == AuthCheck::NoAuth ==> AuthState::AwaitingFirst.after_all(
            login_id,
            seq![first, second] + later,
        ) == match auth_check(login_id, second) {
            AuthCheck::Valid => AuthState::Authenticated,
            AuthCheck::Invalid => AuthState::Rejected,
            AuthCheck::NoAuth => AuthState::ProtocolError,
        },
{
    let start = AuthState::AwaitingFirst;
    let one = seq![first];
    let two = seq![first, second];
    assert(one.drop_last() =~= Seq::<PacketModel>::empty());
    assert(one.last() == first);
    assert(start.after_all(login_id, one.drop_last()) == start);
    assert(two.drop_last() =~= one);
    assert(two.last() == second);
    lemma_after_all_in_two(start, login_id, one, later);
    lemma_after_all_in_two(start, login_id, two, later);
    if start.after_all(login_id, one).terminal() {
        lemma_terminal_state_stays(start.after_all(login_id, one), login_id, later);
    }
    if start.after_all(login_id, two).terminal() {
        lemma_terminal_state_stays(start.after_all(login_id, two), login_id, later);
    }
}

/// Reassembly. As long as no received packet carries the id of the control packet, the
/// response is pending, and it is the bodies of what was received, in the order of
/// receipt. The first packet that carries that id completes the response: its body is
/// dropped, and no packet after it counts.
pub proof fn lemma_reassembly(
    exchange: ExchangeModel,
    fragments: Seq<PacketModel>,
    sentinel: PacketModel,
    later: Seq<PacketModel>,
)
    requires
        forall|i: int| 0 <= i < fragments.len() ==> fragments[i].id != exchange.client.control.id,
        sentinel.id == exchange.client.control.id,
    ensures
        exchange.accept_all(fragments) == ProgressModel::Pending(
            ExchangeModel { client: exchange.client, text: exchange.text + text_of(fragments) },
        ),
        exchange.accept_all(fragments + seq![sentinel] + later) == ProgressModel::Complete(
            exchange.client,
            exchange.text + text_of(fragments),
        ),
    decreases later.len(), fragments.len(),
{
    let whole = fragments + seq![sentinel] + later;
    if later.len() > 0 {
        assert(whole.drop_last() =~= fragments + seq![sentinel] + later.drop_last());
        lemma_reassembly(exchange, fragments, sentinel, later.drop_last());
    } else {
        assert(whole.drop_last() =~= fragments);
        assert(whole.last() == sentinel);
        if fragments.len() > 0 {
            let front = fragments.drop_last();
            assert(front + seq![sentinel] + Seq::<PacketModel>::empty() =~= front + seq![
                sentinel,
            ]);
            lemma_reassembly(exchange, front, sentinel, Seq::empty());
            assert(exchange.text + text_of(front) + fragments.last().body =~= exchange.text
                + text_of(fragments));
        } else {
            assert(exchange.text + text_of(fragments) =~= exchange.text);
        }
    }
}

/// Executing a command leaves the session as it was. So against a peer whose answer
/// depends on nothing but what it was sent, the same command sends the same bytes again
/// and gets the same text again.
pub proof fn lemma_exec_repeatable(
    client: ClientModel,
    command: Seq<char>,
    peer: spec_fn(Seq<u8>) -> Seq<PacketModel>,
)
    ensures
        match client.start().accept_all(peer(client.request(command))) {
            ProgressModel::Complete(after, text) => {
                &&& after == client
                &&& after.request(command) == client.request(command)
                &&& after.start().accept_all(peer(after.request(command)))
                    == ProgressModel::Complete(after, text)
            },
            ProgressModel::Pending(exchange) => exchange.client == client,
        },
{
    lemma_session_kept(client.start(), peer(client.request(command)));
}

/// The session of a command in flight is the one that it started with, at every point
/// of the execution.
pub proof fn lemma_session_kept(exchange: ExchangeModel, replies: Seq<PacketModel>)
    ensures
        match exchange.accept_all(replies) {
            ProgressModel::Complete(after, _) => after == exchange.client,
            ProgressModel::Pending(pending) => pending.client == exchange.client,
        },
    decreases replies.len(),
{
    if replies.len() > 0 {
        lemma_session_kept(exchange, replies.drop_last());
    }
}

} // verus!
