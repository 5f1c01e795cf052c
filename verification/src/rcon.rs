//! Minimal Source RCON client (CS2 dedicated server, `-usercon`).
//!
//! Only what the agent needs: authenticate, execute one command, collect the
//! (possibly multi-packet) response. A multi-packet response is ended by a
//! sentinel: after the command an empty `SERVERDATA_RESPONSE_VALUE` request
//! with an id of its own is sent. The server processes requests in order, so
//! that the sentinel's id echoed back means that the real response is complete.
use crate::text::{decimal, write_decimal};
use vstd::prelude::*;
use vstd::utf8::{decode_utf8, encode_utf8, encode_utf8_decode_utf8, encode_utf8_valid_utf8, valid_utf8};

verus! {

pub const SERVERDATA_AUTH: i32 = 3;

/// The authentication response shares this value.
pub const SERVERDATA_EXECCOMMAND: i32 = 2;

pub const SERVERDATA_RESPONSE_VALUE: i32 = 0;

/// The request ids of the three packets that a session sends.
pub const AUTH_ID: i32 = 1;

pub const COMMAND_ID: i32 = 10;

pub const SENTINEL_ID: i32 = 11;

/// How long one connect, read or write may take.
pub const IO_TIMEOUT_SECS: u64 = 5;

/// The sizes that a packet can plausibly announce.
pub const MIN_PACKET_SIZE: i32 = 10;

pub const MAX_PACKET_SIZE: i32 = 4110;

/// Responses larger than 1 MiB are nonsense.
pub const MAX_RESPONSE_BYTES: usize = 1_048_576;

/// Why an RCON exchange failed.
#[derive(Debug)]
pub enum RconError {
    /// No connection to this address in time.
    Connect(String),
    /// The connection broke; the text says how.
    Io(String),
    WriteTimeout,
    ReadTimeout,
    PacketTooLarge,
    ImplausibleSize(i32),
    BadPassword,
    ResponseTooLarge,
}

/// What an error holds.
pub enum RconErrorView {
    Connect(Seq<char>),
    Io(Seq<char>),
    WriteTimeout,
    ReadTimeout,
    PacketTooLarge,
    ImplausibleSize(i32),
    BadPassword,
    ResponseTooLarge,
}

impl View for RconError {
    type V = RconErrorView;

    open spec fn view(&self) -> RconErrorView {
        match self {
            RconError::Connect(addr) => RconErrorView::Connect(addr@),
            RconError::Io(text) => RconErrorView::Io(text@),
            RconError::WriteTimeout => RconErrorView::WriteTimeout,
            RconError::ReadTimeout => RconErrorView::ReadTimeout,
            RconError::PacketTooLarge => RconErrorView::PacketTooLarge,
            RconError::ImplausibleSize(size) => RconErrorView::ImplausibleSize(*size),
            RconError::BadPassword => RconErrorView::BadPassword,
            RconError::ResponseTooLarge => RconErrorView::ResponseTooLarge,
        }
    }
}

/// The words for an error.
pub open spec fn error_text(error: RconErrorView) -> Seq<char> {
    match error {
        RconErrorView::Connect(addr) => "connecting to rcon at "@ + addr,
        RconErrorView::Io(text) => text,
        RconErrorView::WriteTimeout => "rcon write timeout"@,
        RconErrorView::ReadTimeout => "rcon read timeout"@,
        RconErrorView::PacketTooLarge => "packet too large"@,
        RconErrorView::ImplausibleSize(size) => "implausible rcon packet size: "@ + decimal(
            size as int,
        ),
        RconErrorView::BadPassword => "rcon authentication failed (bad password)"@,
        RconErrorView::ResponseTooLarge => "rcon response exceeded 1048576 bytes"@,
    }
}

impl RconError {
    /// The words for the error.
    pub fn message(&self) -> (text: String)
        ensures
            text@ == error_text(self@),
    {
        match self {
            RconError::Connect(addr) => {
                let mut s = "connecting to rcon at ".to_owned();
                s.append(addr.as_str());
                s
            },
            RconError::Io(text) => text.clone(),
            RconError::WriteTimeout => "rcon write timeout".to_owned(),
            RconError::ReadTimeout => "rcon read timeout".to_owned(),
            RconError::PacketTooLarge => "packet too large".to_owned(),
            RconError::ImplausibleSize(size) => {
                let mut s = "implausible rcon packet size: ".to_owned();
                let number = write_decimal(*size);
                s.append(number.as_str());
                s
            },
            RconError::BadPassword => "rcon authentication failed (bad password)".to_owned(),
            RconError::ResponseTooLarge => "rcon response exceeded 1048576 bytes".to_owned(),
        }
    }
}

/// A packet of the server.
#[derive(Debug)]
pub struct Packet {
    pub id: i32,
    pub ptype: i32,
    pub body: Vec<u8>,
}

/// What a packet holds.
pub struct PacketView {
    pub id: i32,
    pub ptype: i32,
    pub body: Seq<u8>,
}

impl View for Packet {
    type V = PacketView;

    open spec fn view(&self) -> PacketView {
        PacketView { id: self.id, ptype: self.ptype, body: self.body@ }
    }
}

/// The two's complement of a 32-bit number.
pub open spec fn unsigned(x: int) -> int {
    if x < 0 {
        x + 0x1_0000_0000
    } else {
        x
    }
}

/// The four bytes of a 32-bit number, the lowest first.
pub open spec fn le_bytes(x: int) -> Seq<u8> {
    let u = unsigned(x);
    seq![
        (u % 0x100) as u8,
        (u / 0x100 % 0x100) as u8,
        (u / 0x1_0000 % 0x100) as u8,
        (u / 0x100_0000 % 0x100) as u8,
    ]
}

/// The 32-bit number that four bytes stand for, the lowest first.
pub open spec fn le_value(b: Seq<u8>) -> int {
    let u = b[0] + 0x100 * b[1] + 0x1_0000 * b[2] + 0x100_0000 * b[3];
    if u >= 0x8000_0000 {
        u - 0x1_0000_0000
    } else {
        u
    }
}

/// A packet on the wire: its size, its id, its type, its body and two zeros.
/// The size counts everything behind itself.
pub open spec fn packet_bytes(id: int, ptype: int, body: Seq<u8>) -> Seq<u8> {
    le_bytes((body.len() + 10) as int) + le_bytes(id) + le_bytes(ptype) + body + seq![0u8, 0u8]
}

/// The packet that the bytes behind the size stand for.
pub open spec fn payload_packet(payload: Seq<u8>) -> PacketView {
    PacketView {
        id: le_value(payload.subrange(0, 4)) as i32,
        ptype: le_value(payload.subrange(4, 8)) as i32,
        body: payload.subrange(8, payload.len() - 2),
    }
}

/// Appends the four bytes of `x`.
fn push_le(buf: &mut Vec<u8>, x: i32)
    ensures
        final(buf)@ == old(buf)@ + le_bytes(x as int),
{
    let u: u32 = x as u32;
    assert(x >= 0 ==> x as u32 == x) by (bit_vector);
    assert(x < 0 ==> x as u32 == x + 0x1_0000_0000) by (bit_vector);
    assert(u == unsigned(x as int));
    buf.push((u % 0x100) as u8);
    buf.push((u / 0x100 % 0x100) as u8);
    buf.push((u / 0x1_0000 % 0x100) as u8);
    buf.push((u / 0x100_0000 % 0x100) as u8);
    assert(buf@ == old(buf)@ + le_bytes(x as int));
}

/// The number that the four bytes of `b` from `at` on stand for.
fn read_le(b: &[u8], at: usize) -> (x: i32)
    requires
        at + 4 <= b@.len(),
    ensures
        x == le_value(b@.subrange(at as int, at + 4)),
{
    let u: u32 = b[at] as u32 + 0x100 * b[at + 1] as u32 + 0x1_0000 * b[at + 2] as u32 + 0x100_0000
        * b[at + 3] as u32;
    assert(u < 0x8000_0000 ==> u as i32 == u) by (bit_vector);
    assert(u >= 0x8000_0000 ==> u as i32 == u - 0x1_0000_0000) by (bit_vector);
    u as i32
}

/// Encodes a packet. Fails where the size does not fit into its field.
pub fn encode_packet(id: i32, ptype: i32, body: &str) -> (r: Result<Vec<u8>, RconError>)
    ensures
        match r {
            Ok(bytes) => encode_utf8(body@).len() + 10 <= i32::MAX && bytes@ == packet_bytes(
                id as int,
                ptype as int,
                encode_utf8(body@),
            ),
            Err(e) => encode_utf8(body@).len() + 10 > i32::MAX && e@
                == RconErrorView::PacketTooLarge,
        },
{
    let body_bytes = body.as_bytes();
    let n = body_bytes.len();
    if n > 0x7fff_fff5 {
        return Err(RconError::PacketTooLarge);
    }
    let mut buf: Vec<u8> = Vec::new();
    push_le(&mut buf, (n + 10) as i32);
    push_le(&mut buf, id);
    push_le(&mut buf, ptype);
    buf.extend_from_slice(body_bytes);
    buf.push(0);
    buf.push(0);
    assert(buf@ == packet_bytes(id as int, ptype as int, encode_utf8(body@)));
    Ok(buf)
}

/// The size that a packet announces: how many bytes follow.
pub fn packet_size(header: [u8; 4]) -> (r: Result<usize, RconError>)
    ensures
        match r {
            Ok(size) => size == le_value(header@) && MIN_PACKET_SIZE <= size <= MAX_PACKET_SIZE,
            Err(e) => !(MIN_PACKET_SIZE <= le_value(header@) <= MAX_PACKET_SIZE) && e@
                == RconErrorView::ImplausibleSize(le_value(header@) as i32),
        },
{
    let size = read_le(header.as_slice(), 0);
    assert(header@.subrange(0, 4) == header@);
    if size < MIN_PACKET_SIZE || size > MAX_PACKET_SIZE {
        return Err(RconError::ImplausibleSize(size));
    }
    Ok(size as usize)
}

/// Decodes the bytes behind a packet's size.
pub fn decode_payload(payload: &[u8]) -> (packet: Packet)
    requires
        payload@.len() >= MIN_PACKET_SIZE,
    ensures
        packet@ == payload_packet(payload@),
{
    let id = read_le(payload, 0);
    let ptype = read_le(payload, 4);
    let body = vstd::slice::slice_to_vec(
        vstd::slice::slice_subrange(payload, 8, payload.len() - 2),
    );
    Packet { id, ptype, body }
}

/// The text that `String::from_utf8_lossy` makes of bytes that are not valid
/// UTF-8.
pub uninterp spec fn utf8_lossy(bytes: Seq<u8>) -> Seq<char>;

/// Bytes as text: the text that they encode, where they are valid UTF-8.
pub open spec fn bytes_text(bytes: Seq<u8>) -> Seq<char> {
    if valid_utf8(bytes) {
        decode_utf8(bytes)
    } else {
        utf8_lossy(bytes)
    }
}

/// `String::from_utf8_lossy`: decodes valid UTF-8 to the text that it encodes;
/// of other bytes only that the text is a function of the bytes.
#[verifier::external_body]
fn from_utf8_lossy(bytes: &Vec<u8>) -> (text: String)
    ensures
        text@ == (if valid_utf8(bytes@) {
            decode_utf8(bytes@)
        } else {
            utf8_lossy(bytes@)
        }),
{
    String::from_utf8_lossy(bytes).into_owned()
}

/// One RCON exchange: a connection on which one command is run.
pub struct Session {
    command: String,
    authenticated: bool,
    response: Vec<u8>,
}

/// What a session holds: the command to run, whether the server has accepted
/// the password, and the response collected so far.
pub struct SessionView {
    pub command: Seq<char>,
    pub authenticated: bool,
    pub response: Seq<u8>,
}

impl View for Session {
    type V = SessionView;

    closed spec fn view(&self) -> SessionView {
        SessionView {
            command: self.command@,
            authenticated: self.authenticated,
            response: self.response@,
        }
    }
}

/// What a session does once it has seen a packet.
pub enum Progress {
    /// Read the next packet.
    Read,
    /// Send these two packets, one after the other, and read the next one.
    Send(Vec<u8>, Vec<u8>),
    /// The response is complete.
    Done(String),
    /// The exchange failed.
    Failed(RconError),
}

/// What the progress of a session holds.
pub enum ProgressView {
    Read,
    Send(Seq<u8>, Seq<u8>),
    Done(Seq<char>),
    Failed(RconErrorView),
}

impl View for Progress {
    type V = ProgressView;

    open spec fn view(&self) -> ProgressView {
        match self {
            Progress::Read => ProgressView::Read,
            Progress::Send(command, sentinel) => ProgressView::Send(command@, sentinel@),
            Progress::Done(text) => ProgressView::Done(text@),
            Progress::Failed(e) => ProgressView::Failed(e@),
        }
    }
}

/// Tells whether a text fits into one packet.
pub open spec fn sendable(text: Seq<char>) -> bool {
    encode_utf8(text).len() + 10 <= i32::MAX
}

/// A session that is about to send the password.
pub open spec fn opened(command: Seq<char>) -> SessionView {
    SessionView { command, authenticated: false, response: Seq::empty() }
}

/// A session whose password has been accepted.
pub open spec fn accepted(s: SessionView) -> SessionView {
    SessionView { authenticated: true, ..s }
}

/// The part of the response that a packet carries.
pub open spec fn response_part(p: PacketView) -> Seq<u8> {
    if p.id == COMMAND_ID && p.ptype == SERVERDATA_RESPONSE_VALUE {
        p.body
    } else {
        Seq::empty()
    }
}

/// The session once it has seen a packet, and what it does then.
///
/// Before it is authenticated it waits for the authentication response: the
/// server may send other packets first, and an id of -1 means a bad password.
/// Then it collects the response until the sentinel's id comes back.
pub open spec fn received(s: SessionView, p: PacketView) -> (SessionView, ProgressView) {
    if !s.authenticated {
        if p.ptype != SERVERDATA_EXECCOMMAND {
            (s, ProgressView::Read)
        } else if p.id == -1 {
            (s, ProgressView::Failed(RconErrorView::BadPassword))
        } else if !sendable(s.command) {
            (accepted(s), ProgressView::Failed(RconErrorView::PacketTooLarge))
        } else {
            (
                accepted(s),
                ProgressView::Send(
                    packet_bytes(
                        COMMAND_ID as int,
                        SERVERDATA_EXECCOMMAND as int,
                        encode_utf8(s.command),
                    ),
                    packet_bytes(
                        SENTINEL_ID as int,
                        SERVERDATA_RESPONSE_VALUE as int,
                        Seq::empty(),
                    ),
                ),
            )
        }
    } else if p.id == SENTINEL_ID {
        (s, ProgressView::Done(bytes_text(s.response)))
    } else {
        let response = s.response + response_part(p);
        (
            SessionView { response, ..s },
            if response.len() > MAX_RESPONSE_BYTES && p.id == COMMAND_ID && p.ptype
                == SERVERDATA_RESPONSE_VALUE {
                ProgressView::Failed(RconErrorView::ResponseTooLarge)
            } else {
                ProgressView::Read
            },
        )
    }
}

impl Session {
    /// Begins an exchange: the session, and the packet that authenticates it.
    pub fn open(password: &str, command: &str) -> (r: Result<(Session, Vec<u8>), RconError>)
        ensures
            match r {
                Ok((session, packet)) => {
                    &&& sendable(password@)
                    &&& session@ == opened(command@)
                    &&& packet@ == packet_bytes(
                        AUTH_ID as int,
                        SERVERDATA_AUTH as int,
                        encode_utf8(password@),
                    )
                },
                Err(e) => !sendable(password@) && e@ == RconErrorView::PacketTooLarge,
            },
    {
        match encode_packet(AUTH_ID, SERVERDATA_AUTH, password) {
            Ok(packet) => {
                let session = Session {
                    command: command.to_owned(),
                    authenticated: false,
                    response: Vec::new(),
                };
                assert(session@.response == Seq::<u8>::empty());
                Ok((session, packet))
            },
            Err(e) => Err(e),
        }
    }

    /// Takes in the next packet of the server.
    pub fn receive(&mut self, packet: Packet) -> (progress: Progress)
        ensures
            (final(self)@, progress@) == received(old(self)@, packet@),
    {
        if !self.authenticated {
            if packet.ptype != SERVERDATA_EXECCOMMAND {
                return Progress::Read;
            }
            if packet.id == -1 {
                return Progress::Failed(RconError::BadPassword);
            }
            self.authenticated = true;
            let command = match encode_packet(
                COMMAND_ID,
                SERVERDATA_EXECCOMMAND,
                self.command.as_str(),
            ) {
                Ok(bytes) => bytes,
                Err(e) => return Progress::Failed(e),
            };
            assert(encode_utf8(""@) == Seq::<u8>::empty()) by {
                reveal_strlit("");
            }
            let sentinel = match encode_packet(SENTINEL_ID, SERVERDATA_RESPONSE_VALUE, "") {
                Ok(bytes) => bytes,
                Err(e) => return Progress::Failed(e),
            };
            return Progress::Send(command, sentinel);
        }
        if packet.id == SENTINEL_ID {
            return Progress::Done(from_utf8_lossy(&self.response));
        }
        if packet.id == COMMAND_ID && packet.ptype == SERVERDATA_RESPONSE_VALUE {
            self.response.extend_from_slice(packet.body.as_slice());
            assert(self.response@ == old(self).response@ + packet.body@);
            if self.response.len() > MAX_RESPONSE_BYTES {
                return Progress::Failed(RconError::ResponseTooLarge);
            }
        } else {
            assert(self.response@ + response_part(packet@) == self.response@);
        }
        Progress::Read
    }
}

/// Reading back the four bytes of a 32-bit number gives the number.
pub proof fn law_le_round_trip(x: int)
    requires
        i32::MIN <= x <= i32::MAX,
    ensures
        le_value(le_bytes(x)) == x,
{
    let u = unsigned(x);
    let b = le_bytes(x);
    assert(u / 0x1_0000 == u / 0x100 / 0x100);
    assert(u / 0x100_0000 == u / 0x1_0000 / 0x100);
    assert(0 <= u / 0x100_0000 < 0x100);
    assert(b[0] + 0x100 * b[1] + 0x1_0000 * b[2] + 0x100_0000 * b[3] == u);
}

/// What a packet is encoded to is decoded to the same packet again: the size
/// that it announces is plausible and counts the bytes behind it, and these
/// give back the id, the type and the body.
pub proof fn law_packet_round_trip(id: i32, ptype: i32, body: Seq<u8>)
    requires
        body.len() + 10 <= MAX_PACKET_SIZE,
    ensures
        ({
            let bytes = packet_bytes(id as int, ptype as int, body);
            let payload = bytes.skip(4);
            &&& le_value(bytes.take(4)) == payload.len()
            &&& MIN_PACKET_SIZE <= le_value(bytes.take(4)) <= MAX_PACKET_SIZE
            &&& payload_packet(payload) == (PacketView { id, ptype, body })
        }),
{
    let bytes = packet_bytes(id as int, ptype as int, body);
    let payload = bytes.skip(4);
    law_le_round_trip((body.len() + 10) as int);
    law_le_round_trip(id as int);
    law_le_round_trip(ptype as int);
    assert(bytes.take(4) =~= le_bytes((body.len() + 10) as int));
    assert(payload.subrange(0, 4) =~= le_bytes(id as int));
    assert(payload.subrange(4, 8) =~= le_bytes(ptype as int));
    assert(payload.subrange(8, payload.len() - 2) =~= body);
}

/// How a session ends on a list of packets: with a text, with an error, or not
/// yet.
pub open spec fn outcome(s: SessionView, packets: Seq<PacketView>) -> Option<
    Result<Seq<char>, RconErrorView>,
>
    decreases packets.len(),
{
    if packets.len() == 0 {
        None
    } else {
        let (next, progress) = received(s, packets[0]);
        match progress {
            ProgressView::Done(text) => Some(Ok(text)),
            ProgressView::Failed(e) => Some(Err(e)),
            _ => outcome(next, packets.drop_first()),
        }
    }
}

/// The response that a list of packets carries, put together.
pub open spec fn collected(packets: Seq<PacketView>) -> Seq<u8>
    decreases packets.len(),
{
    if packets.len() == 0 {
        Seq::empty()
    } else {
        response_part(packets[0]) + collected(packets.drop_first())
    }
}

/// Tells whether the packets are none that a session waits for before it is
/// authenticated.
pub open spec fn before_auth(packets: Seq<PacketView>) -> bool {
    forall|i: int| 0 <= i < packets.len() ==> (#[trigger] packets[i]).ptype != SERVERDATA_EXECCOMMAND
}

/// Tells whether the sentinel has not come back in these packets.
pub open spec fn before_sentinel(packets: Seq<PacketView>) -> bool {
    forall|i: int| 0 <= i < packets.len() ==> (#[trigger] packets[i]).id != SENTINEL_ID
}

/// Until the authentication response comes, packets change nothing and make
/// the session send nothing.
proof fn lemma_skip_before_auth(s: SessionView, early: Seq<PacketView>, rest: Seq<PacketView>)
    requires
        !s.authenticated,
        before_auth(early),
    ensures
        outcome(s, early + rest) == outcome(s, rest),
    decreases early.len(),
{
    if early.len() == 0 {
        assert(early + rest == rest);
    } else {
        assert((early + rest)[0] == early[0]);
        assert((early + rest).drop_first() == early.drop_first() + rest);
        lemma_skip_before_auth(s, early.drop_first(), rest);
    }
}

/// While the response stays within its bound, it grows by what the packets
/// carry.
proof fn lemma_collect(s: SessionView, packets: Seq<PacketView>, rest: Seq<PacketView>)
    requires
        s.authenticated,
        before_sentinel(packets),
        s.response.len() + collected(packets).len() <= MAX_RESPONSE_BYTES,
    ensures
        outcome(s, packets + rest) == outcome(
            SessionView { response: s.response + collected(packets), ..s },
            rest,
        ),
    decreases packets.len(),
{
    if packets.len() == 0 {
        assert(packets + rest == rest);
        assert(s.response + collected(packets) == s.response);
    } else {
        assert((packets + rest)[0] == packets[0]);
        assert((packets + rest).drop_first() == packets.drop_first() + rest);
        let next = SessionView { response: s.response + response_part(packets[0]), ..s };
        assert(received(s, packets[0]) == (next, ProgressView::Read));
        lemma_collect(next, packets.drop_first(), rest);
        assert(next.response + collected(packets.drop_first()) == s.response + collected(packets));
    }
}

/// While a session goes on, the response that it has collected stays within
/// its bound.
pub proof fn law_response_stays_bounded(s: SessionView, p: PacketView)
    requires
        s.response.len() <= MAX_RESPONSE_BYTES,
    ensures
        received(s, p).1 !is Failed ==> received(s, p).0.response.len() <= MAX_RESPONSE_BYTES,
{
}

/// The text of an exchange is everything that the server sent in answer to the
/// command: whatever comes before the authentication response is skipped, the
/// parts of the response are put together in order, and the sentinel ends it,
/// whatever follows.
pub proof fn law_response_is_complete(
    command: Seq<char>,
    early: Seq<PacketView>,
    auth: PacketView,
    answer: Seq<PacketView>,
    sentinel: PacketView,
    late: Seq<PacketView>,
)
    requires
        sendable(command),
        before_auth(early),
        auth.ptype == SERVERDATA_EXECCOMMAND,
        auth.id != -1,
        before_sentinel(answer),
        collected(answer).len() <= MAX_RESPONSE_BYTES,
        sentinel.id == SENTINEL_ID,
    ensures
        outcome(opened(command), early + seq![auth] + answer + seq![sentinel] + late) == Some(
            Ok::<Seq<char>, RconErrorView>(bytes_text(collected(answer))),
        ),
{
    let s = opened(command);
    let tail = seq![sentinel] + late;
    let rest = seq![auth] + (answer + tail);
    assert(early + seq![auth] + answer + seq![sentinel] + late == early + rest);
    lemma_skip_before_auth(s, early, rest);
    assert(rest[0] == auth);
    assert(rest.drop_first() == answer + tail);
    assert(outcome(s, rest) == outcome(accepted(s), answer + tail));
    lemma_collect(accepted(s), answer, tail);
    assert(Seq::<u8>::empty() + collected(answer) == collected(answer));
    assert(tail[0] == sentinel);
}

/// A response that is the encoding of a text, however it is cut into packets,
/// is given back as that text.
pub proof fn law_response_text_round_trip(
    command: Seq<char>,
    auth: PacketView,
    answer: Seq<PacketView>,
    sentinel: PacketView,
    text: Seq<char>,
)
    requires
        sendable(command),
        auth.ptype == SERVERDATA_EXECCOMMAND,
        auth.id != -1,
        before_sentinel(answer),
        collected(answer) == encode_utf8(text),
        encode_utf8(text).len() <= MAX_RESPONSE_BYTES,
        sentinel.id == SENTINEL_ID,
    ensures
        outcome(opened(command), seq![auth] + answer + seq![sentinel]) == Some(
            Ok::<Seq<char>, RconErrorView>(text),
        ),
{
    law_response_is_complete(command, Seq::empty(), auth, answer, sentinel, Seq::empty());
    assert(Seq::<PacketView>::empty() + seq![auth] + answer + seq![sentinel] + Seq::empty()
        == seq![auth] + answer + seq![sentinel]);
    encode_utf8_valid_utf8(text);
    encode_utf8_decode_utf8(text);
}

/// A bad password ends the exchange, and the command has not been sent then:
/// all that the session did up to there was to read.
pub proof fn law_bad_password_ends_the_exchange(
    command: Seq<char>,
    early: Seq<PacketView>,
    auth: PacketView,
    late: Seq<PacketView>,
)
    requires
        before_auth(early),
        auth.ptype == SERVERDATA_EXECCOMMAND,
        auth.id == -1,
    ensures
        outcome(opened(command), early + seq![auth] + late) == Some(
            Err::<Seq<char>, RconErrorView>(RconErrorView::BadPassword),
        ),
        forall|i: int|
            0 <= i < early.len() ==> received(opened(command), #[trigger] early[i]) == (
                opened(command),
                ProgressView::Read,
            ),
{
    let s = opened(command);
    assert(early + seq![auth] + late == early + (seq![auth] + late));
    lemma_skip_before_auth(s, early, seq![auth] + late);
    assert((seq![auth] + late)[0] == auth);
}

/// A response that grows over its bound ends the exchange at the packet that
/// takes it there.
pub proof fn law_endless_response_is_refused(
    command: Seq<char>,
    early: Seq<PacketView>,
    auth: PacketView,
    answer: Seq<PacketView>,
    excess: PacketView,
    late: Seq<PacketView>,
)
    requires
        sendable(command),
        before_auth(early),
        auth.ptype == SERVERDATA_EXECCOMMAND,
        auth.id != -1,
        before_sentinel(answer),
        collected(answer).len() <= MAX_RESPONSE_BYTES,
        excess.id != SENTINEL_ID,
        collected(answer).len() + response_part(excess).len() > MAX_RESPONSE_BYTES,
    ensures
        outcome(opened(command), early + seq![auth] + answer + seq![excess] + late) == Some(
            Err::<Seq<char>, RconErrorView>(RconErrorView::ResponseTooLarge),
        ),
{
    let s = opened(command);
    let tail = seq![excess] + late;
    let rest = seq![auth] + (answer + tail);
    assert(early + seq![auth] + answer + seq![excess] + late == early + rest);
    lemma_skip_before_auth(s, early, rest);
    assert(rest[0] == auth);
    assert(rest.drop_first() == answer + tail);
    assert(outcome(s, rest) == outcome(accepted(s), answer + tail));
    lemma_collect(accepted(s), answer, tail);
    assert(Seq::<u8>::empty() + collected(answer) == collected(answer));
    assert(tail[0] == excess);
}

/// The words for an error name the address, the text or the size that it is
/// about.
pub proof fn law_errors_say_what_they_are_about(text: Seq<char>, size: i32)
    ensures
        error_text(RconErrorView::Connect(text)) == "connecting to rcon at "@ + text,
        error_text(RconErrorView::Io(text)) == text,
        error_text(RconErrorView::ImplausibleSize(size)) == "implausible rcon packet size: "@
            + decimal(size as int),
        error_text(RconErrorView::WriteTimeout) == "rcon write timeout"@,
        error_text(RconErrorView::ReadTimeout) == "rcon read timeout"@,
        error_text(RconErrorView::PacketTooLarge) == "packet too large"@,
        error_text(RconErrorView::BadPassword) == "rcon authentication failed (bad password)"@,
        error_text(RconErrorView::ResponseTooLarge) == "rcon response exceeded 1048576 bytes"@,
{
}

/// A 32-bit number is four bytes, the first for the ones and each next one for
/// 256 times as much; a negative number is what it takes to 2 to the 32nd.
pub proof fn law_numbers_begin_with_their_lowest_byte(x: int)
    requires
        i32::MIN <= x <= i32::MAX,
    ensures
        ({
            let b = le_bytes(x);
            &&& b.len() == 4
            &&& b[0] + 256 * b[1] + 65536 * b[2] + 16777216 * b[3] == if x < 0 {
                x + 4294967296
            } else {
                x
            }
        }),
{
    law_le_round_trip(x);
}

/// A packet has its body in it, whole and unchanged, twelve bytes from its
/// start, and two zeros behind it; its first number counts every byte behind
/// that number.
pub proof fn law_packets_carry_their_whole_body(id: i32, ptype: i32, body: Seq<u8>)
    ensures
        ({
            let bytes = packet_bytes(id as int, ptype as int, body);
            &&& bytes.len() == 14 + body.len()
            &&& bytes.subrange(12, bytes.len() - 2) == body
            &&& bytes[bytes.len() - 2] == 0
            &&& bytes[bytes.len() - 1] == 0
            &&& bytes.subrange(4, 8) == le_bytes(id as int)
            &&& bytes.subrange(8, 12) == le_bytes(ptype as int)
            &&& bytes.subrange(0, 4) == le_bytes((bytes.len() - 4) as int)
        }),
{
    let bytes = packet_bytes(id as int, ptype as int, body);
    assert(bytes.subrange(12, bytes.len() - 2) == body);
    assert(bytes.subrange(4, 8) == le_bytes(id as int));
    assert(bytes.subrange(8, 12) == le_bytes(ptype as int));
    assert(bytes.subrange(0, 4) == le_bytes((bytes.len() - 4) as int));
}

/// What is decoded from a payload is the two numbers at its start and every
/// byte behind them but the last two, whatever these are.
pub proof fn law_payloads_are_decoded_whole(id: i32, ptype: i32, body: Seq<u8>, a: u8, b: u8)
    ensures
        ({
            let packet = payload_packet(
                le_bytes(id as int) + le_bytes(ptype as int) + body + seq![a, b],
            );
            &&& packet.id == id
            &&& packet.ptype == ptype
            &&& packet.body == body
        }),
{
    let payload = le_bytes(id as int) + le_bytes(ptype as int) + body + seq![a, b];
    law_le_round_trip(id as int);
    law_le_round_trip(ptype as int);
    assert(payload.subrange(0, 4) == le_bytes(id as int));
    assert(payload.subrange(4, 8) == le_bytes(ptype as int));
    assert(payload.subrange(8, payload.len() - 2) == body);
}

/// Before the password is accepted a session waits for the authentication
/// response and keeps as it is: other packets are skipped, and an id of -1
/// refuses the password.
pub proof fn law_sessions_wait_for_the_authentication_response(s: SessionView, p: PacketView)
    requires
        !s.authenticated,
    ensures
        p.ptype != 2 ==> received(s, p) == (s, ProgressView::Read),
        p.ptype == 2 && p.id == -1 ==> received(s, p) == (
            s,
            ProgressView::Failed(RconErrorView::BadPassword),
        ),
{
}

/// Once the password is accepted, the command is sent as it is, and behind it
/// an empty request under another id, whose echo will end the response; a
/// command that fits into no packet fails the session. Nothing is collected
/// yet.
pub proof fn law_accepted_sessions_send_their_command(s: SessionView, p: PacketView)
    requires
        !s.authenticated,
        p.ptype == 2,
        p.id != -1,
    ensures
        ({
            let (next, progress) = received(s, p);
            let body = encode_utf8(s.command);
            &&& next.authenticated
            &&& next.command == s.command
            &&& next.response == s.response
            &&& body.len() <= 2147483637 ==> (progress matches ProgressView::Send(first, second)
                && first.skip(4) == le_bytes(10) + le_bytes(2) + body + seq![0u8, 0u8]
                && first.take(4) == le_bytes((body.len() + 10) as int)
                && second.skip(4) == le_bytes(11) + le_bytes(0) + seq![0u8, 0u8]
                && second.take(4) == le_bytes(10))
            &&& body.len() > 2147483637 ==> progress == ProgressView::Failed(
                RconErrorView::PacketTooLarge,
            )
        }),
{
    if let ProgressView::Send(first, second) = received(s, p).1 {
        let body = encode_utf8(s.command);
        assert(first.skip(4) == le_bytes(10) + le_bytes(2) + body + seq![0u8, 0u8]);
        assert(first.take(4) == le_bytes((body.len() + 10) as int));
        assert(second.skip(4) == le_bytes(11) + le_bytes(0) + seq![0u8, 0u8]);
        assert(second.take(4) == le_bytes(10));
    }
}

/// Each packet of the response adds its whole body to what has been collected,
/// and changes nothing else; the session goes on as long as that is no more
/// than 1 MiB.
pub proof fn law_responses_grow_by_whole_bodies(s: SessionView, p: PacketView)
    requires
        s.authenticated,
        p.id == 10,
        p.ptype == 0,
    ensures
        received(s, p).0.response == s.response + p.body,
        received(s, p).0.authenticated,
        received(s, p).0.command == s.command,
        received(s, p).1 == if s.response.len() + p.body.len() <= 1048576 {
            ProgressView::Read
        } else {
            ProgressView::Failed(RconErrorView::ResponseTooLarge)
        },
{
}

/// Packets that are no part of the response, and do not end it, change nothing.
pub proof fn law_other_packets_are_skipped(s: SessionView, p: PacketView)
    requires
        s.authenticated,
        p.id != 11,
        p.id != 10 || p.ptype != 0,
    ensures
        received(s, p) == (s, ProgressView::Read),
{
    assert(s.response + response_part(p) == s.response);
}

/// The echo of the sentinel ends the session, whatever it carries: with the
/// text whose encoding has been collected, where there is one.
pub proof fn law_sentinel_ends_the_response(s: SessionView, p: PacketView, text: Seq<char>)
    requires
        s.authenticated,
        p.id == 11,
    ensures
        received(s, p).0 == s,
        s.response == encode_utf8(text) ==> received(s, p).1 == ProgressView::Done(text),
        valid_utf8(s.response) ==> received(s, p).1 == ProgressView::Done(decode_utf8(s.response)),
        !valid_utf8(s.response) ==> received(s, p).1 == ProgressView::Done(utf8_lossy(s.response)),
{
    encode_utf8_valid_utf8(text);
    encode_utf8_decode_utf8(text);
}

proof fn lemma_collected_is_flattened(packets: Seq<PacketView>)
    requires
        forall|i: int|
            0 <= i < packets.len() ==> (#[trigger] packets[i]).id == 10 && packets[i].ptype == 0,
    ensures
        collected(packets) == Seq::new(packets.len(), |i: int| packets[i].body).flatten(),
    decreases packets.len(),
{
    let bodies = Seq::new(packets.len(), |i: int| packets[i].body);
    if packets.len() > 0 {
        let rest = packets.drop_first();
        assert forall|i: int| 0 <= i < rest.len() implies (#[trigger] rest[i]).id == 10
            && rest[i].ptype == 0 by {
            assert(rest[i] == packets[i + 1]);
        }
        lemma_collected_is_flattened(rest);
        assert(bodies.drop_first() == Seq::new(rest.len(), |i: int| rest[i].body));
        assert(bodies[0] == packets[0].body);
    }
}

/// A response that comes in any number of packets, cut wherever the server
/// cuts it, is the bodies of these packets put together.
pub proof fn law_response_is_all_bodies_put_together(
    command: Seq<char>,
    auth: PacketView,
    answer: Seq<PacketView>,
    sentinel: PacketView,
    text: Seq<char>,
)
    requires
        encode_utf8(command).len() <= 2147483637,
        auth.ptype == 2,
        auth.id != -1,
        forall|i: int|
            0 <= i < answer.len() ==> (#[trigger] answer[i]).id == 10 && answer[i].ptype == 0,
        Seq::new(answer.len(), |i: int| answer[i].body).flatten() == encode_utf8(text),
        encode_utf8(text).len() <= 1048576,
        sentinel.id == 11,
    ensures
        collected(answer) == Seq::new(answer.len(), |i: int| answer[i].body).flatten(),
        outcome(opened(command), seq![auth] + answer + seq![sentinel]) == Some(
            Ok::<Seq<char>, RconErrorView>(text),
        ),
{
    lemma_collected_is_flattened(answer);
    law_response_text_round_trip(command, auth, answer, sentinel, text);
}

/// A text that comes in one packet is given back whole, whatever characters it
/// has in it.
pub proof fn law_one_packet_gives_its_text(s: SessionView, p: PacketView, q: PacketView, text: Seq<char>)
    requires
        s.authenticated,
        s.response.len() == 0,
        p.id == 10,
        p.ptype == 0,
        p.body == encode_utf8(text),
        encode_utf8(text).len() <= 1048576,
        q.id == 11,
    ensures
        received(s, p).1 == ProgressView::Read,
        received(received(s, p).0, q).1 == ProgressView::Done(text),
{
    assert(s.response + p.body == encode_utf8(text));
    law_sentinel_ends_the_response(received(s, p).0, q, text);
}

/// A session begins with its command, not authenticated and with nothing
/// collected; the password goes into its first packet alone.
pub proof fn law_sessions_begin_empty(command: Seq<char>, password: Seq<char>)
    ensures
        opened(command).command == command,
        !opened(command).authenticated,
        opened(command).response.len() == 0,
        sendable(password) <==> encode_utf8(password).len() <= 2147483637,
{
}

/// What a packet, an error or a session's progress holds is its own numbers,
/// bytes and texts.
pub proof fn law_rcon_values_keep_their_contents(p: Packet, e: RconError, g: Progress)
    ensures
        p@.id == p.id && p@.ptype == p.ptype && p@.body == p.body@,
        e matches RconError::Connect(addr) ==> e@ == RconErrorView::Connect(addr@),
        e matches RconError::Io(text) ==> e@ == RconErrorView::Io(text@),
        e matches RconError::WriteTimeout ==> e@ == RconErrorView::WriteTimeout,
        e matches RconError::ReadTimeout ==> e@ == RconErrorView::ReadTimeout,
        e matches RconError::PacketTooLarge ==> e@ == RconErrorView::PacketTooLarge,
        e matches RconError::ImplausibleSize(n) ==> e@ == RconErrorView::ImplausibleSize(n),
        e matches RconError::BadPassword ==> e@ == RconErrorView::BadPassword,
        e matches RconError::ResponseTooLarge ==> e@ == RconErrorView::ResponseTooLarge,
        g matches Progress::Read ==> g@ == ProgressView::Read,
        g matches Progress::Send(a, b) ==> g@ == ProgressView::Send(a@, b@),
        g matches Progress::Done(text) ==> g@ == ProgressView::Done(text@),
        g matches Progress::Failed(error) ==> g@ == ProgressView::Failed(error@),
{
}

} // verus!
