//! The RTMP handshake and session of the `rml_rtmp` crate, as far as the server
//! uses them.

use bytes::Bytes;
use rml_rtmp::handshake::{Handshake, HandshakeError, HandshakeProcessResult, PeerType};
use rml_rtmp::sessions::{
    ServerSession, ServerSessionConfig, ServerSessionError, ServerSessionEvent, ServerSessionResult,
};
use vstd::prelude::*;

use crate::buffer;
use crate::chunks;

verus! {

#[verifier::external_type_specification]
#[verifier::external_body]
pub struct ExHandshake(Handshake);

#[verifier::external_type_specification]
#[verifier::external_body]
pub struct ExHandshakeError(HandshakeError);

#[verifier::external_type_specification]
#[verifier::external_body]
pub struct ExServerSession(ServerSession);

#[verifier::external_type_specification]
#[verifier::external_body]
pub struct ExServerSessionError(ServerSessionError);

#[verifier::external_type_specification]
#[verifier::external_body]
pub struct ExServerSessionEvent(ServerSessionEvent);

#[verifier::external_type_specification]
#[verifier::external_body]
pub struct ExServerSessionResult(ServerSessionResult);

// ── handshake ───────────────────────────────────────────────────────────────

/// The bytes of a handshake packet 1 or 2.
pub const PACKET_LEN: usize = 1536;

/// The bytes that the client sends in a handshake: the version, packet 1 and
/// packet 2.
pub const HANDSHAKE_LEN: usize = 3073;

/// The version of RTMP that is spoken.
pub const RTMP_VERSION: u8 = 3;

/// What a handshake has been given so far.
pub uninterp spec fn handshake_input(h: Handshake) -> Seq<u8>;

/// The server's version and packet 1 have been made.
pub uninterp spec fn handshake_opened(h: Handshake) -> bool;

/// What a handshake has made for the client so far.
pub uninterp spec fn handshake_output(h: Handshake) -> Seq<u8>;

/// How far some bytes have brought a handshake.
#[derive(Debug, Clone, PartialEq, Eq)]
pub enum HandshakeStep {
    /// More bytes are needed. `response` goes to the client.
    InProgress { response: Vec<u8> },
    /// Done. `response` goes to the client; `remaining` is what came after the
    /// handshake.
    Completed { response: Vec<u8>, remaining: Vec<u8> },
}

/// The client has named the version of RTMP that is spoken, as far as it has sent
/// anything.
pub open spec fn speaks_rtmp(input: Seq<u8>) -> bool {
    input.len() > 0 ==> input[0] == RTMP_VERSION
}

/// The number of bytes that are due to the client when its input grows from
/// `before` to `after` bytes: packet 2, once its packet 1 is there.
pub open spec fn response_len(before: nat, after: nat) -> nat {
    if before < 1 + PACKET_LEN <= after {
        PACKET_LEN as nat
    } else {
        0
    }
}

/// `Handshake::new` for a server: nothing has been given to it or made by it.
#[verifier::external_body]
pub(crate) fn new_handshake() -> (h: Handshake)
    ensures
        handshake_input(h) == Seq::<u8>::empty(),
        handshake_output(h) == Seq::<u8>::empty(),
        !handshake_opened(h),
{
    Handshake::new(PeerType::Server)
}

/// `Handshake::generate_outbound_p0_and_p1`, called once and before the client's bytes:
/// makes the version byte and packet 1, which is partly random. The crate never
/// refuses. Of the random bytes it is stated that they are what the handshake has made,
/// and no more.
#[verifier::external_body]
pub(crate) fn open_handshake(h: &mut Handshake) -> (r: Result<Vec<u8>, HandshakeError>)
    requires
        !handshake_opened(*old(h)),
        handshake_input(*old(h)).len() == 0,
    ensures
        r is Ok,
        r matches Ok(v) ==> v@.len() == 1 + PACKET_LEN && v@[0] == RTMP_VERSION
            && handshake_output(*final(h)) == handshake_output(*old(h)) + v@,
        handshake_input(*final(h)) == handshake_input(*old(h)),
        handshake_opened(*final(h)),
{
    h.generate_outbound_p0_and_p1()
}

/// `Handshake::process_bytes`: takes bytes of the client's. It fails if and only if
/// the first byte of all is not the version, and is done once the version and two
/// packets are there; what comes after those is handed back. The response, which is
/// partly random or an echo of the client's packet 1, is what the handshake makes; of
/// its content only the length is stated.
#[verifier::external_body]
pub(crate) fn process_handshake(h: &mut Handshake, data: &[u8]) -> (r: Result<
    HandshakeStep,
    HandshakeError,
>)
    requires
        handshake_opened(*old(h)),
        speaks_rtmp(handshake_input(*old(h))),
        handshake_input(*old(h)).len() < HANDSHAKE_LEN,
    ensures
        handshake_opened(*final(h)),
        handshake_input(*final(h)) == handshake_input(*old(h)) + data@,
        r is Ok == speaks_rtmp(handshake_input(*final(h))),
        r matches Ok(step) ==> match step {
            HandshakeStep::InProgress { response } => {
                &&& handshake_output(*final(h)) == handshake_output(*old(h)) + response@
                &&& handshake_input(*final(h)).len() < HANDSHAKE_LEN
                &&& response@.len() == response_len(
                    handshake_input(*old(h)).len(),
                    handshake_input(*final(h)).len(),
                )
            },
            HandshakeStep::Completed { response, remaining } => {
                &&& handshake_output(*final(h)) == handshake_output(*old(h)) + response@
                &&& handshake_input(*final(h)).len() >= HANDSHAKE_LEN
                &&& remaining@ == handshake_input(*final(h)).skip(HANDSHAKE_LEN as int)
                &&& response@.len() == response_len(
                    handshake_input(*old(h)).len(),
                    handshake_input(*final(h)).len(),
                )
            },
        },
{
    match h.process_bytes(data)? {
        HandshakeProcessResult::InProgress { response_bytes } => Ok(
            HandshakeStep::InProgress { response: response_bytes },
        ),
        HandshakeProcessResult::Completed { response_bytes, remaining_bytes } => Ok(
            HandshakeStep::Completed { response: response_bytes, remaining: remaining_bytes },
        ),
    }
}

// ── session results ─────────────────────────────────────────────────────────

/// An event that a session raises, as far as the server looks at it.
#[derive(Debug, Clone)]
pub enum RtmpEvent {
    /// The client asks to connect to an application.
    Connect { request_id: u32, app: String },
    /// The client asks to publish a stream.
    Publish { request_id: u32, app: String, stream_key: String },
    /// The client has finished publishing.
    PublishFinished,
    /// Video data, with its time in milliseconds.
    Video { data: Bytes, timestamp_ms: u32 },
    Audio,
    Metadata,
    Other,
}

/// An event, with text as characters and data as bytes.
pub enum EventView {
    Connect { request_id: u32, app: Seq<char> },
    Publish { request_id: u32, app: Seq<char>, stream_key: Seq<char> },
    PublishFinished,
    Video { data: Seq<u8>, timestamp_ms: u32 },
    Audio,
    Metadata,
    Other,
}

impl View for RtmpEvent {
    type V = EventView;

    open spec fn view(&self) -> EventView {
        match self {
            RtmpEvent::Connect { request_id, app } => EventView::Connect {
                request_id: *request_id,
                app: app@,
            },
            RtmpEvent::Publish { request_id, app, stream_key } => EventView::Publish {
                request_id: *request_id,
                app: app@,
                stream_key: stream_key@,
            },
            RtmpEvent::PublishFinished => EventView::PublishFinished,
            RtmpEvent::Video { data, timestamp_ms } => EventView::Video {
                data: buffer::bytes_content(*data),
                timestamp_ms: *timestamp_ms,
            },
            RtmpEvent::Audio => EventView::Audio,
            RtmpEvent::Metadata => EventView::Metadata,
            RtmpEvent::Other => EventView::Other,
        }
    }
}

/// What an event of the crate says.
pub uninterp spec fn event_of(e: ServerSessionEvent) -> EventView;

/// One result of a session.
pub enum SessionResult {
    /// Bytes for the client.
    Respond(Vec<u8>),
    Raised(ServerSessionEvent),
    /// A message that the crate does not handle.
    Unhandled,
}

/// One result of a session, with its data in the open.
pub enum ResultView {
    Respond(Seq<u8>),
    Raised(EventView),
    Unhandled,
}

impl View for SessionResult {
    type V = ResultView;

    open spec fn view(&self) -> ResultView {
        match self {
            SessionResult::Respond(bytes) => ResultView::Respond(bytes@),
            SessionResult::Raised(e) => ResultView::Raised(event_of(*e)),
            SessionResult::Unhandled => ResultView::Unhandled,
        }
    }
}

/// What a result of the crate says.
pub uninterp spec fn result_of(r: ServerSessionResult) -> ResultView;

/// What a list of results says.
pub open spec fn results_of(rs: Seq<ServerSessionResult>) -> Seq<ResultView> {
    Seq::new(rs.len(), |i: int| result_of(rs[i]))
}

/// `ServerSessionResult`, taken apart: the bytes of a packet, an event, or a message
/// that is not handled.
#[verifier::external_body]
pub(crate) fn open_result(r: ServerSessionResult) -> (v: SessionResult)
    ensures
        v@ == result_of(r),
{
    match r {
        ServerSessionResult::OutboundResponse(packet) => SessionResult::Respond(packet.bytes),
        ServerSessionResult::RaisedEvent(event) => SessionResult::Raised(event),
        ServerSessionResult::UnhandleableMessageReceived(_) => SessionResult::Unhandled,
    }
}

/// `ServerSessionEvent`, taken apart: the fields that the server looks at of the
/// events that it tells apart.
#[verifier::external_body]
pub(crate) fn open_event(e: ServerSessionEvent) -> (v: RtmpEvent)
    ensures
        v@ == event_of(e),
{
    match e {
        ServerSessionEvent::ConnectionRequested { request_id, app_name } => RtmpEvent::Connect {
            request_id,
            app: app_name,
        },
        ServerSessionEvent::PublishStreamRequested { request_id, app_name, stream_key, .. } =>
            RtmpEvent::Publish { request_id, app: app_name, stream_key },
        ServerSessionEvent::PublishStreamFinished { .. } => RtmpEvent::PublishFinished,
        ServerSessionEvent::VideoDataReceived { data, timestamp, .. } =>
            RtmpEvent::Video { data, timestamp_ms: timestamp.value },
        ServerSessionEvent::AudioDataReceived { .. } => RtmpEvent::Audio,
        ServerSessionEvent::StreamMetadataChanged { .. } => RtmpEvent::Metadata,
        _ => RtmpEvent::Other,
    }
}

/// The number of the request that a result asks to accept.
pub open spec fn request_of(r: ResultView) -> Option<u32> {
    match r {
        ResultView::Raised(EventView::Connect { request_id, .. }) => Some(request_id),
        ResultView::Raised(EventView::Publish { request_id, .. }) => Some(request_id),
        _ => None,
    }
}

/// The longest message that RTMP can carry: its length has three bytes.
pub const MAX_MESSAGE_LEN: usize = 0xFF_FFFF;

/// Video data is no longer than a message can be.
pub open spec fn within_message(r: ResultView) -> bool {
    r matches ResultView::Raised(EventView::Video { data, .. }) ==> data.len() <= MAX_MESSAGE_LEN
}

// ── session ─────────────────────────────────────────────────────────────────

/// What a session has been given so far.
pub uninterp spec fn session_input(s: ServerSession) -> Seq<u8>;

/// The requests that a session has raised and that have not been answered.
pub uninterp spec fn outstanding(s: ServerSession) -> Set<u32>;

/// What a session has made of its start and of what it has been given: all results, in
/// order, but for the answers to requests.
pub uninterp spec fn session_output(s: ServerSession) -> Seq<ResultView>;

/// The requests that a session has been asked to accept, in order, each with the results
/// of its answer, or nothing where the session refused.
pub uninterp spec fn session_answers(s: ServerSession) -> Seq<(u32, Option<Seq<ResultView>>)>;

/// Something that is done with a session.
pub enum SessionStep {
    /// It is given bytes of the client's.
    Given(Seq<u8>),
    /// It is asked to accept a request.
    Answered(u32),
}

/// All that has been done with a session, in order.
pub uninterp spec fn session_log(s: ServerSession) -> Seq<SessionStep>;

/// A session with which all this has been done refuses these bytes.
pub uninterp spec fn refuses(log: Seq<SessionStep>, bytes: Seq<u8>) -> bool;

/// The bytes that a session has counted since it last acknowledged some.
pub uninterp spec fn unacked(s: ServerSession) -> nat;

/// `ServerSession::new` with the crate's default settings, which it never refuses: the
/// first packets for the client. Nothing has been given to the session, and nothing
/// asked of it.
#[verifier::external_body]
pub(crate) fn new_session() -> (r: Result<
    (ServerSession, Vec<ServerSessionResult>),
    ServerSessionError,
>)
    ensures
        r is Ok,
        r matches Ok((s, first)) ==> {
            &&& session_input(s) == Seq::<u8>::empty()
            &&& session_output(s) == results_of(first@)
            &&& session_answers(s) == Seq::<(u32, Option<Seq<ResultView>>)>::empty()
            &&& session_log(s) == Seq::<SessionStep>::empty()
            &&& unacked(s) == 0
            &&& outstanding(s) == Set::<u32>::empty()
            &&& first@.len() == 5
            &&& forall|i: int|
                0 <= i < first@.len() ==> #[trigger] result_of(first@[i]) is Respond
        },
{
    ServerSession::new(ServerSessionConfig::new())
}

/// `ServerSession::handle_input`: takes bytes of the client's that the session survives
/// (see [`chunks::admits`]), where it has refused none so far. It refuses what
/// [`chunks::read_all`] finds refused, and may refuse more; whether it does depends on
/// what has been done with it and on the bytes. The results join those that
/// it has made; each request among the events awaits an answer, none that awaited one
/// is forgotten, and video data is no longer than a message can be.
///
/// The crate panics on the other bytes, or overflows its stack, but for some that are
/// left out with them: nesting beyond [`crate::amf0::MAX_NESTING`] that the stack at hand
/// would bear, a metadata frame without metadata on a message stream where publishing
/// was asked for and is not under way, and requests beyond [`chunks::MAX_REQUESTS`] some
/// of which are turned down before they are numbered.
///
/// Which results come is not stated beyond that: it depends on all the bytes and the
/// answers so far, and the times in the packets on the clock.
#[verifier::external_body]
pub(crate) fn handle_input(s: &mut ServerSession, bytes: &[u8]) -> (r: Result<
    Vec<ServerSessionResult>,
    ServerSessionError,
>)
    requires
        chunks::read_all(session_input(*old(s))) is Reads,
        chunks::admits(session_input(*old(s)), unacked(*old(s)), bytes@),
    ensures
        r is Err == refuses(session_log(*old(s)), bytes@),
        chunks::read_all(session_input(*old(s)) + bytes@) is Refused ==> r is Err,
        session_log(*final(s)) == session_log(*old(s)).push(SessionStep::Given(bytes@)),
        session_answers(*final(s)) == session_answers(*old(s)),
        r matches Ok(results) ==> {
            &&& session_input(*final(s)) == session_input(*old(s)) + bytes@
            &&& session_output(*final(s)) == session_output(*old(s)) + results_of(results@)
            &&& unacked(*final(s)) == chunks::unacked_after(
                session_input(*old(s)),
                unacked(*old(s)),
                bytes@.len(),
            )
            &&& outstanding(*old(s)).subset_of(outstanding(*final(s)))
            &&& forall|i: int|
                #![trigger result_of(results@[i])]
                0 <= i < results@.len() ==> within_message(result_of(results@[i])) && (request_of(
                    result_of(results@[i]),
                ) matches Some(id) ==> outstanding(*final(s)).contains(id))
        },
{
    s.handle_input(bytes)
}

/// `ServerSession::accept_request`: answers a request with packets for the client. A
/// request that does not await an answer is refused; afterwards it does not await
/// one in any case. The answer joins those that the session has given; what its packets
/// hold, the clock's time among it, is not stated.
#[verifier::external_body]
pub(crate) fn accept_request(s: &mut ServerSession, request_id: u32) -> (r: Result<
    Vec<ServerSessionResult>,
    ServerSessionError,
>)
    ensures
        session_input(*final(s)) == session_input(*old(s)),
        session_output(*final(s)) == session_output(*old(s)),
        session_answers(*final(s)) == session_answers(*old(s)).push(
            (
                request_id,
                match r {
                    Ok(results) => Some(results_of(results@)),
                    Err(_) => None,
                },
            ),
        ),
        session_log(*final(s)) == session_log(*old(s)).push(SessionStep::Answered(request_id)),
        unacked(*final(s)) == unacked(*old(s)),
        outstanding(*final(s)) == outstanding(*old(s)).remove(request_id),
        !outstanding(*old(s)).contains(request_id) ==> r is Err,
        r matches Ok(results) ==> forall|i: int|
            0 <= i < results@.len() ==> #[trigger] result_of(results@[i]) is Respond,
{
    s.accept_request(request_id)
}

} // verus!
