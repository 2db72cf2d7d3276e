//! One publisher connection: the handshake, the session, and the FLV stream that
//! comes out of it.
//!
//! The program around it reads the socket and performs the actions in order.

use bytes::Bytes;
use rml_rtmp::handshake::{Handshake, HandshakeError};
use rml_rtmp::sessions::{ServerSession, ServerSessionError, ServerSessionResult};
use std::collections::VecDeque;
use vstd::prelude::*;
use vstd::string::*;

use crate::buffer;
use crate::chunks;
use crate::chunks::{ChunkReader, Verdict};
use crate::flv;
use crate::rtmp_session;
use crate::rtmp_session::{HandshakeStep, RtmpEvent, SessionResult};

verus! {

// ── events and actions ──────────────────────────────────────────────────────

/// What the RTMP side tells the pipeline.
#[derive(Debug, Clone)]
pub enum IngestEvent {
    /// A publisher was accepted; a pipeline should be built.
    SessionStarted { peer: String, app: String, stream_key: String },
    /// A chunk of well-formed FLV: the header first, then whole tags.
    FlvChunk(Bytes),
    /// The publisher is gone; the pipeline should be torn down.
    SessionEnded,
}

/// What the RTMP side tells the pipeline, with its data in the open.
pub enum IngestView {
    SessionStarted { peer: Seq<char>, app: Seq<char>, stream_key: Seq<char> },
    FlvChunk(Seq<u8>),
    SessionEnded,
}

impl View for IngestEvent {
    type V = IngestView;

    open spec fn view(&self) -> IngestView {
        match self {
            IngestEvent::SessionStarted { peer, app, stream_key } => IngestView::SessionStarted {
                peer: peer@,
                app: app@,
                stream_key: stream_key@,
            },
            IngestEvent::FlvChunk(b) => IngestView::FlvChunk(buffer::bytes_content(*b)),
            IngestEvent::SessionEnded => IngestView::SessionEnded,
        }
    }
}

/// Something to do for a publisher connection.
#[derive(Debug, Clone)]
pub enum ConnAction {
    /// Write bytes to the socket.
    Write(Vec<u8>),
    /// Tell the pipeline.
    Ingest(IngestEvent),
    /// Publish that there is a publisher, since now, with no frame yet.
    MarkSessionStart,
    /// Publish that there is no publisher.
    MarkSessionEnd,
    /// Count a frame of so many bytes, received now.
    CountFrame { bytes: u64 },
}

/// Something to do, with its data in the open.
pub enum ActionView {
    Write(Seq<u8>),
    Ingest(IngestView),
    MarkSessionStart,
    MarkSessionEnd,
    CountFrame { bytes: u64 },
}

impl View for ConnAction {
    type V = ActionView;

    open spec fn view(&self) -> ActionView {
        match self {
            ConnAction::Write(b) => ActionView::Write(b@),
            ConnAction::Ingest(e) => ActionView::Ingest(e@),
            ConnAction::MarkSessionStart => ActionView::MarkSessionStart,
            ConnAction::MarkSessionEnd => ActionView::MarkSessionEnd,
            ConnAction::CountFrame { bytes } => ActionView::CountFrame { bytes: *bytes },
        }
    }
}

/// Actions, with their data in the open.
pub open spec fn action_views(actions: Seq<ConnAction>) -> Seq<ActionView> {
    Seq::new(actions.len(), |i: int| actions[i]@)
}

/// What a run of results comes to.
#[derive(Debug)]
pub struct Batch {
    /// What is to be done, in order.
    pub actions: Vec<ConnAction>,
    /// What went wrong, after which the connection is over.
    pub failed: Option<ConnError>,
}

/// Why a connection failed.
#[derive(Debug)]
pub enum ConnError {
    HandshakeInit(HandshakeError),
    /// The client closed the connection during the handshake.
    HandshakeEof,
    Handshake(HandshakeError),
    SessionNew(ServerSessionError),
    /// What followed the handshake could not be handled.
    HandleLeftover(ServerSessionError),
    HandleInput(ServerSessionError),
    /// The client sent what the session does not survive; the session has not seen it.
    Malformed,
    AcceptConnect(ServerSessionError),
    AcceptPublish(ServerSessionError),
}

// ── session events ──────────────────────────────────────────────────────────

/// What a connection remembers of its publisher.
#[derive(Debug, Clone, PartialEq, Eq)]
pub struct ConnState {
    pub app: String,
    pub stream_key: String,
    /// The pipeline has been told of a session that has not ended.
    pub session_announced: bool,
}

/// [`ConnState`] with text as characters.
pub struct ConnView {
    pub app: Seq<char>,
    pub stream_key: Seq<char>,
    pub announced: bool,
}

impl View for ConnState {
    type V = ConnView;

    open spec fn view(&self) -> ConnView {
        ConnView {
            app: self.app@,
            stream_key: self.stream_key@,
            announced: self.session_announced,
        }
    }
}

/// Before anything has happened.
pub open spec fn new_conn() -> ConnView {
    ConnView { app: ""@, stream_key: ""@, announced: false }
}

/// What is remembered of a request, whether or not it is accepted.
pub open spec fn noted(c: ConnView, e: rtmp_session::EventView) -> ConnView {
    match e {
        rtmp_session::EventView::Connect { app, .. } => ConnView { app, ..c },
        rtmp_session::EventView::Publish { app, stream_key, .. } => ConnView {
            app,
            stream_key,
            ..c
        },
        _ => c,
    }
}

/// What ends an announced session.
pub open spec fn session_end() -> Seq<ActionView> {
    seq![ActionView::Ingest(IngestView::SessionEnded), ActionView::MarkSessionEnd]
}

/// A connection after an event, where a request has been accepted, and what is to
/// be done. Publishing is announced and opens an FLV stream; each video message
/// becomes one FLV tag; the end of publishing ends what was announced. There is no
/// audio, and metadata is not needed.
pub open spec fn event_spec(c: ConnView, e: rtmp_session::EventView, peer: Seq<char>) -> (
    ConnView,
    Seq<ActionView>,
) {
    match e {
        rtmp_session::EventView::Publish { app, stream_key, .. } => (
            ConnView { announced: true, ..noted(c, e) },
            seq![
                ActionView::Ingest(IngestView::SessionStarted { peer, app, stream_key }),
                ActionView::Ingest(IngestView::FlvChunk(flv::flv_header_spec())),
                ActionView::MarkSessionStart,
            ],
        ),
        rtmp_session::EventView::PublishFinished => if c.announced {
            (ConnView { announced: false, ..c }, session_end())
        } else {
            (c, Seq::empty())
        },
        rtmp_session::EventView::Video { data, timestamp_ms } => (
            c,
            seq![
                ActionView::CountFrame { bytes: data.len() as u64 },
                ActionView::Ingest(
                    IngestView::FlvChunk(
                        flv::flv_tag_spec(flv::TAG_TYPE_VIDEO, timestamp_ms, data),
                    ),
                ),
            ],
        ),
        _ => (noted(c, e), Seq::empty()),
    }
}

/// Video data that fits a tag.
pub open spec fn event_fits(e: rtmp_session::EventView) -> bool {
    e matches rtmp_session::EventView::Video { data, .. } ==> data.len() + 15 <= isize::MAX
        && flv::counted_len(data) + 11 <= u32::MAX
}

impl ConnState {
    /// Before anything has happened.
    pub fn new() -> (c: ConnState)
        ensures
            c@ == new_conn(),
    {
        ConnState { app: "".to_owned(), stream_key: "".to_owned(), session_announced: false }
    }

    /// Remembers what a request names.
    fn note(&mut self, e: &RtmpEvent)
        ensures
            final(self)@ == noted(old(self)@, e@),
    {
        match e {
            RtmpEvent::Connect { app, .. } => {
                self.app = app.clone();
            },
            RtmpEvent::Publish { app, stream_key, .. } => {
                self.app = app.clone();
                self.stream_key = stream_key.clone();
            },
            _ => {},
        }
    }

    /// Takes an event, where a request has been accepted, and says what is to be
    /// done.
    pub fn handle_event(&mut self, e: RtmpEvent, peer: &str) -> (out: Vec<ConnAction>)
        requires
            event_fits(e@),
        ensures
            (final(self)@, action_views(out@)) == event_spec(old(self)@, e@, peer@),
    {
        let mut out: Vec<ConnAction> = Vec::new();
        self.note(&e);
        match e {
            RtmpEvent::Publish { app, stream_key, .. } => {
                out.push(
                    ConnAction::Ingest(
                        IngestEvent::SessionStarted { peer: peer.to_owned(), app, stream_key },
                    ),
                );
                out.push(ConnAction::Ingest(IngestEvent::FlvChunk(flv::flv_header_bytes())));
                out.push(ConnAction::MarkSessionStart);
                self.session_announced = true;
            },
            RtmpEvent::PublishFinished => {
                if self.session_announced {
                    self.session_announced = false;
                    out.push(ConnAction::Ingest(IngestEvent::SessionEnded));
                    out.push(ConnAction::MarkSessionEnd);
                }
            },
            RtmpEvent::Video { data, timestamp_ms } => {
                let payload = buffer::bytes_slice(&data);
                let tag = flv::flv_tag(flv::TAG_TYPE_VIDEO, timestamp_ms, payload);
                out.push(ConnAction::CountFrame { bytes: payload.len() as u64 });
                out.push(ConnAction::Ingest(IngestEvent::FlvChunk(tag)));
            },
            RtmpEvent::Connect { .. }
            | RtmpEvent::Audio
            | RtmpEvent::Metadata
            | RtmpEvent::Other => {},
        }
        assert(action_views(out@) =~= event_spec(old(self)@, e@, peer@).1);
        out
    }

    /// Says what is to be done when the client has closed the connection.
    pub fn on_eof(&self) -> (out: Vec<ConnAction>)
        ensures
            action_views(out@) == eof_spec(self@),
    {
        let mut out: Vec<ConnAction> = Vec::new();
        if self.session_announced {
            out.push(ConnAction::Ingest(IngestEvent::SessionEnded));
            out.push(ConnAction::MarkSessionEnd);
        }
        assert(action_views(out@) =~= eof_spec(self@));
        out
    }
}

/// What is to be done when the client has closed the connection: what was announced
/// is ended.
pub open spec fn eof_spec(c: ConnView) -> Seq<ActionView> {
    if c.announced {
        session_end()
    } else {
        Seq::empty()
    }
}

// ── draining ────────────────────────────────────────────────────────────────

/// The session's answer to a request that is accepted: packets for the client, or a
/// refusal.
pub enum Reply {
    Accepted(Seq<Seq<u8>>),
    Refused,
}

/// Where a run of results has led.
pub struct Drained {
    pub conn: ConnView,
    pub actions: Seq<ActionView>,
    /// The request whose acceptance was refused; what was left has been dropped.
    pub refused: Option<rtmp_session::EventView>,
}

/// Packets as results.
pub open spec fn responses(packets: Seq<Seq<u8>>) -> Seq<rtmp_session::ResultView> {
    Seq::new(packets.len(), |i: int| rtmp_session::ResultView::Respond(packets[i]))
}

/// Where the results in `queue` lead when the session answers the requests among
/// them, in order, with `replies`. Results are taken one by one, and the packets of
/// an answer join the end of the queue.
pub open spec fn drained(
    c: ConnView,
    queue: Seq<rtmp_session::ResultView>,
    replies: Seq<Reply>,
    peer: Seq<char>,
) -> Drained
    decreases replies.len(), queue.len(),
{
    if queue.len() == 0 {
        Drained { conn: c, actions: Seq::empty(), refused: None }
    } else {
        let rest = queue.skip(1);
        match queue[0] {
            rtmp_session::ResultView::Respond(bytes) => after(
                seq![ActionView::Write(bytes)],
                drained(c, rest, replies, peer),
            ),
            rtmp_session::ResultView::Unhandled => drained(c, rest, replies, peer),
            rtmp_session::ResultView::Raised(e) => {
                let (next, actions) = event_spec(c, e, peer);
                if rtmp_session::request_of(queue[0]) is None {
                    after(actions, drained(next, rest, replies, peer))
                } else if replies.len() == 0 {
                    Drained { conn: c, actions: Seq::empty(), refused: None }
                } else {
                    match replies[0] {
                        Reply::Refused => Drained {
                            conn: noted(c, e),
                            actions: Seq::empty(),
                            refused: Some(e),
                        },
                        Reply::Accepted(packets) => after(
                            actions,
                            drained(next, rest + responses(packets), replies.skip(1), peer),
                        ),
                    }
                }
            },
        }
    }
}

/// A run that begins with `actions`.
pub open spec fn after(actions: Seq<ActionView>, d: Drained) -> Drained {
    Drained { actions: actions + d.actions, ..d }
}

/// The requests among `results`.
pub open spec fn requests(results: Seq<rtmp_session::ResultView>) -> Set<u32> {
    Set::new(|id: u32| exists|i: int|
        0 <= i < results.len() && rtmp_session::request_of(#[trigger] results[i]) == Some(id))
}

/// The requests among `results`, in order.
pub open spec fn asks(results: Seq<rtmp_session::ResultView>) -> Seq<u32>
    decreases results.len(),
{
    if results.len() == 0 {
        Seq::empty()
    } else {
        match rtmp_session::request_of(results[0]) {
            Some(id) => seq![id] + asks(results.skip(1)),
            None => asks(results.skip(1)),
        }
    }
}

/// An answer of the session: the request, and the results of accepting it, or nothing
/// where the session refused.
pub type Answer = (u32, Option<Seq<rtmp_session::ResultView>>);

/// The packets among results that are all packets.
pub open spec fn packets_of(results: Seq<rtmp_session::ResultView>) -> Seq<Seq<u8>> {
    Seq::new(results.len(), |i: int| results[i]->Respond_0)
}

/// Answers as replies.
pub open spec fn replies_of(answers: Seq<Answer>) -> Seq<Reply> {
    Seq::new(
        answers.len(),
        |i: int|
            match answers[i].1 {
                Some(results) => Reply::Accepted(packets_of(results)),
                None => Reply::Refused,
            },
    )
}

/// Answers as what is done with a session.
pub open spec fn answered(answers: Seq<Answer>) -> Seq<rtmp_session::SessionStep> {
    Seq::new(answers.len(), |i: int| rtmp_session::SessionStep::Answered(answers[i].0))
}

/// These are the answers to the requests among `results`: each is accepted, in order, up
/// to one that the session refuses.
pub open spec fn answers_to(
    results: Seq<rtmp_session::ResultView>,
    answers: Seq<Answer>,
    failed: bool,
) -> bool {
    &&& answers.len() <= asks(results).len()
    &&& forall|i: int| 0 <= i < answers.len() ==> (#[trigger] answers[i]).0 == asks(results)[i]
    &&& forall|i: int|
        0 <= i < answers.len() ==> ((#[trigger] answers[i]).1 is None) == (failed && i
            == answers.len() - 1)
    &&& if failed {
        answers.len() > 0
    } else {
        answers.len() == asks(results).len()
    }
}

proof fn lemma_responses_ask_nothing(
    results: Seq<rtmp_session::ResultView>,
    more: Seq<rtmp_session::ResultView>,
)
    requires
        forall|i: int| 0 <= i < more.len() ==> #[trigger] more[i] is Respond,
    ensures
        asks(results + more) == asks(results),
    decreases results.len() + more.len(),
{
    let all = results + more;
    if results.len() > 0 {
        assert(all.skip(1) =~= results.skip(1) + more);
        lemma_responses_ask_nothing(results.skip(1), more);
    } else if more.len() > 0 {
        assert(all.skip(1) =~= results + more.skip(1));
        lemma_responses_ask_nothing(results, more.skip(1));
    }
}

fn enqueue(queue: &mut VecDeque<ServerSessionResult>, results: Vec<ServerSessionResult>)
    ensures
        final(queue)@ == old(queue)@ + results@,
{
    let ghost all = results@;
    let ghost start = queue@;
    for r in it: results
        invariant
            it.seq() == all,
            queue@ == start + all.take(it.index() as int),
    {
        queue.push_back(r);
        assert(all.take(it.index() + 1) =~= all.take(it.index() as int).push(r));
    }
    assert(all.take(all.len() as int) =~= all);
}

/// Every result is within the limits of a message.
pub open spec fn all_within(results: Seq<ServerSessionResult>) -> bool {
    forall|i: int|
        #![trigger rtmp_session::result_of(results[i])]
        0 <= i < results.len() ==> rtmp_session::within_message(
            rtmp_session::result_of(results[i]),
        )
}

/// `failed` is how the refusal of a request is reported.
pub open spec fn reports(
    failed: Option<ConnError>,
    refused: Option<rtmp_session::EventView>,
) -> bool {
    match refused {
        None => failed is None,
        Some(rtmp_session::EventView::Connect { .. }) => failed matches Some(e)
            && e is AcceptConnect,
        Some(_) => failed matches Some(e) && e is AcceptPublish,
    }
}

/// With these replies, the results in `queue` lead to this connection, these
/// actions, and this failure.
pub open spec fn leads_to(
    c: ConnView,
    queue: Seq<rtmp_session::ResultView>,
    replies: Seq<Reply>,
    peer: Seq<char>,
    end: ConnView,
    actions: Seq<ActionView>,
    failed: Option<ConnError>,
) -> bool {
    let d = drained(c, queue, replies, peer);
    d.conn == end && d.actions == actions && reports(failed, d.refused)
}

/// A run of results on its way.
struct Progress {
    conn: ConnView,
    queue: Seq<rtmp_session::ResultView>,
    actions: Seq<ActionView>,
}

/// Where `start` leads is where `now` leads, once `replies` have been given.
spec fn continues(start: Progress, replies: Seq<Reply>, peer: Seq<char>, now: Progress) -> bool {
    forall|more: Seq<Reply>| #[trigger]
        drained(start.conn, start.queue, replies + more, peer) == after(
            now.actions,
            drained(now.conn, now.queue, more, peer),
        )
}

/// What a result that asks for nothing does.
spec fn plain_step(c: ConnView, r: rtmp_session::ResultView, peer: Seq<char>) -> (
    ConnView,
    Seq<ActionView>,
) {
    match r {
        rtmp_session::ResultView::Respond(bytes) => (c, seq![ActionView::Write(bytes)]),
        rtmp_session::ResultView::Unhandled => (c, Seq::empty()),
        rtmp_session::ResultView::Raised(e) => event_spec(c, e, peer),
    }
}

proof fn lemma_after_adds(a: Seq<ActionView>, b: Seq<ActionView>, d: Drained)
    ensures
        after(a, after(b, d)) == after(a + b, d),
        after(Seq::empty(), d) == d,
{
    assert(a + (b + d.actions) =~= (a + b) + d.actions);
    assert(Seq::<ActionView>::empty() + d.actions =~= d.actions);
}

proof fn lemma_plain_step(start: Progress, replies: Seq<Reply>, peer: Seq<char>, now: Progress)
    requires
        continues(start, replies, peer, now),
        now.queue.len() > 0,
        rtmp_session::request_of(now.queue[0]) is None,
    ensures
        ({
            let (conn, actions) = plain_step(now.conn, now.queue[0], peer);
            continues(
                start,
                replies,
                peer,
                Progress { conn, queue: now.queue.skip(1), actions: now.actions + actions },
            )
        }),
{
    let (conn, actions) = plain_step(now.conn, now.queue[0], peer);
    assert forall|more: Seq<Reply>| #[trigger]
        drained(start.conn, start.queue, replies + more, peer) == after(
        now.actions + actions,
        drained(conn, now.queue.skip(1), more, peer),
    ) by {
        let d = drained(conn, now.queue.skip(1), more, peer);
        lemma_after_adds(now.actions, actions, d);
        lemma_after_adds(now.actions, Seq::empty(), d);
    }
}

proof fn lemma_accepted_step(
    start: Progress,
    replies: Seq<Reply>,
    peer: Seq<char>,
    now: Progress,
    e: rtmp_session::EventView,
    packets: Seq<Seq<u8>>,
)
    requires
        continues(start, replies, peer, now),
        now.queue.len() > 0,
        now.queue[0] == rtmp_session::ResultView::Raised(e),
        rtmp_session::request_of(now.queue[0]) is Some,
    ensures
        ({
            let (conn, actions) = event_spec(now.conn, e, peer);
            continues(
                start,
                replies.push(Reply::Accepted(packets)),
                peer,
                Progress {
                    conn,
                    queue: now.queue.skip(1) + responses(packets),
                    actions: now.actions + actions,
                },
            )
        }),
{
    let (conn, actions) = event_spec(now.conn, e, peer);
    let reply = Reply::Accepted(packets);
    let queue = now.queue.skip(1) + responses(packets);
    assert forall|more: Seq<Reply>| #[trigger]
        drained(start.conn, start.queue, replies.push(reply) + more, peer) == after(
        now.actions + actions,
        drained(conn, queue, more, peer),
    ) by {
        let longer = seq![reply] + more;
        assert(replies.push(reply) + more =~= replies + longer);
        assert(longer.skip(1) =~= more);
        let d = drained(conn, queue, more, peer);
        assert(drained(now.conn, now.queue, longer, peer) == after(actions, d));
        lemma_after_adds(now.actions, actions, d);
    }
}

proof fn lemma_refused_step(
    start: Progress,
    replies: Seq<Reply>,
    peer: Seq<char>,
    now: Progress,
    e: rtmp_session::EventView,
)
    requires
        continues(start, replies, peer, now),
        now.queue.len() > 0,
        now.queue[0] == rtmp_session::ResultView::Raised(e),
        rtmp_session::request_of(now.queue[0]) is Some,
    ensures
        drained(start.conn, start.queue, replies + seq![Reply::Refused], peer) == (Drained {
            conn: noted(now.conn, e),
            actions: now.actions,
            refused: Some(e),
        }),
{
    let more = seq![Reply::Refused];
    assert(drained(start.conn, start.queue, replies + more, peer) == after(
        now.actions,
        drained(now.conn, now.queue, more, peer),
    ));
    assert(now.actions + Seq::<ActionView>::empty() =~= now.actions);
}

proof fn lemma_first_request(results: Seq<rtmp_session::ResultView>)
    requires
        results.len() > 0,
    ensures
        requests(results) == match rtmp_session::request_of(results[0]) {
            Some(id) => requests(results.skip(1)).insert(id),
            None => requests(results.skip(1)),
        },
{
    let rest = results.skip(1);
    assert forall|id: u32| requests(results).contains(id) implies (match rtmp_session::request_of(
        results[0],
    ) {
        Some(first) => requests(rest).insert(first),
        None => requests(rest),
    }).contains(id) by {
        let i = choose|i: int|
            0 <= i < results.len() && rtmp_session::request_of(#[trigger] results[i]) == Some(id);
        if i > 0 {
            assert(rest[i - 1] == results[i]);
        }
    }
    assert forall|id: u32| requests(rest).contains(id) implies requests(results).contains(id) by {
        let i = choose|i: int|
            0 <= i < rest.len() && rtmp_session::request_of(#[trigger] rest[i]) == Some(id);
        assert(results[i + 1] == rest[i]);
    }
    if rtmp_session::request_of(results[0]) is Some {
        assert(requests(results) =~= requests(rest).insert(
            rtmp_session::request_of(results[0])->0,
        ));
    } else {
        assert(requests(results) =~= requests(rest));
    }
}

proof fn lemma_responses_add_no_requests(
    results: Seq<rtmp_session::ResultView>,
    more: Seq<rtmp_session::ResultView>,
)
    requires
        forall|i: int| 0 <= i < more.len() ==> #[trigger] more[i] is Respond,
    ensures
        requests(results + more) == requests(results),
{
    let all = results + more;
    assert forall|id: u32| requests(all).contains(id) implies requests(results).contains(id) by {
        let i = choose|i: int|
            0 <= i < all.len() && rtmp_session::request_of(#[trigger] all[i]) == Some(id);
        if i >= results.len() {
            assert(more[i - results.len()] is Respond);
        }
        assert(results[i] == all[i]);
    }
    assert forall|id: u32| requests(results).contains(id) implies requests(all).contains(id) by {
        let i = choose|i: int|
            0 <= i < results.len() && rtmp_session::request_of(#[trigger] results[i]) == Some(id);
        assert(all[i] == results[i]);
    }
    assert(requests(all) =~= requests(results));
}

/// The requests that answers are given to.
spec fn numbers(answers: Seq<Answer>) -> Seq<u32> {
    Seq::new(answers.len(), |i: int| answers[i].0)
}

proof fn lemma_numbers(answers: Seq<Answer>, asked: Seq<u32>, rest: Seq<u32>)
    requires
        asked == numbers(answers) + rest,
    ensures
        asked.len() == answers.len() + rest.len(),
        forall|i: int| 0 <= i < answers.len() ==> (#[trigger] answers[i]).0 == asked[i],
{
    assert forall|i: int| 0 <= i < answers.len() implies (#[trigger] answers[i]).0 == asked[i] by {
        assert(numbers(answers)[i] == answers[i].0);
    }
}

/// Handles the results of a session until none are left, accepting each request
/// among them. Says what is to be done, and whether accepting failed.
fn drain(
    session: &mut ServerSession,
    conn: &mut ConnState,
    pending: Vec<ServerSessionResult>,
    peer: &str,
) -> (r: Batch)
    requires
        all_within(pending@),
    ensures
        rtmp_session::session_answers(*old(session)).is_prefix_of(
            rtmp_session::session_answers(*final(session)),
        ),
        ({
            let answers = rtmp_session::session_answers(*final(session)).skip(
                rtmp_session::session_answers(*old(session)).len() as int,
            );
            &&& leads_to(
                old(conn)@,
                rtmp_session::results_of(pending@),
                replies_of(answers),
                peer@,
                final(conn)@,
                action_views(r.actions@),
                r.failed,
            )
            &&& answers_to(rtmp_session::results_of(pending@), answers, r.failed is Some)
            &&& rtmp_session::session_log(*final(session)) == rtmp_session::session_log(
                *old(session),
            ) + answered(answers)
        }),
        rtmp_session::session_input(*final(session)) == rtmp_session::session_input(*old(session)),
        rtmp_session::session_output(*final(session)) == rtmp_session::session_output(
            *old(session),
        ),
        rtmp_session::unacked(*final(session)) == rtmp_session::unacked(*old(session)),
        r.failed is None ==> rtmp_session::outstanding(*final(session)) == rtmp_session::outstanding(
            *old(session),
        ).difference(requests(rtmp_session::results_of(pending@))),
{
    let ghost start = Progress {
        conn: conn@,
        queue: rtmp_session::results_of(pending@),
        actions: Seq::empty(),
    };
    let ghost asked = rtmp_session::outstanding(*session);
    let ghost input = rtmp_session::session_input(*session);
    let ghost given = rtmp_session::session_answers(*session);
    let ghost mut answers: Seq<Answer> = Seq::empty();
    let ghost mut replies: Seq<Reply> = Seq::empty();
    let ghost mut done: Set<u32> = Set::empty();
    let mut out: Vec<ConnAction> = Vec::new();
    let mut queue: VecDeque<ServerSessionResult> = VecDeque::new();
    enqueue(&mut queue, pending);
    proof {
        assert(queue@ =~= pending@);
        assert(action_views(out@) =~= Seq::empty());
        assert forall|more: Seq<Reply>| #[trigger]
            drained(start.conn, start.queue, replies + more, peer@) == after(
            start.actions,
            drained(start.conn, start.queue, more, peer@),
        ) by {
            assert(replies + more =~= more);
            lemma_after_adds(start.actions, start.actions, drained(
                start.conn,
                start.queue,
                more,
                peer@,
            ));
        }
        assert(asked.difference(done) =~= asked);
        assert(done.union(requests(start.queue)) =~= requests(start.queue));
        assert(replies_of(answers) =~= replies);
        assert(rtmp_session::session_answers(*session) =~= given + answers);
        assert(rtmp_session::session_log(*session) =~= rtmp_session::session_log(*old(session))
            + answered(answers));
        assert(numbers(answers) + asks(start.queue) =~= asks(start.queue));
    }
    loop
        invariant
            start.conn == old(conn)@,
            start.queue == rtmp_session::results_of(pending@),
            asked == rtmp_session::outstanding(*old(session)),
            input == rtmp_session::session_input(*old(session)),
            all_within(queue@),
            rtmp_session::session_input(*session) == input,
            rtmp_session::session_output(*session) == rtmp_session::session_output(*old(session)),
            rtmp_session::unacked(*session) == rtmp_session::unacked(*old(session)),
            rtmp_session::outstanding(*session) == asked.difference(done),
            requests(start.queue) == done.union(requests(rtmp_session::results_of(queue@))),
            given == rtmp_session::session_answers(*old(session)),
            rtmp_session::session_answers(*session) == given + answers,
            rtmp_session::session_log(*session) == rtmp_session::session_log(*old(session))
                + answered(answers),
            replies == replies_of(answers),
            asks(start.queue) == numbers(answers) + asks(rtmp_session::results_of(queue@)),
            forall|i: int| 0 <= i < answers.len() ==> (#[trigger] answers[i]).1 is Some,
            continues(
                start,
                replies,
                peer@,
                Progress {
                    conn: conn@,
                    queue: rtmp_session::results_of(queue@),
                    actions: action_views(out@),
                },
            ),
        decreases asks(rtmp_session::results_of(queue@)).len(), queue@.len(),
    {
        let ghost now = Progress {
            conn: conn@,
            queue: rtmp_session::results_of(queue@),
            actions: action_views(out@),
        };
        let result = match queue.pop_front() {
            None => {
                proof {
                    let none: Seq<Reply> = Seq::empty();
                    assert(drained(start.conn, start.queue, replies + none, peer@) == after(
                        now.actions,
                        drained(now.conn, now.queue, none, peer@),
                    ));
                    assert(now.actions + Seq::<ActionView>::empty() =~= now.actions);
                    assert(done =~= requests(start.queue));
                    assert(replies + none =~= replies);
                    assert((given + answers).skip(given.len() as int) =~= answers);
                    lemma_numbers(answers, asks(start.queue), Seq::empty());
                }
                return Batch { actions: out, failed: None };
            },
            Some(result) => result,
        };
        proof {
            assert(rtmp_session::results_of(queue@) =~= now.queue.skip(1));
            assert(now.queue[0] == rtmp_session::result_of(result));
            lemma_first_request(now.queue);
        }
        let ghost first = now.queue[0];
        let event = match rtmp_session::open_result(result) {
            SessionResult::Respond(bytes) => {
                out.push(ConnAction::Write(bytes));
                proof {
                    lemma_plain_step(start, replies, peer@, now);
                    assert(action_views(out@) =~= now.actions + plain_step(
                        now.conn,
                        first,
                        peer@,
                    ).1);
                }
                continue;
            },
            SessionResult::Unhandled => {
                proof {
                    lemma_plain_step(start, replies, peer@, now);
                    assert(action_views(out@) =~= now.actions + plain_step(
                        now.conn,
                        first,
                        peer@,
                    ).1);
                }
                continue;
            },
            SessionResult::Raised(event) => rtmp_session::open_event(event),
        };
        let (request_id, publish): (u32, bool) = match &event {
            RtmpEvent::Connect { request_id, .. } => (*request_id, false),
            RtmpEvent::Publish { request_id, .. } => (*request_id, true),
            _ => {
                let mut actions = conn.handle_event(event, peer);
                out.append(&mut actions);
                proof {
                    lemma_plain_step(start, replies, peer@, now);
                    assert(action_views(out@) =~= now.actions + plain_step(
                        now.conn,
                        first,
                        peer@,
                    ).1);
                }
                continue;
            },
        };
        match rtmp_session::accept_request(session, request_id) {
            Err(e) => {
                conn.note(&event);
                proof {
                    lemma_refused_step(start, replies, peer@, now, event@);
                    let last: Answer = (request_id, None);
                    let all = answers.push(last);
                    assert(replies_of(all) =~= replies + seq![Reply::Refused]);
                    assert(rtmp_session::session_answers(*session) =~= given + all);
                    assert((given + all).skip(given.len() as int) =~= all);
                    assert(answered(all) =~= answered(answers).push(
                        rtmp_session::SessionStep::Answered(request_id),
                    ));
                    assert(rtmp_session::session_log(*session) =~= rtmp_session::session_log(
                        *old(session),
                    ) + answered(all));
                    assert(numbers(all) =~= numbers(answers) + seq![request_id]);
                    assert(numbers(answers) + (seq![request_id] + asks(
                        rtmp_session::results_of(queue@),
                    )) =~= numbers(all) + asks(rtmp_session::results_of(queue@)));
                    lemma_numbers(
                        all,
                        asks(start.queue),
                        asks(rtmp_session::results_of(queue@)),
                    );
                }
                let failed = if publish {
                    ConnError::AcceptPublish(e)
                } else {
                    ConnError::AcceptConnect(e)
                };
                return Batch { actions: out, failed: Some(failed) };
            },
            Ok(answer) => {
                let ghost packets = packets_of(rtmp_session::results_of(answer@));
                let ghost before = answers;
                let ghost rest = rtmp_session::results_of(queue@);
                proof {
                    lemma_accepted_step(start, replies, peer@, now, event@, packets);
                    replies = replies.push(Reply::Accepted(packets));
                    done = done.insert(request_id);
                    answers = answers.push(
                        (request_id, Some(rtmp_session::results_of(answer@))),
                    );
                    assert(replies_of(answers) =~= replies);
                    assert(rtmp_session::session_answers(*session) =~= given + answers);
                    assert(answered(answers) =~= answered(before).push(
                        rtmp_session::SessionStep::Answered(request_id),
                    ));
                    assert(rtmp_session::session_log(*session) =~= rtmp_session::session_log(
                        *old(session),
                    ) + answered(answers));
                    assert(numbers(answers) =~= numbers(before) + seq![request_id]);
                    assert(numbers(before) + (seq![request_id] + asks(rest)) =~= numbers(answers)
                        + asks(rest));
                    assert(rtmp_session::results_of(answer@) =~= responses(packets));
                    lemma_responses_ask_nothing(rest, responses(packets));
                    lemma_responses_add_no_requests(rest, responses(packets));
                }
                let ghost queue_before = queue@;
                enqueue(&mut queue, answer);
                let mut actions = conn.handle_event(event, peer);
                out.append(&mut actions);
                proof {
                    assert(rtmp_session::results_of(queue@) =~= rest + responses(packets));
                    assert(action_views(out@) =~= now.actions + event_spec(
                        now.conn,
                        event@,
                        peer@,
                    ).1);
                    assert(asked.difference(done) =~= rtmp_session::outstanding(*session));
                    assert forall|i: int|
                        #![trigger rtmp_session::result_of(queue@[i])]
                        0 <= i < queue@.len() implies rtmp_session::within_message(
                        rtmp_session::result_of(queue@[i]),
                    ) by {
                        if i < queue_before.len() {
                            assert(queue@[i] == queue_before[i]);
                        } else {
                            let j = i - queue_before.len();
                            assert(rtmp_session::result_of(answer@[j]) is Respond);
                        }
                    }
                    assert(requests(start.queue) =~= done.union(
                        requests(rtmp_session::results_of(queue@)),
                    ));
                }
            },
        }
    }
}

// ── handshake ───────────────────────────────────────────────────────────────

/// The handshake of a connection.
pub struct RtmpHandshake {
    inner: Handshake,
}

/// What some bytes of a handshake come to.
#[derive(Debug)]
pub struct HandshakeProgress {
    /// What is to be written to the socket, if anything.
    pub write: Option<Vec<u8>>,
    /// Once the handshake is done, what came after it.
    pub leftover: Option<Vec<u8>>,
}

impl RtmpHandshake {
    /// All bytes that have been received.
    pub closed spec fn received(self) -> Seq<u8> {
        rtmp_session::handshake_input(self.inner)
    }

    /// All bytes that have been made for the client.
    pub closed spec fn made(self) -> Seq<u8> {
        rtmp_session::handshake_output(self.inner)
    }

    /// The handshake is under way.
    pub closed spec fn wf(self) -> bool {
        &&& rtmp_session::handshake_opened(self.inner)
        &&& rtmp_session::speaks_rtmp(self.received())
        &&& self.received().len() < rtmp_session::HANDSHAKE_LEN
    }

    /// Begins a handshake, and gives what is to be written first: the version and
    /// packet 1.
    pub fn begin() -> (r: Result<(RtmpHandshake, Vec<u8>), ConnError>)
        ensures
            r is Ok,
            r matches Ok((h, greeting)) ==> {
                &&& h.wf()
                &&& h.received() == Seq::<u8>::empty()
                &&& h.made() == greeting@
                &&& greeting@.len() == 1 + rtmp_session::PACKET_LEN
                &&& greeting@[0] == rtmp_session::RTMP_VERSION
            },
    {
        let mut inner = rtmp_session::new_handshake();
        match rtmp_session::open_handshake(&mut inner) {
            Ok(greeting) => {
                assert(rtmp_session::handshake_output(inner) =~= greeting@);
                Ok((RtmpHandshake { inner }, greeting))
            },
            Err(e) => Err(ConnError::HandshakeInit(e)),
        }
    }

    /// Takes what was read from the socket; nothing means that the client closed
    /// it. The handshake fails if and only if the client has closed the connection
    /// or does not begin with the version, and is done once the version and two
    /// packets are there.
    pub fn receive(&mut self, bytes: &[u8]) -> (r: Result<HandshakeProgress, ConnError>)
        requires
            old(self).wf(),
        ensures
            final(self).received() == old(self).received() + bytes@,
            r is Ok == (bytes@.len() > 0 && rtmp_session::speaks_rtmp(final(self).received())),
            r matches Err(e) ==> if bytes@.len() == 0 {
                e is HandshakeEof
            } else {
                e is Handshake
            },
            r matches Ok(p) ==> {
                let due = rtmp_session::response_len(
                    old(self).received().len(),
                    final(self).received().len(),
                );
                &&& p.write is Some == (due > 0)
                &&& p.write matches Some(w) ==> w@.len() == due
                &&& final(self).made() == old(self).made() + match p.write {
                    Some(w) => w@,
                    None => Seq::empty(),
                }
                &&& p.leftover is Some == (final(self).received().len()
                    >= rtmp_session::HANDSHAKE_LEN)
                &&& p.leftover matches Some(rest) ==> rest@ == final(self).received().skip(
                    rtmp_session::HANDSHAKE_LEN as int,
                )
                &&& p.leftover is None ==> final(self).wf()
            },
    {
        if bytes.len() == 0 {
            assert(self.received() =~= self.received() + bytes@);
            return Err(ConnError::HandshakeEof);
        }
        match rtmp_session::process_handshake(&mut self.inner, bytes) {
            Err(e) => Err(ConnError::Handshake(e)),
            Ok(HandshakeStep::InProgress { response }) => Ok(
                HandshakeProgress { write: unless_empty(response), leftover: None },
            ),
            Ok(HandshakeStep::Completed { response, remaining }) => Ok(
                HandshakeProgress { write: unless_empty(response), leftover: Some(remaining) },
            ),
        }
    }
}

fn unless_empty(bytes: Vec<u8>) -> (r: Option<Vec<u8>>)
    ensures
        r == if bytes@.len() == 0 {
            None
        } else {
            Some(bytes)
        },
{
    if bytes.len() == 0 {
        None
    } else {
        Some(bytes)
    }
}

// ── connection ──────────────────────────────────────────────────────────────

/// What stands between the socket and the session: it reads ahead, and keeps from the
/// session what that does not survive.
struct Intake {
    reader: ChunkReader,
    /// The bytes that have come.
    total: u64,
    /// The bytes that the session has counted since it last acknowledged some.
    unacked: u32,
}

/// What comes of giving bytes to a session.
enum Given {
    Results(Vec<ServerSessionResult>),
    Refused(ServerSessionError),
    /// The session has not seen them.
    Withheld,
}

impl Intake {
    /// The intake has read what the session has been given, none of which was refused.
    spec fn follows(self, s: ServerSession) -> bool {
        &&& chunks::read_all(rtmp_session::session_input(s)) == chunks::Outcome::Reads(
            self.reader.link(),
            self.reader.rest(),
        )
        &&& rtmp_session::session_input(s).len() == self.total
        &&& rtmp_session::unacked(s) == self.unacked
    }

    fn new() -> (i: Intake)
        ensures
            i.total == 0,
            i.unacked == 0,
            i.reader.link() == chunks::new_link(),
            i.reader.rest() == Seq::<u8>::empty(),
    {
        Intake { reader: ChunkReader::new(), total: 0, unacked: 0 }
    }

    /// Gives bytes to the session, unless it does not survive them.
    fn give(&mut self, session: &mut ServerSession, bytes: &[u8]) -> (r: Given)
        requires
            old(self).follows(*old(session)),
        ensures
            r is Withheld == !chunks::admits(
                rtmp_session::session_input(*old(session)),
                rtmp_session::unacked(*old(session)),
                bytes@,
            ),
            chunks::read_all(rtmp_session::session_input(*old(session)) + bytes@) is Refused
                ==> !(r is Results),
            r is Withheld ==> *final(session) == *old(session),
            !(r is Withheld) ==> {
                &&& r is Refused == rtmp_session::refuses(
                    rtmp_session::session_log(*old(session)),
                    bytes@,
                )
                &&& rtmp_session::session_log(*final(session)) == rtmp_session::session_log(
                    *old(session),
                ).push(rtmp_session::SessionStep::Given(bytes@))
            },
            rtmp_session::session_answers(*final(session)) == rtmp_session::session_answers(
                *old(session),
            ),
            r matches Given::Results(results) ==> {
                &&& final(self).follows(*final(session))
                &&& rtmp_session::session_input(*final(session)) == rtmp_session::session_input(
                    *old(session),
                ) + bytes@
                &&& rtmp_session::session_output(*final(session)) == rtmp_session::session_output(
                    *old(session),
                ) + rtmp_session::results_of(results@)
                &&& all_within(results@)
            },
    {
        let ghost input = rtmp_session::session_input(*session);
        proof {
            chunks::law_portions_do_not_matter(chunks::new_link(), input, bytes@);
        }
        let n: u64 = bytes.len() as u64;
        if n > u64::MAX - self.total {
            return Given::Withheld;
        }
        let low: u32 = (n % 0x1_0000_0000) as u32;
        let mut unacked: u32 = self.unacked;
        if let Some(size) = self.reader.ack_size() {
            if low > u32::MAX - unacked {
                return Given::Withheld;
            }
            unacked = unacked + low;
            if unacked >= size {
                unacked = 0;
            }
        }
        if self.reader.feed(bytes) == Verdict::Faulty {
            return Given::Withheld;
        }
        self.total = self.total + n;
        self.unacked = unacked;
        match rtmp_session::handle_input(session, bytes) {
            Err(e) => Given::Refused(e),
            Ok(results) => Given::Results(results),
        }
    }
}

/// A publisher connection after its handshake.
pub struct RtmpConn {
    session: ServerSession,
    intake: Intake,
    conn: ConnState,
    peer: String,
}

/// The results of a session, with its answers to the requests among them, lead from one
/// state of the connection to another, with what was to be done, and no request among
/// them is left without an answer.
pub open spec fn handled(
    from: ConnView,
    results: Seq<rtmp_session::ResultView>,
    answers: Seq<Answer>,
    peer: Seq<char>,
    to: ConnView,
    batch: Batch,
    unanswered: Set<u32>,
) -> bool {
    &&& leads_to(
        from,
        results,
        replies_of(answers),
        peer,
        to,
        action_views(batch.actions@),
        batch.failed,
    )
    &&& answers_to(results, answers, batch.failed is Some)
    &&& batch.failed is None ==> requests(results).disjoint(unanswered)
}

/// The first results of a session: five packets for the client, and then whatever
/// comes of the bytes that it is given with its start.
pub open spec fn opens(results: Seq<rtmp_session::ResultView>, leftover: Seq<u8>) -> bool {
    &&& results.len() >= 5
    &&& forall|i: int| 0 <= i < 5 ==> #[trigger] results[i] is Respond
    &&& leftover.len() == 0 ==> results.len() == 5
}

/// What is done with a session that is given these bytes, unless there are none.
pub open spec fn given(bytes: Seq<u8>) -> Seq<rtmp_session::SessionStep> {
    if bytes.len() == 0 {
        Seq::empty()
    } else {
        seq![rtmp_session::SessionStep::Given(bytes)]
    }
}

/// What reading from the socket comes to.
#[derive(Debug)]
pub enum Received {
    /// The client has closed the connection; this is left to do.
    Ended(Vec<ConnAction>),
    /// The session has handled what was read.
    Batch(Batch),
}

impl RtmpConn {
    /// What the connection remembers of its publisher.
    pub closed spec fn state(self) -> ConnView {
        self.conn@
    }

    /// The address of the client.
    pub closed spec fn peer(self) -> Seq<char> {
        self.peer@
    }

    /// All bytes that the session has been given.
    pub closed spec fn received(self) -> Seq<u8> {
        rtmp_session::session_input(self.session)
    }

    /// All results that the session has made of its start and of what it was given.
    pub closed spec fn made(self) -> Seq<rtmp_session::ResultView> {
        rtmp_session::session_output(self.session)
    }

    /// All answers of the session to requests of the client.
    pub closed spec fn answers(self) -> Seq<Answer> {
        rtmp_session::session_answers(self.session)
    }

    /// All that has been done with the session.
    pub closed spec fn log(self) -> Seq<rtmp_session::SessionStep> {
        rtmp_session::session_log(self.session)
    }

    /// The bytes that the session has counted since it last acknowledged some.
    pub closed spec fn unacknowledged(self) -> nat {
        rtmp_session::unacked(self.session)
    }

    /// The requests of the client that have not been answered.
    pub closed spec fn unanswered(self) -> Set<u32> {
        rtmp_session::outstanding(self.session)
    }

    /// The session has taken all that it was given.
    pub closed spec fn wf(self) -> bool {
        self.intake.follows(self.session)
    }

    /// Starts the session of a client that has done its handshake, and gives it what
    /// came after that. Without that, it always starts.
    pub fn start(peer: String, leftover: &[u8]) -> (r: Result<(RtmpConn, Batch), ConnError>)
        ensures
            leftover@.len() == 0 ==> r is Ok,
            !chunks::admits(Seq::empty(), 0, leftover@) == (r matches Err(e) && e is Malformed),
            (r matches Err(e) && e is HandleLeftover) == (leftover@.len() > 0 && chunks::admits(
                Seq::empty(),
                0,
                leftover@,
            ) && rtmp_session::refuses(Seq::empty(), leftover@)),
            r matches Err(e) ==> e is Malformed || e is HandleLeftover,
            chunks::read_all(leftover@) is Refused ==> r is Err,
            r matches Ok((c, batch)) ==> {
                &&& c.wf()
                &&& c.peer() == peer@
                &&& c.received() == leftover@
                &&& handled(
                    new_conn(),
                    c.made(),
                    c.answers(),
                    peer@,
                    c.state(),
                    batch,
                    c.unanswered(),
                )
                &&& c.log() == given(leftover@) + answered(c.answers())
                &&& opens(c.made(), leftover@)
            },
    {
        let (mut session, mut pending) = match rtmp_session::new_session() {
            Err(e) => {
                return Err(ConnError::SessionNew(e));
            },
            Ok(made) => made,
        };
        let mut intake = Intake::new();
        let ghost first = pending@;
        let ghost none = Seq::<u8>::empty();
        proof {
            assert(none + leftover@ =~= leftover@);
            chunks::lemma_nothing_read();
        }
        if leftover.len() > 0 {
            match intake.give(&mut session, leftover) {
                Given::Withheld => {
                    return Err(ConnError::Malformed);
                },
                Given::Refused(e) => {
                    return Err(ConnError::HandleLeftover(e));
                },
                Given::Results(mut results) => {
                    pending.append(&mut results);
                },
            }
        }
        let ghost all = rtmp_session::results_of(pending@);
        proof {
            assert(rtmp_session::session_input(session) =~= leftover@);
            assert(rtmp_session::session_output(session) =~= all);
            assert forall|i: int|
                #![trigger rtmp_session::result_of(pending@[i])]
                0 <= i < pending@.len() implies rtmp_session::within_message(
                rtmp_session::result_of(pending@[i]),
            ) by {
                if i < 5 {
                    assert(rtmp_session::result_of(first[i]) is Respond);
                }
            }
            assert forall|i: int| 0 <= i < 5 implies #[trigger] all[i] is Respond by {
                assert(rtmp_session::result_of(first[i]) is Respond);
            }
        }
        let mut conn = ConnState::new();
        assert(rtmp_session::session_log(session) =~= given(leftover@));
        let batch = drain(&mut session, &mut conn, pending, peer.as_str());
        proof {
            let answers = rtmp_session::session_answers(session);
            assert(answers.skip(0) =~= answers);
        }
        Ok((RtmpConn { session, intake, conn, peer }, batch))
    }

    /// Takes what was read from the socket; nothing means that the client closed it.
    /// What the session does not survive is reported and kept from it; what it refuses
    /// is reported; else all that it makes of the bytes is handled.
    pub fn receive(&mut self, bytes: &[u8]) -> (r: Received)
        requires
            old(self).wf(),
        ensures
            final(self).peer() == old(self).peer(),
            bytes@.len() == 0 ==> *final(self) == *old(self) && (r matches Received::Ended(
                actions,
            ) && action_views(actions@) == eof_spec(old(self).state())),
            bytes@.len() > 0 ==> (r matches Received::Batch(batch) && {
                ||| {
                    &&& batch.failed matches Some(e) && e is Malformed
                    &&& !chunks::admits(old(self).received(), old(self).unacknowledged(), bytes@)
                    &&& batch.actions@.len() == 0
                    &&& final(self).state() == old(self).state()
                    &&& final(self).log() == old(self).log()
                }
                ||| {
                    &&& batch.failed matches Some(e) && e is HandleInput
                    &&& chunks::admits(old(self).received(), old(self).unacknowledged(), bytes@)
                    &&& rtmp_session::refuses(old(self).log(), bytes@)
                    &&& batch.actions@.len() == 0
                    &&& final(self).state() == old(self).state()
                    &&& final(self).log() == old(self).log() + given(bytes@)
                }
                ||| {
                    &&& chunks::admits(old(self).received(), old(self).unacknowledged(), bytes@)
                    &&& !rtmp_session::refuses(old(self).log(), bytes@)
                    &&& !(chunks::read_all(old(self).received() + bytes@) is Refused)
                    &&& final(self).wf()
                    &&& final(self).received() == old(self).received() + bytes@
                    &&& old(self).made().is_prefix_of(final(self).made())
                    &&& old(self).answers().is_prefix_of(final(self).answers())
                    &&& handled(
                        old(self).state(),
                        final(self).made().skip(old(self).made().len() as int),
                        final(self).answers().skip(old(self).answers().len() as int),
                        old(self).peer(),
                        final(self).state(),
                        batch,
                        final(self).unanswered(),
                    )
                    &&& final(self).log() == old(self).log() + given(bytes@) + answered(
                        final(self).answers().skip(old(self).answers().len() as int),
                    )
                }
            }),
    {
        if bytes.len() == 0 {
            return Received::Ended(self.conn.on_eof());
        }
        match self.intake.give(&mut self.session, bytes) {
            Given::Withheld => Received::Batch(
                Batch { actions: Vec::new(), failed: Some(ConnError::Malformed) },
            ),
            Given::Refused(e) => Received::Batch(
                Batch { actions: Vec::new(), failed: Some(ConnError::HandleInput(e)) },
            ),
            Given::Results(results) => {
                let ghost all = rtmp_session::results_of(results@);
                let batch = drain(
                    &mut self.session,
                    &mut self.conn,
                    results,
                    self.peer.as_str(),
                );
                proof {
                    assert(self.made().skip(old(self).made().len() as int) =~= all);
                }
                Received::Batch(batch)
            },
        }
    }
}

// ── laws ────────────────────────────────────────────────────────────────────

/// What a run of events does, where every request is accepted.
pub open spec fn run(c: ConnView, events: Seq<rtmp_session::EventView>, peer: Seq<char>) -> (
    ConnView,
    Seq<ActionView>,
)
    decreases events.len(),
{
    if events.len() == 0 {
        (c, Seq::empty())
    } else {
        let (next, actions) = event_spec(c, events[0], peer);
        let (end, more) = run(next, events.skip(1), peer);
        (end, actions + more)
    }
}

/// The events among results.
pub open spec fn events_of(queue: Seq<rtmp_session::ResultView>) -> Seq<rtmp_session::EventView>
    decreases queue.len(),
{
    if queue.len() == 0 {
        Seq::empty()
    } else {
        match queue[0] {
            rtmp_session::ResultView::Raised(e) => seq![e] + events_of(queue.skip(1)),
            _ => events_of(queue.skip(1)),
        }
    }
}

/// The actions but for what is written to the socket.
pub open spec fn without_writes(actions: Seq<ActionView>) -> Seq<ActionView>
    decreases actions.len(),
{
    if actions.len() == 0 {
        Seq::empty()
    } else if actions[0] is Write {
        without_writes(actions.skip(1))
    } else {
        seq![actions[0]] + without_writes(actions.skip(1))
    }
}

/// The FLV chunks among actions.
pub open spec fn chunks(actions: Seq<ActionView>) -> Seq<Seq<u8>>
    decreases actions.len(),
{
    if actions.len() == 0 {
        Seq::empty()
    } else {
        match actions[0] {
            ActionView::Ingest(IngestView::FlvChunk(b)) => seq![b] + chunks(actions.skip(1)),
            _ => chunks(actions.skip(1)),
        }
    }
}

/// The FLV tags of the video messages among events.
pub open spec fn tags(events: Seq<rtmp_session::EventView>) -> Seq<Seq<u8>>
    decreases events.len(),
{
    if events.len() == 0 {
        Seq::empty()
    } else {
        match events[0] {
            rtmp_session::EventView::Video { data, timestamp_ms } => seq![
                flv::flv_tag_spec(flv::TAG_TYPE_VIDEO, timestamp_ms, data),
            ] + tags(events.skip(1)),
            _ => tags(events.skip(1)),
        }
    }
}

/// Whether a session is open after these actions, or `None` where one is ended that
/// is not open.
pub open spec fn open_after(open: bool, actions: Seq<ActionView>) -> Option<bool>
    decreases actions.len(),
{
    if actions.len() == 0 {
        Some(open)
    } else {
        match actions[0] {
            ActionView::Ingest(IngestView::SessionStarted { .. }) => open_after(
                true,
                actions.skip(1),
            ),
            ActionView::Ingest(IngestView::SessionEnded) => if open {
                open_after(false, actions.skip(1))
            } else {
                None
            },
            _ => open_after(open, actions.skip(1)),
        }
    }
}

proof fn lemma_actions_add(open: bool, a: Seq<ActionView>, b: Seq<ActionView>)
    ensures
        without_writes(a + b) == without_writes(a) + without_writes(b),
        chunks(a + b) == chunks(a) + chunks(b),
        open_after(open, a + b) == match open_after(open, a) {
            Some(middle) => open_after(middle, b),
            None => None,
        },
    decreases a.len(),
{
    if a.len() == 0 {
        assert(a + b =~= b);
        assert(without_writes(a) + without_writes(b) =~= without_writes(b));
        assert(chunks(a) + chunks(b) =~= chunks(b));
    } else {
        let rest = a.skip(1);
        assert((a + b).skip(1) =~= rest + b);
        lemma_actions_add(true, rest, b);
        lemma_actions_add(false, rest, b);
        assert(without_writes(a + b) =~= without_writes(a) + without_writes(b));
        assert(chunks(a + b) =~= chunks(a) + chunks(b));
    }
}

proof fn lemma_event(c: ConnView, e: rtmp_session::EventView, peer: Seq<char>)
    ensures
        ({
            let (next, actions) = event_spec(c, e, peer);
            &&& without_writes(actions) == actions
            &&& open_after(c.announced, actions) == Some(next.announced)
            &&& chunks(actions) == match e {
                rtmp_session::EventView::Publish { .. } => seq![flv::flv_header_spec()],
                rtmp_session::EventView::Video { data, timestamp_ms } => seq![
                    flv::flv_tag_spec(flv::TAG_TYPE_VIDEO, timestamp_ms, data),
                ],
                _ => Seq::empty(),
            }
        }),
        open_after(c.announced, eof_spec(c)) == Some(false),
{
    reveal_with_fuel(without_writes, 4);
    reveal_with_fuel(open_after, 4);
    reveal_with_fuel(chunks, 4);
    let actions = event_spec(c, e, peer).1;
    if actions.len() == 2 {
        assert(actions.skip(1) =~= seq![actions[1]]);
        assert(actions.skip(1).skip(1) =~= Seq::empty());
    } else if actions.len() == 3 {
        assert(actions.skip(1) =~= seq![actions[1], actions[2]]);
        assert(actions.skip(1).skip(1) =~= seq![actions[2]]);
        assert(actions.skip(1).skip(1).skip(1) =~= Seq::empty());
    }
    assert(without_writes(actions) =~= actions);
    assert(chunks(actions) =~= match e {
        rtmp_session::EventView::Publish { .. } => seq![flv::flv_header_spec()],
        rtmp_session::EventView::Video { data, timestamp_ms } => seq![
            flv::flv_tag_spec(flv::TAG_TYPE_VIDEO, timestamp_ms, data),
        ],
        _ => Seq::empty(),
    });
    let end = session_end();
    assert(end.skip(1) =~= seq![end[1]]);
    assert(end.skip(1).skip(1) =~= Seq::empty());
}

/// However the client behaves, a session is ended only while one is open, and none is
/// open after the client has closed the connection.
pub proof fn law_sessions_end_once(
    c: ConnView,
    events: Seq<rtmp_session::EventView>,
    peer: Seq<char>,
)
    ensures
        ({
            let (end, actions) = run(c, events, peer);
            &&& open_after(c.announced, actions) == Some(end.announced)
            &&& open_after(c.announced, actions + eof_spec(end)) == Some(false)
        }),
    decreases events.len(),
{
    let (end, actions) = run(c, events, peer);
    if events.len() > 0 {
        let (next, first) = event_spec(c, events[0], peer);
        let rest = events.skip(1);
        law_sessions_end_once(next, rest, peer);
        lemma_event(c, events[0], peer);
        lemma_actions_add(c.announced, first, run(next, rest, peer).1);
    }
    lemma_event(end, rtmp_session::EventView::Other, peer);
    lemma_actions_add(c.announced, actions, eof_spec(end));
}

proof fn lemma_tags(c: ConnView, events: Seq<rtmp_session::EventView>, peer: Seq<char>)
    requires
        forall|i: int| 0 <= i < events.len() ==> !(#[trigger] events[i] is Publish),
    ensures
        chunks(run(c, events, peer).1) == tags(events),
    decreases events.len(),
{
    if events.len() > 0 {
        let (next, first) = event_spec(c, events[0], peer);
        let rest = events.skip(1);
        assert forall|i: int| 0 <= i < rest.len() implies !(#[trigger] rest[i] is Publish) by {
            assert(rest[i] == events[i + 1]);
        }
        lemma_tags(next, rest, peer);
        lemma_event(c, events[0], peer);
        lemma_actions_add(c.announced, first, run(next, rest, peer).1);
        assert(!(events[0] is Publish));
        assert(chunks(run(c, events, peer).1) =~= tags(events));
    }
}

/// The stream that the pipeline gets for a session is well-formed FLV: the header
/// first, and then one tag for each video message, in order, whatever else the client
/// sends in between.
pub proof fn law_stream_is_flv(
    c: ConnView,
    publish: rtmp_session::EventView,
    events: Seq<rtmp_session::EventView>,
    peer: Seq<char>,
)
    requires
        publish is Publish,
        forall|i: int| 0 <= i < events.len() ==> !(#[trigger] events[i] is Publish),
    ensures
        chunks(run(c, seq![publish] + events, peer).1) == seq![flv::flv_header_spec()] + tags(
            events,
        ),
{
    let all = seq![publish] + events;
    let (next, first) = event_spec(c, publish, peer);
    assert(all.skip(1) =~= events);
    lemma_event(c, publish, peer);
    lemma_tags(next, events, peer);
    lemma_actions_add(c.announced, first, run(next, events, peer).1);
}

proof fn lemma_responses_hold_no_events(
    queue: Seq<rtmp_session::ResultView>,
    packets: Seq<Seq<u8>>,
)
    ensures
        events_of(queue + responses(packets)) == events_of(queue),
    decreases queue.len() + packets.len(),
{
    let all = queue + responses(packets);
    if queue.len() > 0 {
        assert(all.skip(1) =~= queue.skip(1) + responses(packets));
        lemma_responses_hold_no_events(queue.skip(1), packets);
    } else if packets.len() > 0 {
        assert(all.skip(1) =~= queue + responses(packets.skip(1)));
        lemma_responses_hold_no_events(queue, packets.skip(1));
    }
}

/// Where the session accepts every request, its results do to the connection, and to
/// all but the socket, what the events among them do one after the other.
pub proof fn law_results_run_as_events(
    c: ConnView,
    queue: Seq<rtmp_session::ResultView>,
    replies: Seq<Reply>,
    peer: Seq<char>,
)
    requires
        replies.len() >= asks(queue).len(),
        forall|i: int| 0 <= i < replies.len() ==> #[trigger] replies[i] is Accepted,
    ensures
        ({
            let d = drained(c, queue, replies, peer);
            &&& d.refused is None
            &&& (d.conn, without_writes(d.actions)) == run(c, events_of(queue), peer)
        }),
    decreases replies.len(), queue.len(),
{
    if queue.len() > 0 {
        let rest = queue.skip(1);
        let (next, first) = plain_step(c, queue[0], peer);
        let events = events_of(queue);
        if queue[0] is Raised {
            assert(events.skip(1) =~= events_of(rest));
            assert(events[0] == queue[0]->Raised_0);
            lemma_event(c, events[0], peer);
        } else {
            reveal_with_fuel(without_writes, 2);
            assert(first.len() > 0 ==> first.skip(1) =~= Seq::empty());
        }
        let later = if rtmp_session::request_of(queue[0]) is Some {
            let packets = replies[0]->Accepted_0;
            let fewer = replies.skip(1);
            lemma_responses_hold_no_events(rest, packets);
            lemma_responses_ask_nothing(rest, responses(packets));
            assert forall|i: int| 0 <= i < fewer.len() implies #[trigger] fewer[i] is Accepted by {
                assert(fewer[i] == replies[i + 1]);
            }
            law_results_run_as_events(next, rest + responses(packets), fewer, peer);
            drained(next, rest + responses(packets), fewer, peer)
        } else {
            law_results_run_as_events(next, rest, replies, peer);
            drained(next, rest, replies, peer)
        };
        lemma_actions_add(c.announced, first, later.actions);
        lemma_actions_add(c.announced, Seq::empty(), later.actions);
        let d = drained(c, queue, replies, peer);
        assert(without_writes(d.actions) =~= run(c, events, peer).1);
    }
}

/// What actions write to the socket.
pub open spec fn writes(actions: Seq<ActionView>) -> Seq<Seq<u8>>
    decreases actions.len(),
{
    if actions.len() == 0 {
        Seq::empty()
    } else {
        match actions[0] {
            ActionView::Write(bytes) => seq![bytes] + writes(actions.skip(1)),
            _ => writes(actions.skip(1)),
        }
    }
}

/// The packets for the client among results.
pub open spec fn packets_in(results: Seq<rtmp_session::ResultView>) -> Seq<Seq<u8>>
    decreases results.len(),
{
    if results.len() == 0 {
        Seq::empty()
    } else {
        match results[0] {
            rtmp_session::ResultView::Respond(bytes) => seq![bytes] + packets_in(results.skip(1)),
            _ => packets_in(results.skip(1)),
        }
    }
}

/// The packets for the client in answers.
pub open spec fn answer_packets(replies: Seq<Reply>) -> Seq<Seq<u8>>
    decreases replies.len(),
{
    if replies.len() == 0 {
        Seq::empty()
    } else {
        match replies[0] {
            Reply::Accepted(packets) => packets + answer_packets(replies.skip(1)),
            Reply::Refused => answer_packets(replies.skip(1)),
        }
    }
}

proof fn lemma_writes_add(a: Seq<ActionView>, b: Seq<ActionView>)
    ensures
        writes(a + b) == writes(a) + writes(b),
    decreases a.len(),
{
    if a.len() == 0 {
        assert(a + b =~= b);
        assert(writes(a) + writes(b) =~= writes(b));
    } else {
        assert((a + b).skip(1) =~= a.skip(1) + b);
        lemma_writes_add(a.skip(1), b);
        assert(writes(a + b) =~= writes(a) + writes(b));
    }
}

/// Events write nothing by themselves.
proof fn lemma_nothing_written(actions: Seq<ActionView>)
    requires
        without_writes(actions) == actions,
    ensures
        writes(actions) == Seq::<Seq<u8>>::empty(),
    decreases actions.len(),
{
    if actions.len() > 0 {
        let rest = actions.skip(1);
        lemma_fewer_without_writes(rest);
        if actions[0] is Write {
            assert(without_writes(actions).len() <= rest.len());
        } else {
            assert(without_writes(actions).skip(1) =~= without_writes(rest));
            lemma_nothing_written(rest);
        }
    }
}

proof fn lemma_fewer_without_writes(actions: Seq<ActionView>)
    ensures
        without_writes(actions).len() <= actions.len(),
    decreases actions.len(),
{
    if actions.len() > 0 {
        lemma_fewer_without_writes(actions.skip(1));
    }
}

proof fn lemma_packets_add(results: Seq<rtmp_session::ResultView>, packets: Seq<Seq<u8>>)
    ensures
        packets_in(results + responses(packets)) == packets_in(results) + packets,
    decreases results.len() + packets.len(),
{
    let all = results + responses(packets);
    if results.len() > 0 {
        assert(all.skip(1) =~= results.skip(1) + responses(packets));
        lemma_packets_add(results.skip(1), packets);
    } else if packets.len() > 0 {
        assert(all.skip(1) =~= results + responses(packets.skip(1)));
        lemma_packets_add(results, packets.skip(1));
        assert(packets =~= seq![packets[0]] + packets.skip(1));
    }
    assert(packets_in(all) =~= packets_in(results) + packets);
}

proof fn lemma_drained_writes(
    c: ConnView,
    queue: Seq<rtmp_session::ResultView>,
    replies: Seq<Reply>,
    peer: Seq<char>,
)
    requires
        replies.len() == asks(queue).len(),
        forall|i: int| 0 <= i < replies.len() ==> #[trigger] replies[i] is Accepted,
    ensures
        writes(drained(c, queue, replies, peer).actions) == packets_in(queue) + answer_packets(
            replies,
        ),
    decreases replies.len(), queue.len(),
{
    if queue.len() == 0 {
        assert(packets_in(queue) + answer_packets(replies) =~= Seq::<Seq<u8>>::empty());
    } else {
        let rest = queue.skip(1);
        let (next, first) = plain_step(c, queue[0], peer);
        if queue[0] is Raised {
            lemma_event(c, queue[0]->Raised_0, peer);
            lemma_nothing_written(first);
        } else {
            reveal_with_fuel(writes, 2);
            assert(first.len() > 0 ==> first.skip(1) =~= Seq::empty());
        }
        if rtmp_session::request_of(queue[0]) is Some {
            let packets = replies[0]->Accepted_0;
            let fewer = replies.skip(1);
            lemma_packets_add(rest, packets);
            lemma_responses_ask_nothing(rest, responses(packets));
            assert forall|i: int| 0 <= i < fewer.len() implies #[trigger] fewer[i] is Accepted by {
                assert(fewer[i] == replies[i + 1]);
            }
            lemma_drained_writes(next, rest + responses(packets), fewer, peer);
            lemma_writes_add(first, drained(next, rest + responses(packets), fewer, peer).actions);
        } else {
            lemma_drained_writes(next, rest, replies, peer);
            lemma_writes_add(first, drained(next, rest, replies, peer).actions);
            lemma_writes_add(Seq::empty(), drained(next, rest, replies, peer).actions);
        }
        assert(writes(drained(c, queue, replies, peer).actions) =~= packets_in(queue)
            + answer_packets(replies));
    }
}

proof fn lemma_all_accepted(results: Seq<rtmp_session::ResultView>, answers: Seq<Answer>)
    requires
        answers_to(results, answers, false),
    ensures
        replies_of(answers).len() == asks(results).len(),
        forall|i: int| 0 <= i < answers.len() ==> #[trigger] replies_of(answers)[i] is Accepted,
{
    assert forall|i: int| 0 <= i < answers.len() implies #[trigger] replies_of(
        answers,
    )[i] is Accepted by {
        assert(!(answers[i].1 is None));
    }
}

/// Whatever the client sent, what the session makes of it, where nothing fails, is
/// written to the client: first its own packets and then those of its answers, in order.
pub proof fn law_answers_are_written(
    from: ConnView,
    results: Seq<rtmp_session::ResultView>,
    answers: Seq<Answer>,
    peer: Seq<char>,
    to: ConnView,
    batch: Batch,
    unanswered: Set<u32>,
)
    requires
        handled(from, results, answers, peer, to, batch, unanswered),
        batch.failed is None,
    ensures
        writes(action_views(batch.actions@)) == packets_in(results) + answer_packets(
            replies_of(answers),
        ),
{
    lemma_all_accepted(results, answers);
    lemma_drained_writes(from, results, replies_of(answers), peer);
}

/// Where nothing fails, a batch does to the connection, and to all but the socket, what
/// the events of the session do one after the other.
pub proof fn law_batches_run_as_events(
    from: ConnView,
    results: Seq<rtmp_session::ResultView>,
    answers: Seq<Answer>,
    peer: Seq<char>,
    to: ConnView,
    batch: Batch,
    unanswered: Set<u32>,
)
    requires
        handled(from, results, answers, peer, to, batch, unanswered),
        batch.failed is None,
    ensures
        (to, without_writes(action_views(batch.actions@))) == run(from, events_of(results), peer),
{
    lemma_all_accepted(results, answers);
    law_results_run_as_events(from, results, replies_of(answers), peer);
}

/// What an event comes to. A publisher is announced with its address and its names, and
/// its FLV stream begins; each video message is counted with its size and becomes one
/// video tag around its bytes; the end of publishing is told once; and nothing else is
/// to be done.
pub proof fn law_what_an_event_does(
    c: ConnView,
    e: rtmp_session::EventView,
    peer: Seq<char>,
)
    requires
        e matches rtmp_session::EventView::Video { data, .. } ==> data.len() < 0x100_0000,
    ensures
        ({
            let (next, actions) = event_spec(c, e, peer);
            match e {
                rtmp_session::EventView::Connect { app, .. } => {
                    &&& next.app == app
                    &&& next.stream_key == c.stream_key
                    &&& next.announced == c.announced
                    &&& actions.len() == 0
                },
                rtmp_session::EventView::Publish { app, stream_key, .. } => {
                    &&& next.app == app
                    &&& next.stream_key == stream_key
                    &&& next.announced
                    &&& actions.len() == 3
                    &&& actions[0] == ActionView::Ingest(
                        IngestView::SessionStarted { peer, app, stream_key },
                    )
                    &&& actions[1] == ActionView::Ingest(
                        IngestView::FlvChunk(
                            seq![0x46u8, 0x4C, 0x56, 1, 1, 0, 0, 0, 9, 0, 0, 0, 0],
                        ),
                    )
                    &&& actions[2] == ActionView::MarkSessionStart
                },
                rtmp_session::EventView::PublishFinished => {
                    &&& next.app == c.app
                    &&& next.stream_key == c.stream_key
                    &&& !next.announced
                    &&& c.announced ==> actions.len() == 2 && actions[0] == ActionView::Ingest(
                        IngestView::SessionEnded,
                    ) && actions[1] == ActionView::MarkSessionEnd
                    &&& !c.announced ==> actions.len() == 0
                },
                rtmp_session::EventView::Video { data, timestamp_ms } => {
                    &&& next == c
                    &&& actions.len() == 2
                    &&& actions[0] matches ActionView::CountFrame { bytes } && bytes == data.len()
                    &&& actions[1] matches ActionView::Ingest(IngestView::FlvChunk(tag)) && {
                        &&& tag.len() == data.len() + 15
                        &&& tag[0] == 9
                        &&& tag[7] * 0x100_0000 + tag[4] * 0x1_0000 + tag[5] * 0x100 + tag[6]
                            == timestamp_ms
                        &&& tag.subrange(11, 11 + data.len() as int) == data
                    }
                },
                _ => next == c && actions.len() == 0,
            }
        }),
{
    flv::law_header_is_flv();
    if let rtmp_session::EventView::Video { data, timestamp_ms } = e {
        flv::law_tag_bytes(9, timestamp_ms, data);
    }
}

/// A connection that ends has the end of its session told where it was announced, and
/// only there.
pub proof fn law_what_an_end_does(c: ConnView)
    ensures
        c.announced ==> eof_spec(c) == seq![
            ActionView::Ingest(IngestView::SessionEnded),
            ActionView::MarkSessionEnd,
        ],
        !c.announced ==> eof_spec(c).len() == 0,
        !new_conn().announced,
{
}

/// A request that the session refuses to accept is what the connection fails of, as the
/// request that it was; what has come after it is dropped, and nothing is announced. The
/// names that it gave are remembered.
pub proof fn law_refusals_end_a_batch(
    c: ConnView,
    e: rtmp_session::EventView,
    rest: Seq<rtmp_session::ResultView>,
    more: Seq<Reply>,
    peer: Seq<char>,
    failed: Option<ConnError>,
)
    requires
        e is Connect || e is Publish,
    ensures
        ({
            let d = drained(
                c,
                seq![rtmp_session::ResultView::Raised(e)] + rest,
                seq![Reply::Refused] + more,
                peer,
            );
            &&& d.actions.len() == 0
            &&& d.conn.announced == c.announced
            &&& e matches rtmp_session::EventView::Connect { app, .. } ==> d.conn.app == app
                && d.conn.stream_key == c.stream_key
            &&& e matches rtmp_session::EventView::Publish { app, stream_key, .. } ==> d.conn.app
                == app && d.conn.stream_key == stream_key
            &&& d.refused == Some(e)
            &&& e is Connect ==> (reports(failed, d.refused) <==> (failed matches Some(x)
                && x is AcceptConnect))
            &&& e is Publish ==> (reports(failed, d.refused) <==> (failed matches Some(x)
                && x is AcceptPublish))
        }),
        reports(failed, None) <==> failed is None,
{
}

/// Every video message that a session can hand on fits a tag, and so does everything
/// that is no video.
pub proof fn law_messages_fit_tags(e: rtmp_session::EventView)
    requires
        e matches rtmp_session::EventView::Video { data, .. } ==> data.len() <= 0xFF_FFFF,
    ensures
        event_fits(e),
{
}

} // verus!
