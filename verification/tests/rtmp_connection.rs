//! A whole publisher connection against a real RTMP client.

use bumps_pipe::flv::{flv_header_bytes, flv_tag, TAG_TYPE_VIDEO};
use bumps_pipe::rtmp::{
    ConnAction, ConnError, ConnState, IngestEvent, Received, RtmpConn, RtmpHandshake,
};
use bumps_pipe::rtmp_session::RtmpEvent;
use bytes::Bytes;
use rml_rtmp::chunk_io::ChunkSerializer;
use rml_rtmp::handshake::{Handshake, HandshakeProcessResult, PeerType};
use rml_rtmp::messages::MessagePayload;
use rml_rtmp::sessions::{
    ClientSession, ClientSessionConfig, ClientSessionEvent, ClientSessionResult,
    PublishRequestType, StreamMetadata,
};
use rml_rtmp::time::RtmpTimestamp;

/// A client and the server's connection to it, with what the server did.
struct Link {
    client: ClientSession,
    server: RtmpConn,
    actions: Vec<ConnAction>,
    client_events: Vec<ClientSessionEvent>,
}

impl Link {
    fn new() -> Link {
        let (client, _) = ClientSession::new(ClientSessionConfig::new()).unwrap();
        let (server, batch) = RtmpConn::start("1.2.3.4:5".to_string(), &[]).unwrap();
        assert!(batch.failed.is_none());
        assert_eq!(batch.actions.len(), 5);
        let mut link = Link {
            client,
            server,
            actions: Vec::new(),
            client_events: Vec::new(),
        };
        link.to_client(batch.actions);
        link
    }

    fn to_server(&mut self, bytes: &[u8]) {
        match self.server.receive(bytes) {
            Received::Batch(batch) => {
                assert!(batch.failed.is_none());
                self.to_client(batch.actions);
            }
            Received::Ended(_) => panic!("ended"),
        }
    }

    fn to_client(&mut self, actions: Vec<ConnAction>) {
        let mut replies: Vec<u8> = Vec::new();
        for action in actions {
            match action {
                ConnAction::Write(bytes) => {
                    for r in self.client.handle_input(&bytes).unwrap() {
                        match r {
                            ClientSessionResult::OutboundResponse(p) => replies.extend(p.bytes),
                            ClientSessionResult::RaisedEvent(e) => self.client_events.push(e),
                            ClientSessionResult::UnhandleableMessageReceived(_) => {}
                        }
                    }
                }
                other => self.actions.push(other),
            }
        }
        if !replies.is_empty() {
            self.to_server(&replies);
        }
    }

    fn send(&mut self, r: ClientSessionResult) {
        match r {
            ClientSessionResult::OutboundResponse(p) => self.to_server(&p.bytes),
            other => panic!("unexpected {other:?}"),
        }
    }

    fn publish(&mut self) {
        let r = self.client.request_connection("live".to_string()).unwrap();
        self.send(r);
        let r = self
            .client
            .request_publishing("drone".to_string(), PublishRequestType::Live)
            .unwrap();
        self.send(r);
    }
}

fn chunk_of(a: &ConnAction) -> Option<Bytes> {
    match a {
        ConnAction::Ingest(IngestEvent::FlvChunk(b)) => Some(b.clone()),
        _ => None,
    }
}

#[test]
fn handshake_with_a_client() {
    let mut client = Handshake::new(PeerType::Client);
    let (mut server, greeting) = RtmpHandshake::begin().unwrap();
    assert_eq!(greeting.len(), 1537);
    assert_eq!(greeting[0], 3);
    let hello = client.generate_outbound_p0_and_p1().unwrap();
    let first = server.receive(&hello[..100]).unwrap();
    assert!(first.write.is_none() && first.leftover.is_none());
    let second = server.receive(&hello[100..]).unwrap();
    let packet_2 = second.write.unwrap();
    assert_eq!(packet_2.len(), 1536);
    assert!(second.leftover.is_none());
    let mut to_client = greeting.clone();
    to_client.extend(packet_2);
    let mut answer = match client.process_bytes(&to_client).unwrap() {
        HandshakeProcessResult::Completed { response_bytes, .. } => response_bytes,
        other => panic!("unexpected {other:?}"),
    };
    assert_eq!(answer.len(), 1536);
    answer.extend([7, 8, 9]);
    let done = server.receive(&answer).unwrap();
    assert!(done.write.is_none());
    assert_eq!(done.leftover, Some(vec![7, 8, 9]));
}

#[test]
fn handshake_failures() {
    let (mut server, _) = RtmpHandshake::begin().unwrap();
    assert!(matches!(server.receive(&[]), Err(ConnError::HandshakeEof)));
    let (mut other, _) = RtmpHandshake::begin().unwrap();
    assert!(matches!(other.receive(&[6, 0, 0]), Err(ConnError::Handshake(_))));
}

#[test]
fn publishing_announces_a_session() {
    let mut link = Link::new();
    link.publish();
    assert!(link
        .client_events
        .contains(&ClientSessionEvent::ConnectionRequestAccepted));
    assert!(link
        .client_events
        .contains(&ClientSessionEvent::PublishRequestAccepted));
    assert_eq!(link.actions.len(), 3);
    match &link.actions[0] {
        ConnAction::Ingest(IngestEvent::SessionStarted {
            peer,
            app,
            stream_key,
        }) => {
            assert_eq!(peer, "1.2.3.4:5");
            assert_eq!(app, "live");
            assert_eq!(stream_key, "drone");
        }
        other => panic!("unexpected {other:?}"),
    }
    assert_eq!(chunk_of(&link.actions[1]), Some(flv_header_bytes()));
    assert!(matches!(link.actions[2], ConnAction::MarkSessionStart));
}

#[test]
fn video_becomes_flv_tags() {
    let mut link = Link::new();
    link.publish();
    link.actions.clear();
    let frames: Vec<Vec<u8>> = vec![vec![0x17, 0, 0, 0, 0, 1], vec![0x27; 10_000], vec![0x27, 1]];
    for (n, f) in frames.iter().enumerate() {
        let r = link
            .client
            .publish_video_data(
                Bytes::from(f.clone()),
                RtmpTimestamp::new(33 * n as u32),
                false,
            )
            .unwrap();
        link.send(r);
        let r = link
            .client
            .publish_audio_data(Bytes::from(vec![1, 2]), RtmpTimestamp::new(33), false)
            .unwrap();
        link.send(r);
    }
    let r = link.client.publish_metadata(&StreamMetadata::new()).unwrap();
    link.send(r);
    assert_eq!(link.actions.len(), 6);
    for (n, f) in frames.iter().enumerate() {
        match link.actions[2 * n] {
            ConnAction::CountFrame { bytes } => assert_eq!(bytes, f.len() as u64),
            ref other => panic!("unexpected {other:?}"),
        }
        assert_eq!(
            chunk_of(&link.actions[2 * n + 1]),
            Some(flv_tag(TAG_TYPE_VIDEO, 33 * n as u32, f))
        );
    }
}

#[test]
fn the_end_is_announced_once() {
    let mut link = Link::new();
    link.publish();
    link.actions.clear();
    for r in link.client.stop_publishing().unwrap() {
        link.send(r);
    }
    assert_eq!(link.actions.len(), 2);
    assert!(matches!(
        link.actions[0],
        ConnAction::Ingest(IngestEvent::SessionEnded)
    ));
    assert!(matches!(link.actions[1], ConnAction::MarkSessionEnd));
    match link.server.receive(&[]) {
        Received::Ended(actions) => assert!(actions.is_empty()),
        other => panic!("unexpected {other:?}"),
    }
}

#[test]
fn a_closed_connection_ends_the_session() {
    let mut link = Link::new();
    link.publish();
    match link.server.receive(&[]) {
        Received::Ended(actions) => {
            assert_eq!(actions.len(), 2);
            assert!(matches!(
                actions[0],
                ConnAction::Ingest(IngestEvent::SessionEnded)
            ));
            assert!(matches!(actions[1], ConnAction::MarkSessionEnd));
        }
        other => panic!("unexpected {other:?}"),
    }
}

#[test]
fn input_after_the_handshake_is_handled() {
    let (mut client, _) = ClientSession::new(ClientSessionConfig::new()).unwrap();
    let bytes = match client.request_connection("live".to_string()).unwrap() {
        ClientSessionResult::OutboundResponse(p) => p.bytes,
        other => panic!("unexpected {other:?}"),
    };
    let (_, batch) = RtmpConn::start("p".to_string(), &bytes).unwrap();
    assert!(batch.failed.is_none());
    assert!(batch.actions.len() > 5);
    assert!(batch.actions.iter().all(|a| matches!(a, ConnAction::Write(_))));
}

#[test]
fn malformed_input_fails() {
    let garbage = [0xC3u8; 64];
    assert!(matches!(
        RtmpConn::start("p".to_string(), &garbage),
        Err(ConnError::HandleLeftover(_))
    ));
    let (mut server, _) = RtmpConn::start("p".to_string(), &[]).unwrap();
    match server.receive(&garbage) {
        Received::Batch(batch) => {
            assert!(batch.actions.is_empty());
            assert!(matches!(batch.failed, Some(ConnError::HandleInput(_))));
        }
        other => panic!("unexpected {other:?}"),
    }
}

fn amf_text(out: &mut Vec<u8>, s: &str) {
    out.push(2);
    out.extend((s.len() as u16).to_be_bytes());
    out.extend(s.as_bytes());
}

fn amf_number(out: &mut Vec<u8>, n: f64) {
    out.push(0);
    out.extend(n.to_be_bytes());
}

fn command_packet(data: Vec<u8>, stream_id: u32) -> Vec<u8> {
    let payload = MessagePayload {
        timestamp: RtmpTimestamp::new(0),
        type_id: 20,
        message_stream_id: stream_id,
        data: Bytes::from(data),
    };
    ChunkSerializer::new().serialize(&payload, true, false).unwrap().bytes
}

#[test]
fn publish_on_a_dead_stream_is_refused() {
    let mut link = Link::new();
    let r = link.client.request_connection("live".to_string()).unwrap();
    link.send(r);
    let mut data = Vec::new();
    amf_text(&mut data, "publish");
    amf_number(&mut data, 5.0);
    data.push(5);
    amf_text(&mut data, "k");
    amf_text(&mut data, "live");
    match link.server.receive(&command_packet(data, 77)) {
        Received::Batch(batch) => {
            assert!(matches!(batch.failed, Some(ConnError::AcceptPublish(_))));
            assert!(batch.actions.is_empty());
        }
        other => panic!("unexpected {other:?}"),
    }
}

#[test]
fn connect_with_an_overlong_name_is_refused() {
    let mut data = Vec::new();
    amf_text(&mut data, "connect");
    amf_number(&mut data, 1.0);
    data.push(3);
    data.extend([0, 3]);
    data.extend(b"app");
    amf_text(&mut data, &"a".repeat(65_530));
    data.extend([0, 0, 9]);
    let payload = MessagePayload {
        timestamp: RtmpTimestamp::new(0),
        type_id: 20,
        message_stream_id: 0,
        data: Bytes::from(data),
    };
    let mut serializer = ChunkSerializer::new();
    let size = serializer
        .set_max_chunk_size(100_000, RtmpTimestamp::new(0))
        .unwrap();
    let packet = serializer.serialize(&payload, true, false).unwrap();
    let mut bytes = size.bytes;
    bytes.extend(packet.bytes);
    let (mut server, _) = RtmpConn::start("p".to_string(), &[]).unwrap();
    match server.receive(&bytes) {
        Received::Batch(batch) => {
            assert!(matches!(batch.failed, Some(ConnError::AcceptConnect(_))));
        }
        other => panic!("unexpected {other:?}"),
    }
}

#[test]
fn events_one_by_one() {
    let mut c = ConnState::new();
    let connect = RtmpEvent::Connect {
        request_id: 1,
        app: "live".to_string(),
    };
    assert!(c.handle_event(connect, "p").is_empty());
    assert_eq!(c.app, "live");
    assert!(c.handle_event(RtmpEvent::PublishFinished, "p").is_empty());
    assert!(c.on_eof().is_empty());
    let publish = RtmpEvent::Publish {
        request_id: 2,
        app: "live".to_string(),
        stream_key: "k".to_string(),
    };
    assert_eq!(c.handle_event(publish, "p").len(), 3);
    assert!(c.session_announced);
    assert!(c.handle_event(RtmpEvent::Audio, "p").is_empty());
    assert!(c.handle_event(RtmpEvent::Metadata, "p").is_empty());
    assert!(c.handle_event(RtmpEvent::Other, "p").is_empty());
    assert_eq!(c.on_eof().len(), 2);
}
