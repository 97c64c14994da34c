//! The session state machine end to end: envelope handling, drop-and-go
//! behaviour, heartbeat cadence, closure, and the outbound frame texts.

use opensea_stream::envelope::{decode_message, Envelope, Payload as PushPayload};
use opensea_stream::protocol::{Collection, Network, PhoenixMessage};
use opensea_stream::schema::Payload;
use opensea_stream::session::{
    IngestOutcome, Session, SessionError, HEARTBEAT_PERIOD_SECS, OUTBOUND_CAPACITY,
};

const REPLY_MSG: &str =
    "{\"topic\":\"collection:neon-vortex-1\",\"event\":\"phx_reply\",\"payload\":{\"status\":\"ok\",\"response\":{}}}";

fn metadata_msg() -> String {
    "{\"topic\":\"collection:neon-vortex-1\",\"event\":\"item_metadata_updated\",\"payload\":{\"event_type\":\"item_metadata_updated\",\"payload\":{\"collection\":{\"slug\":\"neon-vortex-1\"},\"item\":{\"chain\":{\"name\":\"matic\"}}},\"sent_at\":\"2023-08-01T22:39:32.033948+00:00\"}}".to_string()
}

#[test]
fn end_to_end_reply_then_metadata_event() {
    // the push reply produces no domain event
    assert!(decode_message(REPLY_MSG.as_bytes()).is_none());
    let env = Envelope::decode(REPLY_MSG.as_bytes()).unwrap();
    assert_eq!(env.topic, b"collection:neon-vortex-1".to_vec());
    match env.payload {
        Some(PushPayload::PushReply { status, .. }) => assert_eq!(status, b"ok".to_vec()),
        other => panic!("expected a push reply, got {:?}", other),
    }
    // the metadata update decodes to one event with the chain resolved
    let e = decode_message(metadata_msg().as_bytes()).unwrap();
    match e.payload {
        Payload::ItemMetadataUpdated(d) => {
            assert_eq!(d.collection.slug, b"neon-vortex-1".to_vec());
            assert_eq!(d.item.chain, Some(opensea_stream::chain::Chain::Polygon));
        },
        other => panic!("wrong variant: {:?}", other),
    }
}

#[test]
fn unrecognized_event_type_dropped_then_next_message_delivered() {
    let mut s = Session::connect(0);
    let bad = "{\"topic\":\"collection:neon-vortex-1\",\"event\":\"item_vaporised\",\"payload\":{\"event_type\":\"item_vaporised\",\"payload\":{},\"sent_at\":1}}";
    assert_eq!(s.on_frame_text(bad.as_bytes()), IngestOutcome::Dropped);
    assert!(s.is_open());
    assert!(s.next_event().is_none());
    assert_eq!(
        s.on_frame_text(metadata_msg().as_bytes()),
        IngestOutcome::Delivered
    );
    let e = s.next_event().unwrap();
    assert!(matches!(e.payload, Payload::ItemMetadataUpdated(_)));
}

#[test]
fn reply_is_never_surfaced_by_next_event() {
    let mut s = Session::connect(0);
    assert_eq!(s.on_frame_text(REPLY_MSG.as_bytes()), IngestOutcome::Dropped);
    assert!(s.next_event().is_none());
}

#[test]
fn malformed_text_is_dropped_without_closing() {
    let mut s = Session::connect(0);
    assert_eq!(s.on_frame_text(b"not json at all"), IngestOutcome::Dropped);
    assert!(s.is_open());
}

#[test]
fn heartbeat_cadence() {
    let mut s = Session::connect(100);
    // due immediately on connect
    assert!(s.poll_heartbeat(100));
    let frame = s.next_outbound().unwrap();
    assert_eq!(
        frame,
        "{\"topic\": \"phoenix\", \"event\": \"heartbeat\", \"payload\": {}, \"ref\": 0}"
    );
    // not due again until a full period has passed
    assert!(!s.poll_heartbeat(100 + HEARTBEAT_PERIOD_SECS - 1));
    assert!(s.poll_heartbeat(100 + HEARTBEAT_PERIOD_SECS));
    // and never once the session is closed
    s.close();
    assert!(!s.poll_heartbeat(100 + 10 * HEARTBEAT_PERIOD_SECS));
    assert!(s.next_outbound().is_some());
    assert!(s.next_outbound().is_none());
}

#[test]
fn subscribe_queues_join_frame_fifo() {
    let mut s = Session::connect(0);
    s.subscribe(Collection::Collection("neon-vortex-1".to_string()))
        .unwrap();
    s.subscribe(Collection::All).unwrap();
    assert_eq!(
        s.next_outbound().unwrap(),
        "{\"topic\": \"collection:neon-vortex-1\", \"event\": \"phx_join\", \"payload\": {}, \"ref\": 0}"
    );
    assert_eq!(
        s.next_outbound().unwrap(),
        "{\"topic\": \"collection:*\", \"event\": \"phx_join\", \"payload\": {}, \"ref\": 0}"
    );
}

#[test]
fn subscribe_after_close_is_refused_synchronously() {
    let mut s = Session::connect(0);
    s.close();
    assert_eq!(
        s.subscribe(Collection::All),
        Err(SessionError::Closed)
    );
}

#[test]
fn outbound_queue_is_bounded() {
    let mut s = Session::connect(0);
    for _ in 0..OUTBOUND_CAPACITY {
        s.subscribe(Collection::All).unwrap();
    }
    assert_eq!(
        s.subscribe(Collection::All),
        Err(SessionError::QueueFull)
    );
}

#[test]
fn closed_session_yields_nothing_forever() {
    let mut s = Session::connect(0);
    assert_eq!(
        s.on_frame_text(metadata_msg().as_bytes()),
        IngestOutcome::Delivered
    );
    s.close();
    // the already-queued event drains, then nothing, on every later call
    assert!(s.next_event().is_some());
    assert!(s.next_event().is_none());
    assert_eq!(
        s.on_frame_text(metadata_msg().as_bytes()),
        IngestOutcome::Closed
    );
    for _ in 0..3 {
        assert!(s.next_event().is_none());
    }
}

#[test]
fn network_endpoints() {
    assert_eq!(
        Network::Mainnet.url_text(),
        "wss://stream.openseabeta.com/socket/websocket"
    );
    assert_eq!(
        Network::Testnet.url_text(),
        "wss://testnets-stream.openseabeta.com/socket/websocket"
    );
}

#[test]
fn heartbeat_frame_text_matches_wire_format() {
    let m = PhoenixMessage::Heartbeat;
    assert_eq!(
        m.frame_text(),
        "{\"topic\": \"phoenix\", \"event\": \"heartbeat\", \"payload\": {}, \"ref\": 0}"
    );
}
