use llm_client::client::ChunkEvent;
use llm_client::stream::consume_events;
use llm_client::stream::stream_step;
use llm_client::stream::ConsumeEnd;
use llm_client::stream::StreamAction;

#[test]
fn step_prints_decoded_chunk() {
    let event = ChunkEvent::Bytes(b"Hello".to_vec());
    assert_eq!(stream_step(&event), StreamAction::Print("Hello".to_string()));
}

#[test]
fn step_fails_on_undecodable_chunk() {
    let event = ChunkEvent::Bytes(vec![0xc3]);
    assert_eq!(stream_step(&event), StreamAction::FailDecode);
}

#[test]
fn step_stops_after_transport_failure() {
    let event = ChunkEvent::TransportFailed("broken pipe".to_string());
    assert_eq!(
        stream_step(&event),
        StreamAction::StopAfterTransport("broken pipe".to_string())
    );
}

#[test]
fn consume_prints_every_valid_chunk() {
    let events = vec![
        ChunkEvent::Bytes(b"Hello".to_vec()),
        ChunkEvent::Bytes(b", ".to_vec()),
        ChunkEvent::Bytes("wörld".as_bytes().to_vec()),
    ];
    let log = consume_events(&events);
    assert_eq!(
        log.printed,
        vec!["Hello".to_string(), ", ".to_string(), "wörld".to_string()]
    );
    assert_eq!(log.end, ConsumeEnd::Finished);
}

#[test]
fn consume_of_no_events_finishes_quietly() {
    let events: Vec<ChunkEvent> = Vec::new();
    let log = consume_events(&events);
    assert!(log.printed.is_empty());
    assert_eq!(log.end, ConsumeEnd::Finished);
}

#[test]
fn consume_stops_at_undecodable_chunk() {
    // The first chunk is printed; the invalid bytes end consumption,
    // and the chunk after them is never printed.
    let events = vec![
        ChunkEvent::Bytes(b"Hello".to_vec()),
        ChunkEvent::Bytes(vec![0xff, 0xfe, 0xfd]),
        ChunkEvent::Bytes(b"World".to_vec()),
    ];
    let log = consume_events(&events);
    assert_eq!(log.printed, vec!["Hello".to_string()]);
    assert_eq!(log.end, ConsumeEnd::DecodeFailed);
}

#[test]
fn consume_stops_quietly_after_transport_failure() {
    let events = vec![
        ChunkEvent::Bytes(b"partial".to_vec()),
        ChunkEvent::TransportFailed("connection reset".to_string()),
        ChunkEvent::Bytes(b"never seen".to_vec()),
    ];
    let log = consume_events(&events);
    assert_eq!(log.printed, vec!["partial".to_string()]);
    assert_eq!(log.end, ConsumeEnd::TransportStopped("connection reset".to_string()));
}
