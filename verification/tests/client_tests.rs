use llm_client::client::process_chunk;
use llm_client::client::stream_response;
use llm_client::client::text_response;
use llm_client::client::ApiError;
use llm_client::client::ChunkEvent;
use llm_client::ApiClient;
use llm_client::Response;

#[test]
fn new_keeps_url_and_key() {
    let client = ApiClient::new("http://localhost:8080/v1/chat/completions".to_string(), Some("sk-123".to_string()));
    assert_eq!(client.api_url, "http://localhost:8080/v1/chat/completions");
    assert_eq!(client.api_key, Some("sk-123".to_string()));

    let bare = ApiClient::new("http://localhost:8080".to_string(), None);
    assert_eq!(bare.api_key, None);
}

#[test]
fn headers_without_key_have_no_authorization() {
    let client = ApiClient::new("http://localhost:8080".to_string(), None);
    let headers = client.request_headers();
    assert_eq!(headers.len(), 1);
    assert_eq!(headers[0].0, "Content-Type");
    assert_eq!(headers[0].1, "application/json");
}

#[test]
fn headers_with_key_carry_bearer_once() {
    let client = ApiClient::new("http://localhost:8080".to_string(), Some("sk-123".to_string()));
    let headers = client.request_headers();
    assert_eq!(headers.len(), 2);
    assert_eq!(headers[0].0, "Content-Type");
    assert_eq!(headers[0].1, "application/json");
    assert_eq!(headers[1].0, "Authorization");
    assert_eq!(headers[1].1, "Bearer sk-123");
    let bearer_count = headers.iter().filter(|h| h.0 == "Authorization").count();
    assert_eq!(bearer_count, 1);
}

#[test]
fn process_chunk_decodes_valid_bytes() {
    let event = ChunkEvent::Bytes("héllo".as_bytes().to_vec());
    assert_eq!(process_chunk(&event), Ok("héllo".to_string()));
}

#[test]
fn process_chunk_rejects_invalid_bytes() {
    let event = ChunkEvent::Bytes(vec![0xff, 0xfe]);
    assert_eq!(process_chunk(&event), Err(ApiError::InvalidUtf8));
}

#[test]
fn process_chunk_passes_transport_failure_on() {
    let event = ChunkEvent::TransportFailed("connection reset".to_string());
    assert_eq!(process_chunk(&event), Err(ApiError::Transport("connection reset".to_string())));
}

#[test]
fn stream_of_valid_chunks_yields_each_decoded() {
    let events = vec![
        ChunkEvent::Bytes(b"Hello".to_vec()),
        ChunkEvent::Bytes(b", ".to_vec()),
        ChunkEvent::Bytes("wörld".as_bytes().to_vec()),
    ];
    let expected = Response::Stream(vec![
        Ok("Hello".to_string()),
        Ok(", ".to_string()),
        Ok("wörld".to_string()),
    ]);
    assert_eq!(stream_response(&events), expected);
}

#[test]
fn chunk_boundary_splitting_codepoint_yields_error_elements() {
    // "é" is encoded as the two bytes 0xc3 0xa9; a chunk boundary in the
    // middle leaves each side invalid on its own, and later chunks are
    // still decoded.
    let events = vec![
        ChunkEvent::Bytes(b"He".to_vec()),
        ChunkEvent::Bytes(vec![0xc3]),
        ChunkEvent::Bytes(vec![0xa9]),
        ChunkEvent::Bytes(b"llo".to_vec()),
    ];
    let expected = Response::Stream(vec![
        Ok("He".to_string()),
        Err(ApiError::InvalidUtf8),
        Err(ApiError::InvalidUtf8),
        Ok("llo".to_string()),
    ]);
    assert_eq!(stream_response(&events), expected);
}

#[test]
fn stream_passes_transport_failure_as_one_element() {
    let events = vec![
        ChunkEvent::Bytes(b"a".to_vec()),
        ChunkEvent::TransportFailed("timed out".to_string()),
        ChunkEvent::Bytes(b"b".to_vec()),
    ];
    let expected = Response::Stream(vec![
        Ok("a".to_string()),
        Err(ApiError::Transport("timed out".to_string())),
        Ok("b".to_string()),
    ]);
    assert_eq!(stream_response(&events), expected);
}

#[test]
fn text_response_decodes_whole_body() {
    let body = b"The answer is 42.".to_vec();
    assert_eq!(text_response(&body), Ok(Response::Text("The answer is 42.".to_string())));
}

#[test]
fn text_response_returns_failure_body_as_text() {
    // An HTTP 500 body arrives here like any other: the status code is
    // never inspected, so the error body is returned as plain text.
    let body = b"{\"error\":\"bad request\"}".to_vec();
    assert_eq!(
        text_response(&body),
        Ok(Response::Text("{\"error\":\"bad request\"}".to_string()))
    );
}

#[test]
fn text_response_rejects_invalid_utf8() {
    let body = vec![0x48, 0x80];
    assert_eq!(text_response(&body), Err(ApiError::InvalidUtf8));
}
