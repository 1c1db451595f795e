use vstd::prelude::*;
use vstd::string::StringExecFns;
use vstd::utf8::decode_utf8;
use vstd::utf8::valid_utf8;

use crate::codec::decode_chunk;

verus! {

/// A handle on one remote LLM endpoint: the URL requests are sent to,
/// and an optional bearer token attached to each of them.
///
/// A client is immutable after construction and carries no other state;
/// every request made through it is independent.
pub struct ApiClient {
    pub api_url: String,
    pub api_key: Option<String>,
}

/// The two failures a request can surface: the transport failed with
/// some message, or bytes that were received are not valid UTF-8. An
/// HTTP status code is neither: responses with failure status codes are
/// returned like any other.
#[derive(Debug, PartialEq, Eq)]
pub enum ApiError {
    Transport(String),
    InvalidUtf8,
}

/// One item of a chunked transfer, as the transport hands it over:
/// either the raw bytes of one chunk, or a transport failure with its
/// message.
#[derive(Debug)]
pub enum ChunkEvent {
    Bytes(Vec<u8>),
    TransportFailed(String),
}

/// The mathematical value of a [`ChunkEvent`].
pub enum ChunkEventView {
    Bytes(Seq<u8>),
    TransportFailed(Seq<char>),
}

impl View for ChunkEvent {
    type V = ChunkEventView;

    open spec fn view(&self) -> ChunkEventView {
        match self {
            ChunkEvent::Bytes(b) => ChunkEventView::Bytes(b@),
            ChunkEvent::TransportFailed(m) => ChunkEventView::TransportFailed(m@),
        }
    }
}

impl DeepView for ChunkEvent {
    type V = ChunkEventView;

    open spec fn deep_view(&self) -> ChunkEventView {
        self.view()
    }
}

/// A response in one of its two forms, chosen solely by the caller's
/// `stream` flag: the full body as one decoded text, or the sequence of
/// per-chunk decode results of a chunked transfer. Here the sequence is
/// held materialized; a live transfer produces its elements one by one,
/// each through [`process_chunk`].
#[derive(Debug, PartialEq, Eq)]
pub enum Response {
    Text(String),
    Stream(Vec<Result<String, ApiError>>),
}

/// The `Authorization` value carried for a bearer token: `Bearer `
/// followed by the token.
pub open spec fn bearer_value(key: Seq<char>) -> Seq<char> {
    "Bearer "@ + key
}

/// The headers of every request: `Content-Type: application/json`
/// always, and `Authorization: Bearer <key>` exactly when a key is
/// present. No other header is ever attached.
pub open spec fn request_header_seq(key: Option<Seq<char>>) -> Seq<(Seq<char>, Seq<char>)> {
    let base = seq![("Content-Type"@, "application/json"@)];
    match key {
        None => base,
        Some(k) => base.push(("Authorization"@, bearer_value(k))),
    }
}

/// The mathematical value of a header list.
pub open spec fn headers_view(hs: Seq<(String, String)>) -> Seq<(Seq<char>, Seq<char>)> {
    hs.map_values(|p: (String, String)| (p.0@, p.1@))
}

impl ApiClient {
    /// Builds a client for the given endpoint, keeping both fields as
    /// given.
    pub fn new(api_url: String, api_key: Option<String>) -> (c: Self)
        ensures
            c.api_url@ == api_url@,
            c.api_key.deep_view() == api_key.deep_view(),
    {
        Self { api_url, api_key }
    }

    /// The header list this client attaches to a request, as
    /// [`request_header_seq`] states it.
    pub fn request_headers(&self) -> (hs: Vec<(String, String)>)
        ensures
            headers_view(hs@) == request_header_seq(self.api_key.deep_view()),
    {
        let mut hs: Vec<(String, String)> = Vec::new();
        hs.push(("Content-Type".to_owned(), "application/json".to_owned()));
        match &self.api_key {
            Some(key) => {
                let value = "Bearer ".to_owned().concat(key.as_str());
                hs.push(("Authorization".to_owned(), value));
                proof {
                    assert(headers_view(hs@) =~= request_header_seq(self.api_key.deep_view()));
                }
            },
            None => {
                proof {
                    assert(headers_view(hs@) =~= request_header_seq(self.api_key.deep_view()));
                }
            },
        }
        hs
    }
}

/// Law: without a key no `Authorization` header is sent, and with a key
/// the header `Authorization: Bearer <key>` is sent exactly once — it
/// stands at the one position past the lone `Content-Type` header.
pub proof fn lemma_authorization_header_exactly_once(key: Option<Seq<char>>)
    ensures
        request_header_seq(key).len() == if key is Some {
            2int
        } else {
            1int
        },
        request_header_seq(key)[0].0 != "Authorization"@,
        key matches Some(k) ==> request_header_seq(key)[1] == ("Authorization"@, bearer_value(k)),
{
    reveal_strlit("Content-Type");
    reveal_strlit("Authorization");
    assert("Content-Type"@.len() == 12);
    assert("Authorization"@.len() == 13);
}

/// How one transport item turns into one element of the streamed
/// response: chunk bytes decode to text when they are valid UTF-8 and
/// to a decode error otherwise, and a transport failure is passed on
/// with its message.
pub open spec fn chunk_element_ok(ev: ChunkEventView, elem: Result<String, ApiError>) -> bool {
    match ev {
        ChunkEventView::Bytes(b) => {
            if valid_utf8(b) {
                elem matches Ok(s) && s@ == decode_utf8(b)
            } else {
                elem matches Err(e) && e is InvalidUtf8
            }
        },
        ChunkEventView::TransportFailed(m) => (elem matches Err(e) && e matches
            ApiError::Transport(mm) && mm@ == m),
    }
}

/// Turns one item of a chunked transfer into the element the streamed
/// response yields for it. An error element stands for itself alone:
/// consumption may go on past it.
pub fn process_chunk(event: &ChunkEvent) -> (r: Result<String, ApiError>)
    ensures
        chunk_element_ok(event@, r),
{
    match event {
        ChunkEvent::Bytes(b) => {
            match decode_chunk(b) {
                Some(s) => Ok(s),
                None => Err(ApiError::InvalidUtf8),
            }
        },
        ChunkEvent::TransportFailed(m) => Err(ApiError::Transport(m.clone())),
    }
}

/// Builds the streamed response for a whole chunked transfer: one
/// element per transport item, in transport order, each as
/// [`chunk_element_ok`] states it.
pub fn stream_response(events: &Vec<ChunkEvent>) -> (r: Response)
    ensures
        (r matches Response::Stream(elems) && elems@.len() == events@.len() && (forall|i: int|
            0 <= i < events@.len() ==> chunk_element_ok(events@[i]@, #[trigger] elems@[i]))),
{
    let mut elems: Vec<Result<String, ApiError>> = Vec::new();
    let n = events.len();
    let mut i: usize = 0;
    while i < n
        invariant
            i <= n,
            n == events@.len(),
            elems@.len() == i,
            forall|j: int| 0 <= j < i ==> chunk_element_ok(events@[j]@, #[trigger] elems@[j]),
        decreases n - i,
    {
        elems.push(process_chunk(&events[i]));
        i = i + 1;
    }
    Response::Stream(elems)
}

/// Builds the response for a non-streaming request from the raw bytes
/// of the full body. The HTTP status code is not an input: a failure
/// status yields its body as text exactly like a success.
pub fn text_response(body: &Vec<u8>) -> (r: Result<Response, ApiError>)
    ensures
        r is Ok <==> valid_utf8(body@),
        r matches Ok(resp) ==> resp matches Response::Text(s) && s@ == decode_utf8(body@),
        r matches Err(e) ==> e is InvalidUtf8,
{
    match decode_chunk(body) {
        Some(s) => Ok(Response::Text(s)),
        None => Err(ApiError::InvalidUtf8),
    }
}

/// Law: when every chunk of a transfer is valid UTF-8, the streamed
/// response yields exactly one successful element per chunk, in
/// transport order, each equal to its chunk decoded.
pub proof fn lemma_stream_all_chunks_valid(
    events: Seq<ChunkEventView>,
    elems: Seq<Result<String, ApiError>>,
)
    requires
        elems.len() == events.len(),
        forall|i: int| 0 <= i < events.len() ==> chunk_element_ok(#[trigger] events[i], elems[i]),
        forall|i: int|
            0 <= i < events.len() ==> ((#[trigger] events[i]) matches ChunkEventView::Bytes(b)
                && valid_utf8(b)),
    ensures
        forall|i: int|
            0 <= i < elems.len() ==> ((#[trigger] elems[i]) matches Ok(s) && s@ == decode_utf8(
                events[i]->Bytes_0,
            )),
{
}

/// Law: a chunk that is not valid UTF-8 — such as one cut off in the
/// middle of a multi-byte encoding — yields a decode-error element at
/// its own position, and every other chunk still yields its own
/// element: the error does not end the sequence.
pub proof fn lemma_stream_decode_error_isolated(
    events: Seq<ChunkEventView>,
    elems: Seq<Result<String, ApiError>>,
    i: int,
)
    requires
        elems.len() == events.len(),
        forall|j: int| 0 <= j < events.len() ==> chunk_element_ok(#[trigger] events[j], elems[j]),
        0 <= i < events.len(),
        events[i] matches ChunkEventView::Bytes(b) && !valid_utf8(b),
    ensures
        elems[i] matches Err(e) && e is InvalidUtf8,
        forall|j: int|
            0 <= j < events.len() && j != i && ((#[trigger] events[j]) matches
                ChunkEventView::Bytes(b) && valid_utf8(b)) ==> (elems[j] matches Ok(s) && s@
                == decode_utf8(events[j]->Bytes_0)),
{
}

} // verus!
