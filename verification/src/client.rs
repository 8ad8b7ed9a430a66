//! The HTTP exchange with the museum: which requests are sent, and what the
//! answers mean. Sending is left to the caller.

use crate::doc::{opt_text, Doc, DocTree};
use crate::json::{parse_json, parsed_json, Json, JsonTree};
use crate::text::{before_char, decimal, first_piece, joined, trim_end, trim_end_of, u64_text};
use vstd::prelude::*;

verus! {

pub const CLIENT_PACKAGE: &'static str = "io.ente.photos";

// ---------------------------------- errors ---------------------------------

#[derive(Debug)]
pub enum EnteApiError {
    /// The museum answered with a status that is no success.
    Status(u16, String),
    /// The museum could not be reached.
    Transport(String),
    /// The answer is not what was expected.
    Decode(String),
}

/// The mathematical counterpart of `EnteApiError`.
pub enum ApiFault {
    Status(u16, Seq<char>),
    Transport(Seq<char>),
    Decode(Seq<char>),
}

impl View for EnteApiError {
    type V = ApiFault;

    open spec fn view(&self) -> ApiFault {
        match self {
            EnteApiError::Status(code, m) => ApiFault::Status(*code, m@),
            EnteApiError::Transport(m) => ApiFault::Transport(m@),
            EnteApiError::Decode(m) => ApiFault::Decode(m@),
        }
    }
}

impl ApiFault {
    /// The HTTP status that the fault amounts to.
    pub open spec fn code(self) -> u16 {
        match self {
            ApiFault::Status(code, _) => code,
            _ => 502,
        }
    }

    /// The fault in words.
    pub open spec fn words(self) -> Seq<char> {
        match self {
            ApiFault::Status(code, m) => "museum returned "@ + decimal(code as int) + ": "@ + m,
            ApiFault::Transport(m) => "cannot reach museum instance: "@ + m,
            ApiFault::Decode(m) => "unexpected response: "@ + m,
        }
    }
}

impl EnteApiError {
    pub fn status_code(&self) -> (r: u16)
        ensures
            r == self@.code(),
    {
        match self {
            EnteApiError::Status(code, _) => *code,
            EnteApiError::Transport(_) => 502,
            EnteApiError::Decode(_) => 502,
        }
    }

    /// The error in words.
    pub fn message(&self) -> (r: String)
        ensures
            r@ == self@.words(),
    {
        match self {
            EnteApiError::Status(code, m) => {
                let number = u64_text(*code as u64);
                let start = joined("museum returned ", number.as_str());
                joined(joined(start.as_str(), ": ").as_str(), m.as_str())
            },
            EnteApiError::Transport(m) => joined("cannot reach museum instance: ", m.as_str()),
            EnteApiError::Decode(m) => joined("unexpected response: ", m.as_str()),
        }
    }
}

// --------------------------------- requests --------------------------------

#[derive(Debug, Clone, Copy, PartialEq, Eq, Structural)]
pub enum Method {
    Get,
    Post,
}

/// Where a request goes.
#[derive(Debug, Clone, Copy, PartialEq, Eq, Structural)]
pub enum Peer {
    /// The museum. Redirects are not followed, so that the auth token does not
    /// reach the storage backend.
    Museum,
    /// The storage backend. Redirects are followed.
    Storage,
}

/// A request to be sent.
pub struct HttpRequest {
    pub peer: Peer,
    pub method: Method,
    pub url: String,
    pub query: Vec<(String, String)>,
    pub headers: Vec<(String, String)>,
    pub body: Option<Doc>,
}

/// The mathematical counterpart of `HttpRequest`.
#[verifier::ext_equal]
pub struct RequestView {
    pub peer: Peer,
    pub method: Method,
    pub url: Seq<char>,
    pub query: Seq<(Seq<char>, Seq<char>)>,
    pub headers: Seq<(Seq<char>, Seq<char>)>,
    pub body: Option<DocTree>,
}

/// What a list of pairs of strings holds.
pub open spec fn pairs(items: Seq<(String, String)>) -> Seq<(Seq<char>, Seq<char>)> {
    items.map_values(|p: (String, String)| (p.0@, p.1@))
}

impl View for HttpRequest {
    type V = RequestView;

    open spec fn view(&self) -> RequestView {
        RequestView {
            peer: self.peer,
            method: self.method,
            url: self.url@,
            query: pairs(self.query@),
            headers: pairs(self.headers@),
            body: match self.body {
                Some(d) => Some(d@),
                None => None,
            },
        }
    }
}

/// Adds a pair.
pub fn push_pair(items: &mut Vec<(String, String)>, key: &str, value: &str)
    ensures
        pairs(final(items)@) == pairs(old(items)@).push((key@, value@)),
{
    let ghost before = items@;
    items.push((key.to_owned(), value.to_owned()));
    assert(pairs(items@) =~= pairs(before).push((key@, value@)));
}

/// Wraps a single self-hosted museum instance.
pub struct MuseumClient {
    base_url: String,
    timeout: u64,
    token: Option<String>,
}

/// The mathematical counterpart of `MuseumClient`.
#[verifier::ext_equal]
pub struct ClientView {
    pub base_url: Seq<char>,
    pub timeout: u64,
    pub token: Option<Seq<char>>,
}

impl View for MuseumClient {
    type V = ClientView;

    closed spec fn view(&self) -> ClientView {
        ClientView {
            base_url: self.base_url@,
            timeout: self.timeout,
            token: opt_text(self.token),
        }
    }
}

impl ClientView {
    /// The headers of every request to the museum.
    pub open spec fn headers(self) -> Seq<(Seq<char>, Seq<char>)> {
        let always = seq![
            ("X-Client-Package"@, CLIENT_PACKAGE@),
            ("Accept"@, "application/json"@),
        ];
        match self.token {
            Some(token) => always.push(("X-Auth-Token"@, token)),
            None => always,
        }
    }

    /// A GET of an API path with query parameters.
    pub open spec fn get(self, path: Seq<char>, params: Seq<(Seq<char>, Seq<char>)>) -> RequestView {
        RequestView {
            peer: Peer::Museum,
            method: Method::Get,
            url: self.base_url + path,
            query: params,
            headers: self.headers(),
            body: None,
        }
    }

    /// A POST of a JSON document to an API path.
    pub open spec fn post(self, path: Seq<char>, body: DocTree) -> RequestView {
        RequestView {
            peer: Peer::Museum,
            method: Method::Post,
            url: self.base_url + path,
            query: Seq::empty(),
            headers: self.headers(),
            body: Some(body),
        }
    }

    /// A GET of a blob by its URL.
    pub open spec fn get_blob(self, url: Seq<char>) -> RequestView {
        RequestView {
            peer: Peer::Museum,
            method: Method::Get,
            url,
            query: Seq::empty(),
            headers: self.headers(),
            body: None,
        }
    }
}

/// A GET of a blob that the museum redirected to the storage backend.
pub open spec fn storage_get(location: Seq<char>) -> RequestView {
    RequestView {
        peer: Peer::Storage,
        method: Method::Get,
        url: location,
        query: Seq::empty(),
        headers: Seq::empty(),
        body: None,
    }
}

// --------------------------------- answers ---------------------------------

/// An answer to a request. The text is read where the status is no success, the
/// bytes where it is one.
pub struct Reply {
    pub status: u16,
    /// The `Location` header, where it is text.
    pub location: Option<String>,
    pub text: String,
    /// The body, or why it could not be read.
    pub bytes: Result<Vec<u8>, String>,
}

/// The mathematical counterpart of `Reply`.
pub struct ReplyView {
    pub status: u16,
    pub location: Option<Seq<char>>,
    pub text: Seq<char>,
    pub bytes: Result<Seq<u8>, Seq<char>>,
}

impl View for Reply {
    type V = ReplyView;

    open spec fn view(&self) -> ReplyView {
        ReplyView {
            status: self.status,
            location: opt_text(self.location),
            text: self.text@,
            bytes: read_outcome(self.bytes),
        }
    }
}

/// What came of reading a body.
pub open spec fn read_outcome(r: Result<Vec<u8>, String>) -> Result<Seq<u8>, Seq<char>> {
    match r {
        Ok(b) => Ok(b@),
        Err(e) => Err(e@),
    }
}

/// What came of sending a request: an answer, or why there is none.
pub open spec fn sent_view(sent: Result<Reply, String>) -> Result<ReplyView, Seq<char>> {
    match sent {
        Ok(reply) => Ok(reply@),
        Err(e) => Err(e@),
    }
}

/// Statuses 200 to 299.
pub open spec fn success(status: u16) -> bool {
    200 <= status < 300
}

/// Statuses 300 to 399.
pub open spec fn redirection(status: u16) -> bool {
    300 <= status < 400
}

pub fn is_success(status: u16) -> (r: bool)
    ensures
        r == success(status),
{
    200 <= status && status < 300
}

pub fn is_redirection(status: u16) -> (r: bool)
    ensures
        r == redirection(status),
{
    300 <= status && status < 400
}

/// What an API call gives its caller.
pub open spec fn api_outcome(r: Result<Json, EnteApiError>) -> Result<JsonTree, ApiFault> {
    match r {
        Ok(v) => Ok(v@),
        Err(e) => Err(e@),
    }
}

/// The JSON document in the answer to an API call.
pub open spec fn json_answer(sent: Result<ReplyView, Seq<char>>) -> Result<JsonTree, ApiFault> {
    match sent {
        Err(e) => Err(ApiFault::Transport(e)),
        Ok(reply) => if !success(reply.status) {
            Err(ApiFault::Status(reply.status, reply.text))
        } else {
            match reply.bytes {
                Err(e) => Err(ApiFault::Decode(e)),
                Ok(bytes) => match parsed_json(bytes) {
                    Some(tree) => Ok(tree),
                    None => Err(ApiFault::Decode("error decoding response body"@)),
                },
            }
        },
    }
}

/// The outcome of an API call whose answer has no content.
pub open spec fn empty_answer(sent: Result<ReplyView, Seq<char>>) -> Result<(), ApiFault> {
    match sent {
        Err(e) => Err(ApiFault::Transport(e)),
        Ok(reply) => if !success(reply.status) {
            Err(ApiFault::Status(reply.status, reply.text))
        } else {
            Ok(())
        },
    }
}

/// What to do on an answer to a blob request.
pub enum BlobStep {
    /// Send this request next.
    Ask(HttpRequest, String),
    /// The body of the answer is the blob.
    Open,
    Failed(EnteApiError),
}

/// The mathematical counterpart of `BlobStep`.
pub enum BlobStepView {
    Ask(RequestView, Seq<char>),
    Open,
    Failed(ApiFault),
}

impl View for BlobStep {
    type V = BlobStepView;

    open spec fn view(&self) -> BlobStepView {
        match self {
            BlobStep::Ask(request, location) => BlobStepView::Ask(request@, location@),
            BlobStep::Open => BlobStepView::Open,
            BlobStep::Failed(e) => BlobStepView::Failed(e@),
        }
    }
}

/// What the museum's answer to a blob request asks for.
pub open spec fn museum_blob_step(sent: Result<ReplyView, Seq<char>>) -> BlobStepView {
    match sent {
        Err(e) => BlobStepView::Failed(
            ApiFault::Transport("cannot reach museum instance: "@ + e),
        ),
        Ok(reply) => if redirection(reply.status) {
            match reply.location {
                None => BlobStepView::Failed(
                    ApiFault::Status(502, "museum redirect missing Location header"@),
                ),
                Some(location) => BlobStepView::Ask(storage_get(location), location),
            }
        } else if success(reply.status) {
            BlobStepView::Open
        } else {
            BlobStepView::Failed(ApiFault::Status(reply.status, reply.text))
        },
    }
}

/// What is said of a request that the storage backend refused. Presigned URLs
/// carry credentials in the query string, which is left out.
pub open spec fn storage_refusal(location: Seq<char>, text: Seq<char>) -> Seq<char> {
    "storage backend rejected request ("@ + before_char(location, '?') + "): "@ + text
}

/// What the storage backend's answer to a blob request asks for.
pub open spec fn storage_blob_step(
    location: Seq<char>,
    sent: Result<ReplyView, Seq<char>>,
) -> BlobStepView {
    match sent {
        Err(e) => BlobStepView::Failed(ApiFault::Transport("cannot reach file storage: "@ + e)),
        Ok(reply) => if success(reply.status) {
            BlobStepView::Open
        } else {
            BlobStepView::Failed(
                ApiFault::Status(reply.status, storage_refusal(location, reply.text)),
            )
        },
    }
}

impl MuseumClient {
    pub fn new(base_url: &str, timeout: u64, token: Option<String>) -> (r: MuseumClient)
        ensures
            r@ == (ClientView {
                base_url: trim_end_of(base_url@, '/'),
                timeout,
                token: opt_text(token),
            }),
    {
        MuseumClient { base_url: trim_end(base_url, '/'), timeout, token }
    }

    /// How long to wait for the museum, in seconds.
    pub fn timeout(&self) -> (r: u64)
        ensures
            r == self@.timeout,
    {
        self.timeout
    }

    fn url(&self, path: &str) -> (r: String)
        ensures
            r@ == self@.base_url + path@,
    {
        joined(self.base_url.as_str(), path)
    }

    fn headers(&self) -> (r: Vec<(String, String)>)
        ensures
            pairs(r@) == self@.headers(),
    {
        let mut headers: Vec<(String, String)> = Vec::new();
        assert(pairs(headers@) =~= Seq::empty());
        push_pair(&mut headers, "X-Client-Package", CLIENT_PACKAGE);
        push_pair(&mut headers, "Accept", "application/json");
        if let Some(token) = &self.token {
            push_pair(&mut headers, "X-Auth-Token", token.as_str());
        }
        assert(pairs(headers@) =~= self@.headers());
        headers
    }

    /// A GET of the API path `path`.
    pub fn get(&self, path: &str, params: Vec<(String, String)>) -> (r: HttpRequest)
        ensures
            r@ == self@.get(path@, pairs(params@)),
    {
        HttpRequest {
            peer: Peer::Museum,
            method: Method::Get,
            url: self.url(path),
            query: params,
            headers: self.headers(),
            body: None,
        }
    }

    /// A POST to the API path `path`.
    pub fn post(&self, path: &str, body: Doc) -> (r: HttpRequest)
        ensures
            r@ == self@.post(path@, body@),
    {
        let query: Vec<(String, String)> = Vec::new();
        assert(pairs(query@) =~= Seq::empty());
        HttpRequest {
            peer: Peer::Museum,
            method: Method::Post,
            url: self.url(path),
            query,
            headers: self.headers(),
            body: Some(body),
        }
    }

    /// The document in the answer to a `get` or a `post`.
    pub fn json(sent: &Result<Reply, String>) -> (r: Result<Json, EnteApiError>)
        ensures
            api_outcome(r) == json_answer(sent_view(*sent)),
    {
        match sent {
            Err(e) => Err(EnteApiError::Transport(e.clone())),
            Ok(reply) => {
                if !is_success(reply.status) {
                    return Err(EnteApiError::Status(reply.status, reply.text.clone()));
                }
                match &reply.bytes {
                    Err(e) => Err(EnteApiError::Decode(e.clone())),
                    Ok(bytes) => match parse_json(bytes.as_slice()) {
                        Some(v) => Ok(v),
                        None => Err(
                            EnteApiError::Decode("error decoding response body".to_owned()),
                        ),
                    },
                }
            },
        }
    }

    /// The outcome of a `post` whose answer has no content.
    pub fn post_no_content(sent: &Result<Reply, String>) -> (r: Result<(), EnteApiError>)
        ensures
            (match r {
                Ok(_) => Ok::<(), ApiFault>(()),
                Err(e) => Err::<(), ApiFault>(e@),
            }) == empty_answer(sent_view(*sent)),
    {
        match sent {
            Err(e) => Err(EnteApiError::Transport(e.clone())),
            Ok(reply) => if is_success(reply.status) {
                Ok(())
            } else {
                Err(EnteApiError::Status(reply.status, reply.text.clone()))
            },
        }
    }

    /// A GET of a blob by its URL.
    pub fn get_stream(&self, url: &str) -> (r: HttpRequest)
        ensures
            r@ == self@.get_blob(url@),
    {
        let query: Vec<(String, String)> = Vec::new();
        assert(pairs(query@) =~= Seq::empty());
        HttpRequest {
            peer: Peer::Museum,
            method: Method::Get,
            url: url.to_owned(),
            query,
            headers: self.headers(),
            body: None,
        }
    }

    /// What to do on the museum's answer to `get_stream`. A redirect leads to
    /// the storage backend, which is asked without the auth token.
    pub fn stream_from_museum(sent: &Result<Reply, String>) -> (r: BlobStep)
        ensures
            r@ == museum_blob_step(sent_view(*sent)),
    {
        match sent {
            Err(e) => BlobStep::Failed(
                EnteApiError::Transport(joined("cannot reach museum instance: ", e.as_str())),
            ),
            Ok(reply) => if is_redirection(reply.status) {
                match &reply.location {
                    None => BlobStep::Failed(
                        EnteApiError::Status(
                            502,
                            "museum redirect missing Location header".to_owned(),
                        ),
                    ),
                    Some(location) => {
                        let query: Vec<(String, String)> = Vec::new();
                        let headers: Vec<(String, String)> = Vec::new();
                        assert(pairs(query@) =~= Seq::empty());
                        assert(pairs(headers@) =~= Seq::empty());
                        BlobStep::Ask(
                            HttpRequest {
                                peer: Peer::Storage,
                                method: Method::Get,
                                url: location.clone(),
                                query,
                                headers,
                                body: None,
                            },
                            location.clone(),
                        )
                    },
                }
            } else if is_success(reply.status) {
                BlobStep::Open
            } else {
                BlobStep::Failed(EnteApiError::Status(reply.status, reply.text.clone()))
            },
        }
    }

    /// What to do on the storage backend's answer.
    pub fn stream_from_storage(location: &str, sent: &Result<Reply, String>) -> (r: BlobStep)
        ensures
            r@ == storage_blob_step(location@, sent_view(*sent)),
    {
        match sent {
            Err(e) => BlobStep::Failed(
                EnteApiError::Transport(joined("cannot reach file storage: ", e.as_str())),
            ),
            Ok(reply) => if is_success(reply.status) {
                BlobStep::Open
            } else {
                let safe_url = first_piece(location, '?');
                let start = joined("storage backend rejected request (", safe_url.as_str());
                let text = joined(joined(start.as_str(), "): ").as_str(), reply.text.as_str());
                BlobStep::Failed(EnteApiError::Status(reply.status, text))
            },
        }
    }

    /// The bytes of a blob whose answer was opened.
    pub fn get_bytes(body: Result<Vec<u8>, String>) -> (r: Result<Vec<u8>, EnteApiError>)
        ensures
            match (body, r) {
                (Ok(bytes), Ok(out)) => out@ == bytes@,
                (Err(e), Err(fault)) => fault@ == ApiFault::Transport(e@),
                _ => false,
            },
    {
        match body {
            Ok(bytes) => Ok(bytes),
            Err(e) => Err(EnteApiError::Transport(e)),
        }
    }
}

// ----------------------------------- laws ----------------------------------

/// The auth token stays with the museum: whatever the museum answers, the
/// request that follows to the storage backend carries no header, no query and
/// no body.
pub proof fn token_stays_with_museum(sent: Result<ReplyView, Seq<char>>)
    ensures
        museum_blob_step(sent) matches BlobStepView::Ask(request, location) ==> {
            &&& request.peer == Peer::Storage
            &&& request.url == location
            &&& request.headers.len() == 0
            &&& request.query.len() == 0
            &&& request.body is None
        },
{
}

/// What is shown of a presigned URL does not depend on its query string: two
/// URLs that differ only behind the first question mark give the same message.
pub proof fn query_is_not_shown(url: Seq<char>, query: Seq<char>, text: Seq<char>)
    requires
        !url.contains('?'),
    ensures
        storage_refusal(url + seq!['?'] + query, text) == storage_refusal(url, text),
{
    before_char_of_plain(url, query);
}

proof fn before_char_of_plain(url: Seq<char>, query: Seq<char>)
    requires
        !url.contains('?'),
    ensures
        before_char(url + seq!['?'] + query, '?') == url,
        before_char(url, '?') == url,
    decreases url.len(),
{
    let whole = url + seq!['?'] + query;
    if url.len() == 0 {
        assert(whole[0] == '?');
        assert(url =~= Seq::empty());
    } else {
        let rest = url.drop_first();
        assert(url[0] != '?') by {
            assert(url.contains(url[0]));
        }
        assert(!rest.contains('?')) by {
            if rest.contains('?') {
                let i = choose|i: int| 0 <= i < rest.len() && rest[i] == '?';
                assert(url[i + 1] == '?');
                assert(url.contains('?'));
            }
        }
        before_char_of_plain(rest, query);
        assert(whole.drop_first() =~= rest + seq!['?'] + query);
        assert(seq![url[0]] + rest =~= url);
    }
}

} // verus!
