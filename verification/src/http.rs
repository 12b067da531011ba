//! The web server's side of HTTP: taking in a request, deciding what it asks for, and
//! wording the replies.
use vstd::prelude::*;

use crate::buffer::{as_str, new_16, new_32, new_4096, put_str, TextBuffer};
use crate::text::usize_to_str;
use crate::websocket::websocket_accept_key;

verus! {

/// `heapless::Vec<T, N>`: a vector of at most `N` items.
#[verifier::external_type_specification]
#[verifier::external_body]
#[verifier::reject_recursive_types(T)]
pub struct ExBoundedVec<T, const N: usize>(heapless::Vec<T, N>);

/// The bytes that a `heapless::Vec` of 1024 bytes holds.
pub uninterp spec fn held_bytes(data: heapless::Vec<u8, 1024>) -> Seq<u8>;

/// Calls `heapless::Vec::new`: the new vector is empty.
#[verifier::external_body]
fn new_bytes() -> (data: heapless::Vec<u8, 1024>)
    ensures
        held_bytes(data) == Seq::<u8>::empty(),
{
    heapless::Vec::new()
}

/// Calls `heapless::Vec::extend_from_slice`: appends `more` if it fits, and otherwise
/// fails and leaves the vector as it was.
#[verifier::external_body]
fn append_bytes(data: &mut heapless::Vec<u8, 1024>, more: &[u8]) -> (appended: Result<(), ()>)
    requires
        held_bytes(*old(data)).len() + more@.len() <= usize::MAX,
    ensures
        appended is Ok <==> held_bytes(*old(data)).len() + more@.len() <= 1024,
        appended is Ok ==> held_bytes(*final(data)) == held_bytes(*old(data)) + more@,
        appended is Err ==> held_bytes(*final(data)) == held_bytes(*old(data)),
{
    data.extend_from_slice(more)
}

/// Calls `heapless::Vec::as_slice`: the bytes held, of which there are at most 1024.
#[verifier::external_body]
fn bytes_of(data: &heapless::Vec<u8, 1024>) -> (bytes: &[u8])
    ensures
        bytes@ == held_bytes(*data),
        bytes@.len() <= 1024,
{
    data.as_slice()
}

/// How far the reading of a request has come.
#[derive(Clone, Copy, Debug, PartialEq, Eq, Structural)]
pub enum ReadStep {
    /// More is to come.
    More,
    /// The blank line that ends the request has come.
    Complete,
    /// The client sent nothing more.
    Ended,
    /// The request does not fit.
    TooLarge,
}

/// A request that is being read.
pub struct RequestReader {
    pub data: heapless::Vec<u8, 1024>,
}

/// The bytes end with a blank line.
pub open spec fn ends_request(data: Seq<u8>) -> bool {
    let len = data.len() as int;
    &&& len >= 4
    &&& data[len - 4] == 13
    &&& data[len - 3] == 10
    &&& data[len - 2] == 13
    &&& data[len - 1] == 10
}

/// What becomes of a request of which `data` has come when `chunk` comes next.
pub open spec fn read_step(data: Seq<u8>, chunk: Seq<u8>) -> ReadStep {
    if chunk.len() == 0 {
        ReadStep::Ended
    } else if data.len() + chunk.len() > 1024 {
        ReadStep::TooLarge
    } else if ends_request(data + chunk) {
        ReadStep::Complete
    } else {
        ReadStep::More
    }
}

impl RequestReader {
    /// What has come of the request.
    pub open spec fn bytes(self) -> Seq<u8> {
        held_bytes(self.data)
    }

    /// A request of which nothing has come yet.
    pub fn new() -> (reader: Self)
        ensures
            reader.bytes() == Seq::<u8>::empty(),
    {
        RequestReader { data: new_bytes() }
    }

    /// What has come of the request.
    pub fn received(&self) -> (bytes: &[u8])
        ensures
            bytes@ == self.bytes(),
            bytes@.len() <= 1024,
    {
        bytes_of(&self.data)
    }

    /// Takes in what was read next; an empty chunk is the end of the connection.
    pub fn receive(&mut self, chunk: &[u8]) -> (step: ReadStep)
        ensures
            step == read_step(old(self).bytes(), chunk@),
            final(self).bytes() == if step == ReadStep::TooLarge {
                old(self).bytes()
            } else {
                old(self).bytes() + chunk@
            },
    {
        if chunk.len() == 0 {
            assert(self.bytes() + chunk@ =~= self.bytes());
            return ReadStep::Ended;
        }
        let room: usize = 1024 - self.received().len();
        if chunk.len() > room || append_bytes(&mut self.data, chunk).is_err() {
            return ReadStep::TooLarge;
        }
        let bytes = bytes_of(&self.data);
        let len: usize = bytes.len();
        if len >= 4 && bytes[len - 4] == 13 && bytes[len - 3] == 10 && bytes[len - 2] == 13
            && bytes[len - 1] == 10 {
            ReadStep::Complete
        } else {
            ReadStep::More
        }
    }
}

/// A header of a request.
#[derive(Debug)]
pub struct Header {
    pub name: String,
    pub value: Vec<u8>,
}

/// The parsed front of a request.
#[derive(Debug)]
pub struct RequestHead {
    pub method: Option<String>,
    pub path: Option<String>,
    pub headers: Vec<Header>,
}

/// The name and the value of a header.
pub struct HeaderModel {
    pub name: Seq<char>,
    pub value: Seq<u8>,
}

/// What the front of a request says.
pub struct HeadModel {
    pub method: Option<Seq<char>>,
    pub path: Option<Seq<char>>,
    pub headers: Seq<HeaderModel>,
}

/// The characters of a string that may be absent.
pub open spec fn chars_of(s: Option<String>) -> Option<Seq<char>> {
    match s {
        Some(s) => Some(s@),
        None => None,
    }
}

impl Header {
    /// The name and the value of this header.
    pub open spec fn model(self) -> HeaderModel {
        HeaderModel { name: self.name@, value: self.value@ }
    }
}

/// The names and the values of some headers.
pub open spec fn header_models(headers: Seq<Header>) -> Seq<HeaderModel> {
    Seq::new(headers.len(), |i: int| headers[i].model())
}

impl RequestHead {
    /// What this head says.
    pub open spec fn model(self) -> HeadModel {
        HeadModel {
            method: chars_of(self.method),
            path: chars_of(self.path),
            headers: header_models(self.headers@),
        }
    }
}

/// What a head says, if there is one.
pub open spec fn head_model(head: Option<RequestHead>) -> Option<HeadModel> {
    match head {
        Some(head) => Some(head.model()),
        None => None,
    }
}

/// What `httparse` makes of the front of a request with up to sixteen headers; none
/// where it finds the request malformed or cut short.
pub uninterp spec fn parsed_head(data: Seq<u8>) -> Option<HeadModel>;

/// Calls `httparse::Request::parse` with room for sixteen headers. The outcome depends on
/// `data` alone, and a head that was parsed has a method and a path; the rest of the
/// grammar of HTTP is left to the crate.
#[verifier::external_body]
fn parse_head(data: &[u8]) -> (head: Option<RequestHead>)
    ensures
        head_model(head) == parsed_head(data@),
        head matches Some(h) ==> h.method is Some && h.path is Some,
{
    let mut slots = [httparse::EMPTY_HEADER; 16];
    let mut request = httparse::Request::new(&mut slots);
    match request.parse(data) {
        Ok(httparse::Status::Complete(_)) => Some(RequestHead {
            method: request.method.map(String::from),
            path: request.path.map(String::from),
            headers: request.headers.iter().map(
                |h| Header { name: String::from(h.name), value: h.value.to_vec() },
            ).collect(),
        }),
        Ok(httparse::Status::Partial) => None,
        Err(_) => None,
    }
}

/// An ASCII letter in lower case; any other byte as it is.
pub open spec fn lower(b: u8) -> u8 {
    if 65 <= b <= 90 {
        (b + 32) as u8
    } else {
        b
    }
}

/// The same bytes but for the case of ASCII letters.
pub open spec fn same_ignoring_case(a: Seq<u8>, b: Seq<u8>) -> bool {
    a.len() == b.len() && forall|i: int| 0 <= i < a.len() ==> lower(#[trigger] a[i]) == lower(b[i])
}

/// The header is called `name` and its value is text.
pub open spec fn is_text_header(header: HeaderModel, name: Seq<char>) -> bool {
    same_ignoring_case(vstd::utf8::encode_utf8(header.name), vstd::utf8::encode_utf8(name))
        && vstd::utf8::valid_utf8(header.value)
}

/// The value of the first header that is called `name` and whose value is text.
pub open spec fn header_text(headers: Seq<HeaderModel>, name: Seq<char>) -> Option<Seq<u8>>
    decreases headers.len(),
{
    if headers.len() == 0 {
        None
    } else if is_text_header(headers[0], name) {
        Some(headers[0].value)
    } else {
        header_text(headers.skip(1), name)
    }
}

/// An ASCII letter in lower case; any other byte as it is.
fn to_lower(b: u8) -> (c: u8)
    ensures
        c == lower(b),
{
    if b >= 65 && b <= 90 {
        b + 32
    } else {
        b
    }
}

/// Whether two names differ at most in the case of ASCII letters.
fn same_name(a: &str, b: &str) -> (same: bool)
    ensures
        same == same_ignoring_case(vstd::utf8::encode_utf8(a@), vstd::utf8::encode_utf8(b@)),
{
    let x = a.as_bytes();
    let y = b.as_bytes();
    if x.len() != y.len() {
        return false;
    }
    let mut i: usize = 0;
    while i < x.len()
        invariant
            i <= x@.len() == y@.len(),
            x@ == vstd::utf8::encode_utf8(a@),
            y@ == vstd::utf8::encode_utf8(b@),
            forall|k: int| 0 <= k < i ==> lower(#[trigger] x@[k]) == lower(y@[k]),
        decreases x@.len() - i,
    {
        if to_lower(x[i]) != to_lower(y[i]) {
            return false;
        }
        i = i + 1;
    }
    true
}

/// The value of the first header that is called `name`, in upper or lower case, and
/// whose value is text.
pub fn find_header_value<'a>(headers: &'a [Header], name: &str) -> (value: Option<&'a str>)
    ensures
        value is Some <==> header_text(header_models(headers@), name@) is Some,
        value matches Some(text) ==> header_text(header_models(headers@), name@) == Some(
            vstd::utf8::encode_utf8(text@),
        ),
{
    let ghost models = header_models(headers@);
    let mut i: usize = 0;
    assert(models.skip(0) =~= models);
    while i < headers.len()
        invariant
            i <= headers@.len(),
            models == header_models(headers@),
            header_text(models.skip(i as int), name@) == header_text(models, name@),
        decreases headers@.len() - i,
    {
        let header = &headers[i];
        assert(models.skip(i as int)[0] == header.model());
        assert(models.skip(i as int).skip(1) =~= models.skip(i + 1));
        if same_name(header.name.as_str(), name) {
            if let Ok(text) = core::str::from_utf8(header.value.as_slice()) {
                return Some(text);
            }
        }
        i = i + 1;
    }
    None
}

/// What a request asks for.
#[derive(Debug)]
pub enum Route {
    /// A WebSocket connection, with the client's key.
    WebSocket(String),
    /// The web page.
    Page,
    /// The status of the racer.
    Data,
    /// Nothing that can be answered.
    BadRequest,
}

/// What a request asks for; the client's key as bytes.
pub enum RouteModel {
    WebSocket(Seq<u8>),
    Page,
    Data,
    BadRequest,
}

impl Route {
    /// What this route says.
    pub open spec fn model(self) -> RouteModel {
        match self {
            Route::WebSocket(key) => RouteModel::WebSocket(vstd::utf8::encode_utf8(key@)),
            Route::Page => RouteModel::Page,
            Route::Data => RouteModel::Data,
            Route::BadRequest => RouteModel::BadRequest,
        }
    }
}

/// The head asks for a WebSocket connection.
pub open spec fn asks_for_websocket(head: HeadModel) -> bool {
    &&& head.path == Some("/ws"@)
    &&& head.method == Some("GET"@)
    &&& header_text(head.headers, "Upgrade"@) is Some
    &&& header_text(head.headers, "Connection"@) is Some
    &&& header_text(head.headers, "Sec-WebSocket-Key"@) is Some
}

/// What a request asks for, given its parsed head.
pub open spec fn route_of(head: Option<HeadModel>) -> RouteModel {
    match head {
        Some(head) => if head.path is None {
            RouteModel::BadRequest
        } else if asks_for_websocket(head) {
            RouteModel::WebSocket(header_text(head.headers, "Sec-WebSocket-Key"@).unwrap())
        } else if head.path == Some("/data"@) {
            RouteModel::Data
        } else {
            RouteModel::Page
        },
        None => RouteModel::BadRequest,
    }
}

/// Texts with the same bytes are the same.
proof fn lemma_same_bytes_same_text(a: Seq<char>, b: Seq<char>)
    requires
        vstd::utf8::encode_utf8(a) == vstd::utf8::encode_utf8(b),
    ensures
        a == b,
{
    vstd::utf8::encode_utf8_decode_utf8(a);
    vstd::utf8::encode_utf8_decode_utf8(b);
}

/// Whether two texts are the same.
fn same_text(a: &str, b: &str) -> (same: bool)
    ensures
        same == (a@ == b@),
{
    let x = a.as_bytes();
    let y = b.as_bytes();
    if x.len() != y.len() {
        return false;
    }
    let mut i: usize = 0;
    while i < x.len()
        invariant
            i <= x@.len() == y@.len(),
            x@ == vstd::utf8::encode_utf8(a@),
            y@ == vstd::utf8::encode_utf8(b@),
            forall|k: int| 0 <= k < i ==> x@[k] == y@[k],
        decreases x@.len() - i,
    {
        if x[i] != y[i] {
            return false;
        }
        i = i + 1;
    }
    proof {
        assert(x@ =~= y@);
        lemma_same_bytes_same_text(a@, b@);
    }
    true
}

/// Decides what a request asks for, given its parsed head.
pub fn route(head: &Option<RequestHead>) -> (route: Route)
    ensures
        route.model() == route_of(head_model(*head)),
{
    let head = match head {
        Some(head) => head,
        None => {
            return Route::BadRequest;
        },
    };
    let path = match &head.path {
        Some(path) => path.as_str(),
        None => {
            return Route::BadRequest;
        },
    };
    let is_get = match &head.method {
        Some(method) => same_text(method.as_str(), "GET"),
        None => false,
    };
    let headers = head.headers.as_slice();
    if same_text(path, "/ws") && is_get && find_header_value(headers, "Upgrade").is_some()
        && find_header_value(headers, "Connection").is_some() {
        if let Some(key) = find_header_value(headers, "Sec-WebSocket-Key") {
            return Route::WebSocket(key.to_owned());
        }
    }
    if same_text(path, "/data") {
        Route::Data
    } else {
        Route::Page
    }
}

/// Decides what a request asks for, given its bytes and whether it came to its end.
pub fn route_request(data: &[u8], complete: bool) -> (chosen: Route)
    ensures
        chosen.model() == if complete {
            route_of(parsed_head(data@))
        } else {
            RouteModel::BadRequest
        },
        chosen is BadRequest <==> !complete || parsed_head(data@) is None,
{
    if complete {
        let head = parse_head(data);
        route(&head)
    } else {
        Route::BadRequest
    }
}

/// The reply that opens a WebSocket connection.
pub open spec fn handshake_text(key: Seq<u8>) -> Seq<char> {
    "HTTP/1.1 101 Switching Protocols\r\n"@ + "Upgrade: websocket\r\n"@ + "Connection: Upgrade\r\n"@
        + "Sec-WebSocket-Accept: "@ + crate::websocket::accept_key(key) + "\r\n\r\n"@
}

/// The answer to a client key is 28 bytes long.
proof fn lemma_accept_key_length(key: Seq<u8>)
    ensures
        crate::buffer::byte_len(crate::websocket::accept_key(key)) == 28,
{
    let hash = crate::sha1::digest(key + crate::websocket::guid());
    crate::websocket::lemma_encoded_is_ascii(hash);
    crate::buffer::lemma_ascii_bytes(crate::base64::encoded(hash));
}

/// The reply that opens a WebSocket connection for a client with `key`.
pub fn handshake_response(key: &str) -> (reply: heapless::String<4096>)
    requires
        vstd::utf8::encode_utf8(key@).len() <= crate::websocket::MAX_KEY,
    ensures
        reply.text() == handshake_text(vstd::utf8::encode_utf8(key@)),
{
    let mut accept = new_32();
    websocket_accept_key(key, &mut accept);
    proof {
        lemma_accept_key_length(vstd::utf8::encode_utf8(key@));
        reveal_strlit("HTTP/1.1 101 Switching Protocols\r\n");
        reveal_strlit("Upgrade: websocket\r\n");
        reveal_strlit("Connection: Upgrade\r\n");
        reveal_strlit("Sec-WebSocket-Accept: ");
        reveal_strlit("\r\n\r\n");
        crate::buffer::lemma_byte_len_ascii("HTTP/1.1 101 Switching Protocols\r\n"@);
        crate::buffer::lemma_byte_len_ascii("Upgrade: websocket\r\n"@);
        crate::buffer::lemma_byte_len_ascii("Connection: Upgrade\r\n"@);
        crate::buffer::lemma_byte_len_ascii("Sec-WebSocket-Accept: "@);
        crate::buffer::lemma_byte_len_ascii("\r\n\r\n"@);
    }
    let mut reply = new_4096();
    put_str(&mut reply, "HTTP/1.1 101 Switching Protocols\r\n");
    put_str(&mut reply, "Upgrade: websocket\r\n");
    put_str(&mut reply, "Connection: Upgrade\r\n");
    put_str(&mut reply, "Sec-WebSocket-Accept: ");
    put_str(&mut reply, as_str(&accept));
    put_str(&mut reply, "\r\n\r\n");
    assert(reply.text() =~= handshake_text(vstd::utf8::encode_utf8(key@)));
    reply
}

/// The reply that carries the status `json`.
pub open spec fn data_text(json: Seq<char>) -> Seq<char> {
    "HTTP/1.1 200 OK\r\nContent-Type: application/json\r\nContent-Length: "@ + crate::text::digits(
        crate::buffer::byte_len(json),
    ) + "\r\n\r\n"@ + json
}

/// The reply that carries the status `json`.
pub fn data_response(json: &heapless::String<1024>) -> (reply: heapless::String<4096>)
    ensures
        reply.text() == data_text(json.text()),
{
    let text = as_str(json);
    let content_length: usize = text.len();
    let mut length = new_16();
    proof {
        crate::text::lemma_digits_fit(content_length as nat);
        reveal_strlit("HTTP/1.1 200 OK\r\nContent-Type: application/json\r\nContent-Length: ");
        reveal_strlit("\r\n\r\n");
        crate::buffer::lemma_byte_len_ascii(
            "HTTP/1.1 200 OK\r\nContent-Type: application/json\r\nContent-Length: "@,
        );
        crate::buffer::lemma_byte_len_ascii("\r\n\r\n"@);
    }
    usize_to_str(content_length, &mut length);
    assert(length.text() =~= crate::text::digits(content_length as nat));
    let mut reply = new_4096();
    put_str(
        &mut reply,
        "HTTP/1.1 200 OK\r\nContent-Type: application/json\r\nContent-Length: ",
    );
    put_str(&mut reply, as_str(&length));
    put_str(&mut reply, "\r\n\r\n");
    put_str(&mut reply, text);
    assert(reply.text() =~= data_text(json.text()));
    reply
}

/// The reply to a request that cannot be answered.
pub fn bad_request_response() -> (reply: heapless::String<4096>)
    ensures
        reply.text() == "HTTP/1.1 400 Bad Request\r\nContent-Length: 0\r\n\r\n"@,
{
    proof {
        reveal_strlit("HTTP/1.1 400 Bad Request\r\nContent-Length: 0\r\n\r\n");
        crate::buffer::lemma_byte_len_ascii(
            "HTTP/1.1 400 Bad Request\r\nContent-Length: 0\r\n\r\n"@,
        );
    }
    let mut reply = new_4096();
    put_str(&mut reply, "HTTP/1.1 400 Bad Request\r\nContent-Length: 0\r\n\r\n");
    assert(reply.text() =~= "HTTP/1.1 400 Bad Request\r\nContent-Length: 0\r\n\r\n"@);
    reply
}

/// The header that goes before the web page.
pub fn page_header() -> (header: &'static str)
    ensures
        header@ == "HTTP/1.1 200 OK\r\nContent-Type: text/html\r\nConnection: close\r\n\r\n"@,
{
    "HTTP/1.1 200 OK\r\nContent-Type: text/html\r\nConnection: close\r\n\r\n"
}

/// What to do after part of a reply was written.
#[derive(Clone, Copy, Debug, PartialEq, Eq, Structural)]
pub enum WriteStep {
    /// All of it is written.
    Done,
    /// Go on from this byte.
    From(usize),
    /// The connection takes nothing more.
    ConnectionReset,
}

/// What to do when of a reply of `len` bytes, written up to byte `from`, `written` more
/// bytes were taken.
pub open spec fn write_step(len: int, from: int, written: int) -> WriteStep {
    if written == 0 {
        WriteStep::ConnectionReset
    } else if from + written == len {
        WriteStep::Done
    } else {
        WriteStep::From((from + written) as usize)
    }
}

/// Decides what to do after a write of a reply of `len` bytes from byte `from` on took
/// `written` of them.
pub fn after_write(len: usize, from: usize, written: usize) -> (step: WriteStep)
    requires
        from < len,
        written <= len - from,
    ensures
        step == write_step(len as int, from as int, written as int),
{
    if written == 0 {
        WriteStep::ConnectionReset
    } else if from + written == len {
        WriteStep::Done
    } else {
        WriteStep::From(from + written)
    }
}

/// Headers are found whatever the case of the ASCII letters in the name asked for.
pub proof fn law_header_names_ignore_case(
    headers: Seq<HeaderModel>,
    name: Seq<char>,
    other: Seq<char>,
)
    requires
        same_ignoring_case(vstd::utf8::encode_utf8(name), vstd::utf8::encode_utf8(other)),
    ensures
        header_text(headers, name) == header_text(headers, other),
    decreases headers.len(),
{
    if headers.len() > 0 {
        let found = vstd::utf8::encode_utf8(headers[0].name);
        let a = vstd::utf8::encode_utf8(name);
        let b = vstd::utf8::encode_utf8(other);
        assert(same_ignoring_case(found, a) == same_ignoring_case(found, b)) by {
            if same_ignoring_case(found, a) {
                assert forall|i: int| 0 <= i < found.len() implies lower(#[trigger] found[i])
                    == lower(b[i]) by {
                    assert(lower(a[i]) == lower(b[i]));
                }
            }
            if same_ignoring_case(found, b) {
                assert forall|i: int| 0 <= i < found.len() implies lower(#[trigger] found[i])
                    == lower(a[i]) by {
                    assert(lower(a[i]) == lower(b[i]));
                }
            }
        }
        law_header_names_ignore_case(headers.skip(1), name, other);
    }
}

/// A header is found exactly when some header has the name and text for its value, and
/// then the value is that of the first of these.
pub proof fn law_first_header_wins(headers: Seq<HeaderModel>, name: Seq<char>)
    ensures
        header_text(headers, name) is None <==> forall|i: int|
            0 <= i < headers.len() ==> !is_text_header(#[trigger] headers[i], name),
        header_text(headers, name) matches Some(value) ==> exists|i: int|
            {
                &&& 0 <= i < headers.len()
                &&& is_text_header(#[trigger] headers[i], name)
                &&& headers[i].value == value
                &&& forall|j: int| 0 <= j < i ==> !is_text_header(#[trigger] headers[j], name)
            },
    decreases headers.len(),
{
    if headers.len() > 0 {
        let rest = headers.skip(1);
        law_first_header_wins(rest, name);
        assert forall|i: int| 1 <= i < headers.len() implies #[trigger] headers[i] == rest[i - 1] by {
        }
        if is_text_header(headers[0], name) {
            assert(header_text(headers, name) == Some(headers[0].value));
        } else {
            match header_text(rest, name) {
                Some(value) => {
                    let k = choose|i: int|
                        {
                            &&& 0 <= i < rest.len()
                            &&& is_text_header(#[trigger] rest[i], name)
                            &&& rest[i].value == value
                            &&& forall|j: int|
                                0 <= j < i ==> !is_text_header(#[trigger] rest[j], name)
                        };
                    assert(headers[k + 1] == rest[k]);
                    assert forall|j: int| 0 <= j < k + 1 implies !is_text_header(
                        #[trigger] headers[j],
                        name,
                    ) by {
                        if j > 0 {
                            assert(headers[j] == rest[j - 1]);
                        }
                    }
                },
                None => {
                    assert forall|i: int| 0 <= i < headers.len() implies !is_text_header(
                        #[trigger] headers[i],
                        name,
                    ) by {
                        if i > 0 {
                            assert(headers[i] == rest[i - 1]);
                        }
                    }
                },
            }
        }
    }
}

/// How a request is cut into reads does not matter: as long as the first part does not
/// end it, two reads come to the same as one.
pub proof fn law_reading_ignores_chunks(data: Seq<u8>, first: Seq<u8>, second: Seq<u8>)
    requires
        read_step(data, first) == ReadStep::More,
        second.len() > 0,
    ensures
        read_step(data + first, second) == read_step(data, first + second),
{
    assert((data + first) + second =~= data + (first + second));
}

/// The length that a status reply announces is that of the status, in bytes, and the
/// status stands at its end.
pub proof fn law_content_length_is_exact(json: Seq<char>)
    ensures
        ({
            let reply = data_text(json);
            let head = "HTTP/1.1 200 OK\r\nContent-Type: application/json\r\nContent-Length: "@;
            let end = reply.len() - json.len();
            &&& reply.take(head.len() as int) == head
            &&& crate::text::digits_value(reply.subrange(head.len() as int, end - 4))
                == crate::buffer::byte_len(json)
            &&& reply.subrange(head.len() as int, end - 4) == crate::text::decimal(
                crate::buffer::byte_len(json) as int,
            )
            &&& reply.subrange(end - 4, end) == "\r\n\r\n"@
            &&& reply.skip(end) == json
        }),
{
    let reply = data_text(json);
    let head = "HTTP/1.1 200 OK\r\nContent-Type: application/json\r\nContent-Length: "@;
    let number = crate::text::digits(crate::buffer::byte_len(json));
    let end: int = reply.len() - json.len();
    reveal_strlit("\r\n\r\n");
    crate::text::law_digits_read_back(crate::buffer::byte_len(json));
    assert(reply.take(head.len() as int) =~= head);
    assert(reply.subrange(head.len() as int, end - 4) =~= number);
    assert(reply.subrange(end - 4, end) =~= "\r\n\r\n"@);
    assert(reply.skip(end) =~= json);
}

/// Every write that takes something brings a reply nearer to its end, and it is done
/// exactly when all of it was taken.
pub proof fn law_writing_advances(len: int, from: int, written: int)
    requires
        0 <= from < len <= usize::MAX,
        0 <= written <= len - from,
    ensures
        write_step(len, from, written) == WriteStep::Done <==> from + written == len,
        write_step(len, from, written) matches WriteStep::From(next) ==> from < next < len && next
            == from + written,
{
}

/// Two names are spelled alike: as long as each other, and at every byte either the same
/// or the same ASCII letter in the other case.
pub open spec fn spelled_alike(a: Seq<u8>, b: Seq<u8>) -> bool {
    &&& a.len() == b.len()
    &&& forall|i: int|
        0 <= i < a.len() ==> {
            ||| #[trigger] a[i] == b[i]
            ||| 65 <= a[i] <= 90 && b[i] == a[i] + 32
            ||| 97 <= a[i] <= 122 && b[i] == a[i] - 32
        }
}

/// Some header is called `name`, in any case, and has text for its value, whatever the
/// text is.
pub open spec fn has_header(headers: Seq<HeaderModel>, name: Seq<u8>) -> bool {
    exists|i: int|
        0 <= i < headers.len() && spelled_alike(
            vstd::utf8::encode_utf8((#[trigger] headers[i]).name),
            name,
        ) && vstd::utf8::valid_utf8(headers[i].value)
}

/// `value` is the value of the first header that is called `name`, in any case, and has
/// text for its value.
pub open spec fn first_value(headers: Seq<HeaderModel>, name: Seq<u8>, value: Seq<u8>) -> bool {
    exists|i: int|
        {
            &&& 0 <= i < headers.len()
            &&& spelled_alike(vstd::utf8::encode_utf8((#[trigger] headers[i]).name), name)
            &&& vstd::utf8::valid_utf8(headers[i].value)
            &&& headers[i].value == value
            &&& forall|j: int|
                0 <= j < i && spelled_alike(
                    vstd::utf8::encode_utf8((#[trigger] headers[j]).name),
                    name,
                ) ==> !vstd::utf8::valid_utf8(headers[j].value)
        }
}

/// Comparing in lower case is comparing letters in either case.
proof fn lemma_alike_is_same_ignoring_case(a: Seq<u8>, b: Seq<u8>)
    ensures
        same_ignoring_case(a, b) == spelled_alike(a, b),
{
    if same_ignoring_case(a, b) {
        assert forall|i: int| 0 <= i < a.len() implies {
            ||| #[trigger] a[i] == b[i]
            ||| 65 <= a[i] <= 90 && b[i] == a[i] + 32
            ||| 97 <= a[i] <= 122 && b[i] == a[i] - 32
        } by {
            assert(lower(a[i]) == lower(b[i]));
        }
    }
    if spelled_alike(a, b) {
        assert forall|i: int| 0 <= i < a.len() implies lower(#[trigger] a[i]) == lower(b[i]) by {
            assert(a[i] == b[i] || (65 <= a[i] <= 90 && b[i] == a[i] + 32) || (97 <= a[i] <= 122
                && b[i] == a[i] - 32));
        }
    }
}

/// Header lookup, in terms of the headers alone: it finds something exactly when some
/// header has the name, in any case, and text for its value, and then it finds the value
/// of the first of these.
#[verifier::rlimit(50)]
pub proof fn law_headers_are_looked_up_by_name(headers: Seq<HeaderModel>, name: Seq<char>)
    ensures
        header_text(headers, name) is Some <==> has_header(
            headers,
            vstd::utf8::encode_utf8(name),
        ),
        header_text(headers, name) matches Some(value) ==> first_value(
            headers,
            vstd::utf8::encode_utf8(name),
            value,
        ),
{
    let bytes = vstd::utf8::encode_utf8(name);
    assert forall|i: int| 0 <= i < headers.len() implies is_text_header(#[trigger] headers[i], name)
        == (spelled_alike(vstd::utf8::encode_utf8(headers[i].name), bytes)
        && vstd::utf8::valid_utf8(headers[i].value)) by {
        lemma_alike_is_same_ignoring_case(vstd::utf8::encode_utf8(headers[i].name), bytes);
    }
    law_first_header_wins(headers, name);
    match header_text(headers, name) {
        Some(value) => {
            let i = choose|i: int|
                {
                    &&& 0 <= i < headers.len()
                    &&& is_text_header(#[trigger] headers[i], name)
                    &&& headers[i].value == value
                    &&& forall|j: int| 0 <= j < i ==> !is_text_header(#[trigger] headers[j], name)
                };
            assert(spelled_alike(vstd::utf8::encode_utf8(headers[i].name), bytes));
            assert(vstd::utf8::valid_utf8(headers[i].value));
        },
        None => {},
    }
}

/// A live connection is opened for every head that asks for `/ws` by GET with headers
/// named Upgrade, Connection and Sec-WebSocket-Key, whatever the values of these are as
/// long as they are text, and for no other head; its key is that of the first key header.
pub proof fn law_live_connections_need_three_headers(head: HeadModel)
    ensures
        route_of(Some(head)) is WebSocket <==> {
            &&& head.path == Some("/ws"@)
            &&& head.method == Some("GET"@)
            &&& has_header(head.headers, vstd::utf8::encode_utf8("Upgrade"@))
            &&& has_header(head.headers, vstd::utf8::encode_utf8("Connection"@))
            &&& has_header(head.headers, vstd::utf8::encode_utf8("Sec-WebSocket-Key"@))
        },
        route_of(Some(head)) matches RouteModel::WebSocket(key) ==> first_value(
            head.headers,
            vstd::utf8::encode_utf8("Sec-WebSocket-Key"@),
            key,
        ),
{
    law_headers_are_looked_up_by_name(head.headers, "Upgrade"@);
    law_headers_are_looked_up_by_name(head.headers, "Connection"@);
    law_headers_are_looked_up_by_name(head.headers, "Sec-WebSocket-Key"@);
}

/// What else a request gets: no head, or one without a path, is refused; `/data` gets the
/// status, by whatever method and with whatever headers; every other path gets the page,
/// `/ws` among them where it does not open a live connection.
pub proof fn law_paths_decide_the_rest(head: Option<HeadModel>)
    ensures
        route_of(head) is BadRequest <==> head is None || head.unwrap().path is None,
        route_of(head) is Data <==> head is Some && head.unwrap().path == Some("/data"@),
        route_of(head) is Page <==> head is Some && head.unwrap().path is Some
            && head.unwrap().path != Some("/data"@) && !(route_of(head) is WebSocket),
{
    reveal_strlit("/ws");
    reveal_strlit("/data");
    assert("/ws"@.len() != "/data"@.len());
}

/// Reading a request, in terms of what has come: an empty read ends it, one that brings
/// it beyond 1024 bytes is refused, and it is complete exactly when what has come ends
/// with a blank line.
pub proof fn law_requests_end_with_a_blank_line(data: Seq<u8>, chunk: Seq<u8>)
    ensures
        ({
            let step = read_step(data, chunk);
            let all = data + chunk;
            &&& step == ReadStep::Ended <==> chunk.len() == 0
            &&& step == ReadStep::TooLarge <==> chunk.len() > 0 && all.len() > 1024
            &&& step == ReadStep::Complete <==> chunk.len() > 0 && 4 <= all.len() <= 1024
                && all.skip(all.len() - 4) == seq![13u8, 10u8, 13u8, 10u8]
        }),
{
    let all = data + chunk;
    if all.len() >= 4 {
        let tail = all.skip(all.len() - 4);
        let blank = seq![13u8, 10u8, 13u8, 10u8];
        if tail == blank {
            assert(tail[0] == 13 && tail[1] == 10 && tail[2] == 13 && tail[3] == 10);
        }
        if ends_request(all) {
            assert(tail =~= blank);
        }
    }
}

/// The handshake names the protocol switch line by line and carries an answer that
/// decodes to the digest of the key followed by the bytes that the protocol fixes.
#[verifier::rlimit(50)]
pub proof fn law_handshakes_answer_the_key(key: Seq<u8>)
    ensures
        ({
            let head = "HTTP/1.1 101 Switching Protocols\r\nUpgrade: websocket\r\nConnection: Upgrade\r\nSec-WebSocket-Accept: "@;
            let reply = handshake_text(key);
            let end = head.len() + 28;
            &&& reply.len() == end + 4
            &&& reply.take(head.len() as int) == head
            &&& crate::base64::decoded(
                vstd::utf8::encode_utf8(reply.subrange(head.len() as int, end as int)),
            ) == crate::sha1::digest(
                key + vstd::utf8::encode_utf8("258EAFA5-E914-47DA-95CA-C5AB0DC85B11"@),
            )
            &&& reply.skip(end as int) == seq!['\r', '\n', '\r', '\n']
        }),
{
    let head = "HTTP/1.1 101 Switching Protocols\r\nUpgrade: websocket\r\nConnection: Upgrade\r\nSec-WebSocket-Accept: "@;
    let parts = "HTTP/1.1 101 Switching Protocols\r\n"@ + "Upgrade: websocket\r\n"@
        + "Connection: Upgrade\r\n"@ + "Sec-WebSocket-Accept: "@;
    let reply = handshake_text(key);
    let answer = crate::websocket::accept_key(key);
    crate::websocket::law_answers_prove_the_key(key);
    assert(head =~= parts) by {
        reveal_strlit("HTTP/1.1 101 Switching Protocols\r\nUpgrade: websocket\r\nConnection: Upgrade\r\nSec-WebSocket-Accept: ");
        reveal_strlit("HTTP/1.1 101 Switching Protocols\r\n");
        reveal_strlit("Upgrade: websocket\r\n");
        reveal_strlit("Connection: Upgrade\r\n");
        reveal_strlit("Sec-WebSocket-Accept: ");
    }
    reveal_strlit("\r\n\r\n");
    assert(reply =~= head + answer + "\r\n\r\n"@);
    assert(reply.take(head.len() as int) =~= head);
    assert(reply.subrange(head.len() as int, (head.len() + 28) as int) =~= answer);
    assert(reply.skip((head.len() + 28) as int) =~= seq!['\r', '\n', '\r', '\n']);
}

/// A write that takes nothing means that the connection was reset, and only that does.
pub proof fn law_empty_writes_reset(len: int, from: int, written: int)
    requires
        0 <= from < len <= usize::MAX,
        0 <= written <= len - from,
    ensures
        write_step(len, from, written) == WriteStep::ConnectionReset <==> written == 0,
        0 < written < len - from <==> write_step(len, from, written) == WriteStep::From(
            (from + written) as usize,
        ),
{
}

} // verus!
