//! A connection of the web server: what to do next after each thing that happens on it.
//!
//! A connection reads a request and answers it. A WebSocket request is answered with a
//! handshake, after which the connection reads commands and sends the status, one frame
//! after every read or pause, until either side ends it.
use vstd::prelude::*;

use crate::buffer::{as_str, TextBuffer};
use crate::http::{
    after_write, bad_request_response, data_response, handshake_response, page_header,
    route_request, ReadStep, RequestReader, Route, WriteStep,
};
use crate::page::HTML_PAGE;
use crate::race::Racer;
use crate::status::{build_status_json, is_short};
use crate::websocket::{encode_ws_text_frame, read_client_input, ClientInput, Command, MAX_KEY};

verus! {

/// What a connection is busy with.
#[derive(Clone, Copy, Debug, PartialEq, Eq, Structural)]
pub enum Stage {
    /// Reading the request.
    Reading,
    /// Writing the one reply that there is.
    Answering,
    /// Writing the header of the page.
    PageHeader,
    /// Writing the page.
    PageBody,
    /// Writing the handshake of a WebSocket connection.
    Handshake,
    /// Waiting for a command.
    Listening,
    /// Writing a frame with the status.
    Reporting,
    /// Nothing more.
    Over,
}

/// What happened on a connection.
pub enum Event {
    /// These bytes were read; none at the end of the connection.
    Read(Vec<u8>),
    /// Reading failed.
    ReadFailed,
    /// Nothing came for the length of a pause.
    Paused,
    /// So many of the pending bytes were written.
    Wrote(usize),
    /// Writing failed.
    WriteFailed,
}

/// What to do next with a connection.
#[derive(Clone, Copy, Debug, PartialEq, Eq, Structural)]
pub enum Action {
    /// Read more of the request.
    Read,
    /// Write the pending bytes, or some of them.
    Write,
    /// Read a command, for the length of a pause at most.
    Listen,
    /// Flush what was written and close.
    FlushAndClose,
    /// Close.
    Close,
    /// Reboot.
    Reboot,
    /// The client's key does not fit in the handshake buffer.
    KeyTooLong,
    /// A race time has too many digits for the status.
    StatusTooLong,
}

/// Milliseconds of a pause in which no command comes
pub const PAUSE_MS: u64 = 500;

/// A connection.
pub struct Connection {
    pub stage: Stage,
    pub reader: RequestReader,
    pub out: Vec<u8>,
    pub sent: usize,
}

/// What a connection is busy with, the request as far as it has come, and the bytes
/// being written with how many of them were.
#[verifier::ext_equal]
pub struct ConnectionModel {
    pub stage: Stage,
    pub request: Seq<u8>,
    pub out: Seq<u8>,
    pub sent: int,
}

impl Racer {
    /// The status can be put into words.
    pub open spec fn reportable(self) -> bool {
        &&& crate::status::ms_fits(self.race_elapsed_ms)
        &&& crate::status::ms_fits(self.best_race_ms)
    }

    /// The status as JSON.
    pub open spec fn status(self) -> Seq<char> {
        crate::status::status_text(
            self.mode,
            self.orientation,
            self.accel,
            self.display@,
            self.race_elapsed_ms,
            self.best_race_ms,
        )
    }

    /// The racer after obeying what a client sent.
    pub open spec fn told(self, input: ClientInput, now: u64) -> Racer {
        match input {
            ClientInput::Command(command) => match Racer::mode_of(command) {
                Some(mode) => self.entered(mode, now),
                None => self,
            },
            _ => self,
        }
    }

    /// Whether the status can be put into words.
    pub fn can_report(&self) -> (reportable: bool)
        ensures
            reportable == self.reportable(),
    {
        is_short(self.race_elapsed_ms) && is_short(self.best_race_ms)
    }

    /// The status as JSON.
    fn status_json(&self) -> (json: heapless::String<1024>)
        requires
            self.reportable(),
        ensures
            json.text() == self.status(),
            crate::buffer::byte_len(json.text()) <= 900,
    {
        build_status_json(
            self.mode,
            self.orientation,
            self.accel,
            &self.display,
            self.race_elapsed_ms,
            self.best_race_ms,
        )
    }
}

/// The refusal of a request.
pub open spec fn refusal() -> Seq<u8> {
    vstd::utf8::encode_utf8("HTTP/1.1 400 Bad Request\r\nContent-Length: 0\r\n\r\n"@)
}

/// The header of the page.
pub open spec fn page_head() -> Seq<u8> {
    vstd::utf8::encode_utf8(
        "HTTP/1.1 200 OK\r\nContent-Type: text/html\r\nConnection: close\r\n\r\n"@,
    )
}

/// The page.
pub open spec fn page_body() -> Seq<u8> {
    vstd::utf8::encode_utf8(HTML_PAGE@)
}

/// The frame that tells a client the status of `racer`.
pub open spec fn report(racer: Racer) -> Seq<u8> {
    crate::websocket::text_frame(vstd::utf8::encode_utf8(racer.status()))
}

impl Stage {
    /// In this stage something is being written.
    pub open spec fn writes(self) -> bool {
        match self {
            Stage::Answering => true,
            Stage::PageHeader => true,
            Stage::PageBody => true,
            Stage::Handshake => true,
            Stage::Reporting => true,
            _ => false,
        }
    }
}

impl ConnectionModel {
    /// What is still to be written.
    pub open spec fn pending(self) -> Seq<u8> {
        self.out.skip(self.sent)
    }

    /// While something is being written, something is still to be written.
    pub open spec fn wf(self) -> bool {
        self.stage.writes() ==> 0 <= self.sent < self.out.len()
    }

    /// The connection in another stage.
    pub open spec fn at(self, stage: Stage) -> ConnectionModel {
        ConnectionModel { stage, ..self }
    }

    /// The event can happen in this stage.
    pub open spec fn awaits(self, event: Event) -> bool {
        match event {
            Event::Read(bytes) => self.stage == Stage::Reading || self.stage == Stage::Listening,
            Event::ReadFailed => self.stage == Stage::Reading || self.stage == Stage::Listening,
            Event::Paused => self.stage == Stage::Listening,
            Event::Wrote(n) => self.stage.writes() && n <= self.pending().len(),
            Event::WriteFailed => self.stage.writes(),
        }
    }

    /// Starts to write `out`.
    pub open spec fn writing(self, stage: Stage, out: Seq<u8>) -> (ConnectionModel, Action) {
        if out.len() == 0 {
            self.wrote_all(stage, true)
        } else {
            (ConnectionModel { stage, out, sent: 0, ..self }, Action::Write)
        }
    }

    /// Writing has ended in `stage`, with everything written or with a failure.
    pub open spec fn wrote_all(self, stage: Stage, success: bool) -> (ConnectionModel, Action) {
        match stage {
            // The page follows its header, even if that was lost.
            Stage::PageHeader => if page_body().len() == 0 {
                (self.at(Stage::Over), Action::FlushAndClose)
            } else {
                (
                    ConnectionModel {
                        stage: Stage::PageBody,
                        out: page_body(),
                        sent: 0,
                        ..self
                    },
                    Action::Write,
                )
            },
            Stage::Handshake => if success {
                (self.at(Stage::Listening), Action::Listen)
            } else {
                (self.at(Stage::Over), Action::Close)
            },
            Stage::Reporting => if success {
                (self.at(Stage::Listening), Action::Listen)
            } else {
                (self.at(Stage::Over), Action::Close)
            },
            _ => (self.at(Stage::Over), Action::FlushAndClose),
        }
    }

    /// Answers a request.
    pub open spec fn answering(self, route: crate::http::RouteModel, racer: Racer) -> (
        ConnectionModel,
        Action,
    ) {
        match route {
            crate::http::RouteModel::WebSocket(key) => if key.len() > MAX_KEY {
                (self.at(Stage::Over), Action::KeyTooLong)
            } else {
                self.writing(
                    Stage::Handshake,
                    vstd::utf8::encode_utf8(crate::http::handshake_text(key)),
                )
            },
            crate::http::RouteModel::Page => self.writing(Stage::PageHeader, page_head()),
            crate::http::RouteModel::Data => if racer.reportable() {
                self.writing(
                    Stage::Answering,
                    vstd::utf8::encode_utf8(crate::http::data_text(racer.status())),
                )
            } else {
                (self.at(Stage::Over), Action::StatusTooLong)
            },
            crate::http::RouteModel::BadRequest => self.writing(Stage::Answering, refusal()),
        }
    }

    /// The connection after reading `chunk` of a request, and what to do next.
    pub open spec fn reading(self, chunk: Seq<u8>, racer: Racer) -> (ConnectionModel, Action) {
        let step = crate::http::read_step(self.request, chunk);
        let next = if step == ReadStep::TooLarge {
            self
        } else {
            ConnectionModel { request: self.request + chunk, ..self }
        };
        match step {
            ReadStep::More => (next, Action::Read),
            ReadStep::Complete => next.answering(
                crate::http::route_of(crate::http::parsed_head(next.request)),
                racer,
            ),
            _ => next.answering(crate::http::RouteModel::BadRequest, racer),
        }
    }

    /// The connection after a client sent `input`, and what to do next; `racer` has
    /// obeyed it already.
    pub open spec fn hearing(self, input: ClientInput, racer: Racer) -> (ConnectionModel, Action) {
        match input {
            ClientInput::Disconnected => (self.at(Stage::Over), Action::Close),
            ClientInput::Close => (self.at(Stage::Over), Action::Close),
            ClientInput::Command(Command::Reboot) => (self.at(Stage::Over), Action::Reboot),
            _ => if racer.reportable() {
                self.writing(Stage::Reporting, report(racer))
            } else {
                (self.at(Stage::Over), Action::StatusTooLong)
            },
        }
    }

    /// The event is a client's word to finish the race.
    pub open spec fn finishes_race(self, event: Event) -> bool {
        match event {
            Event::Read(chunk) => self.stage == Stage::Listening && crate::websocket::input_of(
                chunk@,
            ) == ClientInput::Command(Command::RaceOver),
            _ => false,
        }
    }

    /// The connection after `event`, and what to do next; `racer` has obeyed it already.
    pub open spec fn stepped(self, event: Event, racer: Racer) -> (ConnectionModel, Action) {
        match event {
            Event::Read(chunk) => if self.stage == Stage::Reading {
                self.reading(chunk@, racer)
            } else {
                self.hearing(crate::websocket::input_of(chunk@), racer)
            },
            Event::ReadFailed => if self.stage == Stage::Reading {
                self.answering(crate::http::RouteModel::BadRequest, racer)
            } else {
                (self.at(Stage::Over), Action::Close)
            },
            Event::Paused => self.hearing(ClientInput::Ignored, racer),
            Event::Wrote(n) => match crate::http::write_step(
                self.out.len() as int,
                self.sent,
                n as int,
            ) {
                WriteStep::Done => self.wrote_all(self.stage, true),
                WriteStep::From(next) => (
                    ConnectionModel { sent: next as int, ..self },
                    Action::Write,
                ),
                WriteStep::ConnectionReset => self.wrote_all(self.stage, false),
            },
            Event::WriteFailed => self.wrote_all(self.stage, false),
        }
    }

    /// The racer after `event` on this connection.
    pub open spec fn racer_after(self, event: Event, racer: Racer, now: u64) -> Racer {
        match event {
            Event::Read(chunk) => if self.stage == Stage::Listening {
                racer.told(crate::websocket::input_of(chunk@), now)
            } else {
                racer
            },
            _ => racer,
        }
    }
}

/// The bytes of `text`.
fn to_bytes(text: &str) -> (bytes: Vec<u8>)
    ensures
        bytes@ == vstd::utf8::encode_utf8(text@),
{
    copied(text.as_bytes())
}

/// A copy of `source`.
fn copied(source: &[u8]) -> (bytes: Vec<u8>)
    ensures
        bytes@ == source@,
{
    let mut bytes: Vec<u8> = Vec::new();
    let mut i: usize = 0;
    while i < source.len()
        invariant
            i <= source@.len(),
            bytes@ == source@.take(i as int),
        decreases source@.len() - i,
    {
        bytes.push(source[i]);
        assert(source@.take(i as int).push(source@[i as int]) =~= source@.take(i + 1));
        i = i + 1;
    }
    assert(source@.take(i as int) =~= source@);
    bytes
}

/// The frame that tells a client the status of `racer`.
fn report_frame(racer: &Racer) -> (frame: Vec<u8>)
    requires
        racer.reportable(),
    ensures
        frame@ == report(*racer),
{
    let json = racer.status_json();
    let payload = as_str(&json).as_bytes();
    let mut buffer: [u8; 1024] = [0u8; 1024];
    let len: usize = encode_ws_text_frame(payload, &mut buffer);
    let frame = vstd::slice::slice_subrange(&buffer, 0, len);
    assert(frame@ =~= report(*racer));
    copied(frame)
}

impl Connection {
    /// What this connection is busy with.
    pub open spec fn model(self) -> ConnectionModel {
        ConnectionModel {
            stage: self.stage,
            request: self.reader.bytes(),
            out: self.out@,
            sent: self.sent as int,
        }
    }

    /// A connection that a client has just made; the first thing to do is to read.
    pub fn new() -> (connection: Self)
        ensures
            connection.model() == (ConnectionModel {
                stage: Stage::Reading,
                request: Seq::empty(),
                out: Seq::empty(),
                sent: 0,
            }),
            connection.model().wf(),
    {
        Connection { stage: Stage::Reading, reader: RequestReader::new(), out: Vec::new(), sent: 0 }
    }

    /// The bytes still to be written.
    pub fn pending(&self) -> (bytes: &[u8])
        requires
            self.model().wf(),
            self.stage.writes(),
        ensures
            bytes@ == self.model().pending(),
    {
        let bytes = vstd::slice::slice_subrange(self.out.as_slice(), self.sent, self.out.len());
        assert(bytes@ =~= self.model().pending());
        bytes
    }

    /// Whether something is being written.
    pub fn is_writing(&self) -> (writing: bool)
        ensures
            writing == self.stage.writes(),
    {
        match self.stage {
            Stage::Answering | Stage::PageHeader | Stage::PageBody | Stage::Handshake
            | Stage::Reporting => true,
            _ => false,
        }
    }

    /// Starts to write `out`.
    fn start_writing(&mut self, stage: Stage, out: Vec<u8>) -> (action: Action)
        requires
            stage.writes(),
        ensures
            (final(self).model(), action) == old(self).model().writing(stage, out@),
            final(self).model().wf(),
    {
        if out.len() == 0 {
            return self.finish_writing(stage, true);
        }
        self.stage = stage;
        self.out = out;
        self.sent = 0;
        Action::Write
    }

    /// Ends writing in `stage`.
    fn finish_writing(&mut self, stage: Stage, success: bool) -> (action: Action)
        requires
            stage.writes(),
        ensures
            (final(self).model(), action) == old(self).model().wrote_all(stage, success),
            final(self).model().wf(),
    {
        match stage {
            Stage::PageHeader => {
                let page = to_bytes(HTML_PAGE);
                if page.len() == 0 {
                    self.stage = Stage::Over;
                    Action::FlushAndClose
                } else {
                    self.stage = Stage::PageBody;
                    self.out = page;
                    self.sent = 0;
                    Action::Write
                }
            },
            Stage::Handshake | Stage::Reporting => if success {
                self.stage = Stage::Listening;
                Action::Listen
            } else {
                self.stage = Stage::Over;
                Action::Close
            },
            _ => {
                self.stage = Stage::Over;
                Action::FlushAndClose
            },
        }
    }

    /// Answers a request.
    fn answer(&mut self, route: Route, racer: &Racer) -> (action: Action)
        ensures
            (final(self).model(), action) == old(self).model().answering(route.model(), *racer),
            final(self).model().wf(),
    {
        match route {
            Route::WebSocket(key) => {
                if key.as_str().as_bytes().len() > MAX_KEY {
                    self.stage = Stage::Over;
                    return Action::KeyTooLong;
                }
                let reply = handshake_response(key.as_str());
                self.start_writing(Stage::Handshake, to_bytes(as_str(&reply)))
            },
            Route::Page => self.start_writing(Stage::PageHeader, to_bytes(page_header())),
            Route::Data => {
                if !racer.can_report() {
                    self.stage = Stage::Over;
                    return Action::StatusTooLong;
                }
                let json = racer.status_json();
                let reply = data_response(&json);
                self.start_writing(Stage::Answering, to_bytes(as_str(&reply)))
            },
            Route::BadRequest => {
                let reply = bad_request_response();
                self.start_writing(Stage::Answering, to_bytes(as_str(&reply)))
            },
        }
    }

    /// Takes in a part of the request.
    fn read_request(&mut self, chunk: &[u8], racer: &Racer) -> (action: Action)
        requires
            old(self).stage == Stage::Reading,
        ensures
            (final(self).model(), action) == old(self).model().reading(chunk@, *racer),
            final(self).model().wf(),
    {
        let step = self.reader.receive(chunk);
        match step {
            ReadStep::More => Action::Read,
            ReadStep::Complete => {
                let route = route_request(self.reader.received(), true);
                self.answer(route, racer)
            },
            ReadStep::Ended | ReadStep::TooLarge => {
                let route = route_request(self.reader.received(), false);
                self.answer(route, racer)
            },
        }
    }

    /// Goes on after what a client sent, once the racer has obeyed it.
    fn go_on(&mut self, input: ClientInput, racer: &Racer) -> (action: Action)
        ensures
            (final(self).model(), action) == old(self).model().hearing(input, *racer),
            final(self).model().wf(),
    {
        match input {
            ClientInput::Disconnected | ClientInput::Close => {
                self.stage = Stage::Over;
                Action::Close
            },
            ClientInput::Command(Command::Reboot) => {
                self.stage = Stage::Over;
                Action::Reboot
            },
            _ => {
                if !racer.can_report() {
                    self.stage = Stage::Over;
                    return Action::StatusTooLong;
                }
                self.start_writing(Stage::Reporting, report_frame(racer))
            },
        }
    }

    /// Takes in what happened on the connection at time `now`, lets the racer obey it,
    /// and says what to do next.
    pub fn step(&mut self, event: Event, racer: &mut Racer, now: u64) -> (action: Action)
        requires
            old(self).model().wf(),
            old(self).model().awaits(event),
            old(self).model().finishes_race(event) ==> old(racer).clock_ok(now),
        ensures
            *final(racer) == old(self).model().racer_after(event, *old(racer), now),
            (final(self).model(), action) == old(self).model().stepped(event, *final(racer)),
            final(self).model().wf(),
            old(racer).wf() ==> final(racer).wf(),
    {
        match event {
            Event::Read(chunk) => {
                if self.stage == Stage::Reading {
                    self.read_request(chunk.as_slice(), racer)
                } else {
                    let input = read_client_input(chunk.as_slice());
                    if let ClientInput::Command(command) = input {
                        racer.obey(command, now);
                    }
                    self.go_on(input, racer)
                }
            },
            Event::ReadFailed => {
                if self.stage == Stage::Reading {
                    let route = route_request(self.reader.received(), false);
                    self.answer(route, racer)
                } else {
                    self.stage = Stage::Over;
                    Action::Close
                }
            },
            Event::Paused => self.go_on(ClientInput::Ignored, racer),
            Event::Wrote(n) => {
                match after_write(self.out.len(), self.sent, n) {
                    WriteStep::Done => {
                        let stage = self.stage;
                        self.finish_writing(stage, true)
                    },
                    WriteStep::From(next) => {
                        self.sent = next;
                        Action::Write
                    },
                    WriteStep::ConnectionReset => {
                        let stage = self.stage;
                        self.finish_writing(stage, false)
                    },
                }
            },
            Event::WriteFailed => {
                let stage = self.stage;
                self.finish_writing(stage, false)
            },
        }
    }
}

/// A request that breaks off, does not fit or cannot be parsed is refused.
pub proof fn law_bad_requests_are_refused(
    connection: ConnectionModel,
    event: Event,
    racer: Racer,
    now: u64,
)
    requires
        connection.stage == Stage::Reading,
        match event {
            Event::Read(chunk) => match crate::http::read_step(connection.request, chunk@) {
                ReadStep::More => false,
                ReadStep::Complete => crate::http::parsed_head(connection.request + chunk@) is None,
                _ => true,
            },
            Event::ReadFailed => true,
            _ => false,
        },
    ensures
        ({
            let (next, action) = connection.stepped(event, racer);
            &&& action == Action::Write
            &&& next.stage == Stage::Answering
            &&& next.pending() == refusal()
        }),
        connection.racer_after(event, racer, now) == racer,
{
    reveal_strlit("HTTP/1.1 400 Bad Request\r\nContent-Length: 0\r\n\r\n");
    crate::buffer::lemma_byte_len_ascii(
        "HTTP/1.1 400 Bad Request\r\nContent-Length: 0\r\n\r\n"@,
    );
    let (next, action) = connection.stepped(event, racer);
    assert(next.pending() =~= refusal());
}

/// A request that was parsed and has a path is always served: a request for the status
/// gets the status if it can be put into words, a WebSocket request with a key that fits
/// gets its handshake, and anything else gets the page.
pub proof fn law_good_requests_are_served(
    connection: ConnectionModel,
    head: crate::http::HeadModel,
    racer: Racer,
)
    requires
        head.path is Some,
        crate::http::asks_for_websocket(head) ==> crate::http::header_text(
            head.headers,
            "Sec-WebSocket-Key"@,
        ).unwrap().len() <= MAX_KEY,
        head.path == Some("/data"@) ==> racer.reportable(),
    ensures
        ({
            let (next, action) = connection.answering(crate::http::route_of(Some(head)), racer);
            &&& action == Action::Write
            &&& next.pending() == if crate::http::asks_for_websocket(head) {
                vstd::utf8::encode_utf8(
                    crate::http::handshake_text(
                        crate::http::header_text(head.headers, "Sec-WebSocket-Key"@).unwrap(),
                    ),
                )
            } else if head.path == Some("/data"@) {
                vstd::utf8::encode_utf8(crate::http::data_text(racer.status()))
            } else {
                page_head()
            }
        }),
{
    reveal_strlit("HTTP/1.1 101 Switching Protocols\r\n");
    reveal_strlit("HTTP/1.1 200 OK\r\nContent-Type: application/json\r\nContent-Length: ");
    reveal_strlit("HTTP/1.1 200 OK\r\nContent-Type: text/html\r\nConnection: close\r\n\r\n");
    lemma_some_bytes(crate::http::data_text(racer.status()));
    lemma_some_bytes(
        "HTTP/1.1 200 OK\r\nContent-Type: text/html\r\nConnection: close\r\n\r\n"@,
    );
    if crate::http::asks_for_websocket(head) {
        lemma_some_bytes(
            crate::http::handshake_text(
                crate::http::header_text(head.headers, "Sec-WebSocket-Key"@).unwrap(),
            ),
        );
    }
    let (next, action) = connection.answering(crate::http::route_of(Some(head)), racer);
    assert(next.pending() =~= next.out);
}

/// Text that is not empty has bytes.
proof fn lemma_some_bytes(text: Seq<char>)
    requires
        text.len() > 0,
    ensures
        crate::buffer::byte_len(text) > 0,
{
    if crate::buffer::byte_len(text) == 0 {
        let none = Seq::<char>::empty();
        assert(vstd::utf8::encode_utf8(text) =~= vstd::utf8::encode_utf8(none));
        vstd::utf8::encode_utf8_decode_utf8(text);
        vstd::utf8::encode_utf8_decode_utf8(none);
    }
}

/// A client that sends the word for a mode, with whatever mask, brings the racer into
/// that mode, and the next frame reports the racer as it then is, if that can be put
/// into words.
pub proof fn law_commands_are_obeyed_and_reported(
    connection: ConnectionModel,
    racer: Racer,
    command: Command,
    mask: Seq<u8>,
    chunk: Vec<u8>,
    now: u64,
)
    requires
        connection.stage == Stage::Listening,
        command != Command::Reboot,
        mask.len() == 4,
        chunk@ == crate::websocket::masked_frame(
            vstd::utf8::encode_utf8(crate::websocket::command_word(command)),
            mask,
        ),
    ensures
        ({
            let after = connection.racer_after(Event::Read(chunk), racer, now);
            let (next, action) = connection.stepped(Event::Read(chunk), after);
            &&& Racer::mode_of(command) == Some(after.mode)
            &&& after == racer.entered(after.mode, now)
            &&& after.reportable() ==> {
                &&& action == Action::Write
                &&& next.stage == Stage::Reporting
                &&& next.pending() == report(after)
            }
        }),
{
    crate::websocket::law_commands_are_understood(command, mask);
    let after = connection.racer_after(Event::Read(chunk), racer, now);
    let (next, action) = connection.stepped(Event::Read(chunk), after);
    if after.reportable() {
        assert(next.pending() =~= report(after));
    }
}

/// A client is kept informed: whatever it sends short of leaving or rebooting, and also
/// when it sends nothing, it gets a frame with the status, if that can be put into words.
pub proof fn law_clients_are_kept_informed(
    connection: ConnectionModel,
    event: Event,
    racer: Racer,
    now: u64,
)
    requires
        connection.stage == Stage::Listening,
        match event {
            Event::Read(chunk) => match crate::websocket::input_of(chunk@) {
                ClientInput::Disconnected => false,
                ClientInput::Close => false,
                ClientInput::Command(command) => command != Command::Reboot,
                ClientInput::Ignored => true,
            },
            Event::Paused => true,
            _ => false,
        },
        connection.racer_after(event, racer, now).reportable(),
    ensures
        ({
            let after = connection.racer_after(event, racer, now);
            let (next, action) = connection.stepped(event, after);
            &&& action == Action::Write
            &&& next.stage == Stage::Reporting
            &&& next.pending() == report(after)
        }),
{
    let after = connection.racer_after(event, racer, now);
    let (next, action) = connection.stepped(event, after);
    assert(next.pending() =~= report(after));
}

/// Nothing of a reply is lost or written twice: after some of the pending bytes were
/// written the rest is pending, and once all were written the reply has ended.
pub proof fn law_writes_lose_nothing(connection: ConnectionModel, written: usize, racer: Racer)
    requires
        connection.wf(),
        connection.out.len() <= usize::MAX,
        0 < written,
        connection.awaits(Event::Wrote(written)),
    ensures
        ({
            let (next, action) = connection.stepped(Event::Wrote(written), racer);
            if written < connection.pending().len() {
                &&& action == Action::Write
                &&& next.stage == connection.stage
                &&& next.pending() == connection.pending().skip(written as int)
            } else {
                (next, action) == connection.wrote_all(connection.stage, true)
            }
        }),
{
    let (next, action) = connection.stepped(Event::Wrote(written), racer);
    if written < connection.pending().len() {
        assert(next.pending() =~= connection.pending().skip(written as int));
    }
}

/// A reply that opens no live connection ends: each event while it is written either
/// closes the connection after a flush, goes on from the header to the page, or leaves
/// less to write.
pub proof fn law_plain_replies_end(connection: ConnectionModel, event: Event, racer: Racer)
    requires
        connection.wf(),
        connection.out.len() <= usize::MAX,
        connection.awaits(event),
        connection.stage == Stage::Answering || connection.stage == Stage::PageHeader
            || connection.stage == Stage::PageBody,
    ensures
        ({
            let (next, action) = connection.stepped(event, racer);
            ||| next.stage == Stage::Over && action == Action::FlushAndClose
            ||| {
                &&& connection.stage == Stage::PageHeader
                &&& next.stage == Stage::PageBody
                &&& next.pending() == page_body()
                &&& action == Action::Write
            }
            ||| {
                &&& next.stage == connection.stage
                &&& next.pending().len() < connection.pending().len()
                &&& action == Action::Write
            }
        }),
{
    let (next, action) = connection.stepped(event, racer);
    if next.stage == Stage::PageBody && connection.stage == Stage::PageHeader {
        assert(next.pending() =~= page_body());
    }
}

/// What the fixed replies and the report say: the refusal and the header of the page word
/// for word, the page as it is, and for the report a frame around the status of the
/// racer's own mode, axis, reading, display and times.
pub proof fn law_replies_say_what_is(racer: Racer)
    ensures
        refusal() == vstd::utf8::encode_utf8(
            "HTTP/1.1 400 Bad Request\r\nContent-Length: 0\r\n\r\n"@,
        ),
        page_head() == vstd::utf8::encode_utf8(
            "HTTP/1.1 200 OK\r\nContent-Type: text/html\r\nConnection: close\r\n\r\n"@,
        ),
        page_body() == vstd::utf8::encode_utf8(HTML_PAGE@),
        racer.status() == crate::status::status_text(
            racer.mode,
            racer.orientation,
            racer.accel,
            racer.display@,
            racer.race_elapsed_ms,
            racer.best_race_ms,
        ),
        report(racer) == crate::websocket::text_frame(
            vstd::utf8::encode_utf8(
                crate::status::status_text(
                    racer.mode,
                    racer.orientation,
                    racer.accel,
                    racer.display@,
                    racer.race_elapsed_ms,
                    racer.best_race_ms,
                ),
            ),
        ),
{
}

/// A report reaches the browser: reading the frame as a browser does, by the length it
/// announces, gives the status of the racer as it is.
pub proof fn law_browsers_read_the_report(racer: Racer)
    requires
        racer.reportable(),
    ensures
        ({
            let frame = report(racer);
            let status = vstd::utf8::encode_utf8(
                crate::status::status_text(
                    racer.mode,
                    racer.orientation,
                    racer.accel,
                    racer.display@,
                    racer.race_elapsed_ms,
                    racer.best_race_ms,
                ),
            );
            &&& frame[0] == 0x81
            &&& frame[1] == 126
            &&& frame[2] * 256 + frame[3] == status.len()
            &&& frame.len() == 4 + status.len()
            &&& frame.skip(4) == status
        }),
{
    let text = racer.status();
    crate::status::lemma_status_length(
        racer.mode,
        racer.orientation,
        racer.accel,
        racer.display@,
        racer.race_elapsed_ms,
        racer.best_race_ms,
    );
    crate::websocket::law_frames_announce_their_length(vstd::utf8::encode_utf8(text));
}

/// A status can be put into words exactly when both times, as the machine counts them,
/// are below 10^16.
pub proof fn law_short_times_can_be_reported(racer: Racer)
    ensures
        racer.reportable() <==> (racer.race_elapsed_ms as usize) < 10_000_000_000_000_000 && (
        racer.best_race_ms as usize) < 10_000_000_000_000_000,
{
    crate::text::lemma_digits_fit((racer.race_elapsed_ms as usize) as nat);
    crate::text::lemma_digits_fit((racer.best_race_ms as usize) as nat);
}

/// What happens on a connection reaches the racer only as a command read on a live
/// connection, and then the racer enters the mode that the command names; a reboot, a
/// farewell and anything else leave it as it is.
pub proof fn law_only_commands_reach_the_racer(
    connection: ConnectionModel,
    event: Event,
    racer: Racer,
    now: u64,
)
    ensures
        ({
            let after = connection.racer_after(event, racer, now);
            match event {
                Event::Read(chunk) => if connection.stage == Stage::Listening {
                    match crate::websocket::input_of(chunk@) {
                        ClientInput::Command(Command::Display) => after == racer.entered(
                            crate::race::RaceMode::Display,
                            now,
                        ),
                        ClientInput::Command(Command::RaceReady) => after == racer.entered(
                            crate::race::RaceMode::RaceReady,
                            now,
                        ),
                        ClientInput::Command(Command::Racing) => after == racer.entered(
                            crate::race::RaceMode::Racing,
                            now,
                        ),
                        ClientInput::Command(Command::RaceOver) => after == racer.entered(
                            crate::race::RaceMode::RaceOver,
                            now,
                        ),
                        _ => after == racer,
                    }
                } else {
                    after == racer
                },
                _ => after == racer,
            }
        }),
{
}

/// How a live connection ends: when the client disconnects or closes it, or reading
/// fails, it is closed; the word for it reboots.
pub proof fn law_live_connections_end(connection: ConnectionModel, event: Event, racer: Racer)
    requires
        connection.stage == Stage::Listening,
        connection.awaits(event),
    ensures
        ({
            let (next, action) = connection.stepped(event, racer);
            let said = match event {
                Event::Read(chunk) => Some(crate::websocket::input_of(chunk@)),
                _ => None,
            };
            &&& action == Action::Close <==> event is ReadFailed || said == Some(
                ClientInput::Disconnected,
            ) || said == Some(ClientInput::Close)
            &&& action == Action::Reboot <==> said == Some(ClientInput::Command(Command::Reboot))
            &&& action == Action::StatusTooLong ==> !racer.reportable()
            &&& action == Action::Write <==> next.stage == Stage::Reporting
            &&& action != Action::Write <==> next.stage == Stage::Over
            &&& action == Action::Close || action == Action::Reboot || action
                == Action::StatusTooLong || action == Action::Write
        }),
{
}

/// What follows a reply: a live connection goes on listening after its handshake and
/// after each report and is closed where one of them is lost; the header of the page is
/// followed by the page, lost or not; and after any other reply the connection is flushed
/// and closed, whether it was lost or not.
#[verifier::rlimit(50)]
pub proof fn law_replies_are_followed_up(connection: ConnectionModel, event: Event, racer: Racer)
    requires
        connection.wf(),
        connection.out.len() <= usize::MAX,
        connection.stage.writes(),
        connection.awaits(event),
    ensures
        ({
            let (next, action) = connection.stepped(event, racer);
            let lost = event is WriteFailed || event == Event::Wrote(0);
            let whole = event == Event::Wrote((connection.out.len() - connection.sent) as usize);
            let live = connection.stage == Stage::Handshake || connection.stage == Stage::Reporting;
            &&& live && whole ==> next.stage == Stage::Listening && action == Action::Listen
            &&& live && lost ==> next.stage == Stage::Over && action == Action::Close
            &&& connection.stage == Stage::PageHeader && (whole || lost) ==> {
                ||| next.stage == Stage::PageBody && next.pending() == page_body() && action
                    == Action::Write
                ||| page_body().len() == 0 && next.stage == Stage::Over && action
                    == Action::FlushAndClose
            }
            &&& (connection.stage == Stage::Answering || connection.stage == Stage::PageBody) && (
            whole || lost) ==> next.stage == Stage::Over && action == Action::FlushAndClose
            &&& !whole && !lost ==> {
                &&& action == Action::Write
                &&& next.stage == connection.stage
                &&& next.out == connection.out
                &&& connection.sent < next.sent < connection.out.len()
            }
            &&& next.request == connection.request
        }),
{
    let (next, action) = connection.stepped(event, racer);
    if next.stage == Stage::PageBody && connection.stage == Stage::PageHeader {
        assert(next.pending() =~= page_body());
    }
}

/// Reading a request goes on until it is complete, and what was read is what was sent;
/// then its head, as parsed from all of it, decides the answer.
pub proof fn law_requests_are_read_whole(connection: ConnectionModel, chunk: Vec<u8>, racer: Racer)
    requires
        connection.stage == Stage::Reading,
    ensures
        ({
            let (next, action) = connection.stepped(Event::Read(chunk), racer);
            let all = connection.request + chunk@;
            let full = ConnectionModel { request: all, ..connection };
            let blank = all.len() >= 4 && all.skip(all.len() - 4) == seq![13u8, 10u8, 13u8, 10u8];
            &&& 0 < chunk@.len() && all.len() <= 1024 && !blank ==> next == full && action
                == Action::Read
            &&& 0 < chunk@.len() && all.len() <= 1024 && blank ==> (next, action)
                == full.answering(crate::http::route_of(crate::http::parsed_head(all)), racer)
        }),
{
    crate::http::law_requests_end_with_a_blank_line(connection.request, chunk@);
}

/// What is answered to what: each route has its reply, and starts to write it from its
/// first byte; a key of more than 28 bytes, or a time too long to be told, is said
/// instead.
#[verifier::rlimit(50)]
pub proof fn law_routes_have_their_replies(
    connection: ConnectionModel,
    route: crate::http::RouteModel,
    racer: Racer,
)
    ensures
        ({
            let (next, action) = connection.answering(route, racer);
            match route {
                crate::http::RouteModel::WebSocket(key) => {
                    &&& key.len() > 28 ==> action == Action::KeyTooLong && next.stage == Stage::Over
                    &&& key.len() <= 28 ==> action == Action::Write && next.stage
                        == Stage::Handshake && next.pending() == vstd::utf8::encode_utf8(
                        crate::http::handshake_text(key),
                    )
                },
                crate::http::RouteModel::Page => action == Action::Write && next.stage
                    == Stage::PageHeader && next.pending() == page_head(),
                crate::http::RouteModel::Data => {
                    &&& !racer.reportable() ==> action == Action::StatusTooLong && next.stage
                        == Stage::Over
                    &&& racer.reportable() ==> action == Action::Write && next.stage
                        == Stage::Answering && next.pending() == vstd::utf8::encode_utf8(
                        crate::http::data_text(racer.status()),
                    )
                },
                crate::http::RouteModel::BadRequest => action == Action::Write && next.stage
                    == Stage::Answering && next.pending() == refusal(),
            }
        }),
{
    reveal_strlit("HTTP/1.1 101 Switching Protocols\r\n");
    reveal_strlit("HTTP/1.1 200 OK\r\nContent-Type: application/json\r\nContent-Length: ");
    reveal_strlit("HTTP/1.1 200 OK\r\nContent-Type: text/html\r\nConnection: close\r\n\r\n");
    reveal_strlit("HTTP/1.1 400 Bad Request\r\nContent-Length: 0\r\n\r\n");
    lemma_some_bytes(
        "HTTP/1.1 200 OK\r\nContent-Type: text/html\r\nConnection: close\r\n\r\n"@,
    );
    lemma_some_bytes("HTTP/1.1 400 Bad Request\r\nContent-Length: 0\r\n\r\n"@);
    lemma_some_bytes(crate::http::data_text(racer.status()));
    if let crate::http::RouteModel::WebSocket(key) = route {
        lemma_some_bytes(crate::http::handshake_text(key));
    }
    let (next, action) = connection.answering(route, racer);
    assert(next.out.skip(0) =~= next.out);
}

/// Every event that can happen is waited for: reads and failures to read while a request
/// or a command is read, a pause only while a command is, and writes, of no more than is
/// pending, while something is written.
pub proof fn law_events_are_awaited(connection: ConnectionModel, event: Event)
    ensures
        connection.awaits(event) <==> match event {
            Event::Read(chunk) => connection.stage == Stage::Reading || connection.stage
                == Stage::Listening,
            Event::ReadFailed => connection.stage == Stage::Reading || connection.stage
                == Stage::Listening,
            Event::Paused => connection.stage == Stage::Listening,
            Event::Wrote(n) => connection.stage != Stage::Reading && connection.stage
                != Stage::Listening && connection.stage != Stage::Over && n
                <= connection.out.skip(connection.sent).len(),
            Event::WriteFailed => connection.stage != Stage::Reading && connection.stage
                != Stage::Listening && connection.stage != Stage::Over,
        },
        connection.finishes_race(event) <==> connection.stage == Stage::Listening && event is Read
            && crate::websocket::input_of(event->Read_0@) == ClientInput::Command(
            Command::RaceOver,
        ),
{
}

} // verus!
