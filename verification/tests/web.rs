use racer::http::{
    after_write, bad_request_response, data_response, find_header_value, handshake_response,
    page_header, route, route_request, Header, ReadStep, RequestHead, RequestReader, Route,
    WriteStep,
};
use racer::page::HTML_PAGE;
use racer::race::{RaceMode, Racer};
use racer::server::{Action, Connection, Event, Stage, PAUSE_MS};
use racer::status::build_status_json;
use racer::websocket::encode_ws_text_frame;

const UPGRADE: &str = "GET /ws HTTP/1.1\r\nHost: racer\r\nUpgrade: websocket\r\nconnection: Upgrade\r\nSEC-WEBSOCKET-KEY: dGhlIHNhbXBsZSBub25jZQ==\r\n\r\n";
const HANDSHAKE: &str = "HTTP/1.1 101 Switching Protocols\r\nUpgrade: websocket\r\nConnection: Upgrade\r\nSec-WebSocket-Accept: s3pPLMBiTxaQ9kYGzzhZRbK+xOo=\r\n\r\n";
const REFUSAL: &str = "HTTP/1.1 400 Bad Request\r\nContent-Length: 0\r\n\r\n";
const PAGE_HEADER: &str = "HTTP/1.1 200 OK\r\nContent-Type: text/html\r\nConnection: close\r\n\r\n";

fn header(name: &str, value: &[u8]) -> Header {
    Header { name: String::from(name), value: value.to_vec() }
}

fn status(racer: &Racer) -> heapless::String<1024> {
    build_status_json(
        racer.mode,
        racer.orientation,
        racer.accel,
        &racer.display,
        racer.race_elapsed_ms,
        racer.best_race_ms,
    )
}

fn report(racer: &Racer) -> Vec<u8> {
    let mut buf = [0u8; 1024];
    let len = encode_ws_text_frame(status(racer).as_bytes(), &mut buf);
    buf[..len].to_vec()
}

fn masked(text: &[u8]) -> Vec<u8> {
    let mask = [11u8, 22, 33, 44];
    let mut frame = vec![0x81, 0x80 | text.len() as u8];
    frame.extend_from_slice(&mask);
    for (i, b) in text.iter().enumerate() {
        frame.push(b ^ mask[i % 4]);
    }
    frame
}

fn read(bytes: &[u8]) -> Event {
    Event::Read(bytes.to_vec())
}

/// Writes all that is pending, `at_once` bytes at a time, and what to do then.
fn write_all(connection: &mut Connection, racer: &mut Racer, at_once: usize) -> (Vec<u8>, Action) {
    let mut written = Vec::new();
    let stage = connection.stage;
    loop {
        let pending = connection.pending();
        let n = pending.len().min(at_once);
        written.extend_from_slice(&pending[..n]);
        let action = connection.step(Event::Wrote(n), racer, 0);
        if action != Action::Write || connection.stage != stage {
            return (written, action);
        }
    }
}

fn live() -> (Connection, Racer) {
    let mut racer = Racer::new();
    let mut connection = Connection::new();
    assert_eq!(connection.step(read(UPGRADE.as_bytes()), &mut racer, 0), Action::Write);
    assert_eq!(connection.stage, Stage::Handshake);
    let (written, action) = write_all(&mut connection, &mut racer, 1000);
    assert_eq!(written, HANDSHAKE.as_bytes());
    assert_eq!(action, Action::Listen);
    (connection, racer)
}

#[test]
fn reading_ends_with_a_blank_line() {
    let mut reader = RequestReader::new();
    assert_eq!(reader.receive(b"GET / HTTP/1.1\r\n"), ReadStep::More);
    assert_eq!(reader.receive(b"\r"), ReadStep::More);
    assert_eq!(reader.receive(b"\n"), ReadStep::Complete);
    assert_eq!(reader.received(), b"GET / HTTP/1.1\r\n\r\n");
}

#[test]
fn reading_in_chunks_comes_to_the_same() {
    let request = UPGRADE.as_bytes();
    for cut in 1..request.len() {
        let mut reader = RequestReader::new();
        assert_eq!(reader.receive(&request[..cut]), ReadStep::More);
        assert_eq!(reader.receive(&request[cut..]), ReadStep::Complete);
        assert_eq!(reader.received(), request);
    }
}

#[test]
fn reading_stops_at_the_limit() {
    let mut reader = RequestReader::new();
    assert_eq!(reader.receive(&[b'a'; 1000]), ReadStep::More);
    assert_eq!(reader.receive(&[b'b'; 25]), ReadStep::TooLarge);
    assert_eq!(reader.received().len(), 1000);
    assert_eq!(reader.receive(&[b'b'; 5000]), ReadStep::TooLarge);
    assert_eq!(reader.receive(&[b'b'; 24]), ReadStep::More);
    assert_eq!(reader.received().len(), 1024);
    assert_eq!(reader.receive(b""), ReadStep::Ended);
    assert_eq!(reader.received().len(), 1024);
}

#[test]
fn headers_are_found_whatever_the_case() {
    let headers = vec![header("Host", b"racer"), header("UpGrade", b"websocket")];
    assert_eq!(find_header_value(&headers, "upgrade"), Some("websocket"));
    assert_eq!(find_header_value(&headers, "UPGRADE"), Some("websocket"));
    assert_eq!(find_header_value(&headers, "Upgrad"), None);
    assert_eq!(find_header_value(&headers, "Connection"), None);
    assert_eq!(find_header_value(&[], "Host"), None);
}

#[test]
fn only_ascii_letters_have_a_case() {
    let headers = vec![header("a[z", b"1"), header("a{z", b"2"), header("a@z", b"3"), header("a`z", b"4")];
    assert_eq!(find_header_value(&headers, "A{Z"), Some("2"));
    assert_eq!(find_header_value(&headers, "A`Z"), Some("4"));
}

#[test]
fn first_header_with_text_wins() {
    let headers = vec![header("Key", &[0xFF]), header("key", b"one"), header("KEY", b"two")];
    assert_eq!(find_header_value(&headers, "Key"), Some("one"));
    assert_eq!(find_header_value(&[header("Key", &[0xC3, 0x28])], "Key"), None);
    assert_eq!(find_header_value(&[header("Key", "\u{e9}".as_bytes())], "Key"), Some("\u{e9}"));
}

#[test]
fn routes_of_requests() {
    let of = |text: &str| route_request(text.as_bytes(), true);
    assert!(matches!(of("GET / HTTP/1.1\r\n\r\n"), Route::Page));
    assert!(matches!(of("POST /anything HTTP/1.1\r\nA: b\r\n\r\n"), Route::Page));
    assert!(matches!(of("GET /data HTTP/1.1\r\n\r\n"), Route::Data));
    assert!(matches!(of("POST /data HTTP/1.1\r\n\r\n"), Route::Data));
    assert!(matches!(of("GET /data?x HTTP/1.1\r\n\r\n"), Route::Page));
    assert!(matches!(of("GET /ws HTTP/1.1\r\n\r\n"), Route::Page));
    assert!(matches!(of(UPGRADE), Route::WebSocket(key) if key == "dGhlIHNhbXBsZSBub25jZQ=="));
    assert!(matches!(of(&UPGRADE.replace("GET", "POST")), Route::Page));
    assert!(matches!(of(&UPGRADE.replace("/ws", "/data")), Route::Data));
    assert!(matches!(of(&UPGRADE.replace("connection", "connexion")), Route::Page));
    assert!(matches!(of(&UPGRADE.replace("Upgrade: w", "Upgrad: w")), Route::Page));
    assert!(matches!(of(&UPGRADE.replace("KEY", "KEYS")), Route::Page));
}

#[test]
fn bad_requests_have_no_route() {
    assert!(matches!(route_request(b"GET / HTTP/1.1\r\n\r\n", false), Route::BadRequest));
    assert!(matches!(route_request(b"GET / HTTP/1.1\r\n", true), Route::BadRequest));
    assert!(matches!(route_request(b"\x00\x01\r\n\r\n", true), Route::BadRequest));
    let mut many = String::from("GET / HTTP/1.1\r\n");
    for i in 0..17 {
        many.push_str(&format!("H{}: v\r\n", i));
    }
    many.push_str("\r\n");
    assert!(matches!(route_request(many.as_bytes(), true), Route::BadRequest));
    let few = many.replace("H16: v\r\n", "");
    assert!(matches!(route_request(few.as_bytes(), true), Route::Page));
}

#[test]
fn routes_of_parsed_heads() {
    let head = |method: Option<&str>, path: Option<&str>, headers: Vec<Header>| {
        Some(RequestHead {
            method: method.map(String::from),
            path: path.map(String::from),
            headers,
        })
    };
    let upgrade = || {
        vec![
            header("Upgrade", b"websocket"),
            header("Connection", b"Upgrade"),
            header("Sec-WebSocket-Key", b"k"),
        ]
    };
    assert!(matches!(route(&None), Route::BadRequest));
    assert!(matches!(route(&head(Some("GET"), None, upgrade())), Route::BadRequest));
    assert!(matches!(route(&head(Some("GET"), Some("/ws"), upgrade())), Route::WebSocket(k) if k == "k"));
    assert!(matches!(route(&head(None, Some("/ws"), upgrade())), Route::Page));
    assert!(matches!(route(&head(Some("get"), Some("/ws"), upgrade())), Route::Page));
    assert!(matches!(route(&head(None, Some("/data"), vec![])), Route::Data));
    assert!(matches!(route(&head(None, Some(""), vec![])), Route::Page));
}

#[test]
fn replies_are_worded_exactly() {
    assert_eq!(handshake_response("dGhlIHNhbXBsZSBub25jZQ==").as_str(), HANDSHAKE);
    assert_eq!(bad_request_response().as_str(), REFUSAL);
    assert_eq!(page_header(), PAGE_HEADER);
    let mut json = heapless::String::<1024>::new();
    json.push_str("{\"caf\u{e9}\":1}").unwrap();
    assert_eq!(
        data_response(&json).as_str(),
        "HTTP/1.1 200 OK\r\nContent-Type: application/json\r\nContent-Length: 11\r\n\r\n{\"caf\u{e9}\":1}"
    );
}

#[test]
fn content_length_is_exact() {
    for len in [0usize, 1, 9, 10, 99, 100, 999, 1000, 1024] {
        let mut json = heapless::String::<1024>::new();
        for _ in 0..len {
            json.push('x').unwrap();
        }
        let reply = data_response(&json);
        let (head, body) = reply.as_str().split_once("\r\n\r\n").unwrap();
        assert!(head.ends_with(&format!("Content-Length: {}", len)));
        assert_eq!(body, json.as_str());
    }
}

#[test]
fn writing_advances() {
    assert_eq!(after_write(10, 0, 10), WriteStep::Done);
    assert_eq!(after_write(10, 0, 4), WriteStep::From(4));
    assert_eq!(after_write(10, 4, 5), WriteStep::From(9));
    assert_eq!(after_write(10, 9, 1), WriteStep::Done);
    assert_eq!(after_write(10, 9, 0), WriteStep::ConnectionReset);
}

#[test]
fn bad_requests_are_refused() {
    let cut = Event::Read(Vec::new());
    let long = read(&[b'a'; 1025]);
    let junk = read(b"\x00\r\n\r\n");
    for event in [cut, long, junk, Event::ReadFailed] {
        let mut racer = Racer::new();
        let mut connection = Connection::new();
        assert_eq!(connection.step(event, &mut racer, 0), Action::Write);
        let (written, action) = write_all(&mut connection, &mut racer, 10);
        assert_eq!(written, REFUSAL.as_bytes());
        assert_eq!(action, Action::FlushAndClose);
        assert_eq!(connection.stage, Stage::Over);
    }
}

#[test]
fn the_status_is_served() {
    let mut racer = Racer::new();
    racer.enter_mode(RaceMode::Racing, 0);
    let mut connection = Connection::new();
    assert_eq!(connection.step(read(b"GET /data HTTP/1.1\r\n"), &mut racer, 5), Action::Read);
    assert!(!connection.is_writing());
    assert_eq!(connection.step(read(b"\r\n"), &mut racer, 5), Action::Write);
    assert!(connection.is_writing());
    let (written, action) = write_all(&mut connection, &mut racer, 100);
    assert_eq!(written, data_response(&status(&racer)).as_bytes());
    assert_eq!(action, Action::FlushAndClose);
}

#[test]
fn the_page_is_served() {
    let mut racer = Racer::new();
    let mut connection = Connection::new();
    assert_eq!(connection.step(read(b"GET / HTTP/1.1\r\n\r\n"), &mut racer, 0), Action::Write);
    assert_eq!(connection.stage, Stage::PageHeader);
    let (written, action) = write_all(&mut connection, &mut racer, 7);
    assert_eq!(written, PAGE_HEADER.as_bytes());
    assert_eq!(action, Action::Write);
    assert_eq!(connection.stage, Stage::PageBody);
    let (written, action) = write_all(&mut connection, &mut racer, 1000);
    assert_eq!(written, HTML_PAGE.as_bytes());
    assert_eq!(action, Action::FlushAndClose);
}

#[test]
fn the_page_follows_a_lost_header() {
    let mut racer = Racer::new();
    let mut connection = Connection::new();
    connection.step(read(b"GET / HTTP/1.1\r\n\r\n"), &mut racer, 0);
    assert_eq!(connection.step(Event::WriteFailed, &mut racer, 0), Action::Write);
    assert_eq!(connection.pending(), HTML_PAGE.as_bytes());
    assert_eq!(connection.step(Event::Wrote(0), &mut racer, 0), Action::FlushAndClose);
}

#[test]
fn the_page_talks_to_the_library() {
    assert!(HTML_PAGE.starts_with("<!DOCTYPE html>"));
    assert!(HTML_PAGE.ends_with("</html>"));
    assert!(HTML_PAGE.contains("/ws"));
    for word in ["mode_display", "mode_ready", "mode_racing", "mode_over", "reboot"] {
        assert!(HTML_PAGE.contains(word));
    }
}

#[test]
fn a_lost_handshake_closes() {
    for event in [Event::WriteFailed, Event::Wrote(0)] {
        let mut racer = Racer::new();
        let mut connection = Connection::new();
        connection.step(read(UPGRADE.as_bytes()), &mut racer, 0);
        assert_eq!(connection.step(event, &mut racer, 0), Action::Close);
    }
}

#[test]
fn a_long_key_is_told() {
    let request = UPGRADE.replace("dGhlIHNhbXBsZSBub25jZQ==", "12345678901234567890123456789");
    let mut racer = Racer::new();
    let mut connection = Connection::new();
    assert_eq!(connection.step(read(request.as_bytes()), &mut racer, 0), Action::KeyTooLong);
    let request = UPGRADE.replace("dGhlIHNhbXBsZSBub25jZQ==", "1234567890123456789012345678");
    let mut connection = Connection::new();
    assert_eq!(connection.step(read(request.as_bytes()), &mut racer, 0), Action::Write);
}

#[test]
fn a_long_race_time_is_told_where_a_status_is_built() {
    let mut racer = Racer::new();
    racer.best_race_ms = 10_000_000_000_000_000;
    assert!(!racer.can_report());
    let mut connection = Connection::new();
    let action = connection.step(read(b"GET /data HTTP/1.1\r\n\r\n"), &mut racer, 0);
    assert_eq!((action, connection.stage), (Action::StatusTooLong, Stage::Over));
    let mut connection = Connection::new();
    let action = connection.step(read(b"GET / HTTP/1.1\r\n\r\n"), &mut racer, 0);
    assert_eq!((action, connection.stage), (Action::Write, Stage::PageHeader));
    let (mut connection, mut racer) = live();
    racer.race_elapsed_ms = 10_000_000_000_000_000;
    assert_eq!(connection.step(Event::Paused, &mut racer, 0), Action::StatusTooLong);
    let (mut connection, mut racer) = live();
    racer.race_elapsed_ms = 9_999_999_999_999_999;
    assert!(racer.can_report());
    assert_eq!(connection.step(Event::Paused, &mut racer, 0), Action::Write);
}

#[test]
fn only_finishing_a_race_looks_at_the_clock() {
    let (mut connection, mut racer) = live();
    racer.enter_mode(RaceMode::Racing, 1000);
    assert_eq!(connection.step(Event::Paused, &mut racer, 0), Action::Write);
    write_all(&mut connection, &mut racer, 1000);
    let action = connection.step(read(&masked(b"mode_display")), &mut racer, 0);
    assert_eq!((action, racer.mode), (Action::Write, RaceMode::Display));
}

#[test]
fn clients_are_kept_informed() {
    assert_eq!(PAUSE_MS, 500);
    let (mut connection, mut racer) = live();
    for event in [Event::Paused, read(&[0x81]), read(&masked(b"hello")), read(&[0x89, 0x00])] {
        assert_eq!(connection.step(event, &mut racer, 0), Action::Write);
        assert_eq!(connection.stage, Stage::Reporting);
        let (written, action) = write_all(&mut connection, &mut racer, 64);
        assert_eq!(written, report(&racer));
        assert_eq!(action, Action::Listen);
    }
}

#[test]
fn commands_are_obeyed_and_reported() {
    let (mut connection, mut racer) = live();
    let steps: [(&[u8], RaceMode); 4] = [
        (b"mode_ready", RaceMode::RaceReady),
        (b"mode_racing", RaceMode::Racing),
        (b"mode_over", RaceMode::RaceOver),
        (b"mode_display", RaceMode::Display),
    ];
    for (i, (word, mode)) in steps.iter().enumerate() {
        let now = 1000 * i as u64;
        assert_eq!(connection.step(read(&masked(word)), &mut racer, now), Action::Write);
        assert_eq!(racer.mode, *mode);
        let (written, action) = write_all(&mut connection, &mut racer, 1000);
        assert_eq!(written, report(&racer));
        assert_eq!(action, Action::Listen);
    }
    assert_eq!(racer.best_race_ms, 1000);
}

#[test]
fn a_live_connection_ends() {
    let endings: [(Event, Action); 4] = [
        (Event::Read(Vec::new()), Action::Close),
        (read(&[0x88, 0x00]), Action::Close),
        (Event::ReadFailed, Action::Close),
        (read(&masked(b"reboot")), Action::Reboot),
    ];
    for (event, expected) in endings {
        let (mut connection, mut racer) = live();
        assert_eq!(connection.step(event, &mut racer, 0), expected);
        assert_eq!(connection.stage, Stage::Over);
        assert_eq!(racer.mode, RaceMode::Display);
    }
    for event in [Event::WriteFailed, Event::Wrote(0)] {
        let (mut connection, mut racer) = live();
        connection.step(Event::Paused, &mut racer, 0);
        assert_eq!(connection.step(event, &mut racer, 0), Action::Close);
    }
}
