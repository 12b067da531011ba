use racer::base64::base64_encode;
use racer::sha1::sha1;
use racer::websocket::{
    encode_ws_text_frame, read_client_input, websocket_accept_key, ClientInput, Command,
};

fn hex(bytes: &[u8]) -> String {
    bytes.iter().map(|b| format!("{:02x}", b)).collect()
}

fn base64(input: &[u8]) -> String {
    let mut out = [0u8; 200];
    let len = base64_encode(input, &mut out);
    String::from_utf8(out[..len].to_vec()).unwrap()
}

fn accept(key: &str) -> String {
    let mut out = heapless::String::<32>::new();
    out.push_str("left over").unwrap();
    websocket_accept_key(key, &mut out);
    String::from(out.as_str())
}

fn masked(text: &[u8], mask: [u8; 4]) -> Vec<u8> {
    let mut frame = vec![0x81, 0x80 | text.len() as u8];
    frame.extend_from_slice(&mask);
    for (i, b) in text.iter().enumerate() {
        frame.push(b ^ mask[i % 4]);
    }
    frame
}

#[test]
fn digests_of_known_messages() {
    assert_eq!(hex(&sha1(b"")), "da39a3ee5e6b4b0d3255bfef95601890afd80709");
    assert_eq!(hex(&sha1(b"abc")), "a9993e364706816aba3e25717850c26c9cd0d89d");
    assert_eq!(
        hex(&sha1(b"abcdbcdecdefdefgefghfghighijhijkijkljklmklmnlmnomnopnopq")),
        "84983e441c3bd26ebaae4aa1f95129e5e54670f1"
    );
}

#[test]
fn digests_around_the_block_size() {
    assert_eq!(hex(&sha1(&[b'a'; 55])), "c1c8bbdc22796e28c0e15163d20899b65621d65a");
    assert_eq!(hex(&sha1(&[b'a'; 64])), "0098ba824b5c16427bd7a1122a5a442a25ec644d");
    assert_eq!(hex(&sha1(&[b'a'; 119])), "ee971065aaa017e0632a8ca6c77bb3bf8b1dfc56");
}

#[test]
fn zeros_are_not_padding() {
    assert_ne!(sha1(&[0]), sha1(&[0, 0]));
    assert_ne!(sha1(&[]), sha1(&[0x80]));
}

#[test]
fn base64_of_known_inputs() {
    assert_eq!(base64(b""), "");
    assert_eq!(base64(b"f"), "Zg==");
    assert_eq!(base64(b"fo"), "Zm8=");
    assert_eq!(base64(b"foo"), "Zm9v");
    assert_eq!(base64(b"foob"), "Zm9vYg==");
    assert_eq!(base64(b"fooba"), "Zm9vYmE=");
    assert_eq!(base64(b"foobar"), "Zm9vYmFy");
    assert_eq!(base64(&[0xFB, 0xFF, 0xBF]), "+/+/");
}

#[test]
fn base64_decodes_to_its_input() {
    let alphabet = b"ABCDEFGHIJKLMNOPQRSTUVWXYZabcdefghijklmnopqrstuvwxyz0123456789+/";
    for len in 0..70usize {
        let input: Vec<u8> = (0..len).map(|i| (i * 91 + len) as u8).collect();
        let code = base64(&input);
        let mut bits = 0u32;
        let mut count = 0;
        let mut decoded = Vec::new();
        for c in code.bytes().filter(|&c| c != b'=') {
            bits = bits << 6 | alphabet.iter().position(|&a| a == c).unwrap() as u32;
            count += 6;
            if count >= 8 {
                count -= 8;
                decoded.push((bits >> count) as u8);
            }
        }
        assert_eq!(decoded, input);
    }
}

#[test]
fn base64_leaves_the_rest_alone() {
    let mut out = [9u8; 6];
    assert_eq!(base64_encode(b"foo", &mut out), 4);
    assert_eq!(&out[4..], &[9, 9]);
}

#[test]
fn handshake_keys() {
    assert_eq!(accept("dGhlIHNhbXBsZSBub25jZQ=="), "s3pPLMBiTxaQ9kYGzzhZRbK+xOo=");
    assert_eq!(accept("x3JJHMbDL1EzLkh9GBhXDw=="), "HSmrc0sMlYUkAGmm5OPpG2HaGWk=");
    assert_eq!(accept(""), "Kfh9QIsMVZcl6xEPYxPHzW8SZ8w=");
    assert_eq!(accept("xxxxxxxxxxxxxxxxxxxxxxxxxxxx"), "atUL8kQGe4qplhq19Y5TKRw/Uj4=");
}

#[test]
fn frames_of_every_length_class() {
    let mut buf = vec![7u8; 70020];
    assert_eq!(encode_ws_text_frame(b"hi", &mut buf), 4);
    assert_eq!(&buf[..5], &[0x81, 2, b'h', b'i', 7]);

    let payload = vec![1u8; 125];
    assert_eq!(encode_ws_text_frame(&payload, &mut buf), 127);
    assert_eq!(&buf[..3], &[0x81, 125, 1]);

    let payload = vec![2u8; 126];
    assert_eq!(encode_ws_text_frame(&payload, &mut buf), 130);
    assert_eq!(&buf[..5], &[0x81, 126, 0, 126, 2]);

    let payload = vec![3u8; 65535];
    assert_eq!(encode_ws_text_frame(&payload, &mut buf), 65539);
    assert_eq!(&buf[..5], &[0x81, 126, 255, 255, 3]);

    let payload = vec![4u8; 65536];
    assert_eq!(encode_ws_text_frame(&payload, &mut buf), 65546);
    assert_eq!(&buf[..11], &[0x81, 127, 0, 0, 0, 0, 0, 1, 0, 0, 4]);
    assert_eq!(buf[65545], 4);
    assert_eq!(buf[65546], 7);
}

#[test]
fn empty_payload_makes_a_frame() {
    let mut buf = [9u8; 3];
    assert_eq!(encode_ws_text_frame(&[], &mut buf), 2);
    assert_eq!(buf, [0x81, 0, 9]);
}

#[test]
fn frames_tell_payloads_apart() {
    let payloads: [&[u8]; 4] = [b"", b"a", b"ab", &[b'a'; 126]];
    let frames: Vec<Vec<u8>> = payloads
        .iter()
        .map(|payload| {
            let mut buf = [0u8; 200];
            let len = encode_ws_text_frame(payload, &mut buf);
            buf[..len].to_vec()
        })
        .collect();
    for i in 0..4 {
        for j in 0..i {
            assert_ne!(frames[i], frames[j]);
        }
    }
}

#[test]
fn commands_are_understood_whatever_the_mask() {
    let words: [(&[u8], Command); 5] = [
        (b"mode_display", Command::Display),
        (b"mode_ready", Command::RaceReady),
        (b"mode_racing", Command::Racing),
        (b"mode_over", Command::RaceOver),
        (b"reboot", Command::Reboot),
    ];
    for (word, command) in words {
        for mask in [[0, 0, 0, 0], [1, 2, 3, 4], [255, 129, 7, 64]] {
            assert_eq!(read_client_input(&masked(word, mask)), ClientInput::Command(command));
        }
        let mut plain = [0u8; 40];
        let len = encode_ws_text_frame(word, &mut plain);
        assert_eq!(read_client_input(&plain[..len]), ClientInput::Command(command));
    }
}

#[test]
fn other_input_is_told_apart() {
    assert_eq!(read_client_input(&[]), ClientInput::Disconnected);
    assert_eq!(read_client_input(&[0x88]), ClientInput::Ignored);
    assert_eq!(read_client_input(&[0x88, 0x00]), ClientInput::Close);
    assert_eq!(read_client_input(&[0x08, 0x80, 1, 2, 3, 4]), ClientInput::Close);
    assert_eq!(read_client_input(&[0x89, 0x00]), ClientInput::Ignored);
    assert_eq!(read_client_input(&masked(b"mode_reboot", [1, 2, 3, 4])), ClientInput::Ignored);
    assert_eq!(read_client_input(&masked(b"", [1, 2, 3, 4])), ClientInput::Ignored);
    assert_eq!(read_client_input(&masked(&[b'x'; 33], [1, 2, 3, 4])), ClientInput::Ignored);
}

#[test]
fn cut_and_overlong_frames() {
    let whole = masked(b"reboot", [9, 8, 7, 6]);
    assert_eq!(read_client_input(&whole[..whole.len() - 1]), ClientInput::Ignored);
    let mut more = whole.clone();
    more.push(0);
    assert_eq!(read_client_input(&more), ClientInput::Command(Command::Reboot));
    let mut binary = whole;
    binary[0] = 0x82;
    assert_eq!(read_client_input(&binary), ClientInput::Ignored);
}
