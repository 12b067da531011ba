//! The WebSocket handshake key and the frames of the live connection.
use vstd::prelude::*;

use crate::base64::base64_encode;
use crate::buffer::{clear, put_str, TextBuffer};
use crate::sha1::sha1;

verus! {

/// The bytes that the protocol appends to a client's key.
pub open spec fn guid() -> Seq<u8> {
    vstd::utf8::encode_utf8("258EAFA5-E914-47DA-95CA-C5AB0DC85B11"@)
}

/// The longest client key that the handshake buffer holds.
pub const MAX_KEY: usize = 28;

/// The answer to a client key: the Base64 of the SHA-1 digest of the key and the
/// protocol's own bytes.
pub open spec fn accept_key(key: Seq<u8>) -> Seq<char> {
    crate::buffer::ascii(crate::base64::encoded(crate::sha1::digest(key + guid())))
}

/// Copies `bytes` into `buffer` from `at` on.
fn copy_into(buffer: &mut [u8], at: usize, bytes: &[u8])
    requires
        at + bytes@.len() <= old(buffer)@.len(),
    ensures
        final(buffer)@ == old(buffer)@.take(at as int) + bytes@ + old(buffer)@.skip(
            at + bytes@.len(),
        ),
{
    let room: usize = buffer.len();
    let mut i: usize = 0;
    while i < bytes.len()
        invariant
            i <= bytes@.len(),
            room == buffer@.len(),
            at + bytes@.len() <= old(buffer)@.len(),
            buffer@.len() == old(buffer)@.len(),
            forall|k: int|
                0 <= k < buffer@.len() ==> #[trigger] buffer@[k] == if at <= k < at + i {
                    bytes@[k - at]
                } else {
                    old(buffer)@[k]
                },
        decreases bytes@.len() - i,
    {
        buffer[at + i] = bytes[i];
        i = i + 1;
    }
    assert(buffer@ =~= old(buffer)@.take(at as int) + bytes@ + old(buffer)@.skip(at + bytes@.len()));
}

/// Every letter of an encoding is ASCII.
pub proof fn lemma_encoded_is_ascii(input: Seq<u8>)
    ensures
        forall|k: int|
            0 <= k < crate::base64::encoded(input).len() ==> #[trigger] crate::base64::encoded(
                input,
            )[k] <= 0x7f,
{
    assert forall|k: int| 0 <= k < crate::base64::encoded(input).len() implies #[trigger] crate::base64::encoded(
        input,
    )[k] <= 0x7f by {
        assert(crate::base64::encoded(input)[k] == crate::base64::encoded_letter(input, k));
    }
}

/// Replaces `out` with the answer to the client key `key`.
pub fn websocket_accept_key(key: &str, out: &mut heapless::String<32>)
    requires
        vstd::utf8::encode_utf8(key@).len() <= MAX_KEY,
    ensures
        final(out).text() == accept_key(vstd::utf8::encode_utf8(key@)),
{
    let mut buffer: [u8; 64] = [0u8; 64];
    let key_bytes = key.as_bytes();
    let guid_bytes = "258EAFA5-E914-47DA-95CA-C5AB0DC85B11".as_bytes();
    proof {
        reveal_strlit("258EAFA5-E914-47DA-95CA-C5AB0DC85B11");
        crate::buffer::lemma_byte_len_ascii("258EAFA5-E914-47DA-95CA-C5AB0DC85B11"@);
    }
    let total: usize = key_bytes.len() + guid_bytes.len();
    copy_into(&mut buffer, 0, key_bytes);
    copy_into(&mut buffer, key_bytes.len(), guid_bytes);
    let message = vstd::slice::slice_subrange(&buffer, 0, total);
    assert(message@ =~= key_bytes@ + guid());
    let hash = sha1(message);
    let mut encoded: [u8; 32] = [0u8; 32];
    let len: usize = base64_encode(&hash, &mut encoded);
    let letters = vstd::slice::slice_subrange(&encoded, 0, len);
    assert(letters@ =~= crate::base64::encoded(hash@));
    proof {
        lemma_encoded_is_ascii(hash@);
        crate::buffer::lemma_ascii_bytes(letters@);
    }
    let accept = core::str::from_utf8(letters).unwrap();
    clear(out);
    put_str(out, accept);
    assert(out.text() =~= accept_key(vstd::utf8::encode_utf8(key@)));
}

/// The header of a text frame that carries `len` bytes.
pub open spec fn frame_header(len: nat) -> Seq<u8> {
    if len <= 125 {
        seq![0x81u8, len as u8]
    } else if len <= 65535 {
        seq![0x81u8, 126u8, (len / 256) as u8, (len % 256) as u8]
    } else {
        seq![0x81u8, 127u8] + crate::sha1::be64(len as u64)
    }
}

/// A whole text frame that carries `payload`, unmasked.
pub open spec fn text_frame(payload: Seq<u8>) -> Seq<u8> {
    frame_header(payload.len()) + payload
}

/// Writes a text frame that carries `payload` to the front of `buf`; returns its length.
pub fn encode_ws_text_frame(payload: &[u8], buf: &mut [u8]) -> (written: usize)
    requires
        text_frame(payload@).len() <= old(buf)@.len(),
    ensures
        written == text_frame(payload@).len(),
        final(buf)@ == text_frame(payload@) + old(buf)@.skip(written as int),
{
    let len: usize = payload.len();
    let mut pos: usize = 1;
    buf[0] = 0x81;
    if len <= 125 {
        buf[pos] = len as u8;
        pos = pos + 1;
    } else if len <= 65535 {
        buf[pos] = 126;
        buf[pos + 1] = (len / 256) as u8;
        buf[pos + 2] = (len % 256) as u8;
        pos = pos + 3;
    } else {
        buf[pos] = 127;
        let high: u32 = ((len as u64) >> 32) as u32;
        let low: u32 = (len as u64) as u32;
        buf[pos + 1] = (high >> 24) as u8;
        buf[pos + 2] = (high >> 16) as u8;
        buf[pos + 3] = (high >> 8) as u8;
        buf[pos + 4] = high as u8;
        buf[pos + 5] = (low >> 24) as u8;
        buf[pos + 6] = (low >> 16) as u8;
        buf[pos + 7] = (low >> 8) as u8;
        buf[pos + 8] = low as u8;
        pos = pos + 9;
    }
    assert(buf@.take(pos as int) =~= frame_header(len as nat));
    copy_into(buf, pos, payload);
    assert(buf@ =~= text_frame(payload@) + old(buf)@.skip(pos + len));
    pos + len
}

/// What a browser can ask the racer to do.
#[derive(Clone, Copy, Debug, PartialEq, Eq, Structural)]
pub enum Command {
    Display,
    RaceReady,
    Racing,
    RaceOver,
    Reboot,
}

/// What a read from a WebSocket client amounts to.
#[derive(Clone, Copy, Debug, PartialEq, Eq, Structural)]
pub enum ClientInput {
    /// The connection has ended.
    Disconnected,
    /// The client closes the connection.
    Close,
    /// The client sent a command.
    Command(Command),
    /// Nothing that the racer acts on.
    Ignored,
}

/// The longest text that is looked at as a command.
pub const MAX_COMMAND: usize = 32;

/// Where the payload of a frame starts, after the header and the mask if there is one.
pub open spec fn payload_start(frame: Seq<u8>) -> int {
    if frame[1] >= 128 {
        6
    } else {
        2
    }
}

/// The payload of a short text frame that was read whole, unmasked.
pub open spec fn frame_text(frame: Seq<u8>) -> Option<Seq<u8>> {
    let start = payload_start(frame);
    let len = frame[1] % 128;
    if frame.len() >= 2 && frame[0] % 16 == 1 && start + len <= frame.len() && len <= MAX_COMMAND {
        Some(
            Seq::new(
                len as nat,
                |i: int|
                    if frame[1] >= 128 {
                        frame[start + i] ^ frame[2 + i % 4]
                    } else {
                        frame[start + i]
                    },
            ),
        )
    } else {
        None
    }
}

/// The command that `text` spells.
pub open spec fn command_of(text: Seq<u8>) -> Option<Command> {
    if text == vstd::utf8::encode_utf8("mode_display"@) {
        Some(Command::Display)
    } else if text == vstd::utf8::encode_utf8("mode_ready"@) {
        Some(Command::RaceReady)
    } else if text == vstd::utf8::encode_utf8("mode_racing"@) {
        Some(Command::Racing)
    } else if text == vstd::utf8::encode_utf8("mode_over"@) {
        Some(Command::RaceOver)
    } else if text == vstd::utf8::encode_utf8("reboot"@) {
        Some(Command::Reboot)
    } else {
        None
    }
}

/// What the bytes of one read amount to.
pub open spec fn input_of(read: Seq<u8>) -> ClientInput {
    if read.len() == 0 {
        ClientInput::Disconnected
    } else if read.len() >= 2 && read[0] % 16 == 8 {
        ClientInput::Close
    } else {
        match frame_text(read) {
            Some(text) => match command_of(text) {
                Some(command) => ClientInput::Command(command),
                None => ClientInput::Ignored,
            },
            None => ClientInput::Ignored,
        }
    }
}

/// Whether `text` is the UTF-8 of `word`.
fn spells(text: &[u8], word: &str) -> (same: bool)
    ensures
        same == (text@ == vstd::utf8::encode_utf8(word@)),
{
    let bytes = word.as_bytes();
    if text.len() != bytes.len() {
        return false;
    }
    let mut i: usize = 0;
    while i < bytes.len()
        invariant
            i <= bytes@.len() == text@.len(),
            bytes@ == vstd::utf8::encode_utf8(word@),
            forall|k: int| 0 <= k < i ==> text@[k] == bytes@[k],
        decreases bytes@.len() - i,
    {
        if text[i] != bytes[i] {
            return false;
        }
        i = i + 1;
    }
    assert(text@ =~= bytes@);
    true
}

/// The command that `text` spells.
fn parse_command(text: &[u8]) -> (command: Option<Command>)
    ensures
        command == command_of(text@),
{
    if spells(text, "mode_display") {
        Some(Command::Display)
    } else if spells(text, "mode_ready") {
        Some(Command::RaceReady)
    } else if spells(text, "mode_racing") {
        Some(Command::Racing)
    } else if spells(text, "mode_over") {
        Some(Command::RaceOver)
    } else if spells(text, "reboot") {
        Some(Command::Reboot)
    } else {
        None
    }
}

/// Works out what the bytes of one read from a client amount to.
pub fn read_client_input(read: &[u8]) -> (input: ClientInput)
    ensures
        input == input_of(read@),
{
    let n: usize = read.len();
    if n == 0 {
        return ClientInput::Disconnected;
    }
    if n < 2 {
        return ClientInput::Ignored;
    }
    let b0: u8 = read[0];
    let b1: u8 = read[1];
    assert(b0 & 0x0F == b0 % 16) by (bit_vector);
    assert((b1 & 0x80 != 0) == (b1 >= 128)) by (bit_vector);
    assert(b1 & 0x7F == b1 % 128) by (bit_vector);
    let opcode: u8 = b0 & 0x0F;
    if opcode == 8 {
        return ClientInput::Close;
    }
    if opcode != 1 {
        return ClientInput::Ignored;
    }
    let masked = (b1 & 0x80) != 0;
    let payload_len: usize = (b1 & 0x7F) as usize;
    let start: usize = if masked {
        6
    } else {
        2
    };
    if n < start + payload_len || payload_len > MAX_COMMAND {
        return ClientInput::Ignored;
    }
    let mut decoded: [u8; 32] = [0u8; 32];
    let ghost text = frame_text(read@).unwrap();
    let mut i: usize = 0;
    while i < payload_len
        invariant
            i <= payload_len <= 32,
            start == payload_start(read@),
            masked == (read@[1] >= 128),
            start + payload_len <= read@.len(),
            frame_text(read@) == Some(text),
            text.len() == payload_len,
            forall|k: int| 0 <= k < i ==> decoded@[k] == text[k],
        decreases payload_len - i,
    {
        if masked {
            decoded[i] = read[start + i] ^ read[2 + i % 4];
        } else {
            decoded[i] = read[start + i];
        }
        i = i + 1;
    }
    let slice = vstd::slice::slice_subrange(&decoded, 0, payload_len);
    assert(slice@ =~= text);
    match parse_command(slice) {
        Some(command) => ClientInput::Command(command),
        None => ClientInput::Ignored,
    }
}

/// A masked text frame as a browser sends it.
pub open spec fn masked_frame(payload: Seq<u8>, mask: Seq<u8>) -> Seq<u8> {
    seq![0x81u8, (128 + payload.len()) as u8] + mask + Seq::new(
        payload.len(),
        |i: int| payload[i] ^ mask[i % 4],
    )
}

/// Reading a text frame gives back what was written: the short frames that the racer
/// itself writes, and the masked frames of a browser whatever the mask.
pub proof fn law_frames_read_back(payload: Seq<u8>, mask: Seq<u8>)
    requires
        payload.len() <= MAX_COMMAND,
        mask.len() == 4,
    ensures
        frame_text(text_frame(payload)) == Some(payload),
        frame_text(masked_frame(payload, mask)) == Some(payload),
{
    assert(frame_text(text_frame(payload)).unwrap() =~= payload);
    let frame = masked_frame(payload, mask);
    assert(frame.len() == 6 + payload.len());
    assert(frame[0] == 0x81u8 && frame[1] == 128 + payload.len());
    let text = frame_text(frame).unwrap();
    assert forall|i: int| 0 <= i < payload.len() implies text[i] == payload[i] by {
        let p: u8 = payload[i];
        let m: u8 = mask[i % 4];
        assert((p ^ m) ^ m == p) by (bit_vector);
        assert(frame[6 + i] == p ^ m);
        assert(frame[2 + i % 4] == m);
    }
    assert(text =~= payload);
}

/// The word for a command.
pub open spec fn command_word(command: Command) -> Seq<char> {
    match command {
        Command::Display => "mode_display"@,
        Command::RaceReady => "mode_ready"@,
        Command::Racing => "mode_racing"@,
        Command::RaceOver => "mode_over"@,
        Command::Reboot => "reboot"@,
    }
}

/// Every command is understood when a browser sends its word, whatever the mask.
pub proof fn law_commands_are_understood(command: Command, mask: Seq<u8>)
    requires
        mask.len() == 4,
    ensures
        input_of(masked_frame(vstd::utf8::encode_utf8(command_word(command)), mask))
            == ClientInput::Command(command),
{
    reveal_strlit("mode_display");
    reveal_strlit("mode_ready");
    reveal_strlit("mode_racing");
    reveal_strlit("mode_over");
    reveal_strlit("reboot");
    crate::buffer::lemma_byte_len_ascii("mode_display"@);
    crate::buffer::lemma_byte_len_ascii("mode_ready"@);
    crate::buffer::lemma_byte_len_ascii("mode_racing"@);
    crate::buffer::lemma_byte_len_ascii("mode_over"@);
    crate::buffer::lemma_byte_len_ascii("reboot"@);
    law_frames_read_back(vstd::utf8::encode_utf8(command_word(command)), mask);
}

/// A frame carries one payload only: frames of different payloads differ.
pub proof fn law_frames_are_unambiguous(a: Seq<u8>, b: Seq<u8>)
    requires
        text_frame(a) == text_frame(b),
    ensures
        a == b,
{
    let f = text_frame(a);
    let g = text_frame(b);
    assert(f[1] == frame_header(a.len())[1]);
    assert(g[1] == frame_header(b.len())[1]);
    assert(a =~= f.skip(frame_header(a.len()).len() as int));
    assert(b =~= g.skip(frame_header(b.len()).len() as int));
}

/// The number that the bytes of `bytes` denote, most significant first.
pub open spec fn be_number(bytes: Seq<u8>) -> int
    decreases bytes.len(),
{
    if bytes.len() == 0 {
        0
    } else {
        be_number(bytes.drop_last()) * 256 + bytes.last()
    }
}

/// The bytes of a number, most significant first, denote it.
#[verifier::rlimit(50)]
pub proof fn lemma_be64_reads_back(x: u64)
    ensures
        be_number(crate::sha1::be64(x)) == x,
{
    let bytes = crate::sha1::be64(x);
    reveal_with_fuel(be_number, 9);
    let b0: u8 = bytes[0];
    let b1: u8 = bytes[1];
    let b2: u8 = bytes[2];
    let b3: u8 = bytes[3];
    let b4: u8 = bytes[4];
    let b5: u8 = bytes[5];
    let b6: u8 = bytes[6];
    let b7: u8 = bytes[7];
    assert(x == b0 * 0x100_0000_0000_0000 + b1 * 0x1_0000_0000_0000 + b2 * 0x100_0000_0000 + b3
        * 0x1_0000_0000 + b4 * 0x100_0000 + b5 * 0x1_0000 + b6 * 0x100 + b7) by (bit_vector)
        requires
            b0 == (((x >> 32) as u32) >> 24) as u8,
            b1 == (((x >> 32) as u32) >> 16) as u8,
            b2 == (((x >> 32) as u32) >> 8) as u8,
            b3 == ((x >> 32) as u32) as u8,
            b4 == ((x as u32) >> 24) as u8,
            b5 == ((x as u32) >> 16) as u8,
            b6 == ((x as u32) >> 8) as u8,
            b7 == (x as u32) as u8,
    ;
    let p7 = bytes.drop_last();
    let p6 = p7.drop_last();
    let p5 = p6.drop_last();
    let p4 = p5.drop_last();
    let p3 = p4.drop_last();
    let p2 = p3.drop_last();
    let p1 = p2.drop_last();
    let p0 = p1.drop_last();
    assert(p0.len() == 0);
    assert(be_number(p0) == 0);
    assert(be_number(p1) == b0);
    assert(be_number(p2) == b0 * 0x100 + b1);
    assert(be_number(p3) == b0 * 0x1_0000 + b1 * 0x100 + b2);
    assert(be_number(p4) == b0 * 0x100_0000 + b1 * 0x1_0000 + b2 * 0x100 + b3);
}

/// A reader of a frame recovers it: a final text frame without a mask, whose announced
/// length is that of the payload in the shortest of the three forms, most significant
/// byte first, and whose payload follows unchanged.
#[verifier::rlimit(50)]
pub proof fn law_frames_announce_their_length(payload: Seq<u8>)
    requires
        payload.len() <= u64::MAX,
    ensures
        ({
            let frame = text_frame(payload);
            let len = payload.len() as int;
            &&& frame[0] == 0x81
            &&& len <= 125 ==> frame[1] == len && frame.len() == 2 + len && frame.skip(2) == payload
            &&& 126 <= len <= 65535 ==> frame[1] == 126 && frame[2] * 256 + frame[3] == len
                && frame.len() == 4 + len && frame.skip(4) == payload
            &&& 65536 <= len ==> frame[1] == 127 && be_number(frame.subrange(2, 10)) == len
                && frame.len() == 10 + len && frame.skip(10) == payload
        }),
{
    let frame = text_frame(payload);
    let len: int = payload.len() as int;
    if len <= 125 {
        assert(frame.skip(2) =~= payload);
    } else if len <= 65535 {
        assert(frame.skip(4) =~= payload);
    } else {
        assert(frame.skip(10) =~= payload);
        assert(frame.subrange(2, 10) =~= crate::sha1::be64(len as u64));
        lemma_be64_reads_back(len as u64);
    }
}

/// The word for `command` stands in the bytes of one read as a text frame with a payload
/// of up to 32 bytes that was read whole, with or without a mask.
pub open spec fn read_says(read: Seq<u8>, word: Seq<u8>) -> bool {
    &&& read.len() >= 2
    &&& read[0] % 16 == 1
    &&& word.len() <= 32
    &&& if read[1] < 128 {
        &&& read[1] == word.len()
        &&& read.len() >= 2 + word.len()
        &&& forall|i: int| 0 <= i < word.len() ==> read[2 + i] == #[trigger] word[i]
    } else {
        &&& read[1] == 128 + word.len()
        &&& read.len() >= 6 + word.len()
        &&& forall|i: int|
            0 <= i < word.len() ==> read[6 + i] ^ read[2 + i % 4] == #[trigger] word[i]
    }
}

/// The payload of a read is a word exactly when the read says it.
#[verifier::rlimit(50)]
proof fn lemma_reads_say_words(read: Seq<u8>, word: Seq<u8>)
    requires
        word.len() <= 32,
    ensures
        frame_text(read) == Some(word) <==> read_says(read, word),
{
    if frame_text(read) == Some(word) {
        let text = frame_text(read).unwrap();
        assert forall|i: int| 0 <= i < word.len() implies text[i] == #[trigger] word[i] by {}
    }
    if read_says(read, word) {
        assert(frame_text(read).unwrap() =~= word);
    }
}

/// What a read means: nothing read is the end of the connection, a close frame closes it,
/// a text frame with one of the five words is that command, and anything else is ignored.
#[verifier::rlimit(50)]
pub proof fn law_reads_mean_what_they_say(read: Seq<u8>)
    ensures
        input_of(read) == ClientInput::Disconnected <==> read.len() == 0,
        input_of(read) == ClientInput::Close <==> read.len() >= 2 && read[0] % 16 == 8,
        input_of(read) == ClientInput::Command(Command::Display) <==> read_says(
            read,
            vstd::utf8::encode_utf8("mode_display"@),
        ),
        input_of(read) == ClientInput::Command(Command::RaceReady) <==> read_says(
            read,
            vstd::utf8::encode_utf8("mode_ready"@),
        ),
        input_of(read) == ClientInput::Command(Command::Racing) <==> read_says(
            read,
            vstd::utf8::encode_utf8("mode_racing"@),
        ),
        input_of(read) == ClientInput::Command(Command::RaceOver) <==> read_says(
            read,
            vstd::utf8::encode_utf8("mode_over"@),
        ),
        input_of(read) == ClientInput::Command(Command::Reboot) <==> read_says(
            read,
            vstd::utf8::encode_utf8("reboot"@),
        ),
{
    reveal_strlit("mode_display");
    reveal_strlit("mode_ready");
    reveal_strlit("mode_racing");
    reveal_strlit("mode_over");
    reveal_strlit("reboot");
    crate::buffer::lemma_byte_len_ascii("mode_display"@);
    crate::buffer::lemma_byte_len_ascii("mode_ready"@);
    crate::buffer::lemma_byte_len_ascii("mode_racing"@);
    crate::buffer::lemma_byte_len_ascii("mode_over"@);
    crate::buffer::lemma_byte_len_ascii("reboot"@);
    lemma_reads_say_words(read, vstd::utf8::encode_utf8("mode_display"@));
    lemma_reads_say_words(read, vstd::utf8::encode_utf8("mode_ready"@));
    lemma_reads_say_words(read, vstd::utf8::encode_utf8("mode_racing"@));
    lemma_reads_say_words(read, vstd::utf8::encode_utf8("mode_over"@));
    lemma_reads_say_words(read, vstd::utf8::encode_utf8("reboot"@));
}

/// Letters turned into text and back to bytes still decode.
proof fn lemma_text_of_letters_decodes(bytes: Seq<u8>)
    ensures
        crate::base64::decoded(
            vstd::utf8::encode_utf8(crate::buffer::ascii(crate::base64::encoded(bytes))),
        ) == bytes,
        crate::buffer::ascii(crate::base64::encoded(bytes)).len() == (bytes.len() + 2) / 3 * 4,
{
    lemma_encoded_is_ascii(bytes);
    crate::buffer::lemma_ascii_bytes(crate::base64::encoded(bytes));
    crate::base64::law_decoding_undoes_encoding(bytes);
}

/// The answer to a client key decodes to the digest of the key followed by the bytes
/// that the protocol fixes.
#[verifier::rlimit(50)]
pub proof fn law_answers_prove_the_key(key: Seq<u8>)
    ensures
        crate::base64::decoded(vstd::utf8::encode_utf8(accept_key(key))) == crate::sha1::digest(
            key + vstd::utf8::encode_utf8("258EAFA5-E914-47DA-95CA-C5AB0DC85B11"@),
        ),
        accept_key(key).len() == 28,
{
    let hash = crate::sha1::digest(key + guid());
    assert(hash.len() == 20);
    lemma_text_of_letters_decodes(hash);
    assert(accept_key(key) == crate::buffer::ascii(crate::base64::encoded(hash)));
}

} // verus!
