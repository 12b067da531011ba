//! Text buffers of fixed capacity, held by `heapless::String`.
//!
//! What a buffer holds is its text, a sequence of characters; what it can hold is
//! counted in bytes of UTF-8.
use vstd::prelude::*;

verus! {

/// `heapless::String<N>`: a string of at most `N` bytes.
#[verifier::external_type_specification]
#[verifier::external_body]
pub struct ExBoundedString<const N: usize>(heapless::String<N>);

/// The text that a `heapless::String` of 16 bytes holds.
pub uninterp spec fn text_16(buf: heapless::String<16>) -> Seq<char>;

/// The text that a `heapless::String` of 32 bytes holds.
pub uninterp spec fn text_32(buf: heapless::String<32>) -> Seq<char>;

/// The text that a `heapless::String` of 1024 bytes holds.
pub uninterp spec fn text_1024(buf: heapless::String<1024>) -> Seq<char>;

/// The text that a `heapless::String` of 4096 bytes holds.
pub uninterp spec fn text_4096(buf: heapless::String<4096>) -> Seq<char>;

/// A buffer that holds text.
pub trait TextBuffer: Sized {
    /// The text held.
    spec fn text(self) -> Seq<char>;
}

impl TextBuffer for heapless::String<16> {
    open spec fn text(self) -> Seq<char> {
        text_16(self)
    }
}

impl TextBuffer for heapless::String<32> {
    open spec fn text(self) -> Seq<char> {
        text_32(self)
    }
}

impl TextBuffer for heapless::String<1024> {
    open spec fn text(self) -> Seq<char> {
        text_1024(self)
    }
}

impl TextBuffer for heapless::String<4096> {
    open spec fn text(self) -> Seq<char> {
        text_4096(self)
    }
}

/// The number of bytes that `text` takes in UTF-8.
pub open spec fn byte_len(text: Seq<char>) -> nat {
    vstd::utf8::encode_utf8(text).len()
}

/// Calls `heapless::String::new` for 16 bytes: the new string is empty.
#[verifier::external_body]
pub(crate) fn new_16() -> (buf: heapless::String<16>)
    ensures
        text_16(buf) == Seq::<char>::empty(),
{
    heapless::String::new()
}

/// Calls `heapless::String::new` for 32 bytes: the new string is empty.
#[verifier::external_body]
pub(crate) fn new_32() -> (buf: heapless::String<32>)
    ensures
        text_32(buf) == Seq::<char>::empty(),
{
    heapless::String::new()
}

/// Calls `heapless::String::new` for 1024 bytes: the new string is empty.
#[verifier::external_body]
pub(crate) fn new_1024() -> (buf: heapless::String<1024>)
    ensures
        text_1024(buf) == Seq::<char>::empty(),
{
    heapless::String::new()
}

/// Calls `heapless::String::new` for 4096 bytes: the new string is empty.
#[verifier::external_body]
pub(crate) fn new_4096() -> (buf: heapless::String<4096>)
    ensures
        text_4096(buf) == Seq::<char>::empty(),
{
    heapless::String::new()
}

/// Calls `heapless::String::push`: appends `c` if its bytes still fit, and otherwise
/// fails and leaves the string as it was.
#[verifier::external_body]
fn push<const N: usize>(buf: &mut heapless::String<N>, c: char) -> (pushed: Result<(), ()>) where
    heapless::String<N>: TextBuffer,

    ensures
        pushed is Ok <==> byte_len(old(buf).text()) + byte_len(seq![c]) <= N,
        pushed is Ok ==> final(buf).text() == old(buf).text().push(c),
        pushed is Err ==> final(buf).text() == old(buf).text(),
{
    buf.push(c)
}

/// Calls `heapless::String::push_str`: appends `s` if its bytes still fit, and
/// otherwise fails and leaves the string as it was.
#[verifier::external_body]
fn push_str<const N: usize>(buf: &mut heapless::String<N>, s: &str) -> (pushed: Result<(), ()>) where
    heapless::String<N>: TextBuffer,

    ensures
        pushed is Ok <==> byte_len(old(buf).text()) + byte_len(s@) <= N,
        pushed is Ok ==> final(buf).text() == old(buf).text() + s@,
        pushed is Err ==> final(buf).text() == old(buf).text(),
{
    buf.push_str(s)
}

/// Calls `heapless::String::clear`: the string is empty afterwards.
#[verifier::external_body]
pub(crate) fn clear<const N: usize>(buf: &mut heapless::String<N>) where
    heapless::String<N>: TextBuffer,

    ensures
        final(buf).text() == Seq::<char>::empty(),
{
    buf.clear()
}

/// Calls `heapless::String::as_str`: the text held, which takes at most `N` bytes.
#[verifier::external_body]
pub(crate) fn as_str<const N: usize>(buf: &heapless::String<N>) -> (s: &str) where
    heapless::String<N>: TextBuffer,

    ensures
        s@ == buf.text(),
        byte_len(s@) <= N,
{
    buf.as_str()
}

/// The bytes of two texts in a row are the bytes of both.
pub proof fn lemma_byte_len_concat(a: Seq<char>, b: Seq<char>)
    ensures
        byte_len(a + b) == byte_len(a) + byte_len(b),
    decreases a.len(),
{
    if a.len() == 0 {
        assert(a + b =~= b);
    } else {
        assert((a + b).drop_first() =~= a.drop_first() + b);
        lemma_byte_len_concat(a.drop_first(), b);
    }
}

/// ASCII text takes one byte per character.
pub proof fn lemma_byte_len_ascii(text: Seq<char>)
    requires
        vstd::utf8::is_ascii_chars(text),
    ensures
        byte_len(text) == text.len(),
{
    vstd::utf8::is_ascii_chars_encode_utf8(text);
}

/// Appends `c`, which must fit.
pub(crate) fn put<const N: usize>(buf: &mut heapless::String<N>, c: char) where
    heapless::String<N>: TextBuffer,

    requires
        c <= '\u{7f}',
        byte_len(old(buf).text()) + 1 <= N,
    ensures
        final(buf).text() == old(buf).text().push(c),
        byte_len(final(buf).text()) == byte_len(old(buf).text()) + 1,
{
    proof {
        lemma_byte_len_ascii(seq![c]);
        lemma_byte_len_concat(buf.text(), seq![c]);
        assert(buf.text() + seq![c] =~= buf.text().push(c));
    }
    push(buf, c).unwrap();
}

/// Appends `s`, which must fit.
pub(crate) fn put_str<const N: usize>(buf: &mut heapless::String<N>, s: &str) where
    heapless::String<N>: TextBuffer,

    requires
        byte_len(old(buf).text()) + byte_len(s@) <= N,
    ensures
        final(buf).text() == old(buf).text() + s@,
        byte_len(final(buf).text()) == byte_len(old(buf).text()) + byte_len(s@),
{
    proof {
        lemma_byte_len_concat(buf.text(), s@);
    }
    push_str(buf, s).unwrap();
}

/// `core::str::Utf8Error`: why some bytes are not UTF-8.
#[verifier::external_type_specification]
#[verifier::external_body]
pub struct ExUtf8Error(core::str::Utf8Error);

/// `core::str::from_utf8` succeeds exactly on well-formed UTF-8, and its result has the
/// bytes that it was given.
pub assume_specification[ core::str::from_utf8 ](v: &[u8]) -> (r: Result<
    &str,
    core::str::Utf8Error,
>)
    ensures
        r is Ok <==> vstd::utf8::valid_utf8(v@),
        r matches Ok(s) ==> vstd::utf8::encode_utf8(s@) == v@,
;

/// The characters that ASCII bytes stand for.
pub open spec fn ascii(bytes: Seq<u8>) -> Seq<char> {
    Seq::new(bytes.len(), |i: int| bytes[i] as char)
}

/// ASCII bytes are the UTF-8 of their characters, and of no other text.
pub proof fn lemma_ascii_bytes(bytes: Seq<u8>)
    requires
        forall|i: int| 0 <= i < bytes.len() ==> bytes[i] <= 0x7f,
    ensures
        vstd::utf8::encode_utf8(ascii(bytes)) == bytes,
        vstd::utf8::valid_utf8(bytes),
        forall|text: Seq<char>|
            #[trigger] vstd::utf8::encode_utf8(text) == bytes ==> text == ascii(bytes),
{
    let chars = ascii(bytes);
    assert(vstd::utf8::is_ascii_chars(chars));
    vstd::utf8::is_ascii_chars_encode_utf8(chars);
    assert forall|i: int| 0 <= i < bytes.len() implies vstd::utf8::encode_utf8(chars)[i]
        == bytes[i] by {
        assert(chars[i] as u8 == vstd::utf8::encode_utf8(chars)[i]);
    }
    assert(vstd::utf8::encode_utf8(chars) =~= bytes);
    vstd::utf8::encode_utf8_valid_utf8(chars);
    assert forall|text: Seq<char>|
        #[trigger] vstd::utf8::encode_utf8(text) == bytes implies text == chars by {
        vstd::utf8::encode_utf8_decode_utf8(text);
        vstd::utf8::encode_utf8_decode_utf8(chars);
    }
}

} // verus!
