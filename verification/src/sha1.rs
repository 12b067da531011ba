//! The SHA-1 digest of short messages, as the WebSocket handshake needs it.
use vstd::prelude::*;

verus! {

/// The longest message that fits in two blocks together with its padding.
pub const MAX_MESSAGE: usize = 119;

/// `x` turned left by `n` bits.
pub open spec fn rotl(x: u32, n: u32) -> u32 {
    (x << n) | (x >> ((32 - n) as u32))
}

/// The four bytes of `x`, most significant first.
pub open spec fn be32(x: u32) -> Seq<u8> {
    seq![(x >> 24) as u8, (x >> 16) as u8, (x >> 8) as u8, x as u8]
}

/// The eight bytes of `x`, most significant first.
pub open spec fn be64(x: u64) -> Seq<u8> {
    be32((x >> 32) as u32) + be32(x as u32)
}

/// The 32-bit number whose bytes, most significant first, start at `i`.
pub open spec fn word_at(bytes: Seq<u8>, i: int) -> u32 {
    (bytes[i] as u32) << 24 | (bytes[i + 1] as u32) << 16 | (bytes[i + 2] as u32) << 8 | bytes[i
        + 3] as u32
}

/// The number of zero bytes between the end marker and the length.
pub open spec fn zeros_after(len: int) -> int {
    (55 - len) % 64
}

/// A message with its end marker, zeros up to eight bytes short of a whole block, and
/// its length in bits.
pub open spec fn padded(message: Seq<u8>) -> Seq<u8> {
    message + seq![0x80u8] + Seq::new(zeros_after(message.len() as int) as nat, |i: int| 0u8)
        + be64((message.len() * 8) as u64)
}

/// Word `t` of the message schedule of a block.
pub open spec fn schedule(block: Seq<u8>, t: int) -> u32
    decreases t,
{
    if t < 16 {
        word_at(block, 4 * t)
    } else {
        rotl(
            schedule(block, t - 3) ^ schedule(block, t - 8) ^ schedule(block, t - 14) ^ schedule(
                block,
                t - 16,
            ),
            1,
        )
    }
}

/// The five working words.
#[derive(Clone, Copy, Debug, PartialEq, Eq, Structural)]
pub struct Words {
    pub a: u32,
    pub b: u32,
    pub c: u32,
    pub d: u32,
    pub e: u32,
}

impl Words {
    /// The words that hashing starts from.
    pub open spec fn initial() -> Words {
        Words {
            a: 0x67452301,
            b: 0xEFCDAB89,
            c: 0x98BADCFE,
            d: 0x10325476,
            e: 0xC3D2E1F0,
        }
    }

    /// The logical function of round `t`.
    pub open spec fn mix(self, t: int) -> u32 {
        if t < 20 {
            (self.b & self.c) | ((!self.b) & self.d)
        } else if t < 40 {
            self.b ^ self.c ^ self.d
        } else if t < 60 {
            (self.b & self.c) | (self.b & self.d) | (self.c & self.d)
        } else {
            self.b ^ self.c ^ self.d
        }
    }

    /// The words after round `t` with schedule word `w`.
    pub open spec fn round(self, t: int, w: u32) -> Words {
        Words {
            a: rotl(self.a, 5).wrapping_add(self.mix(t)).wrapping_add(self.e).wrapping_add(
                round_constant(t),
            ).wrapping_add(w),
            b: self.a,
            c: rotl(self.b, 30),
            d: self.c,
            e: self.d,
        }
    }

    /// The words after the first `t` rounds over `block`.
    pub open spec fn rounds(self, block: Seq<u8>, t: int) -> Words
        decreases t,
    {
        if t <= 0 {
            self
        } else {
            self.rounds(block, t - 1).round(t - 1, schedule(block, t - 1))
        }
    }

    /// Word by word, the sum modulo 2^32.
    pub open spec fn plus(self, other: Words) -> Words {
        Words {
            a: self.a.wrapping_add(other.a),
            b: self.b.wrapping_add(other.b),
            c: self.c.wrapping_add(other.c),
            d: self.d.wrapping_add(other.d),
            e: self.e.wrapping_add(other.e),
        }
    }

    /// The words after hashing the first `n` blocks of `message`.
    pub open spec fn after_blocks(message: Seq<u8>, n: int) -> Words
        decreases n,
    {
        if n <= 0 {
            Words::initial()
        } else {
            let before = Words::after_blocks(message, n - 1);
            before.plus(before.rounds(message.subrange(64 * (n - 1), 64 * n), 80))
        }
    }

    /// The words as bytes, most significant first.
    pub open spec fn bytes(self) -> Seq<u8> {
        be32(self.a) + be32(self.b) + be32(self.c) + be32(self.d) + be32(self.e)
    }
}

/// The additive constant of round `t`.
pub open spec fn round_constant(t: int) -> u32 {
    if t < 20 {
        0x5A827999
    } else if t < 40 {
        0x6ED9EBA1
    } else if t < 60 {
        0x8F1BBCDC
    } else {
        0xCA62C1D6
    }
}

/// The SHA-1 digest of `message`.
pub open spec fn digest(message: Seq<u8>) -> Seq<u8> {
    Words::after_blocks(padded(message), padded(message).len() as int / 64).bytes()
}

/// `x` turned left by `n` bits.
fn rotate_left(x: u32, n: u32) -> (turned: u32)
    requires
        0 < n < 32,
    ensures
        turned == rotl(x, n),
{
    (x << n) | (x >> (32 - n))
}

/// Copies `data` to the front of a two-block buffer and pads it; also the length of the
/// padded message.
fn pad(data: &[u8]) -> (padding: ([u8; 128], usize))
    requires
        data@.len() <= MAX_MESSAGE,
    ensures
        padding.1 <= 128,
        padding.1 == padded(data@).len(),
        padding.0@.subrange(0, padding.1 as int) == padded(data@),
{
    let len: usize = data.len();
    let len_bits: u64 = (len as u64) * 8;
    let mut chunk: [u8; 128] = [0u8; 128];
    let mut i: usize = 0;
    while i < len
        invariant
            i <= len <= MAX_MESSAGE,
            len == data@.len(),
            forall|k: int| 0 <= k < i ==> chunk@[k] == data@[k],
            forall|k: int| i <= k < 128 ==> chunk@[k] == 0u8,
        decreases len - i,
    {
        chunk[i] = data[i];
        i = i + 1;
    }
    chunk[len] = 0x80;

    let total_len: usize = len + 1;
    let pad_len: usize = if total_len % 64 > 56 {
        64 + 56 - (total_len % 64)
    } else {
        56 - (total_len % 64)
    };
    let length_at: usize = total_len + pad_len;
    assert(pad_len == zeros_after(len as int));

    let high: u32 = (len_bits >> 32) as u32;
    let low: u32 = len_bits as u32;
    chunk[length_at] = (high >> 24) as u8;
    chunk[length_at + 1] = (high >> 16) as u8;
    chunk[length_at + 2] = (high >> 8) as u8;
    chunk[length_at + 3] = high as u8;
    chunk[length_at + 4] = (low >> 24) as u8;
    chunk[length_at + 5] = (low >> 16) as u8;
    chunk[length_at + 6] = (low >> 8) as u8;
    chunk[length_at + 7] = low as u8;
    assert(chunk@.subrange(0, length_at + 8) =~= padded(data@));
    (chunk, length_at + 8)
}

/// The message schedule of the block that starts at `start`.
fn expand(chunk: &[u8; 128], start: usize) -> (w: [u32; 80])
    requires
        start + 64 <= 128,
    ensures
        forall|t: int|
            0 <= t < 80 ==> #[trigger] w@[t] == schedule(chunk@.subrange(start as int, start + 64), t),
{
    let ghost block = chunk@.subrange(start as int, start + 64);
    let mut w: [u32; 80] = [0u32; 80];
    let mut i: usize = 0;
    while i < 16
        invariant
            i <= 16,
            start + 64 <= 128,
            block == chunk@.subrange(start as int, start + 64),
            forall|t: int| 0 <= t < i ==> #[trigger] w@[t] == schedule(block, t),
        decreases 16 - i,
    {
        let offset: usize = start + i * 4;
        w[i] = (chunk[offset] as u32) << 24 | (chunk[offset + 1] as u32) << 16 | (chunk[offset
            + 2] as u32) << 8 | chunk[offset + 3] as u32;
        i = i + 1;
    }
    while i < 80
        invariant
            16 <= i <= 80,
            forall|t: int| 0 <= t < i ==> #[trigger] w@[t] == schedule(block, t),
        decreases 80 - i,
    {
        let value: u32 = w[i - 3] ^ w[i - 8] ^ w[i - 14] ^ w[i - 16];
        w[i] = rotate_left(value, 1);
        i = i + 1;
    }
    w
}

/// Hashes the block that starts at `start` into `h`.
fn compress(h: Words, chunk: &[u8; 128], start: usize) -> (next: Words)
    requires
        start + 64 <= 128,
    ensures
        next == h.plus(h.rounds(chunk@.subrange(start as int, start + 64), 80)),
{
    let ghost block = chunk@.subrange(start as int, start + 64);
    let w = expand(chunk, start);
    let mut v = h;
    let mut i: usize = 0;
    while i < 80
        invariant
            i <= 80,
            forall|t: int| 0 <= t < 80 ==> #[trigger] w@[t] == schedule(block, t),
            v == h.rounds(block, i as int),
        decreases 80 - i,
    {
        let (f, k): (u32, u32) = if i < 20 {
            ((v.b & v.c) | ((!v.b) & v.d), 0x5A827999)
        } else if i < 40 {
            (v.b ^ v.c ^ v.d, 0x6ED9EBA1)
        } else if i < 60 {
            ((v.b & v.c) | (v.b & v.d) | (v.c & v.d), 0x8F1BBCDC)
        } else {
            (v.b ^ v.c ^ v.d, 0xCA62C1D6)
        };
        let temp: u32 = rotate_left(v.a, 5).wrapping_add(f).wrapping_add(v.e).wrapping_add(
            k,
        ).wrapping_add(w[i]);
        v = Words { a: temp, b: v.a, c: rotate_left(v.b, 30), d: v.c, e: v.d };
        i = i + 1;
    }
    Words {
        a: h.a.wrapping_add(v.a),
        b: h.b.wrapping_add(v.b),
        c: h.c.wrapping_add(v.c),
        d: h.d.wrapping_add(v.d),
        e: h.e.wrapping_add(v.e),
    }
}

/// Writes the bytes of `word`, most significant first, at `at`.
fn put_word(out: &mut [u8; 20], at: usize, word: u32)
    requires
        at + 4 <= 20,
    ensures
        final(out)@ == old(out)@.subrange(0, at as int) + be32(word) + old(out)@.subrange(at + 4, 20),
{
    out[at] = (word >> 24) as u8;
    out[at + 1] = (word >> 16) as u8;
    out[at + 2] = (word >> 8) as u8;
    out[at + 3] = word as u8;
    assert(out@ =~= old(out)@.subrange(0, at as int) + be32(word) + old(out)@.subrange(at + 4, 20));
}

/// The SHA-1 digest of `data`, which must fit in two blocks.
pub fn sha1(data: &[u8]) -> (out: [u8; 20])
    requires
        data@.len() <= MAX_MESSAGE,
    ensures
        out@ == digest(data@),
{
    let (chunk, padded_len) = pad(data);
    let ghost message = padded(data@);
    let chunks: usize = padded_len / 64;
    assert(padded_len % 64 == 0);

    let mut h = Words {
        a: 0x67452301,
        b: 0xEFCDAB89,
        c: 0x98BADCFE,
        d: 0x10325476,
        e: 0xC3D2E1F0,
    };
    let mut n: usize = 0;
    while n < chunks
        invariant
            n <= chunks,
            chunks * 64 == padded_len <= 128,
            message == chunk@.subrange(0, padded_len as int),
            h == Words::after_blocks(message, n as int),
        decreases chunks - n,
    {
        let start: usize = n * 64;
        assert(chunk@.subrange(start as int, start + 64) =~= message.subrange(
            64 * n as int,
            64 * (n + 1),
        ));
        h = compress(h, &chunk, start);
        n = n + 1;
    }

    let mut out: [u8; 20] = [0u8; 20];
    put_word(&mut out, 0, h.a);
    put_word(&mut out, 4, h.b);
    put_word(&mut out, 8, h.c);
    put_word(&mut out, 12, h.d);
    put_word(&mut out, 16, h.e);
    assert(out@ =~= h.bytes());
    out
}

/// Padding always fills whole blocks, and two messages never pad to the same bytes.
pub proof fn law_padding_is_whole_and_unambiguous(a: Seq<u8>, b: Seq<u8>)
    requires
        a.len() <= MAX_MESSAGE,
        b.len() <= MAX_MESSAGE,
    ensures
        padded(a).len() % 64 == 0,
        padded(a) == padded(b) ==> a == b,
{
    if padded(a) == padded(b) {
        let p = padded(a);
        let q = padded(b);
        let m: u64 = (a.len() * 8) as u64;
        let n: u64 = (b.len() * 8) as u64;
        let last: int = p.len() - 1;
        assert(p[last] == (m as u32) as u8 && q[last] == (n as u32) as u8);
        assert(p[last - 1] == ((m as u32) >> 8) as u8 && q[last - 1] == ((n as u32) >> 8) as u8);
        assert((m as u32) as u8 == (n as u32) as u8 && ((m as u32) >> 8) as u8 == ((n as u32)
            >> 8) as u8 && m < 65536 && n < 65536 ==> m == n) by (bit_vector);
        assert(a =~= p.subrange(0, a.len() as int));
        assert(b =~= q.subrange(0, b.len() as int));
    }
}

/// Padding, byte by byte: the message, one byte 128, as few zeros as fill up a block
/// with the eight bytes that follow, and these denote the length of the message in bits.
#[verifier::rlimit(50)]
pub proof fn law_padding_ends_with_the_length(message: Seq<u8>)
    requires
        message.len() <= 119,
    ensures
        ({
            let all = padded(message);
            let len = message.len() as int;
            &&& all.len() % 64 == 0
            &&& len + 9 <= all.len() < len + 73
            &&& all.take(len) == message
            &&& all[len] == 128
            &&& forall|i: int| len < i < all.len() - 8 ==> #[trigger] all[i] == 0
            &&& crate::websocket::be_number(all.skip(all.len() - 8)) == 8 * len
        }),
{
    let all = padded(message);
    let len: int = message.len() as int;
    let bits: u64 = (len * 8) as u64;
    lemma_padding_parts(message);
    assert(all.take(len) =~= message);
    assert(all.skip(all.len() - 8) =~= be64(bits));
    crate::websocket::lemma_be64_reads_back(bits);
}

/// Where the parts of a padded message lie.
#[verifier::rlimit(50)]
proof fn lemma_padding_parts(message: Seq<u8>)
    requires
        message.len() <= 119,
    ensures
        ({
            let all = padded(message);
            let len = message.len() as int;
            let zeros = zeros_after(len);
            &&& 0 <= zeros < 64
            &&& (len + 9 + zeros) % 64 == 0
            &&& all.len() == len + 9 + zeros
            &&& forall|i: int| 0 <= i < len ==> #[trigger] all[i] == message[i]
            &&& all[len] == 128
            &&& forall|i: int| len < i < len + 1 + zeros ==> #[trigger] all[i] == 0
            &&& forall|i: int|
                0 <= i < 8 ==> all[len + 1 + zeros + i] == #[trigger] be64((len * 8) as u64)[i]
        }),
{
}

/// Blocks are hashed one after the other: a short message is one block hashed from the
/// fixed words, a longer one two, the second from what the first left.
#[verifier::rlimit(50)]
pub proof fn law_blocks_are_chained(message: Seq<u8>)
    requires
        message.len() <= 119,
    ensures
        ({
            let start = Words {
                a: 0x67452301,
                b: 0xEFCDAB89,
                c: 0x98BADCFE,
                d: 0x10325476,
                e: 0xC3D2E1F0,
            };
            let all = padded(message);
            let one = start.plus(start.rounds(all.subrange(0, 64), 80));
            if message.len() <= 55 {
                all.len() == 64 && digest(message) == one.bytes()
            } else {
                all.len() == 128 && digest(message) == one.plus(
                    one.rounds(all.subrange(64, 128), 80),
                ).bytes()
            }
        }),
{
    let all = padded(message);
    reveal_with_fuel(Words::after_blocks, 3);
    assert(zeros_after(message.len() as int) == if message.len() <= 55 {
        55 - message.len()
    } else {
        119 - message.len()
    });
}

/// Turning keeps every bit: what leaves at the top comes in at the bottom.
pub proof fn law_turning_keeps_every_bit(x: u32)
    ensures
        rotl(x, 1) == (x * 2) % 0x1_0000_0000 + x / 0x8000_0000,
        rotl(x, 5) == (x * 32) % 0x1_0000_0000 + x / 0x800_0000,
        rotl(x, 30) == (x * 0x4000_0000) % 0x1_0000_0000 + x / 4,
{
    assert((x << 1u32) | (x >> 31u32) == (x * 2) % 0x1_0000_0000 + x / 0x8000_0000)
        by (bit_vector);
    assert((x << 5u32) | (x >> 27u32) == (x * 32) % 0x1_0000_0000 + x / 0x800_0000)
        by (bit_vector);
    assert((x << 30u32) | (x >> 2u32) == (x * 0x4000_0000) % 0x1_0000_0000 + x / 4)
        by (bit_vector);
}

/// A round moves every word on by one place and computes the first from all of them: the
/// logical function and the constant change every twenty rounds.
pub proof fn law_rounds_follow_the_standard(v: Words, t: int, w: u32)
    requires
        0 <= t < 80,
    ensures
        ({
            let next = v.round(t, w);
            let f = if t < 20 {
                (v.b & v.c) | (!v.b & v.d)
            } else if 40 <= t < 60 {
                (v.b & v.c) | (v.b & v.d) | (v.c & v.d)
            } else {
                v.b ^ v.c ^ v.d
            };
            let k: int = if t < 20 {
                0x5A827999
            } else if t < 40 {
                0x6ED9EBA1
            } else if t < 60 {
                0x8F1BBCDC
            } else {
                0xCA62C1D6
            };
            &&& next.b == v.a
            &&& next.c == rotl(v.b, 30)
            &&& next.d == v.c
            &&& next.e == v.d
            &&& next.a == (rotl(v.a, 5) + f + v.e + k + w) % 0x1_0000_0000
        }),
{
}

/// Words are read and written most significant byte first and added modulo 2^32; the
/// first sixteen of a block are its bytes, and each later one is turned by one from the
/// exclusive or of those three, eight, fourteen and sixteen before.
#[verifier::rlimit(50)]
pub proof fn law_words_follow_the_standard(block: Seq<u8>, t: int, x: Words, y: Words)
    requires
        block.len() == 64,
        0 <= t < 80,
    ensures
        t < 16 ==> schedule(block, t) == crate::websocket::be_number(
            block.subrange(4 * t, 4 * t + 4),
        ),
        t >= 16 ==> schedule(block, t) == rotl(
            schedule(block, t - 3) ^ schedule(block, t - 8) ^ schedule(block, t - 14) ^ schedule(
                block,
                t - 16,
            ),
            1,
        ),
        x.plus(y).a == (x.a + y.a) % 0x1_0000_0000,
        x.plus(y).b == (x.b + y.b) % 0x1_0000_0000,
        x.plus(y).c == (x.c + y.c) % 0x1_0000_0000,
        x.plus(y).d == (x.d + y.d) % 0x1_0000_0000,
        x.plus(y).e == (x.e + y.e) % 0x1_0000_0000,
        x.bytes().len() == 20,
        crate::websocket::be_number(x.bytes().subrange(0, 4)) == x.a,
        crate::websocket::be_number(x.bytes().subrange(4, 8)) == x.b,
        crate::websocket::be_number(x.bytes().subrange(8, 12)) == x.c,
        crate::websocket::be_number(x.bytes().subrange(12, 16)) == x.d,
        crate::websocket::be_number(x.bytes().subrange(16, 20)) == x.e,
        x.rounds(block, t + 1) == x.rounds(block, t).round(t, schedule(block, t)),
        x.rounds(block, 0) == x,
{
    if t < 16 {
        let four = block.subrange(4 * t, 4 * t + 4);
        lemma_four_bytes(four);
        assert(word_at(block, 4 * t) == word_at(four, 0));
    }
    assert(x.bytes().subrange(0, 4) =~= be32(x.a));
    assert(x.bytes().subrange(4, 8) =~= be32(x.b));
    assert(x.bytes().subrange(8, 12) =~= be32(x.c));
    assert(x.bytes().subrange(12, 16) =~= be32(x.d));
    assert(x.bytes().subrange(16, 20) =~= be32(x.e));
    lemma_be32_reads_back(x.a);
    lemma_be32_reads_back(x.b);
    lemma_be32_reads_back(x.c);
    lemma_be32_reads_back(x.d);
    lemma_be32_reads_back(x.e);
}

/// Four bytes denote the word that they make up.
proof fn lemma_four_bytes(four: Seq<u8>)
    requires
        four.len() == 4,
    ensures
        crate::websocket::be_number(four) == word_at(four, 0),
{
    let b0: u8 = four[0];
    let b1: u8 = four[1];
    let b2: u8 = four[2];
    let b3: u8 = four[3];
    assert(((b0 as u32) << 24 | (b1 as u32) << 16 | (b2 as u32) << 8 | b3 as u32) == b0 * 0x100_0000
        + b1 * 0x1_0000 + b2 * 0x100 + b3) by (bit_vector);
    let p3 = four.drop_last();
    let p2 = p3.drop_last();
    let p1 = p2.drop_last();
    let p0 = p1.drop_last();
    assert(p0.len() == 0);
    assert(crate::websocket::be_number(p0) == 0);
    assert(crate::websocket::be_number(p1) == b0);
    assert(crate::websocket::be_number(p2) == b0 * 0x100 + b1);
    assert(crate::websocket::be_number(p3) == b0 * 0x1_0000 + b1 * 0x100 + b2);
}

/// The four bytes of a word denote it.
proof fn lemma_be32_reads_back(x: u32)
    ensures
        crate::websocket::be_number(be32(x)) == x,
{
    let four = be32(x);
    lemma_four_bytes(four);
    let b0: u8 = four[0];
    let b1: u8 = four[1];
    let b2: u8 = four[2];
    let b3: u8 = four[3];
    assert(((b0 as u32) << 24 | (b1 as u32) << 16 | (b2 as u32) << 8 | b3 as u32) == x) by (bit_vector)
        requires
            b0 == (x >> 24) as u8,
            b1 == (x >> 16) as u8,
            b2 == (x >> 8) as u8,
            b3 == x as u8,
    ;
}

} // verus!
