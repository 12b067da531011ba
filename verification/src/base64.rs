//! Base64 with the standard alphabet and padding.
use vstd::prelude::*;

verus! {

/// The padding letter `=`.
pub const PAD: u8 = 61;

/// The letter that stands for six bits of value `v`.
pub open spec fn letter(v: int) -> u8 {
    if v < 26 {
        (65 + v) as u8  // A to Z
    } else if v < 52 {
        (97 + v - 26) as u8  // a to z
    } else if v < 62 {
        (48 + v - 52) as u8  // 0 to 9
    } else if v == 62 {
        43  // +
    } else {
        47  // /
    }
}

/// Byte `i` of `input`, or zero past its end.
pub open spec fn byte_or_zero(input: Seq<u8>, i: int) -> int {
    if i < input.len() {
        input[i] as int
    } else {
        0
    }
}

/// The 24 bits of group `g`: three bytes of `input`, the first on top.
pub open spec fn group(input: Seq<u8>, g: int) -> int {
    byte_or_zero(input, 3 * g) * 65536 + byte_or_zero(input, 3 * g + 1) * 256 + byte_or_zero(
        input,
        3 * g + 2,
    )
}

/// Six-bit piece `p` of a 24-bit group, counted from the top.
pub open spec fn sextet(bits: int, p: int) -> int {
    if p == 0 {
        bits / 262144 % 64
    } else if p == 1 {
        bits / 4096 % 64
    } else if p == 2 {
        bits / 64 % 64
    } else {
        bits % 64
    }
}

/// The number of letters that encode `len` bytes.
pub open spec fn encoded_len(len: int) -> int {
    (len + 2) / 3 * 4
}

/// Letter `k` of the encoding of `input`.
pub open spec fn encoded_letter(input: Seq<u8>, k: int) -> u8 {
    let g = k / 4;
    let p = k % 4;
    if 3 * g + p > input.len() {
        PAD
    } else {
        letter(sextet(group(input, g), p))
    }
}

/// The encoding of `input`.
pub open spec fn encoded(input: Seq<u8>) -> Seq<u8> {
    Seq::new(encoded_len(input.len() as int) as nat, |k: int| encoded_letter(input, k))
}

/// The value of the six bits that `c` stands for; padding counts as zero.
pub open spec fn letter_value(c: u8) -> int {
    if 65 <= c <= 90 {
        c - 65
    } else if 97 <= c <= 122 {
        c - 97 + 26
    } else if 48 <= c <= 57 {
        c - 48 + 52
    } else if c == 43 {
        62
    } else if c == 47 {
        63
    } else {
        0
    }
}

/// The number of bytes that `code` encodes.
pub open spec fn decoded_len(code: Seq<u8>) -> int {
    let whole = code.len() / 4 * 3;
    if code.len() < 4 {
        0
    } else if code[code.len() - 2] == PAD {
        whole - 2
    } else if code[code.len() - 1] == PAD {
        whole - 1
    } else {
        whole as int
    }
}

/// The 24 bits that the four letters of group `g` stand for.
pub open spec fn decoded_group(code: Seq<u8>, g: int) -> int {
    letter_value(code[4 * g]) * 262144 + letter_value(code[4 * g + 1]) * 4096 + letter_value(
        code[4 * g + 2],
    ) * 64 + letter_value(code[4 * g + 3])
}

/// The bytes that `code` encodes.
pub open spec fn decoded(code: Seq<u8>) -> Seq<u8> {
    Seq::new(
        decoded_len(code) as nat,
        |i: int|
            {
                let bits = decoded_group(code, i / 3);
                if i % 3 == 0 {
                    (bits / 65536) as u8
                } else if i % 3 == 1 {
                    (bits / 256 % 256) as u8
                } else {
                    (bits % 256) as u8
                }
            },
    )
}

/// The letter that stands for six bits of value `v`.
fn letter_for(v: u32) -> (c: u8)
    requires
        v < 64,
    ensures
        c == letter(v as int),
{
    if v < 26 {
        65 + v as u8
    } else if v < 52 {
        97 + (v as u8 - 26)
    } else if v < 62 {
        48 + (v as u8 - 52)
    } else if v == 62 {
        43
    } else {
        47
    }
}

/// The letter for piece `p` of a 24-bit group.
fn piece_letter(n: u32, p: u32) -> (c: u8)
    requires
        p < 4,
    ensures
        c == letter(sextet(n as int, p as int)),
{
    let shift: u32 = 18 - 6 * p;
    let v: u32 = (n >> shift) & 0x3F;
    assert((n >> 18) & 0x3F == n / 262144 % 64) by (bit_vector);
    assert((n >> 12) & 0x3F == n / 4096 % 64) by (bit_vector);
    assert((n >> 6) & 0x3F == n / 64 % 64) by (bit_vector);
    assert((n >> 0) & 0x3F == n % 64) by (bit_vector);
    letter_for(v)
}

/// Three bytes as 24 bits, the first on top.
fn join(b0: u8, b1: u8, b2: u8) -> (n: u32)
    ensures
        n == b0 * 65536 + b1 * 256 + b2,
{
    assert(((b0 as u32) << 16 | (b1 as u32) << 8 | b2 as u32) == b0 * 65536 + b1 * 256 + b2)
        by (bit_vector);
    (b0 as u32) << 16 | (b1 as u32) << 8 | b2 as u32
}

/// Writes the encoding of `input` to the front of `output`; returns its length.
pub fn base64_encode(input: &[u8], output: &mut [u8]) -> (written: usize)
    requires
        encoded_len(input@.len() as int) <= old(output)@.len(),
    ensures
        written == encoded_len(input@.len() as int),
        final(output)@ == encoded(input@) + old(output)@.skip(written as int),
{
    let mut out_index: usize = 0;
    let mut i: usize = 0;
    let len: usize = input.len();

    while len - i >= 3
        invariant
            i <= len,
            len == input@.len(),
            i % 3 == 0,
            out_index == i / 3 * 4,
            output@.len() == old(output)@.len(),
            encoded_len(len as int) <= output@.len(),
            forall|k: int| 0 <= k < out_index ==> output@[k] == encoded_letter(input@, k),
            forall|k: int| out_index <= k < output@.len() ==> output@[k] == old(output)@[k],
        decreases len - i,
    {
        let n: u32 = join(input[i], input[i + 1], input[i + 2]);
        assert(n == group(input@, i as int / 3));
        output[out_index] = piece_letter(n, 0);
        output[out_index + 1] = piece_letter(n, 1);
        output[out_index + 2] = piece_letter(n, 2);
        output[out_index + 3] = piece_letter(n, 3);
        out_index = out_index + 4;
        i = i + 3;
    }

    let rem: usize = len - i;
    if rem == 1 {
        let n: u32 = join(input[i], 0, 0);
        assert(n == group(input@, i as int / 3));
        output[out_index] = piece_letter(n, 0);
        output[out_index + 1] = piece_letter(n, 1);
        output[out_index + 2] = PAD;
        output[out_index + 3] = PAD;
        out_index = out_index + 4;
    } else if rem == 2 {
        let n: u32 = join(input[i], input[i + 1], 0);
        assert(n == group(input@, i as int / 3));
        output[out_index] = piece_letter(n, 0);
        output[out_index + 1] = piece_letter(n, 1);
        output[out_index + 2] = piece_letter(n, 2);
        output[out_index + 3] = PAD;
        out_index = out_index + 4;
    }
    assert(output@ =~= encoded(input@) + old(output)@.skip(out_index as int));
    out_index
}

/// A letter gives its six bits back and is no padding.
proof fn lemma_letter_value(v: int)
    requires
        0 <= v < 64,
    ensures
        letter(v) != PAD,
        letter_value(letter(v)) == v,
{
}

/// The four pieces of 24 bits make up the bits.
proof fn lemma_sextets(bits: u32)
    by (bit_vector)
    requires
        bits < 0x1000000,
    ensures
        (bits / 262144 % 64) * 262144 + (bits / 4096 % 64) * 4096 + (bits / 64 % 64) * 64 + bits % 64
            == bits,
        bits % 256 == 0 ==> bits % 64 == 0,
        bits % 65536 == 0 ==> bits / 64 % 64 == 0,
{
}

/// The bytes of a group, read from its bits.
proof fn lemma_group_bytes(b0: u8, b1: u8, b2: u8, bits: u32)
    by (bit_vector)
    requires
        bits == b0 * 65536 + b1 * 256 + b2,
    ensures
        bits < 0x1000000,
        bits / 65536 == b0,
        bits / 256 % 256 == b1,
        bits % 256 == b2,
        b1 == 0 && b2 == 0 ==> bits % 65536 == 0,
{
}

/// What the bits of a group say of its bytes and its pieces.
proof fn lemma_group(input: Seq<u8>, g: int)
    requires
        0 <= g,
        3 * g < input.len(),
    ensures
        ({
            let bits = group(input, g);
            &&& 0 <= bits < 0x1000000
            &&& sextet(bits, 0) * 262144 + sextet(bits, 1) * 4096 + sextet(bits, 2) * 64 + sextet(
                bits,
                3,
            ) == bits
            &&& 3 * g + 2 >= input.len() ==> sextet(bits, 3) == 0
            &&& 3 * g + 1 >= input.len() ==> sextet(bits, 2) == 0
            &&& bits / 65536 == byte_or_zero(input, 3 * g)
            &&& bits / 256 % 256 == byte_or_zero(input, 3 * g + 1)
            &&& bits % 256 == byte_or_zero(input, 3 * g + 2)
        }),
{
    let bits: u32 = group(input, g) as u32;
    lemma_group_bytes(
        byte_or_zero(input, 3 * g) as u8,
        byte_or_zero(input, 3 * g + 1) as u8,
        byte_or_zero(input, 3 * g + 2) as u8,
        bits,
    );
    lemma_sextets(bits);
}

/// The letters of a group give its bits back.
proof fn lemma_group_decodes(input: Seq<u8>, g: int)
    requires
        0 <= g,
        3 * g < input.len(),
    ensures
        decoded_group(encoded(input), g) == group(input, g),
{
    let code = encoded(input);
    let bits = group(input, g);
    lemma_group(input, g);
    assert forall|p: int| 0 <= p < 4 implies #[trigger] letter_value(code[4 * g + p]) == sextet(
        bits,
        p,
    ) by {
        let k: int = 4 * g + p;
        assert(k / 4 == g && k % 4 == p);
        assert(k < encoded_len(input.len() as int));
        assert(code[k] == encoded_letter(input, k));
        lemma_letter_value(sextet(bits, p));
    }
    assert(letter_value(code[4 * g + 0]) == sextet(bits, 0));
    assert(letter_value(code[4 * g + 1]) == sextet(bits, 1));
    assert(letter_value(code[4 * g + 2]) == sextet(bits, 2));
    assert(letter_value(code[4 * g + 3]) == sextet(bits, 3));
}

/// The padding tells the length of the input.
proof fn lemma_length_decodes(input: Seq<u8>)
    ensures
        decoded_len(encoded(input)) == input.len(),
{
    let code = encoded(input);
    let n: int = input.len() as int;
    if n > 0 {
        let g: int = (n + 2) / 3 - 1;
        let last: int = code.len() - 1;
        assert(last == 4 * g + 3);
        assert(last / 4 == g && last % 4 == 3);
        assert((last - 1) / 4 == g && (last - 1) % 4 == 2);
        lemma_letter_value(sextet(group(input, g), 2));
        lemma_letter_value(sextet(group(input, g), 3));
        assert(code[last] == encoded_letter(input, last));
        assert(code[last - 1] == encoded_letter(input, last - 1));
    }
}

/// Decoding an encoding gives the bytes back; in particular no two inputs share one.
pub proof fn law_decoding_undoes_encoding(input: Seq<u8>)
    ensures
        decoded(encoded(input)) == input,
{
    let code = encoded(input);
    lemma_length_decodes(input);
    assert forall|i: int| 0 <= i < input.len() implies decoded(code)[i] == input[i] by {
        let g = i / 3;
        lemma_group_decodes(input, g);
        lemma_group(input, g);
    }
    assert(decoded(code) =~= input);
}

/// The letters are those of the standard alphabet, in its order.
#[verifier::rlimit(50)]
pub proof fn law_letters_follow_the_alphabet(v: int)
    requires
        0 <= v < 64,
    ensures
        letter(v) == "ABCDEFGHIJKLMNOPQRSTUVWXYZabcdefghijklmnopqrstuvwxyz0123456789+/"@[v] as u8,
        letter_value(letter(v)) == v,
{
    reveal_strlit("ABCDEFGHIJKLMNOPQRSTUVWXYZabcdefghijklmnopqrstuvwxyz0123456789+/");
}

/// Every three bytes are four letters that are worth the same, the first letter most; a
/// last group of one byte has two letters and of two bytes three, filled up with `=`.
#[verifier::rlimit(50)]
pub proof fn law_groups_are_worth_their_bytes(input: Seq<u8>, g: int)
    requires
        0 <= g,
        3 * g < input.len(),
    ensures
        ({
            let code = encoded(input);
            let second = if 3 * g + 1 < input.len() {
                input[3 * g + 1] as int
            } else {
                0
            };
            let third = if 3 * g + 2 < input.len() {
                input[3 * g + 2] as int
            } else {
                0
            };
            &&& code.len() == 4 * ((input.len() + 2) / 3)
            &&& letter_value(code[4 * g]) * 262144 + letter_value(code[4 * g + 1]) * 4096
                + letter_value(code[4 * g + 2]) * 64 + letter_value(code[4 * g + 3]) == input[3 * g]
                * 65536 + second * 256 + third
            &&& code[4 * g] != 61 && code[4 * g + 1] != 61
            &&& code[4 * g + 2] == 61 <==> 3 * g + 1 >= input.len()
            &&& code[4 * g + 3] == 61 <==> 3 * g + 2 >= input.len()
        }),
{
    let code = encoded(input);
    let bits = group(input, g);
    lemma_group_decodes(input, g);
    lemma_group(input, g);
    lemma_letter_value(sextet(bits, 0));
    lemma_letter_value(sextet(bits, 1));
    lemma_letter_value(sextet(bits, 2));
    lemma_letter_value(sextet(bits, 3));
    assert((4 * g) / 4 == g && (4 * g) % 4 == 0);
    assert((4 * g + 1) / 4 == g && (4 * g + 1) % 4 == 1);
    assert((4 * g + 2) / 4 == g && (4 * g + 2) % 4 == 2);
    assert((4 * g + 3) / 4 == g && (4 * g + 3) % 4 == 3);
    assert(code[4 * g] == encoded_letter(input, 4 * g));
    assert(code[4 * g + 1] == encoded_letter(input, 4 * g + 1));
    assert(code[4 * g + 2] == encoded_letter(input, 4 * g + 2));
    assert(code[4 * g + 3] == encoded_letter(input, 4 * g + 3));
}

} // verus!
