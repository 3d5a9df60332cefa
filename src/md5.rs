use vstd::prelude::*;
use vstd::string::StringSliceAdditionalSpecFns;

verus! {

/// The four 32-bit state words, in the order A, B, C, D.
pub type Words = (u32, u32, u32, u32);

pub const INIT_A: u32 = 0x67452301;

pub const INIT_B: u32 = 0xefcdab89;

pub const INIT_C: u32 = 0x98badcfe;

pub const INIT_D: u32 = 0x10325476;

/// The additive constants T[1..64], stored zero-based: `SINE_TABLE[i]` is T[i + 1],
/// the integer part of 2^32 * |sin(i + 1)|.
pub const SINE_TABLE: [u32; 64] = [
    0xd76aa478, 0xe8c7b756, 0x242070db, 0xc1bdceee, 0xf57c0faf, 0x4787c62a, 0xa8304613,
    0xfd469501, 0x698098d8, 0x8b44f7af, 0xffff5bb1, 0x895cd7be, 0x6b901122, 0xfd987193,
    0xa679438e, 0x49b40821, 0xf61e2562, 0xc040b340, 0x265e5a51, 0xe9b6c7aa, 0xd62f105d,
    0x02441453, 0xd8a1e681, 0xe7d3fbc8, 0x21e1cde6, 0xc33707d6, 0xf4d50d87, 0x455a14ed,
    0xa9e3e905, 0xfcefa3f8, 0x676f02d9, 0x8d2a4c8a, 0xfffa3942, 0x8771f681, 0x6d9d6122,
    0xfde5380c, 0xa4beea44, 0x4bdecfa9, 0xf6bb4b60, 0xbebfbc70, 0x289b7ec6, 0xeaa127fa,
    0xd4ef3085, 0x04881d05, 0xd9d4d039, 0xe6db99e5, 0x1fa27cf8, 0xc4ac5665, 0xf4292244,
    0x432aff97, 0xab9423a7, 0xfc93a039, 0x655b59c3, 0x8f0ccc92, 0xffeff47d, 0x85845dd1,
    0x6fa87e4f, 0xfe2ce6e0, 0xa3014314, 0x4e0811a1, 0xf7537e82, 0xbd3af235, 0x2ad7d2bb,
    0xeb86d391,
];

// ---------------------------------------------------------------------------
// Mathematical model
// ---------------------------------------------------------------------------

pub open spec fn initial_words() -> Words {
    (INIT_A, INIT_B, INIT_C, INIT_D)
}

pub open spec fn sine_constant(i: int) -> u32 {
    SINE_TABLE@[i]
}

pub open spec fn spec_f(x: u32, y: u32, z: u32) -> u32 {
    (x & y) | (!x & z)
}

pub open spec fn spec_g(x: u32, y: u32, z: u32) -> u32 {
    (x & z) | (y & !z)
}

pub open spec fn spec_h(x: u32, y: u32, z: u32) -> u32 {
    x ^ y ^ z
}

pub open spec fn spec_i(x: u32, y: u32, z: u32) -> u32 {
    y ^ (x | !z)
}

/// Circular left rotation of a 32-bit word by `s` bits, `0 < s < 32`.
pub open spec fn spec_rotl(x: u32, s: u32) -> u32 {
    (x << s) | (x >> (32 - s) as u32)
}

/// Reverses the order of the four bytes of a word.
pub open spec fn spec_swap_bytes(w: u32) -> u32 {
    ((w & 0xff) << 24u32) | ((w & 0xff00) << 8u32) | ((w >> 8u32) & 0xff00) | (w >> 24u32)
}

/// The round function of operation `i` (0-based, 0..64): F, G, H, then I,
/// sixteen operations each.
pub open spec fn mix(i: int, b: u32, c: u32, d: u32) -> u32 {
    if i < 16 {
        spec_f(b, c, d)
    } else if i < 32 {
        spec_g(b, c, d)
    } else if i < 48 {
        spec_h(b, c, d)
    } else {
        spec_i(b, c, d)
    }
}

/// Which message word operation `i` reads: 0..15 in order in the first round,
/// then steps of 5, 3 and 7 modulo 16 from 1, 5 and 0.
pub open spec fn message_index(i: int) -> int {
    if i < 16 {
        i
    } else if i < 32 {
        (1 + 5 * i) % 16
    } else if i < 48 {
        (5 + 3 * i) % 16
    } else {
        (7 * i) % 16
    }
}

/// The rotation amount of operation `i`; each round cycles through four amounts.
pub open spec fn shift_amount(i: int) -> u32 {
    let j = i % 4;
    if i < 16 {
        if j == 0 { 7 } else if j == 1 { 12 } else if j == 2 { 17 } else { 22 }
    } else if i < 32 {
        if j == 0 { 5 } else if j == 1 { 9 } else if j == 2 { 14 } else { 20 }
    } else if i < 48 {
        if j == 0 { 4 } else if j == 1 { 11 } else if j == 2 { 16 } else { 23 }
    } else {
        if j == 0 { 6 } else if j == 1 { 10 } else if j == 2 { 15 } else { 21 }
    }
}

/// One operation `a = b + rotl(a + fn(b, c, d) + X[k] + T[i], s)` on the words
/// in their current roles `(a, b, c, d)`. The result lists the words in the roles
/// of the next operation, `(d, a, b, c)`, so four operations restore the order.
pub open spec fn operation(s: Words, x: Seq<u32>, i: int) -> Words {
    let (a, b, c, d) = s;
    let t = a.wrapping_add(mix(i, b, c, d)).wrapping_add(x[message_index(i)]).wrapping_add(
        sine_constant(i),
    );
    (d, b.wrapping_add(spec_rotl(t, shift_amount(i))), b, c)
}

/// The first `n` operations of a block applied to `s`.
pub open spec fn operations(s: Words, x: Seq<u32>, n: nat) -> Words
    decreases n,
{
    if n == 0 {
        s
    } else {
        operation(operations(s, x, (n - 1) as nat), x, n - 1)
    }
}

/// The state after one block of sixteen words: 64 operations, then each word
/// added to its value before the block.
pub open spec fn compress(s: Words, x: Seq<u32>) -> Words {
    let r = operations(s, x, 64);
    (s.0.wrapping_add(r.0), s.1.wrapping_add(r.1), s.2.wrapping_add(r.2), s.3.wrapping_add(r.3))
}

/// The little-endian word made of bytes `p .. p + 4`.
pub open spec fn le_word(b: Seq<u8>, p: int) -> u32 {
    (b[p] as int + 256 * b[p + 1] + 65536 * b[p + 2] + 16777216 * b[p + 3]) as u32
}

/// The sixteen words of block `n` of a buffer.
pub open spec fn block_words(buf: Seq<u8>, n: int) -> Seq<u32> {
    Seq::new(16, |j: int| le_word(buf, 64 * n + 4 * j))
}

/// The state after the first `n` blocks of a buffer.
pub open spec fn absorb(buf: Seq<u8>, n: nat) -> Words
    decreases n,
{
    if n == 0 {
        initial_words()
    } else {
        compress(absorb(buf, (n - 1) as nat), block_words(buf, n - 1))
    }
}

/// How many zero bytes follow the terminator byte of a message of `len` bytes.
pub open spec fn zero_count(len: nat) -> nat {
    ((55 - len) % 64) as nat
}

/// The little-endian bytes of a 64-bit value.
pub open spec fn le_bytes64(v: u64) -> Seq<u8> {
    Seq::new(8, |i: int| (v >> (8 * i) as u64) as u8)
}

/// The message bit length modulo 2^64.
pub open spec fn bit_length(len: nat) -> u64 {
    ((len * 8) % 0x1_0000_0000_0000_0000) as u64
}

/// The padded buffer: the message, 0x80, zero bytes up to 56 modulo 64, and the
/// bit length as 8 little-endian bytes.
pub open spec fn padded(msg: Seq<u8>) -> Seq<u8> {
    msg + seq![0x80u8] + Seq::new(zero_count(msg.len()), |i: int| 0u8) + le_bytes64(
        bit_length(msg.len()),
    )
}

/// The four final state words of a message, before the digest byte swap.
pub open spec fn final_words(msg: Seq<u8>) -> Words {
    let buf = padded(msg);
    absorb(buf, buf.len() / 64)
}

/// The digest words: the final state words, each byte-swapped.
pub open spec fn md5_words(msg: Seq<u8>) -> Words {
    let s = final_words(msg);
    (spec_swap_bytes(s.0), spec_swap_bytes(s.1), spec_swap_bytes(s.2), spec_swap_bytes(s.3))
}

} // verus!

verus! {

// ---------------------------------------------------------------------------
// Round functions and word operations
// ---------------------------------------------------------------------------

pub fn round_f(x: u32, y: u32, z: u32) -> (r: u32)
    ensures
        r == spec_f(x, y, z),
{
    (x & y) | (!x & z)
}

pub fn round_g(x: u32, y: u32, z: u32) -> (r: u32)
    ensures
        r == spec_g(x, y, z),
{
    (x & z) | (y & !z)
}

pub fn round_h(x: u32, y: u32, z: u32) -> (r: u32)
    ensures
        r == spec_h(x, y, z),
{
    x ^ y ^ z
}

pub fn round_i(x: u32, y: u32, z: u32) -> (r: u32)
    ensures
        r == spec_i(x, y, z),
{
    y ^ (x | !z)
}

pub fn rotate_left(x: u32, s: u32) -> (r: u32)
    requires
        0 < s < 32,
    ensures
        r == spec_rotl(x, s),
{
    (x << s) | (x >> (32 - s))
}

pub fn swap_bytes(w: u32) -> (r: u32)
    ensures
        r == spec_swap_bytes(w),
{
    ((w & 0xff) << 24u32) | ((w & 0xff00) << 8u32) | ((w >> 8u32) & 0xff00) | (w >> 24u32)
}

fn mix_exec(i: usize, b: u32, c: u32, d: u32) -> (r: u32)
    ensures
        r == mix(i as int, b, c, d),
{
    if i < 16 {
        round_f(b, c, d)
    } else if i < 32 {
        round_g(b, c, d)
    } else if i < 48 {
        round_h(b, c, d)
    } else {
        round_i(b, c, d)
    }
}

fn message_index_exec(i: usize) -> (r: usize)
    requires
        i < 64,
    ensures
        r as int == message_index(i as int),
        r < 16,
{
    if i < 16 {
        i
    } else if i < 32 {
        (1 + 5 * i) % 16
    } else if i < 48 {
        (5 + 3 * i) % 16
    } else {
        (7 * i) % 16
    }
}

fn shift_amount_exec(i: usize) -> (r: u32)
    ensures
        r == shift_amount(i as int),
        0 < r < 32,
{
    let j = i % 4;
    if i < 16 {
        if j == 0 { 7 } else if j == 1 { 12 } else if j == 2 { 17 } else { 22 }
    } else if i < 32 {
        if j == 0 { 5 } else if j == 1 { 9 } else if j == 2 { 14 } else { 20 }
    } else if i < 48 {
        if j == 0 { 4 } else if j == 1 { 11 } else if j == 2 { 16 } else { 23 }
    } else {
        if j == 0 { 6 } else if j == 1 { 10 } else if j == 2 { 15 } else { 21 }
    }
}

/// Operation `i` (0-based) of a block on the words in their current roles.
pub fn apply_operation(s: Words, x: &Vec<u32>, i: usize) -> (r: Words)
    requires
        x@.len() == 16,
        i < 64,
    ensures
        r == operation(s, x@, i as int),
{
    let (a, b, c, d) = s;
    let k = message_index_exec(i);
    let t = a.wrapping_add(mix_exec(i, b, c, d)).wrapping_add(x[k]).wrapping_add(SINE_TABLE[i]);
    (d, b.wrapping_add(rotate_left(t, shift_amount_exec(i))), b, c)
}

/// Runs the 64 operations of one block of sixteen words and adds the result to
/// the state the block started from.
pub fn compress_block(s: Words, x: &Vec<u32>) -> (r: Words)
    requires
        x@.len() == 16,
    ensures
        r == compress(s, x@),
{
    let mut cur = s;
    let mut i: usize = 0;
    while i < 64
        invariant
            x@.len() == 16,
            i <= 64,
            cur == operations(s, x@, i as nat),
        decreases 64 - i,
    {
        cur = apply_operation(cur, x, i);
        i = i + 1;
    }
    (s.0.wrapping_add(cur.0), s.1.wrapping_add(cur.1), s.2.wrapping_add(cur.2), s.3.wrapping_add(cur.3))
}

} // verus!

verus! {

// ---------------------------------------------------------------------------
// Preprocessing and the block loop
// ---------------------------------------------------------------------------

/// Decodes block `n` of a buffer as sixteen little-endian words.
pub fn decode_block(buf: &Vec<u8>, n: usize) -> (x: Vec<u32>)
    requires
        64 * n + 64 <= buf@.len(),
    ensures
        x@ == block_words(buf@, n as int),
{
    let mut x: Vec<u32> = Vec::new();
    let total = buf.len();
    let base = 64 * n;
    let mut j: usize = 0;
    while j < 16
        invariant
            j <= 16,
            base == 64 * n,
            total == buf@.len(),
            64 * n + 64 <= buf@.len(),
            x@ == block_words(buf@, n as int).subrange(0, j as int),
        decreases 16 - j,
    {
        let p = base + 4 * j;
        let w = buf[p] as u32 + 256 * (buf[p + 1] as u32) + 65536 * (buf[p + 2] as u32)
            + 16777216 * (buf[p + 3] as u32);
        x.push(w);
        j = j + 1;
        assert(x@ =~= block_words(buf@, n as int).subrange(0, j as int));
    }
    assert(x@ =~= block_words(buf@, n as int));
    x
}

proof fn lemma_zero_count(len: nat)
    ensures
        (119 - len % 64) % 64 == zero_count(len),
        zero_count(len) < 64,
        (len + 9 + zero_count(len)) % 64 == 0,
{
    assert((119 - len % 64) % 64 == (55 - len) % 64) by (nonlinear_arith);
    assert((len + 9 + (55 - len) % 64) % 64 == 0) by (nonlinear_arith);
}

/// Appends the terminator byte, the zero bytes and the 64-bit little-endian bit
/// length, giving a buffer whose length is a positive multiple of 64.
pub fn pad_message(msg: Vec<u8>) -> (buf: Vec<u8>)
    ensures
        buf@ == padded(msg@),
        buf@.len() % 64 == 0,
        buf@.len() > 0,
{
    let ghost m = msg@;
    let mut buf = msg;
    let len = buf.len();
    let bits: u64 = (len as u64).wrapping_mul(8);
    assert(bits == bit_length(m.len()));
    buf.push(0x80);
    proof {
        lemma_zero_count(m.len());
    }
    let zeros: usize = (119 - len % 64) % 64;
    let mut z: usize = 0;
    while z < zeros
        invariant
            z <= zeros,
            zeros == zero_count(m.len()),
            zeros < 64,
            buf@ == m + seq![0x80u8] + Seq::new(z as nat, |i: int| 0u8),
        decreases zeros - z,
    {
        buf.push(0);
        z = z + 1;
        assert(buf@ =~= m + seq![0x80u8] + Seq::new(z as nat, |i: int| 0u8));
    }
    let ghost body = buf@;
    let mut k: u64 = 0;
    while k < 8
        invariant
            k <= 8,
            body.len() == m.len() + 1 + zeros,
            bits == bit_length(m.len()),
            buf@ == body + le_bytes64(bits).subrange(0, k as int),
        decreases 8 - k,
    {
        buf.push((bits >> (8 * k)) as u8);
        k = k + 1;
        assert(buf@ =~= body + le_bytes64(bits).subrange(0, k as int));
    }
    assert(le_bytes64(bits).subrange(0, 8) =~= le_bytes64(bits));
    assert(buf@ =~= padded(m));
    buf
}

/// The MD5 digest words of a message: the final state words, each byte-swapped.
pub fn md5(msg: Vec<u8>) -> (r: Words)
    ensures
        r == md5_words(msg@),
{
    let ghost m = msg@;
    let buf = pad_message(msg);
    let nblocks = buf.len() / 64;
    let mut st: Words = (INIT_A, INIT_B, INIT_C, INIT_D);
    let mut n: usize = 0;
    while n < nblocks
        invariant
            n <= nblocks,
            buf@ == padded(m),
            nblocks == buf@.len() / 64,
            buf@.len() % 64 == 0,
            st == absorb(buf@, n as nat),
        decreases nblocks - n,
    {
        let x = decode_block(&buf, n);
        st = compress_block(st, &x);
        n = n + 1;
    }
    (swap_bytes(st.0), swap_bytes(st.1), swap_bytes(st.2), swap_bytes(st.3))
}

} // verus!

verus! {

// ---------------------------------------------------------------------------
// Digest formatting
// ---------------------------------------------------------------------------

/// The lowercase hexadecimal digit of a value below 16.
pub open spec fn hex_char(n: u32) -> char {
    if n == 0 {
        '0'
    } else
    if n == 1 {
        '1'
    } else
    if n == 2 {
        '2'
    } else
    if n == 3 {
        '3'
    } else
    if n == 4 {
        '4'
    } else
    if n == 5 {
        '5'
    } else
    if n == 6 {
        '6'
    } else
    if n == 7 {
        '7'
    } else
    if n == 8 {
        '8'
    } else
    if n == 9 {
        '9'
    } else
    if n == 10 {
        'a'
    } else
    if n == 11 {
        'b'
    } else
    if n == 12 {
        'c'
    } else
    if n == 13 {
        'd'
    } else
    if n == 14 {
        'e'
    } else
    {
        'f'
    }
}

/// Whether a character is one of `0`..`9`, `a`..`f`.
pub open spec fn is_lower_hex(c: char) -> bool {
    ('0' <= c && c <= '9') || ('a' <= c && c <= 'f')
}

/// Nibble `j` of a word counted from the most significant end (`0 <= j < 8`).
pub open spec fn nibble(w: u32, j: int) -> u32 {
    (w >> (28 - 4 * j) as u32) & 15u32
}

/// A word as 8 lowercase hex digits, most significant first.
pub open spec fn word_hex(w: u32) -> Seq<char> {
    Seq::new(8, |j: int| hex_char(nibble(w, j)))
}

/// Four words as 32 lowercase hex digits, in order.
pub open spec fn words_hex(q: Words) -> Seq<char> {
    word_hex(q.0) + word_hex(q.1) + word_hex(q.2) + word_hex(q.3)
}

/// The digest of a message as a hex string.
pub open spec fn digest_hex(msg: Seq<u8>) -> Seq<char> {
    words_hex(md5_words(msg))
}

fn hex_digit(n: u32) -> (r: &'static str)
    requires
        n < 16,
    ensures
        r@ == seq![hex_char(n)],
{
    if n == 0 {
        proof {
            reveal_strlit("0");
        }
        "0"
    } else
    if n == 1 {
        proof {
            reveal_strlit("1");
        }
        "1"
    } else
    if n == 2 {
        proof {
            reveal_strlit("2");
        }
        "2"
    } else
    if n == 3 {
        proof {
            reveal_strlit("3");
        }
        "3"
    } else
    if n == 4 {
        proof {
            reveal_strlit("4");
        }
        "4"
    } else
    if n == 5 {
        proof {
            reveal_strlit("5");
        }
        "5"
    } else
    if n == 6 {
        proof {
            reveal_strlit("6");
        }
        "6"
    } else
    if n == 7 {
        proof {
            reveal_strlit("7");
        }
        "7"
    } else
    if n == 8 {
        proof {
            reveal_strlit("8");
        }
        "8"
    } else
    if n == 9 {
        proof {
            reveal_strlit("9");
        }
        "9"
    } else
    if n == 10 {
        proof {
            reveal_strlit("a");
        }
        "a"
    } else
    if n == 11 {
        proof {
            reveal_strlit("b");
        }
        "b"
    } else
    if n == 12 {
        proof {
            reveal_strlit("c");
        }
        "c"
    } else
    if n == 13 {
        proof {
            reveal_strlit("d");
        }
        "d"
    } else
    if n == 14 {
        proof {
            reveal_strlit("e");
        }
        "e"
    } else
    {
        proof {
            reveal_strlit("f");
        }
        "f"
    }
}

fn push_word_hex(out: &mut String, w: u32)
    ensures
        final(out)@ == old(out)@ + word_hex(w),
{
    let ghost start = out@;
    let mut j: u32 = 0;
    while j < 8
        invariant
            j <= 8,
            out@ == start + word_hex(w).subrange(0, j as int),
        decreases 8 - j,
    {
        let sh: u32 = 28 - 4 * j;
        let n = (w >> sh) & 15u32;
        assert(n < 16) by (bit_vector)
            requires
                n == (w >> sh) & 15u32,
        ;
        assert(n == nibble(w, j as int));
        out.append(hex_digit(n));
        j = j + 1;
        assert(out@ =~= start + word_hex(w).subrange(0, j as int));
    }
    assert(word_hex(w).subrange(0, 8) =~= word_hex(w));
}

/// Renders four words as 8 lowercase hex digits each, concatenated in order.
pub fn format_words(q: Words) -> (r: String)
    ensures
        r@ == words_hex(q),
{
    let mut out = String::new();
    push_word_hex(&mut out, q.0);
    push_word_hex(&mut out, q.1);
    push_word_hex(&mut out, q.2);
    push_word_hex(&mut out, q.3);
    assert(out@ =~= words_hex(q));
    out
}

/// The MD5 digest of the UTF-8 bytes of a string, as 32 lowercase hex digits.
pub fn md5_utf8(smsg: &str) -> (r: String)
    ensures
        r@ == digest_hex(smsg.spec_bytes()),
{
    let bytes = smsg.as_bytes();
    let mut msg: Vec<u8> = Vec::new();
    let mut i: usize = 0;
    while i < bytes.len()
        invariant
            i <= bytes@.len(),
            bytes@ == smsg.spec_bytes(),
            msg@ == bytes@.subrange(0, i as int),
        decreases bytes@.len() - i,
    {
        msg.push(bytes[i]);
        i = i + 1;
        assert(msg@ =~= bytes@.subrange(0, i as int));
    }
    assert(msg@ =~= bytes@);
    format_words(md5(msg))
}

} // verus!

verus! {

// ---------------------------------------------------------------------------
// Laws
// ---------------------------------------------------------------------------

proof fn lemma_hex_char_is_lower_hex(n: u32)
    ensures
        is_lower_hex(hex_char(n)),
{
}

/// Every digest is exactly 32 characters long, each a lowercase hex digit.
pub proof fn lemma_digest_is_lower_hex(msg: Seq<u8>)
    ensures
        digest_hex(msg).len() == 32,
        forall|i: int| 0 <= i < 32 ==> is_lower_hex(#[trigger] digest_hex(msg)[i]),
{
    let q = md5_words(msg);
    assert forall|i: int| 0 <= i < 32 implies is_lower_hex(#[trigger] digest_hex(msg)[i]) by {
        let w = if i < 8 {
            q.0
        } else if i < 16 {
            q.1
        } else if i < 24 {
            q.2
        } else {
            q.3
        };
        assert(digest_hex(msg)[i] == hex_char(nibble(w, i % 8)));
        lemma_hex_char_is_lower_hex(nibble(w, i % 8));
    }
}

/// The digest depends on the message bytes alone: equal messages give equal digests.
pub proof fn lemma_digest_deterministic(a: Seq<u8>, b: Seq<u8>)
    requires
        a == b,
    ensures
        md5_words(a) == md5_words(b),
        digest_hex(a) == digest_hex(b),
{
}

/// The padded buffer of any message, the empty one included, has a length that
/// is a positive multiple of 64.
pub proof fn lemma_padded_length(msg: Seq<u8>)
    ensures
        padded(msg).len() == msg.len() + 9 + zero_count(msg.len()),
        padded(msg).len() % 64 == 0,
        padded(msg).len() >= 64,
{
    lemma_zero_count(msg.len());
}

} // verus!
