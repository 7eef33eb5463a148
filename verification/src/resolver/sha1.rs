//! SHA-1 (RFC 3174), used solely by Google's cookie-signing protocol.

use vstd::prelude::*;

verus! {

/// The five words that the digest is computed in.
#[derive(Debug, Clone, Copy, PartialEq, Eq, Structural)]
pub struct State {
    pub a: u32,
    pub b: u32,
    pub c: u32,
    pub d: u32,
    pub e: u32,
}

/// The words before the first block.
pub open spec fn initial() -> State {
    State {
        a: 0x6745_2301,
        b: 0xEFCD_AB89,
        c: 0x98BA_DCFE,
        d: 0x1032_5476,
        e: 0xC3D2_E1F0,
    }
}

/// A word turned left by `n` bits.
pub open spec fn turned(x: u32, n: u32) -> u32 {
    (x << n) | (x >> ((32 - n) as u32))
}

fn turn(x: u32, n: u32) -> (r: u32)
    requires
        0 < n < 32,
    ensures
        r == turned(x, n),
{
    (x << n) | (x >> (32 - n))
}

/// The big-endian bytes of a number.
pub open spec fn be_bytes(n: u64) -> Seq<u8> {
    seq![
        ((n >> 56) & 0xff) as u8,
        ((n >> 48) & 0xff) as u8,
        ((n >> 40) & 0xff) as u8,
        ((n >> 32) & 0xff) as u8,
        ((n >> 24) & 0xff) as u8,
        ((n >> 16) & 0xff) as u8,
        ((n >> 8) & 0xff) as u8,
        (n & 0xff) as u8,
    ]
}

/// How many zeros follow the end mark of a message, so that with its length the
/// whole is made of blocks of sixty-four bytes.
pub open spec fn padding(len: nat) -> nat {
    ((119 - (len % 64)) % 64) as nat
}

/// A message with its end mark, its padding, and its length in bits.
pub open spec fn padded(data: Seq<u8>) -> Seq<u8> {
    data.push(0x80u8) + Seq::new(padding(data.len()), |i: int| 0u8) + be_bytes(
        (data.len() as u64).wrapping_mul(8),
    )
}

/// Block number `k` of a padded message.
pub open spec fn block(message: Seq<u8>, k: int) -> Seq<u8> {
    message.subrange(64 * k, 64 * k + 64)
}

/// Word `t` of a block, as its four bytes give it.
pub open spec fn plain_word(block: Seq<u8>, t: int) -> u32 {
    ((block[4 * t] as u32) << 24) | ((block[4 * t + 1] as u32) << 16) | ((block[4 * t + 2] as u32)
        << 8) | (block[4 * t + 3] as u32)
}

/// Word `t` of the schedule of a block.
pub open spec fn word(block: Seq<u8>, t: nat) -> u32
    decreases t,
{
    if t < 16 {
        plain_word(block, t as int)
    } else {
        turned(
            word(block, (t - 3) as nat) ^ word(block, (t - 8) as nat) ^ word(
                block,
                (t - 14) as nat,
            ) ^ word(block, (t - 16) as nat),
            1,
        )
    }
}

/// How a round mixes three of the words.
pub open spec fn mixed(t: nat, b: u32, c: u32, d: u32) -> u32 {
    if t < 20 {
        (b & c) | (!b & d)
    } else if t < 40 {
        b ^ c ^ d
    } else if t < 60 {
        (b & c) | (b & d) | (c & d)
    } else {
        b ^ c ^ d
    }
}

/// The constant of a round.
pub open spec fn constant(t: nat) -> u32 {
    if t < 20 {
        0x5A82_7999
    } else if t < 40 {
        0x6ED9_EBA1
    } else if t < 60 {
        0x8F1B_BCDC
    } else {
        0xCA62_C1D6
    }
}

/// The words after round `t`, which takes in the word `w`.
pub open spec fn round(s: State, t: nat, w: u32) -> State {
    State {
        a: turned(s.a, 5).wrapping_add(mixed(t, s.b, s.c, s.d)).wrapping_add(s.e).wrapping_add(
            constant(t),
        ).wrapping_add(w),
        b: s.a,
        c: turned(s.b, 30),
        d: s.c,
        e: s.d,
    }
}

/// The words after the first `n` rounds over a block.
pub open spec fn rounds(s: State, block: Seq<u8>, n: nat) -> State
    decreases n,
{
    if n == 0 {
        s
    } else {
        round(rounds(s, block, (n - 1) as nat), (n - 1) as nat, word(block, (n - 1) as nat))
    }
}

/// The words once a block has been taken in.
pub open spec fn compressed(s: State, block: Seq<u8>) -> State {
    let t = rounds(s, block, 80);
    State {
        a: s.a.wrapping_add(t.a),
        b: s.b.wrapping_add(t.b),
        c: s.c.wrapping_add(t.c),
        d: s.d.wrapping_add(t.d),
        e: s.e.wrapping_add(t.e),
    }
}

/// The words after the first `n` blocks of a padded message.
pub open spec fn hashed(message: Seq<u8>, n: nat) -> State
    decreases n,
{
    if n == 0 {
        initial()
    } else {
        compressed(hashed(message, (n - 1) as nat), block(message, n - 1))
    }
}

/// A hexadecimal digit.
pub open spec fn hex_digit(d: u32) -> char {
    if d < 10 {
        (48 + d) as char
    } else {
        (87 + d) as char
    }
}

/// A word as eight hexadecimal digits.
pub open spec fn hex_word(w: u32) -> Seq<char> {
    seq![
        hex_digit((w >> 28) & 15),
        hex_digit((w >> 24) & 15),
        hex_digit((w >> 20) & 15),
        hex_digit((w >> 16) & 15),
        hex_digit((w >> 12) & 15),
        hex_digit((w >> 8) & 15),
        hex_digit((w >> 4) & 15),
        hex_digit(w & 15),
    ]
}

/// The digest of a message in hexadecimal.
pub open spec fn digest_of(data: Seq<u8>) -> Seq<char> {
    let message = padded(data);
    let s = hashed(message, (message.len() / 64) as nat);
    hex_word(s.a) + hex_word(s.b) + hex_word(s.c) + hex_word(s.d) + hex_word(s.e)
}

fn digit(d: u32) -> (r: char)
    requires
        d < 16,
    ensures
        r == hex_digit(d),
{
    if d < 10 {
        (48 + d as u8) as char
    } else {
        (87 + d as u8) as char
    }
}

proof fn lemma_nibbles(w: u32)
    by (bit_vector)
    ensures
        w & 15 < 16,
        forall|n: u32| #[trigger] (w >> n) & 15 < 16,
{
}

fn push_word(text: &mut Vec<char>, w: u32)
    ensures
        final(text)@ == old(text)@ + hex_word(w),
{
    proof {
        lemma_nibbles(w);
    }
    text.push(digit((w >> 28) & 15));
    text.push(digit((w >> 24) & 15));
    text.push(digit((w >> 20) & 15));
    text.push(digit((w >> 16) & 15));
    text.push(digit((w >> 12) & 15));
    text.push(digit((w >> 8) & 15));
    text.push(digit((w >> 4) & 15));
    text.push(digit(w & 15));
    proof {
        assert(text@ =~= old(text)@ + hex_word(w));
    }
}

/// A message with its end mark, its padding, and its length.
fn pad(data: &[u8]) -> (r: Vec<u8>)
    ensures
        r@ == padded(data@),
        r@.len() % 64 == 0,
{
    let len: usize = data.len();
    let bits: u64 = (len as u64).wrapping_mul(8);
    let mut message: Vec<u8> = Vec::new();
    let mut i: usize = 0;
    while i < len
        invariant
            i <= len == data@.len(),
            message@ =~= data@.take(i as int),
        decreases len - i,
    {
        message.push(data[i]);
        i += 1;
    }
    message.push(0x80);
    let zeros: usize = (119 - len % 64) % 64;
    let mut k: usize = 0;
    proof {
        assert(data@.take(len as int) =~= data@);
    }
    while k < zeros
        invariant
            k <= zeros,
            zeros == padding(data@.len()),
            message@ =~= data@.push(0x80u8) + Seq::new(k as nat, |i: int| 0u8),
        decreases zeros - k,
    {
        message.push(0);
        k += 1;
    }
    message.push(((bits >> 56) & 0xff) as u8);
    message.push(((bits >> 48) & 0xff) as u8);
    message.push(((bits >> 40) & 0xff) as u8);
    message.push(((bits >> 32) & 0xff) as u8);
    message.push(((bits >> 24) & 0xff) as u8);
    message.push(((bits >> 16) & 0xff) as u8);
    message.push(((bits >> 8) & 0xff) as u8);
    message.push((bits & 0xff) as u8);
    proof {
        assert(message@ =~= padded(data@));
    }
    message
}

/// The schedule of the block that starts at `from`.
fn schedule(message: &[u8], from: usize) -> (r: Vec<u32>)
    requires
        from + 64 <= message@.len(),
    ensures
        r@.len() == 80,
        forall|t: int|
            0 <= t < 80 ==> #[trigger] r@[t] == word(
                message@.subrange(from as int, from + 64),
                t as nat,
            ),
{
    let ghost block = message@.subrange(from as int, from + 64);
    let len: usize = message.len();
    let mut words: Vec<u32> = Vec::new();
    while words.len() < 16
        invariant
            words@.len() <= 16,
            from + 64 <= message@.len() == len,
            block == message@.subrange(from as int, from + 64),
            forall|t: int| 0 <= t < words@.len() ==> #[trigger] words@[t] == word(block, t as nat),
        decreases 16 - words.len(),
    {
        let t: usize = words.len();
        let at: usize = from + 4 * t;
        proof {
            assert(block[4 * t] == message@[at as int]);
            assert(block[4 * t + 1] == message@[at + 1]);
            assert(block[4 * t + 2] == message@[at + 2]);
            assert(block[4 * t + 3] == message@[at + 3]);
        }
        words.push(
            ((message[at] as u32) << 24) | ((message[at + 1] as u32) << 16) | ((message[at
                + 2] as u32) << 8) | (message[at + 3] as u32),
        );
    }
    while words.len() < 80
        invariant
            16 <= words@.len() <= 80,
            forall|t: int| 0 <= t < words@.len() ==> #[trigger] words@[t] == word(block, t as nat),
        decreases 80 - words.len(),
    {
        let t: usize = words.len();
        words.push(turn(words[t - 3] ^ words[t - 8] ^ words[t - 14] ^ words[t - 16], 1));
    }
    words
}

/// Takes in the block that starts at `from`.
fn compress(s: State, message: &[u8], from: usize) -> (r: State)
    requires
        from + 64 <= message@.len(),
    ensures
        r == compressed(s, message@.subrange(from as int, from + 64)),
{
    let ghost block = message@.subrange(from as int, from + 64);
    let words = schedule(message, from);
    let mut at = s;
    let mut t: usize = 0;
    while t < 80
        invariant
            t <= 80,
            words@.len() == 80,
            forall|t: int| 0 <= t < 80 ==> #[trigger] words@[t] == word(block, t as nat),
            at == rounds(s, block, t as nat),
        decreases 80 - t,
    {
        let (mix, add): (u32, u32) = if t < 20 {
            ((at.b & at.c) | (!at.b & at.d), 0x5A82_7999)
        } else if t < 40 {
            (at.b ^ at.c ^ at.d, 0x6ED9_EBA1)
        } else if t < 60 {
            ((at.b & at.c) | (at.b & at.d) | (at.c & at.d), 0x8F1B_BCDC)
        } else {
            (at.b ^ at.c ^ at.d, 0xCA62_C1D6)
        };
        let next: u32 = turn(at.a, 5).wrapping_add(mix).wrapping_add(at.e).wrapping_add(
            add,
        ).wrapping_add(words[t]);
        at = State { a: next, b: at.a, c: turn(at.b, 30), d: at.c, e: at.d };
        t += 1;
    }
    State {
        a: s.a.wrapping_add(at.a),
        b: s.b.wrapping_add(at.b),
        c: s.c.wrapping_add(at.c),
        d: s.d.wrapping_add(at.d),
        e: s.e.wrapping_add(at.e),
    }
}

/// The SHA-1 digest of some bytes, in hexadecimal.
pub fn sha1_hex(data: &[u8]) -> (r: String)
    ensures
        r@ == digest_of(data@),
{
    let message = pad(data);
    let len: usize = message.len();
    let mut s = State {
        a: 0x6745_2301,
        b: 0xEFCD_AB89,
        c: 0x98BA_DCFE,
        d: 0x1032_5476,
        e: 0xC3D2_E1F0,
    };
    let mut from: usize = 0;
    while from < len
        invariant
            from <= len == message@.len(),
            len % 64 == 0,
            from % 64 == 0,
            s == hashed(message@, (from / 64) as nat),
        decreases len - from,
    {
        proof {
            let k = from / 64;
            assert(64 * k == from);
            assert((from + 64) / 64 == k + 1);
            assert(block(message@, k as int) == message@.subrange(from as int, from + 64));
        }
        s = compress(s, &message, from);
        from += 64;
    }
    let mut text: Vec<char> = Vec::new();
    push_word(&mut text, s.a);
    push_word(&mut text, s.b);
    push_word(&mut text, s.c);
    push_word(&mut text, s.d);
    push_word(&mut text, s.e);
    proof {
        assert(text@ =~= digest_of(data@));
    }
    crate::text::from_chars(&text)
}

/// A padded message is made of whole blocks.
pub proof fn padded_message_is_whole_blocks(data: Seq<u8>)
    ensures
        padded(data).len() % 64 == 0,
        padded(data).len() >= data.len() + 9,
        padded(data).take(data.len() as int) == data,
{
    assert(padded(data).take(data.len() as int) =~= data);
}

/// A digest has forty characters, each of them a hexadecimal digit.
pub proof fn digest_is_forty_hexadecimal_digits(data: Seq<u8>, i: int)
    requires
        0 <= i < 40,
    ensures
        digest_of(data).len() == 40,
        '0' <= digest_of(data)[i] <= '9' || 'a' <= digest_of(data)[i] <= 'f',
{
    let message = padded(data);
    let s = hashed(message, (message.len() / 64) as nat);
    let w = if i < 8 {
        s.a
    } else if i < 16 {
        s.b
    } else if i < 24 {
        s.c
    } else if i < 32 {
        s.d
    } else {
        s.e
    };
    lemma_nibbles(w);
    assert(digest_of(data)[i] == hex_word(w)[i % 8]);
}

} // verus!
