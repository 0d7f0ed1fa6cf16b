use vstd::prelude::*;
use vstd::slice::slice_subrange;

verus! {

/// The five 32-bit chaining words of SHA-1.
pub type Sha1Words = (u32, u32, u32, u32, u32);

pub open spec fn rotl_spec(x: u32, n: u32) -> u32 {
    (x << n) | (x >> ((32 - n) as u32))
}

/// Length of the padded message for an input of `n` bytes (one or two blocks).
pub open spec fn padded_len(n: nat) -> nat {
    if n <= 55 {
        64
    } else {
        128
    }
}

/// Byte `i` of the padded message: the input, 0x80, zeros, then the bit length big-endian.
pub open spec fn pad_byte(m: Seq<u8>, i: int) -> u8 {
    let pl = padded_len(m.len()) as int;
    let ml = (m.len() * 8) as u64;
    if i < m.len() {
        m[i]
    } else if i == m.len() {
        0x80u8
    } else if i < pl - 8 {
        0u8
    } else {
        ((ml >> ((56 - (i - (pl - 8)) * 8) as u64)) & 0xffu64) as u8
    }
}

pub open spec fn sha1_padded(m: Seq<u8>) -> Seq<u8> {
    Seq::new(padded_len(m.len()), |i: int| pad_byte(m, i))
}

/// Big-endian word `i` of a 64-byte block.
pub open spec fn be_word(block: Seq<u8>, i: int) -> u32 {
    ((block[4 * i] as u32) << 24u32) | ((block[4 * i + 1] as u32) << 16u32) | ((block[4 * i + 2] as u32)
        << 8u32) | (block[4 * i + 3] as u32)
}

/// Word `t` of the 80-word message schedule of a block.
pub open spec fn sched(block: Seq<u8>, t: nat) -> u32
    decreases t,
{
    if t < 16 {
        be_word(block, t as int)
    } else {
        rotl_spec(
            sched(block, (t - 3) as nat) ^ sched(block, (t - 8) as nat) ^ sched(block, (t - 14) as nat)
                ^ sched(block, (t - 16) as nat),
            1,
        )
    }
}

/// Round function and constant of round `t`.
pub open spec fn round_fk(t: nat, b: u32, c: u32, d: u32) -> (u32, u32) {
    if t < 20 {
        ((b & c) | ((!b) & d), 0x5A827999u32)
    } else if t < 40 {
        (b ^ c ^ d, 0x6ED9EBA1u32)
    } else if t < 60 {
        ((b & c) | (b & d) | (c & d), 0x8F1BBCDCu32)
    } else {
        (b ^ c ^ d, 0xCA62C1D6u32)
    }
}

pub open spec fn round_step(s: Sha1Words, t: nat, w: u32) -> Sha1Words {
    let (a, b, c, d, e) = s;
    let (f, k) = round_fk(t, b, c, d);
    let temp = rotl_spec(a, 5).wrapping_add(f).wrapping_add(e).wrapping_add(k).wrapping_add(w);
    (temp, a, rotl_spec(b, 30), c, d)
}

/// The working variables after the first `t` rounds on `block`.
pub open spec fn rounds(block: Seq<u8>, s0: Sha1Words, t: nat) -> Sha1Words
    decreases t,
{
    if t == 0 {
        s0
    } else {
        round_step(rounds(block, s0, (t - 1) as nat), (t - 1) as nat, sched(block, (t - 1) as nat))
    }
}

pub open spec fn compress_spec(h: Sha1Words, block: Seq<u8>) -> Sha1Words {
    let r = rounds(block, h, 80);
    (
        h.0.wrapping_add(r.0),
        h.1.wrapping_add(r.1),
        h.2.wrapping_add(r.2),
        h.3.wrapping_add(r.3),
        h.4.wrapping_add(r.4),
    )
}

pub open spec fn sha1_init() -> Sha1Words {
    (0x67452301u32, 0xEFCDAB89u32, 0x98BADCFEu32, 0x10325476u32, 0xC3D2E1F0u32)
}

/// Chaining words after the first `n` blocks of the padded message `p`.
pub open spec fn process_blocks(p: Seq<u8>, n: nat) -> Sha1Words
    decreases n,
{
    if n == 0 {
        sha1_init()
    } else {
        compress_spec(
            process_blocks(p, (n - 1) as nat),
            p.subrange(64 * (n - 1), 64 * n as int),
        )
    }
}

pub open spec fn word_byte(w: u32, j: int) -> u8 {
    ((w >> ((24 - j * 8) as u32)) & 0xffu32) as u8
}

pub open spec fn word_at(h: Sha1Words, i: int) -> u32 {
    if i == 0 {
        h.0
    } else if i == 1 {
        h.1
    } else if i == 2 {
        h.2
    } else if i == 3 {
        h.3
    } else {
        h.4
    }
}

pub open spec fn digest_bytes(h: Sha1Words) -> Seq<u8> {
    Seq::new(20, |i: int| word_byte(word_at(h, i / 4), i % 4))
}

/// The SHA-1 digest of `m` (for messages that pad to at most two blocks).
pub open spec fn sha1_spec(m: Seq<u8>) -> Seq<u8> {
    let p = sha1_padded(m);
    digest_bytes(process_blocks(p, p.len() / 64))
}

/// Character of the standard Base64 alphabet for a 6-bit value.
pub open spec fn b64_char_spec(v: u8) -> u8 {
    if v < 26 {
        (65 + v) as u8
    } else if v < 52 {
        (97 + v - 26) as u8
    } else if v < 62 {
        (48 + v - 52) as u8
    } else if v == 62 {
        43u8
    } else {
        47u8
    }
}

/// Standard Base64 of `d`, with `=` padding and no line breaks.
pub open spec fn base64_spec(d: Seq<u8>) -> Seq<u8>
    decreases d.len(),
{
    if d.len() == 0 {
        seq![]
    } else if d.len() == 1 {
        seq![
            b64_char_spec(d[0] >> 2u8),
            b64_char_spec((d[0] & 0x03u8) << 4u8),
            61u8,
            61u8,
        ]
    } else if d.len() == 2 {
        seq![
            b64_char_spec(d[0] >> 2u8),
            b64_char_spec(((d[0] & 0x03u8) << 4u8) | (d[1] >> 4u8)),
            b64_char_spec((d[1] & 0x0fu8) << 2u8),
            61u8,
        ]
    } else {
        seq![
            b64_char_spec(d[0] >> 2u8),
            b64_char_spec(((d[0] & 0x03u8) << 4u8) | (d[1] >> 4u8)),
            b64_char_spec(((d[1] & 0x0fu8) << 2u8) | (d[2] >> 6u8)),
            b64_char_spec(d[2] & 0x3fu8),
        ] + base64_spec(d.skip(3))
    }
}

pub proof fn lemma_base64_len(d: Seq<u8>)
    ensures
        base64_spec(d).len() == 4 * ((d.len() + 2) / 3),
    decreases d.len(),
{
    if d.len() > 2 {
        lemma_base64_len(d.skip(3));
    }
}

fn rotl(x: u32, n: u32) -> (r: u32)
    requires
        1 <= n <= 31,
    ensures
        r == rotl_spec(x, n),
{
    (x << n) | (x >> (32 - n))
}

fn round_fk_exec(t: usize, b: u32, c: u32, d: u32) -> (r: (u32, u32))
    ensures
        r == round_fk(t as nat, b, c, d),
{
    if t < 20 {
        ((b & c) | ((!b) & d), 0x5A827999u32)
    } else if t < 40 {
        (b ^ c ^ d, 0x6ED9EBA1u32)
    } else if t < 60 {
        ((b & c) | (b & d) | (c & d), 0x8F1BBCDCu32)
    } else {
        (b ^ c ^ d, 0xCA62C1D6u32)
    }
}

fn sha1_pad(data: &[u8]) -> (r: Vec<u8>)
    requires
        data@.len() <= 119,
    ensures
        r@ == sha1_padded(data@),
{
    let ghost m = data@;
    let pl: usize = if data.len() <= 55 { 64 } else { 128 };
    let ml: u64 = (data.len() as u64) * 8;
    let mut v: Vec<u8> = Vec::new();
    let mut i: usize = 0;
    while i < pl
        invariant
            pl == padded_len(m.len()),
            ml == (m.len() * 8) as u64,
            m == data@,
            i <= pl,
            v@.len() == i,
            forall|k: int| 0 <= k < i ==> v@[k] == pad_byte(m, k),
        decreases pl - i,
    {
        let b: u8 = if i < data.len() {
            data[i]
        } else if i == data.len() {
            0x80u8
        } else if i < pl - 8 {
            0u8
        } else {
            ((ml >> ((56 - (i - (pl - 8)) * 8) as u64)) & 0xffu64) as u8
        };
        v.push(b);
        i += 1;
    }
    proof {
        assert(v@ =~= sha1_padded(m));
    }
    v
}

fn schedule(block: &[u8]) -> (w: Vec<u32>)
    requires
        block@.len() == 64,
    ensures
        w@.len() == 80,
        forall|t: int| 0 <= t < 80 ==> w@[t] == sched(block@, t as nat),
{
    let mut w: Vec<u32> = Vec::new();
    let mut i: usize = 0;
    while i < 80
        invariant
            block@.len() == 64,
            i <= 80,
            w@.len() == i,
            forall|t: int| 0 <= t < i ==> w@[t] == sched(block@, t as nat),
        decreases 80 - i,
    {
        if i < 16 {
            let x = ((block[i * 4] as u32) << 24u32) | ((block[i * 4 + 1] as u32) << 16u32) | ((block[i
                * 4 + 2] as u32) << 8u32) | (block[i * 4 + 3] as u32);
            w.push(x);
        } else {
            let x = rotl(w[i - 3] ^ w[i - 8] ^ w[i - 14] ^ w[i - 16], 1);
            w.push(x);
        }
        i += 1;
    }
    w
}

fn compress(h: Sha1Words, block: &[u8]) -> (r: Sha1Words)
    requires
        block@.len() == 64,
    ensures
        r == compress_spec(h, block@),
{
    let w = schedule(block);
    let (mut a, mut b, mut c, mut d, mut e) = h;
    let mut i: usize = 0;
    while i < 80
        invariant
            w@.len() == 80,
            forall|t: int| 0 <= t < 80 ==> w@[t] == sched(block@, t as nat),
            i <= 80,
            (a, b, c, d, e) == rounds(block@, h, i as nat),
        decreases 80 - i,
    {
        let (f, k) = round_fk_exec(i, b, c, d);
        let temp = rotl(a, 5).wrapping_add(f).wrapping_add(e).wrapping_add(k).wrapping_add(w[i]);
        e = d;
        d = c;
        c = rotl(b, 30);
        b = a;
        a = temp;
        i += 1;
    }
    (h.0.wrapping_add(a), h.1.wrapping_add(b), h.2.wrapping_add(c), h.3.wrapping_add(d), h.4.wrapping_add(e))
}

/// SHA-1 digest of a message of at most 119 bytes (one or two padded blocks).
pub fn sha1(data: &[u8]) -> (r: [u8; 20])
    requires
        data@.len() <= 119,
    ensures
        r@ == sha1_spec(data@),
{
    let padded = sha1_pad(data);
    let chunks: usize = padded.len() / 64;
    let mut h: Sha1Words = (0x67452301u32, 0xEFCDAB89u32, 0x98BADCFEu32, 0x10325476u32, 0xC3D2E1F0u32);
    let mut ci: usize = 0;
    while ci < chunks
        invariant
            padded@ == sha1_padded(data@),
            chunks == padded@.len() / 64,
            chunks <= 2,
            ci <= chunks,
            h == process_blocks(padded@, ci as nat),
        decreases chunks - ci,
    {
        let block = slice_subrange(padded.as_slice(), ci * 64, (ci + 1) * 64);
        h = compress(h, block);
        ci += 1;
    }
    let (h0, h1, h2, h3, h4) = h;
    let mut result = [0u8; 20];
    let mut i: usize = 0;
    while i < 4
        invariant
            i <= 4,
            h == (h0, h1, h2, h3, h4),
            forall|k: int| 0 <= k < 20 && k % 4 < i ==> result@[k] == digest_bytes(h)[k],
        decreases 4 - i,
    {
        let sh: u32 = (24 - i * 8) as u32;
        result[i] = ((h0 >> sh) & 0xff) as u8;
        result[i + 4] = ((h1 >> sh) & 0xff) as u8;
        result[i + 8] = ((h2 >> sh) & 0xff) as u8;
        result[i + 12] = ((h3 >> sh) & 0xff) as u8;
        result[i + 16] = ((h4 >> sh) & 0xff) as u8;
        i += 1;
    }
    proof {
        assert(result@ =~= digest_bytes(h));
    }
    result
}

fn b64_char(v: u8) -> (r: u8)
    ensures
        r == b64_char_spec(v),
{
    if v < 26 {
        65 + v
    } else if v < 52 {
        97 + v - 26
    } else if v < 62 {
        48 + v - 52
    } else if v == 62 {
        43
    } else {
        47
    }
}

/// The Base64 text of `d` from input offset `i` on is one full group followed by the rest.
proof fn lemma_base64_group(d: Seq<u8>, i: int)
    requires
        0 <= i,
        i + 3 <= d.len(),
    ensures
        base64_spec(d.skip(i)) == seq![
            b64_char_spec(d[i] >> 2u8),
            b64_char_spec(((d[i] & 0x03u8) << 4u8) | (d[i + 1] >> 4u8)),
            b64_char_spec(((d[i + 1] & 0x0fu8) << 2u8) | (d[i + 2] >> 6u8)),
            b64_char_spec(d[i + 2] & 0x3fu8),
        ] + base64_spec(d.skip(i + 3)),
{
    assert(d.skip(i).skip(3) =~= d.skip(i + 3));
}

/// Writes the Base64 text of `data` at the start of `output`, four characters per group
/// of up to three input bytes, as many whole groups as fit; returns the number written.
pub fn base64_encode(data: &[u8], output: &mut [u8]) -> (r: usize)
    ensures
        r == 4 * vstd::math::min((data@.len() + 2) as int / 3, old(output)@.len() as int / 4),
        final(output)@.len() == old(output)@.len(),
        final(output)@.take(r as int) == base64_spec(data@).take(r as int),
        final(output)@.skip(r as int) == old(output)@.skip(r as int),
{
    let ghost d = data@;
    let ghost out0 = output@;
    let ghost enc = base64_spec(d);
    let mut pos: usize = 0;
    let mut i: usize = 0;
    proof {
        assert(d.skip(0) =~= d);
        assert(enc.skip(0) =~= enc);
        lemma_base64_len(d);
    }
    while i + 2 < data.len() && output.len() - pos >= 4
        invariant
            d == data@,
            enc == base64_spec(d),
            enc.len() == 4 * ((d.len() + 2) / 3),
            output@.len() == out0.len(),
            i % 3 == 0,
            pos == 4 * (i / 3),
            i <= d.len(),
            pos <= output@.len(),
            enc.skip(pos as int) == base64_spec(d.skip(i as int)),
            output@.take(pos as int) == enc.take(pos as int),
            output@.skip(pos as int) == out0.skip(pos as int),
        decreases d.len() - i,
    {
        let b1 = data[i];
        let b2 = data[i + 1];
        let b3 = data[i + 2];
        let ghost o = output@;
        output[pos] = b64_char(b1 >> 2);
        output[pos + 1] = b64_char(((b1 & 0x03) << 4) | (b2 >> 4));
        output[pos + 2] = b64_char(((b2 & 0x0f) << 2) | (b3 >> 6));
        output[pos + 3] = b64_char(b3 & 0x3f);
        proof {
            lemma_base64_group(d, i as int);
            assert(enc.skip(pos + 4) =~= enc.skip(pos as int).skip(4));
            assert(enc.skip(pos as int).skip(4) =~= base64_spec(d.skip(i + 3)));
            assert forall|k: int| 0 <= k < pos + 4 implies output@[k] == enc[k] by {
                if k < pos {
                    assert(output@[k] == o[k]);
                    assert(o.take(pos as int)[k] == enc.take(pos as int)[k]);
                } else {
                    assert(enc[k] == enc.skip(pos as int)[k - pos]);
                }
            }
            assert(output@.take(pos + 4) =~= enc.take(pos + 4));
            assert forall|k: int| 0 <= k < out0.len() - (pos + 4) implies #[trigger] output@.skip(pos + 4)[k]
                == out0.skip(pos + 4)[k] by {
                assert(o.skip(pos as int)[k + 4] == out0.skip(pos as int)[k + 4]);
            }
            assert(output@.skip(pos + 4) =~= out0.skip(pos + 4));
        }
        pos += 4;
        i += 3;
    }
    let remaining = data.len() - i;
    if remaining > 0 && remaining < 3 && output.len() - pos >= 4 {
        let b1 = data[i];
        let ghost o = output@;
        let ghost rest = d.skip(i as int);
        output[pos] = b64_char(b1 >> 2);
        if remaining == 1 {
            output[pos + 1] = b64_char((b1 & 0x03) << 4);
            output[pos + 2] = 61;
            output[pos + 3] = 61;
        } else {
            let b2 = data[i + 1];
            output[pos + 1] = b64_char(((b1 & 0x03) << 4) | (b2 >> 4));
            output[pos + 2] = b64_char((b2 & 0x0f) << 2);
            output[pos + 3] = 61;
        }
        proof {
            assert forall|k: int| 0 <= k < pos + 4 implies output@[k] == enc[k] by {
                if k < pos {
                    assert(output@[k] == o[k]);
                    assert(o.take(pos as int)[k] == enc.take(pos as int)[k]);
                } else {
                    assert(enc[k] == enc.skip(pos as int)[k - pos]);
                }
            }
            assert(output@.take(pos + 4) =~= enc.take(pos + 4));
            assert forall|k: int| 0 <= k < out0.len() - (pos + 4) implies #[trigger] output@.skip(pos + 4)[k]
                == out0.skip(pos + 4)[k] by {
                assert(o.skip(pos as int)[k + 4] == out0.skip(pos as int)[k + 4]);
            }
            assert(output@.skip(pos + 4) =~= out0.skip(pos + 4));
        }
        pos += 4;
    }
    pos
}

} // verus!
