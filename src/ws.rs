use vstd::prelude::*;
use crate::crypto::{base64_encode, base64_spec, lemma_base64_len, sha1, sha1_spec};
use crate::shell::{append_bytes, cap_bytes};
use crate::text::{
    header_end,
    header_end_spec,
    word_lower,
    word_lower_spec,
    word_upper,
    word_upper_spec,
    ws_accept_head,
    ws_accept_head_spec,
    ws_guid,
    ws_guid_spec,
    ws_key_header,
    ws_key_header_spec,
};

verus! {

/// Longest client key the handshake uses.
pub const MAX_KEY: usize = 60;

/// Text frame opcode.
pub const OP_TEXT: u8 = 1;

/// Close frame opcode.
pub const OP_CLOSE: u8 = 8;

/// Ping frame opcode.
pub const OP_PING: u8 = 9;

/// Largest payload a frame here carries (16-bit extended length).
pub const MAX_PAYLOAD: usize = 65535;

/// `pat` occurs in `s` at `i`.
pub open spec fn occurs_at(s: Seq<u8>, pat: Seq<u8>, i: int) -> bool {
    0 <= i && i + pat.len() <= s.len() && s.subrange(i, i + pat.len()) == pat
}

/// The request asks for a WebSocket upgrade: it contains `websocket` or `WebSocket`.
pub open spec fn is_upgrade_spec(req: Seq<u8>) -> bool {
    exists|i: int| occurs_at(req, word_lower_spec(), i) || occurs_at(req, word_upper_spec(), i)
}

/// First position from `i` on where `pat` occurs.
pub open spec fn first_occurrence(s: Seq<u8>, pat: Seq<u8>, i: int) -> Option<int>
    decreases s.len() + 1 - i,
{
    if i < 0 || i + pat.len() > s.len() {
        None
    } else if occurs_at(s, pat, i) {
        Some(i)
    } else {
        first_occurrence(s, pat, i + 1)
    }
}

/// End of the header value starting at `j`: the first CR, LF or the end of `s`.
pub open spec fn value_end(s: Seq<u8>, j: int) -> int
    decreases s.len() - j,
{
    if j < 0 || j >= s.len() || s[j] == 13u8 || s[j] == 10u8 {
        j
    } else {
        value_end(s, j + 1)
    }
}

/// The `Sec-WebSocket-Key` value of a request, at most 60 bytes of it.
pub open spec fn key_spec(req: Seq<u8>) -> Option<Seq<u8>> {
    match first_occurrence(req, ws_key_header_spec(), 0) {
        Some(i) => {
            let j = i + ws_key_header_spec().len();
            Some(cap_bytes(req.subrange(j, value_end(req, j)), MAX_KEY as nat))
        },
        None => None,
    }
}

/// `Sec-WebSocket-Accept` for a key: Base64 of the SHA-1 of the key (at most 60 bytes of it)
/// followed by the protocol's GUID.
pub open spec fn accept_spec(key: Seq<u8>) -> Seq<u8> {
    base64_spec(sha1_spec(cap_bytes(key, MAX_KEY as nat) + ws_guid_spec()))
}

/// The 101 response for a request, or `None` when it carries no usable key.
pub open spec fn handshake_spec(req: Seq<u8>) -> Option<Seq<u8>> {
    match key_spec(req) {
        Some(k) => if k.len() > 0 {
            Some(ws_accept_head_spec() + accept_spec(k) + header_end_spec())
        } else {
            None
        },
        None => None,
    }
}

/// What a frame decodes to: FIN bit, opcode and unmasked payload; `None` when the bytes
/// hold no whole frame or use the unsupported 64-bit length.
pub open spec fn decode_spec(b: Seq<u8>) -> Option<(bool, u8, Seq<u8>)> {
    if b.len() < 2 {
        None
    } else {
        let len7 = b[1] & 0x7fu8;
        let masked = (b[1] & 0x80u8) != 0;
        if len7 == 127 {
            None
        } else if len7 == 126 && b.len() < 4 {
            None
        } else {
            let plen: int = if len7 == 126 {
                b[2] as int * 256 + b[3] as int
            } else {
                len7 as int
            };
            let off: int = if len7 == 126 {
                4
            } else {
                2
            };
            if masked && b.len() < off + 4 {
                None
            } else {
                let start = if masked {
                    off + 4
                } else {
                    off
                };
                if b.len() < start + plen {
                    None
                } else {
                    Some(
                        (
                            (b[0] & 0x80u8) != 0,
                            b[0] & 0x0fu8,
                            Seq::new(
                                plen as nat,
                                |i: int|
                                    if masked {
                                        b[start + i] ^ b[off + i % 4]
                                    } else {
                                        b[start + i]
                                    },
                            ),
                        ),
                    )
                }
            }
        }
    }
}

/// The length field of a frame header for a payload of `n` bytes (`n` < 65536), with the
/// mask bit given.
pub open spec fn length_field(n: nat, mask_bit: u8) -> Seq<u8> {
    if n < 126 {
        seq![mask_bit | (n as u8)]
    } else {
        seq![mask_bit | 126u8, (n / 256) as u8, (n % 256) as u8]
    }
}

/// A server text frame: FIN and TEXT, the length, the payload unmasked.
pub open spec fn text_frame_spec(p: Seq<u8>) -> Seq<u8> {
    seq![0x81u8] + length_field(p.len(), 0u8) + p
}

/// `p` XORed with a repeating four-byte mask.
pub open spec fn masked_spec(p: Seq<u8>, mask: Seq<u8>) -> Seq<u8> {
    Seq::new(p.len(), |i: int| p[i] ^ mask[i % 4])
}

/// A client text frame: FIN and TEXT, the length with the mask bit, the mask, the masked
/// payload.
pub open spec fn client_frame_spec(p: Seq<u8>, mask: Seq<u8>) -> Seq<u8> {
    seq![0x81u8] + length_field(p.len(), 0x80u8) + mask + masked_spec(p, mask)
}

/// A decoded frame.
pub struct Frame {
    pub fin: bool,
    pub opcode: u8,
    pub payload: Vec<u8>,
}

/// `pat` occurs in `s` at `i`.
fn matches_at(s: &[u8], i: usize, pat: &[u8]) -> (r: bool)
    ensures
        r == occurs_at(s@, pat@, i as int),
{
    if i > s.len() || pat.len() > s.len() - i {
        return false;
    }
    let mut k: usize = 0;
    while k < pat.len()
        invariant
            i + pat@.len() <= s@.len(),
            s@.len() == s.len(),
            k <= pat@.len(),
            forall|m: int| 0 <= m < k ==> s@[i + m] == pat@[m],
        decreases pat@.len() - k,
    {
        if s[i + k] != pat[k] {
            proof {
                assert(s@.subrange(i as int, i + pat@.len())[k as int] != pat@[k as int]);
            }
            return false;
        }
        k += 1;
    }
    proof {
        assert(s@.subrange(i as int, i + pat@.len()) =~= pat@);
    }
    true
}

/// The request asks for a WebSocket upgrade.
pub fn is_websocket_upgrade(request: &[u8]) -> (r: bool)
    ensures
        r == is_upgrade_spec(request@),
{
    let lower = word_lower();
    let upper = word_upper();
    let mut i: usize = 0;
    while i < request.len()
        invariant
            lower@ == word_lower_spec(),
            upper@ == word_upper_spec(),
            i <= request@.len(),
            forall|k: int|
                0 <= k < i ==> !occurs_at(request@, word_lower_spec(), k) && !occurs_at(
                    request@,
                    word_upper_spec(),
                    k,
                ),
        decreases request@.len() - i,
    {
        if matches_at(request, i, lower.as_slice()) || matches_at(request, i, upper.as_slice()) {
            return true;
        }
        i += 1;
    }
    proof {
        assert forall|k: int|
            !(occurs_at(request@, word_lower_spec(), k) || occurs_at(
                request@,
                word_upper_spec(),
                k,
            )) by {
            if k >= request@.len() {
                assert(word_lower_spec().len() == 9);
                assert(word_upper_spec().len() == 9);
            }
        }
    }
    false
}

/// The `Sec-WebSocket-Key` value of a request (first such header; up to CR or LF; at most
/// 60 bytes), or `None` when there is no such header.
pub fn find_websocket_key(request: &[u8]) -> (r: Option<Vec<u8>>)
    ensures
        match key_spec(request@) {
            Some(k) => r matches Some(v) && v@ == k,
            None => r.is_none(),
        },
{
    let header = ws_key_header();
    let mut i: usize = 0;
    while i < request.len()
        invariant
            header@ == ws_key_header_spec(),
            i <= request@.len(),
            first_occurrence(request@, header@, 0) == first_occurrence(request@, header@, i as int),
        decreases request@.len() - i,
    {
        if matches_at(request, i, header.as_slice()) {
            let start = i + header.len();
            let mut j: usize = start;
            while j < request.len() && request[j] != 13u8 && request[j] != 10u8
                invariant
                    start <= j <= request@.len(),
                    value_end(request@, start as int) == value_end(request@, j as int),
                decreases request@.len() - j,
            {
                j += 1;
            }
            let end: usize = if j - start > MAX_KEY { start + MAX_KEY } else { j };
            let key = vstd::slice::slice_subrange(request, start, end);
            proof {
                let full = request@.subrange(start as int, j as int);
                if j - start > MAX_KEY {
                    assert(key@ =~= full.take(MAX_KEY as int));
                }
            }
            return Some(vstd::slice::slice_to_vec(key));
        }
        i += 1;
    }
    proof {
        assert(header@.len() == 19);
    }
    None
}

/// `Sec-WebSocket-Accept` for a client key.
pub fn accept_key(key: &[u8]) -> (r: Vec<u8>)
    ensures
        r@ == accept_spec(key@),
        r@.len() == 28,
{
    let mut combined: Vec<u8> = Vec::new();
    let n: usize = if key.len() > MAX_KEY { MAX_KEY } else { key.len() };
    let k = vstd::slice::slice_subrange(key, 0, n);
    append_bytes(&mut combined, k);
    let guid = ws_guid();
    append_bytes(&mut combined, guid.as_slice());
    proof {
        if key@.len() <= MAX_KEY {
            assert(k@ =~= key@);
        }
        assert(combined@ == cap_bytes(key@, MAX_KEY as nat) + ws_guid_spec());
    }
    let hash = sha1(combined.as_slice());
    let mut out: Vec<u8> = vec![0u8; 28];
    let written = base64_encode(&hash, out.as_mut_slice());
    proof {
        lemma_base64_len(hash@);
        assert(written == 28);
        assert(out@ =~= out@.take(28));
        assert(base64_spec(hash@).take(28) =~= base64_spec(hash@));
    }
    out
}

/// The `101 Switching Protocols` response to an upgrade request, or `None` when the request
/// carries no key (the connection is then closed).
pub fn handle_websocket_connection(request: &[u8]) -> (r: Option<Vec<u8>>)
    ensures
        match handshake_spec(request@) {
            Some(resp) => r matches Some(v) && v@ == resp,
            None => r.is_none(),
        },
{
    match find_websocket_key(request) {
        Some(key) => {
            if key.len() == 0 {
                return None;
            }
            let mut resp = ws_accept_head();
            let acc = accept_key(key.as_slice());
            append_bytes(&mut resp, acc.as_slice());
            let end = header_end();
            append_bytes(&mut resp, end.as_slice());
            Some(resp)
        },
        None => None,
    }
}

/// Decodes one frame from the start of `buf` (see `decode_spec`).
pub fn decode_frame(buf: &[u8]) -> (r: Option<Frame>)
    ensures
        match decode_spec(buf@) {
            Some((fin, op, p)) => r matches Some(f) && f.fin == fin && f.opcode == op && f.payload@
                == p,
            None => r.is_none(),
        },
{
    let n = buf.len();
    if n < 2 {
        return None;
    }
    let len7: u8 = buf[1] & 0x7f;
    let masked: bool = (buf[1] & 0x80) != 0;
    if len7 == 127 {
        return None;
    }
    if len7 == 126 && n < 4 {
        return None;
    }
    let plen: usize = if len7 == 126 { buf[2] as usize * 256 + buf[3] as usize } else { len7 as usize };
    let off: usize = if len7 == 126 { 4 } else { 2 };
    if masked && n < off + 4 {
        return None;
    }
    let start: usize = if masked { off + 4 } else { off };
    if n < start + plen {
        return None;
    }
    let ghost b = buf@;
    let mut payload: Vec<u8> = Vec::new();
    let mut i: usize = 0;
    while i < plen
        invariant
            b == buf@,
            start + plen <= buf.len(),
            b.len() == buf.len(),
            masked ==> off + 4 <= buf.len(),
            i <= plen,
            payload@.len() == i,
            forall|k: int|
                0 <= k < i ==> payload@[k] == if masked {
                    b[start + k] ^ b[off + k % 4]
                } else {
                    b[start + k]
                },
        decreases plen - i,
    {
        let x = if masked { buf[start + i] ^ buf[off + i % 4] } else { buf[start + i] };
        payload.push(x);
        i += 1;
    }
    let fin = (buf[0] & 0x80) != 0;
    let opcode = buf[0] & 0x0f;
    proof {
        let d = decode_spec(b);
        assert(d.is_some());
        assert(payload@ =~= d.unwrap().2);
    }
    Some(Frame { fin, opcode, payload })
}

/// The frame header's length field for a payload of `n` bytes.
fn push_length(out: &mut Vec<u8>, n: usize, mask_bit: u8)
    requires
        n <= MAX_PAYLOAD,
        mask_bit == 0 || mask_bit == 0x80,
    ensures
        final(out)@ == old(out)@ + length_field(n as nat, mask_bit),
{
    if n < 126 {
        out.push(mask_bit | (n as u8));
        proof {
            assert(final(out)@ =~= old(out)@ + length_field(n as nat, mask_bit));
        }
    } else {
        out.push(mask_bit | 126u8);
        out.push((n / 256) as u8);
        out.push((n % 256) as u8);
        proof {
            assert(final(out)@ =~= old(out)@ + length_field(n as nat, mask_bit));
        }
    }
}

/// A server text frame carrying `payload`, or `None` when it is longer than 65535 bytes.
pub fn encode_text_frame(payload: &[u8]) -> (r: Option<Vec<u8>>)
    ensures
        payload@.len() <= MAX_PAYLOAD ==> (r matches Some(v) && v@ == text_frame_spec(payload@)),
        payload@.len() > MAX_PAYLOAD ==> r.is_none(),
{
    if payload.len() > MAX_PAYLOAD {
        return None;
    }
    let mut out: Vec<u8> = vec![0x81u8];
    push_length(&mut out, payload.len(), 0);
    append_bytes(&mut out, payload);
    Some(out)
}

/// A client text frame carrying `payload` masked with `mask`, or `None` when the payload is
/// longer than 65535 bytes.
pub fn encode_masked_text_frame(payload: &[u8], mask: [u8; 4]) -> (r: Option<Vec<u8>>)
    ensures
        payload@.len() <= MAX_PAYLOAD ==> (r matches Some(v) && v@ == client_frame_spec(
            payload@,
            mask@,
        )),
        payload@.len() > MAX_PAYLOAD ==> r.is_none(),
{
    if payload.len() > MAX_PAYLOAD {
        return None;
    }
    let mut out: Vec<u8> = vec![0x81u8];
    push_length(&mut out, payload.len(), 0x80);
    let m = vstd::array::array_as_slice(&mask);
    append_bytes(&mut out, m);
    let ghost head = out@;
    let mut i: usize = 0;
    while i < payload.len()
        invariant
            mask@.len() == 4,
            i <= payload@.len(),
            out@ == head + masked_spec(payload@, mask@).take(i as int),
        decreases payload@.len() - i,
    {
        out.push(payload[i] ^ mask[i % 4]);
        proof {
            assert(head + masked_spec(payload@, mask@).take(i + 1) =~= (head + masked_spec(
                payload@,
                mask@,
            ).take(i as int)).push(payload@[i as int] ^ mask@[(i % 4) as int]));
        }
        i += 1;
    }
    proof {
        assert(masked_spec(payload@, mask@).take(i as int) =~= masked_spec(payload@, mask@));
    }
    Some(out)
}

proof fn lemma_length_bits(n: u8)
    requires
        n < 126,
    ensures
        (n & 0x7fu8) == n,
        (n & 0x80u8) == 0,
        ((0x80u8 | n) & 0x7fu8) == n,
        ((0x80u8 | n) & 0x80u8) != 0,
{
    assert((n & 0x7fu8) == n) by (bit_vector)
        requires
            n < 126,
    ;
    assert((n & 0x80u8) == 0) by (bit_vector)
        requires
            n < 126,
    ;
    assert(((0x80u8 | n) & 0x7fu8) == n) by (bit_vector)
        requires
            n < 126,
    ;
    assert(((0x80u8 | n) & 0x80u8) != 0) by (bit_vector);
}

proof fn lemma_header_bits()
    ensures
        (0x81u8 & 0x80u8) != 0,
        (0x81u8 & 0x0fu8) == 1,
        ((0u8 | 126u8) & 0x7fu8) == 126,
        ((0u8 | 126u8) & 0x80u8) == 0,
        ((0x80u8 | 126u8) & 0x7fu8) == 126,
        ((0x80u8 | 126u8) & 0x80u8) != 0,
        forall|x: u8| #[trigger] (0u8 | x) == x,
{
    assert((0x81u8 & 0x80u8) != 0) by (bit_vector);
    assert((0x81u8 & 0x0fu8) == 1) by (bit_vector);
    assert(((0u8 | 126u8) & 0x7fu8) == 126) by (bit_vector);
    assert(((0u8 | 126u8) & 0x80u8) == 0) by (bit_vector);
    assert(((0x80u8 | 126u8) & 0x7fu8) == 126) by (bit_vector);
    assert(((0x80u8 | 126u8) & 0x80u8) != 0) by (bit_vector);
    assert forall|x: u8| #[trigger] (0u8 | x) == x by {
        assert((0u8 | x) == x) by (bit_vector);
    }
}

proof fn lemma_unmask(x: u8, m: u8)
    ensures
        (x ^ m) ^ m == x,
{
    assert((x ^ m) ^ m == x) by (bit_vector);
}

proof fn lemma_split_length(n: nat)
    requires
        126 <= n <= MAX_PAYLOAD,
    ensures
        ((n / 256) as u8) as int * 256 + ((n % 256) as u8) as int == n,
{
    assert(n / 256 < 256);
    assert(n % 256 < 256);
    assert((n / 256) * 256 + n % 256 == n);
}

/// Decoding a server text frame gives back a final TEXT frame with the same payload.
pub proof fn lemma_text_frame_round_trip(p: Seq<u8>)
    requires
        1 <= p.len() <= MAX_PAYLOAD,
    ensures
        decode_spec(text_frame_spec(p)) == Some((true, OP_TEXT, p)),
{
    let b = text_frame_spec(p);
    lemma_header_bits();
    if p.len() < 126 {
        lemma_length_bits(p.len() as u8);
        assert(b[1] == p.len() as u8);
        let d = decode_spec(b);
        assert(d.unwrap().2 =~= p);
    } else {
        lemma_split_length(p.len());
        assert(b[1] == 126u8);
        let d = decode_spec(b);
        assert(d.unwrap().2 =~= p);
    }
}

/// Decoding a client frame, whatever its four-byte mask, gives back the unmasked payload.
pub proof fn lemma_client_frame_round_trip(p: Seq<u8>, mask: Seq<u8>)
    requires
        1 <= p.len() <= MAX_PAYLOAD,
        mask.len() == 4,
    ensures
        decode_spec(client_frame_spec(p, mask)) == Some((true, OP_TEXT, p)),
{
    let b = client_frame_spec(p, mask);
    lemma_header_bits();
    let off: int = if p.len() < 126 {
        2
    } else {
        4
    };
    if p.len() < 126 {
        lemma_length_bits(p.len() as u8);
    } else {
        lemma_split_length(p.len());
    }
    assert forall|i: int| 0 <= i < p.len() implies #[trigger] b[off + 4 + i] ^ b[off + i % 4]
        == p[i] by {
        assert(b[off + 4 + i] == p[i] ^ mask[i % 4]);
        assert(b[off + i % 4] == mask[i % 4]);
        lemma_unmask(p[i], mask[i % 4]);
    }
    let d = decode_spec(b);
    assert(d.unwrap().2 =~= p);
}

/// The handshake answers a key of at most 60 bytes with Base64 of the SHA-1 of the key
/// followed by the GUID.
pub proof fn lemma_accept_key_formula(key: Seq<u8>)
    requires
        key.len() <= MAX_KEY,
    ensures
        accept_spec(key) == base64_spec(sha1_spec(key + ws_guid_spec())),
{
}

} // verus!
