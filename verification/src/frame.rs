//! Binary frames that carry tunnelled game bytes over the WebSocket:
//! a big-endian `u16` length, the connection id's UTF-8 bytes, then the payload.
use vstd::prelude::*;
use vstd::string::StringSliceAdditionalSpecFns;
use vstd::utf8::{decode_utf8, encode_utf8, valid_utf8};

verus! {

/// What `String::from_utf8_lossy` makes of `bytes`.
pub uninterp spec fn utf8_lossy(bytes: Seq<u8>) -> Seq<char>;

/// std's `String::from_utf8_lossy`, owned. The contract claims that the result is
/// a function of the bytes alone, and, as std documents, that valid UTF-8 comes
/// back as the text it encodes; what replaces invalid sequences is left unsaid.
#[verifier::external_body]
fn from_utf8_lossy(bytes: &[u8]) -> (s: String)
    ensures
        s@ == utf8_lossy(bytes@),
        valid_utf8(bytes@) ==> s@ == decode_utf8(bytes@),
{
    String::from_utf8_lossy(bytes).into_owned()
}

/// Received bytes as text, invalid UTF-8 replaced as `String::from_utf8_lossy` does.
pub fn lossy_text(bytes: &[u8]) -> (s: String)
    ensures
        s@ == utf8_lossy(bytes@),
        valid_utf8(bytes@) ==> s@ == decode_utf8(bytes@),
{
    from_utf8_lossy(bytes)
}

/// The frame for `id` (the connection id's bytes) and `data`; as `as u16` does,
/// the length prefix keeps the id's length modulo 65536.
pub open spec fn frame_bytes(id: Seq<u8>, data: Seq<u8>) -> Seq<u8> {
    let n = id.len() % 65536;
    seq![(n / 256) as u8, (n % 256) as u8] + id + data
}

/// How a received frame splits into id bytes and payload, when it is at least
/// `min_len` bytes long (and never shorter than its two length bytes).
pub open spec fn frame_split(data: Seq<u8>, min_len: nat) -> Option<(Seq<u8>, Seq<u8>)> {
    if data.len() < min_len || data.len() < 2 {
        None
    } else {
        let n = data[0] as nat * 256 + data[1] as nat;
        if data.len() < 2 + n {
            None
        } else {
            Some((data.subrange(2, 2 + n as int), data.subrange(2 + n as int, data.len() as int)))
        }
    }
}

fn push_all(out: &mut Vec<u8>, src: &[u8])
    ensures
        final(out)@ == old(out)@ + src@,
{
    let mut i: usize = 0;
    while i < src.len()
        invariant
            i <= src@.len(),
            out@ == old(out)@ + src@.take(i as int),
        decreases src@.len() - i,
    {
        out.push(src[i]);
        i = i + 1;
        assert(out@ =~= old(out)@ + src@.take(i as int));
    }
    assert(src@.take(i as int) =~= src@);
}

/// The frame that carries `data` for the tunnelled connection `connection_id`.
pub fn encode_relay_frame(connection_id: &str, data: &[u8]) -> (f: Vec<u8>)
    ensures
        f@ == frame_bytes(connection_id.spec_bytes(), data@),
{
    let id = connection_id.as_bytes();
    let n: u16 = (id.len() % 65536) as u16;
    let mut f: Vec<u8> = Vec::new();
    f.push((n / 256) as u8);
    f.push((n % 256) as u8);
    push_all(&mut f, id);
    push_all(&mut f, data);
    assert(f@ =~= frame_bytes(connection_id.spec_bytes(), data@));
    f
}

fn copy_range(data: &[u8], lo: usize, hi: usize) -> (v: Vec<u8>)
    requires
        lo <= hi <= data@.len(),
    ensures
        v@ == data@.subrange(lo as int, hi as int),
{
    let mut v: Vec<u8> = Vec::new();
    let mut i = lo;
    while i < hi
        invariant
            lo <= i <= hi <= data@.len(),
            v@ == data@.subrange(lo as int, i as int),
        decreases hi - i,
    {
        v.push(data[i]);
        i = i + 1;
        assert(v@ =~= data@.subrange(lo as int, i as int));
    }
    v
}

/// Splits a received frame into the connection id and the payload.
fn decode_relay_frame(data: &[u8], min_len: usize) -> (r: Option<(String, Vec<u8>)>)
    ensures
        match frame_split(data@, min_len as nat) {
            None => r is None,
            Some((id, payload)) => r matches Some((s, p)) && s@ == utf8_lossy(id) && (valid_utf8(
                id,
            ) ==> s@ == decode_utf8(id)) && p@ == payload,
        },
{
    if data.len() < min_len || data.len() < 2 {
        return None;
    }
    let n = (data[0] as usize) * 256 + (data[1] as usize);
    if data.len() - 2 < n {
        return None;
    }
    let id = copy_range(data, 2, 2 + n);
    let payload = copy_range(data, 2 + n, data.len());
    let s = from_utf8_lossy(id.as_slice());
    Some((s, payload))
}

/// The relay server's reading of a binary frame: frames under four bytes are dropped.
pub fn decode_server_frame(data: &[u8]) -> (r: Option<(String, Vec<u8>)>)
    ensures
        match frame_split(data@, 4) {
            None => r is None,
            Some((id, payload)) => r matches Some((s, p)) && s@ == utf8_lossy(id) && (valid_utf8(
                id,
            ) ==> s@ == decode_utf8(id)) && p@ == payload,
        },
{
    decode_relay_frame(data, 4)
}

/// The client's reading of a binary frame: frames under two bytes are dropped.
pub fn decode_client_frame(data: &[u8]) -> (r: Option<(String, Vec<u8>)>)
    ensures
        match frame_split(data@, 2) {
            None => r is None,
            Some((id, payload)) => r matches Some((s, p)) && s@ == utf8_lossy(id) && (valid_utf8(
                id,
            ) ==> s@ == decode_utf8(id)) && p@ == payload,
        },
{
    decode_relay_frame(data, 2)
}

/// A frame built for a connection id shorter than 65536 bytes splits back into
/// that id and the payload, and the id's bytes decode to the id, whenever the
/// frame meets the reader's minimum length.
pub proof fn lemma_frame_round_trip(id: Seq<char>, data: Seq<u8>, min_len: nat)
    requires
        encode_utf8(id).len() < 65536,
        frame_bytes(encode_utf8(id), data).len() >= min_len,
    ensures
        frame_split(frame_bytes(encode_utf8(id), data), min_len) == Some((encode_utf8(id), data)),
        valid_utf8(encode_utf8(id)),
        decode_utf8(encode_utf8(id)) == id,
{
    let b = encode_utf8(id);
    let f = frame_bytes(b, data);
    let n = b.len();
    assert(f[0] as nat * 256 + f[1] as nat == n);
    assert(f.subrange(2, 2 + n as int) =~= b);
    assert(f.subrange(2 + n as int, f.len() as int) =~= data);
    vstd::utf8::encode_utf8_valid_utf8(id);
    vstd::utf8::encode_utf8_decode_utf8(id);
}

} // verus!
