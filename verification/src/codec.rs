//! The wire codec: framing of a [`Request`] as bytes and back.
//!
//! A frame is the `uri_path` bytes, a two-byte `\r\n` delimiter, then the raw
//! payload bytes. Decoding splits on the *first* `\n` byte: everything before
//! it, minus one trailing byte (the `\r` of a well-formed frame), is the path,
//! and everything after it is the payload, embedded newlines included.

use vstd::prelude::*;
use vstd::utf8::decode_utf8;
use vstd::utf8::encode_scalar;
use vstd::utf8::encode_utf8;
use vstd::utf8::encode_utf8_decode_utf8;
use vstd::utf8::encode_utf8_valid_utf8;
use vstd::utf8::has_width_1_encoding;
use vstd::utf8::has_width_2_encoding;
use vstd::utf8::has_width_3_encoding;
use vstd::utf8::valid_utf8;

verus! {

/// A request: a textual URI path and an opaque payload.
///
/// A path that contains a `\n` character cannot survive a round trip over the
/// wire, because `\n` is the frame delimiter and is never escaped.
#[derive(Debug, Clone, PartialEq, Eq)]
pub struct Request {
    uri_path: String,
    payload: Vec<u8>,
}

/// The mathematical model of a [`Request`]: the path as a character sequence
/// and the payload as a byte sequence.
#[verifier::ext_equal]
pub struct RequestModel {
    pub uri_path: Seq<char>,
    pub payload: Seq<u8>,
}

impl View for Request {
    type V = RequestModel;

    closed spec fn view(&self) -> RequestModel {
        RequestModel { uri_path: self.uri_path@, payload: self.payload@ }
    }
}

impl Request {
    /// Builds a request from a path and a payload.
    pub fn new(uri_path: String, payload: Vec<u8>) -> (r: Request)
        ensures
            r@.uri_path == uri_path@,
            r@.payload == payload@,
    {
        Request { uri_path, payload }
    }

    /// The URI path of the request.
    pub fn url(&self) -> (r: &str)
        ensures
            r@ == self@.uri_path,
    {
        self.uri_path.as_str()
    }

    /// The payload of the request.
    pub fn payload(&self) -> (r: &[u8])
        ensures
            r@ == self@.payload,
    {
        self.payload.as_slice()
    }
}

/// How a byte sequence fails to decode as a request.
#[derive(Debug, Clone, Copy, PartialEq, Eq, Structural)]
pub enum ProtocolError {
    /// The bytes contain no `\n`, so no frame boundary exists.
    MissingDelimiter,
    /// The path segment of the frame is not valid UTF-8.
    InvalidText,
}

/// The byte value of `\r`.
pub const CARRIAGE_RETURN: u8 = 13;

/// The byte value of `\n`, the frame delimiter.
pub const LINE_FEED: u8 = 10;

/// The frame for a request model: UTF-8 of the path, `\r\n`, then the payload.
pub open spec fn spec_encode(r: RequestModel) -> Seq<u8> {
    encode_utf8(r.uri_path) + seq![CARRIAGE_RETURN, LINE_FEED] + r.payload
}

/// Index of the first `\n` byte, or the length of the sequence if none exists.
pub open spec fn first_line_feed(bytes: Seq<u8>) -> int
    decreases bytes.len(),
{
    if bytes.len() == 0 {
        0
    } else if bytes[0] == LINE_FEED {
        0
    } else {
        1 + first_line_feed(bytes.drop_first())
    }
}

/// The path segment of a frame: the bytes before the first `\n`, minus one
/// trailing byte. An empty segment stays empty (there is nothing to strip).
pub open spec fn spec_path_segment(bytes: Seq<u8>) -> Seq<u8> {
    let seg = bytes.take(first_line_feed(bytes));
    if seg.len() == 0 {
        seg
    } else {
        seg.drop_last()
    }
}

/// What decoding a byte sequence yields: the request model, or the error.
///
/// Mirrors [`spec_encode`] only up to the one byte stripped before the
/// delimiter: any byte there decodes the same as `\r`.
pub open spec fn spec_decode(bytes: Seq<u8>) -> Result<RequestModel, ProtocolError> {
    if first_line_feed(bytes) == bytes.len() {
        Err(ProtocolError::MissingDelimiter)
    } else if !valid_utf8(spec_path_segment(bytes)) {
        Err(ProtocolError::InvalidText)
    } else {
        Ok(
            RequestModel {
                uri_path: decode_utf8(spec_path_segment(bytes)),
                payload: bytes.skip(first_line_feed(bytes) + 1),
            },
        )
    }
}

/// Encodes a request into its frame.
pub fn encode(request: Request) -> (r: Vec<u8>)
    ensures
        r@ == spec_encode(request@),
{
    let Request { uri_path, payload } = request;
    let mut bytes: Vec<u8> = uri_path.as_str().as_bytes_vec();
    bytes.push(CARRIAGE_RETURN);
    bytes.push(LINE_FEED);
    bytes.extend_from_slice(payload.as_slice());
    proof {
        assert(bytes@ =~= encode_utf8(uri_path@) + seq![CARRIAGE_RETURN, LINE_FEED] + payload@);
    }
    bytes
}

/// Relies on `String::from_utf8`: it succeeds exactly on valid UTF-8 input and
/// returns the string whose characters are that input's UTF-8 decoding.
#[verifier::external_body]
pub(crate) fn text_of_bytes(bytes: Vec<u8>) -> (r: Option<String>)
    ensures
        r is Some <==> valid_utf8(bytes@),
        r is Some ==> r.unwrap()@ == decode_utf8(bytes@),
{
    String::from_utf8(bytes).ok()
}

/// Decodes a frame into a request, or reports how the frame is malformed.
pub fn decode(bytes: Vec<u8>) -> (r: Result<Request, ProtocolError>)
    ensures
        match r {
            Ok(request) => spec_decode(bytes@) == Ok::<RequestModel, ProtocolError>(request@),
            Err(e) => spec_decode(bytes@) == Err::<RequestModel, ProtocolError>(e),
        },
{
    let n = bytes.len();
    let mut k: usize = 0;
    while k < n && bytes[k] != LINE_FEED
        invariant
            k <= n,
            n == bytes@.len(),
            forall|j: int| 0 <= j < k ==> bytes@[j] != LINE_FEED,
        decreases n - k,
    {
        k = k + 1;
    }
    proof {
        lemma_first_line_feed_at(bytes@, k as int);
    }
    if k == n {
        return Err(ProtocolError::MissingDelimiter);
    }
    let path_len: usize = if k == 0 {
        0
    } else {
        k - 1
    };
    let mut path_bytes: Vec<u8> = Vec::new();
    let mut i: usize = 0;
    while i < path_len
        invariant
            i <= path_len,
            path_len < n,
            n == bytes@.len(),
            path_bytes@ == bytes@.take(i as int),
        decreases path_len - i,
    {
        path_bytes.push(bytes[i]);
        proof {
            assert(path_bytes@ =~= bytes@.take(i + 1));
        }
        i = i + 1;
    }
    proof {
        assert(path_bytes@ =~= spec_path_segment(bytes@));
    }
    let uri_path = match text_of_bytes(path_bytes) {
        Some(s) => s,
        None => {
            return Err(ProtocolError::InvalidText);
        },
    };
    let mut payload: Vec<u8> = Vec::new();
    let mut j: usize = k + 1;
    while j < n
        invariant
            k + 1 <= j <= n,
            n == bytes@.len(),
            payload@ == bytes@.subrange(k + 1, j as int),
        decreases n - j,
    {
        payload.push(bytes[j]);
        proof {
            assert(payload@ =~= bytes@.subrange(k + 1, j + 1));
        }
        j = j + 1;
    }
    proof {
        assert(payload@ =~= bytes@.skip(k + 1));
    }
    Ok(Request { uri_path, payload })
}

/// If the first `k` bytes are free of `\n` and either `k` is the length or
/// byte `k` is `\n`, then `k` is where [`first_line_feed`] points.
proof fn lemma_first_line_feed_at(bytes: Seq<u8>, k: int)
    requires
        0 <= k <= bytes.len(),
        forall|j: int| 0 <= j < k ==> bytes[j] != LINE_FEED,
        k < bytes.len() ==> bytes[k] == LINE_FEED,
    ensures
        first_line_feed(bytes) == k,
    decreases bytes.len(),
{
    if bytes.len() == 0 {
    } else if bytes[0] == LINE_FEED {
    } else {
        lemma_first_line_feed_at(bytes.drop_first(), k - 1);
    }
}

/// The bytes of the UTF-8 encoding of one scalar other than `\n` are all
/// different from the `\n` byte.
proof fn lemma_scalar_no_line_feed(c: u32)
    requires
        c != 10,
    ensures
        forall|i: int| 0 <= i < encode_scalar(c).len() ==> encode_scalar(c)[i] != LINE_FEED,
{
    let head = encode_scalar(c);
    if has_width_1_encoding(c) {
        assert(c <= 0x7F && c != 10 ==> ((c & 0x7F) as u8) != 10) by (bit_vector);
        assert(head =~= seq![(c & 0x7F) as u8]);
    } else if has_width_2_encoding(c) {
        assert((0xC0 | (((c >> 6) & 0x1F) as u8)) >= 0x80) by (bit_vector);
        assert((0x80 | ((c & 0x3F) as u8)) >= 0x80) by (bit_vector);
        assert(head =~= seq![0xC0 | (((c >> 6) & 0x1F) as u8), 0x80 | ((c & 0x3F) as u8)]);
    } else if has_width_3_encoding(c) {
        assert((0xE0 | (((c >> 12) & 0x0F) as u8)) >= 0x80) by (bit_vector);
        assert((0x80 | (((c >> 6) & 0x3F) as u8)) >= 0x80) by (bit_vector);
        assert((0x80 | ((c & 0x3F) as u8)) >= 0x80) by (bit_vector);
        assert(head =~= seq![
            0xE0 | (((c >> 12) & 0x0F) as u8),
            0x80 | (((c >> 6) & 0x3F) as u8),
            0x80 | ((c & 0x3F) as u8),
        ]);
    } else {
        assert((0xF0 | (((c >> 18) & 0x7) as u8)) >= 0x80) by (bit_vector);
        assert((0x80 | (((c >> 12) & 0x3F) as u8)) >= 0x80) by (bit_vector);
        assert((0x80 | (((c >> 6) & 0x3F) as u8)) >= 0x80) by (bit_vector);
        assert((0x80 | ((c & 0x3F) as u8)) >= 0x80) by (bit_vector);
        assert(head =~= seq![
            0xF0 | (((c >> 18) & 0x7) as u8),
            0x80 | (((c >> 12) & 0x3F) as u8),
            0x80 | (((c >> 6) & 0x3F) as u8),
            0x80 | ((c & 0x3F) as u8),
        ]);
    }
}

/// A sequence of characters free of `\n` encodes, in UTF-8, to a sequence of
/// bytes free of the `\n` byte.
proof fn lemma_encode_no_line_feed(chars: Seq<char>)
    requires
        forall|i: int| 0 <= i < chars.len() ==> chars[i] != '\n',
    ensures
        forall|i: int| 0 <= i < encode_utf8(chars).len() ==> encode_utf8(chars)[i] != LINE_FEED,
    decreases chars.len(),
{
    if chars.len() == 0 {
    } else {
        let c = chars[0] as u32;
        let head = encode_scalar(c);
        let tail = encode_utf8(chars.drop_first());
        assert(c != 10) by {
            vstd::utf8::char_u32_cast(chars[0], c);
            vstd::utf8::char_u32_cast('\n', '\n' as u32);
            assert('\n' as u32 == 10);
            assert(chars[0] != '\n');
        }
        lemma_scalar_no_line_feed(c);
        lemma_encode_no_line_feed(chars.drop_first());
        assert(encode_utf8(chars) == head + tail);
        assert forall|i: int| 0 <= i < encode_utf8(chars).len() implies encode_utf8(chars)[i]
            != LINE_FEED by {
            if i < head.len() {
                assert(encode_utf8(chars)[i] == head[i]);
            } else {
                assert(encode_utf8(chars)[i] == tail[i - head.len()]);
            }
        }
    }
}

/// Round trip: a request whose path is free of `\n` decodes, from its own
/// frame, back to itself.
pub proof fn lemma_round_trip(r: RequestModel)
    requires
        forall|i: int| 0 <= i < r.uri_path.len() ==> r.uri_path[i] != '\n',
    ensures
        spec_decode(spec_encode(r)) == Ok::<RequestModel, ProtocolError>(r),
{
    let enc = encode_utf8(r.uri_path);
    let frame = spec_encode(r);
    lemma_encode_no_line_feed(r.uri_path);
    assert(forall|j: int| 0 <= j <= enc.len() ==> frame[j] == (enc + seq![
        CARRIAGE_RETURN,
        LINE_FEED,
    ])[j]);
    lemma_first_line_feed_at(frame, enc.len() + 1 as int);
    assert(frame.take(enc.len() + 1 as int).drop_last() =~= enc);
    encode_utf8_valid_utf8(r.uri_path);
    encode_utf8_decode_utf8(r.uri_path);
    assert(frame.skip(enc.len() + 2 as int) =~= r.payload);
    assert(spec_decode(frame) == Ok::<RequestModel, ProtocolError>(r));
}

/// Framing: a byte sequence free of `\n` never decodes; it fails with
/// [`ProtocolError::MissingDelimiter`].
pub proof fn lemma_missing_delimiter(bytes: Seq<u8>)
    requires
        forall|i: int| 0 <= i < bytes.len() ==> bytes[i] != LINE_FEED,
    ensures
        spec_decode(bytes) == Err::<RequestModel, ProtocolError>(ProtocolError::MissingDelimiter),
{
    lemma_first_line_feed_at(bytes, bytes.len() as int);
}

} // verus!
