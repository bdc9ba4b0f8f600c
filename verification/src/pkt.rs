//! The pkt-line codec: length-prefixed frames of the Git smart-HTTP wire
//! format. A frame is either the 4-byte flush marker `0000` or a 4-digit
//! lowercase-hex length prefix (payload length + 4) followed by the payload.

use vstd::prelude::*;

use crate::err::BridgeError;

verus! {

/// Largest payload a single pkt-line frame can carry: the 4-hex-digit length
/// prefix counts itself, so the length value tops out at 0xfff0 = 65520.
pub const MAX_PAYLOAD: usize = 65516;

/// Lowercase ASCII hex digit for a nibble.
pub open spec fn hex_digit(n: int) -> u8
    recommends
        0 <= n < 16,
{
    if n < 10 {
        (48 + n) as u8
    } else {
        (87 + n) as u8
    }
}

/// A length value rendered as exactly 4 lowercase hex digits, zero-padded.
pub open spec fn hex4(n: int) -> Seq<u8>
    recommends
        0 <= n <= 0xffff,
{
    seq![
        hex_digit(n / 0x1000 % 16),
        hex_digit(n / 0x100 % 16),
        hex_digit(n / 0x10 % 16),
        hex_digit(n % 16),
    ]
}

/// The bytes of the flush marker, `"0000"`.
pub open spec fn flush_marker() -> Seq<u8> {
    seq![48u8, 48u8, 48u8, 48u8]
}

/// The encoded form of a payload: the flush marker for an empty payload,
/// otherwise the hex length prefix followed by the payload bytes.
pub open spec fn spec_encode(p: Seq<u8>) -> Seq<u8>
    recommends
        p.len() <= MAX_PAYLOAD,
{
    if p.len() == 0 {
        flush_marker()
    } else {
        hex4(p.len() + 4 as int) + p
    }
}

/// Lowercase ASCII hex digit for a nibble, executable form.
fn hex_digit_byte(d: u8) -> (r: u8)
    requires
        d < 16,
    ensures
        r == hex_digit(d as int),
{
    if d < 10 {
        48 + d
    } else {
        87 + d
    }
}

/// Encode a payload as a single pkt-line frame.
///
/// An empty payload encodes as the flush marker `0000`; any other payload of
/// at most `MAX_PAYLOAD` bytes encodes as the 4-digit lowercase-hex value of
/// `payload.len() + 4` followed by the payload, byte for byte. A longer
/// payload is refused with `OversizedPayload`, never truncated.
pub fn encode(payload: &[u8]) -> (r: Result<Vec<u8>, BridgeError>)
    ensures
        payload@.len() <= MAX_PAYLOAD ==> (r matches Ok(v) && v@ == spec_encode(payload@)),
        payload@.len() > MAX_PAYLOAD ==> r == Err::<Vec<u8>, BridgeError>(
            BridgeError::OversizedPayload,
        ),
{
    let n: usize = payload.len();
    if n > MAX_PAYLOAD {
        return Err(BridgeError::OversizedPayload);
    }
    let mut out: Vec<u8> = Vec::new();
    if n == 0 {
        out.push(48);
        out.push(48);
        out.push(48);
        out.push(48);
        assert(out@ =~= flush_marker());
        return Ok(out);
    }
    let len: usize = n + 4;
    out.push(hex_digit_byte((len / 0x1000 % 16) as u8));
    out.push(hex_digit_byte((len / 0x100 % 16) as u8));
    out.push(hex_digit_byte((len / 0x10 % 16) as u8));
    out.push(hex_digit_byte((len % 16) as u8));
    assert(out@ =~= hex4(len as int));
    let mut i: usize = 0;
    while i < n
        invariant
            n == payload@.len(),
            0 < n <= MAX_PAYLOAD,
            len == n + 4,
            i <= n,
            out@ == hex4(len as int) + payload@.subrange(0, i as int),
        decreases n - i,
    {
        out.push(payload[i]);
        assert(out@ =~= hex4(len as int) + payload@.subrange(0, i + 1 as int));
        i += 1;
    }
    assert(payload@.subrange(0, n as int) =~= payload@);
    Ok(out)
}

/// Whether a byte is a lowercase ASCII hex digit.
pub open spec fn is_hex_digit(b: u8) -> bool {
    (48 <= b && b <= 57) || (97 <= b && b <= 102)
}

/// The value of a lowercase ASCII hex digit.
pub open spec fn hex_val(b: u8) -> int
    recommends
        is_hex_digit(b),
{
    if b <= 57 {
        b - 48
    } else {
        b - 87
    }
}

/// Whether the first four bytes of a stream are all lowercase hex digits.
pub open spec fn prefix_hex(s: Seq<u8>) -> bool
    recommends
        s.len() >= 4,
{
    is_hex_digit(s[0]) && is_hex_digit(s[1]) && is_hex_digit(s[2]) && is_hex_digit(s[3])
}

/// The length value carried by a stream's 4-digit hex prefix.
pub open spec fn prefix_val(s: Seq<u8>) -> int
    recommends
        s.len() >= 4 && prefix_hex(s),
{
    hex_val(s[0]) * 0x1000 + hex_val(s[1]) * 0x100 + hex_val(s[2]) * 0x10 + hex_val(s[3])
}

/// The outcome of decoding the front of a stream, at the specification level.
pub enum SpecDecoded {
    /// A data frame: the payload, then the bytes after the frame.
    Frame(Seq<u8>, Seq<u8>),
    /// A flush marker, with the bytes after it.
    Flush(Seq<u8>),
    /// The stream holds less than one whole frame.
    NeedMoreData,
    /// The prefix is not 4 lowercase hex digits, or its value is 1 to 3.
    Invalid,
}

/// What decoding the front of `s` yields, following the same length-prefix
/// rule as `spec_encode`.
pub open spec fn spec_decode(s: Seq<u8>) -> SpecDecoded {
    if s.len() < 4 {
        SpecDecoded::NeedMoreData
    } else if !prefix_hex(s) {
        SpecDecoded::Invalid
    } else {
        let n = prefix_val(s);
        if n == 0 {
            SpecDecoded::Flush(s.subrange(4, s.len() as int))
        } else if n < 4 {
            SpecDecoded::Invalid
        } else if s.len() < n {
            SpecDecoded::NeedMoreData
        } else {
            SpecDecoded::Frame(s.subrange(4, n), s.subrange(n, s.len() as int))
        }
    }
}

/// The outcome of decoding the front of a stream.
pub enum Decoded {
    /// A data frame: its payload and the bytes that follow the frame.
    Frame { payload: Vec<u8>, remaining: Vec<u8> },
    /// A flush marker, with the bytes that follow it.
    Flush { remaining: Vec<u8> },
    /// The stream holds less than one whole frame.
    NeedMoreData,
    /// The length prefix is not 4 lowercase hex digits, or its value is 1 to 3.
    Invalid,
}

impl View for Decoded {
    type V = SpecDecoded;

    open spec fn view(&self) -> SpecDecoded {
        match self {
            Decoded::Frame { payload, remaining } => SpecDecoded::Frame(payload@, remaining@),
            Decoded::Flush { remaining } => SpecDecoded::Flush(remaining@),
            Decoded::NeedMoreData => SpecDecoded::NeedMoreData,
            Decoded::Invalid => SpecDecoded::Invalid,
        }
    }
}

/// The value of a lowercase ASCII hex digit, executable form; `None` for any
/// other byte.
fn hex_val_byte(b: u8) -> (r: Option<u8>)
    ensures
        match r {
            Some(v) => is_hex_digit(b) && v < 16 && v as int == hex_val(b),
            None => !is_hex_digit(b),
        },
{
    if 48 <= b && b <= 57 {
        Some(b - 48)
    } else if 97 <= b && b <= 102 {
        Some(b - 87)
    } else {
        None
    }
}

/// A copy of `s[from..to]`.
pub(crate) fn copy_range(s: &[u8], from: usize, to: usize) -> (r: Vec<u8>)
    requires
        from <= to <= s@.len(),
    ensures
        r@ == s@.subrange(from as int, to as int),
{
    let mut out: Vec<u8> = Vec::new();
    let mut i: usize = from;
    while i < to
        invariant
            from <= i <= to <= s@.len(),
            out@ == s@.subrange(from as int, i as int),
        decreases to - i,
    {
        out.push(s[i]);
        assert(out@ =~= s@.subrange(from as int, i + 1 as int));
        i += 1;
    }
    out
}

/// Decode the frame at the front of a stream.
///
/// With fewer than 4 bytes, or a frame announced longer than the stream, the
/// result is `NeedMoreData`. A prefix that is not 4 lowercase hex digits, or
/// whose value is 1 to 3 (impossible under the length-prefix rule), is
/// `Invalid`. A prefix of value 0 is a flush marker. Otherwise the payload is
/// the `value - 4` bytes after the prefix, and the rest of the stream is
/// handed back untouched.
pub fn decode(stream: &[u8]) -> (r: Decoded)
    ensures
        r@ == spec_decode(stream@),
{
    if stream.len() < 4 {
        return Decoded::NeedMoreData;
    }
    let v0: u8 = match hex_val_byte(stream[0]) {
        Some(v) => v,
        None => {
            return Decoded::Invalid;
        },
    };
    let v1: u8 = match hex_val_byte(stream[1]) {
        Some(v) => v,
        None => {
            return Decoded::Invalid;
        },
    };
    let v2: u8 = match hex_val_byte(stream[2]) {
        Some(v) => v,
        None => {
            return Decoded::Invalid;
        },
    };
    let v3: u8 = match hex_val_byte(stream[3]) {
        Some(v) => v,
        None => {
            return Decoded::Invalid;
        },
    };
    let n: usize = (v0 as usize) * 0x1000 + (v1 as usize) * 0x100 + (v2 as usize) * 0x10 + (
    v3 as usize);
    assert(n == prefix_val(stream@));
    if n == 0 {
        let remaining = copy_range(stream, 4, stream.len());
        return Decoded::Flush { remaining };
    }
    if n < 4 {
        return Decoded::Invalid;
    }
    if stream.len() < n {
        return Decoded::NeedMoreData;
    }
    let payload = copy_range(stream, 4, n);
    let remaining = copy_range(stream, n, stream.len());
    Decoded::Frame { payload, remaining }
}

/// Each digit that `hex4` produces is a lowercase hex digit, and carries the
/// nibble it was made from.
proof fn lemma_hex_digit_val(d: int)
    requires
        0 <= d < 16,
    ensures
        is_hex_digit(hex_digit(d)),
        hex_val(hex_digit(d)) == d,
{
}

/// A stream that starts with `hex4(n)` has a hex prefix whose value is `n`.
pub proof fn lemma_prefix_of_hex4(n: int, rest: Seq<u8>)
    requires
        0 <= n <= 0xffff,
    ensures
        prefix_hex(hex4(n) + rest),
        prefix_val(hex4(n) + rest) == n,
{
    let x = n as u16;
    assert(x / 0x1000 % 16 < 16 && x / 0x100 % 16 < 16 && x / 0x10 % 16 < 16 && x % 16 < 16)
        by (bit_vector);
    assert(x / 0x1000 % 16 * 0x1000 + x / 0x100 % 16 * 0x100 + x / 0x10 % 16 * 0x10 + x % 16
        == x) by (bit_vector);
    let f = hex4(n) + rest;
    assert(f[0] == hex_digit(n / 0x1000 % 16));
    assert(f[1] == hex_digit(n / 0x100 % 16));
    assert(f[2] == hex_digit(n / 0x10 % 16));
    assert(f[3] == hex_digit(n % 16));
    lemma_hex_digit_val(n / 0x1000 % 16);
    lemma_hex_digit_val(n / 0x100 % 16);
    lemma_hex_digit_val(n / 0x10 % 16);
    lemma_hex_digit_val(n % 16);
}

/// Round trip: decoding an encoded frame, with any bytes following it, gives
/// back exactly the payload and those following bytes. An empty payload
/// encodes as the flush marker, so it decodes as a flush.
pub proof fn lemma_decode_encode(p: Seq<u8>, tail: Seq<u8>)
    requires
        p.len() <= MAX_PAYLOAD,
    ensures
        p.len() == 0 ==> spec_decode(spec_encode(p) + tail) == SpecDecoded::Flush(tail),
        p.len() > 0 ==> spec_decode(spec_encode(p) + tail) == SpecDecoded::Frame(p, tail),
{
    if p.len() == 0 {
        let f = flush_marker() + tail;
        assert(f[0] == 48 && f[1] == 48 && f[2] == 48 && f[3] == 48);
        assert(prefix_val(f) == 0);
        assert(f.subrange(4, f.len() as int) =~= tail);
    } else {
        let n = p.len() + 4 as int;
        let f = hex4(n) + (p + tail);
        assert(spec_encode(p) + tail =~= f);
        lemma_prefix_of_hex4(n, p + tail);
        assert(n >= 5);
        assert(f.len() >= n);
        assert(f.subrange(4, n) =~= p);
        assert(f.subrange(n, f.len() as int) =~= tail);
    }
}

/// Encoding has no hidden state or counter: it is a function of the payload
/// alone, so equal payloads always encode to byte-identical frames.
pub proof fn lemma_encode_idempotent(p1: Seq<u8>, p2: Seq<u8>)
    requires
        p1 == p2,
    ensures
        spec_encode(p1) == spec_encode(p2),
{
}

/// A single protocol frame, holding its payload bytes.
pub struct PktLine<'a>(pub &'a [u8]);

impl<'a> PktLine<'a> {
    /// The frame's wire form, as `encode` gives it for the held payload.
    pub fn encode(&self) -> (r: Result<Vec<u8>, BridgeError>)
        ensures
            self.0@.len() <= MAX_PAYLOAD ==> (r matches Ok(v) && v@ == spec_encode(self.0@)),
            self.0@.len() > MAX_PAYLOAD ==> r == Err::<Vec<u8>, BridgeError>(
                BridgeError::OversizedPayload,
            ),
    {
        encode(self.0)
    }
}

} // verus!
