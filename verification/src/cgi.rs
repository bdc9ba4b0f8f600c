//! The CGI response parser: splits the backend tool's raw output into a
//! header block and a body. Lines are delimited by `\n`; one trailing `\r` is
//! stripped from each line; an empty line (or a lone `\r`) ends the header
//! block and everything after it is the body, forwarded byte for byte.

use vstd::prelude::*;

use crate::err::BridgeError;
use crate::pkt::copy_range;

verus! {

/// Index of the first occurrence of `b` in `s`, or `s.len()` if there is
/// none.
pub open spec fn find_byte(s: Seq<u8>, b: u8) -> int
    decreases s.len(),
{
    if s.len() == 0 {
        0
    } else if s[0] == b {
        0
    } else {
        1 + find_byte(s.subrange(1, s.len() as int), b)
    }
}

/// `find_byte` stays within the sequence.
pub proof fn lemma_find_byte_le(s: Seq<u8>, b: u8)
    ensures
        0 <= find_byte(s, b) <= s.len(),
    decreases s.len(),
{
    if s.len() == 0 {
    } else if s[0] == b {
    } else {
        lemma_find_byte_le(s.subrange(1, s.len() as int), b);
    }
}

/// The position of the first hit pins `find_byte` down: if nothing before
/// `k` is `b`, and `k` is a hit or the end, then `find_byte` is `k`.
proof fn lemma_find_byte_unique(s: Seq<u8>, b: u8, k: int)
    requires
        0 <= k <= s.len(),
        forall|j: int| 0 <= j < k ==> s[j] != b,
        k < s.len() ==> s[k] == b,
    ensures
        find_byte(s, b) == k,
    decreases s.len(),
{
    if s.len() == 0 {
    } else if s[0] == b {
    } else {
        let t = s.subrange(1, s.len() as int);
        assert forall|j: int| 0 <= j < k - 1 implies t[j] != b by {
            assert(t[j] == s[j + 1]);
        }
        assert(k - 1 < t.len() ==> t[k - 1] == s[k]);
        lemma_find_byte_unique(t, b, k - 1);
    }
}

/// A line with one trailing carriage return removed.
pub open spec fn strip_cr(l: Seq<u8>) -> Seq<u8> {
    if l.len() > 0 && l[l.len() - 1] == 13 {
        l.subrange(0, l.len() - 1)
    } else {
        l
    }
}

/// Whether a stripped line ends the header block: empty, or a lone `\r`.
pub open spec fn is_terminator(l: Seq<u8>) -> bool {
    l.len() == 0 || l == seq![13u8]
}

/// The header name a line yields: the bytes before its first `:`.
pub open spec fn line_name(l: Seq<u8>) -> Seq<u8> {
    l.subrange(0, find_byte(l, 58))
}

/// The header value a line yields: the bytes starting one byte after its
/// first `:` (that byte, ordinarily a space, is skipped whatever it is), to
/// the end of the line; empty when nothing follows the skipped byte.
pub open spec fn line_value(l: Seq<u8>) -> Seq<u8> {
    if find_byte(l, 58) + 2 <= l.len() {
        l.subrange(find_byte(l, 58) + 2, l.len() as int)
    } else {
        Seq::empty()
    }
}

/// Bytes legal in an HTTP header name: the token characters of the HTTP
/// grammar, that is letters, digits, and `!#$%&'*+-.^_`|~`.
pub open spec fn name_byte_ok(b: u8) -> bool {
    (48 <= b && b <= 57) || (65 <= b && b <= 90) || (97 <= b && b <= 122) || b == 33 || (35 <= b
        && b <= 39) || b == 42 || b == 43 || b == 45 || b == 46 || b == 94 || b == 95 || b == 96
        || b == 124 || b == 126
}

/// A legal HTTP header name: nonempty, token characters only.
pub open spec fn name_ok(n: Seq<u8>) -> bool {
    n.len() > 0 && forall|i: int| 0 <= i < n.len() ==> name_byte_ok(n[i])
}

/// Bytes legal in an HTTP header value: horizontal tab, or anything from
/// space upward except delete.
pub open spec fn value_byte_ok(b: u8) -> bool {
    b == 9 || (32 <= b && b != 127)
}

/// A legal HTTP header value: legal bytes only (it may be empty).
pub open spec fn value_ok(v: Seq<u8>) -> bool {
    forall|i: int| 0 <= i < v.len() ==> value_byte_ok(v[i])
}

/// The outcome of parsing a CGI output stream, at the specification level.
pub enum SpecParsed {
    /// The header pairs in order of appearance, and the body bytes.
    Response(Seq<(Seq<u8>, Seq<u8>)>, Seq<u8>),
    /// Some header line holds no `:`.
    Malformed,
    /// Some header's name or value cannot form a legal HTTP header.
    Invalid,
}

/// Prepend already-scanned headers to the outcome of parsing the rest of the
/// stream; an error swallows them, as the whole response is refused.
pub open spec fn with_headers(hs: Seq<(Seq<u8>, Seq<u8>)>, rest: SpecParsed) -> SpecParsed {
    match rest {
        SpecParsed::Response(more, body) => SpecParsed::Response(hs + more, body),
        SpecParsed::Malformed => SpecParsed::Malformed,
        SpecParsed::Invalid => SpecParsed::Invalid,
    }
}

/// What parsing a CGI output stream yields: header lines up to the first
/// terminator line, then the body. Scanning a stream with no terminator
/// consumes it whole, leaving an empty body.
pub open spec fn spec_parse(s: Seq<u8>) -> SpecParsed
    decreases s.len(),
    via spec_parse_decreases
{
    let e = find_byte(s, 10);
    let line = strip_cr(s.subrange(0, e));
    let rest = if e < s.len() {
        s.subrange(e + 1, s.len() as int)
    } else {
        Seq::<u8>::empty()
    };
    if is_terminator(line) {
        SpecParsed::Response(Seq::empty(), rest)
    } else if find_byte(line, 58) == line.len() {
        SpecParsed::Malformed
    } else if !(name_ok(line_name(line)) && value_ok(line_value(line))) {
        SpecParsed::Invalid
    } else {
        with_headers(seq![(line_name(line), line_value(line))], spec_parse(rest))
    }
}

#[via_fn]
proof fn spec_parse_decreases(s: Seq<u8>) {
    lemma_find_byte_le(s, 10);
}

/// One CGI header: a name and a value.
#[derive(Debug)]
pub struct CgiHeader {
    pub name: Vec<u8>,
    pub value: Vec<u8>,
}

impl View for CgiHeader {
    type V = (Seq<u8>, Seq<u8>);

    open spec fn view(&self) -> (Seq<u8>, Seq<u8>) {
        (self.name@, self.value@)
    }
}

/// A parsed CGI response: the header block and the body.
#[derive(Debug)]
pub struct CgiResponse {
    pub headers: Vec<CgiHeader>,
    pub body: Vec<u8>,
}

/// The header pairs a header vector stands for.
pub open spec fn headers_view(hs: Seq<CgiHeader>) -> Seq<(Seq<u8>, Seq<u8>)> {
    hs.map_values(|h: CgiHeader| h@)
}

/// Whether a slice is a legal HTTP header name, executable form.
fn name_bytes_ok(s: &[u8]) -> (r: bool)
    ensures
        r == name_ok(s@),
{
    if s.len() == 0 {
        return false;
    }
    let mut i: usize = 0;
    while i < s.len()
        invariant
            i <= s@.len(),
            forall|j: int| 0 <= j < i ==> name_byte_ok(s@[j]),
        decreases s@.len() - i,
    {
        let b: u8 = s[i];
        let ok = (48 <= b && b <= 57) || (65 <= b && b <= 90) || (97 <= b && b <= 122) || b == 33
            || (35 <= b && b <= 39) || b == 42 || b == 43 || b == 45 || b == 46 || b == 94 || b
            == 95 || b == 96 || b == 124 || b == 126;
        if !ok {
            return false;
        }
        i += 1;
    }
    true
}

/// Whether a slice is a legal HTTP header value, executable form.
fn value_bytes_ok(s: &[u8]) -> (r: bool)
    ensures
        r == value_ok(s@),
{
    let mut i: usize = 0;
    while i < s.len()
        invariant
            i <= s@.len(),
            forall|j: int| 0 <= j < i ==> value_byte_ok(s@[j]),
        decreases s@.len() - i,
    {
        let b: u8 = s[i];
        if !(b == 9 || (32 <= b && b != 127)) {
            return false;
        }
        i += 1;
    }
    true
}

/// Index of the first occurrence of `b` in `s[from..to]`, as an absolute
/// index into `s`; `to` when there is none.
fn find_in(s: &[u8], from: usize, to: usize, b: u8) -> (e: usize)
    requires
        from <= to <= s@.len(),
    ensures
        from <= e <= to,
        e - from == find_byte(s@.subrange(from as int, to as int), b),
        e < to ==> s@[e as int] == b,
        forall|j: int| from <= j < e ==> s@[j] != b,
{
    let ghost sub = s@.subrange(from as int, to as int);
    let mut i: usize = from;
    while i < to
        invariant
            from <= i <= to <= s@.len(),
            sub == s@.subrange(from as int, to as int),
            forall|j: int| from <= j < i ==> s@[j] != b,
        decreases to - i,
    {
        if s[i] == b {
            proof {
                assert forall|j: int| 0 <= j < i - from implies sub[j] != b by {
                    assert(sub[j] == s@[from + j]);
                }
                assert(sub[i - from] == s@[i as int]);
                lemma_find_byte_unique(sub, b, i - from);
            }
            return i;
        }
        i += 1;
    }
    proof {
        assert forall|j: int| 0 <= j < to - from implies sub[j] != b by {
            assert(sub[j] == s@[from + j]);
        }
        lemma_find_byte_unique(sub, b, (to - from) as int);
    }
    to
}

/// Parser for the byte stream a CGI-style backend invocation produces.
pub struct CgiResponseParser;

impl CgiResponseParser {
    /// Split a backend's raw output into HTTP headers and body.
    ///
    /// Header lines are scanned up to the first empty (or lone-`\r`) line;
    /// each must hold a `:`, and each name and value must be legal HTTP
    /// header bytes. Everything after the terminator line is the body,
    /// forwarded byte for byte. A line with no `:` is refused with
    /// `MalformedCgiHeader`; an illegal name or value with
    /// `InvalidHeaderValue`; nothing is guessed or dropped.
    pub fn parse(raw: &[u8]) -> (r: Result<CgiResponse, BridgeError>)
        ensures
            match spec_parse(raw@) {
                SpecParsed::Response(hs, body) => r matches Ok(resp) && headers_view(
                    resp.headers@,
                ) == hs && resp.body@ == body,
                SpecParsed::Malformed => r == Err::<CgiResponse, BridgeError>(
                    BridgeError::MalformedCgiHeader,
                ),
                SpecParsed::Invalid => r == Err::<CgiResponse, BridgeError>(
                    BridgeError::InvalidHeaderValue,
                ),
            },
    {
        let mut headers: Vec<CgiHeader> = Vec::new();
        let mut pos: usize = 0;
        proof {
            assert(raw@.subrange(0, raw@.len() as int) =~= raw@);
            assert(headers_view(headers@) =~= Seq::<(Seq<u8>, Seq<u8>)>::empty());
            match spec_parse(raw@) {
                SpecParsed::Response(more, body) => {
                    assert(Seq::<(Seq<u8>, Seq<u8>)>::empty() + more =~= more);
                },
                _ => {},
            }
        }
        loop
            invariant
                pos <= raw@.len(),
                spec_parse(raw@) == with_headers(
                    headers_view(headers@),
                    spec_parse(raw@.subrange(pos as int, raw@.len() as int)),
                ),
            decreases raw@.len() - pos,
        {
            let ghost sub = raw@.subrange(pos as int, raw@.len() as int);
            let e: usize = find_in(raw, pos, raw.len(), 10);
            proof {
                assert(sub.subrange(0, e - pos) =~= raw@.subrange(pos as int, e as int));
            }
            let line_end: usize = if e > pos && raw[e - 1] == 13 {
                e - 1
            } else {
                e
            };
            let ghost line = strip_cr(sub.subrange(0, e - pos));
            proof {
                assert(line =~= raw@.subrange(pos as int, line_end as int));
                if e < raw@.len() {
                    assert(sub.subrange(e - pos + 1, sub.len() as int) =~= raw@.subrange(
                        e + 1,
                        raw@.len() as int,
                    ));
                }
            }
            if line_end == pos || (line_end - pos == 1 && raw[pos] == 13) {
                proof {
                    if line_end - pos == 1 {
                        assert(line =~= seq![13u8]);
                    }
                    assert(is_terminator(line));
                }
                let body: Vec<u8> = if e < raw.len() {
                    copy_range(raw, e + 1, raw.len())
                } else {
                    Vec::new()
                };
                proof {
                    match spec_parse(raw@) {
                        SpecParsed::Response(hs, b) => {
                            assert(headers_view(headers@) + Seq::<(Seq<u8>, Seq<u8>)>::empty()
                                =~= headers_view(headers@));
                        },
                        _ => {},
                    }
                }
                return Ok(CgiResponse { headers, body });
            }
            proof {
                assert(!is_terminator(line));
            }
            let c: usize = find_in(raw, pos, line_end, 58);
            proof {
                assert(raw@.subrange(pos as int, line_end as int) == line);
            }
            if c == line_end {
                return Err(BridgeError::MalformedCgiHeader);
            }
            let name: Vec<u8> = copy_range(raw, pos, c);
            let vstart: usize = if line_end - c >= 2 {
                c + 2
            } else {
                line_end
            };
            let value: Vec<u8> = copy_range(raw, vstart, line_end);
            proof {
                assert(name@ =~= line_name(line));
                if line_end - c >= 2 {
                    assert(value@ =~= line_value(line));
                } else {
                    assert(value@ =~= Seq::<u8>::empty());
                    assert(value@ =~= line_value(line));
                }
            }
            if !name_bytes_ok(name.as_slice()) {
                return Err(BridgeError::InvalidHeaderValue);
            }
            if !value_bytes_ok(value.as_slice()) {
                return Err(BridgeError::InvalidHeaderValue);
            }
            let ghost old_headers = headers@;
            headers.push(CgiHeader { name, value });
            let next: usize = if e < raw.len() {
                e + 1
            } else {
                raw.len()
            };
            proof {
                let rest = raw@.subrange(next as int, raw@.len() as int);
                if e >= raw@.len() {
                    assert(rest =~= Seq::<u8>::empty());
                }
                assert(spec_parse(sub) == with_headers(
                    seq![(line_name(line), line_value(line))],
                    spec_parse(rest),
                ));
                assert(headers_view(headers@) =~= headers_view(old_headers) + seq![
                    (line_name(line), line_value(line)),
                ]);
                match spec_parse(rest) {
                    SpecParsed::Response(more, b) => {
                        assert(headers_view(old_headers) + (seq![
                            (line_name(line), line_value(line)),
                        ] + more) =~= headers_view(headers@) + more);
                    },
                    _ => {},
                }
            }
            pos = next;
        }
    }
}

} // verus!
