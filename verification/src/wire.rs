//! Reading a request from the bytes of a connection.
//!
//! A request is a request line, header lines, an empty line, and a body.
//! A line ends with a line feed, before which a carriage return may stand.
//! The request line holds the method and the path, set apart by white space;
//! what follows the path on that line is passed over. A header line holds a
//! name, a colon, and a value, which is taken without the white space at its
//! two ends. The end of the bytes closes the headers as an empty line does.
//! The body is there only if a `Content-Length` header announces it, and is
//! as long as the header says.

use crate::error::ParseError;
use crate::http::{lemma_misses_is_run, method_of, position, HeaderField, Method, Request};
use crate::text::{
    count_leading, leading, lemma_leading_is_run, number, parse_number, string_from_utf8, trim,
    trimmed, Class, COLON, CR, LF,
};
use vstd::prelude::*;
use vstd::slice::{slice_subrange, slice_to_vec};
use vstd::utf8::{decode_utf8_encode_utf8, encode_utf8, valid_utf8};

verus! {

/// A request as the bytes that stand for each of its parts.
pub struct Wire {
    pub method: Seq<u8>,
    pub path: Seq<u8>,
    pub headers: Seq<(Seq<u8>, Seq<u8>)>,
    pub data: Seq<u8>,
}

/// A header as the bytes of its name and of its value.
pub open spec fn wire_field(h: HeaderField) -> (Seq<u8>, Seq<u8>) {
    (encode_utf8(h.0@), encode_utf8(h.1@))
}

/// Headers as the bytes of their names and values.
pub open spec fn wire_fields(hs: Seq<HeaderField>) -> Seq<(Seq<u8>, Seq<u8>)> {
    Seq::new(hs.len(), |i: int| wire_field(hs[i]))
}

impl Request {
    /// The request as the bytes that stand for each of its parts.
    pub open spec fn wire(&self) -> Wire {
        Wire {
            method: encode_utf8(self.method@),
            path: encode_utf8(self.path@),
            headers: wire_fields(self.headers@),
            data: self.data@,
        }
    }
}

/// The length of the first line of `s`, not counting the line feed.
pub open spec fn line_len(s: Seq<u8>) -> int {
    leading(s, Class::Except(LF))
}

/// The place in `s` behind its first line and the line feed that ends it.
pub open spec fn after_line(s: Seq<u8>) -> int {
    if line_len(s) < s.len() {
        line_len(s) + 1
    } else {
        line_len(s)
    }
}

/// The first word of `s`: the bytes behind the white space at its start, up
/// to the next white space.
pub open spec fn token(s: Seq<u8>) -> Seq<u8> {
    let t = s.skip(leading(s, Class::Space));
    t.take(leading(t, Class::Word))
}

/// What follows the first word of `s`.
pub open spec fn after_token(s: Seq<u8>) -> Seq<u8> {
    let t = s.skip(leading(s, Class::Space));
    t.skip(leading(t, Class::Word))
}

/// Whether a line, taken without its line feed, closes the headers.
pub open spec fn is_blank(line: Seq<u8>) -> bool {
    line.len() == 0 || (line.len() == 1 && line[0] == CR)
}

/// The header on a line: the name is what stands before the first colon,
/// the value what stands behind it, without the white space at its ends.
/// `None` where the line has no colon or a part of it is no text.
pub open spec fn header_of(line: Seq<u8>) -> Option<(Seq<u8>, Seq<u8>)> {
    let n = leading(line, Class::Except(COLON));
    let name = line.take(n);
    let value = trimmed(line.skip(n + 1));
    if n < line.len() && valid_utf8(name) && valid_utf8(value) {
        Some((name, value))
    } else {
        None
    }
}

/// The headers at the start of `s`, up to the line that closes them, and the
/// number of bytes that they and that line take.
pub open spec fn headers_of(s: Seq<u8>) -> Result<(Seq<(Seq<u8>, Seq<u8>)>, int), ParseError>
    decreases s.len(),
    via headers_of_decreases
{
    let line = s.take(line_len(s));
    if is_blank(line) {
        Ok((Seq::empty(), after_line(s)))
    } else {
        match header_of(line) {
            None => Err(ParseError::Malformed),
            Some(h) => match headers_of(s.skip(after_line(s))) {
                Ok((hs, used)) => Ok((seq![h] + hs, after_line(s) + used)),
                Err(e) => Err(e),
            },
        }
    }
}

#[via_fn]
proof fn headers_of_decreases(s: Seq<u8>) {
    lemma_leading_is_run(s, Class::Except(LF));
}

/// The names of headers.
pub open spec fn wire_names(hs: Seq<(Seq<u8>, Seq<u8>)>) -> Seq<Seq<u8>> {
    Seq::new(hs.len(), |i: int| hs[i].0)
}

/// The body that `hs` announce, read from `rest`: empty without a
/// `Content-Length` header, else as many bytes as the first such header says.
pub open spec fn body_of(hs: Seq<(Seq<u8>, Seq<u8>)>, rest: Seq<u8>) -> Result<
    Seq<u8>,
    ParseError,
> {
    match position(encode_utf8("Content-Length"@), wire_names(hs)) {
        None => Ok(Seq::empty()),
        Some(i) => match number(hs[i].1) {
            None => Err(ParseError::Malformed),
            Some(n) => if rest.len() < n {
                Err(ParseError::Truncated)
            } else {
                Ok(rest.take(n as int))
            },
        },
    }
}

/// The request that the bytes `s` hold, or the reason why they hold none.
pub open spec fn parse(s: Seq<u8>) -> Result<Wire, ParseError> {
    let line = s.take(line_len(s));
    let method = token(line);
    let path = token(after_token(line));
    if method.len() == 0 || !valid_utf8(method) {
        Err(ParseError::Malformed)
    } else if method_of(method) is None {
        Err(ParseError::UnsupportedMethod)
    } else if path.len() == 0 || !valid_utf8(path) {
        Err(ParseError::Malformed)
    } else {
        match headers_of(s.skip(after_line(s))) {
            Err(e) => Err(e),
            Ok((hs, used)) => match body_of(hs, s.skip(after_line(s) + used)) {
                Err(e) => Err(e),
                Ok(data) => Ok(Wire { method, path, headers: hs, data }),
            },
        }
    }
}

/// Measures the first line of `s`: its length, and the place behind it.
pub fn split_line(s: &[u8]) -> (r: (usize, usize))
    ensures
        r.0 == line_len(s@),
        r.1 == after_line(s@),
        r.0 <= r.1 <= s.len(),
{
    let n: usize = count_leading(s, Class::Except(LF));
    if n < s.len() {
        (n, n + 1)
    } else {
        (n, n)
    }
}

/// Splits `s` into its first word and what follows it.
pub fn first_token(s: &[u8]) -> (r: (&[u8], &[u8]))
    ensures
        r.0@ == token(s@),
        r.1@ == after_token(s@),
{
    let a: usize = count_leading(s, Class::Space);
    let t = slice_subrange(s, a, s.len());
    let b: usize = count_leading(t, Class::Word);
    (slice_subrange(t, 0, b), slice_subrange(t, b, t.len()))
}

/// Copies `bytes` into a text, if they are one.
pub fn text_of(bytes: &[u8]) -> (r: Option<String>)
    ensures
        r is Some <==> valid_utf8(bytes@),
        r matches Some(s) ==> encode_utf8(s@) == bytes@,
{
    let r = string_from_utf8(slice_to_vec(bytes));
    proof {
        if valid_utf8(bytes@) {
            decode_utf8_encode_utf8(bytes@);
        }
    }
    r
}

/// Reads the header on a line.
pub fn read_header(line: &[u8]) -> (r: Option<HeaderField>)
    ensures
        match header_of(line@) {
            Some(h) => r matches Some(f) && wire_field(f) == h,
            None => r is None,
        },
{
    let n: usize = count_leading(line, Class::Except(COLON));
    if n >= line.len() {
        return None;
    }
    let name = slice_subrange(line, 0, n);
    let value = trim(slice_subrange(line, n + 1, line.len()));
    match text_of(name) {
        None => None,
        Some(name) => match text_of(value) {
            None => None,
            Some(value) => Some(HeaderField(name, value)),
        },
    }
}

/// The headers read so far, followed by what the rest of the bytes holds.
pub open spec fn continued(
    read: Seq<(Seq<u8>, Seq<u8>)>,
    at: int,
    rest: Result<(Seq<(Seq<u8>, Seq<u8>)>, int), ParseError>,
) -> Result<(Seq<(Seq<u8>, Seq<u8>)>, int), ParseError> {
    match rest {
        Ok((hs, used)) => Ok((read + hs, at + used)),
        Err(e) => Err(e),
    }
}

/// Reads the headers at the start of `s`, and tells how many bytes they and
/// the line that closes them take.
pub fn read_headers(s: &[u8]) -> (r: Result<(Vec<HeaderField>, usize), ParseError>)
    ensures
        match headers_of(s@) {
            Ok((hs, used)) => r matches Ok((v, n)) && wire_fields(v@) == hs && n == used && n
                <= s.len(),
            Err(e) => r matches Err(x) && x == e,
        },
{
    let mut headers: Vec<HeaderField> = Vec::new();
    let mut pos: usize = 0;
    proof {
        assert(s@.skip(0) == s@);
        assert(wire_fields(headers@) + Seq::empty() == wire_fields(headers@));
        match headers_of(s@) {
            Ok((hs, used)) => {
                assert(wire_fields(headers@) + hs == hs);
            },
            Err(e) => {},
        }
    }
    loop
        invariant
            pos <= s.len(),
            headers_of(s@) == continued(
                wire_fields(headers@),
                pos as int,
                headers_of(s@.skip(pos as int)),
            ),
        decreases s.len() - pos,
    {
        let cur = slice_subrange(s, pos, s.len());
        let (n, next) = split_line(cur);
        let line = slice_subrange(cur, 0, n);
        assert(cur@ == s@.skip(pos as int));
        assert(line@ == cur@.take(line_len(cur@)));
        if n == 0 || (n == 1 && line[0] == 13) {
            proof {
                assert(wire_fields(headers@) + Seq::empty() == wire_fields(headers@));
            }
            return Ok((headers, pos + next));
        }
        match read_header(line) {
            None => {
                return Err(ParseError::Malformed);
            },
            Some(h) => {
                proof {
                    let before = wire_fields(headers@);
                    let one = seq![wire_field(h)];
                    assert(wire_fields(headers@.push(h)) == before + one);
                    assert(cur@.skip(next as int) == s@.skip(pos + next));
                    match headers_of(cur@.skip(next as int)) {
                        Ok((hs, used)) => {
                            assert(before + (one + hs) == (before + one) + hs);
                        },
                        Err(e) => {},
                    }
                }
                headers.push(h);
                pos = pos + next;
            },
        }
    }
}

/// The names of headers are the same, read as bytes or as text.
pub proof fn lemma_wire_names(headers: Seq<HeaderField>)
    ensures
        wire_names(wire_fields(headers)) == crate::http::names(crate::http::fields(headers)),
{
    assert(wire_names(wire_fields(headers)) =~= crate::http::names(crate::http::fields(headers)));
}

/// Reads the body that `headers` announce from `rest`.
pub fn read_body(headers: &Vec<HeaderField>, rest: &[u8]) -> (r: Result<Vec<u8>, ParseError>)
    ensures
        match body_of(wire_fields(headers@), rest@) {
            Ok(data) => r matches Ok(v) && v@ == data,
            Err(e) => r matches Err(x) && x == e,
        },
{
    proof {
        lemma_wire_names(headers@);
        lemma_misses_is_run(encode_utf8("Content-Length"@), wire_names(wire_fields(headers@)));
    }
    match crate::http::get_header("Content-Length", headers.as_slice()) {
        None => Ok(Vec::new()),
        Some(value) => match parse_number(value.as_str().as_bytes()) {
            None => Err(ParseError::Malformed),
            Some(n) => {
                if rest.len() < n as usize {
                    Err(ParseError::Truncated)
                } else {
                    Ok(slice_to_vec(slice_subrange(rest, 0, n as usize)))
                }
            },
        },
    }
}

/// Reads one request from the bytes of a connection.
///
/// The method is one of GET, POST, DELETE and HEAD, in any case of letters;
/// another word is refused as [`ParseError::UnsupportedMethod`]. A request
/// line without method or path, a header line without a colon, a part that
/// is no UTF-8 text and a `Content-Length` that is no 32-bit number are
/// refused as [`ParseError::Malformed`]. Where fewer bytes follow the headers
/// than `Content-Length` announces, the request is
/// [`ParseError::Truncated`]; bytes behind the body are passed over.
pub fn parse_request(bytes: &[u8]) -> (r: Result<Request, ParseError>)
    ensures
        match parse(bytes@) {
            Ok(w) => r matches Ok(req) && req.wire() == w,
            Err(e) => r matches Err(x) && x == e,
        },
{
    let (n, next) = split_line(bytes);
    let line = slice_subrange(bytes, 0, n);
    let (method, rest) = first_token(line);
    let (path, _) = first_token(rest);
    if method.len() == 0 {
        return Err(ParseError::Malformed);
    }
    let method_text = match text_of(method) {
        None => {
            return Err(ParseError::Malformed);
        },
        Some(t) => t,
    };
    if Method::from_bytes(method).is_none() {
        return Err(ParseError::UnsupportedMethod);
    }
    if path.len() == 0 {
        return Err(ParseError::Malformed);
    }
    let path_text = match text_of(path) {
        None => {
            return Err(ParseError::Malformed);
        },
        Some(t) => t,
    };
    let tail = slice_subrange(bytes, next, bytes.len());
    let (headers, used) = match read_headers(tail) {
        Err(e) => {
            return Err(e);
        },
        Ok(found) => found,
    };
    let rest = slice_subrange(tail, used, tail.len());
    assert(rest@ == bytes@.skip(next + used));
    let data = match read_body(&headers, rest) {
        Err(e) => {
            return Err(e);
        },
        Ok(data) => data,
    };
    Ok(Request { method: method_text, path: path_text, headers, data })
}

/// Headers that cannot be read are malformed.
pub proof fn lemma_headers_fail_malformed(s: Seq<u8>)
    ensures
        headers_of(s) matches Err(e) ==> e == ParseError::Malformed,
    decreases s.len(),
{
    lemma_leading_is_run(s, Class::Except(LF));
    let line = s.take(line_len(s));
    if !is_blank(line) && header_of(line) is Some {
        lemma_headers_fail_malformed(s.skip(after_line(s)));
    }
}

} // verus!
