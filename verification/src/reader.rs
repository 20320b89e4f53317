//! What a reader of a connection has to know while a request arrives in
//! pieces: whether the head is there, and how much of the body is missing.
//!
//! A reader that reads line by line until the head is closed, and then the
//! bytes that the body lacks, holds a request that further bytes do not
//! change.

use crate::error::ParseError;
use crate::http::{lemma_misses_is_run, position};
use crate::text::{lemma_leading, lemma_leading_is_run, number, parse_number, Class, LF};
use crate::wire::{
    after_line, headers_of, is_blank, lemma_wire_names, line_len, parse, read_headers, split_line,
    wire_fields, wire_names, Wire,
};
use vstd::prelude::*;
use vstd::slice::slice_subrange;
use vstd::utf8::encode_utf8;

verus! {

/// Whether `s` holds, behind its lines, the empty line that closes the
/// headers. Every line counts only once its line feed is there.
pub open spec fn closed(s: Seq<u8>) -> bool
    decreases s.len(),
    via closed_decreases
{
    if line_len(s) >= s.len() {
        false
    } else if is_blank(s.take(line_len(s))) {
        true
    } else {
        closed(s.skip(after_line(s)))
    }
}

#[via_fn]
proof fn closed_decreases(s: Seq<u8>) {
    lemma_leading_is_run(s, Class::Except(LF));
}

/// Whether `s` holds a request line and, behind it, headers that are
/// closed: a reader of a connection has then read the whole head.
pub open spec fn head_closed(s: Seq<u8>) -> bool {
    line_len(s) < s.len() && closed(s.skip(after_line(s)))
}

/// The number of bytes that the body which the headers of `s` announce
/// still lacks: 0 where the headers cannot be read or announce no body.
pub open spec fn missing(s: Seq<u8>) -> nat {
    match headers_of(s.skip(after_line(s))) {
        Err(_) => 0,
        Ok((hs, used)) => match position(encode_utf8("Content-Length"@), wire_names(hs)) {
            None => 0,
            Some(i) => match number(hs[i].1) {
                None => 0,
                Some(n) => {
                    let have = s.skip(after_line(s) + used).len();
                    if have < n {
                        (n - have) as nat
                    } else {
                        0
                    }
                },
            },
        },
    }
}

/// Tells whether the bytes read so far hold the whole head of a request:
/// the request line, the headers, and the empty line that closes them.
pub fn head_is_closed(bytes: &[u8]) -> (r: bool)
    ensures
        r == head_closed(bytes@),
{
    let (n, next) = split_line(bytes);
    if n >= bytes.len() {
        return false;
    }
    let mut pos: usize = next;
    loop
        invariant
            pos <= bytes.len(),
            head_closed(bytes@) == closed(bytes@.skip(pos as int)),
        decreases bytes.len() - pos,
    {
        let cur = slice_subrange(bytes, pos, bytes.len());
        let (n, next) = split_line(cur);
        assert(cur@ == bytes@.skip(pos as int));
        if n >= cur.len() {
            return false;
        }
        let line = slice_subrange(cur, 0, n);
        assert(line@ == cur@.take(line_len(cur@)));
        if n == 0 || (n == 1 && line[0] == 13) {
            return true;
        }
        assert(cur@.skip(next as int) == bytes@.skip(pos + next));
        pos = pos + next;
    }
}

/// Tells how many bytes the body that the headers announce still lacks.
pub fn missing_body(bytes: &[u8]) -> (r: usize)
    ensures
        r == missing(bytes@),
{
    let (_, next) = split_line(bytes);
    let tail = slice_subrange(bytes, next, bytes.len());
    let (headers, used) = match read_headers(tail) {
        Err(_) => {
            return 0;
        },
        Ok(found) => found,
    };
    proof {
        lemma_wire_names(headers@);
        lemma_misses_is_run(encode_utf8("Content-Length"@), wire_names(wire_fields(headers@)));
        assert(bytes@.skip(next + used) == tail@.skip(used as int));
    }
    match crate::http::get_header("Content-Length", headers.as_slice()) {
        None => 0,
        Some(value) => match parse_number(value.as_str().as_bytes()) {
            None => 0,
            Some(n) => {
                let have: usize = tail.len() - used;
                if have < n as usize {
                    n as usize - have
                } else {
                    0
                }
            },
        },
    }
}

/// A request that is truncated lacks bytes of its body, and one that is
/// read lacks none.
pub proof fn lemma_truncated_lacks_bytes(s: Seq<u8>)
    ensures
        parse(s) == Err::<Wire, ParseError>(ParseError::Truncated) ==> missing(s) > 0,
        parse(s) is Ok ==> missing(s) == 0,
{
    crate::wire::lemma_headers_fail_malformed(s.skip(after_line(s)));
}

/// The first line of bytes that hold a whole line stays the same when more
/// bytes arrive.
pub proof fn lemma_line_stays(s: Seq<u8>, t: Seq<u8>)
    requires
        line_len(s) < s.len(),
    ensures
        line_len(s + t) == line_len(s),
        after_line(s + t) == after_line(s),
        (s + t).take(line_len(s)) == s.take(line_len(s)),
        (s + t).skip(after_line(s)) == s.skip(after_line(s)) + t,
{
    lemma_leading_is_run(s, Class::Except(LF));
    let n = line_len(s);
    assert forall|i: int| 0 <= i < n implies crate::text::in_class(
        Class::Except(LF),
        #[trigger] (s + t)[i],
    ) by {
        assert((s + t)[i] == s[i]);
    }
    assert((s + t)[n] == s[n]);
    lemma_leading(s + t, Class::Except(LF), n);
    assert((s + t).take(n) =~= s.take(n));
    assert((s + t).skip(n + 1) =~= s.skip(n + 1) + t);
}

/// Headers that are closed stay the same when more bytes arrive.
pub proof fn lemma_closed_stays(s: Seq<u8>, t: Seq<u8>)
    requires
        closed(s),
    ensures
        closed(s + t),
        headers_of(s + t) == headers_of(s),
    decreases s.len(),
{
    lemma_leading_is_run(s, Class::Except(LF));
    lemma_line_stays(s, t);
    if !is_blank(s.take(line_len(s))) {
        lemma_closed_stays(s.skip(after_line(s)), t);
    }
}

/// Once the head is closed and the body lacks nothing, the request is
/// whole: it is not truncated, and bytes that arrive later do not change
/// what is read.
pub proof fn lemma_whole_request(s: Seq<u8>, t: Seq<u8>)
    requires
        head_closed(s),
        missing(s) == 0,
    ensures
        parse(s) != Err::<Wire, ParseError>(ParseError::Truncated),
        parse(s + t) == parse(s),
        head_closed(s + t),
        missing(s + t) == 0,
{
    lemma_line_stays(s, t);
    lemma_leading_is_run(s, Class::Except(LF));
    let rest = s.skip(after_line(s));
    lemma_closed_stays(rest, t);
    crate::round_trip::lemma_headers_read(rest);
    crate::wire::lemma_headers_fail_malformed(rest);
    match headers_of(rest) {
        Err(_) => {},
        Ok((hs, used)) => {
            let body = s.skip(after_line(s) + used);
            let more = (s + t).skip(after_line(s) + used);
            assert(more =~= body + t);
            match position(encode_utf8("Content-Length"@), wire_names(hs)) {
                None => {},
                Some(i) => match number(hs[i].1) {
                    None => {},
                    Some(n) => {
                        assert(more.take(n as int) =~= body.take(n as int));
                    },
                },
            }
        },
    }
}

/// Once the head is closed, the bytes that the body lacks make the request
/// whole.
pub proof fn lemma_body_completes(s: Seq<u8>, t: Seq<u8>)
    requires
        head_closed(s),
        t.len() >= missing(s),
    ensures
        head_closed(s + t),
        missing(s + t) == 0,
        parse(s + t) != Err::<Wire, ParseError>(ParseError::Truncated),
{
    lemma_line_stays(s, t);
    lemma_leading_is_run(s, Class::Except(LF));
    let rest = s.skip(after_line(s));
    lemma_closed_stays(rest, t);
    crate::round_trip::lemma_headers_read(rest);
    crate::wire::lemma_headers_fail_malformed(rest);
    match headers_of(rest) {
        Err(_) => {},
        Ok((hs, used)) => {
            let body = s.skip(after_line(s) + used);
            let more = (s + t).skip(after_line(s) + used);
            assert(more =~= body + t);
        },
    }
}

/// Whether `s` is empty or ends with a line feed: it is made of whole
/// lines.
pub open spec fn whole_lines(s: Seq<u8>) -> bool {
    s.len() == 0 || s.last() == LF
}

/// Whether `l` is one line with the line feed that ends it.
pub open spec fn one_line(l: Seq<u8>) -> bool {
    l.len() > 0 && line_len(l) == l.len() - 1
}

/// Whether `l` is the empty line that closes the headers.
pub open spec fn closes(l: Seq<u8>) -> bool {
    one_line(l) && is_blank(l.take(l.len() - 1))
}

/// Tells whether a line that was read closes the headers.
pub fn closes_head(line: &[u8]) -> (r: bool)
    ensures
        r == closes(line@),
{
    let (n, next) = split_line(line);
    if line.len() == 0 || n != line.len() - 1 {
        return false;
    }
    n == 0 || (n == 1 && line[0] == 13)
}

/// Behind whole lines that do not close the headers, a line closes them if
/// and only if it is the empty line.
pub proof fn lemma_line_closes(s: Seq<u8>, l: Seq<u8>)
    requires
        whole_lines(s),
        !closed(s),
        one_line(l),
    ensures
        closed(s + l) == closes(l),
    decreases s.len(),
{
    lemma_leading_is_run(l, Class::Except(LF));
    if s.len() == 0 {
        assert(s + l == l);
        assert(l.skip(after_line(l)).len() == 0);
        assert(!closed(l.skip(after_line(l))));
    } else {
        lemma_leading_is_run(s, Class::Except(LF));
        if line_len(s) >= s.len() {
            assert(crate::text::in_class(Class::Except(LF), s[s.len() - 1]));
        }
        lemma_line_stays(s, l);
        let rest = s.skip(after_line(s));
        if rest.len() > 0 {
            assert(rest.last() == s.last());
        }
        lemma_line_closes(rest, l);
    }
}

/// A reader that has read a request line and, line by line, headers that
/// are not closed, has the whole head once it reads the empty line, and not
/// before.
pub proof fn lemma_head_closes(s: Seq<u8>, l: Seq<u8>)
    requires
        s.len() > 0,
        whole_lines(s),
        !head_closed(s),
        one_line(l),
    ensures
        head_closed(s + l) == closes(l),
        whole_lines(s + l),
{
    lemma_leading_is_run(s, Class::Except(LF));
    lemma_leading_is_run(l, Class::Except(LF));
    if line_len(s) >= s.len() {
        assert(crate::text::in_class(Class::Except(LF), s[s.len() - 1]));
    }
    lemma_line_stays(s, l);
    let rest = s.skip(after_line(s));
    if rest.len() > 0 {
        assert(rest.last() == s.last());
    }
    lemma_line_closes(rest, l);
    assert((s + l).last() == l.last());
    assert(l[line_len(l)] == LF);
}

} // verus!
