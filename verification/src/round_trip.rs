//! What is read from the wire can be written back: the headers of a request
//! that was read, written as the headers of a response, read as the same
//! headers again.

use crate::error::ParseError;
use crate::http::{fields, head_text, header_block, header_line, position, Request};
use crate::text::{
    decimal_text, is_space, leading, lemma_leading, lemma_leading_is_run, lemma_trailing,
    lemma_trailing_is_run, number, trailing, trimmed, Class, COLON, CR, LF,
};
use crate::wire::{
    after_line, header_of, headers_of, is_blank, line_len, parse, wire_fields, wire_names, Wire,
};
use vstd::prelude::*;
use vstd::utf8::{encode_utf8, is_ascii_chars, is_ascii_chars_encode_utf8, valid_utf8};

verus! {

/// What a name on the wire is made of: any byte but the colon and the line
/// feed.
pub open spec fn is_name(n: Seq<u8>) -> bool {
    forall|i: int| 0 <= i < n.len() ==> #[trigger] n[i] != COLON && n[i] != LF
}

/// What a value on the wire is made of: any byte but the line feed, and no
/// white space at its two ends.
pub open spec fn is_value(v: Seq<u8>) -> bool {
    &&& forall|i: int| 0 <= i < v.len() ==> #[trigger] v[i] != LF
    &&& v.len() > 0 ==> !is_space(v[0]) && !is_space(v.last())
}

/// Whether every header is made of a name and a value of the wire, both of
/// them text.
pub open spec fn are_headers(hs: Seq<(Seq<u8>, Seq<u8>)>) -> bool {
    forall|i: int|
        0 <= i < hs.len() ==> is_name((#[trigger] hs[i]).0) && is_value(hs[i].1) && valid_utf8(
            hs[i].0,
        ) && valid_utf8(hs[i].1)
}

/// The bytes of one header line.
pub open spec fn line_bytes(h: (Seq<u8>, Seq<u8>)) -> Seq<u8> {
    h.0 + seq![COLON, 32u8] + h.1 + seq![CR, LF]
}

/// The bytes of the header lines, one after the other.
pub open spec fn block_bytes(hs: Seq<(Seq<u8>, Seq<u8>)>) -> Seq<u8>
    decreases hs.len(),
{
    if hs.len() == 0 {
        Seq::empty()
    } else {
        line_bytes(hs[0]) + block_bytes(hs.drop_first())
    }
}

/// The bytes of a text that is made of two parts are the bytes of the
/// parts.
pub proof fn lemma_encode_concat(a: Seq<char>, b: Seq<char>)
    ensures
        encode_utf8(a + b) == encode_utf8(a) + encode_utf8(b),
    decreases a.len(),
{
    if a.len() == 0 {
        assert(a + b == b);
        assert(encode_utf8(a) + encode_utf8(b) == encode_utf8(b));
    } else {
        assert((a + b).drop_first() == a.drop_first() + b);
        assert((a + b)[0] == a[0]);
        lemma_encode_concat(a.drop_first(), b);
        assert(encode_utf8(a + b) == encode_utf8(a) + encode_utf8(b));
    }
}

/// The bytes that set a name apart from its value, and those that end a
/// line.
pub proof fn lemma_separator_bytes()
    ensures
        encode_utf8(": "@) == seq![COLON, 32u8],
        encode_utf8("\r\n"@) == seq![CR, LF],
{
    reveal_strlit(": ");
    reveal_strlit("\r\n");
    assert(is_ascii_chars(": "@));
    assert(is_ascii_chars("\r\n"@));
    is_ascii_chars_encode_utf8(": "@);
    is_ascii_chars_encode_utf8("\r\n"@);
    assert(encode_utf8(": "@) =~= seq![COLON, 32u8]);
    assert(encode_utf8("\r\n"@) =~= seq![CR, LF]);
}

/// What is left of a text between the white space at its ends has no white
/// space at its ends.
pub proof fn lemma_trimmed_is_trim(s: Seq<u8>)
    ensures
        trimmed(s).len() > 0 ==> !is_space(trimmed(s)[0]) && !is_space(trimmed(s).last()),
        forall|i: int|
            0 <= i < trimmed(s).len() ==> exists|j: int|
                0 <= j < s.len() && s[j] == #[trigger] trimmed(s)[i],
{
    lemma_leading_is_run(s, Class::Space);
    let a = leading(s, Class::Space);
    let t = s.skip(a);
    lemma_trailing_is_run(t, Class::Space);
    let b = trailing(t, Class::Space);
    let r = trimmed(s);
    assert(r == t.take(t.len() - b));
    if r.len() > 0 {
        assert(r[0] == s[a]);
        assert(r.last() == t[t.len() - b - 1]);
    }
    assert forall|i: int| 0 <= i < r.len() implies exists|j: int|
        0 <= j < s.len() && s[j] == #[trigger] r[i] by {
        assert(r[i] == s[a + i]);
    }
}

/// A value of the wire is what is left of itself between a space and a
/// carriage return.
pub proof fn lemma_trim_of_padded(v: Seq<u8>)
    requires
        is_value(v),
    ensures
        trimmed(seq![32u8] + v + seq![CR]) == v,
{
    let s = seq![32u8] + v + seq![CR];
    if v.len() == 0 {
        lemma_leading(s, Class::Space, 2);
        let t = s.skip(2);
        lemma_trailing(t, Class::Space, 0);
        assert(trimmed(s) =~= v);
    } else {
        assert(s[1] == v[0]);
        lemma_leading(s, Class::Space, 1);
        let t = s.skip(1);
        assert(t[t.len() - 1] == CR);
        assert(t[t.len() - 2] == v.last());
        lemma_trailing(t, Class::Space, 1);
        assert(trimmed(s) =~= v);
    }
}

/// A header line, read, is the header whose line it is, and what follows
/// the line is left.
pub proof fn lemma_read_line(h: (Seq<u8>, Seq<u8>), rest: Seq<u8>)
    requires
        is_name(h.0),
        is_value(h.1),
        valid_utf8(h.0),
        valid_utf8(h.1),
    ensures
        ({
            let s = line_bytes(h) + rest;
            &&& after_line(s) == line_bytes(h).len()
            &&& !is_blank(s.take(line_len(s)))
            &&& header_of(s.take(line_len(s))) == Some(h)
            &&& s.skip(after_line(s)) == rest
        }),
{
    let s = line_bytes(h) + rest;
    let n: int = (h.0.len() + 2 + h.1.len() + 1) as int;
    assert(line_bytes(h).len() == n + 1);
    assert forall|i: int| 0 <= i < n implies s[i] != LF by {
        if i < h.0.len() {
            assert(s[i] == h.0[i]);
        } else if i < h.0.len() + 2 {
        } else if i < h.0.len() + 2 + h.1.len() {
            assert(s[i] == h.1[i - h.0.len() - 2]);
        } else {
        }
    }
    assert(s[n] == LF);
    lemma_leading(s, Class::Except(LF), n);
    let line = s.take(n);
    assert(line[h.0.len() as int] == COLON);
    assert forall|i: int| 0 <= i < h.0.len() implies line[i] != COLON by {
        assert(line[i] == h.0[i]);
    }
    lemma_leading(line, Class::Except(COLON), h.0.len() as int);
    assert(line.take(h.0.len() as int) =~= h.0);
    assert(line.skip(h.0.len() as int + 1) =~= seq![32u8] + h.1 + seq![CR]);
    lemma_trim_of_padded(h.1);
    assert(s.skip(n + 1) =~= rest);
}

/// Header lines and the empty line behind them, read, are the headers whose
/// lines they are, and what follows the empty line is left.
pub proof fn lemma_read_block(hs: Seq<(Seq<u8>, Seq<u8>)>, rest: Seq<u8>)
    requires
        are_headers(hs),
    ensures
        headers_of(block_bytes(hs) + seq![CR, LF] + rest) == Ok::<
            (Seq<(Seq<u8>, Seq<u8>)>, int),
            ParseError,
        >((hs, block_bytes(hs).len() as int + 2)),
    decreases hs.len(),
{
    let s = block_bytes(hs) + seq![CR, LF] + rest;
    if hs.len() == 0 {
        assert(s[0] == CR);
        assert(s[1] == LF);
        lemma_leading(s, Class::Except(LF), 1);
        assert(is_blank(s.take(1)));
        assert(hs =~= Seq::empty());
        assert(block_bytes(hs).len() == 0);
        assert(headers_of(s) == Ok::<(Seq<(Seq<u8>, Seq<u8>)>, int), ParseError>(
            (Seq::empty(), 2),
        ));
    } else {
        let h = hs[0];
        let tail = hs.drop_first();
        let after = block_bytes(tail) + seq![CR, LF] + rest;
        assert(s =~= line_bytes(h) + after);
        lemma_read_line(h, after);
        assert forall|i: int| 0 <= i < tail.len() implies is_name((#[trigger] tail[i]).0)
            && is_value(tail[i].1) && valid_utf8(tail[i].0) && valid_utf8(tail[i].1) by {
            assert(tail[i] == hs[i + 1]);
        }
        lemma_read_block(tail, rest);
        assert(seq![h] + tail =~= hs);
        assert(s.skip(after_line(s)) == after);
        assert(headers_of(after) == Ok::<(Seq<(Seq<u8>, Seq<u8>)>, int), ParseError>(
            (tail, block_bytes(tail).len() as int + 2),
        ));
        assert(block_bytes(hs).len() == line_bytes(h).len() + block_bytes(tail).len());
    }
}

/// The headers that are read from the wire are made of names and values of
/// the wire.
pub proof fn lemma_headers_read(s: Seq<u8>)
    ensures
        headers_of(s) matches Ok((hs, used)) ==> are_headers(hs) && 0 <= used <= s.len(),
    decreases s.len(),
{
    lemma_leading_is_run(s, Class::Except(LF));
    let line = s.take(line_len(s));
    if !is_blank(line) {
        match header_of(line) {
            None => {},
            Some(h) => {
                let n = leading(line, Class::Except(COLON));
                lemma_leading_is_run(line, Class::Except(COLON));
                let v = line.skip(n + 1);
                lemma_trimmed_is_trim(v);
                assert forall|i: int| 0 <= i < h.0.len() implies #[trigger] h.0[i] != COLON
                    && h.0[i] != LF by {
                    assert(h.0[i] == line[i]);
                    assert(line[i] == s[i]);
                }
                assert forall|i: int| 0 <= i < h.1.len() implies #[trigger] h.1[i] != LF by {
                    let j = choose|j: int| 0 <= j < v.len() && v[j] == h.1[i];
                    assert(v[j] == line[n + 1 + j]);
                    assert(line[n + 1 + j] == s[n + 1 + j]);
                }
                lemma_headers_read(s.skip(after_line(s)));
                match headers_of(s.skip(after_line(s))) {
                    Ok((hs, used)) => {
                        let all = seq![h] + hs;
                        assert forall|i: int| 0 <= i < all.len() implies is_name(
                            (#[trigger] all[i]).0,
                        ) && is_value(all[i].1) && valid_utf8(all[i].0) && valid_utf8(
                            all[i].1,
                        ) by {
                            if i > 0 {
                                assert(all[i] == hs[i - 1]);
                            }
                        }
                    },
                    Err(_) => {},
                }
            },
        }
    }
}

/// Headers as the bytes of their names and values.
pub open spec fn encoded(hs: Seq<(Seq<char>, Seq<char>)>) -> Seq<(Seq<u8>, Seq<u8>)> {
    Seq::new(hs.len(), |i: int| (encode_utf8(hs[i].0), encode_utf8(hs[i].1)))
}

/// The bytes of the lines of headers are the lines of their bytes.
pub proof fn lemma_block_bytes(hs: Seq<(Seq<char>, Seq<char>)>)
    ensures
        encode_utf8(header_block(hs)) == block_bytes(encoded(hs)),
    decreases hs.len(),
{
    if hs.len() == 0 {
        assert(encode_utf8(header_block(hs)) =~= block_bytes(encoded(hs)));
    } else {
        let h = hs[0];
        let tail = hs.drop_first();
        lemma_block_bytes(tail);
        lemma_separator_bytes();
        lemma_encode_concat(header_line(h), header_block(tail));
        lemma_encode_concat(h.0 + ": "@ + h.1, "\r\n"@);
        lemma_encode_concat(h.0 + ": "@, h.1);
        lemma_encode_concat(h.0, ": "@);
        assert(encoded(hs).drop_first() =~= encoded(tail));
        assert(encoded(hs)[0] == (encode_utf8(h.0), encode_utf8(h.1)));
    }
}

/// A number in decimal digits is made of decimal digits.
pub proof fn lemma_decimal_digits(n: nat)
    ensures
        decimal_text(n).len() > 0,
        forall|i: int|
            0 <= i < decimal_text(n).len() ==> '0' <= #[trigger] decimal_text(n)[i] <= '9',
    decreases n,
{
    reveal_strlit("0");
    reveal_strlit("1");
    reveal_strlit("2");
    reveal_strlit("3");
    reveal_strlit("4");
    reveal_strlit("5");
    reveal_strlit("6");
    reveal_strlit("7");
    reveal_strlit("8");
    reveal_strlit("9");
    if n >= 10 {
        lemma_decimal_digits(n / 10);
    }
}

/// The status line holds no line feed before the one that ends it.
pub proof fn lemma_status_line(code: u16)
    ensures
        forall|i: int|
            0 <= i < encode_utf8("HTTP/1.1 "@ + decimal_text(code as nat)).len()
                ==> #[trigger] encode_utf8("HTTP/1.1 "@ + decimal_text(code as nat))[i] != LF,
{
    let t = "HTTP/1.1 "@ + decimal_text(code as nat);
    reveal_strlit("HTTP/1.1 ");
    lemma_decimal_digits(code as nat);
    assert forall|i: int| 0 <= i < t.len() implies '\0' <= #[trigger] t[i] <= '\u{7f}' && t[i]
        != '\n' by {
        if i >= 9 {
            assert(t[i] == decimal_text(code as nat)[i - 9]);
        }
    }
    assert(is_ascii_chars(t));
    is_ascii_chars_encode_utf8(t);
    assert forall|i: int| 0 <= i < encode_utf8(t).len() implies #[trigger] encode_utf8(t)[i]
        != LF by {
        assert(t[i] as u8 == encode_utf8(t)[i]);
    }
}

/// The headers of a request that was read, as bytes, are the bytes of the
/// headers' texts.
pub proof fn lemma_wire_fields(req: Request)
    ensures
        wire_fields(req.headers@) == encoded(fields(req.headers@)),
{
    assert(wire_fields(req.headers@) =~= encoded(fields(req.headers@)));
}

/// A request that is read with a `Content-Length` header has a body of the
/// length that the header tells, and its headers come back from the wire:
/// the response that carries the request's headers and body, written to the
/// wire and read behind its status line, has the same headers, and behind
/// them the same body.
pub proof fn lemma_round_trip(s: Seq<u8>, req: Request, status_code: u16)
    requires
        parse(s) == Ok::<Wire, ParseError>(req.wire()),
        position(encode_utf8("Content-Length"@), wire_names(req.wire().headers)) is Some,
    ensures
        ({
            let at = position(encode_utf8("Content-Length"@), wire_names(req.wire().headers))->0;
            let out = encode_utf8(head_text(status_code, fields(req.headers@))) + req.data@;
            let head = out.len() - req.data@.len();
            &&& number(req.wire().headers[at].1) == Some(req.data@.len())
            &&& headers_of(out.skip(after_line(out))) == Ok::<
                (Seq<(Seq<u8>, Seq<u8>)>, int),
                ParseError,
            >((req.wire().headers, head - after_line(out)))
            &&& out.skip(head) == req.data@
        }),
{
    let hs = fields(req.headers@);
    let w = req.wire();
    let rest0 = s.skip(after_line(s));
    lemma_headers_read(rest0);
    lemma_wire_fields(req);
    lemma_block_bytes(hs);
    lemma_separator_bytes();
    lemma_status_line(status_code);
    let status = "HTTP/1.1 "@ + decimal_text(status_code as nat);
    let block = header_block(hs);
    lemma_encode_concat(status + "\r\n"@ + block, "\r\n"@);
    lemma_encode_concat(status + "\r\n"@, block);
    lemma_encode_concat(status, "\r\n"@);
    let st = encode_utf8(status);
    let bb = block_bytes(w.headers);
    let out = encode_utf8(head_text(status_code, hs)) + req.data@;
    assert(out =~= st + seq![CR, LF] + (bb + seq![CR, LF] + req.data@));
    assert(out[st.len() as int] == CR);
    assert(out[st.len() as int + 1] == LF);
    assert forall|i: int| 0 <= i < st.len() + 1 implies out[i] != LF by {
        if i < st.len() {
            assert(out[i] == st[i]);
        }
    }
    lemma_leading(out, Class::Except(LF), st.len() as int + 1);
    assert(out.skip(after_line(out)) =~= bb + seq![CR, LF] + req.data@);
    lemma_read_block(w.headers, req.data@);
    assert(out.skip(out.len() - req.data@.len()) =~= req.data@);
}

} // verus!
