//! The requests and responses that travel between the coordinator and a
//! worker, and the lookup of a header by its name.

use crate::error::Error;
use crate::text::{decimal, decimal_text, eq_ignoring_case, same_ignoring_case};
use vstd::prelude::*;
use vstd::slice::slice_to_vec;
use vstd::string::StringExecFns;
use vstd::utf8::encode_utf8;

verus! {

/// Settings handed to the transform that the coordinator runs on a worker's
/// answer.
#[derive(Clone, Copy, Debug, PartialEq, Eq, Structural)]
pub struct Context {
    pub bucket_start_time_index: usize,
    pub closing_price_index: usize,
}

/// A header: its name, then its value.
#[derive(Debug, Clone, PartialEq, Eq)]
pub struct HeaderField(pub String, pub String);

impl View for HeaderField {
    type V = (Seq<char>, Seq<char>);

    open spec fn view(&self) -> (Seq<char>, Seq<char>) {
        (self.0@, self.1@)
    }
}

/// The headers of a message as pairs of texts, in their order.
pub open spec fn fields(headers: Seq<HeaderField>) -> Seq<(Seq<char>, Seq<char>)> {
    Seq::new(headers.len(), |i: int| headers[i]@)
}

/// A request as a worker receives it. Headers keep their order, and a name
/// may occur more than once.
#[derive(Debug, Clone, PartialEq, Eq)]
pub struct Request {
    pub method: String,
    pub path: String,
    pub headers: Vec<HeaderField>,
    pub data: Vec<u8>,
}

/// A worker's answer.
#[derive(Debug, Clone, PartialEq, Eq)]
pub struct Response {
    pub status_code: u16,
    pub headers: Vec<HeaderField>,
    pub data: Vec<u8>,
}

/// The headers by which the coordinator routes a call.
#[derive(Clone, Copy, Debug, PartialEq, Eq, Structural)]
pub enum Header {
    /// The program identifier
    ProgramId,
    /// The procedure to call into
    ProgramProc,
    /// The URL of the worker
    DeviceUrl,
}

impl Header {
    /// The header's name on the wire.
    pub open spec fn name(&self) -> Seq<char> {
        match self {
            Header::ProgramId => "Program-Identifier"@,
            Header::ProgramProc => "Program-Procedure"@,
            Header::DeviceUrl => "Device-Url"@,
        }
    }

    /// The header's name on the wire.
    pub fn as_str(&self) -> (s: &'static str)
        ensures
            s@ == self.name(),
    {
        match self {
            Header::ProgramId => "Program-Identifier",
            Header::ProgramProc => "Program-Procedure",
            Header::DeviceUrl => "Device-Url",
        }
    }

    /// The header's name on the wire.
    pub fn to_string(&self) -> (s: String)
        ensures
            s@ == self.name(),
    {
        String::from_str(self.as_str())
    }
}

/// The outcomes that have a reason phrase.
#[derive(Clone, Copy, Debug, PartialEq, Eq, Structural)]
pub enum Status {
    OK,
    Created,
    BadRequest,
    NotFound,
}

impl Status {
    /// The code and the reason phrase.
    pub open spec fn text(&self) -> Seq<char> {
        match self {
            Status::OK => "200 OK"@,
            Status::Created => "201 Created"@,
            Status::BadRequest => "400 Bad Request"@,
            Status::NotFound => "404 Not Found"@,
        }
    }

    /// The code and the reason phrase.
    pub fn to_string(&self) -> (s: String)
        ensures
            s@ == self.text(),
    {
        match self {
            Status::OK => String::from_str("200 OK"),
            Status::Created => String::from_str("201 Created"),
            Status::BadRequest => String::from_str("400 Bad Request"),
            Status::NotFound => String::from_str("404 Not Found"),
        }
    }
}

/// The methods that a worker accepts.
#[derive(Debug, Clone, Copy, PartialEq, Eq, Structural)]
pub enum Method {
    GET,
    POST,
    DELETE,
    HEAD,
}

/// The method that `token` names, whatever the case of its letters.
pub open spec fn method_of(token: Seq<u8>) -> Option<Method> {
    if same_ignoring_case(token, encode_utf8("GET"@)) {
        Some(Method::GET)
    } else if same_ignoring_case(token, encode_utf8("POST"@)) {
        Some(Method::POST)
    } else if same_ignoring_case(token, encode_utf8("DELETE"@)) {
        Some(Method::DELETE)
    } else if same_ignoring_case(token, encode_utf8("HEAD"@)) {
        Some(Method::HEAD)
    } else {
        None
    }
}

impl Method {
    /// Reads a method's name, whatever the case of its letters.
    pub fn from_bytes(token: &[u8]) -> (m: Option<Method>)
        ensures
            m == method_of(token@),
    {
        if eq_ignoring_case(token, "GET".as_bytes()) {
            Some(Method::GET)
        } else if eq_ignoring_case(token, "POST".as_bytes()) {
            Some(Method::POST)
        } else if eq_ignoring_case(token, "DELETE".as_bytes()) {
            Some(Method::DELETE)
        } else if eq_ignoring_case(token, "HEAD".as_bytes()) {
            Some(Method::HEAD)
        } else {
            None
        }
    }

    /// Reads a method's name, whatever the case of its letters. Any other
    /// text is refused with an [`Error::IO`] that quotes it.
    pub fn try_from(value: &str) -> (r: Result<Method, Error>)
        ensures
            match method_of(encode_utf8(value@)) {
                Some(m) => r == Ok::<Method, Error>(m),
                None => r matches Err(Error::IO { message, inner }) && message@
                    == "unsupported method: "@ + value@ && inner is None,
            },
    {
        match Method::from_bytes(value.as_bytes()) {
            Some(m) => Ok(m),
            None => Err(
                Error::IO {
                    message: String::from_str("unsupported method: ").concat(value),
                    inner: None,
                },
            ),
        }
    }
}

/// The number of names at the start of `names` that differ from `key` in
/// more than the case of ASCII letters.
pub open spec fn misses(key: Seq<u8>, names: Seq<Seq<u8>>) -> int
    decreases names.len(),
{
    if names.len() > 0 && !same_ignoring_case(names[0], key) {
        1 + misses(key, names.drop_first())
    } else {
        0
    }
}

/// The place of the first name that is `key` but for the case of ASCII
/// letters.
pub open spec fn position(key: Seq<u8>, names: Seq<Seq<u8>>) -> Option<int> {
    if misses(key, names) < names.len() {
        Some(misses(key, names))
    } else {
        None
    }
}

/// The names of the headers, as the bytes that stand on the wire.
pub open spec fn names(headers: Seq<(Seq<char>, Seq<char>)>) -> Seq<Seq<u8>> {
    Seq::new(headers.len(), |i: int| encode_utf8(headers[i].0))
}

/// Where `n` names do not match and the next one does, or there is none,
/// `n` is the number of misses.
pub proof fn lemma_misses(key: Seq<u8>, names: Seq<Seq<u8>>, n: int)
    requires
        0 <= n <= names.len(),
        forall|i: int| 0 <= i < n ==> !same_ignoring_case(#[trigger] names[i], key),
        n < names.len() ==> same_ignoring_case(names[n], key),
    ensures
        misses(key, names) == n,
    decreases names.len(),
{
    if n > 0 {
        let t = names.drop_first();
        assert forall|i: int| 0 <= i < n - 1 implies !same_ignoring_case(#[trigger] t[i], key) by {
            assert(t[i] == names[i + 1]);
        }
        lemma_misses(key, t, n - 1);
    }
}

/// The number of misses counts names of the sequence: those before the
/// first match.
pub proof fn lemma_misses_is_run(key: Seq<u8>, names: Seq<Seq<u8>>)
    ensures
        0 <= misses(key, names) <= names.len(),
        forall|i: int|
            0 <= i < misses(key, names) ==> !same_ignoring_case(#[trigger] names[i], key),
        misses(key, names) < names.len() ==> same_ignoring_case(names[misses(key, names)], key),
    decreases names.len(),
{
    if names.len() > 0 && !same_ignoring_case(names[0], key) {
        let t = names.drop_first();
        lemma_misses_is_run(key, t);
        assert forall|i: int| 0 <= i < misses(key, names) implies !same_ignoring_case(
            #[trigger] names[i],
            key,
        ) by {
            if i > 0 {
                assert(names[i] == t[i - 1]);
            }
        }
    }
}

/// The value of the first header named `header_key`. Names are compared
/// without regard to the case of ASCII letters; of several headers with the
/// name, the first one counts.
pub fn get_header(header_key: &str, headers: &[HeaderField]) -> (value: Option<String>)
    ensures
        match position(encode_utf8(header_key@), names(fields(headers@))) {
            Some(i) => value matches Some(v) && v@ == headers@[i].1@,
            None => value is None,
        },
{
    let key = header_key.as_bytes();
    let ghost all = names(fields(headers@));
    let mut i: usize = 0;
    while i < headers.len()
        invariant
            i <= headers.len(),
            key@ == encode_utf8(header_key@),
            all == names(fields(headers@)),
            forall|j: int| 0 <= j < i ==> !same_ignoring_case(#[trigger] all[j], key@),
        decreases headers.len() - i,
    {
        if eq_ignoring_case(headers[i].0.as_str().as_bytes(), key) {
            proof {
                lemma_misses(key@, all, i as int);
            }
            return Some(headers[i].1.clone());
        }
        i = i + 1;
    }
    proof {
        lemma_misses(key@, all, i as int);
    }
    None
}

/// One header as it stands on the wire: the name, a colon and a space, the
/// value, and the end of the line.
pub open spec fn header_line(h: (Seq<char>, Seq<char>)) -> Seq<char> {
    h.0 + ": "@ + h.1 + "\r\n"@
}

/// The lines of the headers, one after the other.
pub open spec fn header_block(hs: Seq<(Seq<char>, Seq<char>)>) -> Seq<char>
    decreases hs.len(),
{
    if hs.len() == 0 {
        Seq::empty()
    } else {
        header_line(hs[0]) + header_block(hs.drop_first())
    }
}

/// What precedes the body of a response: the status line, the headers, and
/// an empty line.
pub open spec fn head_text(code: u16, hs: Seq<(Seq<char>, Seq<char>)>) -> Seq<char> {
    "HTTP/1.1 "@ + decimal_text(code as nat) + "\r\n"@ + header_block(hs) + "\r\n"@
}

/// The lines of two runs of headers are the lines of the first run, then
/// those of the second.
pub proof fn lemma_header_block_concat(
    a: Seq<(Seq<char>, Seq<char>)>,
    b: Seq<(Seq<char>, Seq<char>)>,
)
    ensures
        header_block(a + b) == header_block(a) + header_block(b),
    decreases a.len(),
{
    if a.len() == 0 {
        assert(a + b == b);
    } else {
        assert((a + b).drop_first() == a.drop_first() + b);
        lemma_header_block_concat(a.drop_first(), b);
    }
}

impl Response {
    /// A response without headers.
    pub fn plain(status_code: u16, data: Vec<u8>) -> (r: Response)
        ensures
            r.status_code == status_code,
            r.headers@.len() == 0,
            r.data@ == data@,
    {
        Response { status_code, headers: Vec::new(), data }
    }

    /// The answer to a liveness probe: status 202 and a fixed greeting, as
    /// plain text.
    pub fn hello() -> (r: Response)
        ensures
            r.status_code == 202,
            fields(r.headers@) == seq![("Content-Type"@, "text/plain"@)],
            r.data@ == encode_utf8("Hello, World!"@),
    {
        let mut headers: Vec<HeaderField> = Vec::new();
        headers.push(HeaderField(String::from_str("Content-Type"), String::from_str("text/plain")));
        let r = Response {
            status_code: 202,
            headers,
            data: slice_to_vec("Hello, World!".as_bytes()),
        };
        assert(fields(r.headers@) =~= seq![("Content-Type"@, "text/plain"@)]);
        r
    }

    /// A response that carries `data` as an octet stream and announces its
    /// length.
    pub fn from_bytes(status_code: u16, data: &[u8]) -> (r: Response)
        ensures
            r.status_code == status_code,
            fields(r.headers@) == seq![
                ("Content-Type"@, "application/octet-stream"@),
                ("Content-Length"@, decimal_text(data@.len())),
            ],
            r.data@ == data@,
    {
        let mut headers: Vec<HeaderField> = Vec::new();
        headers.push(
            HeaderField(
                String::from_str("Content-Type"),
                String::from_str("application/octet-stream"),
            ),
        );
        headers.push(HeaderField(String::from_str("Content-Length"), decimal(data.len() as u64)));
        let r = Response { status_code, headers, data: slice_to_vec(data) };
        assert(fields(r.headers@) =~= seq![
            ("Content-Type"@, "application/octet-stream"@),
            ("Content-Length"@, decimal_text(data@.len())),
        ]);
        r
    }

    /// The response that reports `value` to a peer: the error's status code,
    /// and its text as the body.
    pub fn from_error(value: &Error) -> (r: Response)
        ensures
            r.status_code == value.status(),
            fields(r.headers@) == seq![("Content-Type"@, "text/plain"@)],
            r.data@ == encode_utf8(value.text()),
    {
        let mut headers: Vec<HeaderField> = Vec::new();
        headers.push(HeaderField(String::from_str("Content-Type"), String::from_str("text/plain")));
        let text = value.to_string();
        let r = Response {
            status_code: value.status_code(),
            headers,
            data: slice_to_vec(text.as_str().as_bytes()),
        };
        assert(fields(r.headers@) =~= seq![("Content-Type"@, "text/plain"@)]);
        r
    }

    /// The status line, the headers and the empty line that closes them.
    pub fn status_and_headers(&self) -> (head: String)
        ensures
            head@ == head_text(self.status_code, fields(self.headers@)),
    {
        let mut head = String::from_str("HTTP/1.1 ");
        head.append(decimal(self.status_code as u64).as_str());
        head.append("\r\n");
        let ghost start = head@;
        let ghost all = fields(self.headers@);
        let mut i: usize = 0;
        while i < self.headers.len()
            invariant
                i <= self.headers.len(),
                all == fields(self.headers@),
                head@ == start + header_block(all.take(i as int)),
            decreases self.headers.len() - i,
        {
            let h = &self.headers[i];
            proof {
                lemma_header_block_concat(all.take(i as int), seq![all[i as int]]);
                assert(all.take(i + 1) == all.take(i as int) + seq![all[i as int]]);
                let one = seq![all[i as int]];
                assert(one.len() == 1 && one[0] == all[i as int]);
                assert(header_block(one.drop_first()) =~= Seq::<char>::empty());
                assert(header_block(one) =~= header_line(all[i as int]));
            }
            head.append(h.0.as_str());
            head.append(": ");
            head.append(h.1.as_str());
            head.append("\r\n");
            i = i + 1;
        }
        proof {
            assert(all.take(i as int) == all);
        }
        head.append("\r\n");
        head
    }

    /// The response as it stands on the wire: the status line, each header
    /// on a line of its own, an empty line, and the body as it is.
    pub fn serialize(&self) -> (bytes: Vec<u8>)
        ensures
            bytes@ == encode_utf8(head_text(self.status_code, fields(self.headers@))) + self.data@,
    {
        let head = self.status_and_headers();
        let mut bytes = slice_to_vec(head.as_str().as_bytes());
        let mut body = self.data.clone();
        bytes.append(&mut body);
        bytes
    }
}

} // verus!
