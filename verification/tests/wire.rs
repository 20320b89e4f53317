use harness::error::ParseError;
use harness::http::{get_header, HeaderField, Method, Request, Response};
use harness::reader::{closes_head, head_is_closed, missing_body};
use harness::wire::{first_token, parse_request, read_header, split_line, text_of};

fn field(name: &str, value: &str) -> HeaderField {
    HeaderField(name.to_string(), value.to_string())
}

#[test]
fn parses_a_request_with_a_body() {
    let bytes = b"POST /procedure\r\nProgram-Identifier: echo\r\nProgram-Procedure: reverse\r\nContent-Length: 3\r\n\r\nabc";
    let req = parse_request(bytes).unwrap();
    assert_eq!(
        req,
        Request {
            method: "POST".to_string(),
            path: "/procedure".to_string(),
            headers: vec![
                field("Program-Identifier", "echo"),
                field("Program-Procedure", "reverse"),
                field("Content-Length", "3"),
            ],
            data: b"abc".to_vec(),
        }
    );
}

#[test]
fn parses_a_request_without_headers() {
    let req = parse_request(b"GET /hello\r\n\r\n").unwrap();
    assert_eq!(req.method, "GET");
    assert_eq!(req.path, "/hello");
    assert!(req.headers.is_empty());
    assert!(req.data.is_empty());
}

#[test]
fn the_end_of_the_bytes_closes_the_headers() {
    let req = parse_request(b"GET /hello\r\n").unwrap();
    assert_eq!(req.path, "/hello");
    assert!(req.headers.is_empty());
    let req = parse_request(b"GET /hello").unwrap();
    assert_eq!(req.path, "/hello");
    let req = parse_request(b"GET /hello\nA: b").unwrap();
    assert_eq!(req.headers, vec![field("A", "b")]);
}

#[test]
fn lines_may_end_without_carriage_return() {
    let req = parse_request(b"DELETE /program\nProgram-Identifier: p\n\n").unwrap();
    assert_eq!(req.method, "DELETE");
    assert_eq!(req.headers, vec![field("Program-Identifier", "p")]);
}

#[test]
fn the_method_may_be_in_any_case() {
    let req = parse_request(b"get /hello\r\n\r\n").unwrap();
    assert_eq!(req.method, "get");
    let req = parse_request(b"  Head   /x   HTTP/1.1\r\n\r\n").unwrap();
    assert_eq!(req.method, "Head");
    assert_eq!(req.path, "/x");
}

#[test]
fn an_unknown_method_is_unsupported() {
    assert_eq!(parse_request(b"PUT /hello\r\n\r\n"), Err(ParseError::UnsupportedMethod));
    assert_eq!(parse_request(b"GETS /hello\r\n\r\n"), Err(ParseError::UnsupportedMethod));
    assert_eq!(parse_request(b"PATCH\r\n\r\n"), Err(ParseError::UnsupportedMethod));
}

#[test]
fn a_missing_method_or_path_is_malformed() {
    assert_eq!(parse_request(b""), Err(ParseError::Malformed));
    assert_eq!(parse_request(b"\r\n\r\n"), Err(ParseError::Malformed));
    assert_eq!(parse_request(b"GET\r\n\r\n"), Err(ParseError::Malformed));
    assert_eq!(parse_request(b"GET   \r\nA: b\r\n\r\n"), Err(ParseError::Malformed));
}

#[test]
fn a_header_without_colon_is_malformed() {
    assert_eq!(parse_request(b"GET /hello\r\nno colon here\r\n\r\n"), Err(ParseError::Malformed));
    assert_eq!(parse_request(b"GET /hello\r\n \r\n\r\n"), Err(ParseError::Malformed));
}

#[test]
fn bytes_that_are_no_text_are_malformed() {
    assert_eq!(parse_request(b"GET /\xff\r\n\r\n"), Err(ParseError::Malformed));
    assert_eq!(parse_request(b"GET /x\r\nA: \xc3\r\n\r\n"), Err(ParseError::Malformed));
    assert_eq!(parse_request(b"\xffGET /x\r\n\r\n"), Err(ParseError::Malformed));
    let req = parse_request("GET /caf\u{e9}\r\nX: \u{fc}\r\n\r\n".as_bytes()).unwrap();
    assert_eq!(req.path, "/caf\u{e9}");
    assert_eq!(req.headers, vec![field("X", "\u{fc}")]);
}

#[test]
fn a_header_value_keeps_its_colons_and_loses_its_margins() {
    let req = parse_request(b"GET /x\r\nDevice-Url:   http://w1:9000 \t\r\nEmpty:\r\n:v\r\n\r\n").unwrap();
    assert_eq!(
        req.headers,
        vec![field("Device-Url", "http://w1:9000"), field("Empty", ""), field("", "v")]
    );
}

#[test]
fn a_short_body_is_truncated() {
    assert_eq!(
        parse_request(b"POST /procedure\r\nContent-Length: 4\r\n\r\nabc"),
        Err(ParseError::Truncated)
    );
    assert_eq!(
        parse_request(b"POST /procedure\r\nContent-Length: 1\r\n"),
        Err(ParseError::Truncated)
    );
}

#[test]
fn bytes_behind_the_body_are_passed_over() {
    let req = parse_request(b"POST /p\r\ncontent-length: 2\r\n\r\nabcdef").unwrap();
    assert_eq!(req.data, b"ab".to_vec());
    let req = parse_request(b"POST /p\r\n\r\nabcdef").unwrap();
    assert!(req.data.is_empty());
}

#[test]
fn the_first_content_length_counts() {
    let req = parse_request(b"POST /p\r\nContent-Length: 1\r\nContent-Length: 3\r\n\r\nabc").unwrap();
    assert_eq!(req.data, b"a".to_vec());
    assert_eq!(req.headers.len(), 2);
}

#[test]
fn a_content_length_that_is_no_number_is_malformed() {
    for value in ["", "abc", "-1", "1.5", "4294967296", "99999999999999999999999", "+", "1+"] {
        let text = format!("POST /p\r\nContent-Length: {value}\r\n\r\n");
        assert_eq!(parse_request(text.as_bytes()), Err(ParseError::Malformed), "{value}");
    }
}

#[test]
fn a_content_length_may_hold_white_space_and_a_sign() {
    let req = parse_request(b"POST /p\r\nContent-Length: +0 3\r\n\r\nabcd").unwrap();
    assert_eq!(req.data, b"abc".to_vec());
    let req = parse_request(b"POST /p\r\nContent-Length: 0\r\n\r\nabcd").unwrap();
    assert!(req.data.is_empty());
    let req = parse_request(b"POST /p\r\nContent-Length: 000000000000000000002\r\n\r\nabcd").unwrap();
    assert_eq!(req.data, b"ab".to_vec());
}

#[test]
fn a_header_is_found_whatever_the_case_of_its_name() {
    let headers = vec![
        field("content-type", "a"),
        field("PROGRAM-identifier", "first"),
        field("Program-Identifier", "second"),
    ];
    assert_eq!(get_header("Program-Identifier", &headers), Some("first".to_string()));
    assert_eq!(get_header("program-identifier", &headers), Some("first".to_string()));
    assert_eq!(get_header("Content-Type", &headers), Some("a".to_string()));
    assert_eq!(get_header("Program-Procedure", &headers), None);
    assert_eq!(get_header("Program-Identifie", &headers), None);
    assert_eq!(get_header("", &headers), None);
    assert_eq!(get_header("x", &[]), None);
}

#[test]
fn method_names() {
    assert_eq!(Method::try_from("GET").unwrap(), Method::GET);
    assert_eq!(Method::try_from("post").unwrap(), Method::POST);
    assert_eq!(Method::try_from("Delete").unwrap(), Method::DELETE);
    assert_eq!(Method::try_from("hEAD").unwrap(), Method::HEAD);
    let e = Method::try_from("put").unwrap_err();
    assert_eq!(e.to_string(), "IO error: unsupported method: put");
    assert_eq!(e.status_code(), 400);
    assert_eq!(Method::from_bytes(b"GET"), Some(Method::GET));
    assert_eq!(Method::from_bytes(b"GE"), None);
    assert_eq!(Method::from_bytes(b""), None);
}

#[test]
fn a_response_on_the_wire() {
    let r = Response::from_bytes(200, b"cba");
    assert_eq!(
        r.status_and_headers(),
        "HTTP/1.1 200\r\nContent-Type: application/octet-stream\r\nContent-Length: 3\r\n\r\n"
    );
    assert_eq!(
        r.serialize(),
        b"HTTP/1.1 200\r\nContent-Type: application/octet-stream\r\nContent-Length: 3\r\n\r\ncba".to_vec()
    );
    let r = Response::plain(404, Vec::new());
    assert_eq!(r.serialize(), b"HTTP/1.1 404\r\n\r\n".to_vec());
    let r = Response::hello();
    assert_eq!(r.status_code, 202);
    assert_eq!(
        r.serialize(),
        b"HTTP/1.1 202\r\nContent-Type: text/plain\r\n\r\nHello, World!".to_vec()
    );
    let r = Response::plain(65535, vec![0, 255]);
    assert_eq!(r.serialize(), b"HTTP/1.1 65535\r\n\r\n\x00\xff".to_vec());
}

#[test]
fn parsed_headers_survive_the_way_back() {
    let bytes = b"POST /procedure\r\nProgram-Identifier:  echo \r\nX-Url: http://w1:9000\r\nContent-Length: 3\r\n\r\nabcdef";
    let req = parse_request(bytes).unwrap();
    assert_eq!(req.data.len(), 3);
    let out = Response { status_code: 200, headers: req.headers.clone(), data: req.data.clone() };
    let mut again = b"POST /procedure\r\n".to_vec();
    let wire = out.serialize();
    let head_end = "HTTP/1.1 200\r\n".len();
    again.extend_from_slice(&wire[head_end..]);
    let back = parse_request(&again).unwrap();
    assert_eq!(back.headers, req.headers);
    assert_eq!(back.data, req.data);
}

#[test]
fn a_head_is_closed_by_an_empty_line() {
    assert!(!head_is_closed(b""));
    assert!(!head_is_closed(b"GET /hello"));
    assert!(!head_is_closed(b"GET /hello\r\n"));
    assert!(!head_is_closed(b"GET /hello\r\nA: b\r\n"));
    assert!(!head_is_closed(b"GET /hello\r\nA: b\r\n\r"));
    assert!(head_is_closed(b"GET /hello\r\nA: b\r\n\r\n"));
    assert!(head_is_closed(b"GET /hello\r\n\r\n"));
    assert!(head_is_closed(b"GET /hello\n\n"));
    assert!(head_is_closed(b"GET /hello\n\nbody"));
    assert!(head_is_closed(b"\r\n\r\n"));
    assert!(!head_is_closed(b"\r\n"));
    assert!(!head_is_closed(b"GET /hello\r\n \r\n"));
}

#[test]
fn a_reader_learns_how_much_of_the_body_is_missing() {
    assert_eq!(missing_body(b"POST /p\r\nContent-Length: 5\r\n\r\n"), 5);
    assert_eq!(missing_body(b"POST /p\r\nContent-Length: 5\r\n\r\nab"), 3);
    assert_eq!(missing_body(b"POST /p\r\nContent-Length: 5\r\n\r\nabcde"), 0);
    assert_eq!(missing_body(b"POST /p\r\nContent-Length: 5\r\n\r\nabcdefg"), 0);
    assert_eq!(missing_body(b"POST /p\r\n\r\n"), 0);
    assert_eq!(missing_body(b"POST /p\r\nContent-Length: x\r\n\r\n"), 0);
    assert_eq!(missing_body(b"POST /p\r\nbroken\r\nContent-Length: 5\r\n\r\n"), 0);
    assert_eq!(missing_body(b"POST /p\r\nContent-Length: 4294967295\r\n\r\n"), 4294967295);
    assert_eq!(missing_body(b""), 0);
}

#[test]
fn a_request_that_arrives_in_pieces_is_read_once_it_is_whole() {
    let whole = b"POST /procedure\r\nProgram-Identifier: echo\r\nContent-Length: 3\r\n\r\nabc";
    for cut in 0..whole.len() {
        let part = &whole[..cut];
        let head = whole.len() - 3;
        assert_eq!(head_is_closed(part), cut >= head, "{cut}");
        if cut >= head {
            assert_eq!(missing_body(part), whole.len() - cut);
            assert_eq!(parse_request(part), Err(ParseError::Truncated));
        }
    }
    assert_eq!(missing_body(whole), 0);
    assert_eq!(parse_request(whole).unwrap().data, b"abc".to_vec());
}

#[test]
fn lines_words_and_headers() {
    assert_eq!(split_line(b"ab\ncd"), (2, 3));
    assert_eq!(split_line(b"ab"), (2, 2));
    assert_eq!(split_line(b"\n"), (0, 1));
    assert_eq!(split_line(b""), (0, 0));
    assert_eq!(first_token(b"  GET /x y"), (&b"GET"[..], &b" /x y"[..]));
    assert_eq!(first_token(b"GET"), (&b"GET"[..], &b""[..]));
    assert_eq!(first_token(b"   "), (&b""[..], &b""[..]));
    assert_eq!(text_of(b"abc"), Some("abc".to_string()));
    assert_eq!(text_of(b""), Some(String::new()));
    assert_eq!(text_of(b"\xf0\x9f\x98\x80"), Some("\u{1f600}".to_string()));
    assert_eq!(text_of(b"\xc0\x80"), None);
    assert_eq!(text_of(b"\xed\xa0\x80"), None);
    assert_eq!(text_of(b"\xf4\x90\x80\x80"), None);
    assert_eq!(text_of(b"a\x80"), None);
    assert_eq!(read_header(b"Name: value\r"), Some(field("Name", "value")));
    assert_eq!(read_header(b"Name:value"), Some(field("Name", "value")));
    assert_eq!(read_header(b" Na me :  a: b  "), Some(field(" Na me ", "a: b")));
    assert_eq!(read_header(b"Name"), None);
    assert_eq!(read_header(b""), None);
}

#[test]
fn the_empty_line_closes_the_head() {
    assert!(closes_head(b"\r\n"));
    assert!(closes_head(b"\n"));
    assert!(!closes_head(b""));
    assert!(!closes_head(b"\r"));
    assert!(!closes_head(b" \r\n"));
    assert!(!closes_head(b"\r\r\n"));
    assert!(!closes_head(b"A: b\r\n"));
    assert!(!closes_head(b"\n\n"));
    assert!(!closes_head(b"\r\nx"));
}

#[test]
fn reading_line_by_line_finds_the_head() {
    let whole = b"POST /p\r\nA: b\r\n\r\nC: d\r\n\r\n";
    let mut read = Vec::new();
    let mut closed_at = None;
    for line in whole.split_inclusive(|b| *b == b'\n') {
        let first = read.is_empty();
        read.extend_from_slice(line);
        if !first && closed_at.is_none() {
            assert_eq!(closes_head(line), head_is_closed(&read));
            if closes_head(line) {
                closed_at = Some(read.len());
            }
        }
    }
    assert_eq!(closed_at, Some(17));
}
