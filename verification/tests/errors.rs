use harness::error::{Error, ExecError, LoadError, ParseError, RegistryError};
use harness::http::{Header, HeaderField, Response, Status};
use harness::schema::{Method, Schema};
use harness::text::{
    compact_bytes, count_leading, count_trailing, decimal, eq_ignoring_case, lower_byte,
    parse_number, same_text, trim, Class,
};

#[test]
fn errors_as_text() {
    assert_eq!(Error::io("missing path", None).to_string(), "IO error: missing path");
    assert_eq!(
        Error::io("missing path", Some("cause".to_string())).to_string(),
        "IO error: missing path"
    );
    assert_eq!(Error::internal("no", None).to_string(), "Internal error: no");
    assert_eq!(Error::Custom("as it is".to_string()).to_string(), "as it is");
    assert_eq!(Error::io("", None).to_string(), "IO error: ");
}

#[test]
fn the_two_sides_of_an_error() {
    match Error::io("m", Some("c".to_string())) {
        Error::IO { message, inner } => {
            assert_eq!(message, "m");
            assert_eq!(inner, Some("c".to_string()));
        }
        other => panic!("{other:?}"),
    }
    match Error::internal("m", None) {
        Error::Internal { message, inner } => {
            assert_eq!(message, "m");
            assert_eq!(inner, None);
        }
        other => panic!("{other:?}"),
    }
    assert_eq!(Error::io("m", None).status_code(), 400);
    assert_eq!(Error::internal("m", None).status_code(), 500);
    assert_eq!(Error::Custom("m".to_string()).status_code(), 500);
}

#[test]
fn an_error_as_a_response() {
    let r = Response::from_error(&Error::io("unsupported method: PUT", None));
    assert_eq!(r.status_code, 400);
    assert_eq!(r.headers, vec![HeaderField("Content-Type".to_string(), "text/plain".to_string())]);
    assert_eq!(r.data, b"IO error: unsupported method: PUT".to_vec());
    let r = Response::from_error(&Error::internal("broken", None));
    assert_eq!(r.status_code, 500);
    assert_eq!(r.data, b"Internal error: broken".to_vec());
    let r = Response::from_error(&Error::Custom("odd".to_string()));
    assert_eq!(r.status_code, 500);
    assert_eq!(r.data, b"odd".to_vec());
}

#[test]
fn failures_of_the_parts_as_errors_of_the_node() {
    assert_eq!(ParseError::UnsupportedMethod.to_error().to_string(), "IO error: unsupported method");
    assert_eq!(ParseError::Malformed.to_error().to_string(), "IO error: malformed request");
    assert_eq!(ParseError::Truncated.to_error().to_string(), "IO error: truncated request");
    assert_eq!(LoadError::InvalidModule("bad magic".to_string()).to_error().to_string(), "bad magic");
    match LoadError::EngineInit("no memory".to_string()).to_error() {
        Error::Internal { message, inner } => {
            assert_eq!(message, "wasmtime initialization failed");
            assert_eq!(inner, Some("no memory".to_string()));
        }
        other => panic!("{other:?}"),
    }
    assert_eq!(
        ExecError::NotFound.to_error().to_string(),
        "IO error: wapc protocol did not find method"
    );
    match ExecError::GuestFailure("trap".to_string()).to_error() {
        Error::IO { message, inner } => {
            assert_eq!(message, "wapc protocol trouble communicating with host");
            assert_eq!(inner, Some("trap".to_string()));
        }
        other => panic!("{other:?}"),
    }
    match ExecError::HostFailure("oom".to_string()).to_error() {
        Error::Internal { message, inner } => {
            assert_eq!(message, "wapc protocol internal error");
            assert_eq!(inner, Some("oom".to_string()));
        }
        other => panic!("{other:?}"),
    }
    assert_eq!(
        RegistryError::NotFound.to_error().to_string(),
        "Internal error: the program could not be found"
    );
    assert_eq!(
        RegistryError::Exec(ExecError::NotFound).to_error().to_string(),
        "IO error: wapc protocol did not find method"
    );
}

#[test]
fn names_of_headers_and_statuses() {
    assert_eq!(Header::ProgramId.to_string(), "Program-Identifier");
    assert_eq!(Header::ProgramProc.to_string(), "Program-Procedure");
    assert_eq!(Header::DeviceUrl.to_string(), "Device-Url");
    assert_eq!(Header::DeviceUrl.as_str(), "Device-Url");
    assert_eq!(Status::OK.to_string(), "200 OK");
    assert_eq!(Status::Created.to_string(), "201 Created");
    assert_eq!(Status::BadRequest.to_string(), "400 Bad Request");
    assert_eq!(Status::NotFound.to_string(), "404 Not Found");
}

#[test]
fn a_schema_grows_by_its_services() {
    let mut schema = Schema::new(Some("0.1.0".to_string()), None);
    assert_eq!(schema.version, Some("0.1.0".to_string()));
    assert_eq!(schema.program, None);
    assert!(schema.services.is_empty());
    schema.add_service(Method {
        name: "hello".to_string(),
        args: vec!["String".to_string()],
        rets: vec!["String".to_string()],
    });
    schema.add_service(Method { name: "hi".to_string(), args: vec![], rets: vec![] });
    assert_eq!(schema.services.len(), 2);
    assert_eq!(schema.services[0].name, "hello");
    assert_eq!(schema.services[0].args, vec!["String"]);
    assert_eq!(schema.services[1].name, "hi");
    assert!(schema.services[1].rets.is_empty());
    assert_eq!(schema.version, Some("0.1.0".to_string()));
}

#[test]
fn numbers_in_decimal_digits() {
    assert_eq!(decimal(0), "0");
    assert_eq!(decimal(7), "7");
    assert_eq!(decimal(10), "10");
    assert_eq!(decimal(202), "202");
    assert_eq!(decimal(1234567890), "1234567890");
    assert_eq!(decimal(u64::MAX), "18446744073709551615");
}

#[test]
fn numbers_from_decimal_digits() {
    assert_eq!(parse_number(b"0"), Some(0));
    assert_eq!(parse_number(b"42"), Some(42));
    assert_eq!(parse_number(b"+42"), Some(42));
    assert_eq!(parse_number(b" 4\t2\r\n"), Some(42));
    assert_eq!(parse_number(b"007"), Some(7));
    assert_eq!(parse_number(b"4294967295"), Some(u32::MAX));
    assert_eq!(parse_number(b"4294967296"), None);
    assert_eq!(parse_number(b"42949672950"), None);
    assert_eq!(parse_number(b""), None);
    assert_eq!(parse_number(b"   "), None);
    assert_eq!(parse_number(b"+"), None);
    assert_eq!(parse_number(b"++1"), None);
    assert_eq!(parse_number(b"-1"), None);
    assert_eq!(parse_number(b"1a"), None);
    assert_eq!(parse_number(b"0x10"), None);
    assert_eq!(compact_bytes(b" a b\tc\n"), b"abc".to_vec());
}

#[test]
fn runs_and_margins() {
    assert_eq!(count_leading(b"  ab ", Class::Space), 2);
    assert_eq!(count_leading(b"ab cd", Class::Word), 2);
    assert_eq!(count_leading(b"ab:cd", Class::Except(b':')), 2);
    assert_eq!(count_leading(b"abcd", Class::Except(b':')), 4);
    assert_eq!(count_leading(b"", Class::Space), 0);
    assert_eq!(count_trailing(b" ab \r\n", Class::Space), 3);
    assert_eq!(count_trailing(b"   ", Class::Space), 3);
    assert_eq!(count_trailing(b"ab", Class::Space), 0);
    assert_eq!(trim(b"  a b \r\n"), b"a b");
    assert_eq!(trim(b"   "), b"");
    assert_eq!(trim(b""), b"");
    assert_eq!(trim(b"\x0b\x0cx\x0b"), b"x");
    assert_eq!(trim(b"\xa0x"), b"\xa0x");
}

#[test]
fn letters_without_their_case() {
    assert_eq!(lower_byte(b'A'), b'a');
    assert_eq!(lower_byte(b'Z'), b'z');
    assert_eq!(lower_byte(b'a'), b'a');
    assert_eq!(lower_byte(b'@'), b'@');
    assert_eq!(lower_byte(b'['), b'[');
    assert_eq!(lower_byte(0xc9), 0xc9);
    assert!(eq_ignoring_case(b"Content-Length", b"content-length"));
    assert!(eq_ignoring_case(b"", b""));
    assert!(!eq_ignoring_case(b"a", b"ab"));
    assert!(!eq_ignoring_case(b"a-b", b"a_b"));
    assert!(!eq_ignoring_case("\u{c9}".as_bytes(), "\u{e9}".as_bytes()));
    assert!(same_text("/hello", "/hello"));
    assert!(!same_text("/hello", "/Hello"));
    assert!(!same_text("/hello", "/hell"));
    assert!(same_text("", ""));
}
