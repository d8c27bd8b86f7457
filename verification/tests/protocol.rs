use apt_transport_kyc::headers::Headers;
use apt_transport_kyc::protocol::{
    bad_code_line_message, bool_str, hex_val, percent_decode, read_request, url_decode,
    write_response, AptRequest, AptResponse, ProtocolError, ReadState, ReadStep, UriAcquire,
};

fn written(resp: &AptResponse<'_>) -> String {
    let mut out = Vec::new();
    write_response(&mut out, resp);
    String::from_utf8(out).unwrap()
}

fn acquire(input: &mut &[u8]) -> UriAcquire {
    match read_request(input) {
        Ok(Some(AptRequest::UriAcquire(acq))) => acq,
        other => panic!("expected a URI Acquire, got {other:?}"),
    }
}

fn configuration(input: &mut &[u8]) -> Headers {
    match read_request(input) {
        Ok(Some(AptRequest::Configuration { items })) => items,
        other => panic!("expected a Configuration, got {other:?}"),
    }
}

#[test]
fn decodes_debian_version_tildes_and_pluses() {
    assert_eq!(
        url_decode("kyc_0.2.5%7Erc1%2Bci.42_amd64.deb"),
        "kyc_0.2.5~rc1+ci.42_amd64.deb"
    );
}

#[test]
fn passes_through_malformed_percent() {
    assert_eq!(url_decode("100% sure"), "100% sure");
}

#[test]
fn parses_uri_acquire() {
    let bytes = b"600 URI Acquire\nURI: kyc://apt.knowyourco.de/pool/main/k/kyc/kyc_0.2.5-1_amd64.deb\nFilename: /var/cache/apt/archives/partial/kyc_0.2.5-1_amd64.deb\nLast-Modified: Tue, 12 May 2026 15:29:39 GMT\n\n".to_vec();
    let mut input: &[u8] = &bytes;
    let req = read_request(&mut input).unwrap().unwrap();
    match req {
        AptRequest::UriAcquire(a) => {
            assert!(a.uri.ends_with("kyc_0.2.5-1_amd64.deb"));
            assert!(a.filename.contains("partial/kyc_0.2.5-1_amd64.deb"));
            assert!(a.last_modified.is_some());
        }
        _ => panic!("expected URI Acquire"),
    }
}

#[test]
fn emits_capabilities() {
    let mut out = Vec::new();
    write_response(
        &mut out,
        &AptResponse::Capabilities {
            single_instance: true,
            pipeline: true,
            send_config: true,
        },
    );
    let s = String::from_utf8(out).unwrap();
    assert!(s.starts_with("100 Capabilities\n"));
    assert!(s.contains("Single-Instance: true\n"));
    assert!(s.ends_with("\n\n")); // blank-line terminator
}

#[test]
fn percent_escapes_at_the_edges() {
    assert_eq!(url_decode(""), "");
    assert_eq!(url_decode("%"), "%");
    assert_eq!(url_decode("%4"), "%4");
    assert_eq!(url_decode("%41"), "A");
    assert_eq!(url_decode("a%"), "a%");
    assert_eq!(url_decode("%zz%41"), "%zzA");
    assert_eq!(url_decode("%%41"), "%A");
    assert_eq!(url_decode("%7e%7E"), "~~");
    assert_eq!(url_decode("%C3%A9"), "\u{e9}");
    assert_eq!(percent_decode(b"%ff%00"), vec![0xff, 0]);
}

#[test]
fn decoding_that_is_not_utf8_is_lossy() {
    assert_eq!(url_decode("a%FFb"), "a\u{fffd}b");
}

#[test]
fn decoding_undoes_escaping() {
    let mut escaped = String::new();
    let mut bytes = Vec::new();
    for b in 0..=255u8 {
        bytes.push(b);
        escaped.push_str(&format!("%{b:02X}"));
    }
    assert_eq!(percent_decode(escaped.as_bytes()), bytes);
}

#[test]
fn escapes_may_stand_anywhere_in_either_case() {
    assert_eq!(url_decode("a/%61%2f~%7e%7E%25%C3%a9"), "a/a/~~~%\u{e9}");
}

#[test]
fn spaces_at_the_ends_of_texts_leave_one_block() {
    let text = written(&AptResponse::Status { uri: " u ", message: "" });
    assert_eq!(text, "102 Status\nURI:  u \nMessage: \n\n");
    assert_eq!(text.find("\n\n"), Some(text.len() - 2));
}

#[test]
fn hex_digits() {
    for b in 0..=255u8 {
        let expected = (b as char).to_digit(16).map(|d| d as u8);
        assert_eq!(hex_val(b), expected);
    }
}

#[test]
fn reads_every_field_of_an_acquire() {
    let mut input: &[u8] = b"600 URI Acquire\nURI: kyc://h/a%7Eb\nFilename:/tmp/x:y \nLast-Modified: then\nExpected-SHA256: aa\nExpected-Checksum: bb\n\n";
    let acq = acquire(&mut input);
    assert_eq!(acq.uri, "kyc://h/a~b");
    assert_eq!(acq.filename, "/tmp/x:y");
    assert_eq!(acq.last_modified.as_deref(), Some("then"));
    assert_eq!(acq.expected_hash.as_deref(), Some("aa"));
    assert!(input.is_empty());
}

#[test]
fn the_other_checksum_field_is_a_fallback() {
    let mut input: &[u8] = b"600 x\nURI: u\nFilename: f\nExpected-Checksum: bb\n\n";
    let acq = acquire(&mut input);
    assert_eq!(acq.expected_hash.as_deref(), Some("bb"));
    assert_eq!(acq.last_modified, None);
    let mut input: &[u8] = b"600 x\nURI: u\nFilename: f\n\n";
    assert_eq!(acquire(&mut input).expected_hash, None);
}

#[test]
fn reads_one_block_and_no_more() {
    let mut input: &[u8] =
        b"\n \r\n601 Configuration\nConfig-Item: a=1\n\n600 URI Acquire\nURI: u\nFilename: f\n\nrest";
    let items = configuration(&mut input);
    assert_eq!(items.get("Config-Item").map(|s| s.as_str()), Some("a=1"));
    assert_eq!(items.get("URI"), None);
    assert!(input.starts_with(b"600 URI Acquire\n"));
    assert_eq!(acquire(&mut input).uri, "u");
    assert_eq!(input, b"rest");
}

#[test]
fn carriage_returns_and_odd_lines_are_tolerated() {
    let mut input: &[u8] = b"600 URI Acquire\r\nno colon here\r\n URI : u\r\nFilename: f\r\n\r\n";
    let acq = acquire(&mut input);
    assert_eq!(acq.uri, "u");
    assert_eq!(acq.filename, "f");
}

#[test]
fn the_last_of_two_fields_of_a_name_counts() {
    let mut input: &[u8] = b"600\nURI: a\nURI: b\nFilename: f\n\n";
    assert_eq!(acquire(&mut input).uri, "b");
}

#[test]
fn the_end_of_the_input_ends_a_block() {
    let mut input: &[u8] = b"600 URI Acquire\nURI: u\nFilename: f";
    let acq = acquire(&mut input);
    assert_eq!(acq.filename, "f");
    assert!(matches!(read_request(&mut input), Ok(None)));
}

#[test]
fn no_input_is_no_request() {
    let mut input: &[u8] = b"";
    assert!(matches!(read_request(&mut input), Ok(None)));
    let mut input: &[u8] = b"\n\n  \n";
    assert!(matches!(read_request(&mut input), Ok(None)));
}

fn error(bytes: &[u8]) -> ProtocolError {
    let mut input: &[u8] = bytes;
    match read_request(&mut input) {
        Err(e) => e,
        other => panic!("expected an error, got {other:?}"),
    }
}

#[test]
fn errors_of_a_block() {
    let e = error(b"hello \"world\"\t\nURI: u\n\n");
    assert!(matches!(&e, ProtocolError::BadCodeLine(line) if line == "hello \"world\""));
    assert_eq!(e.message(), "bad code line: \"hello \\\"world\\\"\"");

    let e = error(b"600 URI Acquire\nFilename: f\n\n");
    assert!(matches!(e, ProtocolError::MissingUri));
    assert_eq!(e.message(), "600 missing URI");

    let e = error(b"600 URI Acquire\n\n");
    assert!(matches!(e, ProtocolError::MissingUri));

    let e = error(b"600 URI Acquire\nURI: u\n\n");
    assert!(matches!(e, ProtocolError::MissingFilename));
    assert_eq!(e.message(), "600 missing Filename");

    let e = error(b"602 Authorization Credentials\n\n");
    assert!(matches!(e, ProtocolError::UnknownCode(602)));
    assert_eq!(e.message(), "unknown code 602");

    let e = error(b"600 \xff\n\n");
    assert!(matches!(e, ProtocolError::InvalidUtf8));
    assert_eq!(e.message(), "stream did not contain valid UTF-8");

    let e = error(b"70000 x\n\n");
    assert!(matches!(e, ProtocolError::BadCodeLine(_)));
}

#[test]
fn a_block_with_an_unknown_code_is_read_to_its_end() {
    let mut input: &[u8] = b"602 x\nA: b\n\n600 URI Acquire\nURI: u\nFilename: f\n\n";
    assert!(matches!(read_request(&mut input), Err(ProtocolError::UnknownCode(602))));
    assert_eq!(acquire(&mut input).uri, "u");
}

#[test]
fn a_bad_code_line_is_quoted() {
    assert_eq!(bad_code_line_message("\"x\""), "bad code line: \"x\"");
}

#[test]
fn a_code_may_have_a_plus_sign() {
    let mut input: &[u8] = b"+601 Configuration\n\n";
    configuration(&mut input);
}

#[test]
fn reading_line_by_line_is_reading_at_once() {
    let state = match ReadState::Idle.on_line(b"\n") {
        ReadStep::More(state) => state,
        ReadStep::Done(_) => panic!("a blank line opens no block"),
    };
    let state = match state.on_line(b"600 URI Acquire\n") {
        ReadStep::More(state) => state,
        ReadStep::Done(_) => panic!("the block is not over"),
    };
    let state = match state.on_line(b"URI: u\n") {
        ReadStep::More(state) => state,
        ReadStep::Done(_) => panic!("the block is not over"),
    };
    let state = match state.on_line(b"Filename: f\n") {
        ReadStep::More(state) => state,
        ReadStep::Done(_) => panic!("the block is not over"),
    };
    match state.on_line(b"\n") {
        ReadStep::Done(Ok(AptRequest::UriAcquire(acq))) => {
            assert_eq!(acq.uri, "u");
            assert_eq!(acq.filename, "f");
        }
        other => panic!("expected a request, got {other:?}"),
    }
    assert!(matches!(ReadState::Idle.at_end(), Ok(None)));
}

#[test]
fn writes_every_response() {
    assert_eq!(
        written(&AptResponse::Capabilities {
            single_instance: true,
            pipeline: false,
            send_config: true,
        }),
        "100 Capabilities\nVersion: 1.2\nSingle-Instance: true\nPipeline: false\nSend-Config: true\n\n"
    );
    assert_eq!(
        written(&AptResponse::Status { uri: "u", message: "m" }),
        "102 Status\nURI: u\nMessage: m\n\n"
    );
    assert_eq!(
        written(&AptResponse::UriStart { uri: "u", size: None, last_modified: None }),
        "200 URI Start\nURI: u\n\n"
    );
    assert_eq!(
        written(&AptResponse::UriStart { uri: "u", size: Some(u64::MAX), last_modified: Some("t") }),
        "200 URI Start\nURI: u\nSize: 18446744073709551615\nLast-Modified: t\n\n"
    );
    assert_eq!(
        written(&AptResponse::UriDone {
            uri: "u",
            filename: "f",
            size: 0,
            sha256: "aa",
            sha512: None,
            md5: None,
            last_modified: None,
        }),
        "201 URI Done\nURI: u\nFilename: f\nSize: 0\nSHA256-Hash: aa\n\n"
    );
    assert_eq!(
        written(&AptResponse::UriDone {
            uri: "u",
            filename: "f",
            size: 1234567890,
            sha256: "aa",
            sha512: Some("bb"),
            md5: Some("cc"),
            last_modified: Some("t"),
        }),
        "201 URI Done\nURI: u\nFilename: f\nSize: 1234567890\nSHA256-Hash: aa\nSHA512-Hash: bb\nMD5Sum-Hash: cc\nLast-Modified: t\n\n"
    );
    assert_eq!(
        written(&AptResponse::UriFailure { uri: "u", message: "m\u{2014}" }),
        "400 URI Failure\nURI: u\nMessage: m\u{2014}\n\n"
    );
}

#[test]
fn responses_are_added_to_what_is_there() {
    let mut out = b"before".to_vec();
    write_response(&mut out, &AptResponse::Status { uri: "u", message: "m" });
    assert_eq!(out, b"before102 Status\nURI: u\nMessage: m\n\n");
}

#[test]
fn booleans_in_words() {
    assert_eq!(bool_str(true), "true");
    assert_eq!(bool_str(false), "false");
}

#[test]
fn headers_keep_the_last_value_of_a_name() {
    let mut headers = Headers::new();
    assert_eq!(headers.get("a"), None);
    headers.insert("a".to_string(), "1".to_string());
    headers.insert("b".to_string(), "2".to_string());
    headers.insert("a".to_string(), "3".to_string());
    let copy = headers.clone();
    let mut entries: Vec<(&str, &str)> =
        headers.entries().iter().map(|(name, value)| (name.as_str(), value.as_str())).collect();
    entries.sort();
    assert_eq!(entries, vec![("a", "3"), ("b", "2")]);
    assert!(Headers::new().entries().is_empty());
    assert_eq!(headers.get("a").map(|s| s.as_str()), Some("3"));
    assert_eq!(headers.get("b").map(|s| s.as_str()), Some("2"));
    assert_eq!(copy.get("a").map(|s| s.as_str()), Some("3"));
    assert_eq!(copy.get("A"), None);
}

/// Reads a written response as a block whose code is that of a configuration.
fn fields_of(resp: &AptResponse<'_>) -> Headers {
    let text = written(resp);
    let rest = text.split_once('\n').unwrap().1;
    let block = format!("601 x\n{rest}");
    let mut input: &[u8] = block.as_bytes();
    let items = configuration(&mut input);
    assert!(input.is_empty());
    items
}

#[test]
fn a_response_reads_back() {
    let items = fields_of(&AptResponse::UriDone {
        uri: "kyc://h/p:1",
        filename: "/f",
        size: 42,
        sha256: "aa",
        sha512: Some("bb"),
        md5: None,
        last_modified: Some("Tue, 12 May 2026 15:29:39 GMT"),
    });
    assert_eq!(items.get("URI").map(|s| s.as_str()), Some("kyc://h/p:1"));
    assert_eq!(items.get("Filename").map(|s| s.as_str()), Some("/f"));
    assert_eq!(items.get("Size").map(|s| s.as_str()), Some("42"));
    assert_eq!(items.get("SHA256-Hash").map(|s| s.as_str()), Some("aa"));
    assert_eq!(items.get("SHA512-Hash").map(|s| s.as_str()), Some("bb"));
    assert_eq!(items.get("MD5Sum-Hash"), None);
    assert_eq!(
        items.get("Last-Modified").map(|s| s.as_str()),
        Some("Tue, 12 May 2026 15:29:39 GMT")
    );
}
