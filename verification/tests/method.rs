use apt_transport_kyc::codec::Digests;
use apt_transport_kyc::device_flow::DeviceFlowError;
use apt_transport_kyc::headers::Headers;
use apt_transport_kyc::method::{
    announce_capabilities, emit_done, emit_status, https_url, path_needs_license, refused_message,
    session_step, user_agent, HttpGet, HttpHead, LicenseCache, SessionAction, StreamError,
    UriAction, UriEvent, UriState,
};
use apt_transport_kyc::protocol::{AptRequest, ProtocolError, UriAcquire};

const POOL: &str = "kyc://apt.knowyourco.de/pool/main/k/kyc/kyc_1_amd64.deb";
const DISTS: &str = "kyc+https://apt.knowyourco.de/dists/stable/Release";

fn acquire(uri: &str) -> UriAcquire {
    UriAcquire {
        uri: uri.to_string(),
        filename: "/partial/f".to_string(),
        last_modified: None,
        expected_hash: None,
    }
}

/// A request that is being served.
struct Running {
    acq: UriAcquire,
    cache: LicenseCache,
    out: Vec<u8>,
    state: Option<UriState>,
    action: UriAction,
}

fn begin_with(acq: UriAcquire, cache: LicenseCache) -> Running {
    let mut out = Vec::new();
    let (state, action) = UriState::start(&acq, "1.0", &cache, &mut out);
    Running { acq, cache, out, state: Some(state), action }
}

fn begin(uri: &str) -> Running {
    begin_with(acquire(uri), LicenseCache::new())
}

fn next(r: &mut Running, event: UriEvent) {
    let state = r.state.take().unwrap();
    let (state, action) = state.step(&r.acq, "1.0", &mut r.cache, &mut r.out, event);
    r.state = Some(state);
    r.action = action;
}

fn said(r: &Running) -> String {
    String::from_utf8(r.out.clone()).unwrap()
}

fn get(r: &Running) -> HttpGet {
    match &r.action {
        UriAction::Get(get) => get.clone(),
        _ => panic!("expected a fetch"),
    }
}

fn ok_head(last_modified: Option<&str>) -> UriEvent {
    UriEvent::Response(Ok(HttpHead {
        status: 200,
        last_modified: last_modified.map(str::to_string),
    }))
}

fn status(uri: &str, message: &str) -> String {
    format!("102 Status\nURI: {uri}\nMessage: {message}\n\n")
}

fn failure(uri: &str, message: &str) -> String {
    format!("400 URI Failure\nURI: {uri}\nMessage: {message}\n\n")
}

fn failed(r: &Running, uri: &str, message: &str) {
    assert!(matches!(r.action, UriAction::Finish));
    assert!(matches!(r.state, Some(UriState::Finished)));
    assert!(said(r).ends_with(&failure(uri, message)), "{}", said(r));
    assert_eq!(said(r).matches("400 URI Failure").count(), 1);
}

#[test]
fn agents_and_capabilities() {
    assert_eq!(user_agent("0.2.5"), "apt-transport-kyc/0.2.5");
    let mut out = Vec::new();
    announce_capabilities(&mut out);
    assert_eq!(
        out,
        b"100 Capabilities\nVersion: 1.2\nSingle-Instance: true\nPipeline: true\nSend-Config: true\n\n"
    );
    emit_status(&mut out, "u", "m");
    assert!(out.ends_with(b"\n\n102 Status\nURI: u\nMessage: m\n\n"));
}

#[test]
fn urls() {
    assert_eq!(https_url("kyc://h/p").as_deref(), Some("https://h/p"));
    assert_eq!(https_url("kyc+https://h/p").as_deref(), Some("https://h/p"));
    assert_eq!(https_url("kyc://").as_deref(), Some("https://"));
    assert_eq!(https_url("https://h/p"), None);
    assert_eq!(https_url("kyc:/h"), None);
    assert_eq!(https_url(""), None);
}

#[test]
fn where_a_license_is_needed() {
    assert!(path_needs_license("https://h/pool/x"));
    assert!(path_needs_license("https://h/pool/"));
    assert!(path_needs_license("h/pool/x"));
    assert!(!path_needs_license("https://h/pool"));
    assert!(!path_needs_license("https://h/dists/pool/x"));
    assert!(!path_needs_license("https://h/install/x"));
    assert!(!path_needs_license("https://h//pool/x"));
    assert!(!path_needs_license("https://h"));
    assert!(!path_needs_license(""));
}

#[test]
fn done_with_its_digests() {
    let digests = Digests {
        size: 3,
        sha256: "aa".to_string(),
        sha512: "bb".to_string(),
        md5: "cc".to_string(),
    };
    let mut out = Vec::new();
    emit_done(&mut out, &acquire("u"), &digests, None);
    assert_eq!(
        out,
        b"201 URI Done\nURI: u\nFilename: /partial/f\nSize: 3\nSHA256-Hash: aa\nSHA512-Hash: bb\nMD5Sum-Hash: cc\n\n"
    );
}

#[test]
fn refusals_of_the_server_in_words() {
    assert_eq!(refused_message("u", "404 s"), "HTTPS GET u returned HTTP 404 s");
}

#[test]
fn another_scheme_is_refused() {
    let r = begin("http://h/pool/x");
    failed(&r, "http://h/pool/x", "uri doesn't start with kyc+https://: http://h/pool/x");
    assert!(!said(&r).contains("102 Status"));
}

#[test]
fn a_file_without_a_license() {
    let mut acq = acquire(DISTS);
    acq.last_modified = Some("before".to_string());
    let mut r = begin_with(acq, LicenseCache::new());
    assert_eq!(said(&r), status(DISTS, "Downloading"));
    let get = get(&r);
    assert_eq!(get.url, "https://apt.knowyourco.de/dists/stable/Release");
    assert_eq!(
        get.headers,
        vec![
            ("User-Agent".to_string(), "apt-transport-kyc/1.0".to_string()),
            ("If-Modified-Since".to_string(), "before".to_string()),
        ]
    );
    next(&mut r, ok_head(Some("now")));
    assert!(matches!(&r.action, UriAction::CreateFile(path) if path == "/partial/f.partial"));
    next(&mut r, UriEvent::Done(Ok(())));
    assert!(matches!(r.action, UriAction::ReadBody));
    next(&mut r, UriEvent::Body(Ok(b"hello ".to_vec())));
    assert!(matches!(&r.action, UriAction::WriteFile(bytes) if bytes == b"hello "));
    next(&mut r, UriEvent::Done(Ok(())));
    assert!(matches!(r.action, UriAction::ReadBody));
    next(&mut r, UriEvent::Body(Ok(b"world".to_vec())));
    next(&mut r, UriEvent::Done(Ok(())));
    next(&mut r, UriEvent::Body(Ok(vec![])));
    assert!(matches!(r.action, UriAction::SyncFile));
    next(&mut r, UriEvent::Done(Ok(())));
    assert!(matches!(&r.action, UriAction::RenameFile { from, to }
        if from == "/partial/f.partial" && to == "/partial/f"));
    assert_eq!(said(&r), status(DISTS, "Downloading"));
    next(&mut r, UriEvent::Done(Ok(())));
    assert!(matches!(r.action, UriAction::Report));
    let done = format!(
        "201 URI Done\nURI: {DISTS}\nFilename: /partial/f\nSize: 11\nSHA256-Hash: b94d27b9934d3e08a52e52d7da7dabfac484efe37a5380ee9088f7ace2efcde9\nSHA512-Hash: 309ecc489c12d6eb4cc40f50c902f2b4d0ed77ee511a7c7a9bcd3ca86d4cd86f989dd35bc5ff499670da34255b45b0cfd830e81f605dcf7dc5542e93ae9cd76f\nMD5Sum-Hash: 5eb63bbbe01eeed093cb22bb8f5acdc3\nLast-Modified: now\n\n"
    );
    assert_eq!(said(&r), status(DISTS, "Downloading") + &done);
    next(&mut r, UriEvent::Done(Ok(())));
    assert!(matches!(r.action, UriAction::Finish));
    assert_eq!(said(&r), status(DISTS, "Downloading") + &done);
}

#[test]
fn a_license_from_the_disk() {
    let mut r = begin(POOL);
    assert!(matches!(r.action, UriAction::ReadLicense));
    next(&mut r, UriEvent::License(Ok(Some(b"Man".to_vec()))));
    let sent = get(&r);
    assert_eq!(sent.url, "https://apt.knowyourco.de/pool/main/k/kyc/kyc_1_amd64.deb");
    assert_eq!(
        sent.headers,
        vec![
            ("User-Agent".to_string(), "apt-transport-kyc/1.0".to_string()),
            ("Authorization".to_string(), "Kyc-License TWFu".to_string()),
        ]
    );
    assert_eq!(said(&r), status(POOL, "Downloading"));
    assert_eq!(r.cache.license_b64().as_deref(), Some("TWFu"));

    // The next request does not read it again, and sends it only where needed.
    let again = begin_with(acquire(POOL), r.cache);
    assert!(get(&again).headers.contains(&(
        "Authorization".to_string(),
        "Kyc-License TWFu".to_string()
    )));
    let open = begin_with(acquire(DISTS), again.cache);
    assert_eq!(get(&open).headers.len(), 1);
}

#[test]
fn a_license_by_signing_in() {
    let mut r = begin(POOL);
    next(&mut r, UriEvent::License(Ok(None)));
    assert!(matches!(r.action, UriAction::SignIn));
    assert!(said(&r).ends_with(&status(POOL, "License missing \u{2014} starting sign-in...")));
    next(&mut r, UriEvent::SignedIn(Ok("foobar".to_string())));
    assert!(matches!(&r.action, UriAction::SaveLicense(bytes) if bytes == b"foobar"));
    next(&mut r, UriEvent::Saved(Ok("/etc/kyc/license".to_string())));
    assert!(said(&r).ends_with(&status(POOL, "Sign-in complete; license at /etc/kyc/license")));
    assert!(get(&r).headers.contains(&(
        "Authorization".to_string(),
        "Kyc-License Zm9vYmFy".to_string()
    )));
}

#[test]
fn a_failed_sign_in_is_not_tried_again() {
    let mut r = begin(POOL);
    next(&mut r, UriEvent::License(Ok(None)));
    next(&mut r, UriEvent::SignedIn(Err(DeviceFlowError::Timeout)));
    failed(&r, POOL, "timed out waiting for sign-in");
    assert_eq!(r.cache.license_b64(), None);

    let mut again = begin_with(acquire(POOL), r.cache);
    next(&mut again, UriEvent::License(Ok(None)));
    failed(&again, POOL, "timed out waiting for sign-in");
    assert!(!said(&again).contains("License missing"));

    // A license that was put on the disk meanwhile is used.
    let mut later = begin_with(acquire(POOL), again.cache);
    next(&mut later, UriEvent::License(Ok(Some(b"Man".to_vec()))));
    assert_eq!(get(&later).headers[1].1, "Kyc-License TWFu");
}

#[test]
fn a_license_that_cannot_be_saved_is_still_known() {
    let mut r = begin(POOL);
    next(&mut r, UriEvent::License(Ok(None)));
    next(&mut r, UriEvent::SignedIn(Ok("foobar".to_string())));
    next(&mut r, UriEvent::Saved(Err("disk full".to_string())));
    failed(&r, POOL, "writing license: disk full");
    let again = begin_with(acquire(POOL), r.cache);
    assert_eq!(get(&again).headers[1].1, "Kyc-License Zm9vYmFy");
}

#[test]
fn a_license_that_cannot_be_read() {
    let mut r = begin(POOL);
    next(&mut r, UriEvent::License(Err("denied".to_string())));
    failed(&r, POOL, "reading license: denied");
}

#[test]
fn the_server_fails() {
    let url = "https://apt.knowyourco.de/dists/stable/Release";
    let mut r = begin(DISTS);
    next(&mut r, UriEvent::Response(Err("no route".to_string())));
    failed(&r, DISTS, &format!("HTTPS GET {url}: no route"));

    for (code, words) in [
        (304, "304 Not Modified"),
        (401, "401 Unauthorized"),
        (404, "404 Not Found"),
        (503, "503 Service Unavailable"),
    ] {
        let mut r = begin(DISTS);
        let head = HttpHead { status: code, last_modified: None };
        next(&mut r, UriEvent::Response(Ok(head)));
        failed(&r, DISTS, &format!("HTTPS GET {url} returned HTTP {words}"));
    }

    let mut r = begin(DISTS);
    next(&mut r, ok_head(None));
    next(&mut r, UriEvent::Done(Ok(())));
    next(&mut r, UriEvent::Body(Err("reset".to_string())));
    failed(&r, DISTS, &format!("read {url}: reset"));
}

#[test]
fn the_file_cannot_be_written() {
    let mut r = begin(DISTS);
    next(&mut r, ok_head(None));
    next(&mut r, UriEvent::Done(Err("denied".to_string())));
    failed(&r, DISTS, "create /partial/f.partial: denied");

    let mut r = begin(DISTS);
    next(&mut r, ok_head(None));
    next(&mut r, UriEvent::Done(Ok(())));
    next(&mut r, UriEvent::Body(Ok(b"x".to_vec())));
    next(&mut r, UriEvent::Done(Err("full".to_string())));
    failed(&r, DISTS, "write /partial/f.partial: full");

    let mut r = begin(DISTS);
    next(&mut r, ok_head(None));
    next(&mut r, UriEvent::Done(Ok(())));
    next(&mut r, UriEvent::Body(Ok(vec![])));
    next(&mut r, UriEvent::Done(Err("io".to_string())));
    failed(&r, DISTS, "fsync /partial/f.partial: io");

    let mut r = begin(DISTS);
    next(&mut r, ok_head(None));
    next(&mut r, UriEvent::Done(Ok(())));
    next(&mut r, UriEvent::Body(Ok(vec![])));
    next(&mut r, UriEvent::Done(Ok(())));
    next(&mut r, UriEvent::Done(Err("xdev".to_string())));
    failed(&r, DISTS, "rename /partial/f.partial -> /partial/f: xdev");
}

#[test]
fn apt_cannot_be_told() {
    let mut r = begin(DISTS);
    next(&mut r, ok_head(None));
    next(&mut r, UriEvent::Done(Ok(())));
    next(&mut r, UriEvent::Body(Ok(vec![])));
    next(&mut r, UriEvent::Done(Ok(())));
    next(&mut r, UriEvent::Done(Ok(())));
    assert!(matches!(r.action, UriAction::Report));
    assert!(said(&r).contains("201 URI Done"));
    next(&mut r, UriEvent::Done(Err("broken pipe".to_string())));
    failed(&r, DISTS, "write URI Done: broken pipe");
}

#[test]
fn what_comes_from_apt() {
    assert!(matches!(
        session_step(Ok(None)),
        SessionAction::Exit { code: 0, message: None }
    ));
    assert!(matches!(
        session_step(Err(StreamError::Protocol(ProtocolError::UnknownCode(602)))),
        SessionAction::Log(m) if m == "apt-transport-kyc: protocol error: unknown code 602"
    ));
    for (error, words) in [
        (StreamError::Io("broken pipe".to_string()), "broken pipe"),
        (
            StreamError::Protocol(ProtocolError::InvalidUtf8),
            "stream did not contain valid UTF-8",
        ),
        (
            StreamError::Protocol(ProtocolError::BadCodeLine("x".to_string())),
            "bad code line: \"x\"",
        ),
        (StreamError::Protocol(ProtocolError::MissingUri), "600 missing URI"),
        (StreamError::Protocol(ProtocolError::MissingFilename), "600 missing Filename"),
    ] {
        assert!(matches!(
            session_step(Err(error)),
            SessionAction::Exit { code: 1, message: Some(m) }
                if m == format!("apt-transport-kyc: protocol error: {words}")
        ));
    }
    assert!(matches!(
        session_step(Ok(Some(AptRequest::Configuration { items: Headers::new() }))),
        SessionAction::NextRequest
    ));
    assert!(matches!(
        session_step(Ok(Some(AptRequest::UriAcquire(acquire("u"))))),
        SessionAction::Handle(acq) if acq.uri == "u"
    ));
}
