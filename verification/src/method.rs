//! The apt method: how one `600 URI Acquire` is answered.
//!
//! The URI is rewritten to `https://`. What lies under `/pool/` is fetched
//! with the license in an `Authorization` header; all else is fetched without.
//! A license that is not on disk is asked for once, by a sign-in, and kept for
//! the rest of the process. The body goes to a file beside the one that apt
//! named, its digests computed as it comes in, and is moved into place when it
//! is whole.
//!
//! [`UriState`] is a state machine: each step takes what the last action led
//! to, adds to the bytes for apt, and gives the next action. Every request is
//! answered with `201 URI Done` or `400 URI Failure`, and the method stays
//! alive for the next.

use vstd::prelude::*;
use vstd::slice::{slice_subrange, slice_to_vec};
use vstd::utf8::*;

use crate::codec;
use crate::codec::{base64_encode, status_string, Checksums, Digests};
use crate::device_flow;
use crate::device_flow::DeviceFlowError;
use crate::protocol;
use crate::protocol::{
    write_response, AcquireView, AptRequest, AptResponse, Field, ProtocolError, UriAcquire,
};
use crate::text;
use crate::text::{from_chars, index_of, starts_with, to_chars};

verus! {

/// The user agent of the requests that this version sends.
pub open spec fn user_agent_text(version: Seq<char>) -> Seq<char> {
    "apt-transport-kyc/"@ + version
}

pub fn user_agent(version: &str) -> (agent: String)
    ensures
        agent@ == user_agent_text(version@),
{
    let mut agent = "apt-transport-kyc/".to_owned();
    agent.append(version);
    agent
}

/// Adds the message that apt waits for before its first request.
pub fn announce_capabilities(out: &mut Vec<u8>)
    ensures
        final(out)@ == old(out)@ + encode_utf8(
            protocol::response_text(
                AptResponse::Capabilities {
                    single_instance: true,
                    pipeline: true,
                    send_config: true,
                },
            ),
        ),
{
    write_response(
        out,
        &AptResponse::Capabilities { single_instance: true, pipeline: true, send_config: true },
    );
}

/// A `102 Status`.
pub open spec fn status_block(uri: Seq<char>, message: Seq<char>) -> Seq<char> {
    protocol::block_text("102 Status"@, seq![("URI"@, uri)].push(("Message"@, message)))
}

/// A `400 URI Failure`.
pub open spec fn failure_block(uri: Seq<char>, message: Seq<char>) -> Seq<char> {
    protocol::block_text("400 URI Failure"@, seq![("URI"@, uri)].push(("Message"@, message)))
}

/// A `201 URI Done` with all its digests, in hexadecimal.
pub open spec fn done_text(
    acq: AcquireView,
    size: nat,
    sha256: Seq<char>,
    sha512: Seq<char>,
    md5: Seq<char>,
    last_modified: Option<Seq<char>>,
) -> Seq<char> {
    protocol::block_text(
        "201 URI Done"@,
        protocol::with_optional(
            seq![("URI"@, acq.uri)].push(("Filename"@, acq.filename)).push(
                ("Size"@, text::decimal_text(size)),
            ).push(("SHA256-Hash"@, sha256)).push(("SHA512-Hash"@, sha512)).push(
                ("MD5Sum-Hash"@, md5),
            ),
            "Last-Modified"@,
            last_modified,
        ),
    )
}

/// A `201 URI Done` for a body that was received.
pub open spec fn done_block(
    acq: AcquireView,
    body: Seq<u8>,
    last_modified: Option<Seq<char>>,
) -> Seq<char> {
    done_text(
        acq,
        body.len(),
        codec::hex_text(codec::sha256_digest(body)),
        codec::hex_text(codec::sha512_digest(body)),
        codec::hex_text(codec::md5_digest(body)),
        last_modified,
    )
}

/// Adds a `102 Status` for apt's display.
pub fn emit_status(out: &mut Vec<u8>, uri: &str, message: &str)
    ensures
        final(out)@ == old(out)@ + encode_utf8(status_block(uri@, message@)),
{
    write_response(out, &AptResponse::Status { uri, message });
}

fn emit_failure(out: &mut Vec<u8>, uri: &str, message: &str)
    ensures
        final(out)@ == old(out)@ + encode_utf8(failure_block(uri@, message@)),
{
    write_response(out, &AptResponse::UriFailure { uri, message });
}

/// Adds a `201 URI Done` for a body with these digests.
pub fn emit_done(
    out: &mut Vec<u8>,
    acq: &UriAcquire,
    digests: &Digests,
    last_modified: Option<&str>,
)
    ensures
        final(out)@ == old(out)@ + encode_utf8(
            done_text(
                acq@,
                digests.size as nat,
                digests.sha256@,
                digests.sha512@,
                digests.md5@,
                protocol::opt_str(last_modified),
            ),
        ),
{
    write_response(
        out,
        &AptResponse::UriDone {
            uri: acq.uri.as_str(),
            filename: acq.filename.as_str(),
            size: digests.size,
            sha256: digests.sha256.as_str(),
            sha512: Some(digests.sha512.as_str()),
            md5: Some(digests.md5.as_str()),
            last_modified,
        },
    );
}

/// The URL behind a URI of this method: `kyc://` and `kyc+https://` stand for
/// `https://`.
pub open spec fn https_url_of(uri: Seq<char>) -> Option<Seq<char>> {
    if "kyc://"@.is_prefix_of(uri) {
        Some("https://"@ + uri.skip("kyc://"@.len() as int))
    } else if "kyc+https://"@.is_prefix_of(uri) {
        Some("https://"@ + uri.skip("kyc+https://"@.len() as int))
    } else {
        None
    }
}

fn after_prefix(s: &[char], prefix: &str) -> (rest: Option<String>)
    ensures
        match rest {
            Some(r) => prefix@.is_prefix_of(s@) && r@ == s@.skip(prefix@.len() as int),
            None => !prefix@.is_prefix_of(s@),
        },
{
    if starts_with(s, prefix) {
        let p = to_chars(prefix);
        Some(from_chars(slice_subrange(s, p.len(), s.len())))
    } else {
        None
    }
}

pub fn https_url(uri: &str) -> (url: Option<String>)
    ensures
        protocol::opt_string(url) == https_url_of(uri@),
{
    let chars = to_chars(uri);
    let rest = match after_prefix(chars.as_slice(), "kyc://") {
        Some(rest) => rest,
        None => match after_prefix(chars.as_slice(), "kyc+https://") {
            Some(rest) => rest,
            None => {
                return None;
            },
        },
    };
    let mut url = "https://".to_owned();
    url.append(rest.as_str());
    Some(url)
}

/// The path of a URL: from the first slash behind the scheme, or `/`.
pub open spec fn path_of(url: Seq<char>) -> Seq<char> {
    let rest = if "https://"@.is_prefix_of(url) {
        url.skip("https://"@.len() as int)
    } else {
        url
    };
    let i = text::first_index(rest, '/');
    if i < rest.len() {
        rest.skip(i)
    } else {
        "/"@
    }
}

/// True when what stands at `url` is handed out against a license only.
pub open spec fn needs_license(url: Seq<char>) -> bool {
    "/pool/"@.is_prefix_of(path_of(url))
}

pub fn path_needs_license(https_url: &str) -> (b: bool)
    ensures
        b == needs_license(https_url@),
{
    let chars = to_chars(https_url);
    let url = chars.as_slice();
    let rest: &[char] = if starts_with(url, "https://") {
        let p = to_chars("https://");
        slice_subrange(url, p.len(), url.len())
    } else {
        url
    };
    let i = index_of(rest, '/');
    if i < rest.len() {
        starts_with(slice_subrange(rest, i, rest.len()), "/pool/")
    } else {
        proof {
            reveal_strlit("/");
            reveal_strlit("/pool/");
        }
        false
    }
}

/// True when a license of `n` bytes can go into a header: its base64 fits in
/// memory.
pub open spec fn fits_header(n: nat) -> bool {
    codec::base64_length(n) <= isize::MAX
}

/// What the process knows of the license.
pub struct LicenseCache {
    license: Option<Vec<u8>>,
    refusal: Option<String>,
}

/// What a [`LicenseCache`] says.
pub struct CacheView {
    /// The license, once it is known.
    pub license: Option<Seq<u8>>,
    /// Why the sign-in failed, once it has.
    pub refusal: Option<Seq<char>>,
}

impl View for LicenseCache {
    type V = CacheView;

    closed spec fn view(&self) -> CacheView {
        CacheView {
            license: match self.license {
                Some(bytes) => Some(bytes@),
                None => None,
            },
            refusal: protocol::opt_string(self.refusal),
        }
    }
}

/// True when a sign-in has run, to whatever end.
pub open spec fn license_settled(cache: CacheView) -> bool {
    cache.license is Some || cache.refusal is Some
}

impl LicenseCache {
    #[verifier::type_invariant]
    spec fn license_fits(&self) -> bool {
        self.license matches Some(bytes) ==> fits_header(bytes@.len())
    }

    pub fn new() -> (cache: LicenseCache)
        ensures
            cache@ == (CacheView { license: None, refusal: None }),
    {
        LicenseCache { license: None, refusal: None }
    }

    fn keep_license(&mut self, bytes: Vec<u8>)
        requires
            fits_header(bytes@.len()),
        ensures
            final(self)@ == (CacheView { license: Some(bytes@), refusal: old(self)@.refusal }),
    {
        self.license = Some(bytes);
    }

    fn keep_refusal(&mut self, message: String)
        ensures
            final(self)@ == (CacheView { license: old(self)@.license, refusal: Some(message@) }),
    {
        proof {
            use_type_invariant(&*self);
        }
        self.refusal = Some(message);
    }

    fn refusal(&self) -> (message: Option<String>)
        ensures
            protocol::opt_string(message) == self@.refusal,
    {
        self.refusal.clone()
    }

    /// The license in base64, ready for the `Authorization` header.
    pub fn license_b64(&self) -> (b64: Option<String>)
        ensures
            protocol::opt_string(b64) == (match self@.license {
                Some(bytes) => Some(codec::base64_text(bytes)),
                None => None,
            }),
    {
        proof {
            use_type_invariant(self);
        }
        match &self.license {
            Some(bytes) => Some(base64_encode(bytes.as_slice())),
            None => None,
        }
    }
}

/// A request for a file.
#[derive(Debug, Clone)]
pub struct HttpGet {
    pub url: String,
    pub headers: Vec<(String, String)>,
}

/// The status of an answer, and its `Last-Modified`.
#[derive(Debug, Clone)]
pub struct HttpHead {
    pub status: u16,
    pub last_modified: Option<String>,
}

/// The headers of the request for `url`: the license goes with it where it is
/// needed, and nowhere else.
pub open spec fn get_headers(
    version: Seq<char>,
    url: Seq<char>,
    license: Option<Seq<u8>>,
    last_modified: Option<Seq<char>>,
) -> Seq<Field> {
    protocol::with_optional(
        protocol::with_optional(
            seq![("User-Agent"@, user_agent_text(version))],
            "Authorization"@,
            if needs_license(url) && license is Some {
                Some("Kyc-License "@ + codec::base64_text(license->0))
            } else {
                None
            },
        ),
        "If-Modified-Since"@,
        last_modified,
    )
}

pub open spec fn field_views(fields: Seq<(String, String)>) -> Seq<Field> {
    Seq::new(fields.len(), |i: int| (fields[i].0@, fields[i].1@))
}

/// How far the answer to a request has come: what the last action was.
pub enum UriState {
    ReadingLicense { url: String },
    SigningIn { url: String },
    SavingLicense { url: String },
    Fetching { url: String },
    Creating { url: String, last_modified: Option<String> },
    ReadingBody { url: String, last_modified: Option<String>, sums: Checksums },
    WritingBody { url: String, last_modified: Option<String>, sums: Checksums },
    Syncing { last_modified: Option<String>, sums: Checksums },
    Renaming { last_modified: Option<String>, sums: Checksums },
    Reporting,
    Finished,
}

/// What the last action led to. Errors are in words.
pub enum UriEvent {
    /// The license store was read.
    License(Result<Option<Vec<u8>>, String>),
    /// The user was asked to sign in; the license that was handed out.
    SignedIn(Result<String, DeviceFlowError>),
    /// The license was written; the path, for display.
    Saved(Result<String, String>),
    /// The file was asked for.
    Response(Result<HttpHead, String>),
    /// More of the body was read; nothing at its end.
    Body(Result<Vec<u8>, String>),
    /// A file was created, written, synced or moved, or apt was told.
    Done(Result<(), String>),
}

/// What is to be done next.
pub enum UriAction {
    ReadLicense,
    SignIn,
    SaveLicense(Vec<u8>),
    Get(HttpGet),
    /// Create this file.
    CreateFile(String),
    ReadBody,
    /// Write these bytes to the file.
    WriteFile(Vec<u8>),
    SyncFile,
    RenameFile { from: String, to: String },
    /// Send apt what there is for it, and say whether that went well.
    Report,
    /// The request is answered.
    Finish,
}

/// The file that a body is received in.
pub open spec fn partial_of(filename: Seq<char>) -> Seq<char> {
    filename + ".partial"@
}

/// True when `state` is one that a request for `acq` can be in: the license is
/// read when it is not known, asked for when no sign-in has run, and known when
/// a URL that needs it is fetched.
pub open spec fn state_fits(acq: AcquireView, cache: CacheView, state: UriState) -> bool {
    match state {
        UriState::ReadingLicense { url } => {
            &&& https_url_of(acq.uri) == Some(url@)
            &&& needs_license(url@)
            &&& cache.license is None
        },
        UriState::SigningIn { url } => {
            &&& https_url_of(acq.uri) == Some(url@)
            &&& needs_license(url@)
            &&& !license_settled(cache)
        },
        UriState::SavingLicense { url } => {
            &&& https_url_of(acq.uri) == Some(url@)
            &&& needs_license(url@)
            &&& cache.license is Some
        },
        UriState::Fetching { url } => {
            &&& https_url_of(acq.uri) == Some(url@)
            &&& needs_license(url@) ==> cache.license is Some
        },
        UriState::Creating { url, .. } => https_url_of(acq.uri) == Some(url@),
        UriState::ReadingBody { url, .. } => https_url_of(acq.uri) == Some(url@),
        UriState::WritingBody { url, .. } => https_url_of(acq.uri) == Some(url@),
        _ => true,
    }
}

/// True when `event` is one that the last action can lead to.
pub open spec fn event_fits(state: UriState, event: UriEvent) -> bool {
    match (state, event) {
        (UriState::ReadingLicense { .. }, UriEvent::License(r)) => r matches Ok(Some(bytes))
            ==> fits_header(bytes@.len()),
        (UriState::SigningIn { .. }, UriEvent::SignedIn(r)) => r matches Ok(pem) ==> fits_header(
            encode_utf8(pem@).len(),
        ),
        (UriState::SavingLicense { .. }, UriEvent::Saved(_)) => true,
        (UriState::Fetching { .. }, UriEvent::Response(r)) => r matches Ok(head) ==> 100
            <= head.status <= 999,
        (UriState::ReadingBody { sums, .. }, UriEvent::Body(r)) => r matches Ok(bytes)
            ==> sums@.len() + bytes@.len() < codec::message_limit(),
        (UriState::Creating { .. }, UriEvent::Done(_)) => true,
        (UriState::WritingBody { .. }, UriEvent::Done(_)) => true,
        (UriState::Syncing { .. }, UriEvent::Done(_)) => true,
        (UriState::Renaming { .. }, UriEvent::Done(_)) => true,
        (UriState::Reporting, UriEvent::Done(_)) => true,
        _ => false,
    }
}

/// Why a file was not fetched, where the server answered with `status`, a
/// status in words.
pub open spec fn refused_text(url: Seq<char>, status: Seq<char>) -> Seq<char> {
    "HTTPS GET "@ + url + " returned HTTP "@ + status
}

/// What a step leads to: the next state and action, the cache, and what apt is
/// told.
pub struct Outcome {
    pub next: UriState,
    pub action: UriAction,
    pub cache: CacheView,
    pub told: Seq<u8>,
}

/// True when the request is answered with a failure.
pub open spec fn fails(acq: AcquireView, cache: CacheView, message: Seq<char>, o: Outcome) -> bool {
    &&& o.next == UriState::Finished
    &&& o.action == UriAction::Finish
    &&& o.cache == cache
    &&& o.told == encode_utf8(failure_block(acq.uri, message))
}

/// True when `url` is asked for.
pub open spec fn fetches(
    acq: AcquireView,
    version: Seq<char>,
    url: Seq<char>,
    cache: CacheView,
    o: Outcome,
) -> bool {
    &&& o.next matches UriState::Fetching { url: u } && u@ == url
    &&& o.action matches UriAction::Get(get) && get.url@ == url && field_views(get.headers@)
        == get_headers(version, url, cache.license, acq.last_modified)
    &&& o.cache == cache
}

/// True when `o` is how a request begins.
pub open spec fn uri_start(
    acq: AcquireView,
    version: Seq<char>,
    cache: CacheView,
    o: Outcome,
) -> bool {
    match https_url_of(acq.uri) {
        None => fails(acq, cache, "uri doesn't start with kyc+https://: "@ + acq.uri, o),
        Some(url) => {
            &&& o.told == encode_utf8(status_block(acq.uri, "Downloading"@))
            &&& o.cache == cache
            &&& if needs_license(url) && cache.license is None {
                &&& o.next matches UriState::ReadingLicense { url: u } && u@ == url
                &&& o.action == UriAction::ReadLicense
            } else {
                fetches(acq, version, url, cache, o)
            }
        },
    }
}

/// True when `event` in `state` leads to `o`.
pub open spec fn uri_step(
    acq: AcquireView,
    version: Seq<char>,
    state: UriState,
    cache: CacheView,
    event: UriEvent,
    o: Outcome,
) -> bool {
    match (state, event) {
        (UriState::ReadingLicense { url }, UriEvent::License(r)) => match r {
            Err(e) => fails(acq, cache, "reading license: "@ + e@, o),
            Ok(Some(bytes)) => {
                &&& fetches(
                    acq,
                    version,
                    url@,
                    CacheView { license: Some(bytes@), refusal: cache.refusal },
                    o,
                )
                &&& o.told == Seq::<u8>::empty()
            },
            Ok(None) => match cache.refusal {
                Some(message) => fails(acq, cache, message, o),
                None => {
                    &&& o.next == UriState::SigningIn { url }
                    &&& o.action == UriAction::SignIn
                    &&& o.cache == cache
                    &&& o.told == encode_utf8(
                        status_block(acq.uri, "License missing \u{2014} starting sign-in..."@),
                    )
                },
            },
        },
        (UriState::SigningIn { url }, UriEvent::SignedIn(r)) => match r {
            Err(e) => {
                let message = device_flow::flow_error_text(e@);
                fails(
                    acq,
                    CacheView { license: cache.license, refusal: Some(message) },
                    message,
                    o,
                )
            },
            Ok(pem) => {
                &&& o.next == UriState::SavingLicense { url }
                &&& o.action matches UriAction::SaveLicense(bytes) && bytes@ == encode_utf8(pem@)
                &&& o.cache == (CacheView {
                    license: Some(encode_utf8(pem@)),
                    refusal: cache.refusal,
                })
                &&& o.told == Seq::<u8>::empty()
            },
        },
        (UriState::SavingLicense { url }, UriEvent::Saved(r)) => match r {
            Err(e) => fails(acq, cache, "writing license: "@ + e@, o),
            Ok(path) => {
                &&& fetches(acq, version, url@, cache, o)
                &&& o.told == encode_utf8(
                    status_block(acq.uri, "Sign-in complete; license at "@ + path@),
                )
            },
        },
        (UriState::Fetching { url }, UriEvent::Response(r)) => match r {
            Err(e) => fails(acq, cache, "HTTPS GET "@ + url@ + ": "@ + e@, o),
            Ok(head) => if device_flow::is_success(head.status) {
                &&& o.next == UriState::Creating { url, last_modified: head.last_modified }
                &&& o.action matches UriAction::CreateFile(path) && path@ == partial_of(
                    acq.filename,
                )
                &&& o.cache == cache
                &&& o.told == Seq::<u8>::empty()
            } else {
                fails(
                    acq,
                    cache,
                    refused_text(url@, codec::status_text(head.status)),
                    o,
                )
            },
        },
        (UriState::Creating { url, last_modified }, UriEvent::Done(r)) => match r {
            Err(e) => fails(acq, cache, "create "@ + partial_of(acq.filename) + ": "@ + e@, o),
            Ok(_) => {
                &&& o.next matches UriState::ReadingBody { url: u, last_modified: lm, sums }
                    && u == url && lm == last_modified && sums@ == Seq::<u8>::empty()
                &&& o.action == UriAction::ReadBody
                &&& o.cache == cache
                &&& o.told == Seq::<u8>::empty()
            },
        },
        (UriState::ReadingBody { url, last_modified, sums }, UriEvent::Body(r)) => match r {
            Err(e) => fails(acq, cache, "read "@ + url@ + ": "@ + e@, o),
            Ok(bytes) => {
                &&& o.cache == cache
                &&& o.told == Seq::<u8>::empty()
                &&& if bytes@.len() == 0 {
                    &&& o.next == UriState::Syncing { last_modified, sums }
                    &&& o.action == UriAction::SyncFile
                } else {
                    &&& o.next matches UriState::WritingBody { url: u, last_modified: lm, sums: s }
                        && u == url && lm == last_modified && s@ == sums@ + bytes@
                    &&& o.action == UriAction::WriteFile(bytes)
                }
            },
        },
        (UriState::WritingBody { url, last_modified, sums }, UriEvent::Done(r)) => match r {
            Err(e) => fails(acq, cache, "write "@ + partial_of(acq.filename) + ": "@ + e@, o),
            Ok(_) => {
                &&& o.next == UriState::ReadingBody { url, last_modified, sums }
                &&& o.action == UriAction::ReadBody
                &&& o.cache == cache
                &&& o.told == Seq::<u8>::empty()
            },
        },
        (UriState::Syncing { last_modified, sums }, UriEvent::Done(r)) => match r {
            Err(e) => fails(acq, cache, "fsync "@ + partial_of(acq.filename) + ": "@ + e@, o),
            Ok(_) => {
                &&& o.next == UriState::Renaming { last_modified, sums }
                &&& o.action matches UriAction::RenameFile { from, to } && from@ == partial_of(
                    acq.filename,
                ) && to@ == acq.filename
                &&& o.cache == cache
                &&& o.told == Seq::<u8>::empty()
            },
        },
        (UriState::Renaming { last_modified, sums }, UriEvent::Done(r)) => match r {
            Err(e) => fails(
                acq,
                cache,
                "rename "@ + partial_of(acq.filename) + " -> "@ + acq.filename + ": "@ + e@,
                o,
            ),
            Ok(_) => {
                &&& o.next == UriState::Reporting
                &&& o.action == UriAction::Report
                &&& o.cache == cache
                &&& o.told == encode_utf8(
                    done_block(acq, sums@, protocol::opt_string(last_modified)),
                )
            },
        },
        (UriState::Reporting, UriEvent::Done(r)) => match r {
            Err(e) => fails(acq, cache, "write URI Done: "@ + e@, o),
            Ok(_) => {
                &&& o.next == UriState::Finished
                &&& o.action == UriAction::Finish
                &&& o.cache == cache
                &&& o.told == Seq::<u8>::empty()
            },
        },
        _ => false,
    }
}

/// `a` and `b`, one behind the other.
fn concat2(a: &str, b: &str) -> (s: String)
    ensures
        s@ == a@ + b@,
{
    let mut s = a.to_owned();
    s.append(b);
    s
}

fn concat4(a: &str, b: &str, c: &str, d: &str) -> (s: String)
    ensures
        s@ == a@ + b@ + c@ + d@,
{
    let mut s = a.to_owned();
    s.append(b);
    s.append(c);
    s.append(d);
    s
}

pub fn refused_message(url: &str, status: &str) -> (message: String)
    ensures
        message@ == refused_text(url@, status@),
{
    concat4("HTTPS GET ", url, " returned HTTP ", status)
}

fn partial_file(acq: &UriAcquire) -> (path: String)
    ensures
        path@ == partial_of(acq@.filename),
{
    concat2(acq.filename.as_str(), ".partial")
}

/// Answers the request with a failure.
fn fail(acq: &UriAcquire, out: &mut Vec<u8>, message: &str) -> (r: (UriState, UriAction))
    ensures
        r.0 == UriState::Finished,
        r.1 == UriAction::Finish,
        final(out)@ == old(out)@ + encode_utf8(failure_block(acq@.uri, message@)),
{
    emit_failure(out, acq.uri.as_str(), message);
    (UriState::Finished, UriAction::Finish)
}

/// Asks for `url`, with the license where it is needed.
fn fetch(acq: &UriAcquire, version: &str, cache: &LicenseCache, url: String) -> (r: (
    UriState,
    UriAction,
))
    ensures
        fetches(
            acq@,
            version@,
            url@,
            cache@,
            (Outcome { next: r.0, action: r.1, cache: cache@, told: Seq::empty() }),
        ),
{
    let mut headers: Vec<(String, String)> = Vec::new();
    headers.push(("User-Agent".to_owned(), user_agent(version)));
    assert(field_views(headers@) =~= seq![("User-Agent"@, user_agent_text(version@))]);
    let ghost agent = field_views(headers@);
    if path_needs_license(url.as_str()) {
        if let Some(b64) = cache.license_b64() {
            headers.push(("Authorization".to_owned(), concat2("Kyc-License ", b64.as_str())));
            assert(field_views(headers@) =~= agent.push(
                (
                    "Authorization"@,
                    "Kyc-License "@ + codec::base64_text(cache@.license->0),
                ),
            ));
        }
    }
    let ghost with_license = field_views(headers@);
    if let Some(last_modified) = &acq.last_modified {
        headers.push(("If-Modified-Since".to_owned(), last_modified.clone()));
        assert(field_views(headers@) =~= with_license.push(
            ("If-Modified-Since"@, acq@.last_modified->0),
        ));
    }
    let get = HttpGet { url: url.clone(), headers };
    (UriState::Fetching { url }, UriAction::Get(get))
}

/// What `after` holds beyond `before`.
pub open spec fn added(before: Seq<u8>, after: Seq<u8>) -> Seq<u8> {
    after.skip(before.len() as int)
}

proof fn lemma_added(before: Seq<u8>)
    ensures
        added(before, before) == Seq::<u8>::empty(),
        forall|more: Seq<u8>| #[trigger] added(before, before + more) == more,
{
    assert(added(before, before) =~= Seq::<u8>::empty());
    assert forall|more: Seq<u8>| #[trigger] added(before, before + more) == more by {
        assert(added(before, before + more) =~= more);
    }
}

impl UriState {
    /// Begins a request: the first action.
    pub fn start(acq: &UriAcquire, version: &str, cache: &LicenseCache, out: &mut Vec<u8>) -> (r: (
        UriState,
        UriAction,
    ))
        ensures
            old(out)@.is_prefix_of(final(out)@),
            uri_start(
                acq@,
                version@,
                cache@,
                (Outcome {
                    next: r.0,
                    action: r.1,
                    cache: cache@,
                    told: added(old(out)@, final(out)@),
                }),
            ),
            state_fits(acq@, cache@, r.0),
    {
        proof {
            lemma_added(out@);
        }
        let url = match https_url(acq.uri.as_str()) {
            Some(url) => url,
            None => {
                let message = concat2("uri doesn't start with kyc+https://: ", acq.uri.as_str());
                return fail(acq, out, message.as_str());
            },
        };
        emit_status(out, acq.uri.as_str(), "Downloading");
        if path_needs_license(url.as_str()) && cache.license.is_none() {
            (UriState::ReadingLicense { url }, UriAction::ReadLicense)
        } else {
            fetch(acq, version, cache, url)
        }
    }

    /// Takes what the last action led to; gives the next action.
    pub fn step(
        self,
        acq: &UriAcquire,
        version: &str,
        cache: &mut LicenseCache,
        out: &mut Vec<u8>,
        event: UriEvent,
    ) -> (r: (UriState, UriAction))
        requires
            state_fits(acq@, old(cache)@, self),
            event_fits(self, event),
        ensures
            old(out)@.is_prefix_of(final(out)@),
            uri_step(
                acq@,
                version@,
                self,
                old(cache)@,
                event,
                (Outcome {
                    next: r.0,
                    action: r.1,
                    cache: final(cache)@,
                    told: added(old(out)@, final(out)@),
                }),
            ),
            state_fits(acq@, final(cache)@, r.0),
    {
        proof {
            lemma_added(out@);
        }
        match (self, event) {
            (UriState::ReadingLicense { url }, UriEvent::License(r)) => match r {
                Err(e) => {
                    let message = concat2("reading license: ", e.as_str());
                    fail(acq, out, message.as_str())
                },
                Ok(Some(bytes)) => {
                    cache.keep_license(bytes);
                    fetch(acq, version, cache, url)
                },
                Ok(None) => match cache.refusal() {
                    Some(message) => fail(acq, out, message.as_str()),
                    None => {
                        emit_status(
                            out,
                            acq.uri.as_str(),
                            "License missing \u{2014} starting sign-in...",
                        );
                        (UriState::SigningIn { url }, UriAction::SignIn)
                    },
                },
            },
            (UriState::SigningIn { url }, UriEvent::SignedIn(r)) => match r {
                Err(e) => {
                    let message = e.message();
                    let next = fail(acq, out, message.as_str());
                    cache.keep_refusal(message);
                    next
                },
                Ok(pem) => {
                    let bytes = slice_to_vec(pem.as_str().as_bytes());
                    cache.keep_license(bytes.clone());
                    (UriState::SavingLicense { url }, UriAction::SaveLicense(bytes))
                },
            },
            (UriState::SavingLicense { url }, UriEvent::Saved(r)) => match r {
                Err(e) => {
                    let message = concat2("writing license: ", e.as_str());
                    fail(acq, out, message.as_str())
                },
                Ok(path) => {
                    let message = concat2("Sign-in complete; license at ", path.as_str());
                    emit_status(out, acq.uri.as_str(), message.as_str());
                    fetch(acq, version, cache, url)
                },
            },
            (UriState::Fetching { url }, UriEvent::Response(r)) => match r {
                Err(e) => {
                    let message = concat4("HTTPS GET ", url.as_str(), ": ", e.as_str());
                    fail(acq, out, message.as_str())
                },
                Ok(head) => if 200 <= head.status && head.status < 300 {
                    let last_modified = head.last_modified;
                    (
                        UriState::Creating { url, last_modified },
                        UriAction::CreateFile(partial_file(acq)),
                    )
                } else {
                    let status = status_string(head.status);
                    let message = refused_message(url.as_str(), status.as_str());
                    fail(acq, out, message.as_str())
                },
            },
            (UriState::Creating { url, last_modified }, UriEvent::Done(r)) => match r {
                Err(e) => {
                    let message = concat4(
                        "create ",
                        partial_file(acq).as_str(),
                        ": ",
                        e.as_str(),
                    );
                    fail(acq, out, message.as_str())
                },
                Ok(_) => (
                    UriState::ReadingBody { url, last_modified, sums: Checksums::new() },
                    UriAction::ReadBody,
                ),
            },
            (UriState::ReadingBody { url, last_modified, sums }, UriEvent::Body(r)) => match r {
                Err(e) => {
                    let message = concat4("read ", url.as_str(), ": ", e.as_str());
                    fail(acq, out, message.as_str())
                },
                Ok(bytes) => if bytes.len() == 0 {
                    (UriState::Syncing { last_modified, sums }, UriAction::SyncFile)
                } else {
                    let sums = sums.update(bytes.as_slice());
                    (
                        UriState::WritingBody { url, last_modified, sums },
                        UriAction::WriteFile(bytes),
                    )
                },
            },
            (UriState::WritingBody { url, last_modified, sums }, UriEvent::Done(r)) => match r {
                Err(e) => {
                    let message = concat4("write ", partial_file(acq).as_str(), ": ", e.as_str());
                    fail(acq, out, message.as_str())
                },
                Ok(_) => (UriState::ReadingBody { url, last_modified, sums }, UriAction::ReadBody),
            },
            (UriState::Syncing { last_modified, sums }, UriEvent::Done(r)) => match r {
                Err(e) => {
                    let message = concat4("fsync ", partial_file(acq).as_str(), ": ", e.as_str());
                    fail(acq, out, message.as_str())
                },
                Ok(_) => (
                    UriState::Renaming { last_modified, sums },
                    UriAction::RenameFile { from: partial_file(acq), to: acq.filename.clone() },
                ),
            },
            (UriState::Renaming { last_modified, sums }, UriEvent::Done(r)) => match r {
                Err(e) => {
                    let head = concat4(
                        "rename ",
                        partial_file(acq).as_str(),
                        " -> ",
                        acq.filename.as_str(),
                    );
                    let tail = concat2(": ", e.as_str());
                    let message = concat2(head.as_str(), tail.as_str());
                    assert(message@ =~= "rename "@ + partial_of(acq@.filename) + " -> "@
                        + acq@.filename + ": "@ + e@);
                    fail(acq, out, message.as_str())
                },
                Ok(_) => {
                    let lm: Option<&str> = match &last_modified {
                        Some(text) => Some(text.as_str()),
                        None => None,
                    };
                    emit_done(out, acq, &sums.finish(), lm);
                    (UriState::Reporting, UriAction::Report)
                },
            },
            (UriState::Reporting, UriEvent::Done(r)) => match r {
                Err(e) => {
                    let message = concat2("write URI Done: ", e.as_str());
                    fail(acq, out, message.as_str())
                },
                Ok(_) => (UriState::Finished, UriAction::Finish),
            },
            // No other event fits.
            _ => (UriState::Finished, UriAction::Finish),
        }
    }
}

/// Why nothing was read from apt.
#[derive(Debug)]
pub enum StreamError {
    /// The input could not be read; the error in words.
    Io(String),
    /// What was read is no request.
    Protocol(ProtocolError),
}

/// True when the next request can be read all the same: a block with a code
/// that the method does not handle was read to its end.
pub open spec fn recoverable(error: StreamError) -> bool {
    error matches StreamError::Protocol(ProtocolError::UnknownCode(_))
}

pub open spec fn stream_error_text(error: StreamError) -> Seq<char> {
    "apt-transport-kyc: protocol error: "@ + (match error {
        StreamError::Io(words) => words@,
        StreamError::Protocol(e) => protocol::error_text(e@),
    })
}

/// What the method does with what it read from apt.
pub enum SessionAction {
    /// Leave the process with this code, and these words on standard error.
    Exit { code: u8, message: Option<String> },
    /// Write these words on standard error, and read the next request.
    Log(String),
    /// Read the next request.
    NextRequest,
    /// Answer this request, then read the next.
    Handle(UriAcquire),
}

/// True when what was read leads to `action`.
pub open spec fn session_leads_to(
    input: Result<Option<AptRequest>, StreamError>,
    action: SessionAction,
) -> bool {
    match input {
        Err(e) => if recoverable(e) {
            action matches SessionAction::Log(message) && message@ == stream_error_text(e)
        } else {
            action matches SessionAction::Exit { code: 1, message: Some(message) } && message@
                == stream_error_text(e)
        },
        Ok(None) => action == (SessionAction::Exit { code: 0, message: None }),
        Ok(Some(AptRequest::Configuration { .. })) => action == SessionAction::NextRequest,
        Ok(Some(AptRequest::UriAcquire(acq))) => action == SessionAction::Handle(acq),
    }
}

/// Decides on what was read: a request, the end of the input, or an error. A
/// message with an unknown code is logged and passed over; after any other
/// error the stream is not read on. A failed request is no error here.
pub fn session_step(input: Result<Option<AptRequest>, StreamError>) -> (action: SessionAction)
    ensures
        session_leads_to(input, action),
{
    match input {
        Err(e) => {
            let goes_on = matches!(e, StreamError::Protocol(ProtocolError::UnknownCode(_)));
            let words = match e {
                StreamError::Io(words) => words,
                StreamError::Protocol(e) => e.message(),
            };
            let message = concat2("apt-transport-kyc: protocol error: ", words.as_str());
            if goes_on {
                SessionAction::Log(message)
            } else {
                SessionAction::Exit { code: 1, message: Some(message) }
            }
        },
        Ok(None) => SessionAction::Exit { code: 0, message: None },
        Ok(Some(AptRequest::Configuration { .. })) => SessionAction::NextRequest,
        Ok(Some(AptRequest::UriAcquire(acq))) => SessionAction::Handle(acq),
    }
}

} // verus!
