//! The client side of the OAuth 2.0 device authorization grant (RFC 8628),
//! against a license worker. Two kinds of request are posted:
//!
//!   1. `/device` gives a device code, a user code and a verification URI,
//!      which the user is shown;
//!   2. `/token` is polled until the worker hands out the license or refuses.
//!
//! The flow is a state machine, [`FlowState`]: each step takes what the last
//! action led to, and gives the next action. Posting, sleeping and reading the
//! clock are the caller's part.

use vstd::prelude::*;
use vstd::utf8::*;

use crate::codec;
use crate::codec::status_string;
use crate::text;
use crate::text::{from_chars, same_text, to_chars, trim_end_of};

verus! {

/// How the caller wants output for the user handled. `S` is the caller's sink
/// for status lines.
pub enum UserIo<S> {
    /// An interactive command line: the URL and the code go to standard
    /// error. On a terminal the user is asked to press Enter.
    Cli {
        /// Whether Enter opens the URL in a browser.
        enable_browser: bool,
    },
    /// A method of apt, or another caller that speaks a protocol on standard
    /// output: no input is read, and no browser is opened.
    AptMethod {
        /// Where status lines go, besides standard error.
        status_sink: Option<S>,
    },
}

/// Settings for one run of the flow.
pub struct DeviceFlowConfig<S> {
    /// Origin of the worker.
    pub worker_origin: String,
    /// The `ref` parameter posted to `/device`.
    pub referral_tag: String,
    /// The time that the user has to sign in, in nanoseconds, from when they
    /// are told where. When it is over no poll is started.
    pub timeout_nanos: u128,
    /// The user agent of each request.
    pub user_agent: String,
    /// How output for the user is handled.
    pub user_io: UserIo<S>,
}

/// True when `config` has the default settings, beside those that the caller
/// gives.
pub open spec fn is_default<S>(
    config: DeviceFlowConfig<S>,
    user_agent: String,
    user_io: UserIo<S>,
) -> bool {
    &&& config.worker_origin@ == "https://id.knowyourco.de"@
    &&& config.referral_tag@ == "closed-beta"@
    &&& config.timeout_nanos == 14 * 60 * 1_000_000_000
    &&& config.user_agent == user_agent
    &&& config.user_io == user_io
}

impl<S> DeviceFlowConfig<S> {
    /// The public worker, a budget of 14 minutes, and the `closed-beta` tag.
    pub fn defaults(user_agent: String, user_io: UserIo<S>) -> (config: DeviceFlowConfig<S>)
        ensures
            is_default(config, user_agent, user_io),
    {
        DeviceFlowConfig {
            worker_origin: "https://id.knowyourco.de".to_owned(),
            referral_tag: "closed-beta".to_owned(),
            timeout_nanos: 840_000_000_000,
            user_agent,
            user_io,
        }
    }
}

/// Why the flow ended without a license.
#[derive(Debug, Clone)]
pub enum DeviceFlowError {
    /// A request failed, or its answer was not what it should be.
    Http(String),
    /// The time ran out before the user had signed in.
    Timeout,
    /// The worker reported that the device code has expired.
    Expired,
    /// The worker refused; its words.
    Worker(String),
}

/// What a [`DeviceFlowError`] says.
pub enum FlowErrorView {
    Http(Seq<char>),
    Timeout,
    Expired,
    Worker(Seq<char>),
}

impl View for DeviceFlowError {
    type V = FlowErrorView;

    open spec fn view(&self) -> FlowErrorView {
        match self {
            DeviceFlowError::Http(message) => FlowErrorView::Http(message@),
            DeviceFlowError::Timeout => FlowErrorView::Timeout,
            DeviceFlowError::Expired => FlowErrorView::Expired,
            DeviceFlowError::Worker(message) => FlowErrorView::Worker(message@),
        }
    }
}

pub open spec fn flow_error_text(error: FlowErrorView) -> Seq<char> {
    match error {
        FlowErrorView::Http(message) => message,
        FlowErrorView::Timeout => "timed out waiting for sign-in"@,
        FlowErrorView::Expired => "sign-in code expired before you finished. Re-run sign-in."@,
        FlowErrorView::Worker(message) => message,
    }
}

impl DeviceFlowError {
    /// The error in words.
    pub fn message(&self) -> (text: String)
        ensures
            text@ == flow_error_text(self@),
    {
        match self {
            DeviceFlowError::Http(message) => message.clone(),
            DeviceFlowError::Timeout => "timed out waiting for sign-in".to_owned(),
            DeviceFlowError::Expired =>
                "sign-in code expired before you finished. Re-run sign-in.".to_owned(),
            DeviceFlowError::Worker(message) => message.clone(),
        }
    }
}

/// The answer to `/device`.
#[derive(Debug, Clone)]
pub struct DeviceResp {
    pub device_code: String,
    pub user_code: String,
    pub verification_uri: String,
    /// Seconds between polls; [`default_interval`] where the worker gives
    /// none.
    pub interval: u64,
}

/// The answer to `/token`.
#[derive(Debug, Clone)]
pub struct TokenResp {
    pub license: Option<String>,
    pub error: Option<String>,
    pub detail: Option<String>,
}

pub fn default_interval() -> (seconds: u64)
    ensures
        seconds == 5,
{
    5
}

/// The last place at or before byte `max` of `bytes` where a character ends.
pub open spec fn cut_at(bytes: Seq<u8>, max: nat) -> nat
    decreases max,
{
    if max == 0 || is_char_boundary(bytes, max as int) {
        max
    } else {
        cut_at(bytes, (max - 1) as nat)
    }
}

/// `s`, cut where a character ends so that at most `max` bytes of it are left,
/// and marked where there are more.
pub open spec fn truncated(s: Seq<char>, max: nat) -> Seq<char> {
    let bytes = encode_utf8(s);
    if bytes.len() <= max {
        s
    } else {
        decode_utf8(bytes.take(cut_at(bytes, max) as int)).push('\u{2026}')
    }
}

pub fn truncate(s: &str, max: usize) -> (r: String)
    ensures
        r@ == truncated(s@, max as nat),
{
    let bytes = s.as_bytes();
    if bytes.len() <= max {
        s.to_owned()
    } else {
        let mut cut: usize = max;
        while cut > 0 && !s.is_char_boundary(cut)
            invariant
                cut <= max,
                cut_at(encode_utf8(s@), cut as nat) == cut_at(encode_utf8(s@), max as nat),
            decreases cut,
        {
            cut -= 1;
        }
        proof {
            encode_utf8_valid_utf8(s@);
        }
        let (head, _) = s.split_at(cut);
        proof {
            encode_utf8_decode_utf8(head@);
        }
        let mut r = head.to_owned();
        r.push('\u{2026}');
        r
    }
}

/// Where `path` stands at `origin`.
pub open spec fn endpoint_at(origin: Seq<char>, path: Seq<char>) -> Seq<char> {
    text::without_trailing(origin, '/') + path
}

pub fn endpoint(origin: &str, path: &str) -> (url: String)
    ensures
        url@ == endpoint_at(origin@, path@),
{
    let chars = to_chars(origin);
    let mut url = from_chars(trim_end_of(chars.as_slice(), '/'));
    url.append(path);
    url
}

/// A form to be posted.
#[derive(Debug, Clone)]
pub struct FormPost {
    pub url: String,
    pub fields: Vec<(String, String)>,
}

/// True when `post` sends `fields` to `url`.
pub open spec fn posts(post: FormPost, url: Seq<char>, fields: Seq<(Seq<char>, Seq<char>)>) -> bool {
    &&& post.url@ == url
    &&& post.fields@.len() == fields.len()
    &&& forall|i: int|
        0 <= i < fields.len() ==> (#[trigger] post.fields@[i]).0@ == fields[i].0
            && post.fields@[i].1@ == fields[i].1
}

pub open spec fn device_fields(referral_tag: Seq<char>) -> Seq<(Seq<char>, Seq<char>)> {
    seq![("ref"@, referral_tag)]
}

pub open spec fn token_fields(device_code: Seq<char>) -> Seq<(Seq<char>, Seq<char>)> {
    seq![("grant_type"@, "urn:ietf:params:oauth:grant-type:device_code"@)].push(
        ("device_code"@, device_code),
    )
}

/// The request that asks for a device code.
pub fn device_request(worker_origin: &str, referral_tag: &str) -> (post: FormPost)
    ensures
        posts(post, endpoint_at(worker_origin@, "/device"@), device_fields(referral_tag@)),
{
    let mut fields: Vec<(String, String)> = Vec::new();
    fields.push(("ref".to_owned(), referral_tag.to_owned()));
    FormPost { url: endpoint(worker_origin, "/device"), fields }
}

/// The request that asks for the license.
pub fn token_request(worker_origin: &str, device_code: &str) -> (post: FormPost)
    ensures
        posts(post, endpoint_at(worker_origin@, "/token"@), token_fields(device_code@)),
{
    let mut fields: Vec<(String, String)> = Vec::new();
    fields.push(
        (
            "grant_type".to_owned(),
            "urn:ietf:params:oauth:grant-type:device_code".to_owned(),
        ),
    );
    fields.push(("device_code".to_owned(), device_code.to_owned()));
    FormPost { url: endpoint(worker_origin, "/token"), fields }
}

/// What came of a posted form.
#[derive(Debug)]
pub enum Reply<T> {
    /// No answer; the error in words.
    Failed(String),
    /// An answer whose status rules out that it is what was asked for, with
    /// its text.
    Refused { status: u16, body: String },
    /// An answer, read as what was asked for; the error in words where it
    /// could not be read so.
    Body(Result<T, String>),
}

pub open spec fn is_success(status: u16) -> bool {
    200 <= status <= 299
}

pub open spec fn is_client_error(status: u16) -> bool {
    400 <= status <= 499
}

/// Whether an answer of `/device` with this status is read as a
/// [`DeviceResp`].
pub fn device_status_ok(status: u16) -> (b: bool)
    ensures
        b == is_success(status),
{
    200 <= status && status <= 299
}

/// Whether an answer of `/token` with this status is read as a [`TokenResp`].
/// A worker that waits for the user says so with a status of the 400s.
pub fn token_status_ok(status: u16) -> (b: bool)
    ensures
        b == (is_success(status) || is_client_error(status)),
{
    (200 <= status && status <= 299) || (400 <= status && status <= 499)
}

/// The bytes of a refusal that an error message quotes.
pub open spec fn quoted_bytes() -> nat {
    200
}

/// What a refusal means: `status`, a status in words, and the start of its
/// text.
pub open spec fn refused_text(url: Seq<char>, status: Seq<char>, body: Seq<char>) -> Seq<char> {
    "POST "@ + url + " returned HTTP "@ + status + ": "@ + truncated(body, quoted_bytes())
}

pub fn refused_message(url: &str, status: &str, body: &str) -> (message: String)
    ensures
        message@ == refused_text(url@, status@, body@),
{
    let mut message = "POST ".to_owned();
    message.append(url);
    message.append(" returned HTTP ");
    message.append(status);
    message.append(": ");
    message.append(truncate(body, 200).as_str());
    message
}

/// What is wrong with a reply, in words; `None` where nothing is.
pub open spec fn reply_error<T>(url: Seq<char>, reply: Reply<T>) -> Option<Seq<char>> {
    match reply {
        Reply::Failed(error) => Some("POST "@ + url + ": "@ + error@),
        Reply::Refused { status, body } => Some(
            refused_text(url, codec::status_text(status), body@),
        ),
        Reply::Body(Err(error)) => Some("POST "@ + url + " returned non-JSON: "@ + error@),
        Reply::Body(Ok(_)) => None,
    }
}

/// A reply whose status is a status.
pub open spec fn reply_ok<T>(reply: Reply<T>) -> bool {
    match reply {
        Reply::Refused { status, .. } => 100 <= status <= 999,
        _ => true,
    }
}

/// Takes the value out of a reply.
fn reply_value<T>(url: &str, reply: Reply<T>) -> (r: Result<T, DeviceFlowError>)
    requires
        reply_ok(reply),
    ensures
        match reply_error(url@, reply) {
            Some(message) => r matches Err(e) && e@ == FlowErrorView::Http(message),
            None => reply == Reply::Body(Ok::<T, String>(r->Ok_0)) && r is Ok,
        },
{
    let mut message = "POST ".to_owned();
    message.append(url);
    match reply {
        Reply::Body(Ok(value)) => {
            return Ok(value);
        },
        Reply::Failed(error) => {
            message.append(": ");
            message.append(error.as_str());
        },
        Reply::Refused { status, body } => {
            message = refused_message(url, status_string(status).as_str(), body.as_str());
        },
        Reply::Body(Err(error)) => {
            message.append(" returned non-JSON: ");
            message.append(error.as_str());
        },
    }
    Err(DeviceFlowError::Http(message))
}

/// What came of a request to `/device`.
pub fn post_device(worker_origin: &str, reply: Reply<DeviceResp>) -> (r: Result<
    DeviceResp,
    DeviceFlowError,
>)
    requires
        reply_ok(reply),
    ensures
        match reply_error(endpoint_at(worker_origin@, "/device"@), reply) {
            Some(message) => r matches Err(e) && e@ == FlowErrorView::Http(message),
            None => r is Ok && reply == Reply::Body(Ok::<DeviceResp, String>(r->Ok_0)),
        },
{
    reply_value(endpoint(worker_origin, "/device").as_str(), reply)
}

/// What came of a request to `/token`.
pub fn post_token(worker_origin: &str, reply: Reply<TokenResp>) -> (r: Result<
    TokenResp,
    DeviceFlowError,
>)
    requires
        reply_ok(reply),
    ensures
        match reply_error(endpoint_at(worker_origin@, "/token"@), reply) {
            Some(message) => r matches Err(e) && e@ == FlowErrorView::Http(message),
            None => r is Ok && reply == Reply::Body(Ok::<TokenResp, String>(r->Ok_0)),
        },
{
    reply_value(endpoint(worker_origin, "/token").as_str(), reply)
}

/// What one answer of `/token` means for the flow.
#[derive(Debug)]
pub enum PollOutcome {
    /// The user has not finished: poll again.
    Pending,
    /// The flow is over.
    Done(Result<String, DeviceFlowError>),
}

/// True when `outcome` is what `resp` means: a license ends the flow whatever
/// else is there, `authorization_pending` lets it go on, and any other answer
/// ends it with an error.
pub open spec fn outcome_of(resp: TokenResp, outcome: PollOutcome) -> bool {
    match (resp.license, resp.error) {
        (Some(license), _) => outcome == PollOutcome::Done(Ok(license)),
        (None, Some(error)) => if error@ == "authorization_pending"@ {
            outcome == PollOutcome::Pending
        } else if error@ == "expired_token"@ {
            outcome == PollOutcome::Done(Err(DeviceFlowError::Expired))
        } else {
            outcome matches PollOutcome::Done(Err(DeviceFlowError::Worker(message))) && message@
                == (match resp.detail {
                Some(detail) => detail@,
                None => error@,
            })
        },
        (None, None) => outcome matches PollOutcome::Done(Err(DeviceFlowError::Worker(message)))
            && message@ == "/token returned neither a license nor an error"@,
    }
}

pub fn poll_outcome(resp: TokenResp) -> (outcome: PollOutcome)
    ensures
        outcome_of(resp, outcome),
{
    if let Some(license) = resp.license {
        return PollOutcome::Done(Ok(license));
    }
    match resp.error {
        Some(error) => {
            if same_text(error.as_str(), "authorization_pending") {
                PollOutcome::Pending
            } else if same_text(error.as_str(), "expired_token") {
                PollOutcome::Done(Err(DeviceFlowError::Expired))
            } else {
                match resp.detail {
                    Some(detail) => PollOutcome::Done(Err(DeviceFlowError::Worker(detail))),
                    None => PollOutcome::Done(Err(DeviceFlowError::Worker(error))),
                }
            }
        },
        None => PollOutcome::Done(
            Err(
                DeviceFlowError::Worker(
                    "/token returned neither a license nor an error".to_owned(),
                ),
            ),
        ),
    }
}

/// What the user is told.
#[derive(Debug, Clone)]
pub struct Announcement {
    /// Text for standard error.
    pub stderr: String,
    /// The URL to open in a browser once the user presses Enter.
    pub open_on_enter: Option<String>,
    /// A line for the status sink.
    pub status: Option<String>,
}

/// Where to sign in, and with which code.
pub open spec fn sign_in_text(verification_uri: Seq<char>, user_code: Seq<char>) -> Seq<char> {
    "\nSign in to install:\n\n    Open this URL in a browser:\n        "@ + verification_uri
        + "\n\n    Then enter this code on that page:\n        "@ + user_code + "\n\n"@
}

pub open spec fn enter_text() -> Seq<char> {
    "Press Enter to open the URL in your browser (or open it yourself).\n"@
}

pub open spec fn status_line(verification_uri: Seq<char>, user_code: Seq<char>) -> Seq<char> {
    "Visit "@ + verification_uri + " and enter code "@ + user_code
}

/// True when `a` is what the user is told of `device`.
pub open spec fn announces<S>(
    a: Announcement,
    device: DeviceResp,
    io: UserIo<S>,
    stdin_is_terminal: bool,
) -> bool {
    let told = sign_in_text(device.verification_uri@, device.user_code@);
    match io {
        UserIo::Cli { enable_browser } => {
            &&& a.stderr@ == (if stdin_is_terminal {
                told + enter_text()
            } else {
                told
            })
            &&& a.status is None
            &&& if stdin_is_terminal && enable_browser {
                a.open_on_enter matches Some(url) && url@ == device.verification_uri@
            } else {
                a.open_on_enter is None
            }
        },
        UserIo::AptMethod { status_sink } => {
            &&& a.stderr@ == told
            &&& a.open_on_enter is None
            &&& if status_sink is Some {
                a.status matches Some(line) && line@ == status_line(
                    device.verification_uri@,
                    device.user_code@,
                )
            } else {
                a.status is None
            }
        },
    }
}

/// What the user is told of `device`, as the caller's output allows it.
pub fn announce_to_user<S>(device: &DeviceResp, io: &UserIo<S>, stdin_is_terminal: bool) -> (a:
    Announcement)
    ensures
        announces(a, *device, *io, stdin_is_terminal),
{
    let mut stderr =
        "\nSign in to install:\n\n    Open this URL in a browser:\n        ".to_owned();
    stderr.append(device.verification_uri.as_str());
    stderr.append("\n\n    Then enter this code on that page:\n        ");
    stderr.append(device.user_code.as_str());
    stderr.append("\n\n");
    match io {
        UserIo::Cli { enable_browser } => {
            let mut open_on_enter: Option<String> = None;
            if stdin_is_terminal {
                stderr.append(
                    "Press Enter to open the URL in your browser (or open it yourself).\n",
                );
                if *enable_browser {
                    open_on_enter = Some(device.verification_uri.clone());
                }
            }
            Announcement { stderr, open_on_enter, status: None }
        },
        UserIo::AptMethod { status_sink } => {
            let mut status: Option<String> = None;
            if status_sink.is_some() {
                let mut line = "Visit ".to_owned();
                line.append(device.verification_uri.as_str());
                line.append(" and enter code ");
                line.append(device.user_code.as_str());
                status = Some(line);
            }
            Announcement { stderr, open_on_enter: None, status }
        },
    }
}

/// How far the flow has come: what its last action was.
#[derive(Debug)]
pub enum FlowState {
    AwaitingDevice,
    Announcing { device: DeviceResp },
    ReadingClock { device: DeviceResp },
    Sleeping { device: DeviceResp },
    /// The clock is read again, after the sleep.
    Woken { device: DeviceResp },
    AwaitingToken { device: DeviceResp },
    Finished,
}

/// What the last action led to.
#[derive(Debug)]
pub enum FlowEvent {
    /// `/device` was posted to.
    Device(Reply<DeviceResp>),
    /// The user was told where to sign in.
    Announced,
    /// The clock was read: nanoseconds since the user was told.
    Clock(u128),
    /// The sleep is over.
    Slept,
    /// `/token` was posted to.
    Token(Reply<TokenResp>),
}

/// What is to be done next.
#[derive(Debug)]
pub enum FlowAction {
    PostDevice(FormPost),
    Announce(Announcement),
    ReadClock,
    /// Sleep for so many nanoseconds.
    Sleep(u128),
    PostToken(FormPost),
    /// The flow is over: the license, or why there is none.
    Finish(Result<String, DeviceFlowError>),
}

/// The seconds between two polls: what the worker asks for, but at least one.
pub open spec fn poll_seconds(interval: u64) -> u64 {
    if interval < 1 {
        1
    } else {
        interval
    }
}

/// How long the flow sleeps before a poll, in nanoseconds: for the interval,
/// but no longer than the time that is left.
pub open spec fn sleep_nanos(interval: u64, left: int) -> int {
    let full = poll_seconds(interval) * 1_000_000_000;
    if full <= left {
        full
    } else {
        left
    }
}

/// True when `event` is one that the last action can lead to.
pub open spec fn event_fits(state: FlowState, event: FlowEvent) -> bool {
    match (state, event) {
        (FlowState::AwaitingDevice, FlowEvent::Device(reply)) => reply_ok(reply),
        (FlowState::Announcing { .. }, FlowEvent::Announced) => true,
        (FlowState::ReadingClock { .. }, FlowEvent::Clock(_)) => true,
        (FlowState::Sleeping { .. }, FlowEvent::Slept) => true,
        (FlowState::Woken { .. }, FlowEvent::Clock(_)) => true,
        (FlowState::AwaitingToken { .. }, FlowEvent::Token(reply)) => reply_ok(reply),
        _ => false,
    }
}

/// True when the flow is over with an error that says `error`.
pub open spec fn ends_with_error(next: FlowState, action: FlowAction, error: FlowErrorView) -> bool {
    &&& next == FlowState::Finished
    &&& action matches FlowAction::Finish(Err(e)) && e@ == error
}

/// True when the flow begins with `next` and `action`.
pub open spec fn flow_start<S>(
    config: DeviceFlowConfig<S>,
    next: FlowState,
    action: FlowAction,
) -> bool {
    &&& next == FlowState::AwaitingDevice
    &&& action matches FlowAction::PostDevice(post) && posts(
        post,
        endpoint_at(config.worker_origin@, "/device"@),
        device_fields(config.referral_tag@),
    )
}

/// True when `event` in `state` leads to `next` and `action`.
pub open spec fn flow_step<S>(
    config: DeviceFlowConfig<S>,
    stdin_is_terminal: bool,
    state: FlowState,
    event: FlowEvent,
    next: FlowState,
    action: FlowAction,
) -> bool {
    match (state, event) {
        (FlowState::AwaitingDevice, FlowEvent::Device(reply)) => {
            match (
                reply_error(endpoint_at(config.worker_origin@, "/device"@), reply),
                reply,
            ) {
                (Some(message), _) => ends_with_error(next, action, FlowErrorView::Http(message)),
                (None, Reply::Body(Ok(device))) => {
                    &&& next == FlowState::Announcing { device }
                    &&& action matches FlowAction::Announce(a) && announces(
                        a,
                        device,
                        config.user_io,
                        stdin_is_terminal,
                    )
                },
                _ => false,
            }
        },
        (FlowState::Announcing { device }, FlowEvent::Announced) => {
            next == FlowState::ReadingClock { device } && action == FlowAction::ReadClock
        },
        (FlowState::ReadingClock { device }, FlowEvent::Clock(elapsed)) => {
            if elapsed >= config.timeout_nanos {
                ends_with_error(next, action, FlowErrorView::Timeout)
            } else {
                &&& next == FlowState::Sleeping { device }
                &&& action matches FlowAction::Sleep(nanos) && nanos == sleep_nanos(
                    device.interval,
                    config.timeout_nanos - elapsed,
                )
            }
        },
        (FlowState::Sleeping { device }, FlowEvent::Slept) => {
            next == FlowState::Woken { device } && action == FlowAction::ReadClock
        },
        (FlowState::Woken { device }, FlowEvent::Clock(elapsed)) => {
            if elapsed >= config.timeout_nanos {
                ends_with_error(next, action, FlowErrorView::Timeout)
            } else {
                &&& next == FlowState::AwaitingToken { device }
                &&& action matches FlowAction::PostToken(post) && posts(
                    post,
                    endpoint_at(config.worker_origin@, "/token"@),
                    token_fields(device.device_code@),
                )
            }
        },
        (FlowState::AwaitingToken { device }, FlowEvent::Token(reply)) => {
            match (
                reply_error(endpoint_at(config.worker_origin@, "/token"@), reply),
                reply,
            ) {
                (Some(message), _) => ends_with_error(next, action, FlowErrorView::Http(message)),
                (None, Reply::Body(Ok(resp))) => match action {
                    FlowAction::Finish(r) => {
                        &&& outcome_of(resp, PollOutcome::Done(r))
                        &&& next == FlowState::Finished
                    },
                    _ => {
                        &&& outcome_of(resp, PollOutcome::Pending)
                        &&& next == FlowState::ReadingClock { device }
                        &&& action == FlowAction::ReadClock
                    },
                },
                _ => false,
            }
        },
        _ => false,
    }
}

fn sleep_time(interval: u64, left: u128) -> (nanos: u128)
    ensures
        nanos == sleep_nanos(interval, left as int),
{
    let seconds: u64 = if interval < 1 {
        1
    } else {
        interval
    };
    let full: u128 = seconds as u128 * 1_000_000_000;
    if full <= left {
        full
    } else {
        left
    }
}

impl FlowState {
    /// The first action: ask for a device code.
    pub fn start<S>(config: &DeviceFlowConfig<S>) -> (r: (FlowState, FlowAction))
        ensures
            flow_start(*config, r.0, r.1),
    {
        let post = device_request(config.worker_origin.as_str(), config.referral_tag.as_str());
        (FlowState::AwaitingDevice, FlowAction::PostDevice(post))
    }

    /// Takes what the last action led to; gives the next action.
    pub fn step<S>(
        self,
        config: &DeviceFlowConfig<S>,
        stdin_is_terminal: bool,
        event: FlowEvent,
    ) -> (r: (FlowState, FlowAction))
        requires
            event_fits(self, event),
        ensures
            flow_step(*config, stdin_is_terminal, self, event, r.0, r.1),
    {
        match (self, event) {
            (FlowState::AwaitingDevice, FlowEvent::Device(reply)) => {
                match post_device(config.worker_origin.as_str(), reply) {
                    Ok(device) => {
                        let a = announce_to_user(&device, &config.user_io, stdin_is_terminal);
                        (FlowState::Announcing { device }, FlowAction::Announce(a))
                    },
                    Err(e) => (FlowState::Finished, FlowAction::Finish(Err(e))),
                }
            },
            (FlowState::Announcing { device }, FlowEvent::Announced) => {
                (FlowState::ReadingClock { device }, FlowAction::ReadClock)
            },
            (FlowState::ReadingClock { device }, FlowEvent::Clock(elapsed)) => {
                if elapsed >= config.timeout_nanos {
                    (FlowState::Finished, FlowAction::Finish(Err(DeviceFlowError::Timeout)))
                } else {
                    let nanos = sleep_time(device.interval, config.timeout_nanos - elapsed);
                    (FlowState::Sleeping { device }, FlowAction::Sleep(nanos))
                }
            },
            (FlowState::Sleeping { device }, FlowEvent::Slept) => {
                (FlowState::Woken { device }, FlowAction::ReadClock)
            },
            (FlowState::Woken { device }, FlowEvent::Clock(elapsed)) => {
                if elapsed >= config.timeout_nanos {
                    (FlowState::Finished, FlowAction::Finish(Err(DeviceFlowError::Timeout)))
                } else {
                    let post = token_request(
                        config.worker_origin.as_str(),
                        device.device_code.as_str(),
                    );
                    (FlowState::AwaitingToken { device }, FlowAction::PostToken(post))
                }
            },
            (FlowState::AwaitingToken { device }, FlowEvent::Token(reply)) => {
                match post_token(config.worker_origin.as_str(), reply) {
                    Ok(resp) => match poll_outcome(resp) {
                        PollOutcome::Pending => {
                            (FlowState::ReadingClock { device }, FlowAction::ReadClock)
                        },
                        PollOutcome::Done(r) => (FlowState::Finished, FlowAction::Finish(r)),
                    },
                    Err(e) => (FlowState::Finished, FlowAction::Finish(Err(e))),
                }
            },
            // No other event fits.
            (state, _) => (state, FlowAction::ReadClock),
        }
    }
}

} // verus!
