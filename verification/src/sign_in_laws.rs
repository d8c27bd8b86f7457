//! The sign-in as the worker and the user see it: what is posted, what is told,
//! and what each answer leads to, over whole runs.

use vstd::prelude::*;

use crate::codec;
use crate::device_flow;
use crate::device_flow::{
    Announcement, DeviceFlowConfig, DeviceFlowError, DeviceResp, FlowAction, FlowErrorView,
    FlowEvent, FlowState, FormPost, PollOutcome, Reply, TokenResp, UserIo,
};
use crate::device_flow_laws;
use crate::device_flow_laws::Moment;
use crate::text_laws;

verus! {

/// A run of `n` slashes.
pub open spec fn slashes(n: nat) -> Seq<char> {
    Seq::new(n, |i: int| '/')
}

/// True when `base` is `origin` without the slashes at its end.
pub open spec fn is_base(origin: Seq<char>, base: Seq<char>) -> bool {
    &&& base.len() > 0 ==> base.last() != '/'
    &&& base.len() <= origin.len()
    &&& origin == base + slashes((origin.len() - base.len()) as nat)
}

/// A path is asked for at the origin, however many slashes that ends with.
pub proof fn law_endpoint(origin: Seq<char>, base: Seq<char>, path: Seq<char>)
    requires
        is_base(origin, base),
    ensures
        device_flow::endpoint_at(origin, path) == base + path,
{
    let n = (origin.len() - base.len()) as nat;
    text_laws::law_without_trailing(base, '/', n);
    assert(slashes(n) =~= Seq::new(n, |i: int| '/'));
}

/// True when `post` sends one field.
pub open spec fn sends_one(post: FormPost, name: Seq<char>, value: Seq<char>) -> bool {
    &&& post.fields@.len() == 1
    &&& post.fields@[0].0@ == name
    &&& post.fields@[0].1@ == value
}

/// True when `post` asks for the license of a device.
pub open spec fn sends_device_code(post: FormPost, device_code: Seq<char>) -> bool {
    &&& post.fields@.len() == 2
    &&& post.fields@[0].0@ == "grant_type"@
    &&& post.fields@[0].1@ == "urn:ietf:params:oauth:grant-type:device_code"@
    &&& post.fields@[1].0@ == "device_code"@
    &&& post.fields@[1].1@ == device_code
}

/// What the two forms send, and where to.
pub proof fn law_forms(post: FormPost, url: Seq<char>, tag: Seq<char>, code: Seq<char>)
    ensures
        device_flow::posts(post, url, device_flow::device_fields(tag)) <==> post.url@ == url
            && sends_one(post, "ref"@, tag),
        device_flow::posts(post, url, device_flow::token_fields(code)) <==> post.url@ == url
            && sends_device_code(post, code),
{
    let device = device_flow::device_fields(tag);
    assert(device.len() == 1 && device[0] == ("ref"@, tag));
    let token = device_flow::token_fields(code);
    assert(token.len() == 2 && token[1] == ("device_code"@, code));
    assert(token[0] == ("grant_type"@, "urn:ietf:params:oauth:grant-type:device_code"@));
    if post.fields@.len() == 1 && sends_one(post, "ref"@, tag) {
        assert forall|i: int| 0 <= i < device.len() implies (#[trigger] post.fields@[i]).0@
            == device[i].0 && post.fields@[i].1@ == device[i].1 by {
            assert(i == 0);
        }
    }
    if sends_device_code(post, code) {
        assert forall|i: int| 0 <= i < token.len() implies (#[trigger] post.fields@[i]).0@
            == token[i].0 && post.fields@[i].1@ == token[i].1 by {
            assert(i == 0 || i == 1);
        }
    }
}

/// The flow begins by asking the worker for a device code, with the tag that the
/// caller gave.
pub proof fn law_device_is_asked_for<S>(
    config: DeviceFlowConfig<S>,
    stdin_is_terminal: bool,
    run: Seq<Moment>,
    events: Seq<FlowEvent>,
    base: Seq<char>,
)
    requires
        device_flow_laws::is_run(config, stdin_is_terminal, run, events),
        is_base(config.worker_origin@, base),
    ensures
        run[0].action matches FlowAction::PostDevice(post) && post.url@ == base + "/device"@
            && sends_one(post, "ref"@, config.referral_tag@),
{
    law_endpoint(config.worker_origin@, base, "/device"@);
    if let FlowAction::PostDevice(post) = run[0].action {
        law_forms(post, base + "/device"@, config.referral_tag@, Seq::empty());
    }
}

/// Every poll of a run asks for the license of the device that the worker named
/// in that run, by the device code and nothing else.
pub proof fn law_polls_name_the_device<S>(
    config: DeviceFlowConfig<S>,
    stdin_is_terminal: bool,
    run: Seq<Moment>,
    events: Seq<FlowEvent>,
    base: Seq<char>,
    i: int,
)
    requires
        device_flow_laws::is_run(config, stdin_is_terminal, run, events),
        is_base(config.worker_origin@, base),
        0 <= i < run.len(),
        run[i].action is PostToken,
    ensures
        i > 0,
        events[0] matches FlowEvent::Device(Reply::Body(Ok(device))) && (
        run[i].action matches FlowAction::PostToken(post) && post.url@ == base + "/token"@
            && sends_device_code(post, device.device_code@)),
{
    lemma_known_device(config, stdin_is_terminal, run, events, i);
    law_endpoint(config.worker_origin@, base, "/token"@);
    assert(device_flow_laws::leads_to(
        config,
        stdin_is_terminal,
        run[i - 1],
        events[i - 1],
        run[i],
    ));
    if let FlowEvent::Device(Reply::Body(Ok(device))) = events[0] {
        if let FlowAction::PostToken(post) = run[i].action {
            law_forms(post, base + "/token"@, Seq::empty(), device.device_code@);
        }
    }
}

/// Once the worker has named a device, the run is about that device.
proof fn lemma_known_device<S>(
    config: DeviceFlowConfig<S>,
    stdin_is_terminal: bool,
    run: Seq<Moment>,
    events: Seq<FlowEvent>,
    i: int,
)
    requires
        device_flow_laws::is_run(config, stdin_is_terminal, run, events),
        0 <= i < run.len(),
    ensures
        device_flow_laws::device_of(run[i].state) matches Some(device) ==> {
            &&& i > 0
            &&& events[0] == FlowEvent::Device(Reply::Body(Ok::<DeviceResp, String>(device)))
        },
        run[i].state is AwaitingDevice <==> i == 0,
        i > 0 && !(run[i].state is Finished) ==> device_flow_laws::device_of(run[i].state) is Some,
        run[i].action is PostDevice <==> run[i].state is AwaitingDevice,
        run[i].action is Announce <==> run[i].state is Announcing,
        run[i].action is ReadClock <==> run[i].state is ReadingClock || run[i].state is Woken,
        run[i].action is Sleep <==> run[i].state is Sleeping,
        run[i].action is PostToken <==> run[i].state is AwaitingToken,
        run[i].action is Finish <==> run[i].state is Finished,
        run[i].state is Woken <==> i > 0 && run[i - 1].action is Sleep,
    decreases i,
{
    if i > 0 {
        lemma_known_device(config, stdin_is_terminal, run, events, i - 1);
        assert(device_flow_laws::leads_to(
            config,
            stdin_is_terminal,
            run[i - 1],
            events[i - 1],
            run[i],
        ));
    }
}

/// Where to sign in, and with which code, as the user reads it.
pub open spec fn tells_where(told: Seq<char>, device: DeviceResp) -> bool {
    told == "\nSign in to install:\n\n    Open this URL in a browser:\n        "@
        + device.verification_uri@ + "\n\n    Then enter this code on that page:\n        "@
        + device.user_code@ + "\n\n"@
}

/// In every run the user is told of the device that the worker named: on
/// standard error, and by a method of apt in a status line too, where there is a
/// sink for it. A method of apt says the same on a terminal as on a pipe, and
/// opens nothing. A command line opens the URL on a terminal alone, and only
/// where the caller allows it.
pub proof fn law_user_is_told<S>(
    config: DeviceFlowConfig<S>,
    stdin_is_terminal: bool,
    run: Seq<Moment>,
    events: Seq<FlowEvent>,
    device: DeviceResp,
)
    requires
        device_flow_laws::is_run(config, stdin_is_terminal, run, events),
        events.len() > 0,
        events[0] == FlowEvent::Device(Reply::Body(Ok::<DeviceResp, String>(device))),
    ensures
        run[1].action matches FlowAction::Announce(a) && match config.user_io {
            UserIo::AptMethod { status_sink } => {
                &&& tells_where(a.stderr@, device)
                &&& a.open_on_enter is None
                &&& status_sink is Some ==> a.status is Some && a.status->0@ == "Visit "@
                    + device.verification_uri@ + " and enter code "@ + device.user_code@
                &&& status_sink is None ==> a.status is None
            },
            UserIo::Cli { enable_browser } => {
                &&& stdin_is_terminal ==> exists|told: Seq<char>| #[trigger]
                    tells_where(told, device) && a.stderr@ == told
                        + "Press Enter to open the URL in your browser (or open it yourself).\n"@
                &&& !stdin_is_terminal ==> tells_where(a.stderr@, device)
                &&& a.open_on_enter is Some <==> stdin_is_terminal && enable_browser
                &&& a.open_on_enter matches Some(url) ==> url@ == device.verification_uri@
                &&& a.status is None
            },
        },
{
    assert(device_flow_laws::leads_to(config, stdin_is_terminal, run[0], events[0], run[1]));
    if let FlowAction::Announce(a) = run[1].action {
        law_announcement(a, device, config.user_io, stdin_is_terminal);
    }
}

/// What the user is told of a device, whatever the output is.
pub proof fn law_announcement<S>(
    a: Announcement,
    device: DeviceResp,
    io: UserIo<S>,
    stdin_is_terminal: bool,
)
    requires
        device_flow::announces(a, device, io, stdin_is_terminal),
    ensures
        match io {
            UserIo::AptMethod { status_sink } => {
                &&& tells_where(a.stderr@, device)
                &&& a.open_on_enter is None
                &&& status_sink is Some ==> a.status is Some && a.status->0@ == "Visit "@
                    + device.verification_uri@ + " and enter code "@ + device.user_code@
                &&& status_sink is None ==> a.status is None
            },
            UserIo::Cli { enable_browser } => {
                &&& stdin_is_terminal ==> exists|told: Seq<char>| #[trigger]
                    tells_where(told, device) && a.stderr@ == told
                        + "Press Enter to open the URL in your browser (or open it yourself).\n"@
                &&& !stdin_is_terminal ==> tells_where(a.stderr@, device)
                &&& a.open_on_enter is Some <==> stdin_is_terminal && enable_browser
                &&& a.open_on_enter matches Some(url) ==> url@ == device.verification_uri@
                &&& a.status is None
            },
        },
{
    let told = device_flow::sign_in_text(device.verification_uri@, device.user_code@);
    assert(tells_where(told, device));
}

/// What a method of apt announces does not depend on the terminal.
pub proof fn law_apt_announces_without_a_terminal<S>(
    on_terminal: Announcement,
    on_pipe: Announcement,
    device: DeviceResp,
    status_sink: Option<S>,
)
    requires
        device_flow::announces(on_terminal, device, UserIo::AptMethod { status_sink }, true),
        device_flow::announces(on_pipe, device, UserIo::AptMethod { status_sink }, false),
    ensures
        on_terminal.stderr@ == on_pipe.stderr@,
        on_terminal.open_on_enter is None && on_pipe.open_on_enter is None,
        on_pipe.status is Some <==> status_sink is Some,
        on_terminal.status is Some <==> status_sink is Some,
        status_sink is Some ==> on_terminal.status->0@ == on_pipe.status->0@,
{
}

/// The time between two polls: what the worker asks for in seconds, but at least
/// one, in nanoseconds.
pub open spec fn between_polls(device: DeviceResp) -> int {
    if device.interval == 0 {
        1_000_000_000
    } else {
        device.interval * 1_000_000_000
    }
}

/// The flow goes on while nothing fails and there is time: the user is told of the
/// device, then the flow sleeps, for the interval or what time is left, and polls,
/// in turn. When a look at the clock shows that the time is over, it ends.
pub proof fn law_flow_goes_on<S>(
    config: DeviceFlowConfig<S>,
    stdin_is_terminal: bool,
    run: Seq<Moment>,
    events: Seq<FlowEvent>,
    i: int,
)
    requires
        device_flow_laws::is_run(config, stdin_is_terminal, run, events),
        0 <= i < events.len(),
    ensures
        match (run[i].action, events[i]) {
            (FlowAction::PostDevice(_), FlowEvent::Device(reply)) => reply matches Reply::Body(
                Ok(_),
            ) ==> run[i + 1].action is Announce,
            (FlowAction::Announce(_), FlowEvent::Announced) => run[i + 1].action is ReadClock,
            (FlowAction::ReadClock, FlowEvent::Clock(elapsed)) => if elapsed
                >= config.timeout_nanos {
                run[i + 1].action == FlowAction::Finish(Err(DeviceFlowError::Timeout))
            } else if run[i - 1].action is Sleep {
                run[i + 1].action is PostToken
            } else {
                match (events[0], run[i + 1].action) {
                    (FlowEvent::Device(Reply::Body(Ok(device))), FlowAction::Sleep(nanos)) => {
                        &&& nanos <= between_polls(device)
                        &&& elapsed + nanos <= config.timeout_nanos
                        &&& nanos == between_polls(device) || elapsed + nanos
                            == config.timeout_nanos
                    },
                    _ => false,
                }
            },
            (FlowAction::Sleep(_), FlowEvent::Slept) => run[i + 1].action is ReadClock,
            (FlowAction::PostToken(_), FlowEvent::Token(_)) => run[i + 1].action is ReadClock
                || run[i + 1].action is Finish,
            _ => false,
        },
{
    lemma_known_device(config, stdin_is_terminal, run, events, i);
    lemma_known_device(config, stdin_is_terminal, run, events, i + 1);
    if i > 0 {
        lemma_known_device(config, stdin_is_terminal, run, events, i - 1);
    }
    assert(device_flow_laws::leads_to(config, stdin_is_terminal, run[i], events[i], run[i + 1]));
}

/// What an answer of `/token` leads to: a license is taken whatever else is said;
/// `authorization_pending` lets the flow go on; any other error ends it, in the
/// words of the worker where it gives some.
pub proof fn law_token_answer<S>(
    config: DeviceFlowConfig<S>,
    stdin_is_terminal: bool,
    run: Seq<Moment>,
    events: Seq<FlowEvent>,
    i: int,
    resp: TokenResp,
)
    requires
        device_flow_laws::is_run(config, stdin_is_terminal, run, events),
        0 <= i < events.len(),
        events[i] == FlowEvent::Token(Reply::Body(Ok::<TokenResp, String>(resp))),
    ensures
        resp.license matches Some(license) ==> run[i + 1].action == FlowAction::Finish(
            Ok::<String, DeviceFlowError>(license),
        ),
        resp.license is None ==> match resp.error {
            None => run[i + 1].action matches FlowAction::Finish(Err(DeviceFlowError::Worker(m)))
                && m@ == "/token returned neither a license nor an error"@,
            Some(error) => {
                &&& error@ == "authorization_pending"@ ==> run[i + 1].action is ReadClock
                &&& error@ == "expired_token"@ ==> run[i + 1].action == FlowAction::Finish(
                    Err(DeviceFlowError::Expired),
                )
                &&& error@ != "authorization_pending"@ && error@ != "expired_token"@ ==> (
                run[i + 1].action matches FlowAction::Finish(Err(DeviceFlowError::Worker(m)))
                    && match resp.detail {
                    Some(detail) => m@ == detail@,
                    None => m@ == error@,
                })
            },
        },
{
    assert(device_flow_laws::leads_to(config, stdin_is_terminal, run[i], events[i], run[i + 1]));
    reveal_strlit("authorization_pending");
    reveal_strlit("expired_token");
    assert("authorization_pending"@.len() != "expired_token"@.len());
}

/// The same of one answer by itself.
pub proof fn law_outcome_of_an_answer(resp: TokenResp, outcome: PollOutcome)
    requires
        device_flow::outcome_of(resp, outcome),
    ensures
        resp.license matches Some(license) ==> outcome == PollOutcome::Done(Ok(license)),
        resp.license is None ==> match resp.error {
            None => outcome matches PollOutcome::Done(Err(DeviceFlowError::Worker(m))) && m@
                == "/token returned neither a license nor an error"@,
            Some(error) => {
                &&& outcome is Pending <==> error@ == "authorization_pending"@
                &&& outcome == PollOutcome::Done(Err(DeviceFlowError::Expired)) <==> error@
                    == "expired_token"@
                &&& error@ != "authorization_pending"@ && error@ != "expired_token"@ ==> (
                outcome matches PollOutcome::Done(Err(DeviceFlowError::Worker(m)))
                    && match resp.detail {
                    Some(detail) => m@ == detail@,
                    None => m@ == error@,
                })
            },
        },
{
    reveal_strlit("authorization_pending");
    reveal_strlit("expired_token");
    assert("authorization_pending"@.len() != "expired_token"@.len());
}

/// A reply is an error unless it could be read as what was asked for, and the
/// error tells the URL and what went wrong: the words of the failure, or the
/// status and the start of the text.
pub proof fn law_reply_errors<T>(url: Seq<char>, reply: Reply<T>)
    ensures
        match reply {
            Reply::Failed(error) => device_flow::reply_error(url, reply) == Some(
                "POST "@ + url + ": "@ + error@,
            ),
            Reply::Refused { status, body } => device_flow::reply_error(url, reply) == Some(
                "POST "@ + url + " returned HTTP "@ + codec::status_text(status) + ": "@
                    + device_flow::truncated(body@, 200),
            ),
            Reply::Body(Err(error)) => device_flow::reply_error(url, reply) == Some(
                "POST "@ + url + " returned non-JSON: "@ + error@,
            ),
            Reply::Body(Ok(_)) => device_flow::reply_error(url, reply) is None,
        },
{
}

/// The same in a run: a reply that is an error ends the flow, with the error that
/// tells it. No other reply to `/device` does.
pub proof fn law_failed_post_ends_the_flow<S>(
    config: DeviceFlowConfig<S>,
    stdin_is_terminal: bool,
    run: Seq<Moment>,
    events: Seq<FlowEvent>,
    base: Seq<char>,
    i: int,
)
    requires
        device_flow_laws::is_run(config, stdin_is_terminal, run, events),
        is_base(config.worker_origin@, base),
        0 <= i < events.len(),
    ensures
        events[i] matches FlowEvent::Device(reply) ==> match device_flow::reply_error(
            base + "/device"@,
            reply,
        ) {
            Some(message) => run[i + 1].action matches FlowAction::Finish(
                Err(DeviceFlowError::Http(m)),
            ) && m@ == message,
            None => run[i + 1].action is Announce,
        },
        events[i] matches FlowEvent::Token(reply) ==> match device_flow::reply_error(
            base + "/token"@,
            reply,
        ) {
            Some(message) => run[i + 1].action matches FlowAction::Finish(
                Err(DeviceFlowError::Http(m)),
            ) && m@ == message,
            None => reply matches Reply::Body(Ok(_)),
        },
{
    law_endpoint(config.worker_origin@, base, "/device"@);
    law_endpoint(config.worker_origin@, base, "/token"@);
    assert(device_flow_laws::leads_to(config, stdin_is_terminal, run[i], events[i], run[i + 1]));
}

/// The statuses with which an answer is read on.
pub proof fn law_statuses(status: u16)
    ensures
        device_flow::is_success(status) <==> status / 100 == 2,
        device_flow::is_client_error(status) <==> status / 100 == 4,
{
}

/// Each error of the flow in words.
pub proof fn law_flow_errors_in_words(error: DeviceFlowError)
    ensures
        device_flow::flow_error_text(error@) == (match error {
            DeviceFlowError::Http(message) => message@,
            DeviceFlowError::Timeout => "timed out waiting for sign-in"@,
            DeviceFlowError::Expired =>
                "sign-in code expired before you finished. Re-run sign-in."@,
            DeviceFlowError::Worker(message) => message@,
        }),
        match error {
            DeviceFlowError::Http(message) => error@ == FlowErrorView::Http(message@),
            DeviceFlowError::Timeout => error@ == FlowErrorView::Timeout,
            DeviceFlowError::Expired => error@ == FlowErrorView::Expired,
            DeviceFlowError::Worker(message) => error@ == FlowErrorView::Worker(message@),
        },
{
}

/// The default settings are the same for every caller, and what the caller gives
/// is kept.
pub proof fn law_defaults<S>(
    config: DeviceFlowConfig<S>,
    user_agent: String,
    user_io: UserIo<S>,
)
    requires
        device_flow::is_default(config, user_agent, user_io),
    ensures
        config.worker_origin@ == "https://id.knowyourco.de"@,
        config.referral_tag@ == "closed-beta"@,
        config.timeout_nanos == 840_000_000_000,
        config.user_agent == user_agent,
        config.user_io == user_io,
{
}

/// A refusal in words, whatever the words of its status are.
pub proof fn law_refusals_in_words(url: Seq<char>, status: Seq<char>, body: Seq<char>)
    ensures
        device_flow::refused_text(url, status, body) == "POST "@ + url + " returned HTTP "@ + status
            + ": "@ + device_flow::truncated(body, 200),
{
}

/// The flow takes every event that its last action can lead to, so long as a
/// status is one.
pub proof fn law_events_that_fit(state: FlowState, event: FlowEvent)
    ensures
        device_flow::event_fits(state, event) <==> match event {
            FlowEvent::Device(reply) => state is AwaitingDevice && (reply matches Reply::Refused {
                status,
                ..
            } ==> 100 <= status <= 999),
            FlowEvent::Announced => state is Announcing,
            FlowEvent::Clock(_) => state is ReadingClock || state is Woken,
            FlowEvent::Slept => state is Sleeping,
            FlowEvent::Token(reply) => state is AwaitingToken && (reply matches Reply::Refused {
                status,
                ..
            } ==> 100 <= status <= 999),
        },
{
}

} // verus!
