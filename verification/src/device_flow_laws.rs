//! Laws of the sign-in flow, over whole runs of it.

use vstd::prelude::*;
use vstd::utf8::*;

use crate::device_flow;
use crate::device_flow::{
    DeviceFlowConfig, DeviceFlowError, DeviceResp, FlowAction, FlowEvent, FlowState, Reply,
};

verus! {

/// One moment of a run: the state, and the action that led into it.
pub struct Moment {
    pub state: FlowState,
    pub action: FlowAction,
}

/// True when `event` leads from `before` to `after`.
pub open spec fn leads_to<S>(
    config: DeviceFlowConfig<S>,
    stdin_is_terminal: bool,
    before: Moment,
    event: FlowEvent,
    after: Moment,
) -> bool {
    &&& device_flow::event_fits(before.state, event)
    &&& device_flow::flow_step(
        config,
        stdin_is_terminal,
        before.state,
        event,
        after.state,
        after.action,
    )
}

/// True when `run` is a run of the flow from its start, in which `events[i]`
/// leads from `run[i]` to the moment after it.
pub open spec fn is_run<S>(
    config: DeviceFlowConfig<S>,
    stdin_is_terminal: bool,
    run: Seq<Moment>,
    events: Seq<FlowEvent>,
) -> bool {
    &&& run.len() == events.len() + 1
    &&& device_flow::flow_start(config, run[0].state, run[0].action)
    &&& forall|i: int, j: int|
        0 <= i < events.len() && j == i + 1 ==> leads_to(
            config,
            stdin_is_terminal,
            #[trigger] run[i],
            events[i],
            #[trigger] run[j],
        )
}

/// The state of a moment goes with its action.
proof fn lemma_state_goes_with_action<S>(
    config: DeviceFlowConfig<S>,
    stdin_is_terminal: bool,
    run: Seq<Moment>,
    events: Seq<FlowEvent>,
    i: int,
)
    requires
        is_run(config, stdin_is_terminal, run, events),
        0 <= i < run.len(),
    ensures
        run[i].state is AwaitingDevice <==> run[i].action is PostDevice,
        run[i].state is Announcing <==> run[i].action is Announce,
        run[i].state is ReadingClock || run[i].state is Woken <==> run[i].action is ReadClock,
        run[i].state is Sleeping <==> run[i].action is Sleep,
        run[i].state is AwaitingToken <==> run[i].action is PostToken,
        run[i].state is Finished <==> run[i].action is Finish,
        run[i].state is AwaitingDevice ==> i == 0,
{
    if i > 0 {
        assert(leads_to(config, stdin_is_terminal, run[i - 1], events[i - 1], run[i]));
    }
}

/// Once the flow is over, nothing more is done.
pub proof fn law_finish_is_final<S>(
    config: DeviceFlowConfig<S>,
    stdin_is_terminal: bool,
    run: Seq<Moment>,
    events: Seq<FlowEvent>,
    i: int,
)
    requires
        is_run(config, stdin_is_terminal, run, events),
        0 <= i < run.len(),
        run[i].action is Finish,
    ensures
        i == run.len() - 1,
{
    lemma_state_goes_with_action(config, stdin_is_terminal, run, events, i);
    if i < events.len() {
        assert(leads_to(config, stdin_is_terminal, run[i], events[i], run[i + 1]));
    }
}

/// A license that the flow ends with is one that the worker handed out, in
/// the answer to the last poll.
pub proof fn law_license_comes_from_worker<S>(
    config: DeviceFlowConfig<S>,
    stdin_is_terminal: bool,
    run: Seq<Moment>,
    events: Seq<FlowEvent>,
    license: String,
)
    requires
        is_run(config, stdin_is_terminal, run, events),
        run.last().action == FlowAction::Finish(Ok(license)),
    ensures
        events.len() > 0,
        events.last() matches FlowEvent::Token(Reply::Body(Ok(resp))) && resp.license == Some(
            license,
        ),
{
    let n = events.len() as int;
    assert(leads_to(config, stdin_is_terminal, run[n - 1], events[n - 1], run[n]));
}

/// The flow times out exactly when a reading of the clock shows that the time
/// it was given is over.
pub proof fn law_timeout_is_by_the_clock<S>(
    config: DeviceFlowConfig<S>,
    stdin_is_terminal: bool,
    run: Seq<Moment>,
    events: Seq<FlowEvent>,
    i: int,
)
    requires
        is_run(config, stdin_is_terminal, run, events),
        0 <= i < events.len(),
    ensures
        run[i + 1].action == FlowAction::Finish(Err(DeviceFlowError::Timeout)) <==> (
        events[i] matches FlowEvent::Clock(elapsed) && elapsed >= config.timeout_nanos),
{
    assert(leads_to(config, stdin_is_terminal, run[i], events[i], run[i + 1]));
}

/// Every poll follows directly on a reading of the clock that shows time left.
pub proof fn law_polls_are_in_time<S>(
    config: DeviceFlowConfig<S>,
    stdin_is_terminal: bool,
    run: Seq<Moment>,
    events: Seq<FlowEvent>,
    i: int,
)
    requires
        is_run(config, stdin_is_terminal, run, events),
        0 <= i < run.len(),
        run[i].action is PostToken,
    ensures
        i >= 1,
        run[i - 1].action is ReadClock,
        events[i - 1] matches FlowEvent::Clock(elapsed) && elapsed < config.timeout_nanos,
{
    assert(leads_to(config, stdin_is_terminal, run[i - 1], events[i - 1], run[i]));
    lemma_state_goes_with_action(config, stdin_is_terminal, run, events, i - 1);
}

/// A license that the flow ends with was asked for while there was time.
pub proof fn law_license_is_in_time<S>(
    config: DeviceFlowConfig<S>,
    stdin_is_terminal: bool,
    run: Seq<Moment>,
    events: Seq<FlowEvent>,
    license: String,
)
    requires
        is_run(config, stdin_is_terminal, run, events),
        run.last().action == FlowAction::Finish(Ok(license)),
    ensures
        events.len() >= 2,
        run[run.len() - 2].action is PostToken,
        events[events.len() - 2] matches FlowEvent::Clock(elapsed) && elapsed
            < config.timeout_nanos,
{
    let n = events.len() as int;
    law_license_comes_from_worker(config, stdin_is_terminal, run, events, license);
    assert(leads_to(config, stdin_is_terminal, run[n - 1], events[n - 1], run[n]));
    lemma_state_goes_with_action(config, stdin_is_terminal, run, events, n - 1);
    law_polls_are_in_time(config, stdin_is_terminal, run, events, n - 1);
}

/// No sleep is longer than the time that the clock, read just before it, shows
/// to be left.
pub proof fn law_sleeps_end_in_time<S>(
    config: DeviceFlowConfig<S>,
    stdin_is_terminal: bool,
    run: Seq<Moment>,
    events: Seq<FlowEvent>,
    i: int,
    nanos: u128,
)
    requires
        is_run(config, stdin_is_terminal, run, events),
        0 <= i < run.len(),
        run[i].action == FlowAction::Sleep(nanos),
    ensures
        i >= 1,
        events[i - 1] matches FlowEvent::Clock(elapsed) && elapsed + nanos <= config.timeout_nanos,
{
    assert(leads_to(config, stdin_is_terminal, run[i - 1], events[i - 1], run[i]));
}

/// Before each poll the flow has slept: for the interval that the worker asked
/// for, where the clock moved on by what was slept.
pub proof fn law_polls_are_spaced<S>(
    config: DeviceFlowConfig<S>,
    stdin_is_terminal: bool,
    run: Seq<Moment>,
    events: Seq<FlowEvent>,
    i: int,
)
    requires
        is_run(config, stdin_is_terminal, run, events),
        0 <= i < run.len(),
        run[i].action is PostToken,
    ensures
        i >= 3,
        match (run[i].state, run[i - 2].action, events[i - 3], events[i - 1]) {
            (
                FlowState::AwaitingToken { device },
                FlowAction::Sleep(nanos),
                FlowEvent::Clock(before),
                FlowEvent::Clock(after),
            ) => {
                &&& before < config.timeout_nanos
                &&& nanos == device_flow::sleep_nanos(
                    device.interval,
                    config.timeout_nanos - before,
                )
                &&& after >= before + nanos ==> nanos == interval_nanos(device)
            },
            _ => false,
        },
{
    lemma_state_goes_with_action(config, stdin_is_terminal, run, events, i);
    assert(leads_to(config, stdin_is_terminal, run[i - 1], events[i - 1], run[i]));
    lemma_state_goes_with_action(config, stdin_is_terminal, run, events, i - 1);
    assert(leads_to(config, stdin_is_terminal, run[i - 2], events[i - 2], run[i - 1]));
    lemma_state_goes_with_action(config, stdin_is_terminal, run, events, i - 2);
    assert(leads_to(config, stdin_is_terminal, run[i - 3], events[i - 3], run[i - 2]));
}

/// While the worker says `authorization_pending` and hands out no license,
/// and there is time, before the sleep and after it, the flow goes on: it polls
/// again.
pub proof fn law_pending_polls_again<S>(
    config: DeviceFlowConfig<S>,
    stdin_is_terminal: bool,
    run: Seq<Moment>,
    events: Seq<FlowEvent>,
    i: int,
)
    requires
        is_run(config, stdin_is_terminal, run, events),
        0 <= i < events.len() - 3,
        events[i] matches FlowEvent::Token(Reply::Body(Ok(resp))) && resp.license is None
            && (resp.error matches Some(error) && error@ == "authorization_pending"@),
        events[i + 1] matches FlowEvent::Clock(elapsed) && elapsed < config.timeout_nanos,
        events[i + 3] matches FlowEvent::Clock(elapsed) && elapsed < config.timeout_nanos,
    ensures
        run[i + 4].action is PostToken,
{
    assert(leads_to(config, stdin_is_terminal, run[i], events[i], run[i + 1]));
    assert(leads_to(config, stdin_is_terminal, run[i + 1], events[i + 1], run[i + 2]));
    assert(leads_to(config, stdin_is_terminal, run[i + 2], events[i + 2], run[i + 3]));
    assert(leads_to(config, stdin_is_terminal, run[i + 3], events[i + 3], run[i + 4]));
}

/// The time between two polls that the worker asked for, in nanoseconds.
pub open spec fn interval_nanos(device: DeviceResp) -> nat {
    device_flow::poll_seconds(device.interval) as nat * 1_000_000_000
}

/// The number of polls in `run`.
pub open spec fn polls(run: Seq<Moment>) -> nat
    decreases run.len(),
{
    if run.len() == 0 {
        0
    } else {
        polls(run.drop_last()) + (if run.last().action is PostToken {
            1nat
        } else {
            0
        })
    }
}

/// The least that the clock can show after the first `n` events: its last
/// reading, and what was slept since.
pub open spec fn least_time(run: Seq<Moment>, events: Seq<FlowEvent>, n: nat) -> nat
    decreases n,
{
    if n == 0 {
        0
    } else {
        match (events[n - 1], run[n - 1].action) {
            (FlowEvent::Clock(elapsed), _) => elapsed as nat,
            (FlowEvent::Slept, FlowAction::Sleep(nanos)) => least_time(run, events, (n - 1) as nat)
                + nanos as nat,
            _ => least_time(run, events, (n - 1) as nat),
        }
    }
}

/// True when the clock does not go back, and moves on by what is slept.
pub open spec fn clock_is_true(run: Seq<Moment>, events: Seq<FlowEvent>) -> bool {
    forall|i: int|
        0 <= i < events.len() ==> (#[trigger] events[i] matches FlowEvent::Clock(elapsed) ==> elapsed
            >= least_time(run, events, i as nat))
}

/// The device that a run is about, once it is known.
pub open spec fn device_of(state: FlowState) -> Option<DeviceResp> {
    match state {
        FlowState::Announcing { device } => Some(device),
        FlowState::ReadingClock { device } => Some(device),
        FlowState::Sleeping { device } => Some(device),
        FlowState::Woken { device } => Some(device),
        FlowState::AwaitingToken { device } => Some(device),
        _ => None,
    }
}

proof fn lemma_sleeps_and_polls<S>(
    config: DeviceFlowConfig<S>,
    stdin_is_terminal: bool,
    run: Seq<Moment>,
    events: Seq<FlowEvent>,
    device: DeviceResp,
    n: int,
)
    requires
        is_run(config, stdin_is_terminal, run, events),
        0 <= n < run.len(),
        forall|i: int|
            0 <= i < run.len() ==> (#[trigger] device_of(run[i].state) is Some ==> device_of(
                run[i].state,
            )->0 == device),
        clock_is_true(run, events),
    ensures
        ({
            let count = polls(run.take(n + 1));
            let time = least_time(run, events, n as nat);
            &&& time >= count * interval_nanos(device)
            &&& count > 0 ==> count * interval_nanos(device) < config.timeout_nanos
            &&& run[n].state is Sleeping ==> (run[n].action matches FlowAction::Sleep(nanos) && (
            nanos == interval_nanos(device) || time + nanos >= config.timeout_nanos))
            &&& run[n].state is Woken ==> time >= (count + 1) * interval_nanos(device) || time
                >= config.timeout_nanos
        }),
    decreases n,
{
    let interval = interval_nanos(device);
    assert(run.take(n + 1).drop_last() == run.take(n));
    assert(run.take(n + 1).last() == run[n]);
    lemma_state_goes_with_action(config, stdin_is_terminal, run, events, n);
    if n > 0 {
        lemma_sleeps_and_polls(config, stdin_is_terminal, run, events, device, n - 1);
        lemma_state_goes_with_action(config, stdin_is_terminal, run, events, n - 1);
        assert(leads_to(config, stdin_is_terminal, run[n - 1], events[n - 1], run[n]));
        assert(device_of(run[n].state) is Some ==> device_of(run[n].state)->0 == device);
        assert(device_of(run[n - 1].state) is Some ==> device_of(run[n - 1].state)->0 == device);
        let count = polls(run.take(n));
        assert(run.take(n - 1 + 1) == run.take(n));
        assert((count + 1) * interval == count * interval + interval) by (nonlinear_arith);
        assert(events[n - 1] matches FlowEvent::Clock(elapsed) ==> elapsed >= least_time(
            run,
            events,
            (n - 1) as nat,
        ));
    } else {
        assert(run.take(0) == Seq::<Moment>::empty());
        assert(0 * interval == 0) by (nonlinear_arith);
    }
}

proof fn lemma_one_device<S>(
    config: DeviceFlowConfig<S>,
    stdin_is_terminal: bool,
    run: Seq<Moment>,
    events: Seq<FlowEvent>,
    i: int,
)
    requires
        is_run(config, stdin_is_terminal, run, events),
        1 <= i < run.len(),
        device_of(run[i].state) is Some,
    ensures
        device_of(run[1].state) == device_of(run[i].state),
    decreases i,
{
    if i > 1 {
        assert(leads_to(config, stdin_is_terminal, run[i - 1], events[i - 1], run[i]));
        lemma_state_goes_with_action(config, stdin_is_terminal, run, events, i - 1);
        lemma_one_device(config, stdin_is_terminal, run, events, i - 1);
    }
}

/// The polling ends: by a true clock there are no more polls than fit in the
/// time that the flow was given, at the interval that the worker asked for.
pub proof fn law_polls_are_bounded<S>(
    config: DeviceFlowConfig<S>,
    stdin_is_terminal: bool,
    run: Seq<Moment>,
    events: Seq<FlowEvent>,
    device: DeviceResp,
)
    requires
        is_run(config, stdin_is_terminal, run, events),
        clock_is_true(run, events),
        run.len() > 1,
        run[1].state == (FlowState::Announcing { device }),
    ensures
        polls(run) > 0 ==> polls(run) * interval_nanos(device) < config.timeout_nanos,
{
    assert forall|i: int| 0 <= i < run.len() implies (#[trigger] device_of(run[i].state) is Some
        ==> device_of(run[i].state)->0 == device) by {
        if i >= 1 && device_of(run[i].state) is Some {
            lemma_one_device(config, stdin_is_terminal, run, events, i);
        }
    }
    let n = run.len() - 1;
    lemma_sleeps_and_polls(config, stdin_is_terminal, run, events, device, n);
    assert(run.take(n + 1) == run);
}

proof fn lemma_cut_at(bytes: Seq<u8>, max: nat)
    requires
        valid_utf8(bytes),
        max <= bytes.len(),
    ensures
        device_flow::cut_at(bytes, max) <= max,
        is_char_boundary(bytes, device_flow::cut_at(bytes, max) as int),
        forall|i: int|
            device_flow::cut_at(bytes, max) < i <= max ==> !#[trigger] is_char_boundary(bytes, i),
    decreases max,
{
    if max > 0 && !is_char_boundary(bytes, max as int) {
        lemma_cut_at(bytes, (max - 1) as nat);
    }
}

/// A text that fits is quoted whole.
pub proof fn law_short_text_is_quoted_whole(s: Seq<char>, max: nat)
    requires
        encode_utf8(s).len() <= max,
    ensures
        device_flow::truncated(s, max) == s,
{
}

/// What is quoted of a long text is its start, as many whole characters as fit
/// in `max` bytes: all `max` bytes, where a character ends there.
pub proof fn law_truncation_keeps_what_fits(s: Seq<char>, max: nat)
    requires
        encode_utf8(s).len() > max,
    ensures
        ({
            let bytes = encode_utf8(s);
            let head = device_flow::truncated(s, max).drop_last();
            let kept = encode_utf8(head).len();
            &&& device_flow::truncated(s, max) == head.push('\u{2026}')
            &&& head.is_prefix_of(s)
            &&& kept <= max
            &&& forall|i: int| kept < i <= max ==> !#[trigger] is_char_boundary(bytes, i)
            &&& is_char_boundary(bytes, max as int) ==> kept == max
        }),
{
    let bytes = encode_utf8(s);
    let k = device_flow::cut_at(bytes, max) as int;
    encode_utf8_valid_utf8(s);
    encode_utf8_decode_utf8(s);
    lemma_cut_at(bytes, max);
    let head = decode_utf8(bytes.take(k));
    assert(device_flow::truncated(s, max).drop_last() =~= head);
    valid_utf8_split(bytes, k);
    decode_utf8_split(bytes, k);
    decode_utf8_encode_utf8(bytes.take(k));
    assert(bytes.take(k) == bytes.subrange(0, k));
    assert(s.take(head.len() as int) =~= head);
}

} // verus!
