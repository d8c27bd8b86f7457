//! What holds of every request that the method answers, and of all of them
//! together.

use vstd::prelude::*;
use vstd::utf8::*;

use crate::codec;
use crate::device_flow;
use crate::method;
use crate::method::{CacheView, Outcome, UriAction, UriEvent, UriState};
use crate::protocol;
use crate::protocol::AcquireView;
use crate::text;
use crate::text_laws;

verus! {

/// A URI with one of the two schemes is fetched over HTTPS from the same place;
/// one with any other is not fetched.
pub proof fn law_scheme_is_rewritten(uri: Seq<char>, rest: Seq<char>)
    ensures
        method::https_url_of("kyc://"@ + rest) == Some("https://"@ + rest),
        method::https_url_of("kyc+https://"@ + rest) == Some("https://"@ + rest),
        method::https_url_of(uri) is Some <==> "kyc://"@.is_prefix_of(uri)
            || "kyc+https://"@.is_prefix_of(uri),
        method::https_url_of(uri) matches Some(url) ==> "https://"@.is_prefix_of(url),
{
    reveal_strlit("kyc://");
    reveal_strlit("kyc+https://");
    let short = "kyc://"@ + rest;
    assert("kyc://"@.is_prefix_of(short)) by {
        assert(short.take(6) =~= "kyc://"@);
    }
    assert(short.skip(6) =~= rest);
    let long = "kyc+https://"@ + rest;
    assert("kyc+https://"@.is_prefix_of(long)) by {
        assert(long.take(12) =~= "kyc+https://"@);
    }
    assert(long.skip(12) =~= rest);
    assert(long[3] == '+');
    assert(!"kyc://"@.is_prefix_of(long)) by {
        assert("kyc://"@[3] == ':');
        assert(long.take(6)[3] == '+');
    }
    if let Some(url) = method::https_url_of(uri) {
        let tail = if "kyc://"@.is_prefix_of(uri) {
            uri.skip(6)
        } else {
            uri.skip(12)
        };
        assert(url == "https://"@ + tail);
        assert(url.take("https://"@.len() as int) =~= "https://"@);
    }
}

/// The license is asked for by the path alone: under `/pool/` and nowhere
/// else, whatever the host is.
pub proof fn law_pool_needs_license(host: Seq<char>, path: Seq<char>)
    requires
        !host.contains('/'),
        path.len() > 0,
        path[0] == '/',
    ensures
        method::path_of("https://"@ + host + path) == path,
        method::needs_license("https://"@ + host + path) == "/pool/"@.is_prefix_of(path),
        "/dists/"@.is_prefix_of(path) ==> !method::needs_license("https://"@ + host + path),
        "/install/"@.is_prefix_of(path) ==> !method::needs_license("https://"@ + host + path),
{
    let url = "https://"@ + host + path;
    let rest = host + path;
    let n = "https://"@.len() as int;
    assert(url.take(n) =~= "https://"@);
    assert("https://"@.is_prefix_of(url));
    assert(url.skip(n) =~= rest);
    text_laws::lemma_first_index(host, path, '/');
    assert(rest.skip(host.len() as int) =~= path);
    reveal_strlit("/pool/");
    reveal_strlit("/dists/");
    reveal_strlit("/install/");
    if "/pool/"@.is_prefix_of(path) {
        assert(path.take(6)[1] == 'p');
        if "/dists/"@.is_prefix_of(path) {
            assert(path.take(7)[1] == 'd');
        }
        if "/install/"@.is_prefix_of(path) {
            assert(path.take(9)[1] == 'i');
        }
    }
}

/// A URL without a path needs no license.
pub proof fn law_bare_host_needs_no_license(host: Seq<char>)
    requires
        !host.contains('/'),
    ensures
        !method::needs_license("https://"@ + host),
{
    let url = "https://"@ + host;
    let n = "https://"@.len() as int;
    assert(url.take(n) =~= "https://"@);
    assert("https://"@.is_prefix_of(url));
    assert(url.skip(n) =~= host);
    text_laws::lemma_no_index(host, '/');
    reveal_strlit("/pool/");
    reveal_strlit("/");
}

/// A request as it was served: what was known of the license before it, each
/// event, and what each led to.
pub struct Served {
    pub acq: AcquireView,
    pub version: Seq<char>,
    pub known: CacheView,
    pub events: Seq<UriEvent>,
    /// The first is how the request began; the others answer the events.
    pub outcomes: Seq<Outcome>,
}

pub open spec fn steps_at(r: Served, i: int) -> bool {
    &&& method::event_fits(r.outcomes[i].next, r.events[i])
    &&& method::uri_step(
        r.acq,
        r.version,
        r.outcomes[i].next,
        r.outcomes[i].cache,
        r.events[i],
        r.outcomes[i + 1],
    )
}

/// True when `r` is a request, served as far as its events go.
pub open spec fn serves(r: Served) -> bool {
    &&& r.outcomes.len() == r.events.len() + 1
    &&& method::uri_start(r.acq, r.version, r.known, r.outcomes[0])
    &&& forall|i: int| 0 <= i < r.events.len() ==> #[trigger] steps_at(r, i)
}

/// True when the request is answered.
pub open spec fn finished(r: Served) -> bool {
    r.outcomes.last().action is Finish
}

/// What is known of the license stays known, and stays the same.
pub open spec fn keeps(before: CacheView, after: CacheView) -> bool {
    &&& before.license is Some ==> after.license == before.license
    &&& before.refusal is Some ==> after.refusal == before.refusal
}

pub proof fn lemma_state_fits(r: Served, i: int)
    requires
        serves(r),
        0 <= i < r.outcomes.len(),
    ensures
        method::state_fits(r.acq, r.outcomes[i].cache, r.outcomes[i].next),
    decreases i,
{
    if i > 0 {
        lemma_state_fits(r, i - 1);
        assert(steps_at(r, i - 1));
    }
}

/// A license that is known is not dropped or replaced, nor is the reason why
/// the sign-in failed.
pub proof fn law_license_is_kept(r: Served, i: int, j: int)
    requires
        serves(r),
        0 <= i <= j < r.outcomes.len(),
    ensures
        keeps(r.known, r.outcomes[i].cache),
        keeps(r.outcomes[i].cache, r.outcomes[j].cache),
    decreases i + j,
{
    if i < j {
        law_license_is_kept(r, i, j - 1);
        lemma_state_fits(r, j - 1);
        assert(steps_at(r, j - 1));
    } else if i > 0 {
        law_license_is_kept(r, i - 1, i - 1);
        lemma_state_fits(r, i - 1);
        assert(steps_at(r, i - 1));
    }
}

pub open spec fn stage(state: UriState) -> nat {
    match state {
        UriState::ReadingLicense { .. } => 0,
        UriState::SigningIn { .. } => 1,
        UriState::SavingLicense { .. } => 2,
        UriState::Fetching { .. } => 3,
        UriState::Creating { .. } => 4,
        UriState::ReadingBody { .. } => 5,
        UriState::WritingBody { .. } => 5,
        UriState::Syncing { .. } => 6,
        UriState::Renaming { .. } => 7,
        UriState::Reporting => 8,
        UriState::Finished => 9,
    }
}

/// A request goes forward: the license, the fetch, the file, the answer, in
/// this order. Only the reading and the writing of the body come more than
/// once.
pub proof fn law_stages_in_order(r: Served, i: int, j: int)
    requires
        serves(r),
        0 <= i < j < r.outcomes.len(),
    ensures
        stage(r.outcomes[i].next) <= stage(r.outcomes[j].next),
        stage(r.outcomes[i].next) == stage(r.outcomes[j].next) ==> stage(r.outcomes[i].next) == 5,
    decreases j,
{
    assert(steps_at(r, j - 1));
    if i < j - 1 {
        law_stages_in_order(r, i, j - 1);
    }
}

/// The URL that is fetched is that of the request, and the license goes with it
/// exactly where the path asks for one. For any other path the license is not
/// even read.
pub proof fn law_license_goes_where_needed(r: Served, i: int)
    requires
        serves(r),
        0 <= i < r.outcomes.len(),
    ensures
        r.outcomes[i].action matches UriAction::Get(get) ==> {
            let fields = method::field_views(get.headers@);
            let license = r.outcomes[i].cache.license;
            &&& method::https_url_of(r.acq.uri) == Some(get.url@)
            &&& method::needs_license(get.url@) ==> license is Some && fields.contains(
                ("Authorization"@, "Kyc-License "@ + codec::base64_text(license->0)),
            )
            &&& forall|k: int|
                0 <= k < fields.len() && (#[trigger] fields[k]).0 == "Authorization"@
                    ==> method::needs_license(get.url@)
        },
        r.outcomes[i].action is ReadLicense || r.outcomes[i].action is SignIn
            || r.outcomes[i].action is SaveLicense ==> {
            &&& method::https_url_of(r.acq.uri) is Some
            &&& method::needs_license(method::https_url_of(r.acq.uri)->0)
        },
{
    lemma_state_fits(r, i);
    if i > 0 {
        assert(steps_at(r, i - 1));
    }
    if let UriAction::Get(get) = r.outcomes[i].action {
        let license = r.outcomes[i].cache.license;
        let fields = method::field_views(get.headers@);
        assert(fields == method::get_headers(
            r.version,
            get.url@,
            license,
            r.acq.last_modified,
        ));
        reveal_strlit("User-Agent");
        reveal_strlit("Authorization");
        reveal_strlit("If-Modified-Since");
        assert("User-Agent"@.len() == 10);
        assert("Authorization"@.len() == 13);
        assert("If-Modified-Since"@.len() == 17);
        if method::needs_license(get.url@) {
            assert(fields[1] == (
                "Authorization"@,
                "Kyc-License "@ + codec::base64_text(license->0),
            ));
        }
    }
}

/// How often the user is asked to sign in.
pub open spec fn sign_ins(outcomes: Seq<Outcome>) -> nat
    decreases outcomes.len(),
{
    if outcomes.len() == 0 {
        0
    } else {
        sign_ins(outcomes.drop_last()) + if outcomes.last().action is SignIn {
            1nat
        } else {
            0nat
        }
    }
}

proof fn lemma_sign_ins(r: Served, i: int)
    requires
        serves(r),
        0 <= i < r.outcomes.len(),
    ensures
        sign_ins(r.outcomes.take(i + 1)) <= 1,
        sign_ins(r.outcomes.take(i + 1)) == 1 ==> {
            &&& !method::license_settled(r.known)
            &&& method::license_settled(r.outcomes[i].cache) || r.outcomes[i].next is SigningIn
        },
    decreases i,
{
    let upto = r.outcomes.take(i + 1);
    assert(upto.drop_last() =~= r.outcomes.take(i));
    assert(upto.last() == r.outcomes[i]);
    lemma_state_fits(r, i);
    law_license_is_kept(r, i, i);
    if i == 0 {
        assert(sign_ins(r.outcomes.take(0)) == 0);
    } else {
        lemma_sign_ins(r, i - 1);
        lemma_state_fits(r, i - 1);
        law_license_is_kept(r, i - 1, i);
        assert(steps_at(r, i - 1));
    }
}

/// A request asks the user to sign in at most once, and not at all when the
/// license, or why there is none, is known.
pub proof fn law_request_signs_in_once(r: Served)
    requires
        serves(r),
    ensures
        sign_ins(r.outcomes) <= 1,
        method::license_settled(r.known) ==> sign_ins(r.outcomes) == 0,
        sign_ins(r.outcomes) == 1 && finished(r) ==> method::license_settled(
            r.outcomes.last().cache,
        ),
{
    let n = r.events.len() as int;
    lemma_sign_ins(r, n);
    assert(r.outcomes.take(n + 1) =~= r.outcomes);
    if n > 0 {
        assert(steps_at(r, n - 1));
    }
}

/// Requests served one after the other by one process.
pub open spec fn in_turn(session: Seq<Served>) -> bool {
    &&& forall|i: int| 0 <= i < session.len() ==> #[trigger] serves(session[i])
    &&& forall|i: int|
        0 < i < session.len() ==> finished(session[i - 1]) && (#[trigger] session[i]).known
            == session[i - 1].outcomes.last().cache
}

pub open spec fn session_sign_ins(session: Seq<Served>) -> nat
    decreases session.len(),
{
    if session.len() == 0 {
        0
    } else {
        session_sign_ins(session.drop_last()) + sign_ins(session.last().outcomes)
    }
}

proof fn lemma_session_sign_ins(session: Seq<Served>)
    requires
        in_turn(session),
        session.len() > 0,
    ensures
        session_sign_ins(session) <= 1,
        session_sign_ins(session) == 1 && finished(session.last()) ==> method::license_settled(
            session.last().outcomes.last().cache,
        ),
    decreases session.len(),
{
    let last = session.last();
    let earlier = session.drop_last();
    assert(serves(session[session.len() - 1]));
    law_request_signs_in_once(last);
    let n = last.events.len() as int;
    law_license_is_kept(last, n, n);
    if earlier.len() == 0 {
        assert(session_sign_ins(earlier) == 0);
    } else {
        assert forall|i: int| 0 <= i < earlier.len() implies #[trigger] serves(earlier[i]) by {
            assert(serves(session[i]));
        }
        assert forall|i: int| 0 < i < earlier.len() implies finished(earlier[i - 1]) && (
        #[trigger] earlier[i]).known == earlier[i - 1].outcomes.last().cache by {
            assert(session[i] == earlier[i]);
            assert(session[i - 1] == earlier[i - 1]);
        }
        lemma_session_sign_ins(earlier);
        let k = session.len() - 1;
        assert(session[k].known == session[k - 1].outcomes.last().cache);
        assert(earlier.last() == session[k - 1]);
    }
}

/// However many requests a process serves, the user is asked to sign in at most
/// once.
pub proof fn law_one_sign_in_per_process(session: Seq<Served>)
    requires
        in_turn(session),
    ensures
        session_sign_ins(session) <= 1,
{
    if session.len() > 0 {
        lemma_session_sign_ins(session);
    }
}

/// True when apt was told no more than how far the request has come.
pub open spec fn only_status(uri: Seq<char>, told: Seq<u8>) -> bool {
    ||| told == Seq::<u8>::empty()
    ||| exists|message: Seq<char>|
        told == encode_utf8(#[trigger] method::status_block(uri, message))
}

/// True when apt was told that the request failed.
pub open spec fn failure_told(uri: Seq<char>, told: Seq<u8>) -> bool {
    exists|message: Seq<char>| told == encode_utf8(#[trigger] method::failure_block(uri, message))
}

/// True when apt was told that the file is there.
pub open spec fn done_told(acq: AcquireView, told: Seq<u8>) -> bool {
    exists|body: Seq<u8>, last_modified: Option<Seq<char>>|
        told == encode_utf8(#[trigger] method::done_block(acq, body, last_modified))
}

/// True when an action on a file, or a report, went well.
pub open spec fn went_well(event: UriEvent) -> bool {
    event matches UriEvent::Done(Ok(_))
}

/// What apt is told at each step: an answer where the request is reported or
/// fails, and the state of things at most anywhere else.
pub proof fn law_what_apt_is_told(r: Served, i: int)
    requires
        serves(r),
        0 <= i < r.outcomes.len(),
    ensures
        match r.outcomes[i].action {
            UriAction::Report => done_told(r.acq, r.outcomes[i].told),
            UriAction::Finish => failure_told(r.acq.uri, r.outcomes[i].told) || (i > 0
                && r.outcomes[i - 1].action is Report && went_well(r.events[i - 1])
                && r.outcomes[i].told == Seq::<u8>::empty()),
            _ => only_status(r.acq.uri, r.outcomes[i].told),
        },
{
    if i > 0 {
        assert(steps_at(r, i - 1));
        if i > 1 {
            assert(steps_at(r, i - 2));
        }
    }
}

proof fn lemma_first_char(head: Seq<char>, fields: Seq<protocol::Field>)
    requires
        head.len() > 0,
    ensures
        protocol::block_text(head, fields)[0] == head[0],
        protocol::block_text(head, fields).len() > 0,
{
    assert((head + "\n"@)[0] == head[0]);
    assert((head + "\n"@ + protocol::field_lines(fields))[0] == head[0]);
}

/// What apt is told is one of three things: the state of things, a failure, or
/// that the file is there.
pub proof fn law_answers_are_told_apart(acq: AcquireView, told: Seq<u8>)
    ensures
        !(only_status(acq.uri, told) && failure_told(acq.uri, told)),
        !(only_status(acq.uri, told) && done_told(acq, told)),
        !(failure_told(acq.uri, told) && done_told(acq, told)),
{
    reveal_strlit("102 Status");
    reveal_strlit("400 URI Failure");
    reveal_strlit("201 URI Done");
    assert forall|message: Seq<char>|
        told == encode_utf8(#[trigger] method::status_block(acq.uri, message)) implies decode_utf8(
        told,
    )[0] == '1' by {
        let block = method::status_block(acq.uri, message);
        encode_utf8_decode_utf8(block);
        lemma_first_char("102 Status"@, seq![("URI"@, acq.uri)].push(("Message"@, message)));
    }
    assert forall|message: Seq<char>|
        told == encode_utf8(#[trigger] method::failure_block(acq.uri, message)) implies decode_utf8(
        told,
    )[0] == '4' && told.len() > 0 by {
        let block = method::failure_block(acq.uri, message);
        encode_utf8_decode_utf8(block);
        lemma_first_char("400 URI Failure"@, seq![("URI"@, acq.uri)].push(("Message"@, message)));
    }
    assert forall|body: Seq<u8>, last_modified: Option<Seq<char>>|
        told == encode_utf8(
            #[trigger] method::done_block(acq, body, last_modified),
        ) implies decode_utf8(told)[0] == '2' && told.len() > 0 by {
        let block = method::done_block(acq, body, last_modified);
        encode_utf8_decode_utf8(block);
        let fields = seq![("URI"@, acq.uri)].push(("Filename"@, acq.filename)).push(
            ("Size"@, text::decimal_text(body.len())),
        ).push(("SHA256-Hash"@, codec::hex_text(codec::sha256_digest(body)))).push(
            ("SHA512-Hash"@, codec::hex_text(codec::sha512_digest(body))),
        ).push(("MD5Sum-Hash"@, codec::hex_text(codec::md5_digest(body))));
        lemma_first_char(
            "201 URI Done"@,
            protocol::with_optional(fields, "Last-Modified"@, last_modified),
        );
    }
}

/// A request gets one answer, which is the last that apt hears of it. Either
/// it failed, or the file is there and apt was told so; when that cannot be
/// sent, a failure follows.
pub proof fn law_one_answer(r: Served)
    requires
        serves(r),
        finished(r),
    ensures
        ({
            let n = r.events.len() as int;
            let reported = n > 0 && r.outcomes[n - 1].action is Report;
            &&& forall|i: int| #![trigger r.outcomes[i]]
                0 <= i < n && !(reported && i == n - 1) ==> only_status(
                    r.acq.uri,
                    r.outcomes[i].told,
                )
            &&& reported ==> done_told(r.acq, r.outcomes[n - 1].told)
            &&& reported && went_well(r.events[n - 1])
                ==> r.outcomes[n].told == Seq::<u8>::empty()
            &&& !(reported && went_well(r.events[n - 1]))
                ==> failure_told(r.acq.uri, r.outcomes[n].told)
        }),
{
    let n = r.events.len() as int;
    law_what_apt_is_told(r, n);
    if n > 0 {
        assert(steps_at(r, n - 1));
        law_what_apt_is_told(r, n - 1);
    }
    assert forall|i: int| #![trigger r.outcomes[i]]
        0 <= i < n && !(n > 0 && r.outcomes[n - 1].action is Report && i == n
            - 1) implies only_status(r.acq.uri, r.outcomes[i].told) by {
        law_what_apt_is_told(r, i);
        assert(steps_at(r, i));
        if i + 1 < n {
            assert(steps_at(r, i + 1));
        }
        if i > 0 {
            assert(steps_at(r, i - 1));
        }
    }
}

/// Once a request is answered, nothing more is done for it.
pub proof fn law_finish_is_final(r: Served, i: int)
    requires
        serves(r),
        0 <= i < r.outcomes.len(),
        r.outcomes[i].action is Finish,
    ensures
        i == r.outcomes.len() - 1,
{
    if i > 0 {
        assert(steps_at(r, i - 1));
    }
    if i < r.events.len() {
        assert(steps_at(r, i));
    }
}

/// The last answer of the server.
pub open spec fn head_in(events: Seq<UriEvent>) -> Option<method::HttpHead>
    decreases events.len(),
{
    if events.len() == 0 {
        None
    } else {
        match events.last() {
            UriEvent::Response(Ok(head)) => Some(head),
            _ => head_in(events.drop_last()),
        }
    }
}

/// The body as it was received.
pub open spec fn received(events: Seq<UriEvent>) -> Seq<u8>
    decreases events.len(),
{
    if events.len() == 0 {
        Seq::empty()
    } else {
        received(events.drop_last()) + match events.last() {
            UriEvent::Body(Ok(bytes)) => bytes@,
            _ => Seq::empty(),
        }
    }
}

/// What was to be written to the file.
pub open spec fn written(outcomes: Seq<Outcome>) -> Seq<u8>
    decreases outcomes.len(),
{
    if outcomes.len() == 0 {
        Seq::empty()
    } else {
        written(outcomes.drop_last()) + match outcomes.last().action {
            UriAction::WriteFile(bytes) => bytes@,
            _ => Seq::empty(),
        }
    }
}

/// What a state on the way from the answer of the server to the report holds.
pub open spec fn body_state(state: UriState) -> Option<(Seq<u8>, Option<Seq<char>>)> {
    match state {
        UriState::Creating { last_modified, .. } => Some(
            (Seq::empty(), protocol::opt_string(last_modified)),
        ),
        UriState::ReadingBody { last_modified, sums, .. } => Some(
            (sums@, protocol::opt_string(last_modified)),
        ),
        UriState::WritingBody { last_modified, sums, .. } => Some(
            (sums@, protocol::opt_string(last_modified)),
        ),
        UriState::Syncing { last_modified, sums } => Some(
            (sums@, protocol::opt_string(last_modified)),
        ),
        UriState::Renaming { last_modified, sums } => Some(
            (sums@, protocol::opt_string(last_modified)),
        ),
        _ => None,
    }
}

pub proof fn lemma_body(r: Served, i: int)
    requires
        serves(r),
        0 <= i < r.outcomes.len(),
    ensures
        stage(r.outcomes[i].next) < 4 ==> received(r.events.take(i)) == Seq::<u8>::empty()
            && written(r.outcomes.take(i + 1)) == Seq::<u8>::empty(),
        body_state(r.outcomes[i].next) matches Some((body, last_modified)) ==> {
            &&& body == received(r.events.take(i))
            &&& body == written(r.outcomes.take(i + 1))
            &&& head_in(r.events.take(i)) matches Some(head) && device_flow::is_success(
                head.status,
            ) && last_modified == protocol::opt_string(head.last_modified)
        },
    decreases i,
{
    let acts = r.outcomes.take(i + 1);
    assert(acts.drop_last() =~= r.outcomes.take(i));
    assert(acts.last() == r.outcomes[i]);
    if i == 0 {
        assert(written(r.outcomes.take(0)) =~= Seq::<u8>::empty());
        assert(r.events.take(0) =~= Seq::<UriEvent>::empty());
    } else {
        lemma_body(r, i - 1);
        assert(steps_at(r, i - 1));
        let events = r.events.take(i);
        assert(events.drop_last() =~= r.events.take(i - 1));
        assert(events.last() == r.events[i - 1]);
        assert(r.outcomes.take(i) == r.outcomes.take(i - 1 + 1));
        let before = received(r.events.take(i - 1));
        assert(before + Seq::<u8>::empty() =~= before);
        let before = written(r.outcomes.take(i));
        assert(before + Seq::<u8>::empty() =~= before);
    }
}

/// Apt is told that the file is there only when it is: the server answered with
/// success; all that was received, and nothing else, was written to the file
/// beside it, without an error; that file was synced, and then moved into
/// place. The size, the digests and `Last-Modified` are those of what was
/// received.
pub proof fn law_done_is_true(r: Served, i: int)
    requires
        serves(r),
        0 <= i < r.outcomes.len(),
        r.outcomes[i].action is Report,
    ensures
        ({
            let body = received(r.events.take(i));
            let head = head_in(r.events.take(i));
            &&& head is Some
            &&& device_flow::is_success(head->0.status)
            &&& r.outcomes[i].told == encode_utf8(
                method::done_block(r.acq, body, protocol::opt_string(head->0.last_modified)),
            )
            &&& body == written(r.outcomes.take(i))
            &&& i >= 2
            &&& r.outcomes[i - 2].action is SyncFile
            &&& r.outcomes[i - 1].action matches UriAction::RenameFile { from, to } && from@
                == method::partial_of(r.acq.filename) && to@ == r.acq.filename
            &&& forall|j: int| #![trigger r.outcomes[j]]
                0 <= j < i && stage(r.outcomes[j].next) >= 4 ==> match r.events[j] {
                    UriEvent::Done(done) => done is Ok,
                    UriEvent::Body(bytes) => bytes is Ok,
                    _ => false,
                }
        }),
{
    if i == 0 {
        assert(false);
    }
    assert(steps_at(r, i - 1));
    assert(r.outcomes[i - 1].next is Renaming);
    if i == 1 {
        assert(false);
    }
    assert(steps_at(r, i - 2));
    assert(r.outcomes[i - 2].next is Syncing);
    if i == 2 {
        assert(false);
    }
    assert(steps_at(r, i - 3));
    lemma_body(r, i - 1);
    let events = r.events.take(i);
    assert(events.drop_last() =~= r.events.take(i - 1));
    assert(events.last() == r.events[i - 1]);
    let body = received(r.events.take(i - 1));
    assert(body + Seq::<u8>::empty() =~= body);
    assert forall|j: int| #![trigger r.outcomes[j]]
        0 <= j < i && stage(r.outcomes[j].next) >= 4 implies match r.events[j] {
        UriEvent::Done(done) => done is Ok,
        UriEvent::Body(bytes) => bytes is Ok,
        _ => false,
    } by {
        assert(steps_at(r, j));
        if j + 1 < i {
            law_stages_in_order(r, j + 1, i);
        }
    }
}

/// The file that is created is the one that is moved into place.
pub proof fn law_partial_file(r: Served, i: int)
    requires
        serves(r),
        0 <= i < r.outcomes.len(),
    ensures
        r.outcomes[i].action matches UriAction::CreateFile(path) ==> path@ == method::partial_of(
            r.acq.filename,
        ),
        r.outcomes[i].action matches UriAction::RenameFile { from, to } ==> from@
            == method::partial_of(r.acq.filename) && to@ == r.acq.filename && from@ != to@,
{
    if i > 0 {
        assert(steps_at(r, i - 1));
    }
    reveal_strlit(".partial");
    assert(method::partial_of(r.acq.filename).len() == r.acq.filename.len() + 8);
}

} // verus!
