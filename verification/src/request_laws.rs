//! A request as apt, the server and the disk see it: what each event leads to,
//! what is sent, and what apt is told, over whole runs.

use vstd::prelude::*;
use vstd::utf8::*;

use crate::codec;
use crate::codec_laws;
use crate::device_flow;
use crate::method;
use crate::method::{
    CacheView, SessionAction, StreamError, UriAction, UriEvent, UriState,
};
use crate::method_laws;
use crate::method_laws::Served;
use crate::protocol;
use crate::protocol::{AcquireView, AptRequest, Field, ProtocolError, StateView};
use crate::protocol_laws;
use crate::text;
use crate::text_laws;
use crate::wire_laws;

verus! {

/// A block with a first line, the URI and a message, as apt gets it.
pub open spec fn message_bytes(first: Seq<char>, uri: Seq<char>, message: Seq<char>) -> Seq<u8> {
    encode_utf8(
        first + "\n"@ + (wire_laws::line("URI"@, uri) + wire_laws::line("Message"@, message))
            + "\n"@,
    )
}

/// A `201 URI Done` for `body`, as apt gets it.
pub open spec fn done_bytes(
    acq: AcquireView,
    body: Seq<u8>,
    last_modified: Option<Seq<char>>,
) -> Seq<u8> {
    encode_utf8(
        "201 URI Done"@ + "\n"@ + (wire_laws::line("URI"@, acq.uri) + wire_laws::line(
            "Filename"@,
            acq.filename,
        ) + wire_laws::line("Size"@, text::decimal_text(body.len())) + wire_laws::line(
            "SHA256-Hash"@,
            codec::hex_text(codec::sha256_digest(body)),
        ) + wire_laws::line("SHA512-Hash"@, codec::hex_text(codec::sha512_digest(body)))
            + wire_laws::line("MD5Sum-Hash"@, codec::hex_text(codec::md5_digest(body)))
            + wire_laws::optional_line("Last-Modified"@, last_modified)) + "\n"@,
    )
}

/// The messages of the method, as apt gets them.
pub proof fn law_messages_as_written(uri: Seq<char>, message: Seq<char>)
    ensures
        encode_utf8(method::status_block(uri, message)) == message_bytes(
            "102 Status"@,
            uri,
            message,
        ),
        encode_utf8(method::failure_block(uri, message)) == message_bytes(
            "400 URI Failure"@,
            uri,
            message,
        ),
{
    wire_laws::lemma_one_line("URI"@, uri);
    wire_laws::lemma_lines_push(seq![("URI"@, uri)], "Message"@, message);
}

/// The report of a file with these digests, as apt gets it, whatever its size is.
pub proof fn law_report_as_written(
    acq: AcquireView,
    size: nat,
    sha256: Seq<char>,
    sha512: Seq<char>,
    md5: Seq<char>,
    last_modified: Option<Seq<char>>,
)
    ensures
        method::done_text(acq, size, sha256, sha512, md5, last_modified) == "201 URI Done"@ + "\n"@
            + (wire_laws::line("URI"@, acq.uri) + wire_laws::line("Filename"@, acq.filename)
            + wire_laws::line("Size"@, text::decimal_text(size)) + wire_laws::line(
            "SHA256-Hash"@,
            sha256,
        ) + wire_laws::line("SHA512-Hash"@, sha512) + wire_laws::line("MD5Sum-Hash"@, md5)
            + wire_laws::optional_line("Last-Modified"@, last_modified)) + "\n"@,
{
    wire_laws::lemma_done_lines(
        acq.uri,
        acq.filename,
        text::decimal_text(size),
        sha256,
        Some(sha512),
        Some(md5),
        last_modified,
    );
}

proof fn lemma_done_bytes(acq: AcquireView, body: Seq<u8>, last_modified: Option<Seq<char>>)
    ensures
        encode_utf8(method::done_block(acq, body, last_modified)) == done_bytes(
            acq,
            body,
            last_modified,
        ),
{
    law_report_as_written(
        acq,
        body.len(),
        codec::hex_text(codec::sha256_digest(body)),
        codec::hex_text(codec::sha512_digest(body)),
        codec::hex_text(codec::md5_digest(body)),
        last_modified,
    );
}

/// What is added to the bytes for apt is all that is new in them.
pub proof fn law_what_is_added(before: Seq<u8>, after: Seq<u8>)
    requires
        before.is_prefix_of(after),
    ensures
        after == before + method::added(before, after),
{
    assert(after =~= before + method::added(before, after));
}

/// The name that the method goes by.
pub proof fn law_user_agent(version: Seq<char>)
    ensures
        method::user_agent_text(version) == "apt-transport-kyc/"@ + version,
{
}

/// True when a URI has a scheme that the method serves.
pub open spec fn served_scheme(uri: Seq<char>) -> bool {
    "kyc://"@.is_prefix_of(uri) || "kyc+https://"@.is_prefix_of(uri)
}

/// A URL without a scheme is asked for by its path too.
pub proof fn law_pool_without_a_scheme(host: Seq<char>, path: Seq<char>)
    requires
        !host.contains('/'),
        path.len() > 0 ==> path[0] == '/',
        !"https://"@.is_prefix_of(host + path),
    ensures
        method::needs_license(host + path) == "/pool/"@.is_prefix_of(path),
{
    let url = host + path;
    reveal_strlit("/pool/");
    reveal_strlit("/");
    if path.len() > 0 {
        text_laws::lemma_first_index(host, path, '/');
        assert(url.skip(host.len() as int) =~= path);
    } else {
        assert(url =~= host);
        text_laws::lemma_no_index(host, '/');
    }
}

/// True when the request ends with a failure that says `message`, and nothing
/// else.
pub open spec fn fails_with(r: Served, i: int, message: Seq<char>) -> bool {
    &&& r.outcomes[i].action is Finish
    &&& r.outcomes[i].told == message_bytes("400 URI Failure"@, r.acq.uri, message)
}

pub open spec fn says(r: Served, i: int, message: Seq<char>) -> bool {
    r.outcomes[i].told == message_bytes("102 Status"@, r.acq.uri, message)
}

pub open spec fn says_nothing(r: Served, i: int) -> bool {
    r.outcomes[i].told == Seq::<u8>::empty()
}

/// The state of a request goes with its last action.
proof fn lemma_kinds(r: Served, i: int)
    requires
        method_laws::serves(r),
        0 <= i < r.outcomes.len(),
    ensures
        r.outcomes[i].action is ReadLicense <==> r.outcomes[i].next is ReadingLicense,
        r.outcomes[i].action is SignIn <==> r.outcomes[i].next is SigningIn,
        r.outcomes[i].action is SaveLicense <==> r.outcomes[i].next is SavingLicense,
        r.outcomes[i].action is Get <==> r.outcomes[i].next is Fetching,
        r.outcomes[i].action is CreateFile <==> r.outcomes[i].next is Creating,
        r.outcomes[i].action is ReadBody <==> r.outcomes[i].next is ReadingBody,
        r.outcomes[i].action is WriteFile <==> r.outcomes[i].next is WritingBody,
        r.outcomes[i].action is SyncFile <==> r.outcomes[i].next is Syncing,
        r.outcomes[i].action is RenameFile <==> r.outcomes[i].next is Renaming,
        r.outcomes[i].action is Report <==> r.outcomes[i].next is Reporting,
        r.outcomes[i].action is Finish <==> r.outcomes[i].next is Finished,
{
    if i > 0 {
        assert(method_laws::steps_at(r, i - 1));
    }
}

/// A request for a URI with one of the two schemes is begun: apt is told, and the
/// file is asked for at once, unless a license is needed and not known. Any other
/// URI is refused.
pub proof fn law_request_begins(r: Served)
    requires
        method_laws::serves(r),
    ensures
        r.outcomes[0].cache == r.known,
        !served_scheme(r.acq.uri) ==> fails_with(
            r,
            0,
            "uri doesn't start with kyc+https://: "@ + r.acq.uri,
        ),
        served_scheme(r.acq.uri) ==> {
            let url = method::https_url_of(r.acq.uri)->0;
            &&& says(r, 0, "Downloading"@)
            &&& method::needs_license(url) && r.known.license is None
                ==> r.outcomes[0].action is ReadLicense
            &&& !method::needs_license(url) || r.known.license is Some ==> r.outcomes[0].action is Get
        },
{
    method_laws::law_scheme_is_rewritten(r.acq.uri, Seq::empty());
    law_messages_as_written(r.acq.uri, "Downloading"@);
    law_messages_as_written(r.acq.uri, "uri doesn't start with kyc+https://: "@ + r.acq.uri);
}

/// A request goes on as long as nothing fails: a license that is found or handed
/// out leads to the fetch, an answer of success to the file, all of the body into
/// the file, and the end of the body to the report.
pub proof fn law_request_goes_on(r: Served, i: int)
    requires
        method_laws::serves(r),
        0 <= i < r.events.len(),
    ensures
        match (r.outcomes[i].action, r.events[i]) {
            (UriAction::ReadLicense, UriEvent::License(Ok(Some(_)))) => {
                r.outcomes[i + 1].action is Get && says_nothing(r, i + 1)
            },
            (UriAction::ReadLicense, UriEvent::License(Ok(None))) => {
                r.outcomes[i].cache.refusal is None ==> r.outcomes[i + 1].action is SignIn && says(
                    r,
                    i + 1,
                    "License missing \u{2014} starting sign-in..."@,
                )
            },
            (UriAction::SignIn, UriEvent::SignedIn(Ok(pem))) => {
                &&& r.outcomes[i + 1].action matches UriAction::SaveLicense(bytes) && bytes@
                    == encode_utf8(pem@)
                &&& says_nothing(r, i + 1)
            },
            (UriAction::SaveLicense(_), UriEvent::Saved(Ok(path))) => {
                r.outcomes[i + 1].action is Get && says(
                    r,
                    i + 1,
                    "Sign-in complete; license at "@ + path@,
                )
            },
            (UriAction::Get(_), UriEvent::Response(Ok(head))) => {
                200 <= head.status <= 299 ==> (r.outcomes[i + 1].action matches
                    UriAction::CreateFile(path) && path@ == r.acq.filename + ".partial"@)
                    && says_nothing(r, i + 1)
            },
            (UriAction::CreateFile(_), UriEvent::Done(Ok(_))) => {
                r.outcomes[i + 1].action is ReadBody && says_nothing(r, i + 1)
            },
            (UriAction::ReadBody, UriEvent::Body(Ok(bytes))) => {
                &&& bytes@.len() > 0 ==> (r.outcomes[i + 1].action matches UriAction::WriteFile(
                    written,
                ) && written@ == bytes@)
                &&& bytes@.len() == 0 ==> r.outcomes[i + 1].action is SyncFile
                &&& says_nothing(r, i + 1)
            },
            (UriAction::WriteFile(_), UriEvent::Done(Ok(_))) => {
                r.outcomes[i + 1].action is ReadBody && says_nothing(r, i + 1)
            },
            (UriAction::SyncFile, UriEvent::Done(Ok(_))) => {
                &&& r.outcomes[i + 1].action matches UriAction::RenameFile { from, to } && from@
                    == r.acq.filename + ".partial"@ && to@ == r.acq.filename
                &&& says_nothing(r, i + 1)
            },
            (UriAction::RenameFile { .. }, UriEvent::Done(Ok(_))) => {
                r.outcomes[i + 1].action is Report
            },
            (UriAction::Report, UriEvent::Done(Ok(_))) => {
                r.outcomes[i + 1].action is Finish && says_nothing(r, i + 1)
            },
            _ => goes_wrong(r, i),
        },
{
    lemma_kinds(r, i);
    assert(method_laws::steps_at(r, i));
    law_messages_as_written(r.acq.uri, "License missing \u{2014} starting sign-in..."@);
    if let UriEvent::Saved(Ok(path)) = r.events[i] {
        law_messages_as_written(r.acq.uri, "Sign-in complete; license at "@ + path@);
    }
}

/// True when something fails at `i`: an action led to an error, the server did not
/// answer with success, or there is no license and the sign-in has failed before.
pub open spec fn goes_wrong(r: Served, i: int) -> bool {
    match r.events[i] {
        UriEvent::License(Err(_)) => true,
        UriEvent::License(Ok(None)) => r.outcomes[i].cache.refusal is Some,
        UriEvent::License(Ok(Some(_))) => false,
        UriEvent::SignedIn(result) => result is Err,
        UriEvent::Saved(result) => result is Err,
        UriEvent::Response(Err(_)) => true,
        UriEvent::Response(Ok(head)) => !(200 <= head.status <= 299),
        UriEvent::Body(result) => result is Err,
        UriEvent::Done(result) => result is Err,
    }
}

/// Where something fails, the request ends with a failure that tells it.
pub proof fn law_failures_are_told(r: Served, i: int)
    requires
        method_laws::serves(r),
        0 <= i < r.events.len(),
        goes_wrong(r, i),
    ensures
        ({
            let url = method::https_url_of(r.acq.uri)->0;
            let partial = r.acq.filename + ".partial"@;
            match (r.outcomes[i].action, r.events[i]) {
                (UriAction::ReadLicense, UriEvent::License(Err(e))) => fails_with(
                    r,
                    i + 1,
                    "reading license: "@ + e@,
                ),
                (UriAction::ReadLicense, UriEvent::License(Ok(_))) => fails_with(
                    r,
                    i + 1,
                    r.outcomes[i].cache.refusal->0,
                ),
                (UriAction::SignIn, UriEvent::SignedIn(Err(e))) => fails_with(
                    r,
                    i + 1,
                    device_flow::flow_error_text(e@),
                ),
                (UriAction::SaveLicense(_), UriEvent::Saved(Err(e))) => fails_with(
                    r,
                    i + 1,
                    "writing license: "@ + e@,
                ),
                (UriAction::Get(_), UriEvent::Response(Err(e))) => fails_with(
                    r,
                    i + 1,
                    "HTTPS GET "@ + url + ": "@ + e@,
                ),
                (UriAction::Get(_), UriEvent::Response(Ok(head))) => fails_with(
                    r,
                    i + 1,
                    "HTTPS GET "@ + url + " returned HTTP "@ + codec::status_text(head.status),
                ),
                (UriAction::CreateFile(_), UriEvent::Done(Err(e))) => fails_with(
                    r,
                    i + 1,
                    "create "@ + partial + ": "@ + e@,
                ),
                (UriAction::ReadBody, UriEvent::Body(Err(e))) => fails_with(
                    r,
                    i + 1,
                    "read "@ + url + ": "@ + e@,
                ),
                (UriAction::WriteFile(_), UriEvent::Done(Err(e))) => fails_with(
                    r,
                    i + 1,
                    "write "@ + partial + ": "@ + e@,
                ),
                (UriAction::SyncFile, UriEvent::Done(Err(e))) => fails_with(
                    r,
                    i + 1,
                    "fsync "@ + partial + ": "@ + e@,
                ),
                (UriAction::RenameFile { .. }, UriEvent::Done(Err(e))) => fails_with(
                    r,
                    i + 1,
                    "rename "@ + partial + " -> "@ + r.acq.filename + ": "@ + e@,
                ),
                (UriAction::Report, UriEvent::Done(Err(e))) => fails_with(
                    r,
                    i + 1,
                    "write URI Done: "@ + e@,
                ),
                _ => false,
            }
        }),
{
    lemma_kinds(r, i);
    method_laws::lemma_state_fits(r, i);
    assert(method_laws::steps_at(r, i));
    assert forall|message: Seq<char>|
        encode_utf8(#[trigger] method::failure_block(r.acq.uri, message)) == message_bytes(
            "400 URI Failure"@,
            r.acq.uri,
            message,
        ) by {
        law_messages_as_written(r.acq.uri, message);
    }
}

/// What is known of the license changes by what is found and handed out, and by a
/// sign-in that fails, and by nothing else.
pub proof fn law_what_is_known_of_the_license(r: Served, i: int)
    requires
        method_laws::serves(r),
        0 <= i < r.events.len(),
    ensures
        match r.events[i] {
            UriEvent::License(Ok(Some(bytes))) => r.outcomes[i + 1].cache == (CacheView {
                license: Some(bytes@),
                refusal: r.outcomes[i].cache.refusal,
            }),
            UriEvent::SignedIn(Ok(pem)) => r.outcomes[i + 1].cache == (CacheView {
                license: Some(encode_utf8(pem@)),
                refusal: r.outcomes[i].cache.refusal,
            }),
            UriEvent::SignedIn(Err(e)) => r.outcomes[i + 1].cache == (CacheView {
                license: r.outcomes[i].cache.license,
                refusal: Some(device_flow::flow_error_text(e@)),
            }),
            _ => r.outcomes[i + 1].cache == r.outcomes[i].cache,
        },
{
    assert(method_laws::steps_at(r, i));
}

/// Every fetch of a run, header by header. The time that apt knows of goes along
/// whenever apt sent one, and only then; the license goes along exactly where the
/// path asks for one; the user agent always does; and there is nothing else.
pub proof fn law_headers_of_a_fetch(r: Served, i: int, name: Seq<char>, value: Seq<char>)
    requires
        method_laws::serves(r),
        0 <= i < r.outcomes.len(),
        r.outcomes[i].action is Get,
    ensures
        r.outcomes[i].action matches UriAction::Get(get) && {
            let sent = exists|k: int|
                0 <= k < get.headers@.len() && (#[trigger] get.headers@[k]).0@ == name
                    && get.headers@[k].1@ == value;
            &&& method::https_url_of(r.acq.uri) == Some(get.url@)
            &&& name == "User-Agent"@ ==> (sent <==> value == "apt-transport-kyc/"@ + r.version)
            &&& name == "If-Modified-Since"@ ==> (sent <==> r.acq.last_modified == Some(value))
            &&& name == "Authorization"@ ==> (sent <==> method::needs_license(get.url@)
                && r.outcomes[i].cache.license is Some && value == "Kyc-License "@
                + codec::base64_text(r.outcomes[i].cache.license->0))
            &&& name != "User-Agent"@ && name != "If-Modified-Since"@ && name != "Authorization"@
                ==> !sent
            &&& method::needs_license(get.url@) ==> r.outcomes[i].cache.license is Some
            &&& forall|k: int, l: int|
                0 <= k < l < get.headers@.len() ==> #[trigger] get.headers@[k].0@
                    != #[trigger] get.headers@[l].0@
        },
{
    method_laws::lemma_state_fits(r, i);
    lemma_kinds(r, i);
    if i > 0 {
        assert(method_laws::steps_at(r, i - 1));
    }
    if let UriAction::Get(get) = r.outcomes[i].action {
        let license = r.outcomes[i].cache.license;
        let fields = method::field_views(get.headers@);
        assert(fields == method::get_headers(r.version, get.url@, license, r.acq.last_modified));
        reveal_strlit("User-Agent");
        reveal_strlit("Authorization");
        reveal_strlit("If-Modified-Since");
        assert("User-Agent"@.len() == 10);
        assert("Authorization"@.len() == 13);
        assert("If-Modified-Since"@.len() == 17);
        assert(fields.len() == get.headers@.len());
        assert forall|k: int| 0 <= k < fields.len() implies fields[k].0 == (
        #[trigger] get.headers@[k]).0@ && fields[k].1 == get.headers@[k].1@ by {}
        assert(fields[0] == ("User-Agent"@, "apt-transport-kyc/"@ + r.version));
        assert(get.headers@[0].0@ == "User-Agent"@);
        if method::needs_license(get.url@) {
            assert(fields[1] == (
                "Authorization"@,
                "Kyc-License "@ + codec::base64_text(license->0),
            ));
            assert(get.headers@[1].0@ == "Authorization"@);
        }
        if r.acq.last_modified is Some {
            let last = fields.len() - 1;
            assert(fields[last] == ("If-Modified-Since"@, r.acq.last_modified->0));
            assert(get.headers@[last].0@ == "If-Modified-Since"@);
        }
    }
}

/// Apt is told of the file that was received: its own URI and file name, and the
/// size, the digests and the time of what came from the server.
pub proof fn law_report_tells_what_was_received(r: Served, i: int)
    requires
        method_laws::serves(r),
        0 <= i < r.outcomes.len(),
        r.outcomes[i].action is Report,
    ensures
        method_laws::head_in(r.events.take(i)) matches Some(head) && r.outcomes[i].told
            == done_bytes(
            r.acq,
            method_laws::received(r.events.take(i)),
            match head.last_modified {
                Some(time) => Some(time@),
                None => None,
            },
        ),
{
    method_laws::law_done_is_true(r, i);
    if let Some(head) = method_laws::head_in(r.events.take(i)) {
        lemma_done_bytes(
            r.acq,
            method_laws::received(r.events.take(i)),
            protocol::opt_string(head.last_modified),
        );
    }
}

/// Where the body ends and nothing fails then, apt is told that the file is there.
pub proof fn law_end_of_body_leads_to_the_report(r: Served, i: int)
    requires
        method_laws::serves(r),
        0 <= i < r.events.len() - 2,
        r.events[i] matches UriEvent::Body(Ok(bytes)) && bytes@.len() == 0,
        !goes_wrong(r, i + 1),
        !goes_wrong(r, i + 2),
    ensures
        r.outcomes[i + 3].action is Report,
{
    lemma_kinds(r, i);
    lemma_kinds(r, i + 1);
    lemma_kinds(r, i + 2);
    assert(method_laws::steps_at(r, i));
    assert(method_laws::steps_at(r, i + 1));
    assert(method_laws::steps_at(r, i + 2));
}

/// A request for a URI that the method serves, in which nothing fails, ends well:
/// apt is told that the file is there, and of no failure. A failure is told only
/// where something failed.
pub proof fn law_good_request_ends_well(r: Served)
    requires
        method_laws::serves(r),
        method_laws::finished(r),
        served_scheme(r.acq.uri),
        forall|i: int| 0 <= i < r.events.len() ==> !#[trigger] goes_wrong(r, i),
    ensures
        ({
            let n = r.events.len() as int;
            &&& n > 0
            &&& r.outcomes[n - 1].action is Report
            &&& says_nothing(r, n)
            &&& forall|i: int|
                0 <= i <= n ==> !method_laws::failure_told(
                    r.acq.uri,
                    (#[trigger] r.outcomes[i]).told,
                )
        }),
{
    let n = r.events.len() as int;
    law_request_begins(r);
    lemma_kinds(r, 0);
    assert(n > 0);
    assert(!goes_wrong(r, n - 1));
    law_request_goes_on(r, n - 1);
    lemma_kinds(r, n - 1);
    assert(method_laws::steps_at(r, n - 1));
    assert(r.outcomes[n - 1].action is Report);
    method_laws::law_one_answer(r);
    assert forall|i: int| 0 <= i <= n implies !method_laws::failure_told(
        r.acq.uri,
        (#[trigger] r.outcomes[i]).told,
    ) by {
        method_laws::law_answers_are_told_apart(r.acq, r.outcomes[i].told);
        if i == n {
            assert(method_laws::only_status(r.acq.uri, r.outcomes[i].told));
        }
    }
}

/// A request in which something fails ends there, with a failure.
pub proof fn law_bad_request_ends_there(r: Served, i: int)
    requires
        method_laws::serves(r),
        0 <= i < r.events.len(),
        goes_wrong(r, i),
    ensures
        i == r.events.len() - 1,
        method_laws::finished(r),
        method_laws::failure_told(r.acq.uri, r.outcomes[i + 1].told),
{
    law_failures_are_told(r, i);
    method_laws::law_finish_is_final(r, i + 1);
    assert(method_laws::steps_at(r, i));
}

proof fn lemma_merged_push(fields: Seq<Field>, name: Seq<char>, value: Seq<char>)
    ensures
        protocol_laws::merged(Map::empty(), fields.push((name, value))) == protocol_laws::merged(
            Map::empty(),
            fields,
        ).insert(name, value),
{
    assert(fields.push((name, value)).drop_last() =~= fields);
}

proof fn lemma_hex_is_clean(bytes: Seq<u8>)
    ensures
        protocol_laws::one_line(codec::hex_text(bytes)),
{
    let t = codec::hex_text(bytes);
    codec_laws::law_hex_is_faithful(bytes, bytes);
    assert forall|k: int| 0 <= k < t.len() implies #[trigger] t[k] != '\n' && !text::white_space(
        t[k],
    ) by {
        let c = codec::hex_text(bytes)[k];
        assert('0' <= c <= '9' || 'a' <= c <= 'f');
    }
    if t.len() > 0 {
        assert(!text::white_space(t[0]));
        assert(!text::white_space(t[t.len() - 1]));
    }
    protocol_laws::lemma_no_space_at_ends(t);
}

/// The report, as apt reads it: a block with the code 201, in which the URI and
/// the file name are those of the request, the size is the number of bytes that
/// were received, and the digests and the time are theirs.
pub proof fn law_report_reads_back(r: Served, i: int)
    requires
        method_laws::serves(r),
        0 <= i < r.outcomes.len(),
        r.outcomes[i].action is Report,
        protocol_laws::one_line(r.acq.uri),
        protocol_laws::one_line(r.acq.filename),
        method_laws::head_in(r.events.take(i)) matches Some(head) ==> (
        head.last_modified matches Some(time) ==> protocol_laws::one_line(time@)),
    ensures
        ({
            let told = r.outcomes[i].told;
            let body = method_laws::received(r.events.take(i));
            let head = method_laws::head_in(r.events.take(i))->0;
            &&& told.len() > 0 && told.last() == 10
            &&& match protocol_laws::state_after(StateView::Idle, told.drop_last()) {
                Some(StateView::Fields { code, headers }) => {
                    &&& code == 201
                    &&& headers.contains_key("URI"@) && headers["URI"@] == r.acq.uri
                    &&& headers.contains_key("Filename"@) && headers["Filename"@] == r.acq.filename
                    &&& headers.contains_key("Size"@) && text_laws::digits_only(headers["Size"@])
                        && text_laws::place_value(headers["Size"@]) == body.len()
                    &&& headers.contains_key("SHA256-Hash"@) && headers["SHA256-Hash"@]
                        == codec::hex_text(codec::sha256_digest(body))
                    &&& headers.contains_key("SHA512-Hash"@) && headers["SHA512-Hash"@]
                        == codec::hex_text(codec::sha512_digest(body))
                    &&& headers.contains_key("MD5Sum-Hash"@) && headers["MD5Sum-Hash"@]
                        == codec::hex_text(codec::md5_digest(body))
                    &&& headers.contains_key("Last-Modified"@) <==> head.last_modified is Some
                    &&& head.last_modified matches Some(time) ==> headers["Last-Modified"@] == time@
                },
                _ => false,
            }
        }),
{
    method_laws::law_done_is_true(r, i);
    let body = method_laws::received(r.events.take(i));
    let head = method_laws::head_in(r.events.take(i))->0;
    let time = protocol::opt_string(head.last_modified);
    let size = text::decimal_text(body.len());
    let sha256 = codec::hex_text(codec::sha256_digest(body));
    let sha512 = codec::hex_text(codec::sha512_digest(body));
    let md5 = codec::hex_text(codec::md5_digest(body));
    text_laws::law_decimal_text(body.len());
    protocol_laws::lemma_names_are_clean();
    protocol_laws::lemma_first_lines();
    protocol_laws::lemma_numbers_are_clean(body.len());
    lemma_hex_is_clean(codec::sha256_digest(body));
    lemma_hex_is_clean(codec::sha512_digest(body));
    lemma_hex_is_clean(codec::md5_digest(body));
    let one = seq![("URI"@, r.acq.uri)];
    let two = one.push(("Filename"@, r.acq.filename));
    let three = two.push(("Size"@, size));
    let four = three.push(("SHA256-Hash"@, sha256));
    let five = four.push(("SHA512-Hash"@, sha512));
    let six = five.push(("MD5Sum-Hash"@, md5));
    let fields = protocol::with_optional(six, "Last-Modified"@, time);
    assert(protocol_laws::clean_fields(fields));
    protocol_laws::law_block_reads_back("201 URI Done"@, 201, fields, Seq::empty());
    let none = Map::<Seq<char>, Seq<char>>::empty();
    let start = Seq::<Field>::empty();
    assert(start.push(("URI"@, r.acq.uri)) =~= one);
    lemma_merged_push(start, "URI"@, r.acq.uri);
    lemma_merged_push(one, "Filename"@, r.acq.filename);
    lemma_merged_push(two, "Size"@, size);
    lemma_merged_push(three, "SHA256-Hash"@, sha256);
    lemma_merged_push(four, "SHA512-Hash"@, sha512);
    lemma_merged_push(five, "MD5Sum-Hash"@, md5);
    if time is Some {
        lemma_merged_push(six, "Last-Modified"@, time->0);
    }
    reveal_strlit("URI");
    reveal_strlit("Filename");
    reveal_strlit("Size");
    reveal_strlit("SHA256-Hash");
    reveal_strlit("SHA512-Hash");
    reveal_strlit("MD5Sum-Hash");
    reveal_strlit("Last-Modified");
    assert("URI"@.len() == 3 && "Filename"@.len() == 8 && "Size"@.len() == 4
        && "SHA256-Hash"@.len() == 11 && "SHA512-Hash"@.len() == 11 && "MD5Sum-Hash"@.len() == 11
        && "Last-Modified"@.len() == 13);
    assert("SHA256-Hash"@[3] == '2' && "SHA512-Hash"@[3] == '5' && "MD5Sum-Hash"@[3] == 'S');
    let map = protocol_laws::merged(none, fields);
    let lines = "201 URI Done"@ + "\n"@ + protocol::field_lines(fields);
    text_laws::lemma_encode_concat(lines, "\n"@);
    protocol_laws::lemma_newline_is_one_byte();
    let told = r.outcomes[i].told;
    assert(told == encode_utf8(lines) + seq![10u8]);
    assert(told.drop_last() =~= encode_utf8(lines));
}

/// What the method does with what it reads. It leaves in good order at the end of
/// the input; it reads on after a message that it does not handle, and takes every
/// request for a file; and it leaves with an error where the stream cannot be read.
pub proof fn law_session(
    input: Result<Option<AptRequest>, StreamError>,
    action: SessionAction,
)
    requires
        method::session_leads_to(input, action),
    ensures
        match input {
            Ok(None) => action matches SessionAction::Exit { code, message } && code == 0
                && message is None,
            Ok(Some(AptRequest::Configuration { .. })) => action is NextRequest,
            Ok(Some(AptRequest::UriAcquire(acq))) => action == SessionAction::Handle(acq),
            Err(StreamError::Io(words)) => action matches SessionAction::Exit {
                code,
                message: Some(m),
            } && code == 1 && m@ == "apt-transport-kyc: protocol error: "@ + words@,
            Err(StreamError::Protocol(ProtocolError::UnknownCode(code))) => action matches
                SessionAction::Log(m) && m@ == "apt-transport-kyc: protocol error: "@
                + "unknown code "@ + text::decimal_text(code as nat),
            Err(StreamError::Protocol(e)) => action matches SessionAction::Exit {
                code,
                message: Some(m),
            } && code == 1 && m@ == "apt-transport-kyc: protocol error: "@ + protocol::error_text(
                e@,
            ),
        },
{
    if let Err(StreamError::Protocol(ProtocolError::UnknownCode(code))) = input {
        let start = "apt-transport-kyc: protocol error: "@;
        let number = text::decimal_text(code as nat);
        assert(start + ("unknown code "@ + number) =~= start + "unknown code "@ + number);
    }
}

/// A refusal of the server in words, whatever the words of its status are.
pub proof fn law_refusals_in_words(url: Seq<char>, status: Seq<char>, quoted: Seq<char>)
    ensures
        method::refused_text(url, status) == "HTTPS GET "@ + url + " returned HTTP "@ + status,
        protocol::bad_code_line_text(quoted) == "bad code line: "@ + quoted,
{
}

/// A license goes into a header wherever its base64 fits in memory, and a body may
/// have any length under two to the power of 61.
pub proof fn law_limits(n: nat)
    ensures
        method::fits_header(n) <==> (n + 2) / 3 * 4 <= isize::MAX,
        codec::message_limit() == 0x2000_0000_0000_0000,
{
}

/// A request takes every event that its last action can lead to, within those
/// limits, so long as a status is one.
pub proof fn law_events_that_fit(state: UriState, event: UriEvent)
    ensures
        method::event_fits(state, event) <==> match event {
            UriEvent::License(found) => state is ReadingLicense && (found matches Ok(Some(bytes))
                ==> method::fits_header(bytes@.len())),
            UriEvent::SignedIn(handed) => state is SigningIn && (handed matches Ok(pem)
                ==> method::fits_header(encode_utf8(pem@).len())),
            UriEvent::Saved(_) => state is SavingLicense,
            UriEvent::Response(answer) => state is Fetching && (answer matches Ok(head) ==> 100
                <= head.status <= 999),
            UriEvent::Body(part) => (state matches UriState::ReadingBody { sums, .. } && (
            part matches Ok(bytes) ==> sums@.len() + bytes@.len() < codec::message_limit())),
            UriEvent::Done(_) => state is Creating || state is WritingBody || state is Syncing
                || state is Renaming || state is Reporting,
        },
{
}

} // verus!
