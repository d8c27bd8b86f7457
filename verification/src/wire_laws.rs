//! What the protocol is on the wire: what each line that is read does, and what
//! is written, character for character.

use vstd::prelude::*;
use vstd::utf8::*;

use crate::protocol;
use crate::protocol::{
    AptRequest, AptResponse, ErrorView, ProtocolError, ReadState, ReadStep, RequestView, StateView,
    StepView, UriAcquire,
};
use crate::text;
use crate::text_laws;

verus! {

/// True when `b` is the hexadecimal digit for `v`, in either case.
pub open spec fn nibble(b: u8, v: int) -> bool {
    ||| 0 <= v < 10 && b == 0x30 + v
    ||| 10 <= v < 16 && (b == 0x41 + v - 10 || b == 0x61 + v - 10)
}

/// A percent sign with two hexadecimal digits behind it stands for the byte that
/// they write.
pub proof fn law_escape_is_decoded(h: u8, l: u8, high: int, low: int, rest: Seq<u8>)
    requires
        nibble(h, high),
        nibble(l, low),
    ensures
        protocol::percent_decoded(seq![0x25u8].push(h).push(l) + rest) == seq![
            (16 * high + low) as u8,
        ] + protocol::percent_decoded(rest),
{
    let bytes = seq![0x25u8].push(h).push(l) + rest;
    assert(bytes[0] == 0x25 && bytes[1] == h && bytes[2] == l);
    assert(bytes.skip(3) =~= rest);
}

/// Any other byte stands for itself.
pub proof fn law_other_bytes_are_kept(b: u8, rest: Seq<u8>)
    requires
        !(b == 0x25 && rest.len() >= 2 && (exists|v: int| nibble(rest[0], v)) && (exists|v: int|
            nibble(rest[1], v))),
    ensures
        protocol::percent_decoded(seq![b] + rest) == seq![b] + protocol::percent_decoded(rest),
        protocol::percent_decoded(Seq::empty()) == Seq::<u8>::empty(),
{
    let bytes = seq![b] + rest;
    assert(bytes.skip(1) =~= rest);
    if protocol::starts_with_escape(bytes) {
        assert(bytes[1] == rest[0] && bytes[2] == rest[1]);
        assert(nibble(rest[0], protocol::hex_digit(rest[0])->0 as int));
        assert(nibble(rest[1], protocol::hex_digit(rest[1])->0 as int));
    }
}

/// A URI is read as the text whose bytes its own bytes stand for, and where they
/// stand for no text, as what is left of it.
pub proof fn law_uri_is_its_decoded_bytes(sent: Seq<char>, meant: Seq<char>)
    ensures
        protocol::percent_decoded(encode_utf8(sent)) == encode_utf8(meant)
            ==> protocol::url_decoded(sent) == meant,
        !valid_utf8(protocol::percent_decoded(encode_utf8(sent))) ==> protocol::url_decoded(sent)
            == text::lossy_utf8(protocol::percent_decoded(encode_utf8(sent))),
{
    text_laws::law_utf8_text(meant);
}

/// Lines are read one by one, each with its line feed. A line that ends a block
/// is the last that is read; what follows it is left.
pub proof fn law_lines_are_read_one_by_one(state: StateView, line: Seq<u8>, more: Seq<u8>)
    requires
        line.len() > 0,
        forall|i: int| 0 <= i < line.len() - 1 ==> #[trigger] line[i] != 10,
        line.last() == 10 || more.len() == 0,
    ensures
        protocol::read_from(state, line + more) == (match protocol::line_step(state, line) {
            StepView::More(next) => protocol::read_from(next, more),
            StepView::Done(Ok(request)) => (Ok::<Option<RequestView>, ErrorView>(Some(request)), more),
            StepView::Done(Err(e)) => (Err::<Option<RequestView>, ErrorView>(e), more),
        }),
{
    let input = line + more;
    protocol::lemma_line_length(input);
    let n = protocol::line_length(input);
    assert(n == line.len()) by {
        if n < line.len() {
            assert(input[n - 1] == 10);
            assert(line[n - 1] == input[n - 1]);
        } else if n > line.len() {
            assert(input[line.len() - 1] == line[line.len() - 1]);
        }
    }
    assert(input.take(n) =~= line);
    assert(input.skip(n) =~= more);
}

/// Where the input ends, a block that was begun is a request as it is, and there
/// is none where none was begun.
pub proof fn law_end_of_input(state: StateView)
    ensures
        protocol::read_from(state, Seq::empty()) == (protocol::end_step(state), Seq::<u8>::empty()),
        protocol::end_step(StateView::Idle) == Ok::<Option<RequestView>, ErrorView>(None),
        state matches StateView::Fields { code, headers } ==> protocol::end_step(state) == (
        match protocol::request_of(code, headers) {
            Ok(request) => Ok::<Option<RequestView>, ErrorView>(Some(request)),
            Err(e) => Err::<Option<RequestView>, ErrorView>(e),
        }),
{
}

/// A line that is no text is an error.
pub proof fn law_line_is_text(state: StateView, line: Seq<u8>)
    requires
        !valid_utf8(line),
    ensures
        protocol::line_step(state, line) == StepView::Done(
            Err::<RequestView, ErrorView>(ErrorView::InvalidUtf8),
        ),
{
}

/// A blank line is passed over before a block, and ends one that was begun.
pub proof fn law_blank_line(state: StateView, blank: Seq<char>)
    requires
        text_laws::blank_between(blank, 0, blank.len() as int),
    ensures
        protocol::line_step(state, encode_utf8(blank)) == (match state {
            StateView::Idle => StepView::More(StateView::Idle),
            StateView::Fields { code, headers } => StepView::Done(
                protocol::request_of(code, headers),
            ),
        }),
{
    lemma_text_of(blank);
    text_laws::lemma_trimmed_end_of(Seq::empty(), blank);
    assert(Seq::<char>::empty() + blank =~= blank);
}

proof fn lemma_text_of(line: Seq<char>)
    ensures
        valid_utf8(encode_utf8(line)),
        decode_utf8(encode_utf8(line)) == line,
{
    encode_utf8_valid_utf8(line);
    encode_utf8_decode_utf8(line);
}

/// A block begins with a line whose first word is its code. Any other line there
/// is an error that tells the line.
pub proof fn law_code_line(before: Seq<char>, word: Seq<char>, rest: Seq<char>)
    requires
        text_laws::blank_between(before, 0, before.len() as int),
        word.len() > 0,
        forall|k: int| 0 <= k < word.len() ==> !text::white_space(#[trigger] word[k]),
        rest.len() > 0 ==> text::white_space(rest[0]),
    ensures
        protocol::line_step(StateView::Idle, encode_utf8(before + word + rest)) == (
        match text::number_of(word) {
            Some(code) => StepView::More(
                StateView::Fields { code, headers: Map::<Seq<char>, Seq<char>>::empty() },
            ),
            None => StepView::Done(
                Err::<RequestView, ErrorView>(
                    ErrorView::BadCodeLine(text::trimmed_end(before + word + rest)),
                ),
            ),
        }),
{
    let line = before + word + rest;
    lemma_text_of(line);
    text_laws::law_trimmed_end(line);
    let t = text::trimmed_end(line);
    let k = t.len() as int;
    let n = (before.len() + word.len()) as int;
    assert(k >= n) by {
        if k < n {
            assert(line[n - 1] == word[word.len() - 1]);
        }
    }
    let tail = rest.take(k - n);
    assert(t =~= before + word + tail);
    text_laws::law_first_word(before, word, tail);
}

/// A line of a block that has a colon sets the field named before the first one
/// to what stands behind it, both without white space around them.
pub proof fn law_field_line(
    code: u16,
    headers: Map<Seq<char>, Seq<char>>,
    before: Seq<char>,
    name: Seq<char>,
    gap: Seq<char>,
    pad: Seq<char>,
    value: Seq<char>,
    after: Seq<char>,
)
    requires
        text_laws::blank_between(before, 0, before.len() as int),
        text_laws::blank_between(gap, 0, gap.len() as int),
        text_laws::blank_between(pad, 0, pad.len() as int),
        text_laws::blank_between(after, 0, after.len() as int),
        !name.contains(':'),
        name.len() > 0 ==> !text::white_space(name[0]) && !text::white_space(name.last()),
        value.len() > 0 ==> !text::white_space(value[0]) && !text::white_space(value.last()),
    ensures
        protocol::line_step(
            StateView::Fields { code, headers },
            encode_utf8(before + name + gap + seq![':'] + pad + value + after),
        ) == StepView::More(StateView::Fields { code, headers: headers.insert(name, value) }),
{
    let left = before + name + gap;
    let line = left + seq![':'] + pad + value + after;
    assert(line == before + name + gap + seq![':'] + pad + value + after);
    lemma_text_of(line);
    let right = if value.len() > 0 {
        pad + value
    } else {
        Seq::empty()
    };
    let core = left + (seq![':'] + right);
    let blank = if value.len() > 0 {
        after
    } else {
        pad + after
    };
    assert(line =~= core + blank);
    assert(!text::white_space(core.last())) by {
        if value.len() > 0 {
            assert(core.last() == value.last());
        } else {
            assert(core.last() == ':');
        }
    }
    assert forall|k: int| 0 <= k < blank.len() implies text::white_space(#[trigger] blank[k]) by {
        if value.len() == 0 {
            if k < pad.len() {
                assert(blank[k] == pad[k]);
            } else {
                assert(blank[k] == after[k - pad.len()]);
            }
        }
    }
    text_laws::lemma_trimmed_end_of(core, blank);
    assert(!left.contains(':')) by {
        if left.contains(':') {
            let k = choose|k: int| 0 <= k < left.len() && left[k] == ':';
            if k < before.len() {
                assert(left[k] == before[k]);
            } else if k < before.len() + name.len() {
                assert(name.contains(name[k - before.len()]));
            } else {
                assert(left[k] == gap[k - before.len() - name.len()]);
            }
        }
    }
    text_laws::lemma_first_index(left, seq![':'] + right, ':');
    let i = left.len() as int;
    assert(core.take(i) =~= left);
    assert(core.skip(i + 1) =~= right);
    text_laws::law_trimmed(before, name, gap);
    if value.len() > 0 {
        text_laws::law_trimmed(pad, value, Seq::empty());
        assert(pad + value + Seq::<char>::empty() =~= right);
    } else {
        text_laws::law_trimmed(Seq::empty(), value, Seq::empty());
        assert(Seq::<char>::empty() + value + Seq::<char>::empty() =~= right);
    }
}

/// A line of a block that has no colon, and is not blank, changes nothing.
pub proof fn law_line_without_field(
    code: u16,
    headers: Map<Seq<char>, Seq<char>>,
    line: Seq<char>,
)
    requires
        !line.contains(':'),
        !text_laws::blank_between(line, 0, line.len() as int),
    ensures
        protocol::line_step(StateView::Fields { code, headers }, encode_utf8(line))
            == StepView::More(StateView::Fields { code, headers }),
{
    lemma_text_of(line);
    text_laws::law_trimmed_end(line);
    let t = text::trimmed_end(line);
    assert(!t.contains(':')) by {
        if t.contains(':') {
            let k = choose|k: int| 0 <= k < t.len() && t[k] == ':';
            assert(line.contains(line[k]));
        }
    }
    text_laws::lemma_no_index(t, ':');
}

/// The request that a block makes. A `600` needs a URI and a file name; the time
/// that apt knows of and the hash that it expects go along where it sends them.
pub proof fn law_request_of_a_block(code: u16, headers: Map<Seq<char>, Seq<char>>)
    ensures
        code == 600 ==> match protocol::request_of(code, headers) {
            Ok(RequestView::UriAcquire(acq)) => {
                &&& headers.contains_key("URI"@)
                &&& headers.contains_key("Filename"@)
                &&& acq.uri == protocol::url_decoded(headers["URI"@])
                &&& acq.filename == headers["Filename"@]
                &&& acq.last_modified == (if headers.contains_key("Last-Modified"@) {
                    Some(headers["Last-Modified"@])
                } else {
                    None
                })
                &&& acq.expected_hash == (if headers.contains_key("Expected-SHA256"@) {
                    Some(headers["Expected-SHA256"@])
                } else if headers.contains_key("Expected-Checksum"@) {
                    Some(headers["Expected-Checksum"@])
                } else {
                    None
                })
            },
            Ok(_) => false,
            Err(ErrorView::MissingUri) => !headers.contains_key("URI"@),
            Err(ErrorView::MissingFilename) => headers.contains_key("URI"@)
                && !headers.contains_key("Filename"@),
            Err(_) => false,
        },
        code == 601 ==> protocol::request_of(code, headers) == Ok::<RequestView, ErrorView>(
            RequestView::Configuration { items: headers },
        ),
        code != 600 && code != 601 ==> protocol::request_of(code, headers) == Err::<
            RequestView,
            ErrorView,
        >(ErrorView::UnknownCode(code)),
{
}

/// What is said of requests, errors and the state of the reader is what they
/// hold.
pub proof fn law_views_show_all(
    acq: UriAcquire,
    request: AptRequest,
    error: ProtocolError,
    state: ReadState,
    step: ReadStep,
)
    ensures
        match state {
            ReadState::Idle => state@ == StateView::Idle,
            ReadState::Fields { code, headers } => state@ == (StateView::Fields {
                code,
                headers: headers@,
            }),
        },
        match step {
            ReadStep::More(next) => step@ == StepView::More(next@),
            ReadStep::Done(Ok(r)) => step@ == StepView::Done(Ok::<RequestView, ErrorView>(r@)),
            ReadStep::Done(Err(e)) => step@ == StepView::Done(Err::<RequestView, ErrorView>(e@)),
        },
        protocol::reading_view(Ok(Some(request))) == Ok::<Option<RequestView>, ErrorView>(
            Some(request@),
        ),
        protocol::reading_view(Ok(None)) == Ok::<Option<RequestView>, ErrorView>(None),
        protocol::reading_view(Err(error)) == Err::<Option<RequestView>, ErrorView>(error@),
        acq@.uri == acq.uri@,
        acq@.filename == acq.filename@,
        acq@.last_modified is Some <==> acq.last_modified is Some,
        acq.last_modified matches Some(t) ==> acq@.last_modified == Some(t@),
        acq@.expected_hash is Some <==> acq.expected_hash is Some,
        acq.expected_hash matches Some(t) ==> acq@.expected_hash == Some(t@),
        match request {
            AptRequest::Configuration { items } => request@ == (RequestView::Configuration {
                items: items@,
            }),
            AptRequest::UriAcquire(a) => request@ == RequestView::UriAcquire(a@),
        },
        match error {
            ProtocolError::InvalidUtf8 => error@ == ErrorView::InvalidUtf8,
            ProtocolError::BadCodeLine(line) => error@ == ErrorView::BadCodeLine(line@),
            ProtocolError::MissingUri => error@ == ErrorView::MissingUri,
            ProtocolError::MissingFilename => error@ == ErrorView::MissingFilename,
            ProtocolError::UnknownCode(code) => error@ == ErrorView::UnknownCode(code),
        },
{
}

/// Each error in words.
pub proof fn law_errors_in_words(line: Seq<char>, code: u16)
    ensures
        protocol::error_text(ErrorView::InvalidUtf8) == "stream did not contain valid UTF-8"@,
        protocol::error_text(ErrorView::BadCodeLine(line)) == "bad code line: "@
            + text::debug_text(line),
        protocol::error_text(ErrorView::MissingUri) == "600 missing URI"@,
        protocol::error_text(ErrorView::MissingFilename) == "600 missing Filename"@,
        protocol::error_text(ErrorView::UnknownCode(code)) == "unknown code "@
            + text::decimal_text(code as nat),
{
}

/// The line of a field.
pub open spec fn line(name: Seq<char>, value: Seq<char>) -> Seq<char> {
    name + ": "@ + value + "\n"@
}

/// The line of a field, where there is a value for it.
pub open spec fn optional_line(name: Seq<char>, value: Option<Seq<char>>) -> Seq<char> {
    match value {
        Some(v) => name + ": "@ + v + "\n"@,
        None => Seq::empty(),
    }
}

pub proof fn lemma_lines_push(fields: Seq<protocol::Field>, name: Seq<char>, value: Seq<char>)
    ensures
        protocol::field_lines(fields.push((name, value))) == protocol::field_lines(fields) + line(
            name,
            value,
        ),
{
    let longer = fields.push((name, value));
    assert(longer.drop_last() =~= fields);
    assert(longer.last() == (name, value));
}

pub proof fn lemma_one_line(name: Seq<char>, value: Seq<char>)
    ensures
        protocol::field_lines(seq![(name, value)]) == line(name, value),
{
    let none = Seq::<protocol::Field>::empty();
    lemma_lines_push(none, name, value);
    assert(none.push((name, value)) =~= seq![(name, value)]);
    assert(protocol::field_lines(none) == Seq::<char>::empty());
    assert(Seq::<char>::empty() + line(name, value) =~= line(name, value));
}

pub proof fn lemma_optional(
    fields: Seq<protocol::Field>,
    name: Seq<char>,
    value: Option<Seq<char>>,
)
    ensures
        protocol::field_lines(protocol::with_optional(fields, name, value))
            == protocol::field_lines(fields) + optional_line(name, value),
{
    match value {
        Some(v) => {
            lemma_lines_push(fields, name, v);
        },
        None => {
            let lines = protocol::field_lines(fields);
            assert(lines + Seq::<char>::empty() =~= lines);
        },
    }
}

/// A `201 URI Done` as it is written.
pub proof fn lemma_done_lines(
    uri: Seq<char>,
    filename: Seq<char>,
    size: Seq<char>,
    sha256: Seq<char>,
    sha512: Option<Seq<char>>,
    md5: Option<Seq<char>>,
    last_modified: Option<Seq<char>>,
)
    ensures
        protocol::field_lines(
            protocol::with_optional(
                protocol::with_optional(
                    protocol::with_optional(
                        seq![("URI"@, uri)].push(("Filename"@, filename)).push(
                            ("Size"@, size),
                        ).push(("SHA256-Hash"@, sha256)),
                        "SHA512-Hash"@,
                        sha512,
                    ),
                    "MD5Sum-Hash"@,
                    md5,
                ),
                "Last-Modified"@,
                last_modified,
            ),
        ) == line("URI"@, uri) + line("Filename"@, filename) + line("Size"@, size) + line(
            "SHA256-Hash"@,
            sha256,
        ) + optional_line("SHA512-Hash"@, sha512) + optional_line("MD5Sum-Hash"@, md5)
            + optional_line("Last-Modified"@, last_modified),
{
    let one = seq![("URI"@, uri)];
    let two = one.push(("Filename"@, filename));
    let three = two.push(("Size"@, size));
    let four = three.push(("SHA256-Hash"@, sha256));
    let five = protocol::with_optional(four, "SHA512-Hash"@, sha512);
    let six = protocol::with_optional(five, "MD5Sum-Hash"@, md5);
    lemma_one_line("URI"@, uri);
    lemma_lines_push(one, "Filename"@, filename);
    lemma_lines_push(two, "Size"@, size);
    lemma_lines_push(three, "SHA256-Hash"@, sha256);
    lemma_optional(four, "SHA512-Hash"@, sha512);
    lemma_optional(five, "MD5Sum-Hash"@, md5);
    lemma_optional(six, "Last-Modified"@, last_modified);
}

pub open spec fn truth(b: bool) -> Seq<char> {
    if b {
        "true"@
    } else {
        "false"@
    }
}

/// Every response, as apt gets it: a first line, the lines of its fields, and a
/// blank line.
pub proof fn law_responses_as_written(resp: AptResponse<'_>)
    ensures
        match resp {
            AptResponse::Capabilities { single_instance, pipeline, send_config } =>
                protocol::response_text(resp) == "100 Capabilities"@ + "\n"@ + (line(
                "Version"@,
                "1.2"@,
            ) + line("Single-Instance"@, truth(single_instance)) + line(
                "Pipeline"@,
                truth(pipeline),
            ) + line("Send-Config"@, truth(send_config))) + "\n"@,
            AptResponse::Status { uri, message } => protocol::response_text(resp) == "102 Status"@
                + "\n"@ + (line("URI"@, uri@) + line("Message"@, message@)) + "\n"@,
            AptResponse::UriStart { uri, size, last_modified } => protocol::response_text(resp)
                == "200 URI Start"@ + "\n"@ + (line("URI"@, uri@) + optional_line(
                "Size"@,
                match size {
                    Some(n) => Some(text::decimal_text(n as nat)),
                    None => None,
                },
            ) + optional_line(
                "Last-Modified"@,
                match last_modified {
                    Some(t) => Some(t@),
                    None => None,
                },
            )) + "\n"@,
            AptResponse::UriDone { uri, filename, size, sha256, sha512, md5, last_modified } =>
                protocol::response_text(resp) == "201 URI Done"@ + "\n"@ + (line("URI"@, uri@)
                + line("Filename"@, filename@) + line("Size"@, text::decimal_text(size as nat))
                + line("SHA256-Hash"@, sha256@) + optional_line(
                "SHA512-Hash"@,
                match sha512 {
                    Some(t) => Some(t@),
                    None => None,
                },
            ) + optional_line(
                "MD5Sum-Hash"@,
                match md5 {
                    Some(t) => Some(t@),
                    None => None,
                },
            ) + optional_line(
                "Last-Modified"@,
                match last_modified {
                    Some(t) => Some(t@),
                    None => None,
                },
            )) + "\n"@,
            AptResponse::UriFailure { uri, message } => protocol::response_text(resp)
                == "400 URI Failure"@ + "\n"@ + (line("URI"@, uri@) + line("Message"@, message@))
                + "\n"@,
        },
{
    match resp {
        AptResponse::Capabilities { single_instance, pipeline, send_config } => {
            let a = truth(single_instance);
            let b = truth(pipeline);
            let one = seq![("Version"@, "1.2"@)];
            let two = one.push(("Single-Instance"@, a));
            let three = two.push(("Pipeline"@, b));
            lemma_one_line("Version"@, "1.2"@);
            lemma_lines_push(one, "Single-Instance"@, a);
            lemma_lines_push(two, "Pipeline"@, b);
            lemma_lines_push(three, "Send-Config"@, truth(send_config));
        },
        AptResponse::Status { uri, message } => {
            lemma_one_line("URI"@, uri@);
            lemma_lines_push(seq![("URI"@, uri@)], "Message"@, message@);
        },
        AptResponse::UriStart { uri, size, last_modified } => {
            let one = seq![("URI"@, uri@)];
            let number = match size {
                Some(n) => Some(text::decimal_text(n as nat)),
                None => None,
            };
            lemma_one_line("URI"@, uri@);
            lemma_optional(one, "Size"@, number);
            lemma_optional(
                protocol::with_optional(one, "Size"@, number),
                "Last-Modified"@,
                protocol::opt_str(last_modified),
            );
        },
        AptResponse::UriDone { uri, filename, size, sha256, sha512, md5, last_modified } => {
            lemma_done_lines(
                uri@,
                filename@,
                text::decimal_text(size as nat),
                sha256@,
                protocol::opt_str(sha512),
                protocol::opt_str(md5),
                protocol::opt_str(last_modified),
            );
        },
        AptResponse::UriFailure { uri, message } => {
            lemma_one_line("URI"@, uri@);
            lemma_lines_push(seq![("URI"@, uri@)], "Message"@, message@);
        },
    }
}

} // verus!
