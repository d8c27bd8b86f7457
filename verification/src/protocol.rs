//! The protocol between apt and its method binaries: parser and emitter.
//!
//! Apt starts a method binary and talks to it over its standard input and
//! output, in blocks of header lines that end with a blank line:
//!
//! ```text
//! Method -> apt:
//!   100 Capabilities    (announced at startup)
//!   102 Status          (progress of one URI, for apt's display)
//!   200 URI Start       (download in progress, optional)
//!   201 URI Done        (success: with Size and SHA256-Hash)
//!   400 URI Failure     (this URI failed; the method stays alive)
//!
//! Apt -> method:
//!   601 Configuration   (apt's configuration, at startup)
//!   600 URI Acquire     (one for each file to download)
//! ```
//!
//! Blocks are read line by line: [`ReadState`] takes one line at a time, and
//! [`read_request`] runs it over bytes that are already there.

use vstd::prelude::*;
use vstd::slice::slice_subrange;
use vstd::utf8::*;

use crate::headers::Headers;
use crate::text;
use crate::text::{
    debug_string, decode_chars, first_word, from_chars, index_of, parse_number, push_decimal,
    string_from_utf8_lossy, trim, trim_end,
};

verus! {

/// A message from apt.
#[derive(Debug, Clone)]
pub enum AptRequest {
    /// `601 Configuration`: apt's settings.
    Configuration { items: Headers },
    /// `600 URI Acquire`: apt wants this file fetched.
    UriAcquire(UriAcquire),
}

#[derive(Debug, Clone)]
pub struct UriAcquire {
    /// The URI with its percent-escapes decoded.
    pub uri: String,
    /// The path to which the method writes the body.
    pub filename: String,
    /// The `Last-Modified` that apt knows of, for a conditional request.
    pub last_modified: Option<String>,
    /// The hash that apt expects of the body.
    pub expected_hash: Option<String>,
}

/// A message to apt.
#[derive(Debug, Clone)]
pub enum AptResponse<'a> {
    /// `100 Capabilities`.
    Capabilities {
        /// One method process handles every URI of this apt run.
        single_instance: bool,
        /// Apt may send further requests before the first is answered.
        pipeline: bool,
        /// Apt sends `601 Configuration` at startup.
        send_config: bool,
    },
    /// `102 Status`.
    Status { uri: &'a str, message: &'a str },
    /// `200 URI Start`.
    UriStart { uri: &'a str, size: Option<u64>, last_modified: Option<&'a str> },
    /// `201 URI Done`.
    UriDone {
        uri: &'a str,
        filename: &'a str,
        size: u64,
        sha256: &'a str,
        sha512: Option<&'a str>,
        md5: Option<&'a str>,
        last_modified: Option<&'a str>,
    },
    /// `400 URI Failure`.
    UriFailure { uri: &'a str, message: &'a str },
}

/// Why a block from apt could not be read.
#[derive(Debug, Clone)]
pub enum ProtocolError {
    /// A line was not valid UTF-8.
    InvalidUtf8,
    /// The first line does not start with a number; the line, trimmed.
    BadCodeLine(String),
    /// `600` without a `URI` field.
    MissingUri,
    /// `600` without a `Filename` field.
    MissingFilename,
    /// A message with a code that methods do not handle.
    UnknownCode(u16),
}

/// What an [`AptRequest`] says.
pub enum RequestView {
    Configuration { items: Map<Seq<char>, Seq<char>> },
    UriAcquire(AcquireView),
}

/// What a [`UriAcquire`] says.
pub struct AcquireView {
    pub uri: Seq<char>,
    pub filename: Seq<char>,
    pub last_modified: Option<Seq<char>>,
    pub expected_hash: Option<Seq<char>>,
}

/// What a [`ProtocolError`] says.
pub enum ErrorView {
    InvalidUtf8,
    BadCodeLine(Seq<char>),
    MissingUri,
    MissingFilename,
    UnknownCode(u16),
}

pub open spec fn opt_string(s: Option<String>) -> Option<Seq<char>> {
    match s {
        Some(t) => Some(t@),
        None => None,
    }
}

pub open spec fn opt_str(s: Option<&str>) -> Option<Seq<char>> {
    match s {
        Some(t) => Some(t@),
        None => None,
    }
}

impl View for UriAcquire {
    type V = AcquireView;

    open spec fn view(&self) -> AcquireView {
        AcquireView {
            uri: self.uri@,
            filename: self.filename@,
            last_modified: opt_string(self.last_modified),
            expected_hash: opt_string(self.expected_hash),
        }
    }
}

impl View for AptRequest {
    type V = RequestView;

    open spec fn view(&self) -> RequestView {
        match self {
            AptRequest::Configuration { items } => RequestView::Configuration { items: items@ },
            AptRequest::UriAcquire(a) => RequestView::UriAcquire(a@),
        }
    }
}

impl View for ProtocolError {
    type V = ErrorView;

    open spec fn view(&self) -> ErrorView {
        match self {
            ProtocolError::InvalidUtf8 => ErrorView::InvalidUtf8,
            ProtocolError::BadCodeLine(line) => ErrorView::BadCodeLine(line@),
            ProtocolError::MissingUri => ErrorView::MissingUri,
            ProtocolError::MissingFilename => ErrorView::MissingFilename,
            ProtocolError::UnknownCode(code) => ErrorView::UnknownCode(*code),
        }
    }
}

/// The value of a hexadecimal digit.
pub open spec fn hex_digit(b: u8) -> Option<u8> {
    if '0' as u8 <= b <= '9' as u8 {
        Some((b - '0' as u8) as u8)
    } else if 'a' as u8 <= b <= 'f' as u8 {
        Some((b - 'a' as u8 + 10) as u8)
    } else if 'A' as u8 <= b <= 'F' as u8 {
        Some((b - 'A' as u8 + 10) as u8)
    } else {
        None
    }
}

/// True when `bytes` start with `%` and two hexadecimal digits.
pub open spec fn starts_with_escape(bytes: Seq<u8>) -> bool {
    &&& bytes.len() >= 3
    &&& bytes[0] == '%' as u8
    &&& hex_digit(bytes[1]) is Some
    &&& hex_digit(bytes[2]) is Some
}

/// The byte that the escape at the start of `bytes` stands for.
pub open spec fn escaped_byte(bytes: Seq<u8>) -> u8 {
    (hex_digit(bytes[1])->0 * 16 + hex_digit(bytes[2])->0) as u8
}

/// `bytes` with each escape replaced by the byte that it stands for.
pub open spec fn percent_decoded(bytes: Seq<u8>) -> Seq<u8>
    decreases bytes.len(),
{
    if bytes.len() == 0 {
        Seq::empty()
    } else if starts_with_escape(bytes) {
        seq![escaped_byte(bytes)] + percent_decoded(bytes.skip(3))
    } else {
        seq![bytes[0]] + percent_decoded(bytes.skip(1))
    }
}

/// What [`url_decode`] makes of `s`.
pub open spec fn url_decoded(s: Seq<char>) -> Seq<char> {
    text::utf8_text(percent_decoded(encode_utf8(s)))
}

pub fn hex_val(b: u8) -> (v: Option<u8>)
    ensures
        v == hex_digit(b),
{
    if '0' as u8 <= b && b <= '9' as u8 {
        Some(b - '0' as u8)
    } else if 'a' as u8 <= b && b <= 'f' as u8 {
        Some(b - 'a' as u8 + 10)
    } else if 'A' as u8 <= b && b <= 'F' as u8 {
        Some(b - 'A' as u8 + 10)
    } else {
        None
    }
}

/// Replaces each escape in `bytes` by the byte that it stands for. A `%`
/// without two hexadecimal digits after it is kept as it is.
pub fn percent_decode(bytes: &[u8]) -> (out: Vec<u8>)
    ensures
        out@ == percent_decoded(bytes@),
{
    let mut out: Vec<u8> = Vec::with_capacity(bytes.len());
    let mut i: usize = 0;
    assert(bytes@.skip(0) == bytes@);
    assert(out@ + percent_decoded(bytes@) == percent_decoded(bytes@));
    while i < bytes.len()
        invariant
            i <= bytes@.len(),
            out@ + percent_decoded(bytes@.skip(i as int)) == percent_decoded(bytes@),
        decreases bytes@.len() - i,
    {
        let ghost rest = bytes@.skip(i as int);
        let ghost before = out@;
        if bytes[i] == '%' as u8 && bytes.len() - i > 2 {
            if let (Some(hi), Some(lo)) = (hex_val(bytes[i + 1]), hex_val(bytes[i + 2])) {
                assert(starts_with_escape(rest));
                out.push(hi * 16 + lo);
                i += 3;
                assert(rest.skip(3) == bytes@.skip(i as int));
                assert(before + (seq![escaped_byte(rest)] + percent_decoded(rest.skip(3))) == out@
                    + percent_decoded(bytes@.skip(i as int)));
                continue ;
            }
        }
        assert(!starts_with_escape(rest));
        out.push(bytes[i]);
        i += 1;
        assert(rest.skip(1) == bytes@.skip(i as int));
        assert(before + (seq![rest[0]] + percent_decoded(rest.skip(1))) == out@ + percent_decoded(
            bytes@.skip(i as int),
        ));
    }
    assert(out@ + Seq::<u8>::empty() == out@);
    out
}

/// Decodes the percent-escapes of a URI. Apt sends `~` and `+` in Debian
/// version strings as `%7E` and `%2B`. A stray `%` is passed through.
pub fn url_decode(s: &str) -> (decoded: String)
    ensures
        decoded@ == url_decoded(s@),
{
    let bytes = percent_decode(s.as_bytes());
    string_from_utf8_lossy(bytes.as_slice())
}

/// How far the reading of a block has come.
#[derive(Debug)]
pub enum ReadState {
    /// No line of the block has been seen.
    Idle,
    /// The first line has been seen; its code, and the fields since.
    Fields { code: u16, headers: Headers },
}

/// What one line leads to.
#[derive(Debug)]
pub enum ReadStep {
    /// The block goes on.
    More(ReadState),
    /// The block is over: it was complete, or could not be read.
    Done(Result<AptRequest, ProtocolError>),
}

/// What a [`ReadState`] says.
pub enum StateView {
    Idle,
    Fields { code: u16, headers: Map<Seq<char>, Seq<char>> },
}

/// What a [`ReadStep`] says.
pub enum StepView {
    More(StateView),
    Done(Result<RequestView, ErrorView>),
}

impl View for ReadState {
    type V = StateView;

    open spec fn view(&self) -> StateView {
        match self {
            ReadState::Idle => StateView::Idle,
            ReadState::Fields { code, headers } => StateView::Fields {
                code: *code,
                headers: headers@,
            },
        }
    }
}

pub open spec fn result_view(r: Result<AptRequest, ProtocolError>) -> Result<
    RequestView,
    ErrorView,
> {
    match r {
        Ok(request) => Ok(request@),
        Err(e) => Err(e@),
    }
}

pub open spec fn reading_view(r: Result<Option<AptRequest>, ProtocolError>) -> Result<
    Option<RequestView>,
    ErrorView,
> {
    match r {
        Ok(Some(request)) => Ok(Some(request@)),
        Ok(None) => Ok(None),
        Err(e) => Err(e@),
    }
}

impl View for ReadStep {
    type V = StepView;

    open spec fn view(&self) -> StepView {
        match self {
            ReadStep::More(state) => StepView::More(state@),
            ReadStep::Done(r) => StepView::Done(result_view(*r)),
        }
    }
}

pub open spec fn lookup(headers: Map<Seq<char>, Seq<char>>, name: Seq<char>) -> Option<Seq<char>> {
    if headers.contains_key(name) {
        Some(headers[name])
    } else {
        None
    }
}

/// The request that a block with this code and these fields makes.
pub open spec fn request_of(code: u16, headers: Map<Seq<char>, Seq<char>>) -> Result<
    RequestView,
    ErrorView,
> {
    if code == 600 {
        match (lookup(headers, "URI"@), lookup(headers, "Filename"@)) {
            (None, _) => Err(ErrorView::MissingUri),
            (_, None) => Err(ErrorView::MissingFilename),
            (Some(uri), Some(filename)) => Ok(
                RequestView::UriAcquire(
                    AcquireView {
                        uri: url_decoded(uri),
                        filename,
                        last_modified: lookup(headers, "Last-Modified"@),
                        expected_hash: match lookup(headers, "Expected-SHA256"@) {
                            Some(hash) => Some(hash),
                            None => lookup(headers, "Expected-Checksum"@),
                        },
                    },
                ),
            ),
        }
    } else if code == 601 {
        Ok(RequestView::Configuration { items: headers })
    } else {
        Err(ErrorView::UnknownCode(code))
    }
}

/// `headers` with the field that a line writes. A line without a colon
/// writes none.
pub open spec fn with_line(headers: Map<Seq<char>, Seq<char>>, line: Seq<char>) -> Map<
    Seq<char>,
    Seq<char>,
> {
    let i = text::first_index(line, ':');
    if i < line.len() {
        headers.insert(
            text::trimmed(line.take(i)),
            text::trimmed(line.skip(i + 1)),
        )
    } else {
        headers
    }
}

/// What a line, trimmed at its end, leads to.
pub open spec fn text_step(state: StateView, line: Seq<char>) -> StepView {
    match state {
        StateView::Idle => if line.len() == 0 {
            StepView::More(StateView::Idle)
        } else {
            match text::number_of(text::first_word_of(line)) {
                Some(code) => StepView::More(StateView::Fields { code, headers: Map::empty() }),
                None => StepView::Done(Err(ErrorView::BadCodeLine(line))),
            }
        },
        StateView::Fields { code, headers } => if line.len() == 0 {
            StepView::Done(request_of(code, headers))
        } else {
            StepView::More(StateView::Fields { code, headers: with_line(headers, line) })
        },
    }
}

/// What a line of bytes leads to.
pub open spec fn line_step(state: StateView, line: Seq<u8>) -> StepView {
    if valid_utf8(line) {
        text_step(state, text::trimmed_end(decode_utf8(line)))
    } else {
        StepView::Done(Err(ErrorView::InvalidUtf8))
    }
}

/// What the end of the input leads to: nothing where no block had begun, and
/// else the request of what was there.
pub open spec fn end_step(state: StateView) -> Result<Option<RequestView>, ErrorView> {
    match state {
        StateView::Idle => Ok(None),
        StateView::Fields { code, headers } => match request_of(code, headers) {
            Ok(request) => Ok(Some(request)),
            Err(e) => Err(e),
        },
    }
}

/// The length of the first line of `input`, with its line feed.
pub open spec fn line_length(input: Seq<u8>) -> int
    decreases input.len(),
{
    if input.len() == 0 {
        0
    } else if input[0] == 10 {
        1
    } else {
        1 + line_length(input.skip(1))
    }
}

/// What reading `input` line by line from `state` gives, and the bytes that
/// are left unread.
pub open spec fn read_from(state: StateView, input: Seq<u8>) -> (
    Result<Option<RequestView>, ErrorView>,
    Seq<u8>,
)
    decreases input.len(),
{
    let n = line_length(input);
    if input.len() == 0 || n <= 0 || n > input.len() {
        (end_step(state), input)
    } else {
        match line_step(state, input.take(n)) {
            StepView::More(next) => read_from(next, input.skip(n)),
            StepView::Done(Ok(request)) => (Ok(Some(request)), input.skip(n)),
            StepView::Done(Err(e)) => (Err(e), input.skip(n)),
        }
    }
}

pub proof fn lemma_line_length(input: Seq<u8>)
    ensures
        0 <= line_length(input) <= input.len(),
        input.len() > 0 ==> line_length(input) > 0,
        forall|i: int| 0 <= i < line_length(input) - 1 ==> input[i] != 10,
        line_length(input) < input.len() ==> input[line_length(input) - 1] == 10,
    decreases input.len(),
{
    if input.len() > 0 && input[0] != 10 {
        lemma_line_length(input.skip(1));
        let n = line_length(input);
        assert forall|i: int| 0 <= i < n - 1 implies input[i] != 10 by {
            if i > 0 {
                assert(input.skip(1)[i - 1] == input[i]);
            }
        }
        if n < input.len() {
            assert(input.skip(1)[n - 2] == input[n - 1]);
        }
    }
}

/// The length of the first line of `input`, with its line feed.
fn first_line(input: &[u8]) -> (n: usize)
    ensures
        n == line_length(input@),
        n <= input@.len(),
        input@.len() > 0 ==> n > 0,
{
    let mut n: usize = 0;
    assert(input@.skip(0) == input@);
    while n < input.len()
        invariant
            n <= input@.len(),
            n + line_length(input@.skip(n as int)) == line_length(input@),
        decreases input@.len() - n,
    {
        assert(input@.skip(n as int).skip(1) == input@.skip(n + 1));
        if input[n] == 10 {
            return n + 1;
        }
        n += 1;
    }
    n
}

fn optional(value: Option<&String>) -> (r: Option<String>)
    ensures
        opt_string(r) == (match value {
            Some(v) => Some(v@),
            None => None,
        }),
{
    match value {
        Some(v) => Some(v.clone()),
        None => None,
    }
}

/// The request that a block with this code and these fields makes.
fn build_request(code: u16, headers: Headers) -> (r: Result<AptRequest, ProtocolError>)
    ensures
        result_view(r) == request_of(code, headers@),
{
    if code == 600 {
        let uri = match headers.get("URI") {
            Some(uri) => url_decode(uri.as_str()),
            None => {
                return Err(ProtocolError::MissingUri);
            },
        };
        let filename = match headers.get("Filename") {
            Some(filename) => filename.clone(),
            None => {
                return Err(ProtocolError::MissingFilename);
            },
        };
        let last_modified = optional(headers.get("Last-Modified"));
        let expected_hash = match headers.get("Expected-SHA256") {
            Some(hash) => Some(hash.clone()),
            None => optional(headers.get("Expected-Checksum")),
        };
        Ok(AptRequest::UriAcquire(UriAcquire { uri, filename, last_modified, expected_hash }))
    } else if code == 601 {
        Ok(AptRequest::Configuration { items: headers })
    } else {
        Err(ProtocolError::UnknownCode(code))
    }
}

impl ReadState {
    /// Takes one line, with or without its line feed.
    pub fn on_line(self, line: &[u8]) -> (step: ReadStep)
        ensures
            step@ == line_step(self@, line@),
    {
        let chars = match decode_chars(line) {
            Some(chars) => chars,
            None => {
                return ReadStep::Done(Err(ProtocolError::InvalidUtf8));
            },
        };
        let text = trim_end(chars.as_slice());
        match self {
            ReadState::Idle => {
                if text.len() == 0 {
                    return ReadStep::More(ReadState::Idle);
                }
                match parse_number(first_word(text)) {
                    Some(code) => ReadStep::More(
                        ReadState::Fields { code, headers: Headers::new() },
                    ),
                    None => ReadStep::Done(Err(ProtocolError::BadCodeLine(from_chars(text)))),
                }
            },
            ReadState::Fields { code, mut headers } => {
                if text.len() == 0 {
                    return ReadStep::Done(build_request(code, headers));
                }
                let i = index_of(text, ':');
                if i < text.len() {
                    let name = from_chars(trim(slice_subrange(text, 0, i)));
                    let value = from_chars(trim(slice_subrange(text, i + 1, text.len())));
                    headers.insert(name, value);
                }
                ReadStep::More(ReadState::Fields { code, headers })
            },
        }
    }

    /// Takes the end of the input.
    pub fn at_end(self) -> (r: Result<Option<AptRequest>, ProtocolError>)
        ensures
            reading_view(r) == end_step(self@),
    {
        match self {
            ReadState::Idle => Ok(None),
            ReadState::Fields { code, headers } => match build_request(code, headers) {
                Ok(request) => Ok(Some(request)),
                Err(e) => Err(e),
            },
        }
    }
}

/// Reads one message off the front of `input`. `Ok(None)` where there is none
/// before the end.
pub fn read_request(input: &mut &[u8]) -> (r: Result<Option<AptRequest>, ProtocolError>)
    ensures
        (reading_view(r), final(input)@) == read_from(StateView::Idle, old(input)@),
{
    let mut state = ReadState::Idle;
    loop
        invariant
            read_from(state@, (*input)@) == read_from(StateView::Idle, old(input)@),
        decreases (*input)@.len(),
    {
        let rest: &[u8] = *input;
        if rest.len() == 0 {
            return state.at_end();
        }
        let n = first_line(rest);
        let step = state.on_line(slice_subrange(rest, 0, n));
        *input = slice_subrange(rest, n, rest.len());
        match step {
            ReadStep::More(next) => {
                state = next;
            },
            ReadStep::Done(Ok(request)) => {
                return Ok(Some(request));
            },
            ReadStep::Done(Err(e)) => {
                return Err(e);
            },
        }
    }
}

/// What is said of a first line without a number, given it in quotes.
pub open spec fn bad_code_line_text(quoted: Seq<char>) -> Seq<char> {
    "bad code line: "@ + quoted
}

pub fn bad_code_line_message(quoted: &str) -> (text: String)
    ensures
        text@ == bad_code_line_text(quoted@),
{
    let mut text = "bad code line: ".to_owned();
    text.append(quoted);
    text
}

impl ProtocolError {
    /// The error in words.
    pub fn message(&self) -> (text: String)
        ensures
            text@ == error_text(self@),
    {
        match self {
            ProtocolError::InvalidUtf8 => "stream did not contain valid UTF-8".to_owned(),
            ProtocolError::BadCodeLine(line) => bad_code_line_message(
                debug_string(line.as_str()).as_str(),
            ),
            ProtocolError::MissingUri => "600 missing URI".to_owned(),
            ProtocolError::MissingFilename => "600 missing Filename".to_owned(),
            ProtocolError::UnknownCode(code) => {
                let mut text = "unknown code ".to_owned();
                push_decimal(&mut text, *code as u64);
                text
            },
        }
    }
}

pub open spec fn error_text(error: ErrorView) -> Seq<char> {
    match error {
        ErrorView::InvalidUtf8 => "stream did not contain valid UTF-8"@,
        ErrorView::BadCodeLine(line) => bad_code_line_text(text::debug_text(line)),
        ErrorView::MissingUri => "600 missing URI"@,
        ErrorView::MissingFilename => "600 missing Filename"@,
        ErrorView::UnknownCode(code) => "unknown code "@ + text::decimal_text(code as nat),
    }
}

pub open spec fn bool_text(b: bool) -> Seq<char> {
    if b {
        "true"@
    } else {
        "false"@
    }
}

pub fn bool_str(b: bool) -> (s: &'static str)
    ensures
        s@ == bool_text(b),
{
    if b {
        "true"
    } else {
        "false"
    }
}

/// A name and the value that it is given.
pub type Field = (Seq<char>, Seq<char>);

/// The line that writes a field.
pub open spec fn field_line(field: Field) -> Seq<char> {
    field.0 + ": "@ + field.1 + "\n"@
}

/// The lines that write `fields`, in their order.
pub open spec fn field_lines(fields: Seq<Field>) -> Seq<char>
    decreases fields.len(),
{
    if fields.len() == 0 {
        Seq::empty()
    } else {
        field_lines(fields.drop_last()) + field_line(fields.last())
    }
}

/// A block: the first line, the fields, and a blank line.
pub open spec fn block_text(first: Seq<char>, fields: Seq<Field>) -> Seq<char> {
    first + "\n"@ + field_lines(fields) + "\n"@
}

/// `fields`, with one more where there is a value for it.
pub open spec fn with_optional(
    fields: Seq<Field>,
    name: Seq<char>,
    value: Option<Seq<char>>,
) -> Seq<Field> {
    match value {
        Some(v) => fields.push((name, v)),
        None => fields,
    }
}

/// The first line of a response.
pub open spec fn response_head(resp: AptResponse<'_>) -> Seq<char> {
    match resp {
        AptResponse::Capabilities { .. } => "100 Capabilities"@,
        AptResponse::Status { .. } => "102 Status"@,
        AptResponse::UriStart { .. } => "200 URI Start"@,
        AptResponse::UriDone { .. } => "201 URI Done"@,
        AptResponse::UriFailure { .. } => "400 URI Failure"@,
    }
}

/// The fields of a response.
pub open spec fn response_fields(resp: AptResponse<'_>) -> Seq<Field> {
    match resp {
        AptResponse::Capabilities { single_instance, pipeline, send_config } =>
            seq![("Version"@, "1.2"@)].push(("Single-Instance"@, bool_text(single_instance))).push(
            ("Pipeline"@, bool_text(pipeline)),
        ).push(("Send-Config"@, bool_text(send_config))),
        AptResponse::Status { uri, message } => seq![("URI"@, uri@)].push(
            ("Message"@, message@),
        ),
        AptResponse::UriStart { uri, size, last_modified } => with_optional(
            with_optional(
                seq![("URI"@, uri@)],
                "Size"@,
                match size {
                    Some(n) => Some(text::decimal_text(n as nat)),
                    None => None,
                },
            ),
            "Last-Modified"@,
            opt_str(last_modified),
        ),
        AptResponse::UriDone { uri, filename, size, sha256, sha512, md5, last_modified } =>
            with_optional(
            with_optional(
                with_optional(
                    seq![("URI"@, uri@)].push(("Filename"@, filename@)).push(
                        ("Size"@, text::decimal_text(size as nat)),
                    ).push(("SHA256-Hash"@, sha256@)),
                    "SHA512-Hash"@,
                    opt_str(sha512),
                ),
                "MD5Sum-Hash"@,
                opt_str(md5),
            ),
            "Last-Modified"@,
            opt_str(last_modified),
        ),
        AptResponse::UriFailure { uri, message } => seq![("URI"@, uri@)].push(
            ("Message"@, message@),
        ),
    }
}

/// A response as text.
pub open spec fn response_text(resp: AptResponse<'_>) -> Seq<char> {
    block_text(response_head(resp), response_fields(resp))
}

/// A block under construction: its text, and the fields that it has so far.
struct Block {
    text: String,
    head: Ghost<Seq<char>>,
    fields: Ghost<Seq<Field>>,
}

impl Block {
    spec fn wf(self) -> bool {
        self.text@ == self.head@ + "\n"@ + field_lines(self.fields@)
    }

    fn new(first: &str) -> (block: Block)
        ensures
            block.wf(),
            block.head@ == first@,
            block.fields@ == Seq::<Field>::empty(),
    {
        let mut text = first.to_owned();
        text.append("\n");
        assert(text@ + Seq::<char>::empty() == text@);
        Block { text, head: Ghost(first@), fields: Ghost(Seq::empty()) }
    }

    fn field(self, name: &str, value: &str) -> (block: Block)
        requires
            self.wf(),
        ensures
            block.wf(),
            block.head@ == self.head@,
            block.fields@ == self.fields@.push((name@, value@)),
    {
        let ghost fields = self.fields@;
        let ghost more = fields.push((name@, value@));
        let ghost head = self.head@;
        let ghost before = self.text@;
        let mut text = self.text;
        text.append(name);
        text.append(": ");
        text.append(value);
        text.append("\n");
        proof {
            assert(more.drop_last() == fields);
            assert(text@ == before + field_line((name@, value@)));
            assert(text@ == head + "\n"@ + field_lines(more));
        }
        Block { text, head: Ghost(head), fields: Ghost(more) }
    }

    fn optional_field(self, name: &str, value: Option<&str>) -> (block: Block)
        requires
            self.wf(),
        ensures
            block.wf(),
            block.head@ == self.head@,
            block.fields@ == with_optional(self.fields@, name@, opt_str(value)),
    {
        match value {
            Some(v) => self.field(name, v),
            None => self,
        }
    }
}

fn decimal_string(n: u64) -> (s: String)
    ensures
        s@ == text::decimal_text(n as nat),
{
    let mut s = String::new();
    push_decimal(&mut s, n);
    s
}

/// Adds one message to `out`: its lines, and the blank line that ends it.
pub fn write_response(out: &mut Vec<u8>, resp: &AptResponse<'_>)
    ensures
        final(out)@ == old(out)@ + encode_utf8(response_text(*resp)),
{
    let block = match resp {
        AptResponse::Capabilities { single_instance, pipeline, send_config } => {
            Block::new("100 Capabilities").field("Version", "1.2").field(
                "Single-Instance",
                bool_str(*single_instance),
            ).field("Pipeline", bool_str(*pipeline)).field("Send-Config", bool_str(*send_config))
        },
        AptResponse::Status { uri, message } => {
            Block::new("102 Status").field("URI", uri).field("Message", message)
        },
        AptResponse::UriStart { uri, size, last_modified } => {
            let block = Block::new("200 URI Start").field("URI", uri);
            let block = match size {
                Some(n) => block.field("Size", decimal_string(*n).as_str()),
                None => block,
            };
            block.optional_field("Last-Modified", *last_modified)
        },
        AptResponse::UriDone { uri, filename, size, sha256, sha512, md5, last_modified } => {
            Block::new("201 URI Done").field("URI", uri).field("Filename", filename).field(
                "Size",
                decimal_string(*size).as_str(),
            ).field("SHA256-Hash", sha256).optional_field("SHA512-Hash", *sha512).optional_field(
                "MD5Sum-Hash",
                *md5,
            ).optional_field("Last-Modified", *last_modified)
        },
        AptResponse::UriFailure { uri, message } => {
            Block::new("400 URI Failure").field("URI", uri).field("Message", message)
        },
    };
    assert(block.fields@ == response_fields(*resp));
    let mut text = block.text;
    text.append("\n");
    out.extend_from_slice(text.as_str().as_bytes());
    assert(out@ == old(out)@ + encode_utf8(text@));
}

} // verus!
