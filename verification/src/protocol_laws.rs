//! Laws of the protocol: what escapes, lines, blocks and responses do for
//! every input.

use vstd::prelude::*;
use vstd::utf8::*;

use crate::protocol;
use crate::protocol::{AcquireView, AptResponse, ErrorView, Field, RequestView, StateView, StepView};
use crate::text;
use crate::text_laws;
use crate::wire_laws;

verus! {

/// The upper-case hexadecimal digit for a number under sixteen.
pub open spec fn hex_char(v: int) -> u8 {
    if v < 10 {
        ('0' as u8 + v) as u8
    } else {
        ('A' as u8 + v - 10) as u8
    }
}

/// `bytes` with those that `escaped` holds of written as escapes.
pub open spec fn percent_escaped(bytes: Seq<u8>, escaped: spec_fn(u8) -> bool) -> Seq<u8>
    decreases bytes.len(),
{
    if bytes.len() == 0 {
        Seq::empty()
    } else if escaped(bytes[0]) {
        seq!['%' as u8].push(hex_char(bytes[0] as int / 16)).push(hex_char(bytes[0] as int % 16))
            + percent_escaped(bytes.skip(1), escaped)
    } else {
        seq![bytes[0]] + percent_escaped(bytes.skip(1), escaped)
    }
}

/// Decoding undoes escaping, whichever bytes are escaped, so long as `%` is
/// one of them.
pub proof fn law_decoding_undoes_escaping(bytes: Seq<u8>, escaped: spec_fn(u8) -> bool)
    requires
        escaped('%' as u8),
    ensures
        protocol::percent_decoded(percent_escaped(bytes, escaped)) == bytes,
    decreases bytes.len(),
{
    if bytes.len() > 0 {
        let b = bytes[0];
        let rest = bytes.skip(1);
        let out = percent_escaped(bytes, escaped);
        law_decoding_undoes_escaping(rest, escaped);
        if escaped(b) {
            assert(protocol::starts_with_escape(out));
            assert(protocol::escaped_byte(out) == b);
            assert(out.skip(3) == percent_escaped(rest, escaped));
        } else {
            assert(out[0] == b);
            assert(out.skip(1) == percent_escaped(rest, escaped));
        }
        assert(seq![b] + rest == bytes);
    }
}

/// True when `sent` writes `bytes`, with each byte as it is or as an escape, in
/// digits of either case. A `%` is written as an escape.
pub open spec fn writes(sent: Seq<u8>, bytes: Seq<u8>) -> bool
    decreases bytes.len(),
{
    if bytes.len() == 0 {
        sent.len() == 0
    } else {
        ||| {
            &&& sent.len() > 0
            &&& sent[0] == bytes[0]
            &&& bytes[0] != '%' as u8
            &&& writes(sent.skip(1), bytes.skip(1))
        }
        ||| {
            &&& sent.len() >= 3
            &&& sent[0] == '%' as u8
            &&& wire_laws::nibble(sent[1], bytes[0] as int / 16)
            &&& wire_laws::nibble(sent[2], bytes[0] as int % 16)
            &&& writes(sent.skip(3), bytes.skip(1))
        }
    }
}

/// Decoding gives back the bytes that were written, wherever escapes stand for
/// them, and whichever the case of their digits is.
pub proof fn law_decoding_undoes_any_escaping(sent: Seq<u8>, bytes: Seq<u8>)
    requires
        writes(sent, bytes),
    ensures
        protocol::percent_decoded(sent) == bytes,
    decreases bytes.len(),
{
    if bytes.len() > 0 {
        let rest = bytes.skip(1);
        if protocol::starts_with_escape(sent) {
            law_decoding_undoes_any_escaping(sent.skip(3), rest);
        } else {
            law_decoding_undoes_any_escaping(sent.skip(1), rest);
        }
        assert(seq![bytes[0]] + rest == bytes);
    }
}

/// A URI that was sent with escapes, wherever they stand, is decoded to the URI
/// that was meant.
pub proof fn law_any_escaped_uri_decoded(sent: Seq<char>, uri: Seq<char>)
    requires
        writes(encode_utf8(sent), encode_utf8(uri)),
    ensures
        protocol::url_decoded(sent) == uri,
{
    law_decoding_undoes_any_escaping(encode_utf8(sent), encode_utf8(uri));
    encode_utf8_valid_utf8(uri);
    encode_utf8_decode_utf8(uri);
}

/// Bytes in which no escape starts anywhere, stray percent signs included,
/// are decoded to themselves.
pub proof fn law_stray_percent_kept(bytes: Seq<u8>)
    requires
        forall|i: int|
            0 <= i < bytes.len() ==> !#[trigger] protocol::starts_with_escape(bytes.skip(i)),
    ensures
        protocol::percent_decoded(bytes) == bytes,
    decreases bytes.len(),
{
    if bytes.len() > 0 {
        let rest = bytes.skip(1);
        assert(bytes.skip(0) == bytes);
        assert forall|i: int| 0 <= i < rest.len() implies !#[trigger] protocol::starts_with_escape(
            rest.skip(i),
        ) by {
            assert(rest.skip(i) == bytes.skip(i + 1));
        }
        law_stray_percent_kept(rest);
        assert(seq![bytes[0]] + rest == bytes);
    }
}

/// A URI without a percent sign is decoded to itself.
pub proof fn law_plain_uri_kept(uri: Seq<char>)
    requires
        !uri.contains('%'),
    ensures
        protocol::url_decoded(uri) == uri,
{
    let bytes = encode_utf8(uri);
    assert forall|i: int| 0 <= i < bytes.len() implies !#[trigger] protocol::starts_with_escape(
        bytes.skip(i),
    ) by {
        if bytes.skip(i)[0] == '%' as u8 {
            text_laws::lemma_ascii_byte_of_text(uri, i);
        }
    }
    law_stray_percent_kept(bytes);
    encode_utf8_valid_utf8(uri);
    encode_utf8_decode_utf8(uri);
}

/// A URI that was sent with escapes is decoded to the URI that was meant,
/// whichever of its bytes were escaped, so long as `%` is one of them.
pub proof fn law_escaped_uri_decoded(
    sent: Seq<char>,
    uri: Seq<char>,
    escaped: spec_fn(u8) -> bool,
)
    requires
        escaped('%' as u8),
        encode_utf8(sent) == percent_escaped(encode_utf8(uri), escaped),
    ensures
        protocol::url_decoded(sent) == uri,
{
    law_decoding_undoes_escaping(encode_utf8(uri), escaped);
    encode_utf8_valid_utf8(uri);
    encode_utf8_decode_utf8(uri);
}

/// Text without a line feed, and without white space at its ends.
pub open spec fn one_line(s: Seq<char>) -> bool {
    !s.contains('\n') && text::trimmed(s) == s
}

/// A field that one header line can carry.
pub open spec fn clean_field(field: Field) -> bool {
    clean_name(field.0) && one_line(field.1)
}

pub open spec fn clean_fields(fields: Seq<Field>) -> bool {
    forall|i: int| 0 <= i < fields.len() ==> clean_field(#[trigger] fields[i])
}

/// The state in which the lines of `input` leave the reader, where none of
/// them ends the block.
pub open spec fn state_after(state: StateView, input: Seq<u8>) -> Option<StateView>
    decreases input.len(),
{
    let n = protocol::line_length(input);
    if input.len() == 0 || n <= 0 || n > input.len() {
        Some(state)
    } else {
        match protocol::line_step(state, input.take(n)) {
            StepView::More(next) => state_after(next, input.skip(n)),
            StepView::Done(_) => None,
        }
    }
}

/// True when the block that `input` starts with is read to its end without
/// meeting the end of the input.
pub open spec fn complete(state: StateView, input: Seq<u8>) -> bool
    decreases input.len(),
{
    let n = protocol::line_length(input);
    &&& 0 < n <= input.len()
    &&& input[n - 1] == 10
    &&& match protocol::line_step(state, input.take(n)) {
        StepView::More(next) => complete(next, input.skip(n)),
        StepView::Done(_) => true,
    }
}

proof fn lemma_line_length_extends(a: Seq<u8>, b: Seq<u8>)
    requires
        a.len() > 0,
        a[protocol::line_length(a) - 1] == 10,
    ensures
        protocol::line_length(a + b) == protocol::line_length(a),
    decreases a.len(),
{
    protocol::lemma_line_length(a);
    if a[0] != 10 {
        assert((a + b).skip(1) == a.skip(1) + b);
        protocol::lemma_line_length(a.skip(1));
        assert(protocol::line_length(a) >= 2);
        assert(a.skip(1)[protocol::line_length(a.skip(1)) - 1] == 10);
        lemma_line_length_extends(a.skip(1), b);
    }
}

/// No read-ahead: a complete block is read the same whatever follows it, and
/// what follows it is left unread.
pub proof fn law_no_read_ahead(state: StateView, block: Seq<u8>, more: Seq<u8>)
    requires
        complete(state, block),
    ensures
        protocol::read_from(state, block + more) == (
            protocol::read_from(state, block).0,
            protocol::read_from(state, block).1 + more,
        ),
    decreases block.len(),
{
    let n = protocol::line_length(block);
    lemma_line_length_extends(block, more);
    assert((block + more).take(n) == block.take(n));
    assert((block + more).skip(n) == block.skip(n) + more);
    match protocol::line_step(state, block.take(n)) {
        StepView::More(next) => {
            law_no_read_ahead(next, block.skip(n), more);
        },
        StepView::Done(_) => {},
    }
}

/// A message is read from a stream in two parts as from one: lines that leave
/// the block open, then the rest.
pub proof fn law_reading_goes_on(state: StateView, lines: Seq<u8>, more: Seq<u8>)
    requires
        state_after(state, lines) is Some,
        lines.len() > 0 ==> lines.last() == 10,
    ensures
        protocol::read_from(state, lines + more) == protocol::read_from(
            state_after(state, lines)->0,
            more,
        ),
    decreases lines.len(),
{
    if lines.len() == 0 {
        assert(lines + more == more);
    } else {
        let n = protocol::line_length(lines);
        protocol::lemma_line_length(lines);
        assert(lines[n - 1] == 10);
        lemma_line_length_extends(lines, more);
        assert((lines + more).take(n) == lines.take(n));
        assert((lines + more).skip(n) == lines.skip(n) + more);
        match protocol::line_step(state, lines.take(n)) {
            StepView::More(next) => {
                law_reading_goes_on(next, lines.skip(n), more);
            },
            StepView::Done(_) => {},
        }
    }
}

proof fn lemma_one_line_bytes(line: Seq<char>, rest: Seq<u8>)
    requires
        !line.contains('\n'),
    ensures
        ({
            let bytes = encode_utf8(line + seq!['\n']);
            &&& protocol::line_length(bytes + rest) == bytes.len()
            &&& bytes.len() > 0
            &&& bytes.last() == 10
            &&& valid_utf8(bytes)
            &&& decode_utf8(bytes) == line + seq!['\n']
            &&& (bytes + rest).take(bytes.len() as int) == bytes
            &&& (bytes + rest).skip(bytes.len() as int) == rest
        }),
{
    let body = encode_utf8(line);
    let full = line + seq!['\n'];
    let bytes = encode_utf8(full);
    text_laws::lemma_encode_concat(line, seq!['\n']);
    assert(encode_utf8(seq!['\n']) == seq![10u8]) by {
        reveal_with_fuel(encode_utf8, 2);
        assert(leading_byte_width_1(10u32) == 10u8) by (bit_vector);
        assert(seq!['\n'].drop_first() == Seq::<char>::empty());
        assert(encode_utf8(seq!['\n']) =~= seq![10u8]);
    }
    encode_utf8_valid_utf8(full);
    encode_utf8_decode_utf8(full);
    let all = bytes + rest;
    protocol::lemma_line_length(all);
    let n = protocol::line_length(all);
    assert(all[body.len() as int] == 10);
    assert forall|i: int| 0 <= i < body.len() implies all[i] != 10 by {
        if body[i] == 10 {
            text_laws::lemma_ascii_byte_of_text(line, i);
        }
    }
    if n - 1 < body.len() {
        assert(all[n - 1] == 10);
    }
    if n - 1 > body.len() {
        assert(all[body.len() as int] != 10);
    }
    assert(all.take(bytes.len() as int) == bytes);
    assert(all.skip(bytes.len() as int) == rest);
}

/// The end of the input is no request.
pub proof fn law_end_is_no_request()
    ensures
        protocol::read_from(StateView::Idle, Seq::empty()) == (
            Ok::<Option<protocol::RequestView>, protocol::ErrorView>(None),
            Seq::<u8>::empty(),
        ),
{
}

/// A block with an unknown code is read to its end: the error comes with its
/// blank line, and not before, so that the next block can be read.
pub proof fn law_unknown_code_ends_with_its_block(state: StateView, line: Seq<u8>, code: u16)
    requires
        protocol::line_step(state, line) == StepView::Done(Err(ErrorView::UnknownCode(code))),
    ensures
        state matches StateView::Fields { code: c, .. } && c == code,
        code != 600 && code != 601,
        valid_utf8(line),
        text::trimmed_end(decode_utf8(line)).len() == 0,
{
}

/// A line of white space before a block is skipped.
pub proof fn law_blank_lines_skipped(blank: Seq<char>, more: Seq<u8>)
    requires
        !blank.contains('\n'),
        text::trimmed_end(blank).len() == 0,
    ensures
        protocol::read_from(StateView::Idle, encode_utf8(blank + seq!['\n']) + more)
            == protocol::read_from(StateView::Idle, more),
{
    lemma_one_line_bytes(blank, more);
    let full = blank + seq!['\n'];
    assert(full.drop_last() == blank);
    assert(text::trimmed_end(full) == text::trimmed_end(blank));
}

/// A line without a colon adds no field.
pub proof fn law_line_without_colon_ignored(
    code: u16,
    headers: Map<Seq<char>, Seq<char>>,
    line: Seq<char>,
    more: Seq<u8>,
)
    requires
        !line.contains('\n'),
        !line.contains(':'),
        text::trimmed_end(line).len() > 0,
    ensures
        protocol::read_from(
            StateView::Fields { code, headers },
            encode_utf8(line + seq!['\n']) + more,
        ) == protocol::read_from(StateView::Fields { code, headers }, more),
{
    lemma_one_line_bytes(line, more);
    let full = line + seq!['\n'];
    assert(full.drop_last() == line);
    let t = text::trimmed_end(line);
    assert(text::trimmed_end(full) == t);
    lemma_trimmed_end_is_prefix(line);
    assert(!t.contains(':')) by {
        if t.contains(':') {
            let i = choose|i: int| 0 <= i < t.len() && t[i] == ':';
            assert(line[i] == ':');
        }
    }
    text_laws::lemma_no_index(t, ':');
}

proof fn lemma_trimmed_end_is_prefix(s: Seq<char>)
    ensures
        text::trimmed_end(s).len() <= s.len(),
        forall|i: int|
            0 <= i < text::trimmed_end(s).len() ==> #[trigger] text::trimmed_end(s)[i] == s[i],
    decreases s.len(),
{
    if s.len() > 0 && text::white_space(s.last()) {
        lemma_trimmed_end_is_prefix(s.drop_last());
    }
}

/// A clean field, written as a line, is read back as that field.
pub proof fn law_field_line_reads_back(
    code: u16,
    headers: Map<Seq<char>, Seq<char>>,
    field: Field,
    more: Seq<u8>,
)
    requires
        clean_field(field),
    ensures
        protocol::line_step(
            StateView::Fields { code, headers },
            encode_utf8(protocol::field_line(field)),
        ) == StepView::More(
            StateView::Fields { code, headers: headers.insert(field.0, field.1) },
        ),
        protocol::read_from(
            StateView::Fields { code, headers },
            encode_utf8(protocol::field_line(field)) + more,
        ) == protocol::read_from(
            StateView::Fields { code, headers: headers.insert(field.0, field.1) },
            more,
        ),
{
    let name = field.0;
    let value = field.1;
    reveal_strlit(": ");
    reveal_strlit("\n");
    let line = name + ": "@ + value;
    let full = protocol::field_line(field);
    assert(full == line + seq!['\n']);
    assert(!line.contains('\n')) by {
        if line.contains('\n') {
            let i = choose|i: int| 0 <= i < line.len() && line[i] == '\n';
            if i < name.len() {
                assert(name.contains(name[i]));
            } else if i >= name.len() + 2 {
                assert(value.contains(value[i - name.len() - 2]));
            }
        }
    }
    lemma_one_line_bytes(line, more);
    text_laws::lemma_trimmed_ends(name);
    text_laws::lemma_trimmed_ends(value);
    assert(full.drop_last() == line);
    let t = text::trimmed_end(full);
    assert(t == text::trimmed_end(line));
    let tail = if value.len() == 0 {
        seq![':']
    } else {
        ": "@ + value
    };
    if value.len() == 0 {
        assert(line.last() == ' ');
        assert(line.drop_last() == name + seq![':']);
        assert(text::trimmed_end(name + seq![':']) == name + seq![':']);
        assert(t == name + tail);
    } else {
        assert(line.last() == value.last());
        assert(line == name + tail);
    }
    text_laws::lemma_first_index(name, tail, ':');
    assert(t.take(name.len() as int) == name);
    let after = t.skip(name.len() as int + 1);
    if value.len() == 0 {
        assert(after == Seq::<char>::empty());
    } else {
        assert(after == seq![' '] + value);
        assert(text::trimmed_end(after) == after);
        assert(after.drop_first() == value);
        assert(text::trimmed_start(value) == value);
    }
    assert(text::trimmed(after) == value);
}

/// Clean fields, written as lines, are read back as those fields.
proof fn lemma_field_lines_read_back(
    code: u16,
    headers: Map<Seq<char>, Seq<char>>,
    fields: Seq<Field>,
)
    requires
        clean_fields(fields),
    ensures
        ({
            let bytes = encode_utf8(protocol::field_lines(fields));
            &&& state_after(StateView::Fields { code, headers }, bytes) == Some(
                StateView::Fields { code, headers: merged(headers, fields) },
            )
            &&& bytes.len() > 0 ==> bytes.last() == 10
        }),
    decreases fields.len(),
{
    reveal_with_fuel(state_after, 2);
    if fields.len() > 0 {
        let init = fields.drop_last();
        let last = fields.last();
        let a = encode_utf8(protocol::field_lines(init));
        let b = encode_utf8(protocol::field_line(last));
        assert(clean_field(fields[fields.len() - 1]));
        assert(clean_fields(init)) by {
            assert forall|i: int| 0 <= i < init.len() implies clean_field(#[trigger] init[i]) by {
                assert(init[i] == fields[i]);
            }
        }
        lemma_field_lines_read_back(code, headers, init);
        text_laws::lemma_encode_concat(protocol::field_lines(init), protocol::field_line(last));
        lemma_state_after_concat(StateView::Fields { code, headers }, a, b);
        law_field_line_reads_back(code, merged(headers, init), last, Seq::empty());
        lemma_field_line_is_a_line(last);
        assert(b.take(b.len() as int) == b);
        assert(b.skip(b.len() as int) == Seq::<u8>::empty());
        assert((a + b).last() == b.last());
    }
}

proof fn lemma_field_line_is_a_line(field: Field)
    requires
        clean_field(field),
    ensures
        ({
            let b = encode_utf8(protocol::field_line(field));
            &&& protocol::line_length(b) == b.len()
            &&& b.len() > 0
            &&& b.last() == 10
        }),
{
    reveal_strlit(": ");
    reveal_strlit("\n");
    let line = field.0 + ": "@ + field.1;
    assert(protocol::field_line(field) == line + seq!['\n']);
    assert(!line.contains('\n')) by {
        if line.contains('\n') {
            let i = choose|i: int| 0 <= i < line.len() && line[i] == '\n';
            if i < field.0.len() {
                assert(field.0.contains(field.0[i]));
            } else if i >= field.0.len() + 2 {
                assert(field.1.contains(field.1[i - field.0.len() - 2]));
            }
        }
    }
    lemma_one_line_bytes(line, Seq::empty());
    let b = encode_utf8(protocol::field_line(field));
    assert(b + Seq::<u8>::empty() == b);
}

proof fn lemma_state_after_concat(state: StateView, a: Seq<u8>, b: Seq<u8>)
    requires
        state_after(state, a) is Some,
        a.len() > 0 ==> a.last() == 10,
    ensures
        state_after(state, a + b) == state_after(state_after(state, a)->0, b),
    decreases a.len(),
{
    if a.len() == 0 {
        assert(a + b == b);
    } else {
        let n = protocol::line_length(a);
        protocol::lemma_line_length(a);
        assert(a[n - 1] == 10);
        lemma_line_length_extends(a, b);
        assert((a + b).take(n) == a.take(n));
        assert((a + b).skip(n) == a.skip(n) + b);
        match protocol::line_step(state, a.take(n)) {
            StepView::More(next) => {
                lemma_state_after_concat(next, a.skip(n), b);
            },
            StepView::Done(_) => {},
        }
    }
}

/// `headers` with each of `fields` set, in their order.
pub open spec fn merged(headers: Map<Seq<char>, Seq<char>>, fields: Seq<Field>) -> Map<
    Seq<char>,
    Seq<char>,
>
    decreases fields.len(),
{
    if fields.len() == 0 {
        headers
    } else {
        merged(headers, fields.drop_last()).insert(fields.last().0, fields.last().1)
    }
}

/// The first line of a block with this code.
pub open spec fn head_line(first: Seq<char>, code: u16) -> bool {
    &&& !first.contains('\n')
    &&& text::number_of(text::first_word_of(text::trimmed_end(first))) == Some(code)
}

/// Reading what was written: a block of clean fields is read as its code and
/// its fields, up to its blank line, and what follows is left unread.
pub proof fn law_block_reads_back(
    first: Seq<char>,
    code: u16,
    fields: Seq<Field>,
    more: Seq<u8>,
)
    requires
        head_line(first, code),
        clean_fields(fields),
    ensures
        state_after(
            StateView::Idle,
            encode_utf8(first + "\n"@ + protocol::field_lines(fields)),
        ) == Some(StateView::Fields { code, headers: merged(Map::empty(), fields) }),
        protocol::read_from(
            StateView::Idle,
            encode_utf8(protocol::block_text(first, fields)) + more,
        ) == (
            match protocol::request_of(code, merged(Map::empty(), fields)) {
                Ok(request) => Ok(Some(request)),
                Err(e) => Err(e),
            },
            more,
        ),
{
    reveal_strlit("\n");
    let none = Map::<Seq<char>, Seq<char>>::empty();
    let map = merged(none, fields);
    let head = first + seq!['\n'];
    let h = encode_utf8(head);
    let f = encode_utf8(protocol::field_lines(fields));
    let blank = encode_utf8("\n"@);
    assert(first + "\n"@ == head);
    // The first line.
    lemma_one_line_bytes(first, Seq::empty());
    assert(h + Seq::<u8>::empty() == h);
    assert(h.take(h.len() as int) == h);
    assert(h.skip(h.len() as int) == Seq::<u8>::empty());
    assert(head.drop_last() == first);
    assert(text::trimmed_end(head) == text::trimmed_end(first));
    assert(text::trimmed_end(first).len() > 0) by {
        if text::trimmed_end(first).len() == 0 {
            assert(text::trimmed_end(first) == Seq::<char>::empty());
            assert(text::first_word_of(text::trimmed_end(first)) == Seq::<char>::empty());
        }
    }
    assert(state_after(StateView::Idle, h) == Some(StateView::Fields { code, headers: none })) by {
        reveal_with_fuel(state_after, 2);
    }
    // The fields.
    lemma_field_lines_read_back(code, none, fields);
    lemma_state_after_concat(StateView::Idle, h, f);
    text_laws::lemma_encode_concat(head, protocol::field_lines(fields));
    // The blank line.
    let lines = h + f;
    assert(lines.last() == 10);
    text_laws::lemma_encode_concat(head + protocol::field_lines(fields), "\n"@);
    assert(encode_utf8(protocol::block_text(first, fields)) + more == lines + (blank + more));
    law_reading_goes_on(StateView::Idle, lines, blank + more);
    lemma_one_line_bytes(Seq::empty(), more);
    assert(Seq::<char>::empty() + seq!['\n'] == "\n"@);
    assert("\n"@.drop_last() == Seq::<char>::empty());
    assert(text::trimmed_end("\n"@) == Seq::<char>::empty()) by {
        reveal_with_fuel(text::trimmed_end, 2);
    }
}

/// Text that neither starts nor ends with white space is trimmed.
pub proof fn lemma_no_space_at_ends(s: Seq<char>)
    requires
        s.len() > 0 ==> !text::white_space(s[0]) && !text::white_space(s.last()),
    ensures
        text::trimmed(s) == s,
{
}

/// The names of the fields that requests and responses have are clean.
pub proof fn lemma_names_are_clean()
    ensures
        clean_name("URI"@),
        clean_name("Filename"@),
        clean_name("Last-Modified"@),
        clean_name("Expected-SHA256"@),
        clean_name("Version"@),
        clean_name("Single-Instance"@),
        clean_name("Pipeline"@),
        clean_name("Send-Config"@),
        clean_name("Message"@),
        clean_name("Size"@),
        clean_name("SHA256-Hash"@),
        clean_name("SHA512-Hash"@),
        clean_name("MD5Sum-Hash"@),
{
    reveal_strlit("URI");
    reveal_strlit("Filename");
    reveal_strlit("Last-Modified");
    reveal_strlit("Expected-SHA256");
    reveal_strlit("Version");
    reveal_strlit("Single-Instance");
    reveal_strlit("Pipeline");
    reveal_strlit("Send-Config");
    reveal_strlit("Message");
    reveal_strlit("Size");
    reveal_strlit("SHA256-Hash");
    reveal_strlit("SHA512-Hash");
    reveal_strlit("MD5Sum-Hash");
}

/// A name that a header line can carry.
pub open spec fn clean_name(name: Seq<char>) -> bool {
    &&& one_line(name)
    &&& name.len() > 0
    &&& !name.contains(':')
}

pub proof fn lemma_numbers_are_clean(n: nat)
    ensures
        one_line(text::decimal_text(n)),
{
    text::law_decimal_text_reads_back(n);
    lemma_no_space_at_ends(text::decimal_text(n));
}

/// The code of a response.
pub open spec fn response_code(resp: AptResponse<'_>) -> u16 {
    match resp {
        AptResponse::Capabilities { .. } => 100,
        AptResponse::Status { .. } => 102,
        AptResponse::UriStart { .. } => 200,
        AptResponse::UriDone { .. } => 201,
        AptResponse::UriFailure { .. } => 400,
    }
}

pub open spec fn optional_one_line(s: Option<&str>) -> bool {
    match s {
        Some(t) => one_line(t@),
        None => true,
    }
}

/// A response each of whose texts fits on one line.
pub open spec fn one_line_response(resp: AptResponse<'_>) -> bool {
    match resp {
        AptResponse::Capabilities { .. } => true,
        AptResponse::Status { uri, message } => one_line(uri@) && one_line(message@),
        AptResponse::UriStart { uri, size, last_modified } => one_line(uri@) && optional_one_line(
            last_modified,
        ),
        AptResponse::UriDone { uri, filename, size, sha256, sha512, md5, last_modified } => {
            &&& one_line(uri@)
            &&& one_line(filename@)
            &&& one_line(sha256@)
            &&& optional_one_line(sha512)
            &&& optional_one_line(md5)
            &&& optional_one_line(last_modified)
        },
        AptResponse::UriFailure { uri, message } => one_line(uri@) && one_line(message@),
    }
}

proof fn lemma_response_fields_are_clean(resp: AptResponse<'_>)
    requires
        one_line_response(resp),
    ensures
        clean_fields(protocol::response_fields(resp)),
        protocol::response_fields(resp).len() > 0,
{
    lemma_names_are_clean();
    match resp {
        AptResponse::Capabilities { .. } => {
            reveal_strlit("1.2");
            reveal_strlit("true");
            reveal_strlit("false");
            lemma_no_space_at_ends("1.2"@);
            lemma_no_space_at_ends("true"@);
            lemma_no_space_at_ends("false"@);
        },
        AptResponse::UriStart { size, .. } => {
            if size is Some {
                lemma_numbers_are_clean(size->0 as nat);
            }
        },
        AptResponse::UriDone { size, .. } => {
            lemma_numbers_are_clean(size as nat);
        },
        _ => {},
    }
}

pub proof fn lemma_first_lines()
    ensures
        head_line("100 Capabilities"@, 100),
        head_line("102 Status"@, 102),
        head_line("200 URI Start"@, 200),
        head_line("201 URI Done"@, 201),
        head_line("400 URI Failure"@, 400),
        head_line("600 URI Acquire"@, 600),
        head_line("601 Configuration"@, 601),
{
    reveal_strlit("100 Capabilities");
    reveal_strlit("102 Status");
    reveal_strlit("200 URI Start");
    reveal_strlit("201 URI Done");
    reveal_strlit("400 URI Failure");
    reveal_strlit("600 URI Acquire");
    reveal_strlit("601 Configuration");
    lemma_head("100 Capabilities"@, '1', '0', '0', 100);
    lemma_head("102 Status"@, '1', '0', '2', 102);
    lemma_head("200 URI Start"@, '2', '0', '0', 200);
    lemma_head("201 URI Done"@, '2', '0', '1', 201);
    lemma_head("400 URI Failure"@, '4', '0', '0', 400);
    lemma_head("600 URI Acquire"@, '6', '0', '0', 600);
    lemma_head("601 Configuration"@, '6', '0', '1', 601);
}

/// A line that starts with three digits and a space has their number as its
/// code.
proof fn lemma_head(line: Seq<char>, a: char, b: char, c: char, code: u16)
    requires
        line.len() > 4,
        line[0] == a,
        line[1] == b,
        line[2] == c,
        line[3] == ' ',
        !text::white_space(line.last()),
        !line.contains('\n'),
        '0' <= a <= '9',
        '0' <= b <= '9',
        '0' <= c <= '9',
        code == (a as int - '0' as int) * 100 + (b as int - '0' as int) * 10 + (c as int
            - '0' as int),
    ensures
        head_line(line, code),
{
    assert(text::trimmed_end(line) == line);
    assert(text::trimmed_start(line) == line);
    let digits = seq![a].push(b).push(c);
    assert(text::solid_prefix(line) == digits) by {
        reveal_with_fuel(text::solid_prefix, 4);
        assert(line.drop_first().drop_first().drop_first()[0] == ' ');
        assert(text::solid_prefix(line.drop_first().drop_first().drop_first()) == Seq::<
            char,
        >::empty());
        assert(text::solid_prefix(line) =~= digits);
    }
    assert(text::decimal_value(digits) == code) by {
        reveal_with_fuel(text::decimal_value, 4);
        assert(digits.drop_last() == seq![a].push(b));
        assert(digits.drop_last().drop_last() == seq![a]);
    }
    assert(text::all_digits(digits));
}

/// What the method writes, apt reads: a response whose texts fit on one line
/// is read as its code and its fields, and its blank line ends it.
pub proof fn law_response_reads_back(resp: AptResponse<'_>)
    requires
        one_line_response(resp),
    ensures
        ({
            let head = protocol::response_head(resp);
            let fields = protocol::response_fields(resp);
            let lines = encode_utf8(head + "\n"@ + protocol::field_lines(fields));
            let state = StateView::Fields {
                code: response_code(resp),
                headers: merged(Map::empty(), fields),
            };
            &&& encode_utf8(protocol::response_text(resp)) == lines + seq![10u8]
            &&& state_after(StateView::Idle, lines) == Some(state)
            &&& protocol::line_step(state, seq![10u8]) is Done
        }),
{
    lemma_first_lines();
    lemma_response_fields_are_clean(resp);
    let head = protocol::response_head(resp);
    let fields = protocol::response_fields(resp);
    law_block_reads_back(head, response_code(resp), fields, Seq::empty());
    reveal_strlit("\n");
    text_laws::lemma_encode_concat(head + "\n"@ + protocol::field_lines(fields), "\n"@);
    lemma_one_line_bytes(Seq::empty(), Seq::empty());
    assert(Seq::<char>::empty() + seq!['\n'] == "\n"@);
    let bytes = encode_utf8("\n"@);
    assert(bytes + Seq::<u8>::empty() == bytes);
    lemma_newline_is_one_byte();
    assert("\n"@.drop_last() == Seq::<char>::empty());
    assert(text::trimmed_end("\n"@) == Seq::<char>::empty()) by {
        reveal_with_fuel(text::trimmed_end, 2);
    }
}

pub proof fn lemma_newline_is_one_byte()
    ensures
        encode_utf8("\n"@) == seq![10u8],
{
    reveal_strlit("\n");
    reveal_with_fuel(encode_utf8, 2);
    assert(leading_byte_width_1(10u32) == 10u8) by (bit_vector);
    assert("\n"@.drop_first() == Seq::<char>::empty());
    assert(encode_utf8("\n"@) =~= seq![10u8]);
}

/// Every response ends with a blank line.
pub proof fn law_response_ends_with_blank_line(resp: AptResponse<'_>)
    ensures
        protocol::response_text(resp).len() > 2,
        protocol::response_text(resp).last() == '\n',
        protocol::response_text(resp)[protocol::response_text(resp).len() - 2] == '\n',
{
    reveal_strlit("\n");
    reveal_strlit(": ");
    let fields = protocol::response_fields(resp);
    assert(fields.len() > 0);
    let line = protocol::field_line(fields.last());
    assert(line.last() == '\n' && line.len() > 2);
    let lines = protocol::field_lines(fields);
    assert(lines.last() == line.last());
}

/// A `201 URI Done` tells the size and the SHA-256 of the file, whatever else
/// it leaves out.
pub proof fn law_done_tells_size_and_hash(resp: AptResponse<'_>)
    requires
        resp is UriDone,
    ensures
        resp matches AptResponse::UriDone { size, sha256, .. } && {
            let fields = protocol::response_fields(resp);
            &&& fields.contains(("Size"@, text::decimal_text(size as nat)))
            &&& fields.contains(("SHA256-Hash"@, sha256@))
        },
{
    if let AptResponse::UriDone { size, sha256, .. } = resp {
        let fields = protocol::response_fields(resp);
        assert(fields[2] == ("Size"@, text::decimal_text(size as nat)));
        assert(fields[3] == ("SHA256-Hash"@, sha256@));
    }
}

/// No two line feeds stand side by side in `s`.
pub open spec fn no_blank_line(s: Seq<char>) -> bool {
    forall|i: int, j: int|
        0 <= i < s.len() && j == i + 1 && j < s.len() && #[trigger] s[i] == '\n' ==> #[trigger] s[j]
            != '\n'
}

/// A response without a line feed in any of its texts.
pub open spec fn feedless_response(resp: AptResponse<'_>) -> bool {
    match resp {
        AptResponse::Capabilities { .. } => true,
        AptResponse::Status { uri, message } => feedless(uri@) && feedless(message@),
        AptResponse::UriStart { uri, size, last_modified } => feedless(uri@) && optional_feedless(
            last_modified,
        ),
        AptResponse::UriDone { uri, filename, size, sha256, sha512, md5, last_modified } => {
            &&& feedless(uri@)
            &&& feedless(filename@)
            &&& feedless(sha256@)
            &&& optional_feedless(sha512)
            &&& optional_feedless(md5)
            &&& optional_feedless(last_modified)
        },
        AptResponse::UriFailure { uri, message } => feedless(uri@) && feedless(message@),
    }
}

pub open spec fn feedless(s: Seq<char>) -> bool {
    !s.contains('\n')
}

pub open spec fn optional_feedless(s: Option<&str>) -> bool {
    match s {
        Some(t) => feedless(t@),
        None => true,
    }
}

spec fn feedless_fields(fields: Seq<Field>) -> bool {
    forall|i: int|
        0 <= i < fields.len() ==> clean_name((#[trigger] fields[i]).0) && feedless(fields[i].1)
}

proof fn lemma_response_fields_are_feedless(resp: AptResponse<'_>)
    requires
        feedless_response(resp),
    ensures
        feedless_fields(protocol::response_fields(resp)),
        protocol::response_fields(resp).len() > 0,
{
    lemma_names_are_clean();
    match resp {
        AptResponse::Capabilities { .. } => {
            lemma_response_fields_are_clean(resp);
        },
        AptResponse::UriStart { size, .. } => {
            if size is Some {
                lemma_numbers_are_clean(size->0 as nat);
            }
        },
        AptResponse::UriDone { size, .. } => {
            lemma_numbers_are_clean(size as nat);
        },
        _ => {},
    }
}

proof fn lemma_lines_have_no_blank_line(fields: Seq<Field>)
    requires
        feedless_fields(fields),
    ensures
        ({
            let lines = protocol::field_lines(fields);
            &&& no_blank_line(lines)
            &&& lines.len() > 0 ==> lines[0] != '\n' && lines.last() == '\n'
        }),
    decreases fields.len(),
{
    if fields.len() > 0 {
        reveal_strlit("\n");
        reveal_strlit(": ");
        let init = fields.drop_last();
        let field = fields.last();
        assert(clean_name(fields[fields.len() - 1].0));
        assert forall|i: int| 0 <= i < init.len() implies clean_name((#[trigger] init[i]).0)
            && feedless(init[i].1) by {
            assert(init[i] == fields[i]);
        }
        lemma_lines_have_no_blank_line(init);
        let a = protocol::field_lines(init);
        let b = protocol::field_line(field);
        assert(b == field.0 + ": "@ + field.1 + "\n"@);
        assert forall|i: int| 0 <= i < b.len() - 1 implies b[i] != '\n' by {
            if i < field.0.len() {
                assert(field.0.contains(field.0[i]));
            } else if i >= field.0.len() + 2 {
                assert(field.1.contains(field.1[i - field.0.len() - 2]));
            }
        }
        let lines = protocol::field_lines(fields);
        assert(lines == a + b);
        assert forall|i: int, j: int|
            0 <= i < lines.len() && j == i + 1 && j < lines.len() && #[trigger] lines[i]
                == '\n' implies #[trigger] lines[j] != '\n' by {
            if j < a.len() {
                assert(a[i] == '\n');
                assert(a[j] != '\n');
            } else {
                assert(lines[j] == b[j - a.len()]);
                if i >= a.len() {
                    assert(lines[i] == b[i - a.len()]);
                }
            }
        }
    }
}

/// A response without a line feed in its texts has one blank line, at its end.
pub proof fn law_response_is_one_block(resp: AptResponse<'_>)
    requires
        feedless_response(resp),
    ensures
        no_blank_line(protocol::response_text(resp).drop_last()),
        protocol::response_text(resp)[0] != '\n',
{
    lemma_first_lines();
    lemma_response_fields_are_feedless(resp);
    reveal_strlit("\n");
    let head = protocol::response_head(resp);
    let fields = protocol::response_fields(resp);
    lemma_lines_have_no_blank_line(fields);
    let lines = protocol::field_lines(fields);
    let s = protocol::response_text(resp).drop_last();
    assert(s == head + "\n"@ + lines);
    assert(head.len() > 0) by {
        if head.len() == 0 {
            assert(head == Seq::<char>::empty());
        }
    }
    assert(head.contains(head[0]));
    assert forall|i: int, j: int|
        0 <= i < s.len() && j == i + 1 && j < s.len() && #[trigger] s[i]
            == '\n' implies #[trigger] s[j] != '\n' by {
        if i < head.len() {
            assert(head.contains(head[i]));
        } else if i == head.len() {
            assert(s[j] == lines[0]);
        } else {
            assert(s[i] == lines[i - head.len() - 1]);
            assert(s[j] == lines[j - head.len() - 1]);
        }
    }
}

/// The fields of a `600 URI Acquire`.
pub open spec fn acquire_fields(
    uri: Seq<char>,
    filename: Seq<char>,
    last_modified: Option<Seq<char>>,
    expected_hash: Option<Seq<char>>,
) -> Seq<Field> {
    protocol::with_optional(
        protocol::with_optional(
            seq![("URI"@, uri)].push(("Filename"@, filename)),
            "Last-Modified"@,
            last_modified,
        ),
        "Expected-SHA256"@,
        expected_hash,
    )
}

/// A `600 URI Acquire` whose values fit on one line is read as the request
/// that it makes, its URI decoded, and what follows it is left unread.
pub proof fn law_uri_acquire_reads_back(
    uri: Seq<char>,
    filename: Seq<char>,
    last_modified: Option<Seq<char>>,
    expected_hash: Option<Seq<char>>,
    more: Seq<u8>,
)
    requires
        one_line(uri),
        one_line(filename),
        last_modified is Some ==> one_line(last_modified->0),
        expected_hash is Some ==> one_line(expected_hash->0),
    ensures
        protocol::read_from(
            StateView::Idle,
            encode_utf8(
                protocol::block_text(
                    "600 URI Acquire"@,
                    acquire_fields(uri, filename, last_modified, expected_hash),
                ),
            ) + more,
        ) == (
            Ok::<Option<RequestView>, ErrorView>(
                Some(
                    RequestView::UriAcquire(
                        AcquireView {
                            uri: protocol::url_decoded(uri),
                            filename,
                            last_modified,
                            expected_hash,
                        },
                    ),
                ),
            ),
            more,
        ),
{
    let fields = acquire_fields(uri, filename, last_modified, expected_hash);
    lemma_names_are_clean();
    lemma_first_lines();
    assert(clean_fields(fields));
    law_block_reads_back("600 URI Acquire"@, 600, fields, more);
    let none = Map::<Seq<char>, Seq<char>>::empty();
    let first = seq![("URI"@, uri)];
    let second = first.push(("Filename"@, filename));
    let third = protocol::with_optional(second, "Last-Modified"@, last_modified);
    assert(first.drop_last() == Seq::<Field>::empty());
    assert(second.drop_last() == first);
    assert(merged(none, second) == none.insert("URI"@, uri).insert("Filename"@, filename)) by {
        reveal_with_fuel(merged, 3);
    }
    let two = merged(none, second);
    let three = merged(none, third);
    if last_modified is Some {
        assert(third.drop_last() == second);
        assert(third.last() == ("Last-Modified"@, last_modified->0));
        assert(three == two.insert("Last-Modified"@, last_modified->0));
    }
    if expected_hash is Some {
        assert(fields.drop_last() == third);
        assert(fields.last() == ("Expected-SHA256"@, expected_hash->0));
        assert(merged(none, fields) == three.insert("Expected-SHA256"@, expected_hash->0));
    }
    reveal_strlit("URI");
    reveal_strlit("Filename");
    reveal_strlit("Last-Modified");
    reveal_strlit("Expected-SHA256");
    reveal_strlit("Expected-Checksum");
    assert("URI"@.len() == 3 && "Filename"@.len() == 8 && "Last-Modified"@.len() == 13
        && "Expected-SHA256"@.len() == 15 && "Expected-Checksum"@.len() == 17);
    let map = merged(none, fields);
    assert(protocol::lookup(map, "URI"@) == Some(uri));
    assert(protocol::lookup(map, "Filename"@) == Some(filename));
    assert(protocol::lookup(map, "Last-Modified"@) == last_modified);
    assert(protocol::lookup(map, "Expected-SHA256"@) == expected_hash);
    assert(protocol::lookup(map, "Expected-Checksum"@) is None);
}

} // verus!
