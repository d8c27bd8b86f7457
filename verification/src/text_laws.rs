//! What holds of trimming, splitting and numbers, and facts about text that the
//! laws of the protocol rest on.

use vstd::prelude::*;
use vstd::utf8::*;

use crate::text;

verus! {

/// Encoding takes a concatenation apart.
pub proof fn lemma_encode_concat(a: Seq<char>, b: Seq<char>)
    ensures
        encode_utf8(a + b) == encode_utf8(a) + encode_utf8(b),
    decreases a.len(),
{
    if a.len() == 0 {
        assert(a + b == b);
    } else {
        lemma_encode_concat(a.drop_first(), b);
        assert((a + b).drop_first() == a.drop_first() + b);
        assert(encode_scalar(a[0] as u32) + (encode_utf8(a.drop_first()) + encode_utf8(b))
            == encode_utf8(a) + encode_utf8(b));
    }
}

/// In the encoding of a character, a byte of the ASCII range is the character
/// itself.
proof fn lemma_ascii_byte_of_scalar(c: char, i: int)
    requires
        0 <= i < encode_scalar(c as u32).len(),
        encode_scalar(c as u32)[i] < 0x80,
    ensures
        encode_scalar(c as u32)[i] == c as u32,
{
    let s = c as u32;
    char_is_scalar(c);
    assert(s <= 0x7f ==> leading_byte_width_1(s) as u32 == s) by (bit_vector);
    assert(leading_byte_width_2(s) >= 0x80) by (bit_vector);
    assert(leading_byte_width_3(s) >= 0x80) by (bit_vector);
    assert(leading_byte_width_4(s) >= 0x80) by (bit_vector);
    assert(last_continuation_byte(s) >= 0x80) by (bit_vector);
    assert(second_last_continuation_byte(s) >= 0x80) by (bit_vector);
    assert(third_last_continuation_byte(s) >= 0x80) by (bit_vector);
}

/// A byte of the ASCII range stands in the encoding of `s` only where the
/// character itself stands in `s`.
pub proof fn lemma_ascii_byte_of_text(s: Seq<char>, i: int)
    requires
        0 <= i < encode_utf8(s).len(),
        encode_utf8(s)[i] < 0x80,
    ensures
        s.contains(encode_utf8(s)[i] as char),
    decreases s.len(),
{
    let head = encode_scalar(s[0] as u32);
    if i < head.len() {
        assert(encode_utf8(s)[i] == head[i]);
        lemma_ascii_byte_of_scalar(s[0], i);
        char_u32_cast(s[0], s[0] as u32);
        assert(s[0] == encode_utf8(s)[i] as char);
    } else {
        let rest = s.drop_first();
        assert(encode_utf8(s)[i] == encode_utf8(rest)[i - head.len()]);
        lemma_ascii_byte_of_text(rest, i - head.len());
        let j = choose|j: int|
            0 <= j < rest.len() && rest[j] == encode_utf8(rest)[i - head.len()] as char;
        assert(s[j + 1] == rest[j]);
    }
}

pub proof fn lemma_trimmed_end_shrinks(s: Seq<char>)
    ensures
        text::trimmed_end(s).len() <= s.len(),
        text::trimmed_end(s).len() == s.len() ==> {
            &&& text::trimmed_end(s) == s
            &&& s.len() > 0 ==> !text::white_space(s.last())
        },
    decreases s.len(),
{
    if s.len() > 0 && text::white_space(s.last()) {
        lemma_trimmed_end_shrinks(s.drop_last());
    }
}

pub proof fn lemma_trimmed_start_shrinks(s: Seq<char>)
    ensures
        text::trimmed_start(s).len() <= s.len(),
        text::trimmed_start(s).len() == s.len() ==> text::trimmed_start(s) == s && (s.len() > 0
            ==> !text::white_space(s[0])),
    decreases s.len(),
{
    if s.len() > 0 && text::white_space(s[0]) {
        lemma_trimmed_start_shrinks(s.drop_first());
    }
}

/// Trimmed text has no white space at either end.
pub proof fn lemma_trimmed_ends(s: Seq<char>)
    requires
        text::trimmed(s) == s,
    ensures
        s.len() > 0 ==> !text::white_space(s[0]) && !text::white_space(s.last()),
{
    lemma_trimmed_end_shrinks(s);
    lemma_trimmed_start_shrinks(text::trimmed_end(s));
    lemma_trimmed_start_shrinks(s);
}

/// Where `c` does not occur in `a` and stands behind it, it is found there.
pub proof fn lemma_first_index(a: Seq<char>, b: Seq<char>, c: char)
    requires
        !a.contains(c),
        b.len() > 0,
        b[0] == c,
    ensures
        text::first_index(a + b, c) == a.len(),
    decreases a.len(),
{
    if a.len() == 0 {
        assert(a + b == b);
    } else {
        assert(a.contains(a[0]));
        assert((a + b).drop_first() == a.drop_first() + b);
        assert forall|i: int| 0 <= i < a.drop_first().len() implies a.drop_first()[i] != c by {
            assert(a.contains(a[i + 1]));
        }
        lemma_first_index(a.drop_first(), b, c);
    }
}

pub proof fn lemma_no_index(s: Seq<char>, c: char)
    requires
        !s.contains(c),
    ensures
        text::first_index(s, c) == s.len(),
    decreases s.len(),
{
    if s.len() > 0 {
        assert(s.contains(s[0]));
        assert forall|i: int| 0 <= i < s.drop_first().len() implies s.drop_first()[i] != c by {
            assert(s.contains(s[i + 1]));
        }
        lemma_no_index(s.drop_first(), c);
    }
}

/// True when `s` is white space from `i` up to `j`.
pub open spec fn blank_between(s: Seq<char>, i: int, j: int) -> bool {
    forall|k: int| i <= k < j ==> text::white_space(#[trigger] s[k])
}

/// Trimming at the end takes the white space there, and nothing else.
pub proof fn law_trimmed_end(s: Seq<char>)
    ensures
        ({
            let t = text::trimmed_end(s);
            &&& t.len() <= s.len()
            &&& t == s.take(t.len() as int)
            &&& blank_between(s, t.len() as int, s.len() as int)
            &&& t.len() > 0 ==> !text::white_space(t.last())
        }),
    decreases s.len(),
{
    if s.len() > 0 && text::white_space(s.last()) {
        let init = s.drop_last();
        law_trimmed_end(init);
        let t = text::trimmed_end(s);
        assert(init.take(t.len() as int) =~= s.take(t.len() as int));
        assert forall|k: int| t.len() <= k < s.len() implies text::white_space(#[trigger] s[k]) by {
            if k < init.len() {
                assert(init[k] == s[k]);
            }
        }
    } else {
        assert(s.take(s.len() as int) =~= s);
    }
}

/// Trimming at the start takes the white space there, and nothing else.
pub proof fn law_trimmed_start(s: Seq<char>)
    ensures
        ({
            let t = text::trimmed_start(s);
            let n = s.len() - t.len();
            &&& t.len() <= s.len()
            &&& t == s.skip(n)
            &&& blank_between(s, 0, n)
            &&& t.len() > 0 ==> !text::white_space(t[0])
        }),
    decreases s.len(),
{
    if s.len() > 0 && text::white_space(s[0]) {
        let rest = s.drop_first();
        law_trimmed_start(rest);
        let n = s.len() - text::trimmed_start(s).len();
        assert(rest.skip(n - 1) =~= s.skip(n));
        assert forall|k: int| 0 <= k < n implies text::white_space(#[trigger] s[k]) by {
            if k > 0 {
                assert(rest[k - 1] == s[k]);
            }
        }
    } else {
        assert(s.skip(0) =~= s);
    }
}

/// Text between white space is what trimming leaves of it.
pub proof fn law_trimmed(before: Seq<char>, s: Seq<char>, after: Seq<char>)
    requires
        blank_between(before, 0, before.len() as int),
        blank_between(after, 0, after.len() as int),
        s.len() > 0 ==> !text::white_space(s[0]) && !text::white_space(s.last()),
    ensures
        text::trimmed(before + s + after) == s,
        s.len() > 0 ==> text::trimmed_end(before + s + after) == before + s,
        s.len() == 0 ==> text::trimmed_end(before + s + after) == Seq::<char>::empty(),
    decreases before.len() + after.len(),
{
    let whole = before + s + after;
    if after.len() > 0 {
        assert(whole.last() == after[after.len() - 1]);
        assert(whole.drop_last() =~= before + s + after.drop_last());
        assert forall|k: int| 0 <= k < after.drop_last().len() implies text::white_space(
            #[trigger] after.drop_last()[k],
        ) by {
            assert(after[k] == after.drop_last()[k]);
        }
        law_trimmed(before, s, after.drop_last());
    } else if s.len() == 0 {
        assert(whole =~= before);
        if before.len() > 0 {
            assert(before.last() == before[before.len() - 1]);
            assert forall|k: int| 0 <= k < before.drop_last().len() implies text::white_space(
                #[trigger] before.drop_last()[k],
            ) by {
                assert(before[k] == before.drop_last()[k]);
            }
            law_trimmed(before.drop_last(), s, after);
            assert(before.drop_last() + s + after =~= before.drop_last());
        } else {
            assert(whole =~= s);
        }
    } else {
        assert(whole =~= before + s);
        assert(whole.last() == s.last());
        lemma_trimmed_start_of(before, s);
    }
}

proof fn lemma_trimmed_start_of(before: Seq<char>, s: Seq<char>)
    requires
        blank_between(before, 0, before.len() as int),
        s.len() > 0,
        !text::white_space(s[0]),
    ensures
        text::trimmed_start(before + s) == s,
    decreases before.len(),
{
    if before.len() > 0 {
        assert((before + s).drop_first() =~= before.drop_first() + s);
        assert((before + s)[0] == before[0]);
        assert forall|k: int| 0 <= k < before.drop_first().len() implies text::white_space(
            #[trigger] before.drop_first()[k],
        ) by {
            assert(before[k + 1] == before.drop_first()[k]);
        }
        lemma_trimmed_start_of(before.drop_first(), s);
    } else {
        assert(before + s =~= s);
    }
}

/// The first word is what stands before the first white space behind it.
pub proof fn law_first_word(before: Seq<char>, word: Seq<char>, rest: Seq<char>)
    requires
        blank_between(before, 0, before.len() as int),
        word.len() > 0,
        forall|k: int| 0 <= k < word.len() ==> !text::white_space(#[trigger] word[k]),
        rest.len() > 0 ==> text::white_space(rest[0]),
    ensures
        text::first_word_of(before + word + rest) == word,
{
    assert(before + word + rest =~= before + (word + rest));
    assert((word + rest)[0] == word[0]);
    lemma_trimmed_start_of(before, word + rest);
    lemma_solid_prefix(word, rest);
}

/// White space holds no word.
pub proof fn law_no_word(s: Seq<char>)
    requires
        blank_between(s, 0, s.len() as int),
    ensures
        text::first_word_of(s) == Seq::<char>::empty(),
{
    law_trimmed_start(s);
    let t = text::trimmed_start(s);
    if t.len() > 0 {
        assert(t[0] == s[s.len() - t.len()]);
    }
}

/// White space behind a text is taken off.
pub proof fn lemma_trimmed_end_of(s: Seq<char>, after: Seq<char>)
    requires
        s.len() > 0 ==> !text::white_space(s.last()),
        blank_between(after, 0, after.len() as int),
    ensures
        text::trimmed_end(s + after) == s,
    decreases after.len(),
{
    if after.len() > 0 {
        assert((s + after).last() == after[after.len() - 1]);
        assert((s + after).drop_last() =~= s + after.drop_last());
        assert forall|k: int| 0 <= k < after.drop_last().len() implies text::white_space(
            #[trigger] after.drop_last()[k],
        ) by {
            assert(after[k] == after.drop_last()[k]);
        }
        lemma_trimmed_end_of(s, after.drop_last());
    } else {
        assert(s + after =~= s);
    }
}

proof fn lemma_solid_prefix(word: Seq<char>, rest: Seq<char>)
    requires
        forall|k: int| 0 <= k < word.len() ==> !text::white_space(#[trigger] word[k]),
        rest.len() > 0 ==> text::white_space(rest[0]),
    ensures
        text::solid_prefix(word + rest) == word,
    decreases word.len(),
{
    if word.len() == 0 {
        assert(word + rest =~= rest);
        assert(text::solid_prefix(word + rest) =~= word);
    } else {
        let tail = word.drop_first();
        assert((word + rest).drop_first() =~= tail + rest);
        assert((word + rest)[0] == word[0]);
        assert forall|k: int| 0 <= k < tail.len() implies !text::white_space(#[trigger] tail[k]) by {
            assert(word[k + 1] == tail[k]);
        }
        lemma_solid_prefix(tail, rest);
        assert(seq![word[0]] + tail =~= word);
    }
}

/// A character is found where it first stands.
pub proof fn law_first_index(s: Seq<char>, c: char)
    ensures
        ({
            let i = text::first_index(s, c);
            &&& 0 <= i <= s.len()
            &&& forall|k: int| 0 <= k < i ==> #[trigger] s[k] != c
            &&& i < s.len() ==> s[i] == c
        }),
    decreases s.len(),
{
    if s.len() > 0 && s[0] != c {
        let rest = s.drop_first();
        law_first_index(rest, c);
        let i = text::first_index(s, c);
        assert forall|k: int| 0 <= k < i implies #[trigger] s[k] != c by {
            if k > 0 {
                assert(rest[k - 1] == s[k]);
            }
        }
        if i < s.len() {
            assert(rest[i - 1] == s[i]);
        }
    }
}

/// A run of one character at the end of a text is taken off whole.
pub proof fn law_without_trailing(s: Seq<char>, c: char, n: nat)
    requires
        s.len() > 0 ==> s.last() != c,
    ensures
        text::without_trailing(s + Seq::new(n, |i: int| c), c) == s,
    decreases n,
{
    let run = Seq::new(n, |i: int| c);
    if n > 0 {
        let shorter = Seq::new((n - 1) as nat, |i: int| c);
        assert((s + run).drop_last() =~= s + shorter);
        assert((s + run).last() == c);
        law_without_trailing(s, c, (n - 1) as nat);
    } else {
        assert(s + run =~= s);
    }
}

/// Ten to the power of `n`.
pub open spec fn ten_to(n: nat) -> nat
    decreases n,
{
    if n == 0 {
        1
    } else {
        10 * ten_to((n - 1) as nat)
    }
}

/// The number that the digits of `s` make, each at its place.
pub open spec fn place_value(s: Seq<char>) -> nat
    decreases s.len(),
{
    if s.len() == 0 {
        0
    } else {
        ((s[0] as int - '0' as int) * ten_to((s.len() - 1) as nat) + place_value(
            s.drop_first(),
        )) as nat
    }
}

/// True when `s` holds nothing but decimal digits.
pub open spec fn digits_only(s: Seq<char>) -> bool {
    forall|k: int| 0 <= k < s.len() ==> '0' <= #[trigger] s[k] <= '9'
}

proof fn lemma_place_value_push(s: Seq<char>, c: char)
    requires
        digits_only(s),
        '0' <= c <= '9',
    ensures
        place_value(s.push(c)) == place_value(s) * 10 + (c as int - '0' as int),
    decreases s.len(),
{
    if s.len() == 0 {
        assert(s.push(c).drop_first() =~= Seq::<char>::empty());
        assert(place_value(s) == 0);
        assert(place_value(s.push(c).drop_first()) == 0);
        assert(ten_to(0) == 1);
        let d = c as int - '0' as int;
        assert(d * 1 == d);
        assert(s.push(c)[0] == c);
        assert(place_value(s.push(c)) == (d * ten_to(0) + 0) as nat);
    } else {
        let rest = s.drop_first();
        assert(s.push(c).drop_first() =~= rest.push(c));
        assert forall|k: int| 0 <= k < rest.len() implies '0' <= #[trigger] rest[k] <= '9' by {
            assert(s[k + 1] == rest[k]);
        }
        lemma_place_value_push(rest, c);
        let d = s[0] as int - '0' as int;
        let p = ten_to((s.len() - 1) as nat);
        assert(ten_to(s.len()) == 10 * p);
        assert(s.push(c)[0] == s[0]);
        assert(d >= 0);
        assert(d * (10 * p) == 10 * (d * p)) by (nonlinear_arith);
        assert(d * p >= 0) by (nonlinear_arith)
            requires
                d >= 0,
                p >= 0,
        ;
        assert(d * (10 * p) >= 0);
        assert(place_value(s.push(c)) == (d * ten_to(s.len()) + place_value(rest.push(c))) as nat);
        assert(place_value(s) == (d * p + place_value(rest)) as nat);
    }
}

proof fn lemma_decimal_value(s: Seq<char>)
    requires
        digits_only(s),
    ensures
        text::decimal_value(s) == place_value(s),
    decreases s.len(),
{
    if s.len() > 0 {
        let init = s.drop_last();
        assert forall|k: int| 0 <= k < init.len() implies '0' <= #[trigger] init[k] <= '9' by {
            assert(s[k] == init[k]);
        }
        assert(s.last() == s[s.len() - 1]);
        lemma_decimal_value(init);
        lemma_place_value_push(init, s.last());
        assert(init.push(s.last()) =~= s);
    }
}

/// A code is read as the number that its digits make, with or without a plus
/// sign, up to the largest of sixteen bits. Any other text is no code.
pub proof fn law_number_of(s: Seq<char>)
    ensures
        s.len() > 0 && digits_only(s) ==> text::number_of(s) == (if place_value(s) <= 65535 {
            Some(place_value(s) as u16)
        } else {
            None
        }),
        s.len() > 0 && digits_only(s) ==> text::number_of(seq!['+'] + s) == text::number_of(s),
        s.len() == 0 ==> text::number_of(s) is None && text::number_of(seq!['+'] + s) is None,
        !digits_only(s) ==> text::number_of(seq!['+'] + s) is None,
        !digits_only(s) && s[0] != '+' ==> text::number_of(s) is None,
{
    let signed = seq!['+'] + s;
    assert(signed.drop_first() =~= s);
    assert(signed[0] == '+');
    if digits_only(s) {
        lemma_decimal_value(s);
        if s.len() > 0 {
            assert('0' <= s[0] <= '9');
        }
    }
}

/// A number is written in decimal digits, without leading zeros, as the digits
/// that make it.
pub proof fn law_decimal_text(n: nat)
    ensures
        text::decimal_text(n).len() > 0,
        digits_only(text::decimal_text(n)),
        place_value(text::decimal_text(n)) == n,
        text::decimal_text(n).len() > 1 ==> text::decimal_text(n)[0] != '0',
    decreases n,
{
    text::law_decimal_text_reads_back(n);
    lemma_decimal_value(text::decimal_text(n));
    if n >= 10 {
        law_decimal_text(n / 10);
        let init = text::decimal_text(n / 10);
        assert(text::decimal_text(n)[0] == init[0]);
        if n / 10 < 10 {
            assert(init =~= seq![text::digit_char(n / 10)]);
        } else {
            law_decimal_text(n / 10 / 10);
            assert(init == text::decimal_text(n / 10 / 10).push(text::digit_char(n / 10 % 10)));
        }
    }
}

/// Text that was encoded is read back from its bytes.
pub proof fn law_utf8_text(s: Seq<char>)
    ensures
        text::utf8_text(encode_utf8(s)) == s,
{
    encode_utf8_valid_utf8(s);
    encode_utf8_decode_utf8(s);
}

} // verus!
