//! What holds of base64 and hexadecimal text.

use vstd::arithmetic::div_mod::lemma_div_denominator;
use vstd::prelude::*;

use crate::codec;

verus! {

/// True for the characters that base64 text is made of.
pub open spec fn base64_char(c: char) -> bool {
    ||| 'A' <= c <= 'Z'
    ||| 'a' <= c <= 'z'
    ||| '0' <= c <= '9'
    ||| c == '+'
    ||| c == '/'
    ||| c == '='
}

/// The value of a base64 symbol.
pub open spec fn symbol_value(c: char) -> int {
    if 'A' <= c <= 'Z' {
        c as int - 'A' as int
    } else if 'a' <= c <= 'z' {
        c as int - 'a' as int + 26
    } else if '0' <= c <= '9' {
        c as int - '0' as int + 52
    } else if c == '+' {
        62
    } else {
        63
    }
}

proof fn lemma_symbol(v: int)
    requires
        0 <= v < 64,
    ensures
        base64_char(codec::base64_symbol(v)),
        codec::base64_symbol(v) != '=',
        symbol_value(codec::base64_symbol(v)) == v,
{
}

/// The number that the first three of `bytes` make.
spec fn group_number(bytes: Seq<u8>) -> int {
    bytes[0] * 65536 + (if bytes.len() > 1 {
        bytes[1] * 256
    } else {
        0
    }) + (if bytes.len() > 2 {
        bytes[2] as int
    } else {
        0
    })
}

/// The quotient and the rest of `q * 64 + r`.
proof fn lemma_digit(q: int, r: int)
    requires
        0 <= r < 64,
    ensures
        (q * 64 + r) / 64 == q,
        (q * 64 + r) % 64 == r,
{
}

proof fn lemma_quotients(n: int)
    requires
        0 <= n,
    ensures
        n / 4096 == n / 64 / 64,
        n / 262144 == n / 64 / 64 / 64,
{
    lemma_div_denominator(n, 64, 64);
    lemma_div_denominator(n, 4096, 64);
}

proof fn lemma_four_digits(n: int)
    requires
        0 <= n,
    ensures
        n == n / 262144 * 262144 + n / 4096 % 64 * 4096 + n / 64 % 64 * 64 + n % 64,
{
    lemma_quotients(n);
    let a = n / 64;
    let b = a / 64;
    let c = b / 64;
    assert(n == a * 64 + n % 64);
    assert(a == b * 64 + a % 64);
    assert(b == c * 64 + b % 64);
}

proof fn lemma_group_number(bytes: Seq<u8>)
    requires
        bytes.len() > 0,
    ensures
        0 <= group_number(bytes) < 16777216,
        bytes.len() == 1 ==> group_number(bytes) / 64 % 64 == 0,
        bytes.len() <= 2 ==> group_number(bytes) % 64 == 0,
{
}

proof fn lemma_three_bytes(x: u8, y: u8, z: u8, u: u8, v: u8, w: u8)
    requires
        x * 65536 + y * 256 + z == u * 65536 + v * 256 + w,
    ensures
        x == u,
        y == v,
        z == w,
{
}

proof fn lemma_group(bytes: Seq<u8>)
    requires
        bytes.len() > 0,
    ensures
        codec::base64_group(bytes).len() == 4,
        forall|i: int| 0 <= i < 4 ==> base64_char(#[trigger] codec::base64_group(bytes)[i]),
        codec::base64_group(bytes)[2] == '=' <==> bytes.len() == 1,
        codec::base64_group(bytes)[3] == '=' <==> bytes.len() <= 2,
        ({
            let g = codec::base64_group(bytes);
            group_number(bytes) == symbol_value(g[0]) * 262144 + symbol_value(g[1]) * 4096 + (
            if g[2] == '=' {
                0
            } else {
                symbol_value(g[2]) * 64
            }) + (if g[3] == '=' {
                0
            } else {
                symbol_value(g[3])
            })
        }),
{
    let n = group_number(bytes);
    lemma_group_number(bytes);
    lemma_four_digits(n);
    lemma_symbol(n / 262144);
    lemma_symbol(n / 4096 % 64);
    lemma_symbol(n / 64 % 64);
    lemma_symbol(n % 64);
}

proof fn lemma_group_faithful(a: Seq<u8>, b: Seq<u8>)
    requires
        a.len() > 0,
        b.len() > 0,
        codec::base64_group(a) == codec::base64_group(b),
    ensures
        a.len() <= 3 && b.len() <= 3 ==> a == b,
        a.len() >= 3 ==> b.len() >= 3 && a.take(3) == b.take(3),
{
    lemma_group(a);
    lemma_group(b);
    assert(group_number(a) == group_number(b));
    if a.len() == 1 {
        assert(b.len() == 1);
        assert(a =~= b);
    } else if a.len() == 2 {
        assert(b.len() == 2);
        lemma_three_bytes(a[0], a[1], 0, b[0], b[1], 0);
        assert(a =~= b);
    } else {
        lemma_three_bytes(a[0], a[1], a[2], b[0], b[1], b[2]);
        assert(a.take(3) =~= b.take(3));
        if a.len() == 3 && b.len() == 3 {
            assert(a =~= b);
        }
    }
}

/// Base64 text is one run of visible ASCII characters, four for each three
/// bytes: it fits in a header.
pub proof fn law_base64_fits_in_a_header(bytes: Seq<u8>)
    ensures
        codec::base64_text(bytes).len() == codec::base64_length(bytes.len()),
        forall|i: int|
            0 <= i < codec::base64_text(bytes).len() ==> base64_char(
                #[trigger] codec::base64_text(bytes)[i],
            ),
    decreases bytes.len(),
{
    if bytes.len() > 0 {
        lemma_group(bytes);
    }
    if bytes.len() > 3 {
        law_base64_fits_in_a_header(bytes.skip(3));
    }
}

/// No two byte strings have the same base64 text.
pub proof fn law_base64_is_faithful(a: Seq<u8>, b: Seq<u8>)
    requires
        codec::base64_text(a) == codec::base64_text(b),
    ensures
        a == b,
    decreases a.len(),
{
    law_base64_fits_in_a_header(a);
    law_base64_fits_in_a_header(b);
    let text = codec::base64_text(a);
    if a.len() == 0 || b.len() == 0 {
        assert(a =~= b);
    } else {
        lemma_group(a);
        lemma_group(b);
        assert(text.take(4) =~= codec::base64_group(a));
        assert(text.take(4) =~= codec::base64_group(b));
        lemma_group_faithful(a, b);
        if a.len() > 3 {
            assert(b.len() > 3);
            assert(text.skip(4) =~= codec::base64_text(a.skip(3)));
            assert(text.skip(4) =~= codec::base64_text(b.skip(3)));
            law_base64_is_faithful(a.skip(3), b.skip(3));
            assert(a =~= a.take(3) + a.skip(3));
            assert(b =~= b.take(3) + b.skip(3));
        }
    }
}

/// Hexadecimal text has two lower-case digits for each byte, and no two byte
/// strings have the same.
pub proof fn law_hex_is_faithful(a: Seq<u8>, b: Seq<u8>)
    ensures
        codec::hex_text(a).len() == 2 * a.len(),
        forall|i: int|
            0 <= i < codec::hex_text(a).len() ==> {
                let c = #[trigger] codec::hex_text(a)[i];
                '0' <= c <= '9' || 'a' <= c <= 'f'
            },
        codec::hex_text(a) == codec::hex_text(b) ==> a == b,
{
    if codec::hex_text(a) == codec::hex_text(b) {
        assert(codec::hex_text(a).len() == 2 * a.len());
        assert(codec::hex_text(b).len() == 2 * b.len());
        assert forall|i: int| 0 <= i < a.len() implies a[i] == b[i] by {
            assert(codec::hex_text(a)[2 * i] == codec::hex_text(b)[2 * i]);
            assert(codec::hex_text(a)[2 * i + 1] == codec::hex_text(b)[2 * i + 1]);
        }
        assert(a =~= b);
    }
}

proof fn lemma_bytes_of_number(x: u8, y: u8, z: u8)
    ensures
        ({
            let n = x * 65536 + y * 256 + z;
            &&& x == n / 262144 * 4 + n / 4096 % 64 / 16
            &&& y == n / 4096 % 64 % 16 * 16 + n / 64 % 64 / 4
            &&& z == n / 64 % 64 % 4 * 64 + n % 64
        }),
{
    let n = x * 65536 + y * 256 + z;
    let p = x as int / 4;
    let q = x as int % 4 * 16 + y as int / 16;
    let r = y as int % 16 * 4 + z as int / 64;
    let t = z as int % 64;
    assert(n == ((p * 64 + q) * 64 + r) * 64 + t);
    lemma_quotients(n);
    lemma_digit((p * 64 + q) * 64 + r, t);
    lemma_digit(p * 64 + q, r);
    lemma_digit(p, q);
    assert(q / 16 == x as int % 4 && q % 16 == y as int / 16);
    assert(r / 4 == y as int % 16 && r % 4 == z as int / 64);
}

proof fn lemma_group_bytes(bytes: Seq<u8>)
    requires
        bytes.len() > 0,
    ensures
        ({
            let g = codec::base64_group(bytes);
            &&& g.len() == 4
            &&& bytes[0] == symbol_value(g[0]) * 4 + symbol_value(g[1]) / 16
            &&& bytes.len() > 1 ==> bytes[1] == symbol_value(g[1]) % 16 * 16 + symbol_value(g[2])
                / 4
            &&& bytes.len() > 2 ==> bytes[2] == symbol_value(g[2]) % 4 * 64 + symbol_value(g[3])
        }),
{
    let n = group_number(bytes);
    lemma_group_number(bytes);
    lemma_symbol(n / 262144);
    lemma_symbol(n / 4096 % 64);
    lemma_symbol(n / 64 % 64);
    lemma_symbol(n % 64);
    lemma_bytes_of_number(
        bytes[0],
        if bytes.len() > 1 {
            bytes[1]
        } else {
            0
        },
        if bytes.len() > 2 {
            bytes[2]
        } else {
            0
        },
    );
}

/// Base64 text carries the bytes six bits at a time: each byte can be read off the
/// two symbols that share it.
pub proof fn law_base64_carries_the_bytes(bytes: Seq<u8>, i: int)
    requires
        0 <= i < bytes.len(),
    ensures
        ({
            let t = codec::base64_text(bytes);
            let g = i / 3 * 4;
            &&& g + 4 <= t.len()
            &&& i % 3 == 0 ==> bytes[i] == symbol_value(t[g]) * 4 + symbol_value(t[g + 1]) / 16
            &&& i % 3 == 1 ==> bytes[i] == symbol_value(t[g + 1]) % 16 * 16 + symbol_value(
                t[g + 2],
            ) / 4
            &&& i % 3 == 2 ==> bytes[i] == symbol_value(t[g + 2]) % 4 * 64 + symbol_value(t[g + 3])
        }),
    decreases bytes.len(),
{
    let t = codec::base64_text(bytes);
    lemma_group_bytes(bytes);
    let group = codec::base64_group(bytes);
    if i < 3 {
        assert(t[0] == group[0] && t[1] == group[1] && t[2] == group[2] && t[3] == group[3]);
    } else {
        let rest = bytes.skip(3);
        law_base64_carries_the_bytes(rest, i - 3);
        let u = codec::base64_text(rest);
        let g = (i - 3) / 3 * 4;
        assert(i / 3 * 4 == g + 4);
        assert((i - 3) % 3 == i % 3);
        assert(t[g + 4] == u[g] && t[g + 5] == u[g + 1] && t[g + 6] == u[g + 2] && t[g + 7] == u[g
            + 3]);
    }
}

/// The value of a lower-case hexadecimal digit.
pub open spec fn hex_value(c: char) -> int {
    if '0' <= c <= '9' {
        c as int - '0' as int
    } else {
        c as int - 'a' as int + 10
    }
}

/// Hexadecimal text carries each byte in two digits, the high one first.
pub proof fn law_hex_carries_the_bytes(bytes: Seq<u8>, i: int)
    requires
        0 <= i < bytes.len(),
    ensures
        codec::hex_text(bytes).len() == 2 * bytes.len(),
        hex_value(codec::hex_text(bytes)[2 * i]) * 16 + hex_value(codec::hex_text(bytes)[2 * i + 1])
            == bytes[i],
{
}

/// What is said of digests is what they hold.
pub proof fn law_digests(digests: codec::Digests, body: Seq<u8>)
    ensures
        codec::digests_of(digests, body) <==> {
            &&& digests.size == body.len()
            &&& digests.sha256@ == codec::hex_text(codec::sha256_digest(body))
            &&& digests.sha512@ == codec::hex_text(codec::sha512_digest(body))
            &&& digests.md5@ == codec::hex_text(codec::md5_digest(body))
        },
{
}

} // verus!
