//! Encodings and digests: base64, hexadecimal, SHA-256, SHA-512, MD5, and the
//! text of an HTTP status. The work is done by outside crates; what is relied
//! on is stated here.

use vstd::prelude::*;

verus! {

/// The symbol for a six-bit value in the standard base64 alphabet.
pub open spec fn base64_symbol(v: int) -> char {
    if v < 26 {
        ('A' as int + v) as char
    } else if v < 52 {
        ('a' as int + v - 26) as char
    } else if v < 62 {
        ('0' as int + v - 52) as char
    } else if v == 62 {
        '+'
    } else {
        '/'
    }
}

/// The four characters for the first three bytes of `bytes`, padded with `=`
/// where there are fewer.
pub open spec fn base64_group(bytes: Seq<u8>) -> Seq<char> {
    let n = bytes[0] * 65536 + (if bytes.len() > 1 {
        bytes[1] * 256
    } else {
        0
    }) + (if bytes.len() > 2 {
        bytes[2] as int
    } else {
        0
    });
    seq![base64_symbol(n / 262144)].push(base64_symbol(n / 4096 % 64)).push(
        if bytes.len() > 1 {
            base64_symbol(n / 64 % 64)
        } else {
            '='
        },
    ).push(
        if bytes.len() > 2 {
            base64_symbol(n % 64)
        } else {
            '='
        },
    )
}

/// `bytes` in base64, with the standard alphabet and padding (RFC 4648).
pub open spec fn base64_text(bytes: Seq<u8>) -> Seq<char>
    decreases bytes.len(),
{
    if bytes.len() == 0 {
        Seq::empty()
    } else if bytes.len() <= 3 {
        base64_group(bytes)
    } else {
        base64_group(bytes) + base64_text(bytes.skip(3))
    }
}

/// The length of `n` bytes in base64.
pub open spec fn base64_length(n: nat) -> nat {
    (n + 2) / 3 * 4
}

/// `base64::Engine::encode` of the engine
/// `base64::engine::general_purpose::STANDARD`: base64 with the standard
/// alphabet and padding. The result has to fit in memory.
#[verifier::external_body]
fn standard_base64(bytes: &[u8]) -> (text: String)
    requires
        base64_length(bytes@.len()) <= isize::MAX,
    ensures
        text@ == base64_text(bytes@),
{
    base64::Engine::encode(&base64::engine::general_purpose::STANDARD, bytes)
}

pub fn base64_encode(bytes: &[u8]) -> (text: String)
    requires
        base64_length(bytes@.len()) <= isize::MAX,
    ensures
        text@ == base64_text(bytes@),
{
    standard_base64(bytes)
}

/// The lower-case hexadecimal digit for a number under sixteen.
pub open spec fn hex_symbol(v: int) -> char {
    if v < 10 {
        ('0' as int + v) as char
    } else {
        ('a' as int + v - 10) as char
    }
}

/// `bytes` in hexadecimal, two lower-case digits for each.
pub open spec fn hex_text(bytes: Seq<u8>) -> Seq<char> {
    Seq::new(
        2 * bytes.len(),
        |i: int|
            if i % 2 == 0 {
                hex_symbol(bytes[i / 2] as int / 16)
            } else {
                hex_symbol(bytes[i / 2] as int % 16)
            },
    )
}

/// `hex::encode`: two lower-case hexadecimal digits for each byte. The result
/// has to fit in memory.
#[verifier::external_body]
pub(crate) fn hex_encode(bytes: &[u8]) -> (text: String)
    requires
        2 * bytes@.len() <= isize::MAX,
    ensures
        text@ == hex_text(bytes@),
{
    hex::encode(bytes)
}

/// What `reqwest::StatusCode` writes for a status code.
pub uninterp spec fn status_text(code: u16) -> Seq<char>;

/// `reqwest::StatusCode::from_u16` and the `Display` of its result: the code
/// and its reason phrase. The phrases are left to the crate. Codes outside of
/// 100 to 999 are no status.
#[verifier::external_body]
pub(crate) fn status_string(code: u16) -> (text: String)
    requires
        100 <= code <= 999,
    ensures
        text@ == status_text(code),
{
    reqwest::StatusCode::from_u16(code).unwrap().to_string()
}

#[verifier::external_type_specification]
#[verifier::external_body]
pub struct ExSha256(sha2::Sha256);

#[verifier::external_type_specification]
#[verifier::external_body]
pub struct ExSha512(sha2::Sha512);

#[verifier::external_type_specification]
#[verifier::external_body]
pub struct ExMd5(md5::Md5);

/// The number of bytes at which SHA-256 can take no more: its padding holds
/// the length in bits, in 64 bits.
pub open spec fn message_limit() -> nat {
    0x2000_0000_0000_0000
}

/// The bytes that a SHA-256 hasher has taken in.
pub uninterp spec fn sha256_input(hasher: sha2::Sha256) -> Seq<u8>;

/// The SHA-256 digest of bytes.
pub uninterp spec fn sha256_digest(data: Seq<u8>) -> Seq<u8>;

/// `sha2::Digest::new` for `sha2::Sha256`: a hasher that has taken in nothing.
#[verifier::external_body]
pub(crate) fn sha256_new() -> (hasher: sha2::Sha256)
    ensures
        sha256_input(hasher) == Seq::<u8>::empty(),
{
    <sha2::Sha256 as sha2::Digest>::new()
}

/// `sha2::Digest::update` for `sha2::Sha256`: the data are taken in behind
/// what was taken in before.
#[verifier::external_body]
pub(crate) fn sha256_update(hasher: &mut sha2::Sha256, data: &[u8])
    requires
        sha256_input(*old(hasher)).len() + data@.len() < message_limit(),
    ensures
        sha256_input(*final(hasher)) == sha256_input(*old(hasher)) + data@,
{
    sha2::Digest::update(hasher, data)
}

/// `sha2::Digest::finalize` for `sha2::Sha256`: the 32 bytes of the digest of
/// all that was taken in.
#[verifier::external_body]
pub(crate) fn sha256_finalize(hasher: sha2::Sha256) -> (digest: Vec<u8>)
    requires
        sha256_input(hasher).len() < message_limit(),
    ensures
        digest@ == sha256_digest(sha256_input(hasher)),
        digest@.len() == 32,
{
    sha2::Digest::finalize(hasher).to_vec()
}

/// The bytes that a SHA-512 hasher has taken in.
pub uninterp spec fn sha512_input(hasher: sha2::Sha512) -> Seq<u8>;

/// The SHA-512 digest of bytes.
pub uninterp spec fn sha512_digest(data: Seq<u8>) -> Seq<u8>;

/// `sha2::Digest::new` for `sha2::Sha512`: a hasher that has taken in nothing.
#[verifier::external_body]
pub(crate) fn sha512_new() -> (hasher: sha2::Sha512)
    ensures
        sha512_input(hasher) == Seq::<u8>::empty(),
{
    <sha2::Sha512 as sha2::Digest>::new()
}

/// `sha2::Digest::update` for `sha2::Sha512`: the data are taken in behind
/// what was taken in before.
#[verifier::external_body]
pub(crate) fn sha512_update(hasher: &mut sha2::Sha512, data: &[u8])
    requires
        sha512_input(*old(hasher)).len() + data@.len() < message_limit(),
    ensures
        sha512_input(*final(hasher)) == sha512_input(*old(hasher)) + data@,
{
    sha2::Digest::update(hasher, data)
}

/// `sha2::Digest::finalize` for `sha2::Sha512`: the 64 bytes of the digest of
/// all that was taken in.
#[verifier::external_body]
pub(crate) fn sha512_finalize(hasher: sha2::Sha512) -> (digest: Vec<u8>)
    requires
        sha512_input(hasher).len() < message_limit(),
    ensures
        digest@ == sha512_digest(sha512_input(hasher)),
        digest@.len() == 64,
{
    sha2::Digest::finalize(hasher).to_vec()
}

/// The bytes that an MD5 hasher has taken in.
pub uninterp spec fn md5_input(hasher: md5::Md5) -> Seq<u8>;

/// The MD5 digest of bytes.
pub uninterp spec fn md5_digest(data: Seq<u8>) -> Seq<u8>;

/// `md5::Digest::new` for `md5::Md5`: a hasher that has taken in nothing.
#[verifier::external_body]
pub(crate) fn md5_init() -> (hasher: md5::Md5)
    ensures
        md5_input(hasher) == Seq::<u8>::empty(),
{
    <md5::Md5 as md5::Digest>::new()
}

/// `md5::Digest::update` for `md5::Md5`: the data are taken in behind what was
/// taken in before.
#[verifier::external_body]
pub(crate) fn md5_update(hasher: &mut md5::Md5, data: &[u8])
    requires
        md5_input(*old(hasher)).len() + data@.len() < message_limit(),
    ensures
        md5_input(*final(hasher)) == md5_input(*old(hasher)) + data@,
{
    md5::Digest::update(hasher, data)
}

/// `md5::Digest::finalize` for `md5::Md5`: the 16 bytes of the digest of all
/// that was taken in.
#[verifier::external_body]
pub(crate) fn md5_finalize(hasher: md5::Md5) -> (digest: Vec<u8>)
    requires
        md5_input(hasher).len() < message_limit(),
    ensures
        digest@ == md5_digest(md5_input(hasher)),
        digest@.len() == 16,
{
    md5::Digest::finalize(hasher).to_vec()
}

/// The digests of a body, computed while it comes in.
pub struct Checksums {
    sha256: sha2::Sha256,
    sha512: sha2::Sha512,
    md5: md5::Md5,
    size: u64,
}

/// The digests of a body, in hexadecimal, and its size.
#[derive(Debug, Clone)]
pub struct Digests {
    pub size: u64,
    pub sha256: String,
    pub sha512: String,
    pub md5: String,
}

/// True when `d` are the size and the digests of `body`.
pub open spec fn digests_of(d: Digests, body: Seq<u8>) -> bool {
    &&& d.size == body.len()
    &&& d.sha256@ == hex_text(sha256_digest(body))
    &&& d.sha512@ == hex_text(sha512_digest(body))
    &&& d.md5@ == hex_text(md5_digest(body))
}

impl View for Checksums {
    type V = Seq<u8>;

    /// The bytes that have come in.
    closed spec fn view(&self) -> Seq<u8> {
        sha256_input(self.sha256)
    }
}

impl Checksums {
    #[verifier::type_invariant]
    spec fn in_step(&self) -> bool {
        &&& sha512_input(self.sha512) == sha256_input(self.sha256)
        &&& md5_input(self.md5) == sha256_input(self.sha256)
        &&& self.size == sha256_input(self.sha256).len()
        &&& self.size < message_limit()
    }

    pub fn new() -> (sums: Checksums)
        ensures
            sums@ == Seq::<u8>::empty(),
    {
        Checksums { sha256: sha256_new(), sha512: sha512_new(), md5: md5_init(), size: 0 }
    }

    /// Takes in one more piece of the body.
    pub fn update(self, data: &[u8]) -> (sums: Checksums)
        requires
            self@.len() + data@.len() < message_limit(),
        ensures
            sums@ == self@ + data@,
    {
        proof {
            use_type_invariant(&self);
        }
        let Checksums { mut sha256, mut sha512, mut md5, size } = self;
        sha256_update(&mut sha256, data);
        sha512_update(&mut sha512, data);
        md5_update(&mut md5, data);
        Checksums { sha256, sha512, md5, size: size + data.len() as u64 }
    }

    pub fn finish(self) -> (digests: Digests)
        ensures
            digests_of(digests, self@),
            self@.len() < message_limit(),
    {
        proof {
            use_type_invariant(&self);
        }
        Digests {
            size: self.size,
            sha256: hex_encode(sha256_finalize(self.sha256).as_slice()),
            sha512: hex_encode(sha512_finalize(self.sha512).as_slice()),
            md5: hex_encode(md5_finalize(self.md5).as_slice()),
        }
    }
}

} // verus!
