use apt_transport_kyc::codec::{base64_encode, Checksums};

#[test]
fn base64_of_the_rfc() {
    assert_eq!(base64_encode(b""), "");
    assert_eq!(base64_encode(b"f"), "Zg==");
    assert_eq!(base64_encode(b"fo"), "Zm8=");
    assert_eq!(base64_encode(b"foo"), "Zm9v");
    assert_eq!(base64_encode(b"foob"), "Zm9vYg==");
    assert_eq!(base64_encode(b"fooba"), "Zm9vYmE=");
    assert_eq!(base64_encode(b"foobar"), "Zm9vYmFy");
    assert_eq!(base64_encode(b"Man"), "TWFu");
    assert_eq!(base64_encode(&[0xfb, 0xff, 0xbf]), "+/+/");
}

#[test]
fn base64_uses_its_alphabet_alone() {
    let bytes: Vec<u8> = (0..=255u8).chain(0..=255u8).collect();
    let text = base64_encode(&bytes);
    assert_eq!(text.len(), (bytes.len() + 2) / 3 * 4);
    assert!(text
        .chars()
        .all(|c| c.is_ascii_alphanumeric() || c == '+' || c == '/' || c == '='));
}

#[test]
fn base64_keeps_bytes_apart() {
    let mut seen = std::collections::HashSet::new();
    for a in 0..=255u8 {
        assert!(seen.insert(base64_encode(&[a])));
        assert!(seen.insert(base64_encode(&[a, 0])));
        assert!(seen.insert(base64_encode(&[a, 0, 0])));
        assert!(seen.insert(base64_encode(&[7, a, 0, 1])));
    }
}

#[test]
fn digests_of_nothing() {
    let digests = Checksums::new().finish();
    assert_eq!(digests.size, 0);
    assert_eq!(
        digests.sha256,
        "e3b0c44298fc1c149afbf4c8996fb92427ae41e4649b934ca495991b7852b855"
    );
    assert_eq!(
        digests.sha512,
        "cf83e1357eefb8bdf1542850d66d8007d620e4050b5715dc83f4a921d36ce9ce47d0d13c5d85f2b0ff8318d2877eec2f63b931bd47417a81a538327af927da3e"
    );
    assert_eq!(digests.md5, "d41d8cd98f00b204e9800998ecf8427e");
}

#[test]
fn digests_of_parts_are_those_of_the_whole() {
    let digests = Checksums::new().update(b"a").update(b"").update(b"bc").finish();
    assert_eq!(digests.size, 3);
    assert_eq!(
        digests.sha256,
        "ba7816bf8f01cfea414140de5dae2223b00361a396177a9cb410ff61f20015ad"
    );
    assert_eq!(
        digests.sha512,
        "ddaf35a193617abacc417349ae20413112e6fa4e89a97ea20a9eeee64b55d39a2192992a274fc1a836ba3c23a3feebbd454d4423643ce80e2a9ac94fa54ca49f"
    );
    assert_eq!(digests.md5, "900150983cd24fb0d6963f7d28e17f72");
}
