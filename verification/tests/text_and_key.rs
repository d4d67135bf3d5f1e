use cloudencryptor::key::{
    derive_key, hex_lower_bytes, password_source, reply_accepts_reuse, PasswordSource,
};
use cloudencryptor::text::{decimal, is_whitespace, trim};

#[test]
fn trim_matches_std_trim() {
    let samples = [
        "",
        "   ",
        "u\n",
        "  help  ",
        "\t d \r\n",
        "\u{00A0}x\u{3000}",
        "\u{2009}mid dle\u{205F}",
        "\u{85}a\u{1680}",
        "no-trim",
        "\u{200B}zero-width-kept\u{200B}",
    ];
    for s in samples.iter() {
        assert_eq!(trim(s), s.trim().to_string(), "trim of {:?}", s);
    }
}

#[test]
fn whitespace_matches_std() {
    for u in 0u32..0x3100 {
        if let Some(c) = char::from_u32(u) {
            assert_eq!(is_whitespace(c), c.is_whitespace(), "char {:x}", u);
        }
    }
}

#[test]
fn decimal_matches_to_string() {
    for n in [0u32, 7, 9, 10, 11, 99, 100, 12345, 4294967295].iter() {
        assert_eq!(decimal(*n), n.to_string());
    }
}

#[test]
fn hex_of_bytes_is_lowercase_two_digits_each() {
    assert_eq!(hex_lower_bytes(&vec![0x00, 0x0f, 0xa5, 0xff]), b"000fa5ff".to_vec());
    assert_eq!(hex_lower_bytes(&vec![]), Vec::<u8>::new());
}

#[test]
fn derived_key_is_hex_md5_of_password() {
    assert_eq!(derive_key("abc"), b"900150983cd24fb0d6963f7d28e17f72".to_vec());
    assert_eq!(derive_key(""), b"d41d8cd98f00b204e9800998ecf8427e".to_vec());
    // A password read from the terminal keeps its line break.
    let with_newline = derive_key("secret\n");
    assert_eq!(with_newline, format!("{:?}", md5::compute("secret\n")).into_bytes());
    assert_ne!(with_newline, derive_key("secret"));
}

#[test]
fn derived_key_always_has_aes256_length() {
    for p in ["", "a", "a much longer password with spaces", "pässwörd"].iter() {
        assert_eq!(derive_key(p).len(), 32);
    }
}

#[test]
fn password_source_table() {
    assert_eq!(password_source(false, false), PasswordSource::AskNew);
    assert_eq!(password_source(false, true), PasswordSource::AskNew);
    assert_eq!(password_source(true, false), PasswordSource::Saved);
    assert_eq!(password_source(true, true), PasswordSource::AskReuse);
}

#[test]
fn reuse_reply_accepts_only_y() {
    assert!(reply_accepts_reuse("y\n"));
    assert!(reply_accepts_reuse("  Y  \n"));
    assert!(!reply_accepts_reuse("yes\n"));
    assert!(!reply_accepts_reuse("n\n"));
    assert!(!reply_accepts_reuse("\n"));
    assert!(!reply_accepts_reuse("N"));
}
