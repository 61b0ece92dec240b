use base64::Engine;
use cachix::nix::sign::{
    generate_keypair, keypair_from_seed, narinfo_fingerprint, nix_base32_encode, parse_secret_key,
    sign_narinfo, store_path_hash, store_path_suffix, SignError, StorePathError,
};
use sha2::Digest;

const SEED: [u8; 32] = [
    157, 97, 177, 157, 239, 253, 90, 96, 186, 132, 74, 244, 146, 236, 44, 196, 68, 73, 197, 105,
    123, 50, 105, 25, 112, 59, 172, 3, 28, 174, 127, 96,
];
const SECRET: &str = "mycache-1:nWGxne/9WmC6hEr0kuwsxERJxWl7MmkZcDusAxyuf2DXWpgBgrEKt9VL/tPJZAc6DuFy89qmIyWvAhpo9wdRGg==";

#[test]
fn test_nix_base32_encode() {
    // SHA256 of empty string
    let hash = sha2::Sha256::digest(b"");
    let encoded = nix_base32_encode(hash.as_slice());
    assert_eq!(encoded.len(), 52);
}

#[test]
fn test_store_path_hash() {
    let path = "/nix/store/aaaaaaaaaaaaaaaaaaaaaaaaaaaaaaa1-test";
    let hash = store_path_hash(path).unwrap();
    assert_eq!(hash, "aaaaaaaaaaaaaaaaaaaaaaaaaaaaaaa1");
}

#[test]
fn test_store_path_suffix() {
    let path = "/nix/store/aaaaaaaaaaaaaaaaaaaaaaaaaaaaaaa1-test";
    let suffix = store_path_suffix(path).unwrap();
    assert_eq!(suffix, "-test");
}

#[test]
fn test_narinfo_fingerprint() {
    let fp = narinfo_fingerprint(
        "/nix/store/abc-hello",
        "sha256:xyz",
        1000,
        &["ref-b".to_string(), "ref-a".to_string()],
    );
    assert_eq!(fp, "1;/nix/store/abc-hello;sha256:xyz;1000;ref-a,ref-b");
}

#[test]
fn base32_of_known_digests() {
    let hash = sha2::Sha256::digest(b"");
    assert_eq!(
        nix_base32_encode(hash.as_slice()),
        "0mdqa9w1p6cmli6976v4wi0sw9r4p5prkj7lzfd1877wk11c9c73"
    );
    assert_eq!(nix_base32_encode(&[]), "");
    assert_eq!(nix_base32_encode(&[1]), "01");
    assert_eq!(nix_base32_encode(&[255, 0]), "007z");
    assert_eq!(nix_base32_encode(&[1, 2, 3, 4, 5]), "0l2060h1");
}

#[test]
fn base32_tells_lengths_apart() {
    let texts: Vec<String> = (0..70).map(|n| nix_base32_encode(&vec![0u8; n])).collect();
    for (i, text) in texts.iter().enumerate() {
        assert!(texts.iter().skip(i + 1).all(|other| other != text));
    }
}

#[test]
fn base32_tells_bytes_apart() {
    let mut seen: Vec<String> = Vec::new();
    for b in 0..=255u8 {
        let text = nix_base32_encode(&[b, 7]);
        assert_eq!(text.len(), 4);
        assert!(!seen.contains(&text));
        seen.push(text);
    }
}

#[test]
fn fingerprint_without_references() {
    assert_eq!(narinfo_fingerprint("p", "h", 0, &[]), "1;p;h;0;");
    assert_eq!(
        narinfo_fingerprint("p", "h", u64::MAX, &["a".to_string()]),
        "1;p;h;18446744073709551615;a"
    );
}

#[test]
fn fingerprint_sorts_by_bytes() {
    let a = ["é".to_string(), "z".to_string(), "Z".to_string(), "a".to_string()];
    let b = ["a".to_string(), "Z".to_string(), "é".to_string(), "z".to_string()];
    assert_eq!(narinfo_fingerprint("p", "h", 1, &a), "1;p;h;1;Z,a,z,é");
    assert_eq!(narinfo_fingerprint("p", "h", 1, &a), narinfo_fingerprint("p", "h", 1, &b));
}

#[test]
fn store_path_that_is_none() {
    assert!(matches!(store_path_hash("/tmp/x"), Err(StorePathError::NotStorePath)));
    assert_eq!(store_path_suffix("/tmp/x").unwrap_err().message(), "not a valid store path");
    let short = "/nix/store/abc";
    assert_eq!(
        store_path_hash(short).unwrap_err().message(),
        "store path basename too short: /nix/store/abc"
    );
}

#[test]
fn store_path_of_a_bare_hash() {
    let path = "/nix/store/aaaaaaaaaaaaaaaaaaaaaaaaaaaaaaa1";
    assert_eq!(store_path_hash(path).unwrap(), "aaaaaaaaaaaaaaaaaaaaaaaaaaaaaaa1");
    assert!(matches!(store_path_suffix(path), Err(StorePathError::TooShort(_))));
}

#[test]
fn store_path_is_put_together_again() {
    let path = "/nix/store/0123456789abcdfghijklmnpqrsvwxyz-héllo";
    let whole = format!(
        "/nix/store/{}{}",
        store_path_hash(path).unwrap(),
        store_path_suffix(path).unwrap()
    );
    assert_eq!(whole, path);
}

#[test]
fn store_path_is_counted_in_characters() {
    let path = "/nix/store/aaaaaaaaaaaaaaaaaaaaaaaaaaaaaaa\u{e9}-x";
    assert_eq!(store_path_hash(path).unwrap(), "aaaaaaaaaaaaaaaaaaaaaaaaaaaaaaa\u{e9}");
    assert_eq!(store_path_suffix(path).unwrap(), "-x");
    let short = "/nix/store/aaaaaaaaaaaaaaaaaaaaaaaaaaaaaa\u{e9}";
    assert!(matches!(store_path_hash(short), Err(StorePathError::TooShort(_))));
}

#[test]
fn signature_has_64_bytes_and_is_the_same_again() {
    let (secret, _) = generate_keypair("mycache");
    let text = sign_narinfo(&secret, "fp").unwrap();
    let encoded = text.strip_prefix("mycache-1:").unwrap();
    let bytes = base64::engine::general_purpose::STANDARD.decode(encoded).unwrap();
    assert_eq!(bytes.len(), 64);
    assert_eq!(sign_narinfo(&secret, "fp").unwrap(), text);
    assert_ne!(sign_narinfo(&secret, "fq").unwrap(), text);
}

#[test]
fn keypair_of_a_known_seed() {
    let (secret, public) = keypair_from_seed("mycache", &SEED);
    assert_eq!(secret, SECRET);
    assert_eq!(public, "mycache-1:11qYAYKxCrfVS/7TyWQHOg7hcvPapiMlrwIaaPcHURo=");
}

#[test]
fn secret_key_is_read_back() {
    let (name, key) = parse_secret_key(SECRET).unwrap();
    assert_eq!(name, "mycache-1");
    assert_eq!(key.seed, SEED);
}

#[test]
fn generated_keys_differ_and_can_be_read() {
    let (secret, public) = generate_keypair("mycache");
    let (name, key) = parse_secret_key(&secret).unwrap();
    assert_eq!(name, "mycache-1");
    assert_eq!(keypair_from_seed("mycache", &key.seed), (secret.clone(), public));
    assert_ne!(generate_keypair("mycache").0, secret);
}

#[test]
fn signature_of_a_known_message() {
    assert_eq!(
        sign_narinfo(SECRET, "").unwrap(),
        "mycache-1:5VZDAMNgrHKQhuLMgG6CioSHfx645dl02HPgZSJJAVVfuIIVkKM7rMYeOXAc+bRr0lv18FlbviRlUUFDjnoQCw=="
    );
}

#[test]
fn secret_keys_that_cannot_be_read() {
    assert!(matches!(parse_secret_key("abc"), Err(SignError::MissingSeparator)));
    assert!(matches!(parse_secret_key("a:!!"), Err(SignError::InvalidBase64(_))));
    assert!(matches!(parse_secret_key("a:AAAA"), Err(SignError::InvalidLength(3))));
    let message = |key: &str| match parse_secret_key(key) {
        Ok(_) => String::new(),
        Err(e) => e.message(),
    };
    assert_eq!(message("abc"), "invalid secret key format, expected 'name:base64data'");
    assert_eq!(message("a:!!"), "invalid base64 in secret key");
    assert_eq!(message("a:AAAA"), "invalid secret key length: expected 64 bytes, got 3");
    assert!(matches!(sign_narinfo("abc", "x"), Err(SignError::MissingSeparator)));
}
