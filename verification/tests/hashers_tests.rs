use keygen::config::InputMode;
use keygen::hashers::{
    hash_or_missing, parse_hash_algorithm, process_output_with_algorithm, ExternalHasher, HashAlgorithm,
    Hasher, RustSha256Hasher,
};

const ALL: [HashAlgorithm; 4] = [HashAlgorithm::Sha256, HashAlgorithm::Sha1, HashAlgorithm::Sha512, HashAlgorithm::Md5];

#[test]
fn algorithm_names() {
    assert_eq!(HashAlgorithm::Sha256.name(), "sha256");
    assert_eq!(HashAlgorithm::Sha1.name(), "sha1");
    assert_eq!(HashAlgorithm::Sha512.name(), "sha512");
    assert_eq!(HashAlgorithm::Md5.name(), "md5");
}

#[test]
fn configured_names_are_normalized() {
    assert_eq!(parse_hash_algorithm("sha256"), Ok(HashAlgorithm::Sha256));
    assert_eq!(parse_hash_algorithm("  SHA-256\n"), Ok(HashAlgorithm::Sha256));
    assert_eq!(parse_hash_algorithm("Sha-1"), Ok(HashAlgorithm::Sha1));
    assert_eq!(parse_hash_algorithm("SHA512"), Ok(HashAlgorithm::Sha512));
    assert_eq!(parse_hash_algorithm("md-5"), Ok(HashAlgorithm::Md5));
    assert_eq!(parse_hash_algorithm("\u{3000}MD5\u{a0}"), Ok(HashAlgorithm::Md5));
}

#[test]
fn unknown_algorithm_is_reported_in_normalized_form() {
    assert_eq!(parse_hash_algorithm("blake3"), Err("Unknown hash algorithm: 'blake3'".to_string()));
    assert_eq!(parse_hash_algorithm(" Foo-Bar "), Err("Unknown hash algorithm: 'foobar'".to_string()));
    assert_eq!(parse_hash_algorithm(""), Err("Unknown hash algorithm: ''".to_string()));
    assert_eq!(parse_hash_algorithm("SHA-256-X"), Err("Unknown hash algorithm: 'sha256x'".to_string()));
}

#[test]
fn every_name_parses_back() {
    for a in ALL {
        assert_eq!(parse_hash_algorithm(a.name()), Ok(a));
    }
}

#[test]
fn builtin_hasher_computes_sha256_hex() {
    let h = RustSha256Hasher;
    assert_eq!(h.name(), "Rust");
    assert_eq!(
        h.hash("abc"),
        Ok("ba7816bf8f01cfea414140de5dae2223b00361a396177a9cb410ff61f20015ad".to_string())
    );
    assert_eq!(
        h.hash(""),
        Ok("e3b0c44298fc1c149afbf4c8996fb92427ae41e4649b934ca495991b7852b855".to_string())
    );
    let d = h.hash("ключ").unwrap();
    assert_eq!(d.len(), 64);
    assert!(d.chars().all(|c| c.is_ascii_digit() || ('a'..='f').contains(&c)));
}

const ABC256: &str = "ba7816bf8f01cfea414140de5dae2223b00361a396177a9cb410ff61f20015ad";

#[test]
fn digest_is_read_from_successful_output() {
    let out = format!("SHA2-256(stdin)= {}\n", ABC256);
    assert_eq!(
        process_output_with_algorithm(true, out.as_bytes(), b"", HashAlgorithm::Sha256),
        Ok(ABC256.to_string())
    );
    let upper = ABC256.to_uppercase();
    let out = format!("{}  -\n", upper);
    assert_eq!(process_output_with_algorithm(true, out.as_bytes(), b"", HashAlgorithm::Sha256), Ok(upper));
    let md5 = "900150983cd24fb0d6963f7d28e17f72";
    let out = format!("MD5 (x) = {}", md5);
    assert_eq!(process_output_with_algorithm(true, out.as_bytes(), b"", HashAlgorithm::Md5), Ok(md5.to_string()));
}

#[test]
fn failed_command_yields_its_stderr() {
    assert_eq!(
        process_output_with_algorithm(false, ABC256.as_bytes(), b"boom: no such file", HashAlgorithm::Sha256),
        Err("boom: no such file".to_string())
    );
    assert_eq!(
        process_output_with_algorithm(false, b"", b"bad \xff byte", HashAlgorithm::Sha256),
        Err("bad \u{fffd} byte".to_string())
    );
}

#[test]
fn output_without_digest_is_an_error() {
    let expected = Err("No valid sha256 hash found in output".to_string());
    assert_eq!(process_output_with_algorithm(true, b"nothing here", b"", HashAlgorithm::Sha256), expected);
    let short = &ABC256[..63];
    assert_eq!(process_output_with_algorithm(true, short.as_bytes(), b"", HashAlgorithm::Sha256), expected);
    let long = format!("{}0", ABC256);
    assert_eq!(process_output_with_algorithm(true, long.as_bytes(), b"", HashAlgorithm::Sha256), expected);
    assert_eq!(
        process_output_with_algorithm(true, ABC256.as_bytes(), b"", HashAlgorithm::Sha1),
        Err("No valid sha1 hash found in output".to_string())
    );
}

#[test]
fn missing_match_message_names_the_algorithm() {
    assert_eq!(hash_or_missing(Some("ab".to_string()), HashAlgorithm::Md5), Ok("ab".to_string()));
    assert_eq!(
        hash_or_missing(None, HashAlgorithm::Sha512),
        Err("No valid sha512 hash found in output".to_string())
    );
}

#[test]
fn regex_pattern_of_each_algorithm_matches_its_digest_length() {
    for a in ALL {
        let len = match a {
            HashAlgorithm::Sha256 => 64,
            HashAlgorithm::Sha1 => 40,
            HashAlgorithm::Sha512 => 128,
            HashAlgorithm::Md5 => 32,
        };
        let digest = "a".repeat(len);
        let out = format!("x {} y", digest);
        assert_eq!(process_output_with_algorithm(true, out.as_bytes(), b"", a), Ok(digest));
    }
}

fn external(mode: InputMode) -> ExternalHasher {
    ExternalHasher {
        name: "OpenSSL".to_string(),
        command: "openssl".to_string(),
        args: vec!["dgst".to_string(), "-sha256".to_string(), "{{INPUT_FILE}}".to_string()],
        algorithm: HashAlgorithm::Sha256,
        input_mode: mode,
    }
}

#[test]
fn arguments_per_input_mode() {
    assert_eq!(external(InputMode::Arg).command_args("KEY", "/tmp/f"), vec!["dgst", "-sha256", "{{INPUT_FILE}}", "KEY"]);
    assert_eq!(external(InputMode::Stdin).command_args("KEY", "/tmp/f"), vec!["dgst", "-sha256", "{{INPUT_FILE}}"]);
    assert_eq!(external(InputMode::File).command_args("KEY", "/tmp/f"), vec!["dgst", "-sha256", "/tmp/f"]);
    let mut h = external(InputMode::File);
    h.args = vec!["--in={{INPUT_FILE}},{{INPUT_FILE}}".to_string()];
    assert_eq!(h.command_args("KEY", "p"), vec!["--in=p,p"]);
}
