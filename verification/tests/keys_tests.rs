use keygen::files::{check_file_requirement, FileRequirement, FileRequirementError};
use keygen::hashers::{Hasher, RustSha256Hasher};
use keygen::keys::{check_hash_result, compare_hashes, generate_key, hashes_agree, HashCheckError};

struct Fixed(&'static str, Result<String, String>);

impl Hasher for Fixed {
    fn name(&self) -> &str {
        self.0
    }

    fn hash(&self, _input: &str) -> Result<String, String> {
        self.1.clone()
    }
}

#[test]
fn generated_keys_are_64_lower_hex_digits() {
    let a = generate_key();
    let b = generate_key();
    assert_eq!(a.len(), 64);
    assert!(a.chars().all(|c| c.is_ascii_digit() || ('a'..='f').contains(&c)));
    assert_ne!(a, b);
}

#[test]
fn agreeing_hashers_pass() {
    let key = "00ff";
    let canonical = RustSha256Hasher.hash(key).unwrap();
    let hashers: Vec<Box<dyn Hasher>> = vec![
        Box::new(RustSha256Hasher),
        Box::new(Fixed("Upper", Ok(canonical.to_uppercase()))),
    ];
    assert!(compare_hashes(key, &canonical, &hashers).is_ok());
    let none: Vec<Box<dyn Hasher>> = vec![];
    assert!(compare_hashes(key, "anything", &none).is_ok());
}

#[test]
fn mismatch_is_reported_with_both_digests() {
    let hashers: Vec<Box<dyn Hasher>> = vec![
        Box::new(Fixed("Good", Ok("ABCD".to_string()))),
        Box::new(Fixed("Bad", Ok("abce".to_string()))),
        Box::new(Fixed("Never", Err("not reached".to_string()))),
    ];
    match compare_hashes("k", "abcd", &hashers) {
        Err(HashCheckError::Mismatch { hasher, expected, got }) => {
            assert_eq!(hasher, "Bad");
            assert_eq!(expected, "abcd");
            assert_eq!(got, "abce");
        }
        other => panic!("unexpected {:?}", other),
    }
}

#[test]
fn failing_hasher_is_reported() {
    let hashers: Vec<Box<dyn Hasher>> = vec![Box::new(Fixed("Broken", Err("exit 1".to_string())))];
    match compare_hashes("k", "abcd", &hashers) {
        Err(HashCheckError::HasherFailed { hasher, message }) => {
            assert_eq!(hasher, "Broken");
            assert_eq!(message, "exit 1");
        }
        other => panic!("unexpected {:?}", other),
    }
}

#[test]
fn single_result_verdicts() {
    assert!(check_hash_result("ab", "x", Ok("AB".to_string())).is_ok());
    assert!(matches!(check_hash_result("ab", "x", Ok("ab ".to_string())), Err(HashCheckError::Mismatch { .. })));
    assert!(matches!(check_hash_result("ab", "x", Err("e".to_string())), Err(HashCheckError::HasherFailed { .. })));
}

#[test]
fn agreement_of_digests() {
    assert!(hashes_agree(&vec![]));
    assert!(hashes_agree(&vec!["ab".to_string()]));
    assert!(hashes_agree(&vec!["ab".to_string(), "AB".to_string(), "aB".to_string()]));
    assert!(!hashes_agree(&vec!["ab".to_string(), "AB".to_string(), "ac".to_string()]));
}

#[test]
fn file_requirements() {
    assert!(check_file_requirement(FileRequirement::Exists, "db", true).is_ok());
    assert!(check_file_requirement(FileRequirement::Missing, "db", false).is_ok());
    match check_file_requirement(FileRequirement::Exists, "db", false) {
        Err(FileRequirementError::RequiredFileMissing(p)) => assert_eq!(p, "db"),
        other => panic!("unexpected {:?}", other),
    }
    match check_file_requirement(FileRequirement::Missing, "db", true) {
        Err(FileRequirementError::MustNotExist(p)) => assert_eq!(p, "db"),
        other => panic!("unexpected {:?}", other),
    }
}
