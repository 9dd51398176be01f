use keygen::config::{
    create_rust_hasher, entry_problem, hasher_from_entry, hashers_from_config, ConfigProblem, ConfiguredHasher,
    HasherConfigFile, HasherEntry, HasherType, InputMode,
};
use keygen::hashers::{HashAlgorithm, Hasher};

fn builtin(name: &str, algorithm: HashAlgorithm) -> HasherEntry {
    HasherEntry {
        name: name.to_string(),
        hasher_type: HasherType::Builtin,
        command: None,
        args: None,
        algorithm,
        input_mode: None,
    }
}

fn external(name: &str, command: Option<&str>) -> HasherEntry {
    HasherEntry {
        name: name.to_string(),
        hasher_type: HasherType::External,
        command: command.map(|c| c.to_string()),
        args: None,
        algorithm: HashAlgorithm::Sha1,
        input_mode: None,
    }
}

#[test]
fn builtin_rust_sha256_is_usable() {
    assert!(entry_problem(&builtin("Rust", HashAlgorithm::Sha256)).is_none());
    assert!(matches!(hasher_from_entry(builtin("Rust", HashAlgorithm::Sha256)), ConfiguredHasher::Builtin(_)));
    assert_eq!(create_rust_hasher(HashAlgorithm::Sha256).name(), "Rust");
}

#[test]
fn unknown_builtin_is_refused() {
    match entry_problem(&builtin("Java", HashAlgorithm::Sha256)) {
        Some(ConfigProblem::UnknownBuiltin(n)) => assert_eq!(n, "Java"),
        other => panic!("unexpected {:?}", other),
    }
    assert!(matches!(entry_problem(&builtin("rust", HashAlgorithm::Sha256)), Some(ConfigProblem::UnknownBuiltin(_))));
}

#[test]
fn builtin_with_other_algorithm_is_refused() {
    for a in [HashAlgorithm::Sha1, HashAlgorithm::Sha512, HashAlgorithm::Md5] {
        match entry_problem(&builtin("Rust", a)) {
            Some(ConfigProblem::UnsupportedRustAlgorithm(b)) => assert_eq!(a, b),
            other => panic!("unexpected {:?}", other),
        }
    }
}

#[test]
fn external_without_command_is_refused() {
    assert!(matches!(entry_problem(&external("Java", None)), Some(ConfigProblem::MissingCommand)));
}

#[test]
fn external_entry_gets_defaults() {
    match hasher_from_entry(external("OpenSSL", Some("openssl"))) {
        ConfiguredHasher::External(h) => {
            assert_eq!(h.name, "OpenSSL");
            assert_eq!(h.command, "openssl");
            assert!(h.args.is_empty());
            assert_eq!(h.algorithm, HashAlgorithm::Sha1);
            assert_eq!(h.input_mode, InputMode::Arg);
        }
        ConfiguredHasher::Builtin(_) => panic!("expected an external hasher"),
    }
    let mut e = external("Swift", Some("swift-hash"));
    e.args = Some(vec!["--file".to_string(), "{{INPUT_FILE}}".to_string()]);
    e.input_mode = Some(InputMode::File);
    match hasher_from_entry(e) {
        ConfiguredHasher::External(h) => {
            assert_eq!(h.args, vec!["--file", "{{INPUT_FILE}}"]);
            assert_eq!(h.input_mode, InputMode::File);
        }
        ConfiguredHasher::Builtin(_) => panic!("expected an external hasher"),
    }
}

#[test]
fn whole_configuration_in_order() {
    let config = HasherConfigFile {
        hasher: vec![builtin("Rust", HashAlgorithm::Sha256), external("OpenSSL", Some("openssl"))],
    };
    let hashers = hashers_from_config(config).unwrap();
    assert_eq!(hashers.len(), 2);
    assert!(matches!(hashers[0], ConfiguredHasher::Builtin(_)));
    assert!(matches!(&hashers[1], ConfiguredHasher::External(h) if h.name == "OpenSSL"));
    assert_eq!(hashers_from_config(HasherConfigFile { hasher: vec![] }).unwrap().len(), 0);
}

#[test]
fn first_bad_entry_stops_the_configuration() {
    let config = HasherConfigFile {
        hasher: vec![
            builtin("Rust", HashAlgorithm::Sha256),
            external("Java", None),
            builtin("Go", HashAlgorithm::Sha256),
        ],
    };
    match hashers_from_config(config) {
        Err((1, ConfigProblem::MissingCommand)) => {}
        Err((i, p)) => panic!("unexpected {} {:?}", i, p),
        Ok(_) => panic!("expected a problem"),
    }
}
