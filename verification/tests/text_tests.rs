use keygen::text::{eq_ignore_ascii_case, i64_to_text, push_bool, push_decimal, replace_all_str, to_hex_lower};

#[test]
fn decimal_text_of_integers() {
    assert_eq!(i64_to_text(0), "0");
    assert_eq!(i64_to_text(7), "7");
    assert_eq!(i64_to_text(1234567890), "1234567890");
    assert_eq!(i64_to_text(-111), "-111");
    assert_eq!(i64_to_text(i64::MAX), i64::MAX.to_string());
    assert_eq!(i64_to_text(i64::MIN), i64::MIN.to_string());
}

#[test]
fn decimal_digits_append_to_existing_text() {
    let mut s = String::from("n=");
    push_decimal(&mut s, 10);
    assert_eq!(s, "n=10");
    let mut t = String::new();
    push_decimal(&mut t, u64::MAX);
    assert_eq!(t, u64::MAX.to_string());
}

#[test]
fn bool_text_matches_display() {
    let mut s = String::new();
    push_bool(&mut s, true);
    push_bool(&mut s, false);
    assert_eq!(s, "truefalse");
}

#[test]
fn hex_rendering_is_lower_case_two_digits_per_byte() {
    assert_eq!(to_hex_lower(&[]), "");
    assert_eq!(to_hex_lower(&[0x00, 0x0f, 0xab, 0xff]), "000fabff");
    let bytes: Vec<u8> = (0u8..=255).collect();
    let expected: String = bytes.iter().map(|b| format!("{:02x}", b)).collect();
    assert_eq!(to_hex_lower(&bytes), expected);
}

#[test]
fn replacement_matches_str_replace() {
    let cases = [
        ("--in {{INPUT_FILE}} --out {{INPUT_FILE}}.sig", "{{INPUT_FILE}}", "/tmp/k"),
        ("sha-2-56", "-", ""),
        ("aaa", "aa", "b"),
        ("no marker here", "{{INPUT_FILE}}", "x"),
        ("", "-", ""),
        ("ä-ö-ü", "-", "+"),
    ];
    for (s, pat, rep) in cases {
        assert_eq!(replace_all_str(s, pat, rep), s.replace(pat, rep), "{s:?}");
    }
}

#[test]
fn case_insensitive_comparison() {
    assert!(eq_ignore_ascii_case("ABCdef0123", "abcDEF0123"));
    assert!(eq_ignore_ascii_case("", ""));
    assert!(!eq_ignore_ascii_case("abc", "abd"));
    assert!(!eq_ignore_ascii_case("abc", "abcd"));
    assert!(!eq_ignore_ascii_case("É", "é"));
    assert!(eq_ignore_ascii_case("Ünï", "Ünï"));
}

#[test]
fn case_insensitive_comparison_is_an_equivalence() {
    let words = ["ab", "AB", "aB", "ac", "Ä"];
    for a in words {
        assert!(eq_ignore_ascii_case(a, a));
        for b in words {
            assert_eq!(eq_ignore_ascii_case(a, b), eq_ignore_ascii_case(b, a));
            for c in words {
                if eq_ignore_ascii_case(a, b) && eq_ignore_ascii_case(b, c) {
                    assert!(eq_ignore_ascii_case(a, c));
                }
            }
        }
    }
}
