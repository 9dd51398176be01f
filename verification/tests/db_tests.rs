use keygen::crypto::{encrypt, CryptoError};
use keygen::db::{
    active_key_from_lookup, formatted_date, journal_query, get_inactive_reason, issued_key_from_row, plan_issue, plan_rotation,
    replacement, revocation, Deactivation, JournalError, JournalRow, REVOKE_ID,
};
use keygen::crypto::decrypt;

const KEY: [u8; 32] = [42u8; 32];

#[test]
fn reasons() {
    assert_eq!(get_inactive_reason(None), "");
    assert_eq!(get_inactive_reason(Some(REVOKE_ID)), "revoked");
    assert_eq!(get_inactive_reason(Some(17)), "replaced by 17");
    assert_eq!(get_inactive_reason(Some(-5)), "replaced by -5");
}

#[test]
fn revoked_key_reads_as_revoked() {
    let d = revocation(9);
    assert_eq!(d, Deactivation { id: 9, replaced_by: -111 });
    assert_eq!(get_inactive_reason(Some(d.replaced_by)), "revoked");
}

#[test]
fn replaced_key_reads_as_replaced_by_its_successor() {
    let d = replacement(Some(3), 7).unwrap();
    assert_eq!(d, Deactivation { id: 3, replaced_by: 7 });
    assert_eq!(get_inactive_reason(Some(d.replaced_by)), "replaced by 7");
    assert_eq!(replacement(None, 7), None);
}

#[test]
fn dates_are_reformatted() {
    assert_eq!(formatted_date(&"2024-01-02T03:04:05+00:00".to_string()), "2024-01-02:03:04:05");
    assert_eq!(formatted_date(&"2024-12-31T23:59:58.123456+05:30".to_string()), "2024-12-31:23:59:58");
    assert_eq!(formatted_date(&"2024-02-29T00:00:00Z".to_string()), "2024-02-29:00:00:00");
}

#[test]
fn unparsable_dates_are_kept() {
    assert_eq!(formatted_date(&"yesterday".to_string()), "yesterday");
    assert_eq!(formatted_date(&"".to_string()), "");
    assert_eq!(formatted_date(&"2024-02-30T00:00:00Z".to_string()), "2024-02-30T00:00:00Z");
}

fn row(key: Vec<u8>, active: bool, replaced_by: Option<i64>) -> JournalRow {
    JournalRow {
        id: 5,
        user: "alice".to_string(),
        key,
        key_hash: "h".to_string(),
        active,
        replaced_by,
        created_at: "2025-06-01T10:20:30+00:00".to_string(),
    }
}

#[test]
fn row_is_presented_decrypted() {
    let stored = encrypt("k-123", &KEY).unwrap();
    let k = issued_key_from_row(row(stored, false, Some(8)), &KEY).unwrap();
    assert_eq!(k.id, 5);
    assert_eq!(k.user, "alice");
    assert_eq!(k.key, "k-123");
    assert_eq!(k.key_hash, "h");
    assert!(!k.active);
    assert_eq!(k.reason, "replaced by 8");
    assert_eq!(k.created_at, "2025-06-01:10:20:30");
}

#[test]
fn row_that_does_not_decrypt_is_an_error() {
    let stored = encrypt("k-123", &KEY).unwrap();
    assert!(matches!(issued_key_from_row(row(stored, true, None), &[1u8; 32]), Err(CryptoError::DecryptionFailed)));
    assert!(matches!(issued_key_from_row(row(vec![1, 2], true, None), &KEY), Err(CryptoError::CiphertextTooShort)));
}

#[test]
fn issue_refuses_a_user_with_an_active_key() {
    match plan_issue("bob", Some(4), "key", "hash", &KEY, "now") {
        Err(JournalError::AlreadyActive(u)) => assert_eq!(u, "bob"),
        _ => panic!("expected a refusal"),
    }
}

#[test]
fn issue_for_a_new_user_stores_the_encrypted_key() {
    let r = plan_issue("bob", None, "key", "hash", &KEY, "2025-01-01T00:00:00+00:00").ok().unwrap();
    assert_eq!(r.user, "bob");
    assert_eq!(r.key_hash, "hash");
    assert_eq!(r.created_at, "2025-01-01T00:00:00+00:00");
    assert_ne!(r.key, b"key".to_vec());
    assert_eq!(decrypt(&r.key, &KEY), Ok("key".to_string()));
}

#[test]
fn rotation_always_stores_the_new_key() {
    let r = plan_rotation("carol", "new", "h2", &KEY, "t").ok().unwrap();
    assert_eq!(r.user, "carol");
    assert_eq!(decrypt(&r.key, &KEY), Ok("new".to_string()));
}

#[test]
fn active_key_lookup() {
    match active_key_from_lookup("dave", None, &KEY) {
        Err(JournalError::NoActiveKey(u)) => assert_eq!(u, "dave"),
        _ => panic!("expected no active key"),
    }
    let stored = encrypt("secret", &KEY).unwrap();
    assert_eq!(active_key_from_lookup("dave", Some(stored.clone()), &KEY).ok(), Some("secret".to_string()));
    assert!(matches!(
        active_key_from_lookup("dave", Some(stored), &[0u8; 32]),
        Err(JournalError::Crypto(CryptoError::DecryptionFailed))
    ));
}

#[test]
fn dates_keep_the_written_fields() {
    assert_eq!(formatted_date(&"2016-12-31T23:59:60Z".to_string()), "2016-12-31:23:59:60");
    assert_eq!(formatted_date(&"0999-03-04t05:06:07-23:59".to_string()), "0999-03-04:05:06:07");
    assert_eq!(formatted_date(&"2020-05-06 07:08:09.5+01:00".to_string()), "2020-05-06:07:08:09");
    assert_eq!(formatted_date(&"2020-05-06T07:08".to_string()), "2020-05-06T07:08");
}

#[test]
fn journal_listing_query() {
    assert_eq!(
        journal_query(true),
        "SELECT id, user, key, key_hash, active, replaced_by, created_at FROM issued_keys ORDER BY id DESC"
    );
    assert_eq!(
        journal_query(false),
        "SELECT id, user, key, key_hash, active, replaced_by, created_at FROM issued_keys WHERE active = 1 ORDER BY id DESC"
    );
}
