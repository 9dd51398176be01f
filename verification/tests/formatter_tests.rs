use keygen::db::IssuedKey;
use keygen::formatter::{render_as_csv, render_as_markdown, render_as_table, Formatter};

fn entries() -> Vec<IssuedKey> {
    vec![
        IssuedKey {
            id: 2,
            user: "alice".to_string(),
            key: "k2".to_string(),
            key_hash: "h2".to_string(),
            active: true,
            reason: "".to_string(),
            created_at: "2025-01-02:03:04:05".to_string(),
        },
        IssuedKey {
            id: 1,
            user: "alice".to_string(),
            key: "k1".to_string(),
            key_hash: "h1".to_string(),
            active: false,
            reason: "replaced by 2".to_string(),
            created_at: "2025-01-01:00:00:00".to_string(),
        },
    ]
}

#[test]
fn console_table() {
    let keys = entries();
    assert_eq!(
        Formatter::Console.render(&keys, true),
        "ID | User | Key | Hash  | Created At\n---|------|-----|------|------------\n\
         2 | alice | k2 | h2 | 2025-01-02:03:04:05\n1 | alice | k1 | h1 | 2025-01-01:00:00:00\n"
    );
    assert_eq!(
        Formatter::Console.render(&keys, false),
        "ID | User | Key | Hash | Active |  Reason  | Created At\n---|------|-----|------|--------|----------|------------\n\
         2 | alice | k2 | h2 | true |  | 2025-01-02:03:04:05\n1 | alice | k1 | h1 | false | replaced by 2 | 2025-01-01:00:00:00\n"
    );
    assert_eq!(render_as_table(&keys, true), Formatter::Console.render(&keys, true));
}

#[test]
fn csv() {
    let keys = entries();
    assert_eq!(
        render_as_csv(&keys, true),
        "id,user, key, key_hash,created_at\n2,alice,k2,h2,2025-01-02:03:04:05\n1,alice,k1,h1,2025-01-01:00:00:00\n"
    );
    assert_eq!(
        Formatter::Csv.render(&keys, false),
        "id,user, key, key_hash,active, reason, created_at\n2,alice,k2,h2,true,,2025-01-02:03:04:05\n\
         1,alice,k1,h1,false,replaced by 2,2025-01-01:00:00:00\n"
    );
}

#[test]
fn markdown() {
    let keys = entries();
    assert_eq!(
        render_as_markdown(&keys, true),
        "| ID | User | Key | Hash | Created At |\n|----|------|------|--------|------------|\n\
         | 2 | alice | k2 | h2 | 2025-01-02:03:04:05 |\n| 1 | alice | k1 | h1 | 2025-01-01:00:00:00 |\n"
    );
    assert_eq!(
        Formatter::Markdown.render(&keys, false),
        "| ID | User | Key | Hash | Active| Reason | Created At |\n|----|------|------|--------|----------|------------|\n\
         | 2 | alice | k2 | h2 | true |  | 2025-01-02:03:04:05 |\n| 1 | alice | k1 | h1 | false | replaced by 2 | 2025-01-01:00:00:00 |\n"
    );
}

#[test]
fn empty_journal_is_only_the_header() {
    assert_eq!(Formatter::Csv.render(&[], true), "id,user, key, key_hash,created_at\n");
    assert_eq!(
        Formatter::Markdown.render(&[], false),
        "| ID | User | Key | Hash | Active| Reason | Created At |\n|----|------|------|--------|----------|------------|\n"
    );
}

#[test]
fn negative_ids_are_printed_with_sign() {
    let mut keys = entries();
    keys.truncate(1);
    keys[0].id = -7;
    assert_eq!(
        Formatter::Csv.render(&keys, true),
        "id,user, key, key_hash,created_at\n-7,alice,k2,h2,2025-01-02:03:04:05\n"
    );
}

#[test]
fn rendering_two_lists_is_header_once_then_both_rows() {
    let keys = entries();
    for f in [Formatter::Console, Formatter::Csv, Formatter::Markdown] {
        for short in [true, false] {
            let header = f.render(&[], short);
            let whole = f.render(&keys, short);
            let first = f.render(&keys[..1], short);
            let second = f.render(&keys[1..], short);
            assert_eq!(whole, format!("{}{}", first, &second[header.len()..]));
        }
    }
}
