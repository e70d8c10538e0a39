use postboard::catalog::{all_posts, parse_seed_row, seed_rows, SEED_COUNT, SEED_SEPARATOR};
use postboard::keyspace::post_key;
use postboard::store::Row;

#[test]
fn all_posts_is_the_seed_catalog() {
    let rows = all_posts();
    let expected = vec![
        "post-001-{\"title\"_\"introduction\":\"post\"_\"welcome to the forum\"}",
        "post-002-{\"title\"_\"stickies\":\"post\"_\"common threads\"}",
        "post-003-{\"title\"_\"howtos\":\"post\"_\"how do I do this\"}",
        "post-004-{\"title\"_\"beginner\":\"post\"_\"intro code for beginners\"}",
        "post-005-{\"title\"_\"intermediate\":\"post\"_\"know enough beyond beginner\"}",
        "post-006-{\"title\"_\"advanced\":\"post\"_\"I am sharing tips\"}",
        "post-007-{\"title\"_\"FAQS\":\"post\"_\"frequently asked questions\"}",
        "post-008-{\"title\"_\"contacts\":\"post\"_\"useful contacts\"}",
        "post-009-{\"title\"_\"help\":\"post\"_\"forum development\"}",
        "post-010-{\"title\"_\"about\":\"post\"_\"contact information\"}",
    ];
    assert_eq!(rows, expected);
    assert_eq!(rows.len(), SEED_COUNT);
}

#[test]
fn separator_is_a_colon() {
    assert_eq!(SEED_SEPARATOR, b':');
}

#[test]
fn parse_seed_row_splits_at_the_first_colon() {
    assert_eq!(
        parse_seed_row("post-1:hello"),
        Some(Row { key: b"post-1".to_vec(), value: b"hello".to_vec() })
    );
    assert_eq!(parse_seed_row(":v"), Some(Row { key: vec![], value: b"v".to_vec() }));
    assert_eq!(parse_seed_row("k:"), Some(Row { key: b"k".to_vec(), value: vec![] }));
    assert_eq!(parse_seed_row(":"), Some(Row { key: vec![], value: vec![] }));
}

#[test]
fn parse_seed_row_stops_the_value_at_the_second_colon() {
    assert_eq!(
        parse_seed_row("k:v:rest:more"),
        Some(Row { key: b"k".to_vec(), value: b"v".to_vec() })
    );
    assert_eq!(parse_seed_row("k::x"), Some(Row { key: b"k".to_vec(), value: vec![] }));
}

#[test]
fn parse_seed_row_needs_a_colon() {
    assert_eq!(parse_seed_row("no separator"), None);
    assert_eq!(parse_seed_row(""), None);
}

#[test]
fn parse_seed_row_keeps_other_bytes() {
    assert_eq!(
        parse_seed_row("post-\u{e9}:\u{20ac}"),
        Some(Row { key: "post-\u{e9}".as_bytes().to_vec(), value: "\u{20ac}".as_bytes().to_vec() })
    );
}

#[test]
fn seed_rows_reads_the_catalog() {
    let rows = seed_rows(&all_posts()).unwrap();
    assert_eq!(rows.len(), 10);
    assert_eq!(rows[0].key, b"post-001-{\"title\"_\"introduction\"".to_vec());
    assert_eq!(rows[0].value, b"\"post\"_\"welcome to the forum\"}".to_vec());
    assert_eq!(rows[9].key, b"post-010-{\"title\"_\"about\"".to_vec());
    assert_eq!(rows[9].value, b"\"post\"_\"contact information\"}".to_vec());
    for row in &rows {
        assert!(post_key(&row.key));
    }
    for i in 0..rows.len() {
        for j in 0..i {
            assert_ne!(rows[i].key, rows[j].key);
        }
    }
}

#[test]
fn seed_rows_refuses_a_line_without_colon() {
    let lines = vec![String::from("a:b"), String::from("broken"), String::from("c:d")];
    assert_eq!(seed_rows(&lines), None);
    assert_eq!(seed_rows(&Vec::new()), Some(Vec::new()));
}
