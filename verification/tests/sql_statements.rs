use edna_server::sql::{do_insert_query, insert_query, literal, update_query, Cell, SqlValue};

#[test]
fn literal_null_and_numbers() {
    assert_eq!(literal(&SqlValue::Null), "NULL");
    assert_eq!(literal(&SqlValue::Int(-42)), "-42");
    assert_eq!(literal(&SqlValue::Int(i64::MIN)), i64::MIN.to_string());
    assert_eq!(literal(&SqlValue::UInt(u64::MAX)), u64::MAX.to_string());
}

#[test]
fn literal_text_doubles_quotes() {
    assert_eq!(literal(&SqlValue::Text("plain".to_string())), "'plain'");
    assert_eq!(literal(&SqlValue::Text("it's".to_string())), "'it''s'");
    assert_eq!(literal(&SqlValue::Text("back\\slash".to_string())), "'back\\slash'");
    assert_eq!(literal(&SqlValue::Text(String::new())), "''");
}

#[test]
fn literal_bytes() {
    assert_eq!(literal(&SqlValue::Bytes(b"ab".to_vec())), "'ab'");
    assert_eq!(literal(&SqlValue::Bytes(b"it's".to_vec())), "'it''s'");
    assert_eq!(literal(&SqlValue::Bytes("comté".as_bytes().to_vec())), "'comté'");
    assert_eq!(literal(&SqlValue::Bytes(vec![0xff, 0x01])), "0xFF01");
}

#[test]
fn literal_dates() {
    assert_eq!(literal(&SqlValue::Date(2024, 1, 5, 0, 0, 0, 0)), "'2024-01-05'");
    assert_eq!(literal(&SqlValue::Date(999, 12, 31, 23, 4, 5, 0)), "'0999-12-31 23:04:05'");
    assert_eq!(
        literal(&SqlValue::Date(2024, 1, 5, 12, 3, 4, 7)),
        "'2024-01-05 12:03:04.000007'"
    );
}

#[test]
fn literal_times() {
    assert_eq!(literal(&SqlValue::Time(false, 0, 1, 2, 3, 0)), "'001:02:03'");
    assert_eq!(literal(&SqlValue::Time(true, 1, 2, 3, 4, 0)), "'-026:03:04'");
    assert_eq!(literal(&SqlValue::Time(false, 0, 0, 0, 0, 15)), "'000:00:00.000015'");
}

#[test]
fn insert_row() {
    let vals = vec![
        Cell::Value(SqlValue::Text("0@mail.edu".to_string())),
        Cell::Value(SqlValue::Int(3)),
        Cell::Value(SqlValue::Null),
    ];
    assert_eq!(
        insert_query("users", &vals),
        "INSERT INTO users VALUES ('0@mail.edu',3,NULL)"
    );
}

#[test]
fn insert_empty_row() {
    assert_eq!(insert_query("t", &vec![]), "INSERT INTO t VALUES ()");
}

#[test]
fn insert_ignores_replace_flag() {
    let vals = vec![Cell::Value(SqlValue::UInt(1)), Cell::Value(SqlValue::Text("x".to_string()))];
    let plain = do_insert_query("lectures", &vals, false);
    let replaced = do_insert_query("lectures", &vals, true);
    assert_eq!(plain, "INSERT INTO lectures VALUES (1,'x')");
    assert_eq!(replaced, plain);
    assert_eq!(insert_query("lectures", &vals), plain);
}

#[test]
fn update_two_columns() {
    let pairs = vec![
        ("email".to_string(), "'a@b'".to_string()),
        ("apikey".to_string(), "'k1'".to_string()),
    ];
    assert_eq!(
        update_query("users", &pairs),
        "INSERT INTO users (email,apikey) VALUES ('a@b','k1') ON DUPLICATE KEY UPDATE email = 'a@b',apikey = 'k1'"
    );
}

#[test]
fn update_one_column_and_none() {
    let pairs = vec![("lec".to_string(), "4".to_string())];
    assert_eq!(
        update_query("lectures", &pairs),
        "INSERT INTO lectures (lec) VALUES (4) ON DUPLICATE KEY UPDATE lec = 4"
    );
    assert_eq!(
        update_query("t", &vec![]),
        "INSERT INTO t () VALUES () ON DUPLICATE KEY UPDATE "
    );
}

#[test]
fn insert_rendered_cell() {
    let vals = vec![
        Cell::Rendered("1.5".to_string()),
        Cell::Value(SqlValue::Bytes(b"lec0".to_vec())),
    ];
    assert_eq!(insert_query("lectures", &vals), "INSERT INTO lectures VALUES (1.5,'lec0')");
}
