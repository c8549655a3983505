use tabular::{from_column_name, to_column_name, Address, Range};

#[test]
fn column_names_of_known_indices() {
    assert_eq!(to_column_name(0), "A");
    assert_eq!(to_column_name(25), "Z");
    assert_eq!(to_column_name(26), "AA");
    assert_eq!(to_column_name(27), "AB");
    assert_eq!(to_column_name(701), "ZZ");
    assert_eq!(to_column_name(702), "AAA");
    assert_eq!(to_column_name(18277), "ZZZ");
}

#[test]
fn column_names_round_trip() {
    for n in 0..=18277usize {
        assert_eq!(from_column_name(&to_column_name(n)), Ok(n));
    }
}

#[test]
fn column_names_parse_case_insensitively() {
    assert_eq!(from_column_name("a"), Ok(0));
    assert_eq!(from_column_name("ab"), Ok(27));
    assert_eq!(from_column_name("aA"), Ok(26));
    assert_eq!(from_column_name("zzz"), Ok(18277));
}

#[test]
fn empty_column_name_is_invalid() {
    assert_eq!(from_column_name(""), Err("Invalid column name: ".to_string()));
}

#[test]
fn non_letters_are_invalid() {
    assert_eq!(from_column_name("A1"), Err("Invalid column name: A1".to_string()));
    assert_eq!(from_column_name("@"), Err("Invalid column name: @".to_string()));
    assert_eq!(from_column_name("["), Err("Invalid column name: [".to_string()));
    assert_eq!(from_column_name("Ä"), Err("Invalid column name: Ä".to_string()));
}

#[test]
fn largest_column_name_parses_and_the_next_overflows() {
    let last = to_column_name(4294967294);
    assert_eq!(from_column_name(&last), Ok(4294967294));
    let past = to_column_name(4294967295);
    assert_eq!(
        from_column_name(&past),
        Err(format!("Column index overflow while parsing: {}", past))
    );
    assert_eq!(
        from_column_name("ZZZZZZZZ"),
        Err("Column index overflow while parsing: ZZZZZZZZ".to_string())
    );
}

#[test]
fn cell_names() {
    assert_eq!(Address { x: 0, y: 0 }.name(), "A1");
    assert_eq!(Address { x: 27, y: 11 }.name(), "AB12");
    assert_eq!(Address { x: 25, y: 99 }.name(), "Z100");
}

#[test]
fn range_names() {
    let a = Address { x: 0, y: 0 };
    let b = Address { x: 1, y: 1 };
    assert_eq!(Range { start: a, end: Some(b) }.name(), "A1:B2");
    assert_eq!(Range { start: b, end: None }.name(), "B2:B2");
}
