use token_reader::InputReader;

#[test]
fn test_parsing() {
    assert_eq!(
        InputReader::new("a b c").read_tuple::<(String, String, String)>(),
        Some(("a".into(), "b".into(), "c".into()))
    );

    assert_eq!(
        InputReader::new("1 hi false").read_tuple::<(i32, String, bool)>(),
        Some((1, "hi".into(), false))
    );

    assert_eq!(
        InputReader::new("123 135 159").read_tuple::<(i32, u64, u8)>(),
        Some((123, 135, 159))
    );

    assert_eq!(
        InputReader::new("1 2 3 4 5 6").read_tuple::<(u8, u8, u8, u8, u8, u8)>(),
        Some((1, 2, 3, 4, 5, 6))
    );
}

#[test]
fn reads_tokens_in_order_until_exhausted() {
    let mut reader = InputReader::new("alpha beta gamma");
    assert!(reader.has_next());
    assert_eq!(reader.read::<String>(), "alpha");
    assert_eq!(reader.read::<String>(), "beta");
    assert_eq!(reader.read::<String>(), "gamma");
    assert!(!reader.has_next());
}

#[test]
fn read_n_takes_the_first_n_tokens() {
    let mut reader = InputReader::new("10 20 30");
    let pair: [u32; 2] = reader.read_n();
    assert_eq!(pair, [10, 20]);
    assert_eq!(reader.read::<u32>(), 30);
    assert!(!reader.has_next());
}

#[test]
fn read_vec_matches_read_n() {
    let mut by_vec = InputReader::new("7 8 9");
    let mut by_n = InputReader::new("7 8 9");
    let v = by_vec.read_vec::<u64>(3);
    let a: [u64; 3] = by_n.read_n();
    assert_eq!(v, a.to_vec());
}

#[test]
fn read_vec_of_zero_consumes_nothing() {
    let mut reader = InputReader::new("7 8 9");
    let v = reader.read_vec::<u64>(0);
    assert!(v.is_empty());
    assert_eq!(reader.read::<u64>(), 7);
}

#[test]
fn tuple_success_consumes_one_token_per_field() {
    let mut reader = InputReader::new("1 2 3 4");
    assert_eq!(reader.read_tuple::<(u8, u8, u8)>(), Some((1, 2, 3)));
    assert_eq!(reader.read::<u8>(), 4);
}

#[test]
fn tuple_failure_consumes_through_the_failing_field() {
    let mut reader = InputReader::new("1 x 3");
    assert_eq!(reader.read_tuple::<(u8, u8, u8)>(), None);
    assert_eq!(reader.read::<String>(), "3");
    assert!(!reader.has_next());
}

#[test]
fn tuple_of_one_and_of_seven() {
    assert_eq!(InputReader::new("9").read_tuple::<(u8,)>(), Some((9,)));
    assert_eq!(
        InputReader::new("1 2 3 4 5 6 7").read_tuple::<(u8, u8, u8, u8, u8, u8, u8)>(),
        Some((1, 2, 3, 4, 5, 6, 7))
    );
}

#[test]
fn read_option_agrees_with_read_and_consumes_either_way() {
    let mut reader = InputReader::new("42 abc 42");
    assert_eq!(reader.read_option::<i32>(), Some(42));
    assert_eq!(reader.read_option::<i32>(), None);
    assert_eq!(reader.read::<i32>(), 42);
    assert!(!reader.has_next());
}

#[test]
fn count_then_vector_scenario() {
    let mut reader = InputReader::new("5 1 2 3 4 5");
    assert_eq!(reader.read::<i32>(), 5);
    assert_eq!(reader.read_vec::<i32>(5), vec![1, 2, 3, 4, 5]);
    assert!(!reader.has_next());
}

#[test]
fn any_whitespace_separates_tokens() {
    let mut reader = InputReader::new("\n\t  foo\r\nbar  ");
    assert_eq!(reader.read::<String>(), "foo");
    assert_eq!(reader.read::<String>(), "bar");
    assert!(!reader.has_next());
}

#[test]
fn unicode_whitespace_separates_tokens_too() {
    let mut reader = InputReader::new("a\u{a0}b\u{2003}c\u{3000}");
    assert_eq!(reader.read::<String>(), "a");
    assert_eq!(reader.read::<String>(), "b");
    assert_eq!(reader.read::<String>(), "c");
    assert!(!reader.has_next());
}
