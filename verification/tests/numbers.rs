use token_reader::InputReader;

#[test]
fn unsigned_bounds_are_exact() {
    let mut reader = InputReader::new("18446744073709551615 18446744073709551616 255 256 0");
    assert_eq!(reader.read::<u64>(), u64::MAX);
    assert_eq!(reader.read_option::<u64>(), None);
    assert_eq!(reader.read::<u8>(), 255);
    assert_eq!(reader.read_option::<u8>(), None);
    assert_eq!(reader.read::<u8>(), 0);
}

#[test]
fn signed_bounds_are_exact() {
    let mut reader = InputReader::new(
        "-9223372036854775808 -9223372036854775809 9223372036854775807 -2147483648 2147483647 -2147483649",
    );
    assert_eq!(reader.read::<i64>(), i64::MIN);
    assert_eq!(reader.read_option::<i64>(), None);
    assert_eq!(reader.read::<i64>(), i64::MAX);
    assert_eq!(reader.read::<i32>(), i32::MIN);
    assert_eq!(reader.read::<i32>(), i32::MAX);
    assert_eq!(reader.read_option::<i32>(), None);
}

#[test]
fn signs_are_accepted_only_once_and_only_in_front() {
    let mut reader = InputReader::new("+7 -12 +-3 - --1 1-2");
    assert_eq!(reader.read::<u32>(), 7);
    assert_eq!(reader.read::<i32>(), -12);
    assert_eq!(reader.read_option::<i32>(), None);
    assert_eq!(reader.read_option::<i32>(), None);
    assert_eq!(reader.read_option::<i32>(), None);
    assert_eq!(reader.read_option::<i32>(), None);
}

#[test]
fn unsigned_rejects_a_minus_sign() {
    let mut reader = InputReader::new("-1 17");
    assert_eq!(reader.read_option::<u32>(), None);
    assert_eq!(reader.read::<u32>(), 17);
}

#[test]
fn bool_is_exactly_true_or_false() {
    let mut reader = InputReader::new("true false tru TRUE");
    assert_eq!(reader.read::<bool>(), true);
    assert_eq!(reader.read::<bool>(), false);
    assert_eq!(reader.read_option::<bool>(), None);
    assert_eq!(reader.read_option::<bool>(), None);
}

#[test]
fn narrow_and_machine_sized_integers() {
    let mut reader = InputReader::new("65535 65536 -128 127 -129 4096 -4096");
    assert_eq!(reader.read::<u16>(), u16::MAX);
    assert_eq!(reader.read_option::<u16>(), None);
    assert_eq!(reader.read::<i8>(), i8::MIN);
    assert_eq!(reader.read::<i8>(), i8::MAX);
    assert_eq!(reader.read_option::<i8>(), None);
    assert_eq!(reader.read::<usize>(), 4096);
    assert_eq!(reader.read::<isize>(), -4096);
}

#[test]
fn a_char_is_a_token_of_one_character() {
    let mut reader = InputReader::new("x yz *");
    assert_eq!(reader.read::<char>(), 'x');
    assert_eq!(reader.read_option::<char>(), None);
    assert_eq!(reader.read::<char>(), '*');
}

#[test]
fn non_numeric_text_is_no_integer() {
    let mut reader = InputReader::new("abc");
    assert_eq!(reader.read_option::<i32>(), None);
}
