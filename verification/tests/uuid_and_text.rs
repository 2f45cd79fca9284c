use bnuystore::file_uuid::FileUUID;
use bnuystore::text::{chars_of, decimal_of, join_chars, parse_decimal, split_path, string_of};

#[test]
fn hyphenated_text_of_a_uuid() {
    let uuid = FileUUID(0xa1a2a3a4_b1b2_c1c2_d1d2_d3d4d5d6d7d8);
    assert_eq!(uuid.hyphenated(), "a1a2a3a4-b1b2-c1c2-d1d2-d3d4d5d6d7d8");
}

#[test]
fn hyphenated_text_of_zero_and_of_the_largest() {
    assert_eq!(FileUUID(0).hyphenated(), "00000000-0000-0000-0000-000000000000");
    assert_eq!(FileUUID(u128::MAX).hyphenated(), "ffffffff-ffff-ffff-ffff-ffffffffffff");
    assert_eq!(FileUUID(0x0123456789abcdef_0123456789abcdef).hyphenated(), "01234567-89ab-cdef-0123-456789abcdef");
}

#[test]
fn hyphenated_text_is_what_the_uuid_crate_writes() {
    let value: u128 = 0x018f_3b2a_7c4d_7e11_9abc_0123_4567_89ab;
    let outside = uuid::Uuid::from_u128(value);
    assert_eq!(FileUUID(value).hyphenated(), outside.hyphenated().to_string());
}

#[test]
fn uuid_text_round_trip() {
    for value in [0u128, 1, 0xdead_beef, u128::MAX, 0x936d_a01f_9abd_4d9d_80c7_02af_85c8_22a8] {
        let text = FileUUID(value).hyphenated();
        assert_eq!(FileUUID::try_parse(&text), Some(FileUUID(value)));
    }
}

#[test]
fn uuid_parser_reads_every_form() {
    let want = Some(FileUUID(0x936d_a01f_9abd_4d9d_80c7_02af_85c8_22a8));
    assert_eq!(FileUUID::try_parse("936da01f-9abd-4d9d-80c7-02af85c822a8"), want);
    assert_eq!(FileUUID::try_parse("936DA01F-9ABD-4D9D-80C7-02AF85C822A8"), want);
    assert_eq!(FileUUID::try_parse("936da01f9abd4d9d80c702af85c822a8"), want);
    assert_eq!(FileUUID::try_parse("{936da01f-9abd-4d9d-80c7-02af85c822a8}"), want);
    assert_eq!(FileUUID::try_parse("urn:uuid:936da01f-9abd-4d9d-80c7-02af85c822a8"), want);
}

#[test]
fn uuid_parser_refuses_what_is_no_uuid() {
    assert_eq!(FileUUID::try_parse(""), None);
    assert_eq!(FileUUID::try_parse("not a uuid"), None);
    assert_eq!(FileUUID::try_parse("936da01f-9abd-4d9d-80c7-02af85c822a"), None);
    assert_eq!(FileUUID::try_parse("936da01f-9abd-4d9d-80c7-02af85c822ag"), None);
    assert_eq!(FileUUID::try_parse("936da01f_9abd_4d9d_80c7_02af85c822a8"), None);
}

#[test]
fn chars_and_strings_convert_both_ways() {
    let chars = chars_of("häll/ö");
    assert_eq!(chars, vec!['h', 'ä', 'l', 'l', '/', 'ö']);
    assert_eq!(string_of(&chars), "häll/ö");
    assert_eq!(string_of(&chars[1..4].to_vec()), "äll");
    assert_eq!(string_of(&Vec::new()), "");
    assert_eq!(chars_of(""), Vec::<char>::new());
}

#[test]
fn split_path_gives_the_segments() {
    assert_eq!(split_path("a/b/c"), vec!["a", "b", "c"]);
    assert_eq!(split_path("abc"), vec!["abc"]);
    assert_eq!(split_path(""), vec![""]);
    assert_eq!(split_path("/a"), vec!["", "a"]);
    assert_eq!(split_path("a/"), vec!["a", ""]);
    assert_eq!(split_path("a//b"), vec!["a", "", "b"]);
    assert_eq!(split_path("/"), vec!["", ""]);
}

#[test]
fn split_path_is_what_std_split_gives() {
    for path in ["", "/", "a", "a/b", "//", "x/./../y/", "dir/sub dir/file.txt"] {
        let want: Vec<String> = path.split('/').map(|s| s.to_string()).collect();
        assert_eq!(split_path(path), want);
    }
}

#[test]
fn join_puts_a_slash_between_segments() {
    let segments: Vec<Vec<char>> = vec![chars_of(""), chars_of("usr"), chars_of("local"), chars_of(""), chars_of("bin")];
    assert_eq!(string_of(&join_chars(&segments)), "/usr/local//bin");
    assert_eq!(string_of(&join_chars(&vec![chars_of("usr")])), "usr");
    assert_eq!(string_of(&join_chars(&vec![chars_of(""), chars_of("")])), "/");
    assert_eq!(join_chars(&vec![chars_of("")]), Vec::<char>::new());
    assert_eq!(join_chars(&Vec::new()), Vec::<char>::new());
}

#[test]
fn split_and_join_are_inverse() {
    for path in ["", "/", "a", "/usr/local//bin", "a/b/", "//", "ä/ö"] {
        let segments: Vec<Vec<char>> = split_path(path).iter().map(|segment| chars_of(segment)).collect();
        assert_eq!(string_of(&join_chars(&segments)), path);
    }
}

#[test]
fn numbers_are_written_in_decimal() {
    assert_eq!(decimal_of(0), "0");
    assert_eq!(decimal_of(7), "7");
    assert_eq!(decimal_of(10), "10");
    assert_eq!(decimal_of(-1), "-1");
    assert_eq!(decimal_of(1234567890), "1234567890");
    assert_eq!(decimal_of(i64::MAX), "9223372036854775807");
    assert_eq!(decimal_of(i64::MIN), "-9223372036854775808");
    assert_eq!(decimal_of(i64::MIN + 1), "-9223372036854775807");
}

#[test]
fn numbers_are_written_as_std_writes_them() {
    let mut value: i64 = 1;
    for round in 0..200 {
        for candidate in [value, -value, value - 1, value.wrapping_mul(31).wrapping_add(round)] {
            assert_eq!(decimal_of(candidate), candidate.to_string());
            assert_eq!(parse_decimal(&candidate.to_string()), Some(candidate));
        }
        value = value.wrapping_mul(3).wrapping_add(round);
    }
}

#[test]
fn numbers_are_read_from_decimal() {
    assert_eq!(parse_decimal("0"), Some(0));
    assert_eq!(parse_decimal("-0"), Some(0));
    assert_eq!(parse_decimal("+0"), Some(0));
    assert_eq!(parse_decimal("000123"), Some(123));
    assert_eq!(parse_decimal("-000123"), Some(-123));
    assert_eq!(parse_decimal("+9223372036854775807"), Some(i64::MAX));
    assert_eq!(parse_decimal("-9223372036854775808"), Some(i64::MIN));
    assert_eq!(parse_decimal("00000000000000000000000000000000000000009"), Some(9));
}

#[test]
fn what_is_no_number_is_refused() {
    for text in [
        "", "+", "-", "--1", "+-1", "-+1", "1-", "1+", " 1", "1 ", "1_000", "1.0", "1e3", "0x10", "١٢٣",
        "9223372036854775808", "-9223372036854775809", "99999999999999999999", "-99999999999999999999",
        "18446744073709551616", "340282366920938463463374607431768211456", "12a", "a12", "１２",
    ] {
        assert_eq!(parse_decimal(text), None, "{:?}", text);
        assert_eq!(text.parse::<i64>().ok(), None, "{:?}", text);
    }
}

#[test]
fn numbers_are_read_as_std_reads_them() {
    let alphabet: Vec<char> = "0123456789+- x９".chars().collect();
    let mut state: u64 = 12345;
    for _ in 0..20000 {
        let mut text = String::new();
        state = state.wrapping_mul(6364136223846793005).wrapping_add(1442695040888963407);
        let length = ((state >> 40) % 22) as usize;
        for _ in 0..length {
            state = state.wrapping_mul(6364136223846793005).wrapping_add(1442695040888963407);
            let pick = ((state >> 33) % 14) as usize;
            text.push(alphabet[pick.min(alphabet.len() - 1) % alphabet.len()]);
        }
        assert_eq!(parse_decimal(&text), text.parse::<i64>().ok(), "{:?}", text);
    }
}
