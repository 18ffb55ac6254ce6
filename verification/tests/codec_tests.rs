use geth_indexer::codec::{from_hex_string, number_of, to_hex_string_internal, word_bytes, ToHexString};
use geth_indexer::text::{decimal_string, parse_unsigned};
use geth_indexer::timefmt::{can_render, unix_ms_to_ist};

#[test]
fn hex_of_bytes_is_prefixed_lowercase() {
    assert_eq!(to_hex_string_internal(&[1, 2, 3, 15, 16]), "0x0102030f10");
    assert_eq!(to_hex_string_internal(&[0xf9, 0xb4, 0xca]), "0xf9b4ca");
}

#[test]
fn hex_of_no_bytes_is_the_prefix() {
    assert_eq!(to_hex_string_internal(&[]), "0x");
}

#[test]
fn hex_of_a_byte_vector_keeps_its_width() {
    let address: Vec<u8> = vec![0xab; 20];
    let text = address.to_hex_string();
    assert_eq!(text.len(), 42);
    assert_eq!(text, format!("0x{}", "ab".repeat(20)));
}

#[test]
fn integers_are_padded_to_a_word() {
    let one = 1u64.to_hex_string();
    assert_eq!(one.len(), 66);
    assert_eq!(one, format!("0x{}01", "00".repeat(31)));
    assert_eq!(255u8.to_hex_string(), format!("0x{}ff", "00".repeat(31)));
    assert_eq!(
        u128::MAX.to_hex_string(),
        format!("0x{}{}", "00".repeat(16), "ff".repeat(16))
    );
    assert_eq!(0x0102u64.to_hex_string(), format!("0x{}0102", "00".repeat(30)));
}

#[test]
fn flags_are_words_of_one_and_zero() {
    assert_eq!(true.to_hex_string(), format!("0x{}01", "00".repeat(31)));
    assert_eq!(false.to_hex_string(), format!("0x{}", "00".repeat(32)));
}

#[test]
fn word_bytes_are_big_endian() {
    let bytes = word_bytes(0x0a0b0c);
    assert_eq!(bytes.len(), 32);
    assert_eq!(&bytes[29..], &[0x0a, 0x0b, 0x0c]);
    assert!(bytes[..29].iter().all(|b| *b == 0));
}

#[test]
fn hex_text_reads_back_into_its_bytes() {
    for bytes in [vec![], vec![0u8], vec![0x12, 0xab, 0xff], (0..=255u8).collect::<Vec<u8>>()] {
        let text = to_hex_string_internal(&bytes);
        assert_eq!(from_hex_string(&text), Some(bytes));
    }
}

#[test]
fn hex_integer_fields_read_back_as_written() {
    for x in [0u64, 1, 255, 256, 438_200, u64::MAX] {
        let bytes = from_hex_string(&x.to_hex_string()).expect("hex");
        assert_eq!(number_of(&bytes), Some(x as u128));
    }
    let bytes = from_hex_string(&u128::MAX.to_hex_string()).expect("hex");
    assert_eq!(number_of(&bytes), Some(u128::MAX));
}

#[test]
fn hex_reading_takes_either_case() {
    assert_eq!(from_hex_string("0xF9b4Ca"), Some(vec![0xf9, 0xb4, 0xca]));
}

#[test]
fn hex_reading_refuses_other_text() {
    assert_eq!(from_hex_string(""), None);
    assert_eq!(from_hex_string("f9b4ca"), None);
    assert_eq!(from_hex_string("0xf9b"), None);
    assert_eq!(from_hex_string("0xzz"), None);
    assert_eq!(from_hex_string("0x\u{e9}a"), None);
    assert_eq!(from_hex_string("0Xab"), None);
}

#[test]
fn number_of_refuses_more_than_128_bits() {
    let mut bytes = vec![0u8; 17];
    bytes[0] = 1;
    assert_eq!(number_of(&bytes), None);
    assert_eq!(number_of(&vec![]), Some(0));
    assert_eq!(number_of(&vec![1, 0]), Some(256));
}

#[test]
fn decimal_string_writes_plain_digits() {
    assert_eq!(decimal_string(0), "0");
    assert_eq!(decimal_string(7), "7");
    assert_eq!(decimal_string(1001), "1001");
    assert_eq!(decimal_string(u64::MAX), "18446744073709551615");
}

#[test]
fn parse_unsigned_reads_what_decimal_string_writes() {
    for n in [0u64, 9, 10, 99, 1001, u64::MAX] {
        assert_eq!(parse_unsigned(&decimal_string(n), u64::MAX), Some(n));
    }
}

#[test]
fn parse_unsigned_takes_a_plus_and_leading_zeros() {
    assert_eq!(parse_unsigned("+5", u64::MAX), Some(5));
    assert_eq!(parse_unsigned("007", u64::MAX), Some(7));
}

#[test]
fn parse_unsigned_refuses_what_is_no_number() {
    for text in ["", "+", "-5", "12a", " 1", "1 ", "1_000", "0x10", "1.5", "++1", "\u{663}"] {
        assert_eq!(parse_unsigned(text, u64::MAX), None, "{text:?}");
    }
}

#[test]
fn parse_unsigned_refuses_what_is_too_large() {
    assert_eq!(parse_unsigned("18446744073709551615", u64::MAX), Some(u64::MAX));
    assert_eq!(parse_unsigned("18446744073709551616", u64::MAX), None);
    assert_eq!(parse_unsigned("99999999999999999999999", u64::MAX), None);
    assert_eq!(parse_unsigned("65535", 65_535), Some(65_535));
    assert_eq!(parse_unsigned("65536", 65_535), None);
}

#[test]
fn seconds_are_rendered_in_indian_time() {
    assert_eq!(unix_ms_to_ist(0), "1970-01-01 05:30:00.000 IST");
    assert_eq!(unix_ms_to_ist(1_700_000_000), "2023-11-15 03:43:20.000 IST");
}

#[test]
fn milliseconds_are_rendered_with_their_fraction() {
    assert_eq!(unix_ms_to_ist(1_700_000_000_123), "2023-11-15 03:43:20.123 IST");
    assert_eq!(unix_ms_to_ist(1_000_000_000_000), "2001-09-09 07:16:40.000 IST");
}

#[test]
fn the_cutoff_separates_seconds_from_milliseconds() {
    assert_eq!(unix_ms_to_ist(999_999_999_999), "+33658-09-27 07:16:39.000 IST");
}

#[test]
fn seconds_before_the_epoch_are_rendered() {
    assert_eq!(unix_ms_to_ist(-1), "1970-01-01 05:29:59.000 IST");
}

#[test]
fn can_render_covers_the_calendar() {
    assert!(can_render(0));
    assert!(can_render(-8_334_601_228_800));
    assert!(!can_render(-8_334_601_228_801));
    assert!(can_render(8_210_266_876_799_999));
    assert!(!can_render(8_210_266_876_800_000));
    assert!(!can_render(i64::MAX));
    assert!(!can_render(i64::MIN));
}

#[test]
fn the_ends_of_the_calendar_are_rendered() {
    assert_eq!(unix_ms_to_ist(-8_334_601_228_800), "-262143-01-01 05:30:00.000 IST");
    assert_eq!(unix_ms_to_ist(8_210_266_876_799_999), "+262143-01-01 05:29:59.999 IST");
}
