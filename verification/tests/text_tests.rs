use pow_chain::text::{
    decimal_string, hex_encode, hex_to_binary, is_lower_hex_text, nibble_str, starts_with_zeros,
};

#[test]
fn decimal_string_writes_zero_as_one_digit() {
    assert_eq!(decimal_string(0), "0");
}

#[test]
fn decimal_string_writes_single_digits() {
    assert_eq!(decimal_string(7), "7");
    assert_eq!(decimal_string(9), "9");
}

#[test]
fn decimal_string_writes_most_significant_digit_first() {
    assert_eq!(decimal_string(10), "10");
    assert_eq!(decimal_string(1234567890), "1234567890");
    assert_eq!(decimal_string(4_000_000_000), "4000000000");
}

#[test]
fn decimal_string_writes_the_largest_value() {
    assert_eq!(decimal_string(u128::MAX), "340282366920938463463374607431768211455");
}

#[test]
fn decimal_string_agrees_with_the_standard_formatting() {
    let mut n: u128 = 1;
    while n < u128::MAX / 7 {
        assert_eq!(decimal_string(n), format!("{}", n));
        n = n * 7 + 3;
    }
}

#[test]
fn hex_encode_of_nothing_is_empty() {
    let none: [u8; 0] = [];
    assert_eq!(hex_encode(&none), "");
}

#[test]
fn hex_encode_writes_two_lower_case_digits_per_byte() {
    assert_eq!(hex_encode(&[10, 20, 30]), "0a141e");
    assert_eq!(hex_encode(&[0x00, 0x0a, 0xff, 0x10, 0xab]), "000aff10ab");
}

#[test]
fn hex_encode_covers_every_byte_value() {
    let mut b: u8 = 0;
    loop {
        assert_eq!(hex_encode(&[b]), format!("{:02x}", b));
        if b == u8::MAX {
            break;
        }
        b += 1;
    }
}

#[test]
fn nibble_str_maps_each_digit_to_four_bits() {
    assert_eq!(nibble_str('0'), Some("0000"));
    assert_eq!(nibble_str('1'), Some("0001"));
    assert_eq!(nibble_str('2'), Some("0010"));
    assert_eq!(nibble_str('3'), Some("0011"));
    assert_eq!(nibble_str('4'), Some("0100"));
    assert_eq!(nibble_str('5'), Some("0101"));
    assert_eq!(nibble_str('6'), Some("0110"));
    assert_eq!(nibble_str('7'), Some("0111"));
    assert_eq!(nibble_str('8'), Some("1000"));
    assert_eq!(nibble_str('9'), Some("1001"));
    assert_eq!(nibble_str('a'), Some("1010"));
    assert_eq!(nibble_str('b'), Some("1011"));
    assert_eq!(nibble_str('c'), Some("1100"));
    assert_eq!(nibble_str('d'), Some("1101"));
    assert_eq!(nibble_str('e'), Some("1110"));
    assert_eq!(nibble_str('f'), Some("1111"));
}

#[test]
fn nibble_str_knows_no_other_character() {
    assert_eq!(nibble_str('g'), None);
    assert_eq!(nibble_str('A'), None);
    assert_eq!(nibble_str('F'), None);
    assert_eq!(nibble_str(' '), None);
    assert_eq!(nibble_str('\u{e9}'), None);
}

#[test]
fn hex_to_binary_keeps_the_leading_zeros_of_each_digit() {
    assert_eq!(hex_to_binary(&String::from("1")), "0001");
    assert_eq!(hex_to_binary(&String::from("01")), "00000001");
    assert_eq!(hex_to_binary(&String::from("a")), "1010");
}

#[test]
fn hex_to_binary_expands_digit_by_digit() {
    assert_eq!(hex_to_binary(&String::from("0f")), "00001111");
    assert_eq!(hex_to_binary(&String::from("00a1")), "0000000010100001");
    assert_eq!(
        hex_to_binary(&String::from("0123456789abcdef")),
        "0000000100100011010001010110011110001001101010111100110111101111"
    );
}

#[test]
fn hex_to_binary_of_empty_text_is_empty() {
    assert_eq!(hex_to_binary(&String::new()), "");
}

#[test]
fn hex_to_binary_of_a_hash_has_256_bits() {
    let hash = String::from("2e17197239f01e6463e125981808f416b4472b2dd5363acd0b745d23613ce6b0");
    let bits = hex_to_binary(&hash);
    assert_eq!(bits.len(), 256);
    assert!(bits.starts_with("0010111000010111"));
}

#[test]
fn is_lower_hex_text_accepts_digits_and_a_to_f() {
    assert!(is_lower_hex_text("0123456789abcdef"));
    assert!(is_lower_hex_text(""));
}

#[test]
fn is_lower_hex_text_rejects_anything_else() {
    assert!(!is_lower_hex_text("00FF"));
    assert!(!is_lower_hex_text("GENSIS_HASH"));
    assert!(!is_lower_hex_text("12 34"));
    assert!(!is_lower_hex_text("abcdefg"));
}

#[test]
fn starts_with_zeros_counts_from_the_front() {
    assert!(starts_with_zeros("0001", 0));
    assert!(starts_with_zeros("0001", 3));
    assert!(!starts_with_zeros("0001", 4));
    assert!(!starts_with_zeros("1000", 1));
    assert!(!starts_with_zeros("0100", 2));
}

#[test]
fn starts_with_zeros_needs_enough_characters() {
    assert!(starts_with_zeros("00", 2));
    assert!(!starts_with_zeros("00", 3));
    assert!(starts_with_zeros("", 0));
    assert!(!starts_with_zeros("", 1));
    assert!(!starts_with_zeros("0000", u32::MAX));
}
