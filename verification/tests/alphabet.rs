use base64_codec::{
    get_base64_chars, get_base64url_chars, get_base_chars, get_char_position, get_position,
    CHARS_LEN, PAD,
};

#[test]
fn standard_table() {
    let table = get_base64_chars();
    assert_eq!(
        &table[..],
        &b"ABCDEFGHIJKLMNOPQRSTUVWXYZabcdefghijklmnopqrstuvwxyz0123456789+/"[..]
    );
}

#[test]
fn url_safe_table() {
    let table = get_base64url_chars();
    assert_eq!(
        &table[..],
        &b"ABCDEFGHIJKLMNOPQRSTUVWXYZabcdefghijklmnopqrstuvwxyz0123456789-_"[..]
    );
}

#[test]
fn base_table_leaves_last_two_open() {
    let table = get_base_chars();
    assert_eq!(
        &table[..62],
        &b"ABCDEFGHIJKLMNOPQRSTUVWXYZabcdefghijklmnopqrstuvwxyz0123456789"[..]
    );
    assert_eq!(table[62], 0);
    assert_eq!(table[63], 0);
}

#[test]
fn tables_have_sixty_four_entries() {
    assert_eq!(CHARS_LEN, 64);
    assert_eq!(get_base64_chars().len(), CHARS_LEN);
    assert_eq!(get_base64url_chars().len(), CHARS_LEN);
    assert_eq!(PAD, '=');
}

#[test]
fn tables_differ_at_62_and_63_only() {
    let standard = get_base64_chars();
    let url_safe = get_base64url_chars();
    for i in 0..62 {
        assert_eq!(standard[i], url_safe[i]);
    }
    assert_eq!(standard[62], b'+');
    assert_eq!(standard[63], b'/');
    assert_eq!(url_safe[62], b'-');
    assert_eq!(url_safe[63], b'_');
}

#[test]
fn table_entries_are_distinct_and_printable() {
    for table in [get_base64_chars(), get_base64url_chars()] {
        for i in 0..64 {
            assert!(table[i] > 0x20 && table[i] < 0x7f);
            assert_ne!(table[i], b'=');
            for j in 0..i {
                assert_ne!(table[i], table[j]);
            }
        }
    }
}

#[test]
fn position_is_the_inverse_of_the_table() {
    let standard = get_base64_chars();
    let url_safe = get_base64url_chars();
    for i in 0..64u8 {
        assert_eq!(get_position(standard[i as usize]), Some(i));
        assert_eq!(get_position(url_safe[i as usize]), Some(i));
    }
}

#[test]
fn position_of_every_byte() {
    let standard = get_base64_chars();
    let url_safe = get_base64url_chars();
    for b in 0..=255u8 {
        let in_standard = standard.iter().position(|&c| c == b).map(|i| i as u8);
        let in_url_safe = url_safe.iter().position(|&c| c == b).map(|i| i as u8);
        assert_eq!(get_position(b), in_standard.or(in_url_safe));
        let is_symbol = b.is_ascii_alphanumeric() || b"+/-_".contains(&b);
        assert_eq!(get_position(b).is_some(), is_symbol);
        if let Some(value) = get_position(b) {
            assert!(value <= 63);
        }
    }
}

#[test]
fn position_at_the_range_borders() {
    assert_eq!(get_position(b'A'), Some(0));
    assert_eq!(get_position(b'Z'), Some(25));
    assert_eq!(get_position(b'a'), Some(26));
    assert_eq!(get_position(b'z'), Some(51));
    assert_eq!(get_position(b'0'), Some(52));
    assert_eq!(get_position(b'9'), Some(61));
    assert_eq!(get_position(b'@'), None);
    assert_eq!(get_position(b'['), None);
    assert_eq!(get_position(b'`'), None);
    assert_eq!(get_position(b'{'), None);
    assert_eq!(get_position(b':'), None);
    assert_eq!(get_position(b'='), None);
}

#[test]
fn position_of_the_variant_symbols() {
    assert_eq!(get_position(b'+'), Some(62));
    assert_eq!(get_position(b'-'), Some(62));
    assert_eq!(get_position(b'/'), Some(63));
    assert_eq!(get_position(b'_'), Some(63));
    assert_eq!(get_position(b'_'), get_position(b'/'));
    assert_eq!(get_position(b'-'), get_position(b'+'));
}

#[test]
fn sixty_six_bytes_are_symbols() {
    let count = (0..=255u8).filter(|&b| get_position(b).is_some()).count();
    assert_eq!(count, 66);
}

#[test]
fn char_position_agrees_on_ascii_and_refuses_the_rest() {
    assert_eq!(get_char_position('A'), Some(0));
    assert_eq!(get_char_position('/'), Some(63));
    assert_eq!(get_char_position('_'), Some(63));
    assert_eq!(get_char_position('+'), Some(62));
    assert_eq!(get_char_position('-'), Some(62));
    assert_eq!(get_char_position('='), None);
    assert_eq!(get_char_position(' '), None);
    assert_eq!(get_char_position('\u{7f}'), None);
    assert_eq!(get_char_position('\u{80}'), None);
    assert_eq!(get_char_position('\u{141}'), None);
    assert_eq!(get_char_position('\u{10ffff}'), None);
}
