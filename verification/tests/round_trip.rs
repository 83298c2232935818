use base64_codec::{base64_decode, base64_encode, base64url_decode, base64url_encode};

fn sample(n: usize, seed: u32) -> Vec<u8> {
    let mut state = seed;
    let mut bytes = Vec::with_capacity(n);
    for _ in 0..n {
        state = state.wrapping_mul(1664525).wrapping_add(1013904223);
        bytes.push((state >> 24) as u8);
    }
    bytes
}

#[test]
fn round_trip_standard_padded() {
    for n in 0..130usize {
        let bytes = sample(n, 1);
        assert_eq!(base64_decode(&base64_encode(&bytes, true)), Ok(bytes));
    }
}

#[test]
fn round_trip_standard_unpadded() {
    for n in 0..130usize {
        let bytes = sample(n, 2);
        assert_eq!(base64_decode(&base64_encode(&bytes, false)), Ok(bytes));
    }
}

#[test]
fn round_trip_url_safe_padded() {
    for n in 0..130usize {
        let bytes = sample(n, 3);
        assert_eq!(base64url_decode(&base64url_encode(&bytes, true)), Ok(bytes));
    }
}

#[test]
fn round_trip_url_safe_unpadded() {
    for n in 0..130usize {
        let bytes = sample(n, 4);
        assert_eq!(base64url_decode(&base64url_encode(&bytes, false)), Ok(bytes));
    }
}

#[test]
fn round_trip_every_byte_value() {
    let bytes: Vec<u8> = (0..=255u8).collect();
    assert_eq!(base64_decode(&base64_encode(&bytes, true)), Ok(bytes.clone()));
    assert_eq!(base64url_decode(&base64url_encode(&bytes, false)), Ok(bytes));
}

#[test]
fn round_trip_every_pair_of_bytes() {
    for x in 0..=255u8 {
        for y in [0u8, 1, 0x0f, 0x10, 0x3f, 0x40, 0x7f, 0x80, 0xc0, 0xf0, 0xff] {
            let bytes = vec![x, y];
            assert_eq!(base64_decode(&base64_encode(&bytes, false)), Ok(bytes.clone()));
            let bytes = vec![y, x, y];
            assert_eq!(base64_decode(&base64_encode(&bytes, true)), Ok(bytes.clone()));
            let bytes = vec![x];
            assert_eq!(base64url_decode(&base64url_encode(&bytes, true)), Ok(bytes));
        }
    }
}

#[test]
fn padding_makes_no_difference_to_decoding() {
    for n in 0..60usize {
        let bytes = sample(n, 5);
        assert_eq!(
            base64_decode(&base64_encode(&bytes, true)),
            base64_decode(&base64_encode(&bytes, false))
        );
        assert_eq!(
            base64url_decode(&base64url_encode(&bytes, true)),
            base64url_decode(&base64url_encode(&bytes, false))
        );
    }
}

#[test]
fn inserted_line_breaks_make_no_difference() {
    for n in 0..60usize {
        let bytes = sample(n, 6);
        let text = base64_encode(&bytes, true);
        let mut broken = String::new();
        for (k, c) in text.chars().enumerate() {
            if k % 5 == 0 {
                broken.push_str("\r\n");
            }
            broken.push(c);
        }
        broken.push(' ');
        assert_eq!(base64_decode(&broken), Ok(bytes));
    }
}

#[test]
fn text_of_one_variant_is_read_by_either_decoder() {
    let bytes = b"Man is distinguished".to_vec();
    assert_eq!(base64url_decode(&base64_encode(&bytes, true)), Ok(bytes.clone()));
    assert_eq!(base64_decode(&base64url_encode(&bytes, true)), Ok(bytes));
    // Bytes whose fields are 62 and 63.
    let bytes = vec![0xfb, 0xff, 0xbf, 0xff, 0xfe];
    assert_eq!(base64_decode(&base64url_encode(&bytes, true)), Ok(bytes.clone()));
    assert_eq!(base64_decode(&base64url_encode(&bytes, false)), Ok(bytes.clone()));
    assert_eq!(base64url_decode(&base64_encode(&bytes, true)), Ok(bytes.clone()));
    assert_eq!(base64url_decode(&base64_encode(&bytes, false)), Ok(bytes));
    for n in 0..130usize {
        let bytes = sample(n, 7);
        assert_eq!(base64_decode(&base64url_encode(&bytes, n % 2 == 0)), Ok(bytes.clone()));
        assert_eq!(base64url_decode(&base64_encode(&bytes, n % 2 == 1)), Ok(bytes));
    }
}
