use flowy_core::{identifier_from, new_identifier, now_timestamp};

#[test]
fn an_identifier_is_the_bytes_with_version_and_variant_in_hyphenated_hex() {
    let bytes: [u8; 16] = [0, 1, 2, 3, 4, 5, 6, 7, 8, 9, 10, 11, 12, 13, 14, 15];
    assert_eq!(identifier_from(bytes), "00010203-0405-4607-8809-0a0b0c0d0e0f");
    assert_eq!(identifier_from([0u8; 16]), "00000000-0000-4000-8000-000000000000");
    assert_eq!(identifier_from([0xff; 16]), "ffffffff-ffff-4fff-bfff-ffffffffffff");
    let mixed: [u8; 16] =
        [0x67, 0xe5, 0x50, 0x44, 0x10, 0xb1, 0x92, 0x6f, 0x52, 0x47, 0xbb, 0x68, 0x0e, 0x5f, 0xe0, 0xc8];
    assert_eq!(identifier_from(mixed), "67e55044-10b1-426f-9247-bb680e5fe0c8");
}

#[test]
fn an_identifier_is_what_the_uuid_crate_writes() {
    for seed in 0..=255u8 {
        let mut bytes = [0u8; 16];
        for (i, b) in bytes.iter_mut().enumerate() {
            *b = seed.wrapping_mul(31).wrapping_add((i as u8).wrapping_mul(17));
        }
        let expected = uuid::Builder::from_random_bytes(bytes).into_uuid().hyphenated().to_string();
        assert_eq!(identifier_from(bytes), expected);
    }
}

#[test]
fn a_fresh_identifier_is_a_random_one_of_version_4() {
    let a = new_identifier().unwrap();
    let b = new_identifier().unwrap();
    assert_ne!(a, b);
    for id in [a, b] {
        assert_eq!(id.len(), 36);
        let chars: Vec<char> = id.chars().collect();
        for (i, c) in chars.iter().enumerate() {
            if i == 8 || i == 13 || i == 18 || i == 23 {
                assert_eq!(*c, '-');
            } else {
                assert!(c.is_ascii_hexdigit() && !c.is_ascii_uppercase());
            }
        }
        assert_eq!(chars[14], '4');
        assert!(matches!(chars[19], '8' | '9' | 'a' | 'b'));
    }
}

#[test]
fn the_time_is_now() {
    let t = now_timestamp().unwrap();
    // long after the year 2020, and what the clock of std says
    assert!(t > 1_577_836_800);
    let std_now = std::time::UNIX_EPOCH.elapsed().unwrap().as_secs() as i64;
    assert!((std_now - t).abs() <= 2);
}
