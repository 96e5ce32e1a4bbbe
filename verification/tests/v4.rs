use uuidgen::v4::UuidV4;

// Random hex: 919108f752d133205bacf847db4148a8
// -------------------------------------------
// field     bits value
// -------------------------------------------
// random_a  48   0x919108f752d1
// ver        4   0x4
// random_b  12   0x320
// var        2   0b10
// random_c  62   0b01, 0xbacf847db4148a8
// -------------------------------------------
// total     128
// -------------------------------------------
// final: 919108f7-52d1-4320-9bac-f847db4148a8
#[test]
fn test_v4() {
    let random_val = [
        0x91, 0x91, 0x08, 0xf7, 0x52, 0xd1, 0x33, 0x20, 0x5b, 0xac, 0xf8, 0x47, 0xdb, 0x41, 0x48,
        0xa8,
    ];

    let val = UuidV4::replace_and_construct(random_val);
    assert_eq!(val.output(), "919108f7-52d1-4320-9bac-f847db4148a8");
}

#[test]
fn v4_fixed_bits() {
    let ones = UuidV4::replace_and_construct([0xff; 16]);
    assert_eq!(ones.output(), "ffffffff-ffff-4fff-bfff-ffffffffffff");
    assert_eq!(ones.ver(), 4);
    assert_eq!(ones.var(), 2);
    let zeros = UuidV4::replace_and_construct([0; 16]);
    assert_eq!(zeros.output(), "00000000-0000-4000-8000-000000000000");
    assert_eq!(zeros.ver(), 4);
    assert_eq!(zeros.var(), 2);
}

#[test]
fn v4_new_is_random_and_well_formed() {
    let a = UuidV4::new().unwrap();
    let b = UuidV4::new().unwrap();
    assert_eq!(a.ver(), 4);
    assert_eq!(a.var(), 2);
    assert_ne!(a, b);
    let text = a.output();
    assert_eq!(text.len(), 36);
    for (i, c) in text.chars().enumerate() {
        if i == 8 || i == 13 || i == 18 || i == 23 {
            assert_eq!(c, '-');
        } else {
            assert!(c.is_ascii_hexdigit() && !c.is_ascii_uppercase());
        }
    }
}

#[test]
fn v4_text_is_random_bytes_with_version_and_variant() {
    let random_val = [
        0x00, 0x11, 0x22, 0x33, 0x44, 0x55, 0x66, 0x77, 0x88, 0x99, 0xaa, 0xbb, 0xcc, 0xdd, 0xee,
        0xff,
    ];
    let u = UuidV4::replace_and_construct(random_val);
    assert_eq!(u.output(), "00112233-4455-4677-8899-aabbccddeeff");
}
