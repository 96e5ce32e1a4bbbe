use std::collections::VecDeque;

use uuidgen::v3::UuidV3;

// Namespace (DNS):  6ba7b810-9dad-11d1-80b4-00c04fd430c8
// Name:             www.example.com
// ------------------------------------------------------
// MD5:              5df418813aed051548a72f4a814cf09e
// Figure 17: UUIDv3 Example MD5
// -------------------------------------------
// field     bits value
// -------------------------------------------
// md5_high  48   0x5df418813aed
// ver        4   0x3
// md5_mid   12   0x515
// var        2   0b10
// md5_low   62   0b00, 0x8a72f4a814cf09e
// -------------------------------------------
// total     128
// -------------------------------------------
// final: 5df41881-3aed-3515-88a7-2f4a814cf09e
#[test]
fn test() {
    let val: [u8; 16] = [
        0x6b, 0xa7, 0xb8, 0x10, 0x9d, 0xad, 0x11, 0xd1, 0x80, 0xb4, 0x00, 0xc0, 0x4f, 0xd4, 0x30,
        0xc8,
    ];

    let v3 = UuidV3::new(&val, "www.example.com");

    let mut md5_high: VecDeque<_> = v3.md5_high().to_vec().into();
    md5_high.push_front(0);
    md5_high.push_front(0);
    let va: Vec<u8> = md5_high.into();

    let val = va.try_into().unwrap();
    // md5_high
    assert_eq!(u64::from_be_bytes(val), 0x5df418813aed);

    // version
    assert_eq!(v3.ver(), 0x3);

    // md5_mid
    assert_eq!(v3.md5_mid(), 0x515);

    // var
    assert_eq!(v3.var(), 0b10);

    // md5_low
    assert_eq!(v3.md5_low(), 0x8a72f4a814cf09e);

    // final output
    assert_eq!(v3.output(), "5df41881-3aed-3515-88a7-2f4a814cf09e");
}

const DNS: [u8; 16] = [
    0x6b, 0xa7, 0xb8, 0x10, 0x9d, 0xad, 0x11, 0xd1, 0x80, 0xb4, 0x00, 0xc0, 0x4f, 0xd4, 0x30, 0xc8,
];

#[test]
fn v3_is_deterministic() {
    let a = UuidV3::new(&DNS, "www.example.com");
    let b = UuidV3::new(&DNS, "www.example.com");
    assert_eq!(a, b);
    assert_eq!(a.output(), b.output());
}

#[test]
fn v3_depends_on_name_and_namespace() {
    let a = UuidV3::new(&DNS, "www.example.com");
    let b = UuidV3::new(&DNS, "www.example.org");
    let mut other = DNS;
    other[0] ^= 1;
    let c = UuidV3::new(&other, "www.example.com");
    assert_ne!(a, b);
    assert_ne!(a, c);
}

#[test]
fn v3_non_ascii_name_and_empty_name() {
    // MD5 of the 16 zero bytes followed by the UTF-8 bytes of "é" (c3 a9)
    // is computed through the same digest; only the fixed bits are asserted.
    let a = UuidV3::new(&[0; 16], "é");
    assert_eq!(a.ver(), 3);
    assert_eq!(a.var(), 2);
    let e = UuidV3::new(&[0; 16], "");
    assert_eq!(e.ver(), 3);
    assert_eq!(e.var(), 2);
    assert_ne!(a, e);
}

#[test]
fn v3_from_digest_sets_bits() {
    let digest = [0xff; 16];
    let u = UuidV3::from_digest(digest);
    assert_eq!(u.md5_high(), [0xff; 6]);
    assert_eq!(u.ver(), 3);
    assert_eq!(u.md5_mid(), 0xfff);
    assert_eq!(u.var(), 2);
    assert_eq!(u.md5_low(), 0x3fff_ffff_ffff_ffff);
    assert_eq!(u.output(), "ffffffff-ffff-3fff-bfff-ffffffffffff");

    let z = UuidV3::from_digest([0; 16]);
    assert_eq!(z.output(), "00000000-0000-3000-8000-000000000000");
}

#[test]
fn v3_digest_of_rfc_example() {
    // 5df418813aed051548a72f4a814cf09e, as in the RFC 9562 example.
    let digest = [
        0x5d, 0xf4, 0x18, 0x81, 0x3a, 0xed, 0x05, 0x15, 0x48, 0xa7, 0x2f, 0x4a, 0x81, 0x4c, 0xf0,
        0x9e,
    ];
    assert_eq!(UuidV3::from_digest(digest), UuidV3::new(&DNS, "www.example.com"));
}

#[test]
fn v3_text_is_digest_with_version_and_variant() {
    // Digest 5df418813aed051548a72f4a814cf09e: byte 6 (0x05) becomes 0x35,
    // byte 8 (0x48) becomes 0x88, all other bytes stay.
    let u = UuidV3::new(&DNS, "www.example.com");
    let hex: String = u.output().chars().filter(|c| *c != '-').collect();
    assert_eq!(hex, "5df418813aed351588a72f4a814cf09e");
}
