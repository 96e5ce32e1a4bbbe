use uuidgen::clock::{gregorian_time_count, read_clock, utc_reading};
use uuidgen::error::UuidError;
use uuidgen::v1::{UuidV1, V1Context};

fn fields(version_with_time_high: u16, variant_with_clock_seq: u16) -> UuidV1 {
    UuidV1 {
        time_low: 0,
        time_mid: 0,
        version_with_time_high,
        variant_with_clock_seq,
        node: [0; 6],
    }
}

#[test]
fn version() {
    let uuid = fields(0b0001_0110_1001_1101, 0);
    assert_eq!(uuid.version(), 1);
}

#[test]
fn time_high() {
    let uuid = fields(0b0001_0110_1001_1101, 0);
    assert_eq!(uuid.time_high(), 0b0000_0110_1001_1101);
}

#[test]
fn variant() {
    let uuid = fields(0, 0b1011_0110_1001_1101);
    assert_eq!(uuid.variant(), 2);
}

#[test]
fn clock_seq() {
    let uuid = fields(0, 0b1011_0110_1001_1101);
    assert_eq!(uuid.clock_seq(), 0b0011_0110_1001_1101);
}

// # Test case
//   param     bits   value
// - time_low   32   0xC232AB00
// - time_mid   16   0x9414
// - ver         4   0x1
// - time_high  12   0x1EC
// - var         2   0b10
// - clock_seq  14   0b11, 0x3C8
// - node       48   0x9F6BDECED846
//
// final: C232AB00-9414-11EC-B3C8-9F6BDECED846
#[test]
fn new() {
    let timecount = 0x1EC_9414_C232AB00;
    let mut cx = V1Context {
        previous_timestamp: 0,
        clock_seq: 0x33C8,
        node: 0x9F_6B_DE_CE_D8_46u64,
    };

    let uuid = UuidV1::new(timecount, &mut cx);
    assert_eq!(uuid.output(), "C232AB00-9414-11EC-B3C8-9F6BDECED846")
}

#[test]
fn test_node_id_auto_correction() {
    let timecount = 0x1EC_9414_C232AB00;
    let mut cx = V1Context {
        previous_timestamp: 0,
        clock_seq: 0x33C8,
        node: 0x9E_6B_DE_CE_D8_46u64,
    };

    let uuid = UuidV1::new(timecount, &mut cx);

    assert_eq!(uuid.output(), "C232AB00-9414-11EC-B3C8-9F6BDECED846");
}

#[test]
fn generate() {
    let mut cx = V1Context::new().unwrap();
    let a = UuidV1::generate(&mut cx).unwrap();
    assert_eq!(a.version(), 1);
}

#[test]
fn new_records_timestamp_and_keeps_node() {
    let mut cx = V1Context { previous_timestamp: 5, clock_seq: 7, node: 0x1234_5678_9abc_def0 };
    let _ = UuidV1::new(10, &mut cx);
    assert_eq!(cx.previous_timestamp, 10);
    assert_eq!(cx.clock_seq, 7);
    assert_eq!(cx.node, 0x1234_5678_9abc_def0);
}

#[test]
fn clock_seq_steps_when_time_repeats() {
    let mut cx = V1Context { previous_timestamp: 0, clock_seq: 0x33C8, node: 1 };
    let a = UuidV1::new(100, &mut cx);
    let b = UuidV1::new(100, &mut cx);
    let c = UuidV1::new(99, &mut cx);
    assert_eq!(a.clock_seq(), 0x33C8);
    assert_eq!(b.clock_seq(), 0x33C9);
    assert_eq!(c.clock_seq(), 0x33CA);
    assert_ne!(a.output(), b.output());
    assert_eq!(cx.clock_seq, 0x33CA);
}

#[test]
fn clock_seq_wraps_at_sixteen_bits() {
    let mut cx = V1Context { previous_timestamp: 50, clock_seq: 0xFFFF, node: 0 };
    let u = UuidV1::new(50, &mut cx);
    assert_eq!(cx.clock_seq, 0);
    assert_eq!(u.variant_with_clock_seq, 0x8000);
    assert_eq!(u.variant(), 2);
}

#[test]
fn fields_of_new() {
    let mut cx = V1Context { previous_timestamp: 0, clock_seq: 0xFFFF, node: 0xFFFF_0000_0000_0000 };
    let u = UuidV1::new(0x0FED_CBA9_8765_4321, &mut cx);
    assert_eq!(u.time_low, 0x8765_4321);
    assert_eq!(u.time_mid, 0xCBA9);
    assert_eq!(u.version_with_time_high, 0x1FED);
    assert_eq!(u.time_high(), 0xFED);
    assert_eq!(u.variant_with_clock_seq, 0xBFFF);
    assert_eq!(u.clock_seq(), 0x3FFF);
    assert_eq!(u.node, [0x01, 0, 0, 0, 0, 0]);
    assert_eq!(u.version(), 1);
}

#[test]
fn version_wraps_for_huge_timestamps() {
    let mut cx = V1Context { previous_timestamp: 0, clock_seq: 0, node: 0 };
    let u = UuidV1::new(0xF123_0000_0000_0000, &mut cx);
    assert_eq!(u.version_with_time_high, 0x0123);
    assert_eq!(u.version(), 0);
}

#[test]
fn from_random_reads_big_endian() {
    let cx = V1Context::from_random([0x33, 0xC8], [0x00, 0x00, 0x9F, 0x6B, 0xDE, 0xCE, 0xD8, 0x46]);
    assert_eq!(cx.previous_timestamp, 0);
    assert_eq!(cx.clock_seq, 0x33C8);
    assert_eq!(cx.node, 0x9F_6B_DE_CE_D8_46);
}

#[test]
fn context_new_starts_at_zero() {
    let cx = V1Context::new().unwrap();
    assert_eq!(cx.previous_timestamp, 0);
}

#[test]
fn gregorian_count_values() {
    assert_eq!(gregorian_time_count(0, 0), Some(122_192_928_000_000_000));
    assert_eq!(gregorian_time_count(0, 999_999_999), Some(122_192_928_009_999_999));
    assert_eq!(gregorian_time_count(-12_219_292_800, 150), Some(1));
    assert_eq!(gregorian_time_count(-12_219_292_801, 0), None);
    assert_eq!(gregorian_time_count(i64::MAX, 0), None);
    // u64::MAX / 10^7 = 1_844_674_407_370 s after 1582-10-15; the rest is 9_551_615.
    let last = 1_844_674_407_370 - 12_219_292_800;
    assert_eq!(gregorian_time_count(last, 955_161_500), Some(u64::MAX));
    assert_eq!(gregorian_time_count(last, 955_161_600), None);
    assert_eq!(gregorian_time_count(last + 1, 0), None);
}

#[test]
fn generate_at_values() {
    let mut cx = V1Context { previous_timestamp: 0, clock_seq: 0x33C8, node: 0x9F_6B_DE_CE_D8_46 };
    // 1_645_557_742 s after the epoch is 2022-02-22 19:22:22 UTC.
    let u = UuidV1::generate_at(1_645_557_742, 0, &mut cx).unwrap();
    assert_eq!(cx.previous_timestamp, 138_648_505_420_000_000);
    assert_eq!(u.output(), "C232AB00-9414-11EC-B3C8-9F6BDECED846");
}

#[test]
fn generate_at_out_of_range() {
    let mut cx = V1Context { previous_timestamp: 3, clock_seq: 4, node: 5 };
    let r = UuidV1::generate_at(-20_000_000_000, 0, &mut cx);
    assert!(matches!(r, Err(UuidError::ClockOutOfRange)));
    assert_eq!(cx.previous_timestamp, 3);
    assert_eq!(cx.clock_seq, 4);
}

#[test]
fn generate_moves_state_on() {
    let mut cx = V1Context::new().unwrap();
    let a = UuidV1::generate(&mut cx).unwrap();
    let t = cx.previous_timestamp;
    assert!(t > 122_192_928_000_000_000);
    let b = UuidV1::generate(&mut cx).unwrap();
    assert!(cx.previous_timestamp >= t);
    assert_ne!(a.output(), b.output());
    assert_eq!(a.node, b.node);
    assert_eq!(a.node[0] & 1, 1);
}

#[test]
fn output_shape_v1() {
    let u = UuidV1 { time_low: 0xab, time_mid: 0xc, version_with_time_high: 0x1def, variant_with_clock_seq: 0x80, node: [0xfa, 0, 1, 2, 3, 0x0b] };
    assert_eq!(u.output(), "000000AB-000C-1DEF-0080-FA000102030B");
}

#[test]
fn later_readings_give_later_counts() {
    let a = gregorian_time_count(1_700_000_000, 999_999_999).unwrap();
    let b = gregorian_time_count(1_700_000_001, 0).unwrap();
    let c = gregorian_time_count(1_700_000_001, 50).unwrap();
    let d = gregorian_time_count(1_700_000_001, 100).unwrap();
    assert!(a < b);
    assert_eq!(b, c);
    assert!(c < d);
}

#[test]
fn successive_uuids_from_one_generator_differ() {
    let mut cx = V1Context { previous_timestamp: 0, clock_seq: 0x3FFF, node: 42 };
    let mut seen = Vec::new();
    for t in [500u64, 500, 499, 501, 501, 0] {
        seen.push(UuidV1::new(t, &mut cx).output());
    }
    for i in 1..seen.len() {
        assert_ne!(seen[i - 1], seen[i]);
    }
}

#[test]
fn read_clock_gives_time_after_epoch() {
    let (secs, nanos) = read_clock().unwrap();
    // After 2020-01-01 00:00:00 UTC.
    assert!(secs > 1_577_836_800);
    assert!(nanos < 1_000_000_000);
    let (later, _) = read_clock().unwrap();
    assert!(later >= secs);
}

#[test]
fn text_without_hyphens_is_field_bytes() {
    let u = UuidV1 { time_low: 0x0123_4567, time_mid: 0x89AB, version_with_time_high: 0x1CDE, variant_with_clock_seq: 0x8F01, node: [0x23, 0x45, 0x67, 0x89, 0xAB, 0xCD] };
    let digits: String = u.output().chars().filter(|c| *c != '-').collect();
    assert_eq!(digits, "0123456789AB1CDE8F0123456789ABCD");
}

#[test]
fn utc_reading_values() {
    assert_eq!(utc_reading(1_645_557_742, 123), Some((1_645_557_742, 123)));
    assert_eq!(utc_reading(0, 0), Some((0, 0)));
    assert_eq!(utc_reading(8_000_000_000_000, 999_999_999), Some((8_000_000_000_000, 999_999_999)));
    assert_eq!(utc_reading(u64::MAX, 0), None);
    assert_eq!(utc_reading(i64::MAX as u64, 0), None);
    assert_eq!(utc_reading(5, 2_000_000_000), None);
    // A leap second is accepted only in the last second of a minute.
    assert_eq!(utc_reading(59, 1_500_000_000), Some((59, 1_500_000_000)));
    assert_eq!(utc_reading(58, 1_500_000_000), None);
}
