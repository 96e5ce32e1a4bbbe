//! UUID version 1: a 60-bit timestamp of 100-nanosecond intervals since
//! 1582-10-15, a 14-bit clock sequence and a 48-bit node ID.
//!
//! Layout (RFC 9562, 5.1):
//!
//! ```text
//!  0                   1                   2                   3
//!  0 1 2 3 4 5 6 7 8 9 0 1 2 3 4 5 6 7 8 9 0 1 2 3 4 5 6 7 8 9 0 1
//! +-+-+-+-+-+-+-+-+-+-+-+-+-+-+-+-+-+-+-+-+-+-+-+-+-+-+-+-+-+-+-+-+
//! |                           time_low                            |
//! +-+-+-+-+-+-+-+-+-+-+-+-+-+-+-+-+-+-+-+-+-+-+-+-+-+-+-+-+-+-+-+-+
//! |           time_mid            |  ver  |       time_high       |
//! +-+-+-+-+-+-+-+-+-+-+-+-+-+-+-+-+-+-+-+-+-+-+-+-+-+-+-+-+-+-+-+-+
//! |var|         clock_seq         |             node              |
//! +-+-+-+-+-+-+-+-+-+-+-+-+-+-+-+-+-+-+-+-+-+-+-+-+-+-+-+-+-+-+-+-+
//! |                              node                             |
//! +-+-+-+-+-+-+-+-+-+-+-+-+-+-+-+-+-+-+-+-+-+-+-+-+-+-+-+-+-+-+-+-+
//! ```

use vstd::prelude::*;

use crate::buffer::{
    be_u16, be_u64, bytes_mut_contents, bytes_mut_get_u16, bytes_mut_get_u32,
    bytes_mut_new, bytes_mut_put_u64, bytes_mut_split_off, u64_be_bytes,
};
use crate::clock::{gregorian_intervals, gregorian_time_count, read_clock, representable};
use crate::error::UuidError;
use crate::hex::{
    be_bytes, bytes_hex, fields_text, is_uuid_text, lemma_be_bytes_len, lemma_be_u16_of_be_bytes,
    lemma_be_u32_of_be_bytes, lemma_fields_text_is_bytes_text, lemma_fields_text_shape,
    lemma_uuid_bytes_text_digits, lemma_uuid_bytes_text_injective, push_bytes_hex, push_char,
    push_hex, uuid_bytes_text, without_hyphens,
};
use crate::random::fill_random;

verus! {

/// The state that successive version-1 UUIDs of one generator share: the
/// timestamp of the last UUID, the clock sequence and the node ID.
pub struct V1Context {
    /// The timestamp that the last UUID was made with (0 before the first).
    pub previous_timestamp: u64,
    /// The clock sequence; it steps on whenever time does not move forward.
    pub clock_seq: u16,
    /// The node ID; its low 48 bits go into the UUID.
    pub node: u64,
}

/// A version-1 UUID, field by field.
pub struct UuidV1 {
    pub time_low: u32,
    pub time_mid: u16,
    pub version_with_time_high: u16,
    pub variant_with_clock_seq: u16,
    pub node: [u8; 6],
}

/// The clock sequence after making a UUID at `time_count` from `cx`: one more
/// (wrapping at 16 bits) when `time_count` is not after the previous
/// timestamp, else unchanged.
pub open spec fn next_clock_seq(cx: V1Context, time_count: u64) -> u16 {
    if time_count <= cx.previous_timestamp {
        ((cx.clock_seq + 1) % 0x10000) as u16
    } else {
        cx.clock_seq
    }
}

/// The six node bytes for a node value: its low 48 bits, most significant
/// byte first, with the least significant bit of that first byte set (the
/// multicast bit that RFC 9562, 6.10, asks of a random node ID).
pub open spec fn node_id(node: u64) -> Seq<u8> {
    seq![
        ((node >> 40u64) as u8) | 1u8,
        (node >> 32u64) as u8,
        (node >> 24u64) as u8,
        (node >> 16u64) as u8,
        (node >> 8u64) as u8,
        node as u8,
    ]
}

impl V1Context {
    /// The state a generator starts in, given the random bytes for the clock
    /// sequence and the node ID (each read big-endian).
    pub fn from_random(clock_seq_bytes: [u8; 2], node_bytes: [u8; 8]) -> (cx: V1Context)
        ensures
            cx.previous_timestamp == 0,
            cx.clock_seq == be_u16(clock_seq_bytes@),
            cx.node == be_u64(node_bytes@),
    {
        let c = clock_seq_bytes;
        let n = node_bytes;
        V1Context {
            previous_timestamp: 0,
            clock_seq: ((c[0] as u16) << 8) | (c[1] as u16),
            node: ((n[0] as u64) << 56) | ((n[1] as u64) << 48) | ((n[2] as u64) << 40) | ((
            n[3] as u64) << 32) | ((n[4] as u64) << 24) | ((n[5] as u64) << 16) | ((n[6] as u64)
                << 8) | (n[7] as u64),
        }
    }

    /// A fresh generator state with a random clock sequence and node ID from
    /// the operating system; fails when the random source does.
    pub fn new() -> (r: Result<V1Context, UuidError>)
        ensures
            r is Err ==> r == Err::<V1Context, UuidError>(UuidError::RandomSourceFailed),
            r matches Ok(cx) ==> cx.previous_timestamp == 0,
    {
        let mut time_stamp: [u8; 2] = [0u8, 0u8];
        let mut node: [u8; 8] = [0u8, 0u8, 0u8, 0u8, 0u8, 0u8, 0u8, 0u8];
        if fill_random(&mut time_stamp).is_err() {
            return Err(UuidError::RandomSourceFailed);
        }
        if fill_random(&mut node).is_err() {
            return Err(UuidError::RandomSourceFailed);
        }
        Ok(V1Context::from_random(time_stamp, node))
    }
}

impl UuidV1 {
    /// `true` when this UUID holds `time_count`, `clock_seq` and `node` as
    /// the version-1 layout places them: the low 32 bits of the timestamp,
    /// the next 16, then the top 16 plus the version number 1 in bits 12..16
    /// (added, wrapping at 16 bits), the variant `10` above the low 14 bits of
    /// the clock sequence, and the node bytes.
    pub open spec fn holds(self, time_count: u64, clock_seq: u16, node: u64) -> bool {
        &&& self.time_low == time_count as u32
        &&& self.time_mid == (time_count >> 32u64) as u16
        &&& self.version_with_time_high == ((time_count >> 48u64) + 0x1000) % 0x10000
        &&& self.variant_with_clock_seq == (clock_seq & 0x3fffu16) | 0x8000u16
        &&& self.node@ == node_id(node)
    }

    /// The 16 bytes of the UUID in the layout's order: each field big-endian,
    /// then the node bytes.
    pub open spec fn bytes(self) -> Seq<u8> {
        be_bytes(self.time_low as u64, 4) + be_bytes(self.time_mid as u64, 2) + be_bytes(
            self.version_with_time_high as u64,
            2,
        ) + be_bytes(self.variant_with_clock_seq as u64, 2) + self.node@
    }

    /// The text form: the fields in upper-case hexadecimal.
    pub open spec fn text(self) -> Seq<char> {
        fields_text(
            self.time_low,
            self.time_mid,
            self.version_with_time_high,
            self.variant_with_clock_seq,
            self.node@,
            true,
        )
    }

    /// Makes the UUID for timestamp `time_count` (100-nanosecond intervals
    /// since 1582-10-15) and moves the generator state `cx` on.
    pub fn new(time_count: u64, cx: &mut V1Context) -> (r: UuidV1)
        ensures
            final(cx).previous_timestamp == time_count,
            final(cx).clock_seq == next_clock_seq(*old(cx), time_count),
            final(cx).node == old(cx).node,
            r.holds(time_count, final(cx).clock_seq, old(cx).node),
    {
        let mut buf = bytes_mut_new();
        bytes_mut_put_u64(&mut buf, time_count);
        assert(bytes_mut_contents(buf) =~= u64_be_bytes(time_count));

        // 0000-0000_00000000_|00000000_00000000_|00000000_00000000_00000000_00000000
        let mut time_low = bytes_mut_split_off(&mut buf, 4);
        let mut time_mid = bytes_mut_split_off(&mut buf, 2);

        let time_high_off = bytes_mut_get_u16(&mut buf);
        let version_with_time_high = time_high_off.wrapping_add(0x1000);

        if time_count <= cx.previous_timestamp {
            cx.clock_seq = cx.clock_seq.wrapping_add(1);
        }
        let clock_seq = cx.clock_seq;
        let variant_with_clock_seq = (clock_seq & 0x3FFF) | 0x8000;

        cx.previous_timestamp = time_count;

        let n = cx.node;
        let node: [u8; 6] = [
            ((n >> 40) as u8) | 1,
            (n >> 32) as u8,
            (n >> 24) as u8,
            (n >> 16) as u8,
            (n >> 8) as u8,
            n as u8,
        ];

        let low = bytes_mut_get_u32(&mut time_low);
        let mid = bytes_mut_get_u16(&mut time_mid);

        proof {
            let t = time_count;
            let hi = u64_be_bytes(t).take(4).take(2);
            let (h0, h1): (u8, u8) = (hi[0], hi[1]);
            assert(((h0 as u16) << 8u16) | (h1 as u16) == (t >> 48u64) as u16) by (bit_vector)
                requires
                    h0 == (t >> 56u64) as u8,
                    h1 == (t >> 48u64) as u8,
            ;
            assert((t >> 48u64) < 0x10000 && (t >> 48u64) as u16 == t >> 48u64) by (bit_vector);
            let lo = u64_be_bytes(t).skip(4);
            let (l0, l1, l2, l3): (u8, u8, u8, u8) = (lo[0], lo[1], lo[2], lo[3]);
            assert(((l0 as u32) << 24u32) | ((l1 as u32) << 16u32) | ((l2 as u32) << 8u32) | (
            l3 as u32) == t as u32) by (bit_vector)
                requires
                    l0 == (t >> 24u64) as u8,
                    l1 == (t >> 16u64) as u8,
                    l2 == (t >> 8u64) as u8,
                    l3 == t as u8,
            ;
            let md = u64_be_bytes(t).take(4).skip(2);
            let (m0, m1): (u8, u8) = (md[0], md[1]);
            assert(((m0 as u16) << 8u16) | (m1 as u16) == (t >> 32u64) as u16) by (bit_vector)
                requires
                    m0 == (t >> 40u64) as u8,
                    m1 == (t >> 32u64) as u8,
            ;
            assert(node@ =~= node_id(n));
        }

        UuidV1 {
            time_low: low,
            time_mid: mid,
            version_with_time_high,
            variant_with_clock_seq,
            node,
        }
    }

    /// Makes the UUID for a clock reading of `secs` seconds and `nanos`
    /// nanoseconds after the Unix epoch, moving `cx` on; fails, leaving `cx`
    /// as it was, when the reading has no `u64` timestamp.
    pub fn generate_at(secs: i64, nanos: u32, cx: &mut V1Context) -> (r: Result<UuidV1, UuidError>)
        ensures
            r is Ok <==> representable(secs, nanos),
            r is Err ==> r == Err::<UuidV1, UuidError>(UuidError::ClockOutOfRange) && *final(cx)
                == *old(cx),
            r matches Ok(u) ==> {
                let t = gregorian_intervals(secs, nanos) as u64;
                &&& final(cx).previous_timestamp == t
                &&& final(cx).clock_seq == next_clock_seq(*old(cx), t)
                &&& final(cx).node == old(cx).node
                &&& u.holds(t, final(cx).clock_seq, old(cx).node)
            },
    {
        match gregorian_time_count(secs, nanos) {
            Some(time_count) => Ok(UuidV1::new(time_count, cx)),
            None => Err(UuidError::ClockOutOfRange),
        }
    }

    /// Makes the UUID for the current time, moving `cx` on. The time is read
    /// from the system clock (see `read_clock`), so only the relation between
    /// the result and the new state is stated: the timestamp used is the one
    /// `cx` now records, and it is the count for some clock reading at or
    /// after the Unix epoch with nanoseconds below one second. Fails, leaving
    /// `cx` as it was, when the clock cannot be read as a UTC time or gives no
    /// `u64` timestamp.
    pub fn generate(cx: &mut V1Context) -> (r: Result<UuidV1, UuidError>)
        ensures
            r is Err ==> r == Err::<UuidV1, UuidError>(UuidError::ClockOutOfRange) && *final(cx)
                == *old(cx),
            r matches Ok(u) ==> {
                &&& final(cx).clock_seq == next_clock_seq(*old(cx), final(cx).previous_timestamp)
                &&& final(cx).node == old(cx).node
                &&& u.holds(final(cx).previous_timestamp, final(cx).clock_seq, old(cx).node)
            },
            r is Ok ==> exists|secs: i64, nanos: u32|
                {
                    &&& 0 <= secs
                    &&& nanos < 1_000_000_000
                    &&& representable(secs, nanos)
                    &&& final(cx).previous_timestamp == #[trigger] gregorian_intervals(secs, nanos)
                },
    {
        match read_clock() {
            Some((secs, nanos)) => {
                let r = UuidV1::generate_at(secs, nanos, cx);
                assert(r is Ok ==> {
                    &&& 0 <= secs
                    &&& nanos < 1_000_000_000
                    &&& representable(secs, nanos)
                    &&& cx.previous_timestamp == gregorian_intervals(secs, nanos)
                });
                r
            },
            None => Err(UuidError::ClockOutOfRange),
        }
    }

    /// The text form, `8-4-4-4-12` upper-case hexadecimal digits.
    pub fn output(&self) -> (s: String)
        ensures
            s@ == self.text(),
    {
        let mut s = String::new();
        push_hex(&mut s, self.time_low as u64, 8, true);
        push_char(&mut s, '-');
        push_hex(&mut s, self.time_mid as u64, 4, true);
        push_char(&mut s, '-');
        push_hex(&mut s, self.version_with_time_high as u64, 4, true);
        push_char(&mut s, '-');
        push_hex(&mut s, self.variant_with_clock_seq as u64, 4, true);
        push_char(&mut s, '-');
        push_bytes_hex(&mut s, &self.node, 0, 6, true);
        assert(self.node@.subrange(0, 6) =~= self.node@);
        assert(s@ =~= self.text());
        s
    }

    /// The version number: the top four bits of `version_with_time_high`.
    pub fn version(&self) -> (v: u8)
        ensures
            v == self.version_with_time_high / 0x1000,
    {
        let x = self.version_with_time_high;
        assert(x >> 12u16 == x / 0x1000) by (bit_vector);
        (x >> 12) as u8
    }

    /// The high 12 bits of the timestamp: the low 12 bits of
    /// `version_with_time_high`.
    pub fn time_high(&self) -> (h: u16)
        ensures
            h == self.version_with_time_high % 0x1000,
    {
        let x = self.version_with_time_high;
        let bit: u16 = 1u16 << 12u16;
        assert(bit == 0x1000) by (bit_vector)
            requires
                bit == 1u16 << 12u16,
        ;
        assert(x & 0xfffu16 == x % 0x1000) by (bit_vector);
        x & (bit - 1)
    }

    /// The variant: the top two bits of `variant_with_clock_seq`.
    pub fn variant(&self) -> (v: u8)
        ensures
            v == self.variant_with_clock_seq / 0x4000,
    {
        let x = self.variant_with_clock_seq;
        assert(x >> 14u16 == x / 0x4000) by (bit_vector);
        (x >> 14) as u8
    }

    /// The clock sequence: the low 14 bits of `variant_with_clock_seq`.
    pub fn clock_seq(&self) -> (c: u16)
        ensures
            c == self.variant_with_clock_seq % 0x4000,
    {
        let x = self.variant_with_clock_seq;
        let bit: u16 = 1u16 << 14u16;
        assert(bit == 0x4000) by (bit_vector)
            requires
                bit == 1u16 << 14u16,
        ;
        assert(x & 0x3fffu16 == x % 0x4000) by (bit_vector);
        x & (bit - 1)
    }
}

/// A UUID made with a timestamp below 2^60 (any instant before the year 5236)
/// carries version number 1 in its top four time bits.
pub proof fn lemma_version_is_one(u: UuidV1, time_count: u64, clock_seq: u16, node: u64)
    requires
        u.holds(time_count, clock_seq, node),
        time_count < 0x1000_0000_0000_0000,
    ensures
        u.version_with_time_high / 0x1000 == 1,
        u.version_with_time_high % 0x1000 == time_count >> 48u64,
{
    assert(time_count < 0x1000_0000_0000_0000 ==> (time_count >> 48u64) < 0x1000) by (bit_vector);
}

/// Every UUID made by `new` carries the variant `10` in its top two
/// `clock_seq` bits, over the low 14 bits of the clock sequence.
pub proof fn lemma_variant_is_rfc(u: UuidV1, time_count: u64, clock_seq: u16, node: u64)
    requires
        u.holds(time_count, clock_seq, node),
    ensures
        u.variant_with_clock_seq / 0x4000 == 2,
        u.variant_with_clock_seq % 0x4000 == clock_seq % 0x4000,
{
    let v = u.variant_with_clock_seq;
    assert(v / 0x4000 == 2 && v % 0x4000 == clock_seq % 0x4000) by (bit_vector)
        requires
            v == (clock_seq & 0x3fffu16) | 0x8000u16,
    ;
}

/// The time fields give back the whole timestamp: the version number is
/// added to its top 16 bits modulo 2^16, which subtracting it undoes, so
/// `time_count == ((version_with_time_high - 0x1000) mod 2^16) * 2^48 +
/// time_mid * 2^32 + time_low`.
pub proof fn lemma_timestamp_recovered(u: UuidV1, time_count: u64, clock_seq: u16, node: u64)
    requires
        u.holds(time_count, clock_seq, node),
    ensures
        time_count == ((u.version_with_time_high + 0xf000) % 0x10000) * 0x1_0000_0000_0000
            + u.time_mid * 0x1_0000_0000 + u.time_low,
{
    let t = time_count;
    let (lo, mid): (u32, u16) = (u.time_low, u.time_mid);
    let hi: u64 = t >> 48u64;
    assert(hi < 0x10000) by (bit_vector)
        requires
            hi == t >> 48u64,
    ;
    assert((((hi + 0x1000) % 0x10000) + 0xf000) % 0x10000 == hi);
    assert((hi as int) * 0x1_0000_0000_0000 + (mid as int) * 0x1_0000_0000 + (lo as int) == t)
        by (bit_vector)
        requires
            lo == t as u32,
            mid == (t >> 32u64) as u16,
            hi == t >> 48u64,
    ;
}

/// The node bytes are the low 48 bits of the node value, most significant
/// first, with the multicast bit (the least significant bit of the first
/// byte) set.
pub proof fn lemma_node_bytes(u: UuidV1, time_count: u64, clock_seq: u16, node: u64)
    requires
        u.holds(time_count, clock_seq, node),
    ensures
        u.node[0] & 1 == 1,
        u.node[0] / 2 == (#[verifier::truncate] ((node >> 40u64) as u8)) / 2,
        forall|i: int| 1 <= i < 6 ==> u.node[i] == #[verifier::truncate] ((node >> ((8 * (5 - i)) as u64)) as u8),
{
    let b: u8 = #[verifier::truncate] ((node >> 40u64) as u8);
    assert(u.node[0] == b | 1u8);
    assert((b | 1u8) & 1u8 == 1u8 && (b | 1u8) / 2 == b / 2) by (bit_vector);
    assert forall|i: int| 1 <= i < 6 implies u.node[i] == #[verifier::truncate] ((node >> ((8 * (5 - i)) as u64)) as u8) by {
        assert(u.node@[i] == node_id(node)[i]);
        if i == 1 {
            assert((8 * (5 - i)) as u64 == 32);
        } else if i == 2 {
            assert((8 * (5 - i)) as u64 == 24);
        } else if i == 3 {
            assert((8 * (5 - i)) as u64 == 16);
        } else if i == 4 {
            assert((8 * (5 - i)) as u64 == 8);
        } else {
            assert((8 * (5 - i)) as u64 == 0);
            assert(node >> 0u64 == node) by (bit_vector);
        }
    }
}

/// Two UUIDs made one after the other by the same generator differ: the
/// second is made from the state the first left behind. When the timestamp
/// repeats or goes back, the clock sequence has moved on; otherwise the time
/// fields, which determine the timestamp, differ.
pub proof fn lemma_successive_uuids_differ(
    cx: V1Context,
    u1: UuidV1,
    u2: UuidV1,
    t2: u64,
)
    requires
        u1.holds(cx.previous_timestamp, cx.clock_seq, cx.node),
        u2.holds(t2, next_clock_seq(cx, t2), cx.node),
    ensures
        !(u1.time_low == u2.time_low && u1.time_mid == u2.time_mid && u1.version_with_time_high
            == u2.version_with_time_high && u1.variant_with_clock_seq == u2.variant_with_clock_seq),
{
    let t1 = cx.previous_timestamp;
    lemma_timestamp_recovered(u1, t1, cx.clock_seq, cx.node);
    lemma_timestamp_recovered(u2, t2, next_clock_seq(cx, t2), cx.node);
    if t2 <= t1 {
        let c1 = cx.clock_seq;
        let c2 = next_clock_seq(cx, t2);
        assert(c2 == ((c1 + 1) % 0x10000) as u16);
        assert(((c1 & 0x3fffu16) | 0x8000u16) != ((c2 & 0x3fffu16) | 0x8000u16)) by (bit_vector)
            requires
                c2 == ((c1 + 1) % 0x10000) as u16,
        ;
    }
}

/// The text of every version-1 UUID has the UUID shape, in upper case.
pub proof fn lemma_text_shape(u: UuidV1)
    ensures
        is_uuid_text(u.text(), true),
{
    lemma_fields_text_shape(
        u.time_low,
        u.time_mid,
        u.version_with_time_high,
        u.variant_with_clock_seq,
        u.node@,
        true,
    );
}

/// The text of a version-1 UUID is the standard text of its 16 bytes, in
/// upper case.
pub proof fn lemma_text_is_bytes_text(u: UuidV1)
    ensures
        u.text() == uuid_bytes_text(u.bytes(), true),
{
    lemma_fields_text_is_bytes_text(
        u.time_low,
        u.time_mid,
        u.version_with_time_high,
        u.variant_with_clock_seq,
        u.node@,
        true,
    );
}


/// A version-1 UUID has 16 bytes.
pub proof fn lemma_bytes_len(u: UuidV1)
    ensures
        u.bytes().len() == 16,
{
    lemma_be_bytes_len(u.time_low as u64, 4);
    lemma_be_bytes_len(u.time_mid as u64, 2);
    lemma_be_bytes_len(u.version_with_time_high as u64, 2);
    lemma_be_bytes_len(u.variant_with_clock_seq as u64, 2);
}

/// The text of a version-1 UUID with the hyphens taken out is the two
/// upper-case hexadecimal digits of each of its 16 bytes, in order.
pub proof fn lemma_text_digits(u: UuidV1)
    ensures
        without_hyphens(u.text()) == bytes_hex(u.bytes(), true),
{
    lemma_bytes_len(u);
    lemma_text_is_bytes_text(u);
    lemma_uuid_bytes_text_digits(u.bytes(), true);
}

/// The text of a version-1 UUID determines its 16 bytes, and they determine
/// the UUID: two version-1 UUIDs have the same text exactly when they are
/// equal.
pub proof fn lemma_text_injective(u1: UuidV1, u2: UuidV1)
    ensures
        u1.text() == u2.text() <==> u1 == u2,
{
    if u1.text() == u2.text() {
        lemma_bytes_len(u1);
        lemma_bytes_len(u2);
        lemma_text_is_bytes_text(u1);
        lemma_text_is_bytes_text(u2);
        lemma_uuid_bytes_text_injective(u1.bytes(), u2.bytes(), true);
        let (b1, b2) = (u1.bytes(), u2.bytes());
        lemma_be_bytes_len(u1.time_low as u64, 4);
        lemma_be_bytes_len(u1.time_mid as u64, 2);
        lemma_be_bytes_len(u1.version_with_time_high as u64, 2);
        lemma_be_bytes_len(u1.variant_with_clock_seq as u64, 2);
        lemma_be_bytes_len(u2.time_low as u64, 4);
        lemma_be_bytes_len(u2.time_mid as u64, 2);
        lemma_be_bytes_len(u2.version_with_time_high as u64, 2);
        lemma_be_bytes_len(u2.variant_with_clock_seq as u64, 2);
        assert(b1.subrange(0, 4) =~= be_bytes(u1.time_low as u64, 4));
        assert(b2.subrange(0, 4) =~= be_bytes(u2.time_low as u64, 4));
        assert(b1.subrange(4, 6) =~= be_bytes(u1.time_mid as u64, 2));
        assert(b2.subrange(4, 6) =~= be_bytes(u2.time_mid as u64, 2));
        assert(b1.subrange(6, 8) =~= be_bytes(u1.version_with_time_high as u64, 2));
        assert(b2.subrange(6, 8) =~= be_bytes(u2.version_with_time_high as u64, 2));
        assert(b1.subrange(8, 10) =~= be_bytes(u1.variant_with_clock_seq as u64, 2));
        assert(b2.subrange(8, 10) =~= be_bytes(u2.variant_with_clock_seq as u64, 2));
        assert(b1.subrange(10, 16) =~= u1.node@);
        assert(b2.subrange(10, 16) =~= u2.node@);
        lemma_be_u32_of_be_bytes(u1.time_low);
        lemma_be_u32_of_be_bytes(u2.time_low);
        lemma_be_u16_of_be_bytes(u1.time_mid);
        lemma_be_u16_of_be_bytes(u2.time_mid);
        lemma_be_u16_of_be_bytes(u1.version_with_time_high);
        lemma_be_u16_of_be_bytes(u2.version_with_time_high);
        lemma_be_u16_of_be_bytes(u1.variant_with_clock_seq);
        lemma_be_u16_of_be_bytes(u2.variant_with_clock_seq);
        assert(u1.node =~= u2.node);
    }
}

} // verus!
