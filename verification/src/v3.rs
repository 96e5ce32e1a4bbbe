//! UUID version 3: the MD5 digest of a namespace ID and a name, with the
//! version and variant bits set.
//!
//! Layout (RFC 9562, 5.3):
//!
//! ```text
//!  0                   1                   2                   3
//!  0 1 2 3 4 5 6 7 8 9 0 1 2 3 4 5 6 7 8 9 0 1 2 3 4 5 6 7 8 9 0 1
//! +-+-+-+-+-+-+-+-+-+-+-+-+-+-+-+-+-+-+-+-+-+-+-+-+-+-+-+-+-+-+-+-+
//! |                            md5_high                           |
//! +-+-+-+-+-+-+-+-+-+-+-+-+-+-+-+-+-+-+-+-+-+-+-+-+-+-+-+-+-+-+-+-+
//! |          md5_high             |  ver  |       md5_mid         |
//! +-+-+-+-+-+-+-+-+-+-+-+-+-+-+-+-+-+-+-+-+-+-+-+-+-+-+-+-+-+-+-+-+
//! |var|                        md5_low                            |
//! +-+-+-+-+-+-+-+-+-+-+-+-+-+-+-+-+-+-+-+-+-+-+-+-+-+-+-+-+-+-+-+-+
//! |                            md5_low                            |
//! +-+-+-+-+-+-+-+-+-+-+-+-+-+-+-+-+-+-+-+-+-+-+-+-+-+-+-+-+-+-+-+-+
//! ```

use vstd::prelude::*;
use vstd::string::StringSliceAdditionalSpecFns;

use crate::buffer::{be_u16, be_u32, be_u64, slice_try_get_u16, slice_try_get_u32, u64_be_bytes};
use crate::layout::lemma_stamped_bytes;
use crate::hex::{
    be_bytes, bytes_hex, fields_text, is_uuid_text, lemma_be_bytes_len, lemma_be_bytes_of_be_u16,
    lemma_be_bytes_of_be_u32, lemma_be_u16_of_be_bytes, lemma_be_u64_of_u64_be_bytes,
    lemma_fields_text_is_bytes_text, lemma_fields_text_shape, lemma_uuid_bytes_text_digits,
    lemma_uuid_bytes_text_injective, push_bytes_hex, push_char, push_hex, uuid_bytes_text,
    without_hyphens,
};
use crate::hashing::{md5, md5_digest};

verus! {

/// The digest that a version-3 UUID is made from: MD5 of the namespace ID's
/// bytes followed by the UTF-8 bytes of the name.
pub open spec fn name_digest(namespace_id: Seq<u8>, name: Seq<char>) -> Seq<u8> {
    md5(namespace_id + vstd::utf8::encode_utf8(name))
}

/// A version-3 UUID. Its version field always reads 3 and its variant field
/// always reads `10` (binary).
#[derive(Debug, Clone, Copy, PartialEq, Eq, Hash)]
pub struct UuidV3 {
    md5_high: [u8; 6],
    ver_with_md5_mid: u16,
    var_with_md5_low: u64,
}

impl UuidV3 {
    #[verifier::type_invariant]
    spec fn well_formed(self) -> bool {
        &&& self.ver_with_md5_mid / 0x1000 == 3
        &&& self.var_with_md5_low / 0x4000_0000_0000_0000 == 2
    }

    /// The first 48 bits of the digest, as six bytes.
    pub closed spec fn md5_high_bytes(self) -> Seq<u8> {
        self.md5_high@
    }

    /// The version (top four bits) followed by 12 bits of the digest.
    pub closed spec fn ver_with_md5_mid_bits(self) -> u16 {
        self.ver_with_md5_mid
    }

    /// The variant (top two bits) followed by 62 bits of the digest.
    pub closed spec fn var_with_md5_low_bits(self) -> u64 {
        self.var_with_md5_low
    }

    /// `true` when this UUID is the one for `digest`: digest bytes 0..6 as
    /// `md5_high`, the low 12 bits of bytes 6..8 (big-endian) under the
    /// version 3, the low 62 bits of bytes 8..16 (big-endian) under the
    /// variant `10`.
    pub open spec fn holds_digest(self, digest: Seq<u8>) -> bool {
        &&& self.md5_high_bytes() == digest.subrange(0, 6)
        &&& self.ver_with_md5_mid_bits() == (be_u16(digest.subrange(6, 8)) & 0x0fffu16)
            | 0x3000u16
        &&& self.var_with_md5_low_bits() == (be_u64(digest.subrange(8, 16))
            & 0x3fff_ffff_ffff_ffffu64) | 0x8000_0000_0000_0000u64
    }

    /// The 16 bytes of the UUID in the layout's order: `md5_high`, then
    /// `ver_with_md5_mid` and `var_with_md5_low` big-endian.
    pub open spec fn bytes(self) -> Seq<u8> {
        self.md5_high_bytes() + be_bytes(self.ver_with_md5_mid_bits() as u64, 2) + u64_be_bytes(
            self.var_with_md5_low_bits(),
        )
    }

    /// The text form: `8-4-4-4-12` lower-case hexadecimal digits of the
    /// first four bytes, the next two, `ver_with_md5_mid`, then the
    /// big-endian bytes of `var_with_md5_low`, two and six.
    pub open spec fn text(self) -> Seq<char> {
        let high = self.md5_high_bytes();
        let low = u64_be_bytes(self.var_with_md5_low_bits());
        fields_text(
            be_u32(high.subrange(0, 4)),
            be_u16(high.subrange(4, 6)),
            self.ver_with_md5_mid_bits(),
            be_u16(low.subrange(0, 2)),
            low.subrange(2, 8),
            false,
        )
    }

    /// The version-3 UUID for the name `name` in the namespace with ID
    /// `namespace_id`.
    pub fn new(namespace_id: &[u8; 16], name: &str) -> (r: UuidV3)
        ensures
            r.holds_digest(name_digest(namespace_id@, name@)),
            r.holds_digest(md5(namespace_id@ + name.spec_bytes())),
    {
        let mut data: Vec<u8> = Vec::new();
        let mut i: usize = 0;
        while i < 16
            invariant
                i <= 16,
                data@ == namespace_id@.take(i as int),
            decreases 16 - i,
        {
            data.push(namespace_id[i]);
            assert(namespace_id@.take((i + 1) as int) =~= namespace_id@.take(i as int).push(
                namespace_id@[i as int],
            ));
            i = i + 1;
        }
        let name_bytes = name.as_bytes();
        let mut j: usize = 0;
        while j < name_bytes.len()
            invariant
                j <= name_bytes@.len(),
                data@ == namespace_id@ + name_bytes@.take(j as int),
            decreases name_bytes@.len() - j,
        {
            data.push(name_bytes[j]);
            assert(name_bytes@.take((j + 1) as int) =~= name_bytes@.take(j as int).push(
                name_bytes@[j as int],
            ));
            j = j + 1;
        }
        assert(name_bytes@.take(name_bytes@.len() as int) =~= name_bytes@);
        let hash = md5_digest(data.as_slice());
        UuidV3::from_digest(hash)
    }

    /// The version-3 UUID for an MD5 digest.
    pub fn from_digest(hash: [u8; 16]) -> (r: UuidV3)
        ensures
            r.holds_digest(hash@),
    {
        let h = hash;
        let md5_high: [u8; 6] = [h[0], h[1], h[2], h[3], h[4], h[5]];
        let md5_mid: u16 = ((h[6] as u16) << 8) | (h[7] as u16);
        let md5_low: u64 = ((h[8] as u64) << 56) | ((h[9] as u64) << 48) | ((h[10] as u64) << 40)
            | ((h[11] as u64) << 32) | ((h[12] as u64) << 24) | ((h[13] as u64) << 16) | ((
        h[14] as u64) << 8) | (h[15] as u64);

        let ver_with_md5_mid = (md5_mid & 0x0FFF) | 0x3000;
        let var_with_md5_low = (md5_low & 0x3FFF_FFFF_FFFF_FFFF) | 0x8000_0000_0000_0000;
        assert(ver_with_md5_mid / 0x1000 == 3) by (bit_vector)
            requires
                ver_with_md5_mid == (md5_mid & 0x0fffu16) | 0x3000u16,
        ;
        assert(var_with_md5_low / 0x4000_0000_0000_0000 == 2) by (bit_vector)
            requires
                var_with_md5_low == (md5_low & 0x3fff_ffff_ffff_ffffu64) | 0x8000_0000_0000_0000u64,
        ;
        assert(md5_high@ =~= hash@.subrange(0, 6));
        UuidV3 { md5_high, ver_with_md5_mid, var_with_md5_low }
    }

    /// The six bytes of `md5_high`.
    pub fn md5_high(&self) -> (b: [u8; 6])
        ensures
            b@ == self.md5_high_bytes(),
    {
        self.md5_high
    }

    /// The version number, which is always 3.
    pub fn ver(&self) -> (v: u8)
        ensures
            v == self.ver_with_md5_mid_bits() / 0x1000,
            v == 3,
    {
        proof {
            use_type_invariant(self);
        }
        let x = self.ver_with_md5_mid;
        assert(x >> 12u16 == x / 0x1000) by (bit_vector);
        (x >> 12) as u8
    }

    /// The 12 digest bits below the version.
    pub fn md5_mid(&self) -> (m: u16)
        ensures
            m == self.ver_with_md5_mid_bits() % 0x1000,
    {
        let x = self.ver_with_md5_mid;
        let bit: u16 = 1u16 << 12u16;
        assert(bit == 0x1000) by (bit_vector)
            requires
                bit == 1u16 << 12u16,
        ;
        assert(x & 0xfffu16 == x % 0x1000) by (bit_vector);
        x & (bit - 1)
    }

    /// The variant, which is always `10` (binary).
    pub fn var(&self) -> (v: u8)
        ensures
            v == self.var_with_md5_low_bits() / 0x4000_0000_0000_0000,
            v == 2,
    {
        proof {
            use_type_invariant(self);
        }
        let x = self.var_with_md5_low;
        assert(x >> 62u64 == x / 0x4000_0000_0000_0000) by (bit_vector);
        (x >> 62) as u8
    }

    /// The 62 digest bits below the variant.
    pub fn md5_low(&self) -> (m: u64)
        ensures
            m == self.var_with_md5_low_bits() % 0x4000_0000_0000_0000,
    {
        let x = self.var_with_md5_low;
        let bit: u64 = 1u64 << 62u64;
        assert(bit == 0x4000_0000_0000_0000) by (bit_vector)
            requires
                bit == 1u64 << 62u64,
        ;
        assert(x & 0x3fff_ffff_ffff_ffffu64 == x % 0x4000_0000_0000_0000) by (bit_vector);
        x & (bit - 1)
    }

    /// The text form, `8-4-4-4-12` lower-case hexadecimal digits.
    pub fn output(&self) -> (s: String)
        ensures
            s@ == self.text(),
    {
        let high = self.md5_high.as_slice();
        let a = slice_try_get_u32(vstd::slice::slice_subrange(high, 0, 4)).unwrap();
        let b = slice_try_get_u16(vstd::slice::slice_subrange(high, 4, 6)).unwrap();
        let c = self.ver_with_md5_mid;

        let x = self.var_with_md5_low;
        let byte: [u8; 8] = [
            (x >> 56) as u8,
            (x >> 48) as u8,
            (x >> 40) as u8,
            (x >> 32) as u8,
            (x >> 24) as u8,
            (x >> 16) as u8,
            (x >> 8) as u8,
            x as u8,
        ];
        let d = slice_try_get_u16(vstd::slice::slice_subrange(byte.as_slice(), 0, 2)).unwrap();

        let mut s = String::new();
        push_hex(&mut s, a as u64, 8, false);
        push_char(&mut s, '-');
        push_hex(&mut s, b as u64, 4, false);
        push_char(&mut s, '-');
        push_hex(&mut s, c as u64, 4, false);
        push_char(&mut s, '-');
        push_hex(&mut s, d as u64, 4, false);
        push_char(&mut s, '-');
        push_bytes_hex(&mut s, &byte, 2, 8, false);
        proof {
            assert(byte@ =~= u64_be_bytes(x));
            assert(s@ =~= self.text());
        }
        s
    }
}

/// A version-3 UUID is determined by its digest, and so by the namespace ID
/// and the name: two UUIDs for the same digest are equal.
pub proof fn lemma_same_digest_same_uuid(a: UuidV3, b: UuidV3, digest: Seq<u8>)
    requires
        a.holds_digest(digest),
        b.holds_digest(digest),
    ensures
        a == b,
{
    assert(a.md5_high =~= b.md5_high);
}

/// The text of every version-3 UUID has the UUID shape, in lower case.
pub proof fn lemma_text_shape(u: UuidV3)
    ensures
        is_uuid_text(u.text(), false),
{
    let high = u.md5_high_bytes();
    let low = u64_be_bytes(u.var_with_md5_low_bits());
    lemma_fields_text_shape(
        be_u32(high.subrange(0, 4)),
        be_u16(high.subrange(4, 6)),
        u.ver_with_md5_mid_bits(),
        be_u16(low.subrange(0, 2)),
        low.subrange(2, 8),
        false,
    );
}

/// The text of a version-3 UUID is the standard text of its 16 bytes, in
/// lower case.
pub proof fn lemma_text_is_bytes_text(u: UuidV3)
    ensures
        u.text() == uuid_bytes_text(u.bytes(), false),
{
    let high = u.md5_high_bytes();
    assert(high.len() == 6) by {
        assert(u.md5_high@.len() == 6);
    }
    let c = u.ver_with_md5_mid_bits();
    let low = u64_be_bytes(u.var_with_md5_low_bits());
    let a = be_u32(high.subrange(0, 4));
    let b = be_u16(high.subrange(4, 6));
    let d = be_u16(low.subrange(0, 2));
    lemma_fields_text_is_bytes_text(a, b, c, d, low.subrange(2, 8), false);
    lemma_be_bytes_of_be_u32(high.subrange(0, 4));
    lemma_be_bytes_of_be_u16(high.subrange(4, 6));
    lemma_be_bytes_of_be_u16(low.subrange(0, 2));
    assert(be_bytes(a as u64, 4) + be_bytes(b as u64, 2) + be_bytes(c as u64, 2) + be_bytes(
        d as u64,
        2,
    ) + low.subrange(2, 8) =~= u.bytes());
}

/// The bytes of the version-3 UUID for a digest are the digest's bytes, but
/// for the version 3 in the high half of byte 6 and the variant `10` in the
/// top two bits of byte 8.
pub proof fn lemma_bytes_of_digest(u: UuidV3, digest: Seq<u8>)
    requires
        digest.len() == 16,
        u.holds_digest(digest),
    ensures
        u.bytes().len() == 16,
        forall|i: int| 0 <= i < 16 && i != 6 && i != 8 ==> #[trigger] u.bytes()[i] == digest[i],
        u.bytes()[6] == (digest[6] & 0x0f) | 0x30,
        u.bytes()[8] == (digest[8] & 0x3f) | 0x80,
{
    assert(u.md5_high@.len() == 6);
    assert((3u8 as u16) << 12u16 == 0x3000u16 && 3u8 << 4u8 == 0x30u8) by (bit_vector);
    lemma_stamped_bytes(
        digest,
        u.md5_high_bytes(),
        u.ver_with_md5_mid_bits(),
        u.var_with_md5_low_bits(),
        3,
    );
}


/// `md5_high` holds six bytes, so a version-3 UUID has 16 bytes.
pub proof fn lemma_bytes_len(u: UuidV3)
    ensures
        u.md5_high_bytes().len() == 6,
        u.bytes().len() == 16,
{
    assert(u.md5_high@.len() == 6);
    lemma_be_bytes_len(u.ver_with_md5_mid_bits() as u64, 2);
}

/// The text of a version-3 UUID with the hyphens taken out is the two
/// lower-case hexadecimal digits of each of its 16 bytes, in order.
pub proof fn lemma_text_digits(u: UuidV3)
    ensures
        without_hyphens(u.text()) == bytes_hex(u.bytes(), false),
{
    lemma_bytes_len(u);
    lemma_text_is_bytes_text(u);
    lemma_uuid_bytes_text_digits(u.bytes(), false);
}

/// The text of a version-3 UUID determines its 16 bytes, and they determine
/// the UUID: two version-3 UUIDs have the same text exactly when they are
/// equal.
pub proof fn lemma_text_injective(u1: UuidV3, u2: UuidV3)
    ensures
        u1.text() == u2.text() <==> u1 == u2,
{
    if u1.text() == u2.text() {
        lemma_bytes_len(u1);
        lemma_bytes_len(u2);
        lemma_text_is_bytes_text(u1);
        lemma_text_is_bytes_text(u2);
        lemma_uuid_bytes_text_injective(u1.bytes(), u2.bytes(), false);
        let (b1, b2) = (u1.bytes(), u2.bytes());
        let v1 = u1.ver_with_md5_mid_bits() as u64;
        let v2 = u2.ver_with_md5_mid_bits() as u64;
        assert(b1.subrange(0, 6) =~= u1.md5_high_bytes());
        assert(b2.subrange(0, 6) =~= u2.md5_high_bytes());
        assert(b1.subrange(6, 8) =~= be_bytes(v1, 2));
        assert(b2.subrange(6, 8) =~= be_bytes(v2, 2));
        assert(b1.subrange(8, 16) =~= u64_be_bytes(u1.var_with_md5_low_bits()));
        assert(b2.subrange(8, 16) =~= u64_be_bytes(u2.var_with_md5_low_bits()));
        lemma_be_u16_of_be_bytes(u1.ver_with_md5_mid);
        lemma_be_u16_of_be_bytes(u2.ver_with_md5_mid);
        lemma_be_u64_of_u64_be_bytes(u1.var_with_md5_low);
        lemma_be_u64_of_u64_be_bytes(u2.var_with_md5_low);
        assert(u1.md5_high =~= u2.md5_high);
    }
}


/// The digest a version-3 UUID is made from is MD5 of exactly
/// `16 + name.len()` bytes: the 16 bytes of the namespace ID, then every
/// UTF-8 byte of the name (what `str::as_bytes` gives), unchanged and in
/// order. No name byte is dropped, added or altered.
pub proof fn lemma_name_digest_input(namespace_id: Seq<u8>, name: &str)
    requires
        namespace_id.len() == 16,
    ensures
        exists|input: Seq<u8>|
            {
                &&& name_digest(namespace_id, name@) == #[trigger] md5(input)
                &&& input.len() == 16 + name.spec_bytes().len()
                &&& input.subrange(0, 16) == namespace_id
                &&& forall|i: int|
                    0 <= i < name.spec_bytes().len() ==> input[16 + i] == name.spec_bytes()[i]
            },
{
    let input = namespace_id + name.spec_bytes();
    assert(input.subrange(0, 16) =~= namespace_id);
    assert(name_digest(namespace_id, name@) == md5(input));
}

} // verus!
