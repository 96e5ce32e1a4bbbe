//! UUID version 4: 122 random bits.
//!
//! Layout (RFC 9562, 5.4):
//!
//! ```text
//!  0                   1                   2                   3
//!  0 1 2 3 4 5 6 7 8 9 0 1 2 3 4 5 6 7 8 9 0 1 2 3 4 5 6 7 8 9 0 1
//! +-+-+-+-+-+-+-+-+-+-+-+-+-+-+-+-+-+-+-+-+-+-+-+-+-+-+-+-+-+-+-+-+
//! |                           random_a                            |
//! +-+-+-+-+-+-+-+-+-+-+-+-+-+-+-+-+-+-+-+-+-+-+-+-+-+-+-+-+-+-+-+-+
//! |          random_a             |  ver  |       random_b        |
//! +-+-+-+-+-+-+-+-+-+-+-+-+-+-+-+-+-+-+-+-+-+-+-+-+-+-+-+-+-+-+-+-+
//! |var|                       random_c                            |
//! +-+-+-+-+-+-+-+-+-+-+-+-+-+-+-+-+-+-+-+-+-+-+-+-+-+-+-+-+-+-+-+-+
//! |                           random_c                            |
//! +-+-+-+-+-+-+-+-+-+-+-+-+-+-+-+-+-+-+-+-+-+-+-+-+-+-+-+-+-+-+-+-+
//! ```

use vstd::prelude::*;

use crate::buffer::{be_u16, be_u64};
use crate::error::UuidError;
use crate::buffer::u64_be_bytes;
use crate::hex::{
    be_bytes, bytes_hex, hex_digits, is_hex_char, is_uuid_text, lemma_be_bytes_len,
    lemma_be_u16_of_be_bytes, lemma_be_u64_of_u64_be_bytes, lemma_bytes_hex_append,
    lemma_bytes_hex_are_hex, lemma_bytes_hex_len, lemma_hex_digits_are_hex,
    lemma_hex_digits_of_bytes, lemma_u64_be_bytes, lemma_uuid_bytes_text_digits,
    lemma_uuid_bytes_text_injective, push_bytes_hex, push_char, push_hex_digits,
    uuid_bytes_text, without_hyphens,
};
use crate::layout::lemma_stamped_bytes;
use crate::random::fill_random;

verus! {

const RANDOM_B_MASK: u16 = 0x0FFF;

const RANDOM_C_MASK: u64 = 0x3FFF_FFFF_FFFF_FFFF;

const VERSION_4: u16 = 0x4000;

const VARIANT_RFC4122: u64 = 0x8000_0000_0000_0000;

/// A version-4 UUID. Its version field always reads 4 and its variant field
/// always reads `10` (binary).
#[derive(Debug, Clone, Copy, PartialEq, Eq, Hash)]
pub struct UuidV4 {
    random_a: [u8; 6],
    ver_with_random_b: u16,
    var_with_random_c: u64,
}

impl UuidV4 {
    #[verifier::type_invariant]
    spec fn well_formed(self) -> bool {
        &&& self.ver_with_random_b / 0x1000 == 4
        &&& self.var_with_random_c / 0x4000_0000_0000_0000 == 2
    }

    /// The first 48 random bits, as six bytes.
    pub closed spec fn random_a_bytes(self) -> Seq<u8> {
        self.random_a@
    }

    /// The version (top four bits) followed by 12 random bits.
    pub closed spec fn ver_with_random_b_bits(self) -> u16 {
        self.ver_with_random_b
    }

    /// The variant (top two bits) followed by 62 random bits.
    pub closed spec fn var_with_random_c_bits(self) -> u64 {
        self.var_with_random_c
    }

    /// The 16 bytes of the UUID in the layout's order: `random_a`, then
    /// `ver_with_random_b` and `var_with_random_c` big-endian.
    pub open spec fn bytes(self) -> Seq<u8> {
        self.random_a_bytes() + be_bytes(self.ver_with_random_b_bits() as u64, 2) + u64_be_bytes(
            self.var_with_random_c_bits(),
        )
    }

    /// The text form: `8-4-4-4-12` lower-case hexadecimal digits, made as
    /// the hex of `random_a` split after 8 digits, `ver_with_random_b` in 4
    /// digits, and `var_with_random_c` in 16 digits split after 4.
    pub open spec fn text(self) -> Seq<char> {
        let a = bytes_hex(self.random_a_bytes(), false);
        let c = hex_digits(self.var_with_random_c_bits(), 16, false);
        a.subrange(0, 8) + seq!['-'] + a.subrange(8, 12) + seq!['-'] + hex_digits(
            self.ver_with_random_b_bits() as u64,
            4,
            false,
        ) + seq!['-'] + c.subrange(0, 4) + seq!['-'] + c.subrange(4, 16)
    }

    /// `true` when this UUID is the one `replace_and_construct` makes of the
    /// 16 bytes `random`.
    pub open spec fn holds_random(self, random: Seq<u8>) -> bool {
        &&& self.random_a_bytes() == random.subrange(0, 6)
        &&& self.ver_with_random_b_bits() == (be_u16(random.subrange(6, 8)) & 0x0fffu16) | 0x4000u16
        &&& self.var_with_random_c_bits() == (be_u64(random.subrange(8, 16))
            & 0x3fff_ffff_ffff_ffffu64) | 0x8000_0000_0000_0000u64
    }

    /// A version-4 UUID made of 16 random bytes from the operating system;
    /// fails when the random source does. Which bytes came is not known, only
    /// that the result is made of some 16 bytes.
    pub fn new() -> (r: Result<UuidV4, UuidError>)
        ensures
            r is Err ==> r == Err::<UuidV4, UuidError>(UuidError::RandomSourceFailed),
            r is Ok ==> exists|random: Seq<u8>|
                random.len() == 16 && #[trigger] r->Ok_0.holds_random(random),
    {
        let mut buf: [u8; 16] = [0u8, 0u8, 0u8, 0u8, 0u8, 0u8, 0u8, 0u8, 0u8, 0u8, 0u8, 0u8, 0u8, 0u8, 0u8, 0u8];
        if fill_random(&mut buf).is_err() {
            return Err(UuidError::RandomSourceFailed);
        }
        let u = UuidV4::replace_and_construct(buf);
        let r: Result<UuidV4, UuidError> = Ok(u);
        assert(r->Ok_0.holds_random(buf@));
        r
    }

    /// The version-4 UUID for 16 random bytes: bytes 0..6 become `random_a`;
    /// bytes 6..8, read big-endian, keep their low 12 bits under the version
    /// 4; bytes 8..16, read big-endian, keep their low 62 bits under the
    /// variant `10`.
    pub fn replace_and_construct(random_val: [u8; 16]) -> (r: UuidV4)
        ensures
            r.holds_random(random_val@),
    {
        let v = random_val;
        let random_a: [u8; 6] = [v[0], v[1], v[2], v[3], v[4], v[5]];
        let random_b: u16 = ((v[6] as u16) << 8) | (v[7] as u16);
        let random_c: u64 = ((v[8] as u64) << 56) | ((v[9] as u64) << 48) | ((v[10] as u64) << 40)
            | ((v[11] as u64) << 32) | ((v[12] as u64) << 24) | ((v[13] as u64) << 16) | ((
        v[14] as u64) << 8) | (v[15] as u64);

        let ver_with_random_b = (random_b & RANDOM_B_MASK) | VERSION_4;
        let var_with_random_c = (random_c & RANDOM_C_MASK) | VARIANT_RFC4122;
        assert(ver_with_random_b / 0x1000 == 4) by (bit_vector)
            requires
                ver_with_random_b == (random_b & 0x0fffu16) | 0x4000u16,
        ;
        assert(var_with_random_c / 0x4000_0000_0000_0000 == 2) by (bit_vector)
            requires
                var_with_random_c == (random_c & 0x3fff_ffff_ffff_ffffu64)
                    | 0x8000_0000_0000_0000u64,
        ;
        assert(random_a@ =~= random_val@.subrange(0, 6));
        UuidV4 { random_a, ver_with_random_b, var_with_random_c }
    }

    /// The version number, which is always 4.
    pub fn ver(&self) -> (v: u8)
        ensures
            v == self.ver_with_random_b_bits() / 0x1000,
            v == 4,
    {
        proof {
            use_type_invariant(self);
        }
        let x = self.ver_with_random_b;
        assert(x >> 12u16 == x / 0x1000) by (bit_vector);
        (x >> 12) as u8
    }

    /// The variant, which is always `10` (binary).
    pub fn var(&self) -> (v: u8)
        ensures
            v == self.var_with_random_c_bits() / 0x4000_0000_0000_0000,
            v == 2,
    {
        proof {
            use_type_invariant(self);
        }
        let x = self.var_with_random_c;
        assert(x >> 62u64 == x / 0x4000_0000_0000_0000) by (bit_vector);
        (x >> 62) as u8
    }

    /// The text form, `8-4-4-4-12` lower-case hexadecimal digits.
    pub fn output(&self) -> (s: String)
        ensures
            s@ == self.text(),
    {
        let mut s = String::new();
        push_bytes_hex(&mut s, &self.random_a, 0, 4, false);
        push_char(&mut s, '-');
        push_bytes_hex(&mut s, &self.random_a, 4, 6, false);
        push_char(&mut s, '-');
        push_hex_digits(&mut s, self.ver_with_random_b as u64, 4, 0, 4, false);
        push_char(&mut s, '-');
        push_hex_digits(&mut s, self.var_with_random_c, 16, 0, 4, false);
        push_char(&mut s, '-');
        push_hex_digits(&mut s, self.var_with_random_c, 16, 4, 16, false);
        proof {
            let a = self.random_a@;
            lemma_bytes_hex_append(a.subrange(0, 4), a.subrange(4, 6), false);
            assert(a.subrange(0, 4) + a.subrange(4, 6) =~= a);
            lemma_bytes_hex_len(a.subrange(0, 4), false);
            lemma_bytes_hex_len(a.subrange(4, 6), false);
            let h = bytes_hex(a, false);
            assert(h.subrange(0, 8) =~= bytes_hex(a.subrange(0, 4), false));
            assert(h.subrange(8, 12) =~= bytes_hex(a.subrange(4, 6), false));
            assert(hex_digits(self.ver_with_random_b as u64, 4, false).subrange(0, 4)
                =~= hex_digits(self.ver_with_random_b as u64, 4, false));
            assert(s@ =~= self.text());
        }
        s
    }
}

/// The text of every version-4 UUID has the UUID shape, in lower case.
pub proof fn lemma_text_shape(u: UuidV4)
    ensures
        is_uuid_text(u.text(), false),
{
    let a = bytes_hex(u.random_a_bytes(), false);
    let b = hex_digits(u.ver_with_random_b_bits() as u64, 4, false);
    let c = hex_digits(u.var_with_random_c_bits(), 16, false);
    lemma_bytes_hex_are_hex(u.random_a_bytes(), false);
    lemma_hex_digits_are_hex(u.ver_with_random_b_bits() as u64, 4, false);
    lemma_hex_digits_are_hex(u.var_with_random_c_bits(), 16, false);
    let s = u.text();
    assert(u.random_a_bytes().len() == 6) by {
        assert(u.random_a@.len() == 6);
    }
    assert forall|i: int| 0 <= i < 36 implies if i == 8 || i == 13 || i == 18 || i == 23 {
        #[trigger] s[i] == '-'
    } else {
        is_hex_char(s[i], false)
    } by {
        if i < 8 {
            assert(s[i] == a[i]);
        } else if i == 8 {
        } else if i < 13 {
            assert(s[i] == a[i - 1]);
        } else if i == 13 {
        } else if i < 18 {
            assert(s[i] == b[i - 14]);
        } else if i == 18 {
        } else if i < 23 {
            assert(s[i] == c[i - 19]);
        } else if i == 23 {
        } else {
            assert(s[i] == c[i - 20]);
        }
    }
}

/// The text of a version-4 UUID is the standard text of its 16 bytes, in
/// lower case.
pub proof fn lemma_text_is_bytes_text(u: UuidV4)
    ensures
        u.text() == uuid_bytes_text(u.bytes(), false),
{
    let a = u.random_a_bytes();
    assert(a.len() == 6) by {
        assert(u.random_a@.len() == 6);
    }
    let ver = u.ver_with_random_b_bits() as u64;
    let var = u.var_with_random_c_bits();
    let b = u.bytes();
    lemma_be_bytes_len(ver, 2);
    lemma_u64_be_bytes(var);
    lemma_hex_digits_of_bytes(ver, 2, false);
    lemma_hex_digits_of_bytes(var, 8, false);
    let lo = u64_be_bytes(var);
    lemma_bytes_hex_append(a.subrange(0, 4), a.subrange(4, 6), false);
    assert(a.subrange(0, 4) + a.subrange(4, 6) =~= a);
    lemma_bytes_hex_len(a.subrange(0, 4), false);
    lemma_bytes_hex_len(a.subrange(4, 6), false);
    lemma_bytes_hex_append(lo.subrange(0, 2), lo.subrange(2, 8), false);
    assert(lo.subrange(0, 2) + lo.subrange(2, 8) =~= lo);
    lemma_bytes_hex_len(lo.subrange(0, 2), false);
    lemma_bytes_hex_len(lo.subrange(2, 8), false);
    let ha = bytes_hex(a, false);
    let hc = hex_digits(var, 16, false);
    assert(ha.subrange(0, 8) =~= bytes_hex(a.subrange(0, 4), false));
    assert(ha.subrange(8, 12) =~= bytes_hex(a.subrange(4, 6), false));
    assert(hc.subrange(0, 4) =~= bytes_hex(lo.subrange(0, 2), false));
    assert(hc.subrange(4, 16) =~= bytes_hex(lo.subrange(2, 8), false));
    assert(b.subrange(0, 4) =~= a.subrange(0, 4));
    assert(b.subrange(4, 6) =~= a.subrange(4, 6));
    assert(b.subrange(6, 8) =~= be_bytes(ver, 2));
    assert(b.subrange(8, 10) =~= lo.subrange(0, 2));
    assert(b.subrange(10, 16) =~= lo.subrange(2, 8));
}

/// The bytes of the version-4 UUID made of 16 random bytes are those bytes,
/// but for the version 4 in the high half of byte 6 and the variant `10` in
/// the top two bits of byte 8: 122 of the 128 bits are the random ones.
pub proof fn lemma_bytes_of_random(u: UuidV4, random: Seq<u8>)
    requires
        random.len() == 16,
        u.holds_random(random),
    ensures
        u.bytes().len() == 16,
        forall|i: int| 0 <= i < 16 && i != 6 && i != 8 ==> #[trigger] u.bytes()[i] == random[i],
        u.bytes()[6] == (random[6] & 0x0f) | 0x40,
        u.bytes()[8] == (random[8] & 0x3f) | 0x80,
{
    assert(u.random_a@.len() == 6);
    assert((4u8 as u16) << 12u16 == 0x4000u16 && 4u8 << 4u8 == 0x40u8) by (bit_vector);
    lemma_stamped_bytes(
        random,
        u.random_a_bytes(),
        u.ver_with_random_b_bits(),
        u.var_with_random_c_bits(),
        4,
    );
}


/// `random_a` holds six bytes, so a version-4 UUID has 16 bytes.
pub proof fn lemma_bytes_len(u: UuidV4)
    ensures
        u.random_a_bytes().len() == 6,
        u.bytes().len() == 16,
{
    assert(u.random_a@.len() == 6);
    lemma_be_bytes_len(u.ver_with_random_b_bits() as u64, 2);
}

/// The text of a version-4 UUID with the hyphens taken out is the two
/// lower-case hexadecimal digits of each of its 16 bytes, in order.
pub proof fn lemma_text_digits(u: UuidV4)
    ensures
        without_hyphens(u.text()) == bytes_hex(u.bytes(), false),
{
    lemma_bytes_len(u);
    lemma_text_is_bytes_text(u);
    lemma_uuid_bytes_text_digits(u.bytes(), false);
}

/// The text of a version-4 UUID determines its 16 bytes, and they determine
/// the UUID: two version-4 UUIDs have the same text exactly when they are
/// equal.
pub proof fn lemma_text_injective(u1: UuidV4, u2: UuidV4)
    ensures
        u1.text() == u2.text() <==> u1 == u2,
{
    if u1.text() == u2.text() {
        lemma_bytes_len(u1);
        lemma_bytes_len(u2);
        lemma_text_is_bytes_text(u1);
        lemma_text_is_bytes_text(u2);
        lemma_uuid_bytes_text_injective(u1.bytes(), u2.bytes(), false);
        let (b1, b2) = (u1.bytes(), u2.bytes());
        let v1 = u1.ver_with_random_b_bits() as u64;
        let v2 = u2.ver_with_random_b_bits() as u64;
        lemma_be_bytes_len(v1, 2);
        lemma_be_bytes_len(v2, 2);
        assert(b1.subrange(0, 6) =~= u1.random_a_bytes());
        assert(b2.subrange(0, 6) =~= u2.random_a_bytes());
        assert(b1.subrange(6, 8) =~= be_bytes(v1, 2));
        assert(b2.subrange(6, 8) =~= be_bytes(v2, 2));
        assert(b1.subrange(8, 16) =~= u64_be_bytes(u1.var_with_random_c_bits()));
        assert(b2.subrange(8, 16) =~= u64_be_bytes(u2.var_with_random_c_bits()));
        lemma_be_u16_of_be_bytes(u1.ver_with_random_b);
        lemma_be_u16_of_be_bytes(u2.ver_with_random_b);
        lemma_be_u64_of_u64_be_bytes(u1.var_with_random_c);
        lemma_be_u64_of_u64_be_bytes(u2.var_with_random_c);
        assert(u1.random_a =~= u2.random_a);
    }
}

} // verus!
