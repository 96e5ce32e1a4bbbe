//! Fixed-width hexadecimal rendering of integers into a `String`.

use vstd::prelude::*;

use crate::buffer::{be_u16, be_u32, be_u64, u64_be_bytes};

verus! {

/// The hexadecimal digit for a nibble `d` (`d < 16`), in upper or lower case.
pub open spec fn hex_char(d: u64, upper: bool) -> char {
    if d < 10 {
        (48 + d) as char
    } else if upper {
        (55 + d) as char
    } else {
        (87 + d) as char
    }
}

/// The nibble of `value` that the `j`-th digit (counted from the left) of a
/// `width`-digit rendering shows.
pub open spec fn nibble(value: u64, width: nat, j: int) -> u64 {
    (value >> ((4 * (width - 1 - j)) as u64)) & 0xf
}

/// `value` written with exactly `width` hexadecimal digits, most significant
/// first (as `format!("{:0width$x}")` writes a value that fits in `width` digits).
pub open spec fn hex_digits(value: u64, width: nat, upper: bool) -> Seq<char> {
    Seq::new(width, |j: int| hex_char(nibble(value, width, j), upper))
}

/// Each byte of `bytes` written as two hexadecimal digits, in order.
pub open spec fn bytes_hex(bytes: Seq<u8>, upper: bool) -> Seq<char>
    decreases bytes.len(),
{
    if bytes.len() == 0 {
        Seq::empty()
    } else {
        bytes_hex(bytes.drop_last(), upper) + hex_digits(bytes.last() as u64, 2, upper)
    }
}

/// The text of a UUID whose fields are given as the four integers and the
/// node bytes, in the RFC 9562 form `8-4-4-4-12` hexadecimal digits.
pub open spec fn fields_text(
    a: u32,
    b: u16,
    c: u16,
    d: u16,
    node: Seq<u8>,
    upper: bool,
) -> Seq<char> {
    hex_digits(a as u64, 8, upper) + seq!['-'] + hex_digits(b as u64, 4, upper) + seq!['-']
        + hex_digits(c as u64, 4, upper) + seq!['-'] + hex_digits(d as u64, 4, upper) + seq!['-']
        + bytes_hex(node, upper)
}

/// `true` when `c` is one of the characters `hex_char` produces in the given case.
pub open spec fn is_hex_char(c: char, upper: bool) -> bool {
    ('0' <= c <= '9') || (upper && 'A' <= c <= 'F') || (!upper && 'a' <= c <= 'f')
}

/// Appends `c` to `s`.
/// Calls `String::push`, which (as std documents) appends the character at the end.
#[verifier::external_body]
pub(crate) fn push_char(s: &mut String, c: char)
    ensures
        final(s)@ == old(s)@.push(c),
{
    s.push(c);
}

/// The digit character for a nibble.
fn digit_char(d: u64, upper: bool) -> (c: char)
    requires
        d < 16,
    ensures
        c == hex_char(d, upper),
{
    let b: u8 = d as u8;
    if b < 10 {
        (48u8 + b) as char
    } else if upper {
        (55u8 + b) as char
    } else {
        (87u8 + b) as char
    }
}

/// Appends the digits `lo..hi` of the `width`-digit rendering of `value` to `s`.
pub fn push_hex_digits(s: &mut String, value: u64, width: usize, lo: usize, hi: usize, upper: bool)
    requires
        lo <= hi <= width <= 16,
    ensures
        final(s)@ == old(s)@ + hex_digits(value, width as nat, upper).subrange(lo as int, hi as int),
{
    let ghost start = old(s)@;
    let ghost digits = hex_digits(value, width as nat, upper);
    let mut j: usize = lo;
    while j < hi
        invariant
            lo <= j <= hi <= width <= 16,
            digits == hex_digits(value, width as nat, upper),
            s@ == start + digits.subrange(lo as int, j as int),
        decreases hi - j,
    {
        let shift: u64 = (4 * (width - 1 - j)) as u64;
        let d: u64 = (value >> shift) & 0xf;
        assert(d < 16) by (bit_vector)
            requires
                d == (value >> shift) & 0xf,
        ;
        let c = digit_char(d, upper);
        push_char(s, c);
        assert(digits.subrange(lo as int, (j + 1) as int) =~= digits.subrange(lo as int, j as int).push(c));
        j = j + 1;
    }
}

/// Appends the `width`-digit rendering of `value` to `s`.
pub fn push_hex(s: &mut String, value: u64, width: usize, upper: bool)
    requires
        width <= 16,
    ensures
        final(s)@ == old(s)@ + hex_digits(value, width as nat, upper),
{
    push_hex_digits(s, value, width, 0, width, upper);
    assert(hex_digits(value, width as nat, upper).subrange(0, width as int) =~= hex_digits(value, width as nat, upper));
}

/// `bytes_hex` writes two digits per byte.
pub proof fn lemma_bytes_hex_len(bytes: Seq<u8>, upper: bool)
    ensures
        bytes_hex(bytes, upper).len() == 2 * bytes.len(),
    decreases bytes.len(),
{
    if bytes.len() > 0 {
        lemma_bytes_hex_len(bytes.drop_last(), upper);
    }
}

/// The digits of two byte strings one after the other are the digits of the
/// bytes one after the other.
pub proof fn lemma_bytes_hex_append(x: Seq<u8>, y: Seq<u8>, upper: bool)
    ensures
        bytes_hex(x + y, upper) == bytes_hex(x, upper) + bytes_hex(y, upper),
    decreases y.len(),
{
    if y.len() == 0 {
        assert(x + y =~= x);
        assert(bytes_hex(x, upper) + bytes_hex(y, upper) =~= bytes_hex(x, upper));
    } else {
        lemma_bytes_hex_append(x, y.drop_last(), upper);
        assert((x + y).drop_last() =~= x + y.drop_last());
        assert((x + y).last() == y.last());
        assert(bytes_hex(x + y, upper) =~= bytes_hex(x, upper) + bytes_hex(y, upper));
    }
}

/// Appends the bytes `lo..hi` of `bytes`, each as two hexadecimal digits, to `s`.
pub fn push_bytes_hex(s: &mut String, bytes: &[u8], lo: usize, hi: usize, upper: bool)
    requires
        lo <= hi <= bytes@.len(),
    ensures
        final(s)@ == old(s)@ + bytes_hex(bytes@.subrange(lo as int, hi as int), upper),
{
    let ghost start = old(s)@;
    let mut i: usize = lo;
    assert(bytes@.subrange(lo as int, lo as int) =~= Seq::<u8>::empty());
    while i < hi
        invariant
            lo <= i <= hi <= bytes@.len(),
            s@ == start + bytes_hex(bytes@.subrange(lo as int, i as int), upper),
        decreases hi - i,
    {
        push_hex(s, bytes[i] as u64, 2, upper);
        assert(bytes@.subrange(lo as int, (i + 1) as int).drop_last() =~= bytes@.subrange(
            lo as int,
            i as int,
        ));
        assert(s@ =~= start + bytes_hex(bytes@.subrange(lo as int, (i + 1) as int), upper));
        i = i + 1;
    }
}

/// `true` when `s` has the shape of a UUID's text: 36 characters, hyphens at
/// positions 8, 13, 18 and 23, and hexadecimal digits of the given case
/// everywhere else.
pub open spec fn is_uuid_text(s: Seq<char>, upper: bool) -> bool {
    &&& s.len() == 36
    &&& forall|i: int|
        0 <= i < 36 ==> if i == 8 || i == 13 || i == 18 || i == 23 {
            #[trigger] s[i] == '-'
        } else {
            is_hex_char(s[i], upper)
        }
}

/// Every digit `hex_digits` writes is a hexadecimal digit of the chosen case.
pub proof fn lemma_hex_digits_are_hex(value: u64, width: nat, upper: bool)
    ensures
        forall|j: int|
            0 <= j < width ==> is_hex_char(#[trigger] hex_digits(value, width, upper)[j], upper),
{
    assert forall|j: int| 0 <= j < width implies is_hex_char(
        #[trigger] hex_digits(value, width, upper)[j],
        upper,
    ) by {
        let d = nibble(value, width, j);
        let x = value >> ((4 * (width - 1 - j)) as u64);
        assert(x & 0xf < 16) by (bit_vector);
    }
}

/// Every character `bytes_hex` writes is a hexadecimal digit of the chosen case.
pub proof fn lemma_bytes_hex_are_hex(bytes: Seq<u8>, upper: bool)
    ensures
        bytes_hex(bytes, upper).len() == 2 * bytes.len(),
        forall|j: int|
            0 <= j < 2 * bytes.len() ==> is_hex_char(#[trigger] bytes_hex(bytes, upper)[j], upper),
    decreases bytes.len(),
{
    lemma_bytes_hex_len(bytes, upper);
    if bytes.len() > 0 {
        lemma_bytes_hex_are_hex(bytes.drop_last(), upper);
        lemma_hex_digits_are_hex(bytes.last() as u64, 2, upper);
        let prefix = bytes_hex(bytes.drop_last(), upper);
        let last = hex_digits(bytes.last() as u64, 2, upper);
        assert forall|j: int| 0 <= j < 2 * bytes.len() implies is_hex_char(
            #[trigger] bytes_hex(bytes, upper)[j],
            upper,
        ) by {
            if j < prefix.len() {
                assert(bytes_hex(bytes, upper)[j] == prefix[j]);
            } else {
                assert(bytes_hex(bytes, upper)[j] == last[j - prefix.len()]);
            }
        }
    }
}

/// The text `fields_text` writes for any field values and six node bytes has
/// the shape of a UUID's text.
pub proof fn lemma_fields_text_shape(
    a: u32,
    b: u16,
    c: u16,
    d: u16,
    node: Seq<u8>,
    upper: bool,
)
    requires
        node.len() == 6,
    ensures
        is_uuid_text(fields_text(a, b, c, d, node, upper), upper),
{
    let ha = hex_digits(a as u64, 8, upper);
    let hb = hex_digits(b as u64, 4, upper);
    let hc = hex_digits(c as u64, 4, upper);
    let hd = hex_digits(d as u64, 4, upper);
    let he = bytes_hex(node, upper);
    lemma_hex_digits_are_hex(a as u64, 8, upper);
    lemma_hex_digits_are_hex(b as u64, 4, upper);
    lemma_hex_digits_are_hex(c as u64, 4, upper);
    lemma_hex_digits_are_hex(d as u64, 4, upper);
    lemma_bytes_hex_are_hex(node, upper);
    let s = fields_text(a, b, c, d, node, upper);
    let dash = seq!['-'];
    assert(s =~= ha + dash + hb + dash + hc + dash + hd + dash + he);
    assert forall|i: int| 0 <= i < 36 implies if i == 8 || i == 13 || i == 18 || i == 23 {
        #[trigger] s[i] == '-'
    } else {
        is_hex_char(s[i], upper)
    } by {
        if i < 8 {
            assert(s[i] == ha[i]);
        } else if i == 8 {
        } else if i < 13 {
            assert(s[i] == hb[i - 9]);
        } else if i == 13 {
        } else if i < 18 {
            assert(s[i] == hc[i - 14]);
        } else if i == 18 {
        } else if i < 23 {
            assert(s[i] == hd[i - 19]);
        } else if i == 23 {
        } else {
            assert(s[i] == he[i - 24]);
        }
    }
}

/// The `n` low-order bytes of `x`, most significant first.
pub open spec fn be_bytes(x: u64, n: nat) -> Seq<u8>
    decreases n,
{
    if n == 0 {
        Seq::empty()
    } else {
        be_bytes(x >> 8u64, (n - 1) as nat).push(x as u8)
    }
}

/// `be_bytes` gives `n` bytes.
pub proof fn lemma_be_bytes_len(x: u64, n: nat)
    ensures
        be_bytes(x, n).len() == n,
    decreases n,
{
    if n > 0 {
        lemma_be_bytes_len(x >> 8u64, (n - 1) as nat);
    }
}

/// The standard text of 16 bytes: each byte as two hexadecimal digits, in
/// groups of 4, 2, 2, 2 and 6 bytes joined by hyphens.
pub open spec fn uuid_bytes_text(bytes: Seq<u8>, upper: bool) -> Seq<char> {
    bytes_hex(bytes.subrange(0, 4), upper) + seq!['-'] + bytes_hex(bytes.subrange(4, 6), upper)
        + seq!['-'] + bytes_hex(bytes.subrange(6, 8), upper) + seq!['-'] + bytes_hex(
        bytes.subrange(8, 10),
        upper,
    ) + seq!['-'] + bytes_hex(bytes.subrange(10, 16), upper)
}

/// The text that `fields_text` writes is the standard text of the fields'
/// big-endian bytes followed by the node bytes.
pub proof fn lemma_fields_text_is_bytes_text(
    a: u32,
    b: u16,
    c: u16,
    d: u16,
    node: Seq<u8>,
    upper: bool,
)
    requires
        node.len() == 6,
    ensures
        fields_text(a, b, c, d, node, upper) == uuid_bytes_text(
            be_bytes(a as u64, 4) + be_bytes(b as u64, 2) + be_bytes(c as u64, 2) + be_bytes(
                d as u64,
                2,
            ) + node,
            upper,
        ),
{
    let ba = be_bytes(a as u64, 4);
    let bb = be_bytes(b as u64, 2);
    let bc = be_bytes(c as u64, 2);
    let bd = be_bytes(d as u64, 2);
    lemma_be_bytes_len(a as u64, 4);
    lemma_be_bytes_len(b as u64, 2);
    lemma_be_bytes_len(c as u64, 2);
    lemma_be_bytes_len(d as u64, 2);
    lemma_hex_digits_of_bytes(a as u64, 4, upper);
    lemma_hex_digits_of_bytes(b as u64, 2, upper);
    lemma_hex_digits_of_bytes(c as u64, 2, upper);
    lemma_hex_digits_of_bytes(d as u64, 2, upper);
    let all = ba + bb + bc + bd + node;
    assert(all.subrange(0, 4) =~= ba);
    assert(all.subrange(4, 6) =~= bb);
    assert(all.subrange(6, 8) =~= bc);
    assert(all.subrange(8, 10) =~= bd);
    assert(all.subrange(10, 16) =~= node);
}

/// Writing the low `n` bytes of `x` in `2 n` hexadecimal digits gives the
/// digits of those bytes, most significant first.
pub proof fn lemma_hex_digits_of_bytes(x: u64, n: nat, upper: bool)
    requires
        n <= 8,
    ensures
        hex_digits(x, 2 * n, upper) == bytes_hex(be_bytes(x, n), upper),
    decreases n,
{
    if n == 0 {
        assert(hex_digits(x, 0, upper) =~= bytes_hex(be_bytes(x, 0), upper));
    } else {
        let y: u64 = x >> 8u64;
        lemma_hex_digits_of_bytes(y, (n - 1) as nat, upper);
        let b = be_bytes(x, n);
        assert(b.drop_last() =~= be_bytes(y, (n - 1) as nat));
        let w: nat = 2 * n;
        let front = hex_digits(y, (w - 2) as nat, upper);
        let low = hex_digits((x as u8) as u64, 2, upper);
        assert forall|j: int| 0 <= j < w implies #[trigger] hex_digits(x, w, upper)[j] == (front
            + low)[j] by {
            if j < w - 2 {
                let sh: u64 = (4 * (w - 1 - j)) as u64;
                let sh2: u64 = (4 * (w - 3 - j)) as u64;
                assert(sh == sh2 + 8);
                assert((x >> sh) & 0xf == (y >> sh2) & 0xf) by (bit_vector)
                    requires
                        y == x >> 8u64,
                        sh == sh2 + 8,
                        sh < 64,
                ;
                assert(nibble(x, w, j) == nibble(y, (w - 2) as nat, j));
            } else if j == w - 2 {
                assert((4 * (w - 1 - j)) as u64 == 4);
                assert((x >> 4u64) & 0xf == (((x as u8) as u64) >> 4u64) & 0xf) by (bit_vector);
                assert(nibble(x, w, j) == nibble((x as u8) as u64, 2, 0));
            } else {
                assert((4 * (w - 1 - j)) as u64 == 0);
                assert((x >> 0u64) & 0xf == (((x as u8) as u64) >> 0u64) & 0xf) by (bit_vector);
                assert(nibble(x, w, j) == nibble((x as u8) as u64, 2, 1));
            }
        }
        assert(hex_digits(x, w, upper) =~= front + low);
    }
}

/// Reading two bytes big-endian and writing the value back gives the bytes.
pub proof fn lemma_be_bytes_of_be_u16(s: Seq<u8>)
    requires
        s.len() == 2,
    ensures
        be_bytes(be_u16(s) as u64, 2) == s,
{
    reveal_with_fuel(be_bytes, 3);
    let (s0, s1): (u8, u8) = (s[0], s[1]);
    let v: u64 = be_u16(s) as u64;
    assert((v >> 8u64) as u8 == s0 && v as u8 == s1) by (bit_vector)
        requires
            v == (((s0 as u16) << 8u16) | (s1 as u16)) as u64,
    ;
    assert(be_bytes(v, 2) =~= s);
}

/// Reading four bytes big-endian and writing the value back gives the bytes.
pub proof fn lemma_be_bytes_of_be_u32(s: Seq<u8>)
    requires
        s.len() == 4,
    ensures
        be_bytes(be_u32(s) as u64, 4) == s,
{
    reveal_with_fuel(be_bytes, 5);
    let (s0, s1, s2, s3): (u8, u8, u8, u8) = (s[0], s[1], s[2], s[3]);
    let v: u64 = be_u32(s) as u64;
    assert(((v >> 8u64) >> 8u64 >> 8u64) as u8 == s0 && ((v >> 8u64) >> 8u64) as u8 == s1 && (v
        >> 8u64) as u8 == s2 && v as u8 == s3) by (bit_vector)
        requires
            v == (((s0 as u32) << 24u32) | ((s1 as u32) << 16u32) | ((s2 as u32) << 8u32) | (
            s3 as u32)) as u64,
    ;
    assert(be_bytes(v, 4) =~= s);
}

/// `u64_be_bytes` is `be_bytes` of all eight bytes.
pub proof fn lemma_u64_be_bytes(x: u64)
    ensures
        u64_be_bytes(x) == be_bytes(x, 8),
{
    reveal_with_fuel(be_bytes, 9);
    assert((x >> 8u64 >> 8u64 >> 8u64 >> 8u64 >> 8u64 >> 8u64 >> 8u64) as u8 == (x >> 56u64) as u8
        && (x >> 8u64 >> 8u64 >> 8u64 >> 8u64 >> 8u64 >> 8u64) as u8 == (x >> 48u64) as u8 && (x
        >> 8u64 >> 8u64 >> 8u64 >> 8u64 >> 8u64) as u8 == (x >> 40u64) as u8 && (x >> 8u64 >> 8u64
        >> 8u64 >> 8u64) as u8 == (x >> 32u64) as u8 && (x >> 8u64 >> 8u64 >> 8u64) as u8 == (x
        >> 24u64) as u8 && (x >> 8u64 >> 8u64) as u8 == (x >> 16u64) as u8) by (bit_vector);
    assert(u64_be_bytes(x) =~= be_bytes(x, 8));
}

/// Writing a value read big-endian from eight bytes back gives the bytes.
pub proof fn lemma_u64_be_bytes_of_be_u64(s: Seq<u8>)
    requires
        s.len() == 8,
    ensures
        u64_be_bytes(be_u64(s)) == s,
{
    let (s0, s1, s2, s3, s4, s5, s6, s7): (u8, u8, u8, u8, u8, u8, u8, u8) = (
        s[0],
        s[1],
        s[2],
        s[3],
        s[4],
        s[5],
        s[6],
        s[7],
    );
    let v: u64 = be_u64(s);
    assert((v >> 56u64) as u8 == s0 && (v >> 48u64) as u8 == s1 && (v >> 40u64) as u8 == s2 && (v
        >> 32u64) as u8 == s3 && (v >> 24u64) as u8 == s4 && (v >> 16u64) as u8 == s5 && (v
        >> 8u64) as u8 == s6 && v as u8 == s7) by (bit_vector)
        requires
            v == ((s0 as u64) << 56u64) | ((s1 as u64) << 48u64) | ((s2 as u64) << 40u64) | ((
            s3 as u64) << 32u64) | ((s4 as u64) << 24u64) | ((s5 as u64) << 16u64) | ((s6 as u64)
                << 8u64) | (s7 as u64),
    ;
    assert(u64_be_bytes(v) =~= s);
}


/// Different nibbles give different digits.
pub proof fn lemma_hex_char_injective(d1: u64, d2: u64, upper: bool)
    requires
        d1 < 16,
        d2 < 16,
        hex_char(d1, upper) == hex_char(d2, upper),
    ensures
        d1 == d2,
{
    let c1 = hex_char(d1, upper);
    let c2 = hex_char(d2, upper);
    assert(c1 as int == c2 as int);
    if d1 < 10 {
        assert(c1 as int == 48 + d1);
    } else if upper {
        assert(c1 as int == 55 + d1);
    } else {
        assert(c1 as int == 87 + d1);
    }
    if d2 < 10 {
        assert(c2 as int == 48 + d2);
    } else if upper {
        assert(c2 as int == 55 + d2);
    } else {
        assert(c2 as int == 87 + d2);
    }
}


/// A byte's two digits determine the byte.
pub proof fn lemma_byte_hex_injective(a: u8, b: u8, upper: bool)
    requires
        hex_digits(a as u64, 2, upper) == hex_digits(b as u64, 2, upper),
    ensures
        a == b,
{
    let x = a as u64;
    let y = b as u64;
    let (xh, xl, yh, yl): (u64, u64, u64, u64) = (
        nibble(x, 2, 0),
        nibble(x, 2, 1),
        nibble(y, 2, 0),
        nibble(y, 2, 1),
    );
    assert((4 * (2 - 1 - 0int)) as u64 == 4);
    assert((4 * (2 - 1 - 1int)) as u64 == 0);
    assert(xh == (x >> 4u64) & 0xf && xl == (x >> 0u64) & 0xf);
    assert(yh == (y >> 4u64) & 0xf && yl == (y >> 0u64) & 0xf);
    assert(xh < 16 && xl < 16 && yh < 16 && yl < 16) by (bit_vector)
        requires
            xh == (x >> 4u64) & 0xf,
            xl == (x >> 0u64) & 0xf,
            yh == (y >> 4u64) & 0xf,
            yl == (y >> 0u64) & 0xf,
    ;
    assert(hex_digits(x, 2, upper)[0] == hex_digits(y, 2, upper)[0]);
    assert(hex_digits(x, 2, upper)[1] == hex_digits(y, 2, upper)[1]);
    lemma_hex_char_injective(xh, yh, upper);
    lemma_hex_char_injective(xl, yl, upper);
    assert(a == b) by (bit_vector)
        requires
            x == a as u64,
            y == b as u64,
            (x >> 4u64) & 0xf == (y >> 4u64) & 0xf,
            (x >> 0u64) & 0xf == (y >> 0u64) & 0xf,
    ;
}

/// Byte strings of one length with the same digits are equal.
pub proof fn lemma_bytes_hex_injective(x: Seq<u8>, y: Seq<u8>, upper: bool)
    requires
        x.len() == y.len(),
        bytes_hex(x, upper) == bytes_hex(y, upper),
    ensures
        x == y,
    decreases x.len(),
{
    if x.len() > 0 {
        let px = bytes_hex(x.drop_last(), upper);
        let py = bytes_hex(y.drop_last(), upper);
        lemma_bytes_hex_len(x.drop_last(), upper);
        lemma_bytes_hex_len(y.drop_last(), upper);
        let lx = hex_digits(x.last() as u64, 2, upper);
        let ly = hex_digits(y.last() as u64, 2, upper);
        let n = px.len() as int;
        assert((px + lx).subrange(0, n) =~= px);
        assert((py + ly).subrange(0, n) =~= py);
        assert((px + lx).subrange(n, n + 2) =~= lx);
        assert((py + ly).subrange(n, n + 2) =~= ly);
        lemma_bytes_hex_injective(x.drop_last(), y.drop_last(), upper);
        lemma_byte_hex_injective(x.last(), y.last(), upper);
        assert(x =~= x.drop_last().push(x.last()));
        assert(y =~= y.drop_last().push(y.last()));
    } else {
        assert(x =~= y);
    }
}

/// The standard text of 16 bytes determines the bytes.
pub proof fn lemma_uuid_bytes_text_injective(x: Seq<u8>, y: Seq<u8>, upper: bool)
    requires
        x.len() == 16,
        y.len() == 16,
        uuid_bytes_text(x, upper) == uuid_bytes_text(y, upper),
    ensures
        x == y,
{
    let t = uuid_bytes_text(x, upper);
    let u = uuid_bytes_text(y, upper);
    lemma_bytes_hex_len(x.subrange(0, 4), upper);
    lemma_bytes_hex_len(x.subrange(4, 6), upper);
    lemma_bytes_hex_len(x.subrange(6, 8), upper);
    lemma_bytes_hex_len(x.subrange(8, 10), upper);
    lemma_bytes_hex_len(x.subrange(10, 16), upper);
    lemma_bytes_hex_len(y.subrange(0, 4), upper);
    lemma_bytes_hex_len(y.subrange(4, 6), upper);
    lemma_bytes_hex_len(y.subrange(6, 8), upper);
    lemma_bytes_hex_len(y.subrange(8, 10), upper);
    lemma_bytes_hex_len(y.subrange(10, 16), upper);
    assert(t.subrange(0, 8) =~= bytes_hex(x.subrange(0, 4), upper));
    assert(u.subrange(0, 8) =~= bytes_hex(y.subrange(0, 4), upper));
    assert(t.subrange(9, 13) =~= bytes_hex(x.subrange(4, 6), upper));
    assert(u.subrange(9, 13) =~= bytes_hex(y.subrange(4, 6), upper));
    assert(t.subrange(14, 18) =~= bytes_hex(x.subrange(6, 8), upper));
    assert(u.subrange(14, 18) =~= bytes_hex(y.subrange(6, 8), upper));
    assert(t.subrange(19, 23) =~= bytes_hex(x.subrange(8, 10), upper));
    assert(u.subrange(19, 23) =~= bytes_hex(y.subrange(8, 10), upper));
    assert(t.subrange(24, 36) =~= bytes_hex(x.subrange(10, 16), upper));
    assert(u.subrange(24, 36) =~= bytes_hex(y.subrange(10, 16), upper));
    lemma_bytes_hex_injective(x.subrange(0, 4), y.subrange(0, 4), upper);
    lemma_bytes_hex_injective(x.subrange(4, 6), y.subrange(4, 6), upper);
    lemma_bytes_hex_injective(x.subrange(6, 8), y.subrange(6, 8), upper);
    lemma_bytes_hex_injective(x.subrange(8, 10), y.subrange(8, 10), upper);
    lemma_bytes_hex_injective(x.subrange(10, 16), y.subrange(10, 16), upper);
    assert(x =~= x.subrange(0, 4) + x.subrange(4, 6) + x.subrange(6, 8) + x.subrange(8, 10)
        + x.subrange(10, 16));
    assert(y =~= y.subrange(0, 4) + y.subrange(4, 6) + y.subrange(6, 8) + y.subrange(8, 10)
        + y.subrange(10, 16));
}


/// The test that keeps every character but the hyphen.
pub open spec fn not_hyphen() -> spec_fn(char) -> bool {
    |c: char| c != '-'
}

/// A text with its hyphens taken out.
pub open spec fn without_hyphens(s: Seq<char>) -> Seq<char> {
    s.filter(not_hyphen())
}

/// Taking the hyphens out of a string of hexadecimal digits leaves it as it is.
pub proof fn lemma_without_hyphens_of_digits(s: Seq<char>, upper: bool)
    requires
        forall|i: int| 0 <= i < s.len() ==> is_hex_char(#[trigger] s[i], upper),
    ensures
        without_hyphens(s) == s,
    decreases s.len(),
{
    reveal(Seq::filter);
    if s.len() > 0 {
        let p = s.drop_last();
        assert forall|i: int| 0 <= i < p.len() implies is_hex_char(#[trigger] p[i], upper) by {
            assert(p[i] == s[i]);
        }
        lemma_without_hyphens_of_digits(p, upper);
        assert(is_hex_char(s[s.len() - 1], upper));
        assert((not_hyphen())(s.last()));
        assert(s =~= p.push(s.last()));
    }
}

/// Taking the hyphens out of five hyphen-free pieces joined by hyphens
/// gives the pieces joined.
proof fn lemma_without_hyphens_joined(
    h0: Seq<char>,
    h1: Seq<char>,
    h2: Seq<char>,
    h3: Seq<char>,
    h4: Seq<char>,
)
    requires
        without_hyphens(h0) == h0,
        without_hyphens(h1) == h1,
        without_hyphens(h2) == h2,
        without_hyphens(h3) == h3,
        without_hyphens(h4) == h4,
    ensures
        without_hyphens(h0 + seq!['-'] + h1 + seq!['-'] + h2 + seq!['-'] + h3 + seq!['-'] + h4)
            == h0 + h1 + h2 + h3 + h4,
{
    let f = not_hyphen();
    let dash: Seq<char> = seq!['-'];
    assert(dash.filter(f) =~= Seq::<char>::empty()) by {
        reveal_with_fuel(Seq::filter, 2);
        assert(dash.drop_last() =~= Seq::<char>::empty());
    }
    let s1 = h0 + dash;
    let s2 = s1 + h1;
    let s3 = s2 + dash;
    let s4 = s3 + h2;
    let s5 = s4 + dash;
    let s6 = s5 + h3;
    let s7 = s6 + dash;
    let s8 = s7 + h4;
    Seq::filter_distributes_over_add(h0, dash, f);
    assert(s1.filter(f) =~= h0);
    Seq::filter_distributes_over_add(s1, h1, f);
    Seq::filter_distributes_over_add(s2, dash, f);
    assert(s3.filter(f) =~= h0 + h1);
    Seq::filter_distributes_over_add(s3, h2, f);
    Seq::filter_distributes_over_add(s4, dash, f);
    assert(s5.filter(f) =~= h0 + h1 + h2);
    Seq::filter_distributes_over_add(s5, h3, f);
    Seq::filter_distributes_over_add(s6, dash, f);
    assert(s7.filter(f) =~= h0 + h1 + h2 + h3);
    Seq::filter_distributes_over_add(s7, h4, f);
}

/// Taking the hyphens out of the standard text of 16 bytes leaves the two
/// hexadecimal digits of each byte, in order.
pub proof fn lemma_uuid_bytes_text_digits(bytes: Seq<u8>, upper: bool)
    requires
        bytes.len() == 16,
    ensures
        without_hyphens(uuid_bytes_text(bytes, upper)) == bytes_hex(bytes, upper),
{
    let p0 = bytes.subrange(0, 4);
    let p1 = bytes.subrange(4, 6);
    let p2 = bytes.subrange(6, 8);
    let p3 = bytes.subrange(8, 10);
    let p4 = bytes.subrange(10, 16);
    lemma_bytes_hex_are_hex(p0, upper);
    lemma_bytes_hex_are_hex(p1, upper);
    lemma_bytes_hex_are_hex(p2, upper);
    lemma_bytes_hex_are_hex(p3, upper);
    lemma_bytes_hex_are_hex(p4, upper);
    lemma_without_hyphens_of_digits(bytes_hex(p0, upper), upper);
    lemma_without_hyphens_of_digits(bytes_hex(p1, upper), upper);
    lemma_without_hyphens_of_digits(bytes_hex(p2, upper), upper);
    lemma_without_hyphens_of_digits(bytes_hex(p3, upper), upper);
    lemma_without_hyphens_of_digits(bytes_hex(p4, upper), upper);
    lemma_without_hyphens_joined(
        bytes_hex(p0, upper),
        bytes_hex(p1, upper),
        bytes_hex(p2, upper),
        bytes_hex(p3, upper),
        bytes_hex(p4, upper),
    );
    lemma_bytes_hex_append(p0, p1, upper);
    lemma_bytes_hex_append(p0 + p1, p2, upper);
    lemma_bytes_hex_append(p0 + p1 + p2, p3, upper);
    lemma_bytes_hex_append(p0 + p1 + p2 + p3, p4, upper);
    assert(bytes =~= p0 + p1 + p2 + p3 + p4);
}


/// Reading back the two big-endian bytes of a `u16` gives the value.
pub proof fn lemma_be_u16_of_be_bytes(x: u16)
    ensures
        be_u16(be_bytes(x as u64, 2)) == x,
{
    reveal_with_fuel(be_bytes, 3);
    let v: u64 = x as u64;
    let s = be_bytes(v, 2);
    let (s0, s1): (u8, u8) = (s[0], s[1]);
    assert(s0 == (v >> 8u64) as u8 && s1 == v as u8);
    assert(((s0 as u16) << 8u16) | (s1 as u16) == x) by (bit_vector)
        requires
            v == x as u64,
            s0 == (v >> 8u64) as u8,
            s1 == v as u8,
    ;
}

/// Reading back the four big-endian bytes of a `u32` gives the value.
pub proof fn lemma_be_u32_of_be_bytes(x: u32)
    ensures
        be_u32(be_bytes(x as u64, 4)) == x,
{
    reveal_with_fuel(be_bytes, 5);
    let v: u64 = x as u64;
    let s = be_bytes(v, 4);
    let (s0, s1, s2, s3): (u8, u8, u8, u8) = (s[0], s[1], s[2], s[3]);
    assert(s0 == (v >> 8u64 >> 8u64 >> 8u64) as u8 && s1 == (v >> 8u64 >> 8u64) as u8 && s2 == (v
        >> 8u64) as u8 && s3 == v as u8);
    assert(((s0 as u32) << 24u32) | ((s1 as u32) << 16u32) | ((s2 as u32) << 8u32) | (s3 as u32)
        == x) by (bit_vector)
        requires
            v == x as u64,
            s0 == (v >> 8u64 >> 8u64 >> 8u64) as u8,
            s1 == (v >> 8u64 >> 8u64) as u8,
            s2 == (v >> 8u64) as u8,
            s3 == v as u8,
    ;
}

/// Reading back the eight big-endian bytes of a `u64` gives the value.
pub proof fn lemma_be_u64_of_u64_be_bytes(x: u64)
    ensures
        be_u64(u64_be_bytes(x)) == x,
{
    let s = u64_be_bytes(x);
    let (s0, s1, s2, s3, s4, s5, s6, s7): (u8, u8, u8, u8, u8, u8, u8, u8) = (
        s[0],
        s[1],
        s[2],
        s[3],
        s[4],
        s[5],
        s[6],
        s[7],
    );
    assert(((s0 as u64) << 56u64) | ((s1 as u64) << 48u64) | ((s2 as u64) << 40u64) | ((s3 as u64)
        << 32u64) | ((s4 as u64) << 24u64) | ((s5 as u64) << 16u64) | ((s6 as u64) << 8u64) | (
    s7 as u64) == x) by (bit_vector)
        requires
            s0 == (x >> 56u64) as u8,
            s1 == (x >> 48u64) as u8,
            s2 == (x >> 40u64) as u8,
            s3 == (x >> 32u64) as u8,
            s4 == (x >> 24u64) as u8,
            s5 == (x >> 16u64) as u8,
            s6 == (x >> 8u64) as u8,
            s7 == x as u8,
    ;
}

} // verus!
