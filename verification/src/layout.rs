//! The byte layout shared by version-3 and version-4 UUIDs: 16 source bytes
//! (a digest or random bytes) with the version number written into the high
//! half of byte 6 and the variant `10` into the top two bits of byte 8.

use vstd::prelude::*;

use crate::buffer::{be_u16, be_u64, u64_be_bytes};
use crate::hex::{be_bytes, lemma_be_bytes_len, lemma_u64_be_bytes_of_be_u64};

verus! {

/// Six source bytes, then bytes 6..8 read big-endian with their low 12 bits
/// kept under `version`, then bytes 8..16 read big-endian with their low 62
/// bits kept under the variant `10`, all written back big-endian, give the
/// source bytes but for byte 6, whose high half is `version`, and byte 8,
/// whose top two bits are `10`.
pub proof fn lemma_stamped_bytes(src: Seq<u8>, high: Seq<u8>, mid: u16, low: u64, version: u8)
    requires
        src.len() == 16,
        version < 16,
        high == src.subrange(0, 6),
        mid == (be_u16(src.subrange(6, 8)) & 0x0fffu16) | ((version as u16) << 12u16),
        low == (be_u64(src.subrange(8, 16)) & 0x3fff_ffff_ffff_ffffu64) | 0x8000_0000_0000_0000u64,
    ensures
        ({
            let b = high + be_bytes(mid as u64, 2) + u64_be_bytes(low);
            &&& b.len() == 16
            &&& forall|i: int| 0 <= i < 16 && i != 6 && i != 8 ==> #[trigger] b[i] == src[i]
            &&& b[6] == (src[6] & 0x0f) | (version << 4u8)
            &&& b[8] == (src[8] & 0x3f) | 0x80
        }),
{
    lemma_be_bytes_len(mid as u64, 2);
    reveal_with_fuel(be_bytes, 3);
    let (d6, d7): (u8, u8) = (src[6], src[7]);
    let v64: u64 = mid as u64;
    assert((v64 >> 8u64) as u8 == (d6 & 0x0f) | (version << 4u8) && v64 as u8 == d7) by (bit_vector)
        requires
            version < 16,
            v64 == (((((d6 as u16) << 8u16) | (d7 as u16)) & 0x0fffu16) | ((version as u16)
                << 12u16)) as u64,
    ;
    let tail = src.subrange(8, 16);
    let (d8, d9, d10, d11, d12, d13, d14, d15): (u8, u8, u8, u8, u8, u8, u8, u8) = (
        tail[0],
        tail[1],
        tail[2],
        tail[3],
        tail[4],
        tail[5],
        tail[6],
        tail[7],
    );
    let l = be_u64(tail);
    let fixed = tail.update(0, (d8 & 0x3f) | 0x80);
    assert(low == be_u64(fixed)) by {
        assert((l & 0x3fff_ffff_ffff_ffffu64) | 0x8000_0000_0000_0000u64 == ((((d8 & 0x3f) | 0x80)
            as u64) << 56u64) | ((d9 as u64) << 48u64) | ((d10 as u64) << 40u64) | ((d11 as u64)
            << 32u64) | ((d12 as u64) << 24u64) | ((d13 as u64) << 16u64) | ((d14 as u64) << 8u64)
            | (d15 as u64)) by (bit_vector)
            requires
                l == ((d8 as u64) << 56u64) | ((d9 as u64) << 48u64) | ((d10 as u64) << 40u64) | ((
                d11 as u64) << 32u64) | ((d12 as u64) << 24u64) | ((d13 as u64) << 16u64) | ((
                d14 as u64) << 8u64) | (d15 as u64),
        ;
    }
    lemma_u64_be_bytes_of_be_u64(fixed);
    let b = high + be_bytes(v64, 2) + u64_be_bytes(low);
    assert forall|i: int| 0 <= i < 16 && i != 6 && i != 8 implies #[trigger] b[i] == src[i] by {
        if i < 6 {
            assert(b[i] == high[i]);
        } else if i == 7 {
            assert(b[i] == be_bytes(v64, 2)[1]);
        } else {
            assert(b[i] == fixed[i - 8]);
        }
    }
    assert(b[6] == be_bytes(v64, 2)[0]);
    assert(b[8] == fixed[0]);
}

} // verus!
