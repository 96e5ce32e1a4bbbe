//! The MD5 message digest, through the `md-5` crate.

use md5::{Digest, Md5};
use vstd::prelude::*;

verus! {

/// The MD5 digest (RFC 1321) of `data`.
pub uninterp spec fn md5(data: Seq<u8>) -> Seq<u8>;

/// `<Md5 as Digest>::digest`: the MD5 digest of `data`, 16 bytes. What the
/// digest is, is named by `md5` and not spelled out.
#[verifier::external_body]
pub(crate) fn md5_digest(data: &[u8]) -> (d: [u8; 16])
    ensures
        d@ == md5(data@),
{
    Md5::digest(data).into()
}

} // verus!
