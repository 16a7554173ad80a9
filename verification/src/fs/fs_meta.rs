//! A fingerprint: what identifies a file's content.

use super::digest::md5_digest;
use vstd::prelude::*;

verus! {

/// The size of a file and the digest of its content.
#[derive(Debug)]
pub struct FsMeta {
    pub size: usize,
    pub md5: [u8; 16],
}

/// Whether `meta` is the fingerprint of `content`: its length and its MD5
/// digest.
pub open spec fn is_fingerprint(meta: FsMeta, content: Seq<u8>) -> bool {
    &&& meta.size == content.len()
    &&& meta.md5@ == md5_digest(content)
}

impl FsMeta {
    /// The blank fingerprint: size zero and a digest of sixteen zero bytes. It
    /// is a placeholder, not the fingerprint of the empty file.
    pub fn new() -> (meta: Self)
        ensures
            meta.size == 0,
            meta.md5@ == Seq::new(16, |i: int| 0u8),
    {
        let meta = FsMeta { size: 0, md5: [0;16] };
        assert(meta.md5@ =~= Seq::new(16, |i: int| 0u8));
        meta
    }
}

impl Clone for FsMeta {
    /// A copy: the same size and digest.
    fn clone(&self) -> (copy: Self)
        ensures
            copy == *self,
    {
        FsMeta { size: self.size, md5: self.md5 }
    }
}

impl Default for FsMeta {
    /// The blank fingerprint.
    fn default() -> (meta: Self)
        ensures
            meta.size == 0,
            meta.md5@ == Seq::new(16, |i: int| 0u8),
    {
        FsMeta::new()
    }
}

/// A content has one fingerprint: two fingerprints of the same bytes agree in
/// size and in digest, whenever and however each was computed.
pub proof fn lemma_fingerprint_unique(first: FsMeta, second: FsMeta, content: Seq<u8>)
    requires
        is_fingerprint(first, content),
        is_fingerprint(second, content),
    ensures
        first.size == second.size,
        first.md5 == second.md5,
        first == second,
{
    assert(first.md5@ =~= second.md5@);
    assert(first.md5 =~= second.md5);
}

} // verus!
