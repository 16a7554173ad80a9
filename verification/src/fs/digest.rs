//! The content digest: MD5 as the `md5` crate computes it, fed piece by
//! piece. Nothing here is proved: each function states what the crate does.

use vstd::prelude::*;

verus! {

/// `md5::Context`, opaque to the verifier.
#[verifier::external_type_specification]
#[verifier::external_body]
pub struct ExContext(md5::Context);

/// The MD5 digest of a byte sequence: sixteen bytes.
pub uninterp spec fn md5_digest(data: Seq<u8>) -> Seq<u8>;

/// The bytes that a context has consumed since it was made, in order.
pub uninterp spec fn consumed(ctx: md5::Context) -> Seq<u8>;

/// `md5::Context::new`: a context that has consumed nothing.
#[verifier::external_body]
pub(crate) fn context_new() -> (ctx: md5::Context)
    ensures
        consumed(ctx) == Seq::<u8>::empty(),
{
    md5::Context::new()
}

/// `md5::Context::consume`: the context takes `data` in behind what it has
/// consumed. How the bytes are cut into calls leaves no trace.
#[verifier::external_body]
pub(crate) fn context_consume(ctx: &mut md5::Context, data: &[u8])
    ensures
        consumed(*final(ctx)) == consumed(*old(ctx)) + data@,
{
    ctx.consume(data)
}

/// `md5::Context::compute`: the digest of all that the context has consumed.
#[verifier::external_body]
pub(crate) fn context_compute(ctx: md5::Context) -> (digest: [u8; 16])
    ensures
        digest@ == md5_digest(consumed(ctx)),
{
    ctx.compute().0
}

} // verus!
