use vstd::prelude::*;

verus! {

/// Relies on fastrand::u8: a draw from the thread-local generator,
/// uniform over `lo..hi`; it panics only on an empty range, which the
/// precondition rules out.
#[verifier::external_body]
pub(crate) fn random_u8_in(lo: u8, hi: u8) -> (r: u8)
    requires
        lo < hi,
    ensures
        lo <= r < hi,
{
    fastrand::u8(lo..hi)
}

/// Relies on fastrand::i64: a draw from the thread-local generator,
/// uniform over `lo..hi`; it panics only on an empty range, which the
/// precondition rules out.
#[verifier::external_body]
pub(crate) fn random_i64_in(lo: i64, hi: i64) -> (r: i64)
    requires
        lo < hi,
    ensures
        lo <= r < hi,
{
    fastrand::i64(lo..hi)
}

} // verus!
