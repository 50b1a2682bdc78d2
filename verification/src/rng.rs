use vstd::prelude::*;

verus! {

/// Relies on rand::Rng::gen_range over `0..bound`: the result is drawn
/// uniformly from that range, so it is below `bound`. The call panics
/// only on an empty range, which the precondition rules out. Nothing
/// more is assumed: the caller must cope with every value below `bound`.
#[verifier::external_body]
pub(crate) fn random_below(bound: usize) -> (r: usize)
    requires
        bound > 0,
    ensures
        r < bound,
{
    rand::Rng::gen_range(&mut rand::thread_rng(), 0..bound)
}

} // verus!
