//! Samples of successes out of trials, from which confidence intervals for a
//! success rate are drawn.

use vstd::prelude::*;
use bpci::NSuccessesSample;

verus! {

#[verifier::external_type_specification]
#[verifier::external_body]
#[verifier::reject_recursive_types(N)]
pub struct ExNSuccessesSample<N>(bpci::NSuccessesSample<N>);

#[verifier::external_type_specification]
#[verifier::external_body]
pub struct ExBpciError(bpci::Error);

/// The sample of `n_successes` successes out of `size` trials that
/// `bpci::NSuccessesSample::new` builds: it holds just these two counts.
pub uninterp spec fn success_sample_of(size: u32, n_successes: u32) -> NSuccessesSample<u32>;

/// `bpci::NSuccessesSample::new`: a sample of `n_successes` successes out of
/// `size` trials, refused when there are more successes than trials (for
/// unsigned counts, its only refusal). The sample it builds depends on the two
/// counts alone and is opaque to this crate.
#[verifier::external_body]
pub(crate) fn success_sample(size: u32, n_successes: u32) -> (r: Result<NSuccessesSample<u32>, bpci::Error>)
    ensures
        r is Ok <==> n_successes <= size,
        r matches Ok(sample) ==> sample == success_sample_of(size, n_successes),
{
    NSuccessesSample::new(size, n_successes)
}

} // verus!
