use vstd::prelude::*;

verus! {

/// The number of whole samples in `ms` milliseconds at `sample_rate` samples per second,
/// both given in whole units: `(ms * sample_rate) / 1000`, rounded down.
pub open spec fn spec_ms_to_samples(ms: u32, sample_rate: u32) -> int {
    (ms * sample_rate) / 1000
}

/// Converts a delay in whole milliseconds into a number of samples at a sample rate in
/// whole hertz. The product must fit in a `u32`.
pub fn ms_to_samples(ms: u32, sample_rate: u32) -> (samples: u32)
    requires
        ms * sample_rate <= u32::MAX,
    ensures
        samples == spec_ms_to_samples(ms, sample_rate),
{
    (ms * sample_rate) / 1000
}

} // verus!
