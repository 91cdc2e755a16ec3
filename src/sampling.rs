//! Sampling settings with their defaults applied. The settings are generic
//! over the number type of temperature and top-p, and the defaults of those
//! two are given by the caller in that type.
use vstd::prelude::*;

verus! {

/// A complete sampling policy: every field is set.
#[derive(Debug)]
pub struct SamplingPolicy<F> {
    pub temperature: F,
    /// `usize::MAX` stands for no top-k limit.
    pub top_k: usize,
    pub top_p: F,
}

/// The policy built from optional settings: each absent one takes its default,
/// and top-k defaults to no limit.
pub open spec fn sampling_for<F>(
    temperature: Option<F>,
    top_k: Option<usize>,
    top_p: Option<F>,
    default_temperature: F,
    default_top_p: F,
) -> SamplingPolicy<F> {
    SamplingPolicy {
        temperature: match temperature {
            Some(t) => t,
            None => default_temperature,
        },
        top_k: match top_k {
            Some(k) => k,
            None => usize::MAX,
        },
        top_p: match top_p {
            Some(p) => p,
            None => default_top_p,
        },
    }
}

impl<F> SamplingPolicy<F> {
    /// Fills in the settings that are absent with their defaults; no other
    /// check is made.
    pub fn build(
        temperature: Option<F>,
        top_k: Option<usize>,
        top_p: Option<F>,
        default_temperature: F,
        default_top_p: F,
    ) -> (r: SamplingPolicy<F>)
        ensures
            r == sampling_for(temperature, top_k, top_p, default_temperature, default_top_p),
    {
        SamplingPolicy {
            temperature: match temperature {
                Some(t) => t,
                None => default_temperature,
            },
            top_k: match top_k {
                Some(k) => k,
                None => usize::MAX,
            },
            top_p: match top_p {
                Some(p) => p,
                None => default_top_p,
            },
        }
    }
}

/// With nothing given, the policy is the defaults with no top-k limit; and
/// building again from a policy's own fields gives that policy back.
pub proof fn lemma_sampling_defaults_idempotent<F>(
    p: SamplingPolicy<F>,
    default_temperature: F,
    default_top_p: F,
)
    ensures
        sampling_for(None, None, None, default_temperature, default_top_p) == (SamplingPolicy {
            temperature: default_temperature,
            top_k: usize::MAX,
            top_p: default_top_p,
        }),
        sampling_for(
            Some(p.temperature),
            Some(p.top_k),
            Some(p.top_p),
            default_temperature,
            default_top_p,
        ) == p,
{
}

} // verus!
