use vstd::prelude::*;

verus! {

/// Which signal a comb filter writes back into its delay line.
#[derive(Debug, Clone, Copy)]
pub enum FilterType {
    /// Feed-forward: the delay line holds past input.
    FIR,
    /// Feedback: the delay line holds past output.
    IIR,
}

/// A settable comb-filter parameter.
#[derive(Debug, Clone, Copy)]
pub enum FilterParam {
    Gain,
    Delay,
}

} // verus!
