//! Types shared by every signature validator.

use vstd::prelude::*;

verus! {

/// How certain a validator is that a match is genuine.
///
/// The variants are declared in ascending order, so the derived comparison
/// ranks `Low < Medium < High`; [`Confidence::rank`] gives the same order to
/// verified code.
#[derive(Clone, Copy, Debug, PartialEq, Eq, Structural, PartialOrd, Ord, Hash)]
pub enum Confidence {
    Low,
    Medium,
    High,
}

impl Confidence {
    /// Position of the level in the order `Low < Medium < High`.
    pub open spec fn spec_rank(self) -> u8 {
        match self {
            Confidence::Low => 0,
            Confidence::Medium => 1,
            Confidence::High => 2,
        }
    }

    /// Position of the level in the order `Low < Medium < High`.
    #[verifier::when_used_as_spec(spec_rank)]
    pub fn rank(self) -> (r: u8)
        ensures
            r == self.spec_rank(),
    {
        match self {
            Confidence::Low => 0,
            Confidence::Medium => 1,
            Confidence::High => 2,
        }
    }
}

/// The single, payload-free signal with which a validator turns a candidate down.
#[derive(Clone, Copy, Debug, PartialEq, Eq, Structural)]
pub struct SignatureError;

/// A successful identification.
#[derive(Clone, Debug, PartialEq, Eq)]
pub struct SignatureResult {
    /// Where in the scanned buffer the match starts.
    pub offset: usize,
    /// Human-readable account of what was found.
    pub description: String,
    /// How much the match is to be trusted.
    pub confidence: Confidence,
}

/// Mathematical model of a [`SignatureResult`]: the description as a sequence
/// of characters.
pub struct SignatureResultView {
    pub offset: usize,
    pub description: Seq<char>,
    pub confidence: Confidence,
}

impl View for SignatureResult {
    type V = SignatureResultView;

    open spec fn view(&self) -> SignatureResultView {
        SignatureResultView {
            offset: self.offset,
            description: self.description@,
            confidence: self.confidence,
        }
    }
}

} // verus!
