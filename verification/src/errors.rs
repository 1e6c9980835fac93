use vstd::prelude::*;

verus! {

/// The single domain-defined error of the initializer: the chapter count
/// handed in lies above the bound of 200.
#[derive(Clone, Copy, PartialEq, Eq, Structural, Debug)]
pub enum ChapterError {
    TooManyChapters,
}

impl ChapterError {
    /// The human-readable description of the error.
    pub fn message(&self) -> (m: &'static str)
        ensures
            m@ == "Too many chapters already, this story is over!"@,
    {
        "Too many chapters already, this story is over!"
    }
}

/// Every way `initialize_pda` can fail: the domain validation error, and
/// the host-level rejections raised at the allocation step.  Any failure
/// leaves the ledger exactly as it was.
#[derive(Clone, Copy, PartialEq, Eq, Structural, Debug)]
pub enum InitializeError {
    /// Domain validation failed before any mutation.
    Chapter(ChapterError),
    /// A record already lives at the derived address for this identity.
    AddressAlreadyInitialized,
    /// The funding party cannot cover the allocation cost.
    InsufficientFunding,
    /// No bump in [0, 255] yields an off-curve address.  Statistically
    /// unreachable, but the initializer never panics, so it is reported.
    BumpNotFound,
}

} // verus!
