//! How far the loading has come.
use vstd::prelude::*;

verus! {

/// The progress of the loading as a fraction: `loaded` parts of `total`.
pub struct LoadingState {
    pub loaded: usize,
    pub total: usize,
}

impl Default for LoadingState {
    fn default() -> (s: Self)
        ensures
            s == (LoadingState { loaded: 0, total: 1 }),
    {
        LoadingState::new()
    }
}

impl LoadingState {
    /// The fraction is one or more.
    pub open spec fn is_done(&self) -> bool {
        self.total > 0 && self.loaded >= self.total
    }

    /// The fraction in whole per cent, rounded down; zero where the
    /// fraction has no value.
    pub open spec fn spec_percent(&self) -> nat {
        if self.total == 0 {
            0
        } else {
            (self.loaded as nat * 100 / self.total as nat) as nat
        }
    }

    /// Nothing loaded yet.
    pub fn new() -> (s: Self)
        ensures
            s == (LoadingState { loaded: 0, total: 1 }),
            !s.is_done(),
    {
        LoadingState { loaded: 0, total: 1 }
    }

    /// The fraction as its numerator and denominator.
    pub fn progress(&self) -> (fraction: (usize, usize))
        ensures
            fraction == (self.loaded, self.total),
    {
        (self.loaded, self.total)
    }

    /// Sets the fraction to `loaded` parts of `total`.
    pub fn set_progress(&mut self, loaded: usize, total: usize)
        ensures
            *final(self) == (LoadingState { loaded, total }),
    {
        self.loaded = loaded;
        self.total = total;
    }

    /// The fraction in whole per cent, rounded down.
    pub fn percent(&self) -> (r: u128)
        ensures
            r == self.spec_percent(),
    {
        if self.total == 0 {
            0
        } else {
            (self.loaded as u128) * 100 / (self.total as u128)
        }
    }

    /// Whether the fraction is one or more.
    #[verifier::when_used_as_spec(is_done)]
    pub fn done(&self) -> (r: bool)
        ensures
            r == self.is_done(),
    {
        self.total > 0 && self.loaded >= self.total
    }
}

} // verus!
