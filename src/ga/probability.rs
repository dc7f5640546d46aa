//! Probabilities with named certain cases.
use vstd::prelude::*;

use crate::util::{Odds, ODDS_ONE};

verus! {

/// A probability: never, certain, or given odds in millionths.
#[derive(Debug, Copy, Clone)]
pub enum Probability {
    /// Represents a probability of zero (never happening).
    Never,
    /// Represents a probability with given odds, in millionths.
    Chance(Odds),
    /// Represents a probability of one (guaranteed to happen).
    Guaranteed,
}

impl Probability {
    /// The odds in millionths: zero for `Never`, one million for `Guaranteed`.
    pub open spec fn spec_odds(&self) -> Odds {
        match *self {
            Probability::Never => 0,
            Probability::Chance(odds) => odds,
            Probability::Guaranteed => ODDS_ONE,
        }
    }

    pub open spec fn spec_is_valid(&self) -> bool {
        self.spec_odds() <= ODDS_ONE
    }

    pub fn as_odds(&self) -> (r: Odds)
        ensures
            r == self.spec_odds(),
    {
        match self {
            Probability::Never => 0,
            Probability::Chance(odds) => *odds,
            Probability::Guaranteed => ODDS_ONE,
        }
    }

    /// Requires the odds to lie in `0..=ODDS_ONE`.
    pub fn assert_is_valid(&self)
        requires
            self.spec_is_valid(),
    {
    }

    pub fn is_valid(&self) -> (r: bool)
        ensures
            r == self.spec_is_valid(),
    {
        match self {
            Probability::Chance(odds) => Self::is_valid_odds(*odds),
            Probability::Never | Probability::Guaranteed => true,
        }
    }

    pub fn is_valid_odds(odds: Odds) -> (r: bool)
        ensures
            r == (odds <= ODDS_ONE),
    {
        odds <= ODDS_ONE
    }

    /// Requires valid odds and hands them back.
    pub fn assert_is_valid_odds(odds: Odds) -> (r: Odds)
        requires
            odds <= ODDS_ONE,
        ensures
            r == odds,
    {
        odds
    }
}

impl PartialEq for Probability {
    fn eq(&self, other: &Self) -> (r: bool) {
        self.as_odds() == other.as_odds()
    }
}

impl vstd::std_specs::cmp::PartialEqSpecImpl for Probability {
    open spec fn obeys_eq_spec() -> bool {
        true
    }

    open spec fn eq_spec(&self, other: &Self) -> bool {
        self.spec_odds() == other.spec_odds()
    }
}

impl From<Probability> for Odds {
    fn from(value: Probability) -> (r: Odds) {
        value.as_odds()
    }
}

impl vstd::std_specs::convert::FromSpecImpl<Probability> for Odds {
    open spec fn obeys_from_spec() -> bool {
        true
    }

    open spec fn from_spec(v: Probability) -> Odds {
        v.spec_odds()
    }
}

impl From<Odds> for Probability {
    fn from(value: Odds) -> (r: Probability) {
        if value == 0 {
            Probability::Never
        } else if value == ODDS_ONE {
            Probability::Guaranteed
        } else {
            Probability::Chance(value)
        }
    }
}

impl vstd::std_specs::convert::FromSpecImpl<Odds> for Probability {
    open spec fn obeys_from_spec() -> bool {
        true
    }

    open spec fn from_spec(v: Odds) -> Probability {
        if v == 0 {
            Probability::Never
        } else if v == ODDS_ONE {
            Probability::Guaranteed
        } else {
            Probability::Chance(v)
        }
    }
}

} // verus!
