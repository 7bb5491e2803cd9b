//! Subscription tiers and their order.

use vstd::prelude::*;

verus! {

/// Subscription level of an account, in ascending order of access.
#[derive(Debug, PartialEq, Eq, Structural, Copy, Clone, PartialOrd, Ord, Hash)]
pub enum PlanTier {
    Free,
    Basic,
    Plus,
    Visionary,
}

impl PlanTier {
    /// Position of the tier in the order `Free < Basic < Plus < Visionary`.
    pub open spec fn level(self) -> int {
        match self {
            PlanTier::Free => 0,
            PlanTier::Basic => 1,
            PlanTier::Plus => 2,
            PlanTier::Visionary => 3,
        }
    }

    /// The name under which the tier is shown.
    pub open spec fn label(self) -> Seq<char> {
        match self {
            PlanTier::Free => "Free"@,
            PlanTier::Basic => "Basic"@,
            PlanTier::Plus => "Plus"@,
            PlanTier::Visionary => "Visionary"@,
        }
    }

    /// All tiers, lowest first.
    pub open spec fn all() -> Seq<PlanTier> {
        seq![PlanTier::Free, PlanTier::Basic, PlanTier::Plus, PlanTier::Visionary]
    }

    /// The tier's position as a machine integer.
    pub fn rank(self) -> (r: u8)
        ensures
            r == self.level(),
    {
        match self {
            PlanTier::Free => 0,
            PlanTier::Basic => 1,
            PlanTier::Plus => 2,
            PlanTier::Visionary => 3,
        }
    }

    /// The tier at position `u`. There are four tiers, so `u` is at most 3.
    pub fn from(u: u8) -> (t: PlanTier)
        requires
            u <= 3,
        ensures
            t.level() == u,
    {
        if u == 0 {
            PlanTier::Free
        } else if u == 1 {
            PlanTier::Basic
        } else if u == 2 {
            PlanTier::Plus
        } else {
            PlanTier::Visionary
        }
    }

    /// The tier at position `u`, if there is one.
    pub fn from_level(u: u8) -> (t: Option<PlanTier>)
        ensures
            t is Some <==> u <= 3,
            t matches Some(tier) ==> tier.level() == u,
    {
        if u <= 3 {
            Some(PlanTier::from(u))
        } else {
            None
        }
    }

    /// Whether an account of tier `account` may use what is offered at tier `self`.
    pub fn within(self, account: PlanTier) -> (b: bool)
        ensures
            b == (self.level() <= account.level()),
    {
        self.rank() <= account.rank()
    }

    /// The name under which the tier is shown.
    pub fn name(self) -> (s: &'static str)
        ensures
            s@ == self.label(),
    {
        match self {
            PlanTier::Free => "Free",
            PlanTier::Basic => "Basic",
            PlanTier::Plus => "Plus",
            PlanTier::Visionary => "Visionary",
        }
    }

    /// All tiers, lowest first: the tier at index `i` has level `i`.
    pub fn variants() -> (v: Vec<PlanTier>)
        ensures
            v@ == PlanTier::all(),
    {
        let mut v: Vec<PlanTier> = Vec::new();
        v.push(PlanTier::Free);
        v.push(PlanTier::Basic);
        v.push(PlanTier::Plus);
        v.push(PlanTier::Visionary);
        assert(v@ =~= PlanTier::all());
        v
    }
}

/// The order of tiers is total: any two tiers compare, and two tiers of the
/// same level are the same tier.
pub proof fn lemma_tier_order_total(a: PlanTier, b: PlanTier)
    ensures
        a.level() <= b.level() || b.level() <= a.level(),
        a.level() == b.level() ==> a == b,
        0 <= a.level() <= 3,
{
}

} // verus!
