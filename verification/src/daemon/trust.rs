//! What the daemon may do on its own, by how much it is trusted.
//!
//! The trust level itself is a fraction kept by the caller; it is read here
//! through the band it falls in.
use vstd::prelude::*;
use crate::daemon::types::Urgency;

verus! {

/// What the daemon may do about an action.
#[derive(Debug, Clone, Copy, PartialEq, Eq, Structural)]
pub enum TrustPermission {
    AutoAct,
    AskFirst,
    ObserveOnly,
    Paused,
}

/// The band a trust level falls in: below 0.2, below 0.3, below 0.5, below
/// 0.8, and from 0.8 up.
#[derive(Debug, Clone, Copy, PartialEq, Eq, Structural)]
pub enum TrustBand {
    Paused,
    Observing,
    Low,
    Medium,
    High,
}

/// The permission for an action of `urgency` at a trust level in `band`: paused
/// and observing bands act on nothing; a high level acts on all but critical
/// actions, a medium one on low and medium urgency; otherwise ask first.
pub open spec fn permission(band: TrustBand, urgency: Urgency) -> TrustPermission {
    match band {
        TrustBand::Paused => TrustPermission::Paused,
        TrustBand::Observing => TrustPermission::ObserveOnly,
        TrustBand::High => if urgency == Urgency::Critical {
            TrustPermission::AskFirst
        } else {
            TrustPermission::AutoAct
        },
        TrustBand::Medium => if urgency == Urgency::Low || urgency == Urgency::Medium {
            TrustPermission::AutoAct
        } else {
            TrustPermission::AskFirst
        },
        TrustBand::Low => TrustPermission::AskFirst,
    }
}

/// Urgencies from least to most urgent.
pub open spec fn urgency_rank(u: Urgency) -> int {
    match u {
        Urgency::Low => 0,
        Urgency::Medium => 1,
        Urgency::High => 2,
        Urgency::Critical => 3,
    }
}

/// Trust bands from least to most trusted.
pub open spec fn band_rank(b: TrustBand) -> int {
    match b {
        TrustBand::Paused => 0,
        TrustBand::Observing => 1,
        TrustBand::Low => 2,
        TrustBand::Medium => 3,
        TrustBand::High => 4,
    }
}

/// Acting alone is monotone: what the daemon does on its own at some
/// urgency it also does at any lower urgency, and at any higher trust band.
pub proof fn lemma_auto_act_monotone(b1: TrustBand, u1: Urgency, b2: TrustBand, u2: Urgency)
    requires
        permission(b2, u2) == TrustPermission::AutoAct,
        urgency_rank(u1) <= urgency_rank(u2),
        band_rank(b2) <= band_rank(b1),
    ensures
        permission(b1, u1) == TrustPermission::AutoAct,
{
}

/// Where the bands stand: from 0.5 up (medium and high bands) the daemon acts
/// alone on low and medium urgency, from 0.8 up on high urgency too, and
/// between 0.5 and 0.8 it asks first about high urgency; a critical action is never taken alone;
/// below 0.5 nothing is taken alone; a paused level pauses and an observing
/// one only observes, whatever the urgency.
pub proof fn lemma_bands(b: TrustBand, u: Urgency)
    ensures
        band_rank(b) >= 3 && urgency_rank(u) <= 1 ==> permission(b, u) == TrustPermission::AutoAct,
        b == TrustBand::High && urgency_rank(u) <= 2 ==> permission(b, u) == TrustPermission::AutoAct,
        b == TrustBand::Medium && urgency_rank(u) >= 2 ==> permission(b, u) == TrustPermission::AskFirst,
        u == Urgency::Critical ==> permission(b, u) != TrustPermission::AutoAct,
        band_rank(b) <= 2 ==> permission(b, u) != TrustPermission::AutoAct,
        b == TrustBand::Paused ==> permission(b, u) == TrustPermission::Paused,
        b == TrustBand::Observing ==> permission(b, u) == TrustPermission::ObserveOnly,
        band_rank(b) >= 2 && permission(b, u) != TrustPermission::AutoAct ==> permission(b, u)
            == TrustPermission::AskFirst,
{
}

impl TrustPermission {
    /// The permission for an action of `urgency` at a trust level in `band`.
    pub fn permission_for(band: TrustBand, urgency: Urgency) -> (r: TrustPermission)
        ensures
            r == permission(band, urgency),
    {
        match band {
            TrustBand::Paused => TrustPermission::Paused,
            TrustBand::Observing => TrustPermission::ObserveOnly,
            TrustBand::High => match urgency {
                Urgency::Critical => TrustPermission::AskFirst,
                _ => TrustPermission::AutoAct,
            },
            TrustBand::Medium => match urgency {
                Urgency::Low | Urgency::Medium => TrustPermission::AutoAct,
                _ => TrustPermission::AskFirst,
            },
            TrustBand::Low => TrustPermission::AskFirst,
        }
    }

    /// Whether the daemon acts on its own.
    pub fn should_auto_act(band: TrustBand, urgency: Urgency) -> (b: bool)
        ensures
            b == (permission(band, urgency) == TrustPermission::AutoAct),
    {
        Self::permission_for(band, urgency) == TrustPermission::AutoAct
    }
}

} // verus!
