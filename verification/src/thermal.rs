//! Thermal fallback: when fans reach a critical temperature, the profile is
//! stepped down to Quiet, and once temperatures have stayed below critical
//! for the cooldown, the profile that was active before is restored.
use crate::power::Profile;
use vstd::prelude::*;

verus! {

/// What the daemon does about the profile after a round of fan control.
#[derive(Clone, Copy, Debug, PartialEq, Eq, Structural)]
pub enum FallbackAction {
    /// Leave the profile alone.
    Stay,
    /// Switch to Quiet (a `fallback_down` event).
    StepDown,
    /// Switch back to this profile (a `fallback_up` event).
    Restore(Profile),
}

/// The fallback's memory: the profile to restore while stepped down, and
/// how many rounds in a row have been below critical since.
#[derive(Clone, Copy, Debug, PartialEq, Eq, Structural)]
pub struct ThermalFallback {
    pub saved: Option<Profile>,
    pub calm_rounds: u32,
}

/// The fallback after a round, and what it asks for. `current` is the
/// active profile, `None` before one is applied; rounds are a second each,
/// so the cooldown counts rounds.
pub open spec fn fallback_step(
    f: ThermalFallback,
    enabled: bool,
    critical: bool,
    current: Option<Profile>,
    cooldown: u32,
) -> (ThermalFallback, FallbackAction) {
    if critical {
        if enabled && f.saved is None && current is Some && current != Some(Profile::Quiet) {
            (ThermalFallback { saved: current, calm_rounds: 0 }, FallbackAction::StepDown)
        } else {
            (ThermalFallback { saved: f.saved, calm_rounds: 0 }, FallbackAction::Stay)
        }
    } else {
        match f.saved {
            Some(p) => if f.calm_rounds + 1 >= cooldown {
                (ThermalFallback { saved: None, calm_rounds: 0 }, FallbackAction::Restore(p))
            } else {
                (ThermalFallback { saved: f.saved, calm_rounds: (f.calm_rounds + 1) as u32 }, FallbackAction::Stay)
            },
            None => (f, FallbackAction::Stay),
        }
    }
}

impl ThermalFallback {
    /// Not stepped down.
    pub fn new() -> (f: Self)
        ensures
            f.saved is None,
            f.calm_rounds == 0,
    {
        ThermalFallback { saved: None, calm_rounds: 0 }
    }

    /// Takes a round's outcome: a critical round steps an enabled fallback
    /// down from any profile but Quiet, remembering that profile; below
    /// critical for `cooldown` rounds in a row, the remembered profile comes
    /// back.
    pub fn on_round(&mut self, enabled: bool, critical: bool, current: Option<Profile>, cooldown: u32) -> (a:
        FallbackAction)
        requires
            old(self).calm_rounds < u32::MAX,
        ensures
            (*final(self), a) == fallback_step(*old(self), enabled, critical, current, cooldown),
            final(self).calm_rounds < u32::MAX,
    {
        if critical {
            self.calm_rounds = 0;
            if enabled && self.saved.is_none() && current.is_some() && current != Some(Profile::Quiet) {
                self.saved = current;
                return FallbackAction::StepDown;
            }
            return FallbackAction::Stay;
        }
        match self.saved {
            Some(p) => {
                if self.calm_rounds + 1 >= cooldown {
                    self.saved = None;
                    self.calm_rounds = 0;
                    FallbackAction::Restore(p)
                } else {
                    self.calm_rounds = self.calm_rounds + 1;
                    FallbackAction::Stay
                }
            },
            None => FallbackAction::Stay,
        }
    }
}

/// A step-down is undone by the cooldown: after stepping down from profile
/// `p`, `cooldown` rounds below critical (at least one) bring `p` back.
pub proof fn lemma_cooldown_restores(p: Profile, cooldown: u32, k: u32)
    requires
        p != Profile::Quiet,
        1 <= cooldown,
        k + 1 < cooldown,
    ensures
        ({
            let (f1, a1) = fallback_step(ThermalFallback { saved: None, calm_rounds: 0 }, true, true, Some(p), cooldown);
            &&& a1 == FallbackAction::StepDown
            &&& f1.saved == Some(p)
            &&& fallback_step(ThermalFallback { saved: Some(p), calm_rounds: k }, true, false, Some(Profile::Quiet), cooldown).1
                == FallbackAction::Stay
            &&& fallback_step(
                ThermalFallback { saved: Some(p), calm_rounds: (cooldown - 1) as u32 },
                true,
                false,
                Some(Profile::Quiet),
                cooldown,
            ).1 == FallbackAction::Restore(p)
        }),
{
}

/// A disabled fallback never changes the profile.
pub proof fn lemma_disabled_stays(f: ThermalFallback, critical: bool, current: Option<Profile>, cooldown: u32)
    requires
        f.saved is None,
    ensures
        fallback_step(f, false, critical, current, cooldown).1 == FallbackAction::Stay,
{
}

} // verus!
