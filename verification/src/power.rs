//! Power profiles: their names on each interface, the settings each one
//! applies, the profile restored at start, and the daemon's record of the
//! active profile and of the profile holds that applications take.
use crate::text::{str_eq, string_of, trim, trim_spec};
use vstd::arithmetic::power2::{lemma2_to64, pow2};
use vstd::prelude::*;

verus! {

/// The three power profiles.
#[derive(Clone, Copy, Debug, PartialEq, Eq, Structural)]
pub enum Profile {
    Quiet,
    Balanced,
    Performance,
}

/// The daemon's name of a profile, as its own D-Bus interface and the state
/// file use it.
pub open spec fn profile_name(p: Profile) -> Seq<char> {
    match p {
        Profile::Quiet => "Quiet"@,
        Profile::Balanced => "Balanced"@,
        Profile::Performance => "Performance"@,
    }
}

/// The name of a profile on the freedesktop power-profiles interface.
pub open spec fn upp_name(p: Profile) -> Seq<char> {
    match p {
        Profile::Quiet => "power-saver"@,
        Profile::Balanced => "balanced"@,
        Profile::Performance => "performance"@,
    }
}

/// The name of a profile on the command line and in watcher rules.
pub open spec fn cli_name(p: Profile) -> Seq<char> {
    match p {
        Profile::Quiet => "quiet"@,
        Profile::Balanced => "balanced"@,
        Profile::Performance => "performance"@,
    }
}

pub open spec fn profile_named(s: Seq<char>) -> Option<Profile> {
    if s == "Quiet"@ {
        Some(Profile::Quiet)
    } else if s == "Balanced"@ {
        Some(Profile::Balanced)
    } else if s == "Performance"@ {
        Some(Profile::Performance)
    } else {
        None
    }
}

pub open spec fn upp_named(s: Seq<char>) -> Option<Profile> {
    if s == "power-saver"@ {
        Some(Profile::Quiet)
    } else if s == "balanced"@ {
        Some(Profile::Balanced)
    } else if s == "performance"@ {
        Some(Profile::Performance)
    } else {
        None
    }
}

pub open spec fn cli_named(s: Seq<char>) -> Option<Profile> {
    if s == "quiet"@ {
        Some(Profile::Quiet)
    } else if s == "balanced"@ {
        Some(Profile::Balanced)
    } else if s == "performance"@ {
        Some(Profile::Performance)
    } else {
        None
    }
}

impl Profile {
    /// The daemon's name of the profile.
    pub fn name(&self) -> (s: &'static str)
        ensures
            s@ == profile_name(*self),
    {
        match self {
            Profile::Quiet => "Quiet",
            Profile::Balanced => "Balanced",
            Profile::Performance => "Performance",
        }
    }

    /// The profile of a daemon name, matched exactly.
    pub fn from_name(s: &str) -> (r: Option<Profile>)
        ensures
            r == profile_named(s@),
    {
        if str_eq(s, "Quiet") {
            Some(Profile::Quiet)
        } else if str_eq(s, "Balanced") {
            Some(Profile::Balanced)
        } else if str_eq(s, "Performance") {
            Some(Profile::Performance)
        } else {
            None
        }
    }

    /// The power-profiles name of the profile.
    pub fn upp_name(&self) -> (s: &'static str)
        ensures
            s@ == upp_name(*self),
    {
        match self {
            Profile::Quiet => "power-saver",
            Profile::Balanced => "balanced",
            Profile::Performance => "performance",
        }
    }

    /// The profile of a power-profiles name; `None` for a name the
    /// interface does not define, which the daemon refuses.
    pub fn from_upp_name(s: &str) -> (r: Option<Profile>)
        ensures
            r == upp_named(s@),
    {
        if str_eq(s, "power-saver") {
            Some(Profile::Quiet)
        } else if str_eq(s, "balanced") {
            Some(Profile::Balanced)
        } else if str_eq(s, "performance") {
            Some(Profile::Performance)
        } else {
            None
        }
    }

    /// The profile of a command-line name.
    pub fn from_cli_name(s: &str) -> (r: Option<Profile>)
        ensures
            r == cli_named(s@),
    {
        if str_eq(s, "quiet") {
            Some(Profile::Quiet)
        } else if str_eq(s, "balanced") {
            Some(Profile::Balanced)
        } else if str_eq(s, "performance") {
            Some(Profile::Performance)
        } else {
            None
        }
    }
}

/// A daemon profile name on the power-profiles interface; `unknown` for a
/// name that is not one.
pub fn profile_to_upp_str(name: &str) -> (r: &'static str)
    ensures
        r@ == match profile_named(name@) {
            Some(p) => upp_name(p),
            None => "unknown"@,
        },
{
    match Profile::from_name(name) {
        Some(p) => p.upp_name(),
        None => "unknown",
    }
}

/// The profile saved in the state file: its contents trimmed, when that is
/// one of the three daemon names. Anything else is ignored.
pub fn saved_profile(contents: &str) -> (r: Option<String>)
    ensures
        match profile_named(trim_spec(contents@)) {
            Some(p) => r matches Some(s) && s@ == profile_name(p),
            None => r is None,
        },
{
    let trimmed = trim(contents);
    match Profile::from_name(trimmed.as_str()) {
        Some(_) => Some(trimmed),
        None => None,
    }
}

/// What the state file is given back: saving a profile's name and reading
/// the file again yields that profile, both as the saved name and as the
/// profile applied at start.
pub proof fn lemma_saved_profile_roundtrip(p: Profile)
    ensures
        profile_named(trim_spec(profile_name(p))) == Some(p),
        initial_choice(Some(trim_spec(profile_name(p)))) == p,
{
    reveal_strlit("Quiet");
    reveal_strlit("Balanced");
    reveal_strlit("Performance");
    crate::text::lemma_trim_unchanged(profile_name(p));
}

/// The profile applied at start: Quiet and Performance as saved, Balanced
/// for anything else or nothing.
pub open spec fn initial_choice(saved: Option<Seq<char>>) -> Profile {
    match saved {
        Some(s) => if s == "Quiet"@ {
            Profile::Quiet
        } else if s == "Performance"@ {
            Profile::Performance
        } else {
            Profile::Balanced
        },
        None => Profile::Balanced,
    }
}

/// The profile applied at start from the saved name: Quiet and Performance
/// as saved, Balanced otherwise.
pub fn initial_profile(saved: Option<&str>) -> (p: Profile)
    ensures
        p == initial_choice(
            match saved {
                Some(s) => Some(s@),
                None => None,
            },
        ),
{
    match saved {
        Some(s) => if str_eq(s, "Quiet") {
            Profile::Quiet
        } else if str_eq(s, "Performance") {
            Profile::Performance
        } else {
            Profile::Balanced
        },
        None => Profile::Balanced,
    }
}

/// Whether PCI runtime power management is used, from the value of
/// `S76_POWER_PCI_RUNTIME_PM` when it is set: on unless it is `0`.
pub fn pci_runtime_pm_enabled(value: Option<&str>) -> (r: bool)
    ensures
        r == !(value matches Some(v) && v@ == "0"@),
{
    match value {
        Some(v) => !str_eq(v, "0"),
        None => true,
    }
}

/// Attempts to take a bus name before giving up.
pub const MAX_DBUS_RETRIES: u32 = 5;

/// How long to wait after failed attempt `attempt` (counted from 1) before
/// the next one: 500 ms, doubled after each failure; `None` after the last
/// attempt.
pub fn retry_delay_ms(attempt: u32) -> (r: Option<u64>)
    requires
        attempt >= 1,
    ensures
        attempt < MAX_DBUS_RETRIES ==> r == Some((500 * pow2((attempt - 1) as nat)) as u64),
        attempt >= MAX_DBUS_RETRIES ==> r is None,
{
    proof {
        lemma2_to64();
    }
    if attempt >= MAX_DBUS_RETRIES {
        return None;
    }
    let mut delay: u64 = 500;
    let mut k: u32 = 1;
    while k < attempt
        invariant
            1 <= k <= attempt < MAX_DBUS_RETRIES,
            delay == 500 * pow2((k - 1) as nat),
            pow2(0) == 1 && pow2(1) == 2 && pow2(2) == 4 && pow2(3) == 8,
        decreases attempt - k,
    {
        delay = delay * 2;
        k = k + 1;
    }
    Some(delay)
}

/// The error when a bus name could not be taken after every attempt.
pub fn dbus_give_up_message(bus_name: &str, last_error: &str) -> (s: String)
    ensures
        s@ == "failed to acquire "@ + bus_name@ + " after 5 attempts, check if another instance is running: "@
            + last_error@,
{
    let mut s = string_of("failed to acquire ");
    s.append(bus_name);
    s.append(" after 5 attempts, check if another instance is running: ");
    s.append(last_error);
    s
}

// ---------------------------------------------------------------------
// What each profile sets
// ---------------------------------------------------------------------

/// The settings of Radeon cards: power profile, DPM state, forced DPM
/// performance level.
#[derive(Clone, Copy, Debug)]
pub struct RadeonSettings {
    pub power_profile: &'static str,
    pub dpm_state: &'static str,
    pub dpm_perf: &'static str,
}

/// Intel P-state limits.
#[derive(Clone, Copy, Debug)]
pub struct PStateSettings {
    pub min_perf_pct: u8,
    pub max_perf_pct: u8,
    pub no_turbo: bool,
    /// `None` leaves dynamic boost as it is.
    pub hwp_dynamic_boost: Option<bool>,
}

/// Everything a profile sets.
#[derive(Clone, Copy, Debug)]
pub struct ProfileSettings {
    /// Seconds of writeback the kernel may hold.
    pub dirty_max_lost_work: u32,
    pub radeon: RadeonSettings,
    /// Link power management policies for SCSI hosts, tried in order.
    pub scsi_policies: (&'static str, &'static str),
    /// Whether PCI devices get runtime power management (when it is used at all).
    pub pci_runtime_pm_on: bool,
    /// The CPU frequency ceiling, in percent.
    pub cpu_max_percent: u8,
    pub pstate: PStateSettings,
    /// Whether PCI runtime power management is set before the P-state
    /// limits (so that its error is reported first).
    pub pci_before_pstate: bool,
}

/// The settings of each profile.
pub open spec fn settings_of(p: Profile, s: ProfileSettings) -> bool {
    &&& s.dirty_max_lost_work == 15
    &&& match p {
        Profile::Quiet => {
            &&& s.radeon.power_profile@ == "low"@
            &&& s.radeon.dpm_state@ == "battery"@
            &&& s.radeon.dpm_perf@ == "low"@
            &&& s.scsi_policies.0@ == "min_power"@
            &&& s.scsi_policies.1@ == "min_power"@
            &&& s.pci_runtime_pm_on
            &&& s.cpu_max_percent == 50
            &&& s.pstate == PStateSettings {
                min_perf_pct: 0,
                max_perf_pct: 50,
                no_turbo: true,
                hwp_dynamic_boost: None,
            }
            &&& !s.pci_before_pstate
        },
        Profile::Balanced => {
            &&& s.radeon.power_profile@ == "auto"@
            &&& s.radeon.dpm_state@ == "performance"@
            &&& s.radeon.dpm_perf@ == "auto"@
            &&& s.scsi_policies.0@ == "med_power_with_dipm"@
            &&& s.scsi_policies.1@ == "medium_power"@
            &&& s.pci_runtime_pm_on
            &&& s.cpu_max_percent == 100
            &&& s.pstate == PStateSettings {
                min_perf_pct: 0,
                max_perf_pct: 100,
                no_turbo: false,
                hwp_dynamic_boost: Some(true),
            }
            &&& s.pci_before_pstate
        },
        Profile::Performance => {
            &&& s.radeon.power_profile@ == "high"@
            &&& s.radeon.dpm_state@ == "performance"@
            &&& s.radeon.dpm_perf@ == "auto"@
            &&& s.scsi_policies.0@ == "med_power_with_dipm"@
            &&& s.scsi_policies.1@ == "max_performance"@
            &&& !s.pci_runtime_pm_on
            &&& s.cpu_max_percent == 100
            &&& s.pstate == PStateSettings {
                min_perf_pct: 0,
                max_perf_pct: 100,
                no_turbo: false,
                hwp_dynamic_boost: Some(true),
            }
            &&& !s.pci_before_pstate
        },
    }
}

/// What profile `p` sets.
pub fn profile_settings(p: Profile) -> (s: ProfileSettings)
    ensures
        settings_of(p, s),
{
    match p {
        Profile::Quiet => ProfileSettings {
            dirty_max_lost_work: 15,
            radeon: RadeonSettings { power_profile: "low", dpm_state: "battery", dpm_perf: "low" },
            scsi_policies: ("min_power", "min_power"),
            pci_runtime_pm_on: true,
            cpu_max_percent: 50,
            pstate: PStateSettings {
                min_perf_pct: 0,
                max_perf_pct: 50,
                no_turbo: true,
                hwp_dynamic_boost: None,
            },
            pci_before_pstate: false,
        },
        Profile::Balanced => ProfileSettings {
            dirty_max_lost_work: 15,
            radeon: RadeonSettings {
                power_profile: "auto",
                dpm_state: "performance",
                dpm_perf: "auto",
            },
            scsi_policies: ("med_power_with_dipm", "medium_power"),
            pci_runtime_pm_on: true,
            cpu_max_percent: 100,
            pstate: PStateSettings {
                min_perf_pct: 0,
                max_perf_pct: 100,
                no_turbo: false,
                hwp_dynamic_boost: Some(true),
            },
            pci_before_pstate: true,
        },
        Profile::Performance => ProfileSettings {
            dirty_max_lost_work: 15,
            radeon: RadeonSettings {
                power_profile: "high",
                dpm_state: "performance",
                dpm_perf: "auto",
            },
            scsi_policies: ("med_power_with_dipm", "max_performance"),
            pci_runtime_pm_on: false,
            cpu_max_percent: 100,
            pstate: PStateSettings {
                min_perf_pct: 0,
                max_perf_pct: 100,
                no_turbo: false,
                hwp_dynamic_boost: Some(true),
            },
            pci_before_pstate: false,
        },
    }
}

// ---------------------------------------------------------------------
// The active profile and the holds
// ---------------------------------------------------------------------

/// A profile an application holds.
#[derive(Clone, Copy, Debug, PartialEq, Eq, Structural)]
pub enum HoldTarget {
    PowerSaver,
    Balanced,
    Performance,
}

pub open spec fn hold_target_named(s: Seq<char>) -> Option<HoldTarget> {
    if s == "power-saver"@ {
        Some(HoldTarget::PowerSaver)
    } else if s == "balanced"@ {
        Some(HoldTarget::Balanced)
    } else if s == "performance"@ {
        Some(HoldTarget::Performance)
    } else {
        None
    }
}

pub open spec fn hold_target_name(t: HoldTarget) -> Seq<char> {
    match t {
        HoldTarget::PowerSaver => "power-saver"@,
        HoldTarget::Balanced => "balanced"@,
        HoldTarget::Performance => "performance"@,
    }
}

impl HoldTarget {
    /// The held profile's name on the power-profiles interface.
    pub fn name(&self) -> (s: &'static str)
        ensures
            s@ == hold_target_name(*self),
    {
        match self {
            HoldTarget::PowerSaver => "power-saver",
            HoldTarget::Balanced => "balanced",
            HoldTarget::Performance => "performance",
        }
    }

    pub fn from_name(s: &str) -> (r: Option<HoldTarget>)
        ensures
            r == hold_target_named(s@),
    {
        if str_eq(s, "power-saver") {
            Some(HoldTarget::PowerSaver)
        } else if str_eq(s, "balanced") {
            Some(HoldTarget::Balanced)
        } else if str_eq(s, "performance") {
            Some(HoldTarget::Performance)
        } else {
            None
        }
    }
}

/// One hold: the cookie handed back to the application, the profile held,
/// and the reason and application given.
#[derive(Debug)]
pub struct HeldProfile {
    pub cookie: u32,
    pub profile: HoldTarget,
    pub reason: String,
    pub application_id: String,
}

/// Why a hold was refused.
#[derive(Clone, Copy, Debug, PartialEq, Eq, Structural)]
pub enum HoldError {
    /// The profile named is not one of the power-profiles names.
    UnknownProfile,
}

/// The profile the holds ask for: power-saver when any hold asks for it,
/// else performance when any does, else balanced while a hold remains; with
/// no hold left, the profile that was active before the first hold
/// (balanced when there was none).
pub open spec fn held_choice(h: Seq<HeldProfile>, before: Option<Profile>) -> Profile {
    if exists|i: int| 0 <= i < h.len() && (#[trigger] h[i]).profile == HoldTarget::PowerSaver {
        Profile::Quiet
    } else if exists|i: int| 0 <= i < h.len() && (#[trigger] h[i]).profile == HoldTarget::Performance {
        Profile::Performance
    } else if h.len() == 0 && before is Some {
        before.unwrap()
    } else {
        Profile::Balanced
    }
}

/// Every cookie below `next`, and no two holds with the same cookie.
pub open spec fn cookies_fresh(h: Seq<HeldProfile>, next: u32) -> bool {
    &&& forall|i: int| 0 <= i < h.len() ==> (#[trigger] h[i]).cookie < next
    &&& forall|i: int, j: int| 0 <= i < j < h.len() ==> (#[trigger] h[i]).cookie != (#[trigger] h[j]).cookie
}

/// The position of the hold with `cookie`, if there is one.
pub open spec fn cookie_position(h: Seq<HeldProfile>, cookie: u32) -> Option<int> {
    if exists|i: int| 0 <= i < h.len() && (#[trigger] h[i]).cookie == cookie {
        Some(choose|i: int| 0 <= i < h.len() && (#[trigger] h[i]).cookie == cookie)
    } else {
        None
    }
}

/// The holds after the one at `i` is removed, the last taking its place.
pub open spec fn swap_removed(h: Seq<HeldProfile>, i: int) -> Seq<HeldProfile> {
    h.update(i, h.last()).drop_last()
}

/// The holds after releasing `cookie`.
pub open spec fn released(h: Seq<HeldProfile>, cookie: u32) -> Seq<HeldProfile> {
    match cookie_position(h, cookie) {
        Some(i) => swap_removed(h, i),
        None => h,
    }
}

/// The message of a profile change that met errors: a heading, then each
/// error on a line of its own.
pub open spec fn apply_error_message(errs: Seq<Seq<char>>) -> Seq<char>
    decreases errs.len(),
{
    if errs.len() == 0 {
        "Errors found when setting profile:"@
    } else {
        apply_error_message(errs.drop_last()) + "\n    - "@ + errs.last()
    }
}

pub open spec fn string_views(v: Seq<String>) -> Seq<Seq<char>> {
    v.map_values(|s: String| s@)
}

/// The daemon's active profile and the holds on it.
pub struct ProfileState {
    power_profile: String,
    held: Vec<HeldProfile>,
    next_cookie: u32,
    before_holds: Option<Profile>,
}

impl ProfileState {
    /// The active profile's name; empty before the first profile is applied.
    pub closed spec fn profile(&self) -> Seq<char> {
        self.power_profile@
    }

    /// The holds, in the order the record keeps them.
    pub closed spec fn holds(&self) -> Seq<HeldProfile> {
        self.held@
    }

    /// The cookie the next hold gets.
    pub closed spec fn next_cookie(&self) -> u32 {
        self.next_cookie
    }

    /// The profile that was active when the first of the current holds was
    /// taken, to return to once they are all released.
    pub closed spec fn before_holds(&self) -> Option<Profile> {
        self.before_holds
    }

    pub open spec fn wf(&self) -> bool {
        cookies_fresh(self.holds(), self.next_cookie())
    }

    pub fn new() -> (s: Self)
        ensures
            s.wf(),
            s.profile() == Seq::<char>::empty(),
            s.holds() == Seq::<HeldProfile>::empty(),
            s.next_cookie() == 0,
            s.before_holds() is None,
    {
        ProfileState {
            power_profile: String::new(),
            held: Vec::new(),
            next_cookie: 0,
            before_holds: None,
        }
    }

    /// The active profile's name.
    pub fn power_profile(&self) -> (s: &str)
        ensures
            s@ == self.profile(),
    {
        self.power_profile.as_str()
    }

    /// The active profile on the power-profiles interface.
    pub fn active_profile(&self) -> (s: &'static str)
        ensures
            s@ == match profile_named(self.profile()) {
                Some(p) => upp_name(p),
                None => "unknown"@,
            },
    {
        profile_to_upp_str(self.power_profile.as_str())
    }

    /// Whether every cookie has been handed out, so that no hold can be taken.
    pub fn cookies_exhausted(&self) -> (r: bool)
        ensures
            r == (self.next_cookie() == u32::MAX),
    {
        self.next_cookie == u32::MAX
    }

    /// The live list of holds.
    pub fn active_holds(&self) -> (h: &Vec<HeldProfile>)
        ensures
            h@ == self.holds(),
    {
        &self.held
    }

    /// Whether applying the profile named `name` changes anything: not when
    /// it is already the active one.
    pub fn needs_switch(&self, name: &str) -> (r: bool)
        ensures
            r == switch_needed(self.profile(), name@),
    {
        !str_eq(self.power_profile.as_str(), name)
    }

    /// Records that the profile named `name` was applied, with the messages
    /// of the errors met on the way; succeeds when there were none.
    pub fn finish_apply(&mut self, name: &str, errors: &Vec<String>) -> (r: Result<(), String>)
        requires
            old(self).wf(),
        ensures
            final(self).wf(),
            final(self).profile() == name@,
            final(self).holds() == old(self).holds(),
            final(self).next_cookie() == old(self).next_cookie(),
            final(self).before_holds() == old(self).before_holds(),
            r is Ok <==> errors@.len() == 0,
            r matches Err(m) ==> m@ == apply_error_message(string_views(errors@)),
    {
        self.power_profile = string_of(name);
        if errors.len() == 0 {
            return Ok(());
        }
        let mut msg = string_of("Errors found when setting profile:");
        let mut i: usize = 0;
        while i < errors.len()
            invariant
                i <= errors@.len(),
                msg@ == apply_error_message(string_views(errors@).subrange(0, i as int)),
            decreases errors@.len() - i,
        {
            msg.append("\n    - ");
            msg.append(errors[i].as_str());
            i = i + 1;
            assert(string_views(errors@).subrange(0, i as int).drop_last() =~= string_views(
                errors@,
            ).subrange(0, i as int - 1));
        }
        assert(string_views(errors@).subrange(0, i as int) =~= string_views(errors@));
        Err(msg)
    }

    /// Takes a hold on the power-profiles profile named `profile` and hands
    /// back its cookie; a name that is not a power-profiles name is refused.
    /// The first of a run of holds records the active profile, to return to
    /// when the last is released.
    pub fn hold_profile(&mut self, profile: &str, reason: &str, application_id: &str) -> (r: Result<
        u32,
        HoldError,
    >)
        requires
            old(self).wf(),
            old(self).next_cookie() < u32::MAX,
        ensures
            final(self).wf(),
            final(self).profile() == old(self).profile(),
            match hold_target_named(profile@) {
                Some(t) => {
                    &&& r == Ok::<u32, HoldError>(old(self).next_cookie())
                    &&& final(self).next_cookie() == old(self).next_cookie() + 1
                    &&& final(self).holds().len() == old(self).holds().len() + 1
                    &&& final(self).holds().drop_last() == old(self).holds()
                    &&& final(self).holds().last().cookie == old(self).next_cookie()
                    &&& final(self).holds().last().profile == t
                    &&& final(self).holds().last().reason@ == reason@
                    &&& final(self).holds().last().application_id@ == application_id@
                    &&& final(self).before_holds() == if old(self).holds().len() == 0 {
                        profile_named(old(self).profile())
                    } else {
                        old(self).before_holds()
                    }
                },
                None => {
                    &&& r == Err::<u32, HoldError>(HoldError::UnknownProfile)
                    &&& final(self).holds() == old(self).holds()
                    &&& final(self).next_cookie() == old(self).next_cookie()
                    &&& final(self).before_holds() == old(self).before_holds()
                },
            },
    {
        let target = match HoldTarget::from_name(profile) {
            Some(t) => t,
            None => {
                return Err(HoldError::UnknownProfile);
            },
        };
        if self.held.len() == 0 {
            self.before_holds = Profile::from_name(self.power_profile.as_str());
        }
        let id = self.next_cookie;
        self.next_cookie = id + 1;
        self.held.push(
            HeldProfile {
                cookie: id,
                profile: target,
                reason: string_of(reason),
                application_id: string_of(application_id),
            },
        );
        assert(self.held@.drop_last() =~= old(self).held@);
        Ok(id)
    }

    /// Releases the hold with `cookie`; says whether there was one.
    pub fn release_profile(&mut self, cookie: u32) -> (r: bool)
        requires
            old(self).wf(),
        ensures
            final(self).wf(),
            final(self).profile() == old(self).profile(),
            final(self).next_cookie() == old(self).next_cookie(),
            final(self).before_holds() == old(self).before_holds(),
            r == (cookie_position(old(self).holds(), cookie) is Some),
            final(self).holds() == released(old(self).holds(), cookie),
    {
        let mut i: usize = 0;
        while i < self.held.len()
            invariant
                *self == *old(self),
                old(self).wf(),
                i <= self.held@.len(),
                forall|k: int| 0 <= k < i ==> (#[trigger] self.held@[k]).cookie != cookie,
            decreases self.held@.len() - i,
        {
            if self.held[i].cookie == cookie {
                let ghost before = self.held@;
                proof {
                    lemma_cookie_position(before, cookie, i as int);
                }
                let _ = self.held.swap_remove(i);
                proof {
                    lemma_swap_removed_fresh(before, i as int, self.next_cookie);
                }
                return true;
            }
            i = i + 1;
        }
        false
    }

    /// The profile the holds ask for, or the one to return to once none is left.
    pub fn held_profile(&self) -> (p: Profile)
        ensures
            p == held_choice(self.holds(), self.before_holds()),
            (exists|i: int|
                0 <= i < self.holds().len() && (#[trigger] self.holds()[i]).profile
                    == HoldTarget::PowerSaver) ==> p == Profile::Quiet,
            (forall|i: int|
                0 <= i < self.holds().len() ==> (#[trigger] self.holds()[i]).profile
                    != HoldTarget::PowerSaver) && (exists|i: int|
                0 <= i < self.holds().len() && (#[trigger] self.holds()[i]).profile
                    == HoldTarget::Performance) ==> p == Profile::Performance,
    {
        proof {
            lemma_hold_precedence(self.holds(), self.before_holds());
        }
        if self.held.len() == 0 {
            return match self.before_holds {
                Some(p) => p,
                None => Profile::Balanced,
            };
        }
        let mut choice = Profile::Balanced;
        let mut i: usize = 0;
        while i < self.held.len()
            invariant
                i <= self.held@.len(),
                forall|k: int| 0 <= k < i ==> (#[trigger] self.held@[k]).profile != HoldTarget::PowerSaver,
                choice == Profile::Performance <==> exists|k: int|
                    0 <= k < i && (#[trigger] self.held@[k]).profile == HoldTarget::Performance,
                choice == Profile::Balanced || choice == Profile::Performance,
            decreases self.held@.len() - i,
        {
            match self.held[i].profile {
                HoldTarget::PowerSaver => {
                    return Profile::Quiet;
                },
                HoldTarget::Performance => {
                    choice = Profile::Performance;
                },
                HoldTarget::Balanced => {},
            }
            i = i + 1;
        }
        choice
    }
}

proof fn lemma_cookie_position(h: Seq<HeldProfile>, cookie: u32, i: int)
    requires
        0 <= i < h.len(),
        h[i].cookie == cookie,
        forall|a: int, b: int| 0 <= a < b < h.len() ==> (#[trigger] h[a]).cookie != (#[trigger] h[b]).cookie,
    ensures
        cookie_position(h, cookie) == Some(i),
{
    let j = choose|j: int| 0 <= j < h.len() && (#[trigger] h[j]).cookie == cookie;
    if j != i {
        if j < i {
            assert(h[j].cookie != h[i].cookie);
        } else {
            assert(h[i].cookie != h[j].cookie);
        }
    }
}

proof fn lemma_swap_removed_fresh(h: Seq<HeldProfile>, i: int, next: u32)
    requires
        0 <= i < h.len(),
        cookies_fresh(h, next),
    ensures
        cookies_fresh(swap_removed(h, i), next),
{
    let r = swap_removed(h, i);
    let n = h.len() - 1;
    assert forall|a: int, b: int| 0 <= a < b < r.len() implies (#[trigger] r[a]).cookie != (
    #[trigger] r[b]).cookie by {
        let pa = if a == i { n } else { a };
        let pb = if b == i { n } else { b };
        assert(r[a] == h[pa]);
        assert(r[b] == h[pb]);
        assert(pa != pb);
        if pa < pb {
            assert(h[pa].cookie != h[pb].cookie);
        } else {
            assert(h[pb].cookie != h[pa].cookie);
        }
    }
    assert forall|a: int| 0 <= a < r.len() implies (#[trigger] r[a]).cookie < next by {
        if a == i {
            assert(r[a] == h[n]);
        } else {
            assert(r[a] == h[a]);
        }
    }
}

/// Releasing the cookie a hold handed back undoes the hold: the holds are
/// those before it.
pub proof fn lemma_release_undoes_hold(before: Seq<HeldProfile>, next: u32, after: Seq<HeldProfile>)
    requires
        cookies_fresh(before, next),
        after.len() == before.len() + 1,
        after.drop_last() == before,
        after.last().cookie == next,
    ensures
        released(after, next) == before,
{
    let n = before.len() as int;
    assert(after[n].cookie == next);
    assert forall|k: int| 0 <= k < n implies (#[trigger] after[k]).cookie != next by {
        assert(after[k] == before[k]);
    }
    let j = choose|j: int| 0 <= j < after.len() && (#[trigger] after[j]).cookie == next;
    assert(j == n);
    assert(swap_removed(after, n) =~= before);
}

/// The profile the holds ask for follows a fixed precedence: any
/// power-saver hold wins; else any performance hold wins, wherever it stands
/// among the holds; holds of balanced alone give balanced; with no hold,
/// the profile from before the holds (balanced when there was none).
pub proof fn lemma_hold_precedence(h: Seq<HeldProfile>, before: Option<Profile>)
    ensures
        (exists|i: int| 0 <= i < h.len() && (#[trigger] h[i]).profile == HoldTarget::PowerSaver)
            ==> held_choice(h, before) == Profile::Quiet,
        (forall|i: int| 0 <= i < h.len() ==> (#[trigger] h[i]).profile != HoldTarget::PowerSaver)
            && (exists|i: int| 0 <= i < h.len() && (#[trigger] h[i]).profile == HoldTarget::Performance)
            ==> held_choice(h, before) == Profile::Performance,
        h.len() > 0 && (forall|i: int| 0 <= i < h.len() ==> (#[trigger] h[i]).profile == HoldTarget::Balanced)
            ==> held_choice(h, before) == Profile::Balanced,
        h.len() == 0 ==> held_choice(h, before) == match before {
            Some(p) => p,
            None => Profile::Balanced,
        },
{
    if h.len() > 0 && (forall|i: int| 0 <= i < h.len() ==> (#[trigger] h[i]).profile
        == HoldTarget::Balanced) {
        assert(!(exists|i: int| 0 <= i < h.len() && (#[trigger] h[i]).profile
            == HoldTarget::PowerSaver));
        assert(!(exists|i: int| 0 <= i < h.len() && (#[trigger] h[i]).profile
            == HoldTarget::Performance));
    }
}

/// The order in which holds were taken does not matter: swapping any two
/// holds gives the same profile.
pub proof fn lemma_hold_order_free(h: Seq<HeldProfile>, i: int, j: int, before: Option<Profile>)
    requires
        0 <= i < h.len(),
        0 <= j < h.len(),
    ensures
        held_choice(h.update(i, h[j]).update(j, h[i]), before) == held_choice(h, before),
{
    let g = h.update(i, h[j]).update(j, h[i]);
    assert(g.len() == h.len());
    // Each position of one holds a hold of the other.
    assert forall|k: int| 0 <= k < h.len() implies exists|m: int| 0 <= m < g.len() && (
    #[trigger] g[m]).profile == (#[trigger] h[k]).profile by {
        if k == i {
            assert(g[j] == h[i]);
        } else if k == j {
            assert(g[i] == h[j] || i == j);
            if i == j {
                assert(g[j] == h[j]);
            }
        } else {
            assert(g[k] == h[k]);
        }
    }
    assert forall|k: int| 0 <= k < g.len() implies exists|m: int| 0 <= m < h.len() && (
    #[trigger] h[m]).profile == (#[trigger] g[k]).profile by {
        if k == j {
            assert(g[j] == h[i]);
        } else if k == i {
            assert(g[i] == h[j]);
        } else {
            assert(g[k] == h[k]);
        }
    }
    if exists|k: int| 0 <= k < h.len() && (#[trigger] h[k]).profile == HoldTarget::PowerSaver {
        let k = choose|k: int| 0 <= k < h.len() && (#[trigger] h[k]).profile == HoldTarget::PowerSaver;
        let m = choose|m: int| 0 <= m < g.len() && (#[trigger] g[m]).profile == h[k].profile;
        assert(g[m].profile == HoldTarget::PowerSaver);
    }
    if exists|k: int| 0 <= k < g.len() && (#[trigger] g[k]).profile == HoldTarget::PowerSaver {
        let k = choose|k: int| 0 <= k < g.len() && (#[trigger] g[k]).profile == HoldTarget::PowerSaver;
        let m = choose|m: int| 0 <= m < h.len() && (#[trigger] h[m]).profile == g[k].profile;
        assert(h[m].profile == HoldTarget::PowerSaver);
    }
    if exists|k: int| 0 <= k < h.len() && (#[trigger] h[k]).profile == HoldTarget::Performance {
        let k = choose|k: int| 0 <= k < h.len() && (#[trigger] h[k]).profile == HoldTarget::Performance;
        let m = choose|m: int| 0 <= m < g.len() && (#[trigger] g[m]).profile == h[k].profile;
        assert(g[m].profile == HoldTarget::Performance);
    }
    if exists|k: int| 0 <= k < g.len() && (#[trigger] g[k]).profile == HoldTarget::Performance {
        let k = choose|k: int| 0 <= k < g.len() && (#[trigger] g[k]).profile == HoldTarget::Performance;
        let m = choose|m: int| 0 <= m < h.len() && (#[trigger] h[m]).profile == g[k].profile;
        assert(h[m].profile == HoldTarget::Performance);
    }
}

/// Taking a hold when none is held and then releasing it returns to the
/// profile that was active before the hold (balanced when there was none).
pub proof fn lemma_release_restores(after: Seq<HeldProfile>, next: u32, active: Seq<char>)
    requires
        after.len() == 1,
        after.last().cookie == next,
    ensures
        held_choice(released(after, next), profile_named(active)) == match profile_named(active) {
            Some(p) => p,
            None => Profile::Balanced,
        },
{
    let before = Seq::<HeldProfile>::empty();
    assert(after.drop_last() =~= before);
    lemma_release_undoes_hold(before, next, after);
}

/// A hold's cookie is one no other hold has: every cookie is below the next
/// one handed out.
pub proof fn lemma_cookie_unique(h: Seq<HeldProfile>, next: u32)
    requires
        cookies_fresh(h, next),
    ensures
        cookie_position(h, next) is None,
{
}

/// Whether applying the profile named `name` over the active `current`
/// changes anything.
pub open spec fn switch_needed(current: Seq<char>, name: Seq<char>) -> bool {
    current != name
}

/// Once a profile is applied, applying it again is a no-op.
pub proof fn lemma_apply_settles(name: Seq<char>)
    ensures
        !switch_needed(name, name),
{
}

} // verus!
