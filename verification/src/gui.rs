//! The desktop application's model of the daemon: what it shows of the
//! connection, the profile, the temperatures and each fan channel, and how
//! each event from the daemon changes it.
use crate::client::{listed, lookup};
use crate::text::{parse_unsigned, parse_unsigned_str, str_eq, string_of};
use vstd::prelude::*;

verus! {

/// A fan channel as the application shows it.
#[derive(Debug)]
pub struct FanChannel {
    /// hwmon channel name (e.g. "pwm1").
    pub name: String,
    /// Human-readable label from sysfs (e.g. "CPU Fan"), if available.
    pub label: Option<String>,
    /// Raw duty 0-255, -1 if unknown.
    pub duty_raw: i32,
    /// Current RPM, -1 if no sensor.
    pub rpm: i32,
    /// Minimum duty floor (raw 0-255), -1 if none.
    pub min_duty: i32,
    /// Whether this channel is detected as stalled.
    pub stalled: bool,
    /// Active override percentage, if set.
    pub override_pct: Option<u8>,
    /// Whether this channel is in passthrough mode.
    pub passthrough: bool,
}

/// What one poll of the daemon returns (temperatures in millidegrees, -1
/// when unavailable).
#[derive(Debug)]
pub struct DaemonSnapshot {
    pub profile: String,
    pub cpu_temp: i64,
    pub gpu_temp: i64,
    pub duties: Vec<(String, i32)>,
    pub rpms: Vec<(String, i32)>,
    pub min_duties: Vec<(String, i32)>,
    pub overrides: Vec<(String, u8)>,
    pub stalled: Vec<String>,
    pub passthrough: Vec<String>,
    pub config_loaded: bool,
    pub critical: bool,
}

/// The channel the application builds for the `i`-th duty of a snapshot:
/// its readings merged by name (the first entry of each list), its label
/// from the sysfs labels.
pub open spec fn channel_from(c: FanChannel, snap: DaemonSnapshot, labels: Seq<(String, String)>, i: int) -> bool {
    let name = snap.duties@[i].0@;
    &&& c.name@ == name
    &&& c.duty_raw == snap.duties@[i].1
    &&& c.rpm == (match lookup(snap.rpms@, name) {
        Some(r) => r,
        None => -1i32,
    })
    &&& c.min_duty == (match lookup(snap.min_duties@, name) {
        Some(d) => d,
        None => -1i32,
    })
    &&& c.stalled == listed(snap.stalled@, name)
    &&& c.override_pct == lookup(snap.overrides@, name)
    &&& c.passthrough == listed(snap.passthrough@, name)
    &&& match lookup(labels, name) {
        Some(l) => c.label matches Some(x) && x@ == l@,
        None => c.label is None,
    }
}

fn find_i32(v: &Vec<(String, i32)>, name: &str) -> (r: Option<i32>)
    ensures
        r == lookup(v@, name@),
{
    let mut k: usize = 0;
    while k < v.len()
        invariant
            k <= v@.len(),
            crate::client::first_value(v@, name@, k as int) is None,
        decreases v@.len() - k,
    {
        if str_eq(v[k].0.as_str(), name) {
            proof {
                lemma_first_value_stays(v@, name@, k as int + 1, v@.len() as int);
            }
            return Some(v[k].1);
        }
        k = k + 1;
    }
    None
}

fn find_u8(v: &Vec<(String, u8)>, name: &str) -> (r: Option<u8>)
    ensures
        r == lookup(v@, name@),
{
    let mut k: usize = 0;
    while k < v.len()
        invariant
            k <= v@.len(),
            crate::client::first_value(v@, name@, k as int) is None,
        decreases v@.len() - k,
    {
        if str_eq(v[k].0.as_str(), name) {
            proof {
                lemma_first_value_stays(v@, name@, k as int + 1, v@.len() as int);
            }
            return Some(v[k].1);
        }
        k = k + 1;
    }
    None
}

fn find_label(v: &Vec<(String, String)>, name: &str) -> (r: Option<String>)
    ensures
        match lookup(v@, name@) {
            Some(l) => r matches Some(x) && x@ == l@,
            None => r is None,
        },
{
    let mut k: usize = 0;
    while k < v.len()
        invariant
            k <= v@.len(),
            crate::client::first_value(v@, name@, k as int) is None,
        decreases v@.len() - k,
    {
        if str_eq(v[k].0.as_str(), name) {
            proof {
                lemma_first_value_stays(v@, name@, k as int + 1, v@.len() as int);
            }
            return Some(string_of(v[k].1.as_str()));
        }
        k = k + 1;
    }
    None
}

/// Replacing the first entry of a name, keeping the name, changes only what
/// that name looks up.
proof fn lemma_first_value_update<T>(
    v: Seq<(String, T)>,
    i: int,
    e: (String, T),
    name: Seq<char>,
    n: int,
)
    requires
        0 <= i < v.len(),
        e.0@ == v[i].0@,
        0 <= n <= v.len(),
        forall|j: int| 0 <= j < i ==> (#[trigger] v[j]).0@ != v[i].0@,
    ensures
        crate::client::first_value(v.update(i, e), name, n) == if name == v[i].0@ {
            if n > i {
                Some(e.1)
            } else {
                None
            }
        } else {
            crate::client::first_value(v, name, n)
        },
    decreases n,
{
    if n > 0 {
        lemma_first_value_update(v, i, e, name, n - 1);
        if n - 1 < i && name == v[i].0@ {
            assert(v[n - 1].0@ != v[i].0@);
        }
    }
}

/// Appending an entry leaves what the earlier entries look up.
proof fn lemma_first_value_prefix<T>(v: Seq<(String, T)>, e: (String, T), name: Seq<char>, n: int)
    requires
        0 <= n <= v.len(),
    ensures
        crate::client::first_value(v.push(e), name, n) == crate::client::first_value(v, name, n),
    decreases n,
{
    if n > 0 {
        lemma_first_value_prefix(v, e, name, n - 1);
        assert(v.push(e)[n - 1] == v[n - 1]);
    }
}

/// A name no entry carries looks up nothing.
proof fn lemma_first_value_none<T>(v: Seq<(String, T)>, name: Seq<char>, n: int)
    requires
        0 <= n <= v.len(),
        forall|j: int| 0 <= j < n ==> (#[trigger] v[j]).0@ != name,
    ensures
        crate::client::first_value(v, name, n) is None,
    decreases n,
{
    if n > 0 {
        lemma_first_value_none(v, name, n - 1);
    }
}

proof fn lemma_first_value_stays<T>(v: Seq<(String, T)>, name: Seq<char>, m: int, n: int)
    requires
        0 <= m <= n,
        crate::client::first_value(v, name, m) is Some,
    ensures
        crate::client::first_value(v, name, n) == crate::client::first_value(v, name, m),
    decreases n - m,
{
    if m < n {
        lemma_first_value_stays(v, name, m, n - 1);
    }
}

fn is_listed(v: &Vec<String>, name: &str) -> (r: bool)
    ensures
        r == listed(v@, name@),
{
    let mut k: usize = 0;
    while k < v.len()
        invariant
            k <= v@.len(),
            forall|j: int| 0 <= j < k ==> (#[trigger] v@[j])@ != name@,
        decreases v@.len() - k,
    {
        if str_eq(v[k].as_str(), name) {
            return true;
        }
        k = k + 1;
    }
    false
}

/// The fan channels of a snapshot, one per duty and in its order, with
/// duties, RPMs, floors, overrides, stalls, passthrough and labels merged.
pub fn rebuild_fan_channels(snap: &DaemonSnapshot, labels: &Vec<(String, String)>) -> (v: Vec<FanChannel>)
    ensures
        v@.len() == snap.duties@.len(),
        forall|i: int| 0 <= i < v@.len() ==> channel_from(#[trigger] v@[i], *snap, labels@, i),
{
    let mut v: Vec<FanChannel> = Vec::new();
    let mut i: usize = 0;
    while i < snap.duties.len()
        invariant
            i <= snap.duties@.len(),
            v@.len() == i,
            forall|k: int| 0 <= k < i ==> channel_from(#[trigger] v@[k], *snap, labels@, k),
        decreases snap.duties@.len() - i,
    {
        let name = snap.duties[i].0.as_str();
        let rpm = match find_i32(&snap.rpms, name) {
            Some(r) => r,
            None => -1,
        };
        let min_duty = match find_i32(&snap.min_duties, name) {
            Some(d) => d,
            None => -1,
        };
        let ch = FanChannel {
            name: string_of(name),
            label: find_label(labels, name),
            duty_raw: snap.duties[i].1,
            rpm,
            min_duty,
            stalled: is_listed(&snap.stalled, name),
            override_pct: find_u8(&snap.overrides, name),
            passthrough: is_listed(&snap.passthrough, name),
        };
        v.push(ch);
        i = i + 1;
    }
    v
}

/// A channel's name for display: `Label (pwmN)` when it has a label.
pub fn display_name(ch: &FanChannel) -> (s: String)
    ensures
        s@ == match ch.label {
            Some(l) => l@ + " ("@ + ch.name@ + ")"@,
            None => ch.name@,
        },
{
    match &ch.label {
        Some(label) => {
            let mut s = string_of(label.as_str());
            s.append(" (");
            s.append(ch.name.as_str());
            s.append(")");
            s
        },
        None => string_of(ch.name.as_str()),
    }
}

/// An event from the daemon, or the outcome of a command sent to it.
#[derive(Debug)]
pub enum GuiEvent {
    DaemonConnected,
    DaemonDisconnected,
    ProfileChanged(String),
    ThermalEvent { event_type: String, temp_millideg: i64, profile: String },
    StallEvent { channel: String, duty: u8 },
    PollUpdate(DaemonSnapshot),
    PollError,
    CommandOk,
    CommandError(String),
    /// The override text typed for a channel changed.
    OverrideInputChanged { channel: String, value: String },
}

/// What the application shows of the daemon.
#[derive(Debug)]
pub struct GuiState {
    pub connected: bool,
    pub profile: String,
    /// Millidegrees, when the daemon has a reading.
    pub cpu_temp: Option<i64>,
    pub gpu_temp: Option<i64>,
    pub fan_channels: Vec<FanChannel>,
    pub config_loaded: bool,
    pub critical: bool,
    pub error_message: Option<String>,
    /// The sysfs fan labels, by channel name.
    pub fan_labels: Vec<(String, String)>,
    /// The override text typed for each channel, by channel name.
    pub override_inputs: Vec<(String, String)>,
}

pub open spec fn opt_text(o: Option<String>) -> Option<Seq<char>> {
    match o {
        Some(s) => Some(s@),
        None => None,
    }
}

impl GuiState {
    /// Nothing known yet: disconnected, no profile, no channels.
    pub fn new(fan_labels: Vec<(String, String)>) -> (s: Self)
        ensures
            !s.connected,
            s.profile@ == Seq::<char>::empty(),
            s.cpu_temp is None && s.gpu_temp is None,
            s.fan_channels@.len() == 0,
            !s.config_loaded && !s.critical,
            s.error_message is None,
            s.fan_labels == fan_labels,
            s.override_inputs@.len() == 0,
    {
        GuiState {
            connected: false,
            profile: String::new(),
            cpu_temp: None,
            gpu_temp: None,
            fan_channels: Vec::new(),
            config_loaded: false,
            critical: false,
            error_message: None,
            fan_labels,
            override_inputs: Vec::new(),
        }
    }

    /// Applies an event. Connection events set the connection and its
    /// message; profile and thermal events set the profile (a critical event
    /// also the critical flag); a stall marks the channels of that name; a
    /// poll replaces everything the snapshot holds; a failed command shows
    /// its message.
    pub fn update(&mut self, event: GuiEvent)
        ensures
            final(self).fan_labels == old(self).fan_labels,
            match event {
                GuiEvent::DaemonConnected => *final(self) == (GuiState {
                    connected: true,
                    error_message: None,
                    ..*old(self)
                }),
                GuiEvent::DaemonDisconnected => {
                    &&& *final(self) == (GuiState {
                        connected: false,
                        error_message: final(self).error_message,
                        ..*old(self)
                    })
                    &&& opt_text(final(self).error_message) == Some("Daemon not running"@)
                },
                GuiEvent::ProfileChanged(p) => {
                    &&& *final(self) == (GuiState { profile: final(self).profile, ..*old(self) })
                    &&& final(self).profile@ == p@
                },
                GuiEvent::ThermalEvent { event_type, profile, .. } => {
                    &&& *final(self) == (GuiState {
                        profile: final(self).profile,
                        critical: final(self).critical,
                        ..*old(self)
                    })
                    &&& final(self).profile@ == profile@
                    &&& final(self).critical == (old(self).critical || event_type@ == "critical"@)
                },
                GuiEvent::StallEvent { channel, .. } => {
                    &&& *final(self) == (GuiState { fan_channels: final(self).fan_channels, ..*old(self) })
                    &&& final(self).fan_channels@.len() == old(self).fan_channels@.len()
                    &&& forall|k: int| 0 <= k < final(self).fan_channels@.len() ==> {
                        let c = #[trigger] final(self).fan_channels@[k];
                        let o = old(self).fan_channels@[k];
                        &&& c.name == o.name
                        &&& c.stalled == (o.stalled || o.name@ == channel@)
                        &&& c.duty_raw == o.duty_raw && c.rpm == o.rpm && c.min_duty == o.min_duty
                        &&& c.override_pct == o.override_pct && c.passthrough == o.passthrough
                        &&& c.label == o.label
                    }
                },
                GuiEvent::PollUpdate(snap) => {
                    &&& final(self).connected
                    &&& final(self).error_message is None
                    &&& final(self).profile@ == snap.profile@
                    &&& final(self).cpu_temp == (if snap.cpu_temp >= 0 {
                        Some(snap.cpu_temp)
                    } else {
                        None::<i64>
                    })
                    &&& final(self).gpu_temp == (if snap.gpu_temp >= 0 {
                        Some(snap.gpu_temp)
                    } else {
                        None::<i64>
                    })
                    &&& final(self).config_loaded == snap.config_loaded
                    &&& final(self).critical == snap.critical
                    &&& final(self).override_inputs == old(self).override_inputs
                    &&& final(self).fan_channels@.len() == snap.duties@.len()
                    &&& forall|i: int| 0 <= i < snap.duties@.len() ==> channel_from(
                        #[trigger] final(self).fan_channels@[i],
                        snap,
                        old(self).fan_labels@,
                        i,
                    )
                },
                GuiEvent::PollError => {
                    &&& *final(self) == (GuiState {
                        connected: false,
                        error_message: final(self).error_message,
                        ..*old(self)
                    })
                    &&& opt_text(final(self).error_message) == Some("Cannot reach daemon"@)
                },
                GuiEvent::CommandOk => *final(self) == *old(self),
                GuiEvent::CommandError(e) => {
                    &&& *final(self) == (GuiState { error_message: final(self).error_message, ..*old(self) })
                    &&& opt_text(final(self).error_message) == Some(e@)
                },
                GuiEvent::OverrideInputChanged { channel, value } => {
                    &&& *final(self) == (GuiState {
                        override_inputs: final(self).override_inputs,
                        ..*old(self)
                    })
                    &&& lookup(final(self).override_inputs@, channel@) == Some(value)
                    &&& forall|other: Seq<char>|
                        other != channel@ ==> lookup(final(self).override_inputs@, other) == lookup(
                            old(self).override_inputs@,
                            other,
                        )
                },
            },
    {
        match event {
            GuiEvent::DaemonConnected => {
                self.connected = true;
                self.error_message = None;
            },
            GuiEvent::DaemonDisconnected => {
                self.connected = false;
                self.error_message = Some(string_of("Daemon not running"));
            },
            GuiEvent::ProfileChanged(p) => {
                self.profile = p;
            },
            GuiEvent::ThermalEvent { event_type, profile, .. } => {
                self.profile = profile;
                if str_eq(event_type.as_str(), "critical") {
                    self.critical = true;
                }
            },
            GuiEvent::StallEvent { channel, .. } => {
                self.mark_stalled(channel.as_str());
            },
            GuiEvent::PollUpdate(snap) => {
                self.connected = true;
                self.error_message = None;
                self.profile = string_of(snap.profile.as_str());
                self.cpu_temp = if snap.cpu_temp >= 0 {
                    Some(snap.cpu_temp)
                } else {
                    None
                };
                self.gpu_temp = if snap.gpu_temp >= 0 {
                    Some(snap.gpu_temp)
                } else {
                    None
                };
                self.config_loaded = snap.config_loaded;
                self.critical = snap.critical;
                self.fan_channels = rebuild_fan_channels(&snap, &self.fan_labels);
            },
            GuiEvent::PollError => {
                self.connected = false;
                self.error_message = Some(string_of("Cannot reach daemon"));
            },
            GuiEvent::CommandOk => {},
            GuiEvent::CommandError(e) => {
                self.error_message = Some(e);
            },
            GuiEvent::OverrideInputChanged { channel, value } => {
                self.set_override_input(channel, value);
            },
        }
    }

    /// Records the override text typed for `channel`, replacing what was
    /// typed before.
    fn set_override_input(&mut self, channel: String, value: String)
        ensures
            *final(self) == (GuiState { override_inputs: final(self).override_inputs, ..*old(self) }),
            lookup(final(self).override_inputs@, channel@) == Some(value),
            forall|other: Seq<char>|
                other != channel@ ==> lookup(final(self).override_inputs@, other) == lookup(
                    old(self).override_inputs@,
                    other,
                ),
    {
        let ghost before = self.override_inputs@;
        let n = self.override_inputs.len();
        let mut k: usize = 0;
        while k < n
            invariant
                n == self.override_inputs@.len(),
                *self == *old(self),
                before == self.override_inputs@,
                k <= n,
                forall|j: int| 0 <= j < k ==> (#[trigger] self.override_inputs@[j]).0@ != channel@,
            decreases n - k,
        {
            if str_eq(self.override_inputs[k].0.as_str(), channel.as_str()) {
                let ghost e = (channel, value);
                proof {
                    assert forall|other: Seq<char>|
                        crate::client::first_value(before.update(k as int, e), other, n as int)
                            == if other == channel@ {
                            Some(value)
                        } else {
                            crate::client::first_value(before, other, n as int)
                        } by {
                        lemma_first_value_update(before, k as int, e, other, n as int);
                    }
                }
                self.override_inputs.set(k, (channel, value));
                return;
            }
            k = k + 1;
        }
        let ghost e = (channel, value);
        self.override_inputs.push((channel, value));
        proof {
            assert forall|other: Seq<char>|
                crate::client::first_value(before.push(e), other, n + 1) == if other == channel@ {
                    Some(value)
                } else {
                    crate::client::first_value(before, other, n as int)
                } by {
                lemma_first_value_prefix(before, e, other, n as int);
                if other == channel@ {
                    lemma_first_value_none(before, other, n as int);
                }
            }
        }
    }

    /// The override text typed for `channel`; empty when none was.
    pub fn override_input(&self, channel: &str) -> (s: String)
        ensures
            s@ == match lookup(self.override_inputs@, channel@) {
                Some(v) => v@,
                None => Seq::<char>::empty(),
            },
    {
        match find_label(&self.override_inputs, channel) {
            Some(v) => v,
            None => String::new(),
        }
    }

    /// Marks the channels named `channel` as stalled.
    fn mark_stalled(&mut self, channel: &str)
        ensures
            *final(self) == (GuiState { fan_channels: final(self).fan_channels, ..*old(self) }),
            final(self).fan_channels@.len() == old(self).fan_channels@.len(),
            forall|k: int| 0 <= k < final(self).fan_channels@.len() ==> {
                let c = #[trigger] final(self).fan_channels@[k];
                let o = old(self).fan_channels@[k];
                &&& c.name == o.name
                &&& c.stalled == (o.stalled || o.name@ == channel@)
                &&& c.duty_raw == o.duty_raw && c.rpm == o.rpm && c.min_duty == o.min_duty
                &&& c.override_pct == o.override_pct && c.passthrough == o.passthrough
                &&& c.label == o.label
            },
    {
        let mut channels: Vec<FanChannel> = Vec::new();
        std::mem::swap(&mut channels, &mut self.fan_channels);
        let ghost before = channels@;
        let n = channels.len();
        let mut reversed: Vec<FanChannel> = Vec::new();
        let mut k: usize = 0;
        while k < n
            invariant
                n == before.len(),
                k <= n,
                channels@ == before.subrange(0, n - k),
                reversed@.len() == k,
                forall|j: int| 0 <= j < k ==> #[trigger] reversed@[j] == before[n - 1 - j],
            decreases n - k,
        {
            let ch = channels.pop().unwrap();
            reversed.push(ch);
            k = k + 1;
            assert(channels@ =~= before.subrange(0, n - k));
        }
        let mut out: Vec<FanChannel> = Vec::new();
        let mut k: usize = 0;
        while k < n
            invariant
                n == before.len(),
                k <= n,
                reversed@.len() == n - k,
                forall|j: int| 0 <= j < n - k ==> #[trigger] reversed@[j] == before[n - 1 - j],
                out@.len() == k,
                forall|j: int| 0 <= j < k ==> {
                    let c = #[trigger] out@[j];
                    let o = before[j];
                    &&& c.name == o.name
                    &&& c.stalled == (o.stalled || o.name@ == channel@)
                    &&& c.duty_raw == o.duty_raw && c.rpm == o.rpm && c.min_duty == o.min_duty
                    &&& c.override_pct == o.override_pct && c.passthrough == o.passthrough
                    &&& c.label == o.label
                },
            decreases n - k,
        {
            let mut ch = reversed.pop().unwrap();
            assert(ch == before[k as int]);
            if str_eq(ch.name.as_str(), channel) {
                ch.stalled = true;
            }
            out.push(ch);
            k = k + 1;
        }
        self.fan_channels = out;
    }
}

/// The duty an override field holds: a whole percentage from 0 to 100;
/// anything else leaves the set button disabled.
pub fn override_input_duty(input: &str) -> (r: Option<u8>)
    ensures
        r == match parse_unsigned(input@, 255) {
            Some(n) => if n <= 100 {
                Some(n as u8)
            } else {
                None::<u8>
            },
            None => None::<u8>,
        },
{
    match parse_unsigned_str(input, 255) {
        Some(n) => if n <= 100 {
            Some(n as u8)
        } else {
            None
        },
        None => None,
    }
}

/// Whether any channel can be overridden: one not in passthrough.
pub fn has_controllable(channels: &Vec<FanChannel>) -> (r: bool)
    ensures
        r == exists|k: int| 0 <= k < channels@.len() && !(#[trigger] channels@[k]).passthrough,
{
    let mut k: usize = 0;
    while k < channels.len()
        invariant
            k <= channels@.len(),
            forall|j: int| 0 <= j < k ==> (#[trigger] channels@[j]).passthrough,
        decreases channels@.len() - k,
    {
        if !channels[k].passthrough {
            return true;
        }
        k = k + 1;
    }
    false
}

/// A line of the overview's status section.
#[derive(Clone, Copy, Debug, PartialEq, Eq, Structural)]
pub enum StatusNote {
    DaemonOffline,
    NoFanConfig,
    CriticalTemp,
    /// The last command's error message.
    CommandError,
}

/// The overview's status lines, in order: the daemon is offline; it is
/// connected but has no fan config; the temperature is critical; the last
/// error.
pub open spec fn status_notes_spec(s: GuiState) -> Seq<StatusNote> {
    (if !s.connected {
        seq![StatusNote::DaemonOffline]
    } else {
        Seq::empty()
    }) + (if !s.config_loaded && s.connected {
        seq![StatusNote::NoFanConfig]
    } else {
        Seq::empty()
    }) + (if s.critical {
        seq![StatusNote::CriticalTemp]
    } else {
        Seq::empty()
    }) + (if s.error_message is Some {
        seq![StatusNote::CommandError]
    } else {
        Seq::empty()
    })
}

impl GuiState {
    /// The overview's status lines.
    pub fn status_notes(&self) -> (v: Vec<StatusNote>)
        ensures
            v@ == status_notes_spec(*self),
    {
        let mut v: Vec<StatusNote> = Vec::new();
        if !self.connected {
            v.push(StatusNote::DaemonOffline);
        }
        if !self.config_loaded && self.connected {
            v.push(StatusNote::NoFanConfig);
        }
        if self.critical {
            v.push(StatusNote::CriticalTemp);
        }
        if self.error_message.is_some() {
            v.push(StatusNote::CommandError);
        }
        assert(v@ =~= status_notes_spec(*self));
        v
    }
}

} // verus!
