//! The desktop notifications the monitor sends for the daemon's events.
use crate::text::{str_eq, string_of};
use vstd::prelude::*;

verus! {

/// The body of the notification of a profile switch.
pub fn profile_notice(profile: &str) -> (s: String)
    ensures
        s@ == "Profile switched to "@ + profile@,
{
    let mut s = string_of("Profile switched to ");
    s.append(profile);
    s
}

/// The summary and body of a thermal event's notification.
/// `temperature` is the event's temperature in degrees, already rendered
/// to one decimal place.
pub open spec fn thermal_notice_spec(event: Seq<char>, temperature: Seq<char>, profile: Seq<char>) -> (
    Seq<char>,
    Seq<char>,
) {
    if event == "fallback_down"@ {
        (
            "Thermal Fallback"@,
            "High temperature ("@ + temperature + "C), downshifted to "@ + profile,
        )
    } else if event == "fallback_up"@ {
        ("Thermal Recovery"@, "Temps stable, restored profile to "@ + profile)
    } else if event == "critical"@ {
        ("Critical Temperature"@, "Temperature at "@ + temperature + "C, all fans at max"@)
    } else {
        ("PowerCurve"@, event + ": "@ + profile)
    }
}

/// The summary and body of a thermal event's notification.
pub fn thermal_notice(event: &str, temperature: &str, profile: &str) -> (r: (&'static str, String))
    ensures
        (r.0@, r.1@) == thermal_notice_spec(event@, temperature@, profile@),
{
    if str_eq(event, "fallback_down") {
        let mut s = string_of("High temperature (");
        s.append(temperature);
        s.append("C), downshifted to ");
        s.append(profile);
        ("Thermal Fallback", s)
    } else if str_eq(event, "fallback_up") {
        let mut s = string_of("Temps stable, restored profile to ");
        s.append(profile);
        ("Thermal Recovery", s)
    } else if str_eq(event, "critical") {
        let mut s = string_of("Temperature at ");
        s.append(temperature);
        s.append("C, all fans at max");
        ("Critical Temperature", s)
    } else {
        let mut s = string_of(event);
        s.append(": ");
        s.append(profile);
        ("PowerCurve", s)
    }
}

} // verus!
