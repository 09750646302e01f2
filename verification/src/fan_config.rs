//! The fan configuration as the daemon reads it from `fan.toml`.
//!
//! Real numbers of the file (temperatures in Celsius, duties in percent) are
//! held in thousandths: `30.5` is `30500`.
use vstd::prelude::*;

verus! {

/// A single point on the fan curve, in thousandths of a degree and of a percent.
#[derive(Clone, Copy, Debug)]
pub struct CurvePoint {
    /// Temperature in thousandths of a degree Celsius.
    pub temp: i64,
    /// Duty cycle in thousandths of a percent (0-100000).
    pub duty: i64,
}

/// Per-profile curve override. When a profile is active, its curve
/// replaces the shared top-level curve for channels that don't have
/// their own per-channel override.
#[derive(Clone, Debug)]
pub struct ProfileConfig {
    pub curve: Vec<CurvePoint>,
}

/// Per-profile curve override on a single channel.
#[derive(Clone, Debug)]
pub struct ChannelProfileConfig {
    pub curve: Vec<CurvePoint>,
}

/// Maps a PWM output to a temperature source, with optional per-channel
/// and per-channel-per-profile curve overrides.
#[derive(Clone, Debug)]
pub struct ChannelConfig {
    pub pwm: String,
    pub source: String,
    /// Minimum duty in thousandths of a percent.
    pub min_duty: Option<i64>,
    pub stall_detect: Option<bool>,
    pub stall_threshold: Option<u32>,
    pub passthrough: Option<bool>,
    pub curve: Option<Vec<CurvePoint>>,
    /// Per-profile curves of this channel, by profile name, in file order.
    pub profiles: Option<Vec<(String, ChannelProfileConfig)>>,
}

/// Top-level config file structure.
#[derive(Clone, Debug)]
pub struct FanConfig {
    pub platform: Option<String>,
    /// Thousandths of a degree Celsius.
    pub critical_cpu_temp: i64,
    /// Thousandths of a degree Celsius.
    pub critical_gpu_temp: i64,
    /// Thousandths of a degree Celsius.
    pub hysteresis: Option<i64>,
    pub thermal_fallback: Option<bool>,
    pub thermal_cooldown: Option<u32>,
    pub curve: Vec<CurvePoint>,
    pub channels: Vec<ChannelConfig>,
    /// Per-profile global curves, by profile name, in file order.
    pub profiles: Option<Vec<(String, ProfileConfig)>>,
}

} // verus!
