//! Errors met while applying a profile, and their messages.
use crate::text::{starts_with, string_of};
use vstd::prelude::*;

verus! {

/// `intel_pstate::PStateError`, carried in `ProfileError`.
#[verifier::external_type_specification]
#[verifier::external_body]
pub struct ExPStateError(intel_pstate::PStateError);

/// An error met while applying a profile.
#[derive(Debug)]
pub enum ProfileError {
    PciDevice(PciDeviceError),
    PState(intel_pstate::PStateError),
    ScsiHost(ScsiHostError),
}

/// Setting runtime power management on a PCI device failed.
#[derive(Debug)]
pub enum PciDeviceError {
    /// The device, and why.
    SetRuntimePm(String, std::io::Error),
}

/// Setting a link power management policy on a SCSI host failed.
#[derive(Debug)]
pub enum ScsiHostError {
    /// The policy, the host, and why.
    LinkTimePolicy(&'static str, String, std::io::Error),
}

/// `<std::io::Error as Display>::fmt`, through `to_string`: the error's
/// description, which comes from the operating system and is not stated.
#[verifier::external_body]
fn io_error_text(e: &std::io::Error) -> String {
    e.to_string()
}

/// `<intel_pstate::PStateError as Display>::fmt`, through `to_string`. The
/// error type is opaque here, so nothing is stated of the text.
#[verifier::external_body]
fn pstate_error_text(e: &intel_pstate::PStateError) -> String {
    e.to_string()
}

pub open spec fn pci_prefix(device: Seq<char>) -> Seq<char> {
    "failed to set PCI device runtime PM on "@ + device + ": "@
}

pub open spec fn scsi_prefix(policy: Seq<char>, host: Seq<char>) -> Seq<char> {
    "failed to set link time power management policy "@ + policy + " on "@ + host + ": "@
}

impl PciDeviceError {
    /// The message: the device, then the reason.
    pub fn message(&self) -> (s: String)
        ensures
            match self {
                PciDeviceError::SetRuntimePm(device, _) => starts_with(s@, pci_prefix(device@)),
            },
    {
        match self {
            PciDeviceError::SetRuntimePm(device, why) => {
                let mut s = string_of("failed to set PCI device runtime PM on ");
                s.append(device.as_str());
                s.append(": ");
                let ghost head = s@;
                let reason = io_error_text(why);
                s.append(reason.as_str());
                assert(s@.subrange(0, head.len() as int) =~= head);
                s
            },
        }
    }
}

impl ScsiHostError {
    /// The message: the policy and the host, then the reason.
    pub fn message(&self) -> (s: String)
        ensures
            match self {
                ScsiHostError::LinkTimePolicy(policy, host, _) => starts_with(
                    s@,
                    scsi_prefix(policy@, host@),
                ),
            },
    {
        match self {
            ScsiHostError::LinkTimePolicy(policy, host, why) => {
                let mut s = string_of("failed to set link time power management policy ");
                s.append(policy);
                s.append(" on ");
                s.append(host.as_str());
                s.append(": ");
                let ghost head = s@;
                let reason = io_error_text(why);
                s.append(reason.as_str());
                assert(s@.subrange(0, head.len() as int) =~= head);
                s
            },
        }
    }
}

impl ProfileError {
    /// The message: which kind of setting failed, then the inner error's.
    pub fn message(&self) -> (s: String)
        ensures
            match self {
                ProfileError::PciDevice(e) => match e {
                    PciDeviceError::SetRuntimePm(device, _) => starts_with(
                        s@,
                        "failed to set pci device profiles: "@ + pci_prefix(device@),
                    ),
                },
                ProfileError::PState(_) => starts_with(s@, "failed to set pstate profiles: "@),
                ProfileError::ScsiHost(e) => match e {
                    ScsiHostError::LinkTimePolicy(policy, host, _) => starts_with(
                        s@,
                        "failed to set scsi host profiles: "@ + scsi_prefix(policy@, host@),
                    ),
                },
            },
    {
        let (mut s, inner) = match self {
            ProfileError::PciDevice(e) => (string_of("failed to set pci device profiles: "), e.message()),
            ProfileError::PState(e) => (string_of("failed to set pstate profiles: "), pstate_error_text(e)),
            ProfileError::ScsiHost(e) => (string_of("failed to set scsi host profiles: "), e.message()),
        };
        let ghost head = s@;
        s.append(inner.as_str());
        assert(s@.subrange(0, head.len() as int) =~= head);
        proof {
            match self {
                ProfileError::PciDevice(e) => match e {
                    PciDeviceError::SetRuntimePm(device, _) => {
                        let p = pci_prefix(device@);
                        assert(inner@.subrange(0, p.len() as int) =~= p);
                        assert(s@.subrange(0, (head + p).len() as int) =~= head + p);
                    },
                },
                ProfileError::PState(_) => {},
                ProfileError::ScsiHost(e) => match e {
                    ScsiHostError::LinkTimePolicy(policy, host, _) => {
                        let p = scsi_prefix(policy@, host@);
                        assert(inner@.subrange(0, p.len() as int) =~= p);
                        assert(s@.subrange(0, (head + p).len() as int) =~= head + p);
                    },
                },
            }
        }
        s
    }
}

} // verus!
