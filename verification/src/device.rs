//! Device identification: which class of controller a product id belongs to.

use vstd::prelude::*;

verus! {

/// The classes of VE.Direct devices that can be told apart by product id.
///
/// A connection whose class is not known yet carries `None` in place of one
/// of these.
#[derive(Debug, Copy, Clone, PartialEq, Eq, Structural)]
pub enum VeDirectDevice {
    SmartShunt,
    SmartSolarMppt,
    PhoenixInverter,
}

/// The class that a product id stands for, if it is one of the known ids.
pub open spec fn category_of(pid: u16) -> Option<VeDirectDevice> {
    if pid == 0xA056 {
        Some(VeDirectDevice::SmartSolarMppt)
    } else if 0xA389 <= pid <= 0xA38B {
        Some(VeDirectDevice::SmartShunt)
    } else if pid == 0xA2E9 {
        Some(VeDirectDevice::PhoenixInverter)
    } else {
        None
    }
}

/// The class of a connection after it has seen product id `pid`: a class
/// that is already known stays; an unknown one becomes whatever `pid` names.
pub open spec fn resolved(current: Option<VeDirectDevice>, pid: u16) -> Option<VeDirectDevice> {
    if current is Some {
        current
    } else {
        category_of(pid)
    }
}

impl VeDirectDevice {
    /// Looks a product id up in the table of known devices.
    pub fn from_pid(pid: u16) -> (device: Option<VeDirectDevice>)
        ensures
            device == category_of(pid),
    {
        if pid == 0xA056 {
            Some(VeDirectDevice::SmartSolarMppt)
        } else if 0xA389 <= pid && pid <= 0xA38B {
            Some(VeDirectDevice::SmartShunt)
        } else if pid == 0xA2E9 {
            Some(VeDirectDevice::PhoenixInverter)
        } else {
            None
        }
    }
}

/// Feeds a product id to the identity of a connection.
pub fn resolve(current: Option<VeDirectDevice>, pid: u16) -> (next: Option<VeDirectDevice>)
    ensures
        next == resolved(current, pid),
{
    match current {
        Some(_) => current,
        None => VeDirectDevice::from_pid(pid),
    }
}

/// A known class is never replaced, whatever product ids follow.
pub proof fn lemma_identity_is_sticky(current: Option<VeDirectDevice>, pid: u16)
    requires
        current is Some,
    ensures
        resolved(current, pid) == current,
{
}

/// Feeding the same product id twice changes nothing the second time.
pub proof fn lemma_resolve_idempotent(current: Option<VeDirectDevice>, pid: u16)
    ensures
        resolved(resolved(current, pid), pid) == resolved(current, pid),
{
}

} // verus!
