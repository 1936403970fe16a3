//! What a dashboard shows of the notifications: which online light belongs
//! to a device class, and which gauge a register moves.

use vstd::prelude::*;
use crate::device::VeDirectDevice;
use crate::register::Register;

verus! {

/// The online lights of the dashboard, one per device class.
#[derive(Debug, Copy, Clone, PartialEq, Eq, Structural)]
pub enum Indicator {
    Shunt,
    Solar,
    Inverter,
}

/// The gauges of the dashboard.
#[derive(Debug, Copy, Clone, PartialEq, Eq, Structural)]
pub enum Gauge {
    /// The voltage of the starter battery, in volts.
    TruckBatteryVoltage,
    /// The charge of the house battery, as a fraction between 0 and 1.
    HouseBatteryLevel,
    /// The power of the panels, in watts.
    SolarPower,
    /// The apparent power that the inverter delivers, in volt-amperes.
    InverterPower,
}

/// A new value for a gauge: `raw` divided by `divisor`, in the unit of the
/// gauge.
#[derive(Debug, Copy, Clone, PartialEq, Eq, Structural)]
pub struct Reading {
    pub gauge: Gauge,
    pub raw: i32,
    pub divisor: u32,
}

/// The online light of a device class.
pub open spec fn indicator_of(dev: VeDirectDevice) -> Indicator {
    match dev {
        VeDirectDevice::SmartShunt => Indicator::Shunt,
        VeDirectDevice::SmartSolarMppt => Indicator::Solar,
        VeDirectDevice::PhoenixInverter => Indicator::Inverter,
    }
}

/// The gauge that a register of a device of class `dev` moves, and the
/// value it moves it to; `None` for a register that the dashboard does not
/// show.
///
/// A shunt shows its auxiliary voltage as the voltage of the starter
/// battery and its state of charge, sent in tenths of a percent, as the
/// charge of the house battery. A solar charger shows its panel power, an
/// inverter its apparent output power.
pub open spec fn reading_of(reg: Register, dev: VeDirectDevice) -> Option<Reading> {
    match (dev, reg) {
        (VeDirectDevice::SmartShunt, Register::AuxVoltage(raw)) => Some(
            Reading { gauge: Gauge::TruckBatteryVoltage, raw, divisor: 1000 },
        ),
        (VeDirectDevice::SmartShunt, Register::StateOfCharge(raw)) => Some(
            Reading { gauge: Gauge::HouseBatteryLevel, raw, divisor: 1000 },
        ),
        (VeDirectDevice::SmartSolarMppt, Register::PanelPower(raw)) => Some(
            Reading { gauge: Gauge::SolarPower, raw, divisor: 1 },
        ),
        (VeDirectDevice::PhoenixInverter, Register::ACOutputApparentPower(raw)) => Some(
            Reading { gauge: Gauge::InverterPower, raw, divisor: 1 },
        ),
        _ => None,
    }
}

/// The light to switch off when a device class has gone offline.
pub fn handle_vedirect_timeout(dev: VeDirectDevice) -> (light: Indicator)
    ensures
        light == indicator_of(dev),
{
    match dev {
        VeDirectDevice::SmartShunt => Indicator::Shunt,
        VeDirectDevice::SmartSolarMppt => Indicator::Solar,
        VeDirectDevice::PhoenixInverter => Indicator::Inverter,
    }
}

/// What a register of a device of class `dev` does to the dashboard: the
/// light of the class goes on, and the register may move a gauge.
pub fn dispatch_vedirect_message(reg: Register, dev: VeDirectDevice) -> (shown: (
    Indicator,
    Option<Reading>,
))
    ensures
        shown.0 == indicator_of(dev),
        shown.1 == reading_of(reg, dev),
{
    match dev {
        VeDirectDevice::SmartShunt => {
            let reading = match reg {
                Register::AuxVoltage(raw) => Some(
                    Reading { gauge: Gauge::TruckBatteryVoltage, raw, divisor: 1000 },
                ),
                Register::StateOfCharge(raw) => Some(
                    Reading { gauge: Gauge::HouseBatteryLevel, raw, divisor: 1000 },
                ),
                _ => None,
            };
            (Indicator::Shunt, reading)
        },
        VeDirectDevice::SmartSolarMppt => {
            let reading = match reg {
                Register::PanelPower(raw) => Some(
                    Reading { gauge: Gauge::SolarPower, raw, divisor: 1 },
                ),
                _ => None,
            };
            (Indicator::Solar, reading)
        },
        VeDirectDevice::PhoenixInverter => {
            let reading = match reg {
                Register::ACOutputApparentPower(raw) => Some(
                    Reading { gauge: Gauge::InverterPower, raw, divisor: 1 },
                ),
                _ => None,
            };
            (Indicator::Inverter, reading)
        },
    }
}

} // verus!
