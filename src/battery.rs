//! Register arithmetic for the MAX17048 fuel gauge.
use vstd::prelude::*;

verus! {

/// I2C address of the gauge.
pub const GAUGE_ADDRESS: u8 = 0x36;

/// Cell voltage register.
pub const REG_VCELL: u8 = 0x02;

/// State-of-charge register.
pub const REG_SOC: u8 = 0x04;

/// Version register.
pub const REG_VERSION: u8 = 0x08;

/// Configuration register; its high byte is the compensation value RCOMP.
pub const REG_CONFIG: u8 = 0x0C;

/// Charge-rate register.
pub const REG_CRATE: u8 = 0x16;

/// RCOMP value the gauge is configured with at start.
pub const DEFAULT_RCOMP: u8 = 0x97;

/// State of charge, in percent, below which the battery counts as low.
pub const LOW_SOC: u16 = 20;

/// A register value from the two bytes the gauge sends, most significant
/// first.
pub fn register_value(msb: u8, lsb: u8) -> (r: u16)
    ensures
        r == 256 * (msb as int) + lsb as int,
{
    (msb as u16) * 256 + lsb as u16
}

/// The two bytes to send for a register value, most significant first.
pub fn register_bytes(value: u16) -> (r: (u8, u8))
    ensures
        r.0 == value / 256,
        r.1 == value % 256,
        256 * (r.0 as int) + r.1 as int == value,
{
    ((value / 256) as u8, (value % 256) as u8)
}

/// Whole percent of charge from the state-of-charge register, whose high
/// byte counts percent and low byte counts 1/256 percent.
pub fn soc_percent(raw: u16) -> (r: u16)
    ensures
        r == raw / 256,
{
    raw / 256
}

/// The configuration register with its RCOMP byte replaced and its low byte
/// kept.
pub fn with_rcomp(config: u16, rcomp: u8) -> (r: u16)
    ensures
        r == 256 * (rcomp as int) + config % 256,
        r / 256 == rcomp,
        r % 256 == config % 256,
{
    (rcomp as u16) * 256 + config % 256
}

/// Whether a state of charge, in percent, counts as low.
pub fn is_battery_low(soc: u16) -> (r: bool)
    ensures
        r == (soc < LOW_SOC),
{
    soc < LOW_SOC
}

} // verus!
