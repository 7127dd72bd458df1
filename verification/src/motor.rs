//! The smart-motor model: the device's status and configuration words, and
//! the decoding rules for them.
//!
//! Register reads and writes are hardware work and live with the host
//! layer; it refreshes a motor's status words from the device and encodes
//! configuration values with the codes defined here.

use vstd::prelude::*;

verus! {

/// Faults a motor can report, each one bit of the hardware fault bitmask.
#[derive(Clone, Copy, Debug, PartialEq, Eq, Structural)]
pub enum MotorFaults {
    /// No faults.
    NoFault,
    /// The motor is over temperature.
    OverTemp,
    /// The h-bridge is faulting.
    HBridgeFault,
    /// The motor is over current.
    OverCurrent,
    /// The h-bridge is over current.
    HBridgeOverCurrent,
}

impl MotorFaults {
    /// The bit this fault occupies in the fault bitmask.
    pub open spec fn spec_mask(self) -> u32 {
        match self {
            MotorFaults::NoFault => 0x0,
            MotorFaults::OverTemp => 0x01,
            MotorFaults::HBridgeFault => 0x02,
            MotorFaults::OverCurrent => 0x04,
            MotorFaults::HBridgeOverCurrent => 0x08,
        }
    }

    /// The bit this fault occupies in the fault bitmask.
    pub fn mask(self) -> (m: u32)
        ensures
            m == self.spec_mask(),
    {
        match self {
            MotorFaults::NoFault => 0x0,
            MotorFaults::OverTemp => 0x01,
            MotorFaults::HBridgeFault => 0x02,
            MotorFaults::OverCurrent => 0x04,
            MotorFaults::HBridgeOverCurrent => 0x08,
        }
    }
}

/// Flags a motor can have set, each one bit of the hardware flag bitmask.
#[derive(Clone, Copy, Debug, PartialEq, Eq, Structural)]
pub enum MotorFlags {
    /// No flags are set.
    NoFlag,
    /// Unable to communicate with the motor.
    NoCommunication,
    /// The motor is stopped.
    Stopped,
    /// The motor has a position of zero.
    ZeroPosition,
}

impl MotorFlags {
    /// The bit this flag occupies in the flag bitmask.
    pub open spec fn spec_mask(self) -> u32 {
        match self {
            MotorFlags::NoFlag => 0x0,
            MotorFlags::NoCommunication => 0x01,
            MotorFlags::Stopped => 0x02,
            MotorFlags::ZeroPosition => 0x04,
        }
    }

    /// The bit this flag occupies in the flag bitmask.
    pub fn mask(self) -> (m: u32)
        ensures
            m == self.spec_mask(),
    {
        match self {
            MotorFlags::NoFlag => 0x0,
            MotorFlags::NoCommunication => 0x01,
            MotorFlags::Stopped => 0x02,
            MotorFlags::ZeroPosition => 0x04,
        }
    }
}

/// The gearbox a motor uses.
#[derive(Clone, Copy, Debug, PartialEq, Eq, Structural)]
pub enum MotorGearbox {
    Red,
    Green,
    Blue,
}

impl MotorGearbox {
    /// The code the device uses for this gearbox.
    pub fn code(self) -> (c: u32)
        ensures
            c == (match self {
                MotorGearbox::Red => 0u32,
                MotorGearbox::Green => 1u32,
                MotorGearbox::Blue => 2u32,
            }),
    {
        match self {
            MotorGearbox::Red => 0,
            MotorGearbox::Green => 1,
            MotorGearbox::Blue => 2,
        }
    }

    /// Decodes the gearbox code the device reports; unknown codes read as
    /// `Blue`.
    pub fn from_code(code: u32) -> (g: MotorGearbox)
        ensures
            g == (if code == 0 {
                MotorGearbox::Red
            } else if code == 1 {
                MotorGearbox::Green
            } else {
                MotorGearbox::Blue
            }),
    {
        match code {
            0 => MotorGearbox::Red,
            1 => MotorGearbox::Green,
            _ => MotorGearbox::Blue,
        }
    }
}

/// The units an encoder tick is reported in.
#[derive(Clone, Copy, Debug, PartialEq, Eq, Structural, Default)]
pub enum MotorEncoderUnits {
    /// The units are in degrees.
    #[default]
    Degrees,
    /// The units are in rotations.
    Rotations,
    /// The units are in ticks.
    Ticks,
}

impl MotorEncoderUnits {
    /// The code the device uses for these units.
    pub fn code(self) -> (c: u32)
        ensures
            c == (match self {
                MotorEncoderUnits::Degrees => 0u32,
                MotorEncoderUnits::Rotations => 1u32,
                MotorEncoderUnits::Ticks => 2u32,
            }),
    {
        match self {
            MotorEncoderUnits::Degrees => 0,
            MotorEncoderUnits::Rotations => 1,
            MotorEncoderUnits::Ticks => 2,
        }
    }

    /// Decodes the units code the device reports; unknown codes read as
    /// `Ticks`.
    pub fn from_code(code: u32) -> (u: MotorEncoderUnits)
        ensures
            u == (if code == 0 {
                MotorEncoderUnits::Degrees
            } else if code == 1 {
                MotorEncoderUnits::Rotations
            } else {
                MotorEncoderUnits::Ticks
            }),
    {
        match code {
            0 => MotorEncoderUnits::Degrees,
            1 => MotorEncoderUnits::Rotations,
            _ => MotorEncoderUnits::Ticks,
        }
    }
}

/// The brake mode of a motor.
#[derive(Clone, Copy, Debug, PartialEq, Eq, Structural, Default)]
pub enum MotorBrakeMode {
    /// The motor will coast to a stop.
    #[default]
    Coast,
    /// The motor will brake to a stop.
    Brake,
    /// The motor will attempt to hold its current position, reacting to
    /// outside forces.
    Hold,
}

impl MotorBrakeMode {
    /// The code the device uses for this mode.
    pub fn code(self) -> (c: u32)
        ensures
            c == (match self {
                MotorBrakeMode::Coast => 0u32,
                MotorBrakeMode::Brake => 1u32,
                MotorBrakeMode::Hold => 2u32,
            }),
    {
        match self {
            MotorBrakeMode::Coast => 0,
            MotorBrakeMode::Brake => 1,
            MotorBrakeMode::Hold => 2,
        }
    }

    /// Decodes the brake-mode code the device reports; unknown codes read
    /// as `Hold`.
    pub fn from_code(code: u32) -> (m: MotorBrakeMode)
        ensures
            m == (if code == 0 {
                MotorBrakeMode::Coast
            } else if code == 1 {
                MotorBrakeMode::Brake
            } else {
                MotorBrakeMode::Hold
            }),
    {
        match code {
            0 => MotorBrakeMode::Coast,
            1 => MotorBrakeMode::Brake,
            _ => MotorBrakeMode::Hold,
        }
    }
}

/// A basic smart motor, modeled by the smart port it is connected to and
/// the status words last read from it. The host layer refreshes `flags` and
/// `faults` from the device registers; the predicates here decode them.
#[derive(Clone, Copy, Debug, PartialEq, Eq, Structural)]
pub struct SmartMotor {
    /// The smart port this motor is connected to.
    pub port: u32,
    /// The flag bitmask, as last read from the device.
    pub flags: u32,
    /// The fault bitmask, as last read from the device.
    pub faults: u32,
}

impl SmartMotor {
    /// A motor on the given smart port, with nothing read from it yet.
    pub fn new_smart(port: u32) -> (m: SmartMotor)
        ensures
            m == (SmartMotor { port, flags: 0, faults: 0 }),
    {
        SmartMotor { port, flags: 0, faults: 0 }
    }

    /// The smart port this motor is connected to.
    pub fn get_smart_port(&self) -> (p: u32)
        ensures
            p == self.port,
    {
        self.port
    }

    /// Records status words freshly read from the device.
    pub fn set_status(&mut self, flags: u32, faults: u32)
        ensures
            *final(self) == (SmartMotor { port: old(self).port, flags, faults }),
    {
        self.flags = flags;
        self.faults = faults;
    }

    /// Returns true if the motor is at absolute position zero.
    pub fn is_at_zero(&self) -> (r: bool)
        ensures
            r == ((self.flags & MotorFlags::ZeroPosition.spec_mask()) != 0),
    {
        (self.flags & MotorFlags::ZeroPosition.mask()) != 0
    }

    /// Returns true if the motor is stopped.
    pub fn is_stopped(&self) -> (r: bool)
        ensures
            r == ((self.flags & MotorFlags::Stopped.spec_mask()) != 0),
    {
        (self.flags & MotorFlags::Stopped.mask()) != 0
    }

    /// Returns true if the motor is over temperature.
    pub fn is_over_temp(&self) -> (r: bool)
        ensures
            r == ((self.faults & MotorFaults::OverTemp.spec_mask()) != 0),
    {
        (self.faults & MotorFaults::OverTemp.mask()) != 0
    }

    /// Returns true if the motor is over current.
    pub fn is_over_current(&self) -> (r: bool)
        ensures
            r == ((self.faults & MotorFaults::OverCurrent.spec_mask()) != 0),
    {
        (self.faults & MotorFaults::OverCurrent.mask()) != 0
    }

    /// Clamps a requested drive voltage to the drivable range, `-127` to
    /// `127`; values already in range pass through unchanged.
    pub fn clamp_voltage(voltage: i32) -> (v: i32)
        ensures
            -127 <= v <= 127,
            -127 <= voltage <= 127 ==> v == voltage,
            voltage > 127 ==> v == 127,
            voltage < -127 ==> v == -127,
    {
        if voltage > 127 {
            127
        } else if voltage < -127 {
            -127
        } else {
            voltage
        }
    }
}

} // verus!
