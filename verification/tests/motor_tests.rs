use ceros::motor::{
    MotorBrakeMode, MotorEncoderUnits, MotorFaults, MotorFlags, MotorGearbox, SmartMotor,
};

#[test]
fn fault_and_flag_masks_are_single_bits() {
    assert_eq!(MotorFaults::NoFault.mask(), 0x0);
    assert_eq!(MotorFaults::OverTemp.mask(), 0x01);
    assert_eq!(MotorFaults::HBridgeFault.mask(), 0x02);
    assert_eq!(MotorFaults::OverCurrent.mask(), 0x04);
    assert_eq!(MotorFaults::HBridgeOverCurrent.mask(), 0x08);
    assert_eq!(MotorFlags::NoFlag.mask(), 0x0);
    assert_eq!(MotorFlags::NoCommunication.mask(), 0x01);
    assert_eq!(MotorFlags::Stopped.mask(), 0x02);
    assert_eq!(MotorFlags::ZeroPosition.mask(), 0x04);
}

#[test]
fn new_motor_reads_nothing() {
    let m = SmartMotor::new_smart(9);
    assert_eq!(m.get_smart_port(), 9);
    assert!(!m.is_at_zero());
    assert!(!m.is_stopped());
    assert!(!m.is_over_temp());
    assert!(!m.is_over_current());
}

#[test]
fn status_predicates_decode_their_own_bits() {
    let mut m = SmartMotor::new_smart(1);
    m.set_status(0x04, 0x00);
    assert!(m.is_at_zero());
    assert!(!m.is_stopped());
    m.set_status(0x02, 0x00);
    assert!(!m.is_at_zero());
    assert!(m.is_stopped());
    m.set_status(0x00, 0x01);
    assert!(m.is_over_temp());
    assert!(!m.is_over_current());
    m.set_status(0x00, 0x04);
    assert!(!m.is_over_temp());
    assert!(m.is_over_current());
}

#[test]
fn status_predicates_ignore_other_bits() {
    let mut m = SmartMotor::new_smart(1);
    // All flag and fault bits at once: each predicate sees only its bit.
    m.set_status(0x07, 0x0f);
    assert!(m.is_at_zero());
    assert!(m.is_stopped());
    assert!(m.is_over_temp());
    assert!(m.is_over_current());
    // H-bridge faults alone trip neither predicate.
    m.set_status(0x00, 0x0a);
    assert!(!m.is_over_temp());
    assert!(!m.is_over_current());
}

#[test]
fn gearbox_codes_round_trip() {
    for g in [MotorGearbox::Red, MotorGearbox::Green, MotorGearbox::Blue] {
        assert_eq!(MotorGearbox::from_code(g.code()), g);
    }
    assert_eq!(MotorGearbox::from_code(0), MotorGearbox::Red);
    assert_eq!(MotorGearbox::from_code(1), MotorGearbox::Green);
    assert_eq!(MotorGearbox::from_code(2), MotorGearbox::Blue);
    assert_eq!(MotorGearbox::from_code(77), MotorGearbox::Blue);
}

#[test]
fn encoder_unit_codes_round_trip() {
    for u in [MotorEncoderUnits::Degrees, MotorEncoderUnits::Rotations, MotorEncoderUnits::Ticks] {
        assert_eq!(MotorEncoderUnits::from_code(u.code()), u);
    }
    assert_eq!(MotorEncoderUnits::from_code(5), MotorEncoderUnits::Ticks);
    assert_eq!(MotorEncoderUnits::default(), MotorEncoderUnits::Degrees);
}

#[test]
fn brake_mode_codes_round_trip() {
    for b in [MotorBrakeMode::Coast, MotorBrakeMode::Brake, MotorBrakeMode::Hold] {
        assert_eq!(MotorBrakeMode::from_code(b.code()), b);
    }
    assert_eq!(MotorBrakeMode::from_code(9), MotorBrakeMode::Hold);
    assert_eq!(MotorBrakeMode::default(), MotorBrakeMode::Coast);
}

#[test]
fn drive_voltage_is_clamped_to_plus_minus_127() {
    assert_eq!(SmartMotor::clamp_voltage(0), 0);
    assert_eq!(SmartMotor::clamp_voltage(50), 50);
    assert_eq!(SmartMotor::clamp_voltage(-50), -50);
    assert_eq!(SmartMotor::clamp_voltage(127), 127);
    assert_eq!(SmartMotor::clamp_voltage(-127), -127);
    assert_eq!(SmartMotor::clamp_voltage(128), 127);
    assert_eq!(SmartMotor::clamp_voltage(-128), -127);
    assert_eq!(SmartMotor::clamp_voltage(i32::MAX), 127);
    assert_eq!(SmartMotor::clamp_voltage(i32::MIN), -127);
}
