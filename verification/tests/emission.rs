use portal_input::capability::{Capability, CapabilitySet};
use portal_input::device::{Device, InterfaceTable, Region};
use portal_input::emission::{
    EmissionCommand, EmissionError, EmissionSession, EmissionState,
};
use portal_input::wire::{ButtonState, DeviceType, Request};

fn pointer_device(button: Option<u64>) -> Device {
    Device {
        id: 7,
        seat: 3,
        name: String::from("virtual pointer"),
        device_type: DeviceType::Virtual,
        dimensions: None,
        regions: vec![Region { x: 0, y: 0, width: 1920, height: 1080, scale: 1 }],
        interfaces: InterfaceTable {
            pointer: Some(8),
            pointer_absolute: Some(9),
            keyboard: None,
            touch: None,
            scroll: None,
            button,
            text: None,
        },
    }
}

fn all_bound() -> CapabilitySet {
    CapabilitySet::from_list(&[Capability::Pointer, Capability::PointerAbsolute, Capability::Button])
}

fn open(device: &Device) -> Option<EmissionSession> {
    EmissionSession::new(device, &all_bound())
}

#[test]
fn session_needs_absolute_pointer() {
    let mut device = pointer_device(Some(10));
    device.interfaces.pointer_absolute = None;
    assert!(open(&device).is_none());
    assert!(open(&pointer_device(None)).is_some());
}

#[test]
fn session_needs_bound_capabilities() {
    let device = pointer_device(Some(10));
    let unbound = CapabilitySet::from_list(&[Capability::Pointer, Capability::Button]);
    assert!(EmissionSession::new(&device, &unbound).is_none());
    assert!(EmissionSession::new(&device, &CapabilitySet::empty()).is_none());
    let pointer_only = CapabilitySet::from_list(&[Capability::PointerAbsolute]);
    let session = EmissionSession::new(&device, &pointer_only).unwrap();
    assert!(!session.has_button());
    assert!(open(&device).unwrap().has_button());
}

#[test]
fn new_session_is_idle() {
    let session = open(&pointer_device(Some(10))).unwrap();
    assert_eq!(session.state(), EmissionState::Idle);
    assert_eq!(session.last_serial(), None);
    assert_eq!(session.last_sequence(), None);
    assert_eq!(session.device(), 7);
    assert!(session.has_button());
    assert_eq!(session.frames_committed(), 0);
}

#[test]
fn motion_before_start_is_rejected() {
    let mut session = open(&pointer_device(Some(10))).unwrap();
    assert_eq!(session.motion_absolute(500, 500).unwrap_err(), EmissionError::OrderingViolation);
    assert_eq!(
        session.button(272, ButtonState::Press).unwrap_err(),
        EmissionError::OrderingViolation
    );
    assert_eq!(session.frame(2, 10).unwrap_err(), EmissionError::OrderingViolation);
    assert_eq!(session.stop_emulating(1).unwrap_err(), EmissionError::OrderingViolation);
    assert_eq!(session.state(), EmissionState::Idle);
    assert_eq!(session.last_serial(), None);
}

#[test]
fn motion_after_stop_is_rejected() {
    let mut session = open(&pointer_device(Some(10))).unwrap();
    assert!(session.start_emulating(1, 1).is_ok());
    assert!(session.motion_absolute(1, 2).is_ok());
    assert!(session.frame(2, 100).is_ok());
    assert!(session.stop_emulating(2).is_ok());
    assert_eq!(session.motion_absolute(3, 4).unwrap_err(), EmissionError::OrderingViolation);
    assert_eq!(
        session.button(272, ButtonState::Released).unwrap_err(),
        EmissionError::OrderingViolation
    );
    assert_eq!(session.frame(3, 200).unwrap_err(), EmissionError::OrderingViolation);
    assert_eq!(session.state(), EmissionState::Idle);
}

#[test]
fn frame_with_stale_serial_is_rejected() {
    let mut session = open(&pointer_device(Some(10))).unwrap();
    assert!(session.start_emulating(5, 1).is_ok());
    assert_eq!(session.frame(5, 1).unwrap_err(), EmissionError::OrderingViolation);
    assert_eq!(session.frame(4, 1).unwrap_err(), EmissionError::OrderingViolation);
    assert!(session.frame(6, 1).is_ok());
    assert_eq!(session.frame(6, 2).unwrap_err(), EmissionError::OrderingViolation);
    assert_eq!(session.frame(0, 2).unwrap_err(), EmissionError::OrderingViolation);
    assert_eq!(session.last_serial(), Some(6));
    assert_eq!(session.frames_committed(), 1);
    assert!(session.frame(u32::MAX, 3).is_ok());
    assert_eq!(session.frame(u32::MAX, 4).unwrap_err(), EmissionError::OrderingViolation);
}

#[test]
fn start_twice_is_rejected() {
    let mut session = open(&pointer_device(None)).unwrap();
    assert!(session.start_emulating(1, 1).is_ok());
    assert_eq!(session.start_emulating(2, 2).unwrap_err(), EmissionError::OrderingViolation);
    assert_eq!(session.last_serial(), Some(1));
    assert_eq!(session.last_sequence(), Some(1));
}

#[test]
fn reopening_needs_a_new_sequence() {
    let mut session = open(&pointer_device(None)).unwrap();
    assert!(session.start_emulating(1, 1).is_ok());
    assert!(session.stop_emulating(1).is_ok());
    assert_eq!(session.start_emulating(1, 1).unwrap_err(), EmissionError::OrderingViolation);
    assert_eq!(session.start_emulating(0, 2).unwrap_err(), EmissionError::OrderingViolation);
    assert!(session.start_emulating(1, 2).is_ok());
    assert_eq!(session.state(), EmissionState::Emulating);
}

#[test]
fn stop_behind_last_serial_is_rejected() {
    let mut session = open(&pointer_device(None)).unwrap();
    assert!(session.start_emulating(1, 1).is_ok());
    assert!(session.frame(4, 0).is_ok());
    assert_eq!(session.stop_emulating(3).unwrap_err(), EmissionError::OrderingViolation);
    assert_eq!(session.state(), EmissionState::Emulating);
    assert!(session.stop_emulating(4).is_ok());
}

#[test]
fn button_without_capability_is_rejected() {
    let mut session = open(&pointer_device(None)).unwrap();
    assert!(!session.has_button());
    assert_eq!(
        session.button(272, ButtonState::Press).unwrap_err(),
        EmissionError::OrderingViolation
    );
    assert!(session.start_emulating(1, 1).is_ok());
    assert_eq!(session.button(272, ButtonState::Press).unwrap_err(), EmissionError::NoButton);
}

#[test]
fn accepted_calls_stage_their_messages() {
    let mut session = open(&pointer_device(Some(10))).unwrap();
    assert!(matches!(
        session.start_emulating(1, 1),
        Ok(Request::StartEmulating { device: 7, serial: 1, sequence: 1 })
    ));
    assert!(matches!(
        session.motion_absolute(500, -3),
        Ok(Request::MotionAbsolute { object: 9, x: 500, y: -3 })
    ));
    assert!(matches!(
        session.button(272, ButtonState::Press),
        Ok(Request::Button { object: 10, button: 272, state: ButtonState::Press })
    ));
    assert!(matches!(
        session.frame(2, 77),
        Ok(Request::Frame { device: 7, serial: 2, timestamp: 77 })
    ));
    assert!(matches!(
        session.stop_emulating(2),
        Ok(Request::StopEmulating { device: 7, serial: 2 })
    ));
}

#[test]
fn end_to_end_emission_commits_rising_serials() {
    let t: u64 = 1_000_000;
    let mut session = open(&pointer_device(Some(10))).unwrap();
    let calls = [
        EmissionCommand::StartEmulating { serial: 1, sequence: 1 },
        EmissionCommand::MotionAbsolute { x: 500, y: 500 },
        EmissionCommand::Frame { serial: 2, timestamp: t },
        EmissionCommand::Button { code: 272, state: ButtonState::Press },
        EmissionCommand::Frame { serial: 3, timestamp: t + 50_000 },
        EmissionCommand::Button { code: 272, state: ButtonState::Released },
        EmissionCommand::Frame { serial: 4, timestamp: t + 100_000 },
        EmissionCommand::StopEmulating { serial: 4 },
    ];
    let mut serials = Vec::new();
    for call in calls {
        match session.apply(call) {
            Ok(Request::StartEmulating { serial, .. }) => serials.push(serial),
            Ok(Request::Frame { serial, .. }) => serials.push(serial),
            Ok(_) => {}
            Err(e) => panic!("refused: {:?}", e),
        }
    }
    assert_eq!(serials, vec![1, 2, 3, 4]);
    assert_eq!(session.frames_committed(), 3);
    assert_eq!(session.state(), EmissionState::Idle);
    assert_eq!(session.last_serial(), Some(4));
}
