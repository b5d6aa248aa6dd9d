use portal_input::capability::{Capability, CapabilitySet};
use portal_input::device::Region;
use portal_input::emission::{EmissionCommand, EmissionError};
use portal_input::handshake::HandshakeError;
use portal_input::interface::{InterfaceName, InterfaceOffer};
use portal_input::plan::{plan_emission, EmissionStep};
use portal_input::registry_model::{ConverterError, LifecycleEvent};
use portal_input::session::{Session, SessionConfig};
use portal_input::session_model::{Phase, SessionError};
use portal_input::wire::{
    ButtonState, ContextRole, DeviceType, DisconnectReason, PendingEvent, ReadOutcome, Request,
    WireEvent,
};

fn config() -> SessionConfig {
    SessionConfig {
        name: String::from("portal-input"),
        role: ContextRole::Sender,
        offers: vec![
            InterfaceOffer { interface: InterfaceName::Connection, version: 1 },
            InterfaceOffer { interface: InterfaceName::Seat, version: 1 },
            InterfaceOffer { interface: InterfaceName::Device, version: 2 },
            InterfaceOffer { interface: InterfaceName::Pointer, version: 1 },
            InterfaceOffer { interface: InterfaceName::PointerAbsolute, version: 1 },
            InterfaceOffer { interface: InterfaceName::Button, version: 1 },
        ],
        wanted: CapabilitySet::from_list(&[
            Capability::Pointer,
            Capability::PointerAbsolute,
            Capability::Button,
        ]),
        handshake_timeout: 5_000,
        discovery_timeout: 5_000,
        issue_limit: 3,
    }
}

fn message(session: &mut Session, event: WireEvent, now: u64) -> Vec<LifecycleEvent> {
    session.on_pending(PendingEvent::Request(event), now)
}

fn shake_hands(session: &mut Session, now: u64) {
    message(session, WireEvent::HandshakeVersion { version: 1 }, now);
    for name in ["ei_connection", "ei_seat", "ei_device", "ei_pointer_absolute", "ei_button"] {
        message(session, WireEvent::InterfaceVersion { name: String::from(name), version: 1 }, now);
    }
    message(session, WireEvent::Connection { connection: 50, serial: 0 }, now);
}

fn describe_seat(session: &mut Session, seat: u64, now: u64) -> Vec<LifecycleEvent> {
    let mut events = Vec::new();
    events.extend(message(session, WireEvent::SeatAnnounced { seat }, now));
    for (interface, mask) in [("ei_pointer", 1u64), ("ei_pointer_absolute", 2), ("ei_button", 32)] {
        events.extend(message(
            session,
            WireEvent::SeatCapability { seat, mask, interface: String::from(interface) },
            now,
        ));
    }
    events.extend(message(session, WireEvent::SeatDone { seat }, now));
    events
}

fn describe_device(
    session: &mut Session,
    seat: u64,
    device: u64,
    interfaces: &[(&str, u64)],
    now: u64,
) -> Vec<LifecycleEvent> {
    let mut events = Vec::new();
    events.extend(message(session, WireEvent::SeatDevice { seat, device }, now));
    events.extend(message(
        session,
        WireEvent::DeviceKind { device, device_type: DeviceType::Virtual },
        now,
    ));
    events.extend(message(
        session,
        WireEvent::DeviceRegion { device, x: 0, y: 0, width: 1920, height: 1080, scale: 1 },
        now,
    ));
    for (interface, object) in interfaces {
        events.extend(message(
            session,
            WireEvent::DeviceInterface {
                device,
                object: *object,
                interface: String::from(*interface),
            },
            now,
        ));
    }
    events.extend(message(session, WireEvent::DeviceDone { device }, now));
    events
}

const POINTER: [(&str, u64); 3] =
    [("ei_pointer", 71), ("ei_pointer_absolute", 72), ("ei_button", 73)];

#[test]
fn would_block_reads_change_nothing() {
    let mut session = Session::new(config(), 10);
    for _ in 0..100 {
        session.on_read(ReadOutcome::WouldBlock);
    }
    assert_eq!(session.phase(), Phase::Handshake);
    assert!(session.is_live());
    assert_eq!(session.issues(), 0);
    assert!(session.take_outbound().is_empty());
    assert!(!session.registry().has_event());

    shake_hands(&mut session, 20);
    session.take_outbound();
    for _ in 0..100 {
        session.on_read(ReadOutcome::WouldBlock);
    }
    assert_eq!(session.phase(), Phase::Discovery);
    assert!(session.take_outbound().is_empty());
    assert!(!session.registry().has_event());
    // still within its time, counted from the end of the handshake
    session.tick(5_019);
    assert_eq!(session.phase(), Phase::Discovery);
}

#[test]
fn data_reads_change_nothing_and_failed_reads_end_the_session() {
    let mut session = Session::new(config(), 0);
    session.on_read(ReadOutcome::Data(64));
    assert_eq!(session.phase(), Phase::Handshake);
    session.on_read(ReadOutcome::Failed);
    assert_eq!(session.phase(), Phase::Failed(SessionError::Transport));
    assert_eq!(session.error(), Some(SessionError::Transport));
    assert!(!session.is_live());
    // nothing is taken in once the session has ended
    let events = message(&mut session, WireEvent::HandshakeVersion { version: 1 }, 1);
    assert!(events.is_empty());
    assert!(session.take_outbound().is_empty());
    assert_eq!(session.phase(), Phase::Failed(SessionError::Transport));
}

#[test]
fn failed_flush_ends_the_session() {
    let mut session = Session::new(config(), 0);
    session.on_flush(true);
    assert!(session.is_live());
    session.on_flush(false);
    assert_eq!(session.error(), Some(SessionError::Transport));
    session.on_flush(true);
    assert_eq!(session.error(), Some(SessionError::Transport));
}

#[test]
fn handshake_moves_the_session_to_discovery() {
    let mut session = Session::new(config(), 100);
    assert_eq!(session.error(), None);
    let events = message(&mut session, WireEvent::HandshakeVersion { version: 1 }, 110);
    assert!(events.is_empty());
    assert_eq!(session.phase(), Phase::Handshake);
    let staged = session.take_outbound();
    // version, name, role, six interfaces, finish
    assert_eq!(staged.len(), 10);
    assert!(matches!(staged[0], Request::HandshakeVersion { version: 1 }));
    assert!(matches!(staged[9], Request::Finish));
    assert!(session.take_outbound().is_empty());
    message(
        &mut session,
        WireEvent::InterfaceVersion { name: String::from("ei_seat"), version: 1 },
        120,
    );
    assert_eq!(session.phase(), Phase::Handshake);
    assert!(session.negotiated().is_empty());
    message(&mut session, WireEvent::Connection { connection: 50, serial: 17 }, 130);
    assert_eq!(session.phase(), Phase::Discovery);
    assert_eq!(session.registry().last_serial(), 17);
    assert_eq!(
        session.negotiated(),
        &vec![InterfaceOffer { interface: InterfaceName::Seat, version: 1 }]
    );
    assert!(session.take_outbound().is_empty());
}

#[test]
fn events_before_the_response_do_not_reach_the_registry() {
    let mut session = Session::new(config(), 0);
    let events = describe_seat(&mut session, 3, 1);
    assert!(events.is_empty());
    assert!(session.registry().seat(3).is_none());
    assert_eq!(session.phase(), Phase::Handshake);
    assert_eq!(session.issues(), 0);
    shake_hands(&mut session, 2);
    assert!(session.registry().seat(3).is_none());
    let events = describe_seat(&mut session, 3, 3);
    assert_eq!(events, vec![LifecycleEvent::SeatAdded { seat: 3 }]);
    assert!(session.registry().seat(3).is_some());
}

#[test]
fn handshake_error_ends_the_session() {
    let mut session = Session::new(config(), 0);
    message(&mut session, WireEvent::HandshakeVersion { version: 0 }, 1);
    assert_eq!(
        session.phase(),
        Phase::Failed(SessionError::Handshake(HandshakeError::UnsupportedVersion))
    );

    let mut session = Session::new(config(), 0);
    message(&mut session, WireEvent::Connection { connection: 1, serial: 1 }, 1);
    assert_eq!(
        session.error(),
        Some(SessionError::Handshake(HandshakeError::MalformedSequence))
    );

    let mut session = Session::new(config(), 0);
    message(&mut session, WireEvent::HandshakeVersion { version: 1 }, 1);
    message(
        &mut session,
        WireEvent::Disconnected { last_serial: 0, reason: DisconnectReason::Mode },
        2,
    );
    assert_eq!(session.error(), Some(SessionError::Handshake(HandshakeError::RejectedRole)));
}

#[test]
fn handshake_timeout_ends_the_session() {
    let mut session = Session::new(config(), 1_000);
    session.tick(5_999);
    assert_eq!(session.phase(), Phase::Handshake);
    session.tick(500);
    assert_eq!(session.phase(), Phase::Handshake);
    session.tick(6_000);
    assert_eq!(session.phase(), Phase::Failed(SessionError::HandshakeTimeout));
}

#[test]
fn discovery_timeout_without_device_performs_no_emission() {
    let mut session = Session::new(config(), 0);
    shake_hands(&mut session, 100);
    describe_seat(&mut session, 3, 200);
    session.take_outbound();
    session.tick(5_099);
    assert_eq!(session.phase(), Phase::Discovery);
    session.tick(5_100);
    assert_eq!(session.phase(), Phase::Failed(SessionError::DiscoveryTimeout));
    assert_eq!(session.error(), Some(SessionError::DiscoveryTimeout));
    assert_eq!(session.ready_device(), None);
    assert_eq!(session.candidate(), None);
    let calls = [
        EmissionCommand::StartEmulating { serial: 1, sequence: 1 },
        EmissionCommand::MotionAbsolute { x: 500, y: 500 },
        EmissionCommand::Frame { serial: 2, timestamp: 0 },
        EmissionCommand::StopEmulating { serial: 2 },
    ];
    for call in calls {
        assert_eq!(session.emit(call).unwrap_err(), EmissionError::OrderingViolation);
    }
    assert!(session.take_outbound().is_empty());
    // a device that comes too late changes nothing
    let events = describe_device(&mut session, 3, 7, &POINTER, 6_000);
    assert!(events.is_empty());
    assert_eq!(session.phase(), Phase::Failed(SessionError::DiscoveryTimeout));
}

#[test]
fn emission_before_ready_is_rejected() {
    let mut session = Session::new(config(), 0);
    let start = EmissionCommand::StartEmulating { serial: 1, sequence: 1 };
    assert_eq!(session.emit(start).unwrap_err(), EmissionError::OrderingViolation);
    shake_hands(&mut session, 1);
    session.take_outbound();
    describe_seat(&mut session, 3, 2);
    describe_device(&mut session, 3, 7, &POINTER, 3);
    // capabilities are bound and the device is known, but it is not resumed
    assert_eq!(session.candidate(), Some(7));
    assert_eq!(session.phase(), Phase::Discovery);
    assert_eq!(session.emit(start).unwrap_err(), EmissionError::OrderingViolation);
    let staged = session.take_outbound();
    assert_eq!(staged.len(), 1);
    assert!(matches!(staged[0], Request::Bind { seat: 3, mask: 35 }));
}

#[test]
fn each_seat_added_binds_the_wanted_capabilities() {
    let mut session = Session::new(config(), 0);
    shake_hands(&mut session, 1);
    session.take_outbound();
    assert!(!session.flush_due());
    let events = describe_seat(&mut session, 3, 2);
    assert_eq!(events, vec![LifecycleEvent::SeatAdded { seat: 3 }]);
    assert!(session.flush_due());
    let staged = session.take_outbound();
    assert_eq!(staged.len(), 1);
    assert!(matches!(staged[0], Request::Bind { seat: 3, mask: 35 }));
    assert!(!session.flush_due());
    let events = describe_seat(&mut session, 4, 3);
    assert_eq!(events, vec![LifecycleEvent::SeatAdded { seat: 4 }]);
    let staged = session.take_outbound();
    assert_eq!(staged.len(), 1);
    assert!(matches!(staged[0], Request::Bind { seat: 4, mask: 35 }));
    // a seat that is described again is added again, and bound again
    let events = describe_seat(&mut session, 3, 4);
    assert_eq!(events, vec![LifecycleEvent::SeatAdded { seat: 3 }]);
    let staged = session.take_outbound();
    assert_eq!(staged.len(), 1);
    assert!(matches!(staged[0], Request::Bind { seat: 3, mask: 35 }));
}

#[test]
fn no_bind_is_staged_on_other_events() {
    let mut session = Session::new(config(), 0);
    shake_hands(&mut session, 1);
    describe_seat(&mut session, 3, 2);
    session.take_outbound();
    let events = describe_device(&mut session, 3, 7, &POINTER, 3);
    assert_eq!(events, vec![LifecycleEvent::DeviceAdded { device: 7 }]);
    assert!(!session.flush_due());
    let events = message(&mut session, WireEvent::DeviceResumed { device: 7, serial: 1 }, 4);
    assert_eq!(events, vec![LifecycleEvent::DeviceResumed { device: 7, serial: 1 }]);
    assert!(!session.flush_due());
    assert!(session.take_outbound().is_empty());
    // a ping is answered, and the answer is due to be written
    message(&mut session, WireEvent::Ping { ping: 5 }, 5);
    assert!(session.flush_due());
    let staged = session.take_outbound();
    assert_eq!(staged.len(), 1);
    assert!(matches!(staged[0], Request::Pong { ping: 5 }));
}

#[test]
fn flush_is_due_after_what_is_staged() {
    let mut session = Session::new(config(), 0);
    assert!(!session.flush_due());
    message(&mut session, WireEvent::HandshakeVersion { version: 1 }, 1);
    assert!(session.flush_due());
    session.take_outbound();
    assert!(!session.flush_due());
    message(&mut session, WireEvent::Connection { connection: 50, serial: 0 }, 2);
    describe_seat(&mut session, 3, 3);
    describe_device(&mut session, 3, 7, &POINTER, 4);
    message(&mut session, WireEvent::DeviceResumed { device: 7, serial: 1 }, 5);
    session.take_outbound();
    // a refused call stages nothing; an accepted one makes a flush due
    assert!(session.emit(EmissionCommand::Frame { serial: 2, timestamp: 0 }).is_err());
    assert!(!session.flush_due());
    assert!(session.emit(EmissionCommand::StartEmulating { serial: 1, sequence: 1 }).is_ok());
    assert!(session.flush_due());
    session.take_outbound();
    assert!(!session.flush_due());
}

#[test]
fn device_without_absolute_pointer_does_not_make_ready() {
    let mut session = Session::new(config(), 0);
    shake_hands(&mut session, 1);
    describe_seat(&mut session, 3, 2);
    describe_device(&mut session, 3, 8, &[("ei_keyboard", 81)], 3);
    assert_eq!(session.candidate(), None);
    message(&mut session, WireEvent::DeviceResumed { device: 8, serial: 4 }, 4);
    assert_eq!(session.phase(), Phase::Discovery);
    describe_device(&mut session, 3, 7, &POINTER, 5);
    assert_eq!(session.candidate(), Some(7));
    message(&mut session, WireEvent::DeviceDestroyed { device: 7, serial: 5 }, 6);
    assert_eq!(session.candidate(), None);
    session.tick(5_001);
    assert_eq!(session.error(), Some(SessionError::DiscoveryTimeout));
}

#[test]
fn device_is_not_driven_unless_its_capability_was_bound() {
    let mut unwilling = config();
    unwilling.wanted = CapabilitySet::from_list(&[Capability::Pointer, Capability::Button]);
    let mut session = Session::new(unwilling, 0);
    shake_hands(&mut session, 1);
    describe_seat(&mut session, 3, 2);
    describe_device(&mut session, 3, 7, &POINTER, 3);
    message(&mut session, WireEvent::DeviceResumed { device: 7, serial: 1 }, 4);
    assert_eq!(session.phase(), Phase::Discovery);
    assert_eq!(session.ready_device(), None);
    assert_eq!(session.registry().bound_on(3), Some(unwilling_set()));
    assert_eq!(session.registry().bound_on(4), None);

    // absolute motion bound, buttons not: the device is driven without buttons
    let mut modest = config();
    modest.wanted = CapabilitySet::from_list(&[Capability::PointerAbsolute]);
    let mut session = Session::new(modest, 0);
    shake_hands(&mut session, 1);
    describe_seat(&mut session, 3, 2);
    describe_device(&mut session, 3, 7, &POINTER, 3);
    message(&mut session, WireEvent::DeviceResumed { device: 7, serial: 1 }, 4);
    assert_eq!(session.phase(), Phase::Ready);
    assert!(!session.has_button());
}

fn unwilling_set() -> CapabilitySet {
    CapabilitySet::from_list(&[Capability::Pointer, Capability::Button])
}

#[test]
fn issues_are_skipped_up_to_the_limit() {
    let mut session = Session::new(config(), 0);
    session.on_pending(PendingEvent::ParseError(String::from("bad opcode")), 1);
    session.on_pending(PendingEvent::InvalidObject(99), 2);
    assert_eq!(session.issues(), 2);
    assert_eq!(session.phase(), Phase::Handshake);
    shake_hands(&mut session, 3);
    // a violation of the protocol counts as an issue and is skipped
    assert_eq!(session.last_violation(), None);
    let events = message(&mut session, WireEvent::SeatDone { seat: 1 }, 4);
    assert!(events.is_empty());
    assert_eq!(session.issues(), 3);
    assert_eq!(session.last_violation(), Some(ConverterError::SeatSetupEventAfterDone));
    assert_eq!(session.phase(), Phase::Discovery);
    session.on_pending(PendingEvent::InvalidObject(100), 5);
    assert_eq!(session.issues(), 4);
    assert_eq!(session.phase(), Phase::Failed(SessionError::TooManyIssues));
}

#[test]
fn end_to_end_session() {
    let t: u64 = 1_700_000_000_000_000;
    let mut session = Session::new(config(), 0);
    shake_hands(&mut session, 10);
    assert_eq!(session.phase(), Phase::Discovery);
    session.take_outbound();

    let mut events = describe_seat(&mut session, 3, 20);
    events.extend(describe_device(&mut session, 3, 7, &POINTER, 30));
    events.extend(message(&mut session, WireEvent::DeviceResumed { device: 7, serial: 1 }, 40));
    assert_eq!(
        events,
        vec![
            LifecycleEvent::SeatAdded { seat: 3 },
            LifecycleEvent::DeviceAdded { device: 7 },
            LifecycleEvent::DeviceResumed { device: 7, serial: 1 },
        ]
    );
    let device = session.registry().device(7).unwrap();
    assert_eq!(
        device.capabilities(),
        CapabilitySet::from_list(&[Capability::Pointer, Capability::PointerAbsolute, Capability::Button])
    );
    assert_eq!(device.regions, vec![Region { x: 0, y: 0, width: 1920, height: 1080, scale: 1 }]);
    assert_eq!(session.phase(), Phase::Ready);
    assert_eq!(session.ready_device(), Some(7));
    assert_eq!(session.start_serial(), 1);
    assert!(session.has_button());
    let bound = session.take_outbound();
    assert_eq!(bound.len(), 1);
    assert!(matches!(bound[0], Request::Bind { seat: 3, mask: 35 }));

    let calls = [
        EmissionCommand::StartEmulating { serial: 1, sequence: 1 },
        EmissionCommand::MotionAbsolute { x: 500, y: 500 },
        EmissionCommand::Frame { serial: 2, timestamp: t },
        EmissionCommand::Button { code: 272, state: ButtonState::Press },
        EmissionCommand::Frame { serial: 3, timestamp: t + 50_000 },
        EmissionCommand::Button { code: 272, state: ButtonState::Released },
        EmissionCommand::Frame { serial: 4, timestamp: t + 100_000 },
        EmissionCommand::StopEmulating { serial: 4 },
    ];
    for call in calls {
        assert_eq!(session.emit(call), Ok(()));
    }
    let staged = session.take_outbound();
    assert_eq!(staged.len(), 8);
    assert!(matches!(staged[0], Request::StartEmulating { device: 7, serial: 1, sequence: 1 }));
    assert!(matches!(staged[1], Request::MotionAbsolute { object: 72, x: 500, y: 500 }));
    assert!(matches!(staged[2], Request::Frame { device: 7, serial: 2, timestamp } if timestamp == t));
    assert!(matches!(
        staged[3],
        Request::Button { object: 73, button: 272, state: ButtonState::Press }
    ));
    assert!(matches!(staged[4], Request::Frame { device: 7, serial: 3, .. }));
    assert!(matches!(
        staged[5],
        Request::Button { object: 73, button: 272, state: ButtonState::Released }
    ));
    assert!(matches!(staged[6], Request::Frame { device: 7, serial: 4, .. }));
    assert!(matches!(staged[7], Request::StopEmulating { device: 7, serial: 4 }));
    let mut serials = Vec::new();
    for request in &staged {
        match request {
            Request::StartEmulating { serial, .. } | Request::Frame { serial, .. } => {
                serials.push(*serial)
            }
            _ => {}
        }
    }
    assert_eq!(serials, vec![1, 2, 3, 4]);
    assert_eq!(session.phase(), Phase::Ready);
    assert_eq!(session.issues(), 0);
    // the time does not end a session that is ready
    session.tick(1_000_000);
    assert_eq!(session.phase(), Phase::Ready);
}

#[test]
fn refused_emission_stages_nothing() {
    let mut session = Session::new(config(), 0);
    shake_hands(&mut session, 1);
    describe_seat(&mut session, 3, 2);
    describe_device(&mut session, 3, 7, &[("ei_pointer_absolute", 72)], 3);
    message(&mut session, WireEvent::DeviceResumed { device: 7, serial: 6 }, 4);
    assert_eq!(session.phase(), Phase::Ready);
    assert!(!session.has_button());
    session.take_outbound();
    assert_eq!(
        session.emit(EmissionCommand::MotionAbsolute { x: 1, y: 1 }),
        Err(EmissionError::OrderingViolation)
    );
    assert_eq!(session.emit(EmissionCommand::StartEmulating { serial: 6, sequence: 1 }), Ok(()));
    assert_eq!(
        session.emit(EmissionCommand::Frame { serial: 6, timestamp: 0 }),
        Err(EmissionError::OrderingViolation)
    );
    assert_eq!(
        session.emit(EmissionCommand::Button { code: 272, state: ButtonState::Press }),
        Err(EmissionError::NoButton)
    );
    assert_eq!(session.take_outbound().len(), 1);
}

#[test]
fn plan_runs_through_a_ready_session() {
    let mut session = Session::new(config(), 0);
    shake_hands(&mut session, 1);
    describe_seat(&mut session, 3, 2);
    describe_device(&mut session, 3, 7, &POINTER, 3);
    message(&mut session, WireEvent::DeviceResumed { device: 7, serial: 1 }, 4);
    session.take_outbound();
    let plan = plan_emission(session.start_serial(), 1_000, 500, 500, true, true, session.has_button());
    let mut frames = Vec::new();
    let mut flushes = 0;
    for step in plan {
        match step {
            EmissionStep::Command(command) => assert_eq!(session.emit(command), Ok(())),
            EmissionStep::Flush => {
                for request in session.take_outbound() {
                    if let Request::Frame { serial, .. } = request {
                        frames.push(serial);
                    }
                }
                flushes += 1;
            }
            EmissionStep::Sleep { .. } => {}
            EmissionStep::NoButton => panic!("the device has buttons"),
        }
    }
    assert_eq!(frames, (2..=14).collect::<Vec<u32>>());
    assert_eq!(flushes, 1 + 10 + 1 + 2 + 1);
    assert!(session.take_outbound().is_empty());
}
