use portal_input::handshake::{
    find_offer, HandshakeEngine, HandshakeError, HandshakeState, HANDSHAKE_VERSION,
};
use portal_input::interface::{same_text, InterfaceName, InterfaceOffer};
use portal_input::capability::Capability;
use portal_input::wire::{ContextRole, DisconnectReason, Request, WireEvent};

fn offers() -> Vec<InterfaceOffer> {
    vec![
        InterfaceOffer { interface: InterfaceName::Connection, version: 1 },
        InterfaceOffer { interface: InterfaceName::Seat, version: 1 },
        InterfaceOffer { interface: InterfaceName::Device, version: 2 },
        InterfaceOffer { interface: InterfaceName::PointerAbsolute, version: 1 },
        InterfaceOffer { interface: InterfaceName::Button, version: 1 },
    ]
}

fn engine() -> HandshakeEngine {
    HandshakeEngine::new(String::from("portal-input"), ContextRole::Sender, offers())
}

fn agree(name: &str, version: u32) -> WireEvent {
    WireEvent::InterfaceVersion { name: String::from(name), version }
}

#[test]
fn interface_names_round_trip() {
    let all = [
        (InterfaceName::Handshake, "ei_handshake"),
        (InterfaceName::Connection, "ei_connection"),
        (InterfaceName::Callback, "ei_callback"),
        (InterfaceName::Pingpong, "ei_pingpong"),
        (InterfaceName::Seat, "ei_seat"),
        (InterfaceName::Device, "ei_device"),
        (InterfaceName::Pointer, "ei_pointer"),
        (InterfaceName::PointerAbsolute, "ei_pointer_absolute"),
        (InterfaceName::Scroll, "ei_scroll"),
        (InterfaceName::Button, "ei_button"),
        (InterfaceName::Keyboard, "ei_keyboard"),
        (InterfaceName::Touchscreen, "ei_touchscreen"),
        (InterfaceName::Text, "ei_text"),
    ];
    for (interface, name) in all {
        assert_eq!(interface.name(), name);
        assert_eq!(InterfaceName::from_name(&String::from(name)), Some(interface));
        assert_eq!(InterfaceName::from_name(&interface.name()), Some(interface));
    }
    assert_eq!(InterfaceName::from_name(&String::from("ei_pointer_abs")), None);
    assert_eq!(InterfaceName::from_name(&String::from("")), None);
    assert_eq!(InterfaceName::from_name(&String::from("EI_SEAT")), None);
}

#[test]
fn same_text_compares_contents() {
    assert!(same_text(&String::from("move"), "move"));
    assert!(!same_text(&String::from("move"), "mov"));
    assert!(!same_text(&String::from(""), "q"));
    assert!(same_text(&String::new(), ""));
}

#[test]
fn interfaces_and_capabilities_correspond() {
    let pairs = [
        (Capability::Pointer, InterfaceName::Pointer),
        (Capability::PointerAbsolute, InterfaceName::PointerAbsolute),
        (Capability::Keyboard, InterfaceName::Keyboard),
        (Capability::Touch, InterfaceName::Touchscreen),
        (Capability::Scroll, InterfaceName::Scroll),
        (Capability::Button, InterfaceName::Button),
        (Capability::Text, InterfaceName::Text),
    ];
    for (capability, interface) in pairs {
        assert_eq!(InterfaceName::for_capability(capability), interface);
        assert_eq!(interface.capability(), Some(capability));
    }
    assert_eq!(InterfaceName::Seat.capability(), None);
    assert_eq!(InterfaceName::Handshake.capability(), None);
    assert_eq!(InterfaceName::Device.capability(), None);
}

#[test]
fn find_offer_takes_the_first_entry() {
    let mut list = offers();
    list.push(InterfaceOffer { interface: InterfaceName::Device, version: 9 });
    assert_eq!(find_offer(&list, InterfaceName::Device), Some(2));
    assert_eq!(find_offer(&list, InterfaceName::Button), Some(1));
    assert_eq!(find_offer(&list, InterfaceName::Keyboard), None);
    assert_eq!(find_offer(&Vec::new(), InterfaceName::Seat), None);
}

#[test]
fn well_formed_exchange_completes_once() {
    let mut engine = engine();
    let mut out = Vec::new();
    assert_eq!(engine.state(), HandshakeState::AwaitingVersion);
    assert!(!engine.is_complete());

    let r = engine.handle_event(&WireEvent::HandshakeVersion { version: 1 }, &mut out);
    assert!(matches!(r, Ok(None)));
    assert_eq!(engine.state(), HandshakeState::NegotiatingInterfaces);

    assert!(matches!(engine.handle_event(&agree("ei_connection", 1), &mut out), Ok(None)));
    assert!(matches!(engine.handle_event(&agree("ei_seat", 1), &mut out), Ok(None)));
    assert!(matches!(engine.handle_event(&agree("ei_device", 2), &mut out), Ok(None)));
    assert!(matches!(engine.handle_event(&agree("ei_pointer_absolute", 1), &mut out), Ok(None)));
    assert_eq!(engine.state(), HandshakeState::NegotiatingInterfaces);

    let r = engine.handle_event(&WireEvent::Connection { connection: 40, serial: 0 }, &mut out);
    let response = r.unwrap().unwrap();
    assert_eq!(response.serial, 0);
    assert_eq!(response.connection, 40);
    assert_eq!(
        response.negotiated_interfaces,
        vec![
            InterfaceOffer { interface: InterfaceName::Connection, version: 1 },
            InterfaceOffer { interface: InterfaceName::Seat, version: 1 },
            InterfaceOffer { interface: InterfaceName::Device, version: 2 },
            InterfaceOffer { interface: InterfaceName::PointerAbsolute, version: 1 },
        ]
    );
    assert!(response.has_interface(InterfaceName::Seat));
    assert!(response.has_interface(InterfaceName::PointerAbsolute));
    assert!(!response.has_interface(InterfaceName::Button));
    assert!(!response.has_interface(InterfaceName::Keyboard));
    assert_eq!(response.version_of(InterfaceName::Device), Some(2));
    assert_eq!(response.version_of(InterfaceName::Button), None);
    assert_eq!(engine.state(), HandshakeState::Complete);
    assert!(engine.is_complete());

    // a second connection message gives no second response
    let r = engine.handle_event(&WireEvent::Connection { connection: 41, serial: 9 }, &mut out);
    assert_eq!(r.unwrap_err(), HandshakeError::MalformedSequence);
    assert_eq!(engine.state(), HandshakeState::Complete);
}

#[test]
fn offer_is_staged_in_order() {
    let mut engine = engine();
    let mut out = vec![Request::Pong { ping: 1 }];
    engine.handle_event(&WireEvent::HandshakeVersion { version: 3 }, &mut out).unwrap();
    assert_eq!(out.len(), 1 + 3 + 5 + 1);
    assert!(matches!(out[0], Request::Pong { ping: 1 }));
    assert!(matches!(out[1], Request::HandshakeVersion { version: HANDSHAKE_VERSION }));
    match &out[2] {
        Request::Name { name } => assert_eq!(name, "portal-input"),
        other => panic!("unexpected {:?}", other),
    }
    assert!(matches!(out[3], Request::ContextType { role: ContextRole::Sender }));
    let expected = offers();
    for (i, offer) in expected.iter().enumerate() {
        match &out[4 + i] {
            Request::InterfaceVersion { interface, version } => {
                assert_eq!(*interface, offer.interface);
                assert_eq!(*version, offer.version);
            }
            other => panic!("unexpected {:?}", other),
        }
    }
    assert!(matches!(out[9], Request::Finish));
}

#[test]
fn nothing_is_staged_but_the_offer() {
    let mut engine = engine();
    let mut out = Vec::new();
    engine.handle_event(&WireEvent::Ping { ping: 4 }, &mut out).unwrap();
    assert!(out.is_empty());
    engine.handle_event(&WireEvent::HandshakeVersion { version: 1 }, &mut out).unwrap();
    let staged = out.len();
    engine.handle_event(&agree("ei_seat", 1), &mut out).unwrap();
    engine.handle_event(&WireEvent::Connection { connection: 1, serial: 5 }, &mut out).unwrap();
    assert_eq!(out.len(), staged);
}

#[test]
fn unsupported_handshake_version_is_an_error() {
    let mut engine = engine();
    let mut out = Vec::new();
    let r = engine.handle_event(&WireEvent::HandshakeVersion { version: 0 }, &mut out);
    assert_eq!(r.unwrap_err(), HandshakeError::UnsupportedVersion);
    assert_eq!(engine.state(), HandshakeState::AwaitingVersion);
    assert!(out.is_empty());
}

#[test]
fn unsupported_interface_version_is_an_error() {
    let mut engine = engine();
    let mut out = Vec::new();
    engine.handle_event(&WireEvent::HandshakeVersion { version: 1 }, &mut out).unwrap();
    assert_eq!(
        engine.handle_event(&agree("ei_device", 3), &mut out).unwrap_err(),
        HandshakeError::UnsupportedVersion
    );
    assert_eq!(
        engine.handle_event(&agree("ei_device", 0), &mut out).unwrap_err(),
        HandshakeError::UnsupportedVersion
    );
    assert!(matches!(engine.handle_event(&agree("ei_device", 1), &mut out), Ok(None)));
    assert_eq!(engine.state(), HandshakeState::NegotiatingInterfaces);
}

#[test]
fn interfaces_that_were_not_offered_are_ignored() {
    let mut engine = engine();
    let mut out = Vec::new();
    engine.handle_event(&WireEvent::HandshakeVersion { version: 1 }, &mut out).unwrap();
    assert!(matches!(engine.handle_event(&agree("ei_keyboard", 7), &mut out), Ok(None)));
    assert!(matches!(engine.handle_event(&agree("ei_future", 0), &mut out), Ok(None)));
    let response = engine
        .handle_event(&WireEvent::Connection { connection: 2, serial: 11 }, &mut out)
        .unwrap()
        .unwrap();
    assert!(response.negotiated_interfaces.is_empty());
    assert_eq!(response.serial, 11);
}

#[test]
fn malformed_sequences_are_errors() {
    let mut out = Vec::new();

    let mut fresh = engine();
    assert_eq!(
        fresh.handle_event(&agree("ei_seat", 1), &mut out).unwrap_err(),
        HandshakeError::MalformedSequence
    );
    assert_eq!(
        fresh
            .handle_event(&WireEvent::Connection { connection: 1, serial: 1 }, &mut out)
            .unwrap_err(),
        HandshakeError::MalformedSequence
    );
    assert_eq!(fresh.state(), HandshakeState::AwaitingVersion);

    let mut offered = engine();
    offered.handle_event(&WireEvent::HandshakeVersion { version: 1 }, &mut out).unwrap();
    assert_eq!(
        offered
            .handle_event(&WireEvent::HandshakeVersion { version: 1 }, &mut out)
            .unwrap_err(),
        HandshakeError::MalformedSequence
    );
    assert_eq!(offered.state(), HandshakeState::NegotiatingInterfaces);
}

#[test]
fn rejected_role_is_an_error() {
    let mut out = Vec::new();
    let mut engine = engine();
    engine.handle_event(&WireEvent::HandshakeVersion { version: 1 }, &mut out).unwrap();
    let gone = WireEvent::Disconnected { last_serial: 0, reason: DisconnectReason::Mode };
    assert_eq!(engine.handle_event(&gone, &mut out).unwrap_err(), HandshakeError::RejectedRole);
    let gone = WireEvent::Disconnected { last_serial: 0, reason: DisconnectReason::Error };
    assert_eq!(
        engine.handle_event(&gone, &mut out).unwrap_err(),
        HandshakeError::MalformedSequence
    );
}

#[test]
fn unrelated_events_are_ignored() {
    let mut out = Vec::new();
    let mut engine = engine();
    let unrelated = [
        WireEvent::SeatAnnounced { seat: 5 },
        WireEvent::Ping { ping: 6 },
        WireEvent::DeviceDone { device: 7 },
        WireEvent::InvalidObject { last_serial: 1, invalid_id: 2 },
    ];
    for event in &unrelated {
        assert!(matches!(engine.handle_event(event, &mut out), Ok(None)));
        assert_eq!(engine.state(), HandshakeState::AwaitingVersion);
    }
    engine.handle_event(&WireEvent::HandshakeVersion { version: 1 }, &mut out).unwrap();
    for event in &unrelated {
        assert!(matches!(engine.handle_event(event, &mut out), Ok(None)));
        assert_eq!(engine.state(), HandshakeState::NegotiatingInterfaces);
    }
    engine.handle_event(&WireEvent::Connection { connection: 1, serial: 0 }, &mut out).unwrap();
    let gone = WireEvent::Disconnected { last_serial: 0, reason: DisconnectReason::Mode };
    assert!(matches!(engine.handle_event(&gone, &mut out), Ok(None)));
    assert_eq!(engine.state(), HandshakeState::Complete);
}
