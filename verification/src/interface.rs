//! The protocol's interfaces, by name.

use vstd::prelude::*;
use crate::capability::Capability;

verus! {

/// An interface of the protocol.
#[derive(Clone, Copy, Debug, PartialEq, Eq, Structural)]
pub enum InterfaceName {
    Handshake,
    Connection,
    Callback,
    Pingpong,
    Seat,
    Device,
    Pointer,
    PointerAbsolute,
    Scroll,
    Button,
    Keyboard,
    Touchscreen,
    Text,
}

/// An interface together with a version of it.
#[derive(Clone, Copy, Debug, PartialEq, Eq, Structural)]
pub struct InterfaceOffer {
    pub interface: InterfaceName,
    pub version: u32,
}

/// Whether a string holds the given text.
pub fn same_text(a: &String, b: &str) -> (r: bool)
    ensures
        r == (a@ == b@),
{
    let other = b.to_owned();
    *a == other
}

impl InterfaceName {
    /// The name under which the interface goes over the wire.
    pub open spec fn text(self) -> Seq<char> {
        match self {
            InterfaceName::Handshake => "ei_handshake"@,
            InterfaceName::Connection => "ei_connection"@,
            InterfaceName::Callback => "ei_callback"@,
            InterfaceName::Pingpong => "ei_pingpong"@,
            InterfaceName::Seat => "ei_seat"@,
            InterfaceName::Device => "ei_device"@,
            InterfaceName::Pointer => "ei_pointer"@,
            InterfaceName::PointerAbsolute => "ei_pointer_absolute"@,
            InterfaceName::Scroll => "ei_scroll"@,
            InterfaceName::Button => "ei_button"@,
            InterfaceName::Keyboard => "ei_keyboard"@,
            InterfaceName::Touchscreen => "ei_touchscreen"@,
            InterfaceName::Text => "ei_text"@,
        }
    }

    /// The interface that goes by the name `s`, if there is one.
    pub open spec fn named(s: Seq<char>) -> Option<InterfaceName> {
        if s == "ei_handshake"@ {
            Some(InterfaceName::Handshake)
        } else if s == "ei_connection"@ {
            Some(InterfaceName::Connection)
        } else if s == "ei_callback"@ {
            Some(InterfaceName::Callback)
        } else if s == "ei_pingpong"@ {
            Some(InterfaceName::Pingpong)
        } else if s == "ei_seat"@ {
            Some(InterfaceName::Seat)
        } else if s == "ei_device"@ {
            Some(InterfaceName::Device)
        } else if s == "ei_pointer"@ {
            Some(InterfaceName::Pointer)
        } else if s == "ei_pointer_absolute"@ {
            Some(InterfaceName::PointerAbsolute)
        } else if s == "ei_scroll"@ {
            Some(InterfaceName::Scroll)
        } else if s == "ei_button"@ {
            Some(InterfaceName::Button)
        } else if s == "ei_keyboard"@ {
            Some(InterfaceName::Keyboard)
        } else if s == "ei_touchscreen"@ {
            Some(InterfaceName::Touchscreen)
        } else if s == "ei_text"@ {
            Some(InterfaceName::Text)
        } else {
            None
        }
    }

    /// The capability that a device has through this interface, if any.
    pub open spec fn capability_of(self) -> Option<Capability> {
        match self {
            InterfaceName::Pointer => Some(Capability::Pointer),
            InterfaceName::PointerAbsolute => Some(Capability::PointerAbsolute),
            InterfaceName::Keyboard => Some(Capability::Keyboard),
            InterfaceName::Touchscreen => Some(Capability::Touch),
            InterfaceName::Scroll => Some(Capability::Scroll),
            InterfaceName::Button => Some(Capability::Button),
            InterfaceName::Text => Some(Capability::Text),
            _ => None,
        }
    }

    /// The interface through which a device has the capability `c`.
    pub open spec fn providing(c: Capability) -> InterfaceName {
        match c {
            Capability::Pointer => InterfaceName::Pointer,
            Capability::PointerAbsolute => InterfaceName::PointerAbsolute,
            Capability::Keyboard => InterfaceName::Keyboard,
            Capability::Touch => InterfaceName::Touchscreen,
            Capability::Scroll => InterfaceName::Scroll,
            Capability::Button => InterfaceName::Button,
            Capability::Text => InterfaceName::Text,
        }
    }

    /// Finds the interface that goes by `name`.
    pub fn from_name(name: &String) -> (r: Option<InterfaceName>)
        ensures
            r == InterfaceName::named(name@),
    {
        if same_text(name, "ei_handshake") {
            Some(InterfaceName::Handshake)
        } else if same_text(name, "ei_connection") {
            Some(InterfaceName::Connection)
        } else if same_text(name, "ei_callback") {
            Some(InterfaceName::Callback)
        } else if same_text(name, "ei_pingpong") {
            Some(InterfaceName::Pingpong)
        } else if same_text(name, "ei_seat") {
            Some(InterfaceName::Seat)
        } else if same_text(name, "ei_device") {
            Some(InterfaceName::Device)
        } else if same_text(name, "ei_pointer") {
            Some(InterfaceName::Pointer)
        } else if same_text(name, "ei_pointer_absolute") {
            Some(InterfaceName::PointerAbsolute)
        } else if same_text(name, "ei_scroll") {
            Some(InterfaceName::Scroll)
        } else if same_text(name, "ei_button") {
            Some(InterfaceName::Button)
        } else if same_text(name, "ei_keyboard") {
            Some(InterfaceName::Keyboard)
        } else if same_text(name, "ei_touchscreen") {
            Some(InterfaceName::Touchscreen)
        } else if same_text(name, "ei_text") {
            Some(InterfaceName::Text)
        } else {
            None
        }
    }

    /// The interface's name as a string.
    pub fn name(self) -> (r: String)
        ensures
            r@ == self.text(),
    {
        match self {
            InterfaceName::Handshake => "ei_handshake".to_owned(),
            InterfaceName::Connection => "ei_connection".to_owned(),
            InterfaceName::Callback => "ei_callback".to_owned(),
            InterfaceName::Pingpong => "ei_pingpong".to_owned(),
            InterfaceName::Seat => "ei_seat".to_owned(),
            InterfaceName::Device => "ei_device".to_owned(),
            InterfaceName::Pointer => "ei_pointer".to_owned(),
            InterfaceName::PointerAbsolute => "ei_pointer_absolute".to_owned(),
            InterfaceName::Scroll => "ei_scroll".to_owned(),
            InterfaceName::Button => "ei_button".to_owned(),
            InterfaceName::Keyboard => "ei_keyboard".to_owned(),
            InterfaceName::Touchscreen => "ei_touchscreen".to_owned(),
            InterfaceName::Text => "ei_text".to_owned(),
        }
    }

    /// The capability that a device has through this interface, if any.
    pub fn capability(self) -> (r: Option<Capability>)
        ensures
            r == self.capability_of(),
    {
        match self {
            InterfaceName::Pointer => Some(Capability::Pointer),
            InterfaceName::PointerAbsolute => Some(Capability::PointerAbsolute),
            InterfaceName::Keyboard => Some(Capability::Keyboard),
            InterfaceName::Touchscreen => Some(Capability::Touch),
            InterfaceName::Scroll => Some(Capability::Scroll),
            InterfaceName::Button => Some(Capability::Button),
            InterfaceName::Text => Some(Capability::Text),
            _ => None,
        }
    }

    /// The interface through which a device has the capability `c`.
    pub fn for_capability(c: Capability) -> (r: InterfaceName)
        ensures
            r == InterfaceName::providing(c),
            r.capability_of() == Some(c),
    {
        match c {
            Capability::Pointer => InterfaceName::Pointer,
            Capability::PointerAbsolute => InterfaceName::PointerAbsolute,
            Capability::Keyboard => InterfaceName::Keyboard,
            Capability::Touch => InterfaceName::Touchscreen,
            Capability::Scroll => InterfaceName::Scroll,
            Capability::Button => InterfaceName::Button,
            Capability::Text => InterfaceName::Text,
        }
    }
}

/// Every interface is found again by its own name: no two interfaces share
/// one.
pub proof fn lemma_name_round_trip(i: InterfaceName)
    ensures
        InterfaceName::named(i.text()) == Some(i),
{
    reveal_strlit("ei_handshake");
    reveal_strlit("ei_connection");
    reveal_strlit("ei_callback");
    reveal_strlit("ei_pingpong");
    reveal_strlit("ei_seat");
    reveal_strlit("ei_device");
    reveal_strlit("ei_pointer");
    reveal_strlit("ei_pointer_absolute");
    reveal_strlit("ei_scroll");
    reveal_strlit("ei_button");
    reveal_strlit("ei_keyboard");
    reveal_strlit("ei_touchscreen");
    reveal_strlit("ei_text");
    let s = i.text();
    assert("ei_handshake"@[3] == 'h');
    assert("ei_connection"@[3] == 'c' && "ei_connection"@[4] == 'o');
    assert("ei_callback"@[3] == 'c' && "ei_callback"@[4] == 'a');
    assert("ei_pingpong"@[3] == 'p' && "ei_pingpong"@[4] == 'i');
    assert("ei_seat"@[3] == 's' && "ei_seat"@[4] == 'e');
    assert("ei_device"@[3] == 'd');
    assert("ei_pointer"@[3] == 'p' && "ei_pointer"@[4] == 'o' && "ei_pointer"@.len() == 10);
    assert("ei_pointer_absolute"@[3] == 'p' && "ei_pointer_absolute"@[4] == 'o'
        && "ei_pointer_absolute"@.len() == 19);
    assert("ei_scroll"@[3] == 's' && "ei_scroll"@[4] == 'c');
    assert("ei_button"@[3] == 'b');
    assert("ei_keyboard"@[3] == 'k');
    assert("ei_touchscreen"@[3] == 't' && "ei_touchscreen"@[4] == 'o');
    assert("ei_text"@[3] == 't' && "ei_text"@[4] == 'e');
}

} // verus!
