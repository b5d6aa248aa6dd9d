//! Seats and devices as the compositor describes them.

use vstd::prelude::*;
use crate::capability::{Capability, CapabilitySet};
use crate::wire::DeviceType;

verus! {

/// A rectangle of a device's coordinate space, with the scale at which it is
/// shown. Absolute coordinates are read against the region that holds them.
#[derive(Clone, Copy, Debug, PartialEq, Eq, Structural)]
pub struct Region {
    pub x: u32,
    pub y: u32,
    pub width: u32,
    pub height: u32,
    pub scale: u32,
}

/// For each capability, the bits that bind it on a seat. Zero where the seat
/// does not offer the capability.
#[derive(Clone, Copy, Debug, PartialEq, Eq, Structural)]
pub struct CapabilityMasks {
    pub pointer: u64,
    pub pointer_absolute: u64,
    pub keyboard: u64,
    pub touch: u64,
    pub scroll: u64,
    pub button: u64,
    pub text: u64,
}

impl CapabilityMasks {
    /// The bits of `c`.
    pub open spec fn of(self, c: Capability) -> u64 {
        match c {
            Capability::Pointer => self.pointer,
            Capability::PointerAbsolute => self.pointer_absolute,
            Capability::Keyboard => self.keyboard,
            Capability::Touch => self.touch,
            Capability::Scroll => self.scroll,
            Capability::Button => self.button,
            Capability::Text => self.text,
        }
    }

    /// These masks with the bits of `c` set to `mask`.
    pub open spec fn with(self, c: Capability, mask: u64) -> CapabilityMasks {
        match c {
            Capability::Pointer => CapabilityMasks { pointer: mask, ..self },
            Capability::PointerAbsolute => CapabilityMasks { pointer_absolute: mask, ..self },
            Capability::Keyboard => CapabilityMasks { keyboard: mask, ..self },
            Capability::Touch => CapabilityMasks { touch: mask, ..self },
            Capability::Scroll => CapabilityMasks { scroll: mask, ..self },
            Capability::Button => CapabilityMasks { button: mask, ..self },
            Capability::Text => CapabilityMasks { text: mask, ..self },
        }
    }

    /// The bits of `c` where `wanted` holds it, else zero.
    pub open spec fn part(self, wanted: CapabilitySet, c: Capability) -> u64 {
        if wanted.has(c) {
            self.of(c)
        } else {
            0
        }
    }

    /// The bits that bind all of `wanted`.
    pub open spec fn selected(self, wanted: CapabilitySet) -> u64 {
        self.part(wanted, Capability::Pointer) | self.part(wanted, Capability::PointerAbsolute)
            | self.part(wanted, Capability::Keyboard) | self.part(wanted, Capability::Touch)
            | self.part(wanted, Capability::Scroll) | self.part(wanted, Capability::Button)
            | self.part(wanted, Capability::Text)
    }

    /// Masks that are all zero.
    pub fn none() -> (r: CapabilityMasks)
        ensures
            r == (CapabilityMasks {
                pointer: 0,
                pointer_absolute: 0,
                keyboard: 0,
                touch: 0,
                scroll: 0,
                button: 0,
                text: 0,
            }),
            forall|c: Capability| r.of(c) == 0,
    {
        CapabilityMasks {
            pointer: 0,
            pointer_absolute: 0,
            keyboard: 0,
            touch: 0,
            scroll: 0,
            button: 0,
            text: 0,
        }
    }

    /// The bits of `c`.
    pub fn get(&self, c: Capability) -> (r: u64)
        ensures
            r == self.of(c),
    {
        match c {
            Capability::Pointer => self.pointer,
            Capability::PointerAbsolute => self.pointer_absolute,
            Capability::Keyboard => self.keyboard,
            Capability::Touch => self.touch,
            Capability::Scroll => self.scroll,
            Capability::Button => self.button,
            Capability::Text => self.text,
        }
    }

    /// Sets the bits of `c`.
    pub fn set(&mut self, c: Capability, mask: u64)
        ensures
            *final(self) == old(self).with(c, mask),
    {
        match c {
            Capability::Pointer => { self.pointer = mask; },
            Capability::PointerAbsolute => { self.pointer_absolute = mask; },
            Capability::Keyboard => { self.keyboard = mask; },
            Capability::Touch => { self.touch = mask; },
            Capability::Scroll => { self.scroll = mask; },
            Capability::Button => { self.button = mask; },
            Capability::Text => { self.text = mask; },
        }
    }

    /// The bits that bind all of `wanted`.
    pub fn select(&self, wanted: &CapabilitySet) -> (r: u64)
        ensures
            r == self.selected(*wanted),
    {
        let a: u64 = if wanted.pointer { self.pointer } else { 0 };
        let b: u64 = if wanted.pointer_absolute { self.pointer_absolute } else { 0 };
        let c: u64 = if wanted.keyboard { self.keyboard } else { 0 };
        let d: u64 = if wanted.touch { self.touch } else { 0 };
        let e: u64 = if wanted.scroll { self.scroll } else { 0 };
        let f: u64 = if wanted.button { self.button } else { 0 };
        let g: u64 = if wanted.text { self.text } else { 0 };
        a | b | c | d | e | f | g
    }
}

/// For each capability of a device, the object through which it is driven.
#[derive(Clone, Copy, Debug, PartialEq, Eq, Structural)]
pub struct InterfaceTable {
    pub pointer: Option<u64>,
    pub pointer_absolute: Option<u64>,
    pub keyboard: Option<u64>,
    pub touch: Option<u64>,
    pub scroll: Option<u64>,
    pub button: Option<u64>,
    pub text: Option<u64>,
}

impl InterfaceTable {
    /// The object of `c`, if the device has that capability.
    pub open spec fn of(self, c: Capability) -> Option<u64> {
        match c {
            Capability::Pointer => self.pointer,
            Capability::PointerAbsolute => self.pointer_absolute,
            Capability::Keyboard => self.keyboard,
            Capability::Touch => self.touch,
            Capability::Scroll => self.scroll,
            Capability::Button => self.button,
            Capability::Text => self.text,
        }
    }

    /// This table with the object of `c` replaced.
    pub open spec fn with(self, c: Capability, object: Option<u64>) -> InterfaceTable {
        match c {
            Capability::Pointer => InterfaceTable { pointer: object, ..self },
            Capability::PointerAbsolute => InterfaceTable { pointer_absolute: object, ..self },
            Capability::Keyboard => InterfaceTable { keyboard: object, ..self },
            Capability::Touch => InterfaceTable { touch: object, ..self },
            Capability::Scroll => InterfaceTable { scroll: object, ..self },
            Capability::Button => InterfaceTable { button: object, ..self },
            Capability::Text => InterfaceTable { text: object, ..self },
        }
    }

    /// The capabilities that have an object.
    pub open spec fn capability_set(self) -> CapabilitySet {
        CapabilitySet {
            pointer: self.pointer is Some,
            pointer_absolute: self.pointer_absolute is Some,
            keyboard: self.keyboard is Some,
            touch: self.touch is Some,
            scroll: self.scroll is Some,
            button: self.button is Some,
            text: self.text is Some,
        }
    }

    /// The capability that `object` drives, if any. Where it stands for
    /// several, the first in the order of the fields.
    pub open spec fn owner_of(self, object: u64) -> Option<Capability> {
        if self.pointer == Some(object) {
            Some(Capability::Pointer)
        } else if self.pointer_absolute == Some(object) {
            Some(Capability::PointerAbsolute)
        } else if self.keyboard == Some(object) {
            Some(Capability::Keyboard)
        } else if self.touch == Some(object) {
            Some(Capability::Touch)
        } else if self.scroll == Some(object) {
            Some(Capability::Scroll)
        } else if self.button == Some(object) {
            Some(Capability::Button)
        } else if self.text == Some(object) {
            Some(Capability::Text)
        } else {
            None
        }
    }

    /// A table without objects.
    pub fn empty() -> (r: InterfaceTable)
        ensures
            r == (InterfaceTable {
                pointer: None,
                pointer_absolute: None,
                keyboard: None,
                touch: None,
                scroll: None,
                button: None,
                text: None,
            }),
            forall|c: Capability| r.of(c) is None,
            r.capability_set()@ == Set::<Capability>::empty(),
    {
        let r = InterfaceTable {
            pointer: None,
            pointer_absolute: None,
            keyboard: None,
            touch: None,
            scroll: None,
            button: None,
            text: None,
        };
        assert(r.capability_set()@ =~= Set::<Capability>::empty());
        r
    }

    /// The object of `c`, if the device has that capability.
    pub fn get(&self, c: Capability) -> (r: Option<u64>)
        ensures
            r == self.of(c),
    {
        match c {
            Capability::Pointer => self.pointer,
            Capability::PointerAbsolute => self.pointer_absolute,
            Capability::Keyboard => self.keyboard,
            Capability::Touch => self.touch,
            Capability::Scroll => self.scroll,
            Capability::Button => self.button,
            Capability::Text => self.text,
        }
    }

    /// Replaces the object of `c`.
    pub fn set(&mut self, c: Capability, object: Option<u64>)
        ensures
            *final(self) == old(self).with(c, object),
    {
        match c {
            Capability::Pointer => { self.pointer = object; },
            Capability::PointerAbsolute => { self.pointer_absolute = object; },
            Capability::Keyboard => { self.keyboard = object; },
            Capability::Touch => { self.touch = object; },
            Capability::Scroll => { self.scroll = object; },
            Capability::Button => { self.button = object; },
            Capability::Text => { self.text = object; },
        }
    }

    /// The capability that `object` drives, if any.
    pub fn owner(&self, object: u64) -> (r: Option<Capability>)
        ensures
            r == self.owner_of(object),
    {
        if self.pointer == Some(object) {
            Some(Capability::Pointer)
        } else if self.pointer_absolute == Some(object) {
            Some(Capability::PointerAbsolute)
        } else if self.keyboard == Some(object) {
            Some(Capability::Keyboard)
        } else if self.touch == Some(object) {
            Some(Capability::Touch)
        } else if self.scroll == Some(object) {
            Some(Capability::Scroll)
        } else if self.button == Some(object) {
            Some(Capability::Button)
        } else if self.text == Some(object) {
            Some(Capability::Text)
        } else {
            None
        }
    }

    /// The capabilities that have an object.
    pub fn capabilities(&self) -> (r: CapabilitySet)
        ensures
            r == self.capability_set(),
            forall|c: Capability| r.has(c) == (self.of(c) is Some),
    {
        CapabilitySet {
            pointer: self.pointer.is_some(),
            pointer_absolute: self.pointer_absolute.is_some(),
            keyboard: self.keyboard.is_some(),
            touch: self.touch.is_some(),
            scroll: self.scroll.is_some(),
            button: self.button.is_some(),
            text: self.text.is_some(),
        }
    }
}

/// A seat: a group of capabilities that the compositor offers for binding.
#[derive(Debug)]
pub struct Seat {
    pub id: u64,
    pub name: String,
    /// The capabilities that may be bound on this seat.
    pub capabilities: CapabilitySet,
    pub masks: CapabilityMasks,
}

/// What a seat is, as a value.
pub struct SeatView {
    pub id: u64,
    pub name: Seq<char>,
    pub capabilities: CapabilitySet,
    pub masks: CapabilityMasks,
}

impl View for Seat {
    type V = SeatView;

    open spec fn view(&self) -> SeatView {
        SeatView {
            id: self.id,
            name: self.name@,
            capabilities: self.capabilities,
            masks: self.masks,
        }
    }
}

impl Seat {
    /// A copy of the seat.
    pub fn duplicate(&self) -> (r: Seat)
        ensures
            r@ == self@,
    {
        Seat {
            id: self.id,
            name: self.name.clone(),
            capabilities: self.capabilities,
            masks: self.masks,
        }
    }
}

/// A device under a seat.
#[derive(Debug)]
pub struct Device {
    pub id: u64,
    /// The seat that the device belongs to.
    pub seat: u64,
    pub name: String,
    pub device_type: DeviceType,
    /// Width and height of a physical device.
    pub dimensions: Option<(u32, u32)>,
    pub regions: Vec<Region>,
    pub interfaces: InterfaceTable,
}

/// What a device is, as a value.
pub struct DeviceView {
    pub id: u64,
    pub seat: u64,
    pub name: Seq<char>,
    pub device_type: DeviceType,
    pub dimensions: Option<(u32, u32)>,
    pub regions: Seq<Region>,
    pub interfaces: InterfaceTable,
}

impl DeviceView {
    /// Whether the device has the capability `c`.
    pub open spec fn has_capability(self, c: Capability) -> bool {
        self.interfaces.of(c) is Some
    }
}

impl View for Device {
    type V = DeviceView;

    open spec fn view(&self) -> DeviceView {
        DeviceView {
            id: self.id,
            seat: self.seat,
            name: self.name@,
            device_type: self.device_type,
            dimensions: self.dimensions,
            regions: self.regions@,
            interfaces: self.interfaces,
        }
    }
}

/// A copy of a list of regions.
pub fn copy_regions(regions: &Vec<Region>) -> (r: Vec<Region>)
    ensures
        r@ == regions@,
{
    let mut out: Vec<Region> = Vec::new();
    let mut i: usize = 0;
    while i < regions.len()
        invariant
            i <= regions.len(),
            out@ == regions@.subrange(0, i as int),
        decreases regions.len() - i,
    {
        out.push(regions[i]);
        assert(out@ =~= regions@.subrange(0, i + 1));
        i += 1;
    }
    assert(out@ =~= regions@);
    out
}

impl Device {
    /// Whether the device has the capability `c`.
    pub fn has_capability(&self, c: Capability) -> (r: bool)
        ensures
            r == self@.has_capability(c),
    {
        self.interfaces.get(c).is_some()
    }

    /// The capabilities of the device.
    pub fn capabilities(&self) -> (r: CapabilitySet)
        ensures
            forall|c: Capability| r.has(c) == self@.has_capability(c),
    {
        self.interfaces.capabilities()
    }

    /// A copy of the device.
    pub fn duplicate(&self) -> (r: Device)
        ensures
            r@ == self@,
    {
        Device {
            id: self.id,
            seat: self.seat,
            name: self.name.clone(),
            device_type: self.device_type,
            dimensions: self.dimensions,
            regions: copy_regions(&self.regions),
            interfaces: self.interfaces,
        }
    }
}

} // verus!
