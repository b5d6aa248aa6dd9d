//! What the registry of seats and devices holds, as a value, and what each
//! message from the compositor does to it.

use vstd::prelude::*;
use crate::capability::{Capability, CapabilitySet};
use crate::device::{CapabilityMasks, DeviceView, InterfaceTable, Region, SeatView};
use crate::interface::InterfaceName;
use crate::wire::{DeviceType, DisconnectReason, InputEvent, RequestView, WireEvent};

verus! {

/// A protocol violation by the compositor.
#[derive(Clone, Copy, Debug, PartialEq, Eq, Structural)]
pub enum ConverterError {
    /// A device event for a device whose description is not done.
    DeviceEventBeforeDone,
    /// A part of a device's description after the description was done.
    DeviceSetupEventAfterDone,
    /// A part of a seat's description after the description was done.
    SeatSetupEventAfterDone,
    /// A seat event for a seat whose description is not done.
    SeatEventBeforeDone,
    /// A device's description ended without its type.
    NoDeviceType,
    /// A handshake message after the handshake.
    UnexpectedHandshakeEvent,
    /// A seat offers a capability through an interface that has none.
    UnknownCapabilityInterface,
}

/// What the registry tells its caller, in the order in which it happened.
/// Seats and devices are named by their ids.
#[derive(Clone, Copy, Debug, PartialEq, Eq, Structural)]
pub enum LifecycleEvent {
    Disconnected { last_serial: u32, reason: DisconnectReason },
    SeatAdded { seat: u64 },
    SeatRemoved { seat: u64 },
    DeviceAdded { device: u64 },
    DeviceRemoved { device: u64 },
    DevicePaused { device: u64, serial: u32 },
    DeviceResumed { device: u64, serial: u32 },
    StartEmulating { device: u64, serial: u32, sequence: u32 },
    StopEmulating { device: u64, serial: u32 },
    Frame { device: u64, serial: u32, timestamp: u64 },
    Input { device: u64, event: InputEvent },
}

/// A device whose description is not done.
pub struct DraftView {
    pub device: DeviceView,
    /// Whether the compositor has said of what type the device is.
    pub typed: bool,
}

/// The description of a seat of which nothing is known yet.
pub open spec fn blank_seat(seat: u64) -> SeatView {
    SeatView {
        id: seat,
        name: Seq::empty(),
        capabilities: CapabilitySet {
            pointer: false,
            pointer_absolute: false,
            keyboard: false,
            touch: false,
            scroll: false,
            button: false,
            text: false,
        },
        masks: CapabilityMasks {
            pointer: 0,
            pointer_absolute: 0,
            keyboard: 0,
            touch: 0,
            scroll: 0,
            button: 0,
            text: 0,
        },
    }
}

/// The description of a device of which only the seat is known yet.
pub open spec fn blank_draft(seat: u64, device: u64) -> DraftView {
    DraftView {
        device: DeviceView {
            id: device,
            seat,
            name: Seq::empty(),
            device_type: DeviceType::Virtual,
            dimensions: None,
            regions: Seq::empty(),
            interfaces: InterfaceTable {
                pointer: None,
                pointer_absolute: None,
                keyboard: None,
                touch: None,
                scroll: None,
                button: None,
                text: None,
            },
        },
        typed: false,
    }
}

/// The capability that goes by the interface name `name`, if any.
pub open spec fn capability_named(name: Seq<char>) -> Option<Capability> {
    match InterfaceName::named(name) {
        Some(interface) => interface.capability_of(),
        None => None,
    }
}

/// `owners` with `object` given to `device`, where there is an object.
pub open spec fn give(owners: Map<u64, u64>, object: Option<u64>, device: u64) -> Map<u64, u64> {
    match object {
        Some(o) => owners.insert(o, device),
        None => owners,
    }
}

/// `owners` without `object`, where there is an object.
pub open spec fn take(owners: Map<u64, u64>, object: Option<u64>) -> Map<u64, u64> {
    match object {
        Some(o) => owners.remove(o),
        None => owners,
    }
}

/// `owners` with every object of `table` given to `device`.
pub open spec fn give_all(owners: Map<u64, u64>, table: InterfaceTable, device: u64) -> Map<
    u64,
    u64,
> {
    give(
        give(
            give(
                give(
                    give(
                        give(give(owners, table.pointer, device), table.pointer_absolute, device),
                        table.keyboard,
                        device,
                    ),
                    table.touch,
                    device,
                ),
                table.scroll,
                device,
            ),
            table.button,
            device,
        ),
        table.text,
        device,
    )
}

/// `owners` without the objects of `table`.
pub open spec fn take_all(owners: Map<u64, u64>, table: InterfaceTable) -> Map<u64, u64> {
    take(
        take(
            take(
                take(
                    take(take(take(owners, table.pointer), table.pointer_absolute), table.keyboard),
                    table.touch,
                ),
                table.scroll,
            ),
            table.button,
        ),
        table.text,
    )
}

/// The table without the capability that `object` drives.
pub open spec fn without_object(table: InterfaceTable, object: u64) -> InterfaceTable {
    match table.owner_of(object) {
        Some(c) => table.with(c, None),
        None => table,
    }
}

/// The state of a registry, as a value.
#[verifier::ext_equal]
pub struct RegistryModel {
    /// The seats whose description is not done.
    pub pending_seats: Map<u64, SeatView>,
    /// The seats that were added.
    pub seats: Map<u64, SeatView>,
    /// For each seat, the capabilities that were last bound on it.
    pub bound: Map<u64, CapabilitySet>,
    /// The devices whose description is not done.
    pub drafts: Map<u64, DraftView>,
    /// The devices that were added.
    pub devices: Map<u64, DeviceView>,
    /// For each capability object, the device that it belongs to.
    pub owners: Map<u64, u64>,
    /// For each device that is resumed, the serial of its resumption.
    pub resumed: Map<u64, u32>,
    /// The events that the caller has not taken yet, oldest first.
    pub queue: Seq<LifecycleEvent>,
    /// Every event that was ever queued, oldest first.
    pub history: Seq<LifecycleEvent>,
    /// The last serial that the compositor used.
    pub last_serial: u32,
}

impl RegistryModel {
    /// The registry of a connection that starts with `serial`.
    pub open spec fn initial(serial: u32) -> RegistryModel {
        RegistryModel {
            pending_seats: Map::empty(),
            seats: Map::empty(),
            bound: Map::empty(),
            drafts: Map::empty(),
            devices: Map::empty(),
            owners: Map::empty(),
            resumed: Map::empty(),
            queue: Seq::empty(),
            history: Seq::empty(),
            last_serial: serial,
        }
    }

    /// This state with `event` queued.
    pub open spec fn emit(self, event: LifecycleEvent) -> RegistryModel {
        RegistryModel {
            queue: self.queue.push(event),
            history: self.history.push(event),
            ..self
        }
    }

    /// This state with `serial` as the last serial.
    pub open spec fn at_serial(self, serial: u32) -> RegistryModel {
        RegistryModel { last_serial: serial, ..self }
    }

    /// This state with the draft of `device` replaced.
    pub open spec fn with_draft(self, device: u64, draft: DraftView) -> RegistryModel {
        RegistryModel { drafts: self.drafts.insert(device, draft), ..self }
    }

    /// This state with the pending seat `seat` replaced.
    pub open spec fn with_pending_seat(self, seat: u64, value: SeatView) -> RegistryModel {
        RegistryModel { pending_seats: self.pending_seats.insert(seat, value), ..self }
    }

    /// What a message about a seat does.
    pub open spec fn handle_seat(self, event: WireEvent) -> Result<RegistryModel, ConverterError> {
        match event {
            WireEvent::SeatAnnounced { seat } => Ok(self.with_pending_seat(seat, blank_seat(seat))),
            WireEvent::SeatName { seat, name } => {
                if !self.pending_seats.contains_key(seat) {
                    Err(ConverterError::SeatSetupEventAfterDone)
                } else {
                    Ok(
                        self.with_pending_seat(
                            seat,
                            SeatView { name: name@, ..self.pending_seats[seat] },
                        ),
                    )
                }
            },
            WireEvent::SeatCapability { seat, mask, interface } => {
                if !self.pending_seats.contains_key(seat) {
                    Err(ConverterError::SeatSetupEventAfterDone)
                } else {
                    match capability_named(interface@) {
                        None => Err(ConverterError::UnknownCapabilityInterface),
                        Some(c) => Ok(
                            self.with_pending_seat(
                                seat,
                                SeatView {
                                    capabilities: self.pending_seats[seat].capabilities.with(c),
                                    masks: self.pending_seats[seat].masks.with(c, mask),
                                    ..self.pending_seats[seat]
                                },
                            ),
                        ),
                    }
                }
            },
            WireEvent::SeatDone { seat } => {
                if !self.pending_seats.contains_key(seat) {
                    Err(ConverterError::SeatSetupEventAfterDone)
                } else {
                    Ok(
                        RegistryModel {
                            pending_seats: self.pending_seats.remove(seat),
                            seats: self.seats.insert(seat, self.pending_seats[seat]),
                            ..self
                        }.emit(LifecycleEvent::SeatAdded { seat }),
                    )
                }
            },
            WireEvent::SeatDevice { seat, device } => {
                if !self.seats.contains_key(seat) {
                    Err(ConverterError::SeatEventBeforeDone)
                } else if self.devices.contains_key(device) {
                    Err(ConverterError::DeviceSetupEventAfterDone)
                } else {
                    Ok(self.with_draft(device, blank_draft(seat, device)))
                }
            },
            WireEvent::SeatDestroyed { seat, serial } => {
                let cleared = RegistryModel {
                    pending_seats: self.pending_seats.remove(seat),
                    ..self.at_serial(serial)
                };
                if self.seats.contains_key(seat) {
                    Ok(
                        RegistryModel {
                            seats: self.seats.remove(seat),
                            bound: self.bound.remove(seat),
                            ..cleared
                        }.emit(LifecycleEvent::SeatRemoved { seat }),
                    )
                } else {
                    Ok(cleared)
                }
            },
            _ => Ok(self),
        }
    }

    /// What a part of a device's description does.
    pub open spec fn handle_draft(self, event: WireEvent) -> Result<RegistryModel, ConverterError> {
        match event {
            WireEvent::DeviceName { device, name } => {
                if !self.drafts.contains_key(device) {
                    Err(ConverterError::DeviceSetupEventAfterDone)
                } else {
                    let draft = self.drafts[device];
                    Ok(
                        self.with_draft(
                            device,
                            DraftView { device: DeviceView { name: name@, ..draft.device }, ..draft },
                        ),
                    )
                }
            },
            WireEvent::DeviceKind { device, device_type } => {
                if !self.drafts.contains_key(device) {
                    Err(ConverterError::DeviceSetupEventAfterDone)
                } else {
                    let draft = self.drafts[device];
                    Ok(
                        self.with_draft(
                            device,
                            DraftView {
                                device: DeviceView { device_type, ..draft.device },
                                typed: true,
                            },
                        ),
                    )
                }
            },
            WireEvent::DeviceDimensions { device, width, height } => {
                if !self.drafts.contains_key(device) {
                    Err(ConverterError::DeviceSetupEventAfterDone)
                } else {
                    let draft = self.drafts[device];
                    Ok(
                        self.with_draft(
                            device,
                            DraftView {
                                device: DeviceView {
                                    dimensions: Some((width, height)),
                                    ..draft.device
                                },
                                ..draft
                            },
                        ),
                    )
                }
            },
            WireEvent::DeviceRegion { device, x, y, width, height, scale } => {
                if !self.drafts.contains_key(device) {
                    Err(ConverterError::DeviceSetupEventAfterDone)
                } else {
                    let draft = self.drafts[device];
                    Ok(
                        self.with_draft(
                            device,
                            DraftView {
                                device: DeviceView {
                                    regions: draft.device.regions.push(
                                        Region { x, y, width, height, scale },
                                    ),
                                    ..draft.device
                                },
                                ..draft
                            },
                        ),
                    )
                }
            },
            WireEvent::DeviceRegionMappingId { device } => {
                if !self.drafts.contains_key(device) {
                    Err(ConverterError::DeviceEventBeforeDone)
                } else {
                    Ok(self)
                }
            },
            WireEvent::DeviceInterface { device, object, interface } => {
                if !self.drafts.contains_key(device) {
                    Err(ConverterError::DeviceSetupEventAfterDone)
                } else {
                    let draft = self.drafts[device];
                    match capability_named(interface@) {
                        None => Ok(self),
                        Some(c) => Ok(
                            self.with_draft(
                                device,
                                DraftView {
                                    device: DeviceView {
                                        interfaces: draft.device.interfaces.with(c, Some(object)),
                                        ..draft.device
                                    },
                                    ..draft
                                },
                            ),
                        ),
                    }
                }
            },
            WireEvent::DeviceDone { device } => {
                if !self.drafts.contains_key(device) {
                    Err(ConverterError::DeviceSetupEventAfterDone)
                } else if !self.drafts[device].typed {
                    Err(ConverterError::NoDeviceType)
                } else {
                    let added = self.drafts[device].device;
                    Ok(
                        RegistryModel {
                            drafts: self.drafts.remove(device),
                            devices: self.devices.insert(device, added),
                            owners: give_all(self.owners, added.interfaces, device),
                            ..self
                        }.emit(LifecycleEvent::DeviceAdded { device }),
                    )
                }
            },
            _ => Ok(self),
        }
    }

    /// What a message about a device that was added does.
    pub open spec fn handle_device(self, event: WireEvent) -> Result<RegistryModel, ConverterError> {
        match event {
            WireEvent::DeviceResumed { device, serial } => {
                if !self.devices.contains_key(device) {
                    Err(ConverterError::DeviceEventBeforeDone)
                } else {
                    Ok(
                        RegistryModel {
                            resumed: self.resumed.insert(device, serial),
                            ..self.at_serial(serial)
                        }.emit(LifecycleEvent::DeviceResumed { device, serial }),
                    )
                }
            },
            WireEvent::DevicePaused { device, serial } => {
                if !self.devices.contains_key(device) {
                    Err(ConverterError::DeviceEventBeforeDone)
                } else {
                    Ok(
                        RegistryModel {
                            resumed: self.resumed.remove(device),
                            ..self.at_serial(serial)
                        }.emit(LifecycleEvent::DevicePaused { device, serial }),
                    )
                }
            },
            WireEvent::DeviceStartEmulating { device, serial, sequence } => {
                if !self.devices.contains_key(device) {
                    Err(ConverterError::DeviceEventBeforeDone)
                } else {
                    Ok(
                        self.at_serial(serial).emit(
                            LifecycleEvent::StartEmulating { device, serial, sequence },
                        ),
                    )
                }
            },
            WireEvent::DeviceStopEmulating { device, serial } => {
                if !self.devices.contains_key(device) {
                    Err(ConverterError::DeviceEventBeforeDone)
                } else {
                    Ok(self.at_serial(serial).emit(LifecycleEvent::StopEmulating { device, serial }))
                }
            },
            WireEvent::DeviceFrame { device, serial, timestamp } => {
                if !self.devices.contains_key(device) {
                    Err(ConverterError::DeviceEventBeforeDone)
                } else {
                    Ok(
                        self.at_serial(serial).emit(
                            LifecycleEvent::Frame { device, serial, timestamp },
                        ),
                    )
                }
            },
            WireEvent::DeviceDestroyed { device, serial } => {
                let cleared = RegistryModel {
                    drafts: self.drafts.remove(device),
                    ..self.at_serial(serial)
                };
                if self.devices.contains_key(device) {
                    Ok(
                        RegistryModel {
                            devices: self.devices.remove(device),
                            owners: take_all(self.owners, self.devices[device].interfaces),
                            resumed: self.resumed.remove(device),
                            ..cleared
                        }.emit(LifecycleEvent::DeviceRemoved { device }),
                    )
                } else {
                    Ok(cleared)
                }
            },
            WireEvent::InterfaceDestroyed { object, serial } => {
                if !self.owners.contains_key(object) {
                    Ok(self.at_serial(serial))
                } else {
                    let device = self.owners[object];
                    let devices = if self.devices.contains_key(device) {
                        self.devices.insert(
                            device,
                            DeviceView {
                                interfaces: without_object(self.devices[device].interfaces, object),
                                ..self.devices[device]
                            },
                        )
                    } else {
                        self.devices
                    };
                    Ok(
                        RegistryModel {
                            owners: self.owners.remove(object),
                            devices,
                            ..self.at_serial(serial)
                        },
                    )
                }
            },
            WireEvent::Input { object, event } => {
                if !self.owners.contains_key(object) {
                    Err(ConverterError::DeviceEventBeforeDone)
                } else {
                    Ok(self.emit(LifecycleEvent::Input { device: self.owners[object], event }))
                }
            },
            _ => Ok(self),
        }
    }

    /// The state after `event`, or the violation that `event` is. A
    /// violation changes nothing.
    pub open spec fn handle(self, event: WireEvent) -> Result<RegistryModel, ConverterError> {
        match event {
            WireEvent::HandshakeVersion { .. } => Err(ConverterError::UnexpectedHandshakeEvent),
            WireEvent::InterfaceVersion { .. } => Err(ConverterError::UnexpectedHandshakeEvent),
            WireEvent::Connection { .. } => Err(ConverterError::UnexpectedHandshakeEvent),
            WireEvent::Disconnected { last_serial, reason } => Ok(
                self.at_serial(last_serial).emit(LifecycleEvent::Disconnected { last_serial, reason }),
            ),
            WireEvent::InvalidObject { .. } => Ok(self),
            WireEvent::Ping { .. } => Ok(self),
            WireEvent::CallbackDone { .. } => Ok(self),
            WireEvent::Keymap { .. } => Ok(self),
            WireEvent::SeatAnnounced { .. } => self.handle_seat(event),
            WireEvent::SeatName { .. } => self.handle_seat(event),
            WireEvent::SeatCapability { .. } => self.handle_seat(event),
            WireEvent::SeatDone { .. } => self.handle_seat(event),
            WireEvent::SeatDevice { .. } => self.handle_seat(event),
            WireEvent::SeatDestroyed { .. } => self.handle_seat(event),
            WireEvent::DeviceName { .. } => self.handle_draft(event),
            WireEvent::DeviceKind { .. } => self.handle_draft(event),
            WireEvent::DeviceDimensions { .. } => self.handle_draft(event),
            WireEvent::DeviceRegion { .. } => self.handle_draft(event),
            WireEvent::DeviceRegionMappingId { .. } => self.handle_draft(event),
            WireEvent::DeviceInterface { .. } => self.handle_draft(event),
            WireEvent::DeviceDone { .. } => self.handle_draft(event),
            WireEvent::DeviceResumed { .. } => self.handle_device(event),
            WireEvent::DevicePaused { .. } => self.handle_device(event),
            WireEvent::DeviceStartEmulating { .. } => self.handle_device(event),
            WireEvent::DeviceStopEmulating { .. } => self.handle_device(event),
            WireEvent::DeviceFrame { .. } => self.handle_device(event),
            WireEvent::DeviceDestroyed { .. } => self.handle_device(event),
            WireEvent::InterfaceDestroyed { .. } => self.handle_device(event),
            WireEvent::Input { .. } => self.handle_device(event),
        }
    }

    /// Whether `r` and `after` are what handling `event` in this state
    /// comes to: the next state, or the violation and the state unchanged.
    pub open spec fn handled(
        self,
        event: WireEvent,
        r: Result<(), ConverterError>,
        after: RegistryModel,
    ) -> bool {
        match self.handle(event) {
            Ok(next) => r is Ok && after == next,
            Err(e) => r == Err::<(), ConverterError>(e) && after == self,
        }
    }

    /// The state after `event`, where a violation changes nothing.
    pub open spec fn step(self, event: WireEvent) -> RegistryModel {
        match self.handle(event) {
            Ok(next) => next,
            Err(_) => self,
        }
    }

    /// What the client sends on `event`: the answer to a ping.
    pub open spec fn reply(self, event: WireEvent) -> Seq<RequestView> {
        match event {
            WireEvent::Ping { ping } => seq![RequestView::Pong { ping }],
            _ => Seq::empty(),
        }
    }

    /// The state after all of `events`, in order.
    pub open spec fn run(self, events: Seq<WireEvent>) -> RegistryModel
        decreases events.len(),
    {
        if events.len() == 0 {
            self
        } else {
            self.step(events[0]).run(events.drop_first())
        }
    }

    /// The state after a bind of `wanted` on `seat`: the set is recorded as
    /// bound where the seat was added, and nothing changes where it was
    /// not.
    pub open spec fn bind(self, seat: u64, wanted: CapabilitySet) -> RegistryModel {
        if self.seats.contains_key(seat) {
            RegistryModel { bound: self.bound.insert(seat, wanted), ..self }
        } else {
            self
        }
    }

    /// What a bind of `wanted` on `seat` sends: one request with the bits of
    /// the wanted capabilities, each time, where the seat was added; nothing
    /// where it was not.
    pub open spec fn bind_request(self, seat: u64, wanted: CapabilitySet) -> Seq<RequestView> {
        if self.seats.contains_key(seat) {
            seq![RequestView::Bind { seat, mask: self.seats[seat].masks.selected(wanted) }]
        } else {
            Seq::empty()
        }
    }

    /// What the message `event` queues: the events that stand in the
    /// history after it and did not before.
    pub open spec fn announced(self, event: WireEvent) -> Seq<LifecycleEvent> {
        self.step(event).history.subrange(
            self.history.len() as int,
            self.step(event).history.len() as int,
        )
    }

    /// The capabilities that were last bound on `seat`, while the seat is
    /// there and something was bound on it.
    pub open spec fn bound_on(self, seat: u64) -> Option<CapabilitySet> {
        if self.seats.contains_key(seat) && self.bound.contains_key(seat) {
            Some(self.bound[seat])
        } else {
            None
        }
    }

    /// The serial with which `device` may be driven: that of its resumption,
    /// while it is added and resumed.
    pub open spec fn ready(self, device: u64) -> Option<u32> {
        if self.devices.contains_key(device) && self.resumed.contains_key(device) {
            Some(self.resumed[device])
        } else {
            None
        }
    }
}

/// Whether the device was announced at some place of `history` before `j`.
pub open spec fn added_before(history: Seq<LifecycleEvent>, device: u64, j: int) -> bool {
    exists|i: int| 0 <= i < j && #[trigger] history[i] == (LifecycleEvent::DeviceAdded { device })
}

/// Whether, going by `history`, the device is there: it was announced, and
/// not removed since.
pub open spec fn live(history: Seq<LifecycleEvent>, device: u64) -> bool
    decreases history.len(),
{
    if history.len() == 0 {
        false
    } else if history.last() == (LifecycleEvent::DeviceAdded { device }) {
        true
    } else if history.last() == (LifecycleEvent::DeviceRemoved { device }) {
        false
    } else {
        live(history.drop_last(), device)
    }
}

/// Whether no device is announced twice in `history` without having been
/// removed in between.
pub open spec fn announced_once(history: Seq<LifecycleEvent>) -> bool {
    forall|d: u64, i: int, j: int|
        0 <= i < j < history.len() && history[i] == (LifecycleEvent::DeviceAdded { device: d })
            && history[j] == (LifecycleEvent::DeviceAdded { device: d })
            ==> #[trigger] removed_between(history, d, i, j)
}

/// Whether the device was removed at some place of `history` between `i` and
/// `j`.
pub open spec fn removed_between(history: Seq<LifecycleEvent>, device: u64, i: int, j: int) -> bool {
    exists|k: int| i < k < j && #[trigger] history[k] == (LifecycleEvent::DeviceRemoved { device })
}

impl RegistryModel {
    /// What holds of a registry in every state that it can reach.
    pub open spec fn consistent(self) -> bool {
        // a device that is known was announced
        &&& forall|d: u64| #[trigger]
            self.devices.contains_key(d) ==> added_before(self.history, d, self.history.len() as int)
        // a device is resumed only while it is known
        &&& forall|d: u64| #[trigger] self.resumed.contains_key(d) ==> self.devices.contains_key(d)
        // a device whose description is not done is not known yet
        &&& forall|d: u64| #[trigger] self.drafts.contains_key(d) ==> !self.devices.contains_key(d)
        // the devices that are known are those that the history shows
        &&& forall|d: u64| #[trigger] self.devices.contains_key(d) == live(self.history, d)
        // no device is announced again while it is known
        &&& announced_once(self.history)
        // a device is kept under its own id
        &&& forall|d: u64| #[trigger] self.devices.contains_key(d) ==> self.devices[d].id == d
        &&& forall|d: u64| #[trigger] self.drafts.contains_key(d) ==> self.drafts[d].device.id == d
        // a resumption stands behind the announcement of its device
        &&& forall|j: int|
            0 <= j < self.history.len() ==> (#[trigger] self.history[j] matches LifecycleEvent::DeviceResumed {
                device,
                ..
            } ==> added_before(self.history, device, j))
        // what waits to be taken is the end of what happened
        &&& self.queue.len() <= self.history.len()
        &&& self.queue == self.history.subrange(
            self.history.len() - self.queue.len(),
            self.history.len() as int,
        )
    }

    /// The state after the oldest waiting event was taken, if one waits.
    pub open spec fn taken(self) -> RegistryModel {
        if self.queue.len() == 0 {
            self
        } else {
            RegistryModel { queue: self.queue.drop_first(), ..self }
        }
    }
}

/// A new registry is consistent.
pub proof fn lemma_initial_is_consistent(serial: u32)
    ensures
        RegistryModel::initial(serial).consistent(),
{
    let m = RegistryModel::initial(serial);
    assert(m.queue =~= m.history.subrange(0, 0));
}

/// A device that was announced and is not there any more was removed after
/// its announcement.
proof fn lemma_gone_was_removed(history: Seq<LifecycleEvent>, device: u64, i: int)
    requires
        0 <= i < history.len(),
        history[i] == (LifecycleEvent::DeviceAdded { device }),
        !live(history, device),
    ensures
        removed_between(history, device, i, history.len() as int),
    decreases history.len(),
{
    let n = history.len() as int;
    if history.last() == (LifecycleEvent::DeviceRemoved { device }) {
        assert(history[n - 1] == (LifecycleEvent::DeviceRemoved { device }));
    } else {
        let rest = history.drop_last();
        assert(rest[i] == history[i]);
        lemma_gone_was_removed(rest, device, i);
        let k = choose|k: int| i < k < n - 1 && #[trigger] rest[k] == (LifecycleEvent::DeviceRemoved {
            device,
        });
        assert(history[k] == rest[k]);
    }
}

/// One more event keeps a history free of double announcements, unless it
/// announces a device that is there.
proof fn lemma_push_keeps_once(history: Seq<LifecycleEvent>, event: LifecycleEvent)
    requires
        announced_once(history),
        event matches LifecycleEvent::DeviceAdded { device } ==> !live(history, device),
    ensures
        announced_once(history.push(event)),
        forall|d: u64| #[trigger]
            live(history.push(event), d) == (if event == (LifecycleEvent::DeviceAdded { device: d }) {
                true
            } else if event == (LifecycleEvent::DeviceRemoved { device: d }) {
                false
            } else {
                live(history, d)
            }),
{
    let n = history.push(event);
    assert(n.drop_last() =~= history);
    assert forall|d: u64, i: int, j: int|
        0 <= i < j < n.len() && n[i] == (LifecycleEvent::DeviceAdded { device: d }) && n[j] == (
        LifecycleEvent::DeviceAdded { device: d }) implies #[trigger] removed_between(n, d, i, j) by {
        if j < history.len() {
            assert(history[i] == n[i] && history[j] == n[j]);
            assert(removed_between(history, d, i, j));
            let k = choose|k: int| i < k < j && #[trigger] history[k] == (
            LifecycleEvent::DeviceRemoved { device: d });
            assert(n[k] == history[k]);
        } else {
            assert(history[i] == n[i]);
            lemma_gone_was_removed(history, d, i);
            let k = choose|k: int| i < k < history.len() && #[trigger] history[k] == (
            LifecycleEvent::DeviceRemoved { device: d });
            assert(n[k] == history[k]);
        }
    }
}

/// A step that queues one event keeps a registry consistent, where the
/// devices change as the event says.
proof fn lemma_emit_keeps_consistent(m: RegistryModel, next: RegistryModel, event: LifecycleEvent)
    requires
        m.consistent(),
        next.queue == m.queue.push(event),
        next.history == m.history.push(event),
        forall|d: u64| #[trigger]
            next.devices.contains_key(d) == (if event == (LifecycleEvent::DeviceAdded { device: d }) {
                true
            } else if event == (LifecycleEvent::DeviceRemoved { device: d }) {
                false
            } else {
                m.devices.contains_key(d)
            }),
        event matches LifecycleEvent::DeviceAdded { device } ==> !m.devices.contains_key(device),
        forall|d: u64| #[trigger] next.resumed.contains_key(d) ==> next.devices.contains_key(d),
        forall|d: u64| #[trigger] next.drafts.contains_key(d) ==> !next.devices.contains_key(d),
        forall|d: u64| #[trigger] next.devices.contains_key(d) ==> next.devices[d].id == d,
        forall|d: u64| #[trigger] next.drafts.contains_key(d) ==> next.drafts[d].device.id == d,
        event matches LifecycleEvent::DeviceResumed { device, .. } ==> m.devices.contains_key(device),
    ensures
        next.consistent(),
{
    let h = m.history;
    let n = next.history;
    lemma_push_keeps_once(h, event);
    assert forall|d: u64| #[trigger] next.devices.contains_key(d) == live(n, d) by {
        assert(m.devices.contains_key(d) == live(h, d));
    }
    assert forall|d: u64, j: int| added_before(h, d, j) && j <= h.len() implies added_before(
        n,
        d,
        j,
    ) by {
        let i = choose|i: int| 0 <= i < j && #[trigger] h[i] == (LifecycleEvent::DeviceAdded {
            device: d,
        });
        assert(n[i] == h[i]);
    }
    assert forall|d: u64| #[trigger] next.devices.contains_key(d) implies added_before(
        n,
        d,
        n.len() as int,
    ) by {
        if m.devices.contains_key(d) {
            assert(added_before(h, d, h.len() as int));
            assert(added_before(n, d, h.len() as int));
            let i = choose|i: int| 0 <= i < h.len() && #[trigger] n[i] == (
            LifecycleEvent::DeviceAdded { device: d });
            assert(0 <= i < n.len());
        } else {
            assert(n[h.len() as int] == event);
        }
    }
    assert forall|j: int| 0 <= j < n.len() implies (#[trigger] n[j] matches LifecycleEvent::DeviceResumed {
        device,
        ..
    } ==> added_before(n, device, j)) by {
        if j < h.len() {
            assert(n[j] == h[j]);
            if let LifecycleEvent::DeviceResumed { device, .. } = h[j] {
                assert(added_before(h, device, j));
            }
        } else {
            if let LifecycleEvent::DeviceResumed { device, .. } = event {
                assert(added_before(h, device, h.len() as int));
            }
        }
    }
    assert(next.queue =~= n.subrange(n.len() - next.queue.len(), n.len() as int)) by {
        assert forall|k: int| 0 <= k < next.queue.len() implies next.queue[k] == n[n.len()
            - next.queue.len() + k] by {
            if k < m.queue.len() {
                assert(m.queue[k] == h.subrange(h.len() - m.queue.len(), h.len() as int)[k]);
            }
        }
    }
}

/// A step that queues nothing and leaves the set of devices as it is keeps
/// a registry consistent.
proof fn lemma_quiet_keeps_consistent(m: RegistryModel, next: RegistryModel)
    requires
        m.consistent(),
        next.queue == m.queue,
        next.history == m.history,
        forall|d: u64| #[trigger] next.devices.contains_key(d) == m.devices.contains_key(d),
        forall|d: u64| #[trigger] next.resumed.contains_key(d) ==> next.devices.contains_key(d),
        forall|d: u64| #[trigger] next.drafts.contains_key(d) ==> !next.devices.contains_key(d),
        forall|d: u64| #[trigger] next.devices.contains_key(d) ==> next.devices[d].id == d,
        forall|d: u64| #[trigger] next.drafts.contains_key(d) ==> next.drafts[d].device.id == d,
    ensures
        next.consistent(),
{
    assert forall|d: u64| #[trigger] next.devices.contains_key(d) implies added_before(
        next.history,
        d,
        next.history.len() as int,
    ) by {
        assert(m.devices.contains_key(d));
    }
    assert forall|d: u64| #[trigger] next.devices.contains_key(d) == live(next.history, d) by {
        assert(m.devices.contains_key(d) == live(m.history, d));
    }
}

/// Whatever message a consistent registry is handed, it stays consistent.
pub proof fn lemma_step_keeps_consistent(m: RegistryModel, event: WireEvent)
    requires
        m.consistent(),
    ensures
        m.step(event).consistent(),
{
    let next = m.step(event);
    if m.handle(event) is Ok {
        lemma_handled_keeps_consistent(m, event);
    }
}

/// A message that is no violation keeps a registry consistent.
proof fn lemma_handled_keeps_consistent(m: RegistryModel, event: WireEvent)
    requires
        m.consistent(),
        m.handle(event) is Ok,
    ensures
        m.step(event).consistent(),
{
    let next = m.step(event);
    match event {
        WireEvent::Disconnected { last_serial, reason } => {
            lemma_emit_keeps_consistent(m, next, LifecycleEvent::Disconnected { last_serial, reason });
        },
        WireEvent::SeatDone { seat } => {
            lemma_emit_keeps_consistent(m, next, LifecycleEvent::SeatAdded { seat });
        },
        WireEvent::SeatDestroyed { seat, .. } => {
            if m.seats.contains_key(seat) {
                lemma_emit_keeps_consistent(m, next, LifecycleEvent::SeatRemoved { seat });
            } else {
                lemma_quiet_keeps_consistent(m, next);
            }
        },
        WireEvent::DeviceDone { device } => {
            lemma_emit_keeps_consistent(m, next, LifecycleEvent::DeviceAdded { device });
        },
        WireEvent::DeviceResumed { device, serial } => {
            lemma_emit_keeps_consistent(m, next, LifecycleEvent::DeviceResumed { device, serial });
        },
        WireEvent::DevicePaused { device, serial } => {
            lemma_emit_keeps_consistent(m, next, LifecycleEvent::DevicePaused { device, serial });
        },
        WireEvent::DeviceStartEmulating { device, serial, sequence } => {
            lemma_emit_keeps_consistent(
                m,
                next,
                LifecycleEvent::StartEmulating { device, serial, sequence },
            );
        },
        WireEvent::DeviceStopEmulating { device, serial } => {
            lemma_emit_keeps_consistent(m, next, LifecycleEvent::StopEmulating { device, serial });
        },
        WireEvent::DeviceFrame { device, serial, timestamp } => {
            lemma_emit_keeps_consistent(m, next, LifecycleEvent::Frame { device, serial, timestamp });
        },
        WireEvent::DeviceDestroyed { device, .. } => {
            if m.devices.contains_key(device) {
                lemma_emit_keeps_consistent(m, next, LifecycleEvent::DeviceRemoved { device });
            } else {
                lemma_quiet_keeps_consistent(m, next);
            }
        },
        WireEvent::Input { object, event: input } => {
            lemma_emit_keeps_consistent(
                m,
                next,
                LifecycleEvent::Input { device: m.owners[object], event: input },
            );
        },
        _ => {
            lemma_quiet_keeps_consistent(m, next);
        },
    }
}

/// Whatever messages a consistent registry is handed, it stays consistent:
/// in every state that a registry reaches, each resumption of a device
/// stands behind the announcement of that device, a device is ready only
/// while it is known, and the events wait in the order in which they
/// happened.
pub proof fn lemma_run_keeps_consistent(m: RegistryModel, events: Seq<WireEvent>)
    requires
        m.consistent(),
    ensures
        m.run(events).consistent(),
    decreases events.len(),
{
    if events.len() > 0 {
        lemma_step_keeps_consistent(m, events[0]);
        lemma_run_keeps_consistent(m.step(events[0]), events.drop_first());
    }
}

/// Taking an event, and binding capabilities, keep a registry consistent.
pub proof fn lemma_calls_keep_consistent(m: RegistryModel, seat: u64, wanted: CapabilitySet)
    requires
        m.consistent(),
    ensures
        m.taken().consistent(),
        m.bind(seat, wanted).consistent(),
{
    lemma_quiet_keeps_consistent(m, m.bind(seat, wanted));
    let t = m.taken();
    if m.queue.len() > 0 {
        assert(t.queue =~= t.history.subrange(t.history.len() - t.queue.len(), t.history.len() as int));
    }
}

/// What happened stays as it happened: a message adds to the end of the
/// history and changes nothing before it.
pub proof fn lemma_history_grows(m: RegistryModel, event: WireEvent)
    ensures
        m.history.len() <= m.step(event).history.len(),
        m.step(event).history.subrange(0, m.history.len() as int) == m.history,
        forall|d: u64, j: int|
            j <= m.history.len() && added_before(m.history, d, j) ==> added_before(
                m.step(event).history,
                d,
                j,
            ),
{
    let n = m.step(event).history;
    assert(n.len() >= m.history.len() && n.subrange(0, m.history.len() as int) =~= m.history);
    assert forall|d: u64, j: int| j <= m.history.len() && added_before(m.history, d, j) implies added_before(
        n,
        d,
        j,
    ) by {
        let i = choose|i: int| 0 <= i < j && #[trigger] m.history[i] == (LifecycleEvent::DeviceAdded {
            device: d,
        });
        assert(n[i] == n.subrange(0, m.history.len() as int)[i]);
    }
}

/// In a consistent registry no device is announced twice unless it was
/// removed in between, whatever the compositor sent and however often
/// capabilities were bound.
pub proof fn lemma_no_device_is_announced_twice(m: RegistryModel, device: u64, i: int, j: int)
    requires
        m.consistent(),
        0 <= i < j < m.history.len(),
        m.history[i] == (LifecycleEvent::DeviceAdded { device }),
        m.history[j] == (LifecycleEvent::DeviceAdded { device }),
    ensures
        removed_between(m.history, device, i, j),
{
}

/// No device is ready to be driven before it was announced and resumed: in
/// a consistent registry, the serial of a ready device comes from a
/// resumption, and the device's announcement is part of what happened.
pub proof fn lemma_ready_was_announced(m: RegistryModel, device: u64)
    requires
        m.consistent(),
        m.ready(device) is Some,
    ensures
        m.devices.contains_key(device),
        added_before(m.history, device, m.history.len() as int),
{
}

/// Capabilities count as bound on a seat only once the request that binds
/// them was staged: a bind that records them stages exactly that request.
pub proof fn lemma_bound_was_requested(m: RegistryModel, seat: u64, wanted: CapabilitySet)
    ensures
        m.bind(seat, wanted).bound_on(seat) != m.bound_on(seat) ==> m.bind_request(seat, wanted)
            == seq![RequestView::Bind { seat, mask: m.seats[seat].masks.selected(wanted) }]
            && m.bind(seat, wanted).bound_on(seat) == Some(wanted),
        RegistryModel::initial(0).bound_on(seat) is None,
{
}

/// A second bind of the same capabilities on the same seat leaves the
/// registry as the first left it and sends the same request once more; and
/// no bind, the first or a later one, announces a device, queues an event or
/// changes what happened.
pub proof fn lemma_bind_is_idempotent(m: RegistryModel, seat: u64, wanted: CapabilitySet)
    ensures
        m.bind(seat, wanted).bind(seat, wanted) == m.bind(seat, wanted),
        m.bind(seat, wanted).bind_request(seat, wanted) == m.bind_request(seat, wanted),
        m.bind(seat, wanted).devices == m.devices,
        m.bind(seat, wanted).drafts == m.drafts,
        m.bind(seat, wanted).queue == m.queue,
        m.bind(seat, wanted).history == m.history,
{
    assert(m.bind(seat, wanted).bind(seat, wanted) =~= m.bind(seat, wanted));
}

/// A message queues one event at most, behind those that wait. A seat is
/// announced by the message that ends its description, and by no other.
pub proof fn lemma_one_event_at_most(m: RegistryModel, event: WireEvent, seat: u64)
    ensures
        m.announced(event).len() <= 1,
        m.step(event).queue == m.queue + m.announced(event),
        m.step(event).history == m.history + m.announced(event),
        event == (WireEvent::SeatDone { seat }) && m.pending_seats.contains_key(seat)
            ==> m.announced(event) == seq![LifecycleEvent::SeatAdded { seat }] && m.step(
            event,
        ).seats.contains_key(seat) && m.step(event).seats[seat] == m.pending_seats[seat],
        m.announced(event) == seq![LifecycleEvent::SeatAdded { seat }] ==> event == (
        WireEvent::SeatDone { seat }) && m.pending_seats.contains_key(seat),
{
    let next = m.step(event);
    let new = m.announced(event);
    if m.handle(event) is Ok {
        if next.history == m.history {
            assert(next.queue == m.queue);
            assert(new =~= Seq::<LifecycleEvent>::empty());
            assert(m.queue + new =~= m.queue);
            assert(m.history + new =~= m.history);
        } else {
            let e = next.history.last();
            assert(next.history == m.history.push(e));
            assert(next.queue == m.queue.push(e));
            assert(new =~= seq![e]);
            assert(m.queue + new =~= m.queue.push(e));
            assert(m.history + new =~= m.history.push(e));
            if new == seq![LifecycleEvent::SeatAdded { seat }] {
                assert(e == new[0]);
            }
        }
    } else {
        assert(new =~= Seq::<LifecycleEvent>::empty());
        assert(m.queue + new =~= m.queue);
        assert(m.history + new =~= m.history);
        assert(seq![LifecycleEvent::SeatAdded { seat }].len() == 1);
    }
}

} // verus!
