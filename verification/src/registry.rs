//! The registry of seats and devices: it turns the compositor's messages
//! into the events of their lives, in the order in which they happened.

use std::collections::HashMap;
use std::collections::VecDeque;
use vstd::prelude::*;
use crate::capability::CapabilitySet;
use crate::device::{CapabilityMasks, Device, DeviceView, InterfaceTable, Region, Seat, SeatView};
use crate::interface::InterfaceName;
use crate::registry_model::{
    ConverterError,
    DraftView,
    LifecycleEvent,
    RegistryModel,
    blank_draft,
    blank_seat,
    give,
    give_all,
    lemma_calls_keep_consistent,
    lemma_step_keeps_consistent,
    take,
    take_all,
};
use crate::wire::{DeviceType, Request, RequestView, WireEvent, request_views};

verus! {

broadcast use vstd::std_specs::hash::group_hash_axioms;

/// A device whose description is not done.
pub struct Draft {
    pub device: Device,
    pub typed: bool,
}

impl View for Draft {
    type V = DraftView;

    open spec fn view(&self) -> DraftView {
        DraftView { device: self.device@, typed: self.typed }
    }
}

/// The values of the seats of a map.
pub open spec fn seat_views(m: Map<u64, Seat>) -> Map<u64, SeatView> {
    m.map_values(|s: Seat| s@)
}

/// The values of the devices of a map.
pub open spec fn device_views(m: Map<u64, Device>) -> Map<u64, DeviceView> {
    m.map_values(|d: Device| d@)
}

/// The values of the drafts of a map.
pub open spec fn draft_views(m: Map<u64, Draft>) -> Map<u64, DraftView> {
    m.map_values(|d: Draft| d@)
}

/// The registry of one connection.
pub struct Registry {
    pending_seats: HashMap<u64, Seat>,
    seats: HashMap<u64, Seat>,
    bound: HashMap<u64, CapabilitySet>,
    drafts: HashMap<u64, Draft>,
    devices: HashMap<u64, Device>,
    owners: HashMap<u64, u64>,
    resumed: HashMap<u64, u32>,
    events: VecDeque<LifecycleEvent>,
    history: Ghost<Seq<LifecycleEvent>>,
    last_serial: u32,
}

impl View for Registry {
    type V = RegistryModel;

    closed spec fn view(&self) -> RegistryModel {
        RegistryModel {
            pending_seats: seat_views(self.pending_seats@),
            seats: seat_views(self.seats@),
            bound: self.bound@,
            drafts: draft_views(self.drafts@),
            devices: device_views(self.devices@),
            owners: self.owners@,
            resumed: self.resumed@,
            queue: self.events@,
            history: self.history@,
            last_serial: self.last_serial,
        }
    }
}

impl Registry {
    /// The registry of a connection that starts with `serial`.
    pub fn new(serial: u32) -> (r: Registry)
        ensures
            r@ == RegistryModel::initial(serial),
    {
        let r = Registry {
            pending_seats: HashMap::new(),
            seats: HashMap::new(),
            bound: HashMap::new(),
            drafts: HashMap::new(),
            devices: HashMap::new(),
            owners: HashMap::new(),
            resumed: HashMap::new(),
            events: VecDeque::new(),
            history: Ghost(Seq::empty()),
            last_serial: serial,
        };
        assert(r@ =~= RegistryModel::initial(serial));
        r
    }

    /// Queues an event.
    fn emit(&mut self, event: LifecycleEvent)
        ensures
            final(self)@ == old(self)@.emit(event),
    {
        self.events.push_back(event);
        self.history = Ghost(self.history@.push(event));
    }

    /// Handles a message about a seat.
    fn handle_seat(&mut self, event: WireEvent) -> (r: Result<(), ConverterError>)
        ensures
            old(self)@.handle_seat(event) matches Ok(next) ==> r is Ok && final(self)@ == next,
            old(self)@.handle_seat(event) matches Err(e) ==> r == Err::<(), ConverterError>(e)
                && final(self)@ == old(self)@,
    {
        match event {
            WireEvent::SeatAnnounced { seat } => {
                let described = Seat {
                    id: seat,
                    name: String::new(),
                    capabilities: CapabilitySet::empty(),
                    masks: CapabilityMasks::none(),
                };
                assert(described@ =~= blank_seat(seat));
                self.pending_seats.insert(seat, described);
                Ok(())
            },
            WireEvent::SeatName { seat, name } => {
                match self.pending_seats.remove(&seat) {
                    None => Err(ConverterError::SeatSetupEventAfterDone),
                    Some(mut described) => {
                        described.name = name;
                        self.pending_seats.insert(seat, described);
                        Ok(())
                    },
                }
            },
            WireEvent::SeatCapability { seat, mask, interface } => {
                if !self.pending_seats.contains_key(&seat) {
                    return Err(ConverterError::SeatSetupEventAfterDone);
                }
                let capability = match InterfaceName::from_name(&interface) {
                    None => None,
                    Some(i) => i.capability(),
                };
                match capability {
                    None => Err(ConverterError::UnknownCapabilityInterface),
                    Some(c) => {
                        match self.pending_seats.remove(&seat) {
                            None => Ok(()),
                            Some(mut described) => {
                                described.capabilities.insert(c);
                                described.masks.set(c, mask);
                                self.pending_seats.insert(seat, described);
                                Ok(())
                            },
                        }
                    },
                }
            },
            WireEvent::SeatDone { seat } => {
                match self.pending_seats.remove(&seat) {
                    None => Err(ConverterError::SeatSetupEventAfterDone),
                    Some(described) => {
                        self.seats.insert(seat, described);
                        self.emit(LifecycleEvent::SeatAdded { seat });
                        Ok(())
                    },
                }
            },
            WireEvent::SeatDevice { seat, device } => {
                if !self.seats.contains_key(&seat) {
                    return Err(ConverterError::SeatEventBeforeDone);
                }
                if self.devices.contains_key(&device) {
                    return Err(ConverterError::DeviceSetupEventAfterDone);
                }
                let draft = Draft {
                    device: Device {
                        id: device,
                        seat,
                        name: String::new(),
                        device_type: DeviceType::Virtual,
                        dimensions: None,
                        regions: Vec::new(),
                        interfaces: InterfaceTable::empty(),
                    },
                    typed: false,
                };
                assert(draft@ =~= blank_draft(seat, device));
                self.drafts.insert(device, draft);
                Ok(())
            },
            WireEvent::SeatDestroyed { seat, serial } => {
                self.last_serial = serial;
                self.pending_seats.remove(&seat);
                match self.seats.remove(&seat) {
                    None => {},
                    Some(_) => {
                        self.bound.remove(&seat);
                        self.emit(LifecycleEvent::SeatRemoved { seat });
                    },
                }
                Ok(())
            },
            _ => Ok(()),
        }
    }

    /// Handles a part of a device's description.
    fn handle_draft(&mut self, event: WireEvent) -> (r: Result<(), ConverterError>)
        ensures
            old(self)@.handle_draft(event) matches Ok(next) ==> r is Ok && final(self)@ == next,
            old(self)@.handle_draft(event) matches Err(e) ==> r == Err::<(), ConverterError>(e)
                && final(self)@ == old(self)@,
    {
        match event {
            WireEvent::DeviceName { device, name } => {
                match self.drafts.remove(&device) {
                    None => Err(ConverterError::DeviceSetupEventAfterDone),
                    Some(mut draft) => {
                        draft.device.name = name;
                        self.drafts.insert(device, draft);
                        Ok(())
                    },
                }
            },
            WireEvent::DeviceKind { device, device_type } => {
                match self.drafts.remove(&device) {
                    None => Err(ConverterError::DeviceSetupEventAfterDone),
                    Some(mut draft) => {
                        draft.device.device_type = device_type;
                        draft.typed = true;
                        self.drafts.insert(device, draft);
                        Ok(())
                    },
                }
            },
            WireEvent::DeviceDimensions { device, width, height } => {
                match self.drafts.remove(&device) {
                    None => Err(ConverterError::DeviceSetupEventAfterDone),
                    Some(mut draft) => {
                        draft.device.dimensions = Some((width, height));
                        self.drafts.insert(device, draft);
                        Ok(())
                    },
                }
            },
            WireEvent::DeviceRegion { device, x, y, width, height, scale } => {
                match self.drafts.remove(&device) {
                    None => Err(ConverterError::DeviceSetupEventAfterDone),
                    Some(mut draft) => {
                        draft.device.regions.push(Region { x, y, width, height, scale });
                        self.drafts.insert(device, draft);
                        Ok(())
                    },
                }
            },
            WireEvent::DeviceRegionMappingId { device } => {
                if !self.drafts.contains_key(&device) {
                    return Err(ConverterError::DeviceEventBeforeDone);
                }
                Ok(())
            },
            WireEvent::DeviceInterface { device, object, interface } => {
                if !self.drafts.contains_key(&device) {
                    return Err(ConverterError::DeviceSetupEventAfterDone);
                }
                let capability = match InterfaceName::from_name(&interface) {
                    None => None,
                    Some(i) => i.capability(),
                };
                match capability {
                    None => Ok(()),
                    Some(c) => {
                        match self.drafts.remove(&device) {
                            None => Ok(()),
                            Some(mut draft) => {
                                draft.device.interfaces.set(c, Some(object));
                                self.drafts.insert(device, draft);
                                Ok(())
                            },
                        }
                    },
                }
            },
            WireEvent::DeviceDone { device } => {
                let typed = match self.drafts.get(&device) {
                    None => { return Err(ConverterError::DeviceSetupEventAfterDone); },
                    Some(draft) => draft.typed,
                };
                if !typed {
                    return Err(ConverterError::NoDeviceType);
                }
                match self.drafts.remove(&device) {
                    None => Ok(()),
                    Some(draft) => {
                        let table = draft.device.interfaces;
                        self.devices.insert(device, draft.device);
                        self.give_all(table, device);
                        self.emit(LifecycleEvent::DeviceAdded { device });
                        Ok(())
                    },
                }
            },
            _ => Ok(()),
        }
    }

    /// Gives `object`, where there is one, to `device`.
    fn give(&mut self, object: Option<u64>, device: u64)
        ensures
            final(self)@ == (RegistryModel {
                owners: give(old(self)@.owners, object, device),
                ..old(self)@
            }),
    {
        match object {
            Some(o) => { self.owners.insert(o, device); },
            None => {},
        }
    }

    /// Forgets `object`, where there is one.
    fn take(&mut self, object: Option<u64>)
        ensures
            final(self)@ == (RegistryModel { owners: take(old(self)@.owners, object), ..old(self)@ }),
    {
        match object {
            Some(o) => { self.owners.remove(&o); },
            None => {},
        }
    }

    /// Gives every object of `table` to `device`.
    fn give_all(&mut self, table: InterfaceTable, device: u64)
        ensures
            final(self)@ == (RegistryModel {
                owners: give_all(old(self)@.owners, table, device),
                ..old(self)@
            }),
    {
        self.give(table.pointer, device);
        self.give(table.pointer_absolute, device);
        self.give(table.keyboard, device);
        self.give(table.touch, device);
        self.give(table.scroll, device);
        self.give(table.button, device);
        self.give(table.text, device);
    }

    /// Forgets the objects of `table`.
    fn take_all(&mut self, table: InterfaceTable)
        ensures
            final(self)@ == (RegistryModel {
                owners: take_all(old(self)@.owners, table),
                ..old(self)@
            }),
    {
        self.take(table.pointer);
        self.take(table.pointer_absolute);
        self.take(table.keyboard);
        self.take(table.touch);
        self.take(table.scroll);
        self.take(table.button);
        self.take(table.text);
    }

    /// Handles a message about a device that was added.
    fn handle_device(&mut self, event: WireEvent) -> (r: Result<(), ConverterError>)
        ensures
            old(self)@.handle_device(event) matches Ok(next) ==> r is Ok && final(self)@ == next,
            old(self)@.handle_device(event) matches Err(e) ==> r == Err::<(), ConverterError>(e)
                && final(self)@ == old(self)@,
    {
        match event {
            WireEvent::DeviceResumed { device, serial } => {
                if !self.devices.contains_key(&device) {
                    return Err(ConverterError::DeviceEventBeforeDone);
                }
                self.last_serial = serial;
                self.resumed.insert(device, serial);
                self.emit(LifecycleEvent::DeviceResumed { device, serial });
                Ok(())
            },
            WireEvent::DevicePaused { device, serial } => {
                if !self.devices.contains_key(&device) {
                    return Err(ConverterError::DeviceEventBeforeDone);
                }
                self.last_serial = serial;
                self.resumed.remove(&device);
                self.emit(LifecycleEvent::DevicePaused { device, serial });
                Ok(())
            },
            WireEvent::DeviceStartEmulating { device, serial, sequence } => {
                if !self.devices.contains_key(&device) {
                    return Err(ConverterError::DeviceEventBeforeDone);
                }
                self.last_serial = serial;
                self.emit(LifecycleEvent::StartEmulating { device, serial, sequence });
                Ok(())
            },
            WireEvent::DeviceStopEmulating { device, serial } => {
                if !self.devices.contains_key(&device) {
                    return Err(ConverterError::DeviceEventBeforeDone);
                }
                self.last_serial = serial;
                self.emit(LifecycleEvent::StopEmulating { device, serial });
                Ok(())
            },
            WireEvent::DeviceFrame { device, serial, timestamp } => {
                if !self.devices.contains_key(&device) {
                    return Err(ConverterError::DeviceEventBeforeDone);
                }
                self.last_serial = serial;
                self.emit(LifecycleEvent::Frame { device, serial, timestamp });
                Ok(())
            },
            WireEvent::DeviceDestroyed { device, serial } => {
                self.last_serial = serial;
                self.drafts.remove(&device);
                match self.devices.remove(&device) {
                    None => {},
                    Some(gone) => {
                        self.take_all(gone.interfaces);
                        self.resumed.remove(&device);
                        self.emit(LifecycleEvent::DeviceRemoved { device });
                    },
                }
                Ok(())
            },
            WireEvent::InterfaceDestroyed { object, serial } => {
                self.last_serial = serial;
                match self.owners.remove(&object) {
                    None => {},
                    Some(device) => {
                        match self.devices.remove(&device) {
                            None => {},
                            Some(mut owner) => {
                                match owner.interfaces.owner(object) {
                                    Some(c) => { owner.interfaces.set(c, None); },
                                    None => {},
                                }
                                self.devices.insert(device, owner);
                            },
                        }
                    },
                }
                Ok(())
            },
            WireEvent::Input { object, event } => {
                let device = match self.owners.get(&object) {
                    None => { return Err(ConverterError::DeviceEventBeforeDone); },
                    Some(device) => *device,
                };
                self.emit(LifecycleEvent::Input { device, event });
                Ok(())
            },
            _ => Ok(()),
        }
    }

    /// Hands the registry one decoded message of the time after the
    /// handshake. A violation of the protocol is returned and changes
    /// nothing. The answer to a ping is added to `out`; it reaches the
    /// compositor with the next flush.
    pub fn handle_event(&mut self, event: WireEvent, out: &mut Vec<Request>) -> (r: Result<
        (),
        ConverterError,
    >)
        ensures
            old(self)@.handled(event, r, final(self)@),
            final(self)@ == old(self)@.step(event),
            old(self)@.consistent() ==> final(self)@.consistent(),
            request_views(final(out)@) == request_views(old(out)@) + old(self)@.reply(event),
    {
        assert(request_views(out@) + Seq::<RequestView>::empty() =~= request_views(out@));
        proof {
            if self@.consistent() {
                lemma_step_keeps_consistent(self@, event);
            }
        }
        match event {
            WireEvent::HandshakeVersion { .. } => Err(ConverterError::UnexpectedHandshakeEvent),
            WireEvent::InterfaceVersion { .. } => Err(ConverterError::UnexpectedHandshakeEvent),
            WireEvent::Connection { .. } => Err(ConverterError::UnexpectedHandshakeEvent),
            WireEvent::Disconnected { last_serial, reason } => {
                self.last_serial = last_serial;
                self.emit(LifecycleEvent::Disconnected { last_serial, reason });
                Ok(())
            },
            WireEvent::InvalidObject { .. } => Ok(()),
            WireEvent::Ping { ping } => {
                let ghost staged = out@;
                out.push(Request::Pong { ping });
                assert(request_views(out@) =~= request_views(staged) + seq![
                    RequestView::Pong { ping },
                ]);
                Ok(())
            },
            WireEvent::CallbackDone { .. } => Ok(()),
            WireEvent::Keymap { .. } => Ok(()),
            WireEvent::SeatAnnounced { .. } => self.handle_seat(event),
            WireEvent::SeatName { .. } => self.handle_seat(event),
            WireEvent::SeatCapability { .. } => self.handle_seat(event),
            WireEvent::SeatDone { .. } => self.handle_seat(event),
            WireEvent::SeatDevice { .. } => self.handle_seat(event),
            WireEvent::SeatDestroyed { .. } => self.handle_seat(event),
            WireEvent::DeviceName { .. } => self.handle_draft(event),
            WireEvent::DeviceKind { .. } => self.handle_draft(event),
            WireEvent::DeviceDimensions { .. } => self.handle_draft(event),
            WireEvent::DeviceRegion { .. } => self.handle_draft(event),
            WireEvent::DeviceRegionMappingId { .. } => self.handle_draft(event),
            WireEvent::DeviceInterface { .. } => self.handle_draft(event),
            WireEvent::DeviceDone { .. } => self.handle_draft(event),
            WireEvent::DeviceResumed { .. } => self.handle_device(event),
            WireEvent::DevicePaused { .. } => self.handle_device(event),
            WireEvent::DeviceStartEmulating { .. } => self.handle_device(event),
            WireEvent::DeviceStopEmulating { .. } => self.handle_device(event),
            WireEvent::DeviceFrame { .. } => self.handle_device(event),
            WireEvent::DeviceDestroyed { .. } => self.handle_device(event),
            WireEvent::InterfaceDestroyed { .. } => self.handle_device(event),
            WireEvent::Input { .. } => self.handle_device(event),
        }
    }

    /// Takes the oldest event that was not taken yet.
    pub fn next_event(&mut self) -> (r: Option<LifecycleEvent>)
        ensures
            old(self)@.queue.len() == 0 ==> r is None && final(self)@ == old(self)@,
            old(self)@.queue.len() > 0 ==> r == Some(old(self)@.queue[0]) && final(self)@ == (
            RegistryModel { queue: old(self)@.queue.drop_first(), ..old(self)@ }),
            final(self)@ == old(self)@.taken(),
            old(self)@.consistent() ==> final(self)@.consistent(),
    {
        proof {
            if self@.consistent() {
                lemma_calls_keep_consistent(self@, 0, CapabilitySet::none());
            }
        }
        let r = self.events.pop_front();
        proof {
            if old(self)@.queue.len() > 0 {
                assert(self.events@ =~= old(self)@.queue.drop_first());
            }
        }
        r
    }

    /// Whether an event waits to be taken.
    pub fn has_event(&self) -> (r: bool)
        ensures
            r == (self@.queue.len() > 0),
    {
        self.events.len() > 0
    }

    /// Stages the request that binds `wanted` on `seat`, each time it is
    /// called. The request reaches the compositor with the next flush, not
    /// before. Nothing is staged, and `false` is returned, where the seat
    /// was not added.
    pub fn bind_capabilities(&mut self, seat: u64, wanted: CapabilitySet, out: &mut Vec<Request>)
        -> (r: bool)
        ensures
            r == old(self)@.seats.contains_key(seat),
            final(self)@ == old(self)@.bind(seat, wanted),
            old(self)@.consistent() ==> final(self)@.consistent(),
            request_views(final(out)@) == request_views(old(out)@) + old(self)@.bind_request(
                seat,
                wanted,
            ),
    {
        assert(request_views(out@) + Seq::<RequestView>::empty() =~= request_views(out@));
        proof {
            if self@.consistent() {
                lemma_calls_keep_consistent(self@, seat, wanted);
            }
        }
        let mask = match self.seats.get(&seat) {
            None => { return false; },
            Some(described) => described.masks.select(&wanted),
        };
        self.bound.insert(seat, wanted);
        let ghost staged = out@;
        out.push(Request::Bind { seat, mask });
        assert(request_views(out@) =~= request_views(staged) + seq![RequestView::Bind { seat, mask }]);
        true
    }

    /// The seat `seat`, if it was added.
    pub fn seat(&self, seat: u64) -> (r: Option<&Seat>)
        ensures
            r matches Some(s) ==> self@.seats.contains_key(seat) && s@ == self@.seats[seat],
            r is None ==> !self@.seats.contains_key(seat),
    {
        self.seats.get(&seat)
    }

    /// The device `device`, if it was added.
    pub fn device(&self, device: u64) -> (r: Option<&Device>)
        ensures
            r matches Some(d) ==> self@.devices.contains_key(device) && d@ == self@.devices[device],
            r is None ==> !self@.devices.contains_key(device),
    {
        self.devices.get(&device)
    }

    /// The capabilities that were last bound on `seat`, while the seat is
    /// there and something was bound on it.
    pub fn bound_on(&self, seat: u64) -> (r: Option<CapabilitySet>)
        ensures
            r == self@.bound_on(seat),
    {
        if !self.seats.contains_key(&seat) {
            return None;
        }
        match self.bound.get(&seat) {
            None => None,
            Some(bound) => Some(*bound),
        }
    }

    /// The serial with which `device` may be driven: that of its resumption,
    /// while the device is added and resumed. That its capabilities were
    /// bound does not make a device ready.
    pub fn ready(&self, device: u64) -> (r: Option<u32>)
        ensures
            r == self@.ready(device),
    {
        if !self.devices.contains_key(&device) {
            return None;
        }
        match self.resumed.get(&device) {
            None => None,
            Some(serial) => Some(*serial),
        }
    }

    /// The last serial that the compositor used.
    pub fn last_serial(&self) -> (r: u32)
        ensures
            r == self@.last_serial,
    {
        self.last_serial
    }
}

} // verus!
