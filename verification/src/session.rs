//! One session, from the first byte to the end: the handshake, then the
//! registry, then the emission, driven by what the caller reads and by the
//! time that it tells.

use vstd::prelude::*;
use crate::capability::{Capability, CapabilitySet};
use crate::emission::{EmissionCommand, EmissionError, EmissionModel, EmissionSession};
use crate::handshake::{HandshakeEngine, HandshakeModel};
use crate::interface::InterfaceOffer;
use crate::registry::Registry;
use crate::registry_model::{ConverterError, LifecycleEvent};
use crate::session_model::{
    Phase,
    SessionError,
    SessionModel,
    lemma_calls_keep_sound,
    lemma_pending_keeps_sound,
};
use crate::registry_model::lemma_initial_is_consistent;
use crate::wire::{ContextRole, PendingEvent, ReadOutcome, Request, RequestView, request_views};

verus! {

/// What a session is made with.
pub struct SessionConfig {
    /// The name under which the client goes.
    pub name: String,
    pub role: ContextRole,
    /// The interfaces that the client offers.
    pub offers: Vec<InterfaceOffer>,
    /// The capabilities that are bound on every seat.
    pub wanted: CapabilitySet,
    /// The time that the handshake may take.
    pub handshake_timeout: u64,
    /// The time that it may take until a device is ready.
    pub discovery_timeout: u64,
    /// The number of messages that may fail to decode, or break the
    /// protocol, before the session gives up.
    pub issue_limit: u32,
}

/// The values of an emission session, where there is one.
pub open spec fn emission_view(emission: Option<EmissionSession>) -> Option<EmissionModel> {
    match emission {
        Some(e) => Some(e@),
        None => None,
    }
}

/// One session.
pub struct Session {
    wanted: CapabilitySet,
    handshake_timeout: u64,
    discovery_timeout: u64,
    issue_limit: u32,
    phase: Phase,
    since: u64,
    engine: HandshakeEngine,
    registry: Registry,
    emission: Option<EmissionSession>,
    start_serial: u32,
    candidate: Option<u64>,
    outbound: Vec<Request>,
    issues: u32,
    last_violation: Option<ConverterError>,
    negotiated: Vec<InterfaceOffer>,
}

impl View for Session {
    type V = SessionModel;

    closed spec fn view(&self) -> SessionModel {
        SessionModel {
            wanted: self.wanted,
            handshake_timeout: self.handshake_timeout,
            discovery_timeout: self.discovery_timeout,
            issue_limit: self.issue_limit,
            phase: self.phase,
            since: self.since,
            handshake: self.engine@,
            registry: self.registry@,
            emission: emission_view(self.emission),
            start_serial: self.start_serial,
            candidate: self.candidate,
            outbound: request_views(self.outbound@),
            issues: self.issues,
            last_violation: self.last_violation,
            negotiated: self.negotiated@,
        }
    }
}

impl Session {
    /// A session that starts at the time `now`.
    pub fn new(config: SessionConfig, now: u64) -> (r: Session)
        ensures
            r@ == SessionModel::initial(
                HandshakeModel::initial(config.name@, config.role, config.offers@),
                config.wanted,
                config.handshake_timeout,
                config.discovery_timeout,
                config.issue_limit,
                now,
            ),
            r@.sound(),
    {
        proof {
            lemma_initial_is_consistent(0);
        }
        let r = Session {
            wanted: config.wanted,
            handshake_timeout: config.handshake_timeout,
            discovery_timeout: config.discovery_timeout,
            issue_limit: config.issue_limit,
            phase: Phase::Handshake,
            since: now,
            engine: HandshakeEngine::new(config.name, config.role, config.offers),
            registry: Registry::new(0),
            emission: None,
            start_serial: 0,
            candidate: None,
            outbound: Vec::new(),
            issues: 0,
            last_violation: None,
            negotiated: Vec::new(),
        };
        assert(r@.outbound =~= Seq::<RequestView>::empty());
        r
    }

    /// Where the session stands.
    pub fn phase(&self) -> (r: Phase)
        ensures
            r == self@.phase,
    {
        self.phase
    }

    /// Whether the session still goes on.
    pub fn is_live(&self) -> (r: bool)
        ensures
            r == self@.is_live(),
    {
        match self.phase {
            Phase::Failed(_) => false,
            _ => true,
        }
    }

    /// The error on which the session ended, if it has.
    pub fn error(&self) -> (r: Option<SessionError>)
        ensures
            r == (match self@.phase {
                Phase::Failed(e) => Some(e),
                _ => None,
            }),
    {
        match self.phase {
            Phase::Failed(e) => Some(e),
            _ => None,
        }
    }

    /// The registry of the session.
    pub fn registry(&self) -> (r: &Registry)
        ensures
            r@ == self@.registry,
    {
        &self.registry
    }

    /// The serial of the resumption that made the session ready.
    pub fn start_serial(&self) -> (r: u32)
        ensures
            r == self@.start_serial,
    {
        self.start_serial
    }

    /// The device with absolute pointer motion that was announced last and
    /// is not gone.
    pub fn candidate(&self) -> (r: Option<u64>)
        ensures
            r == self@.candidate,
    {
        self.candidate
    }

    /// The device that the session drives, once it is ready.
    pub fn ready_device(&self) -> (r: Option<u64>)
        ensures
            r == (match self@.emission {
                Some(e) => Some(e.device),
                None => None,
            }),
    {
        match &self.emission {
            Some(e) => Some(e.device()),
            None => None,
        }
    }

    /// Whether the device that is ready takes buttons.
    pub fn has_button(&self) -> (r: bool)
        ensures
            r == (self@.emission matches Some(e) && e.button is Some),
    {
        match &self.emission {
            Some(e) => e.has_button(),
            None => false,
        }
    }

    /// The number of messages so far that failed to decode or broke the
    /// protocol.
    pub fn issues(&self) -> (r: u32)
        ensures
            r == self@.issues,
    {
        self.issues
    }

    /// The last violation of the protocol that the registry met, if any.
    pub fn last_violation(&self) -> (r: Option<ConverterError>)
        ensures
            r == self@.last_violation,
    {
        self.last_violation
    }

    /// The interfaces that the handshake has settled, with their versions,
    /// in the order in which the compositor named them. None before the
    /// handshake is complete.
    pub fn negotiated(&self) -> (r: &Vec<InterfaceOffer>)
        ensures
            r@ == self@.negotiated,
    {
        &self.negotiated
    }

    /// Tells the session how a read ended. A read that would block changes
    /// nothing, nor does one that brought bytes; a failed one ends the
    /// session.
    pub fn on_read(&mut self, outcome: ReadOutcome)
        ensures
            final(self)@ == old(self)@.read(outcome),
            old(self)@.sound() ==> final(self)@.sound(),
    {
        proof {
            if self@.sound() {
                lemma_calls_keep_sound(self@, outcome, true, 0, EmissionCommand::StopEmulating { serial: 0 });
            }
        }
        if self.is_live() {
            match outcome {
                ReadOutcome::Failed => {
                    self.phase = Phase::Failed(SessionError::Transport);
                },
                _ => {},
            }
        }
    }

    /// Tells the session how a flush ended. A failed one ends the session.
    pub fn on_flush(&mut self, ok: bool)
        ensures
            final(self)@ == old(self)@.flushed(ok),
            old(self)@.sound() ==> final(self)@.sound(),
    {
        proof {
            if self@.sound() {
                lemma_calls_keep_sound(self@, ReadOutcome::WouldBlock, ok, 0, EmissionCommand::StopEmulating { serial: 0 });
            }
        }
        if self.is_live() && !ok {
            self.phase = Phase::Failed(SessionError::Transport);
        }
    }

    /// Tells the session the time. A handshake, or a discovery, that has
    /// taken its time ends the session.
    pub fn tick(&mut self, now: u64)
        ensures
            final(self)@ == old(self)@.tick(now),
            old(self)@.sound() ==> final(self)@.sound(),
    {
        proof {
            if self@.sound() {
                lemma_calls_keep_sound(self@, ReadOutcome::WouldBlock, true, now, EmissionCommand::StopEmulating { serial: 0 });
            }
        }
        let elapsed: u64 = if now >= self.since {
            now - self.since
        } else {
            0
        };
        match self.phase {
            Phase::Handshake => {
                if elapsed >= self.handshake_timeout {
                    self.phase = Phase::Failed(SessionError::HandshakeTimeout);
                }
            },
            Phase::Discovery => {
                if elapsed >= self.discovery_timeout {
                    self.phase = Phase::Failed(SessionError::DiscoveryTimeout);
                }
            },
            _ => {},
        }
    }

    /// Counts one more issue.
    fn count_issue(&mut self)
        ensures
            final(self)@ == old(self)@.issue(),
    {
        if self.issues < u32::MAX {
            self.issues = self.issues + 1;
        }
        if self.issues > self.issue_limit {
            self.phase = Phase::Failed(SessionError::TooManyIssues);
        }
    }

    /// Acts on one event of the registry.
    fn digest(&mut self, event: LifecycleEvent)
        ensures
            final(self)@ == old(self)@.digest(event),
    {
        match event {
            LifecycleEvent::DeviceAdded { device } => {
                let absolute = match self.registry.device(device) {
                    Some(d) => d.has_capability(Capability::PointerAbsolute),
                    None => false,
                };
                if absolute {
                    self.candidate = Some(device);
                }
            },
            LifecycleEvent::DeviceRemoved { device } => {
                let same = match self.candidate {
                    Some(c) => c == device,
                    None => false,
                };
                if same {
                    self.candidate = None;
                }
            },
            LifecycleEvent::SeatAdded { seat } => {
                self.registry.bind_capabilities(seat, self.wanted, &mut self.outbound);
            },
            LifecycleEvent::DeviceResumed { device, serial } => {
                let discovering = match self.phase {
                    Phase::Discovery => true,
                    _ => false,
                };
                if discovering {
                    let emission = match self.registry.device(device) {
                        Some(d) => match self.registry.bound_on(d.seat) {
                            Some(bound) => EmissionSession::new(d, &bound),
                            None => None,
                        },
                        None => None,
                    };
                    if emission.is_some() {
                        self.emission = emission;
                        self.phase = Phase::Ready;
                        self.start_serial = serial;
                    }
                }
            },
            _ => {},
        }
    }

    /// Takes every event that waits in the registry, acts on it, and
    /// returns them all, oldest first.
    fn settle(&mut self) -> (seen: Vec<LifecycleEvent>)
        ensures
            final(self)@ == old(self)@.settle(),
            seen@ == old(self)@.registry.queue,
    {
        let mut seen: Vec<LifecycleEvent> = Vec::new();
        assert(seen@ + self@.registry.queue =~= old(self)@.registry.queue);
        while self.registry.has_event()
            invariant
                self@.settle() == old(self)@.settle(),
                seen@ + self@.registry.queue == old(self)@.registry.queue,
            decreases self@.registry.queue.len(),
        {
            let ghost before = self@;
            match self.registry.next_event() {
                None => {},
                Some(event) => {
                    assert(self@ == before.taken());
                    self.digest(event);
                    seen.push(event);
                    assert(seen@ + self@.registry.queue =~= old(self)@.registry.queue);
                },
            }
        }
        assert(seen@ =~= old(self)@.registry.queue);
        seen
    }

    /// Hands the session what the codec handed out, at the time `now`.
    /// Returns the events of the registry that this led to, oldest first.
    /// Before the handshake is complete a message goes to the handshake
    /// engine alone; afterwards to the registry alone. What could not be
    /// decoded, or broke the protocol, is counted and skipped. What the
    /// client has to say is staged, and written with the next flush.
    pub fn on_pending(&mut self, event: PendingEvent, now: u64) -> (r: Vec<LifecycleEvent>)
        ensures
            final(self)@ == old(self)@.pending(event, now),
            old(self)@.sound() ==> final(self)@.sound(),
            old(self)@.is_live() ==> r@ == old(self)@.reported(event),
            !old(self)@.is_live() ==> r@.len() == 0,
    {
        proof {
            if self@.sound() {
                lemma_pending_keeps_sound(self@, event, now);
            }
        }
        if !self.is_live() {
            return Vec::new();
        }
        match event {
            PendingEvent::ParseError(_) => {
                self.count_issue();
                Vec::new()
            },
            PendingEvent::InvalidObject(_) => {
                self.count_issue();
                Vec::new()
            },
            PendingEvent::Request(message) => {
                let shaking = match self.phase {
                    Phase::Handshake => true,
                    _ => false,
                };
                if shaking {
                    match self.engine.handle_event(&message, &mut self.outbound) {
                        Err(e) => {
                            self.phase = Phase::Failed(SessionError::Handshake(e));
                        },
                        Ok(None) => {},
                        Ok(Some(response)) => {
                            self.registry = Registry::new(response.serial);
                            self.negotiated = response.negotiated_interfaces;
                            self.phase = Phase::Discovery;
                            self.since = now;
                        },
                    }
                    Vec::new()
                } else {
                    match self.registry.handle_event(message, &mut self.outbound) {
                        Err(e) => {
                            self.count_issue();
                            self.last_violation = Some(e);
                        },
                        Ok(()) => {},
                    }
                    self.settle()
                }
            },
        }
    }

    /// Issues an emission call. Outside the ready phase every call is
    /// refused as an ordering violation, and nothing is staged. In it, the
    /// call is refused where the emission session refuses it; an accepted
    /// call stages its message, which is written with the next flush.
    pub fn emit(&mut self, command: EmissionCommand) -> (r: Result<(), EmissionError>)
        ensures
            final(self)@ == old(self)@.emit(command),
            old(self)@.sound() ==> final(self)@.sound(),
            r == (match old(self)@.refusal(command) {
                Some(e) => Err::<(), EmissionError>(e),
                None => Ok(()),
            }),
    {
        proof {
            if self@.sound() {
                lemma_calls_keep_sound(self@, ReadOutcome::WouldBlock, true, 0, command);
            }
        }
        let ready = match self.phase {
            Phase::Ready => true,
            _ => false,
        };
        if !ready {
            return Err(EmissionError::OrderingViolation);
        }
        let mut emission = None;
        std::mem::swap(&mut emission, &mut self.emission);
        match emission {
            None => Err(EmissionError::OrderingViolation),
            Some(mut e) => {
                let r = e.apply(command);
                self.emission = Some(e);
                match r {
                    Err(error) => Err(error),
                    Ok(request) => {
                        let ghost staged = self.outbound@;
                        self.outbound.push(request);
                        assert(request_views(self.outbound@) =~= request_views(staged).push(
                            request@,
                        ));
                        Ok(())
                    },
                }
            },
        }
    }

    /// Whether a flush is due: whether something was staged that was not
    /// handed out to be written yet. A bind, the client's part of the
    /// handshake, the answer to a ping and every accepted emission call make
    /// one due.
    pub fn flush_due(&self) -> (r: bool)
        ensures
            r == self@.flush_due(),
            r == (self@.outbound.len() > 0),
    {
        assert(self@.outbound.len() == self.outbound@.len());
        self.outbound.len() > 0
    }

    /// Hands out what was staged, oldest first, to be written to the
    /// compositor. Nothing stays staged.
    pub fn take_outbound(&mut self) -> (r: Vec<Request>)
        ensures
            request_views(r@) == old(self)@.outbound,
            old(self)@.sound() ==> final(self)@.sound(),
            final(self)@ == old(self)@.drained(),
    {
        proof {
            if self@.sound() {
                lemma_calls_keep_sound(self@, ReadOutcome::WouldBlock, true, 0, EmissionCommand::StopEmulating { serial: 0 });
            }
        }
        let mut out: Vec<Request> = Vec::new();
        std::mem::swap(&mut out, &mut self.outbound);
        assert(request_views(self.outbound@) =~= Seq::<RequestView>::empty());
        out
    }
}

} // verus!
