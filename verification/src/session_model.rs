//! The state of a whole session, as a value, and what each thing that
//! happens to a session does to it.

use vstd::prelude::*;
use crate::capability::{Capability, CapabilitySet};
use crate::emission::{EmissionCommand, EmissionError, EmissionModel, EmissionState};
use crate::handshake::{HandshakeError, HandshakeModel};
use crate::interface::InterfaceOffer;
use crate::registry_model::{
    ConverterError,
    LifecycleEvent,
    RegistryModel,
    added_before,
    lemma_calls_keep_consistent,
    lemma_history_grows,
    lemma_initial_is_consistent,
    lemma_one_event_at_most,
    lemma_step_keeps_consistent,
};
use crate::wire::{PendingEvent, ReadOutcome, RequestView, WireEvent};

verus! {

/// Why a session ended.
#[derive(Clone, Copy, Debug, PartialEq, Eq, Structural)]
pub enum SessionError {
    /// A read or a flush failed.
    Transport,
    /// The handshake failed.
    Handshake(HandshakeError),
    /// The handshake did not complete in its time.
    HandshakeTimeout,
    /// No device with absolute pointer motion was ready in time.
    DiscoveryTimeout,
    /// More messages could not be decoded or broke the protocol than the
    /// caller puts up with.
    TooManyIssues,
}

/// Where a session stands.
#[derive(Clone, Copy, Debug, PartialEq, Eq, Structural)]
pub enum Phase {
    /// The handshake goes on.
    Handshake,
    /// The connection stands; no device is ready yet.
    Discovery,
    /// A device is ready; input may be sent.
    Ready,
    /// The session has ended on an error. Nothing that happens changes it.
    Failed(SessionError),
}

/// The state of a session, as a value.
#[verifier::ext_equal]
pub struct SessionModel {
    /// The capabilities that are bound on every seat.
    pub wanted: CapabilitySet,
    /// The time that the handshake may take.
    pub handshake_timeout: u64,
    /// The time that it may take until a device is ready.
    pub discovery_timeout: u64,
    /// The number of issues that the caller puts up with.
    pub issue_limit: u32,
    pub phase: Phase,
    /// The time at which the phase began.
    pub since: u64,
    pub handshake: HandshakeModel,
    pub registry: RegistryModel,
    /// The emission session of the device that is ready.
    pub emission: Option<EmissionModel>,
    /// The serial of the resumption that made the session ready.
    pub start_serial: u32,
    /// The device with absolute pointer motion that was announced last and
    /// is not gone.
    pub candidate: Option<u64>,
    /// What was staged and not flushed yet, oldest first.
    pub outbound: Seq<RequestView>,
    /// The messages so far that could not be decoded or broke the protocol.
    pub issues: u32,
    /// The last violation of the protocol that the registry met.
    pub last_violation: Option<ConverterError>,
    /// The interfaces that the handshake has settled, with their versions.
    pub negotiated: Seq<InterfaceOffer>,
}

impl SessionModel {
    /// The session of a client that starts at the time `now`.
    pub open spec fn initial(
        handshake: HandshakeModel,
        wanted: CapabilitySet,
        handshake_timeout: u64,
        discovery_timeout: u64,
        issue_limit: u32,
        now: u64,
    ) -> SessionModel {
        SessionModel {
            wanted,
            handshake_timeout,
            discovery_timeout,
            issue_limit,
            phase: Phase::Handshake,
            since: now,
            handshake,
            registry: RegistryModel::initial(0),
            emission: None,
            start_serial: 0,
            candidate: None,
            outbound: Seq::empty(),
            issues: 0,
            last_violation: None,
            negotiated: Seq::empty(),
        }
    }

    /// Whether the session still goes on.
    pub open spec fn is_live(self) -> bool {
        !(self.phase is Failed)
    }

    /// The session ended on `error`.
    pub open spec fn fail(self, error: SessionError) -> SessionModel {
        SessionModel { phase: Phase::Failed(error), ..self }
    }

    /// The time since the phase began, at the time `now`.
    pub open spec fn elapsed(self, now: u64) -> int {
        if now >= self.since {
            now - self.since
        } else {
            0
        }
    }

    /// The state after a read that came to `outcome`. Only a failure changes
    /// anything.
    pub open spec fn read(self, outcome: ReadOutcome) -> SessionModel {
        if self.is_live() && outcome == ReadOutcome::Failed {
            self.fail(SessionError::Transport)
        } else {
            self
        }
    }

    /// The state after a flush; `ok` says whether it went through.
    pub open spec fn flushed(self, ok: bool) -> SessionModel {
        if self.is_live() && !ok {
            self.fail(SessionError::Transport)
        } else {
            self
        }
    }

    /// The state at the time `now`: a phase that has taken its time or more
    /// ends the session.
    pub open spec fn tick(self, now: u64) -> SessionModel {
        if self.phase == Phase::Handshake && self.elapsed(now) >= self.handshake_timeout {
            self.fail(SessionError::HandshakeTimeout)
        } else if self.phase == Phase::Discovery && self.elapsed(now) >= self.discovery_timeout {
            self.fail(SessionError::DiscoveryTimeout)
        } else {
            self
        }
    }

    /// The state after one more issue: the session ends when there are more
    /// than the caller puts up with.
    pub open spec fn issue(self) -> SessionModel {
        let issues = if self.issues < u32::MAX {
            (self.issues + 1) as u32
        } else {
            self.issues
        };
        let counted = SessionModel { issues, ..self };
        if issues > self.issue_limit {
            counted.fail(SessionError::TooManyIssues)
        } else {
            counted
        }
    }

    /// The emission session with which `device` may be driven: none unless
    /// the device is known, its seat is known, and absolute pointer motion
    /// is among the capabilities that were bound on that seat.
    pub open spec fn emission_for(self, device: u64) -> Option<EmissionModel> {
        if self.registry.devices.contains_key(device) && self.registry.bound_on(
            self.registry.devices[device].seat,
        ) is Some {
            EmissionModel::opened(
                self.registry.devices[device],
                self.registry.bound_on(self.registry.devices[device].seat).unwrap(),
            )
        } else {
            None
        }
    }

    /// Whether `device` is known and has absolute pointer motion.
    pub open spec fn is_absolute(self, device: u64) -> bool {
        self.registry.devices.contains_key(device) && self.registry.devices[device].has_capability(
            Capability::PointerAbsolute,
        )
    }

    /// What the session does on an event of the registry: on a new seat
    /// the wanted capabilities are bound; a new device with absolute pointer
    /// motion is the candidate until it is gone; the first device with
    /// absolute pointer motion that is resumed makes the session ready.
    pub open spec fn digest(self, event: LifecycleEvent) -> SessionModel {
        match event {
            LifecycleEvent::DeviceAdded { device } => {
                if self.is_absolute(device) {
                    SessionModel { candidate: Some(device), ..self }
                } else {
                    self
                }
            },
            LifecycleEvent::DeviceRemoved { device } => {
                if self.candidate == Some(device) {
                    SessionModel { candidate: None, ..self }
                } else {
                    self
                }
            },
            LifecycleEvent::SeatAdded { seat } => SessionModel {
                registry: self.registry.bind(seat, self.wanted),
                outbound: self.outbound + self.registry.bind_request(seat, self.wanted),
                ..self
            },
            LifecycleEvent::DeviceResumed { device, serial } => {
                if self.phase == Phase::Discovery && self.emission_for(device) is Some {
                    SessionModel {
                        phase: Phase::Ready,
                        emission: self.emission_for(device),
                        start_serial: serial,
                        ..self
                    }
                } else {
                    self
                }
            },
            _ => self,
        }
    }

    /// This state with the oldest event of the registry taken.
    pub open spec fn taken(self) -> SessionModel {
        SessionModel { registry: self.registry.taken(), ..self }
    }

    /// The state after every event that waits in the registry was taken and
    /// digested, oldest first.
    pub open spec fn settle(self) -> SessionModel
        decreases self.registry.queue.len(),
    {
        if self.registry.queue.len() == 0 {
            self
        } else {
            self.taken().digest(self.registry.queue[0]).settle()
        }
    }

    /// The state after a decoded message in the handshake phase.
    pub open spec fn shake_hands(self, event: WireEvent, now: u64) -> SessionModel {
        match self.handshake.result(event) {
            Err(e) => self.fail(SessionError::Handshake(e)),
            Ok(None) => SessionModel {
                handshake: self.handshake.step(event),
                outbound: self.outbound + self.handshake.reply(event),
                ..self
            },
            Ok(Some(response)) => SessionModel {
                handshake: self.handshake.step(event),
                outbound: self.outbound + self.handshake.reply(event),
                registry: RegistryModel::initial(response.serial),
                negotiated: response.negotiated,
                phase: Phase::Discovery,
                since: now,
                ..self
            },
        }
    }

    /// The state after a decoded message once the connection stands.
    pub open spec fn register(self, event: WireEvent) -> SessionModel {
        match self.registry.handle(event) {
            Err(e) => SessionModel { last_violation: Some(e), ..self.issue() }.settle(),
            Ok(next) => SessionModel {
                registry: next,
                outbound: self.outbound + self.registry.reply(event),
                ..self
            }.settle(),
        }
    }

    /// The state after the codec handed out `event` at the time `now`. In
    /// the handshake phase a message goes to the handshake engine and to
    /// nothing else; afterwards it goes to the registry. A message that
    /// could not be decoded counts as an issue and is skipped.
    pub open spec fn pending(self, event: PendingEvent, now: u64) -> SessionModel {
        if !self.is_live() {
            self
        } else {
            match event {
                PendingEvent::ParseError(_) => self.issue(),
                PendingEvent::InvalidObject(_) => self.issue(),
                PendingEvent::Request(message) => if self.phase == Phase::Handshake {
                    self.shake_hands(message, now)
                } else {
                    self.register(message)
                },
            }
        }
    }

    /// What a message stages once the connection stands: the answer to a
    /// ping, and, for the message that ends the description of a seat, the
    /// request that binds the wanted capabilities on that seat. No other
    /// message stages anything.
    pub open spec fn staged_by(self, message: WireEvent) -> Seq<RequestView> {
        match message {
            WireEvent::Ping { ping } => seq![RequestView::Pong { ping }],
            WireEvent::SeatDone { seat } => if self.registry.pending_seats.contains_key(seat) {
                seq![
                    RequestView::Bind {
                        seat,
                        mask: self.registry.pending_seats[seat].masks.selected(self.wanted),
                    },
                ]
            } else {
                Seq::empty()
            },
            _ => Seq::empty(),
        }
    }

    /// The events of the registry that `event` leads to, oldest first.
    pub open spec fn reported(self, event: PendingEvent) -> Seq<LifecycleEvent> {
        match event {
            PendingEvent::Request(message) => if self.phase == Phase::Discovery || self.phase
                == Phase::Ready {
                self.registry.step(message).queue
            } else {
                Seq::empty()
            },
            _ => Seq::empty(),
        }
    }

    /// The error with which an emission call is refused, if it is: outside
    /// the ready phase every call is an ordering violation.
    pub open spec fn refusal(self, command: EmissionCommand) -> Option<EmissionError> {
        if self.phase == Phase::Ready && self.emission is Some {
            self.emission.unwrap().refusal(command)
        } else {
            Some(EmissionError::OrderingViolation)
        }
    }

    /// The state after an emission call: a refused call changes nothing, an
    /// accepted one stages its message.
    pub open spec fn emit(self, command: EmissionCommand) -> SessionModel {
        if self.refusal(command) is Some {
            self
        } else {
            SessionModel {
                emission: Some(self.emission.unwrap().after(command)),
                outbound: self.outbound.push(self.emission.unwrap().message(command)),
                ..self
            }
        }
    }

    /// Whether a flush is due: something was staged and not handed out to
    /// be written yet.
    pub open spec fn flush_due(self) -> bool {
        self.outbound.len() > 0
    }

    /// The state after what was staged was handed out to be written.
    pub open spec fn drained(self) -> SessionModel {
        SessionModel { outbound: Seq::empty(), ..self }
    }

    /// What holds of a session in every state that it can reach: its
    /// registry is consistent, no event waits in it, and the session is
    /// ready exactly while it has an emission session, which is that of a
    /// device that was announced.
    pub open spec fn sound(self) -> bool {
        &&& self.registry.consistent()
        &&& self.registry.queue.len() == 0
        &&& self.phase == Phase::Handshake ==> self.emission is None
        &&& self.phase == Phase::Discovery ==> self.emission is None
        &&& self.phase == Phase::Ready ==> self.emission is Some
        &&& self.emission matches Some(e) ==> added_before(
            self.registry.history,
            e.device,
            self.registry.history.len() as int,
        )
    }

    /// The state after reads that came to `outcomes`, in order.
    pub open spec fn reads(self, outcomes: Seq<ReadOutcome>) -> SessionModel
        decreases outcomes.len(),
    {
        if outcomes.len() == 0 {
            self
        } else {
            self.read(outcomes[0]).reads(outcomes.drop_first())
        }
    }
}

/// Reads that would block, however many, change nothing: the session is in
/// the state in which it was, and nothing was staged or reported.
pub proof fn lemma_would_block_changes_nothing(m: SessionModel, outcomes: Seq<ReadOutcome>)
    requires
        forall|i: int| 0 <= i < outcomes.len() ==> outcomes[i] == ReadOutcome::WouldBlock,
    ensures
        m.reads(outcomes) == m,
    decreases outcomes.len(),
{
    if outcomes.len() > 0 {
        assert(outcomes[0] == ReadOutcome::WouldBlock);
        let rest = outcomes.drop_first();
        assert forall|i: int| 0 <= i < rest.len() implies rest[i] == ReadOutcome::WouldBlock by {
            assert(rest[i] == outcomes[i + 1]);
        }
        lemma_would_block_changes_nothing(m, rest);
    }
}

/// A discovery that has taken its time ends the session with a discovery
/// timeout, and a handshake with a handshake timeout; before that the time
/// changes nothing.
pub proof fn lemma_timeouts(m: SessionModel, now: u64)
    ensures
        m.phase == Phase::Discovery && m.elapsed(now) >= m.discovery_timeout ==> m.tick(now).phase
            == Phase::Failed(SessionError::DiscoveryTimeout),
        m.phase == Phase::Discovery && m.elapsed(now) < m.discovery_timeout ==> m.tick(now) == m,
        m.phase == Phase::Handshake && m.elapsed(now) >= m.handshake_timeout ==> m.tick(now).phase
            == Phase::Failed(SessionError::HandshakeTimeout),
        m.phase == Phase::Handshake && m.elapsed(now) < m.handshake_timeout ==> m.tick(now) == m,
        m.phase == Phase::Ready || m.phase is Failed ==> m.tick(now) == m,
        m.tick(now).outbound == m.outbound,
{
}

/// Outside the ready phase no emission call is accepted and none stages
/// anything: neither before a device is ready nor after the session has
/// ended, on a timeout or otherwise.
pub proof fn lemma_no_emission_unless_ready(m: SessionModel, command: EmissionCommand)
    requires
        m.phase != Phase::Ready,
    ensures
        m.refusal(command) == Some(EmissionError::OrderingViolation),
        m.emit(command) == m,
{
}

/// A resumption makes a session ready only for a device that is known and
/// has absolute pointer motion, on whose seat that capability was bound;
/// the session starts with the serial of the resumption, and it drives
/// buttons only if they were bound too.
pub proof fn lemma_ready_needs_bind(m: SessionModel, device: u64, serial: u32)
    requires
        m.phase != Phase::Ready,
        m.digest(LifecycleEvent::DeviceResumed { device, serial }).phase == Phase::Ready,
    ensures
        ({
            let next = m.digest(LifecycleEvent::DeviceResumed { device, serial });
            &&& m.phase == Phase::Discovery
            &&& m.registry.devices.contains_key(device)
            &&& m.registry.devices[device].has_capability(Capability::PointerAbsolute)
            &&& m.registry.bound_on(m.registry.devices[device].seat) matches Some(bound)
                && bound.has(Capability::PointerAbsolute) && (next.emission.unwrap().button is Some
                ==> bound.has(Capability::Button))
            &&& next.start_serial == serial
            &&& next.emission.unwrap().state == EmissionState::Idle
        }),
{
}

/// Whatever is staged makes a flush due, and stays due until it is handed
/// out to be written: an accepted emission call makes one due, a refused one
/// changes nothing, and handing out what was staged leaves none due.
pub proof fn lemma_staging_makes_flush_due(m: SessionModel, command: EmissionCommand)
    ensures
        m.refusal(command) is None ==> m.emit(command).flush_due(),
        m.refusal(command) is Some ==> m.emit(command).flush_due() == m.flush_due(),
        !m.drained().flush_due(),
{
}

/// A session that has ended stays as it is, whatever happens.
pub proof fn lemma_failed_is_final(
    m: SessionModel,
    outcome: ReadOutcome,
    ok: bool,
    now: u64,
    event: PendingEvent,
    command: EmissionCommand,
)
    requires
        m.phase is Failed,
    ensures
        m.read(outcome) == m,
        m.flushed(ok) == m,
        m.tick(now) == m,
        m.pending(event, now) == m,
        m.emit(command) == m,
{
}

/// While the handshake goes on, nothing reaches the registry: a message
/// leaves the registry as it is, or completes the handshake, and then the
/// registry is a new one that starts with the serial of the response.
pub proof fn lemma_handshake_keeps_registry(m: SessionModel, event: PendingEvent, now: u64)
    requires
        m.phase == Phase::Handshake,
    ensures
        m.reported(event).len() == 0,
        m.pending(event, now).registry == m.registry || (event matches PendingEvent::Request(
            message,
        ) && m.handshake.result(message) matches Ok(Some(response)) && m.pending(event, now).phase
            == Phase::Discovery && m.pending(event, now).registry == RegistryModel::initial(
            response.serial,
        )),
        m.pending(event, now).phase == Phase::Discovery ==> m.pending(event, now).since == now,
{
}

/// Digesting what waits in a consistent registry leaves the session sound,
/// and the history as it is.
proof fn lemma_settle_keeps_sound(m: SessionModel)
    requires
        m.registry.consistent(),
        m.phase == Phase::Handshake ==> m.emission is None,
        m.phase == Phase::Discovery ==> m.emission is None,
        m.phase == Phase::Ready ==> m.emission is Some,
        m.emission matches Some(e) ==> added_before(
            m.registry.history,
            e.device,
            m.registry.history.len() as int,
        ),
    ensures
        m.settle().sound(),
        m.settle().registry.history == m.registry.history,
    decreases m.registry.queue.len(),
{
    if m.registry.queue.len() > 0 {
        let event = m.registry.queue[0];
        let t = m.taken();
        lemma_calls_keep_consistent(m.registry, 0, m.wanted);
        let d = t.digest(event);
        match event {
            LifecycleEvent::SeatAdded { seat } => {
                lemma_calls_keep_consistent(t.registry, seat, m.wanted);
            },
            _ => {},
        }
        lemma_settle_keeps_sound(d);
    }
}

/// Whatever the codec hands out, a sound session stays sound: no device is
/// driven that was not announced, and the session is ready exactly while it
/// has a device to drive.
pub proof fn lemma_pending_keeps_sound(m: SessionModel, event: PendingEvent, now: u64)
    requires
        m.sound(),
    ensures
        m.pending(event, now).sound(),
{
    if m.is_live() {
        match event {
            PendingEvent::Request(message) => {
                if m.phase == Phase::Handshake {
                    match m.handshake.result(message) {
                        Ok(Some(response)) => {
                            lemma_initial_is_consistent(response.serial);
                        },
                        _ => {},
                    }
                } else {
                    lemma_step_keeps_consistent(m.registry, message);
                    lemma_history_grows(m.registry, message);
                    match m.registry.handle(message) {
                        Err(e) => {
                            lemma_settle_keeps_sound(
                                SessionModel { last_violation: Some(e), ..m.issue() },
                            );
                        },
                        Ok(next) => {
                            let stepped = SessionModel {
                                registry: next,
                                outbound: m.outbound + m.registry.reply(message),
                                ..m
                            };
                            if let Some(e) = m.emission {
                                assert(added_before(
                                    m.registry.history,
                                    e.device,
                                    m.registry.history.len() as int,
                                ));
                                let i = choose|i: int|
                                    0 <= i < m.registry.history.len()
                                        && #[trigger] next.history[i] == (
                                    LifecycleEvent::DeviceAdded { device: e.device });
                                assert(0 <= i < next.history.len());
                            }
                            lemma_settle_keeps_sound(stepped);
                        },
                    }
                }
            },
            _ => {},
        }
    }
}

/// Every other thing that happens to a sound session leaves it sound, and
/// a new session is sound.
pub proof fn lemma_calls_keep_sound(
    m: SessionModel,
    outcome: ReadOutcome,
    ok: bool,
    now: u64,
    command: EmissionCommand,
)
    requires
        m.sound(),
    ensures
        m.read(outcome).sound(),
        m.flushed(ok).sound(),
        m.tick(now).sound(),
        m.emit(command).sound(),
        m.drained().sound(),
        SessionModel::initial(
            m.handshake,
            m.wanted,
            m.handshake_timeout,
            m.discovery_timeout,
            m.issue_limit,
            now,
        ).sound(),
{
    lemma_initial_is_consistent(0);
}

/// Once the connection stands, each seat that is added has the wanted
/// capabilities bound on it, by one request, each time: a message leads to
/// one event at most; where that event is the addition of a seat, one bind
/// for that seat is staged with the bits of the wanted capabilities, and the
/// set counts as bound on the seat; a device that is added, and every other
/// event, stages no bind.
pub proof fn lemma_each_seat_added_binds(m: SessionModel, message: WireEvent, now: u64, seat: u64)
    requires
        m.sound(),
        m.phase == Phase::Discovery || m.phase == Phase::Ready,
    ensures
        ({
            let next = m.pending(PendingEvent::Request(message), now);
            let seen = m.reported(PendingEvent::Request(message));
            &&& seen.len() <= 1
            &&& seen == m.registry.announced(message)
            &&& next.outbound == m.outbound + m.staged_by(message)
            &&& seen == seq![LifecycleEvent::SeatAdded { seat }] <==> message == (
            WireEvent::SeatDone { seat }) && m.registry.pending_seats.contains_key(seat)
            &&& seen == seq![LifecycleEvent::SeatAdded { seat }] ==> m.staged_by(message) == seq![
                RequestView::Bind {
                    seat,
                    mask: next.registry.seats[seat].masks.selected(m.wanted),
                },
            ] && next.registry.bound_on(seat) == Some(m.wanted) && next.flush_due()
        }),
{
    let next = m.pending(PendingEvent::Request(message), now);
    let seen = m.reported(PendingEvent::Request(message));
    let stepped_registry = m.registry.step(message);
    lemma_one_event_at_most(m.registry, message, seat);
    match message {
        WireEvent::SeatDone { seat: other } => {
            lemma_one_event_at_most(m.registry, message, other);
        },
        _ => {},
    }
    assert(seen =~= m.registry.announced(message)) by {
        assert(m.registry.queue + m.registry.announced(message) =~= m.registry.announced(message));
    }
    let before = match m.registry.handle(message) {
        Err(e) => SessionModel { last_violation: Some(e), ..m.issue() },
        Ok(after) => SessionModel {
            registry: after,
            outbound: m.outbound + m.registry.reply(message),
            ..m
        },
    };
    assert(next == before.settle());
    assert(before.registry == stepped_registry);
    assert(before.registry.queue == seen);
    if seen.len() == 0 {
        assert(before.settle() == before);
        assert(m.outbound + Seq::<RequestView>::empty() =~= m.outbound);
        assert(seq![LifecycleEvent::SeatAdded { seat }].len() == 1);
    } else {
        let event = seen[0];
        let digested = before.taken().digest(event);
        assert(before.taken().registry.queue =~= Seq::<LifecycleEvent>::empty());
        assert(digested.registry.queue.len() == 0);
        assert(digested.settle() == digested);
        assert(next == digested);
        assert(seen =~= seq![event]);
        match event {
            LifecycleEvent::SeatAdded { seat: added } => {
                lemma_one_event_at_most(m.registry, message, added);
                assert(message == (WireEvent::SeatDone { seat: added }));
                assert(m.outbound + Seq::<RequestView>::empty() =~= m.outbound);
                assert(before.taken().registry.seats.contains_key(added));
                assert(digested.registry.seats[added] == m.registry.pending_seats[added]);
            },
            _ => {
                assert(m.staged_by(message) =~= m.registry.reply(message)) by {
                    match message {
                        WireEvent::SeatDone { seat: other } => {
                            if m.registry.pending_seats.contains_key(other) {
                                assert(seen == seq![LifecycleEvent::SeatAdded { seat: other }]);
                            }
                        },
                        _ => {},
                    }
                }
                assert(digested.outbound == before.outbound);
                assert(seq![LifecycleEvent::SeatAdded { seat }][0] != event);
            },
        }
    }
}

} // verus!
