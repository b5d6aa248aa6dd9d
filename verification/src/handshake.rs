//! The handshake engine: version, role and interfaces are agreed with the
//! compositor before anything else is said.

use vstd::prelude::*;
use crate::interface::{InterfaceName, InterfaceOffer};
use crate::wire::{ContextRole, DisconnectReason, Request, RequestView, WireEvent, request_views};

verus! {

/// The handshake version that this client speaks.
pub const HANDSHAKE_VERSION: u32 = 1;

/// How far a handshake has come.
#[derive(Clone, Copy, Debug, PartialEq, Eq, Structural)]
pub enum HandshakeState {
    /// Nothing was heard from the compositor yet.
    AwaitingVersion,
    /// The client has made its offer; the compositor answers it.
    NegotiatingInterfaces,
    /// The connection stands.
    Complete,
}

/// Why a handshake failed. Each is fatal for the session.
#[derive(Clone, Copy, Debug, PartialEq, Eq, Structural)]
pub enum HandshakeError {
    /// A handshake message came at a point where it has no place.
    MalformedSequence,
    /// The compositor named a version that cannot be used.
    UnsupportedVersion,
    /// The compositor does not let this client take its role.
    RejectedRole,
}

/// What a finished handshake has settled.
#[derive(Debug)]
pub struct HandshakeResponse {
    /// The serial that the connection starts with.
    pub serial: u32,
    /// The connection object.
    pub connection: u64,
    /// The interfaces that were agreed, each with its version, in the order
    /// in which the compositor named them.
    pub negotiated_interfaces: Vec<InterfaceOffer>,
}

/// What a [`HandshakeResponse`] is, as a value.
pub struct HandshakeResponseView {
    pub serial: u32,
    pub connection: u64,
    pub negotiated: Seq<InterfaceOffer>,
}

impl HandshakeResponseView {
    /// The set of the interfaces that were agreed.
    pub open spec fn interfaces(self) -> Set<InterfaceName> {
        Set::new(|i: InterfaceName| offered_version(self.negotiated, i) is Some)
    }
}

impl View for HandshakeResponse {
    type V = HandshakeResponseView;

    open spec fn view(&self) -> HandshakeResponseView {
        HandshakeResponseView {
            serial: self.serial,
            connection: self.connection,
            negotiated: self.negotiated_interfaces@,
        }
    }
}

impl HandshakeResponse {
    /// Whether `interface` is among the interfaces that were agreed.
    pub fn has_interface(&self, interface: InterfaceName) -> (r: bool)
        ensures
            r == self@.interfaces().contains(interface),
    {
        find_offer(&self.negotiated_interfaces, interface).is_some()
    }

    /// The version at which `interface` was agreed, if it was.
    pub fn version_of(&self, interface: InterfaceName) -> (r: Option<u32>)
        ensures
            r == offered_version(self@.negotiated, interface),
    {
        find_offer(&self.negotiated_interfaces, interface)
    }
}

/// The version under which `interface` stands in `offers`: that of its first
/// entry there.
pub open spec fn offered_version(offers: Seq<InterfaceOffer>, interface: InterfaceName) -> Option<
    u32,
>
    decreases offers.len(),
{
    if offers.len() == 0 {
        None
    } else if offers[0].interface == interface {
        Some(offers[0].version)
    } else {
        offered_version(offers.drop_first(), interface)
    }
}

/// Looks `interface` up in `offers`.
pub fn find_offer(offers: &Vec<InterfaceOffer>, interface: InterfaceName) -> (r: Option<u32>)
    ensures
        r == offered_version(offers@, interface),
{
    let mut i: usize = 0;
    assert(offers@.subrange(0, offers.len() as int) =~= offers@);
    while i < offers.len()
        invariant
            i <= offers.len(),
            offered_version(offers@, interface) == offered_version(
                offers@.subrange(i as int, offers.len() as int),
                interface,
            ),
        decreases offers.len() - i,
    {
        let ghost tail = offers@.subrange(i as int, offers.len() as int);
        assert(tail[0] == offers@[i as int]);
        assert(tail.drop_first() =~= offers@.subrange(i + 1, offers.len() as int));
        if offers[i].interface == interface {
            return Some(offers[i].version);
        }
        i += 1;
    }
    assert(offers@.subrange(i as int, offers.len() as int).len() == 0);
    None
}

/// The message that offers an interface.
pub open spec fn offer_request(o: InterfaceOffer) -> RequestView {
    RequestView::InterfaceVersion { interface: o.interface, version: o.version }
}

/// The messages that offer the interfaces of `offers`, in order.
pub open spec fn offer_requests(offers: Seq<InterfaceOffer>) -> Seq<RequestView> {
    offers.map_values(|o: InterfaceOffer| offer_request(o))
}

/// What the client says when it has heard the compositor's version: its own
/// version, its name, its role, each interface that it offers, and the end
/// of its part.
pub open spec fn hello(name: Seq<char>, role: ContextRole, offers: Seq<InterfaceOffer>) -> Seq<
    RequestView,
> {
    seq![
        RequestView::HandshakeVersion { version: HANDSHAKE_VERSION },
        RequestView::Name { name },
        RequestView::ContextType { role },
    ] + offer_requests(offers) + seq![RequestView::Finish]
}

/// The state of a handshake engine, as a value.
pub struct HandshakeModel {
    pub name: Seq<char>,
    pub role: ContextRole,
    /// The interfaces that the client offers, with the highest version of
    /// each that it speaks.
    pub offers: Seq<InterfaceOffer>,
    pub state: HandshakeState,
    /// The interfaces that the compositor has agreed to so far.
    pub negotiated: Seq<InterfaceOffer>,
}

/// What an event means to a handshake.
pub enum HandshakeVerdict {
    /// The event is none of the handshake's business, or names an interface
    /// that the client did not offer: nothing changes.
    Ignore,
    /// The handshake fails.
    Fail(HandshakeError),
    /// The client makes its offer.
    Offer,
    /// An interface is agreed.
    Agree(InterfaceOffer),
    /// The handshake is complete.
    Finish { connection: u64, serial: u32 },
}

impl HandshakeModel {
    /// The engine before any event.
    pub open spec fn initial(name: Seq<char>, role: ContextRole, offers: Seq<InterfaceOffer>)
        -> HandshakeModel {
        HandshakeModel {
            name,
            role,
            offers,
            state: HandshakeState::AwaitingVersion,
            negotiated: Seq::empty(),
        }
    }

    /// What `event` means in this state.
    pub open spec fn verdict(self, event: WireEvent) -> HandshakeVerdict {
        match event {
            WireEvent::HandshakeVersion { version } => {
                if self.state != HandshakeState::AwaitingVersion {
                    HandshakeVerdict::Fail(HandshakeError::MalformedSequence)
                } else if version < HANDSHAKE_VERSION {
                    HandshakeVerdict::Fail(HandshakeError::UnsupportedVersion)
                } else {
                    HandshakeVerdict::Offer
                }
            },
            WireEvent::InterfaceVersion { name, version } => {
                if self.state != HandshakeState::NegotiatingInterfaces {
                    HandshakeVerdict::Fail(HandshakeError::MalformedSequence)
                } else {
                    match InterfaceName::named(name@) {
                        None => HandshakeVerdict::Ignore,
                        Some(interface) => match offered_version(self.offers, interface) {
                            None => HandshakeVerdict::Ignore,
                            Some(highest) => if version == 0 || version > highest {
                                HandshakeVerdict::Fail(HandshakeError::UnsupportedVersion)
                            } else {
                                HandshakeVerdict::Agree(InterfaceOffer { interface, version })
                            },
                        },
                    }
                }
            },
            WireEvent::Connection { connection, serial } => {
                if self.state != HandshakeState::NegotiatingInterfaces {
                    HandshakeVerdict::Fail(HandshakeError::MalformedSequence)
                } else {
                    HandshakeVerdict::Finish { connection, serial }
                }
            },
            WireEvent::Disconnected { reason, .. } => {
                if self.state == HandshakeState::Complete {
                    HandshakeVerdict::Ignore
                } else if reason == DisconnectReason::Mode {
                    HandshakeVerdict::Fail(HandshakeError::RejectedRole)
                } else {
                    HandshakeVerdict::Fail(HandshakeError::MalformedSequence)
                }
            },
            _ => HandshakeVerdict::Ignore,
        }
    }

    /// The state after `event`. A failure changes nothing.
    pub open spec fn step(self, event: WireEvent) -> HandshakeModel {
        match self.verdict(event) {
            HandshakeVerdict::Ignore => self,
            HandshakeVerdict::Fail(_) => self,
            HandshakeVerdict::Offer => HandshakeModel {
                state: HandshakeState::NegotiatingInterfaces,
                ..self
            },
            HandshakeVerdict::Agree(offer) => HandshakeModel {
                negotiated: self.negotiated.push(offer),
                ..self
            },
            HandshakeVerdict::Finish { .. } => HandshakeModel {
                state: HandshakeState::Complete,
                negotiated: Seq::empty(),
                ..self
            },
        }
    }

    /// What the client sends on `event`.
    pub open spec fn reply(self, event: WireEvent) -> Seq<RequestView> {
        match self.verdict(event) {
            HandshakeVerdict::Offer => hello(self.name, self.role, self.offers),
            _ => Seq::empty(),
        }
    }

    /// What `event` makes the engine return.
    pub open spec fn result(self, event: WireEvent) -> Result<
        Option<HandshakeResponseView>,
        HandshakeError,
    > {
        match self.verdict(event) {
            HandshakeVerdict::Fail(e) => Err(e),
            HandshakeVerdict::Finish { connection, serial } => Ok(
                Some(HandshakeResponseView { serial, connection, negotiated: self.negotiated }),
            ),
            _ => Ok(None),
        }
    }

    /// The state after all of `events`, in order.
    pub open spec fn run(self, events: Seq<WireEvent>) -> HandshakeModel
        decreases events.len(),
    {
        if events.len() == 0 {
            self
        } else {
            self.step(events[0]).run(events.drop_first())
        }
    }

    /// The responses that the engine returns while it is handed `events` in
    /// order.
    pub open spec fn responses(self, events: Seq<WireEvent>) -> Seq<HandshakeResponseView>
        decreases events.len(),
    {
        if events.len() == 0 {
            Seq::empty()
        } else {
            let rest = self.step(events[0]).responses(events.drop_first());
            match self.result(events[0]) {
                Ok(Some(response)) => seq![response] + rest,
                _ => rest,
            }
        }
    }
}

/// The values of what the engine returned.
pub open spec fn result_view(r: Result<Option<HandshakeResponse>, HandshakeError>) -> Result<
    Option<HandshakeResponseView>,
    HandshakeError,
> {
    match r {
        Ok(Some(response)) => Ok(Some(response@)),
        Ok(None) => Ok(None),
        Err(e) => Err(e),
    }
}

/// The handshake engine of one connection.
#[derive(Debug)]
pub struct HandshakeEngine {
    name: String,
    role: ContextRole,
    offers: Vec<InterfaceOffer>,
    state: HandshakeState,
    negotiated: Vec<InterfaceOffer>,
}

impl View for HandshakeEngine {
    type V = HandshakeModel;

    closed spec fn view(&self) -> HandshakeModel {
        HandshakeModel {
            name: self.name@,
            role: self.role,
            offers: self.offers@,
            state: self.state,
            negotiated: self.negotiated@,
        }
    }
}

impl HandshakeEngine {
    /// An engine for a client of the given name and role, which offers the
    /// given interfaces.
    pub fn new(name: String, role: ContextRole, offers: Vec<InterfaceOffer>) -> (r: HandshakeEngine)
        ensures
            r@ == HandshakeModel::initial(name@, role, offers@),
    {
        HandshakeEngine {
            name,
            role,
            offers,
            state: HandshakeState::AwaitingVersion,
            negotiated: Vec::new(),
        }
    }

    /// How far the handshake has come.
    pub fn state(&self) -> (r: HandshakeState)
        ensures
            r == self@.state,
    {
        self.state
    }

    /// Whether the handshake is complete.
    pub fn is_complete(&self) -> (r: bool)
        ensures
            r == (self@.state == HandshakeState::Complete),
    {
        match self.state {
            HandshakeState::Complete => true,
            _ => false,
        }
    }

    /// Stages what the client says when it has heard the compositor's version.
    fn stage_hello(&self, out: &mut Vec<Request>)
        ensures
            request_views(final(out)@) == request_views(old(out)@) + hello(
                self@.name,
                self@.role,
                self@.offers,
            ),
    {
        let ghost before = request_views(out@);
        let ghost head = seq![
            RequestView::HandshakeVersion { version: HANDSHAKE_VERSION },
            RequestView::Name { name: self.name@ },
            RequestView::ContextType { role: self.role },
        ];
        out.push(Request::HandshakeVersion { version: HANDSHAKE_VERSION });
        out.push(Request::Name { name: self.name.clone() });
        out.push(Request::ContextType { role: self.role });
        assert(request_views(out@) =~= before + head);
        let mut i: usize = 0;
        while i < self.offers.len()
            invariant
                i <= self.offers.len(),
                request_views(out@) == before + head + offer_requests(
                    self.offers@.subrange(0, i as int),
                ),
            decreases self.offers.len() - i,
        {
            let offer = self.offers[i];
            let ghost staged = out@;
            let ghost done = self.offers@.subrange(0, i as int);
            out.push(Request::InterfaceVersion { interface: offer.interface, version: offer.version });
            assert(request_views(out@) =~= request_views(staged).push(offer_request(offer)));
            assert(self.offers@.subrange(0, i + 1) =~= done.push(offer));
            assert(offer_requests(done.push(offer)) =~= offer_requests(done).push(
                offer_request(offer),
            ));
            assert((before + head + offer_requests(done)).push(offer_request(offer)) =~= before
                + head + offer_requests(done).push(offer_request(offer)));
            i += 1;
        }
        assert(self.offers@.subrange(0, i as int) =~= self.offers@);
        let ghost staged = out@;
        out.push(Request::Finish);
        assert(request_views(out@) =~= request_views(staged).push(RequestView::Finish));
        assert((before + head + offer_requests(self.offers@)).push(RequestView::Finish) =~= before
            + (head + offer_requests(self.offers@) + seq![RequestView::Finish]));
    }

    /// Hands the engine one decoded message. What the client has to say in
    /// answer is added to `out`; it reaches the compositor with the next
    /// flush. Returns the response when the handshake is complete, nothing
    /// while it goes on, and the error with which it fails. An event that is
    /// no part of a handshake changes nothing.
    pub fn handle_event(&mut self, event: &WireEvent, out: &mut Vec<Request>) -> (r: Result<
        Option<HandshakeResponse>,
        HandshakeError,
    >)
        ensures
            final(self)@ == old(self)@.step(*event),
            result_view(r) == old(self)@.result(*event),
            request_views(final(out)@) == request_views(old(out)@) + old(self)@.reply(*event),
    {
        let ghost before = request_views(out@);
        assert(before + Seq::<RequestView>::empty() =~= before);
        match event {
            WireEvent::HandshakeVersion { version } => {
                match self.state {
                    HandshakeState::AwaitingVersion => {
                        if *version < HANDSHAKE_VERSION {
                            return Err(HandshakeError::UnsupportedVersion);
                        }
                        self.stage_hello(out);
                        self.state = HandshakeState::NegotiatingInterfaces;
                        Ok(None)
                    },
                    _ => Err(HandshakeError::MalformedSequence),
                }
            },
            WireEvent::InterfaceVersion { name, version } => {
                match self.state {
                    HandshakeState::NegotiatingInterfaces => {
                        let interface = match InterfaceName::from_name(name) {
                            None => { return Ok(None); },
                            Some(interface) => interface,
                        };
                        let highest = match find_offer(&self.offers, interface) {
                            None => { return Ok(None); },
                            Some(highest) => highest,
                        };
                        if *version == 0 || *version > highest {
                            return Err(HandshakeError::UnsupportedVersion);
                        }
                        self.negotiated.push(InterfaceOffer { interface, version: *version });
                        Ok(None)
                    },
                    _ => Err(HandshakeError::MalformedSequence),
                }
            },
            WireEvent::Connection { connection, serial } => {
                match self.state {
                    HandshakeState::NegotiatingInterfaces => {
                        let mut negotiated: Vec<InterfaceOffer> = Vec::new();
                        std::mem::swap(&mut negotiated, &mut self.negotiated);
                        self.state = HandshakeState::Complete;
                        Ok(
                            Some(
                                HandshakeResponse {
                                    serial: *serial,
                                    connection: *connection,
                                    negotiated_interfaces: negotiated,
                                },
                            ),
                        )
                    },
                    _ => Err(HandshakeError::MalformedSequence),
                }
            },
            WireEvent::Disconnected { last_serial: _, reason } => {
                match self.state {
                    HandshakeState::Complete => Ok(None),
                    _ => match reason {
                        DisconnectReason::Mode => Err(HandshakeError::RejectedRole),
                        _ => Err(HandshakeError::MalformedSequence),
                    },
                }
            },
            _ => Ok(None),
        }
    }
}

/// How far a state lies along the way of a handshake.
pub open spec fn progress(state: HandshakeState) -> int {
    match state {
        HandshakeState::AwaitingVersion => 0,
        HandshakeState::NegotiatingInterfaces => 1,
        HandshakeState::Complete => 2,
    }
}

/// Whether `event` is one that the compositor may send between the client's
/// offer and the end of the handshake: an agreement to an interface at a
/// version that the client speaks, or a message that is no part of a
/// handshake.
pub open spec fn is_answer(offers: Seq<InterfaceOffer>, event: WireEvent) -> bool {
    match event {
        WireEvent::HandshakeVersion { .. } => false,
        WireEvent::Connection { .. } => false,
        WireEvent::Disconnected { .. } => false,
        WireEvent::InterfaceVersion { name, version } => match InterfaceName::named(name@) {
            None => true,
            Some(interface) => match offered_version(offers, interface) {
                None => true,
                Some(highest) => 1 <= version <= highest,
            },
        },
        _ => true,
    }
}

/// An engine goes forward only, by one state at a time.
pub proof fn lemma_handshake_goes_forward(m: HandshakeModel, events: Seq<WireEvent>)
    ensures
        progress(m.state) <= progress(m.step(events[0]).state) <= progress(m.state) + 1,
        progress(m.state) <= progress(m.run(events).state),
    decreases events.len(),
{
    if events.len() > 0 {
        lemma_handshake_goes_forward(m.step(events[0]), events.drop_first());
    }
}

/// Whatever an engine is handed, it returns at most one response, and none
/// once the handshake is complete.
pub proof fn lemma_at_most_one_response(m: HandshakeModel, events: Seq<WireEvent>)
    ensures
        m.responses(events).len() <= 1,
        m.state == HandshakeState::Complete ==> m.responses(events).len() == 0,
        m.responses(events).len() == 1 ==> m.run(events).state == HandshakeState::Complete,
    decreases events.len(),
{
    if events.len() > 0 {
        let next = m.step(events[0]);
        lemma_at_most_one_response(next, events.drop_first());
        lemma_handshake_goes_forward(next, events.drop_first());
    }
}

/// Events that are answers leave an engine that negotiates in that state,
/// and no response is returned for them.
pub proof fn lemma_answers_keep_negotiating(m: HandshakeModel, answers: Seq<WireEvent>)
    requires
        m.state == HandshakeState::NegotiatingInterfaces,
        forall|i: int| 0 <= i < answers.len() ==> is_answer(m.offers, #[trigger] answers[i]),
    ensures
        m.run(answers).state == HandshakeState::NegotiatingInterfaces,
        m.run(answers).offers == m.offers,
        m.responses(answers).len() == 0,
    decreases answers.len(),
{
    if answers.len() > 0 {
        assert(is_answer(m.offers, answers[0]));
        let rest = answers.drop_first();
        assert forall|i: int| 0 <= i < rest.len() implies is_answer(m.offers, #[trigger] rest[i]) by {
            assert(rest[i] == answers[i + 1]);
        }
        lemma_answers_keep_negotiating(m.step(answers[0]), rest);
    }
}

/// Handing an engine two lists of events one after the other is handing it
/// the one list made of both.
pub proof fn lemma_handshake_run_concat(
    m: HandshakeModel,
    first: Seq<WireEvent>,
    second: Seq<WireEvent>,
)
    ensures
        m.run(first + second) == m.run(first).run(second),
        m.responses(first + second) == m.responses(first) + m.run(first).responses(second),
    decreases first.len(),
{
    if first.len() == 0 {
        assert(first + second =~= second);
        assert(m.responses(first) + m.run(first).responses(second) =~= m.responses(second));
    } else {
        let all = first + second;
        assert(all[0] == first[0]);
        assert(all.drop_first() =~= first.drop_first() + second);
        lemma_handshake_run_concat(m.step(first[0]), first.drop_first(), second);
        let a = m.step(first[0]).responses(first.drop_first());
        let b = m.run(first).responses(second);
        match m.result(first[0]) {
            Ok(Some(response)) => {
                assert(seq![response] + (a + b) =~= (seq![response] + a) + b);
            },
            _ => {},
        }
    }
}

/// A well-formed exchange takes a new engine from awaiting the version
/// through negotiating to complete, each once, and exactly one response is
/// returned: it carries the serial and the connection that the compositor
/// named last, and the interfaces that were agreed. The exchange is the
/// compositor's version, which the client speaks, then answers in any
/// number, then the connection.
pub proof fn lemma_well_formed_exchange(
    name: Seq<char>,
    role: ContextRole,
    offers: Seq<InterfaceOffer>,
    version: u32,
    answers: Seq<WireEvent>,
    connection: u64,
    serial: u32,
)
    requires
        version >= HANDSHAKE_VERSION,
        forall|i: int| 0 <= i < answers.len() ==> is_answer(offers, #[trigger] answers[i]),
    ensures
        ({
            let start = HandshakeModel::initial(name, role, offers);
            let opening = WireEvent::HandshakeVersion { version };
            let closing = WireEvent::Connection { connection, serial };
            let exchange = seq![opening] + answers + seq![closing];
            let offered = start.step(opening);
            let agreed = offered.run(answers);
            &&& start.state == HandshakeState::AwaitingVersion
            &&& start.reply(opening) == hello(name, role, offers)
            &&& offered.state == HandshakeState::NegotiatingInterfaces
            &&& agreed.state == HandshakeState::NegotiatingInterfaces
            &&& start.run(exchange).state == HandshakeState::Complete
            &&& start.responses(exchange) == seq![
                HandshakeResponseView { serial, connection, negotiated: agreed.negotiated },
            ]
        }),
{
    let start = HandshakeModel::initial(name, role, offers);
    let opening = WireEvent::HandshakeVersion { version };
    let closing = WireEvent::Connection { connection, serial };
    let offered = start.step(opening);
    let agreed = offered.run(answers);
    lemma_answers_keep_negotiating(offered, answers);
    lemma_handshake_run_concat(start, seq![opening], answers + seq![closing]);
    lemma_handshake_run_concat(offered, answers, seq![closing]);
    assert(seq![opening] + answers + seq![closing] =~= seq![opening] + (answers + seq![closing]));
    assert(seq![opening].drop_first() =~= Seq::<WireEvent>::empty());
    assert(seq![closing].drop_first() =~= Seq::<WireEvent>::empty());
    assert(start.run(seq![opening]) == offered) by {
        assert(seq![opening][0] == opening);
        assert(offered.run(Seq::<WireEvent>::empty()) == offered);
    }
    assert(start.responses(seq![opening]) =~= Seq::<HandshakeResponseView>::empty()) by {
        assert(seq![opening][0] == opening);
        assert(offered.responses(Seq::<WireEvent>::empty()) =~= Seq::<HandshakeResponseView>::empty());
    }
    let done = agreed.step(closing);
    assert(agreed.run(seq![closing]) == done) by {
        assert(seq![closing][0] == closing);
        assert(done.run(Seq::<WireEvent>::empty()) == done);
    }
    let response = HandshakeResponseView { serial, connection, negotiated: agreed.negotiated };
    assert(agreed.responses(seq![closing]) =~= seq![response]) by {
        assert(seq![closing][0] == closing);
        assert(done.responses(Seq::<WireEvent>::empty()) =~= Seq::<HandshakeResponseView>::empty());
    }
    assert(offered.responses(answers) =~= Seq::<HandshakeResponseView>::empty());
}

} // verus!
