//! The emission session of one device: the bracket in which input may be
//! sent, and the order of the serials under which it is committed.

use vstd::prelude::*;
use crate::capability::CapabilitySet;
use crate::device::{Device, DeviceView};
use crate::wire::{ButtonState, Request, RequestView};

verus! {

/// Whether a device's emulation bracket is open.
#[derive(Clone, Copy, Debug, PartialEq, Eq, Structural)]
pub enum EmissionState {
    Idle,
    Emulating,
}

/// Why an emission call was refused.
#[derive(Clone, Copy, Debug, PartialEq, Eq, Structural)]
pub enum EmissionError {
    /// The call came outside the bracket that it needs, or with a serial or
    /// a sequence that does not go forward.
    OrderingViolation,
    /// The device has no button capability.
    NoButton,
}

/// One call on an emission session.
#[derive(Clone, Copy, Debug, PartialEq, Eq, Structural)]
pub enum EmissionCommand {
    StartEmulating { serial: u32, sequence: u32 },
    MotionAbsolute { x: i64, y: i64 },
    Button { code: u32, state: ButtonState },
    Frame { serial: u32, timestamp: u64 },
    StopEmulating { serial: u32 },
}

/// The state of an emission session, as a value.
pub struct EmissionModel {
    pub device: u64,
    /// The object that takes absolute motion.
    pub pointer: u64,
    /// The object that takes buttons, where the device has one.
    pub button: Option<u64>,
    pub state: EmissionState,
    /// The serial of the last call that carried one.
    pub last_serial: Option<u32>,
    /// The sequence of the last bracket that was opened.
    pub last_sequence: Option<u32>,
    /// How many frames were committed; the count stops at the largest value
    /// that it can hold.
    pub frames: u64,
}

impl EmissionModel {
    /// The session of a device before any call.
    pub open spec fn initial(device: u64, pointer: u64, button: Option<u64>) -> EmissionModel {
        EmissionModel {
            device,
            pointer,
            button,
            state: EmissionState::Idle,
            last_serial: None,
            last_sequence: None,
            frames: 0,
        }
    }

    /// The session with which `device` may be driven, where `bound` holds
    /// the capabilities that were bound on its seat: none unless the device
    /// has absolute pointer motion and that capability was bound. Buttons
    /// are driven only if they were bound too.
    pub open spec fn opened(device: DeviceView, bound: CapabilitySet) -> Option<EmissionModel> {
        match device.interfaces.pointer_absolute {
            Some(pointer) if bound.pointer_absolute => Some(
                EmissionModel::initial(
                    device.id,
                    pointer,
                    if bound.button {
                        device.interfaces.button
                    } else {
                        None
                    },
                ),
            ),
            _ => None,
        }
    }

    /// Whether `serial` lies behind the last serial used.
    pub open spec fn is_behind(self, serial: u32) -> bool {
        self.last_serial matches Some(last) && serial < last
    }

    /// Whether `serial` does not exceed the last serial used.
    pub open spec fn is_stale(self, serial: u32) -> bool {
        self.last_serial matches Some(last) && serial <= last
    }

    /// Whether `sequence` does not exceed the sequence of the last bracket.
    pub open spec fn is_used_sequence(self, sequence: u32) -> bool {
        self.last_sequence matches Some(last) && sequence <= last
    }

    /// The error with which `command` is refused in this state, if it is.
    pub open spec fn refusal(self, command: EmissionCommand) -> Option<EmissionError> {
        match command {
            EmissionCommand::StartEmulating { serial, sequence } => {
                if self.state != EmissionState::Idle || self.is_behind(serial)
                    || self.is_used_sequence(sequence) {
                    Some(EmissionError::OrderingViolation)
                } else {
                    None
                }
            },
            EmissionCommand::MotionAbsolute { .. } => {
                if self.state != EmissionState::Emulating {
                    Some(EmissionError::OrderingViolation)
                } else {
                    None
                }
            },
            EmissionCommand::Button { .. } => {
                if self.state != EmissionState::Emulating {
                    Some(EmissionError::OrderingViolation)
                } else if self.button is None {
                    Some(EmissionError::NoButton)
                } else {
                    None
                }
            },
            EmissionCommand::Frame { serial, .. } => {
                if self.state != EmissionState::Emulating || self.is_stale(serial) {
                    Some(EmissionError::OrderingViolation)
                } else {
                    None
                }
            },
            EmissionCommand::StopEmulating { serial } => {
                if self.state != EmissionState::Emulating || self.is_behind(serial) {
                    Some(EmissionError::OrderingViolation)
                } else {
                    None
                }
            },
        }
    }

    /// The state after `command` was accepted.
    pub open spec fn after(self, command: EmissionCommand) -> EmissionModel {
        match command {
            EmissionCommand::StartEmulating { serial, sequence } => EmissionModel {
                state: EmissionState::Emulating,
                last_serial: Some(serial),
                last_sequence: Some(sequence),
                ..self
            },
            EmissionCommand::MotionAbsolute { .. } => self,
            EmissionCommand::Button { .. } => self,
            EmissionCommand::Frame { serial, .. } => EmissionModel {
                last_serial: Some(serial),
                frames: if self.frames < u64::MAX {
                    (self.frames + 1) as u64
                } else {
                    self.frames
                },
                ..self
            },
            EmissionCommand::StopEmulating { serial } => EmissionModel {
                state: EmissionState::Idle,
                last_serial: Some(serial),
                ..self
            },
        }
    }

    /// The state after `command` was issued: unchanged where it was refused.
    pub open spec fn step(self, command: EmissionCommand) -> EmissionModel {
        if self.refusal(command) is Some {
            self
        } else {
            self.after(command)
        }
    }

    /// The message that an accepted `command` stages.
    pub open spec fn message(self, command: EmissionCommand) -> RequestView {
        match command {
            EmissionCommand::StartEmulating { serial, sequence } => RequestView::StartEmulating {
                device: self.device,
                serial,
                sequence,
            },
            EmissionCommand::MotionAbsolute { x, y } => RequestView::MotionAbsolute {
                object: self.pointer,
                x,
                y,
            },
            EmissionCommand::Button { code, state } => RequestView::Button {
                object: self.button.unwrap(),
                button: code,
                state,
            },
            EmissionCommand::Frame { serial, timestamp } => RequestView::Frame {
                device: self.device,
                serial,
                timestamp,
            },
            EmissionCommand::StopEmulating { serial } => RequestView::StopEmulating {
                device: self.device,
                serial,
            },
        }
    }

    /// How the result of a call and the state after it follow from the state
    /// before it: a refused call gives its error and changes nothing, an
    /// accepted one gives the message to stage.
    pub open spec fn yields(
        self,
        command: EmissionCommand,
        r: Result<Request, EmissionError>,
        after: EmissionModel,
    ) -> bool {
        match self.refusal(command) {
            Some(e) => r == Err::<Request, EmissionError>(e) && after == self,
            None => r matches Ok(request) && request@ == self.message(command)
                && after == self.after(command),
        }
    }

    /// The state after all of `commands` were issued in order.
    pub open spec fn run(self, commands: Seq<EmissionCommand>) -> EmissionModel
        decreases commands.len(),
    {
        if commands.len() == 0 {
            self
        } else {
            self.step(commands[0]).run(commands.drop_first())
        }
    }

    /// Whether each of `commands`, issued in order, is accepted.
    pub open spec fn accepts(self, commands: Seq<EmissionCommand>) -> bool
        decreases commands.len(),
    {
        commands.len() == 0 || (self.refusal(commands[0]) is None && self.after(
            commands[0],
        ).accepts(commands.drop_first()))
    }

    /// The serials of the frames that are committed when `commands` are
    /// issued in order, refused calls left out.
    pub open spec fn committed(self, commands: Seq<EmissionCommand>) -> Seq<u32>
        decreases commands.len(),
    {
        if commands.len() == 0 {
            Seq::empty()
        } else {
            let rest = self.step(commands[0]).committed(commands.drop_first());
            match commands[0] {
                EmissionCommand::Frame { serial, .. } => if self.refusal(commands[0]) is None {
                    seq![serial] + rest
                } else {
                    rest
                },
                _ => rest,
            }
        }
    }
}

/// The emission session of one device with absolute pointer motion.
#[derive(Debug)]
pub struct EmissionSession {
    device: u64,
    pointer: u64,
    button: Option<u64>,
    state: EmissionState,
    last_serial: Option<u32>,
    last_sequence: Option<u32>,
    frames: u64,
}

impl View for EmissionSession {
    type V = EmissionModel;

    closed spec fn view(&self) -> EmissionModel {
        EmissionModel {
            device: self.device,
            pointer: self.pointer,
            button: self.button,
            state: self.state,
            last_serial: self.last_serial,
            last_sequence: self.last_sequence,
            frames: self.frames,
        }
    }
}

impl EmissionSession {
    /// The session for `device`, where `bound` holds the capabilities that
    /// were bound on its seat. There is one if the device has absolute
    /// pointer motion and that capability was bound; it takes buttons if the
    /// device has them and they were bound.
    pub fn new(device: &Device, bound: &CapabilitySet) -> (r: Option<EmissionSession>)
        ensures
            r matches Some(s) ==> Some(s@) == EmissionModel::opened(device@, *bound),
            r is None ==> EmissionModel::opened(device@, *bound) is None,
    {
        if !bound.pointer_absolute {
            return None;
        }
        match device.interfaces.pointer_absolute {
            None => None,
            Some(pointer) => Some(
                EmissionSession {
                    device: device.id,
                    pointer,
                    button: if bound.button {
                        device.interfaces.button
                    } else {
                        None
                    },
                    state: EmissionState::Idle,
                    last_serial: None,
                    last_sequence: None,
                    frames: 0,
                },
            ),
        }
    }

    /// Whether the bracket is open.
    pub fn state(&self) -> (r: EmissionState)
        ensures
            r == self@.state,
    {
        self.state
    }

    /// The serial of the last accepted call that carried one.
    pub fn last_serial(&self) -> (r: Option<u32>)
        ensures
            r == self@.last_serial,
    {
        self.last_serial
    }

    /// The sequence of the last bracket that was opened.
    pub fn last_sequence(&self) -> (r: Option<u32>)
        ensures
            r == self@.last_sequence,
    {
        self.last_sequence
    }

    /// The device that the session drives.
    pub fn device(&self) -> (r: u64)
        ensures
            r == self@.device,
    {
        self.device
    }

    /// Whether the device takes buttons.
    pub fn has_button(&self) -> (r: bool)
        ensures
            r == (self@.button is Some),
    {
        self.button.is_some()
    }

    /// The number of frames committed so far; it stops at the largest value
    /// that it can hold.
    pub fn frames_committed(&self) -> (r: u64)
        ensures
            r == self@.frames,
    {
        self.frames
    }

    /// Opens the bracket. Refused unless the session is idle, `serial` is not
    /// behind the last serial used and `sequence` exceeds that of every
    /// earlier bracket.
    pub fn start_emulating(&mut self, serial: u32, sequence: u32) -> (r: Result<
        Request,
        EmissionError,
    >)
        ensures
            old(self)@.yields(EmissionCommand::StartEmulating { serial, sequence }, r, final(self)@),
    {
        self.apply(EmissionCommand::StartEmulating { serial, sequence })
    }

    /// Stages an absolute move. Refused outside the bracket. The coordinates
    /// are taken as they are: the caller maps its target into a region.
    pub fn motion_absolute(&mut self, x: i64, y: i64) -> (r: Result<Request, EmissionError>)
        ensures
            old(self)@.yields(EmissionCommand::MotionAbsolute { x, y }, r, final(self)@),
    {
        self.apply(EmissionCommand::MotionAbsolute { x, y })
    }

    /// Stages a button press or release. Refused outside the bracket, and on
    /// a device without buttons.
    pub fn button(&mut self, code: u32, state: ButtonState) -> (r: Result<Request, EmissionError>)
        ensures
            old(self)@.yields(EmissionCommand::Button { code, state }, r, final(self)@),
    {
        self.apply(EmissionCommand::Button { code, state })
    }

    /// Commits what was staged. Refused outside the bracket, and unless
    /// `serial` exceeds the last serial used.
    pub fn frame(&mut self, serial: u32, timestamp: u64) -> (r: Result<Request, EmissionError>)
        ensures
            old(self)@.yields(EmissionCommand::Frame { serial, timestamp }, r, final(self)@),
    {
        self.apply(EmissionCommand::Frame { serial, timestamp })
    }

    /// Closes the bracket. Refused outside the bracket, and where `serial`
    /// is behind the last serial used.
    pub fn stop_emulating(&mut self, serial: u32) -> (r: Result<Request, EmissionError>)
        ensures
            old(self)@.yields(EmissionCommand::StopEmulating { serial }, r, final(self)@),
    {
        self.apply(EmissionCommand::StopEmulating { serial })
    }

    /// Issues `command`.
    pub fn apply(&mut self, command: EmissionCommand) -> (r: Result<Request, EmissionError>)
        ensures
            old(self)@.yields(command, r, final(self)@),
            final(self)@ == old(self)@.step(command),
    {
        let emulating = match self.state {
            EmissionState::Emulating => true,
            EmissionState::Idle => false,
        };
        match command {
            EmissionCommand::StartEmulating { serial, sequence } => {
                let behind = match self.last_serial {
                    Some(last) => serial < last,
                    None => false,
                };
                let used = match self.last_sequence {
                    Some(last) => sequence <= last,
                    None => false,
                };
                if emulating || behind || used {
                    return Err(EmissionError::OrderingViolation);
                }
                self.state = EmissionState::Emulating;
                self.last_serial = Some(serial);
                self.last_sequence = Some(sequence);
                Ok(Request::StartEmulating { device: self.device, serial, sequence })
            },
            EmissionCommand::MotionAbsolute { x, y } => {
                if !emulating {
                    return Err(EmissionError::OrderingViolation);
                }
                Ok(Request::MotionAbsolute { object: self.pointer, x, y })
            },
            EmissionCommand::Button { code, state } => {
                if !emulating {
                    return Err(EmissionError::OrderingViolation);
                }
                match self.button {
                    None => Err(EmissionError::NoButton),
                    Some(object) => Ok(Request::Button { object, button: code, state }),
                }
            },
            EmissionCommand::Frame { serial, timestamp } => {
                let stale = match self.last_serial {
                    Some(last) => serial <= last,
                    None => false,
                };
                if !emulating || stale {
                    return Err(EmissionError::OrderingViolation);
                }
                self.last_serial = Some(serial);
                if self.frames < u64::MAX {
                    self.frames = self.frames + 1;
                }
                Ok(Request::Frame { device: self.device, serial, timestamp })
            },
            EmissionCommand::StopEmulating { serial } => {
                let behind = match self.last_serial {
                    Some(last) => serial < last,
                    None => false,
                };
                if !emulating || behind {
                    return Err(EmissionError::OrderingViolation);
                }
                self.state = EmissionState::Idle;
                self.last_serial = Some(serial);
                Ok(Request::StopEmulating { device: self.device, serial })
            },
        }
    }
}

/// Whether `later` is a serial that may follow `earlier`: none was used yet,
/// or the serial did not go back.
pub open spec fn not_before(earlier: Option<u32>, later: Option<u32>) -> bool {
    earlier matches Some(a) ==> later matches Some(b) && a <= b
}

/// The last serial used never goes back, whatever is issued.
pub proof fn lemma_serial_never_goes_back(m: EmissionModel, commands: Seq<EmissionCommand>)
    ensures
        not_before(m.last_serial, m.run(commands).last_serial),
    decreases commands.len(),
{
    if commands.len() > 0 {
        lemma_serial_never_goes_back(m.step(commands[0]), commands.drop_first());
    }
}

/// Whatever is issued, the serials of the committed frames rise strictly,
/// and each exceeds the serial that was last used before.
pub proof fn lemma_committed_serials_rise(m: EmissionModel, commands: Seq<EmissionCommand>)
    ensures
        forall|i: int, j: int|
            0 <= i < j < m.committed(commands).len() ==> m.committed(commands)[i] < m.committed(
                commands,
            )[j],
        forall|i: int|
            0 <= i < m.committed(commands).len() ==> !m.is_stale(#[trigger] m.committed(commands)[i]),
    decreases commands.len(),
{
    if commands.len() > 0 {
        let next = m.step(commands[0]);
        let rest = next.committed(commands.drop_first());
        lemma_committed_serials_rise(next, commands.drop_first());
        assert(not_before(m.last_serial, next.last_serial));
        assert forall|i: int| 0 <= i < rest.len() implies !m.is_stale(#[trigger] rest[i]) by {
            assert(!next.is_stale(rest[i]));
        }
        match commands[0] {
            EmissionCommand::Frame { serial, .. } => {
                if m.refusal(commands[0]) is None {
                    let all = m.committed(commands);
                    assert(all == seq![serial] + rest);
                    assert(next.last_serial == Some(serial));
                    assert forall|i: int, j: int| 0 <= i < j < all.len() implies all[i] < all[j] by {
                        assert(all[j] == rest[j - 1]);
                        assert(!next.is_stale(rest[j - 1]));
                        if i > 0 {
                            assert(all[i] == rest[i - 1]);
                        }
                    }
                    assert forall|i: int| 0 <= i < all.len() implies !m.is_stale(
                        #[trigger] all[i],
                    ) by {
                        if i > 0 {
                            assert(all[i] == rest[i - 1]);
                        }
                    }
                }
            },
            _ => {},
        }
    }
}

/// A frame whose serial does not exceed the last serial used is refused as
/// an ordering violation, in every state.
pub proof fn lemma_stale_frame_is_refused(m: EmissionModel, serial: u32, timestamp: u64)
    requires
        m.is_stale(serial),
    ensures
        m.refusal(EmissionCommand::Frame { serial, timestamp }) == Some(
            EmissionError::OrderingViolation,
        ),
        m.step(EmissionCommand::Frame { serial, timestamp }) == m,
{
}

/// Motion and buttons are refused as ordering violations before the first
/// bracket is opened, and again once a bracket is closed.
pub proof fn lemma_input_needs_open_bracket(
    m: EmissionModel,
    x: i64,
    y: i64,
    code: u32,
    state: ButtonState,
    serial: u32,
)
    ensures
        m.state == EmissionState::Idle ==> m.refusal(EmissionCommand::MotionAbsolute { x, y })
            == Some(EmissionError::OrderingViolation) && m.refusal(
            EmissionCommand::Button { code, state },
        ) == Some(EmissionError::OrderingViolation),
        EmissionModel::initial(m.device, m.pointer, m.button).state == EmissionState::Idle,
        m.refusal(EmissionCommand::StopEmulating { serial }) is None ==> m.after(
            EmissionCommand::StopEmulating { serial },
        ).state == EmissionState::Idle,
{
}

/// Where every call of a list is accepted, the states that `run` and
/// `accepts` go through are the same, and a longer list is accepted where its
/// two parts are, one after the other.
pub proof fn lemma_accepts_concat(
    m: EmissionModel,
    first: Seq<EmissionCommand>,
    second: Seq<EmissionCommand>,
)
    ensures
        m.accepts(first + second) == (m.accepts(first) && m.run(first).accepts(second)),
        m.run(first + second) == m.run(first).run(second),
        m.committed(first + second) == m.committed(first) + m.run(first).committed(second),
    decreases first.len(),
{
    if first.len() == 0 {
        assert(first + second =~= second);
        assert(m.committed(first) + m.run(first).committed(second) =~= m.committed(second));
    } else {
        let all = first + second;
        assert(all[0] == first[0]);
        assert(all.drop_first() =~= first.drop_first() + second);
        lemma_accepts_concat(m.step(first[0]), first.drop_first(), second);
        if m.refusal(first[0]) is None {
            assert(m.step(first[0]) == m.after(first[0]));
        }
        let rest_first = m.step(first[0]).committed(first.drop_first());
        let rest_second = m.run(first).committed(second);
        match first[0] {
            EmissionCommand::Frame { serial, .. } => {
                if m.refusal(first[0]) is None {
                    assert(seq![serial] + (rest_first + rest_second) =~= (seq![serial]
                        + rest_first) + rest_second);
                }
            },
            _ => {},
        }
    }
}

} // verus!
