//! The commands of the interactive mode, and what each sends through the
//! portal.

use vstd::prelude::*;
use crate::interface::same_text;
use crate::plan::{BUTTON_PRIMARY, BUTTON_SECONDARY, SHAKE_ROUNDS};
use crate::words::{ascii_spaces_known, number, read_i32, read_u32, split_words, texts, words};

verus! {

/// How far a shake moves the pointer to the side, each way.
pub const SHAKE_DISTANCE: i32 = 100;

/// One command of the interactive mode. Coordinates are kept as they were
/// typed.
#[derive(Debug)]
pub enum Command {
    /// The line holds no word.
    Empty,
    /// Move the pointer to a point of a stream.
    Move { x: String, y: String, stream: u32 },
    /// Move the pointer by a distance.
    Relative { dx: String, dy: String },
    /// Click the primary button.
    Click,
    /// Click the secondary button.
    RightClick,
    /// Press and release a key.
    Key { code: i32 },
    /// Shake the pointer.
    Shake,
    /// End the session.
    Quit,
    /// The first word is no command, or lacks what it needs.
    Unknown { word: String },
}

/// What a [`Command`] is, as a value.
pub enum CommandView {
    Empty,
    Move { x: Seq<char>, y: Seq<char>, stream: u32 },
    Relative { dx: Seq<char>, dy: Seq<char> },
    Click,
    RightClick,
    Key { code: i32 },
    Shake,
    Quit,
    Unknown { word: Seq<char> },
}

impl View for Command {
    type V = CommandView;

    open spec fn view(&self) -> CommandView {
        match *self {
            Command::Empty => CommandView::Empty,
            Command::Move { x, y, stream } => CommandView::Move { x: x@, y: y@, stream },
            Command::Relative { dx, dy } => CommandView::Relative { dx: dx@, dy: dy@ },
            Command::Click => CommandView::Click,
            Command::RightClick => CommandView::RightClick,
            Command::Key { code } => CommandView::Key { code },
            Command::Shake => CommandView::Shake,
            Command::Quit => CommandView::Quit,
            Command::Unknown { word } => CommandView::Unknown { word: word@ },
        }
    }
}

/// The stream that a move names: the fourth word where it is a number, else
/// the first stream.
pub open spec fn stream_of(parts: Seq<Seq<char>>) -> u32 {
    if parts.len() > 3 {
        match number(parts[3], 0, u32::MAX as int) {
            Some(v) => v as u32,
            None => 0,
        }
    } else {
        0
    }
}

/// The key that a key command names: the second word where it is a number,
/// else zero.
pub open spec fn key_of(parts: Seq<Seq<char>>) -> i32 {
    match number(parts[1], i32::MIN as int, i32::MAX as int) {
        Some(v) => v as i32,
        None => 0,
    }
}

/// The command that the words `parts` make.
pub open spec fn command_of(parts: Seq<Seq<char>>) -> CommandView {
    if parts.len() == 0 {
        CommandView::Empty
    } else if parts[0] == "move"@ && parts.len() >= 3 {
        CommandView::Move { x: parts[1], y: parts[2], stream: stream_of(parts) }
    } else if parts[0] == "rel"@ && parts.len() >= 3 {
        CommandView::Relative { dx: parts[1], dy: parts[2] }
    } else if parts[0] == "click"@ {
        CommandView::Click
    } else if parts[0] == "rclick"@ {
        CommandView::RightClick
    } else if parts[0] == "key"@ && parts.len() >= 2 {
        CommandView::Key { code: key_of(parts) }
    } else if parts[0] == "shake"@ {
        CommandView::Shake
    } else if parts[0] == "quit"@ || parts[0] == "exit"@ || parts[0] == "q"@ {
        CommandView::Quit
    } else {
        CommandView::Unknown { word: parts[0] }
    }
}

/// Reads a command from the words of a line.
pub fn interpret(parts: &Vec<String>) -> (r: Command)
    ensures
        r@ == command_of(texts(parts@)),
{
    let ghost t = texts(parts@);
    if parts.len() == 0 {
        return Command::Empty;
    }
    let first = &parts[0];
    assert(t[0] == first@);
    if same_text(first, "move") && parts.len() >= 3 {
        let stream = if parts.len() > 3 {
            assert(t[3] == parts@[3]@);
            match read_u32(parts[3].as_str()) {
                Some(v) => v,
                None => 0,
            }
        } else {
            0
        };
        assert(t[1] == parts@[1]@ && t[2] == parts@[2]@);
        Command::Move { x: parts[1].clone(), y: parts[2].clone(), stream }
    } else if same_text(first, "rel") && parts.len() >= 3 {
        assert(t[1] == parts@[1]@ && t[2] == parts@[2]@);
        Command::Relative { dx: parts[1].clone(), dy: parts[2].clone() }
    } else if same_text(first, "click") {
        Command::Click
    } else if same_text(first, "rclick") {
        Command::RightClick
    } else if same_text(first, "key") && parts.len() >= 2 {
        assert(t[1] == parts@[1]@);
        let code = match read_i32(parts[1].as_str()) {
            Some(v) => v,
            None => 0,
        };
        Command::Key { code }
    } else if same_text(first, "shake") {
        Command::Shake
    } else if same_text(first, "quit") || same_text(first, "exit") || same_text(first, "q") {
        Command::Quit
    } else {
        Command::Unknown { word: first.clone() }
    }
}

/// Reads a command from a line.
pub fn parse_command(line: &str) -> (r: Command)
    ensures
        r@ == command_of(words(line@)),
        ascii_spaces_known(line@),
{
    let parts = split_words(line);
    interpret(&parts)
}

/// What the interactive mode does next.
#[derive(Clone, Copy, Debug, PartialEq, Eq, Structural)]
pub enum Flow {
    /// The next line is asked for.
    Continue,
    /// The mode ends as it should.
    Stop,
    /// The mode ends on the failure of what was sent.
    Fail,
}

/// What follows a read that brought `read` bytes, or failed where `read` is
/// none: the mode ends where the read failed and at the end of the input,
/// which is a read of no byte; else it goes on.
pub open spec fn flow_after_read(read: Option<usize>) -> Flow {
    match read {
        Some(n) => if n == 0 {
            Flow::Stop
        } else {
            Flow::Continue
        },
        None => Flow::Stop,
    }
}

/// What follows a command, where `failed` says whether the portal refused
/// what the command sent. To quit ends the mode. A failed move is told and
/// the mode goes on; a failed click, key or shake ends it. A line without a
/// command, and one that is not known, send nothing, and the mode goes on.
pub open spec fn flow_after(command: CommandView, failed: bool) -> Flow {
    match command {
        CommandView::Quit => Flow::Stop,
        CommandView::Click => if failed {
            Flow::Fail
        } else {
            Flow::Continue
        },
        CommandView::RightClick => if failed {
            Flow::Fail
        } else {
            Flow::Continue
        },
        CommandView::Key { .. } => if failed {
            Flow::Fail
        } else {
            Flow::Continue
        },
        CommandView::Shake => if failed {
            Flow::Fail
        } else {
            Flow::Continue
        },
        _ => Flow::Continue,
    }
}

/// Says what follows a read: `read` is the number of bytes that it brought,
/// or none where it failed.
pub fn after_read(read: Option<usize>) -> (r: Flow)
    ensures
        r == flow_after_read(read),
{
    match read {
        Some(n) => if n == 0 {
            Flow::Stop
        } else {
            Flow::Continue
        },
        None => Flow::Stop,
    }
}

/// Says what follows a command; `failed` says whether the portal refused
/// what the command sent.
pub fn after_command(command: &Command, failed: bool) -> (r: Flow)
    ensures
        r == flow_after(command@, failed),
{
    match command {
        Command::Quit => Flow::Stop,
        Command::Click | Command::RightClick | Command::Key { .. } | Command::Shake => if failed {
            Flow::Fail
        } else {
            Flow::Continue
        },
        _ => Flow::Continue,
    }
}

/// One thing that is sent through the portal, or a pause.
#[derive(Clone, Copy, Debug, PartialEq, Eq, Structural)]
pub enum PortalStep {
    /// The pointer moves by a distance.
    Motion { dx: i32, dy: i32 },
    /// A pointer button goes down or up.
    Button { code: u32, pressed: bool },
    /// A key goes down or up.
    Key { key: i32, pressed: bool },
    /// A pause.
    Sleep { millis: u64 },
}

/// One round of a shake: to the side and back, with a pause after each.
pub open spec fn shake_round() -> Seq<PortalStep> {
    seq![
        PortalStep::Motion { dx: SHAKE_DISTANCE, dy: 0 },
        PortalStep::Sleep { millis: 100 },
        PortalStep::Motion { dx: (-SHAKE_DISTANCE) as i32, dy: 0 },
        PortalStep::Sleep { millis: 100 },
    ]
}

/// A shake of `rounds` rounds.
pub open spec fn shake_of(rounds: int) -> Seq<PortalStep>
    decreases rounds,
{
    if rounds <= 0 {
        Seq::empty()
    } else {
        shake_of(rounds - 1) + shake_round()
    }
}

/// A click of the button `code`: down, a pause, up.
pub open spec fn click_of(code: u32) -> Seq<PortalStep> {
    seq![
        PortalStep::Button { code, pressed: true },
        PortalStep::Sleep { millis: 50 },
        PortalStep::Button { code, pressed: false },
    ]
}

/// A stroke of the key `code`: down, a pause, up.
pub open spec fn stroke_of(code: i32) -> Seq<PortalStep> {
    seq![
        PortalStep::Key { key: code, pressed: true },
        PortalStep::Sleep { millis: 50 },
        PortalStep::Key { key: code, pressed: false },
    ]
}

/// What a command sends that is made of several steps; nothing for the
/// others.
pub open spec fn steps_of(command: CommandView) -> Seq<PortalStep> {
    match command {
        CommandView::Click => click_of(BUTTON_PRIMARY),
        CommandView::RightClick => click_of(BUTTON_SECONDARY),
        CommandView::Key { code } => stroke_of(code),
        CommandView::Shake => shake_of(SHAKE_ROUNDS as int),
        _ => Seq::empty(),
    }
}

/// The steps of a shake of `rounds` rounds.
pub fn shake_steps(rounds: u32) -> (r: Vec<PortalStep>)
    ensures
        r@ == shake_of(rounds as int),
{
    let mut steps: Vec<PortalStep> = Vec::new();
    let mut i: u32 = 0;
    while i < rounds
        invariant
            i <= rounds,
            steps@ == shake_of(i as int),
        decreases rounds - i,
    {
        let ghost before = steps@;
        steps.push(PortalStep::Motion { dx: SHAKE_DISTANCE, dy: 0 });
        steps.push(PortalStep::Sleep { millis: 100 });
        steps.push(PortalStep::Motion { dx: -SHAKE_DISTANCE, dy: 0 });
        steps.push(PortalStep::Sleep { millis: 100 });
        assert(steps@ =~= before + shake_round());
        i += 1;
    }
    steps
}

/// The steps of a command that is made of several; none for the others.
pub fn portal_steps(command: &Command) -> (r: Vec<PortalStep>)
    ensures
        r@ == steps_of(command@),
{
    match command {
        Command::Click => {
            let r = vec![
                PortalStep::Button { code: BUTTON_PRIMARY, pressed: true },
                PortalStep::Sleep { millis: 50 },
                PortalStep::Button { code: BUTTON_PRIMARY, pressed: false },
            ];
            assert(r@ =~= click_of(BUTTON_PRIMARY));
            r
        },
        Command::RightClick => {
            let r = vec![
                PortalStep::Button { code: BUTTON_SECONDARY, pressed: true },
                PortalStep::Sleep { millis: 50 },
                PortalStep::Button { code: BUTTON_SECONDARY, pressed: false },
            ];
            assert(r@ =~= click_of(BUTTON_SECONDARY));
            r
        },
        Command::Key { code } => {
            let r = vec![
                PortalStep::Key { key: *code, pressed: true },
                PortalStep::Sleep { millis: 50 },
                PortalStep::Key { key: *code, pressed: false },
            ];
            assert(r@ =~= stroke_of(*code));
            r
        },
        Command::Shake => shake_steps(SHAKE_ROUNDS),
        _ => {
            let r: Vec<PortalStep> = Vec::new();
            assert(r@ =~= Seq::<PortalStep>::empty());
            r
        },
    }
}

} // verus!
