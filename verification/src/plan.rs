//! The plan of one emission: what is sent, in what order, to move the
//! pointer to a point, with a shake before and a click after where asked.

use vstd::prelude::*;
use crate::emission::{
    EmissionCommand,
    EmissionError,
    EmissionModel,
    EmissionState,
    lemma_accepts_concat,
};
use crate::wire::ButtonState;

verus! {

/// Whether a plan fits: the serials of its frames and the time of its last
/// frame can be counted up from `serial` and `now`.
pub open spec fn fits(serial: u32, now: u64, click: bool, shake: bool, has_button: bool) -> bool {
    serial + frames_needed(click, shake, has_button) <= u32::MAX && now + last_offset(
        click,
        has_button,
    ) <= u64::MAX
}

/// The code of the primary pointer button.
pub const BUTTON_PRIMARY: u32 = 272;

/// The code of the secondary pointer button.
pub const BUTTON_SECONDARY: u32 = 273;

/// How often a shake moves the pointer away and back.
pub const SHAKE_ROUNDS: u32 = 5;

/// By how much each round of a shake goes further than the one before.
pub const SHAKE_STRIDE: i64 = 50;

/// One step of a plan.
#[derive(Clone, Copy, Debug, PartialEq, Eq, Structural)]
pub enum EmissionStep {
    /// A call on the emission session.
    Command(EmissionCommand),
    /// What was staged is written to the compositor.
    Flush,
    /// A pause.
    Sleep { millis: u64 },
    /// A click was asked for on a device without buttons; nothing is sent
    /// for it.
    NoButton,
}

/// How many frames a plan commits.
pub open spec fn frames_needed(click: bool, shake: bool, has_button: bool) -> int {
    (if shake { 2 * SHAKE_ROUNDS as int } else { 0 }) + 1 + (if click && has_button { 2int } else { 0 })
}

/// How long after its start a plan commits its last frame, in microseconds.
pub open spec fn last_offset(click: bool, has_button: bool) -> int {
    if click && has_button {
        600_000
    } else {
        500_000
    }
}

/// The bracket is opened.
pub open spec fn opening(serial: u32) -> Seq<EmissionStep> {
    seq![
        EmissionStep::Command(EmissionCommand::StartEmulating { serial, sequence: 1 }),
        EmissionStep::Flush,
    ]
}

/// Round `i` of a shake: away from the point and back to it, each move in a
/// frame of its own.
pub open spec fn shake_round(serial: u32, now: u64, x: i32, y: i32, i: int) -> Seq<EmissionStep> {
    seq![
        EmissionStep::Command(
            EmissionCommand::MotionAbsolute { x: (x + (i + 1) * SHAKE_STRIDE) as i64, y: y as i64 },
        ),
        EmissionStep::Command(
            EmissionCommand::Frame {
                serial: (serial + 2 * i + 1) as u32,
                timestamp: (now + i * 100_000) as u64,
            },
        ),
        EmissionStep::Flush,
        EmissionStep::Sleep { millis: 100 },
        EmissionStep::Command(EmissionCommand::MotionAbsolute { x: x as i64, y: y as i64 }),
        EmissionStep::Command(
            EmissionCommand::Frame {
                serial: (serial + 2 * i + 2) as u32,
                timestamp: (now + i * 100_000 + 50_000) as u64,
            },
        ),
        EmissionStep::Flush,
        EmissionStep::Sleep { millis: 100 },
    ]
}

/// The first `rounds` rounds of a shake.
pub open spec fn shake_rounds(serial: u32, now: u64, x: i32, y: i32, rounds: int) -> Seq<
    EmissionStep,
>
    decreases rounds,
{
    if rounds <= 0 {
        Seq::empty()
    } else {
        shake_rounds(serial, now, x, y, rounds - 1) + shake_round(serial, now, x, y, rounds - 1)
    }
}

/// The move to the point, under the serial after `serial`.
pub open spec fn approach(serial: u32, now: u64, x: i32, y: i32) -> Seq<EmissionStep> {
    seq![
        EmissionStep::Command(EmissionCommand::MotionAbsolute { x: x as i64, y: y as i64 }),
        EmissionStep::Command(
            EmissionCommand::Frame { serial: (serial + 1) as u32, timestamp: (now + 500_000) as u64 },
        ),
        EmissionStep::Flush,
    ]
}

/// The click: press and release of the primary button, each in a frame of
/// its own, under the two serials after `serial`.
pub open spec fn click_steps(serial: u32, now: u64) -> Seq<EmissionStep> {
    seq![
        EmissionStep::Sleep { millis: 100 },
        EmissionStep::Command(
            EmissionCommand::Button { code: BUTTON_PRIMARY, state: ButtonState::Press },
        ),
        EmissionStep::Command(
            EmissionCommand::Frame { serial: (serial + 1) as u32, timestamp: (now + 550_000) as u64 },
        ),
        EmissionStep::Flush,
        EmissionStep::Sleep { millis: 50 },
        EmissionStep::Command(
            EmissionCommand::Button { code: BUTTON_PRIMARY, state: ButtonState::Released },
        ),
        EmissionStep::Command(
            EmissionCommand::Frame { serial: (serial + 2) as u32, timestamp: (now + 600_000) as u64 },
        ),
        EmissionStep::Flush,
    ]
}

/// The bracket is closed, under the serial of the last frame.
pub open spec fn closing(serial: u32) -> Seq<EmissionStep> {
    seq![
        EmissionStep::Sleep { millis: 100 },
        EmissionStep::Command(EmissionCommand::StopEmulating { serial }),
        EmissionStep::Flush,
    ]
}

/// The serial of the last frame of the shake, or `serial` without a shake.
pub open spec fn after_shake(serial: u32, shake: bool) -> int {
    if shake {
        serial + 2 * SHAKE_ROUNDS
    } else {
        serial as int
    }
}

/// What a click comes to: the click itself, a note where the device has no
/// buttons, nothing where none was asked for.
pub open spec fn click_part(serial: u32, now: u64, click: bool, has_button: bool) -> Seq<
    EmissionStep,
> {
    if !click {
        Seq::empty()
    } else if has_button {
        click_steps(serial, now)
    } else {
        seq![EmissionStep::NoButton]
    }
}

/// The whole plan. The bracket is opened under `serial`, which is the
/// serial of the device's resumption; each frame takes the next serial.
/// `now` is the time at which the plan starts, in microseconds.
pub open spec fn emission_plan(
    serial: u32,
    now: u64,
    x: i32,
    y: i32,
    click: bool,
    shake: bool,
    has_button: bool,
) -> Seq<EmissionStep> {
    let moved = (after_shake(serial, shake) + 1) as u32;
    opening(serial) + shake_rounds(serial, now, x, y, if shake { SHAKE_ROUNDS as int } else { 0 })
        + approach(after_shake(serial, shake) as u32, now, x, y) + click_part(
        moved,
        now,
        click,
        has_button,
    ) + closing((serial + frames_needed(click, shake, has_button)) as u32)
}

/// Whether a plan fits: whether `plan_emission` may be asked for it. It does
/// not where the serials after `serial`, one for each frame, or the time of
/// the last frame after `now` would lie beyond what their types hold.
pub fn plan_fits(serial: u32, now: u64, click: bool, shake: bool, has_button: bool) -> (r: bool)
    ensures
        r == fits(serial, now, click, shake, has_button),
        r == (serial + frames_needed(click, shake, has_button) <= u32::MAX && now + last_offset(
            click,
            has_button,
        ) <= u64::MAX),
{
    let clicks = click && has_button;
    let frames: u32 = (if shake { 2 * SHAKE_ROUNDS } else { 0 }) + 1 + (if clicks { 2 } else { 0 });
    let offset: u64 = if clicks { 600_000 } else { 500_000 };
    serial <= u32::MAX - frames && now <= u64::MAX - offset
}

/// Makes the plan of one emission.
pub fn plan_emission(
    serial: u32,
    now: u64,
    x: i32,
    y: i32,
    click: bool,
    shake: bool,
    has_button: bool,
) -> (r: Vec<EmissionStep>)
    requires
        fits(serial, now, click, shake, has_button),
    ensures
        r@ == emission_plan(serial, now, x, y, click, shake, has_button),
{
    let mut steps: Vec<EmissionStep> = Vec::new();
    let mut last: u32 = serial;
    steps.push(EmissionStep::Command(EmissionCommand::StartEmulating { serial, sequence: 1 }));
    steps.push(EmissionStep::Flush);
    assert(steps@ =~= opening(serial));
    if shake {
        let mut i: u32 = 0;
        while i < SHAKE_ROUNDS
            invariant
                i <= SHAKE_ROUNDS,
                serial + 2 * SHAKE_ROUNDS < u32::MAX,
                now + 500_000 <= u64::MAX,
                last == serial + 2 * i,
                steps@ == opening(serial) + shake_rounds(serial, now, x, y, i as int),
            decreases SHAKE_ROUNDS - i,
        {
            let ghost before = steps@;
            let away: i64 = x as i64 + (i as i64 + 1) * SHAKE_STRIDE;
            let at: u64 = now + i as u64 * 100_000;
            steps.push(EmissionStep::Command(EmissionCommand::MotionAbsolute { x: away, y: y as i64 }));
            steps.push(EmissionStep::Command(EmissionCommand::Frame { serial: last + 1, timestamp: at }));
            steps.push(EmissionStep::Flush);
            steps.push(EmissionStep::Sleep { millis: 100 });
            steps.push(
                EmissionStep::Command(EmissionCommand::MotionAbsolute { x: x as i64, y: y as i64 }),
            );
            steps.push(
                EmissionStep::Command(
                    EmissionCommand::Frame { serial: last + 2, timestamp: at + 50_000 },
                ),
            );
            steps.push(EmissionStep::Flush);
            steps.push(EmissionStep::Sleep { millis: 100 });
            last = last + 2;
            assert(steps@ =~= before + shake_round(serial, now, x, y, i as int));
            assert(before + shake_round(serial, now, x, y, i as int) =~= opening(serial) + (
            shake_rounds(serial, now, x, y, i as int) + shake_round(serial, now, x, y, i as int)));
            i += 1;
        }
    }
    assert(last == after_shake(serial, shake));
    let ghost shaken = steps@;
    assert(shaken == opening(serial) + shake_rounds(
        serial,
        now,
        x,
        y,
        if shake { SHAKE_ROUNDS as int } else { 0 },
    )) by {
        if !shake {
            assert(shaken =~= opening(serial) + shake_rounds(serial, now, x, y, 0));
        }
    }
    steps.push(EmissionStep::Command(EmissionCommand::MotionAbsolute { x: x as i64, y: y as i64 }));
    last = last + 1;
    steps.push(
        EmissionStep::Command(EmissionCommand::Frame { serial: last, timestamp: now + 500_000 }),
    );
    steps.push(EmissionStep::Flush);
    assert(steps@ =~= shaken + approach(after_shake(serial, shake) as u32, now, x, y));
    let ghost moved = steps@;
    if click {
        if has_button {
            steps.push(EmissionStep::Sleep { millis: 100 });
            steps.push(
                EmissionStep::Command(
                    EmissionCommand::Button { code: BUTTON_PRIMARY, state: ButtonState::Press },
                ),
            );
            steps.push(
                EmissionStep::Command(
                    EmissionCommand::Frame { serial: last + 1, timestamp: now + 550_000 },
                ),
            );
            steps.push(EmissionStep::Flush);
            steps.push(EmissionStep::Sleep { millis: 50 });
            steps.push(
                EmissionStep::Command(
                    EmissionCommand::Button { code: BUTTON_PRIMARY, state: ButtonState::Released },
                ),
            );
            steps.push(
                EmissionStep::Command(
                    EmissionCommand::Frame { serial: last + 2, timestamp: now + 600_000 },
                ),
            );
            steps.push(EmissionStep::Flush);
            last = last + 2;
        } else {
            steps.push(EmissionStep::NoButton);
        }
    }
    assert(steps@ =~= moved + click_part(
        (after_shake(serial, shake) + 1) as u32,
        now,
        click,
        has_button,
    ));
    let ghost clicked = steps@;
    steps.push(EmissionStep::Sleep { millis: 100 });
    steps.push(EmissionStep::Command(EmissionCommand::StopEmulating { serial: last }));
    steps.push(EmissionStep::Flush);
    assert(steps@ =~= clicked + closing((serial + frames_needed(click, shake, has_button)) as u32));
    steps
}

/// The plan of one emission, where it fits. Where it does not, because the
/// serials of its frames or the time of its last frame could not rise from
/// `serial` and `now` within what their types hold, it is refused as an
/// ordering violation, and nothing is planned.
pub fn plan_if_fits(
    serial: u32,
    now: u64,
    x: i32,
    y: i32,
    click: bool,
    shake: bool,
    has_button: bool,
) -> (r: Result<Vec<EmissionStep>, EmissionError>)
    ensures
        fits(serial, now, click, shake, has_button) ==> r is Ok && r->Ok_0@ == emission_plan(
            serial,
            now,
            x,
            y,
            click,
            shake,
            has_button,
        ),
        !fits(serial, now, click, shake, has_button) ==> r is Err && r->Err_0
            == EmissionError::OrderingViolation,
{
    if plan_fits(serial, now, click, shake, has_button) {
        Ok(plan_emission(serial, now, x, y, click, shake, has_button))
    } else {
        Err(EmissionError::OrderingViolation)
    }
}

/// The call of a step, where the step is one.
pub open spec fn command_of(step: EmissionStep) -> Seq<EmissionCommand> {
    match step {
        EmissionStep::Command(c) => seq![c],
        _ => Seq::empty(),
    }
}

/// The calls among `steps`, in order.
pub open spec fn commands_of(steps: Seq<EmissionStep>) -> Seq<EmissionCommand>
    decreases steps.len(),
{
    if steps.len() == 0 {
        Seq::empty()
    } else {
        commands_of(steps.drop_last()) + command_of(steps.last())
    }
}

/// The serials `first`, `first + 1`, and so on, `count` of them.
pub open spec fn serials_from(first: int, count: int) -> Seq<u32> {
    Seq::new(count as nat, |k: int| (first + k) as u32)
}

/// The calls of two lists of steps, one after the other, are the calls of
/// the one list made of both.
pub proof fn lemma_commands_concat(a: Seq<EmissionStep>, b: Seq<EmissionStep>)
    ensures
        commands_of(a + b) == commands_of(a) + commands_of(b),
    decreases b.len(),
{
    if b.len() == 0 {
        assert(a + b =~= a);
        assert(commands_of(a) + commands_of(b) =~= commands_of(a));
    } else {
        assert((a + b).drop_last() =~= a + b.drop_last());
        assert((a + b).last() == b.last());
        lemma_commands_concat(a, b.drop_last());
        assert((commands_of(a) + commands_of(b.drop_last())) + command_of(b.last()) =~= commands_of(a)
            + (commands_of(b.drop_last()) + command_of(b.last())));
    }
}

/// The calls of a list with one more step are the calls of the list, then
/// the call of that step.
proof fn lemma_commands_push(steps: Seq<EmissionStep>, step: EmissionStep)
    ensures
        commands_of(steps.push(step)) == commands_of(steps) + command_of(step),
{
    assert(steps.push(step).drop_last() =~= steps);
}

/// What a single call comes to.
proof fn lemma_issue_one(m: EmissionModel, c: EmissionCommand)
    ensures
        m.accepts(seq![c]) == (m.refusal(c) is None),
        m.run(seq![c]) == m.step(c),
        m.refusal(c) is None ==> m.committed(seq![c]) == (match c {
            EmissionCommand::Frame { serial, .. } => seq![serial],
            _ => Seq::<u32>::empty(),
        }),
{
    let one = seq![c];
    assert(one[0] == c);
    assert(one.drop_first() =~= Seq::<EmissionCommand>::empty());
    let next = m.step(c);
    assert(next.run(Seq::<EmissionCommand>::empty()) == next);
    assert(m.after(c).accepts(Seq::<EmissionCommand>::empty()));
    assert(next.committed(Seq::<EmissionCommand>::empty()) =~= Seq::<u32>::empty());
    if m.refusal(c) is None {
        match c {
            EmissionCommand::Frame { serial, .. } => {
                assert(seq![serial] + Seq::<u32>::empty() =~= seq![serial]);
            },
            _ => {},
        }
    }
}

/// What a list of calls comes to when one more call, which is accepted, is
/// issued after it.
proof fn lemma_issue(m: EmissionModel, cmds: Seq<EmissionCommand>, c: EmissionCommand)
    requires
        m.accepts(cmds),
        m.run(cmds).refusal(c) is None,
    ensures
        m.accepts(cmds + seq![c]),
        m.run(cmds + seq![c]) == m.run(cmds).after(c),
        m.committed(cmds + seq![c]) == m.committed(cmds) + (match c {
            EmissionCommand::Frame { serial, .. } => seq![serial],
            _ => Seq::<u32>::empty(),
        }),
{
    lemma_accepts_concat(m, cmds, seq![c]);
    lemma_issue_one(m.run(cmds), c);
}

/// The calls of one round of a shake.
proof fn lemma_round_commands(serial: u32, now: u64, x: i32, y: i32, i: int)
    ensures
        commands_of(shake_round(serial, now, x, y, i)) == seq![
            EmissionCommand::MotionAbsolute { x: (x + (i + 1) * SHAKE_STRIDE) as i64, y: y as i64 },
            EmissionCommand::Frame {
                serial: (serial + 2 * i + 1) as u32,
                timestamp: (now + i * 100_000) as u64,
            },
            EmissionCommand::MotionAbsolute { x: x as i64, y: y as i64 },
            EmissionCommand::Frame {
                serial: (serial + 2 * i + 2) as u32,
                timestamp: (now + i * 100_000 + 50_000) as u64,
            },
        ],
{
    let r = shake_round(serial, now, x, y, i);
    let e = Seq::<EmissionStep>::empty();
    assert(commands_of(e) =~= Seq::<EmissionCommand>::empty());
    let s1 = e.push(r[0]);
    let s2 = s1.push(r[1]);
    let s3 = s2.push(r[2]);
    let s4 = s3.push(r[3]);
    let s5 = s4.push(r[4]);
    let s6 = s5.push(r[5]);
    let s7 = s6.push(r[6]);
    let s8 = s7.push(r[7]);
    lemma_commands_push(e, r[0]);
    lemma_commands_push(s1, r[1]);
    lemma_commands_push(s2, r[2]);
    lemma_commands_push(s3, r[3]);
    lemma_commands_push(s4, r[4]);
    lemma_commands_push(s5, r[5]);
    lemma_commands_push(s6, r[6]);
    lemma_commands_push(s7, r[7]);
    assert(s8 =~= r);
    assert(commands_of(s8) =~= seq![
        EmissionCommand::MotionAbsolute { x: (x + (i + 1) * SHAKE_STRIDE) as i64, y: y as i64 },
        EmissionCommand::Frame {
            serial: (serial + 2 * i + 1) as u32,
            timestamp: (now + i * 100_000) as u64,
        },
        EmissionCommand::MotionAbsolute { x: x as i64, y: y as i64 },
        EmissionCommand::Frame {
            serial: (serial + 2 * i + 2) as u32,
            timestamp: (now + i * 100_000 + 50_000) as u64,
        },
    ]);
}

/// The calls of a click.
proof fn lemma_click_commands(serial: u32, now: u64)
    ensures
        commands_of(click_steps(serial, now)) == seq![
            EmissionCommand::Button { code: BUTTON_PRIMARY, state: ButtonState::Press },
            EmissionCommand::Frame { serial: (serial + 1) as u32, timestamp: (now + 550_000) as u64 },
            EmissionCommand::Button { code: BUTTON_PRIMARY, state: ButtonState::Released },
            EmissionCommand::Frame { serial: (serial + 2) as u32, timestamp: (now + 600_000) as u64 },
        ],
{
    let r = click_steps(serial, now);
    let e = Seq::<EmissionStep>::empty();
    assert(commands_of(e) =~= Seq::<EmissionCommand>::empty());
    let s1 = e.push(r[0]);
    let s2 = s1.push(r[1]);
    let s3 = s2.push(r[2]);
    let s4 = s3.push(r[3]);
    let s5 = s4.push(r[4]);
    let s6 = s5.push(r[5]);
    let s7 = s6.push(r[6]);
    let s8 = s7.push(r[7]);
    lemma_commands_push(e, r[0]);
    lemma_commands_push(s1, r[1]);
    lemma_commands_push(s2, r[2]);
    lemma_commands_push(s3, r[3]);
    lemma_commands_push(s4, r[4]);
    lemma_commands_push(s5, r[5]);
    lemma_commands_push(s6, r[6]);
    lemma_commands_push(s7, r[7]);
    assert(s8 =~= r);
    assert(commands_of(s8) =~= seq![
        EmissionCommand::Button { code: BUTTON_PRIMARY, state: ButtonState::Press },
        EmissionCommand::Frame { serial: (serial + 1) as u32, timestamp: (now + 550_000) as u64 },
        EmissionCommand::Button { code: BUTTON_PRIMARY, state: ButtonState::Released },
        EmissionCommand::Frame { serial: (serial + 2) as u32, timestamp: (now + 600_000) as u64 },
    ]);
}

/// The calls of the short parts of a plan.
proof fn lemma_short_commands(serial: u32, now: u64, x: i32, y: i32)
    ensures
        commands_of(opening(serial)) == seq![
            EmissionCommand::StartEmulating { serial, sequence: 1 },
        ],
        commands_of(approach(serial, now, x, y)) == seq![
            EmissionCommand::MotionAbsolute { x: x as i64, y: y as i64 },
            EmissionCommand::Frame { serial: (serial + 1) as u32, timestamp: (now + 500_000) as u64 },
        ],
        commands_of(closing(serial)) == seq![EmissionCommand::StopEmulating { serial }],
        commands_of(seq![EmissionStep::NoButton]) == Seq::<EmissionCommand>::empty(),
        commands_of(Seq::<EmissionStep>::empty()) == Seq::<EmissionCommand>::empty(),
{
    let e = Seq::<EmissionStep>::empty();
    assert(commands_of(e) =~= Seq::<EmissionCommand>::empty());
    let o = opening(serial);
    lemma_commands_push(e, o[0]);
    lemma_commands_push(e.push(o[0]), o[1]);
    assert(e.push(o[0]).push(o[1]) =~= o);
    assert(commands_of(o) =~= seq![EmissionCommand::StartEmulating { serial, sequence: 1 }]);
    let a = approach(serial, now, x, y);
    lemma_commands_push(e, a[0]);
    lemma_commands_push(e.push(a[0]), a[1]);
    lemma_commands_push(e.push(a[0]).push(a[1]), a[2]);
    assert(e.push(a[0]).push(a[1]).push(a[2]) =~= a);
    assert(commands_of(a) =~= seq![
        EmissionCommand::MotionAbsolute { x: x as i64, y: y as i64 },
        EmissionCommand::Frame { serial: (serial + 1) as u32, timestamp: (now + 500_000) as u64 },
    ]);
    let c = closing(serial);
    lemma_commands_push(e, c[0]);
    lemma_commands_push(e.push(c[0]), c[1]);
    lemma_commands_push(e.push(c[0]).push(c[1]), c[2]);
    assert(e.push(c[0]).push(c[1]).push(c[2]) =~= c);
    assert(commands_of(c) =~= seq![EmissionCommand::StopEmulating { serial }]);
    let n = seq![EmissionStep::NoButton];
    lemma_commands_push(e, EmissionStep::NoButton);
    assert(e.push(EmissionStep::NoButton) =~= n);
    assert(commands_of(n) =~= Seq::<EmissionCommand>::empty());
}

/// Whether `after` is the session `before` in an open bracket, with `last`
/// as the last serial used.
pub open spec fn advanced(before: EmissionModel, after: EmissionModel, last: int) -> bool {
    &&& after.state == EmissionState::Emulating
    &&& after.last_serial == Some(last as u32)
    &&& after.device == before.device
    &&& after.pointer == before.pointer
    &&& after.button == before.button
    &&& after.last_sequence == before.last_sequence
}

/// Two moves, each in a frame of its own under the next two serials, are
/// accepted in an open bracket.
proof fn lemma_two_frames(
    m: EmissionModel,
    last: u32,
    c1: EmissionCommand,
    t1: u64,
    c2: EmissionCommand,
    t2: u64,
)
    requires
        m.state == EmissionState::Emulating,
        m.last_serial == Some(last),
        last + 2 <= u32::MAX,
        c1 is MotionAbsolute || (c1 is Button && m.button is Some),
        c2 is MotionAbsolute || (c2 is Button && m.button is Some),
    ensures
        ({
            let cmds = seq![
                c1,
                EmissionCommand::Frame { serial: (last + 1) as u32, timestamp: t1 },
                c2,
                EmissionCommand::Frame { serial: (last + 2) as u32, timestamp: t2 },
            ];
            &&& m.accepts(cmds)
            &&& advanced(m, m.run(cmds), last + 2)
            &&& m.committed(cmds) == seq![(last + 1) as u32, (last + 2) as u32]
        }),
{
    let f1 = EmissionCommand::Frame { serial: (last + 1) as u32, timestamp: t1 };
    let f2 = EmissionCommand::Frame { serial: (last + 2) as u32, timestamp: t2 };
    let e = Seq::<EmissionCommand>::empty();
    assert(m.accepts(e) && m.run(e) == m && m.committed(e) =~= Seq::<u32>::empty());
    lemma_issue(m, e, c1);
    let issued1 = e + seq![c1];
    lemma_issue(m, issued1, f1);
    let issued2 = issued1 + seq![f1];
    lemma_issue(m, issued2, c2);
    let issued3 = issued2 + seq![c2];
    lemma_issue(m, issued3, f2);
    let issued4 = issued3 + seq![f2];
    assert(issued4 =~= seq![c1, f1, c2, f2]);
    assert(m.committed(issued4) =~= seq![(last + 1) as u32, (last + 2) as u32]);
}

/// The rounds of a shake are accepted in an open bracket, and commit their
/// frames under the serials that follow the last one used.
proof fn lemma_shake_is_accepted(m: EmissionModel, serial: u32, now: u64, x: i32, y: i32, rounds: int)
    requires
        m.state == EmissionState::Emulating,
        m.last_serial == Some(serial),
        0 <= rounds,
        serial + 2 * rounds <= u32::MAX,
    ensures
        ({
            let cmds = commands_of(shake_rounds(serial, now, x, y, rounds));
            &&& m.accepts(cmds)
            &&& advanced(m, m.run(cmds), serial + 2 * rounds)
            &&& m.committed(cmds) == serials_from(serial + 1, 2 * rounds)
        }),
    decreases rounds,
{
    if rounds == 0 {
        lemma_short_commands(serial, now, x, y);
        let e = Seq::<EmissionCommand>::empty();
        assert(m.accepts(e) && m.run(e) == m);
        assert(m.committed(e) =~= serials_from(serial + 1, 0));
    } else {
        let i = rounds - 1;
        let head = shake_rounds(serial, now, x, y, i);
        let tail = shake_round(serial, now, x, y, i);
        lemma_shake_is_accepted(m, serial, now, x, y, i);
        lemma_commands_concat(head, tail);
        lemma_round_commands(serial, now, x, y, i);
        let mid = m.run(commands_of(head));
        lemma_two_frames(
            mid,
            (serial + 2 * i) as u32,
            EmissionCommand::MotionAbsolute { x: (x + (i + 1) * SHAKE_STRIDE) as i64, y: y as i64 },
            (now + i * 100_000) as u64,
            EmissionCommand::MotionAbsolute { x: x as i64, y: y as i64 },
            (now + i * 100_000 + 50_000) as u64,
        );
        lemma_accepts_concat(m, commands_of(head), commands_of(tail));
        assert(serials_from(serial + 1, 2 * i) + seq![
            (serial + 2 * i + 1) as u32,
            (serial + 2 * i + 2) as u32,
        ] =~= serials_from(serial + 1, 2 * rounds));
    }
}

/// The calls of a plan are all accepted, whatever the point, by a session
/// that is idle, has used neither a serial beyond `serial` nor a sequence,
/// and drives a device that has buttons where the plan counts on them. The
/// frames are committed under the serials that follow `serial`, one after
/// the other, and the bracket is closed at the end under the last of them.
pub proof fn lemma_plan_is_accepted(
    m: EmissionModel,
    serial: u32,
    now: u64,
    x: i32,
    y: i32,
    click: bool,
    shake: bool,
)
    requires
        m.state == EmissionState::Idle,
        !m.is_behind(serial),
        !m.is_used_sequence(1),
        serial + frames_needed(click, shake, m.button is Some) <= u32::MAX,
    ensures
        ({
            let frames = frames_needed(click, shake, m.button is Some);
            let cmds = commands_of(
                emission_plan(serial, now, x, y, click, shake, m.button is Some),
            );
            &&& m.accepts(cmds)
            &&& m.committed(cmds) == serials_from(serial + 1, frames)
            &&& m.run(cmds).state == EmissionState::Idle
            &&& m.run(cmds).last_serial == Some((serial + frames) as u32)
        }),
{
    let has_button = m.button is Some;
    let frames = frames_needed(click, shake, has_button);
    let rounds: int = if shake { SHAKE_ROUNDS as int } else { 0 };
    let shaken = after_shake(serial, shake) as u32;
    let moved = (shaken + 1) as u32;
    let last = (serial + frames) as u32;
    let opened = opening(serial);
    let shaken_steps = shake_rounds(serial, now, x, y, rounds);
    let moved_steps = approach(shaken, now, x, y);
    let clicked_steps = click_part(moved, now, click, has_button);
    let closed = closing(last);
    lemma_commands_concat(opened, shaken_steps);
    lemma_commands_concat(opened + shaken_steps, moved_steps);
    lemma_commands_concat(opened + shaken_steps + moved_steps, clicked_steps);
    lemma_commands_concat(opened + shaken_steps + moved_steps + clicked_steps, closed);
    lemma_short_commands(serial, now, x, y);
    lemma_short_commands(shaken, now, x, y);
    lemma_short_commands(last, now, x, y);
    let c0 = commands_of(opened);
    let c1 = commands_of(shaken_steps);
    let c2 = commands_of(moved_steps);
    let c3 = commands_of(clicked_steps);
    let c4 = commands_of(closed);
    // the bracket is opened
    let start = EmissionCommand::StartEmulating { serial, sequence: 1 };
    lemma_issue_one(m, start);
    let m0 = m.run(c0);
    assert(m0 == m.after(start));
    assert(m.committed(c0) =~= Seq::<u32>::empty());
    // the shake
    lemma_shake_is_accepted(m0, serial, now, x, y, rounds);
    lemma_accepts_concat(m, c0, c1);
    let m1 = m.run(c0 + c1);
    assert(m1.state == EmissionState::Emulating && m1.last_serial == Some(shaken) && m1.button
        == m.button);
    // the move
    let motion = EmissionCommand::MotionAbsolute { x: x as i64, y: y as i64 };
    let frame = EmissionCommand::Frame { serial: moved, timestamp: (now + 500_000) as u64 };
    let e = Seq::<EmissionCommand>::empty();
    assert(m1.accepts(e) && m1.run(e) == m1 && m1.committed(e) =~= Seq::<u32>::empty());
    lemma_issue(m1, e, motion);
    lemma_issue(m1, e + seq![motion], frame);
    assert(e + seq![motion] + seq![frame] =~= c2);
    assert(m1.committed(c2) =~= seq![moved]);
    lemma_accepts_concat(m, c0 + c1, c2);
    let m2 = m.run(c0 + c1 + c2);
    assert(m2.state == EmissionState::Emulating && m2.last_serial == Some(moved) && m2.button
        == m.button);
    // the click
    if click && has_button {
        lemma_click_commands(moved, now);
        lemma_two_frames(
            m2,
            moved,
            EmissionCommand::Button { code: BUTTON_PRIMARY, state: ButtonState::Press },
            (now + 550_000) as u64,
            EmissionCommand::Button { code: BUTTON_PRIMARY, state: ButtonState::Released },
            (now + 600_000) as u64,
        );
    } else {
        assert(c3 =~= e);
        assert(m2.accepts(e) && m2.run(e) == m2 && m2.committed(e) =~= Seq::<u32>::empty());
    }
    lemma_accepts_concat(m, c0 + c1 + c2, c3);
    let m3 = m.run(c0 + c1 + c2 + c3);
    assert(m3.state == EmissionState::Emulating && m3.last_serial == Some(last));
    // the bracket is closed
    let stop = EmissionCommand::StopEmulating { serial: last };
    lemma_issue_one(m3, stop);
    lemma_accepts_concat(m, c0 + c1 + c2 + c3, c4);
    assert(m.committed(c0 + c1 + c2 + c3 + c4) =~= serials_from(serial + 1, frames));
}

/// Whether a step opens the bracket.
pub open spec fn is_start(step: EmissionStep) -> bool {
    step matches EmissionStep::Command(EmissionCommand::StartEmulating { .. })
}

/// Whether a step closes the bracket.
pub open spec fn is_stop(step: EmissionStep) -> bool {
    step matches EmissionStep::Command(EmissionCommand::StopEmulating { .. })
}

/// Whether a step commits a frame.
pub open spec fn is_frame(step: EmissionStep) -> bool {
    step matches EmissionStep::Command(EmissionCommand::Frame { .. })
}

/// Whether a step opens or closes the bracket, or commits a frame.
pub open spec fn bears_serial(step: EmissionStep) -> bool {
    is_start(step) || is_stop(step) || is_frame(step)
}

/// Whether no step of `steps` opens or closes the bracket.
pub open spec fn inside(steps: Seq<EmissionStep>) -> bool {
    forall|i: int| 0 <= i < steps.len() ==> !is_start(#[trigger] steps[i]) && !is_stop(steps[i])
}

/// Whether each step of `steps` that opens or closes the bracket, or commits
/// a frame, is followed at once by a flush.
pub open spec fn flushed(steps: Seq<EmissionStep>) -> bool {
    forall|i: int|
        0 <= i < steps.len() && bears_serial(#[trigger] steps[i]) ==> i + 1 < steps.len() && steps[i
            + 1] == EmissionStep::Flush
}

/// What lies between the opening and the closing of a plan.
pub open spec fn middle(
    serial: u32,
    now: u64,
    x: i32,
    y: i32,
    click: bool,
    shake: bool,
    has_button: bool,
) -> Seq<EmissionStep> {
    shake_rounds(serial, now, x, y, if shake { SHAKE_ROUNDS as int } else { 0 }) + approach(
        after_shake(serial, shake) as u32,
        now,
        x,
        y,
    ) + click_part((after_shake(serial, shake) + 1) as u32, now, click, has_button)
}

/// Two lists of steps that stay inside the bracket, and flush as they
/// should, make one list that does.
proof fn lemma_parts_join(a: Seq<EmissionStep>, b: Seq<EmissionStep>)
    requires
        inside(a),
        inside(b),
        flushed(a),
        flushed(b),
    ensures
        inside(a + b),
        flushed(a + b),
{
    let all = a + b;
    assert forall|i: int| 0 <= i < all.len() implies !is_start(#[trigger] all[i]) && !is_stop(
        all[i],
    ) by {
        if i < a.len() {
            assert(all[i] == a[i]);
        } else {
            assert(all[i] == b[i - a.len()]);
        }
    }
    assert forall|i: int| 0 <= i < all.len() && bears_serial(#[trigger] all[i]) implies i + 1
        < all.len() && all[i + 1] == EmissionStep::Flush by {
        if i < a.len() {
            assert(all[i] == a[i]);
            assert(all[i + 1] == a[i + 1]);
        } else {
            assert(all[i] == b[i - a.len()]);
            assert(all[i + 1] == b[i - a.len() + 1]);
        }
    }
}

/// The rounds of a shake stay inside the bracket and flush each frame.
proof fn lemma_shake_shape(serial: u32, now: u64, x: i32, y: i32, rounds: int)
    ensures
        inside(shake_rounds(serial, now, x, y, rounds)),
        flushed(shake_rounds(serial, now, x, y, rounds)),
    decreases rounds,
{
    if rounds > 0 {
        lemma_shake_shape(serial, now, x, y, rounds - 1);
        let round = shake_round(serial, now, x, y, rounds - 1);
        assert(inside(round));
        assert(flushed(round));
        lemma_parts_join(shake_rounds(serial, now, x, y, rounds - 1), round);
    }
}

/// What lies between the opening and the closing of a plan stays inside the
/// bracket and flushes each frame.
proof fn lemma_middle_shape(
    serial: u32,
    now: u64,
    x: i32,
    y: i32,
    click: bool,
    shake: bool,
    has_button: bool,
)
    ensures
        inside(middle(serial, now, x, y, click, shake, has_button)),
        flushed(middle(serial, now, x, y, click, shake, has_button)),
{
    let rounds: int = if shake { SHAKE_ROUNDS as int } else { 0 };
    let shaken = shake_rounds(serial, now, x, y, rounds);
    let moved = approach(after_shake(serial, shake) as u32, now, x, y);
    let clicked = click_part((after_shake(serial, shake) + 1) as u32, now, click, has_button);
    lemma_shake_shape(serial, now, x, y, rounds);
    assert(inside(moved));
    assert(flushed(moved));
    assert(inside(clicked));
    assert(flushed(clicked));
    lemma_parts_join(shaken, moved);
    lemma_parts_join(shaken + moved, clicked);
}

/// The shape of every plan, whatever it is asked for. It opens the bracket
/// in its first step, with sequence 1, and in no other; so no move and no
/// button stands before the opening. It closes the bracket in its last step
/// but one, and in no other; so no move, button or frame stands behind the
/// closing, and only a flush follows it. Each opening, frame and closing is
/// followed at once by a flush, so that never more than one frame is staged
/// and not written.
pub proof fn lemma_plan_shape(
    serial: u32,
    now: u64,
    x: i32,
    y: i32,
    click: bool,
    shake: bool,
    has_button: bool,
)
    ensures
        ({
            let plan = emission_plan(serial, now, x, y, click, shake, has_button);
            let n = plan.len() as int;
            &&& n >= 8
            &&& plan[0] == EmissionStep::Command(
                EmissionCommand::StartEmulating { serial, sequence: 1 },
            )
            &&& forall|i: int| 1 <= i < n ==> !is_start(#[trigger] plan[i])
            &&& plan[n - 2] == EmissionStep::Command(
                EmissionCommand::StopEmulating {
                    serial: (serial + frames_needed(click, shake, has_button)) as u32,
                },
            )
            &&& plan[n - 1] == EmissionStep::Flush
            &&& forall|i: int| 0 <= i < n && i != n - 2 ==> !is_stop(#[trigger] plan[i])
            &&& flushed(plan)
        }),
{
    let plan = emission_plan(serial, now, x, y, click, shake, has_button);
    let first = opening(serial);
    let mid = middle(serial, now, x, y, click, shake, has_button);
    let last = closing((serial + frames_needed(click, shake, has_button)) as u32);
    lemma_middle_shape(serial, now, x, y, click, shake, has_button);
    assert(plan =~= first + mid + last);
    assert(mid.len() >= 3) by {
        assert(approach(after_shake(serial, shake) as u32, now, x, y).len() == 3);
    }
    let n = plan.len() as int;
    assert(n == 2 + mid.len() + 3);
    assert forall|i: int| 0 <= i < n implies (i == 0 || !is_start(#[trigger] plan[i])) && (i == n - 2
        || !is_stop(plan[i])) && (bears_serial(plan[i]) ==> i + 1 < n && plan[i + 1]
        == EmissionStep::Flush) by {
        if i < 2 {
            assert(plan[i] == first[i]);
            assert(plan[1] == first[1]);
        } else if i < 2 + mid.len() {
            assert(plan[i] == mid[i - 2]);
            if bears_serial(plan[i]) {
                assert(plan[i + 1] == mid[i - 2 + 1]);
            }
        } else {
            assert(plan[i] == last[i - 2 - mid.len()]);
            assert(plan[n - 1] == last[2]);
        }
    }
    assert(plan[0] == first[0]);
    assert(plan[n - 2] == last[1]);
    assert(plan[n - 1] == last[2]);
}

/// The calls of the plan that moves to a point and clicks, without a shake,
/// on a device with buttons: the bracket is opened under `serial`, the move
/// is committed under the next serial at half a second after `now`, the
/// press fifty milliseconds later, the release fifty milliseconds after the
/// press, and the bracket is closed under the serial of the last frame.
pub proof fn lemma_click_plan_calls(serial: u32, now: u64, x: i32, y: i32)
    ensures
        commands_of(emission_plan(serial, now, x, y, true, false, true)) == seq![
            EmissionCommand::StartEmulating { serial, sequence: 1 },
            EmissionCommand::MotionAbsolute { x: x as i64, y: y as i64 },
            EmissionCommand::Frame {
                serial: (serial + 1) as u32,
                timestamp: (now + 500_000) as u64,
            },
            EmissionCommand::Button { code: BUTTON_PRIMARY, state: ButtonState::Press },
            EmissionCommand::Frame {
                serial: ((serial + 1) as u32 + 1) as u32,
                timestamp: (now + 500_000 + 50_000) as u64,
            },
            EmissionCommand::Button { code: BUTTON_PRIMARY, state: ButtonState::Released },
            EmissionCommand::Frame {
                serial: ((serial + 1) as u32 + 2) as u32,
                timestamp: (now + 500_000 + 100_000) as u64,
            },
            EmissionCommand::StopEmulating { serial: (serial + 3) as u32 },
        ],
{
    let moved = (serial + 1) as u32;
    let opened = opening(serial);
    let shaken = shake_rounds(serial, now, x, y, 0);
    let approached = approach(serial, now, x, y);
    let clicked = click_steps(moved, now);
    let closed = closing((serial + 3) as u32);
    assert(emission_plan(serial, now, x, y, true, false, true) == opened + shaken + approached
        + clicked + closed);
    lemma_commands_concat(opened, shaken);
    lemma_commands_concat(opened + shaken, approached);
    lemma_commands_concat(opened + shaken + approached, clicked);
    lemma_commands_concat(opened + shaken + approached + clicked, closed);
    lemma_short_commands(serial, now, x, y);
    lemma_short_commands((serial + 3) as u32, now, x, y);
    lemma_click_commands(moved, now);
    assert(commands_of(shaken) =~= Seq::<EmissionCommand>::empty());
    assert(commands_of(opened) + commands_of(shaken) + commands_of(approached) + commands_of(clicked)
        + commands_of(closed) =~= seq![
        EmissionCommand::StartEmulating { serial, sequence: 1 },
        EmissionCommand::MotionAbsolute { x: x as i64, y: y as i64 },
        EmissionCommand::Frame { serial: (serial + 1) as u32, timestamp: (now + 500_000) as u64 },
        EmissionCommand::Button { code: BUTTON_PRIMARY, state: ButtonState::Press },
        EmissionCommand::Frame { serial: (moved + 1) as u32, timestamp: (now + 550_000) as u64 },
        EmissionCommand::Button { code: BUTTON_PRIMARY, state: ButtonState::Released },
        EmissionCommand::Frame { serial: (moved + 2) as u32, timestamp: (now + 600_000) as u64 },
        EmissionCommand::StopEmulating { serial: (serial + 3) as u32 },
    ]);
}

} // verus!
