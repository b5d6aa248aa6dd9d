use portal_input::emission::{EmissionCommand, EmissionError};
use portal_input::plan::{
    plan_emission, plan_fits, plan_if_fits, EmissionStep, BUTTON_PRIMARY, BUTTON_SECONDARY,
    SHAKE_ROUNDS, SHAKE_STRIDE,
};
use portal_input::wire::ButtonState;

fn motion(x: i64, y: i64) -> EmissionStep {
    EmissionStep::Command(EmissionCommand::MotionAbsolute { x, y })
}

fn frame(serial: u32, timestamp: u64) -> EmissionStep {
    EmissionStep::Command(EmissionCommand::Frame { serial, timestamp })
}

fn sleep(millis: u64) -> EmissionStep {
    EmissionStep::Sleep { millis }
}

#[test]
fn constants() {
    assert_eq!(BUTTON_PRIMARY, 272);
    assert_eq!(BUTTON_SECONDARY, 273);
    assert_eq!(SHAKE_ROUNDS, 5);
    assert_eq!(SHAKE_STRIDE, 50);
}

#[test]
fn plain_move() {
    let plan = plan_emission(1, 1_000, 500, 400, false, false, true);
    assert_eq!(
        plan,
        vec![
            EmissionStep::Command(EmissionCommand::StartEmulating { serial: 1, sequence: 1 }),
            EmissionStep::Flush,
            motion(500, 400),
            frame(2, 501_000),
            EmissionStep::Flush,
            sleep(100),
            EmissionStep::Command(EmissionCommand::StopEmulating { serial: 2 }),
            EmissionStep::Flush,
        ]
    );
}

#[test]
fn move_and_click() {
    let plan = plan_emission(1, 0, 500, 500, true, false, true);
    assert_eq!(
        plan,
        vec![
            EmissionStep::Command(EmissionCommand::StartEmulating { serial: 1, sequence: 1 }),
            EmissionStep::Flush,
            motion(500, 500),
            frame(2, 500_000),
            EmissionStep::Flush,
            sleep(100),
            EmissionStep::Command(EmissionCommand::Button { code: 272, state: ButtonState::Press }),
            frame(3, 550_000),
            EmissionStep::Flush,
            sleep(50),
            EmissionStep::Command(EmissionCommand::Button {
                code: 272,
                state: ButtonState::Released
            }),
            frame(4, 600_000),
            EmissionStep::Flush,
            sleep(100),
            EmissionStep::Command(EmissionCommand::StopEmulating { serial: 4 }),
            EmissionStep::Flush,
        ]
    );
}

#[test]
fn click_without_buttons_is_noted() {
    let plan = plan_emission(7, 0, -10, 20, true, false, false);
    assert_eq!(
        plan,
        vec![
            EmissionStep::Command(EmissionCommand::StartEmulating { serial: 7, sequence: 1 }),
            EmissionStep::Flush,
            motion(-10, 20),
            frame(8, 500_000),
            EmissionStep::Flush,
            EmissionStep::NoButton,
            sleep(100),
            EmissionStep::Command(EmissionCommand::StopEmulating { serial: 8 }),
            EmissionStep::Flush,
        ]
    );
}

#[test]
fn shake_goes_further_each_round() {
    let now: u64 = 10_000_000;
    let plan = plan_emission(3, now, 100, 200, false, true, true);
    assert_eq!(plan.len(), 2 + 5 * 8 + 3 + 3);
    assert_eq!(
        plan[0],
        EmissionStep::Command(EmissionCommand::StartEmulating { serial: 3, sequence: 1 })
    );
    assert_eq!(plan[1], EmissionStep::Flush);
    for i in 0..5u64 {
        let base = 2 + 8 * i as usize;
        let round = &plan[base..base + 8];
        assert_eq!(round[0], motion(100 + (i as i64 + 1) * 50, 200));
        assert_eq!(round[1], frame(3 + 2 * i as u32 + 1, now + i * 100_000));
        assert_eq!(round[2], EmissionStep::Flush);
        assert_eq!(round[3], sleep(100));
        assert_eq!(round[4], motion(100, 200));
        assert_eq!(round[5], frame(3 + 2 * i as u32 + 2, now + i * 100_000 + 50_000));
        assert_eq!(round[6], EmissionStep::Flush);
        assert_eq!(round[7], sleep(100));
    }
    assert_eq!(plan[42], motion(100, 200));
    assert_eq!(plan[43], frame(14, now + 500_000));
    assert_eq!(plan[44], EmissionStep::Flush);
    assert_eq!(plan[45], sleep(100));
    assert_eq!(plan[46], EmissionStep::Command(EmissionCommand::StopEmulating { serial: 14 }));
    assert_eq!(plan[47], EmissionStep::Flush);
}

#[test]
fn plan_at_the_limits() {
    let plan = plan_emission(u32::MAX - 13, u64::MAX - 600_000, i32::MAX, i32::MIN, true, true, true);
    assert_eq!(plan[2], motion(i32::MAX as i64 + 50, i32::MIN as i64));
    let last_frame = plan
        .iter()
        .filter_map(|s| match s {
            EmissionStep::Command(EmissionCommand::Frame { serial, timestamp }) => {
                Some((*serial, *timestamp))
            }
            _ => None,
        })
        .last();
    assert_eq!(last_frame, Some((u32::MAX, u64::MAX)));
    let plan = plan_emission(u32::MAX - 1, u64::MAX - 500_000, 0, 0, false, false, false);
    assert_eq!(plan[3], frame(u32::MAX, u64::MAX));
}

#[test]
fn click_plan_makes_its_calls_in_order() {
    let now: u64 = 1_700_000_000_000_000;
    let t = now + 500_000;
    let calls: Vec<EmissionCommand> = plan_emission(1, now, 500, 500, true, false, true)
        .into_iter()
        .filter_map(|step| match step {
            EmissionStep::Command(command) => Some(command),
            _ => None,
        })
        .collect();
    assert_eq!(
        calls,
        vec![
            EmissionCommand::StartEmulating { serial: 1, sequence: 1 },
            EmissionCommand::MotionAbsolute { x: 500, y: 500 },
            EmissionCommand::Frame { serial: 2, timestamp: t },
            EmissionCommand::Button { code: 272, state: ButtonState::Press },
            EmissionCommand::Frame { serial: 3, timestamp: t + 50_000 },
            EmissionCommand::Button { code: 272, state: ButtonState::Released },
            EmissionCommand::Frame { serial: 4, timestamp: t + 100_000 },
            EmissionCommand::StopEmulating { serial: 4 },
        ]
    );
}

#[test]
fn every_serial_bearing_step_is_flushed_at_once() {
    for (click, shake, has_button) in [
        (false, false, false),
        (true, false, true),
        (true, false, false),
        (false, true, true),
        (true, true, true),
    ] {
        let plan = plan_emission(9, 10, -3, 4, click, shake, has_button);
        let n = plan.len();
        assert_eq!(
            plan[0],
            EmissionStep::Command(EmissionCommand::StartEmulating { serial: 9, sequence: 1 })
        );
        assert!(matches!(
            plan[n - 2],
            EmissionStep::Command(EmissionCommand::StopEmulating { .. })
        ));
        assert_eq!(plan[n - 1], EmissionStep::Flush);
        for (i, step) in plan.iter().enumerate() {
            match step {
                EmissionStep::Command(EmissionCommand::StartEmulating { .. }) => assert_eq!(i, 0),
                EmissionStep::Command(EmissionCommand::StopEmulating { .. }) => {
                    assert_eq!(i, n - 2)
                }
                _ => {}
            }
            if matches!(
                step,
                EmissionStep::Command(
                    EmissionCommand::StartEmulating { .. }
                        | EmissionCommand::Frame { .. }
                        | EmissionCommand::StopEmulating { .. }
                )
            ) {
                assert_eq!(plan[i + 1], EmissionStep::Flush);
            }
        }
    }
}

#[test]
fn plan_fits_up_to_the_limits() {
    // a move alone takes one serial and half a second
    assert!(plan_fits(u32::MAX - 1, u64::MAX - 500_000, false, false, true));
    assert!(!plan_fits(u32::MAX, u64::MAX - 500_000, false, false, true));
    assert!(!plan_fits(u32::MAX - 1, u64::MAX - 499_999, false, false, true));
    // a click takes two more, and a tenth of a second more
    assert!(plan_fits(u32::MAX - 3, u64::MAX - 600_000, true, false, true));
    assert!(!plan_fits(u32::MAX - 2, u64::MAX - 600_000, true, false, true));
    assert!(!plan_fits(u32::MAX - 3, u64::MAX - 599_999, true, false, true));
    // a click on a device without buttons takes none
    assert!(plan_fits(u32::MAX - 1, u64::MAX - 500_000, true, false, false));
    // a shake takes ten more
    assert!(plan_fits(u32::MAX - 11, 0, false, true, false));
    assert!(!plan_fits(u32::MAX - 10, 0, false, true, false));
    assert!(plan_fits(u32::MAX - 13, u64::MAX - 600_000, true, true, true));
    assert!(!plan_fits(u32::MAX - 12, u64::MAX - 600_000, true, true, true));
    assert!(plan_fits(0, 0, true, true, true));
}

#[test]
fn plan_that_does_not_fit_is_refused() {
    assert_eq!(
        plan_if_fits(u32::MAX, 0, 500, 500, false, false, true),
        Err(EmissionError::OrderingViolation)
    );
    assert_eq!(
        plan_if_fits(1, u64::MAX, 500, 500, false, false, true),
        Err(EmissionError::OrderingViolation)
    );
    assert_eq!(
        plan_if_fits(1, 7, 500, 400, true, true, true),
        Ok(plan_emission(1, 7, 500, 400, true, true, true))
    );
    assert_eq!(
        plan_if_fits(u32::MAX - 1, 7, 1, 2, false, false, false),
        Ok(plan_emission(u32::MAX - 1, 7, 1, 2, false, false, false))
    );
}
