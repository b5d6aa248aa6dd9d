use portal_input::command::{
    after_command, after_read, interpret, parse_command, portal_steps, shake_steps, Command, Flow,
    PortalStep, SHAKE_DISTANCE,
};
use portal_input::words::{read_i32, read_u32, split_marked, split_words};

fn strings(words: &[&str]) -> Vec<String> {
    words.iter().map(|w| String::from(*w)).collect()
}

#[test]
fn split_words_on_white_space() {
    assert_eq!(split_words("move 10 20"), strings(&["move", "10", "20"]));
    assert_eq!(split_words("  move\t10 \u{a0} 20\r\n"), strings(&["move", "10", "20"]));
    assert_eq!(split_words("\u{2003}q\u{3000}"), strings(&["q"]));
    assert_eq!(split_words("click"), strings(&["click"]));
    assert_eq!(split_words("a-b_c.d"), strings(&["a-b_c.d"]));
    assert!(split_words("").is_empty());
    assert!(split_words(" \t \n").is_empty());
    assert_eq!(split_words("é ü"), strings(&["é", "ü"]));
}

#[test]
fn split_marked_goes_by_the_marks() {
    // the marks decide, not the characters: the second blank is kept, the `c` parts
    let marks = vec![false, true, false, false, true, true, false];
    assert_eq!(split_marked("a b  c d", &marks), strings(&["a", "b ", " d"]));
    assert_eq!(split_marked("abc", &vec![true, true, true]), Vec::<String>::new());
    assert_eq!(split_marked("abc", &Vec::new()), strings(&["abc"]));
    assert_eq!(split_marked("abc", &vec![false, true]), strings(&["a", "c"]));
    assert_eq!(split_marked("", &vec![true]), Vec::<String>::new());
}

#[test]
fn read_u32_accepts_what_parse_accepts() {
    let cases = [
        "0", "7", "42", "+42", "007", "4294967295", "4294967296", "99999999999999999999", "",
        "+", "-", "-1", "-0", "1 ", " 1", "1a", "a1", "1.0", "+-1", "++1", "٣", "１２",
    ];
    for case in cases {
        assert_eq!(read_u32(case), case.parse::<u32>().ok(), "for {:?}", case);
    }
    assert_eq!(read_u32("4294967295"), Some(u32::MAX));
    assert_eq!(read_u32("4294967296"), None);
}

#[test]
fn read_i32_accepts_what_parse_accepts() {
    let cases = [
        "0", "-0", "+0", "28", "-28", "+28", "2147483647", "2147483648", "-2147483648",
        "-2147483649", "000000000000000000001", "-99999999999", "", "+", "-", "--1", "-+1",
        "1-", "1e3", "0x10", "5٣",
    ];
    for case in cases {
        assert_eq!(read_i32(case), case.parse::<i32>().ok(), "for {:?}", case);
    }
    assert_eq!(read_i32("-2147483648"), Some(i32::MIN));
    assert_eq!(read_i32("2147483647"), Some(i32::MAX));
}

#[test]
fn commands_are_read_from_lines() {
    assert!(matches!(parse_command(""), Command::Empty));
    assert!(matches!(parse_command("   \t"), Command::Empty));
    assert!(matches!(parse_command("click"), Command::Click));
    assert!(matches!(parse_command("  click  now"), Command::Click));
    assert!(matches!(parse_command("rclick"), Command::RightClick));
    assert!(matches!(parse_command("shake"), Command::Shake));
    assert!(matches!(parse_command("quit"), Command::Quit));
    assert!(matches!(parse_command("exit"), Command::Quit));
    assert!(matches!(parse_command("q\n"), Command::Quit));
    assert!(matches!(parse_command("key 28"), Command::Key { code: 28 }));
    assert!(matches!(parse_command("key -5 9"), Command::Key { code: -5 }));
    assert!(matches!(parse_command("key enter"), Command::Key { code: 0 }));
    assert!(matches!(parse_command("key 2147483648"), Command::Key { code: 0 }));
}

#[test]
fn move_keeps_coordinates_as_typed() {
    match parse_command("move 10.5 -20 2") {
        Command::Move { x, y, stream } => {
            assert_eq!(x, "10.5");
            assert_eq!(y, "-20");
            assert_eq!(stream, 2);
        }
        other => panic!("unexpected {:?}", other),
    }
    match parse_command("move 1 2") {
        Command::Move { x, y, stream } => {
            assert_eq!((x.as_str(), y.as_str(), stream), ("1", "2", 0));
        }
        other => panic!("unexpected {:?}", other),
    }
    match parse_command("move a b c") {
        Command::Move { x, y, stream } => {
            assert_eq!((x.as_str(), y.as_str(), stream), ("a", "b", 0));
        }
        other => panic!("unexpected {:?}", other),
    }
    match parse_command("rel -3.25 4") {
        Command::Relative { dx, dy } => assert_eq!((dx.as_str(), dy.as_str()), ("-3.25", "4")),
        other => panic!("unexpected {:?}", other),
    }
}

#[test]
fn incomplete_and_unknown_commands() {
    for line in ["move", "move 1", "rel", "rel 1", "key", "jump 3", "Click", "quitx"] {
        let first = line.split(' ').next().unwrap();
        match parse_command(line) {
            Command::Unknown { word } => assert_eq!(word, first),
            other => panic!("unexpected {:?} for {:?}", other, line),
        }
    }
}

#[test]
fn interpret_reads_words() {
    assert!(matches!(interpret(&Vec::new()), Command::Empty));
    assert!(matches!(interpret(&strings(&["key", "+57"])), Command::Key { code: 57 }));
    assert!(matches!(
        interpret(&strings(&["move", "1", "2", "4294967295"])),
        Command::Move { stream: u32::MAX, .. }
    ));
    assert!(matches!(
        interpret(&strings(&["move", "1", "2", "-1"])),
        Command::Move { stream: 0, .. }
    ));
}

#[test]
fn steps_of_commands() {
    assert_eq!(SHAKE_DISTANCE, 100);
    assert_eq!(
        portal_steps(&Command::Click),
        vec![
            PortalStep::Button { code: 272, pressed: true },
            PortalStep::Sleep { millis: 50 },
            PortalStep::Button { code: 272, pressed: false },
        ]
    );
    assert_eq!(
        portal_steps(&Command::RightClick),
        vec![
            PortalStep::Button { code: 273, pressed: true },
            PortalStep::Sleep { millis: 50 },
            PortalStep::Button { code: 273, pressed: false },
        ]
    );
    assert_eq!(
        portal_steps(&Command::Key { code: 28 }),
        vec![
            PortalStep::Key { key: 28, pressed: true },
            PortalStep::Sleep { millis: 50 },
            PortalStep::Key { key: 28, pressed: false },
        ]
    );
    assert_eq!(portal_steps(&Command::Shake), shake_steps(5));
    assert!(portal_steps(&Command::Quit).is_empty());
    assert!(portal_steps(&Command::Empty).is_empty());
    assert!(portal_steps(&Command::Unknown { word: String::from("x") }).is_empty());
}

#[test]
fn shake_goes_to_the_side_and_back() {
    assert!(shake_steps(0).is_empty());
    let round = vec![
        PortalStep::Motion { dx: 100, dy: 0 },
        PortalStep::Sleep { millis: 100 },
        PortalStep::Motion { dx: -100, dy: 0 },
        PortalStep::Sleep { millis: 100 },
    ];
    assert_eq!(shake_steps(1), round);
    let ten = shake_steps(10);
    assert_eq!(ten.len(), 40);
    for chunk in ten.chunks(4) {
        assert_eq!(chunk, round.as_slice());
    }
}

#[test]
fn reading_ends_at_the_end_of_input() {
    assert_eq!(after_read(Some(6)), Flow::Continue);
    assert_eq!(after_read(Some(1)), Flow::Continue);
    assert_eq!(after_read(Some(0)), Flow::Stop);
    assert_eq!(after_read(None), Flow::Stop);
}

#[test]
fn what_follows_a_command() {
    for failed in [false, true] {
        assert_eq!(after_command(&Command::Quit, failed), Flow::Stop);
        assert_eq!(after_command(&Command::Empty, failed), Flow::Continue);
        assert_eq!(
            after_command(&Command::Unknown { word: String::from("x") }, failed),
            Flow::Continue
        );
        // a failed move is told, and the next line is asked for
        assert_eq!(after_command(&parse_command("move 1 2"), failed), Flow::Continue);
        assert_eq!(after_command(&parse_command("rel 1 2"), failed), Flow::Continue);
    }
    for command in [Command::Click, Command::RightClick, Command::Key { code: 28 }, Command::Shake] {
        assert_eq!(after_command(&command, false), Flow::Continue);
        assert_eq!(after_command(&command, true), Flow::Fail);
    }
}

#[test]
fn white_space_below_u0080_is_the_space_and_five_controls() {
    for code in 0u8..0x80 {
        let c = code as char;
        let line = format!("a{}b", c);
        let parts = split_words(&line);
        let space = c == ' ' || (0x09..=0x0d).contains(&code);
        if space {
            assert_eq!(parts, strings(&["a", "b"]), "for U+{:04X}", code);
        } else {
            assert_eq!(parts, vec![line.clone()], "for U+{:04X}", code);
        }
    }
}
