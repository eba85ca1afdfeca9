use gradient_message::arguments::ProgramArguments;
use gradient_message::color::{Color, Direction};
use gradient_message::input::{
    handle_network_input, handle_network_rotation, handle_network_set_angle,
    handle_network_set_color, handle_network_set_message,
};
use gradient_message::parser::{
    parse_client_control_message, parse_hex_color, parse_message, parse_program_colors,
    ControlMessage, ControlMessageAction, ParsedControlMessage, ParsedMessage,
};
use gradient_message::render_loop::{
    animates, dispatch_control_message, handle_terminal_event, next_phase, LoopPhase,
    TerminalEvent,
};
use gradient_message::state::{generate_program_state, ProgramMode, ProgramState};
use gradient_message::terminal::{
    enter_iterative_mode, leave_iterative_mode, AlternateScreenAction, CursorVisibilityAction,
    ModeChange, ModeStep, OnFailure, SetStdinRawModeAction, TerminalSize,
};
use gradient_message::text::split_on;

const ALONG: Direction = Direction { x: 1_000_000, y: 0 };

fn red_blue() -> ProgramState {
    ProgramState::new(
        30,
        vec![Color { r: 255, g: 0, b: 0 }, Color { r: 0, g: 0, b: 255 }],
        ProgramMode::Flash,
        0,
        false,
        false,
    )
}

fn request(action: &str) -> ControlMessage {
    ControlMessage { action: action.to_string(), message: None, colors: None, angle: None }
}

fn command(action: ControlMessageAction, value: &str) -> ParsedControlMessage {
    ParsedControlMessage { action, value: value.to_string() }
}

fn arguments() -> ProgramArguments {
    ProgramArguments {
        message_file: None,
        display_text: None,
        align_vertically: false,
        align_horizontally: false,
        line_by_line_mode: None,
        char_by_char_mode: None,
        colors: None,
        angle: None,
        disable_iterative: false,
        disable_stdout: false,
        control_server: None,
    }
}

fn rows(message: &ParsedMessage) -> Vec<String> {
    message.lines.iter().map(|line| line.concat()).collect()
}

#[test]
fn message_of_two_lines_is_a_grid_of_two_rows() {
    let parsed = parse_message("HELLO\nWORLD".to_string());
    assert_eq!(parsed.lines.len(), 2);
    assert_eq!(parsed.max_line_size, 5);
    assert_eq!(parsed.lines[0], vec!["H", "E", "L", "L", "O"]);
    assert_eq!(parsed.lines[1], vec!["W", "O", "R", "L", "D"]);
}

#[test]
fn set_message_replaces_the_grid_and_asks_for_a_clear() {
    let mut state = red_blue();
    let mut message = parse_message("a much longer message than the next".to_string());
    let result = handle_network_input(
        command(ControlMessageAction::SetMessage, "HELLO\nWORLD"),
        &mut state,
        &mut message,
        ALONG,
        "",
    );
    assert_eq!(result, Ok(true));
    assert_eq!(message.lines.len(), 2);
    assert_eq!(message.max_line_size, 5);
    assert_eq!(rows(&message), vec!["HELLO", "WORLD"]);
    assert_eq!(state.angle, 30_000_000);
}

#[test]
fn message_lines_and_glyphs_at_the_edges() {
    let empty = parse_message(String::new());
    assert_eq!(empty.lines, vec![Vec::<String>::new()]);
    assert_eq!(empty.max_line_size, 0);

    let trailing = parse_message("ab\n".to_string());
    assert_eq!(trailing.lines, vec![vec!["a".to_string(), "b".to_string()], vec![]]);
    assert_eq!(trailing.max_line_size, 2);

    let ragged = parse_message("\n\nxyz\nx".to_string());
    assert_eq!(ragged.lines.len(), 4);
    assert_eq!(ragged.max_line_size, 3);
}

#[test]
fn glyphs_are_grapheme_clusters_not_characters() {
    let parsed = parse_message("e\u{301}x\n\u{1f1f7}\u{1f1fa}\u{1f1f8}\u{1f1f9}!".to_string());
    assert_eq!(parsed.lines[0], vec!["e\u{301}", "x"]);
    assert_eq!(parsed.lines[1], vec!["\u{1f1f7}\u{1f1fa}", "\u{1f1f8}\u{1f1f9}", "!"]);
    assert_eq!(parsed.max_line_size, 3);
    let windows = parse_message("a\r\nb".to_string());
    assert_eq!(windows.lines[0], vec!["a", "\r"]);
    assert_eq!(windows.lines[1], vec!["b"]);
}

#[test]
fn glyphs_of_a_line_are_not_empty_and_make_up_the_line() {
    let text = "a\r\nbe\u{301}\n\n \u{1f1f7}\u{1f1fa}\u{1f468}\u{200d}\u{1f469}\u{200d}\u{1f467} \t";
    let parsed = parse_message(text.to_string());
    let lines: Vec<&str> = text.split('\n').collect();
    assert_eq!(parsed.lines.len(), lines.len());
    for (glyphs, line) in parsed.lines.iter().zip(lines) {
        assert_eq!(glyphs.concat(), line);
        assert!(glyphs.iter().all(|glyph| !glyph.is_empty()));
    }
}

#[test]
fn from_lines_finds_the_widest_line() {
    let cell = |text: &str| text.to_string();
    let message = ParsedMessage::from_lines(vec![
        vec![cell("a")],
        vec![cell("b"), cell("c"), cell("d")],
        vec![],
        vec![cell("e"), cell("f")],
    ]);
    assert_eq!(message.max_line_size, 3);
    assert_eq!(message.lines.len(), 4);
    assert_eq!(ParsedMessage::from_lines(vec![]).max_line_size, 0);
}

#[test]
fn split_keeps_empty_pieces() {
    assert_eq!(split_on("", ' '), vec![""]);
    assert_eq!(split_on("a", ' '), vec!["a"]);
    assert_eq!(split_on("a b", ' '), vec!["a", "b"]);
    assert_eq!(split_on(" a  b ", ' '), vec!["", "a", "", "b", ""]);
    assert_eq!(split_on("\n", '\n'), vec!["", ""]);
    assert_eq!(split_on("é€\n𝄞", '\n'), vec!["é€", "𝄞"]);
}

#[test]
fn hex_colors_are_a_hash_and_six_digits() {
    assert_eq!(parse_hex_color("#FF0000"), Some(Color { r: 255, g: 0, b: 0 }));
    assert_eq!(parse_hex_color("#00ff7f"), Some(Color { r: 0, g: 255, b: 127 }));
    assert_eq!(parse_hex_color("#1a2B3c"), Some(Color { r: 0x1a, g: 0x2b, b: 0x3c }));
    assert_eq!(parse_hex_color("#000000"), Some(Color { r: 0, g: 0, b: 0 }));
    for token in [
        "", "#", "bad", "FF0000", "#FF000", "#FF00000", "#GG0000", "#FF00 0", "xFF0000",
        "#+F0000", "#ff00é0", "# FF000", "#FF0000 ",
    ] {
        assert_eq!(parse_hex_color(token), None, "{token:?}");
    }
}

#[test]
fn color_lists_are_read_all_or_nothing() {
    let list = |tokens: &[&str]| tokens.iter().map(|t| t.to_string()).collect::<Vec<String>>();
    assert_eq!(
        parse_program_colors(&list(&["#FF0000", "#00FF00"])),
        Ok(vec![Color { r: 255, g: 0, b: 0 }, Color { r: 0, g: 255, b: 0 }])
    );
    assert_eq!(parse_program_colors(&list(&[])), Ok(vec![]));
    assert_eq!(
        parse_program_colors(&list(&["#FF0000", "bad"])),
        Err("\"bad\" is not a valid hexadecimal color.".to_string())
    );
    assert_eq!(
        parse_program_colors(&list(&["#FF0000", "one", "#00FF00", "two"])),
        Err("\"one\" is not a valid hexadecimal color.".to_string())
    );
}

#[test]
fn set_colors_with_a_bad_token_leaves_the_colors_alone() {
    let mut state = red_blue();
    let mut message = parse_message("x".to_string());
    let result = handle_network_input(
        command(ControlMessageAction::SetColor, "#FF0000 bad"),
        &mut state,
        &mut message,
        ALONG,
        "",
    );
    assert_eq!(result, Err("\"bad\" is not a valid hexadecimal color.".to_string()));
    assert_eq!(state.colors, vec![Color { r: 255, g: 0, b: 0 }, Color { r: 0, g: 0, b: 255 }]);
    assert_eq!(state.angle, 30_000_000);
    assert_eq!(rows(&message), vec!["x"]);
}

#[test]
fn set_colors_replaces_the_stops() {
    let mut state = red_blue();
    assert_eq!(handle_network_set_color("#010203 #0a0B0c #ffffff".to_string(), &mut state), Ok(()));
    assert_eq!(
        state.colors,
        vec![
            Color { r: 1, g: 2, b: 3 },
            Color { r: 10, g: 11, b: 12 },
            Color { r: 255, g: 255, b: 255 }
        ]
    );
    assert_eq!(
        handle_network_set_color("#010203  #0a0B0c".to_string(), &mut state),
        Err("\"\" is not a valid hexadecimal color.".to_string())
    );
    assert_eq!(
        handle_network_set_color(String::new(), &mut state),
        Err("\"\" is not a valid hexadecimal color.".to_string())
    );
    assert_eq!(state.colors.len(), 3);
}

#[test]
fn set_angle_overwrites_without_wrapping() {
    let mut state = red_blue();
    assert_eq!(handle_network_set_angle("400".to_string(), &mut state), Ok(()));
    assert_eq!(state.angle, 400_000_000);
    assert_eq!(handle_network_set_angle("-12.25".to_string(), &mut state), Ok(()));
    assert_eq!(state.angle, -12_250_000);
    assert_eq!(
        handle_network_set_angle("north".to_string(), &mut state),
        Err("\"north\" is not a valid angle.".to_string())
    );
    assert_eq!(state.angle, -12_250_000);
    assert_eq!(state.colors.len(), 2);
}

#[test]
fn network_rotation_is_a_keyboard_rotation_on_the_message() {
    let message = parse_message("ab\ncd".to_string());
    let mut state = red_blue();
    handle_network_rotation(&mut state, true, &message, ALONG);
    assert_eq!(state.angle, 25_000_000);
    handle_network_rotation(&mut state, false, &message, ALONG);
    handle_network_rotation(&mut state, false, &message, ALONG);
    assert_eq!(state.angle, 35_000_000);

    let wide = parse_message("0123456789".to_string());
    let mut state = red_blue();
    let up = Direction { x: 0, y: 1_000_000 };
    let mut grid = parse_message(String::new());
    handle_network_set_message("0123456789".to_string(), &mut grid);
    assert_eq!(grid.lines, wide.lines);
    assert_eq!(
        handle_network_input(
            command(ControlMessageAction::RotateRight, ""),
            &mut state,
            &mut grid,
            up,
            ""
        ),
        Ok(false)
    );
    // One line of ten glyphs: the step along the height is a tenth of the base step.
    assert_eq!(state.angle, 30_500_000);
    assert_eq!(grid.lines, wide.lines);
}

#[test]
fn each_action_picks_its_field() {
    let mut with_message = request("SET_MESSAGE");
    with_message.message = Some("hi".to_string());
    with_message.colors = Some("#000000".to_string());
    let parsed = parse_client_control_message(Some(with_message)).unwrap();
    assert_eq!(parsed.action, ControlMessageAction::SetMessage);
    assert_eq!(parsed.value, "hi");

    let mut with_text = request("SET_TEXT");
    with_text.message = Some("banner".to_string());
    let parsed = parse_client_control_message(Some(with_text)).unwrap();
    assert_eq!(parsed.action, ControlMessageAction::SetText);
    assert_eq!(parsed.value, "banner");

    let mut with_colors = request("SET_COLORS");
    with_colors.colors = Some("#FF0000 #00FF00".to_string());
    let parsed = parse_client_control_message(Some(with_colors)).unwrap();
    assert_eq!(parsed.action, ControlMessageAction::SetColor);
    assert_eq!(parsed.value, "#FF0000 #00FF00");

    let mut with_angle = request("SET_ANGLE");
    with_angle.angle = Some("270".to_string());
    let parsed = parse_client_control_message(Some(with_angle)).unwrap();
    assert_eq!(parsed.action, ControlMessageAction::SetAngle);
    assert_eq!(parsed.value, "270");

    let mut left = request("ROTATE_LEFT");
    left.message = Some("ignored".to_string());
    let parsed = parse_client_control_message(Some(left)).unwrap();
    assert_eq!(parsed.action, ControlMessageAction::RotateLeft);
    assert_eq!(parsed.value, "");

    let parsed = parse_client_control_message(Some(request("ROTATE_RIGHT"))).unwrap();
    assert_eq!(parsed.action, ControlMessageAction::RotateRight);
    assert_eq!(parsed.value, "");
}

#[test]
fn action_without_its_field_is_refused_by_name() {
    for action in ["SET_MESSAGE", "SET_TEXT", "SET_COLORS", "SET_ANGLE"] {
        let mut message = request(action);
        if action == "SET_ANGLE" {
            message.message = Some("90".to_string());
        } else {
            message.angle = Some("90".to_string());
        }
        let refused = parse_client_control_message(Some(message)).unwrap_err();
        assert_eq!(
            refused,
            format!("You must provide a valid value to perform the action '{action}'.")
        );
    }
}

#[test]
fn unknown_or_undecoded_messages_are_refused_as_invalid() {
    let invalid = "The sent message is not a valid JSON for this application.";
    assert_eq!(parse_client_control_message(None).unwrap_err(), invalid);
    for action in ["PING", "", "set_message", "SET_MESSAGE ", "ROTATE", "SET_COLOR"] {
        let mut message = request(action);
        message.message = Some("x".to_string());
        message.colors = Some("#000000".to_string());
        message.angle = Some("1".to_string());
        assert_eq!(parse_client_control_message(Some(message)).unwrap_err(), invalid);
    }
}

#[test]
fn dispatch_applies_a_command_or_answers_with_the_reason() {
    let mut state = red_blue();
    let mut message = parse_message("old".to_string());

    let mut set_angle = request("SET_ANGLE");
    set_angle.angle = Some("65535".to_string());
    assert_eq!(
        dispatch_control_message(Some(set_angle), &mut state, &mut message, ALONG, ""),
        Ok(false)
    );
    assert_eq!(state.angle, 65_535_000_000);

    for (text, angle) in
        [("90.5", 90_500_000), ("-3", -3_000_000), ("1.5e2", 150_000_000), ("70000", 70_000_000_000)]
    {
        let mut set_angle = request("SET_ANGLE");
        set_angle.angle = Some(text.to_string());
        assert_eq!(
            dispatch_control_message(Some(set_angle), &mut state, &mut message, ALONG, ""),
            Ok(false)
        );
        assert_eq!(state.angle, angle);
    }
    let mut set_angle = request("SET_ANGLE");
    set_angle.angle = Some("1x2".to_string());
    assert_eq!(
        dispatch_control_message(Some(set_angle), &mut state, &mut message, ALONG, ""),
        Err(b"{\"status\":\"fail\",\"reason\":\"\\\"1x2\\\" is not a valid angle.\"}\0".to_vec())
    );
    assert_eq!(state.angle, 70_000_000_000);

    let mut set_message = request("SET_MESSAGE");
    set_message.message = Some("HELLO\nWORLD".to_string());
    assert_eq!(
        dispatch_control_message(Some(set_message), &mut state, &mut message, ALONG, ""),
        Ok(true)
    );
    assert_eq!(rows(&message), vec!["HELLO", "WORLD"]);

    let mut set_colors = request("SET_COLORS");
    set_colors.colors = Some("#FF0000 bad".to_string());
    assert_eq!(
        dispatch_control_message(Some(set_colors), &mut state, &mut message, ALONG, ""),
        Err(b"{\"status\":\"fail\",\"reason\":\"\\\"bad\\\" is not a valid hexadecimal color.\"}\0"
            .to_vec())
    );
    assert_eq!(state.colors, vec![Color { r: 255, g: 0, b: 0 }, Color { r: 0, g: 0, b: 255 }]);

    assert_eq!(
        dispatch_control_message(Some(request("PING")), &mut state, &mut message, ALONG, ""),
        Err(b"{\"status\":\"fail\",\"reason\":\"The sent message is not a valid JSON for this application.\"}\0"
            .to_vec())
    );
    assert_eq!(
        dispatch_control_message(None, &mut state, &mut message, ALONG, ""),
        Err(b"{\"status\":\"fail\",\"reason\":\"The sent message is not a valid JSON for this application.\"}\0"
            .to_vec())
    );
    assert_eq!(
        dispatch_control_message(Some(request("SET_TEXT")), &mut state, &mut message, ALONG, ""),
        Err(b"{\"status\":\"fail\",\"reason\":\"You must provide a valid value to perform the action 'SET_TEXT'.\"}\0"
            .to_vec())
    );
    assert_eq!(state.angle, 70_000_000_000);
    assert_eq!(rows(&message), vec!["HELLO", "WORLD"]);
}

#[test]
fn state_from_arguments_has_white_flash_defaults() {
    let state = generate_program_state(&arguments()).unwrap();
    assert_eq!(state.angle, 0);
    assert_eq!(state.colors, vec![Color { r: 255, g: 255, b: 255 }]);
    assert_eq!(state.mode, ProgramMode::Flash);
    assert_eq!(state.animation_delay, 0);
    assert!(!state.align_vertically);
    assert!(!state.align_horizontally);
}

#[test]
fn state_from_arguments_takes_over_what_is_given() {
    let mut given = arguments();
    given.colors = Some(vec!["#FF0000".to_string(), "#0000ff".to_string()]);
    given.angle = Some(90);
    given.line_by_line_mode = Some(40);
    given.align_vertically = true;
    let state = generate_program_state(&given).unwrap();
    assert_eq!(state.angle, 90_000_000);
    assert_eq!(state.colors, vec![Color { r: 255, g: 0, b: 0 }, Color { r: 0, g: 0, b: 255 }]);
    assert_eq!(state.mode, ProgramMode::LineByLine);
    assert_eq!(state.animation_delay, 40);
    assert!(state.align_vertically);
    assert!(!state.align_horizontally);

    given.char_by_char_mode = Some(u32::MAX);
    given.align_horizontally = true;
    let state = generate_program_state(&given).unwrap();
    assert_eq!(state.mode, ProgramMode::CharByChar);
    assert_eq!(state.animation_delay, 4_294_967_295);
    assert!(state.align_horizontally);

    given.angle = Some(32767);
    assert_eq!(generate_program_state(&given).unwrap().angle, 32_767_000_000);
    given.angle = Some(32768);
    assert_eq!(generate_program_state(&given).unwrap().angle, -32_768_000_000);
    given.angle = Some(40000);
    assert_eq!(generate_program_state(&given).unwrap().angle, -25_536_000_000);
    given.angle = Some(65535);
    assert_eq!(generate_program_state(&given).unwrap().angle, -1_000_000);
}

#[test]
fn state_from_arguments_refuses_bad_colors() {
    let mut given = arguments();
    given.colors = Some(vec!["#FF0000".to_string(), "bad".to_string()]);
    assert_eq!(
        generate_program_state(&given).unwrap_err(),
        "Error while trying to parse the colors argument: \"bad\" is not a valid hexadecimal color."
    );
    given.colors = Some(vec![]);
    assert_eq!(
        generate_program_state(&given).unwrap_err(),
        "Error while trying to parse the colors argument: no color was given."
    );
}

#[test]
fn new_state_holds_the_angle_in_millionths() {
    let state = ProgramState::new(-7, vec![Color { r: 1, g: 2, b: 3 }], ProgramMode::CharByChar, 9, true, false);
    assert_eq!(state.angle, -7_000_000);
    assert_eq!(state.colors, vec![Color { r: 1, g: 2, b: 3 }]);
    assert_eq!(state.mode, ProgramMode::CharByChar);
    assert_eq!(state.animation_delay, 9);
    assert!(state.align_vertically);
    assert!(!state.align_horizontally);
    assert_eq!(ProgramState::new(i16::MIN, vec![Color { r: 0, g: 0, b: 0 }], ProgramMode::Flash, 0, false, false).angle, -32_768_000_000);
}

#[test]
fn terminal_size_takes_over_a_resize() {
    let mut size = TerminalSize { width: 80, height: 24 };
    size.update(132, 43);
    assert_eq!(size, TerminalSize { width: 132, height: 43 });
    size.update(0, u16::MAX);
    assert_eq!(size, TerminalSize { width: 0, height: 65535 });
}

#[test]
fn terminal_events_steer_stop_or_resize() {
    let mut state = red_blue();
    let mut keep_rendering = true;
    let mut size = TerminalSize { width: 80, height: 24 };

    let clear = handle_terminal_event(TerminalEvent::Key('.'), &mut state, &mut keep_rendering, &mut size, ALONG, 4, 4);
    assert!(!clear);
    assert!(keep_rendering);
    assert_eq!(state.angle, 35_000_000);

    let clear = handle_terminal_event(TerminalEvent::Resize(100, 30), &mut state, &mut keep_rendering, &mut size, ALONG, 4, 4);
    assert!(clear);
    assert!(keep_rendering);
    assert_eq!(size, TerminalSize { width: 100, height: 30 });
    assert_eq!(state.angle, 35_000_000);

    let clear = handle_terminal_event(TerminalEvent::Other, &mut state, &mut keep_rendering, &mut size, ALONG, 4, 4);
    assert!(!clear);
    assert!(keep_rendering);

    let clear = handle_terminal_event(TerminalEvent::OtherKey, &mut state, &mut keep_rendering, &mut size, ALONG, 4, 4);
    assert!(!clear);
    assert!(!keep_rendering);

    let mut keep_rendering = true;
    handle_terminal_event(TerminalEvent::Key('q'), &mut state, &mut keep_rendering, &mut size, ALONG, 4, 4);
    assert!(!keep_rendering);
    assert_eq!(state.angle, 35_000_000);
    assert_eq!(size, TerminalSize { width: 100, height: 30 });
}

#[test]
fn phases_follow_each_other() {
    assert_eq!(next_phase(LoopPhase::Init, true, false, false), LoopPhase::InteractiveLoop);
    assert_eq!(next_phase(LoopPhase::Init, true, true, false), LoopPhase::FinalRender);
    assert_eq!(next_phase(LoopPhase::Init, true, true, true), LoopPhase::Exit);
    assert_eq!(
        next_phase(LoopPhase::InteractiveLoop, true, false, false),
        LoopPhase::InteractiveLoop
    );
    assert_eq!(next_phase(LoopPhase::InteractiveLoop, false, false, false), LoopPhase::FinalRender);
    assert_eq!(next_phase(LoopPhase::InteractiveLoop, false, false, true), LoopPhase::Exit);
    assert_eq!(next_phase(LoopPhase::FinalRender, true, false, false), LoopPhase::Exit);
    assert_eq!(next_phase(LoopPhase::Exit, true, false, false), LoopPhase::Exit);
}

#[test]
fn only_the_first_frame_is_animated() {
    assert!(animates(0));
    assert!(!animates(1));
    assert!(!animates(2));
    assert!(!animates(u64::MAX));
}

#[test]
fn interactive_mode_is_entered_and_left_in_three_steps() {
    assert_eq!(
        enter_iterative_mode(),
        vec![
            ModeStep {
                change: ModeChange::AlternateScreen(AlternateScreenAction::Enter),
                on_failure: OnFailure::Abort
            },
            ModeStep {
                change: ModeChange::RawMode(SetStdinRawModeAction::Enable),
                on_failure: OnFailure::LeaveScreenAndAbort
            },
            ModeStep {
                change: ModeChange::CursorVisibility(CursorVisibilityAction::Hide),
                on_failure: OnFailure::Ignore
            },
        ]
    );
    assert_eq!(
        leave_iterative_mode(),
        vec![
            ModeStep {
                change: ModeChange::AlternateScreen(AlternateScreenAction::Leave),
                on_failure: OnFailure::Report
            },
            ModeStep {
                change: ModeChange::RawMode(SetStdinRawModeAction::Disable),
                on_failure: OnFailure::Report
            },
            ModeStep {
                change: ModeChange::CursorVisibility(CursorVisibilityAction::Show),
                on_failure: OnFailure::Report
            },
        ]
    );
}
