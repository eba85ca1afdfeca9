use gradient_message::color::{Color, Direction};
use gradient_message::display::{
    add_bottom_padding, add_left_padding, add_top_padding, print_line, print_message,
    terminal_extent, DrawCommand,
};
use gradient_message::parser::parse_message;
use gradient_message::state::{ProgramMode, ProgramState};
use gradient_message::terminal::TerminalSize;

const ALONG: Direction = Direction { x: 1_000_000, y: 0 };
const BLACK: Color = Color { r: 0, g: 0, b: 0 };
const WHITE: Color = Color { r: 255, g: 255, b: 255 };

fn state(mode: ProgramMode, delay: u64, vertically: bool, horizontally: bool) -> ProgramState {
    ProgramState::new(0, vec![BLACK, WHITE], mode, delay, vertically, horizontally)
}

fn glyph(line: usize, cell: usize, level: u8) -> DrawCommand {
    DrawCommand::Glyph { line, cell, color: Color { r: level, g: level, b: level } }
}

#[test]
fn frame_without_alignment_draws_line_after_line() {
    let message = parse_message("abcd\nef".to_string());
    let plan = print_message(
        &message,
        &state(ProgramMode::Flash, 0, false, false),
        ALONG,
        TerminalSize { width: 80, height: 24 },
        true,
        false,
    );
    assert_eq!(
        plan,
        vec![
            DrawCommand::MoveTo { column: 0, row: 0 },
            glyph(0, 0, 0),
            glyph(0, 1, 63),
            glyph(0, 2, 127),
            glyph(0, 3, 191),
            DrawCommand::EndLine,
            glyph(1, 0, 0),
            glyph(1, 1, 63),
            DrawCommand::EndLine,
        ]
    );
}

#[test]
fn centred_frame_pads_and_centres_the_gradient() {
    let message = parse_message("abcd\nef".to_string());
    let plan = print_message(
        &message,
        &state(ProgramMode::Flash, 0, true, true),
        ALONG,
        TerminalSize { width: 80, height: 24 },
        false,
        false,
    );
    assert_eq!(
        plan,
        vec![
            DrawCommand::MoveTo { column: 0, row: 0 },
            DrawCommand::MoveTo { column: 0, row: 13 },
            DrawCommand::MoveRight(38),
            glyph(0, 0, 0),
            glyph(0, 1, 63),
            glyph(0, 2, 127),
            glyph(0, 3, 191),
            DrawCommand::EndLine,
            DrawCommand::MoveRight(39),
            glyph(1, 1 - 1, 63),
            glyph(1, 1, 127),
            DrawCommand::EndLine,
        ]
    );
}

#[test]
fn frame_on_the_plain_screen_is_padded_with_empty_lines() {
    let message = parse_message("ab".to_string());
    let plan = print_message(
        &message,
        &state(ProgramMode::Flash, 0, true, false),
        ALONG,
        TerminalSize { width: 10, height: 6 },
        false,
        true,
    );
    let mut expected = vec![DrawCommand::BlankLine; 5];
    expected.extend([glyph(0, 0, 0), glyph(0, 1, 127), DrawCommand::EndLine]);
    expected.extend(vec![DrawCommand::BlankLine; 2]);
    assert_eq!(plan, expected);

    let plain = print_message(
        &message,
        &state(ProgramMode::Flash, 0, false, false),
        ALONG,
        TerminalSize { width: 10, height: 6 },
        false,
        true,
    );
    assert_eq!(plain, vec![glyph(0, 0, 0), glyph(0, 1, 127), DrawCommand::EndLine]);
}

#[test]
fn first_frame_pauses_after_each_glyph_or_line() {
    let message = parse_message("ab\nc".to_string());
    let size = TerminalSize { width: 10, height: 6 };
    let typed = print_message(&message, &state(ProgramMode::CharByChar, 25, false, false), ALONG, size, true, false);
    assert_eq!(
        typed,
        vec![
            DrawCommand::MoveTo { column: 0, row: 0 },
            glyph(0, 0, 0),
            DrawCommand::Pause(25),
            glyph(0, 1, 127),
            DrawCommand::Pause(25),
            DrawCommand::EndLine,
            glyph(1, 0, 0),
            DrawCommand::Pause(25),
            DrawCommand::EndLine,
        ]
    );
    let by_line = print_message(&message, &state(ProgramMode::LineByLine, 40, false, false), ALONG, size, true, false);
    assert_eq!(
        by_line,
        vec![
            DrawCommand::MoveTo { column: 0, row: 0 },
            glyph(0, 0, 0),
            glyph(0, 1, 127),
            DrawCommand::EndLine,
            DrawCommand::Pause(40),
            glyph(1, 0, 0),
            DrawCommand::EndLine,
            DrawCommand::Pause(40),
        ]
    );
}

#[test]
fn redraws_never_pause() {
    let message = parse_message("ab\nc".to_string());
    let size = TerminalSize { width: 10, height: 6 };
    for mode in [ProgramMode::CharByChar, ProgramMode::LineByLine, ProgramMode::Flash] {
        let plan = print_message(&message, &state(mode, 25, true, true), ALONG, size, false, false);
        assert!(plan.iter().all(|step| !matches!(step, DrawCommand::Pause(_))));
        assert_eq!(plan.iter().filter(|step| matches!(step, DrawCommand::Glyph { .. })).count(), 3);
    }
}

#[test]
fn empty_message_is_one_empty_line() {
    let message = parse_message(String::new());
    let plan = print_message(
        &message,
        &state(ProgramMode::Flash, 0, false, true),
        ALONG,
        TerminalSize { width: 9, height: 3 },
        false,
        false,
    );
    assert_eq!(
        plan,
        vec![
            DrawCommand::MoveTo { column: 0, row: 0 },
            DrawCommand::MoveRight(4),
            DrawCommand::EndLine
        ]
    );
}

#[test]
fn top_padding_centres_or_gives_up() {
    let size = TerminalSize { width: 80, height: 24 };
    let mut plan = vec![DrawCommand::EndLine];
    add_top_padding(&mut plan, &size, 6, false);
    assert_eq!(plan, vec![DrawCommand::EndLine, DrawCommand::MoveTo { column: 0, row: 11 }]);

    let mut plan = Vec::new();
    add_top_padding(&mut plan, &size, 100, false);
    assert_eq!(plan, vec![DrawCommand::MoveTo { column: 0, row: 2 }]);

    let mut plan = Vec::new();
    add_top_padding(&mut plan, &TerminalSize { width: 1, height: u16::MAX }, 0, false);
    assert_eq!(plan, vec![DrawCommand::MoveTo { column: 0, row: 32769 }]);

    let mut plan = Vec::new();
    add_top_padding(&mut plan, &TerminalSize { width: 1, height: 5 }, 3, true);
    assert_eq!(plan, vec![DrawCommand::BlankLine; 3]);

    let mut plan = Vec::new();
    add_top_padding(&mut plan, &size, usize::MAX, true);
    assert_eq!(plan, vec![DrawCommand::BlankLine; 2]);
}

#[test]
fn bottom_padding_fills_the_rest_of_the_screen() {
    let mut plan = Vec::new();
    add_bottom_padding(&mut plan, &TerminalSize { width: 80, height: 24 }, 6);
    assert_eq!(plan, vec![DrawCommand::BlankLine; 9]);

    let mut plan = vec![DrawCommand::EndLine];
    add_bottom_padding(&mut plan, &TerminalSize { width: 80, height: 24 }, 24);
    assert_eq!(plan, vec![DrawCommand::EndLine]);

    let mut plan = Vec::new();
    add_bottom_padding(&mut plan, &TerminalSize { width: 80, height: 24 }, 1000);
    assert_eq!(plan, Vec::new());

    let mut plan = Vec::new();
    add_bottom_padding(&mut plan, &TerminalSize { width: 80, height: 7 }, 2);
    assert_eq!(plan, vec![DrawCommand::BlankLine; 3]);
}

#[test]
fn left_padding_centres_a_line() {
    let size = TerminalSize { width: 80, height: 24 };
    let mut plan = Vec::new();
    add_left_padding(&mut plan, &size, 10);
    add_left_padding(&mut plan, &size, 11);
    add_left_padding(&mut plan, &size, 80);
    add_left_padding(&mut plan, &size, 200);
    add_left_padding(&mut plan, &size, usize::MAX);
    add_left_padding(&mut plan, &size, 0);
    assert_eq!(
        plan,
        vec![
            DrawCommand::MoveRight(35),
            DrawCommand::MoveRight(35),
            DrawCommand::MoveRight(0),
            DrawCommand::MoveRight(0),
            DrawCommand::MoveRight(0),
            DrawCommand::MoveRight(40),
        ]
    );
}

#[test]
fn line_is_coloured_from_its_first_column_on() {
    let colours = state(ProgramMode::Flash, 0, false, false);
    let mut plan = Vec::new();
    print_line(&mut plan, 2, 2, 7, 4, 9, &colours, ALONG, false);
    assert_eq!(plan, vec![glyph(7, 0, 127), glyph(7, 1, 191), DrawCommand::EndLine]);
    let mut plan = Vec::new();
    print_line(&mut plan, 0, 0, 0, 0, 0, &colours, ALONG, true);
    assert_eq!(plan, vec![DrawCommand::EndLine]);
}

#[test]
fn terminal_extent_stops_at_the_largest_extent() {
    assert_eq!(terminal_extent(0), 0);
    assert_eq!(terminal_extent(65535), 65535);
    assert_eq!(terminal_extent(65536), 65535);
    assert_eq!(terminal_extent(usize::MAX), 65535);
}
