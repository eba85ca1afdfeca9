//! The render state: the angle and the stops of the gradient, and how the
//! message is drawn.

use crate::arguments::ProgramArguments;
use crate::color::Color;
use crate::parser::{parse_program_colors, parsed_colors};
use vstd::prelude::*;
use vstd::string::*;

verus! {

/// How many units of `ProgramState::angle` make one degree.
pub const ANGLE_UNIT: i64 = 1_000_000;

/// A full turn, in units of `ProgramState::angle`.
pub const FULL_TURN: i64 = 360_000_000;

/// How the first drawing of a message is paced.
#[derive(Clone, Copy, Debug, PartialEq, Eq, Structural)]
pub enum ProgramMode {
    CharByChar,
    LineByLine,
    Flash,
}

/// The state that every redraw reads and that the keyboard and the control
/// channel change.
#[derive(Debug)]
pub struct ProgramState {
    /// The angle of the gradient, in millionths of a degree.
    pub angle: i64,
    /// The stops of the gradient, in order.
    pub colors: Vec<Color>,
    pub mode: ProgramMode,
    /// The delay of the animation, in milliseconds.
    pub animation_delay: u64,
    pub align_vertically: bool,
    pub align_horizontally: bool,
}

impl ProgramState {
    /// A gradient has at least one stop.
    pub open spec fn wf(&self) -> bool {
        self.colors@.len() >= 1
    }

    /// The state with the gradient at `angle` degrees.
    pub fn new(
        angle: i16,
        colors: Vec<Color>,
        mode: ProgramMode,
        animation_delay: u64,
        align_vertically: bool,
        align_horizontally: bool,
    ) -> (state: ProgramState)
        requires
            colors@.len() >= 1,
        ensures
            state.wf(),
            state.angle == angle * ANGLE_UNIT,
            state.colors == colors,
            state.mode == mode,
            state.animation_delay == animation_delay,
            state.align_vertically == align_vertically,
            state.align_horizontally == align_horizontally,
    {
        ProgramState {
            angle: (angle as i64) * ANGLE_UNIT,
            colors,
            mode,
            animation_delay,
            align_vertically,
            align_horizontally,
        }
    }
}

/// The single stop of a gradient for which no colours were given.
pub open spec fn default_colors() -> Seq<Color> {
    seq![Color { r: 255, g: 255, b: 255 }]
}

/// The pacing that the arguments ask for: glyph by glyph wins over line by
/// line, and without either the message appears at once, with no delay.
pub open spec fn requested_mode(arguments: ProgramArguments) -> (ProgramMode, u64) {
    match arguments.char_by_char_mode {
        Some(delay) => (ProgramMode::CharByChar, delay as u64),
        None => match arguments.line_by_line_mode {
            Some(delay) => (ProgramMode::LineByLine, delay as u64),
            None => (ProgramMode::Flash, 0u64),
        },
    }
}

/// The angle that the arguments ask for, in degrees: the given number read
/// as a signed 16-bit value, or 0.
pub open spec fn requested_angle(arguments: ProgramArguments) -> int {
    match arguments.angle {
        Some(angle) => if angle >= 0x8000 {
            angle - 0x1_0000
        } else {
            angle as int
        },
        None => 0,
    }
}

/// What is reported for a list of colours that cannot be used: the reason,
/// behind a fixed opening.
pub open spec fn colors_argument_error(reason: Seq<char>) -> Seq<char> {
    "Error while trying to parse the colors argument: "@ + reason
}

/// What is reported for a list of colours that is empty.
pub open spec fn no_color_reason() -> Seq<char> {
    "no color was given."@
}

/// The stops that the arguments ask for: the colours that they list, or
/// plain white where they list none; or the report on a list that is empty
/// or holds a token that names no colour.
pub open spec fn requested_colors(arguments: ProgramArguments) -> Result<Seq<Color>, Seq<char>> {
    match arguments.colors {
        Some(tokens) => if tokens@.len() == 0 {
            Err(colors_argument_error(no_color_reason()))
        } else {
            match parsed_colors(tokens.deep_view()) {
                Ok(colors) => Ok(colors),
                Err(reason) => Err(colors_argument_error(reason)),
            }
        },
        None => Ok(default_colors()),
    }
}

/// Puts `reason` behind the opening of a report on the colours argument.
fn colors_argument_report(reason: &str) -> (report: String)
    ensures
        report@ == colors_argument_error(reason@),
{
    let mut report = String::from_str("Error while trying to parse the colors argument: ");
    report.append(reason);
    report
}

/// The render state that the arguments describe. Without colours the
/// gradient is plain white. The arguments are refused, with a report, if a
/// colour cannot be read or the list of colours is empty.
pub fn generate_program_state(arguments: &ProgramArguments) -> (result: Result<
    ProgramState,
    String,
>)
    ensures
        match requested_colors(*arguments) {
            Ok(colors) => {
                &&& result is Ok
                &&& result.unwrap().wf()
                &&& result.unwrap().colors@ == colors
                &&& result.unwrap().angle == requested_angle(*arguments) * ANGLE_UNIT
                &&& result.unwrap().mode == requested_mode(*arguments).0
                &&& result.unwrap().animation_delay == requested_mode(*arguments).1
                &&& result.unwrap().align_vertically == arguments.align_vertically
                &&& result.unwrap().align_horizontally == arguments.align_horizontally
            },
            Err(report) => result is Err && result.unwrap_err()@ == report,
        },
{
    let colors = match &arguments.colors {
        Some(tokens) => {
            if tokens.len() == 0 {
                return Err(colors_argument_report("no color was given."));
            }
            match parse_program_colors(tokens) {
                Ok(colors) => colors,
                Err(reason) => {
                    return Err(colors_argument_report(reason.as_str()));
                },
            }
        },
        None => {
            let mut colors: Vec<Color> = Vec::new();
            colors.push(Color { r: 255, g: 255, b: 255 });
            assert(colors@ =~= default_colors());
            colors
        },
    };
    let mut mode = ProgramMode::Flash;
    let mut delay: u64 = 0;
    if let Some(line_by_line_delay) = arguments.line_by_line_mode {
        mode = ProgramMode::LineByLine;
        delay = line_by_line_delay as u64;
    }
    if let Some(char_by_char_delay) = arguments.char_by_char_mode {
        mode = ProgramMode::CharByChar;
        delay = char_by_char_delay as u64;
    }
    let gradient_angle: i16 = match arguments.angle {
        Some(angle) => if angle >= 0x8000 {
            ((angle as i32) - 0x1_0000) as i16
        } else {
            angle as i16
        },
        None => 0,
    };
    Ok(
        ProgramState::new(
            gradient_angle,
            colors,
            mode,
            delay,
            arguments.align_vertically,
            arguments.align_horizontally,
        ),
    )
}

} // verus!
