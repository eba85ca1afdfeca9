//! What a keystroke or a command of the control channel does to the render
//! state and to the message.

use crate::angle::{
    angle_error, lemma_wrap_undone, parse_angle, parsed_angle, wrap_angle, wrapped_angle,
};
use crate::arithmetic::{
    integer_sqrt, lemma_sqrt_floor_exists, lemma_sqrt_floor_monotonic, sqrt_floor,
};
use crate::color::{canvas_extent, canvas_extent_of, Direction};
use crate::parser::{
    glyph_grid, parse_message, parse_program_colors, parsed_colors, ControlMessageAction,
    ParsedControlMessage, ParsedMessage,
};
use crate::state::{ProgramState, FULL_TURN};
use crate::text::{lemma_split_nonempty, split, split_on, uppercase_of};
use crate::typewriter::{banner, font_glyphs, generate_message};
use vstd::arithmetic::div_mod::lemma_small_mod;
use vstd::math::abs;
use vstd::prelude::*;
use vstd::string::*;

verus! {

/// The step of one rotation on a square canvas: five degrees.
pub const ROTATION_STEP: u32 = 5_000_000;

/// The square of the length of the projection of `d` onto the half-extent
/// box of a canvas of `width` by `height`, with all lengths doubled and in
/// millionths.
pub open spec fn projected_square(d: Direction, width: int, height: int) -> int {
    (abs(d.x as int) * width) * (abs(d.x as int) * width) + (abs(d.y as int) * height) * (abs(
        d.y as int,
    ) * height)
}

/// The same for a vector of the length of `d` along the longer side of the
/// canvas: the most that `projected_square` can be.
pub open spec fn full_square(d: Direction, width: int, height: int) -> int {
    let longest = if width > height {
        width
    } else {
        height
    };
    (d.x * d.x + d.y * d.y) * longest * longest
}

/// The step of one rotation: `base` times the length of the projection of the
/// unit vector along `d` onto the half-extent box, divided by the longer half
/// side; each square root and the quotient rounded down. Where that divisor
/// is 0 (no direction, or no canvas) the step is `base`.
pub open spec fn adjusted_step(d: Direction, base: int, width: int, height: int) -> int {
    let reach = sqrt_floor(projected_square(d, width, height));
    let whole = sqrt_floor(full_square(d, width, height));
    if whole == 0 {
        base
    } else {
        base * reach / whole
    }
}

/// The projection is never longer than the vector along the longer side.
pub proof fn lemma_projection_within_full(d: Direction, width: int, height: int)
    requires
        0 <= width,
        0 <= height,
    ensures
        0 <= projected_square(d, width, height) <= full_square(d, width, height),
{
    let ax = abs(d.x as int);
    let ay = abs(d.y as int);
    let longest = if width > height {
        width
    } else {
        height
    };
    assert(0 <= (ax * width) * (ax * width) <= (ax * ax) * longest * longest)
        by (nonlinear_arith)
        requires
            0 <= ax,
            0 <= width <= longest,
    ;
    assert(0 <= (ay * height) * (ay * height) <= (ay * ay) * longest * longest)
        by (nonlinear_arith)
        requires
            0 <= ay,
            0 <= height <= longest,
    ;
    assert(ax * ax == d.x * d.x && ay * ay == d.y * d.y) by (nonlinear_arith)
        requires
            ax == d.x || ax == -d.x,
            ay == d.y || ay == -d.y,
    ;
    assert((d.x * d.x + d.y * d.y) * longest * longest == (ax * ax) * longest * longest + (ay
        * ay) * longest * longest) by (nonlinear_arith)
        requires
            ax * ax == d.x * d.x,
            ay * ay == d.y * d.y,
    ;
}

/// On a square canvas every direction of non-zero length gives the base step.
pub proof fn lemma_square_canvas_keeps_step(d: Direction, base: int, side: int)
    requires
        0 < side,
        d.x != 0 || d.y != 0,
    ensures
        adjusted_step(d, base, side, side) == base,
{
    let ax = abs(d.x as int);
    let ay = abs(d.y as int);
    assert(projected_square(d, side, side) == full_square(d, side, side)) by (nonlinear_arith)
        requires
            projected_square(d, side, side) == (ax * side) * (ax * side) + (ay * side) * (ay
                * side),
            full_square(d, side, side) == (d.x * d.x + d.y * d.y) * side * side,
            ax == d.x || ax == -d.x,
            ay == d.y || ay == -d.y,
    ;
    let n = full_square(d, side, side);
    assert(n >= 1) by (nonlinear_arith)
        requires
            n == (d.x * d.x + d.y * d.y) * side * side,
            0 < side,
            d.x != 0 || d.y != 0,
    ;
    lemma_sqrt_floor_exists(n);
    let whole = sqrt_floor(n);
    assert(whole >= 1) by (nonlinear_arith)
        requires
            n >= 1,
            0 <= whole,
            n < (whole + 1) * (whole + 1),
    ;
    assert(base * whole / whole == base) by (nonlinear_arith)
        requires
            whole >= 1,
    ;
}

/// The step of one rotation of the gradient that runs along `direction` on a
/// canvas of `width` by `height`, for a step of `base_step` on a square
/// canvas. It is shorter where the gradient runs along the shorter side, so
/// that the colours travel at an even pace.
pub fn get_adjusted_angle_step(
    direction: Direction,
    base_step: u32,
    width: u32,
    height: u32,
) -> (step: u32)
    requires
        direction.wf(),
    ensures
        step == adjusted_step(direction, base_step as int, width as int, height as int),
        step <= base_step,
{
    let ax: u128 = if direction.x < 0 {
        (-(direction.x as i64)) as u128
    } else {
        direction.x as u128
    };
    let ay: u128 = if direction.y < 0 {
        (-(direction.y as i64)) as u128
    } else {
        direction.y as u128
    };
    let longest: u128 = if width > height { width as u128 } else { height as u128 };
    proof {
        lemma_projection_within_full(direction, width as int, height as int);
        assert(ax * ax == direction.x * direction.x && ay * ay == direction.y * direction.y)
            by (nonlinear_arith)
            requires
                ax == direction.x || ax == -direction.x,
                ay == direction.y || ay == -direction.y,
        ;
        assert(ax * width <= 1_000_000 * 0xffff_ffff) by (nonlinear_arith)
            requires
                0 <= ax <= 1_000_000,
                0 <= width <= 0xffff_ffff,
        ;
        assert(ay * height <= 1_000_000 * 0xffff_ffff) by (nonlinear_arith)
            requires
                0 <= ay <= 1_000_000,
                0 <= height <= 0xffff_ffff,
        ;
        assert(ax * ax <= 1_000_000 * 1_000_000 && ay * ay <= 1_000_000 * 1_000_000)
            by (nonlinear_arith)
            requires
                0 <= ax <= 1_000_000,
                0 <= ay <= 1_000_000,
        ;
    }
    let reach_x: u128 = ax * (width as u128);
    let reach_y: u128 = ay * (height as u128);
    assert(reach_x * reach_x <= (1_000_000 * 0xffff_ffff) * (1_000_000 * 0xffff_ffff))
        by (nonlinear_arith)
        requires
            0 <= reach_x <= 1_000_000 * 0xffff_ffff,
    ;
    assert(reach_y * reach_y <= (1_000_000 * 0xffff_ffff) * (1_000_000 * 0xffff_ffff))
        by (nonlinear_arith)
        requires
            0 <= reach_y <= 1_000_000 * 0xffff_ffff,
    ;
    let projected: u128 = reach_x * reach_x + reach_y * reach_y;
    let length: u128 = ax * ax + ay * ay;
    assert(length * longest <= 2_000_000_000_000 * 0xffff_ffff) by (nonlinear_arith)
        requires
            0 <= length <= 2_000_000_000_000,
            0 <= longest <= 0xffff_ffff,
    ;
    let along: u128 = length * longest;
    assert(along * longest <= 2_000_000_000_000 * 0xffff_ffff * 0xffff_ffff) by (nonlinear_arith)
        requires
            0 <= along <= 2_000_000_000_000 * 0xffff_ffff,
            0 <= longest <= 0xffff_ffff,
    ;
    let full: u128 = along * longest;
    assert(projected == projected_square(direction, width as int, height as int));
    assert(full == full_square(direction, width as int, height as int));
    let whole: u64 = integer_sqrt(full);
    if whole == 0 {
        return base_step;
    }
    let reach: u64 = integer_sqrt(projected);
    proof {
        lemma_sqrt_floor_monotonic(projected as int, reach as int, full as int, whole as int);
    }
    assert(base_step * reach <= base_step * whole <= 0xffff_ffff * 0xffff_ffff_ffff_ffff)
        by (nonlinear_arith)
        requires
            0 <= reach <= whole <= 0xffff_ffff_ffff_ffff,
            0 <= base_step <= 0xffff_ffff,
    ;
    let scaled: u128 = (base_step as u128) * (reach as u128);
    assert(scaled / (whole as u128) <= base_step) by (nonlinear_arith)
        requires
            scaled <= base_step * whole,
            0 < whole,
            0 <= scaled,
    ;
    (scaled / (whole as u128)) as u32
}

/// The step of one rotation by keystroke or command on a message of `width`
/// by `height` glyphs.
pub open spec fn rotation_step(d: Direction, width: int, height: int) -> int {
    adjusted_step(d, ROTATION_STEP as int, canvas_extent_of(width), canvas_extent_of(height))
}

/// The angle after one rotation from `angle`, to the left (against the
/// angle's sense) or to the right, brought back into one full turn.
pub open spec fn rotated(angle: int, d: Direction, width: int, height: int, left: bool) -> int {
    if left {
        wrapped_angle(angle - rotation_step(d, width, height))
    } else {
        wrapped_angle(angle + rotation_step(d, width, height))
    }
}

/// A rotation to the left and then one to the right on the same canvas lead
/// back to the angle from which they set out, where both take the same step;
/// `before` is the direction of the gradient at the outset and `between` the
/// one after the first rotation.
pub proof fn lemma_left_then_right_returns(
    angle: int,
    before: Direction,
    between: Direction,
    width: int,
    height: int,
)
    requires
        0 <= angle < FULL_TURN,
        rotation_step(before, width, height) == rotation_step(between, width, height),
    ensures
        rotated(rotated(angle, before, width, height, true), between, width, height, false)
            == angle,
{
    lemma_wrap_undone(angle, rotation_step(before, width, height));
    lemma_small_mod(angle as nat, FULL_TURN as nat);
}

/// On a square canvas a rotation to the left and then one to the right lead
/// back to the angle from which they set out, whatever the directions.
pub proof fn lemma_left_then_right_returns_on_square(
    angle: int,
    before: Direction,
    between: Direction,
    side: int,
)
    requires
        0 <= angle < FULL_TURN,
        0 < side,
        before.x != 0 || before.y != 0,
        between.x != 0 || between.y != 0,
    ensures
        rotated(rotated(angle, before, side, side, true), between, side, side, false) == angle,
{
    lemma_square_canvas_keeps_step(before, ROTATION_STEP as int, canvas_extent_of(side));
    lemma_square_canvas_keeps_step(between, ROTATION_STEP as int, canvas_extent_of(side));
    lemma_left_then_right_returns(angle, before, between, side, side);
}

/// Takes in one keystroke. A comma turns the gradient to the left and a full
/// stop turns it to the right, each by the step that suits the canvas of
/// `width` by `height` glyphs, and the message is to be drawn again. Any
/// other character ends the rendering and changes nothing else.
pub fn handle_input(
    input: char,
    state: &mut ProgramState,
    keep_rendering: &mut bool,
    direction: Direction,
    width: usize,
    height: usize,
) -> (redraw: bool)
    requires
        direction.wf(),
    ensures
        redraw == (input == ',' || input == '.'),
        *final(keep_rendering) == (*old(keep_rendering) && redraw),
        final(state).angle == if input == ',' {
            rotated(old(state).angle as int, direction, width as int, height as int, true)
        } else if input == '.' {
            rotated(old(state).angle as int, direction, width as int, height as int, false)
        } else {
            old(state).angle as int
        },
        final(state).colors == old(state).colors,
        final(state).mode == old(state).mode,
        final(state).animation_delay == old(state).animation_delay,
        final(state).align_vertically == old(state).align_vertically,
        final(state).align_horizontally == old(state).align_horizontally,
{
    if input == ',' || input == '.' {
        let step: u32 = get_adjusted_angle_step(
            direction,
            ROTATION_STEP,
            canvas_extent(width),
            canvas_extent(height),
        );
        if input == '.' {
            state.angle = wrap_angle(state.angle, step as i64);
        } else {
            state.angle = wrap_angle(state.angle, -(step as i64));
        }
        true
    } else {
        *keep_rendering = false;
        false
    }
}

/// Only the angle differs between the two states.
pub open spec fn same_but_angle(before: ProgramState, after: ProgramState) -> bool {
    &&& after.colors == before.colors
    &&& after.mode == before.mode
    &&& after.animation_delay == before.animation_delay
    &&& after.align_vertically == before.align_vertically
    &&& after.align_horizontally == before.align_horizontally
}

/// Only the colours differ between the two states.
pub open spec fn same_but_colors(before: ProgramState, after: ProgramState) -> bool {
    &&& after.angle == before.angle
    &&& after.mode == before.mode
    &&& after.animation_delay == before.animation_delay
    &&& after.align_vertically == before.align_vertically
    &&& after.align_horizontally == before.align_horizontally
}

/// Turns the gradient by one step, as the matching keystroke would, on the
/// canvas of the message.
pub fn handle_network_rotation(
    state: &mut ProgramState,
    rotate_left: bool,
    message: &ParsedMessage,
    direction: Direction,
)
    requires
        direction.wf(),
    ensures
        final(state).angle == rotated(
            old(state).angle as int,
            direction,
            message.max_line_size as int,
            message.lines@.len() as int,
            rotate_left,
        ),
        same_but_angle(*old(state), *final(state)),
{
    let mut keep_rendering_mock = false;
    if rotate_left {
        handle_input(
            ',',
            state,
            &mut keep_rendering_mock,
            direction,
            message.max_line_size,
            message.lines.len(),
        );
    } else {
        handle_input(
            '.',
            state,
            &mut keep_rendering_mock,
            direction,
            message.max_line_size,
            message.lines.len(),
        );
    }
}

/// Sets the angle to the one that `angle` states, as it is: it is not
/// brought into one full turn. A text that states no angle is refused and
/// changes nothing.
pub fn handle_network_set_angle(angle: String, state: &mut ProgramState) -> (result: Result<
    (),
    String,
>)
    ensures
        match parsed_angle(angle@) {
            Some(value) => result is Ok && final(state).angle == value && same_but_angle(
                *old(state),
                *final(state),
            ),
            None => result is Err && result.unwrap_err()@ == angle_error(angle@) && *final(state)
                == *old(state),
        },
{
    match parse_angle(angle.as_str()) {
        Some(value) => {
            state.angle = value;
            Ok(())
        },
        None => {
            let mut error = String::from_str("\"");
            error.append(angle.as_str());
            error.append("\" is not a valid angle.");
            assert(error@ =~= angle_error(angle@));
            Err(error)
        },
    }
}

/// Replaces the stops of the gradient by the colours that `colors` lists,
/// separated by single blanks, all or nothing: if a token names no colour,
/// the first such token is reported and nothing changes.
pub fn handle_network_set_color(colors: String, state: &mut ProgramState) -> (result: Result<
    (),
    String,
>)
    ensures
        match parsed_colors(split(colors@, ' ')) {
            Ok(stops) => {
                &&& result is Ok
                &&& final(state).colors@ == stops
                &&& same_but_colors(*old(state), *final(state))
                &&& final(state).wf()
            },
            Err(reason) => {
                &&& result is Err
                &&& result.unwrap_err()@ == reason
                &&& *final(state) == *old(state)
            },
        },
{
    let colors_vector = split_on(colors.as_str(), ' ');
    proof {
        lemma_split_nonempty(colors@, ' ');
    }
    match parse_program_colors(&colors_vector) {
        Ok(parsed) => {
            state.colors = parsed;
            Ok(())
        },
        Err(error) => Err(error),
    }
}

/// Replaces the message by the glyph grid of `incoming_message`.
pub fn handle_network_set_message(incoming_message: String, program_message: &mut ParsedMessage)
    ensures
        final(program_message).glyphs() == glyph_grid(incoming_message@),
        final(program_message).wf(),
{
    *program_message = parse_message(incoming_message);
}

/// Replaces the message by `incoming_text` written in the glyphs of the font
/// whose text is `font`.
pub fn handle_network_set_text(
    incoming_text: String,
    program_message: &mut ParsedMessage,
    font: &str,
)
    ensures
        final(program_message).glyphs() == banner(
            font_glyphs(split(font@, '\n')),
            uppercase_of(incoming_text@),
        ),
        final(program_message).wf(),
{
    *program_message = generate_message(incoming_text, font);
}

/// What a command reports: `Ok(true)` where it replaces the message,
/// `Ok(false)` where it changes the state, and the reason where its payload
/// cannot be read.
pub open spec fn command_outcome(action: ControlMessageAction, value: Seq<char>) -> Result<
    bool,
    Seq<char>,
> {
    match action {
        ControlMessageAction::SetAngle => match parsed_angle(value) {
            Some(_) => Ok(false),
            None => Err(angle_error(value)),
        },
        ControlMessageAction::SetColor => match parsed_colors(split(value, ' ')) {
            Ok(_) => Ok(false),
            Err(reason) => Err(reason),
        },
        ControlMessageAction::SetMessage => Ok(true),
        ControlMessageAction::SetText => Ok(true),
        ControlMessageAction::RotateLeft => Ok(false),
        ControlMessageAction::RotateRight => Ok(false),
    }
}

/// What a command does: how the state and the message after it relate to
/// those before it, for the command `action` with the payload `value`. A
/// command that is refused changes nothing.
pub open spec fn command_effect(
    action: ControlMessageAction,
    value: Seq<char>,
    direction: Direction,
    font: Seq<char>,
    state_before: ProgramState,
    message_before: ParsedMessage,
    state_after: ProgramState,
    message_after: ParsedMessage,
) -> bool {
    match action {
        ControlMessageAction::SetAngle => {
            &&& message_after == message_before
            &&& match parsed_angle(value) {
                Some(angle) => state_after.angle == angle && same_but_angle(
                    state_before,
                    state_after,
                ),
                None => state_after == state_before,
            }
        },
        ControlMessageAction::SetColor => {
            &&& message_after == message_before
            &&& match parsed_colors(split(value, ' ')) {
                Ok(stops) => state_after.colors@ == stops && same_but_colors(
                    state_before,
                    state_after,
                ),
                Err(_) => state_after == state_before,
            }
        },
        ControlMessageAction::SetMessage => {
            &&& state_after == state_before
            &&& message_after.glyphs() == glyph_grid(value)
        },
        ControlMessageAction::SetText => {
            &&& state_after == state_before
            &&& message_after.glyphs() == banner(
                font_glyphs(split(font, '\n')),
                uppercase_of(value),
            )
        },
        ControlMessageAction::RotateLeft => {
            &&& message_after == message_before
            &&& same_but_angle(state_before, state_after)
            &&& state_after.angle == rotated(
                state_before.angle as int,
                direction,
                message_before.max_line_size as int,
                message_before.lines@.len() as int,
                true,
            )
        },
        ControlMessageAction::RotateRight => {
            &&& message_after == message_before
            &&& same_but_angle(state_before, state_after)
            &&& state_after.angle == rotated(
                state_before.angle as int,
                direction,
                message_before.max_line_size as int,
                message_before.lines@.len() as int,
                false,
            )
        },
    }
}

/// A result with its report, if it holds one, as characters.
pub open spec fn outcome_of(result: Result<bool, String>) -> Result<bool, Seq<char>> {
    match result {
        Ok(clear) => Ok(clear),
        Err(error) => Err(error@),
    }
}

/// Carries out one command of the control channel on the render state and
/// the message. `Ok(true)` says that the message was replaced, so that the
/// screen must be cleared before the next drawing; `Ok(false)` that a redraw
/// is enough. A payload that cannot be read is refused with the reason, and
/// then nothing has changed.
pub fn handle_network_input(
    input: ParsedControlMessage,
    state: &mut ProgramState,
    message: &mut ParsedMessage,
    direction: Direction,
    font: &str,
) -> (result: Result<bool, String>)
    requires
        direction.wf(),
        old(state).wf(),
        old(message).wf(),
    ensures
        final(state).wf(),
        final(message).wf(),
        outcome_of(result) == command_outcome(input.action, input.value@),
        command_effect(
            input.action,
            input.value@,
            direction,
            font@,
            *old(state),
            *old(message),
            *final(state),
            *final(message),
        ),
{
    match input.action {
        ControlMessageAction::SetAngle => {
            match handle_network_set_angle(input.value, state) {
                Ok(_) => Ok(false),
                Err(error) => Err(error),
            }
        },
        ControlMessageAction::SetColor => {
            match handle_network_set_color(input.value, state) {
                Ok(_) => Ok(false),
                Err(error) => Err(error),
            }
        },
        ControlMessageAction::SetMessage => {
            handle_network_set_message(input.value, message);
            Ok(true)
        },
        ControlMessageAction::SetText => {
            handle_network_set_text(input.value, message, font);
            Ok(true)
        },
        ControlMessageAction::RotateLeft => {
            handle_network_rotation(state, true, message, direction);
            Ok(false)
        },
        ControlMessageAction::RotateRight => {
            handle_network_rotation(state, false, message, direction);
            Ok(false)
        },
    }
}

} // verus!
