//! The render loop without its waiting: which phase follows which, and what
//! one event of a tick does to the state.

use crate::color::Direction;
use crate::input::{
    command_effect, command_outcome, handle_input, handle_network_input, rotated, same_but_angle,
};
use crate::network::{error_reply, json_string_literal, send_error_message_to_client};
use crate::parser::{
    control_command, parse_client_control_message, ControlMessage, ParsedMessage,
};
use crate::state::ProgramState;
use crate::terminal::TerminalSize;
use vstd::prelude::*;

verus! {

/// Where a run stands.
#[derive(Clone, Copy, Debug, PartialEq, Eq, Structural)]
pub enum LoopPhase {
    /// Before the first frame.
    Init,
    /// Drawing frames and taking keystrokes and commands.
    InteractiveLoop,
    /// Drawing the message once more, on the plain screen.
    FinalRender,
    /// Done.
    Exit,
}

/// The phase that follows `phase`. The interactive loop is entered unless it
/// is switched off, and lasts as long as `keep_rendering` holds; the final
/// drawing follows unless it is switched off.
pub open spec fn phase_after(
    phase: LoopPhase,
    keep_rendering: bool,
    disable_iterative: bool,
    disable_stdout: bool,
) -> LoopPhase {
    let closing = if disable_stdout {
        LoopPhase::Exit
    } else {
        LoopPhase::FinalRender
    };
    match phase {
        LoopPhase::Init => if disable_iterative {
            closing
        } else {
            LoopPhase::InteractiveLoop
        },
        LoopPhase::InteractiveLoop => if keep_rendering {
            LoopPhase::InteractiveLoop
        } else {
            closing
        },
        LoopPhase::FinalRender => LoopPhase::Exit,
        LoopPhase::Exit => LoopPhase::Exit,
    }
}

/// The phase that follows `phase`.
pub fn next_phase(
    phase: LoopPhase,
    keep_rendering: bool,
    disable_iterative: bool,
    disable_stdout: bool,
) -> (next: LoopPhase)
    ensures
        next == phase_after(phase, keep_rendering, disable_iterative, disable_stdout),
{
    let closing = if disable_stdout {
        LoopPhase::Exit
    } else {
        LoopPhase::FinalRender
    };
    match phase {
        LoopPhase::Init => if disable_iterative {
            closing
        } else {
            LoopPhase::InteractiveLoop
        },
        LoopPhase::InteractiveLoop => if keep_rendering {
            LoopPhase::InteractiveLoop
        } else {
            closing
        },
        LoopPhase::FinalRender => LoopPhase::Exit,
        LoopPhase::Exit => LoopPhase::Exit,
    }
}

/// Whether the frame with the number `frame`, counted from 0 within the
/// interactive loop, is drawn with the pauses of the animation: only the
/// very first one is, so that steering the gradient never replays it.
pub fn animates(frame: u64) -> (animate_draw: bool)
    ensures
        animate_draw == (frame == 0),
{
    frame == 0
}

/// What the terminal reports within a tick.
#[derive(Clone, Copy, Debug, PartialEq, Eq, Structural)]
pub enum TerminalEvent {
    /// A key that stands for a character.
    Key(char),
    /// Any other key.
    OtherKey,
    /// The terminal has a new extent, in columns and rows.
    Resize(u16, u16),
    /// Anything else.
    Other,
}

/// Takes in one event of the terminal. A character key steers the gradient
/// or ends the rendering, as `handle_input` says; any other key ends it. A
/// resize is taken over into `dimensions`, and the screen must then be
/// cleared, which the result says.
pub fn handle_terminal_event(
    event: TerminalEvent,
    state: &mut ProgramState,
    keep_rendering: &mut bool,
    dimensions: &mut TerminalSize,
    direction: Direction,
    width: usize,
    height: usize,
) -> (clear: bool)
    requires
        direction.wf(),
    ensures
        clear == (event is Resize),
        same_but_angle(*old(state), *final(state)),
        match event {
            TerminalEvent::Key(c) => {
                &&& *final(dimensions) == *old(dimensions)
                &&& *final(keep_rendering) == (*old(keep_rendering) && (c == ',' || c == '.'))
                &&& final(state).angle == if c == ',' {
                    rotated(old(state).angle as int, direction, width as int, height as int, true)
                } else if c == '.' {
                    rotated(old(state).angle as int, direction, width as int, height as int, false)
                } else {
                    old(state).angle as int
                }
            },
            TerminalEvent::OtherKey => {
                &&& *final(dimensions) == *old(dimensions)
                &&& !*final(keep_rendering)
                &&& final(state).angle == old(state).angle
            },
            TerminalEvent::Resize(columns, rows) => {
                &&& *final(dimensions) == (TerminalSize { width: columns, height: rows })
                &&& *final(keep_rendering) == *old(keep_rendering)
                &&& final(state).angle == old(state).angle
            },
            TerminalEvent::Other => {
                &&& *final(dimensions) == *old(dimensions)
                &&& *final(keep_rendering) == *old(keep_rendering)
                &&& final(state).angle == old(state).angle
            },
        },
{
    match event {
        TerminalEvent::Key(c) => {
            handle_input(c, state, keep_rendering, direction, width, height);
            false
        },
        TerminalEvent::OtherKey => {
            *keep_rendering = false;
            false
        },
        TerminalEvent::Resize(columns, rows) => {
            dimensions.update(columns, rows);
            true
        },
        TerminalEvent::Other => false,
    }
}

/// `reply` is the error reply for `reason`: the frame built around the JSON
/// literal of the reason.
pub open spec fn is_error_reply(reply: Seq<u8>, reason: Seq<char>) -> bool {
    reply == error_reply(Some(json_string_literal(reason)))
}

/// What taking in a decoded control message does. A message that is
/// refused as a whole changes nothing and is answered with the error reply
/// for the reason. Otherwise its command takes effect as `command_effect`
/// says, and a payload that is refused is answered with the error reply for
/// its reason.
pub open spec fn dispatch_effect(
    decoded: Option<ControlMessage>,
    direction: Direction,
    font: Seq<char>,
    state_before: ProgramState,
    message_before: ParsedMessage,
    state_after: ProgramState,
    message_after: ParsedMessage,
    result: Result<bool, Seq<u8>>,
) -> bool {
    match control_command(decoded) {
        Err(reason) => {
            &&& state_after == state_before
            &&& message_after == message_before
            &&& result is Err
            &&& is_error_reply(result->Err_0, reason)
        },
        Ok((action, value)) => {
            &&& command_effect(
                action,
                value,
                direction,
                font,
                state_before,
                message_before,
                state_after,
                message_after,
            )
            &&& match command_outcome(action, value) {
                Ok(clear) => result == Ok::<bool, Seq<u8>>(clear),
                Err(reason) => result is Err && is_error_reply(result->Err_0, reason),
            }
        },
    }
}

/// A result with its reply, if it holds one, as bytes.
pub open spec fn reply_of(result: Result<bool, Vec<u8>>) -> Result<bool, Seq<u8>> {
    match result {
        Ok(clear) => Ok(clear),
        Err(reply) => Err(reply@),
    }
}

/// Takes in one decoded control message (`None` for text that could not be
/// decoded) and carries out its command. `Ok` says whether the screen must
/// be cleared. A message that is refused, as a whole or for its payload,
/// changes nothing, and the bytes of the error reply for the connection that
/// sent it come back.
pub fn dispatch_control_message(
    decoded: Option<ControlMessage>,
    state: &mut ProgramState,
    message: &mut ParsedMessage,
    direction: Direction,
    font: &str,
) -> (result: Result<bool, Vec<u8>>)
    requires
        direction.wf(),
        old(state).wf(),
        old(message).wf(),
    ensures
        final(state).wf(),
        final(message).wf(),
        dispatch_effect(
            decoded,
            direction,
            font@,
            *old(state),
            *old(message),
            *final(state),
            *final(message),
            reply_of(result),
        ),
{
    match parse_client_control_message(decoded) {
        Ok(command) => match handle_network_input(command, state, message, direction, font) {
            Ok(clear) => Ok(clear),
            Err(reason) => Err(send_error_message_to_client(reason)),
        },
        Err(reason) => Err(send_error_message_to_client(reason)),
    }
}

} // verus!
