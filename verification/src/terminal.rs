//! The size of the terminal and the mode changes that can be asked of it.

use vstd::prelude::*;

verus! {

/// Entering or leaving the alternate screen.
#[derive(Clone, Copy, Debug, PartialEq, Eq, Structural)]
pub enum AlternateScreenAction {
    Enter,
    Leave,
}

/// Switching the raw mode of standard input on or off.
#[derive(Clone, Copy, Debug, PartialEq, Eq, Structural)]
pub enum SetStdinRawModeAction {
    Enable,
    Disable,
}

/// Hiding or showing the cursor.
#[derive(Clone, Copy, Debug, PartialEq, Eq, Structural)]
pub enum CursorVisibilityAction {
    Hide,
    Show,
}

/// The extent of the terminal in columns and rows.
#[derive(Clone, Copy, Debug, PartialEq, Eq, Structural)]
pub struct TerminalSize {
    pub width: u16,
    pub height: u16,
}

impl TerminalSize {
    /// Takes over a new extent, as after a resize.
    pub fn update(&mut self, width: u16, height: u16)
        ensures
            final(self).width == width,
            final(self).height == height,
    {
        self.width = width;
        self.height = height;
    }
}

/// A change of the terminal's mode.
#[derive(Clone, Copy, Debug, PartialEq, Eq, Structural)]
pub enum ModeChange {
    AlternateScreen(AlternateScreenAction),
    RawMode(SetStdinRawModeAction),
    CursorVisibility(CursorVisibilityAction),
}

/// What to do when a change of mode fails.
#[derive(Clone, Copy, Debug, PartialEq, Eq, Structural)]
pub enum OnFailure {
    /// Give up: say so and leave the program.
    Abort,
    /// Give up after leaving the alternate screen again, as far as that works.
    LeaveScreenAndAbort,
    /// Say so and go on.
    Report,
    /// Go on without a word.
    Ignore,
}

/// One step of entering or leaving the interactive mode.
#[derive(Clone, Copy, Debug, PartialEq, Eq, Structural)]
pub struct ModeStep {
    pub change: ModeChange,
    pub on_failure: OnFailure,
}

/// The steps that enter the interactive mode: the alternate screen, then raw
/// input, then a hidden cursor. Without the first two there is no
/// interactive mode; a cursor that stays visible is put up with.
pub open spec fn entering_steps() -> Seq<ModeStep> {
    seq![
        ModeStep {
            change: ModeChange::AlternateScreen(AlternateScreenAction::Enter),
            on_failure: OnFailure::Abort,
        },
        ModeStep {
            change: ModeChange::RawMode(SetStdinRawModeAction::Enable),
            on_failure: OnFailure::LeaveScreenAndAbort,
        },
        ModeStep {
            change: ModeChange::CursorVisibility(CursorVisibilityAction::Hide),
            on_failure: OnFailure::Ignore,
        },
    ]
}

/// The steps that leave the interactive mode, each tried whether or not the
/// one before it worked.
pub open spec fn leaving_steps() -> Seq<ModeStep> {
    seq![
        ModeStep {
            change: ModeChange::AlternateScreen(AlternateScreenAction::Leave),
            on_failure: OnFailure::Report,
        },
        ModeStep {
            change: ModeChange::RawMode(SetStdinRawModeAction::Disable),
            on_failure: OnFailure::Report,
        },
        ModeStep {
            change: ModeChange::CursorVisibility(CursorVisibilityAction::Show),
            on_failure: OnFailure::Report,
        },
    ]
}

/// The steps that enter the interactive mode, in order.
pub fn enter_iterative_mode() -> (steps: Vec<ModeStep>)
    ensures
        steps@ == entering_steps(),
{
    let mut steps: Vec<ModeStep> = Vec::new();
    steps.push(
        ModeStep {
            change: ModeChange::AlternateScreen(AlternateScreenAction::Enter),
            on_failure: OnFailure::Abort,
        },
    );
    steps.push(
        ModeStep {
            change: ModeChange::RawMode(SetStdinRawModeAction::Enable),
            on_failure: OnFailure::LeaveScreenAndAbort,
        },
    );
    steps.push(
        ModeStep {
            change: ModeChange::CursorVisibility(CursorVisibilityAction::Hide),
            on_failure: OnFailure::Ignore,
        },
    );
    assert(steps@ =~= entering_steps());
    steps
}

/// The steps that leave the interactive mode, in order.
pub fn leave_iterative_mode() -> (steps: Vec<ModeStep>)
    ensures
        steps@ == leaving_steps(),
{
    let mut steps: Vec<ModeStep> = Vec::new();
    steps.push(
        ModeStep {
            change: ModeChange::AlternateScreen(AlternateScreenAction::Leave),
            on_failure: OnFailure::Report,
        },
    );
    steps.push(
        ModeStep {
            change: ModeChange::RawMode(SetStdinRawModeAction::Disable),
            on_failure: OnFailure::Report,
        },
    );
    steps.push(
        ModeStep {
            change: ModeChange::CursorVisibility(CursorVisibilityAction::Show),
            on_failure: OnFailure::Report,
        },
    );
    assert(steps@ =~= leaving_steps());
    steps
}

} // verus!
