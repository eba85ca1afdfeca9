//! The layout of one frame: what has to be done on the terminal, in order,
//! to draw the message under the gradient.

use crate::color::{
    canvas_extent, canvas_extent_of, gradient_color, interpolate_multi_color, Color, Direction,
};
use crate::parser::{lemma_widest_is_maximum, ParsedMessage};
use crate::state::{ProgramMode, ProgramState};
use crate::terminal::TerminalSize;
use vstd::prelude::*;

verus! {

/// One step of drawing a frame.
#[derive(Clone, Copy, Debug, PartialEq, Eq, Structural)]
pub enum DrawCommand {
    /// Put the cursor at a column and a row.
    MoveTo { column: u16, row: u16 },
    /// Move the cursor to the right by so many columns.
    MoveRight(u16),
    /// Print an empty line.
    BlankLine,
    /// Print the glyph at place `cell` of line `line` of the message in `color`.
    Glyph { line: usize, cell: usize, color: Color },
    /// Wait for so many milliseconds.
    Pause(u64),
    /// End the line: a carriage return and a line feed.
    EndLine,
}

/// `n` as an extent on the terminal: `n` itself, or the largest extent where
/// `n` is beyond it.
pub open spec fn terminal_extent_of(n: int) -> int {
    if n > u16::MAX {
        u16::MAX as int
    } else {
        n
    }
}

/// `n` as an extent on the terminal.
pub fn terminal_extent(n: usize) -> (extent: u16)
    ensures
        extent == terminal_extent_of(n as int),
{
    if n > u16::MAX as usize {
        u16::MAX
    } else {
        n as u16
    }
}

/// `a - b`, or 0 where `b` is the larger.
pub open spec fn minus_or_zero(a: int, b: int) -> int {
    if a >= b {
        a - b
    } else {
        0
    }
}

/// The row on which a message of `lines` lines begins when it is centred on
/// a terminal of `height` rows: two below the row that leaves as many rows
/// above the message as below it, and row 2 where the message is too tall.
pub open spec fn top_padding_rows(height: int, lines: int) -> int {
    minus_or_zero(height / 2, terminal_extent_of(lines) / 2) + 2
}

/// The number of empty lines below a centred message of `lines` lines that
/// fill a terminal of `height` rows; none where the message is too tall.
pub open spec fn bottom_padding_rows(height: int, lines: int) -> int {
    minus_or_zero(minus_or_zero(height, minus_or_zero(height / 2, lines / 2)), lines)
}

/// The column at which a line of `line_length` glyphs begins when it is
/// centred on a terminal of `width` columns; 0 where the line is too long.
pub open spec fn left_padding_columns(width: int, line_length: int) -> int {
    minus_or_zero(width / 2, terminal_extent_of(line_length) / 2)
}

/// `count` empty lines.
pub open spec fn blank_lines(count: int) -> Seq<DrawCommand> {
    Seq::new(count as nat, |i: int| DrawCommand::BlankLine)
}

/// What brings the cursor to the first row of a centred message: empty lines
/// on a plain screen, a jump elsewhere.
pub open spec fn top_padding(height: int, lines: int, stdout_print: bool) -> Seq<DrawCommand> {
    if stdout_print {
        blank_lines(top_padding_rows(height, lines))
    } else {
        seq![DrawCommand::MoveTo { column: 0, row: top_padding_rows(height, lines) as u16 }]
    }
}

/// Appends `count` empty lines to `plan`.
fn add_blank_lines(plan: &mut Vec<DrawCommand>, count: usize)
    ensures
        final(plan)@ == old(plan)@ + blank_lines(count as int),
{
    let mut i: usize = 0;
    while i < count
        invariant
            i <= count,
            plan@ == old(plan)@ + blank_lines(i as int),
        decreases count - i,
    {
        plan.push(DrawCommand::BlankLine);
        i += 1;
        assert(plan@ =~= old(plan)@ + blank_lines(i as int));
    }
}

/// Appends to `plan` what brings the cursor to the first row of a centred
/// message of `message_lines` lines.
pub fn add_top_padding(
    plan: &mut Vec<DrawCommand>,
    dimensions: &TerminalSize,
    message_lines: usize,
    stdout_print: bool,
)
    ensures
        final(plan)@ == old(plan)@ + top_padding(
            dimensions.height as int,
            message_lines as int,
            stdout_print,
        ),
{
    let half_height: u16 = dimensions.height / 2;
    let half_lines: u16 = terminal_extent(message_lines) / 2;
    let above: u16 = if half_height >= half_lines { half_height - half_lines } else { 0 };
    let y_print_coordinate: u16 = above + 2;
    if stdout_print {
        add_blank_lines(plan, y_print_coordinate as usize);
    } else {
        plan.push(DrawCommand::MoveTo { column: 0, row: y_print_coordinate });
        assert(plan@ =~= old(plan)@ + top_padding(
            dimensions.height as int,
            message_lines as int,
            stdout_print,
        ));
    }
}

/// Appends to `plan` the empty lines that fill the terminal below a centred
/// message of `line_count` lines.
pub fn add_bottom_padding(plan: &mut Vec<DrawCommand>, dimensions: &TerminalSize, line_count: usize)
    ensures
        final(plan)@ == old(plan)@ + blank_lines(
            bottom_padding_rows(dimensions.height as int, line_count as int),
        ),
{
    let height: usize = dimensions.height as usize;
    let half_height: usize = height / 2;
    let half_lines: usize = line_count / 2;
    let y_print_coordinate: usize = if half_height >= half_lines {
        half_height - half_lines
    } else {
        0
    };
    let below: usize = if height >= y_print_coordinate { height - y_print_coordinate } else { 0 };
    let end_stuffing: usize = if below >= line_count { below - line_count } else { 0 };
    add_blank_lines(plan, end_stuffing);
}

/// Appends to `plan` the move that centres a line of `line_length` glyphs.
pub fn add_left_padding(plan: &mut Vec<DrawCommand>, dimensions: &TerminalSize, line_length: usize)
    ensures
        final(plan)@ == old(plan)@.push(
            DrawCommand::MoveRight(
                left_padding_columns(dimensions.width as int, line_length as int) as u16,
            ),
        ),
{
    let half_width: u16 = dimensions.width / 2;
    let half_line: u16 = terminal_extent(line_length) / 2;
    let message_x_offset: u16 = if half_width >= half_line { half_width - half_line } else { 0 };
    plan.push(DrawCommand::MoveRight(message_x_offset));
}

/// The steps for one glyph: the glyph in the colour that the gradient has
/// at `column` of line `line` on a canvas of `width` by `height` glyphs, and
/// a pause behind it where the message is typed out glyph by glyph.
pub open spec fn glyph_plan(
    state: ProgramState,
    direction: Direction,
    animate_draw: bool,
    column: int,
    line: int,
    width: int,
    height: int,
    cell: int,
) -> Seq<DrawCommand> {
    let glyph = DrawCommand::Glyph {
        line: line as usize,
        cell: cell as usize,
        color: gradient_color(
            canvas_extent_of(column),
            canvas_extent_of(line),
            canvas_extent_of(width),
            canvas_extent_of(height),
            direction,
            state.colors@,
        ),
    };
    if animate_draw && state.mode == ProgramMode::CharByChar {
        seq![glyph, DrawCommand::Pause(state.animation_delay)]
    } else {
        seq![glyph]
    }
}

/// The steps for the first `count` glyphs of a line whose first glyph lies
/// under column `first_column` of the gradient.
pub open spec fn glyphs_plan(
    state: ProgramState,
    direction: Direction,
    animate_draw: bool,
    first_column: int,
    line: int,
    width: int,
    height: int,
    count: nat,
) -> Seq<DrawCommand>
    decreases count,
{
    if count == 0 {
        Seq::empty()
    } else {
        glyphs_plan(
            state,
            direction,
            animate_draw,
            first_column,
            line,
            width,
            height,
            (count - 1) as nat,
        ) + glyph_plan(
            state,
            direction,
            animate_draw,
            first_column + count - 1,
            line,
            width,
            height,
            count - 1,
        )
    }
}

/// The steps that end a line: the line end, and a pause behind it where the
/// message is typed out line by line.
pub open spec fn line_end_plan(state: ProgramState, animate_draw: bool) -> Seq<DrawCommand> {
    if animate_draw && state.mode == ProgramMode::LineByLine {
        seq![DrawCommand::EndLine, DrawCommand::Pause(state.animation_delay)]
    } else {
        seq![DrawCommand::EndLine]
    }
}

/// The column of the gradient under the first glyph of a line of
/// `line_length` glyphs in a message `width` glyphs wide: the line is
/// centred under the gradient where lines are centred on the screen.
pub open spec fn first_color_index(width: int, line_length: int, centred: bool) -> int {
    if centred {
        minus_or_zero(width, line_length) / 2
    } else {
        0
    }
}

/// The steps for line `line` of the message.
pub open spec fn line_plan(
    message: ParsedMessage,
    state: ProgramState,
    direction: Direction,
    dimensions: TerminalSize,
    animate_draw: bool,
    line: int,
) -> Seq<DrawCommand> {
    let length = message.lines@[line]@.len() as int;
    let lead = if state.align_horizontally {
        seq![
            DrawCommand::MoveRight(left_padding_columns(dimensions.width as int, length) as u16),
        ]
    } else {
        Seq::empty()
    };
    lead + glyphs_plan(
        state,
        direction,
        animate_draw,
        first_color_index(message.max_line_size as int, length, state.align_horizontally),
        line,
        message.max_line_size as int,
        message.lines@.len() as int,
        length as nat,
    ) + line_end_plan(state, animate_draw)
}

/// The steps for the first `count` lines of the message.
pub open spec fn lines_plan(
    message: ParsedMessage,
    state: ProgramState,
    direction: Direction,
    dimensions: TerminalSize,
    animate_draw: bool,
    count: nat,
) -> Seq<DrawCommand>
    decreases count,
{
    if count == 0 {
        Seq::empty()
    } else {
        lines_plan(message, state, direction, dimensions, animate_draw, (count - 1) as nat)
            + line_plan(message, state, direction, dimensions, animate_draw, count - 1)
    }
}

/// The steps that draw one frame. On the alternate screen (`stdout_print`
/// off) the frame begins with a jump to the top left corner. A message that
/// is centred vertically is brought down to its first row, and on a plain
/// screen the rest of the terminal below it is filled with empty lines.
pub open spec fn frame_plan(
    message: ParsedMessage,
    state: ProgramState,
    direction: Direction,
    dimensions: TerminalSize,
    animate_draw: bool,
    stdout_print: bool,
) -> Seq<DrawCommand> {
    let home = if stdout_print {
        Seq::empty()
    } else {
        seq![DrawCommand::MoveTo { column: 0, row: 0 }]
    };
    let top = if state.align_vertically {
        top_padding(dimensions.height as int, message.lines@.len() as int, stdout_print)
    } else {
        Seq::empty()
    };
    let bottom = if state.align_vertically && stdout_print {
        blank_lines(bottom_padding_rows(dimensions.height as int, message.lines@.len() as int))
    } else {
        Seq::empty()
    };
    home + top + lines_plan(
        message,
        state,
        direction,
        dimensions,
        animate_draw,
        message.lines@.len(),
    ) + bottom
}

/// `command` draws nothing but a glyph that `message` holds.
pub open spec fn draws_from(message: ParsedMessage, command: DrawCommand) -> bool {
    match command {
        DrawCommand::Glyph { line, cell, color } => line < message.lines@.len() && cell
            < message.lines@[line as int]@.len(),
        _ => true,
    }
}

/// Every step of `plan` draws nothing but a glyph that `message` holds.
pub open spec fn all_draw_from(message: ParsedMessage, plan: Seq<DrawCommand>) -> bool {
    forall|k: int| 0 <= k < plan.len() ==> draws_from(message, #[trigger] plan[k])
}

/// Two plans that draw from a message do so when one follows the other.
proof fn lemma_draw_from_both(
    message: ParsedMessage,
    first: Seq<DrawCommand>,
    second: Seq<DrawCommand>,
)
    requires
        all_draw_from(message, first),
        all_draw_from(message, second),
    ensures
        all_draw_from(message, first + second),
{
    assert forall|k: int| 0 <= k < (first + second).len() implies draws_from(
        message,
        #[trigger] (first + second)[k],
    ) by {
        if k < first.len() {
            assert((first + second)[k] == first[k]);
        } else {
            assert((first + second)[k] == second[k - first.len()]);
        }
    }
}

/// The steps for the first `count` glyphs of a line draw glyphs of that line.
proof fn lemma_glyphs_plan_draws_from(
    message: ParsedMessage,
    state: ProgramState,
    direction: Direction,
    animate_draw: bool,
    first_column: int,
    line: int,
    width: int,
    height: int,
    count: nat,
)
    requires
        0 <= line < message.lines@.len(),
        count <= message.lines@[line]@.len(),
    ensures
        all_draw_from(
            message,
            glyphs_plan(state, direction, animate_draw, first_column, line, width, height, count),
        ),
    decreases count,
{
    if count > 0 {
        lemma_glyphs_plan_draws_from(
            message,
            state,
            direction,
            animate_draw,
            first_column,
            line,
            width,
            height,
            (count - 1) as nat,
        );
        let before = glyphs_plan(
            state,
            direction,
            animate_draw,
            first_column,
            line,
            width,
            height,
            (count - 1) as nat,
        );
        let this = glyph_plan(
            state,
            direction,
            animate_draw,
            first_column + count - 1,
            line,
            width,
            height,
            count - 1,
        );
        assert(message.lines.len() == message.lines@.len());
        assert(message.lines@[line].len() == message.lines@[line]@.len());
        assert forall|k: int| 0 <= k < this.len() implies draws_from(
            message,
            #[trigger] this[k],
        ) by {
            if k == 0 {
                assert(this[0] is Glyph);
            } else {
                assert(this[k] is Pause);
            }
        }
        lemma_draw_from_both(message, before, this);
    }
}

/// The steps for the first `count` lines draw glyphs of the message.
proof fn lemma_lines_plan_draws_from(
    message: ParsedMessage,
    state: ProgramState,
    direction: Direction,
    dimensions: TerminalSize,
    animate_draw: bool,
    count: nat,
)
    requires
        count <= message.lines@.len(),
    ensures
        all_draw_from(
            message,
            lines_plan(message, state, direction, dimensions, animate_draw, count),
        ),
    decreases count,
{
    if count > 0 {
        lemma_lines_plan_draws_from(
            message,
            state,
            direction,
            dimensions,
            animate_draw,
            (count - 1) as nat,
        );
        let line = count - 1;
        let length = message.lines@[line]@.len();
        let first = first_color_index(
            message.max_line_size as int,
            length as int,
            state.align_horizontally,
        );
        let glyphs = glyphs_plan(
            state,
            direction,
            animate_draw,
            first,
            line,
            message.max_line_size as int,
            message.lines@.len() as int,
            length,
        );
        lemma_glyphs_plan_draws_from(
            message,
            state,
            direction,
            animate_draw,
            first,
            line,
            message.max_line_size as int,
            message.lines@.len() as int,
            length,
        );
        let lead = if state.align_horizontally {
            seq![
                DrawCommand::MoveRight(
                    left_padding_columns(dimensions.width as int, length as int) as u16,
                ),
            ]
        } else {
            Seq::empty()
        };
        lemma_draw_from_both(message, lead, glyphs);
        lemma_draw_from_both(message, lead + glyphs, line_end_plan(state, animate_draw));
        lemma_draw_from_both(
            message,
            lines_plan(message, state, direction, dimensions, animate_draw, (count - 1) as nat),
            line_plan(message, state, direction, dimensions, animate_draw, line),
        );
    }
}

/// A frame draws glyphs of its message and no others: every glyph step names
/// a line of the message and a place within that line.
pub proof fn lemma_frame_draws_from_message(
    message: ParsedMessage,
    state: ProgramState,
    direction: Direction,
    dimensions: TerminalSize,
    animate_draw: bool,
    stdout_print: bool,
)
    ensures
        all_draw_from(
            message,
            frame_plan(message, state, direction, dimensions, animate_draw, stdout_print),
        ),
{
    lemma_lines_plan_draws_from(
        message,
        state,
        direction,
        dimensions,
        animate_draw,
        message.lines@.len(),
    );
    let home = if stdout_print {
        Seq::empty()
    } else {
        seq![DrawCommand::MoveTo { column: 0, row: 0 }]
    };
    let top = if state.align_vertically {
        top_padding(dimensions.height as int, message.lines@.len() as int, stdout_print)
    } else {
        Seq::empty()
    };
    let bottom = if state.align_vertically && stdout_print {
        blank_lines(bottom_padding_rows(dimensions.height as int, message.lines@.len() as int))
    } else {
        Seq::empty()
    };
    let lines = lines_plan(
        message,
        state,
        direction,
        dimensions,
        animate_draw,
        message.lines@.len(),
    );
    lemma_draw_from_both(message, home, top);
    lemma_draw_from_both(message, home + top, lines);
    lemma_draw_from_both(message, home + top + lines, bottom);
}

/// Appends to `plan` the steps for a line of `line_length` glyphs, line
/// `line_number` of a message of `max_size` by `lines_count` glyphs, whose
/// first glyph lies under column `color_index` of the gradient.
pub fn print_line(
    plan: &mut Vec<DrawCommand>,
    line_length: usize,
    color_index: usize,
    line_number: usize,
    max_size: usize,
    lines_count: usize,
    state: &ProgramState,
    direction: Direction,
    animate_draw: bool,
)
    requires
        state.wf(),
        direction.wf(),
        color_index + line_length <= usize::MAX,
    ensures
        final(plan)@ == old(plan)@ + glyphs_plan(
            *state,
            direction,
            animate_draw,
            color_index as int,
            line_number as int,
            max_size as int,
            lines_count as int,
            line_length as nat,
        ) + line_end_plan(*state, animate_draw),
{
    let mut cell: usize = 0;
    while cell < line_length
        invariant
            cell <= line_length,
            color_index + line_length <= usize::MAX,
            state.wf(),
            direction.wf(),
            plan@ == old(plan)@ + glyphs_plan(
                *state,
                direction,
                animate_draw,
                color_index as int,
                line_number as int,
                max_size as int,
                lines_count as int,
                cell as nat,
            ),
        decreases line_length - cell,
    {
        let ghost before = plan@;
        let color = interpolate_multi_color(
            canvas_extent(color_index + cell),
            canvas_extent(line_number),
            canvas_extent(max_size),
            canvas_extent(lines_count),
            direction,
            &state.colors,
        );
        plan.push(DrawCommand::Glyph { line: line_number, cell, color });
        if animate_draw && state.mode == ProgramMode::CharByChar {
            plan.push(DrawCommand::Pause(state.animation_delay));
        }
        assert(plan@ =~= before + glyph_plan(
            *state,
            direction,
            animate_draw,
            color_index + cell,
            line_number as int,
            max_size as int,
            lines_count as int,
            cell as int,
        ));
        cell += 1;
        assert(plan@ =~= old(plan)@ + glyphs_plan(
            *state,
            direction,
            animate_draw,
            color_index as int,
            line_number as int,
            max_size as int,
            lines_count as int,
            cell as nat,
        ));
    }
    let ghost before = plan@;
    plan.push(DrawCommand::EndLine);
    if animate_draw && state.mode == ProgramMode::LineByLine {
        plan.push(DrawCommand::Pause(state.animation_delay));
    }
    assert(plan@ =~= before + line_end_plan(*state, animate_draw));
}

/// The length of line `line` of a well-formed message, which the width of
/// the message bounds.
fn line_length(message: &ParsedMessage, line: usize) -> (length: usize)
    requires
        message.wf(),
        line < message.lines@.len(),
    ensures
        length == message.lines@[line as int]@.len(),
        length <= message.max_line_size,
{
    proof {
        lemma_widest_is_maximum(message.glyphs());
        assert(message.glyphs()[line as int].len() == message.lines@[line as int]@.len());
    }
    message.lines[line].len()
}

/// Appends to `plan` the steps for line `line` of the message.
fn print_message_line(
    plan: &mut Vec<DrawCommand>,
    message: &ParsedMessage,
    state: &ProgramState,
    direction: Direction,
    dimensions: &TerminalSize,
    animate_draw: bool,
    line: usize,
)
    requires
        message.wf(),
        state.wf(),
        direction.wf(),
        line < message.lines@.len(),
    ensures
        final(plan)@ == old(plan)@ + line_plan(
            *message,
            *state,
            direction,
            *dimensions,
            animate_draw,
            line as int,
        ),
{
    let length: usize = line_length(message, line);
    if state.align_horizontally {
        add_left_padding(plan, dimensions, length);
    }
    let color_index: usize = if state.align_horizontally {
        (message.max_line_size - length) / 2
    } else {
        0
    };
    let ghost lead = plan@;
    print_line(
        plan,
        length,
        color_index,
        line,
        message.max_line_size,
        message.lines.len(),
        state,
        direction,
        animate_draw,
    );
    assert(plan@ =~= old(plan)@ + line_plan(
        *message,
        *state,
        direction,
        *dimensions,
        animate_draw,
        line as int,
    ));
}

/// Lays out one frame: the steps that draw `message` under the gradient of
/// `state`, which runs along `direction`, on a terminal of `dimensions`.
/// With `animate_draw` the pauses of the state's mode are part of the
/// frame; `stdout_print` says that the frame goes to the plain screen.
pub fn print_message(
    message: &ParsedMessage,
    state: &ProgramState,
    direction: Direction,
    dimensions: TerminalSize,
    animate_draw: bool,
    stdout_print: bool,
) -> (plan: Vec<DrawCommand>)
    requires
        message.wf(),
        state.wf(),
        direction.wf(),
    ensures
        plan@ == frame_plan(*message, *state, direction, dimensions, animate_draw, stdout_print),
        all_draw_from(*message, plan@),
{
    proof {
        lemma_frame_draws_from_message(
            *message,
            *state,
            direction,
            dimensions,
            animate_draw,
            stdout_print,
        );
    }
    let mut plan: Vec<DrawCommand> = Vec::new();
    if !stdout_print {
        plan.push(DrawCommand::MoveTo { column: 0, row: 0 });
    }
    if state.align_vertically {
        add_top_padding(&mut plan, &dimensions, message.lines.len(), stdout_print);
    }
    let ghost head = plan@;
    let mut line: usize = 0;
    assert(plan@ =~= head + lines_plan(*message, *state, direction, dimensions, animate_draw, 0));
    while line < message.lines.len()
        invariant
            line <= message.lines@.len(),
            message.wf(),
            state.wf(),
            direction.wf(),
            plan@ == head + lines_plan(
                *message,
                *state,
                direction,
                dimensions,
                animate_draw,
                line as nat,
            ),
        decreases message.lines@.len() - line,
    {
        let ghost before = lines_plan(
            *message,
            *state,
            direction,
            dimensions,
            animate_draw,
            line as nat,
        );
        let ghost this = line_plan(
            *message,
            *state,
            direction,
            dimensions,
            animate_draw,
            line as int,
        );
        print_message_line(&mut plan, message, state, direction, &dimensions, animate_draw, line);
        line += 1;
        assert(lines_plan(*message, *state, direction, dimensions, animate_draw, line as nat)
            == before + this);
        assert(plan@ =~= head + (before + this));
    }
    if state.align_vertically && stdout_print {
        add_bottom_padding(&mut plan, &dimensions, message.lines.len());
    }
    assert(plan@ =~= frame_plan(
        *message,
        *state,
        direction,
        dimensions,
        animate_draw,
        stdout_print,
    ));
    plan
}

} // verus!
