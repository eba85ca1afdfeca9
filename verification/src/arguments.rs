//! What the command line can set.

use vstd::prelude::*;

verus! {

/// The options of one run, as they were given.
#[derive(Debug)]
pub struct ProgramArguments {
    /// The file that holds the message.
    pub message_file: Option<String>,
    /// A text to show in the built-in banner font.
    pub display_text: Option<String>,
    pub align_vertically: bool,
    pub align_horizontally: bool,
    /// Draw line by line, with this delay in milliseconds.
    pub line_by_line_mode: Option<u32>,
    /// Draw glyph by glyph, with this delay in milliseconds.
    pub char_by_char_mode: Option<u32>,
    /// The colour stops, each written as `#RRGGBB`.
    pub colors: Option<Vec<String>>,
    /// The angle of the gradient in degrees.
    pub angle: Option<u16>,
    pub disable_iterative: bool,
    pub disable_stdout: bool,
    /// The address and port on which to listen for control messages.
    pub control_server: Option<String>,
}

} // verus!
