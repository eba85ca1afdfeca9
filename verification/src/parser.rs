//! From text to values: the glyph grid of a message, colour lists, and the
//! command that a decoded control message asks for.

use crate::color::Color;
use crate::text::{chars_of, hex_digit, hex_digit_value, split, split_on};
use unicode_segmentation::UnicodeSegmentation;
use vstd::prelude::*;
use vstd::string::*;

verus! {

/// What a control message asks for.
#[derive(Clone, Copy, Debug, PartialEq, Eq, Structural)]
pub enum ControlMessageAction {
    RotateLeft,
    RotateRight,
    SetMessage,
    SetColor,
    SetAngle,
    SetText,
}

/// A message laid out as a grid: its lines, each a row of glyphs, and the
/// width of the widest line.
#[derive(Debug)]
pub struct ParsedMessage {
    pub max_line_size: usize,
    pub lines: Vec<Vec<String>>,
}

/// A command of the control channel with its payload as text.
#[derive(Debug)]
pub struct ParsedControlMessage {
    pub action: ControlMessageAction,
    pub value: String,
}

/// A control message as it was decoded from JSON, before it is checked.
#[derive(Debug)]
pub struct ControlMessage {
    pub action: String,
    pub message: Option<String>,
    pub colors: Option<String>,
    /// The angle as the message gives it: the text of a number.
    pub angle: Option<String>,
}

/// The extended grapheme clusters of `line`, in order.
pub uninterp spec fn grapheme_clusters(line: Seq<char>) -> Seq<Seq<char>>;

/// `cells` cut `line` into pieces: no piece is empty, and one after the
/// other the pieces make up the line.
pub open spec fn cuts(cells: Seq<Seq<char>>, line: Seq<char>) -> bool {
    &&& cells.flatten() == line
    &&& forall|i: int| 0 <= i < cells.len() ==> (#[trigger] cells[i]).len() > 0
}

/// Cuts `line` into its glyphs. Trusted: `UnicodeSegmentation::graphemes`
/// with `true` yields the extended grapheme clusters of the line, the same
/// for the same characters; they are consecutive pieces of the line, each of
/// at least one character, that together make up all of it.
#[verifier::external_body]
pub(crate) fn graphemes_of(line: &str) -> (glyphs: Vec<String>)
    ensures
        glyphs.deep_view() == grapheme_clusters(line@),
        cuts(glyphs.deep_view(), line@),
{
    let mut glyphs: Vec<String> = Vec::new();
    for glyph in line.graphemes(true) {
        glyphs.push(glyph.to_string());
    }
    glyphs
}

/// The length of the longest of `lines`; 0 where there is none.
pub open spec fn widest(lines: Seq<Seq<Seq<char>>>) -> nat
    decreases lines.len(),
{
    if lines.len() == 0 {
        0
    } else {
        let before = widest(lines.drop_last());
        if lines.last().len() > before {
            lines.last().len()
        } else {
            before
        }
    }
}

/// No line is longer than the widest, and some line is that long.
pub proof fn lemma_widest_is_maximum(lines: Seq<Seq<Seq<char>>>)
    ensures
        forall|i: int| 0 <= i < lines.len() ==> (#[trigger] lines[i]).len() <= widest(lines),
        lines.len() > 0 ==> exists|i: int|
            0 <= i < lines.len() && (#[trigger] lines[i]).len() == widest(lines),
        lines.len() == 0 ==> widest(lines) == 0,
    decreases lines.len(),
{
    if lines.len() > 0 {
        let before = lines.drop_last();
        lemma_widest_is_maximum(before);
        assert forall|i: int| 0 <= i < lines.len() implies (#[trigger] lines[i]).len() <= widest(
            lines,
        ) by {
            if i < lines.len() - 1 {
                assert(lines[i] == before[i]);
            }
        }
        if lines.last().len() > widest(before) || before.len() == 0 {
            assert(lines[lines.len() - 1].len() == widest(lines));
        } else {
            let i = choose|i: int|
                0 <= i < before.len() && (#[trigger] before[i]).len() == widest(before);
            assert(lines[i] == before[i]);
        }
    }
}

/// The glyph grid of `text`: its lines, as split at each line feed, each cut
/// into grapheme clusters.
pub open spec fn glyph_grid(text: Seq<char>) -> Seq<Seq<Seq<char>>> {
    split(text, '\n').map_values(|line: Seq<char>| grapheme_clusters(line))
}

impl ParsedMessage {
    /// The glyphs of the message, line by line.
    pub open spec fn glyphs(&self) -> Seq<Seq<Seq<char>>> {
        self.lines.deep_view()
    }

    /// `max_line_size` is the width of the widest line.
    pub open spec fn wf(&self) -> bool {
        self.max_line_size == widest(self.glyphs())
    }

    /// The grid made of `lines`, with the width of its widest line.
    pub fn from_lines(lines: Vec<Vec<String>>) -> (message: ParsedMessage)
        ensures
            message.lines == lines,
            message.glyphs() == lines.deep_view(),
            message.wf(),
    {
        let mut max_line_size: usize = 0;
        let mut i: usize = 0;
        while i < lines.len()
            invariant
                i <= lines@.len(),
                max_line_size == widest(lines.deep_view().take(i as int)),
            decreases lines@.len() - i,
        {
            let size = lines[i].len();
            proof {
                let upto = lines.deep_view().take(i + 1);
                assert(upto.drop_last() =~= lines.deep_view().take(i as int));
                assert(upto.last() == lines@[i as int].deep_view());
                assert(lines@[i as int].deep_view().len() == size);
            }
            if size > max_line_size {
                max_line_size = size;
            }
            i += 1;
        }
        assert(lines.deep_view().take(lines@.len() as int) =~= lines.deep_view());
        ParsedMessage { max_line_size, lines }
    }
}

/// Lays `message` out as a glyph grid: one line for each piece between line
/// feeds, each line cut into grapheme clusters. No glyph is empty, and the
/// glyphs of a line, one after the other, are the line.
pub fn parse_message(message: String) -> (parsed: ParsedMessage)
    ensures
        parsed.glyphs() == glyph_grid(message@),
        parsed.wf(),
        forall|i: int|
            0 <= i < parsed.glyphs().len() ==> cuts(
                #[trigger] parsed.glyphs()[i],
                split(message@, '\n')[i],
            ),
{
    let pieces = split_on(message.as_str(), '\n');
    let mut lines: Vec<Vec<String>> = Vec::new();
    let mut i: usize = 0;
    while i < pieces.len()
        invariant
            i <= pieces@.len(),
            pieces.deep_view() == split(message@, '\n'),
            lines.deep_view() == glyph_grid(message@).take(i as int),
            forall|k: int|
                0 <= k < i ==> cuts(#[trigger] lines.deep_view()[k], split(message@, '\n')[k]),
        decreases pieces@.len() - i,
    {
        let ghost done = lines.deep_view();
        let glyphs = graphemes_of(pieces[i].as_str());
        proof {
            assert(pieces@[i as int]@ == pieces.deep_view()[i as int]);
        }
        lines.push(glyphs);
        proof {
            assert(lines.deep_view() =~= done.push(glyphs.deep_view()));
            assert(lines.deep_view() =~= glyph_grid(message@).take(i + 1));
        }
        i += 1;
    }
    assert(glyph_grid(message@).take(pieces@.len() as int) =~= glyph_grid(message@));
    ParsedMessage::from_lines(lines)
}

/// The value of two hexadecimal digits, the high one first.
pub open spec fn hex_pair(high: char, low: char) -> Option<int> {
    match (hex_digit_value(high), hex_digit_value(low)) {
        (Some(h), Some(l)) => Some(16 * h + l),
        _ => None,
    }
}

/// The colour that `token` names: a `#`, then two hexadecimal digits for each
/// of red, green and blue, and nothing else.
pub open spec fn hex_color(token: Seq<char>) -> Option<Color> {
    if token.len() == 7 && token[0] == '#' {
        match (
            hex_pair(token[1], token[2]),
            hex_pair(token[3], token[4]),
            hex_pair(token[5], token[6]),
        ) {
            (Some(r), Some(g), Some(b)) => Some(Color { r: r as u8, g: g as u8, b: b as u8 }),
            _ => None,
        }
    } else {
        None
    }
}

/// Reads two hexadecimal digits as one channel.
fn parse_hex_pair(high: char, low: char) -> (value: Option<u8>)
    ensures
        match hex_pair(high, low) {
            Some(expected) => value == Some(expected as u8) && 0 <= expected < 256,
            None => value is None,
        },
{
    match (hex_digit(high), hex_digit(low)) {
        (Some(h), Some(l)) => Some(16 * h + l),
        _ => None,
    }
}

/// Reads a colour written as `#RRGGBB`.
pub fn parse_hex_color(s: &str) -> (color: Option<Color>)
    ensures
        color == hex_color(s@),
{
    let chars = chars_of(s);
    if chars.len() != 7 || chars[0] != '#' {
        return None;
    }
    match (
        parse_hex_pair(chars[1], chars[2]),
        parse_hex_pair(chars[3], chars[4]),
        parse_hex_pair(chars[5], chars[6]),
    ) {
        (Some(r), Some(g), Some(b)) => Some(Color { r, g, b }),
        _ => None,
    }
}

/// What is reported for a token that names no colour.
pub open spec fn color_error(token: Seq<char>) -> Seq<char> {
    "\""@ + token + "\" is not a valid hexadecimal color."@
}

/// The token at `index` names no colour, and every token before it names one.
pub open spec fn is_first_invalid(tokens: Seq<Seq<char>>, index: int) -> bool {
    &&& 0 <= index < tokens.len()
    &&& hex_color(tokens[index]) is None
    &&& forall|j: int| 0 <= j < index ==> hex_color(#[trigger] tokens[j]) is Some
}

/// The place of the first token that names no colour.
pub open spec fn first_invalid(tokens: Seq<Seq<char>>) -> int {
    choose|index: int| is_first_invalid(tokens, index)
}

/// Every token names a colour.
pub open spec fn all_colors_valid(tokens: Seq<Seq<char>>) -> bool {
    forall|i: int| 0 <= i < tokens.len() ==> hex_color(#[trigger] tokens[i]) is Some
}

/// What a list of tokens gives, all or nothing: the colours that they name,
/// in order, or the report on the first token that names none.
pub open spec fn parsed_colors(tokens: Seq<Seq<char>>) -> Result<Seq<Color>, Seq<char>> {
    if all_colors_valid(tokens) {
        Ok(Seq::new(tokens.len(), |i: int| hex_color(tokens[i])->0))
    } else {
        Err(color_error(tokens[first_invalid(tokens)]))
    }
}

/// A list has one first token that names no colour.
pub proof fn lemma_first_invalid_unique(tokens: Seq<Seq<char>>, index: int)
    requires
        is_first_invalid(tokens, index),
    ensures
        !all_colors_valid(tokens),
        first_invalid(tokens) == index,
{
    let chosen = first_invalid(tokens);
    assert(is_first_invalid(tokens, chosen));
    if chosen < index {
        assert(hex_color(tokens[chosen]) is Some);
    }
    if index < chosen {
        assert(hex_color(tokens[index]) is Some);
    }
}

/// Reads a list of colours, all or nothing: the colours in order if every
/// token names one, else the report on the first token that does not.
pub fn parse_program_colors(colors: &Vec<String>) -> (result: Result<Vec<Color>, String>)
    ensures
        match parsed_colors(colors.deep_view()) {
            Ok(expected) => result is Ok && result.unwrap()@ == expected,
            Err(reason) => result is Err && result.unwrap_err()@ == reason,
        },
{
    let mut parsed: Vec<Color> = Vec::new();
    let mut i: usize = 0;
    while i < colors.len()
        invariant
            i <= colors@.len(),
            parsed@.len() == i,
            forall|k: int|
                0 <= k < i ==> hex_color(#[trigger] colors.deep_view()[k]) == Some(parsed@[k]),
        decreases colors@.len() - i,
    {
        proof {
            assert(colors.deep_view()[i as int] == colors@[i as int]@);
        }
        match parse_hex_color(colors[i].as_str()) {
            Some(color) => {
                parsed.push(color);
            },
            None => {
                let mut error = String::from_str("\"");
                error.append(colors[i].as_str());
                error.append("\" is not a valid hexadecimal color.");
                proof {
                    lemma_first_invalid_unique(colors.deep_view(), i as int);
                    assert(error@ =~= color_error(colors.deep_view()[i as int]));
                }
                return Err(error);
            },
        }
        i += 1;
    }
    proof {
        assert(all_colors_valid(colors.deep_view()));
        assert(parsed@ =~= parsed_colors(colors.deep_view())->Ok_0);
    }
    Ok(parsed)
}

/// The reply to a message that is no JSON object of the expected shape, or
/// whose action is not known.
pub open spec fn invalid_message_error() -> Seq<char> {
    "The sent message is not a valid JSON for this application."@
}

/// The reply to a message whose action lacks the field that it needs.
pub open spec fn missing_value_error(action: Seq<char>) -> Seq<char> {
    "You must provide a valid value to perform the action '"@ + action + "'."@
}

/// The payload of a field that an action needs, or the report that it is missing.
pub open spec fn required_field(
    action: ControlMessageAction,
    name: Seq<char>,
    field: Option<Seq<char>>,
) -> Result<(ControlMessageAction, Seq<char>), Seq<char>> {
    match field {
        Some(value) => Ok((action, value)),
        None => Err(missing_value_error(name)),
    }
}

/// The command that a decoded control message asks for, with its payload, or
/// the reason why it is refused. `None` stands for text that could not be
/// decoded.
pub open spec fn control_command(decoded: Option<ControlMessage>) -> Result<
    (ControlMessageAction, Seq<char>),
    Seq<char>,
> {
    match decoded {
        None => Err(invalid_message_error()),
        Some(message) => {
            let action = message.action@;
            if action == "SET_MESSAGE"@ {
                required_field(
                    ControlMessageAction::SetMessage,
                    action,
                    match message.message {
                        Some(text) => Some(text@),
                        None => None,
                    },
                )
            } else if action == "SET_COLORS"@ {
                required_field(
                    ControlMessageAction::SetColor,
                    action,
                    match message.colors {
                        Some(text) => Some(text@),
                        None => None,
                    },
                )
            } else if action == "SET_ANGLE"@ {
                required_field(
                    ControlMessageAction::SetAngle,
                    action,
                    match message.angle {
                        Some(text) => Some(text@),
                        None => None,
                    },
                )
            } else if action == "ROTATE_LEFT"@ {
                Ok((ControlMessageAction::RotateLeft, Seq::<char>::empty()))
            } else if action == "ROTATE_RIGHT"@ {
                Ok((ControlMessageAction::RotateRight, Seq::<char>::empty()))
            } else if action == "SET_TEXT"@ {
                required_field(
                    ControlMessageAction::SetText,
                    action,
                    match message.message {
                        Some(text) => Some(text@),
                        None => None,
                    },
                )
            } else {
                Err(invalid_message_error())
            }
        },
    }
}

/// Whether `text` reads `expected`.
fn reads(text: &String, expected: &str) -> (same: bool)
    ensures
        same == (text@ == expected@),
{
    *text == String::from_str(expected)
}

/// The command for `action` with the payload `field`, or the report that the
/// field is missing.
fn with_required_field(
    action: ControlMessageAction,
    name: &String,
    field: Option<String>,
) -> (result: Result<ParsedControlMessage, String>)
    ensures
        match required_field(
            action,
            name@,
            match field {
                Some(text) => Some(text@),
                None => None,
            },
        ) {
            Ok((expected_action, value)) => result is Ok && result.unwrap().action
                == expected_action && result.unwrap().value@ == value,
            Err(reason) => result is Err && result.unwrap_err()@ == reason,
        },
{
    match field {
        Some(value) => Ok(ParsedControlMessage { action, value }),
        None => {
            let mut reason = String::from_str(
                "You must provide a valid value to perform the action '",
            );
            reason.append(name.as_str());
            reason.append("'.");
            assert(reason@ =~= missing_value_error(name@));
            Err(reason)
        },
    }
}

/// Checks a decoded control message: names its action and picks the payload
/// that the action needs. A message that could not be decoded (`None`) or
/// whose action is unknown is refused as invalid; a known action without its
/// field is refused with a report that names the action.
pub fn parse_client_control_message(decoded: Option<ControlMessage>) -> (result: Result<
    ParsedControlMessage,
    String,
>)
    ensures
        match control_command(decoded) {
            Ok((action, value)) => result is Ok && result.unwrap().action == action
                && result.unwrap().value@ == value,
            Err(reason) => result is Err && result.unwrap_err()@ == reason,
        },
{
    let message = match decoded {
        Some(message) => message,
        None => {
            return Err(
                String::from_str("The sent message is not a valid JSON for this application."),
            );
        },
    };
    if reads(&message.action, "SET_MESSAGE") {
        with_required_field(ControlMessageAction::SetMessage, &message.action, message.message)
    } else if reads(&message.action, "SET_COLORS") {
        with_required_field(ControlMessageAction::SetColor, &message.action, message.colors)
    } else if reads(&message.action, "SET_ANGLE") {
        with_required_field(ControlMessageAction::SetAngle, &message.action, message.angle)
    } else if reads(&message.action, "ROTATE_LEFT") {
        Ok(ParsedControlMessage { action: ControlMessageAction::RotateLeft, value: String::new() })
    } else if reads(&message.action, "ROTATE_RIGHT") {
        Ok(ParsedControlMessage { action: ControlMessageAction::RotateRight, value: String::new() })
    } else if reads(&message.action, "SET_TEXT") {
        with_required_field(ControlMessageAction::SetText, &message.action, message.message)
    } else {
        Err(String::from_str("The sent message is not a valid JSON for this application."))
    }
}

} // verus!
