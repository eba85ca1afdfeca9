//! Banner text: a message written large, each character drawn with the
//! glyph that a font holds for it.
//!
//! A font is a text of lines. Each glyph takes `FONT_HEIGHT` lines, and the
//! glyphs follow each other in a fixed order: the letters A to Z, the digits
//! 0 to 9, then `! # ? [ ] , . ( ) - _ /`.

use crate::parser::{cuts, grapheme_clusters, graphemes_of, ParsedMessage};
use crate::text::{
    chars_of, has_white_space_property, is_whitespace, split, split_on, to_uppercase, uppercase_of,
};
use vstd::prelude::*;
use vstd::string::*;

verus! {

/// The number of lines that a glyph takes.
pub const FONT_HEIGHT: usize = 6;

/// The number of glyphs in a font.
pub const FONT_GLYPHS: usize = 48;

/// The glyphs of the punctuation marks.
pub struct ExtractedPunctuation {
    exclamation: Vec<Vec<String>>,
    hashtag: Vec<Vec<String>>,
    question: Vec<Vec<String>>,
    open_bracket: Vec<Vec<String>>,
    close_bracket: Vec<Vec<String>>,
    comma: Vec<Vec<String>>,
    period: Vec<Vec<String>>,
    open_parenthesis: Vec<Vec<String>>,
    close_parenthesis: Vec<Vec<String>>,
    minus: Vec<Vec<String>>,
    underline: Vec<Vec<String>>,
    slash: Vec<Vec<String>>,
}

/// The glyphs of a font, by kind.
pub struct ExtractedGraphemes {
    characters: Vec<Vec<Vec<String>>>,
    numbers: Vec<Vec<Vec<String>>>,
    punctuation: ExtractedPunctuation,
}

/// Line `line` of a font as a row of glyph cells: its grapheme clusters. A
/// line that the font lacks is an empty row.
pub open spec fn font_row(font_lines: Seq<Seq<char>>, line: int) -> Seq<Seq<char>> {
    if 0 <= line < font_lines.len() {
        grapheme_clusters(font_lines[line])
    } else {
        Seq::empty()
    }
}

/// The glyph at place `index` of a font: its `FONT_HEIGHT` rows.
pub open spec fn font_glyph(font_lines: Seq<Seq<char>>, index: int) -> Seq<Seq<Seq<char>>> {
    Seq::new(FONT_HEIGHT as nat, |row: int| font_row(font_lines, FONT_HEIGHT * index + row))
}

/// Every row of `glyph`, the glyph at place `index`, cuts its line of the
/// font into cells, as far as the font holds that line.
pub open spec fn glyph_cuts_font(
    glyph: Seq<Seq<Seq<char>>>,
    font_lines: Seq<Seq<char>>,
    index: int,
) -> bool {
    forall|row: int|
        0 <= row < FONT_HEIGHT && FONT_HEIGHT * index + row < font_lines.len() ==> cuts(
            #[trigger] glyph[row],
            font_lines[FONT_HEIGHT * index + row],
        )
}

/// All glyphs of a font, in the order of the font.
pub open spec fn font_glyphs(font_lines: Seq<Seq<char>>) -> Seq<Seq<Seq<Seq<char>>>> {
    Seq::new(FONT_GLYPHS as nat, |index: int| font_glyph(font_lines, index))
}

/// The place in a font of the glyph for `c`, if the font has one.
pub open spec fn glyph_index(c: char) -> Option<int> {
    if 'A' <= c <= 'Z' {
        Some(c as int - 'A' as int)
    } else if '0' <= c <= '9' {
        Some(26 + c as int - '0' as int)
    } else {
        punctuation_index(c)
    }
}

/// The place in a font of the glyph for the punctuation mark `c`.
pub open spec fn punctuation_index(c: char) -> Option<int> {
    if c == '!' {
        Some(36)
    } else if c == '#' {
        Some(37)
    } else if c == '?' {
        Some(38)
    } else if c == '[' {
        Some(39)
    } else if c == ']' {
        Some(40)
    } else if c == ',' {
        Some(41)
    } else if c == '.' {
        Some(42)
    } else if c == '(' {
        Some(43)
    } else if c == ')' {
        Some(44)
    } else if c == '-' {
        Some(45)
    } else if c == '_' {
        Some(46)
    } else if c == '/' {
        Some(47)
    } else {
        None
    }
}

/// The glyph of white space: `FONT_HEIGHT` rows, each the grapheme clusters
/// of four blanks.
pub open spec fn blank_glyph() -> Seq<Seq<Seq<char>>> {
    Seq::new(FONT_HEIGHT as nat, |row: int| grapheme_clusters("    "@))
}

/// The glyph with which `c` is drawn, where `white_space` says whether `c`
/// is white space: the one that the font holds for it, or the blank glyph
/// for white space. Characters without a glyph are not drawn.
pub open spec fn glyph_choice(
    glyphs: Seq<Seq<Seq<Seq<char>>>>,
    c: char,
    white_space: bool,
) -> Option<Seq<Seq<Seq<char>>>> {
    match glyph_index(c) {
        Some(index) => Some(glyphs[index]),
        None => if white_space {
            Some(blank_glyph())
        } else {
            None
        },
    }
}

/// The glyph with which `c` is drawn.
pub open spec fn glyph_of(glyphs: Seq<Seq<Seq<Seq<char>>>>, c: char) -> Option<
    Seq<Seq<Seq<char>>>,
> {
    glyph_choice(glyphs, c, has_white_space_property(c))
}

/// Row `row` of the banner for `text`: that row of each character's glyph,
/// one after the other.
pub open spec fn banner_row(glyphs: Seq<Seq<Seq<Seq<char>>>>, text: Seq<char>, row: int) -> Seq<
    Seq<char>,
>
    decreases text.len(),
{
    if text.len() == 0 {
        Seq::empty()
    } else {
        banner_row(glyphs, text.drop_last(), row) + match glyph_of(glyphs, text.last()) {
            Some(glyph) => glyph[row],
            None => Seq::empty(),
        }
    }
}

/// The banner for `text`: `FONT_HEIGHT` rows.
pub open spec fn banner(glyphs: Seq<Seq<Seq<Seq<char>>>>, text: Seq<char>) -> Seq<
    Seq<Seq<char>>,
> {
    Seq::new(FONT_HEIGHT as nat, |row: int| banner_row(glyphs, text, row))
}

impl ExtractedPunctuation {
    /// The glyphs of the punctuation marks, in the order of the font.
    pub closed spec fn view(&self) -> Seq<Seq<Seq<Seq<char>>>> {
        seq![
            self.exclamation.deep_view(),
            self.hashtag.deep_view(),
            self.question.deep_view(),
            self.open_bracket.deep_view(),
            self.close_bracket.deep_view(),
            self.comma.deep_view(),
            self.period.deep_view(),
            self.open_parenthesis.deep_view(),
            self.close_parenthesis.deep_view(),
            self.minus.deep_view(),
            self.underline.deep_view(),
            self.slash.deep_view(),
        ]
    }
}

impl ExtractedGraphemes {
    /// All glyphs, in the order of the font.
    pub closed spec fn view(&self) -> Seq<Seq<Seq<Seq<char>>>> {
        self.characters.deep_view() + self.numbers.deep_view() + self.punctuation@
    }

    /// There are 26 letters and 10 digits, and every glyph has `FONT_HEIGHT`
    /// rows.
    pub closed spec fn wf(&self) -> bool {
        &&& self.characters@.len() == 26
        &&& self.numbers@.len() == 10
        &&& forall|index: int|
            0 <= index < FONT_GLYPHS ==> (#[trigger] self@[index]).len() == FONT_HEIGHT
    }
}

/// A copy of a row of glyph cells.
fn copy_row(row: &Vec<String>) -> (copy: Vec<String>)
    ensures
        copy.deep_view() == row.deep_view(),
{
    let mut copy: Vec<String> = Vec::new();
    let mut i: usize = 0;
    while i < row.len()
        invariant
            i <= row@.len(),
            copy.deep_view() == row.deep_view().take(i as int),
        decreases row@.len() - i,
    {
        let ghost done = copy.deep_view();
        let cell = row[i].clone();
        copy.push(cell);
        assert(copy.deep_view() =~= done.push(row@[i as int]@));
        assert(copy.deep_view() =~= row.deep_view().take(i + 1));
        i += 1;
    }
    assert(row.deep_view().take(row@.len() as int) =~= row.deep_view());
    copy
}

/// A copy of a glyph.
fn copy_glyph(glyph: &Vec<Vec<String>>) -> (copy: Vec<Vec<String>>)
    ensures
        copy.deep_view() == glyph.deep_view(),
{
    let mut copy: Vec<Vec<String>> = Vec::new();
    let mut i: usize = 0;
    while i < glyph.len()
        invariant
            i <= glyph@.len(),
            copy.deep_view() == glyph.deep_view().take(i as int),
        decreases glyph@.len() - i,
    {
        let ghost done = copy.deep_view();
        let row = copy_row(&glyph[i]);
        copy.push(row);
        assert(copy.deep_view() =~= done.push(glyph@[i as int].deep_view()));
        assert(copy.deep_view() =~= glyph.deep_view().take(i + 1));
        i += 1;
    }
    assert(glyph.deep_view().take(glyph@.len() as int) =~= glyph.deep_view());
    copy
}

/// Reads the glyph at place `index` from the lines of a font into `target`.
pub fn extract_punctuation(font_lines: &Vec<String>, index: usize, target: &mut Vec<Vec<String>>)
    requires
        index < FONT_GLYPHS,
    ensures
        final(target).deep_view() == font_glyph(font_lines.deep_view(), index as int),
        glyph_cuts_font(final(target).deep_view(), font_lines.deep_view(), index as int),
{
    let mut rows: Vec<Vec<String>> = Vec::new();
    let mut row: usize = 0;
    while row < FONT_HEIGHT
        invariant
            row <= FONT_HEIGHT,
            index < FONT_GLYPHS,
            rows.deep_view() == font_glyph(font_lines.deep_view(), index as int).take(row as int),
            forall|done: int|
                0 <= done < row && FONT_HEIGHT * index + done < font_lines@.len() ==> cuts(
                    #[trigger] rows.deep_view()[done],
                    font_lines.deep_view()[FONT_HEIGHT * index + done],
                ),
        decreases FONT_HEIGHT - row,
    {
        let ghost done = rows.deep_view();
        let line: usize = FONT_HEIGHT * index + row;
        let cells = if line < font_lines.len() {
            assert(font_lines.deep_view()[line as int] == font_lines@[line as int]@);
            graphemes_of(font_lines[line].as_str())
        } else {
            Vec::new()
        };
        assert(cells.deep_view() =~= font_row(font_lines.deep_view(), line as int));
        rows.push(cells);
        assert(rows.deep_view() =~= done.push(cells.deep_view()));
        assert(rows.deep_view() =~= font_glyph(font_lines.deep_view(), index as int).take(
            row + 1,
        ));
        row += 1;
    }
    assert(font_glyph(font_lines.deep_view(), index as int).take(FONT_HEIGHT as int)
        =~= font_glyph(font_lines.deep_view(), index as int));
    *target = rows;
}

/// Reads `count` glyphs in a row from the lines of a font, from place `first` on.
fn extract_glyph_run(font_lines: &Vec<String>, first: usize, count: usize) -> (glyphs: Vec<
    Vec<Vec<String>>,
>)
    requires
        first + count <= FONT_GLYPHS,
    ensures
        glyphs@.len() == count,
        forall|k: int|
            0 <= k < count ==> (#[trigger] glyphs.deep_view()[k]) == font_glyph(
                font_lines.deep_view(),
                first + k,
            ) && glyph_cuts_font(glyphs.deep_view()[k], font_lines.deep_view(), first + k),
{
    let mut glyphs: Vec<Vec<Vec<String>>> = Vec::new();
    let mut i: usize = 0;
    while i < count
        invariant
            i <= count,
            first + count <= FONT_GLYPHS,
            glyphs@.len() == i,
            forall|k: int|
                0 <= k < i ==> (#[trigger] glyphs.deep_view()[k]) == font_glyph(
                    font_lines.deep_view(),
                    first + k,
                ) && glyph_cuts_font(glyphs.deep_view()[k], font_lines.deep_view(), first + k),
        decreases count - i,
    {
        let ghost done = glyphs.deep_view();
        let mut glyph: Vec<Vec<String>> = Vec::new();
        extract_punctuation(font_lines, first + i, &mut glyph);
        glyphs.push(glyph);
        assert(glyphs.deep_view() =~= done.push(glyph.deep_view()));
        i += 1;
    }
    glyphs
}

/// Reads the glyphs of a font from its text: the text is split at each line
/// feed, and every glyph takes the next `FONT_HEIGHT` lines, each cut into
/// grapheme clusters, so that the cells of a row are not empty and, one
/// after the other, are the line. Lines that a short font lacks count as
/// empty, and lines behind the last glyph are not read.
pub fn extract_font_graphemes(font: &str) -> (graphemes: ExtractedGraphemes)
    ensures
        graphemes.wf(),
        graphemes@ == font_glyphs(split(font@, '\n')),
        forall|index: int|
            0 <= index < FONT_GLYPHS ==> glyph_cuts_font(
                #[trigger] graphemes@[index],
                split(font@, '\n'),
                index,
            ),
{
    let font_lines = split_on(font, '\n');
    let characters = extract_glyph_run(&font_lines, 0, 26);
    let numbers = extract_glyph_run(&font_lines, 26, 10);
    let mut punctuation = ExtractedPunctuation {
        exclamation: Vec::new(),
        hashtag: Vec::new(),
        question: Vec::new(),
        open_bracket: Vec::new(),
        close_bracket: Vec::new(),
        comma: Vec::new(),
        period: Vec::new(),
        open_parenthesis: Vec::new(),
        close_parenthesis: Vec::new(),
        minus: Vec::new(),
        underline: Vec::new(),
        slash: Vec::new(),
    };
    extract_punctuation(&font_lines, 36, &mut punctuation.exclamation);
    extract_punctuation(&font_lines, 37, &mut punctuation.hashtag);
    extract_punctuation(&font_lines, 38, &mut punctuation.question);
    extract_punctuation(&font_lines, 39, &mut punctuation.open_bracket);
    extract_punctuation(&font_lines, 40, &mut punctuation.close_bracket);
    extract_punctuation(&font_lines, 41, &mut punctuation.comma);
    extract_punctuation(&font_lines, 42, &mut punctuation.period);
    extract_punctuation(&font_lines, 43, &mut punctuation.open_parenthesis);
    extract_punctuation(&font_lines, 44, &mut punctuation.close_parenthesis);
    extract_punctuation(&font_lines, 45, &mut punctuation.minus);
    extract_punctuation(&font_lines, 46, &mut punctuation.underline);
    extract_punctuation(&font_lines, 47, &mut punctuation.slash);
    let graphemes = ExtractedGraphemes { characters, numbers, punctuation };
    proof {
        let expected = font_glyphs(split(font@, '\n'));
        assert(graphemes@.len() == FONT_GLYPHS);
        assert forall|index: int| 0 <= index < FONT_GLYPHS implies graphemes@[index]
            == expected[index] && glyph_cuts_font(
            #[trigger] graphemes@[index],
            split(font@, '\n'),
            index,
        ) by {
            if index < 26 {
                assert(graphemes@[index] == characters.deep_view()[index]);
            } else if index < 36 {
                assert(graphemes@[index] == numbers.deep_view()[index - 26]);
            } else {
                assert(graphemes@[index] == punctuation@[index - 36]);
            }
        }
        assert(graphemes@ =~= expected);
    }
    graphemes
}

/// The glyph with which white space is drawn: in every row, four blanks cut
/// into their grapheme clusters.
pub fn generate_whitespace_graphemes() -> (glyph: Vec<Vec<String>>)
    ensures
        glyph.deep_view() == blank_glyph(),
        forall|row: int|
            0 <= row < FONT_HEIGHT ==> cuts(#[trigger] glyph.deep_view()[row], "    "@),
{
    let mut glyph: Vec<Vec<String>> = Vec::new();
    let blanks = graphemes_of("    ");
    let mut row: usize = 0;
    while row < FONT_HEIGHT
        invariant
            row <= FONT_HEIGHT,
            blanks.deep_view() == grapheme_clusters("    "@),
            cuts(blanks.deep_view(), "    "@),
            glyph.deep_view() == blank_glyph().take(row as int),
        decreases FONT_HEIGHT - row,
    {
        let ghost done = glyph.deep_view();
        let cells = copy_row(&blanks);
        glyph.push(cells);
        assert(glyph.deep_view() =~= done.push(cells.deep_view()));
        assert(glyph.deep_view() =~= blank_glyph().take(row + 1));
        row += 1;
    }
    assert(blank_glyph().take(FONT_HEIGHT as int) =~= blank_glyph());
    glyph
}

/// The glyph of the punctuation mark `c`, if the font has one.
pub fn get_punctuation_graphemes(c: char, graphemes: &ExtractedGraphemes) -> (glyph: Option<
    Vec<Vec<String>>,
>)
    requires
        graphemes.wf(),
    ensures
        match punctuation_index(c) {
            Some(index) => glyph is Some && glyph.unwrap().deep_view() == graphemes@[index],
            None => glyph is None,
        },
{
    let punctuation = match c {
        '!' => copy_glyph(&graphemes.punctuation.exclamation),
        '#' => copy_glyph(&graphemes.punctuation.hashtag),
        '?' => copy_glyph(&graphemes.punctuation.question),
        '[' => copy_glyph(&graphemes.punctuation.open_bracket),
        ']' => copy_glyph(&graphemes.punctuation.close_bracket),
        ',' => copy_glyph(&graphemes.punctuation.comma),
        '.' => copy_glyph(&graphemes.punctuation.period),
        '(' => copy_glyph(&graphemes.punctuation.open_parenthesis),
        ')' => copy_glyph(&graphemes.punctuation.close_parenthesis),
        '-' => copy_glyph(&graphemes.punctuation.minus),
        '_' => copy_glyph(&graphemes.punctuation.underline),
        '/' => copy_glyph(&graphemes.punctuation.slash),
        _ => {
            return None;
        },
    };
    proof {
        let index = punctuation_index(c).unwrap();
        assert(graphemes@[index] == graphemes.punctuation@[index - 36]);
    }
    Some(punctuation)
}

/// The glyph with which `c` is drawn, where `white_space` says whether `c`
/// is white space: that of a capital letter, a digit or a punctuation mark
/// of the font, or the blank glyph for white space. Characters without a
/// glyph are not drawn.
pub fn select_glyph(c: char, graphemes: &ExtractedGraphemes, white_space: bool) -> (glyph: Option<
    Vec<Vec<String>>,
>)
    requires
        graphemes.wf(),
    ensures
        match glyph_choice(graphemes@, c, white_space) {
            Some(expected) => glyph is Some && glyph.unwrap().deep_view() == expected,
            None => glyph is None,
        },
        glyph is Some ==> glyph.unwrap()@.len() == FONT_HEIGHT,
{
    let code: u32 = c as u32;
    let glyph = if '0' <= c && c <= '9' {
        let index: usize = (code - 0x30) as usize;
        proof {
            assert(graphemes@[26 + index] == graphemes.numbers.deep_view()[index as int]);
        }
        Some(copy_glyph(&graphemes.numbers[index]))
    } else if 'A' <= c && c <= 'Z' {
        let index: usize = (code - 0x41) as usize;
        proof {
            assert(graphemes@[index as int] == graphemes.characters.deep_view()[index as int]);
        }
        Some(copy_glyph(&graphemes.characters[index]))
    } else {
        match get_punctuation_graphemes(c, graphemes) {
            Some(glyph) => Some(glyph),
            None => if white_space {
                Some(generate_whitespace_graphemes())
            } else {
                None
            },
        }
    };
    proof {
        if glyph is Some {
            assert(glyph.unwrap().deep_view().len() == glyph.unwrap()@.len());
            match glyph_index(c) {
                Some(index) => {
                    assert(graphemes@[index].len() == FONT_HEIGHT);
                },
                None => {
                    assert(blank_glyph().len() == FONT_HEIGHT);
                },
            }
        }
    }
    glyph
}

/// The glyph with which `c` is drawn.
pub fn get_grapheme_lines(c: char, graphemes: &ExtractedGraphemes) -> (glyph: Option<
    Vec<Vec<String>>,
>)
    requires
        graphemes.wf(),
    ensures
        match glyph_of(graphemes@, c) {
            Some(expected) => glyph is Some && glyph.unwrap().deep_view() == expected,
            None => glyph is None,
        },
        glyph is Some ==> glyph.unwrap()@.len() == FONT_HEIGHT,
{
    select_glyph(c, graphemes, is_whitespace(c))
}

/// Appends a copy of the cells of `cells` to `line`.
fn append_row(line: &mut Vec<String>, cells: &Vec<String>)
    ensures
        final(line).deep_view() == old(line).deep_view() + cells.deep_view(),
{
    let mut i: usize = 0;
    while i < cells.len()
        invariant
            i <= cells@.len(),
            line.deep_view() == old(line).deep_view() + cells.deep_view().take(i as int),
        decreases cells@.len() - i,
    {
        let ghost done = line.deep_view();
        let cell = cells[i].clone();
        line.push(cell);
        assert(line.deep_view() =~= done.push(cells@[i as int]@));
        assert(line.deep_view() =~= old(line).deep_view() + cells.deep_view().take(i + 1));
        i += 1;
    }
    assert(cells.deep_view().take(cells@.len() as int) =~= cells.deep_view());
}

/// Writes `text`, as it stands, in the glyphs of a font: row by row, the
/// glyphs of its characters side by side.
pub fn lay_out_banner(text: &str, graphemes: &ExtractedGraphemes) -> (message: ParsedMessage)
    requires
        graphemes.wf(),
    ensures
        message.glyphs() == banner(graphemes@, text@),
        message.wf(),
{
    let line_characters = chars_of(text);
    let mut lines: Vec<Vec<String>> = Vec::new();
    let mut row: usize = 0;
    while row < FONT_HEIGHT
        invariant
            row <= FONT_HEIGHT,
            graphemes.wf(),
            line_characters@ == text@,
            lines.deep_view() == banner(graphemes@, text@).take(row as int),
        decreases FONT_HEIGHT - row,
    {
        let ghost done = lines.deep_view();
        let mut line: Vec<String> = Vec::new();
        let mut j: usize = 0;
        while j < line_characters.len()
            invariant
                j <= line_characters@.len(),
                row < FONT_HEIGHT,
                graphemes.wf(),
                line.deep_view() == banner_row(
                    graphemes@,
                    line_characters@.take(j as int),
                    row as int,
                ),
            decreases line_characters@.len() - j,
        {
            let c = line_characters[j];
            proof {
                assert(line_characters@.take(j + 1).drop_last() =~= line_characters@.take(
                    j as int,
                ));
            }
            if let Some(glyph) = get_grapheme_lines(c, graphemes) {
                assert(glyph.deep_view()[row as int] == glyph@[row as int].deep_view());
                append_row(&mut line, &glyph[row]);
            } else {
                assert(line.deep_view() + Seq::<Seq<char>>::empty() =~= line.deep_view());
            }
            j += 1;
        }
        assert(line_characters@.take(line_characters@.len() as int) =~= line_characters@);
        lines.push(line);
        assert(lines.deep_view() =~= done.push(line.deep_view()));
        assert(lines.deep_view() =~= banner(graphemes@, text@).take(row + 1));
        row += 1;
    }
    assert(banner(graphemes@, text@).take(FONT_HEIGHT as int) =~= banner(graphemes@, text@));
    ParsedMessage::from_lines(lines)
}

/// Writes `text`, put in upper case, in the glyphs of a font.
pub fn create_display_message(
    text: String,
    graphemes: ExtractedGraphemes,
) -> (message: ParsedMessage)
    requires
        graphemes.wf(),
    ensures
        message.glyphs() == banner(graphemes@, uppercase_of(text@)),
        message.wf(),
{
    let upper = to_uppercase(text.as_str());
    lay_out_banner(upper.as_str(), &graphemes)
}

/// Writes `text`, put in upper case, in the glyphs of the font whose text is
/// `font`.
pub fn generate_message(text: String, font: &str) -> (message: ParsedMessage)
    ensures
        message.glyphs() == banner(font_glyphs(split(font@, '\n')), uppercase_of(text@)),
        message.wf(),
{
    let graphemes = extract_font_graphemes(font);
    create_display_message(text, graphemes)
}

} // verus!
