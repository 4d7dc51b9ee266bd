//! Text for a terminal: one line per row of the grid, each token shown as
//! a coloured glyph, and a footer that numbers the columns.
//!
//! Lines are sequences of characters; printing them is left to the caller.

use vstd::prelude::*;
use crate::engine::GameState;
use crate::grid::Cell;

verus! {

// ---------------------------------------------------------------------------
// What the text is
// ---------------------------------------------------------------------------

/// The escape sequence `ESC [ 9 <digit> m`, which selects a bright
/// foreground colour.
pub open spec fn bright_code(digit: char) -> Seq<char> {
    seq!['\u{1b}', '[', '9', digit, 'm']
}

/// The escape sequence `ESC [ 3 9 m`, which selects the default
/// foreground colour.
pub open spec fn reset_code() -> Seq<char> {
    seq!['\u{1b}', '[', '3', '9', 'm']
}

/// How a cell is shown: participants 1 to 4 as a yellow `o`, a red `x`, a
/// blue `a` and a green `n`; a vacant cell, or a token of anyone else, as
/// a blank.
pub open spec fn cell_glyphs(cell: Cell) -> Seq<char> {
    match cell {
        Cell::Owned(1) => bright_code('3').push('o'),
        Cell::Owned(2) => bright_code('1').push('x'),
        Cell::Owned(3) => bright_code('4').push('a'),
        Cell::Owned(4) => bright_code('2').push('n'),
        _ => seq![' '],
    }
}

/// The character of a decimal digit.
pub open spec fn digit_char(d: nat) -> char {
    if d == 0 {
        '0'
    } else if d == 1 {
        '1'
    } else if d == 2 {
        '2'
    } else if d == 3 {
        '3'
    } else if d == 4 {
        '4'
    } else if d == 5 {
        '5'
    } else if d == 6 {
        '6'
    } else if d == 7 {
        '7'
    } else if d == 8 {
        '8'
    } else {
        '9'
    }
}

/// A number in decimal, without leading zeros.
pub open spec fn decimal(n: nat) -> Seq<char>
    decreases n,
{
    if n < 10 {
        seq![digit_char(n)]
    } else {
        decimal(n / 10).push(digit_char(n % 10))
    }
}

/// `count` blanks.
pub open spec fn blanks(count: int) -> Seq<char> {
    Seq::new(
        if count > 0 {
            count as nat
        } else {
            0
        },
        |i: int| ' ',
    )
}

/// `text` moved to the right edge of a field of `width` characters; a text
/// that is wider than the field stays as it is.
pub open spec fn right_aligned(text: Seq<char>, width: int) -> Seq<char> {
    blanks(width - text.len()) + text
}

/// `text` in the middle of a field of `width` characters; where the blanks
/// cannot be shared evenly, the extra one follows the text. A text that is
/// wider than the field stays as it is.
pub open spec fn centered(text: Seq<char>, width: int) -> Seq<char> {
    if text.len() >= width {
        text
    } else {
        blanks((width - text.len()) / 2) + text + blanks((width - text.len() + 1) / 2)
    }
}

/// The cell in column `x`, row `y`; a vacant cell where the grid has none.
pub open spec fn cell_or_vacant(g: Seq<Seq<Cell>>, x: int, y: int) -> Cell {
    if 0 <= x < g.len() && 0 <= y < g[x].len() {
        g[x][y]
    } else {
        Cell::Vacant
    }
}

/// One cell within a row: a blank, the glyph, the colour reset, a blank
/// and a bar.
pub open spec fn cell_block(cell: Cell) -> Seq<char> {
    seq![' '] + cell_glyphs(cell) + reset_code() + seq![' ', '|']
}

/// The blocks of the first `n` cells of row `y`.
pub open spec fn row_cells(g: Seq<Seq<Cell>>, y: int, n: int) -> Seq<char>
    decreases n,
{
    if n <= 0 {
        Seq::empty()
    } else {
        row_cells(g, y, n - 1) + cell_block(cell_or_vacant(g, n - 1, y))
    }
}

/// The line for row `y`: the row number in a field of two, a bar, and the
/// blocks of the cells from left to right.
pub open spec fn row_text(g: Seq<Seq<Cell>>, y: int) -> Seq<char> {
    right_aligned(decimal(y as nat), 2).push('|') + row_cells(g, y, g.len() as int)
}

/// The labels of the first `n` columns: for each a bar and the column
/// number in the middle of a field of three.
pub open spec fn column_labels(n: int) -> Seq<char>
    decreases n,
{
    if n <= 0 {
        Seq::empty()
    } else {
        column_labels(n - 1) + seq!['|'] + centered(decimal((n - 1) as nat), 3)
    }
}

/// The footer: two blanks, the column labels, and a closing bar.
pub open spec fn footer_text(width: int) -> Seq<char> {
    (seq![' ', ' '] + column_labels(width)).push('|')
}

// ---------------------------------------------------------------------------
// The colour codes
// ---------------------------------------------------------------------------

/// `inline_colorization::color_bright_yellow`, as characters. The constant
/// is the escape sequence `ESC [ 9 3 m`.
#[verifier::external_body]
fn bright_yellow() -> (code: Vec<char>)
    ensures
        code@ == bright_code('3'),
{
    inline_colorization::color_bright_yellow.chars().collect()
}

/// `inline_colorization::color_bright_red`, as characters. The constant is
/// the escape sequence `ESC [ 9 1 m`.
#[verifier::external_body]
fn bright_red() -> (code: Vec<char>)
    ensures
        code@ == bright_code('1'),
{
    inline_colorization::color_bright_red.chars().collect()
}

/// `inline_colorization::color_bright_blue`, as characters. The constant is
/// the escape sequence `ESC [ 9 4 m`.
#[verifier::external_body]
fn bright_blue() -> (code: Vec<char>)
    ensures
        code@ == bright_code('4'),
{
    inline_colorization::color_bright_blue.chars().collect()
}

/// `inline_colorization::color_bright_green`, as characters. The constant
/// is the escape sequence `ESC [ 9 2 m`.
#[verifier::external_body]
fn bright_green() -> (code: Vec<char>)
    ensures
        code@ == bright_code('2'),
{
    inline_colorization::color_bright_green.chars().collect()
}

/// `inline_colorization::color_reset`, as characters. The constant is the
/// escape sequence `ESC [ 3 9 m`.
#[verifier::external_body]
fn colour_reset() -> (code: Vec<char>)
    ensures
        code@ == reset_code(),
{
    inline_colorization::color_reset.chars().collect()
}

// ---------------------------------------------------------------------------
// Building the text
// ---------------------------------------------------------------------------

/// Appends the characters of `piece` to `out`.
fn push_all(out: &mut Vec<char>, piece: &Vec<char>)
    ensures
        final(out)@ == old(out)@ + piece@,
{
    let mut i: usize = 0;
    while i < piece.len()
        invariant
            i <= piece@.len(),
            out@ == old(out)@ + piece@.subrange(0, i as int),
        decreases piece@.len() - i,
    {
        out.push(piece[i]);
        i += 1;
        assert(out@ =~= old(out)@ + piece@.subrange(0, i as int));
    }
    assert(piece@.subrange(0, i as int) =~= piece@);
}

/// Appends `count` blanks to `out`.
fn push_blanks(out: &mut Vec<char>, count: usize)
    ensures
        final(out)@ == old(out)@ + blanks(count as int),
{
    let mut i: usize = 0;
    while i < count
        invariant
            i <= count,
            out@ == old(out)@ + blanks(i as int),
        decreases count - i,
    {
        out.push(' ');
        i += 1;
        assert(out@ =~= old(out)@ + blanks(i as int));
    }
}

/// The character of the decimal digit `d`.
fn digit(d: usize) -> (c: char)
    requires
        d < 10,
    ensures
        c == digit_char(d as nat),
{
    match d {
        0 => '0',
        1 => '1',
        2 => '2',
        3 => '3',
        4 => '4',
        5 => '5',
        6 => '6',
        7 => '7',
        8 => '8',
        _ => '9',
    }
}

/// Appends `n` in decimal to `out`.
fn push_decimal(out: &mut Vec<char>, n: usize)
    ensures
        final(out)@ == old(out)@ + decimal(n as nat),
    decreases n,
{
    if n >= 10 {
        push_decimal(out, n / 10);
    }
    out.push(digit(n % 10));
    assert(out@ =~= old(out)@ + decimal(n as nat));
}

/// `n` in decimal, without leading zeros.
pub fn decimal_digits(n: usize) -> (text: Vec<char>)
    ensures
        text@ == decimal(n as nat),
{
    let mut text: Vec<char> = Vec::new();
    push_decimal(&mut text, n);
    assert(text@ =~= decimal(n as nat));
    text
}

/// `n` in decimal at the right edge of a field of `width` characters.
pub fn number_right_aligned(n: usize, width: usize) -> (text: Vec<char>)
    ensures
        text@ == right_aligned(decimal(n as nat), width as int),
{
    let digits = decimal_digits(n);
    let mut text: Vec<char> = Vec::new();
    if digits.len() < width {
        push_blanks(&mut text, width - digits.len());
    }
    push_all(&mut text, &digits);
    assert(text@ =~= right_aligned(decimal(n as nat), width as int));
    text
}

/// `n` in decimal in the middle of a field of `width` characters.
pub fn number_centered(n: usize, width: usize) -> (text: Vec<char>)
    ensures
        text@ == centered(decimal(n as nat), width as int),
{
    let digits = decimal_digits(n);
    if digits.len() >= width {
        return digits;
    }
    let room: usize = width - digits.len();
    let mut text: Vec<char> = Vec::new();
    push_blanks(&mut text, room / 2);
    push_all(&mut text, &digits);
    push_blanks(&mut text, room - room / 2);
    assert(text@ =~= centered(decimal(n as nat), width as int));
    text
}

/// The coloured glyph of one cell.
pub fn cell_text(cell: Cell) -> (text: Vec<char>)
    ensures
        text@ == cell_glyphs(cell),
{
    match cell {
        Cell::Owned(1) => {
            let mut text = bright_yellow();
            text.push('o');
            text
        },
        Cell::Owned(2) => {
            let mut text = bright_red();
            text.push('x');
            text
        },
        Cell::Owned(3) => {
            let mut text = bright_blue();
            text.push('a');
            text
        },
        Cell::Owned(4) => {
            let mut text = bright_green();
            text.push('n');
            text
        },
        _ => {
            let mut text: Vec<char> = Vec::new();
            text.push(' ');
            assert(text@ =~= seq![' ']);
            text
        },
    }
}

/// The line for row `y` of the grid in `state`.
pub fn row_line(state: &GameState, y: usize) -> (line: Vec<char>)
    ensures
        line@ == row_text(state@.cells, y as int),
{
    let mut line = number_right_aligned(y, 2);
    line.push('|');
    let ghost head = line@;
    let ghost g = state@.cells;
    let mut x: usize = 0;
    while x < state.cells.len()
        invariant
            x <= state.cells@.len(),
            g == state@.cells,
            line@ == head + row_cells(g, y as int, x as int),
        decreases state.cells@.len() - x,
    {
        let cell = if y < state.cells[x].len() {
            state.cells[x][y]
        } else {
            Cell::Vacant
        };
        assert(cell == cell_or_vacant(g, x as int, y as int));
        let ghost before = line@;
        line.push(' ');
        let glyphs = cell_text(cell);
        push_all(&mut line, &glyphs);
        let reset = colour_reset();
        push_all(&mut line, &reset);
        line.push(' ');
        line.push('|');
        x += 1;
        assert(line@ =~= before + cell_block(cell));
        assert(line@ =~= head + row_cells(g, y as int, x as int));
    }
    line
}

/// The footer for a grid of `width` columns.
pub fn footer_line(width: usize) -> (line: Vec<char>)
    ensures
        line@ == footer_text(width as int),
{
    let mut line: Vec<char> = Vec::new();
    line.push(' ');
    line.push(' ');
    let ghost head = line@;
    assert(head =~= seq![' ', ' ']);
    let mut x: usize = 0;
    while x < width
        invariant
            x <= width,
            line@ == head + column_labels(x as int),
        decreases width - x,
    {
        let ghost before = line@;
        line.push('|');
        let label = number_centered(x, 3);
        push_all(&mut line, &label);
        x += 1;
        assert(line@ =~= before + seq!['|'] + centered(decimal((x - 1) as nat), 3));
        assert(line@ =~= head + column_labels(x as int));
    }
    line.push('|');
    line
}

/// The picture of the grid in `state`: one line for each of the rows
/// `0..height`, top row first, then the footer.
pub fn render(state: &GameState, height: usize) -> (lines: Vec<Vec<char>>)
    ensures
        lines@.len() == height + 1,
        forall|y: int| 0 <= y < height ==> (#[trigger] lines@[y])@ == row_text(state@.cells, y),
        lines@[height as int]@ == footer_text(state@.cells.len() as int),
{
    let mut lines: Vec<Vec<char>> = Vec::new();
    let mut y: usize = 0;
    while y < height
        invariant
            y <= height,
            lines@.len() == y,
            forall|i: int| 0 <= i < y ==> (#[trigger] lines@[i])@ == row_text(state@.cells, i),
        decreases height - y,
    {
        let line = row_line(state, y);
        lines.push(line);
        y += 1;
    }
    let footer = footer_line(state.cells.len());
    lines.push(footer);
    lines
}

} // verus!
