use vstd::prelude::*;
use tui::buffer::Buffer;
use tui::style::{Color, Modifier, Style};
use crate::board::{Rect, Tile, tile_fits};
use crate::file_tree::FileType;
use crate::symbols::{BoxSymbol, find_next_symbol, next_symbol_spec, symbol_char, symbol_text};
use crate::tile_text::{
    byte_len, first_line, line_start, second_line, second_line_fits, text_rows, tile_first_line, tile_paints,
    tile_second_line, tile_style, tile_text_rows,
};

verus! {

#[verifier::external_type_specification]
#[verifier::external_body]
pub struct ExBuffer(tui::buffer::Buffer);

#[verifier::external_type_specification]
#[verifier::external_body]
pub struct ExStyle(tui::style::Style);

/// What each cell of a `tui` buffer holds, by column and row: the text it
/// shows, and how it is drawn (`Some` of a paint where the cell's style has
/// its colours and, as modifier, bold or nothing; `None` where it has
/// another style).
pub uninterp spec fn buffer_cells(b: Buffer) -> Map<(int, int), (Seq<char>, Option<Paint>)>;

/// The shape of a `tui` buffer: the area it covers, as column, row, width
/// and height, and how many cells it holds (the length of its `content`).
pub uninterp spec fn buffer_shape(b: Buffer) -> ((u16, u16, u16, u16), nat);

/// The text each cell of a buffer shows, by column and row.
pub open spec fn buffer_symbols(b: Buffer) -> Map<(int, int), Seq<char>> {
    Map::new(|c: (int, int)| true, |c: (int, int)| buffer_cells(b)[c].0)
}

/// How each cell of a buffer is drawn, by column and row.
pub open spec fn buffer_paints(b: Buffer) -> Map<(int, int), Option<Paint>> {
    Map::new(|c: (int, int)| true, |c: (int, int)| buffer_cells(b)[c].1)
}

/// The area a buffer covers, as column, row, width and height.
pub open spec fn buffer_area(b: Buffer) -> (u16, u16, u16, u16) {
    buffer_shape(b).0
}

/// How many cells a buffer holds.
pub open spec fn buffer_cell_count(b: Buffer) -> nat {
    buffer_shape(b).1
}

/// The cell at column `x` and row `y` lies in the area given as column,
/// row, width and height.
pub open spec fn in_area(a: (u16, u16, u16, u16), x: int, y: int) -> bool {
    a.0 <= x < a.0 + a.2 && a.1 <= y < a.1 + a.3
}

/// `tui` can find every cell of the buffer's area: the area's edges and
/// its cell count stay in the range of `u16`, which `tui` computes them in,
/// and the buffer holds a cell for each.
pub open spec fn buffer_sound(b: Buffer) -> bool {
    let a = buffer_area(b);
    &&& a.0 + a.2 <= u16::MAX
    &&& a.1 + a.3 <= u16::MAX
    &&& a.2 * a.3 <= u16::MAX + 1
    &&& a.2 * a.3 <= buffer_cell_count(b)
}

/// The cell at column `x` and row `y` lies in the area of a sound buffer.
pub open spec fn in_buffer(b: Buffer, x: int, y: int) -> bool {
    in_area(buffer_area(b), x, y) && buffer_sound(b)
}

/// The buffer covers the same area with as many cells as before.
pub open spec fn same_grid(after: Buffer, before: Buffer) -> bool {
    buffer_area(after) == buffer_area(before) && buffer_cell_count(after) == buffer_cell_count(before)
}

/// The rectangle reaching `width` columns right and `height` rows down from
/// (`x`, `y`), both edges included, lies in the buffer's area.
pub open spec fn frame_in_buffer(b: Buffer, x: int, y: int, width: int, height: int) -> bool {
    in_buffer(b, x, y) && in_buffer(b, x + width, y + height)
}

/// A colour of the terminal's palette.
#[derive(Clone, Copy, Debug, PartialEq, Eq, Structural)]
pub enum Hue {
    Reset,
    Black,
    Red,
    Green,
    Yellow,
    Blue,
    White,
    DarkGray,
}

/// How a cell is drawn: its colours and whether its text is bold.
#[derive(Clone, Copy, Debug, PartialEq, Eq, Structural)]
pub struct Paint {
    pub fg: Hue,
    pub bg: Hue,
    pub bold: bool,
}

/// The terminal's own colours, nothing bold.
pub open spec fn plain() -> Paint {
    Paint { fg: Hue::Reset, bg: Hue::Reset, bold: false }
}

/// The `tui` area of a buffer: its public `area` field.
#[verifier::external_body]
pub(crate) fn buffer_rect(buf: &Buffer) -> (r: Rect)
    ensures
        (r.x, r.y, r.width, r.height) == buffer_shape(*buf).0,
{
    Rect { x: buf.area.x, y: buf.area.y, width: buf.area.width, height: buf.area.height }
}

/// The number of cells of a `tui` buffer: the length of its public
/// `content` field.
#[verifier::external_body]
fn buffer_len(buf: &Buffer) -> (r: usize)
    ensures
        r == buffer_shape(*buf).1,
{
    buf.content.len()
}

/// Whether `tui` can find every cell of the buffer's area.
pub fn buffer_is_sound(buf: &Buffer) -> (r: bool)
    ensures
        r == buffer_sound(*buf),
{
    let a = buffer_rect(buf);
    let cells = buffer_len(buf);
    let right = a.x as u32 + a.width as u32;
    let bottom = a.y as u32 + a.height as u32;
    let w = a.width as u64;
    let h = a.height as u64;
    assert(w * h <= 65535 * 65535) by (nonlinear_arith)
        requires
            w <= 65535,
            h <= 65535,
    ;
    let count = w * h;
    right <= 65535 && bottom <= 65535 && count <= 65536 && count <= cells as u64
}

/// `Buffer::get` of `tui`, reading the cell's `symbol`: the text the cell
/// shows. Outside the area `tui` asserts in debug builds.
#[verifier::external_body]
fn cell_text(buf: &Buffer, x: u16, y: u16) -> (r: String)
    requires
        in_buffer(*buf, x as int, y as int),
    ensures
        r@ == buffer_cells(*buf)[(x as int, y as int)].0,
{
    buf.get(x, y).symbol.clone()
}

/// `Cell::set_symbol` of `tui` on `Buffer::get_mut`: the cell shows
/// `symbol` and nothing else changes.
#[verifier::external_body]
fn set_cell_symbol(buf: &mut Buffer, x: u16, y: u16, symbol: &str)
    requires
        in_buffer(*old(buf), x as int, y as int),
    ensures
        buffer_shape(*final(buf)) == buffer_shape(*old(buf)),
        buffer_cells(*final(buf)) == buffer_cells(*old(buf)).insert(
            (x as int, y as int),
            (symbol@, buffer_cells(*old(buf))[(x as int, y as int)].1),
        ),
{
    buf.get_mut(x, y).set_symbol(symbol);
}

/// `Cell::set_style` of `tui` on `Buffer::get_mut`, with `style`, the
/// style of `paint`: the cell is drawn with it, no text changes.
#[verifier::external_body]
fn set_cell_style(buf: &mut Buffer, x: u16, y: u16, style: Style, paint: Paint)
    requires
        in_buffer(*old(buf), x as int, y as int),
        style == styled(paint.fg, paint.bg, paint.bold),
    ensures
        buffer_shape(*final(buf)) == buffer_shape(*old(buf)),
        buffer_cells(*final(buf)) == buffer_cells(*old(buf)).insert(
            (x as int, y as int),
            (buffer_cells(*old(buf))[(x as int, y as int)].0, Some(paint)),
        ),
{
    buf.get_mut(x, y).set_style(style);
}

/// `Cell::set_modifier` of `tui` with `Modifier::BOLD`: the cell's text is
/// drawn bold in its colours, no text changes.
#[verifier::external_body]
fn set_cell_bold(buf: &mut Buffer, x: u16, y: u16)
    requires
        in_buffer(*old(buf), x as int, y as int),
    ensures
        buffer_shape(*final(buf)) == buffer_shape(*old(buf)),
        forall|c: (int, int)| c != (x as int, y as int) ==> #[trigger] buffer_cells(*final(buf))[c]
            == buffer_cells(*old(buf))[c],
        buffer_cells(*final(buf))[(x as int, y as int)].0 == buffer_cells(*old(buf))[(x as int, y as int)].0,
        buffer_cells(*old(buf))[(x as int, y as int)].1 matches Some(p) ==> buffer_cells(*final(buf))[(x as int, y as int)].1
            == Some(Paint { fg: p.fg, bg: p.bg, bold: true }),
{
    buf.get_mut(x, y).set_modifier(Modifier::BOLD);
}

/// What `Buffer::set_string` of `tui` writes for `text` into consecutive
/// cells of a row, with `room` cells left before the area's right edge:
/// one cell per grapheme of width one, a wide grapheme followed by blank
/// cells, as long as each whole grapheme fits. Each cell comes with
/// whether it holds a grapheme (drawn in the text's style) rather than a
/// blank after a wide one (reset to the default style).
pub uninterp spec fn string_cells(text: Seq<char>, room: int) -> Seq<(Seq<char>, bool)>;

/// What `text` written at column `x` of the buffer puts in cells.
pub open spec fn line_cells(text: Seq<char>, b: Buffer, x: int) -> Seq<(Seq<char>, bool)> {
    string_cells(text, buffer_area(b).0 + buffer_area(b).2 - x)
}

/// The cell is one of those `cells` cover when written from column `x` of
/// row `y`.
pub open spec fn writes(cells: Seq<(Seq<char>, bool)>, x: int, y: int, c: (int, int)) -> bool {
    c.1 == y && x <= c.0 < x + cells.len()
}

/// What cell `c` shows once `cells` are written from column `x` of row
/// `y` over `under`, what it showed.
pub open spec fn written_over(cells: Seq<(Seq<char>, bool)>, x: int, y: int, c: (int, int), under: Seq<char>) -> Seq<char> {
    if writes(cells, x, y, c) {
        cells[c.0 - x].0
    } else {
        under
    }
}

/// How cell `c` is drawn once `cells` are written in `paint` from column
/// `x` of row `y` over `under`, how it was drawn.
pub open spec fn painted_over(cells: Seq<(Seq<char>, bool)>, x: int, y: int, c: (int, int), paint: Paint, under: Option<Paint>) -> Option<Paint> {
    if writes(cells, x, y, c) {
        if cells[c.0 - x].1 { Some(paint) } else { Some(plain()) }
    } else {
        under
    }
}

/// `Buffer::set_string` of `tui`, with `style`, the style of `paint`: writes `text`
/// on row `y` from column `x` on, into consecutive cells, as far as the
/// area reaches (`string_cells` names what it writes); no other cell
/// changes.
#[verifier::external_body]
fn set_string(buf: &mut Buffer, x: u16, y: u16, text: &str, style: Style, paint: Paint)
    requires
        in_buffer(*old(buf), x as int, y as int),
        style == styled(paint.fg, paint.bg, paint.bold),
    ensures
        buffer_shape(*final(buf)) == buffer_shape(*old(buf)),
        ({
            let cells = string_cells(text@, buffer_shape(*old(buf)).0.0 + buffer_shape(*old(buf)).0.2 - x);
            forall|c: (int, int)| #[trigger] buffer_cells(*final(buf))[c] == if writes(cells, x as int, y as int, c) {
                (cells[c.0 - x].0, if cells[c.0 - x].1 { Some(paint) } else { Some(plain()) })
            } else {
                buffer_cells(*old(buf))[c]
            }
        }),
{
    buf.set_string(x, y, text, style);
}

/// The text of one cell.
fn cell_symbol(buf: &Buffer, x: u16, y: u16) -> (r: String)
    requires
        in_buffer(*buf, x as int, y as int),
    ensures
        r@ == buffer_symbols(*buf)[(x as int, y as int)],
{
    cell_text(buf, x, y)
}

/// Writes `symbol` in one cell; how it is drawn stays.
fn put_symbol(buf: &mut Buffer, x: u16, y: u16, symbol: &str)
    requires
        in_buffer(*old(buf), x as int, y as int),
    ensures
        same_grid(*final(buf), *old(buf)),
        buffer_symbols(*final(buf)) == buffer_symbols(*old(buf)).insert((x as int, y as int), symbol@),
        buffer_paints(*final(buf)) == buffer_paints(*old(buf)),
{
    set_cell_symbol(buf, x, y, symbol);
    proof {
        assert(buffer_symbols(*buf) =~= buffer_symbols(*old(buf)).insert((x as int, y as int), symbol@));
        assert(buffer_paints(*buf) =~= buffer_paints(*old(buf)));
    }
}

/// Draws one cell in `paint`; its text stays.
fn put_style(buf: &mut Buffer, x: u16, y: u16, paint: Paint)
    requires
        in_buffer(*old(buf), x as int, y as int),
    ensures
        same_grid(*final(buf), *old(buf)),
        buffer_symbols(*final(buf)) == buffer_symbols(*old(buf)),
        buffer_paints(*final(buf)) == buffer_paints(*old(buf)).insert((x as int, y as int), Some(paint)),
{
    set_cell_style(buf, x, y, paint_style(paint), paint);
    proof {
        assert(buffer_symbols(*buf) =~= buffer_symbols(*old(buf)));
        assert(buffer_paints(*buf) =~= buffer_paints(*old(buf)).insert((x as int, y as int), Some(paint)));
    }
}

/// Makes one cell bold in its colours; its text stays.
fn put_bold(buf: &mut Buffer, x: u16, y: u16)
    requires
        in_buffer(*old(buf), x as int, y as int),
    ensures
        same_grid(*final(buf), *old(buf)),
        buffer_symbols(*final(buf)) == buffer_symbols(*old(buf)),
        forall|c: (int, int)| c != (x as int, y as int) ==> #[trigger] buffer_paints(*final(buf))[c]
            == buffer_paints(*old(buf))[c],
        buffer_paints(*old(buf))[(x as int, y as int)] matches Some(p) ==> buffer_paints(*final(buf))[(x as int, y as int)]
            == Some(Paint { fg: p.fg, bg: p.bg, bold: true }),
{
    set_cell_bold(buf, x, y);
    proof {
        assert(buffer_symbols(*buf) =~= buffer_symbols(*old(buf)));
    }
}

/// Writes `text` in `paint` on row `y` from column `x` on, as `tui` does
/// (`line_cells`); no other cell changes.
pub(crate) fn put_string(buf: &mut Buffer, x: u16, y: u16, text: &str, paint: Paint)
    requires
        in_buffer(*old(buf), x as int, y as int),
    ensures
        same_grid(*final(buf), *old(buf)),
        ({
            let cells = line_cells(text@, *old(buf), x as int);
            forall|c: (int, int)| #[trigger] buffer_symbols(*final(buf))[c] == if writes(cells, x as int, y as int, c) {
                cells[c.0 - x].0
            } else {
                buffer_symbols(*old(buf))[c]
            }
        }),
        ({
            let cells = line_cells(text@, *old(buf), x as int);
            forall|c: (int, int)| #[trigger] buffer_paints(*final(buf))[c] == if writes(cells, x as int, y as int, c) {
                if cells[c.0 - x].1 { Some(paint) } else { Some(plain()) }
            } else {
                buffer_paints(*old(buf))[c]
            }
        }),
{
    set_string(buf, x, y, text, paint_style(paint), paint);
}

/// Paints one cell; its text stays.
pub fn put_style_at(buf: &mut Buffer, x: u16, y: u16, paint: Paint)
    requires
        in_buffer(*old(buf), x as int, y as int),
    ensures
        same_grid(*final(buf), *old(buf)),
        buffer_symbols(*final(buf)) == buffer_symbols(*old(buf)),
        buffer_paints(*final(buf)) == buffer_paints(*old(buf)).insert((x as int, y as int), Some(paint)),
{
    put_style(buf, x, y, paint);
}

/// Makes one cell's text bold in its colours; its text stays.
pub fn put_bold_at(buf: &mut Buffer, x: u16, y: u16)
    requires
        in_buffer(*old(buf), x as int, y as int),
    ensures
        same_grid(*final(buf), *old(buf)),
        buffer_symbols(*final(buf)) == buffer_symbols(*old(buf)),
        forall|c: (int, int)| c != (x as int, y as int) ==> #[trigger] buffer_paints(*final(buf))[c]
            == buffer_paints(*old(buf))[c],
        buffer_paints(*old(buf))[(x as int, y as int)] matches Some(p) ==> buffer_paints(*final(buf))[(x as int, y as int)]
            == Some(Paint { fg: p.fg, bg: p.bg, bold: true }),
{
    put_bold(buf, x, y);
}

/// The `tui` style drawn with foreground `fg`, background `bg` and, as
/// modifier, bold or nothing: what `tui_style` returns.
pub uninterp spec fn styled(fg: Hue, bg: Hue, bold: bool) -> Style;

/// `Style::default().fg(..).bg(..).modifier(..)` of `tui`, with the `tui`
/// colour of each hue (variant for variant) and bold or no modifier.
#[verifier::external_body]
fn tui_style(fg: Hue, bg: Hue, bold: bool) -> (r: Style)
    ensures
        r == styled(fg, bg, bold),
{
    let color = |h: Hue| match h {
        Hue::Reset => Color::Reset,
        Hue::Black => Color::Black,
        Hue::Red => Color::Red,
        Hue::Green => Color::Green,
        Hue::Yellow => Color::Yellow,
        Hue::Blue => Color::Blue,
        Hue::White => Color::White,
        Hue::DarkGray => Color::DarkGray,
    };
    Style::default().fg(color(fg)).bg(color(bg)).modifier(Modifier::from_bits_truncate(u16::from(bold)))
}

/// The `tui` style of a paint: its colours and whether it is bold.
fn paint_style(p: Paint) -> (r: Style)
    ensures
        r == styled(p.fg, p.bg, p.bold),
{
    tui_style(p.fg, p.bg, p.bold)
}

/// What a cell shows once `symbol` is drawn over `current`: the merge of
/// two box-drawing symbols, or `symbol` itself.
pub open spec fn drawn_over(current: Seq<char>, symbol: Seq<char>) -> Seq<char> {
    match next_symbol_spec(current, symbol) {
        Some(s) => seq![symbol_char(s)],
        None => symbol,
    }
}

/// Draws `symbol` in a cell, merged with the box-drawing symbol already
/// there.
pub fn draw_next_symbol(buf: &mut Buffer, x: u16, y: u16, symbol: &str)
    requires
        in_buffer(*old(buf), x as int, y as int),
    ensures
        same_grid(*final(buf), *old(buf)),
        buffer_symbols(*final(buf)) == buffer_symbols(*old(buf)).insert(
            (x as int, y as int),
            drawn_over(buffer_symbols(*old(buf))[(x as int, y as int)], symbol@),
        ),
        buffer_paints(*final(buf)) == buffer_paints(*old(buf)),
{
    let current = cell_symbol(buf, x, y);
    match find_next_symbol(current.as_str(), symbol) {
        Some(next) => put_symbol(buf, x, y, next),
        None => put_symbol(buf, x, y, symbol),
    }
}

/// What a cell shows once the box-drawing symbols `marks` are drawn over
/// `current`, one after the other.
pub open spec fn drawn_marks(current: Seq<char>, marks: Seq<BoxSymbol>) -> Seq<char>
    decreases marks.len(),
{
    if marks.len() == 0 {
        current
    } else {
        drawn_marks(drawn_over(current, seq![symbol_char(marks[0])]), marks.drop_first())
    }
}

pub proof fn lemma_drawn_marks_concat(current: Seq<char>, a: Seq<BoxSymbol>, b: Seq<BoxSymbol>)
    ensures
        drawn_marks(current, a + b) == drawn_marks(drawn_marks(current, a), b),
    decreases a.len(),
{
    if a.len() == 0 {
        assert(a + b =~= b);
    } else {
        assert((a + b).drop_first() =~= a.drop_first() + b);
        lemma_drawn_marks_concat(drawn_over(current, seq![symbol_char(a[0])]), a.drop_first(), b);
    }
}

pub proof fn lemma_drawn_marks_one(current: Seq<char>, m: BoxSymbol)
    ensures
        drawn_marks(current, seq![m]) == drawn_over(current, seq![symbol_char(m)]),
{
    reveal_with_fuel(drawn_marks, 2);
    assert(seq![m].drop_first() =~= Seq::<BoxSymbol>::empty());
}

/// The symbols the top and bottom edges of the rectangle from (`x`, `y`),
/// reaching `w` columns right and `h` rows down, put in the cell
/// (`px`, `py`): the top one first.
pub open spec fn edge_marks(x: int, y: int, w: int, h: int, px: int, py: int) -> Seq<BoxSymbol> {
    if x <= px <= x + w {
        let top = if px == x { BoxSymbol::TopLeft } else if px == x + w { BoxSymbol::TopRight } else { BoxSymbol::Horizontal };
        let bottom = if px == x { BoxSymbol::BottomLeft } else if px == x + w { BoxSymbol::BottomRight } else { BoxSymbol::Horizontal };
        (if py == y { seq![top] } else { Seq::empty() }) + (if py == y + h { seq![bottom] } else { Seq::empty() })
    } else {
        Seq::empty()
    }
}

/// The symbols its left and right sides put in the cell: the left one
/// first.
pub open spec fn side_marks(x: int, y: int, w: int, h: int, px: int, py: int) -> Seq<BoxSymbol> {
    if y < py < y + h {
        (if px == x { seq![BoxSymbol::Vertical] } else { Seq::empty() })
            + (if px == x + w { seq![BoxSymbol::Vertical] } else { Seq::empty() })
    } else {
        Seq::empty()
    }
}

/// Draws the outline of the rectangle at `coords` reaching `dimensions`
/// columns right and rows down, both edges included: corners, edges and
/// sides, each merged with what the cell held.
pub fn draw_rect_on_grid(buf: &mut Buffer, coords: (u16, u16), dimensions: (u16, u16))
    requires
        frame_in_buffer(*old(buf), coords.0 as int, coords.1 as int, dimensions.0 as int, dimensions.1 as int),
        coords.0 + dimensions.0 < u16::MAX,
        coords.1 < u16::MAX,
        coords.1 + dimensions.1 <= u16::MAX,
    ensures
        same_grid(*final(buf), *old(buf)),
        forall|c: (int, int)| #[trigger] buffer_symbols(*final(buf))[c] == drawn_marks(
            buffer_symbols(*old(buf))[c],
            edge_marks(coords.0 as int, coords.1 as int, dimensions.0 as int, dimensions.1 as int, c.0, c.1)
                + side_marks(coords.0 as int, coords.1 as int, dimensions.0 as int, dimensions.1 as int, c.0, c.1),
        ),
        buffer_paints(*final(buf)) == buffer_paints(*old(buf)),
{
    let (x0, y0) = coords;
    let (width, height) = dimensions;
    let ghost before = buffer_symbols(*buf);
    let ghost (gx, gy, gw, gh) = (x0 as int, y0 as int, width as int, height as int);
    let mut x: u16 = x0;
    while x < x0 + width + 1
        invariant
            x0 <= x <= x0 + width + 1,
            x0 + width < u16::MAX,
            y0 < u16::MAX,
            y0 + height <= u16::MAX,
            (gx, gy, gw, gh) == (x0 as int, y0 as int, width as int, height as int),
            same_grid(*buf, *old(buf)),
            frame_in_buffer(*buf, gx, gy, gw, gh),
            buffer_paints(*buf) == buffer_paints(*old(buf)),
            before == buffer_symbols(*old(buf)),
            forall|c: (int, int)| #[trigger] buffer_symbols(*buf)[c] == if gx <= c.0 < x {
                drawn_marks(before[c], edge_marks(gx, gy, gw, gh, c.0, c.1))
            } else {
                before[c]
            },
        decreases x0 + width + 1 - x,
    {
        let (top, bottom) = if x == x0 {
            (BoxSymbol::TopLeft, BoxSymbol::BottomLeft)
        } else if x == x0 + width {
            (BoxSymbol::TopRight, BoxSymbol::BottomRight)
        } else {
            (BoxSymbol::Horizontal, BoxSymbol::Horizontal)
        };
        let ghost mid = buffer_symbols(*buf);
        draw_next_symbol(buf, x, y0, symbol_text(top));
        let ghost mid2 = buffer_symbols(*buf);
        draw_next_symbol(buf, x, y0 + height, symbol_text(bottom));
        proof {
            assert forall|c: (int, int)| #[trigger] buffer_symbols(*buf)[c] == if gx <= c.0 < x + 1 {
                drawn_marks(before[c], edge_marks(gx, gy, gw, gh, c.0, c.1))
            } else {
                before[c]
            } by {
                if c.0 == x as int {
                    let tops: Seq<BoxSymbol> = if c.1 == gy { seq![top] } else { Seq::empty() };
                    let bottoms: Seq<BoxSymbol> = if c.1 == gy + gh { seq![bottom] } else { Seq::empty() };
                    assert(edge_marks(gx, gy, gw, gh, c.0, c.1) == tops + bottoms);
                    lemma_drawn_marks_concat(before[c], tops, bottoms);
                    if c.1 == gy {
                        lemma_drawn_marks_one(before[c], top);
                    }
                    if c.1 == gy + gh {
                        lemma_drawn_marks_one(drawn_marks(before[c], tops), bottom);
                    }
                    assert(tops.len() == 0 ==> drawn_marks(before[c], tops) == before[c]);
                    assert(bottoms.len() == 0 ==> drawn_marks(drawn_marks(before[c], tops), bottoms)
                        == drawn_marks(before[c], tops));
                }
            }
        }
        x = x + 1;
    }
    let mut y: u16 = y0 + 1;
    while y < y0 + height
        invariant
            y0 + 1 <= y,
            y0 + height >= 1 ==> y <= y0 + height || y == y0 + 1,
            x0 + width < u16::MAX,
            y0 < u16::MAX,
            y0 + height <= u16::MAX,
            (gx, gy, gw, gh) == (x0 as int, y0 as int, width as int, height as int),
            same_grid(*buf, *old(buf)),
            frame_in_buffer(*buf, gx, gy, gw, gh),
            buffer_paints(*buf) == buffer_paints(*old(buf)),
            before == buffer_symbols(*old(buf)),
            forall|c: (int, int)| #[trigger] buffer_symbols(*buf)[c] == if gy < c.1 < y {
                drawn_marks(
                    before[c],
                    edge_marks(gx, gy, gw, gh, c.0, c.1) + side_marks(gx, gy, gw, gh, c.0, c.1),
                )
            } else {
                drawn_marks(before[c], edge_marks(gx, gy, gw, gh, c.0, c.1))
            },
        decreases y0 + height - y,
    {
        draw_next_symbol(buf, x0, y, symbol_text(BoxSymbol::Vertical));
        draw_next_symbol(buf, x0 + width, y, symbol_text(BoxSymbol::Vertical));
        proof {
            assert forall|c: (int, int)| #[trigger] buffer_symbols(*buf)[c] == if gy < c.1 < y + 1 {
                drawn_marks(
                    before[c],
                    edge_marks(gx, gy, gw, gh, c.0, c.1) + side_marks(gx, gy, gw, gh, c.0, c.1),
                )
            } else {
                drawn_marks(before[c], edge_marks(gx, gy, gw, gh, c.0, c.1))
            } by {
                let e = edge_marks(gx, gy, gw, gh, c.0, c.1);
                let sd = side_marks(gx, gy, gw, gh, c.0, c.1);
                lemma_drawn_marks_concat(before[c], e, sd);
                if c.1 == y as int {
                    let lefts: Seq<BoxSymbol> = if c.0 == gx { seq![BoxSymbol::Vertical] } else { Seq::empty() };
                    let rights: Seq<BoxSymbol> = if c.0 == gx + gw { seq![BoxSymbol::Vertical] } else { Seq::empty() };
                    assert(sd == lefts + rights);
                    let de = drawn_marks(before[c], e);
                    lemma_drawn_marks_concat(de, lefts, rights);
                    if c.0 == gx {
                        lemma_drawn_marks_one(de, BoxSymbol::Vertical);
                    }
                    if c.0 == gx + gw {
                        lemma_drawn_marks_one(drawn_marks(de, lefts), BoxSymbol::Vertical);
                    }
                    assert(lefts.len() == 0 ==> drawn_marks(de, lefts) == de);
                    assert(rights.len() == 0 ==> drawn_marks(drawn_marks(de, lefts), rights) == drawn_marks(de, lefts));
                } else if !(gy < c.1 < y) {
                    assert(sd.len() == 0 || (gy < c.1 < gy + gh));
                }
            }
        }
        y = y + 1;
    }
    proof {
        assert forall|c: (int, int)| #[trigger] buffer_symbols(*buf)[c] == drawn_marks(
            before[c],
            edge_marks(gx, gy, gw, gh, c.0, c.1) + side_marks(gx, gy, gw, gh, c.0, c.1),
        ) by {
            let e = edge_marks(gx, gy, gw, gh, c.0, c.1);
            let sd = side_marks(gx, gy, gw, gh, c.0, c.1);
            if !(gy < c.1 < y) {
                assert(sd =~= Seq::<BoxSymbol>::empty());
                assert(e + sd =~= e);
            }
        }
    }
}

/// The cell lies strictly inside the rectangle from (`x`, `y`) reaching `w`
/// columns right and `h` rows down.
pub open spec fn inside(x: int, y: int, w: int, h: int, c: (int, int)) -> bool {
    x < c.0 < x + w && y < c.1 < y + h
}

/// Fills the inside of the rectangle at (`x`, `y`) reaching `width` columns
/// right and `height` rows down with `symbol`, painted with `paint`.
pub fn fill_inside(buf: &mut Buffer, x: u16, y: u16, width: u16, height: u16, symbol: &str, paint: Paint)
    requires
        frame_in_buffer(*old(buf), x as int, y as int, width as int, height as int),
        x + width <= u16::MAX,
        y + height <= u16::MAX,
    ensures
        same_grid(*final(buf), *old(buf)),
        forall|c: (int, int)| #[trigger] buffer_symbols(*final(buf))[c] == if inside(
            x as int,
            y as int,
            width as int,
            height as int,
            c,
        ) {
            symbol@
        } else {
            buffer_symbols(*old(buf))[c]
        },
        forall|c: (int, int)| #[trigger] buffer_paints(*final(buf))[c] == if inside(
            x as int,
            y as int,
            width as int,
            height as int,
            c,
        ) {
            Some(paint)
        } else {
            buffer_paints(*old(buf))[c]
        },
{
    let ghost before = buffer_symbols(*buf);
    let ghost before_paints = buffer_paints(*buf);
    if width == 0 {
        return;
    }
    let mut i: u16 = x + 1;
    while i < x + width
        invariant
            x + 1 <= i <= x + width,
            x + width <= u16::MAX,
            y + height <= u16::MAX,
            same_grid(*buf, *old(buf)),
            frame_in_buffer(*buf, x as int, y as int, width as int, height as int),
            before == buffer_symbols(*old(buf)),
            forall|c: (int, int)| #[trigger] buffer_symbols(*buf)[c] == if inside(
                x as int,
                y as int,
                width as int,
                height as int,
                c,
            ) && c.0 < i {
                symbol@
            } else {
                before[c]
            },
            before_paints == buffer_paints(*old(buf)),
            forall|c: (int, int)| #[trigger] buffer_paints(*buf)[c] == if inside(
                x as int,
                y as int,
                width as int,
                height as int,
                c,
            ) && c.0 < i {
                Some(paint)
            } else {
                before_paints[c]
            },
        decreases x + width - i,
    {
        if height > 0 {
            let mut j: u16 = y + 1;
            while j < y + height
                invariant
                    x + 1 <= i < x + width,
                    y + 1 <= j <= y + height,
                    x + width <= u16::MAX,
                    y + height <= u16::MAX,
                    same_grid(*buf, *old(buf)),
                    frame_in_buffer(*buf, x as int, y as int, width as int, height as int),
                    before == buffer_symbols(*old(buf)),
                    forall|c: (int, int)| #[trigger] buffer_symbols(*buf)[c] == if inside(
                        x as int,
                        y as int,
                        width as int,
                        height as int,
                        c,
                    ) && (c.0 < i || (c.0 == i && c.1 < j)) {
                        symbol@
                    } else {
                        before[c]
                    },
                    before_paints == buffer_paints(*old(buf)),
                    forall|c: (int, int)| #[trigger] buffer_paints(*buf)[c] == if inside(
                        x as int,
                        y as int,
                        width as int,
                        height as int,
                        c,
                    ) && (c.0 < i || (c.0 == i && c.1 < j)) {
                        Some(paint)
                    } else {
                        before_paints[c]
                    },
                decreases y + height - j,
            {
                put_symbol(buf, i, j, symbol);
                put_style(buf, i, j, paint);
                j = j + 1;
            }
        }
        i = i + 1;
    }
}

/// The text rows of a tile, where its lines are drawn.
pub open spec fn on_text_row(tile: Tile, first_start: int, second_start: int, c: (int, int)) -> bool {
    let rows = text_rows(tile.y, tile.height);
    (c.1 == rows.0 && c.0 >= first_start) || (rows.1 == Some(c.1) && c.0 >= second_start)
}

/// Everything `draw_tile_text_on_grid` needs of a tile: a folder knows its
/// descendants, some second line fits, each line fits the tile's width, and
/// the tile and the starts of its lines lie in the buffer.
pub open spec fn tile_text_drawable(b: Buffer, tile: Tile, size_text: Seq<char>, rounded_text: Seq<char>) -> bool {
    let first_len = first_line(tile.name@, tile.file_type, tile.descendants, tile.width).len() as u16;
    let second_len = second_line(tile.percentage, tile.width, size_text, rounded_text).len() as u16;
    let rows = text_rows(tile.y, tile.height);
    &&& tile.file_type == FileType::Folder ==> tile.descendants is Some
    &&& second_line_fits(tile.width, size_text, rounded_text)
    &&& byte_len(size_text) as u16 + 7 <= u16::MAX
    &&& tile_fits(tile)
    &&& frame_in_buffer(b, tile.x as int, tile.y as int, tile.width as int, tile.height as int)
    &&& first_len <= tile.width
    &&& second_len <= tile.width
    &&& line_start(tile.x, tile.width, first_len) <= u16::MAX
    &&& line_start(tile.x, tile.width, second_len) <= u16::MAX
    &&& rows.0 <= u16::MAX
    &&& in_buffer(b, line_start(tile.x, tile.width, first_len), rows.0)
    &&& rows.1 matches Some(s) ==> s <= u16::MAX && in_buffer(b, line_start(tile.x, tile.width, second_len), s)
}

/// What the cell shows once a tile's text is drawn over `under`: the size
/// line written at its row, over the name line at its row.
pub open spec fn tile_text_over(b: Buffer, tile: Tile, size_text: Seq<char>, rounded_text: Seq<char>, c: (int, int), under: Seq<char>) -> Seq<char> {
    let first = first_line(tile.name@, tile.file_type, tile.descendants, tile.width);
    let second = second_line(tile.percentage, tile.width, size_text, rounded_text);
    let first_start = line_start(tile.x, tile.width, first.len() as u16);
    let second_start = line_start(tile.x, tile.width, second.len() as u16);
    let rows = text_rows(tile.y, tile.height);
    let named = written_over(line_cells(first, b, first_start), first_start, rows.0, c, under);
    match rows.1 {
        Some(row) => written_over(line_cells(second, b, second_start), second_start, row, c, named),
        None => named,
    }
}

/// How the cell is drawn once a tile's text is drawn over `under`: the
/// size line's paint at its row, over the name line's at its row.
pub open spec fn tile_text_paints_over(
    b: Buffer,
    tile: Tile,
    selected: bool,
    size_text: Seq<char>,
    rounded_text: Seq<char>,
    c: (int, int),
    under: Option<Paint>,
) -> Option<Paint> {
    let first = first_line(tile.name@, tile.file_type, tile.descendants, tile.width);
    let second = second_line(tile.percentage, tile.width, size_text, rounded_text);
    let first_start = line_start(tile.x, tile.width, first.len() as u16);
    let second_start = line_start(tile.x, tile.width, second.len() as u16);
    let rows = text_rows(tile.y, tile.height);
    let paints = tile_paints(selected, tile.file_type);
    let named = painted_over(line_cells(first, b, first_start), first_start, rows.0, c, paints.1, under);
    match rows.1 {
        Some(row) => painted_over(line_cells(second, b, second_start), second_start, row, c, paints.2, named),
        None => named,
    }
}

/// Draws a tile's text: a selected tile is filled first, then its name line
/// and its size line go at their rows, centred.
pub fn draw_tile_text_on_grid(buf: &mut Buffer, tile: &Tile, selected: bool, size_text: &str, rounded_text: &str)
    requires
        tile_text_drawable(*old(buf), *tile, size_text@, rounded_text@),
    ensures
        same_grid(*final(buf), *old(buf)),
        forall|c: (int, int)| #[trigger] buffer_symbols(*final(buf))[c] == tile_text_over(
            *old(buf),
            *tile,
            size_text@,
            rounded_text@,
            c,
            if selected && inside(tile.x as int, tile.y as int, tile.width as int, tile.height as int, c) {
                seq!['█']
            } else {
                buffer_symbols(*old(buf))[c]
            },
        ),
        forall|c: (int, int)| #[trigger] buffer_paints(*final(buf))[c] == tile_text_paints_over(
            *old(buf),
            *tile,
            selected,
            size_text@,
            rounded_text@,
            c,
            if selected && inside(tile.x as int, tile.y as int, tile.width as int, tile.height as int, c) {
                tile_paints(selected, tile.file_type).0
            } else {
                buffer_paints(*old(buf))[c]
            },
        ),
{
    let ghost before_paints = buffer_paints(*buf);
    let ghost before = buffer_symbols(*buf);
    let first = tile_first_line(tile, selected);
    let first_len = first.unicode_len() as u16;
    let first_start = ((tile.width - first_len) / 2 + (tile.width - first_len) % 2) + tile.x;
    assert(first_start == line_start(tile.x, tile.width, first_len));
    let second = tile_second_line(tile, size_text, rounded_text);
    let second_len = second.unicode_len() as u16;
    let second_start = ((tile.width - second_len) / 2 + (tile.width - second_len) % 2) + tile.x;
    assert(second_start == line_start(tile.x, tile.width, second_len));
    let (background, first_paint, second_paint) = tile_style(tile, selected);
    match background {
        Some(paint) => {
            proof { reveal_strlit("█"); }
            fill_inside(buf, tile.x, tile.y, tile.width, tile.height, "█", paint);
        },
        None => {},
    }
    let ghost filled = buffer_symbols(*buf);
    let ghost filled_paints = buffer_paints(*buf);
    assert(background is Some <==> selected);
    let (first_row, second_row) = tile_text_rows(tile.y, tile.height);
    put_string(buf, first_start, first_row, first.as_str(), first_paint);
    let ghost named = buffer_symbols(*buf);
    let ghost named_paints = buffer_paints(*buf);
    match second_row {
        Some(row) => put_string(buf, second_start, row, second.as_str(), second_paint),
        None => {},
    }
    proof {
        let cells1 = line_cells(first@, *old(buf), first_start as int);
        let cells2 = line_cells(second@, *old(buf), second_start as int);
        assert forall|c: (int, int)| #[trigger] buffer_paints(*buf)[c] == tile_text_paints_over(
            *old(buf),
            *tile,
            selected,
            size_text@,
            rounded_text@,
            c,
            if selected && inside(tile.x as int, tile.y as int, tile.width as int, tile.height as int, c) {
                tile_paints(selected, tile.file_type).0
            } else {
                before_paints[c]
            },
        ) by {
            assert(named_paints[c] == painted_over(cells1, first_start as int, first_row as int, c, first_paint, filled_paints[c]));
            match second_row {
                Some(row) => {
                    assert(buffer_paints(*buf)[c] == painted_over(cells2, second_start as int, row as int, c, second_paint,
                        named_paints[c]));
                },
                None => {},
            }
        }
        assert forall|c: (int, int)| #[trigger] buffer_symbols(*buf)[c] == tile_text_over(
            *old(buf),
            *tile,
            size_text@,
            rounded_text@,
            c,
            if selected && inside(tile.x as int, tile.y as int, tile.width as int, tile.height as int, c) {
                seq!['█']
            } else {
                before[c]
            },
        ) by {
            assert(named[c] == written_over(cells1, first_start as int, first_row as int, c, filled[c]));
            match second_row {
                Some(row) => {
                    assert(buffer_symbols(*buf)[c] == written_over(cells2, second_start as int, row as int, c, named[c]));
                },
                None => {},
            }
        }
    }
}

/// An outline at (`x`, `y`) reaching `w` columns right and `h` rows down
/// can be drawn: it lies in the buffer and its coordinates stay in range.
pub open spec fn outline_drawable(b: Buffer, x: int, y: int, w: int, h: int) -> bool {
    &&& frame_in_buffer(b, x, y, w, h)
    &&& x + w < u16::MAX
    &&& y < u16::MAX
    &&& y + h <= u16::MAX
}

/// Marks the rectangle of the entries too small to draw: filled with `x`
/// and outlined.
pub fn draw_small_files_rect_on_grid(buf: &mut Buffer, rect: Rect)
    requires
        outline_drawable(*old(buf), rect.x as int, rect.y as int, rect.width as int, rect.height as int),
    ensures
        same_grid(*final(buf), *old(buf)),
        forall|c: (int, int)| #[trigger] buffer_symbols(*final(buf))[c] == drawn_marks(
            if inside(rect.x as int, rect.y as int, rect.width as int, rect.height as int, c) {
                seq!['x']
            } else {
                buffer_symbols(*old(buf))[c]
            },
            edge_marks(rect.x as int, rect.y as int, rect.width as int, rect.height as int, c.0, c.1)
                + side_marks(rect.x as int, rect.y as int, rect.width as int, rect.height as int, c.0, c.1),
        ),
        forall|c: (int, int)| #[trigger] buffer_paints(*final(buf))[c] == if inside(
            rect.x as int,
            rect.y as int,
            rect.width as int,
            rect.height as int,
            c,
        ) {
            Some(small_files_paint())
        } else {
            buffer_paints(*old(buf))[c]
        },
{
    proof { reveal_strlit("x"); }
    fill_inside(buf, rect.x, rect.y, rect.width, rect.height, "x", Paint { fg: Hue::Black, bg: Hue::White, bold: false });
    draw_rect_on_grid(buf, (rect.x, rect.y), (rect.width, rect.height));
}

/// The paint of the small-files rectangle and of an empty folder's fill:
/// black on white.
pub open spec fn small_files_paint() -> Paint {
    Paint { fg: Hue::Black, bg: Hue::White, bold: false }
}

/// How cell `c` of `b`, drawn in `under`, is drawn once an empty folder is
/// drawn in `area`: its fill, then the notice in the terminal's colours.
pub open spec fn empty_folder_paints(b: Buffer, area: Rect, c: (int, int), under: Option<Paint>) -> Option<Paint> {
    painted_over(
        line_cells("Folder is empty"@, b, line_start(area.x, area.width, 15)),
        line_start(area.x, area.width, 15),
        empty_folder_row(area),
        c,
        plain(),
        if inside(area.x as int, area.y as int, area.width as int, area.height as int, c) {
            Some(small_files_paint())
        } else {
            under
        },
    )
}

/// The row of the empty-folder text: just above the middle.
pub open spec fn empty_folder_row(area: Rect) -> int {
    area.height / 2 + area.y - 1
}

/// The empty-folder picture fits: the area is as wide as its text, the
/// text's row is in range, and the area and the text's start lie in the
/// buffer.
pub open spec fn empty_folder_drawable(b: Buffer, area: Rect) -> bool {
    &&& area.width >= 15
    &&& area.height / 2 + area.y >= 1
    &&& outline_drawable(b, area.x as int, area.y as int, area.width as int, area.height as int)
    &&& line_start(area.x, area.width, 15) <= u16::MAX
    &&& in_buffer(b, line_start(area.x, area.width, 15), empty_folder_row(area))
}

/// What cell `c` of buffer `b`, showing `under`, shows once an empty
/// folder is drawn in `area`: the fill, the notice written over it, the
/// outline over both.
pub open spec fn empty_folder_shows(b: Buffer, area: Rect, c: (int, int), under: Seq<char>) -> Seq<char> {
    drawn_marks(
        written_over(
            line_cells("Folder is empty"@, b, line_start(area.x, area.width, 15)),
            line_start(area.x, area.width, 15),
            empty_folder_row(area),
            c,
            if inside(area.x as int, area.y as int, area.width as int, area.height as int, c) {
                seq!['█']
            } else {
                under
            },
        ),
        edge_marks(area.x as int, area.y as int, area.width as int, area.height as int, c.0, c.1)
            + side_marks(area.x as int, area.y as int, area.width as int, area.height as int, c.0, c.1),
    )
}

/// Draws an empty folder: the area filled, `Folder is empty` centred just
/// above its middle, and its outline.
pub fn draw_empty_folder(buf: &mut Buffer, area: Rect)
    requires
        empty_folder_drawable(*old(buf), area),
    ensures
        same_grid(*final(buf), *old(buf)),
        forall|c: (int, int)| #[trigger] buffer_symbols(*final(buf))[c] == empty_folder_shows(*old(buf), area, c, buffer_symbols(*old(buf))[c]),
        forall|c: (int, int)| #[trigger] buffer_paints(*final(buf))[c] == empty_folder_paints(*old(buf), area, c, buffer_paints(*old(buf))[c]),
{
    let ghost before = buffer_symbols(*buf);
    let ghost before_paints = buffer_paints(*buf);
    proof {
        reveal_strlit("█");
        reveal_strlit("Folder is empty");
    }
    fill_inside(buf, area.x, area.y, area.width, area.height, "█", Paint { fg: Hue::Black, bg: Hue::White, bold: false });
    let ghost filled = buffer_symbols(*buf);
    let ghost filled_paints = buffer_paints(*buf);
    let text = "Folder is empty";
    let text_length = text.unicode_len() as u16;
    let start = ((area.width - text_length) / 2 + (area.width - text_length) % 2) + area.x;
    assert(start == line_start(area.x, area.width, 15));
    put_string(buf, start, (area.height / 2) + area.y - 1, text, Paint { fg: Hue::Reset, bg: Hue::Reset, bold: false });
    let ghost written = buffer_symbols(*buf);
    let ghost written_paints = buffer_paints(*buf);
    draw_rect_on_grid(buf, (area.x, area.y), (area.width, area.height));
    proof {
        let cells = line_cells("Folder is empty"@, *old(buf), start as int);
        assert forall|c: (int, int)| #[trigger] buffer_paints(*buf)[c] == empty_folder_paints(*old(buf), area, c, before_paints[c]) by {
            assert(written_paints[c] == painted_over(cells, start as int, empty_folder_row(area), c, plain(), filled_paints[c]));
        }
        assert forall|c: (int, int)| #[trigger] buffer_symbols(*buf)[c] == drawn_marks(
            written_over(
                cells,
                start as int,
                empty_folder_row(area),
                c,
                if inside(area.x as int, area.y as int, area.width as int, area.height as int, c) {
                    seq!['█']
                } else {
                    before[c]
                },
            ),
            edge_marks(area.x as int, area.y as int, area.width as int, area.height as int, c.0, c.1)
                + side_marks(area.x as int, area.y as int, area.width as int, area.height as int, c.0, c.1),
        ) by {
            assert(written[c] == written_over(cells, start as int, empty_folder_row(area), c, filled[c]));
        }
    }
}

/// Everything `draw_rectangle_grid` needs: one pair of size texts per
/// tile, every tile's text and outline fit the buffer, an empty folder
/// fits its area, and the small-files corner lies within the area.
pub open spec fn grid_drawable(
    b: Buffer,
    area: Rect,
    tiles: Seq<Tile>,
    small_files: Option<(u16, u16)>,
    texts: Seq<(String, String)>,
) -> bool {
    &&& buffer_sound(b)
    &&& texts.len() == tiles.len()
    &&& tiles.len() == 0 ==> empty_folder_drawable(b, area)
    &&& forall|i: int| 0 <= i < tiles.len() ==> {
        &&& tile_text_drawable(b, #[trigger] tiles[i], texts[i].0@, texts[i].1@)
        &&& outline_drawable(b, tiles[i].x as int, tiles[i].y as int, tiles[i].width as int, tiles[i].height as int)
    }
    &&& small_files matches Some((x, y)) ==> {
        &&& x <= area.x + area.width <= u16::MAX
        &&& y <= area.y + area.height <= u16::MAX
        &&& outline_drawable(b, x as int, y as int, area.x + area.width - x, area.y + area.height - y)
    }
}

/// The cell lies on the rectangle from (`x`, `y`) reaching `w` columns right
/// and `h` rows down, edges included.
pub open spec fn in_frame(x: int, y: int, w: int, h: int, c: (int, int)) -> bool {
    x <= c.0 <= x + w && y <= c.1 <= y + h
}

/// Drawing the tile may change the cell: it lies on the tile, or on one of
/// its text rows from the start of the line on.
pub open spec fn tile_touches(t: Tile, size_text: Seq<char>, rounded_text: Seq<char>, c: (int, int)) -> bool {
    let first_len = first_line(t.name@, t.file_type, t.descendants, t.width).len() as u16;
    let second_len = second_line(t.percentage, t.width, size_text, rounded_text).len() as u16;
    ||| in_frame(t.x as int, t.y as int, t.width as int, t.height as int, c)
    ||| on_text_row(t, line_start(t.x, t.width, first_len), line_start(t.x, t.width, second_len), c)
}

/// Drawing the small-files rectangle from `corner` to the end of `area` may
/// change the cell.
pub open spec fn small_files_touch(area: Rect, corner: Option<(u16, u16)>, c: (int, int)) -> bool {
    match corner {
        Some((x, y)) => in_frame(x as int, y as int, area.x + area.width - x, area.y + area.height - y, c),
        None => false,
    }
}

/// What cell `c` of `b`, showing `under`, shows once the first `n` tiles
/// are drawn in order: each one's text (the selected one filled first),
/// then its outline.
pub open spec fn tiles_show(
    b: Buffer,
    tiles: Seq<Tile>,
    texts: Seq<(String, String)>,
    selected: Option<usize>,
    n: int,
    c: (int, int),
    under: Seq<char>,
) -> Seq<char>
    decreases n,
{
    if n <= 0 {
        under
    } else {
        let t = tiles[n - 1];
        let drawn = tiles_show(b, tiles, texts, selected, n - 1, c, under);
        let filled = if selected == Some((n - 1) as usize) && inside(
            t.x as int,
            t.y as int,
            t.width as int,
            t.height as int,
            c,
        ) {
            seq!['█']
        } else {
            drawn
        };
        drawn_marks(
            tile_text_over(b, t, texts[n - 1].0@, texts[n - 1].1@, c, filled),
            edge_marks(t.x as int, t.y as int, t.width as int, t.height as int, c.0, c.1)
                + side_marks(t.x as int, t.y as int, t.width as int, t.height as int, c.0, c.1),
        )
    }
}

/// How cell `c` of `b`, drawn in `under`, is drawn once the first `n`
/// tiles are drawn in order: the selected one's fill, then each one's
/// lines.
pub open spec fn tiles_paint(
    b: Buffer,
    tiles: Seq<Tile>,
    texts: Seq<(String, String)>,
    selected: Option<usize>,
    n: int,
    c: (int, int),
    under: Option<Paint>,
) -> Option<Paint>
    decreases n,
{
    if n <= 0 {
        under
    } else {
        let t = tiles[n - 1];
        let is_selected = selected == Some((n - 1) as usize);
        let drawn = tiles_paint(b, tiles, texts, selected, n - 1, c, under);
        let filled = if is_selected && inside(t.x as int, t.y as int, t.width as int, t.height as int, c) {
            tile_paints(true, t.file_type).0
        } else {
            drawn
        };
        tile_text_paints_over(b, t, is_selected, texts[n - 1].0@, texts[n - 1].1@, c, filled)
    }
}

/// How cell `c` of `b`, drawn in `under`, is drawn once the grid is drawn
/// in `area`: the tiles, or the empty folder; then the small-files
/// rectangle's inside.
pub open spec fn grid_paints(
    b: Buffer,
    area: Rect,
    tiles: Seq<Tile>,
    small_files: Option<(u16, u16)>,
    selected: Option<usize>,
    texts: Seq<(String, String)>,
    c: (int, int),
    under: Option<Paint>,
) -> Option<Paint> {
    let drawn = if tiles.len() == 0 {
        empty_folder_paints(b, area, c, under)
    } else {
        tiles_paint(b, tiles, texts, selected, tiles.len() as int, c, under)
    };
    match small_files {
        Some((x, y)) => if inside(x as int, y as int, area.x + area.width - x, area.y + area.height - y, c) {
            Some(small_files_paint())
        } else {
            drawn
        },
        None => drawn,
    }
}

/// What cell `c` of `b`, showing `under`, shows once the grid is drawn in
/// `area`: the tiles, or the empty-folder picture; then the small-files
/// rectangle from its corner to the end of the area, filled with `x` and
/// outlined.
pub open spec fn grid_shows(
    b: Buffer,
    area: Rect,
    tiles: Seq<Tile>,
    small_files: Option<(u16, u16)>,
    selected: Option<usize>,
    texts: Seq<(String, String)>,
    c: (int, int),
    under: Seq<char>,
) -> Seq<char> {
    let drawn = if tiles.len() == 0 {
        empty_folder_shows(b, area, c, under)
    } else {
        tiles_show(b, tiles, texts, selected, tiles.len() as int, c, under)
    };
    match small_files {
        Some((x, y)) => {
            let (w, h) = (area.x + area.width - x, area.y + area.height - y);
            drawn_marks(
                if inside(x as int, y as int, w, h, c) { seq!['x'] } else { drawn },
                edge_marks(x as int, y as int, w, h, c.0, c.1) + side_marks(x as int, y as int, w, h, c.0, c.1),
            )
        },
        None => drawn,
    }
}

/// Draws the tiles of a folder in `area`: each tile's text (the selected
/// one filled) and outline, in order, or the empty-folder picture when
/// there is no tile; then the rectangle of the entries too small to draw.
/// With tiles, no cell that none of them nor the small-files rectangle
/// touches changes.
pub fn draw_rectangle_grid(
    buf: &mut Buffer,
    area: Rect,
    tiles: &Vec<Tile>,
    small_files_coordinates: Option<(u16, u16)>,
    selected_rect_index: Option<usize>,
    texts: &Vec<(String, String)>,
)
    requires
        grid_drawable(*old(buf), area, tiles@, small_files_coordinates, texts@),
    ensures
        same_grid(*final(buf), *old(buf)),
        forall|c: (int, int)| #[trigger] buffer_symbols(*final(buf))[c] == grid_shows(
            *old(buf),
            area,
            tiles@,
            small_files_coordinates,
            selected_rect_index,
            texts@,
            c,
            buffer_symbols(*old(buf))[c],
        ),
        forall|c: (int, int)| #[trigger] buffer_paints(*final(buf))[c] == grid_paints(
            *old(buf),
            area,
            tiles@,
            small_files_coordinates,
            selected_rect_index,
            texts@,
            c,
            buffer_paints(*old(buf))[c],
        ),
        tiles@.len() > 0 ==> forall|c: (int, int)| (forall|i: int| 0 <= i < tiles@.len() ==> !tile_touches(
            #[trigger] tiles@[i],
            texts@[i].0@,
            texts@[i].1@,
            c,
        )) && !small_files_touch(area, small_files_coordinates, c) ==> #[trigger] buffer_symbols(*final(buf))[c]
            == buffer_symbols(*old(buf))[c],
{
    let ghost before = buffer_symbols(*buf);
    let ghost before_paints = buffer_paints(*buf);
    if tiles.len() == 0 {
        draw_empty_folder(buf, area);
    } else {
        let mut index: usize = 0;
        while index < tiles.len()
            invariant
                index <= tiles@.len(),
                same_grid(*buf, *old(buf)),
                grid_drawable(*old(buf), area, tiles@, small_files_coordinates, texts@),
                before == buffer_symbols(*old(buf)),
                forall|c: (int, int)| (forall|i: int| 0 <= i < index ==> !tile_touches(
                    #[trigger] tiles@[i],
                    texts@[i].0@,
                    texts@[i].1@,
                    c,
                )) ==> #[trigger] buffer_symbols(*buf)[c] == before[c],
                forall|c: (int, int)| #[trigger] buffer_symbols(*buf)[c] == tiles_show(
                    *old(buf), tiles@, texts@, selected_rect_index, index as int, c, before[c]),
                before_paints == buffer_paints(*old(buf)),
                forall|c: (int, int)| #[trigger] buffer_paints(*buf)[c] == tiles_paint(
                    *old(buf), tiles@, texts@, selected_rect_index, index as int, c, before_paints[c]),
            decreases tiles@.len() - index,
        {
            let ghost prior = buffer_symbols(*buf);
            let ghost prior_paints = buffer_paints(*buf);
            let ghost prior_buf = *buf;
            let tile = &tiles[index];
            let selected = match selected_rect_index {
                Some(selected_index) => index == selected_index,
                None => false,
            };
            let (size_text, rounded_text) = (&texts[index].0, &texts[index].1);
            draw_tile_text_on_grid(buf, tile, selected, size_text.as_str(), rounded_text.as_str());
            let ghost texted = buffer_symbols(*buf);
            let ghost texted_paints = buffer_paints(*buf);
            draw_rect_on_grid(buf, (tile.x, tile.y), (tile.width, tile.height));
            proof {
                let t = tiles@[index as int];
                assert forall|c: (int, int)| #[trigger] buffer_paints(*buf)[c] == tiles_paint(
                    *old(buf), tiles@, texts@, selected_rect_index, index + 1, c, before_paints[c]) by {
                    let filled = if selected && inside(t.x as int, t.y as int, t.width as int, t.height as int, c) {
                        tile_paints(selected, t.file_type).0
                    } else {
                        prior_paints[c]
                    };
                    assert(texted_paints[c] == tile_text_paints_over(prior_buf, t, selected, texts@[index as int].0@,
                        texts@[index as int].1@, c, filled));
                    assert(prior_paints[c] == tiles_paint(*old(buf), tiles@, texts@, selected_rect_index, index as int, c,
                        before_paints[c]));
                }
                assert forall|c: (int, int)| #[trigger] buffer_symbols(*buf)[c] == tiles_show(
                    *old(buf), tiles@, texts@, selected_rect_index, index + 1, c, before[c]) by {
                    let filled = if selected && inside(t.x as int, t.y as int, t.width as int, t.height as int, c) {
                        seq!['█']
                    } else {
                        prior[c]
                    };
                    assert(texted[c] == tile_text_over(prior_buf, t, texts@[index as int].0@, texts@[index as int].1@, c, filled));
                    assert(prior[c] == tiles_show(*old(buf), tiles@, texts@, selected_rect_index, index as int, c, before[c]));
                }
            }
            proof {
                assert forall|c: (int, int)| (forall|i: int| 0 <= i < index + 1 ==> !tile_touches(
                    #[trigger] tiles@[i],
                    texts@[i].0@,
                    texts@[i].1@,
                    c,
                )) implies #[trigger] buffer_symbols(*buf)[c] == before[c] by {
                    assert(!tile_touches(tiles@[index as int], texts@[index as int].0@, texts@[index as int].1@, c));
                    assert(forall|i: int| 0 <= i < index ==> !tile_touches(
                        #[trigger] tiles@[i],
                        texts@[i].0@,
                        texts@[i].1@,
                        c,
                    ));
                    assert(prior[c] == before[c]);
                    assert(edge_marks(tile.x as int, tile.y as int, tile.width as int, tile.height as int, c.0, c.1)
                        =~= Seq::<BoxSymbol>::empty());
                    assert(side_marks(tile.x as int, tile.y as int, tile.width as int, tile.height as int, c.0, c.1)
                        =~= Seq::<BoxSymbol>::empty());
                    assert(Seq::<BoxSymbol>::empty() + Seq::<BoxSymbol>::empty() =~= Seq::<BoxSymbol>::empty());
                }
            }
            index = index + 1;
        }
    }
    let ghost drawn = buffer_symbols(*buf);
    match small_files_coordinates {
        Some((x, y)) => {
            let small_files_rect = Rect { x, y, width: (area.x + area.width) - x, height: (area.y + area.height) - y };
            draw_small_files_rect_on_grid(buf, small_files_rect);
            proof {
                assert forall|c: (int, int)| !small_files_touch(area, small_files_coordinates, c)
                    implies #[trigger] buffer_symbols(*buf)[c] == drawn[c] by {
                    assert(edge_marks(x as int, y as int, small_files_rect.width as int, small_files_rect.height as int, c.0, c.1)
                        =~= Seq::<BoxSymbol>::empty());
                    assert(side_marks(x as int, y as int, small_files_rect.width as int, small_files_rect.height as int, c.0, c.1)
                        =~= Seq::<BoxSymbol>::empty());
                    assert(Seq::<BoxSymbol>::empty() + Seq::<BoxSymbol>::empty() =~= Seq::<BoxSymbol>::empty());
                }
            }
        },
        None => {},
    }
}

fn within(area: Rect, x: u32, y: u32) -> (r: bool)
    ensures
        r == (area.x <= x < area.x + area.width && area.y <= y < area.y + area.height),
{
    (area.x as u32) <= x && x < (area.x as u32) + (area.width as u32) && (area.y as u32) <= y && y < (area.y as u32)
        + (area.height as u32)
}

fn outline_fits(area: Rect, x: u16, y: u16, width: u16, height: u16) -> (r: bool)
    ensures
        r == ((area.x <= x < area.x + area.width && area.y <= y < area.y + area.height)
            && (area.x <= x + width < area.x + area.width && area.y <= y + height < area.y + area.height)
            && x + width < u16::MAX && y < u16::MAX && y + height <= u16::MAX),
{
    let right = (x as u32) + (width as u32);
    let bottom = (y as u32) + (height as u32);
    within(area, x as u32, y as u32) && within(area, right, bottom) && right < 65535 && y < 65535 && bottom <= 65535
}

/// Whether `draw_tile_text_on_grid` can draw the tile's text.
pub fn tile_text_fits(buf: &Buffer, tile: &Tile, size_text: &str, rounded_text: &str) -> (r: bool)
    ensures
        r == tile_text_drawable(*buf, *tile, size_text@, rounded_text@),
{
    let area = buffer_rect(buf);
    if !buffer_is_sound(buf) {
        return false;
    }
    if tile.file_type == FileType::Folder && tile.descendants.is_none() {
        return false;
    }
    let max_text_length: u16 = if tile.width > 2 { tile.width - 2 } else { 0 };
    let size_len = size_text.len() as u16;
    let rounded_len = rounded_text.len() as u16;
    if !(max_text_length >= 4 || max_text_length > size_len || max_text_length > rounded_len) {
        return false;
    }
    if size_len > u16::MAX - 7 {
        return false;
    }
    if tile.x > u16::MAX - tile.width || tile.y > u16::MAX - tile.height {
        return false;
    }
    if !(within(area, tile.x as u32, tile.y as u32)
        && within(area, tile.x as u32 + tile.width as u32, tile.y as u32 + tile.height as u32)) {
        return false;
    }
    let first_len = tile_first_line(tile, false).unicode_len() as u16;
    let second_len = tile_second_line(tile, size_text, rounded_text).unicode_len() as u16;
    if first_len > tile.width || second_len > tile.width {
        return false;
    }
    let first_start = (tile.width - first_len) as u32 / 2 + (tile.width - first_len) as u32 % 2 + tile.x as u32;
    let second_start = (tile.width - second_len) as u32 / 2 + (tile.width - second_len) as u32 % 2 + tile.x as u32;
    if first_start > 65535 || second_start > 65535 {
        return false;
    }
    let h = tile.height as u32;
    let y = tile.y as u32;
    let (first_row, second_row): (u32, Option<u32>) = if h > 5 {
        let gap: u32 = if h % 2 == 0 { 1 } else { 2 };
        (h / 2 + y - 1, Some(h / 2 + y + gap))
    } else if h == 5 {
        (h / 2 + y, Some(h / 2 + y + 1))
    } else if h == 4 {
        (y + 1, Some(y + 3))
    } else if h > 2 {
        (y + 1, Some(y + 2))
    } else {
        (y + 1, None)
    };
    assert(first_row == text_rows(tile.y, tile.height).0);
    if first_row > 65535 || !within(area, first_start, first_row) {
        return false;
    }
    match second_row {
        Some(row) => {
            assert(text_rows(tile.y, tile.height).1 == Some(row as int));
            row <= 65535 && within(area, second_start, row)
        },
        None => true,
    }
}

/// Whether `draw_rectangle_grid` can draw the grid.
pub fn grid_fits(
    buf: &Buffer,
    area: Rect,
    tiles: &Vec<Tile>,
    small_files_coordinates: Option<(u16, u16)>,
    texts: &Vec<(String, String)>,
) -> (r: bool)
    ensures
        r == grid_drawable(*buf, area, tiles@, small_files_coordinates, texts@),
{
    let bounds = buffer_rect(buf);
    if !buffer_is_sound(buf) {
        return false;
    }
    if texts.len() != tiles.len() {
        return false;
    }
    if tiles.len() == 0 {
        if area.width < 15 || (area.height / 2) as u32 + (area.y as u32) < 1 {
            return false;
        }
        if !outline_fits(bounds, area.x, area.y, area.width, area.height) {
            return false;
        }
        let start = (area.width - 15) as u32 / 2 + (area.width - 15) as u32 % 2 + area.x as u32;
        if start > 65535 || !within(bounds, start, (area.height / 2) as u32 + (area.y as u32) - 1) {
            return false;
        }
    }
    let mut i: usize = 0;
    while i < tiles.len()
        invariant
            i <= tiles@.len(),
            texts@.len() == tiles@.len(),
            (bounds.x, bounds.y, bounds.width, bounds.height) == buffer_area(*buf),
            forall|j: int| 0 <= j < i ==> {
                &&& tile_text_drawable(*buf, #[trigger] tiles@[j], texts@[j].0@, texts@[j].1@)
                &&& outline_drawable(*buf, tiles@[j].x as int, tiles@[j].y as int, tiles@[j].width as int, tiles@[j].height as int)
            },
        decreases tiles@.len() - i,
    {
        let tile = &tiles[i];
        if !tile_text_fits(buf, tile, texts[i].0.as_str(), texts[i].1.as_str()) {
            return false;
        }
        if !outline_fits(bounds, tile.x, tile.y, tile.width, tile.height) {
            return false;
        }
        i = i + 1;
    }
    match small_files_coordinates {
        Some((x, y)) => {
            let right = area.x as u32 + area.width as u32;
            let bottom = area.y as u32 + area.height as u32;
            if !((x as u32) <= right && right <= 65535 && (y as u32) <= bottom && bottom <= 65535) {
                return false;
            }
            outline_fits(bounds, x, y, (right - x as u32) as u16, (bottom - y as u32) as u16)
        },
        None => true,
    }
}

/// The symbol an outline drawn over nothing leaves in a cell of the
/// rectangle's edge: its corners, its top and bottom, its sides.
pub open spec fn outline_symbol(x: int, y: int, w: int, h: int, c: (int, int)) -> Option<BoxSymbol> {
    if x <= c.0 <= x + w && (c.1 == y || c.1 == y + h) {
        let bottom = c.1 == y + h;
        Some(if c.0 == x {
            if bottom { BoxSymbol::BottomLeft } else { BoxSymbol::TopLeft }
        } else if c.0 == x + w {
            if bottom { BoxSymbol::BottomRight } else { BoxSymbol::TopRight }
        } else {
            BoxSymbol::Horizontal
        })
    } else if y < c.1 < y + h && (c.0 == x || c.0 == x + w) {
        Some(BoxSymbol::Vertical)
    } else {
        None
    }
}

/// What a cell shows once a filled box is drawn over `current`: the box's
/// outline on its edges, a blank inside it.
pub open spec fn boxed(current: Seq<char>, r: Rect, c: (int, int)) -> Seq<char> {
    match outline_symbol(r.x as int, r.y as int, r.width as int, r.height as int, c) {
        Some(s) => seq![symbol_char(s)],
        None => if inside(r.x as int, r.y as int, r.width as int, r.height as int, c) {
            seq![' ']
        } else {
            current
        },
    }
}

/// Draws a filled box: its inside blank, its edges outlined (over what was
/// there, unmerged), every cell painted with `paint`.
pub fn draw_filled_rect(buf: &mut Buffer, paint: Paint, rect: &Rect)
    requires
        outline_drawable(*old(buf), rect.x as int, rect.y as int, rect.width as int, rect.height as int),
        rect.width >= 1,
        rect.height >= 1,
    ensures
        same_grid(*final(buf), *old(buf)),
        forall|c: (int, int)| #[trigger] buffer_symbols(*final(buf))[c] == boxed(buffer_symbols(*old(buf))[c], *rect, c),
        forall|c: (int, int)| #[trigger] buffer_paints(*final(buf))[c] == if in_frame(
            rect.x as int,
            rect.y as int,
            rect.width as int,
            rect.height as int,
            c,
        ) {
            Some(paint)
        } else {
            buffer_paints(*old(buf))[c]
        },
{
    proof { reveal_strlit(" "); }
    fill_inside(buf, rect.x, rect.y, rect.width, rect.height, " ", paint);
    let ghost filled_paints = buffer_paints(*buf);
    let ghost gx = rect.x as int;
    let ghost gy = rect.y as int;
    let ghost gw = rect.width as int;
    let ghost gh = rect.height as int;
    let ghost filled = buffer_symbols(*buf);
    let bottom_row = rect.y + rect.height;
    let right = rect.x + rect.width;
    let mut x: u16 = rect.x;
    while x < right + 1
        invariant
            rect.x <= x <= right + 1,
            right == rect.x + rect.width,
            right < u16::MAX,
            bottom_row == rect.y + rect.height,
            gx == rect.x, gy == rect.y, gw == rect.width, gh == rect.height,
            gw >= 1, gh >= 1,
            same_grid(*buf, *old(buf)),
            outline_drawable(*buf, gx, gy, gw, gh),
            forall|c: (int, int)| #[trigger] buffer_symbols(*buf)[c] == if gx <= c.0 < x && (c.1 == gy || c.1 == gy + gh) {
                seq![symbol_char(outline_symbol(gx, gy, gw, gh, c)->0)]
            } else {
                filled[c]
            },
            forall|c: (int, int)| #[trigger] buffer_paints(*buf)[c] == if gx <= c.0 < x && (c.1 == gy || c.1 == gy + gh) {
                Some(paint)
            } else {
                filled_paints[c]
            },
        decreases right + 1 - x,
    {
        let (top, bottom) = if x == rect.x {
            (BoxSymbol::TopLeft, BoxSymbol::BottomLeft)
        } else if x == right {
            (BoxSymbol::TopRight, BoxSymbol::BottomRight)
        } else {
            (BoxSymbol::Horizontal, BoxSymbol::Horizontal)
        };
        put_symbol(buf, x, rect.y, symbol_text(top));
        put_style(buf, x, rect.y, paint);
        put_symbol(buf, x, bottom_row, symbol_text(bottom));
        put_style(buf, x, bottom_row, paint);
        x = x + 1;
    }
    let mut y: u16 = rect.y + 1;
    while y < bottom_row
        invariant
            rect.y + 1 <= y <= bottom_row,
            right == rect.x + rect.width,
            bottom_row == rect.y + rect.height,
            gx == rect.x, gy == rect.y, gw == rect.width, gh == rect.height,
            gw >= 1, gh >= 1,
            same_grid(*buf, *old(buf)),
            outline_drawable(*buf, gx, gy, gw, gh),
            forall|c: (int, int)| #[trigger] buffer_symbols(*buf)[c] == if (gx <= c.0 <= gx + gw && (c.1 == gy || c.1 == gy + gh))
                || (gy < c.1 < y && (c.0 == gx || c.0 == gx + gw)) {
                seq![symbol_char(outline_symbol(gx, gy, gw, gh, c)->0)]
            } else {
                filled[c]
            },
            forall|c: (int, int)| #[trigger] buffer_paints(*buf)[c] == if (gx <= c.0 <= gx + gw && (c.1 == gy || c.1 == gy + gh))
                || (gy < c.1 < y && (c.0 == gx || c.0 == gx + gw)) {
                Some(paint)
            } else {
                filled_paints[c]
            },
        decreases bottom_row - y,
    {
        put_symbol(buf, rect.x, y, symbol_text(BoxSymbol::Vertical));
        put_style(buf, rect.x, y, paint);
        put_symbol(buf, right, y, symbol_text(BoxSymbol::Vertical));
        put_style(buf, right, y, paint);
        y = y + 1;
    }
}

} // verus!
