use vstd::prelude::*;
use tui::buffer::Buffer;
use crate::board::Rect;
use crate::grid::{
    Hue, Paint, buffer_area, buffer_is_sound, buffer_paints, buffer_rect, buffer_sound, buffer_symbols, in_area, in_buffer,
    line_cells, painted_over, same_grid, put_bold_at, put_string, written_over,
};
use crate::files::path_model;
use crate::layout::FolderInfo;
use crate::modals::{joined_path, path_text};
use crate::file_tree::relative_names;
use crate::tile_text::{byte_len, decimal, push_decimal};
use crate::files::relative_path;
use crate::os::is_user_admin;
use crate::truncate::{truncate_middle, truncated_middle};

verus! {

/// One way of writing a part of the title, with its own paint or the
/// title's.
pub struct CellSizeOpt {
    pub content: String,
    pub style: Option<Paint>,
}

impl CellSizeOpt {
    pub fn new(content: String) -> (r: CellSizeOpt)
        ensures
            r.content == content,
            r.style is None,
    {
        CellSizeOpt { content, style: None }
    }

    pub fn style(self, style: Paint) -> (r: CellSizeOpt)
        ensures
            r.content == self.content,
            r.style == Some(style),
    {
        CellSizeOpt { content: self.content, style: Some(style) }
    }
}

/// A title made of parts left and right of a `|`, each part written in
/// several ways from the longest to the shortest: the title collapses,
/// all parts at once, until it fits.
pub struct TitleTelescope {
    pub default_style: Paint,
    pub left_side: Vec<Vec<CellSizeOpt>>,
    pub right_side: Vec<Vec<CellSizeOpt>>,
    pub loading: bool,
    pub loading_indicator: u64,
    pub path_error: bool,
    pub size_flash: bool,
}

/// The `i`-th way of writing a part, or its shortest one.
pub open spec fn pick(ways: Seq<CellSizeOpt>, i: int) -> CellSizeOpt {
    if i < ways.len() { ways[i] } else { ways.last() }
}

/// The way each part of a side is written at collapse level `i`.
pub open spec fn candidates(side: Seq<Vec<CellSizeOpt>>, i: int) -> Seq<CellSizeOpt> {
    Seq::new(side.len(), |k: int| pick(side[k]@, i))
}

/// The bytes the parts take, one after the other.
pub open spec fn contents_len(cells: Seq<CellSizeOpt>) -> int
    decreases cells.len(),
{
    if cells.len() == 0 {
        0
    } else {
        contents_len(cells.drop_last()) + byte_len(cells.last().content@)
    }
}

/// The most ways any part of a side has.
pub open spec fn most_ways(side: Seq<Vec<CellSizeOpt>>) -> int
    decreases side.len(),
{
    if side.len() == 0 {
        0
    } else {
        let rest = most_ways(side.drop_last());
        let here = side.last()@.len() as int;
        if here > rest { here } else { rest }
    }
}

/// Every part has a way of writing, and there is a part on each side.
pub open spec fn well_formed_sides(t: TitleTelescope) -> bool {
    &&& t.left_side@.len() >= 1
    &&& t.right_side@.len() >= 1
    &&& forall|k: int| 0 <= k < t.left_side@.len() ==> (#[trigger] t.left_side@[k])@.len() >= 1
    &&& forall|k: int| 0 <= k < t.right_side@.len() ==> (#[trigger] t.right_side@[k])@.len() >= 1
}

impl TitleTelescope {
    /// The number of collapse levels: the most ways of any part.
    pub open spec fn levels(&self) -> int {
        let l = most_ways(self.left_side@);
        let r = most_ways(self.right_side@);
        if l > r { l } else { r }
    }

    /// The bytes the title takes at collapse level `i`, with the ` | `
    /// between the sides.
    pub open spec fn line_len(&self, i: int) -> int {
        contents_len(candidates(self.left_side@, i)) + contents_len(candidates(self.right_side@, i)) + 3
    }

    /// The first collapse level whose title is narrower (in bytes, cut to
    /// 16 bits) than `width`, if any.
    pub open spec fn fitting_level(&self, width: u16, from: int) -> Option<int>
        decreases self.levels() - from,
    {
        if from >= self.levels() || from < 0 {
            None
        } else if (self.line_len(from) as u16) < width {
            Some(from)
        } else {
            self.fitting_level(width, from + 1)
        }
    }

    pub fn new(default_style: Paint) -> (r: TitleTelescope)
        ensures
            r.default_style == default_style,
            r.left_side@.len() == 0,
            r.right_side@.len() == 0,
            !r.loading,
            r.loading_indicator == 0,
            !r.path_error,
            !r.size_flash,
    {
        TitleTelescope {
            default_style,
            left_side: Vec::new(),
            right_side: Vec::new(),
            loading: false,
            loading_indicator: 0,
            path_error: false,
            size_flash: false,
        }
    }

    pub fn append_to_left_side(&mut self, collapsing_cell: Vec<CellSizeOpt>)
        ensures
            final(self).left_side@ == old(self).left_side@.push(collapsing_cell),
            final(self).right_side == old(self).right_side,
            final(self).default_style == old(self).default_style,
            final(self).loading == old(self).loading,
            final(self).loading_indicator == old(self).loading_indicator,
            final(self).path_error == old(self).path_error,
            final(self).size_flash == old(self).size_flash,
    {
        self.left_side.push(collapsing_cell);
    }

    pub fn append_to_right_side(&mut self, collapsing_cell: Vec<CellSizeOpt>)
        ensures
            final(self).right_side@ == old(self).right_side@.push(collapsing_cell),
            final(self).left_side == old(self).left_side,
            final(self).default_style == old(self).default_style,
            final(self).loading == old(self).loading,
            final(self).loading_indicator == old(self).loading_indicator,
            final(self).path_error == old(self).path_error,
            final(self).size_flash == old(self).size_flash,
    {
        self.right_side.push(collapsing_cell);
    }

    pub fn loading(self, show_loading: bool, loading_indicator: u64) -> (r: TitleTelescope)
        ensures
            r.loading == show_loading,
            r.loading_indicator == loading_indicator,
            r.left_side == self.left_side,
            r.right_side == self.right_side,
            r.default_style == self.default_style,
            r.path_error == self.path_error,
            r.size_flash == self.size_flash,
    {
        TitleTelescope { loading: show_loading, loading_indicator, ..self }
    }

    pub fn path_error(self, should_show_path_error: bool) -> (r: TitleTelescope)
        ensures
            r.path_error == should_show_path_error,
            r.left_side == self.left_side,
            r.right_side == self.right_side,
            r.default_style == self.default_style,
            r.loading == self.loading,
            r.loading_indicator == self.loading_indicator,
            r.size_flash == self.size_flash,
    {
        TitleTelescope { path_error: should_show_path_error, ..self }
    }

    pub fn size_flash(self, should_flash_size: bool) -> (r: TitleTelescope)
        ensures
            r.size_flash == should_flash_size,
            r.left_side == self.left_side,
            r.right_side == self.right_side,
            r.default_style == self.default_style,
            r.loading == self.loading,
            r.loading_indicator == self.loading_indicator,
            r.path_error == self.path_error,
    {
        TitleTelescope { size_flash: should_flash_size, ..self }
    }
}

/// The way a part is written at collapse level `index`: that way, or the
/// part's shortest.
pub fn get_index_or_last(ways: &Vec<CellSizeOpt>, index: usize) -> (r: &CellSizeOpt)
    requires
        ways@.len() >= 1,
    ensures
        *r == pick(ways@, index as int),
{
    if index < ways.len() {
        &ways[index]
    } else {
        &ways[ways.len() - 1]
    }
}

/// Where the parts written from column `start` end: each advances by its
/// bytes cut to 16 bits.
pub open spec fn advance(start: int, cells: Seq<CellSizeOpt>) -> int
    decreases cells.len(),
{
    if cells.len() == 0 {
        start
    } else {
        advance(start, cells.drop_last()) + (byte_len(cells.last().content@) as u16)
    }
}

/// What cell `c` of `b` shows once the parts are written one after the
/// other from `start` on row `y` over `under`, what it showed.
pub open spec fn side_shows(b: Buffer, cells: Seq<CellSizeOpt>, start: int, y: int, c: (int, int), under: Seq<char>) -> Seq<char>
    decreases cells.len(),
{
    if cells.len() == 0 {
        under
    } else {
        let at = advance(start, cells.drop_last());
        written_over(
            line_cells(cells.last().content@, b, at),
            at,
            y,
            c,
            side_shows(b, cells.drop_last(), start, y, c, under),
        )
    }
}

/// What cell `c` of `b` shows once the right parts from the `k`-th on are
/// written cut, from `pos` on row `y`, over `under`.
pub open spec fn cut_shows(
    b: Buffer,
    cells: Seq<CellSizeOpt>,
    k: int,
    n: int,
    pos: int,
    width: u16,
    y: int,
    c: (int, int),
    under: Seq<char>,
) -> Seq<char>
    decreases cells.len() - k,
{
    if k >= cells.len() || k < 0 {
        under
    } else {
        let p = piece(cells[k].content@, k, n, pos, width);
        cut_shows(b, cells, k + 1, n, pos + (p.len() as u16), width, y, c, written_over(line_cells(p, b, pos), pos, y, c, under))
    }
}

/// The paint a part of the title is written in: on the left black on
/// yellow while the space freed flashes, on the right white on red after a
/// failed move up; else its own paint, or the title's.
pub open spec fn part_paint(t: TitleTelescope, left: bool, style: Option<Paint>) -> Paint {
    if left {
        condition_style(t.size_flash, Paint { fg: Hue::Black, bg: Hue::Yellow, bold: false }, style, t.default_style)
    } else {
        condition_style(t.path_error, Paint { fg: Hue::White, bg: Hue::Red, bold: false }, style, t.default_style)
    }
}

/// How cell `c` of `b`, drawn in `under`, is drawn once the parts of a side
/// of `t` are written one after the other from `start` on row `y`.
pub open spec fn side_paints(
    t: TitleTelescope,
    left: bool,
    b: Buffer,
    cells: Seq<CellSizeOpt>,
    start: int,
    y: int,
    c: (int, int),
    under: Option<Paint>,
) -> Option<Paint>
    decreases cells.len(),
{
    if cells.len() == 0 {
        under
    } else {
        let at = advance(start, cells.drop_last());
        painted_over(
            line_cells(cells.last().content@, b, at),
            at,
            y,
            c,
            part_paint(t, left, cells.last().style),
            side_paints(t, left, b, cells.drop_last(), start, y, c, under),
        )
    }
}

/// How cell `c` of `b`, drawn in `under`, is drawn once the right parts of
/// `t` from the `k`-th on are written cut, from `pos` on row `y`.
pub open spec fn cut_paints(
    t: TitleTelescope,
    b: Buffer,
    cells: Seq<CellSizeOpt>,
    k: int,
    n: int,
    pos: int,
    width: u16,
    y: int,
    c: (int, int),
    under: Option<Paint>,
) -> Option<Paint>
    decreases cells.len() - k,
{
    if k >= cells.len() || k < 0 {
        under
    } else {
        let p = piece(cells[k].content@, k, n, pos, width);
        cut_paints(t, b, cells, k + 1, n, pos + (p.len() as u16), width, y, c,
            painted_over(line_cells(p, b, pos), pos, y, c, part_paint(t, false, cells[k].style), under))
    }
}

/// The cells the scanning animation makes bold, on row `y` of a title of
/// `text_length` columns from `x + 1`.
pub open spec fn loading_cell(indicator: u64, x: int, y: int, text_length: int, c: (int, int)) -> bool {
    let index = ((indicator as u16) % (text_length as u16)) as int;
    &&& c.1 == y
    &&& if index >= text_length - 2 {
        c.0 == x + 1 + index || c.0 == x + 1 || c.0 == x + 2
    } else {
        c.0 == x + 1 + index || c.0 == x + 1 + index + 1 || c.0 == x + 1 + index + 2
    }
}

/// The pipe's paint: white on the title's background.
pub open spec fn pipe_paint(t: TitleTelescope) -> Paint {
    Paint { fg: Hue::White, bg: t.default_style.bg, bold: t.default_style.bold }
}

/// A paint made bold.
pub open spec fn emboldened(p: Paint) -> Paint {
    Paint { fg: p.fg, bg: p.bg, bold: true }
}

proof fn lemma_side_paints_same_area(t: TitleTelescope, left: bool, b1: Buffer, b2: Buffer, cells: Seq<CellSizeOpt>, start: int, y: int, c: (int, int), under: Option<Paint>)
    requires
        buffer_area(b1) == buffer_area(b2),
    ensures
        side_paints(t, left, b1, cells, start, y, c, under) == side_paints(t, left, b2, cells, start, y, c, under),
    decreases cells.len(),
{
    if cells.len() > 0 {
        lemma_side_paints_same_area(t, left, b1, b2, cells.drop_last(), start, y, c, under);
    }
}

proof fn lemma_cut_paints_same_area(
    t: TitleTelescope,
    b1: Buffer,
    b2: Buffer,
    cells: Seq<CellSizeOpt>,
    k: int,
    n: int,
    pos: int,
    width: u16,
    y: int,
    c: (int, int),
    under: Option<Paint>,
)
    requires
        buffer_area(b1) == buffer_area(b2),
    ensures
        cut_paints(t, b1, cells, k, n, pos, width, y, c, under) == cut_paints(t, b2, cells, k, n, pos, width, y, c, under),
    decreases cells.len() - k,
{
    if !(k >= cells.len() || k < 0) {
        let p = piece(cells[k].content@, k, n, pos, width);
        let next = painted_over(line_cells(p, b1, pos), pos, y, c, part_paint(t, false, cells[k].style), under);
        assert(next == painted_over(line_cells(p, b2, pos), pos, y, c, part_paint(t, false, cells[k].style), under));
        lemma_cut_paints_same_area(t, b1, b2, cells, k + 1, n, pos + (p.len() as u16), width, y, c, next);
    }
}

proof fn lemma_side_shows_same_area(b1: Buffer, b2: Buffer, cells: Seq<CellSizeOpt>, start: int, y: int, c: (int, int), under: Seq<char>)
    requires
        buffer_area(b1) == buffer_area(b2),
    ensures
        side_shows(b1, cells, start, y, c, under) == side_shows(b2, cells, start, y, c, under),
    decreases cells.len(),
{
    if cells.len() > 0 {
        lemma_side_shows_same_area(b1, b2, cells.drop_last(), start, y, c, under);
    }
}

proof fn lemma_cut_shows_same_area(
    b1: Buffer,
    b2: Buffer,
    cells: Seq<CellSizeOpt>,
    k: int,
    n: int,
    pos: int,
    width: u16,
    y: int,
    c: (int, int),
    under: Seq<char>,
)
    requires
        buffer_area(b1) == buffer_area(b2),
    ensures
        cut_shows(b1, cells, k, n, pos, width, y, c, under) == cut_shows(b2, cells, k, n, pos, width, y, c, under),
    decreases cells.len() - k,
{
    if !(k >= cells.len() || k < 0) {
        let p = piece(cells[k].content@, k, n, pos, width);
        let next = written_over(line_cells(p, b1, pos), pos, y, c, under);
        assert(next == written_over(line_cells(p, b2, pos), pos, y, c, under));
        lemma_cut_shows_same_area(b1, b2, cells, k + 1, n, pos + (p.len() as u16), width, y, c, next);
    }
}

/// The parts can be written from `start` on row `y`: no column overflows
/// and each part starts in the buffer.
pub open spec fn side_fits(b: Buffer, start: int, y: int, cells: Seq<CellSizeOpt>) -> bool {
    buffer_sound(b) && side_fits_area(buffer_area(b), start, y, cells)
}

/// What the `k`-th of `n` right parts is cut to when the title is too
/// wide: the last one to the columns left, the others to an equal share.
pub open spec fn piece(content: Seq<char>, k: int, n: int, pos: int, width: u16) -> Seq<char> {
    if k + 1 == n {
        truncated_middle(content, (width - 1 - pos) as u16)
    } else {
        truncated_middle(content, ((width - 1 - pos) / n) as u16)
    }
}

/// The right parts from the `k`-th on, cut, can be written from `pos`:
/// each start leaves a column before `width`, lies in the buffer, and no
/// column overflows.
pub open spec fn pieces_fit(area: (u16, u16, u16, u16), cells: Seq<CellSizeOpt>, k: int, n: int, pos: int, width: u16, y: int) -> bool
    decreases cells.len() - k,
{
    if k >= cells.len() || k < 0 {
        true
    } else {
        let next = pos + (piece(cells[k].content@, k, n, pos, width).len() as u16);
        &&& pos + 1 <= width
        &&& in_area(area, pos, y)
        &&& next <= u16::MAX
        &&& pieces_fit(area, cells, k + 1, n, next, width, y)
    }
}

/// Where the cut right parts from the `k`-th on end.
pub open spec fn pieces_end(cells: Seq<CellSizeOpt>, k: int, n: int, pos: int, width: u16) -> int
    decreases cells.len() - k,
{
    if k >= cells.len() || k < 0 {
        pos
    } else {
        pieces_end(cells, k + 1, n, pos + (piece(cells[k].content@, k, n, pos, width).len() as u16), width)
    }
}

/// The scanning animation can mark the title's characters: the text is not
/// empty and the cells it makes bold lie in the buffer.
pub open spec fn loading_fits(b: Buffer, indicator: u64, x: int, y: int, text_length: int) -> bool {
    buffer_sound(b) && loading_fits_area(buffer_area(b), indicator, x, y, text_length)
}

/// As `loading_fits`, over an area given as column, row, width and height.
pub open spec fn loading_fits_area(area: (u16, u16, u16, u16), indicator: u64, x: int, y: int, text_length: int) -> bool {
    let index = ((indicator as u16) % (text_length as u16)) as int;
    &&& 2 <= text_length <= u16::MAX
    &&& x + 1 + text_length + 2 <= u16::MAX
    &&& in_area(area, x + 1 + index, y)
    &&& if index >= text_length - 2 {
        in_area(area, x + 1, y) && in_area(area, x + 2, y)
    } else {
        in_area(area, x + 1 + index + 1, y) && in_area(area, x + 1 + index + 2, y)
    }
}

impl TitleTelescope {
    /// The title can be drawn in `rect`: every level's length is counted
    /// without overflow, and the chosen level, or the cut title when none
    /// fits, is written within the buffer.
    pub open spec fn fits(&self, rect: Rect, b: Buffer) -> bool {
        let y = rect.y as int;
        let start = rect.x + 1;
        &&& well_formed_sides(*self)
        &&& forall|i: int| 0 <= i <= self.levels() ==> #[trigger] self.line_len(i) <= usize::MAX
        &&& start <= u16::MAX
        &&& match self.fitting_level(rect.width, 0) {
            Some(i) => {
                let left = candidates(self.left_side@, i);
                let right = candidates(self.right_side@, i);
                let pipe = advance(start, left);
                &&& side_fits(b, start, y, left)
                &&& in_buffer(b, pipe, y)
                &&& pipe + 3 <= u16::MAX
                &&& side_fits(b, pipe + 3, y, right)
                &&& self.loading ==> loading_fits(b, self.loading_indicator, rect.x as int, y, advance(pipe + 3, right) - start)
            },
            None => {
                let i = self.levels();
                let left = candidates(self.left_side@, i);
                let right = candidates(self.right_side@, i);
                let pipe = advance(start, left);
                let n = (right.len() as u16) as int;
                &&& side_fits(b, start, y, left)
                &&& in_buffer(b, pipe, y)
                &&& pipe + 3 <= u16::MAX
                &&& n >= 1
                &&& pieces_fit(buffer_area(b), right, 0, n, pipe + 3, rect.width, y)
                &&& self.loading ==> loading_fits(
                    b,
                    self.loading_indicator,
                    rect.x as int,
                    y,
                    pieces_end(right, 0, n, pipe + 3, rect.width) - start,
                )
            },
        }
    }

    /// The number of collapse levels.
    pub fn highest_collapse_count(&self) -> (r: usize)
        requires
            well_formed_sides(*self),
        ensures
            r == self.levels(),
    {
        let mut l: usize = 0;
        let mut k: usize = 0;
        while k < self.left_side.len()
            invariant
                k <= self.left_side@.len(),
                l == most_ways(self.left_side@.take(k as int)),
            decreases self.left_side@.len() - k,
        {
            assert(self.left_side@.take(k as int + 1).drop_last() =~= self.left_side@.take(k as int));
            if self.left_side[k].len() > l {
                l = self.left_side[k].len();
            }
            k = k + 1;
        }
        assert(self.left_side@.take(self.left_side@.len() as int) =~= self.left_side@);
        let mut r: usize = 0;
        let mut k: usize = 0;
        while k < self.right_side.len()
            invariant
                k <= self.right_side@.len(),
                r == most_ways(self.right_side@.take(k as int)),
            decreases self.right_side@.len() - k,
        {
            assert(self.right_side@.take(k as int + 1).drop_last() =~= self.right_side@.take(k as int));
            if self.right_side[k].len() > r {
                r = self.right_side[k].len();
            }
            k = k + 1;
        }
        assert(self.right_side@.take(self.right_side@.len() as int) =~= self.right_side@);
        if l > r { l } else { r }
    }
}

/// The paint of a part: the flash (or error) paint when it is on, else the
/// part's own, else the title's.
pub open spec fn condition_style(condition: bool, condition_paint: Paint, style: Option<Paint>, default_style: Paint) -> Paint {
    if condition {
        condition_paint
    } else {
        match style {
            Some(p) => p,
            None => default_style,
        }
    }
}

pub proof fn lemma_candidates_take(side: Seq<Vec<CellSizeOpt>>, i: int, k: int)
    requires
        0 <= k < side.len(),
    ensures
        candidates(side, i).take(k + 1).drop_last() == candidates(side, i).take(k),
        candidates(side, i).take(k + 1).last() == pick(side[k]@, i),
{
    assert(candidates(side, i).take(k + 1).drop_last() =~= candidates(side, i).take(k));
}

impl TitleTelescope {
    pub fn condition_style_or_default(&self, condition: bool, condition_paint: Paint, style: Option<Paint>) -> (r: Paint)
        ensures
            r == condition_style(condition, condition_paint, style, self.default_style),
    {
        match (condition, style) {
            (true, _) => condition_paint,
            (_, Some(style)) => style,
            (_, _) => self.default_style,
        }
    }

    /// The paint of a left part: black on yellow while the space freed
    /// flashes.
    pub fn style_of_left_side(&self, style: Option<Paint>) -> (r: Paint)
        ensures
            r == condition_style(self.size_flash, Paint { fg: Hue::Black, bg: Hue::Yellow, bold: false }, style, self.default_style),
    {
        self.condition_style_or_default(self.size_flash, Paint { fg: Hue::Black, bg: Hue::Yellow, bold: false }, style)
    }

    /// The paint of a right part: white on red after a failed move up.
    pub fn style_of_right_side(&self, style: Option<Paint>) -> (r: Paint)
        ensures
            r == condition_style(self.path_error, Paint { fg: Hue::White, bg: Hue::Red, bold: false }, style, self.default_style),
    {
        self.condition_style_or_default(self.path_error, Paint { fg: Hue::White, bg: Hue::Red, bold: false }, style)
    }

    fn side_len(side: &Vec<Vec<CellSizeOpt>>, index: usize) -> (r: usize)
        requires
            forall|k: int| 0 <= k < side@.len() ==> (#[trigger] side@[k])@.len() >= 1,
            contents_len(candidates(side@, index as int)) <= usize::MAX,
        ensures
            r == contents_len(candidates(side@, index as int)),
    {
        let ghost all = candidates(side@, index as int);
        let mut total: usize = 0;
        let mut k: usize = 0;
        proof { lemma_contents_len_prefix(all); }
        while k < side.len()
            invariant
                k <= side@.len(),
                all == candidates(side@, index as int),
                forall|k: int| 0 <= k < side@.len() ==> (#[trigger] side@[k])@.len() >= 1,
                total == contents_len(all.take(k as int)),
                contents_len(all) <= usize::MAX,
                forall|j: int| 0 <= j <= all.len() ==> #[trigger] contents_len(all.take(j)) <= contents_len(all),
            decreases side@.len() - k,
        {
            let cell = get_index_or_last(&side[k], index);
            proof {
                lemma_candidates_take(side@, index as int, k as int);
                assert(contents_len(all.take(k as int + 1)) <= contents_len(all));
            }
            total = total + cell.content.as_str().len();
            k = k + 1;
        }
        assert(all.take(side@.len() as int) =~= all);
        total
    }

    /// The bytes the title takes at collapse level `i`.
    pub fn line_index_len(&self, i: usize) -> (r: usize)
        requires
            well_formed_sides(*self),
            self.line_len(i as int) <= usize::MAX,
        ensures
            r == self.line_len(i as int),
    {
        proof {
            lemma_contents_len_nonneg(candidates(self.left_side@, i as int));
            lemma_contents_len_nonneg(candidates(self.right_side@, i as int));
        }
        TitleTelescope::side_len(&self.left_side, i) + TitleTelescope::side_len(&self.right_side, i) + 3
    }

    /// The first collapse level at which the title fits `width`.
    pub fn choose_level(&self, width: u16) -> (r: Option<usize>)
        requires
            well_formed_sides(*self),
            forall|i: int| 0 <= i <= self.levels() ==> #[trigger] self.line_len(i) <= usize::MAX,
        ensures
            match r {
                Some(i) => self.fitting_level(width, 0) == Some(i as int),
                None => self.fitting_level(width, 0) is None,
            },
    {
        let levels = self.highest_collapse_count();
        let mut i: usize = 0;
        while i < levels
            invariant
                i <= levels,
                levels == self.levels(),
                well_formed_sides(*self),
                forall|i: int| 0 <= i <= self.levels() ==> #[trigger] self.line_len(i) <= usize::MAX,
                self.fitting_level(width, 0) == self.fitting_level(width, i as int),
            decreases levels - i,
        {
            assert(self.line_len(i as int) <= usize::MAX);
            if (self.line_index_len(i) as u16) < width {
                return Some(i);
            }
            i = i + 1;
        }
        None
    }
}

pub proof fn lemma_contents_len_nonneg(cells: Seq<CellSizeOpt>)
    ensures
        contents_len(cells) >= 0,
    decreases cells.len(),
{
    if cells.len() > 0 {
        lemma_contents_len_nonneg(cells.drop_last());
    }
}

pub proof fn lemma_contents_len_prefix(cells: Seq<CellSizeOpt>)
    ensures
        forall|j: int| 0 <= j <= cells.len() ==> #[trigger] contents_len(cells.take(j)) <= contents_len(cells),
    decreases cells.len(),
{
    if cells.len() > 0 {
        lemma_contents_len_prefix(cells.drop_last());
        assert forall|j: int| 0 <= j <= cells.len() implies #[trigger] contents_len(cells.take(j)) <= contents_len(cells) by {
            if j == cells.len() {
                assert(cells.take(j) =~= cells);
            } else {
                assert(cells.take(j) =~= cells.drop_last().take(j));
            }
        }
    } else {
        assert forall|j: int| 0 <= j <= cells.len() implies #[trigger] contents_len(cells.take(j)) <= contents_len(cells) by {
            assert(cells.take(j) =~= cells);
        }
    }
}

impl TitleTelescope {
    /// Writes the parts of a side at collapse level `index` from `start`
    /// on row `y`, each after the other; gives where they end.
    fn draw_side(&self, buf: &mut Buffer, left: bool, index: usize, start: u16, y: u16) -> (end: u16)
        requires
            well_formed_sides(*self),
            side_fits(*old(buf), start as int, y as int, candidates(if left { self.left_side@ } else { self.right_side@ }, index as int)),
        ensures
            end == advance(start as int, candidates(if left { self.left_side@ } else { self.right_side@ }, index as int)),
            same_grid(*final(buf), *old(buf)),
            forall|c: (int, int)| (c.1 != y || c.0 < start) ==> #[trigger] buffer_symbols(*final(buf))[c]
                == buffer_symbols(*old(buf))[c],
            forall|c: (int, int)| #[trigger] buffer_symbols(*final(buf))[c] == side_shows(
                *old(buf),
                candidates(if left { self.left_side@ } else { self.right_side@ }, index as int),
                start as int,
                y as int,
                c,
                buffer_symbols(*old(buf))[c],
            ),
            forall|c: (int, int)| #[trigger] buffer_paints(*final(buf))[c] == side_paints(
                *self,
                left,
                *old(buf),
                candidates(if left { self.left_side@ } else { self.right_side@ }, index as int),
                start as int,
                y as int,
                c,
                buffer_paints(*old(buf))[c],
            ),
    {
        let ghost before_paints = buffer_paints(*buf);
        let side = if left { &self.left_side } else { &self.right_side };
        let ghost all = candidates(side@, index as int);
        let ghost before = buffer_symbols(*buf);
        let mut pos: u16 = start;
        let mut k: usize = 0;
        proof { lemma_advance_prefix(start as int, all); }
        while k < side.len()
            invariant
                k <= side@.len(),
                side@ == (if left { self.left_side@ } else { self.right_side@ }),
                well_formed_sides(*self),
                all == candidates(side@, index as int),
                side_fits(*buf, start as int, y as int, all),
                pos == advance(start as int, all.take(k as int)),
                forall|j: int| 0 <= j <= all.len() ==> start <= #[trigger] advance(start as int, all.take(j)) <= advance(start as int, all),
                same_grid(*buf, *old(buf)),
                forall|c: (int, int)| (c.1 != y || c.0 < start) ==> #[trigger] buffer_symbols(*buf)[c] == before[c],
                forall|c: (int, int)| #[trigger] buffer_symbols(*buf)[c] == side_shows(
                    *old(buf), all.take(k as int), start as int, y as int, c, before[c]),
                before_paints == buffer_paints(*old(buf)),
                forall|c: (int, int)| #[trigger] buffer_paints(*buf)[c] == side_paints(
                    *self, left, *old(buf), all.take(k as int), start as int, y as int, c, before_paints[c]),
            decreases side@.len() - k,
        {
            let cell = get_index_or_last(&side[k], index);
            let style = if left { self.style_of_left_side(cell.style) } else { self.style_of_right_side(cell.style) };
            proof {
                lemma_candidates_take(side@, index as int, k as int);
                assert(in_buffer(*buf, advance(start as int, all.take(k as int)), y as int));
                assert(advance(start as int, all.take(k as int + 1)) <= advance(start as int, all));
            }
            let ghost prior = buffer_symbols(*buf);
            let ghost prior_paints = buffer_paints(*buf);
            put_string(buf, pos, y, cell.content.as_str(), style);
            proof {
                let next = all.take(k as int + 1);
                assert(next.drop_last() =~= all.take(k as int));
                assert(next.last() == all[k as int]);
                assert(style == part_paint(*self, left, all[k as int].style));
                assert forall|c: (int, int)| #[trigger] buffer_paints(*buf)[c] == side_paints(
                    *self, left, *old(buf), next, start as int, y as int, c, before_paints[c]) by {
                    assert(prior_paints[c] == side_paints(*self, left, *old(buf), all.take(k as int), start as int, y as int,
                        c, before_paints[c]));
                }
                assert forall|c: (int, int)| #[trigger] buffer_symbols(*buf)[c] == side_shows(
                    *old(buf), next, start as int, y as int, c, before[c]) by {
                    assert(prior[c] == side_shows(*old(buf), all.take(k as int), start as int, y as int, c, before[c]));
                }
            }
            pos = pos + cell.content.as_str().len() as u16;
            k = k + 1;
        }
        assert(all.take(side@.len() as int) =~= all);
        pos
    }
}

pub proof fn lemma_advance_prefix(start: int, cells: Seq<CellSizeOpt>)
    ensures
        forall|j: int| 0 <= j <= cells.len() ==> start <= #[trigger] advance(start, cells.take(j)) <= advance(start, cells),
    decreases cells.len(),
{
    if cells.len() > 0 {
        lemma_advance_prefix(start, cells.drop_last());
        assert(advance(start, cells) >= advance(start, cells.drop_last()));
        assert(advance(start, cells.drop_last().take(cells.len() - 1)) <= advance(start, cells.drop_last()));
        assert(cells.drop_last().take(cells.len() - 1) =~= cells.drop_last());
        assert forall|j: int| 0 <= j <= cells.len() implies start <= #[trigger] advance(start, cells.take(j)) <= advance(start, cells) by {
            if j == cells.len() {
                assert(cells.take(j) =~= cells);
            } else {
                assert(cells.take(j) =~= cells.drop_last().take(j));
            }
        }
    } else {
        assert forall|j: int| 0 <= j <= cells.len() implies start <= #[trigger] advance(start, cells.take(j)) <= advance(start, cells) by {
            assert(cells.take(j) =~= cells);
        }
    }
}

impl TitleTelescope {
    /// Marks the scanning animation: the character at the indicator's
    /// place and the two after it (or the first two) are made bold.
    fn draw_loading_chars(&self, text_length: u16, rect: Rect, buf: &mut Buffer)
        requires
            loading_fits(*old(buf), self.loading_indicator, rect.x as int, rect.y as int, text_length as int),
        ensures
            same_grid(*final(buf), *old(buf)),
            buffer_symbols(*final(buf)) == buffer_symbols(*old(buf)),
            forall|c: (int, int)| !loading_cell(self.loading_indicator, rect.x as int, rect.y as int, text_length as int, c)
                ==> #[trigger] buffer_paints(*final(buf))[c] == buffer_paints(*old(buf))[c],
            forall|c: (int, int)| loading_cell(self.loading_indicator, rect.x as int, rect.y as int, text_length as int, c)
                ==> (#[trigger] buffer_paints(*old(buf))[c] matches Some(p) ==> buffer_paints(*final(buf))[c]
                    == Some(emboldened(p))),
    {
        let index_in_text = (self.loading_indicator as u16) % text_length;
        put_bold_at(buf, rect.x + 1 + index_in_text, rect.y);
        if index_in_text >= text_length - 2 {
            put_bold_at(buf, rect.x + 1, rect.y);
            put_bold_at(buf, rect.x + 2, rect.y);
        } else {
            put_bold_at(buf, rect.x + 1 + index_in_text + 1, rect.y);
            put_bold_at(buf, rect.x + 1 + index_in_text + 2, rect.y);
        }
    }

    /// Writes the pipe between the sides.
    fn render_pipe(&self, x: u16, y: u16, buf: &mut Buffer)
        requires
            in_buffer(*old(buf), x as int, y as int),
        ensures
            same_grid(*final(buf), *old(buf)),
            forall|c: (int, int)| (c.1 != y || c.0 < x) ==> #[trigger] buffer_symbols(*final(buf))[c]
                == buffer_symbols(*old(buf))[c],
            forall|c: (int, int)| #[trigger] buffer_symbols(*final(buf))[c] == written_over(
                line_cells(" | "@, *old(buf), x as int), x as int, y as int, c, buffer_symbols(*old(buf))[c]),
            forall|c: (int, int)| #[trigger] buffer_paints(*final(buf))[c] == painted_over(
                line_cells(" | "@, *old(buf), x as int), x as int, y as int, c, pipe_paint(*self), buffer_paints(*old(buf))[c]),
    {
        proof { reveal_strlit(" | "); }
        let paint = Paint { fg: Hue::White, bg: self.default_style.bg, bold: self.default_style.bold };
        put_string(buf, x, y, " | ", paint);
    }

    /// Writes the right parts cut to fit, from `start` on row `y`: the last
    /// one to the columns left before `width`, the others to an equal share
    /// of them; gives where they end.
    fn draw_cut_right_side(&self, buf: &mut Buffer, index: usize, start: u16, width: u16, y: u16) -> (end: u16)
        requires
            well_formed_sides(*self),
            self.right_side@.len() <= u16::MAX,
            buffer_sound(*old(buf)),
            pieces_fit(buffer_area(*old(buf)), candidates(self.right_side@, index as int), 0,
                (candidates(self.right_side@, index as int).len() as u16) as int, start as int, width, y as int),
        ensures
            end == pieces_end(candidates(self.right_side@, index as int), 0,
                (candidates(self.right_side@, index as int).len() as u16) as int, start as int, width),
            same_grid(*final(buf), *old(buf)),
            forall|c: (int, int)| (c.1 != y || c.0 < start) ==> #[trigger] buffer_symbols(*final(buf))[c]
                == buffer_symbols(*old(buf))[c],
            forall|c: (int, int)| #[trigger] buffer_symbols(*final(buf))[c] == cut_shows(
                *old(buf),
                candidates(self.right_side@, index as int),
                0,
                (candidates(self.right_side@, index as int).len() as u16) as int,
                start as int,
                width,
                y as int,
                c,
                buffer_symbols(*old(buf))[c],
            ),
            forall|c: (int, int)| #[trigger] buffer_paints(*final(buf))[c] == cut_paints(
                *self,
                *old(buf),
                candidates(self.right_side@, index as int),
                0,
                (candidates(self.right_side@, index as int).len() as u16) as int,
                start as int,
                width,
                y as int,
                c,
                buffer_paints(*old(buf))[c],
            ),
    {
        let ghost all = candidates(self.right_side@, index as int);
        let ghost before_paints = buffer_paints(*buf);
        let ghost before = buffer_symbols(*buf);
        let parts = self.right_side.len() as u16;
        let mut pos: u16 = start;
        let mut k: usize = 0;
        while k < self.right_side.len()
            invariant
                k <= self.right_side@.len(),
                well_formed_sides(*self),
                all == candidates(self.right_side@, index as int),
                parts == all.len(),
                all.len() == self.right_side@.len() <= u16::MAX,
                parts >= 1,
                start <= pos,
                buffer_sound(*old(buf)),
                pieces_fit(buffer_area(*buf), all, k as int, parts as int, pos as int, width, y as int),
                pieces_end(all, k as int, parts as int, pos as int, width)
                    == pieces_end(all, 0, parts as int, start as int, width),
                same_grid(*buf, *old(buf)),
                forall|c: (int, int)| (c.1 != y || c.0 < start) ==> #[trigger] buffer_symbols(*buf)[c] == before[c],
                forall|c: (int, int)| cut_shows(*old(buf), all, k as int, parts as int, pos as int, width, y as int, c,
                    #[trigger] buffer_symbols(*buf)[c])
                    == cut_shows(*old(buf), all, 0, parts as int, start as int, width, y as int, c, before[c]),
                before_paints == buffer_paints(*old(buf)),
                forall|c: (int, int)| cut_paints(*self, *old(buf), all, k as int, parts as int, pos as int, width, y as int, c,
                    #[trigger] buffer_paints(*buf)[c])
                    == cut_paints(*self, *old(buf), all, 0, parts as int, start as int, width, y as int, c, before_paints[c]),
            decreases self.right_side@.len() - k,
        {
            let cell = get_index_or_last(&self.right_side[k], index);
            assert(*cell == all[k as int]);
            let style = self.style_of_right_side(cell.style);
            let room = width - 1 - pos;
            let truncated = if k as u16 + 1 == parts {
                truncate_middle(cell.content.as_str(), room)
            } else {
                truncate_middle(cell.content.as_str(), room / parts)
            };
            assert(truncated@ == piece(all[k as int].content@, k as int, parts as int, pos as int, width));
            let ghost prior = buffer_symbols(*buf);
            let ghost prior_paints = buffer_paints(*buf);
            put_string(buf, pos, y, truncated.as_str(), style);
            let ghost next_pos = pos + (truncated@.len() as u16);
            proof {
                assert(style == part_paint(*self, false, all[k as int].style));
                assert forall|c: (int, int)| cut_paints(*self, *old(buf), all, k as int + 1, parts as int, next_pos, width, y as int,
                    c, #[trigger] buffer_paints(*buf)[c])
                    == cut_paints(*self, *old(buf), all, 0, parts as int, start as int, width, y as int, c, before_paints[c]) by {
                    assert(buffer_paints(*buf)[c] == painted_over(line_cells(truncated@, *old(buf), pos as int), pos as int,
                        y as int, c, style, prior_paints[c]));
                    assert(cut_paints(*self, *old(buf), all, k as int, parts as int, pos as int, width, y as int, c, prior_paints[c])
                        == cut_paints(*self, *old(buf), all, k as int + 1, parts as int, next_pos, width, y as int, c,
                            buffer_paints(*buf)[c]));
                }
                assert forall|c: (int, int)| cut_shows(*old(buf), all, k as int + 1, parts as int, next_pos, width, y as int, c,
                    #[trigger] buffer_symbols(*buf)[c])
                    == cut_shows(*old(buf), all, 0, parts as int, start as int, width, y as int, c, before[c]) by {
                    assert(buffer_symbols(*buf)[c] == written_over(line_cells(truncated@, *old(buf), pos as int), pos as int,
                        y as int, c, prior[c]));
                    assert(cut_shows(*old(buf), all, k as int, parts as int, pos as int, width, y as int, c, prior[c])
                        == cut_shows(*old(buf), all, k as int + 1, parts as int, next_pos, width, y as int, c,
                            buffer_symbols(*buf)[c]));
                }
            }
            pos = pos + truncated.as_str().unicode_len() as u16;
            k = k + 1;
        }
        proof {
            assert forall|c: (int, int)| #[trigger] buffer_paints(*buf)[c] == cut_paints(*self, *old(buf), all, 0, parts as int,
                start as int, width, y as int, c, before_paints[c]) by {
                assert(cut_paints(*self, *old(buf), all, k as int, parts as int, pos as int, width, y as int, c,
                    buffer_paints(*buf)[c]) == buffer_paints(*buf)[c]);
            }
            assert forall|c: (int, int)| #[trigger] buffer_symbols(*buf)[c] == cut_shows(*old(buf), all, 0, parts as int,
                start as int, width, y as int, c, before[c]) by {
                assert(cut_shows(*old(buf), all, k as int, parts as int, pos as int, width, y as int, c, buffer_symbols(*buf)[c])
                    == buffer_symbols(*buf)[c]);
            }
        }
        pos
    }
}

impl TitleTelescope {
    /// What cell `c` of `b`, showing `under`, shows once the title is drawn
    /// in `rect`: the left parts of the chosen level, the pipe, then the
    /// right parts, cut when no level fits.
    pub open spec fn shows(&self, b: Buffer, rect: Rect, c: (int, int), under: Seq<char>) -> Seq<char> {
        let start = rect.x + 1;
        let y = rect.y as int;
        let i = match self.fitting_level(rect.width, 0) {
            Some(i) => i,
            None => self.levels(),
        };
        let left = candidates(self.left_side@, i);
        let right = candidates(self.right_side@, i);
        let pipe = advance(start, left);
        let with_pipe = written_over(
            line_cells(" | "@, b, pipe),
            pipe,
            y,
            c,
            side_shows(b, left, start, y, c, under),
        );
        match self.fitting_level(rect.width, 0) {
            Some(_) => side_shows(b, right, pipe + 3, y, c, with_pipe),
            None => cut_shows(b, right, 0, (right.len() as u16) as int, pipe + 3, rect.width, y, c, with_pipe),
        }
    }

    /// `after` is `before` with the title drawn in `rect` where `r`, else
    /// unchanged: its text exactly, its paints but for the cells the
    /// scanning animation makes bold, which are bold in their paint.
    pub open spec fn drawn_in(&self, rect: Rect, before: Buffer, after: Buffer, r: bool) -> bool {
        &&& forall|c: (int, int)| #[trigger] buffer_symbols(after)[c] == if r {
            self.shows(before, rect, c, buffer_symbols(before)[c])
        } else {
            buffer_symbols(before)[c]
        }
        &&& forall|c: (int, int)| !(r && self.animated(rect, c)) ==> #[trigger] buffer_paints(after)[c] == if r {
            self.paints(before, rect, c, buffer_paints(before)[c])
        } else {
            buffer_paints(before)[c]
        }
        &&& forall|c: (int, int)| r && self.animated(rect, c) ==> (self.paints(before, rect, c, buffer_paints(before)[c])
            matches Some(p) ==> #[trigger] buffer_paints(after)[c] == Some(emboldened(p)))
    }

    /// Where the title drawn in `rect` ends.
    pub open spec fn title_end(&self, rect: Rect) -> int {
        let start = rect.x + 1;
        let i = match self.fitting_level(rect.width, 0) {
            Some(i) => i,
            None => self.levels(),
        };
        let right = candidates(self.right_side@, i);
        let pipe = advance(start, candidates(self.left_side@, i));
        match self.fitting_level(rect.width, 0) {
            Some(_) => advance(pipe + 3, right),
            None => pieces_end(right, 0, (right.len() as u16) as int, pipe + 3, rect.width),
        }
    }

    /// How cell `c` of `b`, drawn in `under`, is drawn once the title's
    /// parts are written in `rect`, before the scanning animation.
    pub open spec fn paints(&self, b: Buffer, rect: Rect, c: (int, int), under: Option<Paint>) -> Option<Paint> {
        let start = rect.x + 1;
        let y = rect.y as int;
        let i = match self.fitting_level(rect.width, 0) {
            Some(i) => i,
            None => self.levels(),
        };
        let left = candidates(self.left_side@, i);
        let right = candidates(self.right_side@, i);
        let pipe = advance(start, left);
        let with_pipe = painted_over(
            line_cells(" | "@, b, pipe),
            pipe,
            y,
            c,
            pipe_paint(*self),
            side_paints(*self, true, b, left, start, y, c, under),
        );
        match self.fitting_level(rect.width, 0) {
            Some(_) => side_paints(*self, false, b, right, pipe + 3, y, c, with_pipe),
            None => cut_paints(*self, b, right, 0, (right.len() as u16) as int, pipe + 3, rect.width, y, c, with_pipe),
        }
    }

    /// The cell is one the scanning animation makes bold in `rect`.
    pub open spec fn animated(&self, rect: Rect, c: (int, int)) -> bool {
        self.loading && loading_cell(self.loading_indicator, rect.x as int, rect.y as int, self.title_end(rect) - (rect.x + 1), c)
    }

    /// Draws the title on the first row of `rect`, from its second column:
    /// the first collapse level that fits the width, or else the shortest
    /// level with its right parts cut to fit; while scanning, a few of its
    /// characters are made bold. Only that row, from that column, changes.
    pub fn render(&self, rect: Rect, buf: &mut Buffer)
        requires
            self.fits(rect, *old(buf)),
            self.right_side@.len() <= u16::MAX,
        ensures
            same_grid(*final(buf), *old(buf)),
            forall|c: (int, int)| (c.1 != rect.y || c.0 < rect.x + 1) ==> #[trigger] buffer_symbols(*final(buf))[c]
                == buffer_symbols(*old(buf))[c],
            forall|c: (int, int)| #[trigger] buffer_symbols(*final(buf))[c] == self.shows(*old(buf), rect, c, buffer_symbols(*old(buf))[c]),
            forall|c: (int, int)| !self.animated(rect, c) ==> #[trigger] buffer_paints(*final(buf))[c]
                == self.paints(*old(buf), rect, c, buffer_paints(*old(buf))[c]),
            forall|c: (int, int)| self.animated(rect, c) ==> (self.paints(*old(buf), rect, c, buffer_paints(*old(buf))[c])
                matches Some(p) ==> #[trigger] buffer_paints(*final(buf))[c] == Some(emboldened(p))),
    {
        let ghost before_paints = buffer_paints(*buf);
        let ghost before = buffer_symbols(*buf);
        let start = rect.x + 1;
        let y = rect.y;
        match self.choose_level(rect.width) {
            Some(i) => {
                let pipe = self.draw_side(buf, true, i, start, y);
                let ghost left_drawn = buffer_symbols(*buf);
                let ghost left_painted = buffer_paints(*buf);
                proof {
                    let left = candidates(self.left_side@, i as int);
                    lemma_advance_prefix(start as int, left);
                    assert(left.take(left.len() as int) =~= left);
                }
                self.render_pipe(pipe, y, buf);
                let ghost piped = buffer_symbols(*buf);
                let ghost piped_buf = *buf;
                let ghost left_paints = left_painted;
                let ghost piped_paints = buffer_paints(*buf);
                let end = self.draw_side(buf, false, i, pipe + 3, y);
                let ghost right_drawn = buffer_symbols(*buf);
                let ghost right_paints = buffer_paints(*buf);
                if self.loading {
                    self.draw_loading_chars(end - start, rect, buf);
                }
                proof {
                    let left = candidates(self.left_side@, i as int);
                    let right = candidates(self.right_side@, i as int);
                    assert forall|c: (int, int)| #[trigger] right_paints[c] == self.paints(*old(buf), rect, c, before_paints[c]) by {
                        assert(left_paints[c] == side_paints(*self, true, *old(buf), left, start as int, y as int, c, before_paints[c]));
                        assert(piped_paints[c] == painted_over(line_cells(" | "@, *old(buf), pipe as int), pipe as int, y as int, c,
                            pipe_paint(*self), left_paints[c]));
                        assert(right_paints[c] == side_paints(*self, false, piped_buf, right, pipe + 3, y as int, c, piped_paints[c]));
                        lemma_side_paints_same_area(*self, false, piped_buf, *old(buf), right, pipe + 3, y as int, c, piped_paints[c]);
                    }
                    assert(end == self.title_end(rect));
                    assert forall|c: (int, int)| self.animated(rect, c) implies (self.paints(*old(buf), rect, c,
                        before_paints[c]) matches Some(p) ==> #[trigger] buffer_paints(*buf)[c] == Some(emboldened(p))) by {
                        assert(right_paints[c] == self.paints(*old(buf), rect, c, before_paints[c]));
                    }
                    assert forall|c: (int, int)| #[trigger] buffer_symbols(*buf)[c] == self.shows(*old(buf), rect, c, before[c]) by {
                        assert(left_drawn[c] == side_shows(*old(buf), left, start as int, y as int, c, before[c]));
                        assert(piped[c] == written_over(line_cells(" | "@, *old(buf), pipe as int), pipe as int, y as int, c,
                            left_drawn[c]));
                        assert(right_drawn[c] == side_shows(piped_buf, right, pipe + 3, y as int, c, piped[c]));
                        lemma_side_shows_same_area(piped_buf, *old(buf), right, pipe + 3, y as int, c, piped[c]);
                    }
                }
            },
            None => {
                let levels = self.highest_collapse_count();
                let pipe = self.draw_side(buf, true, levels, start, y);
                let ghost left_drawn = buffer_symbols(*buf);
                let ghost left_painted = buffer_paints(*buf);
                proof {
                    let left = candidates(self.left_side@, levels as int);
                    lemma_advance_prefix(start as int, left);
                    assert(left.take(left.len() as int) =~= left);
                }
                self.render_pipe(pipe, y, buf);
                let ghost piped = buffer_symbols(*buf);
                let ghost piped_buf = *buf;
                let ghost left_paints = left_painted;
                let ghost piped_paints = buffer_paints(*buf);
                let end = self.draw_cut_right_side(buf, levels, pipe + 3, rect.width, y);
                let ghost right_drawn = buffer_symbols(*buf);
                let ghost right_paints = buffer_paints(*buf);
                if self.loading {
                    self.draw_loading_chars(end - start, rect, buf);
                }
                proof {
                    let left = candidates(self.left_side@, levels as int);
                    let right = candidates(self.right_side@, levels as int);
                    assert forall|c: (int, int)| #[trigger] right_paints[c] == self.paints(*old(buf), rect, c, before_paints[c]) by {
                        assert(left_paints[c] == side_paints(*self, true, *old(buf), left, start as int, y as int, c, before_paints[c]));
                        assert(piped_paints[c] == painted_over(line_cells(" | "@, *old(buf), pipe as int), pipe as int, y as int, c,
                            pipe_paint(*self), left_paints[c]));
                        assert(right_paints[c] == cut_paints(*self, piped_buf, right, 0, (right.len() as u16) as int, pipe + 3,
                            rect.width, y as int, c, piped_paints[c]));
                        lemma_cut_paints_same_area(*self, piped_buf, *old(buf), right, 0, (right.len() as u16) as int, pipe + 3,
                            rect.width, y as int, c, piped_paints[c]);
                    }
                    assert(end == self.title_end(rect));
                    assert forall|c: (int, int)| self.animated(rect, c) implies (self.paints(*old(buf), rect, c,
                        before_paints[c]) matches Some(p) ==> #[trigger] buffer_paints(*buf)[c] == Some(emboldened(p))) by {
                        assert(right_paints[c] == self.paints(*old(buf), rect, c, before_paints[c]));
                    }
                    assert forall|c: (int, int)| #[trigger] buffer_symbols(*buf)[c] == self.shows(*old(buf), rect, c, before[c]) by {
                        assert(left_drawn[c] == side_shows(*old(buf), left, start as int, y as int, c, before[c]));
                        assert(piped[c] == written_over(line_cells(" | "@, *old(buf), pipe as int), pipe as int, y as int, c,
                            left_drawn[c]));
                        assert(right_drawn[c] == cut_shows(piped_buf, right, 0, (right.len() as u16) as int, pipe + 3,
                            rect.width, y as int, c, piped[c]));
                        lemma_cut_shows_same_area(piped_buf, *old(buf), right, 0, (right.len() as u16) as int, pipe + 3,
                            rect.width, y as int, c, piped[c]);
                    }
                }
            },
        }
    }
}

/// What the title shows of a side: each part's ways of writing, with their
/// own paints.
pub open spec fn ways_view(side: Seq<Vec<CellSizeOpt>>) -> Seq<Seq<(Seq<char>, Option<Paint>)>> {
    side.map_values(|ways: Vec<CellSizeOpt>| ways@.map_values(|c: CellSizeOpt| (c.content@, c.style)))
}

/// `p` in another foreground colour.
pub open spec fn tinted(p: Paint, fg: Hue) -> Paint {
    Paint { fg, bg: p.bg, bold: p.bold }
}

/// The title's paint: yellow, bold once the scan is over.
pub open spec fn title_paint(show_loading: bool) -> Paint {
    Paint { fg: Hue::Yellow, bg: Hue::Reset, bold: !show_loading }
}

/// The left parts of the title: the totals (while scanning, what was found
/// so far), the failures to read, and a caution when running as root.
pub open spec fn title_left(
    show_loading: bool,
    total: Seq<char>,
    descendants: u64,
    freed: Seq<char>,
    read_errors: Option<u64>,
    as_root: bool,
) -> Seq<Seq<(Seq<char>, Option<Paint>)>> {
    let d = decimal(descendants as nat);
    let red = Some(tinted(title_paint(show_loading), Hue::Red));
    let totals: Seq<(Seq<char>, Option<Paint>)> = if show_loading {
        seq![
            ("Scanning: "@ + total + " ("@ + d + " files)"@, None),
            ("Scanning: "@ + total, None),
            (total, None),
        ]
    } else {
        seq![
            ("Total: "@ + total + " ("@ + d + " files), freed: "@ + freed, None),
            ("Total: "@ + total + ", freed: "@ + freed, None),
            ("Total: "@ + total, None),
            (total, None),
        ]
    };
    let errors: Seq<Seq<(Seq<char>, Option<Paint>)>> = match read_errors {
        Some(n) => seq![seq![
            (" (failed to read "@ + decimal(n as nat) + " files)"@, red),
            (" ("@ + decimal(n as nat) + " errors)"@, red),
            (" (errors)"@, red),
        ]],
        None => Seq::empty(),
    };
    let root: Seq<Seq<(Seq<char>, Option<Paint>)>> = if as_root {
        seq![seq![
            (" (CAUTION: running as root)"@, red),
            (" (running as root)"@, red),
            (" (root)"@, red),
        ]]
    } else {
        Seq::empty()
    };
    seq![totals] + errors + root
}

/// The right parts of the title: the scanned folder's path, the current
/// folder's path below it with its size, and how many larger entries the
/// zoom hides.
pub open spec fn title_right(
    show_loading: bool,
    base: Seq<char>,
    current: Seq<char>,
    current_size: Seq<char>,
    current_descendants: u64,
    zoom_level: Option<usize>,
) -> Seq<Seq<(Seq<char>, Option<Paint>)>> {
    let green = Some(tinted(title_paint(show_loading), Hue::Green));
    let sep: Seq<char> = if base.len() > 0 && base.last() == '/' { Seq::empty() } else { seq!['/'] };
    let d = decimal(current_descendants as nat);
    let path: Seq<Seq<(Seq<char>, Option<Paint>)>> = if current.len() > 0 {
        seq![seq![
            (sep + current + " ("@ + current_size + ", "@ + d + " files)"@, green),
            (sep + current + " ("@ + current_size + ")"@, green),
            (sep + current, green),
        ]]
    } else {
        Seq::empty()
    };
    let zoom: Seq<Seq<(Seq<char>, Option<Paint>)>> = match zoom_level {
        Some(z) => seq![seq![
            (" (+"@ + decimal(z as nat) + " larger file(s), zoom out to show)"@, green),
            (" (+"@ + decimal(z as nat) + " larger file(s))"@, green),
        ]],
        None => Seq::empty(),
    };
    seq![seq![(base, None)]] + path + zoom
}

/// The line at the top of the screen: the totals of the scan on the left,
/// the paths on the right.
pub struct TitleLine<'a> {
    pub base_path_info: FolderInfo<'a>,
    pub current_path_info: FolderInfo<'a>,
    pub space_freed: u64,
    pub show_loading: bool,
    pub progress_indicator: u64,
    pub read_errors: Option<u64>,
    pub flash_space: bool,
    pub path_error: bool,
    pub zoom_level: Option<usize>,
}

fn cell(content: String, style: Option<Paint>) -> (r: CellSizeOpt)
    ensures
        r.content == content,
        r.style == style,
{
    CellSizeOpt { content, style }
}

fn concat(a: &str, b: &str) -> (r: String)
    ensures
        r@ == a@ + b@,
{
    let mut r = a.to_owned();
    r.append(b);
    r
}

impl<'a> TitleLine<'a> {
    pub fn new(base_path_info: FolderInfo<'a>, current_path_info: FolderInfo<'a>, space_freed: u64) -> (r: TitleLine<'a>)
        ensures
            r.base_path_info == base_path_info,
            r.current_path_info == current_path_info,
            r.space_freed == space_freed,
            !r.show_loading,
            r.progress_indicator == 0,
            r.read_errors is None,
            !r.flash_space,
            !r.path_error,
            r.zoom_level is None,
    {
        TitleLine {
            base_path_info,
            current_path_info,
            space_freed,
            progress_indicator: 0,
            read_errors: None,
            show_loading: false,
            flash_space: false,
            path_error: false,
            zoom_level: None,
        }
    }

    pub fn show_loading(self) -> (r: TitleLine<'a>)
        ensures
            r == (TitleLine { show_loading: true, ..self }),
    {
        TitleLine { show_loading: true, ..self }
    }

    pub fn flash_space(self, flash_space: bool) -> (r: TitleLine<'a>)
        ensures
            r == (TitleLine { flash_space, ..self }),
    {
        TitleLine { flash_space, ..self }
    }

    pub fn path_error(self, path_error: bool) -> (r: TitleLine<'a>)
        ensures
            r == (TitleLine { path_error, ..self }),
    {
        TitleLine { path_error, ..self }
    }

    pub fn progress_indicator(self, progress_indicator: u64) -> (r: TitleLine<'a>)
        ensures
            r == (TitleLine { progress_indicator, ..self }),
    {
        TitleLine { progress_indicator, ..self }
    }

    /// Records the failures to read; none is shown when there is none.
    pub fn read_errors(self, read_errors: u64) -> (r: TitleLine<'a>)
        ensures
            r == (TitleLine { read_errors: if read_errors > 0 { Some(read_errors) } else { self.read_errors }, ..self }),
    {
        if read_errors > 0 {
            TitleLine { read_errors: Some(read_errors), ..self }
        } else {
            self
        }
    }

    /// Records the zoom level; none is shown at level 0.
    pub fn zoom_level(self, zoom_level: usize) -> (r: TitleLine<'a>)
        ensures
            r == (TitleLine { zoom_level: if zoom_level > 0 { Some(zoom_level) } else { self.zoom_level }, ..self }),
    {
        if zoom_level > 0 {
            TitleLine { zoom_level: Some(zoom_level), ..self }
        } else {
            self
        }
    }
}

fn with_decimal(head: &str, n: u64, tail: &str) -> (r: String)
    ensures
        r@ == head@ + decimal(n as nat) + tail@,
{
    let mut r = head.to_owned();
    push_decimal(&mut r, n as u128);
    r.append(tail);
    r
}

impl<'a> TitleLine<'a> {
    /// The title's parts: `total_size`, `current_size` and `space_freed`
    /// are the sizes written out; `as_root` tells whether the process runs
    /// as the superuser.
    pub fn telescope(&self, total_size: &str, current_size: &str, space_freed: &str, as_root: bool) -> (r: TitleTelescope)
        ensures
            r.default_style == title_paint(self.show_loading),
            ways_view(r.left_side@) == title_left(
                self.show_loading,
                total_size@,
                self.base_path_info.num_descendants,
                space_freed@,
                self.read_errors,
                as_root,
            ),
            ways_view(r.right_side@) == title_right(
                self.show_loading,
                joined_path(path_model(self.base_path_info.path@)),
                joined_path(relative_path(path_model(self.current_path_info.path@), self.base_path_info.path@.len() as int)),
                current_size@,
                self.current_path_info.num_descendants,
                self.zoom_level,
            ),
            r.loading == self.show_loading,
            r.loading_indicator == self.progress_indicator,
            r.path_error == self.path_error,
            r.size_flash == self.flash_space,
    {
        proof {
            reveal_strlit("Scanning: ");
            reveal_strlit(" (");
            reveal_strlit(" files)");
            reveal_strlit(" files), freed: ");
            reveal_strlit("Total: ");
            reveal_strlit(", freed: ");
            reveal_strlit(" (failed to read ");
            reveal_strlit(" errors)");
            reveal_strlit(" (errors)");
            reveal_strlit(" (CAUTION: running as root)");
            reveal_strlit(" (running as root)");
            reveal_strlit(" (root)");
            reveal_strlit(", ");
            reveal_strlit(")");
            reveal_strlit(" (+");
            reveal_strlit(" larger file(s), zoom out to show)");
            reveal_strlit(" larger file(s))");
            reveal_strlit("/");
            reveal_strlit("");
        }
        let default_style = Paint { fg: Hue::Yellow, bg: Hue::Reset, bold: !self.show_loading };
        let red = Paint { fg: Hue::Red, ..default_style };
        let green = Paint { fg: Hue::Green, ..default_style };
        let ghost expected_left = title_left(
            self.show_loading,
            total_size@,
            self.base_path_info.num_descendants,
            space_freed@,
            self.read_errors,
            as_root,
        );
        let ghost expected_right = title_right(
            self.show_loading,
            joined_path(path_model(self.base_path_info.path@)),
            joined_path(relative_path(path_model(self.current_path_info.path@), self.base_path_info.path@.len() as int)),
            current_size@,
            self.current_path_info.num_descendants,
            self.zoom_level,
        );
        let mut telescope = TitleTelescope::new(default_style);
        let descendants = self.base_path_info.num_descendants;
        let mut totals: Vec<CellSizeOpt> = Vec::new();
        if self.show_loading {
            let scanning = concat("Scanning: ", total_size);
            totals.push(cell(with_decimal(concat(scanning.as_str(), " (").as_str(), descendants, " files)"), None));
            totals.push(cell(scanning, None));
            totals.push(cell(total_size.to_owned(), None));
        } else {
            let total = concat("Total: ", total_size);
            let counted = with_decimal(concat(total.as_str(), " (").as_str(), descendants, " files), freed: ");
            totals.push(cell(concat(counted.as_str(), space_freed), None));
            totals.push(cell(concat(concat(total.as_str(), ", freed: ").as_str(), space_freed), None));
            totals.push(cell(total, None));
            totals.push(cell(total_size.to_owned(), None));
        }
        assert(totals@.map_values(|c: CellSizeOpt| (c.content@, c.style)) =~= expected_left[0]);
        telescope.append_to_left_side(totals);
        assert(ways_view(telescope.left_side@) =~= expected_left.take(1));
        let mut count: usize = 1;
        match self.read_errors {
            Some(n) => {
                let mut errors: Vec<CellSizeOpt> = Vec::new();
                errors.push(cell(with_decimal(" (failed to read ", n, " files)"), Some(red)));
                errors.push(cell(with_decimal(" (", n, " errors)"), Some(red)));
                errors.push(cell(String::from_str(" (errors)"), Some(red)));
                assert(errors@.map_values(|c: CellSizeOpt| (c.content@, c.style)) =~= expected_left[1]);
                telescope.append_to_left_side(errors);
                count = 2;
                assert(ways_view(telescope.left_side@) =~= expected_left.take(2));
            },
            None => {},
        }
        if as_root {
            let mut root: Vec<CellSizeOpt> = Vec::new();
            root.push(cell(String::from_str(" (CAUTION: running as root)"), Some(red)));
            root.push(cell(String::from_str(" (running as root)"), Some(red)));
            root.push(cell(String::from_str(" (root)"), Some(red)));
            assert(root@.map_values(|c: CellSizeOpt| (c.content@, c.style)) =~= expected_left[count as int]);
            telescope.append_to_left_side(root);
            assert(ways_view(telescope.left_side@) =~= expected_left.take(count as int + 1));
            count = count + 1;
        }
        assert(expected_left.take(count as int) =~= expected_left);
        let base_path = path_text(self.base_path_info.path);
        let relative = relative_names(self.current_path_info.path, self.base_path_info.path.len());
        let current_path = path_text(&relative);
        let base_len = base_path.as_str().unicode_len();
        let separator = if base_len > 0 && base_path.as_str().get_char(base_len - 1) == '/' { "" } else { "/" };
        assert(separator@ == (if base_path@.len() > 0 && base_path@.last() == '/' {
            Seq::<char>::empty()
        } else {
            seq!['/']
        }));
        let mut base_cell: Vec<CellSizeOpt> = Vec::new();
        base_cell.push(cell(base_path, None));
        assert(base_cell@.map_values(|c: CellSizeOpt| (c.content@, c.style)) =~= expected_right[0]);
        telescope.append_to_right_side(base_cell);
        assert(ways_view(telescope.right_side@) =~= expected_right.take(1));
        let mut right_count: usize = 1;
        if current_path.as_str().unicode_len() > 0 {
            let shown = concat(separator, current_path.as_str());
            let with_size = concat(concat(shown.as_str(), " (").as_str(), current_size);
            assert(current_path@.len() > 0);
            let mut path_cell: Vec<CellSizeOpt> = Vec::new();
            path_cell.push(cell(with_decimal(concat(with_size.as_str(), ", ").as_str(), self.current_path_info.num_descendants, " files)"), Some(green)));
            path_cell.push(cell(concat(with_size.as_str(), ")"), Some(green)));
            path_cell.push(cell(shown, Some(green)));
            assert(path_cell@.map_values(|c: CellSizeOpt| (c.content@, c.style)) =~= expected_right[1]);
            telescope.append_to_right_side(path_cell);
            right_count = 2;
            assert(ways_view(telescope.right_side@) =~= expected_right.take(2));
        }
        match self.zoom_level {
            Some(z) => {
                let mut zoom_cell: Vec<CellSizeOpt> = Vec::new();
                zoom_cell.push(cell(with_decimal(" (+", z as u64, " larger file(s), zoom out to show)"), Some(green)));
                zoom_cell.push(cell(with_decimal(" (+", z as u64, " larger file(s))"), Some(green)));
                assert(zoom_cell@.map_values(|c: CellSizeOpt| (c.content@, c.style)) =~= expected_right[right_count as int]);
                telescope.append_to_right_side(zoom_cell);
                assert(ways_view(telescope.right_side@) =~= expected_right.take(right_count as int + 1));
                right_count = right_count + 1;
            },
            None => {},
        }
        assert(expected_right.take(right_count as int) =~= expected_right);
        telescope.loading(self.show_loading, self.progress_indicator).path_error(self.path_error).size_flash(self.flash_space)
    }
}

fn area_has(area: Rect, x: u32, y: u32) -> (r: bool)
    ensures
        r == in_area((area.x, area.y, area.width, area.height), x as int, y as int),
{
    (area.x as u32) <= x && x < (area.x as u32) + (area.width as u32) && (area.y as u32) <= y
        && y < (area.y as u32) + (area.height as u32)
}

impl TitleTelescope {
    fn sides_well_formed(&self) -> (r: bool)
        ensures
            r == well_formed_sides(*self),
    {
        if self.left_side.len() == 0 || self.right_side.len() == 0 {
            return false;
        }
        let mut k: usize = 0;
        while k < self.left_side.len()
            invariant
                k <= self.left_side@.len(),
                forall|j: int| 0 <= j < k ==> (#[trigger] self.left_side@[j])@.len() >= 1,
            decreases self.left_side@.len() - k,
        {
            if self.left_side[k].len() == 0 {
                return false;
            }
            k = k + 1;
        }
        let mut k: usize = 0;
        while k < self.right_side.len()
            invariant
                k <= self.right_side@.len(),
                forall|j: int| 0 <= j < self.left_side@.len() ==> (#[trigger] self.left_side@[j])@.len() >= 1,
                forall|j: int| 0 <= j < k ==> (#[trigger] self.right_side@[j])@.len() >= 1,
            decreases self.right_side@.len() - k,
        {
            if self.right_side[k].len() == 0 {
                return false;
            }
            k = k + 1;
        }
        true
    }

    fn side_total(side: &Vec<Vec<CellSizeOpt>>, index: usize) -> (r: u128)
        requires
            forall|k: int| 0 <= k < side@.len() ==> (#[trigger] side@[k])@.len() >= 1,
        ensures
            r == contents_len(candidates(side@, index as int)),
    {
        let ghost all = candidates(side@, index as int);
        let mut total: u128 = 0;
        let mut k: usize = 0;
        while k < side.len()
            invariant
                k <= side@.len(),
                all == candidates(side@, index as int),
                forall|k: int| 0 <= k < side@.len() ==> (#[trigger] side@[k])@.len() >= 1,
                total == contents_len(all.take(k as int)),
                total <= k * 0x1_0000_0000_0000_0000,
            decreases side@.len() - k,
        {
            let cell = get_index_or_last(&side[k], index);
            proof {
                lemma_candidates_take(side@, index as int, k as int);
            }
            assert(k * 0x1_0000_0000_0000_0000 + 0x1_0000_0000_0000_0000 == (k + 1) * 0x1_0000_0000_0000_0000) by (nonlinear_arith);
            assert((k + 1) * 0x1_0000_0000_0000_0000 <= 0x1_0000_0000_0000_0000 * 0x1_0000_0000_0000_0000) by (nonlinear_arith)
                requires k < 0x1_0000_0000_0000_0000;
            total = total + cell.content.as_str().len() as u128;
            k = k + 1;
        }
        assert(all.take(side@.len() as int) =~= all);
        total
    }

    fn side_fits_exec(&self, area: Rect, left: bool, index: usize, start: u32, y: u32) -> (r: Option<u32>)
        requires
            well_formed_sides(*self),
        ensures
            match r {
                Some(end) => end == advance(start as int, candidates(if left { self.left_side@ } else { self.right_side@ }, index as int))
                    && side_fits_area((area.x, area.y, area.width, area.height), start as int, y as int,
                        candidates(if left { self.left_side@ } else { self.right_side@ }, index as int)),
                None => !side_fits_area((area.x, area.y, area.width, area.height), start as int, y as int,
                    candidates(if left { self.left_side@ } else { self.right_side@ }, index as int)),
            },
    {
        let side = if left { &self.left_side } else { &self.right_side };
        let ghost all = candidates(side@, index as int);
        let ghost a = (area.x, area.y, area.width, area.height);
        let mut pos: u32 = start;
        let mut k: usize = 0;
        proof { lemma_advance_prefix(start as int, all); }
        while k < side.len()
            invariant
                k <= side@.len(),
                side@ == (if left { self.left_side@ } else { self.right_side@ }),
                well_formed_sides(*self),
                all == candidates(side@, index as int),
                a == (area.x, area.y, area.width, area.height),
                pos == advance(start as int, all.take(k as int)),
                pos <= u16::MAX || k == 0,
                forall|j: int| 0 <= j <= all.len() ==> start <= #[trigger] advance(start as int, all.take(j)) <= advance(start as int, all),
                forall|j: int| 0 <= j < k ==> in_area(a, #[trigger] advance(start as int, all.take(j)), y as int),
            decreases side@.len() - k,
        {
            let cell = get_index_or_last(&side[k], index);
            proof {
                lemma_candidates_take(side@, index as int, k as int);
            }
            if !area_has(area, pos, y) {
                return None;
            }
            let next = pos as u64 + (cell.content.as_str().len() as u16) as u64;
            if next > 65535 {
                proof {
                    assert(advance(start as int, all.take(k as int + 1)) == next);
                }
                return None;
            }
            pos = next as u32;
            k = k + 1;
        }
        assert(all.take(side@.len() as int) =~= all);
        if pos > 65535 {
            return None;
        }
        Some(pos)
    }
}

/// The parts can be written from `start` on row `y` in the area given as
/// column, row, width and height: no column overflows and each part starts
/// in the area.
pub open spec fn side_fits_area(area: (u16, u16, u16, u16), start: int, y: int, cells: Seq<CellSizeOpt>) -> bool {
    &&& advance(start, cells) <= u16::MAX
    &&& forall|k: int| 0 <= k < cells.len() ==> in_area(area, #[trigger] advance(start, cells.take(k)), y)
}

impl TitleTelescope {
    fn pieces_fit_exec(&self, area: Rect, index: usize, start: u32, width: u16, y: u32) -> (r: Option<u32>)
        requires
            well_formed_sides(*self),
            1 <= self.right_side@.len() <= u16::MAX,
            start <= u16::MAX,
        ensures
            match r {
                Some(end) => end == pieces_end(candidates(self.right_side@, index as int), 0,
                    self.right_side@.len() as int, start as int, width)
                    && pieces_fit((area.x, area.y, area.width, area.height), candidates(self.right_side@, index as int), 0,
                    self.right_side@.len() as int, start as int, width, y as int),
                None => !pieces_fit((area.x, area.y, area.width, area.height), candidates(self.right_side@, index as int), 0,
                    self.right_side@.len() as int, start as int, width, y as int),
            },
    {
        let ghost all = candidates(self.right_side@, index as int);
        let ghost a = (area.x, area.y, area.width, area.height);
        let parts = self.right_side.len() as u16;
        let mut pos: u32 = start;
        let mut k: usize = 0;
        while k < self.right_side.len()
            invariant
                k <= self.right_side@.len(),
                well_formed_sides(*self),
                all == candidates(self.right_side@, index as int),
                parts == all.len(),
                1 <= all.len() == self.right_side@.len() <= u16::MAX,
                a == (area.x, area.y, area.width, area.height),
                pos <= u16::MAX,
                pieces_fit(a, all, 0, parts as int, start as int, width, y as int)
                    == pieces_fit(a, all, k as int, parts as int, pos as int, width, y as int),
                pieces_end(all, 0, parts as int, start as int, width)
                    == pieces_end(all, k as int, parts as int, pos as int, width),
            decreases self.right_side@.len() - k,
        {
            let cell = get_index_or_last(&self.right_side[k], index);
            assert(*cell == all[k as int]);
            if pos + 1 > width as u32 || !area_has(area, pos, y) {
                return None;
            }
            let room = width - 1 - pos as u16;
            let truncated = if k as u16 + 1 == parts {
                truncate_middle(cell.content.as_str(), room)
            } else {
                truncate_middle(cell.content.as_str(), room / parts)
            };
            assert(truncated@ == piece(all[k as int].content@, k as int, parts as int, pos as int, width));
            let next = pos + truncated.as_str().unicode_len() as u16 as u32;
            if next > 65535 {
                return None;
            }
            pos = next;
            k = k + 1;
        }
        Some(pos)
    }

    fn level_len_fits(&self, i: usize) -> (r: bool)
        requires
            well_formed_sides(*self),
        ensures
            r == (self.line_len(i as int) <= usize::MAX),
    {
        let left = TitleTelescope::side_total(&self.left_side, i);
        let right = TitleTelescope::side_total(&self.right_side, i);
        proof {
            lemma_contents_len_nonneg(candidates(self.left_side@, i as int));
            lemma_contents_len_nonneg(candidates(self.right_side@, i as int));
        }
        if left > usize::MAX as u128 || right > usize::MAX as u128 {
            return false;
        }
        left + right + 3 <= usize::MAX as u128
    }

    fn loading_fits_exec(&self, area: Rect, x: u16, y: u16, text_length: u32) -> (r: bool)
        ensures
            r == loading_fits_area((area.x, area.y, area.width, area.height), self.loading_indicator, x as int, y as int,
                text_length as int),
    {
        if text_length < 2 || text_length > 65535 || x as u32 + 1 + text_length + 2 > 65535 {
            return false;
        }
        let index = ((self.loading_indicator as u16) % (text_length as u16)) as u32;
        let x = x as u32;
        let y = y as u32;
        if !area_has(area, x + 1 + index, y) {
            return false;
        }
        if index >= text_length - 2 {
            area_has(area, x + 1, y) && area_has(area, x + 2, y)
        } else {
            area_has(area, x + 1 + index + 1, y) && area_has(area, x + 1 + index + 2, y)
        }
    }

    /// Whether `render` can draw the title in `rect`.
    pub fn can_render(&self, rect: Rect, buf: &Buffer) -> (r: bool)
        ensures
            r == (self.fits(rect, *buf) && self.right_side@.len() <= u16::MAX),
    {
        let area = buffer_rect(buf);
        if !buffer_is_sound(buf) || !self.sides_well_formed() || self.right_side.len() > 65535 {
            return false;
        }
        let levels = self.highest_collapse_count();
        let mut i: usize = 0;
        while i < levels
            invariant
                i <= levels,
                levels == self.levels(),
                well_formed_sides(*self),
                forall|j: int| 0 <= j < i ==> #[trigger] self.line_len(j) <= usize::MAX,
            decreases levels - i,
        {
            if !self.level_len_fits(i) {
                return false;
            }
            i = i + 1;
        }
        if !self.level_len_fits(levels) {
            return false;
        }
        assert forall|j: int| 0 <= j <= self.levels() implies #[trigger] self.line_len(j) <= usize::MAX by {
            if j < levels {
            }
        }
        if rect.x == 65535 {
            return false;
        }
        let start = rect.x as u32 + 1;
        let y = rect.y as u32;
        let (index, cut) = match self.choose_level(rect.width) {
            Some(i) => (i, false),
            None => (levels, true),
        };
        let pipe = match self.side_fits_exec(area, true, index, start, y) {
            Some(p) => p,
            None => return false,
        };
        if !area_has(area, pipe, y) || pipe + 3 > 65535 {
            return false;
        }
        let end = if cut {
            match self.pieces_fit_exec(area, index, pipe + 3, rect.width, y) {
                Some(e) => e,
                None => return false,
            }
        } else {
            match self.side_fits_exec(area, false, index, pipe + 3, y) {
                Some(e) => e,
                None => return false,
            }
        };
        if self.loading {
            if end < start {
                proof {
                    assert(!loading_fits_area((area.x, area.y, area.width, area.height), self.loading_indicator,
                        rect.x as int, y as int, end - start));
                }
                return false;
            }
            self.loading_fits_exec(area, rect.x, rect.y, end - start)
        } else {
            true
        }
    }
}

/// `t` holds the parts of a title: of the scanned folder at `base` and the
/// current one at `current` (both as names from the root), with their
/// descendant counts, the failures to read, the zoom level, the scanning
/// animation's place, the colours of the path and the space freed, the
/// sizes written out, and whether the process runs as the superuser.
pub open spec fn parts_built(
    t: TitleTelescope,
    show_loading: bool,
    base: Seq<Seq<char>>,
    base_descendants: u64,
    current: Seq<Seq<char>>,
    current_descendants: u64,
    read_errors: Option<u64>,
    zoom_level: Option<usize>,
    progress: u64,
    path_error: bool,
    flash: bool,
    total_size: Seq<char>,
    current_size: Seq<char>,
    space_freed: Seq<char>,
    as_root: bool,
) -> bool {
    &&& t.default_style == title_paint(show_loading)
    &&& ways_view(t.left_side@) == title_left(show_loading, total_size, base_descendants, space_freed, read_errors, as_root)
    &&& ways_view(t.right_side@) == title_right(
        show_loading,
        joined_path(base),
        joined_path(relative_path(current, base.len() as int)),
        current_size,
        current_descendants,
        zoom_level,
    )
    &&& t.loading == show_loading
    &&& t.loading_indicator == progress
    &&& t.path_error == path_error
    &&& t.size_flash == flash
}

impl<'a> TitleLine<'a> {
    /// `t` holds the title's parts, as `telescope` builds them.
    pub open spec fn built(&self, t: TitleTelescope, total_size: Seq<char>, current_size: Seq<char>, space_freed: Seq<char>, as_root: bool) -> bool {
        parts_built(
            t,
            self.show_loading,
            path_model(self.base_path_info.path@),
            self.base_path_info.num_descendants,
            path_model(self.current_path_info.path@),
            self.current_path_info.num_descendants,
            self.read_errors,
            self.zoom_level,
            self.progress_indicator,
            self.path_error,
            self.flash_space,
            total_size,
            current_size,
            space_freed,
            as_root,
        )
    }

    /// `r` tells whether the title was drawn, and `after` what `before`
    /// shows then: the title built of these parts where it can be written
    /// within the buffer, else nothing new.
    pub open spec fn drawn(
        &self,
        rect: Rect,
        before: Buffer,
        after: Buffer,
        total_size: Seq<char>,
        current_size: Seq<char>,
        space_freed: Seq<char>,
        as_root: bool,
        r: bool,
    ) -> bool {
        exists|t: TitleTelescope| #[trigger] self.built(t, total_size, current_size, space_freed, as_root)
            && r == (t.fits(rect, before) && t.right_side@.len() <= u16::MAX)
            && t.drawn_in(rect, before, after, r)
    }

    /// Draws the title on the first row of `rect`, with a caution when
    /// `as_root`; `false`, with nothing drawn, where the title's parts
    /// cannot be written within the buffer.
    pub fn render_as(&self, rect: Rect, buf: &mut Buffer, total_size: &str, current_size: &str, space_freed: &str, as_root: bool) -> (r: bool)
        ensures
            same_grid(*final(buf), *old(buf)),
            forall|c: (int, int)| (c.1 != rect.y || c.0 < rect.x + 1) ==> #[trigger] buffer_symbols(*final(buf))[c]
                == buffer_symbols(*old(buf))[c],
            !r ==> buffer_symbols(*final(buf)) == buffer_symbols(*old(buf)),
            !r ==> buffer_paints(*final(buf)) == buffer_paints(*old(buf)),
            self.drawn(rect, *old(buf), *final(buf), total_size@, current_size@, space_freed@, as_root, r),
    {
        let telescope = self.telescope(total_size, current_size, space_freed, as_root);
        let ghost before = *buf;
        let r = if telescope.can_render(rect, buf) {
            telescope.render(rect, buf);
            true
        } else {
            false
        };
        assert(self.built(telescope, total_size@, current_size@, space_freed@, as_root));
        r
    }

    /// Draws the title on the first row of `rect`, with a caution when the
    /// process runs as the superuser; `false`, with nothing drawn, where the
    /// title's parts cannot be written within the buffer.
    pub fn render(&self, rect: Rect, buf: &mut Buffer, total_size: &str, current_size: &str, space_freed: &str) -> (r: bool)
        ensures
            same_grid(*final(buf), *old(buf)),
            forall|c: (int, int)| (c.1 != rect.y || c.0 < rect.x + 1) ==> #[trigger] buffer_symbols(*final(buf))[c]
                == buffer_symbols(*old(buf))[c],
            !r ==> buffer_symbols(*final(buf)) == buffer_symbols(*old(buf)),
            exists|as_root: bool| self.drawn(rect, *old(buf), *final(buf), total_size@, current_size@, space_freed@, as_root, r),
    {
        let as_root = is_user_admin();
        self.render_as(rect, buf, total_size, current_size, space_freed, as_root)
    }
}

} // verus!
