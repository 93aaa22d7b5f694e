use vstd::prelude::*;
use tui::buffer::Buffer;
use tui::layout::{Constraint, Direction, Layout, Rect as TuiRect};
use crate::app_state::App;
use crate::board::{Rect, Tile};
use crate::bottom_line::{
    BottomLine, bottom_line_drawable, bottom_line_fits, bottom_line_paints, bottom_line_shows, controls_line, status_line,
    status_paint,
};
use crate::controls::UiMode;
use crate::file_tree::FileType;
use crate::files::path_model;
use crate::grid::{
    Paint, buffer_area, buffer_paints, buffer_symbols, draw_rectangle_grid, grid_drawable, grid_fits, grid_paints, grid_shows,
    outline_drawable, same_grid, tile_text_drawable, tiles_paint, tiles_show,
};
use crate::layout::FolderInfo;
use crate::modals::{
    ConfirmBox, ErrorBox, MessageBox, TermTooSmall, WarningBox, confirm_paints, confirm_shows, error_drawable,
    error_paints, error_shows, message_paints, message_shows, modal_box_rect, modal_drawable, modal_fits, modal_rect,
    prompt_drawable, prompt_fits, too_small_drawable, too_small_fits, too_small_paints, too_small_shows, warning_paints,
    warning_shows,
};
use crate::title::{TitleLine, TitleTelescope, emboldened, parts_built};
use vstd::utf8::{encode_utf8, is_char_boundary};

verus! {

/// What holds of the three rows `tui`'s `Layout` splits the screen `full`
/// into (title, tiles, bottom line): each spans the screen's columns; the
/// first starts at the screen's top, the second right below it, the last
/// ends at the screen's bottom and none reaches past it; on a screen of
/// three rows or more the second ends where the last starts, so the rows
/// fill the screen. How the rows share the height is left open.
pub open spec fn screen_rows(full: Rect, rows: (Rect, Rect, Rect)) -> bool {
    let bottom = full.y + full.height;
    &&& rows.0.x == full.x && rows.1.x == full.x && rows.2.x == full.x
    &&& rows.0.width == full.width && rows.1.width == full.width && rows.2.width == full.width
    &&& rows.0.y == full.y
    &&& rows.1.y == rows.0.y + rows.0.height
    &&& rows.1.y + rows.1.height <= bottom
    &&& rows.2.y + rows.2.height == bottom
    &&& full.height >= 3 ==> rows.2.y == rows.1.y + rows.1.height
}

/// `Layout::split` of `tui`, vertical, without margin, with the
/// constraints `Length(1)`, `Min(10)` and `Length(2)`. The solver's
/// required constraints fix each row's column and width, chain the rows
/// from the top and end the last at the bottom; `tui` turns a negative
/// height into 0 and stretches the last row to the bottom. Which of the
/// equally good splits the solver picks depends on the order in which it
/// walks its hash maps, so how the height is shared is not stated. The
/// edges must stay in the range of `u16`, which `tui` computes them in.
#[verifier::external_body]
fn split_screen(full: Rect) -> (r: (Rect, Rect, Rect))
    requires
        full.x + full.width <= u16::MAX,
        full.y + full.height <= u16::MAX,
    ensures
        screen_rows(full, r),
{
    let Rect { x, y, width, height } = full;
    let c = Layout::default().direction(Direction::Vertical).margin(0).constraints(
        [Constraint::Length(1), Constraint::Min(10), Constraint::Length(2)],
    ).split(TuiRect { x, y, width, height });
    (
        Rect { x: c[0].x, y: c[0].y, width: c[0].width, height: c[0].height },
        Rect { x: c[1].x, y: c[1].y, width: c[1].width, height: c[1].height },
        Rect { x: c[2].x, y: c[2].y, width: c[2].width, height: c[2].height },
    )
}

/// The area the tiles are laid out in, given the screen's middle row: the
/// row one column narrower and one row lower, so that the tiles' right and
/// bottom edges fall inside it; none when the row is empty.
pub open spec fn tiles_area(middle: Rect) -> Option<Rect> {
    if middle.width >= 1 && middle.height >= 1 {
        Some(Rect { x: middle.x, y: middle.y, width: (middle.width - 1) as u16, height: (middle.height - 1) as u16 })
    } else {
        None
    }
}

/// The area the tiles are laid out in when the screen's middle row is
/// `middle`.
pub fn board_area_in(middle: Rect) -> (r: Option<Rect>)
    ensures
        r == tiles_area(middle),
{
    if middle.width >= 1 && middle.height >= 1 {
        Some(Rect { x: middle.x, y: middle.y, width: middle.width - 1, height: middle.height - 1 })
    } else {
        None
    }
}

/// The area the tiles are laid out in on a screen of `full`, in the middle
/// row `tui` gives it.
pub fn board_area(full: Rect) -> (r: Option<Rect>)
    requires
        full.x + full.width <= u16::MAX,
        full.y + full.height <= u16::MAX,
    ensures
        exists|rows: (Rect, Rect, Rect)| screen_rows(full, rows) && r == tiles_area(rows.1),
{
    let rows = split_screen(full);
    board_area_in(rows.1)
}

/// Sizes written out for the screen: the scanned folder's total, the
/// current folder's, the space freed, the selected entry's, and each tile's
/// size in full and rounded.
pub struct SizeTexts {
    pub total: String,
    pub current: String,
    pub freed: String,
    pub selected: String,
    pub tiles: Vec<(String, String)>,
}

/// The parts of the title the screen of `app` shows, with `as_root`
/// telling whether the process runs as the superuser.
pub open spec fn screen_title(app: App, t: TitleTelescope, texts: SizeTexts, as_root: bool) -> bool {
    let loading = app.ui_mode is Loading;
    let flash = (app.ui_mode is Normal || app.ui_mode is ErrorMessage) && app.ui_effects.flash_space_freed;
    let base = path_model(app.file_tree.path_in_filesystem@);
    parts_built(
        t,
        loading,
        base,
        app.file_tree.base().num_descendants as u64,
        base + app.file_tree.current_names(),
        app.file_tree.current().num_descendants as u64,
        if app.file_tree.failed_to_read > 0 { Some(app.file_tree.failed_to_read) } else { None },
        if app.board.zoom_level > 0 { Some(app.board.zoom_level) } else { None },
        if loading { app.ui_effects.loading_progress_indicator } else { 0 },
        app.ui_effects.current_path_is_red,
        flash,
        texts.total@,
        texts.current@,
        texts.freed@,
        as_root,
    )
}

/// The title `t` can be drawn on the screen's first row.
pub open spec fn title_ok(t: TitleTelescope, rows: (Rect, Rect, Rect), b: Buffer) -> bool {
    t.fits(rows.0, b) && t.right_side@.len() <= u16::MAX
}

/// The tiles can be drawn in their area.
pub open spec fn grid_ok(app: App, rows: (Rect, Rect, Rect), texts: SizeTexts, b: Buffer) -> bool {
    match tiles_area(rows.1) {
        Some(area) => grid_drawable(b, area, app.board.tiles@, app.board.unrenderable_tile_coordinates, texts.tiles@),
        None => false,
    }
}

/// The status line of the screen: the selected entry, or while scanning
/// the path last read.
pub open spec fn screen_status(app: App, rows: (Rect, Rect, Rect), texts: SizeTexts) -> Option<Seq<char>> {
    let read = if app.ui_mode is Loading {
        match app.ui_effects.last_read_path {
            Some(p) => Some(p@),
            None => None,
        }
    } else {
        None
    };
    status_line(app.board.selected_tile(), read, texts.selected@, (rows.2.width - 17) as u16)
}

/// The bottom line can be drawn on the screen's last two rows.
pub open spec fn bottom_ok(app: App, rows: (Rect, Rect, Rect), b: Buffer) -> bool {
    &&& app.board.selected_tile() matches Some(t) ==> !(t.file_type == FileType::Folder && t.descendants is None)
    &&& bottom_line_fits(b, rows.2)
}

/// The message of the mode can be drawn over the screen.
pub open spec fn box_ok(app: App, full: Rect, b: Buffer) -> bool {
    let r = modal_rect(full);
    match app.ui_mode {
        UiMode::DeleteFile(f) => full.width > 50 && modal_fits(b, full) && prompt_fits(f, r),
        UiMode::ErrorMessage(m) => full.width > 50 && modal_fits(b, full) && (m@.len() > r.width - 4
            ==> r.width - 4 >= 3 && is_char_boundary(encode_utf8(m@), r.width - 4 - 3)),
        UiMode::Exiting | UiMode::WarningMessage => modal_fits(b, full),
        _ => true,
    }
}

/// Every part of the screen of `app` can be drawn: the title `t`, the
/// tiles, the bottom line, and the message of the mode (which a screen
/// narrower than fifty columns has no room for).
pub open spec fn screen_complete(app: App, full: Rect, rows: (Rect, Rect, Rect), texts: SizeTexts, t: TitleTelescope, b: Buffer) -> bool {
    &&& title_ok(t, rows, b)
    &&& grid_ok(app, rows, texts, b)
    &&& bottom_ok(app, rows, b)
    &&& if full.width < 50 { app.ui_mode is Loading || app.ui_mode is Normal } else { box_ok(app, full, b) }
}

/// What cell `c` of `b`, showing `under`, shows once the message of the
/// mode of `app` is drawn over the screen.
pub open spec fn box_shows(app: App, full: Rect, b: Buffer, c: (int, int), under: Seq<char>) -> Seq<char> {
    match app.ui_mode {
        UiMode::DeleteFile(f) => message_shows(b, full, f, app.ui_effects.deletion_in_progress, c, under),
        UiMode::ErrorMessage(m) => error_shows(b, full, m@, c, under),
        UiMode::Exiting => confirm_shows(b, full, c, under),
        UiMode::WarningMessage => warning_shows(b, full, c, under),
        _ => under,
    }
}

/// How cell `c` of `b`, drawn in `under`, is drawn once the message of
/// the mode of `app` is drawn over the screen.
pub open spec fn box_paints(app: App, full: Rect, b: Buffer, c: (int, int), under: Option<Paint>) -> Option<Paint> {
    match app.ui_mode {
        UiMode::DeleteFile(f) => message_paints(b, full, f, app.ui_effects.deletion_in_progress, c, under),
        UiMode::ErrorMessage(m) => error_paints(b, full, m@, c, under),
        UiMode::Exiting => confirm_paints(b, full, c, under),
        UiMode::WarningMessage => warning_paints(b, full, c, under),
        _ => under,
    }
}

/// How cell `c` of `b`, drawn in `under` once the title is drawn, is drawn
/// once the tiles, the bottom line and the message of the mode of `app`
/// are drawn over it, each where it can be drawn.
pub open spec fn later_paints(app: App, full: Rect, rows: (Rect, Rect, Rect), texts: SizeTexts, b: Buffer, c: (int, int), under: Option<Paint>) -> Option<Paint> {
    let (_, _, bottom_rect) = rows;
    let tiled = match tiles_area(rows.1) {
        Some(area) => if grid_ok(app, rows, texts, b) {
            grid_paints(
                b,
                area,
                app.board.tiles@,
                app.board.unrenderable_tile_coordinates,
                app.board.selected_index,
                texts.tiles@,
                c,
                under,
            )
        } else {
            under
        },
        None => under,
    };
    let keys = controls_line(app.ui_mode is Loading, bottom_rect.width);
    let bottomed = if bottom_ok(app, rows, b) {
        bottom_line_paints(b, bottom_rect, screen_status(app, rows, texts), status_paint(app.board.selected_tile()), keys, c, tiled)
    } else {
        tiled
    };
    if full.width < 50 || !box_ok(app, full, b) {
        bottomed
    } else {
        box_paints(app, full, b, c, bottomed)
    }
}

/// What cell `c` of `b` shows once the screen of `app` is drawn: the title
/// `t`, the tiles, the bottom line and the message of the mode, in this
/// order, each where it can be drawn.
pub open spec fn screen_shows(app: App, full: Rect, rows: (Rect, Rect, Rect), texts: SizeTexts, t: TitleTelescope, b: Buffer, c: (int, int)) -> Seq<char> {
    let (title_rect, _, bottom_rect) = rows;
    let s0 = buffer_symbols(b)[c];
    let s1 = if title_ok(t, rows, b) { t.shows(b, title_rect, c, s0) } else { s0 };
    let s2 = match tiles_area(rows.1) {
        Some(area) => if grid_ok(app, rows, texts, b) {
            grid_shows(
                b,
                area,
                app.board.tiles@,
                app.board.unrenderable_tile_coordinates,
                app.board.selected_index,
                texts.tiles@,
                c,
                s1,
            )
        } else {
            s1
        },
        None => s1,
    };
    let keys = controls_line(app.ui_mode is Loading, bottom_rect.width);
    let s3 = if bottom_ok(app, rows, b) {
        bottom_line_shows(b, bottom_rect, screen_status(app, rows, texts), keys, c, s2)
    } else {
        s2
    };
    if full.width < 50 || !box_ok(app, full, b) {
        s3
    } else {
        box_shows(app, full, b, c, s3)
    }
}

proof fn lemma_tiles_show_same_area(
    b1: Buffer,
    b2: Buffer,
    tiles: Seq<Tile>,
    texts: Seq<(String, String)>,
    selected: Option<usize>,
    n: int,
    c: (int, int),
    under: Seq<char>,
)
    requires
        buffer_area(b1) == buffer_area(b2),
    ensures
        tiles_show(b1, tiles, texts, selected, n, c, under) == tiles_show(b2, tiles, texts, selected, n, c, under),
    decreases n,
{
    if n > 0 {
        lemma_tiles_show_same_area(b1, b2, tiles, texts, selected, n - 1, c, under);
    }
}

proof fn lemma_tiles_paint_same_area(
    b1: Buffer,
    b2: Buffer,
    tiles: Seq<Tile>,
    texts: Seq<(String, String)>,
    selected: Option<usize>,
    n: int,
    c: (int, int),
    under: Option<Paint>,
)
    requires
        buffer_area(b1) == buffer_area(b2),
    ensures
        tiles_paint(b1, tiles, texts, selected, n, c, under) == tiles_paint(b2, tiles, texts, selected, n, c, under),
    decreases n,
{
    if n > 0 {
        lemma_tiles_paint_same_area(b1, b2, tiles, texts, selected, n - 1, c, under);
    }
}

proof fn lemma_grid_same_area(b1: Buffer, b2: Buffer, app: App, rows: (Rect, Rect, Rect), texts: SizeTexts)
    requires
        same_grid(b1, b2),
    ensures
        grid_ok(app, rows, texts, b1) == grid_ok(app, rows, texts, b2),
        forall|area: Rect, c: (int, int), under: Seq<char>| #[trigger] grid_shows(
            b1,
            area,
            app.board.tiles@,
            app.board.unrenderable_tile_coordinates,
            app.board.selected_index,
            texts.tiles@,
            c,
            under,
        ) == grid_shows(
            b2,
            area,
            app.board.tiles@,
            app.board.unrenderable_tile_coordinates,
            app.board.selected_index,
            texts.tiles@,
            c,
            under,
        ),
        forall|area: Rect, c: (int, int), under: Option<Paint>| #[trigger] grid_paints(
            b1,
            area,
            app.board.tiles@,
            app.board.unrenderable_tile_coordinates,
            app.board.selected_index,
            texts.tiles@,
            c,
            under,
        ) == grid_paints(
            b2,
            area,
            app.board.tiles@,
            app.board.unrenderable_tile_coordinates,
            app.board.selected_index,
            texts.tiles@,
            c,
            under,
        ),
{
    assert forall|area: Rect, c: (int, int), under: Option<Paint>| #[trigger] grid_paints(
        b1,
        area,
        app.board.tiles@,
        app.board.unrenderable_tile_coordinates,
        app.board.selected_index,
        texts.tiles@,
        c,
        under,
    ) == grid_paints(
        b2,
        area,
        app.board.tiles@,
        app.board.unrenderable_tile_coordinates,
        app.board.selected_index,
        texts.tiles@,
        c,
        under,
    ) by {
        lemma_tiles_paint_same_area(b1, b2, app.board.tiles@, texts.tiles@, app.board.selected_index,
            app.board.tiles@.len() as int, c, under);
    }
    assert forall|area: Rect, c: (int, int), under: Seq<char>| #[trigger] grid_shows(
        b1,
        area,
        app.board.tiles@,
        app.board.unrenderable_tile_coordinates,
        app.board.selected_index,
        texts.tiles@,
        c,
        under,
    ) == grid_shows(
        b2,
        area,
        app.board.tiles@,
        app.board.unrenderable_tile_coordinates,
        app.board.selected_index,
        texts.tiles@,
        c,
        under,
    ) by {
        lemma_tiles_show_same_area(b1, b2, app.board.tiles@, texts.tiles@, app.board.selected_index,
            app.board.tiles@.len() as int, c, under);
    }
    match tiles_area(rows.1) {
        Some(area) => {
            let tiles = app.board.tiles@;
            let sf = app.board.unrenderable_tile_coordinates;
            if grid_drawable(b1, area, tiles, sf, texts.tiles@) {
                assert forall|i: int| 0 <= i < tiles.len() implies {
                    &&& tile_text_drawable(b2, #[trigger] tiles[i], texts.tiles@[i].0@, texts.tiles@[i].1@)
                    &&& outline_drawable(b2, tiles[i].x as int, tiles[i].y as int, tiles[i].width as int, tiles[i].height as int)
                } by {
                    assert(tile_text_drawable(b1, tiles[i], texts.tiles@[i].0@, texts.tiles@[i].1@));
                }
            }
            if grid_drawable(b2, area, tiles, sf, texts.tiles@) {
                assert forall|i: int| 0 <= i < tiles.len() implies {
                    &&& tile_text_drawable(b1, #[trigger] tiles[i], texts.tiles@[i].0@, texts.tiles@[i].1@)
                    &&& outline_drawable(b1, tiles[i].x as int, tiles[i].y as int, tiles[i].width as int, tiles[i].height as int)
                } by {
                    assert(tile_text_drawable(b2, tiles[i], texts.tiles@[i].0@, texts.tiles@[i].1@));
                }
            }
        },
        None => {},
    }
}

/// Draws the title of `app` on the screen's first row; `false`, with
/// nothing drawn, where it cannot be written within the buffer.
fn draw_title_part(app: &App, rows: (Rect, Rect, Rect), buf: &mut Buffer, texts: &SizeTexts) -> (r: bool)
    requires
        app.wf(),
    ensures
        same_grid(*final(buf), *old(buf)),
        exists|t: TitleTelescope, as_root: bool| screen_title(*app, t, *texts, as_root)
            && r == title_ok(t, rows, *old(buf))
            && t.drawn_in(rows.0, *old(buf), *final(buf), r),
{
    let title_rect = rows.0;
    let current_path = app.file_tree.get_current_path();
    let base_info = FolderInfo {
        path: &app.file_tree.path_in_filesystem,
        size: app.file_tree.get_total_size(),
        num_descendants: app.file_tree.get_total_descendants(),
    };
    let current_info = FolderInfo {
        path: &current_path,
        size: app.file_tree.get_current_folder_size(),
        num_descendants: app.file_tree.get_current_folder().num_descendants,
    };
    let loading = match app.ui_mode {
        UiMode::Loading => true,
        _ => false,
    };
    let flash = match app.ui_mode {
        UiMode::Normal | UiMode::ErrorMessage(_) => app.ui_effects.flash_space_freed,
        _ => false,
    };
    let mut title = TitleLine::new(base_info, current_info, app.file_tree.space_freed)
        .path_error(app.ui_effects.current_path_is_red)
        .flash_space(flash)
        .read_errors(app.file_tree.failed_to_read)
        .zoom_level(app.board.zoom_level);
    if loading {
        title = title.progress_indicator(app.ui_effects.loading_progress_indicator).show_loading();
    }
    let r = title.render(title_rect, buf, texts.total.as_str(), texts.current.as_str(), texts.freed.as_str());
    proof {
        let as_root = choose|a: bool| title.drawn(title_rect, *old(buf), *buf, texts.total@, texts.current@, texts.freed@, a, r);
        let t = choose|t: TitleTelescope| #[trigger] title.built(t, texts.total@, texts.current@, texts.freed@, as_root)
            && r == (t.fits(title_rect, *old(buf)) && t.right_side@.len() <= u16::MAX)
            && t.drawn_in(title_rect, *old(buf), *buf, r);
        assert(path_model(app.file_tree.path_in_filesystem@).len() == app.file_tree.path_in_filesystem@.len());
        assert(screen_title(*app, t, *texts, as_root));
    }
    r
}

/// Draws the tiles of `app` in their area; `false`, with nothing drawn,
/// where they cannot be drawn within the buffer.
fn draw_tiles_part(app: &App, rows: (Rect, Rect, Rect), buf: &mut Buffer, texts: &SizeTexts) -> (r: bool)
    ensures
        same_grid(*final(buf), *old(buf)),
        r == grid_ok(*app, rows, *texts, *old(buf)),
        forall|c: (int, int)| #[trigger] buffer_symbols(*final(buf))[c] == match tiles_area(rows.1) {
            Some(area) => if r {
                grid_shows(*old(buf), area, app.board.tiles@, app.board.unrenderable_tile_coordinates,
                    app.board.selected_index, texts.tiles@, c, buffer_symbols(*old(buf))[c])
            } else {
                buffer_symbols(*old(buf))[c]
            },
            None => buffer_symbols(*old(buf))[c],
        },
        forall|c: (int, int)| #[trigger] buffer_paints(*final(buf))[c] == match tiles_area(rows.1) {
            Some(area) => if r {
                grid_paints(*old(buf), area, app.board.tiles@, app.board.unrenderable_tile_coordinates,
                    app.board.selected_index, texts.tiles@, c, buffer_paints(*old(buf))[c])
            } else {
                buffer_paints(*old(buf))[c]
            },
            None => buffer_paints(*old(buf))[c],
        },
{
    match board_area_in(rows.1) {
        Some(area) => {
            if grid_fits(buf, area, &app.board.tiles, app.board.unrenderable_tile_coordinates, &texts.tiles) {
                draw_rectangle_grid(
                    buf,
                    area,
                    &app.board.tiles,
                    app.board.unrenderable_tile_coordinates,
                    app.board.selected_index,
                    &texts.tiles,
                );
                true
            } else {
                false
            }
        },
        None => false,
    }
}

/// Draws the bottom line of `app` on the screen's last two rows; `false`,
/// with nothing drawn, where it cannot be drawn within the buffer.
fn draw_bottom_part(app: &App, rows: (Rect, Rect, Rect), buf: &mut Buffer, texts: &SizeTexts) -> (r: bool)
    ensures
        same_grid(*final(buf), *old(buf)),
        r == bottom_ok(*app, rows, *old(buf)),
        forall|c: (int, int)| #[trigger] buffer_symbols(*final(buf))[c] == if r {
            bottom_line_shows(*old(buf), rows.2, screen_status(*app, rows, *texts),
                controls_line(app.ui_mode is Loading, rows.2.width), c, buffer_symbols(*old(buf))[c])
        } else {
            buffer_symbols(*old(buf))[c]
        },
        forall|c: (int, int)| #[trigger] buffer_paints(*final(buf))[c] == if r {
            bottom_line_paints(*old(buf), rows.2, screen_status(*app, rows, *texts),
                status_paint(app.board.selected_tile()), controls_line(app.ui_mode is Loading, rows.2.width), c,
                buffer_paints(*old(buf))[c])
        } else {
            buffer_paints(*old(buf))[c]
        },
{
    let bottom_rect = rows.2;
    let loading = match app.ui_mode {
        UiMode::Loading => true,
        _ => false,
    };
    let selected = app.board.currently_selected();
    let selected_ok = match selected {
        Some(t) => !(t.file_type == FileType::Folder && t.descendants.is_none()),
        None => true,
    };
    let mut bottom = BottomLine::new().currently_selected(selected);
    if loading {
        bottom = bottom.last_read_path(app.ui_effects.last_read_path.as_ref()).hide_delete();
    }
    if selected_ok && bottom_line_drawable(buf, bottom_rect) {
        bottom.draw(bottom_rect, buf, texts.selected.as_str());
        true
    } else {
        false
    }
}

/// Draws the prompt or message of the mode of `app` over a screen fifty
/// columns wide or more; `false`, with nothing drawn, where it cannot be
/// drawn within the buffer.
fn draw_box_part(app: &App, full: Rect, buf: &mut Buffer) -> (r: bool)
    requires
        full.width >= 50,
    ensures
        same_grid(*final(buf), *old(buf)),
        r == box_ok(*app, full, *old(buf)),
        forall|c: (int, int)| #[trigger] buffer_symbols(*final(buf))[c] == if r {
            box_shows(*app, full, *old(buf), c, buffer_symbols(*old(buf))[c])
        } else {
            buffer_symbols(*old(buf))[c]
        },
        forall|c: (int, int)| #[trigger] buffer_paints(*final(buf))[c] == if r {
            box_paints(*app, full, *old(buf), c, buffer_paints(*old(buf))[c])
        } else {
            buffer_paints(*old(buf))[c]
        },
{
    match &app.ui_mode {
        UiMode::DeleteFile(f) => {
            if full.width > 50 && modal_drawable(buf, full) && prompt_drawable(f, modal_box_rect(&full)) {
                MessageBox::new(f, app.ui_effects.deletion_in_progress).draw(full, buf);
                true
            } else {
                false
            }
        },
        UiMode::ErrorMessage(message) => {
            if full.width > 50 && modal_drawable(buf, full) && error_drawable(message.as_str(), modal_box_rect(&full)) {
                ErrorBox::new(message.as_str()).draw(full, buf);
                true
            } else {
                false
            }
        },
        UiMode::Exiting => {
            if modal_drawable(buf, full) {
                ConfirmBox::new().draw(full, buf);
                true
            } else {
                false
            }
        },
        UiMode::WarningMessage => {
            if modal_drawable(buf, full) {
                WarningBox::new().draw(full, buf);
                true
            } else {
                false
            }
        },
        _ => true,
    }
}

/// How cell `c` of `b` is drawn once the screen of `app` is drawn, the
/// scanning animation of the title `t` aside.
pub open spec fn screen_paints(app: App, full: Rect, rows: (Rect, Rect, Rect), texts: SizeTexts, t: TitleTelescope, b: Buffer, c: (int, int)) -> Option<Paint> {
    let p0 = buffer_paints(b)[c];
    later_paints(app, full, rows, texts, b, c, if title_ok(t, rows, b) { t.paints(b, rows.0, c, p0) } else { p0 })
}

/// The cell is one the title's scanning animation makes bold.
pub open spec fn title_animated(t: TitleTelescope, rows: (Rect, Rect, Rect), b: Buffer, c: (int, int)) -> bool {
    title_ok(t, rows, b) && t.animated(rows.0, c)
}

/// What drawing the screen of `app` on `full`, split into `rows`, does to
/// buffer `before`, giving `after` and `r`: the notice alone when the
/// terminal is too small; else the title, the tiles and the bottom line,
/// with the prompt or message of the mode over them, each where it can be
/// drawn, `r` telling whether every part was.
pub open spec fn screen_drawn(
    app: App,
    full: Rect,
    rows: (Rect, Rect, Rect),
    texts: SizeTexts,
    before: Buffer,
    after: Buffer,
    r: bool,
) -> bool {
    &&& same_grid(after, before)
    &&& app.ui_mode is ScreenTooSmall ==> r == too_small_fits(before, full)
    &&& app.ui_mode is ScreenTooSmall ==> forall|c: (int, int)| #[trigger] buffer_symbols(after)[c] == if r {
        too_small_shows(before, full, c, buffer_symbols(before)[c])
    } else {
        buffer_symbols(before)[c]
    }
    &&& app.ui_mode is ScreenTooSmall ==> forall|c: (int, int)| #[trigger] buffer_paints(after)[c] == if r {
        too_small_paints(before, full, c, buffer_paints(before)[c])
    } else {
        buffer_paints(before)[c]
    }
    &&& !(app.ui_mode is ScreenTooSmall) ==> exists|t: TitleTelescope, as_root: bool| screen_title(app, t, texts, as_root)
        && r == screen_complete(app, full, rows, texts, t, before)
        && (forall|c: (int, int)| #[trigger] buffer_symbols(after)[c] == screen_shows(app, full, rows, texts, t, before, c))
        && (forall|c: (int, int)| !title_animated(t, rows, before, c) ==> #[trigger] buffer_paints(after)[c]
            == screen_paints(app, full, rows, texts, t, before, c))
        && (forall|c: (int, int)| title_animated(t, rows, before, c) ==> (t.paints(before, rows.0, c,
            buffer_paints(before)[c]) matches Some(p) ==> #[trigger] buffer_paints(after)[c]
            == later_paints(app, full, rows, texts, before, c, Some(emboldened(p)))))
}

/// Draws the screen of the application on `full`, split into the title
/// row, the tiles' rows and the bottom rows `rows`: the title, the tiles
/// and the bottom line, with the prompt or message of the mode over them;
/// a notice alone when the terminal is too small. `false` when a part
/// could not be drawn within the buffer (that part is left out).
#[verifier::rlimit(50)]
pub fn draw_screen_in(app: &App, full: Rect, rows: (Rect, Rect, Rect), buf: &mut Buffer, texts: &SizeTexts) -> (r: bool)
    requires
        app.wf(),
    ensures
        screen_drawn(*app, full, rows, *texts, *old(buf), *final(buf), r),
{
    if let UiMode::ScreenTooSmall = app.ui_mode {
        if too_small_drawable(buf, full) {
            TermTooSmall::new().draw(full, buf);
            return true;
        }
        return false;
    }
    let ghost b0 = *buf;
    let title_drawn = draw_title_part(app, rows, buf, texts);
    let ghost b1 = *buf;
    let tiles_drawn = draw_tiles_part(app, rows, buf, texts);
    let ghost b2 = *buf;
    let bottom_drawn = draw_bottom_part(app, rows, buf, texts);
    let ghost b3 = *buf;
    let complete = title_drawn && tiles_drawn && bottom_drawn;
    let r = if full.width < 50 {
        match app.ui_mode {
            UiMode::Loading | UiMode::Normal => complete,
            _ => false,
        }
    } else {
        let box_drawn = draw_box_part(app, full, buf);
        complete && box_drawn
    };
    proof {
        let (t, as_root) = choose|t: TitleTelescope, as_root: bool| screen_title(*app, t, *texts, as_root)
            && title_drawn == title_ok(t, rows, b0)
            && t.drawn_in(rows.0, b0, b1, title_drawn);
        lemma_grid_same_area(b1, b0, *app, rows, *texts);
        assert(bottom_ok(*app, rows, b2) == bottom_ok(*app, rows, b0));
        assert(box_ok(*app, full, b3) == box_ok(*app, full, b0));
        assert(r == screen_complete(*app, full, rows, *texts, t, b0));
        assert forall|c: (int, int)| !title_animated(t, rows, b0, c) implies #[trigger] buffer_paints(*buf)[c]
            == screen_paints(*app, full, rows, *texts, t, b0, c) by {
            assert(buffer_paints(b1)[c] == if title_drawn {
                t.paints(b0, rows.0, c, buffer_paints(b0)[c])
            } else {
                buffer_paints(b0)[c]
            });
        }
        assert forall|c: (int, int)| title_animated(t, rows, b0, c) implies (t.paints(b0, rows.0, c,
            buffer_paints(b0)[c]) matches Some(p) ==> #[trigger] buffer_paints(*buf)[c]
            == later_paints(*app, full, rows, *texts, b0, c, Some(emboldened(p)))) by {
            assert(buffer_paints(*buf)[c] == later_paints(*app, full, rows, *texts, b0, c, buffer_paints(b1)[c]));
        }
        assert forall|c: (int, int)| #[trigger] buffer_symbols(*buf)[c] == screen_shows(*app, full, rows, *texts, t, b0, c) by {
            assert(buffer_symbols(b1)[c] == if title_drawn {
                t.shows(b0, rows.0, c, buffer_symbols(b0)[c])
            } else {
                buffer_symbols(b0)[c]
            });
        }
    }
    r
}

/// Draws the screen of the application on `full`, split into rows by
/// `tui`'s `Layout` (see `screen_rows`): the title, the tiles and the
/// bottom line, with the prompt or message of the mode over them; a notice
/// alone when the terminal is too small. `false` when a part could not be
/// drawn within the buffer (that part is left out).
pub fn draw_screen(app: &App, full: Rect, buf: &mut Buffer, texts: &SizeTexts) -> (r: bool)
    requires
        app.wf(),
        full.x + full.width <= u16::MAX,
        full.y + full.height <= u16::MAX,
    ensures
        exists|rows: (Rect, Rect, Rect)| screen_rows(full, rows)
            && screen_drawn(*app, full, rows, *texts, *old(buf), *final(buf), r),
{
    let rows = split_screen(full);
    draw_screen_in(app, full, rows, buf, texts)
}

} // verus!
