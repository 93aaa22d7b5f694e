use diskonaut::app_state::{App, Instruction};
use diskonaut::board::{Rect, Tile};
use diskonaut::controls::{Action, UiMode};
use diskonaut::display::{board_area, draw_screen, SizeTexts};
use tui::buffer::Buffer;
use tui::layout::Rect as TuiRect;

fn path(parts: &[&str]) -> Vec<String> {
    parts.iter().map(|p| p.to_string()).collect()
}

fn row(buf: &Buffer, y: u16) -> String {
    (0..buf.area.width).map(|x| buf.get(x, y).symbol.clone()).collect()
}

fn app() -> App {
    let mut app = App::new(path(&["/", "data"]));
    app.handle_instruction(Instruction::AddEntryToBaseFolder(true, 0, path(&["/", "data", "big"])));
    app.handle_instruction(Instruction::AddEntryToBaseFolder(false, 4, path(&["/", "data", "big", "x"])));
    app.handle_instruction(Instruction::AddEntryToBaseFolder(false, 2, path(&["/", "data", "small"])));
    app.handle_instruction(Instruction::StartUi);
    app
}

fn texts(app: &App) -> SizeTexts {
    SizeTexts {
        total: "3.0K".to_string(),
        current: "3.0K".to_string(),
        freed: "0".to_string(),
        selected: "2.0K".to_string(),
        tiles: app.board.tiles.iter().map(|_| ("2.0K".to_string(), "2K".to_string())).collect(),
    }
}

fn lay_out(app: &mut App, area: Rect) {
    let half = area.width / 2;
    let tiles: Vec<Tile> = app
        .board
        .files
        .iter()
        .enumerate()
        .map(|(i, f)| Tile {
            x: area.x + (i as u16) * half,
            y: area.y,
            width: half,
            height: area.height,
            name: f.name.clone(),
            size: f.size,
            descendants: f.descendants,
            percentage: f.percentage,
            file_type: f.file_type,
        })
        .collect();
    app.board.change_area(&area);
    app.board.set_tiles(tiles, None);
}

#[test]
fn the_tiles_area_leaves_room_for_title_and_bottom_line() {
    let area = board_area(Rect { x: 0, y: 0, width: 80, height: 24 }).expect("room for tiles");
    assert_eq!(area, Rect { x: 0, y: 1, width: 79, height: 20 });
}

#[test]
fn the_screen_shows_title_tiles_and_bottom_line() {
    let mut app = app();
    let full = Rect { x: 0, y: 0, width: 80, height: 24 };
    let area = board_area(full).unwrap();
    lay_out(&mut app, area);
    app.perform(Action::MoveSelectedRight);
    let mut buf = Buffer::empty(TuiRect { x: 0, y: 0, width: 80, height: 24 });
    assert!(draw_screen(&app, full, &mut buf, &texts(&app)));
    assert!(row(&buf, 0).contains("Total: 3.0K (3 files), freed: 0"));
    assert!(row(&buf, 0).contains("| /data"));
    assert!(row(&buf, 1).starts_with("┌"));
    assert!(row(&buf, 21).contains("└"));
    assert!(row(&buf, 22).starts_with(" SELECTED: big (2.0K, 1 files)"));
    assert!(row(&buf, 23).starts_with(" ←↓↑→/<ENTER>/<ESC>: navigate, <Ctrl-D>: del, <q>: quit"));
}

#[test]
fn a_too_small_screen_only_shows_the_notice() {
    let mut app = app();
    app.check_screen_size(40, 10);
    assert!(matches!(app.ui_mode, UiMode::ScreenTooSmall));
    let mut buf = Buffer::empty(TuiRect { x: 0, y: 0, width: 40, height: 10 });
    let t = texts(&app);
    assert!(draw_screen(&app, Rect { x: 0, y: 0, width: 40, height: 10 }, &mut buf, &t));
    assert!(row(&buf, 5).contains("Terminal window is too small"));
    assert_eq!(row(&buf, 0).trim(), "");
}

#[test]
fn the_quit_prompt_is_drawn_over_the_tiles() {
    let mut app = app();
    let full = Rect { x: 0, y: 0, width: 80, height: 24 };
    let area = board_area(full).unwrap();
    lay_out(&mut app, area);
    app.perform(Action::PromptExit);
    let mut buf = Buffer::empty(TuiRect { x: 0, y: 0, width: 80, height: 24 });
    assert!(draw_screen(&app, full, &mut buf, &texts(&app)));
    assert!(row(&buf, 10).contains("Are you sure you want to quit?"));
}
