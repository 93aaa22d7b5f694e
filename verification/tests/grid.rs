use diskonaut::board::{Rect, Tile};
use diskonaut::file_tree::FileType;
use diskonaut::grid::{
    draw_empty_folder, draw_filled_rect, draw_next_symbol, draw_rect_on_grid, draw_rectangle_grid,
    buffer_is_sound, draw_small_files_rect_on_grid, draw_tile_text_on_grid, grid_fits, tile_text_fits, Hue, Paint,
};
use diskonaut::listing::Share;
use tui::buffer::Buffer;
use tui::layout::Rect as TuiRect;
use tui::style::{Color, Modifier, Style};

fn buffer(width: u16, height: u16) -> Buffer {
    Buffer::empty(TuiRect { x: 0, y: 0, width, height })
}

fn row(buf: &Buffer, y: u16) -> String {
    cells(buf, y, buf.area.x, buf.area.x + buf.area.width)
}

fn cells(buf: &Buffer, y: u16, from: u16, to: u16) -> String {
    (from..to).map(|x| buf.get(x, y).symbol.clone()).collect()
}

fn tile(name: &str, x: u16, y: u16, width: u16, height: u16, file_type: FileType) -> Tile {
    Tile {
        x,
        y,
        width,
        height,
        name: name.to_string(),
        size: 2048,
        descendants: if file_type == FileType::Folder { Some(3) } else { None },
        percentage: Share { numerator: 1, denominator: 4 },
        file_type,
    }
}

#[test]
fn an_outline_is_drawn_with_corners() {
    let mut buf = buffer(6, 4);
    draw_rect_on_grid(&mut buf, (0, 0), (4, 2));
    assert_eq!(row(&buf, 0), "┌───┐ ");
    assert_eq!(row(&buf, 1), "│   │ ");
    assert_eq!(row(&buf, 2), "└───┘ ");
    assert_eq!(row(&buf, 3), "      ");
}

#[test]
fn neighbouring_outlines_merge() {
    let mut buf = buffer(9, 3);
    draw_rect_on_grid(&mut buf, (0, 0), (4, 2));
    draw_rect_on_grid(&mut buf, (4, 0), (4, 2));
    assert_eq!(row(&buf, 0), "┌───┬───┐");
    assert_eq!(row(&buf, 1), "│   │   │");
    assert_eq!(row(&buf, 2), "└───┴───┘");
}

#[test]
fn stacked_outlines_merge() {
    let mut buf = buffer(5, 5);
    draw_rect_on_grid(&mut buf, (0, 0), (4, 2));
    draw_rect_on_grid(&mut buf, (0, 2), (4, 2));
    assert_eq!(row(&buf, 2), "├───┤");
}

#[test]
fn a_symbol_over_text_replaces_it() {
    let mut buf = buffer(3, 1);
    buf.get_mut(1, 0).set_symbol("a");
    draw_next_symbol(&mut buf, 1, 0, "─");
    assert_eq!(buf.get(1, 0).symbol, "─");
    draw_next_symbol(&mut buf, 1, 0, "│");
    assert_eq!(buf.get(1, 0).symbol, "┼");
}

#[test]
fn a_filled_box_overwrites_what_was_there() {
    let mut buf = buffer(5, 4);
    draw_rect_on_grid(&mut buf, (0, 0), (2, 2));
    buf.get_mut(3, 1).set_symbol("z");
    draw_filled_rect(&mut buf, Paint { fg: Hue::Red, bg: Hue::Black, bold: true }, &Rect { x: 1, y: 0, width: 3, height: 3 });
    assert_eq!(row(&buf, 0), "┌┌──┐");
    assert_eq!(row(&buf, 1), "││  │");
    assert_eq!(row(&buf, 2), "└│  │");
    assert_eq!(row(&buf, 3), " └──┘");
}

#[test]
fn small_files_are_marked_with_x() {
    let mut buf = buffer(5, 4);
    draw_small_files_rect_on_grid(&mut buf, Rect { x: 0, y: 0, width: 4, height: 3 });
    assert_eq!(row(&buf, 1), "│xxx│");
    assert_eq!(row(&buf, 3), "└───┘");
}

#[test]
fn an_empty_folder_says_so() {
    let mut buf = buffer(21, 5);
    draw_empty_folder(&mut buf, Rect { x: 0, y: 0, width: 20, height: 4 });
    assert_eq!(row(&buf, 1), "│██Folder is empty██│");
    assert_eq!(row(&buf, 0), "┌───────────────────┐");
    assert_eq!(row(&buf, 2), "│███████████████████│");
}

#[test]
fn a_tile_shows_its_name_and_size() {
    let mut buf = buffer(31, 11);
    let t = tile("docs", 0, 0, 30, 10, FileType::Folder);
    assert!(tile_text_fits(&buf, &t, "2.0K", "2K"));
    draw_tile_text_on_grid(&mut buf, &t, false, "2.0K", "2K");
    assert_eq!(row(&buf, 4).trim(), "docs/ (+3 descendants)");
    assert_eq!(row(&buf, 6).trim(), "2.0K (25%)");
}

#[test]
fn a_selected_tile_is_filled() {
    let mut buf = buffer(11, 6);
    let t = tile("a.txt", 0, 0, 10, 5, FileType::File);
    draw_tile_text_on_grid(&mut buf, &t, true, "2.0K", "2K");
    assert_eq!(row(&buf, 1), " █████████ ");
    assert_eq!(row(&buf, 2), " ██a.txt██ ");
    assert_eq!(row(&buf, 3), " ██2.0K███ ");
}

#[test]
fn the_grid_draws_every_tile_and_the_small_files() {
    let mut buf = buffer(31, 11);
    let tiles = vec![tile("left", 0, 0, 15, 10, FileType::Folder), tile("right", 15, 0, 10, 10, FileType::File)];
    let texts = vec![("2.0K".to_string(), "2K".to_string()), ("2.0K".to_string(), "2K".to_string())];
    let area = Rect { x: 0, y: 0, width: 30, height: 10 };
    assert!(grid_fits(&buf, area, &tiles, Some((25, 0)), &texts));
    draw_rectangle_grid(&mut buf, area, &tiles, Some((25, 0)), Some(1), &texts);
    assert_eq!(row(&buf, 0), "┌──────────────┬─────────┬────┐");
    assert_eq!(row(&buf, 10), "└──────────────┴─────────┴────┘");
    assert_eq!(cells(&buf, 4, 0, 16), "│  left/ (+3)  │");
    assert_eq!(cells(&buf, 1, 15, 31), "│█████████│xxxx│");
}

#[test]
fn an_empty_grid_needs_room_for_its_text() {
    let buf = buffer(10, 5);
    let area = Rect { x: 0, y: 0, width: 9, height: 4 };
    assert!(!grid_fits(&buf, area, &vec![], None, &vec![]));
}

#[test]
fn a_buffer_missing_cells_is_refused() {
    let mut buf = buffer(20, 5);
    assert!(buffer_is_sound(&buf));
    let area = Rect { x: 0, y: 0, width: 19, height: 4 };
    assert!(grid_fits(&buf, area, &Vec::new(), None, &Vec::new()));
    buf.content.truncate(50);
    assert!(!buffer_is_sound(&buf));
    assert!(!grid_fits(&buf, area, &Vec::new(), None, &Vec::new()));
}

#[test]
fn a_buffer_reaching_past_the_last_column_is_refused() {
    let buf = Buffer::empty(TuiRect { x: 65530, y: 0, width: 4, height: 2 });
    assert!(buffer_is_sound(&buf));
    let wide = Buffer { area: TuiRect { x: 65530, y: 0, width: 10, height: 1 }, content: Vec::new() };
    assert!(!buffer_is_sound(&wide));
}

#[test]
fn a_selected_folder_is_painted_blue() {
    let t = tile("docs", 0, 0, 30, 10, FileType::Folder);
    let mut buf = buffer(31, 11);
    draw_tile_text_on_grid(&mut buf, &t, true, "2.0K", "2K");
    assert_eq!(buf.get(1, 1).style, Style::default().fg(Color::Blue).bg(Color::Blue));
    let name_start = (0..30).find(|x| buf.get(*x, 4).symbol == "d").unwrap();
    assert_eq!(
        buf.get(name_start, 4).style,
        Style::default().fg(Color::White).bg(Color::Blue).modifier(Modifier::BOLD)
    );
    let mut plain = buffer(31, 11);
    draw_tile_text_on_grid(&mut plain, &t, false, "2.0K", "2K");
    assert_eq!(plain.get(1, 1).style, Style::default());
    assert_eq!(plain.get(name_start, 4).style, Style::default().fg(Color::Blue).modifier(Modifier::BOLD));
}
