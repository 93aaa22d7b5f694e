use diskonaut::board::{Rect, Tile};
use diskonaut::bottom_line::{bottom_line_drawable, controls_legend, BottomLine};
use diskonaut::file_tree::FileType;
use diskonaut::listing::Share;
use tui::buffer::Buffer;
use tui::layout::Rect as TuiRect;

fn row(buf: &Buffer, y: u16) -> String {
    (0..buf.area.width).map(|x| buf.get(x, y).symbol.clone()).collect()
}

fn tile(name: &str, file_type: FileType) -> Tile {
    Tile {
        x: 0,
        y: 0,
        width: 10,
        height: 10,
        name: name.to_string(),
        size: 1024,
        descendants: if file_type == FileType::Folder { Some(7) } else { None },
        percentage: Share { numerator: 1, denominator: 2 },
        file_type,
    }
}

#[test]
fn the_legend_shortens_to_fit() {
    assert_eq!(
        controls_legend(false, 120),
        "<hjkl> or < ← ↓ ↑ → > - move around, <ENTER> - enter folder, <ESC> - parent folder, <Ctrl-D> - delete, <q> - quit"
    );
    assert_eq!(controls_legend(false, 80), "←↓↑→/<ENTER>/<ESC>: navigate, <Ctrl-D>: del, <q>: quit");
    assert_eq!(
        controls_legend(true, 100),
        "<hjkl> or < ← ↓ ↑ → > - move around, <ENTER> - enter folder, <ESC> - parent folder, <q> - quit"
    );
    assert_eq!(controls_legend(true, 50), "←↓↑→/<ENTER>/<ESC>: navigate, <q>: quit");
    assert_eq!(controls_legend(true, 30), "(...)");
}

#[test]
fn the_selected_folder_is_named_with_its_size_and_files() {
    let mut buf = Buffer::empty(TuiRect { x: 0, y: 0, width: 80, height: 2 });
    let area = Rect { x: 0, y: 0, width: 80, height: 2 };
    assert!(bottom_line_drawable(&buf, area));
    let selected = tile("photos", FileType::Folder);
    BottomLine::new().currently_selected(Some(&selected)).draw(area, &mut buf, "1.0K");
    let status = row(&buf, 0);
    assert!(status.starts_with(" SELECTED: photos (1.0K, 7 files)"));
    assert!(status.ends_with("(x = Small files) "));
    assert_eq!(row(&buf, 1).trim_end(), " ←↓↑→/<ENTER>/<ESC>: navigate, <Ctrl-D>: del, <q>: quit");
}

#[test]
fn a_long_selection_drops_its_details() {
    let mut buf = Buffer::empty(TuiRect { x: 0, y: 0, width: 46, height: 2 });
    let selected = tile("a_rather_long_file_name.txt", FileType::File);
    BottomLine::new().currently_selected(Some(&selected)).draw(Rect { x: 0, y: 0, width: 46, height: 2 }, &mut buf, "1.0K");
    assert_eq!(row(&buf, 0), " a_rather_long_file_name.txt(x = Small files) ");
    let mut narrow = Buffer::empty(TuiRect { x: 0, y: 0, width: 40, height: 2 });
    BottomLine::new().currently_selected(Some(&selected)).draw(Rect { x: 0, y: 0, width: 40, height: 2 }, &mut narrow, "1.0K");
    assert_eq!(row(&narrow, 0), format!("{}(x = Small files) ", " ".repeat(22)));
}

#[test]
fn while_scanning_the_last_path_is_shown() {
    let mut buf = Buffer::empty(TuiRect { x: 0, y: 0, width: 60, height: 2 });
    let last = vec!["/".to_string(), "home".to_string(), "a.txt".to_string()];
    BottomLine::new().last_read_path(Some(&last)).hide_delete().draw(Rect { x: 0, y: 0, width: 60, height: 2 }, &mut buf, "");
    assert!(row(&buf, 0).starts_with(" /home/a.txt "));
    assert_eq!(row(&buf, 1).trim_end(), " ←↓↑→/<ENTER>/<ESC>: navigate, <q>: quit");
}

#[test]
fn a_narrow_area_is_refused() {
    let buf = Buffer::empty(TuiRect { x: 0, y: 0, width: 17, height: 2 });
    assert!(!bottom_line_drawable(&buf, Rect { x: 0, y: 0, width: 17, height: 2 }));
}
