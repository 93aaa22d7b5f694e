use diskonaut::board::{Board, Rect, Tile, HV};
use diskonaut::file_tree::FileType;
use diskonaut::files::Folder;
use diskonaut::listing::Share;

fn tile(name: &str, x: u16, y: u16, width: u16, height: u16, file_type: FileType) -> Tile {
    Tile {
        x,
        y,
        width,
        height,
        name: name.to_string(),
        size: 10,
        descendants: if file_type == FileType::Folder { Some(1) } else { None },
        percentage: Share { numerator: 1, denominator: 4 },
        file_type,
    }
}

fn grid_board() -> Board {
    let folder = Folder::new(&vec!["base".to_string()]);
    let mut board = Board::new(&folder);
    board.set_tiles(
        vec![
            tile("a", 0, 0, 10, 5, FileType::File),
            tile("b", 10, 0, 10, 5, FileType::Folder),
            tile("c", 0, 5, 10, 5, FileType::File),
            tile("d", 10, 5, 10, 5, FileType::Folder),
        ],
        None,
    );
    board
}

#[test]
fn first_move_selects_the_first_tile() {
    let mut board = grid_board();
    board.move_selected_right();
    assert_eq!(board.selected_index, Some(0));
}

#[test]
fn moves_go_to_the_neighbouring_tile() {
    let mut board = grid_board();
    board.set_selected_index(&0);
    board.move_selected_right();
    assert_eq!(board.selected_index, Some(1));
    board.move_selected_down();
    assert_eq!(board.selected_index, Some(3));
    board.move_selected_left();
    assert_eq!(board.selected_index, Some(2));
    board.move_selected_up();
    assert_eq!(board.selected_index, Some(0));
}

#[test]
fn moving_off_the_edge_clears_the_selection() {
    let mut board = grid_board();
    board.set_selected_index(&1);
    board.move_selected_right();
    assert_eq!(board.selected_index, None);
}

#[test]
fn the_largest_overlap_wins_and_the_last_of_equals() {
    let folder = Folder::new(&vec!["base".to_string()]);
    let mut board = Board::new(&folder);
    board.set_tiles(
        vec![
            tile("left", 0, 0, 10, 10, FileType::File),
            tile("top", 10, 0, 10, 3, FileType::File),
            tile("mid", 10, 3, 10, 6, FileType::File),
            tile("low1", 10, 9, 10, 3, FileType::File),
        ],
        None,
    );
    board.set_selected_index(&0);
    board.move_selected_right();
    assert_eq!(board.selected_index, Some(2));

    let mut even = Board::new(&folder);
    even.set_tiles(
        vec![
            tile("left", 0, 0, 10, 10, FileType::File),
            tile("top", 10, 0, 10, 5, FileType::File),
            tile("bottom", 10, 5, 10, 5, FileType::File),
        ],
        None,
    );
    even.set_selected_index(&0);
    even.move_selected_right();
    assert_eq!(even.selected_index, Some(2));
}

#[test]
fn tiles_know_their_neighbours() {
    let a = tile("a", 0, 0, 10, 5, FileType::File);
    let b = tile("b", 10, 0, 10, 5, FileType::File);
    assert!(b.is_directly_after(&a, HV::Horizontal));
    assert!(a.is_directly_before(&b, HV::Horizontal));
    assert!(a.overlaps_with(&b, HV::Horizontal));
    assert_eq!(a.get_overlap_with(&b, HV::Horizontal), 5);
    assert_eq!(a.position(HV::Vertical), 0);
    assert_eq!(b.extent(HV::Horizontal), 10);
}

#[test]
fn enter_picks_the_first_folder() {
    let mut board = grid_board();
    board.move_to_largest_folder();
    assert_eq!(board.selected_index, Some(1));
    assert_eq!(board.currently_selected().map(|t| t.name.clone()), Some("b".to_string()));
}

#[test]
fn selection_stack_records_and_restores() {
    let mut board = grid_board();
    board.set_selected_index(&2);
    board.set_zoom_index(1);
    board.record_current_index_and_zoom_level();
    board.reset_selected_index();
    board.reset_zoom_index();
    assert_eq!(board.pop_previous_index_and_zoom_level(), Some((Some(2), 1)));
    assert_eq!(board.pop_previous_index_and_zoom_level(), None);
}

#[test]
fn zoom_counts_up_to_the_number_of_files() {
    let mut folder = Folder::new(&vec!["base".to_string()]);
    folder.add_file(vec!["one".to_string()], 10);
    let mut board = Board::new(&folder);
    assert!(board.zoom_in(&folder));
    assert_eq!(board.zoom_level, 1);
    assert!(!board.zoom_in(&folder));
    assert!(board.zoom_out(&folder));
    assert!(!board.zoom_out(&folder));
    board.zoom_in(&folder);
    board.reset_zoom(&folder);
    assert_eq!(board.zoom_level, 0);
}

#[test]
fn area_changes_are_reported() {
    let mut board = grid_board();
    let area = Rect { x: 0, y: 1, width: 80, height: 20 };
    assert!(board.change_area(&area));
    assert!(!board.change_area(&area));
    assert_eq!(board.area, area);
}

#[test]
fn tiles_that_only_touch_share_nothing_either_way() {
    let upper = tile("upper", 0, 0, 10, 5, FileType::File);
    let lower_right = tile("lower_right", 10, 5, 10, 5, FileType::File);
    assert_eq!(upper.get_overlap_with(&lower_right, HV::Horizontal), 0);
    assert_eq!(lower_right.get_overlap_with(&upper, HV::Horizontal), 0);
    let wide = tile("wide", 0, 5, 20, 5, FileType::File);
    assert_eq!(upper.get_overlap_with(&wide, HV::Vertical), 10);
    assert_eq!(wide.get_overlap_with(&upper, HV::Vertical), 10);
}
