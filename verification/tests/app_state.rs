use diskonaut::app_state::{App, Instruction, Redraw};
use diskonaut::board::Tile;
use diskonaut::controls::{Action, Key, UiMode};
use diskonaut::events::Event;
use diskonaut::file_tree::FileType;

fn path(parts: &[&str]) -> Vec<String> {
    parts.iter().map(|p| p.to_string()).collect()
}

fn scanned_app() -> App {
    let mut app = App::new(path(&["/", "home", "user"]));
    let entries: Vec<(bool, u64, Vec<String>)> = vec![
        (true, 0, path(&["/", "home", "user", "music"])),
        (false, 8, path(&["/", "home", "user", "music", "song.mp3"])),
        (true, 0, path(&["/", "home", "user", "docs"])),
        (false, 2, path(&["/", "home", "user", "docs", "a.txt"])),
        (false, 1, path(&["/", "home", "user", "notes.txt"])),
    ];
    for (is_dir, blocks, entry) in entries {
        let instruction = Instruction::AddEntryToBaseFolder(is_dir, blocks, entry);
        assert!(app.can_handle(&instruction));
        let effect = app.handle_instruction(instruction);
        assert_eq!(effect.redraw, Redraw::Nothing);
    }
    let effect = app.handle_instruction(Instruction::StartUi);
    assert_eq!(effect.redraw, Redraw::LayOutAndRender);
    app
}

fn lay_out(app: &mut App) {
    let tiles: Vec<Tile> = app
        .board
        .files
        .iter()
        .enumerate()
        .map(|(i, f)| Tile {
            x: (i as u16) * 10,
            y: 0,
            width: 10,
            height: 10,
            name: f.name.clone(),
            size: f.size,
            descendants: f.descendants,
            percentage: f.percentage,
            file_type: f.file_type,
        })
        .collect();
    app.board.set_tiles(tiles, None);
}

#[test]
fn scanning_builds_the_tree() {
    let app = scanned_app();
    assert!(matches!(app.ui_mode, UiMode::Normal));
    assert!(app.loaded);
    assert_eq!(app.file_tree.get_total_size(), 11 * 512);
    assert_eq!(app.file_tree.get_total_descendants(), 5);
    let names: Vec<&str> = app.board.files.iter().map(|f| f.name.as_str()).collect();
    assert_eq!(names, vec!["music", "docs", "notes.txt"]);
    assert_eq!(app.ui_effects.last_read_path, Some(path(&["/", "home", "user", "notes.txt"])));
}

#[test]
fn enter_with_nothing_selected_enters_the_largest_folder() {
    let mut app = scanned_app();
    lay_out(&mut app);
    let effect = app.perform(Action::HandleEnter);
    assert_eq!(effect.redraw, Redraw::LayOutAndRender);
    assert_eq!(app.file_tree.current_folder_names, path(&["music"]));
    assert_eq!(app.board.files.len(), 1);
    assert_eq!(app.board.selected_index, None);
}

#[test]
fn going_up_after_entering_the_largest_folder_selects_it() {
    let mut app = scanned_app();
    lay_out(&mut app);
    let before = app.board.previous_indices_and_zoom_level.len();
    let entered = app.perform(Action::HandleEnter);
    assert_eq!(entered.redraw, Redraw::LayOutAndRender);
    assert_eq!(app.file_tree.current_folder_names, path(&["music"]));
    let went_up = app.perform(Action::GoUp);
    assert_eq!(went_up.event, None);
    assert!(app.file_tree.current_folder_names.is_empty());
    assert_eq!(app.board.selected_index, Some(0));
    assert_eq!(app.board.zoom_level, 0);
    assert_eq!(app.board.previous_indices_and_zoom_level.len(), before);
}

#[test]
fn going_up_restores_the_selection() {
    let mut app = scanned_app();
    lay_out(&mut app);
    app.perform(Action::MoveSelectedRight);
    app.perform(Action::MoveSelectedRight);
    assert_eq!(app.board.selected_index, Some(1));
    let entered = app.perform(Action::HandleEnter);
    assert_eq!(entered.redraw, Redraw::LayOutAndRender);
    assert_eq!(app.file_tree.current_folder_names, path(&["docs"]));
    let went_up = app.perform(Action::GoUp);
    assert_eq!(went_up.redraw, Redraw::LayOutAndRender);
    assert_eq!(went_up.event, None);
    assert!(app.file_tree.current_folder_names.is_empty());
    assert_eq!(app.board.selected_index, Some(1));
    assert_eq!(app.board.zoom_level, 0);
}

#[test]
fn going_up_from_the_base_reports_a_path_error() {
    let mut app = scanned_app();
    let effect = app.perform(Action::GoUp);
    assert_eq!(effect.event, Some(Event::PathError));
    assert!(app.file_tree.current_folder_names.is_empty());
}

#[test]
fn entering_a_file_does_nothing() {
    let mut app = scanned_app();
    lay_out(&mut app);
    app.board.set_selected_index(&2);
    let effect = app.perform(Action::HandleEnter);
    assert_eq!(effect.redraw, Redraw::Nothing);
    assert!(app.file_tree.current_folder_names.is_empty());
}

#[test]
fn deletion_goes_through_the_prompt() {
    let mut app = scanned_app();
    lay_out(&mut app);
    app.board.set_selected_index(&2);
    let prompted = app.handle_key(Key::Backspace);
    assert_eq!(prompted.redraw, Redraw::Render);
    match &app.ui_mode {
        UiMode::DeleteFile(f) => {
            assert_eq!(f.path_to_file, path(&["notes.txt"]));
            assert_eq!(f.file_type, FileType::File);
            assert_eq!(f.size, 512);
            assert_eq!(f.full_path(), path(&["/", "home", "user", "notes.txt"]));
        }
        _ => panic!("the deletion prompt is shown"),
    }
    let confirmed = app.handle_key(Key::Char('y'));
    assert!(app.ui_effects.deletion_in_progress);
    let request = confirmed.delete.expect("an entry to delete");
    assert!(app.can_remove(&request));
    let done = app.finish_deletion(&request, Ok(()));
    assert_eq!(done.event, Some(Event::FileDeleted));
    assert_eq!(done.redraw, Redraw::LayOutAndRender);
    assert!(!app.ui_effects.deletion_in_progress);
    assert!(matches!(app.ui_mode, UiMode::Normal));
    assert_eq!(app.file_tree.space_freed, 512);
    assert_eq!(app.file_tree.get_total_size(), 10 * 512);
    assert_eq!(app.file_tree.get_total_descendants(), 4);
    assert_eq!(app.board.files.len(), 2);
    assert_eq!(app.board.selected_index, None);
}

#[test]
fn a_failed_deletion_shows_the_error() {
    let mut app = scanned_app();
    lay_out(&mut app);
    app.board.set_selected_index(&0);
    app.perform(Action::PromptFileDeletion);
    let confirmed = app.perform(Action::DeleteFile);
    let request = confirmed.delete.expect("an entry to delete");
    let effect = app.finish_deletion(&request, Err("Permission denied".to_string()));
    assert_eq!(effect.redraw, Redraw::Render);
    match &app.ui_mode {
        UiMode::ErrorMessage(message) => assert_eq!(message, "Permission denied"),
        _ => panic!("the error is shown"),
    }
    assert_eq!(app.file_tree.get_total_size(), 11 * 512);
    assert_eq!(app.handle_key(Key::Esc).redraw, Redraw::LayOutAndRender);
    assert!(matches!(app.ui_mode, UiMode::Normal));
}

#[test]
fn nothing_selected_means_no_prompt() {
    let mut app = scanned_app();
    let effect = app.perform(Action::PromptFileDeletion);
    assert_eq!(effect.redraw, Redraw::Nothing);
    assert!(matches!(app.ui_mode, UiMode::Normal));
}

#[test]
fn quitting_asks_first() {
    let mut app = scanned_app();
    assert_eq!(app.handle_key(Key::Char('q')).redraw, Redraw::Render);
    assert!(matches!(app.ui_mode, UiMode::Exiting));
    assert_eq!(app.handle_key(Key::Char('n')).redraw, Redraw::Render);
    assert!(matches!(app.ui_mode, UiMode::Normal));
    app.handle_key(Key::Ctrl('c'));
    let effect = app.handle_key(Key::Char('y'));
    assert_eq!(effect.event, Some(Event::AppExit));
    assert!(!app.is_running);
}

#[test]
fn deleting_while_scanning_warns() {
    let mut app = App::new(path(&["/", "tmp"]));
    let effect = app.handle_instruction(Instruction::Keypress(Key::Backspace));
    assert_eq!(effect.redraw, Redraw::Render);
    assert!(matches!(app.ui_mode, UiMode::WarningMessage));
    app.handle_instruction(Instruction::Keypress(Key::Char('x')));
    assert!(matches!(app.ui_mode, UiMode::Loading));
}

#[test]
fn small_screens_are_noticed() {
    let mut app = scanned_app();
    app.check_screen_size(49, 20);
    assert!(matches!(app.ui_mode, UiMode::ScreenTooSmall));
    assert_eq!(app.handle_instruction(Instruction::ResetUiMode).redraw, Redraw::Nothing);
    assert!(matches!(app.ui_mode, UiMode::Normal));
    app.check_screen_size(80, 14);
    assert!(matches!(app.ui_mode, UiMode::ScreenTooSmall));
}

#[test]
fn effects_and_counters() {
    let mut app = App::new(path(&["/", "tmp"]));
    app.handle_instruction(Instruction::SetPathToRed);
    assert!(app.ui_effects.current_path_is_red);
    app.handle_instruction(Instruction::ResetCurrentPathColor);
    assert!(!app.ui_effects.current_path_is_red);
    app.handle_instruction(Instruction::FlashSpaceFreed);
    assert!(app.ui_effects.flash_space_freed);
    app.handle_instruction(Instruction::UnflashSpaceFreed);
    assert!(!app.ui_effects.flash_space_freed);
    app.handle_instruction(Instruction::ToggleScanningVisualIndicator);
    app.handle_instruction(Instruction::ToggleScanningVisualIndicator);
    assert_eq!(app.ui_effects.loading_progress_indicator, 6);
    app.handle_instruction(Instruction::IncrementFailedToRead);
    assert_eq!(app.file_tree.failed_to_read, 1);
    assert_eq!(app.handle_instruction(Instruction::Render).redraw, Redraw::Render);
    assert_eq!(app.handle_instruction(Instruction::RenderAndUpdateBoard).redraw, Redraw::LayOutAndRender);
}

#[test]
fn zoom_changes_are_reported() {
    let mut app = scanned_app();
    assert_eq!(app.perform(Action::ZoomOut).redraw, Redraw::Nothing);
    assert_eq!(app.perform(Action::ZoomIn).redraw, Redraw::LayOutAndRender);
    assert_eq!(app.board.zoom_level, 1);
    assert_eq!(app.perform(Action::ResetZoom).redraw, Redraw::LayOutAndRender);
    assert_eq!(app.board.zoom_level, 0);
}

#[test]
fn an_entry_in_place_of_the_shown_folder_is_refused() {
    let mut app = scanned_app();
    lay_out(&mut app);
    app.perform(Action::HandleEnter);
    assert_eq!(app.file_tree.current_folder_names, path(&["music"]));
    let clash = Instruction::AddEntryToBaseFolder(false, 1, path(&["/", "home", "user", "music"]));
    assert!(!app.can_handle(&clash));
    let deeper = Instruction::AddEntryToBaseFolder(false, 1, path(&["/", "home", "user", "music", "b.mp3"]));
    assert!(app.can_handle(&deeper));
}

#[test]
fn deleting_a_folder_moves_its_size_to_the_space_freed() {
    let mut app = scanned_app();
    lay_out(&mut app);
    let before = app.file_tree.get_total_size() + app.file_tree.space_freed;
    app.board.set_selected_index(&0);
    app.handle_key(Key::Backspace);
    let confirmed = app.handle_key(Key::Char('y'));
    let request = confirmed.delete.expect("an entry to delete");
    assert_eq!(request.path_to_file, path(&["music"]));
    assert!(app.can_remove(&request));
    app.finish_deletion(&request, Ok(()));
    assert_eq!(app.file_tree.space_freed, 8 * 512);
    assert_eq!(app.file_tree.get_total_size() + app.file_tree.space_freed, before);
}

#[test]
fn zooming_in_and_out_comes_back() {
    let mut app = scanned_app();
    let names: Vec<String> = app.board.files.iter().map(|f| f.name.clone()).collect();
    let sizes: Vec<u64> = app.board.files.iter().map(|f| f.size).collect();
    let tiles = app.board.tiles.len();
    let selected = app.board.selected_index;
    assert_eq!(app.perform(Action::ZoomIn).redraw, Redraw::LayOutAndRender);
    assert_eq!(app.perform(Action::ZoomIn).redraw, Redraw::LayOutAndRender);
    assert_eq!(app.board.zoom_level, 2);
    assert_eq!(app.perform(Action::ZoomOut).redraw, Redraw::LayOutAndRender);
    assert_eq!(app.board.zoom_level, 1);
    assert_eq!(app.perform(Action::ZoomOut).redraw, Redraw::LayOutAndRender);
    assert_eq!(app.board.zoom_level, 0);
    assert_eq!(app.board.files.iter().map(|f| f.name.clone()).collect::<Vec<String>>(), names);
    assert_eq!(app.board.files.iter().map(|f| f.size).collect::<Vec<u64>>(), sizes);
    assert_eq!(app.board.tiles.len(), tiles);
    assert_eq!(app.board.selected_index, selected);
    assert!(app.is_running);
}

#[test]
fn leaving_a_prompt_keeps_the_effects_and_keeps_running() {
    let mut app = scanned_app();
    app.handle_instruction(Instruction::FlashSpaceFreed);
    app.perform(Action::PromptExit);
    assert!(matches!(app.ui_mode, UiMode::Exiting));
    app.reset_ui_mode();
    assert!(matches!(app.ui_mode, UiMode::Normal));
    assert!(app.is_running);
    assert!(app.ui_effects.flash_space_freed);
    app.check_screen_size(40, 10);
    assert!(matches!(app.ui_mode, UiMode::ScreenTooSmall));
    assert!(app.ui_effects.flash_space_freed);
    assert_eq!(app.perform(Action::MoveSelectedRight).redraw, Redraw::Render);
    assert!(app.is_running);
}

#[test]
fn the_deletion_prompt_names_the_selected_entry_inside_a_folder() {
    let mut app = scanned_app();
    lay_out(&mut app);
    let docs = app.board.tiles.iter().position(|t| t.name == "docs").expect("a docs tile");
    app.board.set_selected_index(&docs);
    assert_eq!(app.perform(Action::HandleEnter).redraw, Redraw::LayOutAndRender);
    lay_out(&mut app);
    app.board.set_selected_index(&0);
    assert_eq!(app.perform(Action::PromptFileDeletion).redraw, Redraw::Render);
    match &app.ui_mode {
        UiMode::DeleteFile(f) => {
            assert_eq!(f.path_to_file, path(&["docs", "a.txt"]));
            assert_eq!(f.file_type, FileType::File);
            assert_eq!(f.size, 1024);
            assert_eq!(f.num_descendants, None);
            assert_eq!(f.full_path(), path(&["/", "home", "user", "docs", "a.txt"]));
        }
        _ => panic!("the deletion prompt is shown"),
    }
}
