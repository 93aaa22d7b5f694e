use diskonaut::controls::{
    handle_keypress, handle_keypress_delete_file_mode, handle_keypress_error_message, handle_keypress_exiting_mode,
    handle_keypress_loading_mode, handle_keypress_normal_mode, handle_keypress_screen_too_small,
    handle_keypress_warning_message, reset_ui_mode, Action, Key, UiMode,
};

#[test]
fn browsing_keys_move_the_selection() {
    for key in [Key::Char('l'), Key::Right, Key::Ctrl('f')] {
        assert_eq!(handle_keypress_normal_mode(key), Action::MoveSelectedRight);
    }
    for key in [Key::Char('h'), Key::Left, Key::Ctrl('b')] {
        assert_eq!(handle_keypress_normal_mode(key), Action::MoveSelectedLeft);
    }
    for key in [Key::Char('j'), Key::Down, Key::Ctrl('n')] {
        assert_eq!(handle_keypress_normal_mode(key), Action::MoveSelectedDown);
    }
    for key in [Key::Char('k'), Key::Up, Key::Ctrl('p')] {
        assert_eq!(handle_keypress_normal_mode(key), Action::MoveSelectedUp);
    }
}

#[test]
fn browsing_keys_zoom_enter_and_leave() {
    assert_eq!(handle_keypress_normal_mode(Key::Char('+')), Action::ZoomIn);
    assert_eq!(handle_keypress_normal_mode(Key::Char('-')), Action::ZoomOut);
    assert_eq!(handle_keypress_normal_mode(Key::Char('0')), Action::ResetZoom);
    assert_eq!(handle_keypress_normal_mode(Key::Enter), Action::HandleEnter);
    assert_eq!(handle_keypress_normal_mode(Key::Char('\n')), Action::HandleEnter);
    assert_eq!(handle_keypress_normal_mode(Key::Esc), Action::GoUp);
    assert_eq!(handle_keypress_normal_mode(Key::Char('z')), Action::Nothing);
    assert_eq!(handle_keypress_normal_mode(Key::Other), Action::Nothing);
}

#[test]
fn backspace_deletes_only_once_scanned() {
    assert_eq!(handle_keypress_normal_mode(Key::Backspace), Action::PromptFileDeletion);
    assert_eq!(handle_keypress_loading_mode(Key::Backspace), Action::ShowWarningModal);
}

#[test]
fn scanning_keys_match_normal_keys_but_backspace() {
    let keys = [
        Key::Char('q'),
        Key::Ctrl('c'),
        Key::Char('l'),
        Key::Left,
        Key::Down,
        Key::Ctrl('p'),
        Key::Char('+'),
        Key::Char('-'),
        Key::Char('0'),
        Key::Enter,
        Key::Esc,
        Key::Char('x'),
        Key::Other,
    ];
    for key in keys {
        assert_eq!(handle_keypress_loading_mode(key), handle_keypress_normal_mode(key));
    }
}

#[test]
fn quitting_is_prompted_while_browsing() {
    assert_eq!(handle_keypress_normal_mode(Key::Char('q')), Action::PromptExit);
    assert_eq!(handle_keypress_loading_mode(Key::Ctrl('c')), Action::PromptExit);
}

#[test]
fn deletion_prompt_keys() {
    assert_eq!(handle_keypress_delete_file_mode(Key::Char('y')), Action::DeleteFile);
    assert_eq!(handle_keypress_delete_file_mode(Key::Char('n')), Action::NormalMode);
    assert_eq!(handle_keypress_delete_file_mode(Key::Esc), Action::NormalMode);
    assert_eq!(handle_keypress_delete_file_mode(Key::Char('q')), Action::NormalMode);
    assert_eq!(handle_keypress_delete_file_mode(Key::Char('l')), Action::Nothing);
}

#[test]
fn error_message_keys() {
    assert_eq!(handle_keypress_error_message(Key::Esc), Action::NormalMode);
    assert_eq!(handle_keypress_error_message(Key::Ctrl('c')), Action::NormalMode);
    assert_eq!(handle_keypress_error_message(Key::Char('y')), Action::Nothing);
}

#[test]
fn too_small_screen_only_quits() {
    assert_eq!(handle_keypress_screen_too_small(Key::Char('q')), Action::Exit);
    assert_eq!(handle_keypress_screen_too_small(Key::Esc), Action::Nothing);
}

#[test]
fn quit_prompt_keys() {
    assert_eq!(handle_keypress_exiting_mode(Key::Char('y')), Action::Exit);
    assert_eq!(handle_keypress_exiting_mode(Key::Char('n')), Action::ResetUiModeAndRender);
    assert_eq!(handle_keypress_exiting_mode(Key::Char('q')), Action::ResetUiModeAndRender);
    assert_eq!(handle_keypress_exiting_mode(Key::Esc), Action::ResetUiModeAndRender);
    assert_eq!(handle_keypress_exiting_mode(Key::Char('j')), Action::Nothing);
}

#[test]
fn warning_is_dismissed_by_any_key() {
    assert_eq!(handle_keypress_warning_message(Key::Char('j')), Action::ResetUiMode);
    assert_eq!(handle_keypress_warning_message(Key::Other), Action::ResetUiMode);
}

#[test]
fn keypress_goes_to_the_mode_handler() {
    assert_eq!(handle_keypress(&UiMode::Loading, Key::Backspace), Action::ShowWarningModal);
    assert_eq!(handle_keypress(&UiMode::Normal, Key::Backspace), Action::PromptFileDeletion);
    assert_eq!(handle_keypress(&UiMode::Exiting, Key::Char('y')), Action::Exit);
    assert_eq!(handle_keypress(&UiMode::ErrorMessage("boom".to_string()), Key::Esc), Action::NormalMode);
    assert_eq!(handle_keypress(&UiMode::WarningMessage, Key::Char('a')), Action::ResetUiMode);
    assert_eq!(handle_keypress(&UiMode::ScreenTooSmall, Key::Char('a')), Action::Nothing);
}

#[test]
fn only_confirmation_deletes_on_sample_keys() {
    let modes = [UiMode::Loading, UiMode::Normal, UiMode::Exiting, UiMode::WarningMessage, UiMode::ScreenTooSmall];
    for mode in modes.iter() {
        assert_ne!(handle_keypress(mode, Key::Char('y')), Action::DeleteFile);
    }
}

#[test]
fn quit_key_is_never_ignored() {
    let modes = [UiMode::Loading, UiMode::Normal, UiMode::Exiting, UiMode::WarningMessage, UiMode::ScreenTooSmall];
    for mode in modes.iter() {
        assert_ne!(handle_keypress(mode, Key::Char('q')), Action::Nothing);
        assert_ne!(handle_keypress(mode, Key::Ctrl('c')), Action::Nothing);
    }
}

#[test]
fn reset_mode_returns_to_browsing() {
    assert!(matches!(reset_ui_mode(UiMode::Exiting, true), UiMode::Normal));
    assert!(matches!(reset_ui_mode(UiMode::WarningMessage, false), UiMode::Loading));
    assert!(matches!(reset_ui_mode(UiMode::Loading, true), UiMode::Loading));
    assert!(matches!(reset_ui_mode(UiMode::Normal, false), UiMode::Normal));
}
