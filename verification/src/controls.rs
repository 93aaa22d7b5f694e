use vstd::prelude::*;
use crate::file_tree::FileToDelete;

verus! {

/// A key press, as the handlers tell them apart: a character typed alone
/// or with Ctrl, or one of the named keys; `Other` is anything else.
#[derive(Clone, Copy, Debug, PartialEq, Eq, Structural)]
pub enum Key {
    Char(char),
    Ctrl(char),
    Left,
    Right,
    Up,
    Down,
    Enter,
    Backspace,
    Esc,
    Other,
}

/// What the screen is showing.
#[derive(Debug)]
pub enum UiMode {
    Loading,
    Normal,
    ScreenTooSmall,
    DeleteFile(FileToDelete),
    ErrorMessage(String),
    Exiting,
    WarningMessage,
}

/// What the application does in answer to a key press.
#[derive(Clone, Copy, Debug, PartialEq, Eq, Structural)]
pub enum Action {
    PromptExit,
    MoveSelectedRight,
    MoveSelectedLeft,
    MoveSelectedDown,
    MoveSelectedUp,
    ZoomIn,
    ZoomOut,
    ResetZoom,
    HandleEnter,
    ShowWarningModal,
    GoUp,
    PromptFileDeletion,
    NormalMode,
    DeleteFile,
    Exit,
    ResetUiModeAndRender,
    ResetUiMode,
    Nothing,
}

pub open spec fn is_quit(key: Key) -> bool {
    key == Key::Ctrl('c') || key == Key::Char('q')
}

pub open spec fn is_right(key: Key) -> bool {
    key == Key::Char('l') || key == Key::Right || key == Key::Ctrl('f')
}

pub open spec fn is_left(key: Key) -> bool {
    key == Key::Char('h') || key == Key::Left || key == Key::Ctrl('b')
}

pub open spec fn is_down(key: Key) -> bool {
    key == Key::Char('j') || key == Key::Down || key == Key::Ctrl('n')
}

pub open spec fn is_up(key: Key) -> bool {
    key == Key::Char('k') || key == Key::Up || key == Key::Ctrl('p')
}

pub open spec fn is_enter(key: Key) -> bool {
    key == Key::Char('\n') || key == Key::Enter
}

/// The answer to a key press while browsing; `backspace` is what
/// Backspace does, the one key whose answer depends on the mode.
pub open spec fn browsing_action(key: Key, backspace: Action) -> Action {
    if is_quit(key) {
        Action::PromptExit
    } else if key == Key::Backspace {
        backspace
    } else if is_right(key) {
        Action::MoveSelectedRight
    } else if is_left(key) {
        Action::MoveSelectedLeft
    } else if is_down(key) {
        Action::MoveSelectedDown
    } else if is_up(key) {
        Action::MoveSelectedUp
    } else if key == Key::Char('+') {
        Action::ZoomIn
    } else if key == Key::Char('-') {
        Action::ZoomOut
    } else if key == Key::Char('0') {
        Action::ResetZoom
    } else if is_enter(key) {
        Action::HandleEnter
    } else if key == Key::Esc {
        Action::GoUp
    } else {
        Action::Nothing
    }
}

fn browsing_key(key: Key, backspace: Action) -> (r: Action)
    ensures
        r == browsing_action(key, backspace),
{
    match key {
        Key::Ctrl('c') | Key::Char('q') => Action::PromptExit,
        Key::Backspace => backspace,
        Key::Char('l') | Key::Right | Key::Ctrl('f') => Action::MoveSelectedRight,
        Key::Char('h') | Key::Left | Key::Ctrl('b') => Action::MoveSelectedLeft,
        Key::Char('j') | Key::Down | Key::Ctrl('n') => Action::MoveSelectedDown,
        Key::Char('k') | Key::Up | Key::Ctrl('p') => Action::MoveSelectedUp,
        Key::Char('+') => Action::ZoomIn,
        Key::Char('-') => Action::ZoomOut,
        Key::Char('0') => Action::ResetZoom,
        Key::Char('\n') | Key::Enter => Action::HandleEnter,
        Key::Esc => Action::GoUp,
        _ => Action::Nothing,
    }
}

/// While scanning: quitting is prompted, the arrows, `hjkl` and the Emacs
/// keys move, `+`/`-`/`0` zoom, Enter enters, Esc goes up, and Backspace
/// warns that nothing can be deleted yet.
pub fn handle_keypress_loading_mode(key: Key) -> (r: Action)
    ensures
        r == browsing_action(key, Action::ShowWarningModal),
{
    browsing_key(key, Action::ShowWarningModal)
}

/// Once scanned: as while scanning, but Backspace asks to delete the
/// selected entry.
pub fn handle_keypress_normal_mode(key: Key) -> (r: Action)
    ensures
        r == browsing_action(key, Action::PromptFileDeletion),
{
    browsing_key(key, Action::PromptFileDeletion)
}

/// While a deletion is being confirmed: `y` deletes; quitting, Esc and `n`
/// go back; anything else is ignored.
pub fn handle_keypress_delete_file_mode(key: Key) -> (r: Action)
    ensures
        r == if is_quit(key) || key == Key::Esc || key == Key::Char('n') {
            Action::NormalMode
        } else if key == Key::Char('y') {
            Action::DeleteFile
        } else {
            Action::Nothing
        },
{
    match key {
        Key::Ctrl('c') | Key::Char('q') | Key::Esc | Key::Char('n') => Action::NormalMode,
        Key::Char('y') => Action::DeleteFile,
        _ => Action::Nothing,
    }
}

/// While an error is shown: quitting and Esc dismiss it.
pub fn handle_keypress_error_message(key: Key) -> (r: Action)
    ensures
        r == if is_quit(key) || key == Key::Esc { Action::NormalMode } else { Action::Nothing },
{
    match key {
        Key::Ctrl('c') | Key::Char('q') | Key::Esc => Action::NormalMode,
        _ => Action::Nothing,
    }
}

/// While the terminal is too small: only quitting is possible.
pub fn handle_keypress_screen_too_small(key: Key) -> (r: Action)
    ensures
        r == if is_quit(key) { Action::Exit } else { Action::Nothing },
{
    match key {
        Key::Ctrl('c') | Key::Char('q') => Action::Exit,
        _ => Action::Nothing,
    }
}

/// While quitting is being confirmed: `y` quits; quitting again, Esc and
/// `n` go back.
pub fn handle_keypress_exiting_mode(key: Key) -> (r: Action)
    ensures
        r == if is_quit(key) || key == Key::Esc || key == Key::Char('n') {
            Action::ResetUiModeAndRender
        } else if key == Key::Char('y') {
            Action::Exit
        } else {
            Action::Nothing
        },
{
    match key {
        Key::Ctrl('c') | Key::Char('q') | Key::Esc | Key::Char('n') => Action::ResetUiModeAndRender,
        Key::Char('y') => Action::Exit,
        _ => Action::Nothing,
    }
}

/// While a warning is shown: any key dismisses it.
pub fn handle_keypress_warning_message(key: Key) -> (r: Action)
    ensures
        r == Action::ResetUiMode,
{
    Action::ResetUiMode
}

/// The answer to a key press in a mode.
pub open spec fn keypress_action(mode: UiMode, key: Key) -> Action {
    match mode {
        UiMode::Loading => browsing_action(key, Action::ShowWarningModal),
        UiMode::Normal => browsing_action(key, Action::PromptFileDeletion),
        UiMode::ScreenTooSmall => if is_quit(key) { Action::Exit } else { Action::Nothing },
        UiMode::DeleteFile(_) => if is_quit(key) || key == Key::Esc || key == Key::Char('n') {
            Action::NormalMode
        } else if key == Key::Char('y') {
            Action::DeleteFile
        } else {
            Action::Nothing
        },
        UiMode::ErrorMessage(_) => if is_quit(key) || key == Key::Esc { Action::NormalMode } else { Action::Nothing },
        UiMode::Exiting => if is_quit(key) || key == Key::Esc || key == Key::Char('n') {
            Action::ResetUiModeAndRender
        } else if key == Key::Char('y') {
            Action::Exit
        } else {
            Action::Nothing
        },
        UiMode::WarningMessage => Action::ResetUiMode,
    }
}

/// Hands a key press to the handler of the current mode.
pub fn handle_keypress(mode: &UiMode, key: Key) -> (r: Action)
    ensures
        r == keypress_action(*mode, key),
{
    match mode {
        UiMode::Loading => handle_keypress_loading_mode(key),
        UiMode::Normal => handle_keypress_normal_mode(key),
        UiMode::ScreenTooSmall => handle_keypress_screen_too_small(key),
        UiMode::DeleteFile(_) => handle_keypress_delete_file_mode(key),
        UiMode::ErrorMessage(_) => handle_keypress_error_message(key),
        UiMode::Exiting => handle_keypress_exiting_mode(key),
        UiMode::WarningMessage => handle_keypress_warning_message(key),
    }
}

/// Whether the mode is one of the two browsing modes.
pub open spec fn is_browsing(mode: UiMode) -> bool {
    mode is Loading || mode is Normal
}

/// Leaves a modal mode for browsing: scanning or normal, as the scan has
/// finished or not; the browsing modes stay as they are.
pub fn reset_ui_mode(mode: UiMode, loaded: bool) -> (r: UiMode)
    ensures
        is_browsing(mode) ==> r == mode,
        !is_browsing(mode) ==> r == if loaded { UiMode::Normal } else { UiMode::Loading },
{
    match mode {
        UiMode::Loading => UiMode::Loading,
        UiMode::Normal => UiMode::Normal,
        _ => if loaded {
            UiMode::Normal
        } else {
            UiMode::Loading
        },
    }
}

/// Every key but Backspace does the same while scanning as once scanned.
pub proof fn law_scanning_keys_as_normal(key: Key)
    requires
        key != Key::Backspace,
    ensures
        keypress_action(UiMode::Loading, key) == keypress_action(UiMode::Normal, key),
{
}

/// Nothing deletes a file but `y` in the deletion prompt.
pub proof fn law_only_confirmation_deletes(mode: UiMode, key: Key)
    ensures
        keypress_action(mode, key) == Action::DeleteFile ==> mode is DeleteFile && key == Key::Char('y'),
{
}

/// Quitting is never ignored: it prompts, quits, or leaves the modal shown.
pub proof fn law_quit_key_always_answered(mode: UiMode, key: Key)
    requires
        is_quit(key),
    ensures
        keypress_action(mode, key) != Action::Nothing,
{
}


/// Nothing quits at once but `y` in the quit prompt, or Ctrl-C or `q` on a
/// screen too small to show anything: from every other mode quitting goes
/// through the prompt first, or only dismisses what is shown.
pub proof fn law_only_confirmed_exit(mode: UiMode, key: Key)
    ensures
        keypress_action(mode, key) == Action::Exit ==> (mode is Exiting && key == Key::Char('y')) || (
        mode is ScreenTooSmall && (key == Key::Ctrl('c') || key == Key::Char('q'))),
{
}

/// While an error or a deletion prompt is shown, Ctrl-C, `q` and Esc
/// dismiss it and go back to browsing; in the error box every other key
/// is ignored, so no key there quits, moves or deletes.
pub proof fn law_messages_dismissed(mode: UiMode, key: Key)
    requires
        mode is ErrorMessage || mode is DeleteFile,
    ensures
        (key == Key::Ctrl('c') || key == Key::Char('q') || key == Key::Esc) ==> keypress_action(mode, key)
            == Action::NormalMode,
        mode is ErrorMessage ==> keypress_action(mode, key) == Action::NormalMode || keypress_action(mode, key)
            == Action::Nothing,
        mode is ErrorMessage && !(key == Key::Ctrl('c') || key == Key::Char('q') || key == Key::Esc)
            ==> keypress_action(mode, key) == Action::Nothing,
{
}


/// In the two confirmation prompts `y` confirms, quitting the application
/// or deleting the entry asked about, while Ctrl-C, `q`, Esc and `n` step
/// back without doing either.
pub proof fn law_prompts_confirm_with_y(mode: UiMode, key: Key)
    requires
        mode is Exiting || mode is DeleteFile,
    ensures
        key == Key::Char('y') ==> keypress_action(mode, key) == if mode is Exiting {
            Action::Exit
        } else {
            Action::DeleteFile
        },
        (key == Key::Ctrl('c') || key == Key::Char('q') || key == Key::Esc || key == Key::Char('n'))
            ==> keypress_action(mode, key) != Action::Exit && keypress_action(mode, key) != Action::DeleteFile
            && keypress_action(mode, key) != Action::Nothing,
{
}

} // verus!
