use vstd::prelude::*;
use crate::board::{Board, Tile, best_candidate, is_candidate, selection_moved, tile_fits, HV};
use crate::controls::{Action, Key, UiMode, handle_keypress, is_browsing, keypress_action};
use crate::events::Event;
use crate::file_tree::{FileTree, FileToDelete, FileType, copied, names_prefix, relative_names, same_request};
use crate::files::{
    EntryModel, Folder, add_file_model, add_fits, add_folder_fits, add_folder_model, delete_model, delete_ok,
    empty_folder_model, lookup_model, model_size, path_model, relative_path,
};
use crate::listing::{law_listing_is_determined, same_metadata, sorted_listing};
use crate::tree_laws::{is_prefix, law_add_file_keeps_folders, law_add_folder_keeps_folders, law_delete_keeps_folders};
use crate::ui_effects::UiEffects;

verus! {

/// How much of the screen is to be drawn again.
#[derive(Clone, Copy, Debug, PartialEq, Eq, Structural)]
pub enum Redraw {
    Nothing,
    /// Draw the screen from the state as it is.
    Render,
    /// Lay the tiles out anew from the listed files, then draw.
    LayOutAndRender,
}

/// What is left for the caller after a change of state: drawing, an event
/// for the passing effects, and an entry to delete from the disk (after
/// drawing; its outcome goes back to `App::finish_deletion`).
#[derive(Debug)]
pub struct Effect {
    pub redraw: Redraw,
    pub event: Option<Event>,
    pub delete: Option<FileToDelete>,
}

/// A message to the application from the scanner, the keyboard, the timers
/// and the terminal.
#[derive(Debug)]
pub enum Instruction {
    SetPathToRed,
    ResetCurrentPathColor,
    FlashSpaceFreed,
    UnflashSpaceFreed,
    /// An entry met while scanning: whether it is a folder, the blocks of
    /// 512 bytes it takes, and its full path.
    AddEntryToBaseFolder(bool, u64, Vec<String>),
    StartUi,
    ToggleScanningVisualIndicator,
    RenderAndUpdateBoard,
    Render,
    ResetUiMode,
    Keypress(Key),
    IncrementFailedToRead,
}

pub open spec fn draws(e: Effect, redraw: Redraw) -> bool {
    e.redraw == redraw && e.event is None && e.delete is None
}

/// The state of the application: what is scanned, what is shown and what
/// the screen is doing. Drawing and the file system stay outside; the
/// methods say when the tiles are to be laid out again.
pub struct App {
    pub is_running: bool,
    pub loaded: bool,
    pub ui_mode: UiMode,
    pub board: Board,
    pub file_tree: FileTree,
    pub ui_effects: UiEffects,
}

/// `after` is `before` with only its board changed, and that only in its
/// selection.
pub open spec fn selection_only(before: App, after: App) -> bool {
    after == (App { board: Board { selected_index: after.board.selected_index, ..before.board }, ..before })
}

/// `after` is `before` with only its board's zoom level and listing
/// changed, the listing being that of the folder shown.
pub open spec fn zoom_only(before: App, after: App) -> bool {
    &&& after == (App {
        board: Board { zoom_level: after.board.zoom_level, files: after.board.files, ..before.board },
        ..before
    })
    &&& sorted_listing(after.board.files@, before.file_tree.current().entries, before.file_tree.current().size, true)
}

/// The mode `before` leaves a modal mode for: the same while browsing,
/// else normal once the scan is over, scanning before.
pub open spec fn browsing_mode(before: App) -> UiMode {
    if is_browsing(before.ui_mode) {
        before.ui_mode
    } else if before.loaded {
        UiMode::Normal
    } else {
        UiMode::Loading
    }
}

/// `f` asks to delete the entry of the selected tile of `app`: its path
/// below the scanned folder, the scanned folder's own path, and the tile's
/// type, descendant count and size.
pub open spec fn requests_selected(app: App, f: FileToDelete) -> bool {
    app.board.selected_tile() matches Some(t) && {
        &&& path_model(f.path_to_file@) == app.file_tree.current_names().push(t.name@)
        &&& path_model(f.path_in_filesystem@) == path_model(app.file_tree.path_in_filesystem@)
        &&& f.file_type == t.file_type
        &&& f.num_descendants == t.descendants
        &&& f.size == t.size
    }
}

/// `after` and `r` are the state and what is left to do once `action`
/// was carried out from `before`. What an action does not name stays as
/// it was.
pub open spec fn performed(before: App, action: Action, after: App, r: Effect) -> bool {
    match action {
        Action::PromptExit => after == (App { ui_mode: UiMode::Exiting, ..before }) && draws(r, Redraw::Render),
        Action::MoveSelectedRight => selection_moved(before.board.tiles@, before.board.selected_tile(),
            after.board.selected_index, HV::Horizontal, true)
            && selection_only(before, after) && draws(r, Redraw::Render),
        Action::MoveSelectedLeft => selection_moved(before.board.tiles@, before.board.selected_tile(),
            after.board.selected_index, HV::Horizontal, false)
            && selection_only(before, after) && draws(r, Redraw::Render),
        Action::MoveSelectedDown => selection_moved(before.board.tiles@, before.board.selected_tile(),
            after.board.selected_index, HV::Vertical, true)
            && selection_only(before, after) && draws(r, Redraw::Render),
        Action::MoveSelectedUp => selection_moved(before.board.tiles@, before.board.selected_tile(),
            after.board.selected_index, HV::Vertical, false)
            && selection_only(before, after) && draws(r, Redraw::Render),
        Action::ZoomIn => if before.board.zoom_level < before.board.files@.len() {
            after.board.zoom_level == before.board.zoom_level + 1 && zoom_only(before, after)
                && draws(r, Redraw::LayOutAndRender)
        } else {
            after == before && draws(r, Redraw::Nothing)
        },
        Action::ZoomOut => if before.board.zoom_level > 0 {
            after.board.zoom_level == before.board.zoom_level - 1 && zoom_only(before, after)
                && draws(r, Redraw::LayOutAndRender)
        } else {
            after == before && draws(r, Redraw::Nothing)
        },
        Action::ResetZoom => after.board.zoom_level == 0 && zoom_only(before, after)
            && draws(r, Redraw::LayOutAndRender),
        Action::HandleEnter => after == (App { board: after.board, file_tree: after.file_tree, ..before })
            && ((draws(r, Redraw::LayOutAndRender) && enter_handled(before, after, true))
            || (draws(r, Redraw::Nothing) && enter_handled(before, after, false))),
        Action::ShowWarningModal => after == (App { ui_mode: UiMode::WarningMessage, ..before })
            && draws(r, Redraw::Render),
        Action::GoUp => r.redraw == Redraw::LayOutAndRender && r.delete is None
            && after == (App { board: after.board, file_tree: after.file_tree, ..before })
            && if before.file_tree.current_names().len() > 0 {
                r.event is None
                    && after.file_tree.current_names() == before.file_tree.current_names().drop_last()
            } else {
                r.event == Some(Event::PathError)
                    && after.file_tree.current_names() == before.file_tree.current_names()
            }
            && (before.board.previous_indices_and_zoom_level@.len() > 0 ==> ({
                let (index, zoom) = before.board.previous_indices_and_zoom_level@.last();
                &&& after.board.selected_index == index
                &&& after.board.zoom_level == zoom
                &&& after.board.previous_indices_and_zoom_level@
                    == before.board.previous_indices_and_zoom_level@.drop_last()
            })),
        Action::PromptFileDeletion => if before.board.selected_tile() is Some {
            (after.ui_mode matches UiMode::DeleteFile(f) && requests_selected(before, f))
                && after == (App { ui_mode: after.ui_mode, ..before }) && draws(r, Redraw::Render)
        } else {
            after == before && draws(r, Redraw::Nothing)
        },
        Action::NormalMode => after == (App {
            ui_mode: UiMode::Normal,
            board: Board { files: after.board.files, ..before.board },
            ..before
        }) && sorted_listing(after.board.files@, before.file_tree.current().entries, before.file_tree.current().size, true)
            && draws(r, Redraw::LayOutAndRender),
        Action::DeleteFile => match before.ui_mode {
            UiMode::DeleteFile(f) => r.redraw == Redraw::Render && r.event is None
                && (r.delete matches Some(g) && same_request(g, f))
                && after == (App { ui_effects: UiEffects { deletion_in_progress: true, ..before.ui_effects }, ..before }),
            _ => draws(r, Redraw::Nothing) && after == before,
        },
        Action::Exit => after == (App { is_running: false, ..before }) && r.redraw == Redraw::Nothing
            && r.event == Some(Event::AppExit) && r.delete is None,
        Action::ResetUiModeAndRender => draws(r, Redraw::Render)
            && after == (App { ui_mode: browsing_mode(before), ..before }),
        Action::ResetUiMode => draws(r, Redraw::Nothing) && after == (App { ui_mode: browsing_mode(before), ..before }),
        Action::Nothing => draws(r, Redraw::Nothing) && after == before,
    }
}

/// Tile `j` is the first folder's tile: tiles come largest first, so it is
/// the largest folder shown.
pub open spec fn first_folder_tile(tiles: Seq<Tile>, j: int) -> bool {
    &&& 0 <= j < tiles.len()
    &&& tiles[j].file_type == FileType::Folder
    &&& forall|k: int| 0 <= k < j ==> tiles[k].file_type != FileType::Folder
}

/// Enter went for tile `j`: it entered it (`r`) exactly when the tile names
/// a folder of the folder shown.
pub open spec fn entered_tile(before: App, after: App, j: int, r: bool) -> bool {
    &&& 0 <= j < before.board.tiles@.len()
    &&& (r <==> lookup_model(before.file_tree.current(), seq![before.board.tiles@[j].name@])
        matches Some(EntryModel::Folder(_)))
    &&& r ==> after.file_tree.current_names()
        == before.file_tree.current_names().push(before.board.tiles@[j].name@)
}

/// What enter did, `r` telling whether a folder was entered. With a tile
/// selected, enter goes for it; with none, for the largest folder's tile,
/// if there is one. The selection enter went from is recorded with the
/// zoom level, for going back up.
pub open spec fn enter_handled(before: App, after: App, r: bool) -> bool {
    let tiles = before.board.tiles@;
    let zoom = before.board.zoom_level;
    &&& !r ==> after.file_tree.current_names() == before.file_tree.current_names()
    &&& match before.board.selected_index {
        Some(i) => {
            &&& after.board.previous_indices_and_zoom_level@
                == before.board.previous_indices_and_zoom_level@.push((Some(i), zoom))
            &&& if i < tiles.len() { entered_tile(before, after, i as int, r) } else { !r }
        },
        None => if exists|j: int| first_folder_tile(tiles, j) {
            exists|j: int| #[trigger] first_folder_tile(tiles, j) && entered_tile(before, after, j, r)
                && after.board.previous_indices_and_zoom_level@
                    == before.board.previous_indices_and_zoom_level@.push((Some(j as usize), zoom))
        } else {
            !r && after.board.previous_indices_and_zoom_level == before.board.previous_indices_and_zoom_level
        },
    }
}

/// `after` and `r` are the state and what is left to do once the deletion
/// that `f` asks for ended with `outcome` from `before`: the entry left the
/// tree and the space freed grew by its size, or the error is shown.
pub open spec fn deletion_finished(before: App, f: FileToDelete, outcome: Result<(), String>, after: App, r: Effect) -> bool {
    &&& !after.ui_effects.deletion_in_progress
    &&& match outcome {
        Ok(_) => {
            &&& after.file_tree.base() == delete_model(before.file_tree.base(), path_model(f.path_to_file@))
            &&& after.file_tree.space_freed == before.file_tree.space_freed + f.size
            &&& after.file_tree.current_names() == before.file_tree.current_names()
            &&& after.ui_mode is Normal
            &&& after.board.selected_index is None
            &&& r.redraw == Redraw::LayOutAndRender && r.event == Some(Event::FileDeleted) && r.delete is None
        },
        Err(message) => {
            &&& after.ui_mode == UiMode::ErrorMessage(message)
            &&& after.file_tree == before.file_tree
            &&& after.board == before.board
            &&& draws(r, Redraw::Render)
        },
    }
}

/// A deletion that went through moves the entry's size from the scanned
/// folder's total to the space freed: their sum stays.
pub proof fn law_deletion_moves_size_to_freed(a: App, f: FileToDelete, b: App, r: Effect)
    requires
        removable(a, f),
        f.size == model_size(lookup_model(a.file_tree.base(), path_model(f.path_to_file@))->0),
        deletion_finished(a, f, Ok(()), b, r),
    ensures
        b.file_tree.base().size + b.file_tree.space_freed == a.file_tree.base().size + a.file_tree.space_freed,
{
}

/// The tree can give up the entry that `f` names: the names lead to it,
/// the space freed does not overflow, and it is not the folder being shown
/// or one above it.
pub open spec fn removable(app: App, f: FileToDelete) -> bool {
    &&& delete_ok(app.file_tree.base(), path_model(f.path_to_file@))
    &&& app.file_tree.space_freed + f.size <= u64::MAX
    &&& !is_prefix(path_model(f.path_to_file@), app.file_tree.current_names())
}

/// The scanned entry's path below the base folder.
pub open spec fn entry_relative(app: App, path: Seq<String>) -> Seq<Seq<char>> {
    relative_path(path_model(path), app.file_tree.path_in_filesystem@.len() as int)
}

/// An entry can be recorded with no count overflowing, and it does not
/// stand in place of the folder being shown or one above it.
pub open spec fn entry_fits(app: App, is_dir: bool, blocks: u64, path: Seq<String>) -> bool {
    let rel = entry_relative(app, path);
    let cur = app.file_tree.current_names();
    if is_dir {
        &&& add_folder_fits(app.file_tree.base(), rel)
        &&& !(is_prefix(rel, cur) && rel.len() < cur.len())
    } else {
        &&& blocks * 512 <= u64::MAX
        &&& add_fits(app.file_tree.base(), rel, (blocks * 512) as nat)
        &&& !is_prefix(rel, cur)
    }
}

/// The instruction can be carried out with no count overflowing.
pub open spec fn instruction_fits(app: App, instruction: Instruction) -> bool {
    match instruction {
        Instruction::AddEntryToBaseFolder(is_dir, blocks, path) => entry_fits(app, is_dir, blocks, path@),
        Instruction::ToggleScanningVisualIndicator => app.ui_effects.loading_progress_indicator + 3 <= u64::MAX,
        Instruction::IncrementFailedToRead => app.file_tree.failed_to_read < u64::MAX,
        _ => true,
    }
}

/// Zooming in and then out again, from a board that lists the folder
/// shown, comes back to the zoom level and the listing one had, with the
/// tiles, selection and everything else untouched, wherever zooming in was
/// possible.
pub proof fn law_zoom_in_then_out(a: App, b: App, c: App, zoomed_in: Effect, zoomed_out: Effect)
    requires
        sorted_listing(a.board.files@, a.file_tree.current().entries, a.file_tree.current().size, true),
        a.board.zoom_level < a.board.files@.len(),
        performed(a, Action::ZoomIn, b, zoomed_in),
        performed(b, Action::ZoomOut, c, zoomed_out),
    ensures
        c.board.zoom_level == a.board.zoom_level,
        c.board.files@.len() == a.board.files@.len(),
        forall|i: int| 0 <= i < a.board.files@.len() ==> same_metadata(#[trigger] c.board.files@[i], a.board.files@[i]),
        c == (App { board: Board { files: c.board.files, ..a.board }, ..a }),
        zoomed_in.redraw == Redraw::LayOutAndRender,
        zoomed_out.redraw == Redraw::LayOutAndRender,
{
    let entries = a.file_tree.current().entries;
    law_listing_is_determined(c.board.files@, a.board.files@, entries, entries, a.file_tree.current().size, true);
}

/// Entering the selected folder and going back up returns to the folder
/// one was in, with the selection and zoom level one left it with.
pub proof fn law_enter_then_go_up(a: App, b: App, c: App, entered: Effect, went_up: Effect)
    requires
        a.board.selected_index is Some,
        performed(a, Action::HandleEnter, b, entered),
        entered.redraw == Redraw::LayOutAndRender,
        performed(b, Action::GoUp, c, went_up),
    ensures
        c.file_tree.current_names() == a.file_tree.current_names(),
        c.board.selected_index == a.board.selected_index,
        c.board.zoom_level == a.board.zoom_level,
        c.board.previous_indices_and_zoom_level@ == a.board.previous_indices_and_zoom_level@,
        went_up.event is None,
{
    let k = choose|k: int| 0 <= k < a.board.tiles@.len() && b.file_tree.current_names()
        == a.file_tree.current_names().push(#[trigger] a.board.tiles@[k].name@);
    assert(b.file_tree.current_names().drop_last() =~= a.file_tree.current_names());
    assert(b.board.previous_indices_and_zoom_level@.drop_last() =~= a.board.previous_indices_and_zoom_level@);
}

/// Pressing enter with nothing selected enters the largest folder shown;
/// going back up then returns to the folder one was in, with that folder's
/// tile selected and the zoom level one left.
pub proof fn law_enter_largest_then_go_up(a: App, b: App, c: App, entered: Effect, went_up: Effect)
    requires
        a.board.selected_index is None,
        performed(a, Action::HandleEnter, b, entered),
        entered.redraw == Redraw::LayOutAndRender,
        performed(b, Action::GoUp, c, went_up),
    ensures
        c.file_tree.current_names() == a.file_tree.current_names(),
        c.board.selected_index matches Some(j) && first_folder_tile(a.board.tiles@, j as int),
        c.board.zoom_level == a.board.zoom_level,
        c.board.previous_indices_and_zoom_level@ == a.board.previous_indices_and_zoom_level@,
        went_up.event is None,
{
    let tiles = a.board.tiles@;
    let j = choose|j: int| #[trigger] first_folder_tile(tiles, j) && entered_tile(a, b, j, true)
        && b.board.previous_indices_and_zoom_level@
            == a.board.previous_indices_and_zoom_level@.push((Some(j as usize), a.board.zoom_level));
    assert(b.file_tree.current_names().drop_last() =~= a.file_tree.current_names());
    assert(b.board.previous_indices_and_zoom_level@.drop_last() =~= a.board.previous_indices_and_zoom_level@);
    assert(a.board.tiles.len() == tiles.len());
    assert(j as usize as int == j);
}

impl App {
    /// The tree is well formed, the current names lead to a folder, and
    /// every tile fits in cell coordinates.
    pub open spec fn wf(&self) -> bool {
        &&& self.file_tree.wf()
        &&& self.board.tiles_fit()
    }

    /// An application about to scan the folder at `path_in_filesystem`.
    pub fn new(path_in_filesystem: Vec<String>) -> (r: App)
        requires
            path_in_filesystem@.len() >= 1,
        ensures
            r.wf(),
            r.is_running,
            !r.loaded,
            r.ui_mode is Loading,
            r.file_tree.base() == empty_folder_model(path_in_filesystem@.last()@),
            r.file_tree.current_names().len() == 0,
            r.file_tree.path_in_filesystem == path_in_filesystem,
            r.board.tiles@.len() == 0,
            r.board.selected_index is None,
    {
        let board = Board::new(&Folder::new(&path_in_filesystem));
        let base_folder = Folder::new(&path_in_filesystem);
        let file_tree = FileTree::new(base_folder, path_in_filesystem);
        proof {
            assert(file_tree.current_names() =~= Seq::<Seq<char>>::empty());
        }
        App {
            is_running: true,
            loaded: false,
            board,
            file_tree,
            ui_mode: UiMode::Loading,
            ui_effects: UiEffects::new(),
        }
    }

    /// A screen narrower than 50 columns or lower than 15 rows shows that
    /// it is too small.
    pub fn check_screen_size(&mut self, width: u16, height: u16)
        ensures
            (width < 50 || height < 15) ==> final(self).ui_mode is ScreenTooSmall,
            !(width < 50 || height < 15) ==> final(self).ui_mode == old(self).ui_mode,
            *final(self) == (App { ui_mode: final(self).ui_mode, ..*old(self) }),
    {
        if width < 50 || height < 15 {
            self.ui_mode = UiMode::ScreenTooSmall;
        }
    }

    /// Lists the current folder's entries for the board anew.
    pub fn update_board(&mut self)
        requires
            old(self).wf(),
        ensures
            final(self).wf(),
            sorted_listing(final(self).board.files@, final(self).file_tree.current().entries, final(self).file_tree.current().size, true),
            *final(self) == (App { board: Board { files: final(self).board.files, ..old(self).board }, ..*old(self) }),
    {
        let current_folder = self.file_tree.get_current_folder();
        self.board.change_files(current_folder);
    }

    pub fn increment_loading_progress_indicator(&mut self)
        requires
            old(self).ui_effects.loading_progress_indicator + 3 <= u64::MAX,
        ensures
            final(self).ui_effects.loading_progress_indicator == old(self).ui_effects.loading_progress_indicator + 3,
            *final(self) == (App { ui_effects: UiEffects {
                loading_progress_indicator: final(self).ui_effects.loading_progress_indicator,
                ..old(self).ui_effects
            }, ..*old(self) }),
    {
        self.ui_effects.increment_loading_progress_indicator();
    }

    pub fn flash_space_freed(&mut self)
        ensures
            *final(self) == (App { ui_effects: UiEffects { flash_space_freed: true, ..old(self).ui_effects }, ..*old(self) }),
    {
        self.ui_effects.flash_space_freed = true;
    }

    pub fn unflash_space_freed(&mut self)
        ensures
            *final(self) == (App { ui_effects: UiEffects { flash_space_freed: false, ..old(self).ui_effects }, ..*old(self) }),
    {
        self.ui_effects.flash_space_freed = false;
    }

    pub fn set_path_to_red(&mut self)
        ensures
            *final(self) == (App { ui_effects: UiEffects { current_path_is_red: true, ..old(self).ui_effects }, ..*old(self) }),
    {
        self.ui_effects.current_path_is_red = true;
    }

    pub fn reset_current_path_color(&mut self)
        ensures
            *final(self) == (App { ui_effects: UiEffects { current_path_is_red: false, ..old(self).ui_effects }, ..*old(self) }),
    {
        self.ui_effects.current_path_is_red = false;
    }

    /// The scan is over: the screen leaves the scanning mode and the board
    /// lists the current folder anew.
    pub fn start_ui(&mut self)
        requires
            old(self).wf(),
        ensures
            final(self).wf(),
            final(self).ui_mode is Normal,
            final(self).loaded,
            sorted_listing(final(self).board.files@, final(self).file_tree.current().entries, final(self).file_tree.current().size, true),
            *final(self) == (App {
                ui_mode: UiMode::Normal,
                loaded: true,
                board: Board { files: final(self).board.files, ..old(self).board },
                ..*old(self)
            }),
    {
        self.ui_mode = UiMode::Normal;
        self.loaded = true;
        self.update_board();
    }

    /// Records an entry met while scanning, and remembers its path as the
    /// last one read.
    pub fn add_entry_to_base_folder(&mut self, is_dir: bool, blocks: u64, entry_path: Vec<String>)
        requires
            old(self).wf(),
            is_dir ==> add_folder_fits(
                old(self).file_tree.base(),
                relative_path(path_model(entry_path@), old(self).file_tree.path_in_filesystem@.len() as int),
            ),
            !is_dir ==> blocks * 512 <= u64::MAX && add_fits(
                old(self).file_tree.base(),
                relative_path(path_model(entry_path@), old(self).file_tree.path_in_filesystem@.len() as int),
                (blocks * 512) as nat,
            ),
        ensures
            final(self).file_tree.base() == if is_dir {
                add_folder_model(
                    old(self).file_tree.base(),
                    relative_path(path_model(entry_path@), old(self).file_tree.path_in_filesystem@.len() as int),
                )
            } else {
                add_file_model(
                    old(self).file_tree.base(),
                    relative_path(path_model(entry_path@), old(self).file_tree.path_in_filesystem@.len() as int),
                    (blocks * 512) as nat,
                )
            },
            final(self).ui_effects == (UiEffects { last_read_path: Some(entry_path), ..old(self).ui_effects }),
            final(self).file_tree.current_folder_names == old(self).file_tree.current_folder_names,
            final(self).board == old(self).board,
            final(self).ui_mode == old(self).ui_mode,
            final(self).loaded == old(self).loaded,
            final(self).is_running == old(self).is_running,
            ({
                let rel = relative_path(path_model(entry_path@), old(self).file_tree.path_in_filesystem@.len() as int);
                let cur = old(self).file_tree.current_names();
                (if is_dir { !(is_prefix(rel, cur) && rel.len() < cur.len()) } else { !is_prefix(rel, cur) })
                    ==> final(self).wf()
            }),
    {
        let ghost rel = relative_path(path_model(entry_path@), self.file_tree.path_in_filesystem@.len() as int);
        let ghost cur = self.file_tree.current_names();
        let ghost before = self.file_tree.base();
        self.file_tree.add_entry(is_dir, blocks, &entry_path);
        proof {
            if cur.len() > 0 && rel.len() >= 1 {
                if is_dir {
                    if !(is_prefix(rel, cur) && rel.len() < cur.len()) {
                        law_add_folder_keeps_folders(before, rel, cur);
                    }
                } else {
                    if !is_prefix(rel, cur) {
                        law_add_file_keeps_folders(before, rel, (blocks * 512) as nat, cur);
                    }
                }
            }
            if rel.len() == 0 {
                assert(add_folder_model(before, rel) == before);
                assert(add_file_model(before, rel, (blocks * 512) as nat) == before);
            }
        }
        self.ui_effects.last_read_path = Some(entry_path);
    }

    /// Leaves a modal mode for browsing: scanning or normal, as the scan has
    /// finished or not.
    pub fn reset_ui_mode(&mut self)
        ensures
            is_browsing(old(self).ui_mode) ==> final(self).ui_mode == old(self).ui_mode,
            !is_browsing(old(self).ui_mode) ==> final(self).ui_mode == if old(self).loaded {
                UiMode::Normal
            } else {
                UiMode::Loading
            },
            *final(self) == (App { ui_mode: final(self).ui_mode, ..*old(self) }),
    {
        match self.ui_mode {
            UiMode::Loading | UiMode::Normal => {},
            _ => {
                self.ui_mode = if self.loaded {
                    UiMode::Normal
                } else {
                    UiMode::Loading
                };
            },
        }
    }

    /// Asks whether to quit.
    pub fn prompt_exit(&mut self)
        ensures
            *final(self) == (App { ui_mode: UiMode::Exiting, ..*old(self) }),
    {
        self.ui_mode = UiMode::Exiting;
    }

    /// Warns that nothing can be deleted while scanning.
    pub fn show_warning_modal(&mut self)
        ensures
            *final(self) == (App { ui_mode: UiMode::WarningMessage, ..*old(self) }),
    {
        self.ui_mode = UiMode::WarningMessage;
    }

    /// Stops the application.
    pub fn exit(&mut self)
        ensures
            *final(self) == (App { is_running: false, ..*old(self) }),
    {
        self.is_running = false;
    }

    pub fn move_selected_right(&mut self)
        requires
            old(self).wf(),
        ensures
            final(self).wf(),
            match old(self).board.selected_tile() {
                None => final(self).board.selected_index == Some(0usize),
                Some(current) => match final(self).board.selected_index {
                    Some(j) => best_candidate(old(self).board.tiles@, current, HV::Horizontal, true, j as int),
                    None => forall|k: int| 0 <= k < old(self).board.tiles@.len() ==> !is_candidate(
                        #[trigger] old(self).board.tiles@[k], current, HV::Horizontal, true),
                },
            },
            *final(self) == (App {
                board: Board { selected_index: final(self).board.selected_index, ..old(self).board },
                ..*old(self)
            }),
    {
        self.board.move_selected_right();
    }

    pub fn move_selected_left(&mut self)
        requires
            old(self).wf(),
        ensures
            final(self).wf(),
            match old(self).board.selected_tile() {
                None => final(self).board.selected_index == Some(0usize),
                Some(current) => match final(self).board.selected_index {
                    Some(j) => best_candidate(old(self).board.tiles@, current, HV::Horizontal, false, j as int),
                    None => forall|k: int| 0 <= k < old(self).board.tiles@.len() ==> !is_candidate(
                        #[trigger] old(self).board.tiles@[k], current, HV::Horizontal, false),
                },
            },
            *final(self) == (App {
                board: Board { selected_index: final(self).board.selected_index, ..old(self).board },
                ..*old(self)
            }),
    {
        self.board.move_selected_left();
    }

    pub fn move_selected_down(&mut self)
        requires
            old(self).wf(),
        ensures
            final(self).wf(),
            match old(self).board.selected_tile() {
                None => final(self).board.selected_index == Some(0usize),
                Some(current) => match final(self).board.selected_index {
                    Some(j) => best_candidate(old(self).board.tiles@, current, HV::Vertical, true, j as int),
                    None => forall|k: int| 0 <= k < old(self).board.tiles@.len() ==> !is_candidate(
                        #[trigger] old(self).board.tiles@[k], current, HV::Vertical, true),
                },
            },
            *final(self) == (App {
                board: Board { selected_index: final(self).board.selected_index, ..old(self).board },
                ..*old(self)
            }),
    {
        self.board.move_selected_down();
    }

    pub fn move_selected_up(&mut self)
        requires
            old(self).wf(),
        ensures
            final(self).wf(),
            match old(self).board.selected_tile() {
                None => final(self).board.selected_index == Some(0usize),
                Some(current) => match final(self).board.selected_index {
                    Some(j) => best_candidate(old(self).board.tiles@, current, HV::Vertical, false, j as int),
                    None => forall|k: int| 0 <= k < old(self).board.tiles@.len() ==> !is_candidate(
                        #[trigger] old(self).board.tiles@[k], current, HV::Vertical, false),
                },
            },
            *final(self) == (App {
                board: Board { selected_index: final(self).board.selected_index, ..old(self).board },
                ..*old(self)
            }),
    {
        self.board.move_selected_up();
    }

    /// Hides one more of the largest entries; `true` when the tiles are to
    /// be laid out again.
    pub fn zoom_in(&mut self) -> (r: bool)
        requires
            old(self).wf(),
        ensures
            final(self).wf(),
            r == (old(self).board.zoom_level < old(self).board.files@.len()),
            r ==> final(self).board.zoom_level == old(self).board.zoom_level + 1,
            r ==> sorted_listing(final(self).board.files@, old(self).file_tree.current().entries,
                old(self).file_tree.current().size, true),
            r ==> *final(self) == (App {
                board: Board { zoom_level: final(self).board.zoom_level, files: final(self).board.files, ..old(self).board },
                ..*old(self)
            }),
            !r ==> *final(self) == *old(self),
    {
        let current_folder = self.file_tree.get_current_folder();
        self.board.zoom_in(current_folder)
    }

    /// Shows one more of the hidden entries; `true` when the tiles are to be
    /// laid out again.
    pub fn zoom_out(&mut self) -> (r: bool)
        requires
            old(self).wf(),
        ensures
            final(self).wf(),
            r == (old(self).board.zoom_level > 0),
            r ==> final(self).board.zoom_level == old(self).board.zoom_level - 1,
            r ==> sorted_listing(final(self).board.files@, old(self).file_tree.current().entries,
                old(self).file_tree.current().size, true),
            r ==> *final(self) == (App {
                board: Board { zoom_level: final(self).board.zoom_level, files: final(self).board.files, ..old(self).board },
                ..*old(self)
            }),
            !r ==> *final(self) == *old(self),
    {
        let current_folder = self.file_tree.get_current_folder();
        self.board.zoom_out(current_folder)
    }

    /// Shows every entry again.
    pub fn reset_zoom(&mut self)
        requires
            old(self).wf(),
        ensures
            final(self).wf(),
            final(self).board.zoom_level == 0,
            sorted_listing(final(self).board.files@, old(self).file_tree.current().entries,
                old(self).file_tree.current().size, true),
            *final(self) == (App {
                board: Board { zoom_level: 0, files: final(self).board.files, ..old(self).board },
                ..*old(self)
            }),
    {
        let current_folder = self.file_tree.get_current_folder();
        self.board.reset_zoom(current_folder);
    }

    /// Enters the selected tile's folder, remembering the selection and
    /// zoom level; a selected file is not entered. `true` when a folder was
    /// entered and the tiles are to be laid out again.
    pub fn enter_selected(&mut self) -> (r: bool)
        requires
            old(self).wf(),
        ensures
            final(self).wf(),
            old(self).board.selected_index is Some ==> final(self).board.previous_indices_and_zoom_level@
                == old(self).board.previous_indices_and_zoom_level@.push(
                (old(self).board.selected_index, old(self).board.zoom_level),
            ),
            old(self).board.selected_index is None ==> final(self).board.previous_indices_and_zoom_level
                == old(self).board.previous_indices_and_zoom_level,
            r <==> (old(self).board.selected_tile() matches Some(t) && lookup_model(
                old(self).file_tree.current(),
                seq![t.name@],
            ) matches Some(EntryModel::Folder(_))),
            r ==> final(self).file_tree.current_names() == old(self).file_tree.current_names().push(
                old(self).board.selected_tile()->0.name@,
            ) && final(self).board.selected_index is None,
            !r ==> final(self).file_tree.current_names() == old(self).file_tree.current_names()
                && final(self).board.selected_index == old(self).board.selected_index,
            final(self).file_tree.base() == old(self).file_tree.base(),
            *final(self) == (App { board: final(self).board, file_tree: final(self).file_tree, ..*old(self) }),
    {
        if self.board.selected_index.is_some() {
            self.board.record_current_index_and_zoom_level();
        }
        let selected_name = match self.board.currently_selected() {
            Some(tile) => tile.name.clone(),
            None => return false,
        };
        let is_folder = match self.file_tree.item_in_current_folder(&selected_name) {
            Some(crate::files::FileOrFolder::Folder(_)) => true,
            _ => false,
        };
        if is_folder {
            self.file_tree.enter_folder(&selected_name);
            self.board.reset_selected_index();
            self.update_board();
            true
        } else {
            false
        }
    }

    /// With nothing selected, selects the first folder's tile first; then
    /// enters the selection.
    pub fn handle_enter(&mut self) -> (r: bool)
        requires
            old(self).wf(),
        ensures
            final(self).wf(),
            final(self).file_tree.base() == old(self).file_tree.base(),
            enter_handled(*old(self), *final(self), r),
            *final(self) == (App { board: final(self).board, file_tree: final(self).file_tree, ..*old(self) }),
    {
        let ghost before = *self;
        if !self.board.has_selected_index() {
            self.board.move_to_largest_folder();
        }
        let ghost mid = *self;
        let r = self.enter_selected();
        proof {
            let tiles = before.board.tiles@;
            if before.board.selected_index is None {
                if exists|k: int| 0 <= k < tiles.len() && tiles[k].file_type == FileType::Folder {
                    let j = mid.board.selected_index->0 as int;
                    assert(first_folder_tile(tiles, j));
                    assert(entered_tile(before, *self, j, r));
                } else {
                    assert forall|j: int| !first_folder_tile(tiles, j) by {
                        if first_folder_tile(tiles, j) {
                            assert(0 <= j < tiles.len() && tiles[j].file_type == FileType::Folder);
                        }
                    }
                }
            }
        }
        r
    }

    /// Goes back to the parent folder, restoring the selection and zoom level
    /// recorded when its child was entered. `false` when already at the
    /// base folder.
    pub fn go_up(&mut self) -> (r: bool)
        requires
            old(self).wf(),
        ensures
            final(self).wf(),
            r == (old(self).file_tree.current_names().len() > 0),
            r ==> final(self).file_tree.current_names() == old(self).file_tree.current_names().drop_last(),
            !r ==> final(self).file_tree.current_names() == old(self).file_tree.current_names(),
            old(self).board.previous_indices_and_zoom_level@.len() > 0 ==> ({
                let (index, zoom) = old(self).board.previous_indices_and_zoom_level@.last();
                &&& final(self).board.selected_index == index
                &&& final(self).board.zoom_level == zoom
                &&& final(self).board.previous_indices_and_zoom_level@ == old(self).board.previous_indices_and_zoom_level@.drop_last()
            }),
            old(self).board.previous_indices_and_zoom_level@.len() == 0 ==> final(self).board.selected_index
                == old(self).board.selected_index,
            final(self).file_tree.base() == old(self).file_tree.base(),
            *final(self) == (App { board: final(self).board, file_tree: final(self).file_tree, ..*old(self) }),
    {
        if let Some((index, zoom_level)) = self.board.pop_previous_index_and_zoom_level() {
            self.board.selected_index = index;
            self.board.set_zoom_index(zoom_level);
        }
        let succeeded = self.file_tree.leave_folder();
        self.update_board();
        succeeded
    }

    /// The selected entry, as the deletion prompt shows it.
    pub fn get_file_to_delete(&self) -> (r: Option<FileToDelete>)
        ensures
            r is Some <==> self.board.selected_tile() is Some,
            r matches Some(f) ==> ({
                let t = self.board.selected_tile()->0;
                &&& path_model(f.path_to_file@) == self.file_tree.current_names().push(t.name@)
                &&& path_model(f.path_in_filesystem@) == path_model(self.file_tree.path_in_filesystem@)
                &&& f.file_type == t.file_type
                &&& f.num_descendants == t.descendants
                &&& f.size == t.size
            }),
    {
        let currently_selected = match self.board.currently_selected() {
            Some(t) => t,
            None => return None,
        };
        let mut path_to_file = copied(&self.file_tree.current_folder_names);
        let name = currently_selected.name.clone();
        let ghost before = path_to_file@;
        path_to_file.push(name);
        proof {
            crate::files::lemma_path_model_push(before, name);
        }
        Some(FileToDelete {
            path_in_filesystem: copied(&self.file_tree.path_in_filesystem),
            path_to_file,
            file_type: currently_selected.file_type,
            num_descendants: currently_selected.descendants,
            size: currently_selected.size,
        })
    }

    /// Asks to confirm deleting the selected entry, if one is selected.
    pub fn prompt_file_deletion(&mut self) -> (r: bool)
        ensures
            r == (old(self).board.selected_tile() is Some),
            r ==> (final(self).ui_mode matches UiMode::DeleteFile(f) && requests_selected(*old(self), f)),
            r ==> *final(self) == (App { ui_mode: final(self).ui_mode, ..*old(self) }),
            !r ==> *final(self) == *old(self),
    {
        match self.get_file_to_delete() {
            Some(file_to_delete) => {
                self.ui_mode = UiMode::DeleteFile(file_to_delete);
                true
            },
            None => false,
        }
    }

    /// Back to browsing the scanned tree.
    pub fn normal_mode(&mut self)
        requires
            old(self).wf(),
        ensures
            final(self).wf(),
            sorted_listing(final(self).board.files@, final(self).file_tree.current().entries, final(self).file_tree.current().size, true),
            *final(self) == (App {
                ui_mode: UiMode::Normal,
                board: Board { files: final(self).board.files, ..old(self).board },
                ..*old(self)
            }),
    {
        self.ui_mode = UiMode::Normal;
        self.update_board();
    }

    /// Takes an entry deleted from the disk off the tree: the space freed
    /// grows by its size and the selection is cleared.
    pub fn remove_file_from_ui(&mut self, file_to_delete: &FileToDelete)
        requires
            old(self).wf(),
            delete_ok(old(self).file_tree.base(), path_model(file_to_delete.path_to_file@)),
            old(self).file_tree.space_freed + file_to_delete.size <= u64::MAX,
        ensures
            final(self).file_tree.base() == delete_model(
                old(self).file_tree.base(),
                path_model(file_to_delete.path_to_file@),
            ),
            final(self).file_tree.space_freed == old(self).file_tree.space_freed + file_to_delete.size,
            final(self).board.selected_index is None,
            final(self).file_tree.current_folder_names == old(self).file_tree.current_folder_names,
            !is_prefix(path_model(file_to_delete.path_to_file@), old(self).file_tree.current_names())
                ==> final(self).wf(),
    {
        let ghost before = self.file_tree.base();
        let ghost cur = self.file_tree.current_names();
        self.file_tree.space_freed = self.file_tree.space_freed + file_to_delete.size;
        self.file_tree.delete_file(file_to_delete);
        self.board.reset_selected_index();
        proof {
            if cur.len() > 0 && !is_prefix(path_model(file_to_delete.path_to_file@), cur) {
                law_delete_keeps_folders(before, path_model(file_to_delete.path_to_file@), cur);
            }
        }
    }

    pub fn increment_failed_to_read(&mut self)
        requires
            old(self).file_tree.failed_to_read < u64::MAX,
        ensures
            final(self).file_tree.failed_to_read == old(self).file_tree.failed_to_read + 1,
            final(self).file_tree.base() == old(self).file_tree.base(),
            final(self).file_tree.current_folder_names == old(self).file_tree.current_folder_names,
            final(self).file_tree.space_freed == old(self).file_tree.space_freed,
            *final(self) == (App {
                file_tree: FileTree { failed_to_read: final(self).file_tree.failed_to_read, ..old(self).file_tree },
                ..*old(self)
            }),
    {
        self.file_tree.failed_to_read = self.file_tree.failed_to_read + 1;
    }

    /// Takes the tiles laid out for the listed files, when every tile's
    /// edges stay within the range of a cell coordinate; `false`, with
    /// nothing changed, otherwise.
    pub fn set_tiles(&mut self, tiles: Vec<Tile>, unrenderable_tile_coordinates: Option<(u16, u16)>) -> (r: bool)
        requires
            old(self).wf(),
        ensures
            final(self).wf(),
            r == forall|i: int| 0 <= i < tiles@.len() ==> tile_fits(#[trigger] tiles@[i]),
            r ==> final(self).board.tiles == tiles
                && final(self).board.unrenderable_tile_coordinates == unrenderable_tile_coordinates,
            !r ==> final(self).board == old(self).board,
            final(self).board.files == old(self).board.files,
            final(self).board.selected_index == old(self).board.selected_index,
            final(self).board.zoom_level == old(self).board.zoom_level,
            final(self).file_tree == old(self).file_tree,
            final(self).ui_mode == old(self).ui_mode,
    {
        let mut i: usize = 0;
        while i < tiles.len()
            invariant
                i <= tiles@.len(),
                forall|j: int| 0 <= j < i ==> tile_fits(#[trigger] tiles@[j]),
                self.wf(),
                self.board == old(self).board,
                self.file_tree == old(self).file_tree,
                self.ui_mode == old(self).ui_mode,
            decreases tiles@.len() - i,
        {
            let t = &tiles[i];
            if t.x as u32 + t.width as u32 > 65535 || t.y as u32 + t.height as u32 > 65535 {
                return false;
            }
            i = i + 1;
        }
        self.board.set_tiles(tiles, unrenderable_tile_coordinates);
        true
    }

    /// Carries out the answer to a key press.
    pub fn perform(&mut self, action: Action) -> (r: Effect)
        requires
            old(self).wf(),
        ensures
            final(self).wf(),
            final(self).file_tree.base() == old(self).file_tree.base(),
            r.delete is Some ==> action == Action::DeleteFile,
            performed(*old(self), action, *final(self), r),
    {
        let nothing = Effect { redraw: Redraw::Nothing, event: None, delete: None };
        let render = Effect { redraw: Redraw::Render, event: None, delete: None };
        let lay_out = Effect { redraw: Redraw::LayOutAndRender, event: None, delete: None };
        match action {
            Action::PromptExit => {
                self.prompt_exit();
                render
            },
            Action::MoveSelectedRight => {
                self.move_selected_right();
                render
            },
            Action::MoveSelectedLeft => {
                self.move_selected_left();
                render
            },
            Action::MoveSelectedDown => {
                self.move_selected_down();
                render
            },
            Action::MoveSelectedUp => {
                self.move_selected_up();
                render
            },
            Action::ZoomIn => if self.zoom_in() { lay_out } else { nothing },
            Action::ZoomOut => if self.zoom_out() { lay_out } else { nothing },
            Action::ResetZoom => {
                self.reset_zoom();
                lay_out
            },
            Action::HandleEnter => if self.handle_enter() { lay_out } else { nothing },
            Action::ShowWarningModal => {
                self.show_warning_modal();
                render
            },
            Action::GoUp => {
                if self.go_up() {
                    lay_out
                } else {
                    Effect { redraw: Redraw::LayOutAndRender, event: Some(Event::PathError), delete: None }
                }
            },
            Action::PromptFileDeletion => if self.prompt_file_deletion() { render } else { nothing },
            Action::NormalMode => {
                self.normal_mode();
                lay_out
            },
            Action::DeleteFile => {
                let request = match &self.ui_mode {
                    UiMode::DeleteFile(f) => f.duplicate(),
                    _ => return nothing,
                };
                self.ui_effects.deletion_in_progress = true;
                Effect { redraw: Redraw::Render, event: None, delete: Some(request) }
            },
            Action::Exit => {
                self.exit();
                Effect { redraw: Redraw::Nothing, event: Some(Event::AppExit), delete: None }
            },
            Action::ResetUiModeAndRender => {
                self.reset_ui_mode();
                render
            },
            Action::ResetUiMode => {
                self.reset_ui_mode();
                nothing
            },
            Action::Nothing => nothing,
        }
    }

    /// Answers a key press as the current mode does.
    pub fn handle_key(&mut self, key: Key) -> (r: Effect)
        requires
            old(self).wf(),
        ensures
            final(self).wf(),
            final(self).file_tree.base() == old(self).file_tree.base(),
            performed(*old(self), keypress_action(old(self).ui_mode, key), *final(self), r),
    {
        let action = handle_keypress(&self.ui_mode, key);
        self.perform(action)
    }

    /// Whether `finish_deletion` can take the entry that `f` names off the
    /// tree.
    pub fn can_remove(&self, f: &FileToDelete) -> (r: bool)
        requires
            self.wf(),
        ensures
            r == removable(*self, *f),
    {
        if !self.file_tree.base_folder.can_delete_path(&f.path_to_file) {
            return false;
        }
        if self.file_tree.space_freed > u64::MAX - f.size {
            return false;
        }
        !names_prefix(&f.path_to_file, &self.file_tree.current_folder_names)
    }

    /// Takes in how deleting `f` from the disk went: once deleted, the entry
    /// leaves the tree, the space freed grows and the board is listed anew;
    /// otherwise the error is shown.
    pub fn finish_deletion(&mut self, f: &FileToDelete, outcome: Result<(), String>) -> (r: Effect)
        requires
            old(self).wf(),
            outcome is Ok ==> removable(*old(self), *f),
        ensures
            final(self).wf(),
            deletion_finished(*old(self), *f, outcome, *final(self), r),
    {
        let r = match outcome {
            Ok(_) => {
                self.remove_file_from_ui(f);
                self.normal_mode();
                Effect { redraw: Redraw::LayOutAndRender, event: Some(Event::FileDeleted), delete: None }
            },
            Err(message) => {
                self.ui_mode = UiMode::ErrorMessage(message);
                Effect { redraw: Redraw::Render, event: None, delete: None }
            },
        };
        self.ui_effects.deletion_in_progress = false;
        r
    }

    /// Whether `handle_instruction` can carry out the instruction.
    pub fn can_handle(&self, instruction: &Instruction) -> (r: bool)
        requires
            self.wf(),
        ensures
            r == instruction_fits(*self, *instruction),
    {
        match instruction {
            Instruction::AddEntryToBaseFolder(is_dir, blocks, path) => {
                let base_length = self.file_tree.path_in_filesystem.len();
                if !self.file_tree.base_folder.can_add_entry(*is_dir, *blocks, path, base_length) {
                    return false;
                }
                let relative = relative_names(path, base_length);
                let on_the_way = names_prefix(&relative, &self.file_tree.current_folder_names);
                if *is_dir {
                    !(on_the_way && relative.len() < self.file_tree.current_folder_names.len())
                } else {
                    !on_the_way
                }
            },
            Instruction::ToggleScanningVisualIndicator => self.ui_effects.loading_progress_indicator <= u64::MAX - 3,
            Instruction::IncrementFailedToRead => self.file_tree.failed_to_read < u64::MAX,
            _ => true,
        }
    }

    /// Carries out an instruction; a key press is answered as the current
    /// mode does.
    pub fn handle_instruction(&mut self, instruction: Instruction) -> (r: Effect)
        requires
            old(self).wf(),
            instruction_fits(*old(self), instruction),
        ensures
            final(self).wf(),
            match instruction {
                Instruction::SetPathToRed => draws(r, Redraw::Nothing) && *final(self) == (App {
                    ui_effects: UiEffects { current_path_is_red: true, ..old(self).ui_effects },
                    ..*old(self)
                }),
                Instruction::ResetCurrentPathColor => draws(r, Redraw::Nothing) && *final(self) == (App {
                    ui_effects: UiEffects { current_path_is_red: false, ..old(self).ui_effects },
                    ..*old(self)
                }),
                Instruction::FlashSpaceFreed => draws(r, Redraw::Nothing) && *final(self) == (App {
                    ui_effects: UiEffects { flash_space_freed: true, ..old(self).ui_effects },
                    ..*old(self)
                }),
                Instruction::UnflashSpaceFreed => draws(r, Redraw::Nothing) && *final(self) == (App {
                    ui_effects: UiEffects { flash_space_freed: false, ..old(self).ui_effects },
                    ..*old(self)
                }),
                Instruction::AddEntryToBaseFolder(is_dir, blocks, path) => {
                    &&& final(self).file_tree.base() == if is_dir {
                        add_folder_model(old(self).file_tree.base(), entry_relative(*old(self), path@))
                    } else {
                        add_file_model(old(self).file_tree.base(), entry_relative(*old(self), path@), (blocks * 512) as nat)
                    }
                    &&& final(self).ui_effects == (UiEffects { last_read_path: Some(path), ..old(self).ui_effects })
                    &&& final(self).file_tree.current_names() == old(self).file_tree.current_names()
                    &&& final(self).board == old(self).board
                    &&& final(self).ui_mode == old(self).ui_mode
                    &&& final(self).loaded == old(self).loaded
                    &&& final(self).is_running == old(self).is_running
                    &&& draws(r, Redraw::Nothing)
                },
                Instruction::StartUi => draws(r, Redraw::LayOutAndRender) && *final(self) == (App {
                    ui_mode: UiMode::Normal,
                    loaded: true,
                    board: Board { files: final(self).board.files, ..old(self).board },
                    ..*old(self)
                }) && sorted_listing(final(self).board.files@, old(self).file_tree.current().entries,
                    old(self).file_tree.current().size, true),
                Instruction::ToggleScanningVisualIndicator => draws(r, Redraw::Nothing) && *final(self) == (App {
                    ui_effects: UiEffects {
                        loading_progress_indicator: (old(self).ui_effects.loading_progress_indicator + 3) as u64,
                        ..old(self).ui_effects
                    },
                    ..*old(self)
                }),
                Instruction::RenderAndUpdateBoard => draws(r, Redraw::LayOutAndRender) && *final(self) == (App {
                    board: Board { files: final(self).board.files, ..old(self).board },
                    ..*old(self)
                }) && sorted_listing(final(self).board.files@, old(self).file_tree.current().entries,
                    old(self).file_tree.current().size, true),
                Instruction::Render => draws(r, Redraw::Render) && *final(self) == *old(self),
                Instruction::ResetUiMode => draws(r, Redraw::Nothing)
                    && *final(self) == (App { ui_mode: browsing_mode(*old(self)), ..*old(self) }),
                Instruction::Keypress(key) => performed(*old(self), keypress_action(old(self).ui_mode, key), *final(self), r),
                Instruction::IncrementFailedToRead => draws(r, Redraw::Nothing) && *final(self) == (App {
                    file_tree: FileTree {
                        failed_to_read: (old(self).file_tree.failed_to_read + 1) as u64,
                        ..old(self).file_tree
                    },
                    ..*old(self)
                }),
            },
    {
        let nothing = Effect { redraw: Redraw::Nothing, event: None, delete: None };
        match instruction {
            Instruction::SetPathToRed => {
                self.set_path_to_red();
                nothing
            },
            Instruction::ResetCurrentPathColor => {
                self.reset_current_path_color();
                nothing
            },
            Instruction::FlashSpaceFreed => {
                self.flash_space_freed();
                nothing
            },
            Instruction::UnflashSpaceFreed => {
                self.unflash_space_freed();
                nothing
            },
            Instruction::AddEntryToBaseFolder(is_dir, blocks, path) => {
                self.add_entry_to_base_folder(is_dir, blocks, path);
                nothing
            },
            Instruction::StartUi => {
                self.start_ui();
                Effect { redraw: Redraw::LayOutAndRender, event: None, delete: None }
            },
            Instruction::ToggleScanningVisualIndicator => {
                self.increment_loading_progress_indicator();
                nothing
            },
            Instruction::RenderAndUpdateBoard => {
                self.update_board();
                Effect { redraw: Redraw::LayOutAndRender, event: None, delete: None }
            },
            Instruction::Render => Effect { redraw: Redraw::Render, event: None, delete: None },
            Instruction::ResetUiMode => {
                self.reset_ui_mode();
                nothing
            },
            Instruction::Keypress(key) => self.handle_key(key),
            Instruction::IncrementFailedToRead => {
                self.increment_failed_to_read();
                nothing
            },
        }
    }
}

} // verus!
