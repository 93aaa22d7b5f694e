use vstd::prelude::*;
use crate::file_tree::FileType;
use crate::files::Folder;
use crate::listing::{FileMetadata, Share, files_in_folder, sorted_listing};

verus! {

/// The direction a move goes along: across the screen or down it.
#[derive(Clone, Copy, Debug, PartialEq, Eq, Structural)]
pub enum HV {
    Horizontal,
    Vertical,
}

/// A rectangle of terminal cells.
#[derive(Clone, Copy, Debug, PartialEq, Eq, Structural)]
pub struct Rect {
    pub x: u16,
    pub y: u16,
    pub width: u16,
    pub height: u16,
}

/// A laid-out tile: the cells it covers and the entry it shows.
#[derive(Clone, Debug)]
pub struct Tile {
    pub x: u16,
    pub y: u16,
    pub width: u16,
    pub height: u16,
    pub name: String,
    pub size: u64,
    pub descendants: Option<u64>,
    pub percentage: Share,
    pub file_type: FileType,
}

pub open spec fn pos(t: Tile, hv: HV) -> int {
    if hv == HV::Horizontal { t.x as int } else { t.y as int }
}

pub open spec fn ext(t: Tile, hv: HV) -> int {
    if hv == HV::Horizontal { t.width as int } else { t.height as int }
}

/// The other direction.
pub open spec fn across(hv: HV) -> HV {
    if hv == HV::Horizontal { HV::Vertical } else { HV::Horizontal }
}

/// The tile's edges stay within the range of a cell coordinate.
pub open spec fn tile_fits(t: Tile) -> bool {
    t.x + t.width <= u16::MAX && t.y + t.height <= u16::MAX
}

/// `a` starts where `b` ends, along `hv`.
pub open spec fn directly_after(a: Tile, b: Tile, hv: HV) -> bool {
    pos(a, hv) == pos(b, hv) + ext(b, hv)
}

/// `a` ends where `b` starts, along `hv`.
pub open spec fn directly_before(a: Tile, b: Tile, hv: HV) -> bool {
    pos(a, hv) + ext(a, hv) == pos(b, hv)
}

/// The spans of `a` and `b` across `hv` meet: `a` starts within `b`, or
/// ends within it past its start, or one holds the other.
pub open spec fn overlaps(a: Tile, b: Tile, hv: HV) -> bool {
    let d = across(hv);
    ||| pos(a, d) >= pos(b, d) && pos(a, d) <= pos(b, d) + ext(b, d)
    ||| pos(a, d) + ext(a, d) <= pos(b, d) + ext(b, d) && pos(a, d) + ext(a, d) > pos(b, d)
    ||| pos(a, d) <= pos(b, d) && pos(a, d) + ext(a, d) >= pos(b, d) + ext(b, d)
    ||| pos(b, d) <= pos(a, d) && pos(b, d) + ext(b, d) >= pos(a, d) + ext(a, d)
}

/// The spans of `a` and `b` across `hv` meet or touch: the later start is
/// at most the earlier end.
pub open spec fn spans_touch(a: Tile, b: Tile, hv: HV) -> bool {
    let d = across(hv);
    &&& pos(a, d) <= pos(b, d) + ext(b, d)
    &&& pos(b, d) <= pos(a, d) + ext(a, d)
}

/// How many cells the spans of `a` and `b` across `hv` share.
pub open spec fn overlap(a: Tile, b: Tile, hv: HV) -> int {
    let d = across(hv);
    let end = if pos(a, d) + ext(a, d) <= pos(b, d) + ext(b, d) { pos(a, d) + ext(a, d) } else { pos(b, d) + ext(b, d) };
    let start = if pos(a, d) >= pos(b, d) { pos(a, d) } else { pos(b, d) };
    end - start
}

impl Tile {
    pub fn position(&self, hv: HV) -> (r: u16)
        ensures
            r == pos(*self, hv),
    {
        if hv == HV::Horizontal {
            self.x
        } else {
            self.y
        }
    }

    pub fn extent(&self, hv: HV) -> (r: u16)
        ensures
            r == ext(*self, hv),
    {
        if hv == HV::Horizontal {
            self.width
        } else {
            self.height
        }
    }

    /// This tile starts where `other` ends, along `hv`.
    pub fn is_directly_after(&self, other: &Tile, hv: HV) -> (r: bool)
        requires
            tile_fits(*other),
        ensures
            r == directly_after(*self, *other, hv),
    {
        self.position(hv) == other.position(hv) + other.extent(hv)
    }

    /// This tile ends where `other` starts, along `hv`.
    pub fn is_directly_before(&self, other: &Tile, hv: HV) -> (r: bool)
        requires
            tile_fits(*self),
        ensures
            r == directly_before(*self, *other, hv),
    {
        self.position(hv) + self.extent(hv) == other.position(hv)
    }

    /// The spans of this tile and `other` across `hv` meet.
    pub fn overlaps_with(&self, other: &Tile, hv: HV) -> (r: bool)
        requires
            tile_fits(*self),
            tile_fits(*other),
        ensures
            r == overlaps(*self, *other, hv),
    {
        let hv = if HV::Horizontal == hv {
            HV::Vertical
        } else {
            HV::Horizontal
        };
        (self.position(hv) >= other.position(hv) && self.position(hv) <= (other.position(hv) + other.extent(hv)))
            || ((self.position(hv) + self.extent(hv)) <= (other.position(hv) + other.extent(hv))
            && (self.position(hv) + self.extent(hv)) > other.position(hv))
            || (self.position(hv) <= other.position(hv) && (self.position(hv) + self.extent(hv) >= (
        other.position(hv) + other.extent(hv))))
            || (other.position(hv) <= self.position(hv) && (other.position(hv) + other.extent(hv) >= (
        self.position(hv) + self.extent(hv))))
    }

    /// How many cells the spans of this tile and `other` across `hv` share.
    pub fn get_overlap_with(&self, other: &Tile, hv: HV) -> (r: u16)
        requires
            tile_fits(*self),
            tile_fits(*other),
            spans_touch(*self, *other, hv),
        ensures
            r == overlap(*self, *other, hv),
    {
        let hv = if HV::Horizontal == hv {
            HV::Vertical
        } else {
            HV::Horizontal
        };
        let self_end = self.position(hv) + self.extent(hv);
        let other_end = other.position(hv) + other.extent(hv);
        let end = if self_end <= other_end { self_end } else { other_end };
        let start = if self.position(hv) >= other.position(hv) { self.position(hv) } else { other.position(hv) };
        end - start
    }
}


/// The overlap of two tiles does not depend on which is taken first.
pub proof fn law_overlap_symmetric(a: Tile, b: Tile, hv: HV)
    ensures
        overlap(a, b, hv) == overlap(b, a, hv),
        spans_touch(a, b, hv) == spans_touch(b, a, hv),
        spans_touch(a, b, hv) ==> overlap(a, b, hv) >= 0,
        overlaps(a, b, hv) ==> spans_touch(a, b, hv),
{
}

/// Where a move from `current` along `hv` may land: a tile next to it on
/// that side (`after`: right or below; otherwise left or above) whose span
/// across `hv` meets its own.
pub open spec fn is_candidate(c: Tile, current: Tile, hv: HV, after: bool) -> bool {
    &&& if after { directly_after(c, current, hv) } else { directly_before(c, current, hv) }
    &&& overlaps(c, current, hv)
}

/// `j` is the candidate of largest overlap with `current`, the last one
/// among equals.
pub open spec fn best_candidate(tiles: Seq<Tile>, current: Tile, hv: HV, after: bool, j: int) -> bool {
    &&& 0 <= j < tiles.len()
    &&& is_candidate(tiles[j], current, hv, after)
    &&& forall|k: int| 0 <= k < tiles.len() && is_candidate(#[trigger] tiles[k], current, hv, after)
        ==> overlap(tiles[k], current, hv) <= overlap(tiles[j], current, hv)
    &&& forall|k: int| j < k < tiles.len() && is_candidate(#[trigger] tiles[k], current, hv, after)
        ==> overlap(tiles[k], current, hv) < overlap(tiles[j], current, hv)
}

/// A move along `hv` (`after`: right or down) from the selection `before`
/// ends at `after_index`: with nothing selected the first tile is chosen;
/// otherwise the best candidate, or nothing when there is none.
pub open spec fn selection_moved(
    tiles: Seq<Tile>,
    before: Option<Tile>,
    after_index: Option<usize>,
    hv: HV,
    after: bool,
) -> bool {
    match before {
        None => after_index == Some(0usize),
        Some(current) => match after_index {
            Some(j) => best_candidate(tiles, current, hv, after, j as int),
            None => forall|k: int| 0 <= k < tiles.len() ==> !is_candidate(#[trigger] tiles[k], current, hv, after),
        },
    }
}

/// The tiles of the current folder and which of them is selected.
pub struct Board {
    pub tiles: Vec<Tile>,
    pub unrenderable_tile_coordinates: Option<(u16, u16)>,
    pub selected_index: Option<usize>,
    pub previous_indices_and_zoom_level: Vec<(Option<usize>, usize)>,
    pub zoom_level: usize,
    pub area: Rect,
    pub files: Vec<FileMetadata>,
}

impl Board {
    /// Every tile's edges stay within the range of a cell coordinate.
    pub open spec fn tiles_fit(&self) -> bool {
        forall|i: int| 0 <= i < self.tiles@.len() ==> tile_fits(#[trigger] self.tiles@[i])
    }

    /// The selected tile, if the selection points at one.
    pub open spec fn selected_tile(&self) -> Option<Tile> {
        match self.selected_index {
            Some(i) => if i < self.tiles@.len() { Some(self.tiles@[i as int]) } else { None },
            None => None,
        }
    }

    /// A board for `folder` with nothing laid out and nothing selected.
    pub fn new(folder: &Folder) -> (r: Board)
        requires
            folder.wf(),
        ensures
            sorted_listing(r.files@, folder@.entries, folder@.size, true),
            r.tiles@.len() == 0,
            r.unrenderable_tile_coordinates is None,
            r.selected_index is None,
            r.previous_indices_and_zoom_level@.len() == 0,
            r.zoom_level == 0,
            r.area == (Rect { x: 0, y: 0, width: 0, height: 0 }),
    {
        Board {
            tiles: Vec::new(),
            unrenderable_tile_coordinates: None,
            files: files_in_folder(folder),
            selected_index: None,
            previous_indices_and_zoom_level: Vec::new(),
            zoom_level: 0,
            area: Rect { x: 0, y: 0, width: 0, height: 0 },
        }
    }

    /// Lists the entries of `folder` anew; the tiles are to be laid out
    /// again from them.
    pub fn change_files(&mut self, folder: &Folder)
        requires
            folder.wf(),
        ensures
            sorted_listing(final(self).files@, folder@.entries, folder@.size, true),
            *final(self) == (Board { files: final(self).files, ..*old(self) }),
    {
        self.files = files_in_folder(folder);
    }

    /// Takes the new screen area; `true` when it differs from the old one,
    /// so the tiles are to be laid out again.
    pub fn change_area(&mut self, area: &Rect) -> (r: bool)
        ensures
            r == (old(self).area != *area),
            final(self).area == *area,
            final(self).tiles == old(self).tiles,
            final(self).files == old(self).files,
            final(self).selected_index == old(self).selected_index,
            final(self).zoom_level == old(self).zoom_level,
            final(self).previous_indices_and_zoom_level == old(self).previous_indices_and_zoom_level,
            final(self).unrenderable_tile_coordinates == old(self).unrenderable_tile_coordinates,
    {
        if self.area != *area {
            self.area = *area;
            true
        } else {
            false
        }
    }

    /// Installs the tiles laid out for the current files and area.
    pub fn set_tiles(&mut self, tiles: Vec<Tile>, unrenderable_tile_coordinates: Option<(u16, u16)>)
        ensures
            final(self).tiles == tiles,
            final(self).unrenderable_tile_coordinates == unrenderable_tile_coordinates,
            final(self).files == old(self).files,
            final(self).area == old(self).area,
            final(self).selected_index == old(self).selected_index,
            final(self).zoom_level == old(self).zoom_level,
            final(self).previous_indices_and_zoom_level == old(self).previous_indices_and_zoom_level,
    {
        self.tiles = tiles;
        self.unrenderable_tile_coordinates = unrenderable_tile_coordinates;
    }

    pub fn get_selected_index(&self) -> (r: Option<usize>)
        ensures
            r == self.selected_index,
    {
        self.selected_index
    }

    pub fn set_selected_index(&mut self, next_index: &usize)
        ensures
            final(self).selected_index == Some(*next_index),
            final(self).tiles == old(self).tiles,
            final(self).files == old(self).files,
            final(self).area == old(self).area,
            final(self).zoom_level == old(self).zoom_level,
            final(self).previous_indices_and_zoom_level == old(self).previous_indices_and_zoom_level,
            final(self).unrenderable_tile_coordinates == old(self).unrenderable_tile_coordinates,
    {
        self.selected_index = Some(*next_index);
    }

    pub fn has_selected_index(&self) -> (r: bool)
        ensures
            r == self.selected_index is Some,
    {
        self.selected_index.is_some()
    }

    pub fn reset_selected_index(&mut self)
        ensures
            final(self).selected_index is None,
            final(self).tiles == old(self).tiles,
            final(self).files == old(self).files,
            final(self).area == old(self).area,
            final(self).zoom_level == old(self).zoom_level,
            final(self).previous_indices_and_zoom_level == old(self).previous_indices_and_zoom_level,
            final(self).unrenderable_tile_coordinates == old(self).unrenderable_tile_coordinates,
    {
        self.selected_index = None;
    }

    /// The selected tile, if the selection points at one.
    pub fn currently_selected(&self) -> (r: Option<&Tile>)
        ensures
            match r {
                Some(t) => self.selected_tile() == Some(*t),
                None => self.selected_tile() is None,
            },
    {
        match self.selected_index {
            Some(selected_index) => if selected_index < self.tiles.len() {
                Some(&self.tiles[selected_index])
            } else {
                None
            },
            None => None,
        }
    }

    /// Takes the last recorded selection and zoom level off the stack.
    pub fn pop_previous_index_and_zoom_level(&mut self) -> (r: Option<(Option<usize>, usize)>)
        ensures
            old(self).previous_indices_and_zoom_level@.len() == 0 ==> r is None
                && final(self).previous_indices_and_zoom_level@ == old(self).previous_indices_and_zoom_level@,
            old(self).previous_indices_and_zoom_level@.len() > 0 ==> r == Some(old(self).previous_indices_and_zoom_level@.last())
                && final(self).previous_indices_and_zoom_level@ == old(self).previous_indices_and_zoom_level@.drop_last(),
            final(self).tiles == old(self).tiles,
            final(self).selected_index == old(self).selected_index,
            final(self).zoom_level == old(self).zoom_level,
    {
        self.previous_indices_and_zoom_level.pop()
    }

    /// Pushes the current selection and zoom level onto the stack.
    pub fn record_current_index_and_zoom_level(&mut self)
        ensures
            final(self).previous_indices_and_zoom_level@ == old(self).previous_indices_and_zoom_level@.push(
                (old(self).selected_index, old(self).zoom_level),
            ),
            final(self).tiles == old(self).tiles,
            final(self).selected_index == old(self).selected_index,
            final(self).zoom_level == old(self).zoom_level,
    {
        let entry = (self.get_selected_index(), self.zoom_level);
        self.previous_indices_and_zoom_level.push(entry);
    }

    /// Selects the first tile that shows a folder, if there is one.
    pub fn move_to_largest_folder(&mut self)
        ensures
            (exists|k: int| 0 <= k < old(self).tiles@.len() && old(self).tiles@[k].file_type == FileType::Folder)
                ==> (final(self).selected_index matches Some(j) && j < old(self).tiles@.len()
                    && old(self).tiles@[j as int].file_type == FileType::Folder
                    && forall|k: int| 0 <= k < j ==> old(self).tiles@[k].file_type != FileType::Folder),
            !(exists|k: int| 0 <= k < old(self).tiles@.len() && old(self).tiles@[k].file_type == FileType::Folder)
                ==> final(self).selected_index == old(self).selected_index,
            final(self).tiles == old(self).tiles,
            final(self).zoom_level == old(self).zoom_level,
            final(self).previous_indices_and_zoom_level == old(self).previous_indices_and_zoom_level,
            final(self).files == old(self).files,
            final(self).area == old(self).area,
            final(self).unrenderable_tile_coordinates == old(self).unrenderable_tile_coordinates,
    {
        let mut i: usize = 0;
        while i < self.tiles.len()
            invariant
                i <= self.tiles@.len(),
                self.tiles == old(self).tiles,
                self.selected_index == old(self).selected_index,
                self.zoom_level == old(self).zoom_level,
                self.previous_indices_and_zoom_level == old(self).previous_indices_and_zoom_level,
                self.files == old(self).files,
                self.area == old(self).area,
                self.unrenderable_tile_coordinates == old(self).unrenderable_tile_coordinates,
                forall|k: int| 0 <= k < i ==> self.tiles@[k].file_type != FileType::Folder,
            decreases self.tiles@.len() - i,
        {
            if self.tiles[i].file_type == FileType::Folder {
                self.set_selected_index(&i);
                return;
            }
            i = i + 1;
        }
    }

    fn move_selected(&mut self, hv: HV, after: bool)
        requires
            old(self).tiles_fit(),
        ensures
            match old(self).selected_tile() {
                None => final(self).selected_index == Some(0usize),
                Some(current) => match final(self).selected_index {
                    Some(j) => best_candidate(old(self).tiles@, current, hv, after, j as int),
                    None => forall|k: int| 0 <= k < old(self).tiles@.len() ==> !is_candidate(
                        #[trigger] old(self).tiles@[k],
                        current,
                        hv,
                        after,
                    ),
                },
            },
            final(self).tiles == old(self).tiles,
            final(self).files == old(self).files,
            final(self).area == old(self).area,
            final(self).zoom_level == old(self).zoom_level,
            final(self).previous_indices_and_zoom_level == old(self).previous_indices_and_zoom_level,
            final(self).unrenderable_tile_coordinates == old(self).unrenderable_tile_coordinates,
    {
        let next_index = match self.currently_selected() {
            Some(currently_selected) => {
                let mut best: Option<usize> = None;
                let mut best_overlap: u16 = 0;
                let mut i: usize = 0;
                while i < self.tiles.len()
                    invariant
                        i <= self.tiles@.len(),
                        self.tiles_fit(),
                        tile_fits(*currently_selected),
                        match best {
                            Some(j) => j < i && is_candidate(self.tiles@[j as int], *currently_selected, hv, after)
                                && best_overlap == overlap(self.tiles@[j as int], *currently_selected, hv)
                                && (forall|k: int| 0 <= k < i && is_candidate(#[trigger] self.tiles@[k], *currently_selected, hv, after)
                                    ==> overlap(self.tiles@[k], *currently_selected, hv) <= best_overlap)
                                && (forall|k: int| j < k < i && is_candidate(#[trigger] self.tiles@[k], *currently_selected, hv, after)
                                    ==> overlap(self.tiles@[k], *currently_selected, hv) < best_overlap),
                            None => forall|k: int| 0 <= k < i ==> !is_candidate(#[trigger] self.tiles@[k], *currently_selected, hv, after),
                        },
                    decreases self.tiles@.len() - i,
                {
                    let c = &self.tiles[i];
                    assert(tile_fits(self.tiles@[i as int]));
                    let is_next = if after {
                        c.is_directly_after(currently_selected, hv)
                    } else {
                        c.is_directly_before(currently_selected, hv)
                    };
                    if is_next && c.overlaps_with(currently_selected, hv) {
                        let o = c.get_overlap_with(currently_selected, hv);
                        let take = match best {
                            Some(_) => o >= best_overlap,
                            None => true,
                        };
                        if take {
                            best = Some(i);
                            best_overlap = o;
                        }
                    }
                    i = i + 1;
                }
                match best {
                    Some(j) => Some(j),
                    None => None,
                }
            },
            None => Some(0),
        };
        self.selected_index = next_index;
    }

    /// Selects the tile to the right of the selected one that shares the
    /// most rows with it (the last of equals); with no such tile the
    /// selection is cleared, and with nothing selected the first tile is.
    pub fn move_selected_right(&mut self)
        requires
            old(self).tiles_fit(),
        ensures
            match old(self).selected_tile() {
                None => final(self).selected_index == Some(0usize),
                Some(current) => match final(self).selected_index {
                    Some(j) => best_candidate(old(self).tiles@, current, HV::Horizontal, true, j as int),
                    None => forall|k: int| 0 <= k < old(self).tiles@.len() ==> !is_candidate(
                        #[trigger] old(self).tiles@[k], current, HV::Horizontal, true),
                },
            },
            *final(self) == (Board { selected_index: final(self).selected_index, ..*old(self) }),
    {
        self.move_selected(HV::Horizontal, true);
    }

    /// As `move_selected_right`, towards the left.
    pub fn move_selected_left(&mut self)
        requires
            old(self).tiles_fit(),
        ensures
            match old(self).selected_tile() {
                None => final(self).selected_index == Some(0usize),
                Some(current) => match final(self).selected_index {
                    Some(j) => best_candidate(old(self).tiles@, current, HV::Horizontal, false, j as int),
                    None => forall|k: int| 0 <= k < old(self).tiles@.len() ==> !is_candidate(
                        #[trigger] old(self).tiles@[k], current, HV::Horizontal, false),
                },
            },
            *final(self) == (Board { selected_index: final(self).selected_index, ..*old(self) }),
    {
        self.move_selected(HV::Horizontal, false);
    }

    /// As `move_selected_right`, downwards, by the columns the tiles share.
    pub fn move_selected_down(&mut self)
        requires
            old(self).tiles_fit(),
        ensures
            match old(self).selected_tile() {
                None => final(self).selected_index == Some(0usize),
                Some(current) => match final(self).selected_index {
                    Some(j) => best_candidate(old(self).tiles@, current, HV::Vertical, true, j as int),
                    None => forall|k: int| 0 <= k < old(self).tiles@.len() ==> !is_candidate(
                        #[trigger] old(self).tiles@[k], current, HV::Vertical, true),
                },
            },
            *final(self) == (Board { selected_index: final(self).selected_index, ..*old(self) }),
    {
        self.move_selected(HV::Vertical, true);
    }

    /// As `move_selected_down`, upwards.
    pub fn move_selected_up(&mut self)
        requires
            old(self).tiles_fit(),
        ensures
            match old(self).selected_tile() {
                None => final(self).selected_index == Some(0usize),
                Some(current) => match final(self).selected_index {
                    Some(j) => best_candidate(old(self).tiles@, current, HV::Vertical, false, j as int),
                    None => forall|k: int| 0 <= k < old(self).tiles@.len() ==> !is_candidate(
                        #[trigger] old(self).tiles@[k], current, HV::Vertical, false),
                },
            },
            *final(self) == (Board { selected_index: final(self).selected_index, ..*old(self) }),
    {
        self.move_selected(HV::Vertical, false);
    }

    /// Hides one more of the largest entries, while any is left to hide;
    /// `true` when the zoom level changed and the files were listed anew.
    pub fn zoom_in(&mut self, folder: &Folder) -> (r: bool)
        requires
            folder.wf(),
        ensures
            r == (old(self).zoom_level < old(self).files@.len()),
            r ==> final(self).zoom_level == old(self).zoom_level + 1
                && sorted_listing(final(self).files@, folder@.entries, folder@.size, true),
            r ==> *final(self) == (Board { zoom_level: final(self).zoom_level, files: final(self).files, ..*old(self) }),
            !r ==> *final(self) == *old(self),
    {
        if self.zoom_level < self.files.len() {
            self.zoom_level = self.zoom_level + 1;
            self.files = files_in_folder(folder);
            true
        } else {
            false
        }
    }

    /// Shows one more of the hidden entries, while any is hidden; `true`
    /// when the zoom level changed and the files were listed anew.
    pub fn zoom_out(&mut self, folder: &Folder) -> (r: bool)
        requires
            folder.wf(),
        ensures
            r == (old(self).zoom_level > 0),
            r ==> final(self).zoom_level == old(self).zoom_level - 1
                && sorted_listing(final(self).files@, folder@.entries, folder@.size, true),
            r ==> *final(self) == (Board { zoom_level: final(self).zoom_level, files: final(self).files, ..*old(self) }),
            !r ==> *final(self) == *old(self),
    {
        if self.zoom_level > 0 {
            self.zoom_level = self.zoom_level - 1;
            self.files = files_in_folder(folder);
            true
        } else {
            false
        }
    }

    /// Shows every entry again and lists the files anew.
    pub fn reset_zoom(&mut self, folder: &Folder)
        requires
            folder.wf(),
        ensures
            final(self).zoom_level == 0,
            sorted_listing(final(self).files@, folder@.entries, folder@.size, true),
            *final(self) == (Board { zoom_level: 0, files: final(self).files, ..*old(self) }),
    {
        self.zoom_level = 0;
        self.files = files_in_folder(folder);
    }

    pub fn reset_zoom_index(&mut self)
        ensures
            final(self).zoom_level == 0,
            final(self).previous_indices_and_zoom_level == old(self).previous_indices_and_zoom_level,
            final(self).tiles == old(self).tiles,
            final(self).files == old(self).files,
            final(self).selected_index == old(self).selected_index,
    {
        self.zoom_level = 0;
    }

    pub fn set_zoom_index(&mut self, index: usize)
        ensures
            final(self).zoom_level == index,
            final(self).previous_indices_and_zoom_level == old(self).previous_indices_and_zoom_level,
            final(self).tiles == old(self).tiles,
            final(self).files == old(self).files,
            final(self).selected_index == old(self).selected_index,
    {
        self.zoom_level = index;
    }
}

} // verus!
