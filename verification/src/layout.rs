use vstd::prelude::*;

verus! {

/// The size of a laid-out tile and the names it shows.
#[derive(Clone, Debug)]
pub struct RectSize {
    pub height: u16,
    pub width: u16,
    pub file_name: String,
    pub actual_file_name: String,
}

/// What the title line shows of a folder: its path, size and number of
/// descendants.
pub struct FolderInfo<'a> {
    pub path: &'a Vec<String>,
    pub size: u64,
    pub num_descendants: u64,
}

/// The symbols a tile's border is drawn with.
#[allow(non_snake_case)]
pub struct BoundariesToUse {
    pub TOP_RIGHT: String,
    pub VERTICAL: String,
    pub HORIZONTAL: String,
    pub TOP_LEFT: String,
    pub BOTTOM_RIGHT: String,
    pub BOTTOM_LEFT: String,
    pub VERTICAL_LEFT: String,
    pub VERTICAL_RIGHT: String,
    pub HORIZONTAL_DOWN: String,
    pub HORIZONTAL_UP: String,
    pub CROSS: String,
}

} // verus!
