use vstd::prelude::*;
use tui::buffer::Buffer;
use crate::board::{Rect, Tile};
use crate::file_tree::FileType;
use crate::grid::{Hue, Paint, buffer_area, buffer_is_sound, buffer_rect, buffer_sound, buffer_symbols, buffer_paints, in_area, in_buffer, line_cells, painted_over, plain, same_grid, put_string, put_style_at, written_over};
use crate::files::path_model;
use crate::modals::{joined_path, path_text};
use crate::tile_text::{decimal, push_decimal};
use crate::truncate::{truncate_middle, truncated_middle};

verus! {

/// The lines that can name the selected entry, longest first: with its size
/// (and a folder's count of files), without, and its bare name.
pub open spec fn selected_lines(tile: Tile, size_text: Seq<char>) -> Seq<Seq<char>> {
    let name = tile.name@;
    let tag = "SELECTED: "@;
    match tile.file_type {
        FileType::File => seq![tag + name + " ("@ + size_text + ")"@, tag + name, name],
        FileType::Folder => seq![
            tag + name + " ("@ + size_text + ", "@ + decimal(tile.descendants->0 as nat) + " files)"@,
            tag + name + " ("@ + size_text + ")"@,
            tag + name,
            name,
        ],
    }
}

/// The first of `lines` with fewer characters than `max`, if any.
pub open spec fn first_shorter(lines: Seq<Seq<char>>, max: u16) -> Option<Seq<char>>
    decreases lines.len(),
{
    if lines.len() == 0 {
        None
    } else if (lines[0].len() as u16) < max {
        Some(lines[0])
    } else {
        first_shorter(lines.drop_first(), max)
    }
}

fn selected_line_candidates(tile: &Tile, size_text: &str) -> (r: Vec<String>)
    requires
        tile.file_type == FileType::Folder ==> tile.descendants is Some,
    ensures
        r@.map_values(|s: String| s@) == selected_lines(*tile, size_text@),
{
    proof {
        reveal_strlit("SELECTED: ");
        reveal_strlit(" (");
        reveal_strlit(")");
        reveal_strlit(", ");
        reveal_strlit(" files)");
    }
    let mut tagged = String::from_str("SELECTED: ");
    tagged.append(tile.name.as_str());
    let mut with_size = tagged.clone();
    with_size.append(" (");
    with_size.append(size_text);
    let mut r: Vec<String> = Vec::new();
    match tile.file_type {
        FileType::File => {
            with_size.append(")");
            r.push(with_size);
        },
        FileType::Folder => {
            let mut with_files = with_size.clone();
            with_files.append(", ");
            let files = match tile.descendants {
                Some(n) => n,
                None => 0,
            };
            push_decimal(&mut with_files, files as u128);
            with_files.append(" files)");
            with_size.append(")");
            r.push(with_files);
            r.push(with_size);
        },
    }
    r.push(tagged);
    r.push(tile.name.clone());
    proof {
        assert(r@.map_values(|s: String| s@) =~= selected_lines(*tile, size_text@));
    }
    r
}

fn choose_shorter(lines: &Vec<String>, max: u16) -> (r: Option<usize>)
    ensures
        match r {
            Some(i) => i < lines@.len() && first_shorter(lines@.map_values(|s: String| s@), max) == Some(lines@[i as int]@),
            None => first_shorter(lines@.map_values(|s: String| s@), max) is None,
        },
{
    let ghost all = lines@.map_values(|s: String| s@);
    let mut i: usize = 0;
    assert(all.subrange(0, all.len() as int) =~= all);
    while i < lines.len()
        invariant
            i <= lines@.len(),
            all == lines@.map_values(|s: String| s@),
            first_shorter(all, max) == first_shorter(all.subrange(i as int, all.len() as int), max),
        decreases lines@.len() - i,
    {
        let ghost rest = all.subrange(i as int, all.len() as int);
        assert(rest[0] == lines@[i as int]@);
        if (lines[i].as_str().unicode_len() as u16) < max {
            return Some(i);
        }
        assert(rest.drop_first() =~= all.subrange(i as int + 1, all.len() as int));
        i = i + 1;
    }
    None
}

/// The line of the last path read while scanning, cut in the middle when
/// it has as many characters as `max` or more.
pub open spec fn read_path_line(path: Seq<char>, max: u16) -> Seq<char> {
    if (path.len() as u16) < max { path } else { truncated_middle(path, max) }
}

/// The line of the last path read.
pub fn read_path_text(path: &Vec<String>, max: u16) -> (r: String)
    ensures
        r@ == read_path_line(joined_path(path_model(path@)), max),
{
    let text = path_text(path);
    if (text.as_str().unicode_len() as u16) < max {
        text
    } else {
        truncate_middle(text.as_str(), max)
    }
}

/// The legend of the keys, quitting among them: the long one if it fits
/// `max` columns, else the short one, else `(...)`; deleting is left out
/// while scanning.
pub open spec fn controls_line(hide_delete: bool, max: u16) -> Seq<char> {
    let (long, short) = if hide_delete {
        (
            "<hjkl> or < ← ↓ ↑ → > - move around, <ENTER> - enter folder, <ESC> - parent folder, <q> - quit"@,
            "←↓↑→/<ENTER>/<ESC>: navigate, <q>: quit"@,
        )
    } else {
        (
            "<hjkl> or < ← ↓ ↑ → > - move around, <ENTER> - enter folder, <ESC> - parent folder, <Ctrl-D> - delete, <q> - quit"@,
            "←↓↑→/<ENTER>/<ESC>: navigate, <Ctrl-D>: del, <q>: quit"@,
        )
    };
    if max >= long.len() as u16 {
        long
    } else if max >= short.len() as u16 {
        short
    } else {
        "(...)"@
    }
}

/// The legend of the keys for `max` columns.
pub fn controls_legend(hide_delete: bool, max: u16) -> (r: &'static str)
    ensures
        r@ == controls_line(hide_delete, max),
{
    let (long, short) = if hide_delete {
        (
            "<hjkl> or < ← ↓ ↑ → > - move around, <ENTER> - enter folder, <ESC> - parent folder, <q> - quit",
            "←↓↑→/<ENTER>/<ESC>: navigate, <q>: quit",
        )
    } else {
        (
            "<hjkl> or < ← ↓ ↑ → > - move around, <ENTER> - enter folder, <ESC> - parent folder, <Ctrl-D> - delete, <q> - quit",
            "←↓↑→/<ENTER>/<ESC>: navigate, <Ctrl-D>: del, <q>: quit",
        )
    };
    proof {
        reveal_strlit("(...)");
    }
    if max >= long.unicode_len() as u16 {
        long
    } else if max >= short.unicode_len() as u16 {
        short
    } else {
        "(...)"
    }
}

/// The line at the bottom of the screen: the selected entry or the path
/// last read, the legend of the small-files mark, and the keys.
pub struct BottomLine<'a> {
    pub hide_delete: bool,
    pub currently_selected: Option<&'a Tile>,
    pub last_read_path: Option<&'a Vec<String>>,
}

/// Everything `BottomLine::draw` needs: the area holds the small-files
/// legend and its two rows, and the cells written lie in the buffer.
pub open spec fn bottom_line_fits(b: Buffer, area: Rect) -> bool {
    &&& area.width >= 18
    &&& area.height >= 2
    &&& area.y + area.height <= u16::MAX
    &&& in_buffer(b, 1, area.y + area.height - 2)
    &&& in_buffer(b, 1, area.y + area.height - 1)
    &&& in_buffer(b, area.width - 18, area.y + area.height - 2)
    &&& in_buffer(b, area.width - 17, area.y + area.height - 2)
}

/// The status line: the longest line naming the selected entry that fits,
/// else the path last read, else nothing.
pub open spec fn status_line(selected: Option<Tile>, read: Option<Seq<String>>, size_text: Seq<char>, max: u16) -> Option<Seq<char>> {
    match selected {
        Some(t) => first_shorter(selected_lines(t, size_text), max),
        None => match read {
            Some(p) => Some(read_path_line(joined_path(path_model(p)), max)),
            None => None,
        },
    }
}

/// What cell `c` of `b`, showing `under`, shows once the bottom line is
/// drawn in `area`: the status line from the second column of the status
/// row, the small-files legend over its end, and the keys on the row below.
pub open spec fn bottom_line_shows(b: Buffer, area: Rect, status: Option<Seq<char>>, keys: Seq<char>, c: (int, int), under: Seq<char>) -> Seq<char> {
    let status_y = area.y + area.height - 2;
    let legend_x = area.width - 18;
    let with_status = match status {
        Some(t) => written_over(line_cells(t, b, 1), 1, status_y, c, under),
        None => under,
    };
    let with_legend = written_over(line_cells("(x = Small files)"@, b, legend_x), legend_x, status_y, c, with_status);
    written_over(line_cells(keys, b, 1), 1, status_y + 1, c, with_legend)
}

/// The paint of the status line: the selected entry's name bold, a
/// folder's in blue; the path last read in the terminal's colours.
pub open spec fn status_paint(selected: Option<Tile>) -> Paint {
    match selected {
        Some(t) => match t.file_type {
            FileType::File => Paint { fg: Hue::Reset, bg: Hue::Reset, bold: true },
            FileType::Folder => Paint { fg: Hue::Blue, bg: Hue::Reset, bold: true },
        },
        None => plain(),
    }
}

/// How cell `c` of `b`, drawn in `under`, is drawn once the bottom line is
/// drawn in `area`: the status line in its paint, the legend in the
/// terminal's colours with its mark black on white, the keys bold.
pub open spec fn bottom_line_paints(
    b: Buffer,
    area: Rect,
    status: Option<Seq<char>>,
    paint: Paint,
    keys: Seq<char>,
    c: (int, int),
    under: Option<Paint>,
) -> Option<Paint> {
    let status_y = area.y + area.height - 2;
    let legend_x = area.width - 18;
    let with_status = match status {
        Some(t) => painted_over(line_cells(t, b, 1), 1, status_y, c, paint, under),
        None => under,
    };
    let with_legend = painted_over(line_cells("(x = Small files)"@, b, legend_x), legend_x, status_y, c, plain(), with_status);
    let marked = if c == (area.width - 17, status_y) {
        Some(Paint { fg: Hue::Black, bg: Hue::White, bold: false })
    } else {
        with_legend
    };
    painted_over(line_cells(keys, b, 1), 1, status_y + 1, c, Paint { fg: Hue::Reset, bg: Hue::Reset, bold: true }, marked)
}

impl<'a> BottomLine<'a> {
    pub fn new() -> (r: BottomLine<'a>)
        ensures
            !r.hide_delete,
            r.currently_selected is None,
            r.last_read_path is None,
    {
        BottomLine { hide_delete: false, currently_selected: None, last_read_path: None }
    }

    pub fn hide_delete(self) -> (r: BottomLine<'a>)
        ensures
            r.hide_delete,
            r.currently_selected == self.currently_selected,
            r.last_read_path == self.last_read_path,
    {
        BottomLine { hide_delete: true, ..self }
    }

    pub fn currently_selected(self, currently_selected: Option<&'a Tile>) -> (r: BottomLine<'a>)
        ensures
            r.hide_delete == self.hide_delete,
            r.currently_selected == currently_selected,
            r.last_read_path == self.last_read_path,
    {
        BottomLine { currently_selected, ..self }
    }

    pub fn last_read_path(self, last_read_path: Option<&'a Vec<String>>) -> (r: BottomLine<'a>)
        ensures
            r.hide_delete == self.hide_delete,
            r.currently_selected == self.currently_selected,
            r.last_read_path == last_read_path,
    {
        BottomLine { last_read_path, ..self }
    }

    /// Draws the bottom line on the last two rows of `area`: the status row
    /// names the selected entry (its size written out as `size_text`), or
    /// else the path last read, and ends with the small-files legend; the
    /// row below holds the keys. Nothing else changes.
    pub fn draw(&self, area: Rect, buf: &mut Buffer, size_text: &str)
        requires
            bottom_line_fits(*old(buf), area),
            self.currently_selected matches Some(t) ==> (t.file_type == FileType::Folder ==> t.descendants is Some),
        ensures
            same_grid(*final(buf), *old(buf)),
            ({
                let selected = match self.currently_selected {
                    Some(t) => Some(*t),
                    None => None,
                };
                let read = match self.last_read_path {
                    Some(p) => Some(p@),
                    None => None,
                };
                let status = status_line(selected, read, size_text@, (area.width - 17) as u16);
                let keys = controls_line(self.hide_delete, area.width);
                forall|c: (int, int)| #[trigger] buffer_symbols(*final(buf))[c]
                    == bottom_line_shows(*old(buf), area, status, keys, c, buffer_symbols(*old(buf))[c])
            }),
            ({
                let selected = match self.currently_selected {
                    Some(t) => Some(*t),
                    None => None,
                };
                let read = match self.last_read_path {
                    Some(p) => Some(p@),
                    None => None,
                };
                let status = status_line(selected, read, size_text@, (area.width - 17) as u16);
                let keys = controls_line(self.hide_delete, area.width);
                forall|c: (int, int)| #[trigger] buffer_paints(*final(buf))[c] == bottom_line_paints(
                    *old(buf), area, status, status_paint(selected), keys, c, buffer_paints(*old(buf))[c])
            }),
    {
        let ghost before = buffer_symbols(*buf);
        let legend_len: u16 = 17;
        let max_status_len = area.width - legend_len;
        let max_controls_len = area.width;
        let status_y = area.y + area.height - 2;
        let controls_y = status_y + 1;
        let ghost selected = match self.currently_selected {
            Some(t) => Some(*t),
            None => None,
        };
        let ghost read = match self.last_read_path {
            Some(p) => Some(p@),
            None => None,
        };
        let ghost status = status_line(selected, read, size_text@, max_status_len);
        match self.currently_selected {
            Some(tile) => {
                let lines = selected_line_candidates(tile, size_text);
                let paint = match tile.file_type {
                    FileType::File => Paint { fg: Hue::Reset, bg: Hue::Reset, bold: true },
                    FileType::Folder => Paint { fg: Hue::Blue, bg: Hue::Reset, bold: true },
                };
                match choose_shorter(&lines, max_status_len) {
                    Some(i) => put_string(buf, 1, status_y, lines[i].as_str(), paint),
                    None => {},
                }
            },
            None => match self.last_read_path {
                Some(path) => {
                    let text = read_path_text(path, max_status_len);
                    let plain = Paint { fg: Hue::Reset, bg: Hue::Reset, bold: false };
                    put_string(buf, 1, status_y, text.as_str(), plain);
                },
                None => {},
            },
        }
        let ghost with_status = buffer_symbols(*buf);
        assert forall|c: (int, int)| #[trigger] with_status[c] == match status {
            Some(t) => written_over(line_cells(t, *old(buf), 1), 1, status_y as int, c, before[c]),
            None => before[c],
        } by {}
        proof { reveal_strlit("(x = Small files)"); }
        put_string(buf, area.width - legend_len - 1, status_y, "(x = Small files)", Paint { fg: Hue::Reset, bg: Hue::Reset, bold: false });
        put_style_at(buf, area.width - legend_len, status_y, Paint { fg: Hue::Black, bg: Hue::White, bold: false });
        let ghost with_legend = buffer_symbols(*buf);
        let legend = controls_legend(self.hide_delete, max_controls_len);
        put_string(buf, 1, controls_y, legend, Paint { fg: Hue::Reset, bg: Hue::Reset, bold: true });
        proof {
            let keys = controls_line(self.hide_delete, area.width);
            assert forall|c: (int, int)| #[trigger] buffer_symbols(*buf)[c]
                == bottom_line_shows(*old(buf), area, status, keys, c, before[c]) by {
                assert(with_legend[c] == written_over(line_cells("(x = Small files)"@, *old(buf), area.width - 18),
                    area.width - 18, status_y as int, c, with_status[c]));
            }
        }
    }
}

fn has_cell(area: Rect, x: u32, y: u32) -> (r: bool)
    ensures
        r == in_area((area.x, area.y, area.width, area.height), x as int, y as int),
{
    (area.x as u32) <= x && x < (area.x as u32) + (area.width as u32) && (area.y as u32) <= y
        && y < (area.y as u32) + (area.height as u32)
}

/// Whether `BottomLine::draw` can draw in `area`.
pub fn bottom_line_drawable(buf: &Buffer, area: Rect) -> (r: bool)
    ensures
        r == bottom_line_fits(*buf, area),
{
    let bounds = buffer_rect(buf);
    if !buffer_is_sound(buf) {
        return false;
    }
    if area.width < 18 || area.height < 2 || area.y as u32 + area.height as u32 > 65535 {
        return false;
    }
    let status = (area.y + area.height - 2) as u32;
    has_cell(bounds, 1, status) && has_cell(bounds, 1, status + 1) && has_cell(bounds, (area.width - 18) as u32, status)
        && has_cell(bounds, (area.width - 17) as u32, status)
}

} // verus!
