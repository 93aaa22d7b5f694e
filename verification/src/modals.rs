use vstd::prelude::*;
use tui::buffer::Buffer;
use crate::board::Rect;
use crate::grid::{
    Hue, Paint, boxed, buffer_area, buffer_is_sound, buffer_rect, buffer_sound, buffer_symbols, draw_filled_rect, in_area, in_buffer,
    buffer_paints, in_frame, line_cells, outline_drawable, painted_over, put_string, same_grid, written_over,
};
use crate::file_tree::{FileToDelete, FileType};
use crate::files::path_model;
use crate::tile_text::{byte_len, decimal, line_start, push_decimal};
use crate::truncate::{lemma_truncated_end_len, truncate_end, truncate_middle, truncated_end, truncated_middle};
use vstd::utf8::{encode_utf8, is_char_boundary};

verus! {

/// The prompt that asks whether to quit.
pub struct ConfirmBox {}

/// The box that shows an error message.
pub struct ErrorBox<'a> {
    pub error_message: &'a str,
}

/// The box that warns that nothing can be deleted while scanning.
pub struct WarningBox {}

/// The notice shown when the terminal is too small.
pub struct TermTooSmall {}

impl ConfirmBox {
    pub fn new() -> (r: ConfirmBox) {
        ConfirmBox {}
    }
}

impl<'a> ErrorBox<'a> {
    pub fn new(error_message: &'a str) -> (r: ErrorBox<'a>)
        ensures
            r.error_message@ == error_message@,
    {
        ErrorBox { error_message }
    }
}

impl WarningBox {
    pub fn new() -> (r: WarningBox) {
        WarningBox {}
    }
}

impl TermTooSmall {
    pub fn new() -> (r: TermTooSmall) {
        TermTooSmall {}
    }
}

/// Where a modal box stands in `area`: 150 columns wide on a screen wider
/// than 150, half the screen otherwise, 10 rows high, centred.
pub open spec fn modal_rect(area: Rect) -> Rect {
    let width: int = if area.width > 150 { 150 } else { (area.width / 2) as int };
    let height: int = 10;
    Rect {
        x: ((area.x + area.width) / 2 - width / 2) as u16,
        y: ((area.y + area.height) / 2 - height / 2) as u16,
        width: width as u16,
        height: height as u16,
    }
}

/// The rectangle of the modal boxes in `area`, which is at least 50
/// columns wide and reaches the tenth row.
pub fn modal_box_rect(area: &Rect) -> (r: Rect)
    requires
        area.width >= 50,
        area.x + area.width <= u16::MAX,
        area.y + area.height <= u16::MAX,
        area.y + area.height >= 10,
    ensures
        r == modal_rect(*area),
{
    let (width, height): (u16, u16) = if area.width > 150 {
        (150, 10)
    } else {
        (area.width / 2, 10)
    };
    let x = ((area.x + area.width) / 2) - width / 2;
    let y = ((area.y + area.height) / 2) - height / 2;
    Rect { x, y, width, height }
}

/// A modal box can be drawn in `area`: the box's place is computed without
/// overflow and its outline lies in the buffer.
pub open spec fn modal_fits(b: Buffer, area: Rect) -> bool {
    &&& area.x + area.width <= u16::MAX
    &&& area.y + area.height <= u16::MAX
    &&& area.y + area.height >= 10
    &&& outline_drawable(
        b,
        modal_rect(area).x as int,
        modal_rect(area).y as int,
        modal_rect(area).width as int,
        modal_rect(area).height as int,
    )
}

/// How cell `c` is drawn once `text`, `len` columns long, is written in
/// `paint` centred in the box `r` on row `row` over `under`.
pub open spec fn centred_paint_over(b: Buffer, r: Rect, text: Seq<char>, len: u16, row: int, c: (int, int), paint: Paint, under: Option<Paint>) -> Option<Paint> {
    let start = line_start(r.x, r.width, len);
    painted_over(line_cells(text, b, start), start, row, c, paint, under)
}

/// How cell `c` is drawn once the box `r` is filled in `paint` over
/// `under`.
pub open spec fn box_paint(r: Rect, c: (int, int), paint: Paint, under: Option<Paint>) -> Option<Paint> {
    if in_frame(r.x as int, r.y as int, r.width as int, r.height as int, c) { Some(paint) } else { under }
}

/// What cell `c` shows once `text`, `len` columns long, is written
/// centred in the box `r` on row `row` over `under`, what it showed.
pub open spec fn centred_over(b: Buffer, r: Rect, text: Seq<char>, len: u16, row: int, c: (int, int), under: Seq<char>) -> Seq<char> {
    let start = line_start(r.x, r.width, len);
    written_over(line_cells(text, b, start), start, row, c, under)
}

/// The question of the quit prompt for a box `width` wide: the longest that
/// leaves ten columns free.
pub open spec fn quit_question(width: u16) -> Seq<char> {
    if width >= 30 + 10 {
        "Are you sure you want to quit?"@
    } else if width >= 22 + 10 {
        "Sure you want to quit?"@
    } else if width >= 12 + 10 {
        "Really quit?"@
    } else {
        "Quit?"@
    }
}

/// The question of the quit prompt, for a box at least 15 columns wide.
pub fn confirm_text(width: u16) -> (r: &'static str)
    requires
        width >= 15,
    ensures
        r@ == quit_question(width),
        r@.len() + 10 <= width,
{
    proof {
        reveal_strlit("Are you sure you want to quit?");
        reveal_strlit("Sure you want to quit?");
        reveal_strlit("Really quit?");
        reveal_strlit("Quit?");
    }
    if width >= 40 {
        "Are you sure you want to quit?"
    } else if width >= 32 {
        "Sure you want to quit?"
    } else if width >= 22 {
        "Really quit?"
    } else {
        "Quit?"
    }
}

/// What cell `c` of `b`, showing `under`, shows once the quit prompt is
/// drawn in `area`.
pub open spec fn confirm_shows(b: Buffer, area: Rect, c: (int, int), under: Seq<char>) -> Seq<char> {
    let r = modal_rect(area);
    let q = quit_question(r.width);
    centred_over(b, r, "(y/n)"@, 5, r.y + r.height / 2 + 3, c,
        centred_over(b, r, q, q.len() as u16, r.y + r.height / 2 - 2, c, boxed(under, r, c)))
}

/// The quit prompt's paint: white on black, bold.
pub open spec fn confirm_paint() -> Paint {
    Paint { fg: Hue::White, bg: Hue::Black, bold: true }
}

/// How cell `c` of `b`, drawn in `under`, is drawn once the quit prompt is
/// drawn in `area`.
pub open spec fn confirm_paints(b: Buffer, area: Rect, c: (int, int), under: Option<Paint>) -> Option<Paint> {
    let r = modal_rect(area);
    let q = quit_question(r.width);
    let p = confirm_paint();
    centred_paint_over(b, r, "(y/n)"@, 5, r.y + r.height / 2 + 3, c, p,
        centred_paint_over(b, r, q, q.len() as u16, r.y + r.height / 2 - 2, c, p, box_paint(r, c, p, under)))
}

impl ConfirmBox {
    /// Draws the quit prompt: a filled box centred in `area`, the question
    /// centred two rows above its middle and `(y/n)` three below.
    pub fn draw(&self, area: Rect, buf: &mut Buffer)
        requires
            area.width >= 50,
            modal_fits(*old(buf), area),
        ensures
            same_grid(*final(buf), *old(buf)),
            forall|c: (int, int)| #[trigger] buffer_symbols(*final(buf))[c]
                == confirm_shows(*old(buf), area, c, buffer_symbols(*old(buf))[c]),
            forall|c: (int, int)| #[trigger] buffer_paints(*final(buf))[c]
                == confirm_paints(*old(buf), area, c, buffer_paints(*old(buf))[c]),
    {
        let ghost before = buffer_symbols(*buf);
        let rect = modal_box_rect(&area);
        let paint = Paint { fg: Hue::White, bg: Hue::Black, bold: true };
        draw_filled_rect(buf, paint, &rect);
        let ghost filled = buffer_symbols(*buf);
        let text = confirm_text(rect.width);
        let text_len = text.unicode_len() as u16;
        let start = (rect.width - text_len) / 2 + (rect.width - text_len) % 2 + rect.x;
        proof { reveal_strlit("(y/n)"); }
        let y_n = "(y/n)";
        let y_n_start = (rect.width - 5) / 2 + (rect.width - 5) % 2 + rect.x;
        put_string(buf, start, rect.y + rect.height / 2 - 2, text, paint);
        let ghost asked = buffer_symbols(*buf);
        put_string(buf, y_n_start, rect.y + rect.height / 2 + 3, y_n, paint);
        proof {
            let r = modal_rect(area);
            let q = quit_question(r.width);
            assert(start == line_start(r.x, r.width, q.len() as u16));
            assert(y_n_start == line_start(r.x, r.width, 5));
            assert forall|c: (int, int)| #[trigger] buffer_symbols(*buf)[c] == centred_over(
                *old(buf), r, "(y/n)"@, 5, r.y + r.height / 2 + 3, c,
                centred_over(*old(buf), r, q, q.len() as u16, r.y + r.height / 2 - 2, c, boxed(before[c], r, c)),
            ) by {
                assert(asked[c] == centred_over(*old(buf), r, q, q.len() as u16, r.y + r.height / 2 - 2, c, filled[c]));
            }
        }
    }
}

/// The warning shown when deleting while scanning, for a box `width`
/// wide: the longest that leaves five columns free.
pub open spec fn scanning_warning(width: u16) -> Seq<char> {
    if width >= 63 + 5 {
        "Sorry, deletion is only allowed once the scanning has completed"@
    } else if width >= 38 + 5 {
        "Deletion is not allowed while scanning"@
    } else if width >= 27 + 5 {
        "Can't delete while scanning"@
    } else {
        "Can't delete now"@
    }
}

/// The scanning warning, for a box at least 21 columns wide.
pub fn warning_text(width: u16) -> (r: &'static str)
    requires
        width >= 21,
    ensures
        r@ == scanning_warning(width),
        r@.len() + 5 <= width,
{
    proof {
        reveal_strlit("Sorry, deletion is only allowed once the scanning has completed");
        reveal_strlit("Deletion is not allowed while scanning");
        reveal_strlit("Can't delete while scanning");
        reveal_strlit("Can't delete now");
    }
    if width >= 68 {
        "Sorry, deletion is only allowed once the scanning has completed"
    } else if width >= 43 {
        "Deletion is not allowed while scanning"
    } else if width >= 32 {
        "Can't delete while scanning"
    } else {
        "Can't delete now"
    }
}

/// The hint that dismisses a box with `max` columns for text: the long one
/// if it fits, else the short one if it fits.
pub open spec fn dismiss_hint(max: u16, long: Seq<char>, short: Seq<char>) -> Option<Seq<char>> {
    if max >= long.len() {
        Some(long)
    } else if max >= short.len() {
        Some(short)
    } else {
        None
    }
}

fn choose_hint(max: u16, long: &'static str, short: &'static str) -> (r: Option<&'static str>)
    ensures
        match r {
            Some(t) => dismiss_hint(max, long@, short@) == Some(t@),
            None => dismiss_hint(max, long@, short@) is None,
        },
{
    if max as usize >= long.unicode_len() {
        Some(long)
    } else if max as usize >= short.unicode_len() {
        Some(short)
    } else {
        None
    }
}

/// What cell `c` of `b`, showing `under`, shows once the scanning warning
/// is drawn in `area`.
pub open spec fn warning_shows(b: Buffer, area: Rect, c: (int, int), under: Seq<char>) -> Seq<char> {
    let r = modal_rect(area);
    let w = scanning_warning(r.width);
    let hint = dismiss_hint((r.width - 4) as u16, "(Press any key to dismiss)"@, "(any key to dismiss)"@);
    let warned = centred_over(b, r, w, w.len() as u16, r.y + r.height / 2 - 2, c, boxed(under, r, c));
    match hint {
        Some(h) => centred_over(b, r, h, h.len() as u16, r.y + r.height / 2 + 2, c, warned),
        None => warned,
    }
}

/// The scanning warning's paint: yellow on black, bold.
pub open spec fn warning_paint() -> Paint {
    Paint { fg: Hue::Yellow, bg: Hue::Black, bold: true }
}

/// How cell `c` of `b`, drawn in `under`, is drawn once the scanning
/// warning is drawn in `area`.
pub open spec fn warning_paints(b: Buffer, area: Rect, c: (int, int), under: Option<Paint>) -> Option<Paint> {
    let r = modal_rect(area);
    let w = scanning_warning(r.width);
    let p = warning_paint();
    let hint = dismiss_hint((r.width - 4) as u16, "(Press any key to dismiss)"@, "(any key to dismiss)"@);
    let warned = centred_paint_over(b, r, w, w.len() as u16, r.y + r.height / 2 - 2, c, p, box_paint(r, c, p, under));
    match hint {
        Some(h) => centred_paint_over(b, r, h, h.len() as u16, r.y + r.height / 2 + 2, c, p, warned),
        None => warned,
    }
}

impl WarningBox {
    /// Draws the scanning warning: a filled box centred in `area`, the
    /// warning centred two rows above its middle and the hint that any key
    /// dismisses it two rows below.
    pub fn draw(&self, area: Rect, buf: &mut Buffer)
        requires
            area.width >= 50,
            modal_fits(*old(buf), area),
        ensures
            same_grid(*final(buf), *old(buf)),
            forall|c: (int, int)| #[trigger] buffer_symbols(*final(buf))[c]
                == warning_shows(*old(buf), area, c, buffer_symbols(*old(buf))[c]),
            forall|c: (int, int)| #[trigger] buffer_paints(*final(buf))[c]
                == warning_paints(*old(buf), area, c, buffer_paints(*old(buf))[c]),
    {
        let ghost before = buffer_symbols(*buf);
        let rect = modal_box_rect(&area);
        let paint = Paint { fg: Hue::Yellow, bg: Hue::Black, bold: true };
        draw_filled_rect(buf, paint, &rect);
        let ghost filled = buffer_symbols(*buf);
        let text = warning_text(rect.width);
        let text_len = text.unicode_len() as u16;
        let start = (rect.width - text_len) / 2 + (rect.width - text_len) % 2 + rect.x;
        put_string(buf, start, rect.y + rect.height / 2 - 2, text, paint);
        let ghost written = buffer_symbols(*buf);
        let max = rect.width - 4;
        match choose_hint(max, "(Press any key to dismiss)", "(any key to dismiss)") {
            Some(hint) => {
                let hint_len = hint.unicode_len() as u16;
                let hint_start = (rect.width - hint_len) / 2 + (rect.width - hint_len) % 2 + rect.x;
                put_string(buf, hint_start, rect.y + rect.height / 2 + 2, hint, paint);
            },
            None => {},
        }
        proof {
            let r = modal_rect(area);
            let w = scanning_warning(r.width);
            let hint = dismiss_hint((r.width - 4) as u16, "(Press any key to dismiss)"@, "(any key to dismiss)"@);
            assert(start == line_start(r.x, r.width, w.len() as u16));
            assert forall|c: (int, int)| #[trigger] buffer_symbols(*buf)[c] == {
                let warned = centred_over(*old(buf), r, w, w.len() as u16, r.y + r.height / 2 - 2, c, boxed(before[c], r, c));
                match hint {
                    Some(h) => centred_over(*old(buf), r, h, h.len() as u16, r.y + r.height / 2 + 2, c, warned),
                    None => warned,
                }
            } by {
                assert(written[c] == centred_over(*old(buf), r, w, w.len() as u16, r.y + r.height / 2 - 2, c, filled[c]));
            }
        }
    }
}

/// What cell `c` of `b`, showing `under`, shows once the error `message`
/// is drawn in `area`.
pub open spec fn error_shows(b: Buffer, area: Rect, message: Seq<char>, c: (int, int), under: Seq<char>) -> Seq<char> {
    let r = modal_rect(area);
    let text = truncated_end(message, (r.width - 4) as u16);
    let hint = dismiss_hint((r.width - 4) as u16, "(Press <ESC> to dismiss)"@, "(<ESC> to dismiss)"@);
    let told = centred_over(b, r, text, text.len() as u16, r.y + r.height / 2 - 2, c, boxed(under, r, c));
    match hint {
        Some(h) => centred_over(b, r, h, h.len() as u16, r.y + r.height / 2 + 2, c, told),
        None => told,
    }
}

/// The paint of errors and of the deletion prompt: red on black, bold.
pub open spec fn alarm_paint() -> Paint {
    Paint { fg: Hue::Red, bg: Hue::Black, bold: true }
}

/// How cell `c` of `b`, drawn in `under`, is drawn once the error
/// `message` is drawn in `area`.
pub open spec fn error_paints(b: Buffer, area: Rect, message: Seq<char>, c: (int, int), under: Option<Paint>) -> Option<Paint> {
    let r = modal_rect(area);
    let text = truncated_end(message, (r.width - 4) as u16);
    let p = alarm_paint();
    let hint = dismiss_hint((r.width - 4) as u16, "(Press <ESC> to dismiss)"@, "(<ESC> to dismiss)"@);
    let told = centred_paint_over(b, r, text, text.len() as u16, r.y + r.height / 2 - 2, c, p, box_paint(r, c, p, under));
    match hint {
        Some(h) => centred_paint_over(b, r, h, h.len() as u16, r.y + r.height / 2 + 2, c, p, told),
        None => told,
    }
}

impl<'a> ErrorBox<'a> {
    /// Draws the error: a filled box centred in `area`, the message's
    /// beginning centred two rows above its middle and the hint that Esc
    /// dismisses it two rows below.
    pub fn draw(&self, area: Rect, buf: &mut Buffer)
        requires
            area.width > 50,
            modal_fits(*old(buf), area),
            self.error_message@.len() > modal_rect(area).width - 4 ==> modal_rect(area).width - 4 >= 3
                && is_char_boundary(encode_utf8(self.error_message@), modal_rect(area).width - 4 - 3),
        ensures
            same_grid(*final(buf), *old(buf)),
            forall|c: (int, int)| #[trigger] buffer_symbols(*final(buf))[c]
                == error_shows(*old(buf), area, self.error_message@, c, buffer_symbols(*old(buf))[c]),
            forall|c: (int, int)| #[trigger] buffer_paints(*final(buf))[c]
                == error_paints(*old(buf), area, self.error_message@, c, buffer_paints(*old(buf))[c]),
    {
        let ghost before = buffer_symbols(*buf);
        let rect = modal_box_rect(&area);
        let paint = Paint { fg: Hue::Red, bg: Hue::Black, bold: true };
        let max = rect.width - 4;
        let text = truncate_end(self.error_message, max);
        proof {
            lemma_truncated_end_len(self.error_message@, max);
        }
        let text_len = text.unicode_len() as u16;
        let start = (rect.width - text_len) / 2 + (rect.width - text_len) % 2 + rect.x;
        draw_filled_rect(buf, paint, &rect);
        let ghost filled = buffer_symbols(*buf);
        put_string(buf, start, rect.y + rect.height / 2 - 2, text.as_str(), paint);
        let ghost written = buffer_symbols(*buf);
        match choose_hint(max, "(Press <ESC> to dismiss)", "(<ESC> to dismiss)") {
            Some(hint) => {
                let hint_len = hint.unicode_len() as u16;
                let hint_start = (rect.width - hint_len) / 2 + (rect.width - hint_len) % 2 + rect.x;
                put_string(buf, hint_start, rect.y + rect.height / 2 + 2, hint, paint);
            },
            None => {},
        }
        proof {
            let r = modal_rect(area);
            let t = truncated_end(self.error_message@, (r.width - 4) as u16);
            let hint = dismiss_hint((r.width - 4) as u16, "(Press <ESC> to dismiss)"@, "(<ESC> to dismiss)"@);
            assert(start == line_start(r.x, r.width, t.len() as u16));
            assert forall|c: (int, int)| #[trigger] buffer_symbols(*buf)[c] == {
                let told = centred_over(*old(buf), r, t, t.len() as u16, r.y + r.height / 2 - 2, c, boxed(before[c], r, c));
                match hint {
                    Some(h) => centred_over(*old(buf), r, h, h.len() as u16, r.y + r.height / 2 + 2, c, told),
                    None => told,
                }
            } by {
                assert(written[c] == centred_over(*old(buf), r, t, t.len() as u16, r.y + r.height / 2 - 2, c, filled[c]));
            }
        }
    }
}

/// The text of a path: its names one after the other, a `/` between two
/// unless the first already ends with one.
pub open spec fn joined_path(names: Seq<Seq<char>>) -> Seq<char>
    decreases names.len(),
{
    if names.len() == 0 {
        Seq::empty()
    } else {
        let head = joined_path(names.drop_last());
        if head.len() == 0 || head.last() == '/' {
            head + names.last()
        } else {
            head + seq!['/'] + names.last()
        }
    }
}

/// Writes out a path.
pub fn path_text(names: &Vec<String>) -> (r: String)
    ensures
        r@ == joined_path(path_model(names@)),
{
    let mut r = String::new();
    let mut i: usize = 0;
    while i < names.len()
        invariant
            i <= names@.len(),
            r@ == joined_path(path_model(names@).take(i as int)),
        decreases names@.len() - i,
    {
        let ghost head = r@;
        let n = r.unicode_len();
        let slash = n > 0 && r.as_str().get_char(n - 1) != '/';
        assert(slash == !(head.len() == 0 || head.last() == '/'));
        if slash {
            proof { reveal_strlit("/"); }
            r.append("/");
        }
        r.append(names[i].as_str());
        proof {
            let p = path_model(names@);
            let q = p.take(i as int + 1);
            assert(q.drop_last() =~= p.take(i as int));
            assert(q.last() == names@[i as int]@);
            assert(joined_path(q) == if head.len() == 0 || head.last() == '/' {
                head + q.last()
            } else {
                head + seq!['/'] + q.last()
            });
        }
        i = i + 1;
    }
    assert(path_model(names@).take(names@.len() as int) =~= path_model(names@));
    r
}

/// The line naming the entry to delete: its whole path when shorter (in
/// bytes) than `max`, else its name cut in the middle.
pub open spec fn file_name_line(f: FileToDelete, max: u16) -> Seq<char> {
    let full = joined_path(path_model(f.path_in_filesystem@) + path_model(f.path_to_file@));
    if max > byte_len(full) as u16 {
        full
    } else {
        truncated_middle(f.path_to_file@.last()@, max)
    }
}

/// The line naming the entry to delete.
pub fn truncated_file_name_line(f: &FileToDelete, max: u16) -> (r: String)
    requires
        f.path_to_file@.len() >= 1,
    ensures
        r@ == file_name_line(*f, max),
{
    let full = path_text(&f.full_path());
    if max > full.as_str().len() as u16 {
        full
    } else {
        let name = &f.path_to_file[f.path_to_file.len() - 1];
        truncate_middle(name.as_str(), max)
    }
}

/// The question of the deletion prompt with `max` columns for text: a
/// file's long or short question; a folder's with its count of children,
/// or a short one.
pub open spec fn deletion_question(f: FileToDelete, max: u16) -> Seq<char> {
    match f.file_type {
        FileType::File => if max >= 17 { "Delete this file?"@ } else { "Delete?"@ },
        FileType::Folder => {
            let full = "Delete folder with "@ + decimal(f.num_descendants->0 as nat) + " children?"@;
            if max >= byte_len(full) as u16 { full } else { "Delete folder?"@ }
        },
    }
}

/// Some question of the deletion prompt fits `max` columns.
pub open spec fn question_fits(f: FileToDelete, max: u16) -> bool {
    match f.file_type {
        FileType::File => max >= 3,
        FileType::Folder => f.num_descendants is Some && max >= 14,
    }
}

/// The question of the deletion prompt.
pub fn deletion_question_line(f: &FileToDelete, max: u16) -> (r: String)
    requires
        question_fits(*f, max),
    ensures
        r@ == deletion_question(*f, max),
{
    proof {
        reveal_strlit("Delete this file?");
        reveal_strlit("Delete?");
        reveal_strlit("Delete folder with ");
        reveal_strlit(" children?");
        reveal_strlit("Delete folder?");
    }
    match f.file_type {
        FileType::File => if max >= 17 {
            String::from_str("Delete this file?")
        } else {
            String::from_str("Delete?")
        },
        FileType::Folder => {
            let children = match f.num_descendants {
                Some(n) => n,
                None => 0,
            };
            let mut full = String::from_str("Delete folder with ");
            push_decimal(&mut full, children as u128);
            full.append(" children?");
            if max >= full.as_str().len() as u16 {
                full
            } else {
                String::from_str("Delete folder?")
            }
        },
    }
}

/// The prompt that asks to confirm a deletion, or shows that it is under
/// way.
pub struct MessageBox<'a> {
    pub file_to_delete: &'a FileToDelete,
    pub deletion_in_progress: bool,
}

/// The lines of the deletion prompt fit its box: a question fits, and the
/// question and the file's line are no wider (in bytes) than the box.
pub open spec fn prompt_fits(f: FileToDelete, r: Rect) -> bool {
    let max = (r.width - 4) as u16;
    &&& f.path_to_file@.len() >= 1
    &&& question_fits(f, max)
    &&& byte_len(deletion_question(f, max)) as u16 <= r.width
    &&& byte_len(file_name_line(f, max)) as u16 <= r.width
}

/// What cell `c` of `b`, showing `under`, shows once the deletion prompt
/// for `f` (or its progress, while `deleting`) is drawn in `area`.
pub open spec fn message_shows(b: Buffer, area: Rect, f: FileToDelete, deleting: bool, c: (int, int), under: Seq<char>) -> Seq<char> {
    let r = modal_rect(area);
    let max = (r.width - 4) as u16;
    let mid = r.y + r.height / 2;
    let name = file_name_line(f, max);
    let name_len = byte_len(name) as u16;
    let question = deletion_question(f, max);
    let boxed_under = boxed(under, r, c);
    if deleting {
        centred_over(b, r, name, name_len, mid + 1, c, centred_over(b, r, "Deleting"@, 8, mid - 1, c, boxed_under))
    } else {
        centred_over(b, r, "(y/n)"@, 5, mid + 3, c,
            centred_over(b, r, name, name_len, mid, c,
                centred_over(b, r, question, byte_len(question) as u16, mid - 3, c, boxed_under)))
    }
}

/// How cell `c` of `b`, drawn in `under`, is drawn once the deletion
/// prompt for `f` (or its progress, while `deleting`) is drawn in `area`.
pub open spec fn message_paints(b: Buffer, area: Rect, f: FileToDelete, deleting: bool, c: (int, int), under: Option<Paint>) -> Option<Paint> {
    let r = modal_rect(area);
    let max = (r.width - 4) as u16;
    let mid = r.y + r.height / 2;
    let name = file_name_line(f, max);
    let name_len = byte_len(name) as u16;
    let question = deletion_question(f, max);
    let p = alarm_paint();
    let boxed_under = box_paint(r, c, p, under);
    if deleting {
        centred_paint_over(b, r, name, name_len, mid + 1, c, p, centred_paint_over(b, r, "Deleting"@, 8, mid - 1, c, p, boxed_under))
    } else {
        centred_paint_over(b, r, "(y/n)"@, 5, mid + 3, c, p,
            centred_paint_over(b, r, name, name_len, mid, c, p,
                centred_paint_over(b, r, question, byte_len(question) as u16, mid - 3, c, p, boxed_under)))
    }
}

impl<'a> MessageBox<'a> {
    pub fn new(file_to_delete: &'a FileToDelete, deletion_in_progress: bool) -> (r: MessageBox<'a>)
        ensures
            r.file_to_delete == file_to_delete,
            r.deletion_in_progress == deletion_in_progress,
    {
        MessageBox { file_to_delete, deletion_in_progress }
    }

    /// Draws the deletion prompt in a filled box centred in `area`: the
    /// question three rows above the middle, the file on it and `(y/n)`
    /// three rows below; while deleting, `Deleting` a row above the middle
    /// and the file a row below.
    pub fn draw(&self, area: Rect, buf: &mut Buffer)
        requires
            area.width > 50,
            modal_fits(*old(buf), area),
            prompt_fits(*self.file_to_delete, modal_rect(area)),
        ensures
            same_grid(*final(buf), *old(buf)),
            forall|c: (int, int)| #[trigger] buffer_symbols(*final(buf))[c] == message_shows(
                *old(buf), area, *self.file_to_delete, self.deletion_in_progress, c, buffer_symbols(*old(buf))[c]),
            forall|c: (int, int)| #[trigger] buffer_paints(*final(buf))[c] == message_paints(
                *old(buf), area, *self.file_to_delete, self.deletion_in_progress, c, buffer_paints(*old(buf))[c]),
    {
        let ghost before = buffer_symbols(*buf);
        let rect = modal_box_rect(&area);
        let paint = Paint { fg: Hue::Red, bg: Hue::Black, bold: true };
        let max = rect.width - 4;
        let file_name = truncated_file_name_line(self.file_to_delete, max);
        let name_len = file_name.as_str().len() as u16;
        let name_start = (rect.width - name_len) / 2 + (rect.width - name_len) % 2 + rect.x;
        let mid = rect.y + rect.height / 2;
        draw_filled_rect(buf, paint, &rect);
        let ghost filled = buffer_symbols(*buf);
        let ghost r = modal_rect(area);
        let ghost f = *self.file_to_delete;
        let ghost name = file_name_line(f, max);
        let ghost question = deletion_question(f, max);
        assert(name_start == line_start(r.x, r.width, byte_len(name) as u16));
        if self.deletion_in_progress {
            proof { reveal_strlit("Deleting"); }
            let deleting = "Deleting";
            let deleting_start = (rect.width - 8) / 2 + (rect.width - 8) % 2 + rect.x;
            put_string(buf, deleting_start, mid - 1, deleting, paint);
            let ghost first = buffer_symbols(*buf);
            put_string(buf, name_start, mid + 1, file_name.as_str(), paint);
            proof {
                assert(deleting_start == line_start(r.x, r.width, 8));
                assert forall|c: (int, int)| #[trigger] buffer_symbols(*buf)[c] == centred_over(*old(buf), r, name,
                    byte_len(name) as u16, mid + 1, c,
                    centred_over(*old(buf), r, "Deleting"@, 8, mid - 1, c, boxed(before[c], r, c))) by {
                    assert(first[c] == centred_over(*old(buf), r, "Deleting"@, 8, mid - 1, c, filled[c]));
                }
            }
        } else {
            let question_text = deletion_question_line(self.file_to_delete, max);
            let question_len = question_text.as_str().len() as u16;
            let question_start = (rect.width - question_len) / 2 + (rect.width - question_len) % 2 + rect.x;
            proof { reveal_strlit("(y/n)"); }
            let y_n_start = (rect.width - 5) / 2 + (rect.width - 5) % 2 + rect.x;
            put_string(buf, question_start, mid - 3, question_text.as_str(), paint);
            let ghost first = buffer_symbols(*buf);
            put_string(buf, name_start, mid, file_name.as_str(), paint);
            let ghost second = buffer_symbols(*buf);
            put_string(buf, y_n_start, mid + 3, "(y/n)", paint);
            proof {
                assert(question_start == line_start(r.x, r.width, byte_len(question) as u16));
                assert(y_n_start == line_start(r.x, r.width, 5));
                assert forall|c: (int, int)| #[trigger] buffer_symbols(*buf)[c] == centred_over(*old(buf), r, "(y/n)"@, 5,
                    mid + 3, c, centred_over(*old(buf), r, name, byte_len(name) as u16, mid as int, c,
                        centred_over(*old(buf), r, question, byte_len(question) as u16, mid - 3, c,
                            boxed(before[c], r, c)))) by {
                    assert(first[c] == centred_over(*old(buf), r, question, byte_len(question) as u16, mid - 3, c, filled[c]));
                    assert(second[c] == centred_over(*old(buf), r, name, byte_len(name) as u16, mid as int, c, first[c]));
                }
            }
        }
    }
}

/// The notice for a terminal `width` columns wide: the longest that fits,
/// or none below three columns.
pub open spec fn too_small_notice(width: u16) -> Option<Seq<char>> {
    if width >= 38 {
        Some("Terminal window is too small ¯\\_(ツ)_/¯"@)
    } else if width >= 26 {
        Some("Window too small ¯\\_(ツ)_/¯"@)
    } else if width >= 19 {
        Some("too small ¯\\_(ツ)_/¯"@)
    } else if width >= 9 {
        Some("¯\\_(ツ)_/¯"@)
    } else if width >= 3 {
        Some("!!!"@)
    } else {
        None
    }
}

/// The notice for a terminal `width` columns wide.
pub fn too_small_text(width: u16) -> (r: Option<&'static str>)
    ensures
        match r {
            Some(t) => too_small_notice(width) == Some(t@) && t@.len() <= width,
            None => too_small_notice(width) is None,
        },
{
    proof {
        reveal_strlit("Terminal window is too small ¯\\_(ツ)_/¯");
        reveal_strlit("Window too small ¯\\_(ツ)_/¯");
        reveal_strlit("too small ¯\\_(ツ)_/¯");
        reveal_strlit("¯\\_(ツ)_/¯");
        reveal_strlit("!!!");
    }
    if width >= 38 {
        Some("Terminal window is too small ¯\\_(ツ)_/¯")
    } else if width >= 26 {
        Some("Window too small ¯\\_(ツ)_/¯")
    } else if width >= 19 {
        Some("too small ¯\\_(ツ)_/¯")
    } else if width >= 9 {
        Some("¯\\_(ツ)_/¯")
    } else if width >= 3 {
        Some("!!!")
    } else {
        None
    }
}

/// Where the notice of `len` characters starts: its middle at the middle
/// of the area, rounding left.
pub open spec fn notice_start(area: Rect, len: nat) -> int {
    (area.x + area.width) / 2 - len / 2
}

/// The too-small notice can be drawn in `area` of `b`.
pub open spec fn too_small_fits(b: Buffer, area: Rect) -> bool {
    &&& buffer_sound(b)
    &&& area.x + area.width <= u16::MAX
    &&& area.y + area.height / 2 <= u16::MAX
    &&& too_small_notice(area.width) matches Some(t) ==> in_buffer(b, notice_start(area, t.len()), area.y + area.height / 2)
}

/// What cell `c` of `b`, showing `under`, shows once the too-small notice
/// is drawn in `area`.
pub open spec fn too_small_shows(b: Buffer, area: Rect, c: (int, int), under: Seq<char>) -> Seq<char> {
    match too_small_notice(area.width) {
        Some(t) => written_over(
            line_cells(t, b, notice_start(area, t.len())),
            notice_start(area, t.len()),
            area.y + area.height / 2,
            c,
            under,
        ),
        None => under,
    }
}

/// How cell `c` of `b`, drawn in `under`, is drawn once the too-small
/// notice is drawn in `area`: bold, in the terminal's colours.
pub open spec fn too_small_paints(b: Buffer, area: Rect, c: (int, int), under: Option<Paint>) -> Option<Paint> {
    match too_small_notice(area.width) {
        Some(t) => painted_over(
            line_cells(t, b, notice_start(area, t.len())),
            notice_start(area, t.len()),
            area.y + area.height / 2,
            c,
            Paint { fg: Hue::Reset, bg: Hue::Reset, bold: true },
            under,
        ),
        None => under,
    }
}

impl TermTooSmall {
    /// Draws the notice that the terminal is too small, bold, centred on the
    /// middle row of `area`.
    pub fn draw(&self, area: Rect, buf: &mut Buffer)
        requires
            area.x + area.width <= u16::MAX,
            area.y + area.height / 2 <= u16::MAX,
            too_small_notice(area.width) matches Some(t) ==> in_buffer(
                *old(buf),
                notice_start(area, t.len()),
                area.y + area.height / 2,
            ),
        ensures
            same_grid(*final(buf), *old(buf)),
            forall|c: (int, int)| #[trigger] buffer_symbols(*final(buf))[c] == too_small_shows(*old(buf), area, c, buffer_symbols(*old(buf))[c]),
            forall|c: (int, int)| #[trigger] buffer_paints(*final(buf))[c] == too_small_paints(*old(buf), area, c, buffer_paints(*old(buf))[c]),
    {
        match too_small_text(area.width) {
            Some(line) => {
                let len = line.unicode_len() as u16;
                let start = (area.x + area.width) / 2 - len / 2;
                put_string(buf, start, area.y + area.height / 2, line, Paint { fg: Hue::Reset, bg: Hue::Reset, bold: true });
            },
            None => {},
        }
    }
}

fn has_cell(area: Rect, x: u32, y: u32) -> (r: bool)
    ensures
        r == in_area((area.x, area.y, area.width, area.height), x as int, y as int),
{
    (area.x as u32) <= x && x < (area.x as u32) + (area.width as u32) && (area.y as u32) <= y
        && y < (area.y as u32) + (area.height as u32)
}

/// Whether a modal box can be drawn in `area` (at least 50 columns wide).
pub fn modal_drawable(buf: &Buffer, area: Rect) -> (r: bool)
    requires
        area.width >= 50,
    ensures
        r == modal_fits(*buf, area),
{
    let bounds = buffer_rect(buf);
    if !buffer_is_sound(buf) {
        return false;
    }
    if area.x as u32 + area.width as u32 > 65535 || area.y as u32 + area.height as u32 > 65535
        || (area.y as u32 + area.height as u32) < 10 {
        return false;
    }
    let r = modal_box_rect(&area);
    let right = r.x as u32 + r.width as u32;
    let bottom = r.y as u32 + r.height as u32;
    has_cell(bounds, r.x as u32, r.y as u32) && has_cell(bounds, right, bottom) && right < 65535 && (r.y as u32) < 65535
        && bottom <= 65535
}

/// Whether the deletion prompt's lines fit the box `r`.
pub fn prompt_drawable(f: &FileToDelete, r: Rect) -> (ok: bool)
    requires
        r.width >= 4,
    ensures
        ok == prompt_fits(*f, r),
{
    let max = r.width - 4;
    if f.path_to_file.len() == 0 {
        return false;
    }
    let fits = match f.file_type {
        FileType::File => max >= 3,
        FileType::Folder => f.num_descendants.is_some() && max >= 14,
    };
    if !fits {
        return false;
    }
    let question = deletion_question_line(f, max);
    let name = truncated_file_name_line(f, max);
    question.as_str().len() as u16 <= r.width && name.as_str().len() as u16 <= r.width
}

/// Whether the error message can be cut for the box `r`: a message longer
/// than the box's text columns is cut on a character boundary.
pub fn error_drawable(message: &str, r: Rect) -> (ok: bool)
    requires
        r.width >= 4,
    ensures
        ok == (message@.len() > r.width - 4 ==> r.width - 4 >= 3
            && is_char_boundary(encode_utf8(message@), r.width - 4 - 3)),
{
    let max = r.width - 4;
    if message.unicode_len() > max as usize {
        max >= 3 && message.is_char_boundary((max - 3) as usize)
    } else {
        true
    }
}

/// Whether the too-small notice can be drawn in `area`.
pub fn too_small_drawable(buf: &Buffer, area: Rect) -> (ok: bool)
    ensures
        ok == too_small_fits(*buf, area),
{
    let bounds = buffer_rect(buf);
    if !buffer_is_sound(buf) {
        return false;
    }
    if area.x as u32 + area.width as u32 > 65535 || area.y as u32 + (area.height / 2) as u32 > 65535 {
        return false;
    }
    match too_small_text(area.width) {
        Some(line) => {
            let len = line.unicode_len() as u32;
            let start = (area.x as u32 + area.width as u32) / 2 - len / 2;
            has_cell(bounds, start, area.y as u32 + (area.height / 2) as u32)
        },
        None => true,
    }
}

} // verus!
