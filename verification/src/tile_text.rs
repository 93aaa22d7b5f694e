use vstd::prelude::*;
use vstd::utf8::encode_utf8;
use crate::board::Tile;
use crate::file_tree::FileType;
use crate::listing::Share;
use crate::grid::{Hue, Paint, plain};
use crate::truncate::{truncate_middle, truncated_middle};

verus! {

/// The character of a decimal digit.
pub open spec fn digit_char(d: int) -> char {
    if d == 0 {
        '0'
    } else if d == 1 {
        '1'
    } else if d == 2 {
        '2'
    } else if d == 3 {
        '3'
    } else if d == 4 {
        '4'
    } else if d == 5 {
        '5'
    } else if d == 6 {
        '6'
    } else if d == 7 {
        '7'
    } else if d == 8 {
        '8'
    } else {
        '9'
    }
}

/// The decimal writing of `n`, with no leading zero.
pub open spec fn decimal(n: nat) -> Seq<char>
    decreases n,
{
    if n < 10 {
        seq![digit_char(n as int)]
    } else {
        decimal(n / 10).push(digit_char((n % 10) as int))
    }
}

fn digit_text(d: u128) -> (r: &'static str)
    requires
        d < 10,
    ensures
        r@ == seq![digit_char(d as int)],
{
    if d == 0 {
        proof { reveal_strlit("0"); }
        "0"
    } else if d == 1 {
        proof { reveal_strlit("1"); }
        "1"
    } else if d == 2 {
        proof { reveal_strlit("2"); }
        "2"
    } else if d == 3 {
        proof { reveal_strlit("3"); }
        "3"
    } else if d == 4 {
        proof { reveal_strlit("4"); }
        "4"
    } else if d == 5 {
        proof { reveal_strlit("5"); }
        "5"
    } else if d == 6 {
        proof { reveal_strlit("6"); }
        "6"
    } else if d == 7 {
        proof { reveal_strlit("7"); }
        "7"
    } else if d == 8 {
        proof { reveal_strlit("8"); }
        "8"
    } else {
        proof { reveal_strlit("9"); }
        "9"
    }
}

/// Appends the decimal writing of `n`.
pub fn push_decimal(out: &mut String, n: u128)
    ensures
        final(out)@ == old(out)@ + decimal(n as nat),
    decreases n,
{
    if n >= 10 {
        push_decimal(out, n / 10);
    }
    out.append(digit_text(n % 10));
    proof {
        if n >= 10 {
            assert(decimal(n as nat) == decimal((n / 10) as nat).push(digit_char((n % 10) as int)));
        }
    }
}

/// The bytes a text takes in UTF-8, as `str::len` gives them.
pub open spec fn byte_len(s: Seq<char>) -> usize {
    encode_utf8(s).len() as usize
}

/// The columns a tile has for text: two fewer than its width, for the
/// borders.
pub open spec fn max_text_length(width: u16) -> u16 {
    if width > 2 { (width - 2) as u16 } else { 0 }
}

/// A tile's name, with `/` after a folder's.
pub open spec fn filename_text(name: Seq<char>, file_type: FileType) -> Seq<char> {
    match file_type {
        FileType::File => name,
        FileType::Folder => name.push('/'),
    }
}

/// `(+n)`.
pub open spec fn short_descendants(n: nat) -> Seq<char> {
    seq!['(', '+'] + decimal(n) + seq![')']
}

/// `(+n descendants)`.
pub open spec fn long_descendants(n: nat) -> Seq<char> {
    seq!['(', '+'] + decimal(n) + seq![' ', 'd', 'e', 's', 'c', 'e', 'n', 'd', 'a', 'n', 't', 's', ')']
}

/// The first line of a tile: a file's name, cut in the middle to fit; a
/// folder's name with `/` and its descendant count, long or short as the
/// bytes fit, or else the name cut in the middle.
pub open spec fn first_line(name: Seq<char>, file_type: FileType, descendants: Option<u64>, width: u16) -> Seq<char> {
    let max = max_text_length(width);
    let filename = filename_text(name, file_type);
    match file_type {
        FileType::File => truncated_middle(filename, max),
        FileType::Folder => {
            let n = descendants->0 as nat;
            if byte_len(filename) + byte_len(long_descendants(n)) <= max {
                filename + seq![' '] + long_descendants(n)
            } else if byte_len(filename) + byte_len(short_descendants(n)) <= max {
                filename + seq![' '] + short_descendants(n)
            } else {
                truncated_middle(filename, max)
            }
        },
    }
}

/// The first line of the tile's text.
pub fn tile_first_line(tile: &Tile, selected: bool) -> (r: String)
    requires
        tile.file_type == FileType::Folder ==> tile.descendants is Some,
    ensures
        r@ == first_line(tile.name@, tile.file_type, tile.descendants, tile.width),
{
    let max_text_length: u16 = if tile.width > 2 { tile.width - 2 } else { 0 };
    let mut filename = tile.name.clone();
    assert(max_text_length == crate::tile_text::max_text_length(tile.width));
    assert(filename@ == tile.name@);
    match tile.file_type {
        FileType::File => truncate_middle(filename.as_str(), max_text_length),
        FileType::Folder => {
            proof { reveal_strlit("/"); }
            filename.append("/");
            let n = match tile.descendants {
                Some(n) => n,
                None => 0,
            };
            proof {
                reveal_strlit("(+");
                reveal_strlit(")");
                reveal_strlit(" descendants)");
                reveal_strlit(" ");
            }
            let mut short = String::from_str("(+");
            push_decimal(&mut short, n as u128);
            short.append(")");
            let mut long = String::from_str("(+");
            push_decimal(&mut long, n as u128);
            long.append(" descendants)");
            assert(short@ == short_descendants(n as nat));
            assert(long@ == long_descendants(n as nat));
            assert(filename@ == filename_text(tile.name@, tile.file_type));
            let filename_len = filename.as_str().len();
            assert(filename_len == byte_len(filename@));
            let max = max_text_length as usize;
            if filename_len <= max && long.as_str().len() <= max - filename_len {
                let mut line = filename;
                line.append(" ");
                line.append(long.as_str());
                line
            } else if filename_len <= max && short.as_str().len() <= max - filename_len {
                let mut line = filename;
                line.append(" ");
                line.append(short.as_str());
                line
            } else {
                truncate_middle(filename.as_str(), max_text_length)
            }
        },
    }
}

/// `100 * num / den` rounded to a whole number, `den` being positive: ties
/// go to the even neighbour with `half_even`, away from zero otherwise.
pub open spec fn rounded_percent(num: nat, den: nat, half_even: bool) -> nat {
    let q = (100 * num) / den;
    let rem = (100 * num) % den;
    if 2 * rem > den {
        q + 1
    } else if 2 * rem < den {
        q
    } else if half_even && q % 2 == 0 {
        q
    } else {
        q + 1
    }
}

/// The percentage a share stands for, written out: `NaN` for none of
/// nothing, `inf` for some of nothing.
pub open spec fn percent_text(share: Share, half_even: bool) -> Seq<char> {
    if share.denominator == 0 {
        if share.numerator == 0 { seq!['N', 'a', 'N'] } else { seq!['i', 'n', 'f'] }
    } else {
        decimal(rounded_percent(share.numerator as nat, share.denominator as nat, half_even))
    }
}

/// Appends the percentage a share stands for.
pub fn push_percent(out: &mut String, share: Share, half_even: bool)
    ensures
        final(out)@ == old(out)@ + percent_text(share, half_even),
{
    if share.denominator == 0 {
        if share.numerator == 0 {
            proof { reveal_strlit("NaN"); }
            out.append("NaN");
        } else {
            proof { reveal_strlit("inf"); }
            out.append("inf");
        }
        return;
    }
    let scaled: u128 = 100 * (share.numerator as u128);
    let den: u128 = share.denominator as u128;
    let q: u128 = scaled / den;
    let rem: u128 = scaled % den;
    assert(q <= scaled);
    let rounded: u128 = if 2 * rem > den {
        q + 1
    } else if 2 * rem < den {
        q
    } else if half_even && q % 2 == 0 {
        q
    } else {
        q + 1
    };
    push_decimal(out, rounded);
}

/// The second line of a tile: the size with the percentage, the size, the
/// rounded size, or the percentage alone, the first that fits the tile's
/// text columns (measured in bytes).
pub open spec fn second_line(share: Share, width: u16, size_text: Seq<char>, rounded_text: Seq<char>) -> Seq<char> {
    let max = max_text_length(width);
    let size_len = byte_len(size_text) as u16;
    if max >= size_len + 7 {
        size_text + seq![' ', '('] + percent_text(share, true) + seq!['%', ')']
    } else if max > size_len {
        size_text
    } else if max > byte_len(rounded_text) as u16 {
        rounded_text
    } else if max > 6 {
        seq!['('] + percent_text(share, false) + seq!['%', ')']
    } else {
        percent_text(share, false) + seq!['%']
    }
}

/// Some line of the second line's choices fits the tile.
pub open spec fn second_line_fits(width: u16, size_text: Seq<char>, rounded_text: Seq<char>) -> bool {
    let max = max_text_length(width);
    max >= 4 || max > byte_len(size_text) as u16 || max > byte_len(rounded_text) as u16
}

/// The second line of the tile's text, given its size written out in full
/// and rounded.
pub fn tile_second_line(tile: &Tile, size_text: &str, rounded_text: &str) -> (r: String)
    requires
        second_line_fits(tile.width, size_text@, rounded_text@),
        byte_len(size_text@) as u16 + 7 <= u16::MAX,
    ensures
        r@ == second_line(tile.percentage, tile.width, size_text@, rounded_text@),
{
    let max_text_length: u16 = if tile.width > 2 { tile.width - 2 } else { 0 };
    let size_len = size_text.len() as u16;
    let rounded_len = rounded_text.len() as u16;
    proof {
        reveal_strlit(" (");
        reveal_strlit("%)");
        reveal_strlit("(");
        reveal_strlit("%");
    }
    if max_text_length >= size_len + 7 {
        let mut line = size_text.to_owned();
        line.append(" (");
        push_percent(&mut line, tile.percentage, true);
        line.append("%)");
        line
    } else if max_text_length > size_len {
        size_text.to_owned()
    } else if max_text_length > rounded_len {
        rounded_text.to_owned()
    } else if max_text_length > 6 {
        let mut line = String::from_str("(");
        push_percent(&mut line, tile.percentage, false);
        line.append("%)");
        line
    } else {
        let mut line = String::new();
        push_percent(&mut line, tile.percentage, false);
        line.append("%");
        line
    }
}

/// The column where a line of `len` characters starts, centred in a tile
/// at `x` that is `width` wide, rounding up.
pub open spec fn line_start(x: u16, width: u16, len: u16) -> int {
    x + (width - len + 1) / 2
}

/// The rows of a tile's first and second lines: around the middle of a
/// tall tile, below its top edge in a low one, and no second line in a
/// tile lower than three rows.
pub open spec fn text_rows(y: u16, height: u16) -> (int, Option<int>) {
    if height > 5 {
        let gap: int = if height % 2 == 0 { 1 } else { 2 };
        (height / 2 + y - 1, Some(height / 2 + y + gap))
    } else if height == 5 {
        (height / 2 + y, Some(height / 2 + y + 1))
    } else if height == 4 {
        (y + 1, Some(y + 3))
    } else if height > 2 {
        (y + 1, Some(y + 2))
    } else {
        (y + 1, None)
    }
}

/// The rows of the tile's first and second lines.
pub fn tile_text_rows(y: u16, height: u16) -> (r: (u16, Option<u16>))
    requires
        text_rows(y, height).0 <= u16::MAX,
        text_rows(y, height).1 matches Some(s) ==> s <= u16::MAX,
    ensures
        r.0 == text_rows(y, height).0,
        match r.1 {
            Some(s) => text_rows(y, height).1 == Some(s as int),
            None => text_rows(y, height).1 is None,
        },
{
    if height > 5 {
        let gap: u16 = if height % 2 == 0 { 1 } else { 2 };
        ((height / 2) + y - 1, Some((height / 2) + y + gap))
    } else if height == 5 {
        ((height / 2) + y, Some((height / 2) + y + 1))
    } else if height == 4 {
        (y + 1, Some(y + 3))
    } else if height > 2 {
        (y + 1, Some(y + 2))
    } else {
        (y + 1, None)
    }
}

/// How a tile is painted: the fill of a selected tile, then its first and
/// second lines. A selected file is grey, a selected folder blue; a folder's
/// name is bold.
pub open spec fn tile_paints(selected: bool, file_type: FileType) -> (Option<Paint>, Paint, Paint) {
    match (selected, file_type) {
        (true, FileType::File) => (
            Some(Paint { fg: Hue::DarkGray, bg: Hue::DarkGray, bold: false }),
            Paint { fg: Hue::Black, bg: Hue::DarkGray, bold: false },
            Paint { fg: Hue::Black, bg: Hue::DarkGray, bold: false },
        ),
        (false, FileType::File) => (None, plain(), plain()),
        (true, FileType::Folder) => (
            Some(Paint { fg: Hue::Blue, bg: Hue::Blue, bold: false }),
            Paint { fg: Hue::White, bg: Hue::Blue, bold: true },
            Paint { fg: Hue::Black, bg: Hue::Blue, bold: false },
        ),
        (false, FileType::Folder) => (None, Paint { fg: Hue::Blue, bg: Hue::Reset, bold: true }, plain()),
    }
}

/// The paints of a tile.
pub fn tile_style(tile: &Tile, selected: bool) -> (r: (Option<Paint>, Paint, Paint))
    ensures
        r == tile_paints(selected, tile.file_type),
{
    let plain = Paint { fg: Hue::Reset, bg: Hue::Reset, bold: false };
    match (selected, tile.file_type) {
        (true, FileType::File) => (
            Some(Paint { fg: Hue::DarkGray, bg: Hue::DarkGray, bold: false }),
            Paint { fg: Hue::Black, bg: Hue::DarkGray, bold: false },
            Paint { fg: Hue::Black, bg: Hue::DarkGray, bold: false },
        ),
        (false, FileType::File) => (None, plain, plain),
        (true, FileType::Folder) => (
            Some(Paint { fg: Hue::Blue, bg: Hue::Blue, bold: false }),
            Paint { fg: Hue::White, bg: Hue::Blue, bold: true },
            Paint { fg: Hue::Black, bg: Hue::Blue, bold: false },
        ),
        (false, FileType::Folder) => (None, Paint { fg: Hue::Blue, bg: Hue::Reset, bold: true }, plain),
    }
}

} // verus!
