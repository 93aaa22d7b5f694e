use diskonaut::board::Tile;
use diskonaut::file_tree::FileType;
use diskonaut::grid::{Hue, Paint};
use diskonaut::listing::Share;
use diskonaut::tile_text::{push_decimal, push_percent, tile_first_line, tile_second_line, tile_style, tile_text_rows};

fn tile(name: &str, width: u16, height: u16, file_type: FileType, descendants: Option<u64>, share: Share) -> Tile {
    Tile { x: 0, y: 0, width, height, name: name.to_string(), size: 1, descendants, percentage: share, file_type }
}

#[test]
fn decimals_are_written_without_leading_zeros() {
    let mut s = String::new();
    push_decimal(&mut s, 0);
    assert_eq!(s, "0");
    let mut s = String::from("n=");
    push_decimal(&mut s, 1234567890123);
    assert_eq!(s, "n=1234567890123");
}

#[test]
fn percentages_round_half_to_even_or_half_away() {
    let mut even = String::new();
    push_percent(&mut even, Share { numerator: 1, denominator: 8 }, true);
    assert_eq!(even, "12");
    let mut away = String::new();
    push_percent(&mut away, Share { numerator: 1, denominator: 8 }, false);
    assert_eq!(away, "13");
    let mut third = String::new();
    push_percent(&mut third, Share { numerator: 2, denominator: 3 }, true);
    assert_eq!(third, "67");
    let mut nan = String::new();
    push_percent(&mut nan, Share { numerator: 0, denominator: 0 }, true);
    assert_eq!(nan, "NaN");
    let mut inf = String::new();
    push_percent(&mut inf, Share { numerator: 5, denominator: 0 }, false);
    assert_eq!(inf, "inf");
}

#[test]
fn folder_lines_shorten_their_descendant_count() {
    let share = Share { numerator: 1, denominator: 2 };
    let wide = tile("photos", 40, 10, FileType::Folder, Some(1200), share);
    assert_eq!(tile_first_line(&wide, false), "photos/ (+1200 descendants)");
    let narrow = tile("photos", 16, 10, FileType::Folder, Some(1200), share);
    assert_eq!(tile_first_line(&narrow, false), "photos/ (+1200)");
    let tight = tile("photographs", 12, 10, FileType::Folder, Some(1200), share);
    assert_eq!(tile_first_line(&tight, true), "pho[...]hs/");
}

#[test]
fn file_lines_are_cut_in_the_middle() {
    let share = Share { numerator: 1, denominator: 2 };
    assert_eq!(tile_first_line(&tile("report.pdf", 30, 5, FileType::File, None, share), false), "report.pdf");
    assert_eq!(tile_first_line(&tile("a_very_long_file_name.txt", 13, 5, FileType::File, None, share), false), "a_v[..]txt");
    assert_eq!(tile_first_line(&tile("abcdef", 6, 5, FileType::File, None, share), false), "abcd");
}

#[test]
fn the_size_line_falls_back_step_by_step() {
    let share = Share { numerator: 1, denominator: 3 };
    assert_eq!(tile_second_line(&tile("x", 20, 5, FileType::File, None, share), "12.5K", "13K"), "12.5K (33%)");
    assert_eq!(tile_second_line(&tile("x", 10, 5, FileType::File, None, share), "12.5K", "13K"), "12.5K");
    assert_eq!(tile_second_line(&tile("x", 7, 5, FileType::File, None, share), "12.5K", "13K"), "13K");
    assert_eq!(tile_second_line(&tile("x", 9, 5, FileType::File, None, share), "123.45M", "1234567"), "(33%)");
    assert_eq!(tile_second_line(&tile("x", 6, 5, FileType::File, None, share), "123.45M", "1234567"), "33%");
}

#[test]
fn lines_sit_around_the_middle() {
    assert_eq!(tile_text_rows(0, 10), (4, Some(6)));
    assert_eq!(tile_text_rows(0, 11), (4, Some(7)));
    assert_eq!(tile_text_rows(2, 5), (4, Some(5)));
    assert_eq!(tile_text_rows(0, 4), (1, Some(3)));
    assert_eq!(tile_text_rows(0, 3), (1, Some(2)));
    assert_eq!(tile_text_rows(0, 2), (1, None));
}

#[test]
fn selection_paints_the_tile() {
    let share = Share { numerator: 1, denominator: 3 };
    let folder = tile("d", 10, 5, FileType::Folder, Some(1), share);
    assert_eq!(
        tile_style(&folder, true),
        (
            Some(Paint { fg: Hue::Blue, bg: Hue::Blue, bold: false }),
            Paint { fg: Hue::White, bg: Hue::Blue, bold: true },
            Paint { fg: Hue::Black, bg: Hue::Blue, bold: false },
        )
    );
    assert_eq!(tile_style(&folder, false).0, None);
    assert_eq!(tile_style(&folder, false).1, Paint { fg: Hue::Blue, bg: Hue::Reset, bold: true });
    let file = tile("f", 10, 5, FileType::File, None, share);
    assert_eq!(tile_style(&file, true).0, Some(Paint { fg: Hue::DarkGray, bg: Hue::DarkGray, bold: false }));
}
