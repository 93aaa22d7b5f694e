use diskonaut::board::Rect;
use diskonaut::grid::{Hue, Paint};
use diskonaut::layout::FolderInfo;
use diskonaut::os::{is_root_id, is_user_admin};
use diskonaut::title::{get_index_or_last, CellSizeOpt, TitleLine, TitleTelescope};
use tui::buffer::Buffer;
use tui::layout::Rect as TuiRect;
use tui::style::{Color, Modifier, Style};

fn path(parts: &[&str]) -> Vec<String> {
    parts.iter().map(|p| p.to_string()).collect()
}

fn row(buf: &Buffer, y: u16) -> String {
    (0..buf.area.width).map(|x| buf.get(x, y).symbol.clone()).collect()
}

fn contents(side: &Vec<Vec<CellSizeOpt>>) -> Vec<Vec<String>> {
    side.iter().map(|ways| ways.iter().map(|c| c.content.clone()).collect()).collect()
}

fn sample_telescope() -> TitleTelescope {
    let yellow = Paint { fg: Hue::Yellow, bg: Hue::Reset, bold: true };
    let mut t = TitleTelescope::new(yellow);
    t.append_to_left_side(vec![
        CellSizeOpt::new("Total: 1.0K (5 files), freed: 0".to_string()),
        CellSizeOpt::new("Total: 1.0K, freed: 0".to_string()),
        CellSizeOpt::new("Total: 1.0K".to_string()),
        CellSizeOpt::new("1.0K".to_string()),
    ]);
    t.append_to_right_side(vec![CellSizeOpt::new("/home".to_string())]);
    t.append_to_right_side(vec![
        CellSizeOpt::new("/docs (512, 2 files)".to_string()),
        CellSizeOpt::new("/docs (512)".to_string()),
        CellSizeOpt::new("/docs".to_string()),
    ]);
    t
}

#[test]
fn a_part_falls_back_to_its_shortest_way() {
    let ways = vec![CellSizeOpt::new("long".to_string()), CellSizeOpt::new("s".to_string())];
    assert_eq!(get_index_or_last(&ways, 0).content, "long");
    assert_eq!(get_index_or_last(&ways, 5).content, "s");
    let styled = CellSizeOpt::new("x".to_string()).style(Paint { fg: Hue::Red, bg: Hue::Reset, bold: false });
    assert_eq!(styled.style, Some(Paint { fg: Hue::Red, bg: Hue::Reset, bold: false }));
}

#[test]
fn the_title_collapses_until_it_fits() {
    let t = sample_telescope();
    assert_eq!(t.highest_collapse_count(), 4);
    assert_eq!(t.line_index_len(0), 59);
    assert_eq!(t.line_index_len(1), 40);
    assert_eq!(t.choose_level(80), Some(0));
    assert_eq!(t.choose_level(40), Some(2));
    assert_eq!(t.choose_level(10), None);
}

#[test]
fn the_title_is_drawn_at_its_level() {
    let t = sample_telescope();
    let mut wide = Buffer::empty(TuiRect { x: 0, y: 0, width: 80, height: 1 });
    let rect = Rect { x: 0, y: 0, width: 80, height: 1 };
    assert!(t.can_render(rect, &wide));
    t.render(rect, &mut wide);
    assert_eq!(row(&wide, 0).trim_end(), " Total: 1.0K (5 files), freed: 0 | /home/docs (512, 2 files)");
    let mut narrow = Buffer::empty(TuiRect { x: 0, y: 0, width: 40, height: 1 });
    t.render(Rect { x: 0, y: 0, width: 40, height: 1 }, &mut narrow);
    assert_eq!(row(&narrow, 0).trim_end(), " Total: 1.0K | /home/docs");
}

#[test]
fn a_title_too_wide_is_cut() {
    let t = sample_telescope();
    let mut tiny = Buffer::empty(TuiRect { x: 0, y: 0, width: 10, height: 1 });
    let rect = Rect { x: 0, y: 0, width: 10, height: 1 };
    assert!(t.can_render(rect, &tiny));
    t.render(rect, &mut tiny);
    assert_eq!(row(&tiny, 0), " 1.0K | / ");
}

#[test]
fn a_title_outside_the_buffer_is_refused() {
    let t = sample_telescope();
    let small = Buffer::empty(TuiRect { x: 0, y: 0, width: 20, height: 1 });
    assert!(!t.can_render(Rect { x: 0, y: 0, width: 80, height: 1 }, &small));
}

#[test]
fn the_title_line_lists_totals_and_paths() {
    let base = path(&["/", "home"]);
    let current = path(&["/", "home", "docs"]);
    let title = TitleLine::new(
        FolderInfo { path: &base, size: 1024, num_descendants: 5 },
        FolderInfo { path: &current, size: 512, num_descendants: 2 },
        0,
    );
    let t = title.telescope("1.0K", "512", "0", false);
    assert_eq!(
        contents(&t.left_side),
        vec![vec!["Total: 1.0K (5 files), freed: 0", "Total: 1.0K, freed: 0", "Total: 1.0K", "1.0K"]]
    );
    assert_eq!(
        contents(&t.right_side),
        vec![vec!["/home".to_string()], vec!["/docs (512, 2 files)".to_string(), "/docs (512)".to_string(), "/docs".to_string()]]
    );
    assert_eq!(t.default_style, Paint { fg: Hue::Yellow, bg: Hue::Reset, bold: true });
}

#[test]
fn scanning_errors_root_and_zoom_add_parts() {
    let base = path(&["/"]);
    let title = TitleLine::new(
        FolderInfo { path: &base, size: 1024, num_descendants: 5 },
        FolderInfo { path: &base, size: 1024, num_descendants: 5 },
        0,
    )
    .read_errors(3)
    .zoom_level(2)
    .progress_indicator(7)
    .show_loading();
    let t = title.telescope("1.0K", "1.0K", "0", true);
    assert_eq!(
        contents(&t.left_side),
        vec![
            vec!["Scanning: 1.0K (5 files)", "Scanning: 1.0K", "1.0K"],
            vec![" (failed to read 3 files)", " (3 errors)", " (errors)"],
            vec![" (CAUTION: running as root)", " (running as root)", " (root)"],
        ]
    );
    assert_eq!(
        contents(&t.right_side),
        vec![vec!["/".to_string()], vec![" (+2 larger file(s), zoom out to show)".to_string(), " (+2 larger file(s))".to_string()]]
    );
    assert!(t.loading);
    assert_eq!(t.loading_indicator, 7);
    assert_eq!(t.left_side[1][0].style, Some(Paint { fg: Hue::Red, bg: Hue::Reset, bold: false }));
}

#[test]
fn the_title_line_warns_when_running_as_root() {
    let base = path(&["/", "tmp"]);
    let title = TitleLine::new(
        FolderInfo { path: &base, size: 0, num_descendants: 0 },
        FolderInfo { path: &base, size: 0, num_descendants: 0 },
        0,
    );
    let mut buf = Buffer::empty(TuiRect { x: 0, y: 0, width: 120, height: 1 });
    assert!(title.render(Rect { x: 0, y: 0, width: 120, height: 1 }, &mut buf, "0", "0", "0"));
    let root = nix::unistd::geteuid().is_root();
    assert_eq!(is_user_admin(), root);
    let expected = if root {
        " Total: 0 (0 files), freed: 0 (CAUTION: running as root) | /tmp"
    } else {
        " Total: 0 (0 files), freed: 0 | /tmp"
    };
    assert_eq!(row(&buf, 0).trim_end(), expected);
}

#[test]
fn the_title_line_is_drawn_for_the_given_user() {
    let base = path(&["/", "tmp"]);
    let title = TitleLine::new(
        FolderInfo { path: &base, size: 0, num_descendants: 0 },
        FolderInfo { path: &base, size: 0, num_descendants: 0 },
        0,
    );
    let rect = Rect { x: 0, y: 0, width: 120, height: 1 };
    let mut as_root = Buffer::empty(TuiRect { x: 0, y: 0, width: 120, height: 1 });
    assert!(title.render_as(rect, &mut as_root, "0", "0", "0", true));
    assert_eq!(row(&as_root, 0).trim_end(), " Total: 0 (0 files), freed: 0 (CAUTION: running as root) | /tmp");
    let mut as_user = Buffer::empty(TuiRect { x: 0, y: 0, width: 120, height: 1 });
    assert!(title.render_as(rect, &mut as_user, "0", "0", "0", false));
    assert_eq!(row(&as_user, 0).trim_end(), " Total: 0 (0 files), freed: 0 | /tmp");
    let mut narrow = Buffer::empty(TuiRect { x: 0, y: 0, width: 10, height: 1 });
    assert!(!title.render_as(rect, &mut narrow, "0", "0", "0", false));
    assert_eq!(row(&narrow, 0).trim_end(), "");
}

#[test]
fn only_the_user_id_zero_is_the_superuser() {
    assert!(is_root_id(0));
    assert!(!is_root_id(1000));
    assert!(!is_root_id(u32::MAX));
}

#[test]
fn the_scanning_animation_makes_three_characters_bold() {
    let yellow = Paint { fg: Hue::Yellow, bg: Hue::Reset, bold: false };
    let mut t = TitleTelescope::new(yellow);
    t.append_to_left_side(vec![CellSizeOpt::new("Scanning: 1.0K".to_string())]);
    t.append_to_right_side(vec![CellSizeOpt::new("/home".to_string())]);
    let t = t.loading(true, 3);
    let rect = Rect { x: 0, y: 0, width: 80, height: 1 };
    let mut buf = Buffer::empty(TuiRect { x: 0, y: 0, width: 80, height: 1 });
    assert!(t.can_render(rect, &buf));
    t.render(rect, &mut buf);
    let plain = Style::default().fg(Color::Yellow).bg(Color::Reset);
    let bold = plain.modifier(Modifier::BOLD);
    assert_eq!(buf.get(3, 0).style, plain);
    assert_eq!(buf.get(4, 0).style, bold);
    assert_eq!(buf.get(5, 0).style, bold);
    assert_eq!(buf.get(6, 0).style, bold);
    assert_eq!(buf.get(7, 0).style, plain);
}
