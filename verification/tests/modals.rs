use diskonaut::board::Rect;
use diskonaut::file_tree::{FileToDelete, FileType};
use diskonaut::modals::{
    confirm_text, deletion_question_line, error_drawable, modal_box_rect, modal_drawable, path_text, prompt_drawable,
    too_small_text, truncated_file_name_line, warning_text, ConfirmBox, ErrorBox, MessageBox, TermTooSmall, WarningBox,
};
use tui::buffer::Buffer;
use tui::layout::Rect as TuiRect;
use tui::style::{Color, Modifier, Style};

fn path(parts: &[&str]) -> Vec<String> {
    parts.iter().map(|p| p.to_string()).collect()
}

fn buffer(width: u16, height: u16) -> Buffer {
    Buffer::empty(TuiRect { x: 0, y: 0, width, height })
}

fn row(buf: &Buffer, y: u16) -> String {
    (0..buf.area.width).map(|x| buf.get(x, y).symbol.clone()).collect()
}

fn request(file_type: FileType, descendants: Option<u64>) -> FileToDelete {
    FileToDelete {
        path_in_filesystem: path(&["/", "home", "user"]),
        path_to_file: path(&["music", "song.mp3"]),
        file_type,
        num_descendants: descendants,
        size: 1,
    }
}

#[test]
fn boxes_are_centred_and_at_most_150_wide() {
    assert_eq!(modal_box_rect(&Rect { x: 0, y: 0, width: 80, height: 24 }), Rect { x: 20, y: 7, width: 40, height: 10 });
    assert_eq!(modal_box_rect(&Rect { x: 0, y: 0, width: 200, height: 50 }), Rect { x: 25, y: 20, width: 150, height: 10 });
}

#[test]
fn prompts_pick_the_longest_text_that_fits() {
    assert_eq!(confirm_text(40), "Are you sure you want to quit?");
    assert_eq!(confirm_text(39), "Sure you want to quit?");
    assert_eq!(confirm_text(25), "Really quit?");
    assert_eq!(confirm_text(21), "Quit?");
    assert_eq!(warning_text(68), "Sorry, deletion is only allowed once the scanning has completed");
    assert_eq!(warning_text(50), "Deletion is not allowed while scanning");
    assert_eq!(warning_text(32), "Can't delete while scanning");
    assert_eq!(warning_text(25), "Can't delete now");
    assert_eq!(too_small_text(100), Some("Terminal window is too small ¯\\_(ツ)_/¯"));
    assert_eq!(too_small_text(20), Some("too small ¯\\_(ツ)_/¯"));
    assert_eq!(too_small_text(2), None);
}

#[test]
fn paths_are_joined_with_one_slash() {
    assert_eq!(path_text(&path(&["/", "home", "user"])), "/home/user");
    assert_eq!(path_text(&path(&["relative", "dir"])), "relative/dir");
    assert_eq!(path_text(&path(&[])), "");
}

#[test]
fn the_deletion_prompt_names_the_entry() {
    let file = request(FileType::File, None);
    assert_eq!(truncated_file_name_line(&file, 40), "/home/user/music/song.mp3");
    assert_eq!(truncated_file_name_line(&file, 20), "song.mp3");
    assert_eq!(deletion_question_line(&file, 36), "Delete this file?");
    assert_eq!(deletion_question_line(&file, 10), "Delete?");
    let folder = request(FileType::Folder, Some(12));
    assert_eq!(deletion_question_line(&folder, 36), "Delete folder with 12 children?");
    assert_eq!(deletion_question_line(&folder, 20), "Delete folder?");
    assert!(prompt_drawable(&folder, Rect { x: 0, y: 0, width: 40, height: 10 }));
    assert!(!prompt_drawable(&request(FileType::Folder, None), Rect { x: 0, y: 0, width: 40, height: 10 }));
}

fn boxed(before: usize, text: &str, after: usize) -> String {
    format!("│{}{}{}│", " ".repeat(before), text, " ".repeat(after))
}

#[test]
fn the_confirm_box_is_drawn() {
    let mut buf = buffer(80, 24);
    let area = Rect { x: 0, y: 0, width: 80, height: 24 };
    assert!(modal_drawable(&buf, area));
    ConfirmBox::new().draw(area, &mut buf);
    assert_eq!(row(&buf, 7).trim(), format!("┌{}┐", "─".repeat(39)));
    assert_eq!(row(&buf, 10).trim(), boxed(4, "Are you sure you want to quit?", 5));
    assert_eq!(row(&buf, 15).trim(), boxed(17, "(y/n)", 17));
    assert_eq!(row(&buf, 17).trim(), format!("└{}┘", "─".repeat(39)));
}

#[test]
fn the_warning_box_is_drawn() {
    let mut buf = buffer(80, 24);
    WarningBox::new().draw(Rect { x: 0, y: 0, width: 80, height: 24 }, &mut buf);
    assert_eq!(row(&buf, 10).trim(), boxed(6, "Can't delete while scanning", 6));
    assert_eq!(row(&buf, 14).trim(), boxed(6, "(Press any key to dismiss)", 7));
}

#[test]
fn the_error_box_cuts_long_messages() {
    let mut buf = buffer(80, 24);
    let message = "Permission denied (os error 13) while removing a very long path name";
    let area = Rect { x: 0, y: 0, width: 80, height: 24 };
    assert!(error_drawable(message, modal_box_rect(&area)));
    ErrorBox::new(message).draw(area, &mut buf);
    assert_eq!(row(&buf, 10).trim(), boxed(1, "Permission denied (os error 13) w...", 2));
    assert_eq!(row(&buf, 14).trim(), boxed(7, "(Press <ESC> to dismiss)", 8));
}

#[test]
fn the_message_box_asks_about_the_entry() {
    let mut buf = buffer(80, 24);
    let file = request(FileType::File, None);
    MessageBox::new(&file, false).draw(Rect { x: 0, y: 0, width: 80, height: 24 }, &mut buf);
    assert_eq!(row(&buf, 9).trim(), boxed(11, "Delete this file?", 11));
    assert_eq!(row(&buf, 12).trim(), boxed(7, "/home/user/music/song.mp3", 7));
    assert_eq!(row(&buf, 15).trim(), boxed(17, "(y/n)", 17));
    let mut busy = buffer(80, 24);
    MessageBox::new(&file, true).draw(Rect { x: 0, y: 0, width: 80, height: 24 }, &mut busy);
    assert_eq!(row(&busy, 11).trim(), boxed(15, "Deleting", 16));
    assert_eq!(row(&busy, 13).trim(), boxed(7, "/home/user/music/song.mp3", 7));
}

#[test]
fn the_too_small_notice_is_centred() {
    let mut buf = buffer(30, 5);
    TermTooSmall::new().draw(Rect { x: 0, y: 0, width: 30, height: 5 }, &mut buf);
    assert_eq!(row(&buf, 2), "  Window too small ¯\\_(ツ )_/¯ ");
    assert_eq!(row(&buf, 1), " ".repeat(30));
}

#[test]
fn the_confirm_box_is_white_on_black_and_bold() {
    let mut buf = buffer(80, 24);
    ConfirmBox::new().draw(Rect { x: 0, y: 0, width: 80, height: 24 }, &mut buf);
    let boxed_style = Style::default().fg(Color::White).bg(Color::Black).modifier(Modifier::BOLD);
    assert_eq!(buf.get(20, 7).style, boxed_style);
    assert_eq!(buf.get(30, 12).style, boxed_style);
    assert_eq!(buf.get(25, 10).style, boxed_style);
    assert_eq!(buf.get(5, 5).style, Style::default());
}

#[test]
fn the_cell_after_a_wide_character_is_reset() {
    let mut buf = buffer(30, 5);
    TermTooSmall::new().draw(Rect { x: 0, y: 0, width: 30, height: 5 }, &mut buf);
    let bold = Style::default().fg(Color::Reset).bg(Color::Reset).modifier(Modifier::BOLD);
    assert_eq!(buf.get(2, 2).symbol, "W");
    assert_eq!(buf.get(2, 2).style, bold);
    assert_eq!(buf.get(23, 2).symbol, "ツ");
    assert_eq!(buf.get(23, 2).style, bold);
    assert_eq!(buf.get(24, 2).symbol, " ");
    assert_eq!(buf.get(24, 2).style, Style::default());
}
