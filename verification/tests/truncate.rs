use diskonaut::truncate::{truncate_end, truncate_iter_to_unicode_width, truncate_middle};

#[test]
fn truncate_middle_char_boundary() {
    assert_eq!(
        truncate_middle("굿걸 - 누가 방송국을 털었나 E06.mp4", 44),
        "굿걸 - 누가 방송국을[...]국을 털었나 E06.mp4",
    );
}

#[test]
fn truncate_middle_keeps_short_rows() {
    assert_eq!(truncate_middle("short", 20), "short");
}

#[test]
fn truncate_middle_odd_width_uses_short_marker() {
    assert_eq!(truncate_middle("abcdefghijklmnopqrstuvwxyz", 11), "abc[..]xyz");
}

#[test]
fn truncate_middle_even_width_uses_long_marker() {
    assert_eq!(truncate_middle("abcdefghijklmnopqrstuvwxyz", 12), "abcd[...]wxyz");
}

#[test]
fn truncate_middle_narrow_keeps_prefix() {
    assert_eq!(truncate_middle("abcdefgh", 4), "abcd");
    assert_eq!(truncate_middle("굿걸굿걸", 5), "굿걸");
}

#[test]
fn truncate_to_width_counts_wide_characters() {
    assert_eq!(truncate_iter_to_unicode_width("굿걸 abc", 3), "굿");
    assert_eq!(truncate_iter_to_unicode_width("abc", 10), "abc");
    assert_eq!(truncate_iter_to_unicode_width("abc", 0), "");
}

#[test]
fn truncate_end_cuts_long_rows() {
    assert_eq!(truncate_end("Permission denied (os error 13)", 10), "Permissio...".chars().take(7).collect::<String>() + "...");
    assert_eq!(truncate_end("short", 10), "short");
    assert_eq!(truncate_end("exactly10!", 10), "exactly10!");
}
