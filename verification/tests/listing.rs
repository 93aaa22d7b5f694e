use diskonaut::file_tree::FileType;
use diskonaut::files::Folder;
use diskonaut::listing::{calculate_utilization, files_in_folder, name_less_than, Share};

fn path(parts: &[&str]) -> Vec<String> {
    parts.iter().map(|p| p.to_string()).collect()
}

fn sample() -> Folder {
    let mut base = Folder::new(&path(&["base"]));
    base.add_file(path(&["small"]), 100);
    base.add_folder(path(&["dir"]));
    base.add_file(path(&["dir", "inner"]), 500);
    base.add_file(path(&["b_mid"]), 400);
    base.add_file(path(&["a_mid"]), 400);
    base
}

#[test]
fn entries_come_largest_first_then_by_name() {
    let listing = files_in_folder(&sample());
    let names: Vec<&str> = listing.iter().map(|m| m.name.as_str()).collect();
    assert_eq!(names, vec!["dir", "a_mid", "b_mid", "small"]);
}

#[test]
fn entries_carry_size_descendants_and_share() {
    let listing = files_in_folder(&sample());
    let dir = &listing[0];
    assert_eq!(dir.size, 500);
    assert_eq!(dir.descendants, Some(1));
    assert_eq!(dir.file_type, FileType::Folder);
    assert_eq!(dir.percentage, Share { numerator: 500, denominator: 1400 });
    let small = &listing[3];
    assert_eq!(small.descendants, None);
    assert_eq!(small.file_type, FileType::File);
    assert_eq!(small.percentage, Share { numerator: 100, denominator: 1400 });
}

#[test]
fn empty_entries_share_equally() {
    let mut base = Folder::new(&path(&["base"]));
    base.add_file(path(&["x"]), 0);
    base.add_file(path(&["y"]), 0);
    base.add_file(path(&["z"]), 0);
    let listing = files_in_folder(&base);
    for m in listing.iter() {
        assert_eq!(m.percentage, Share { numerator: 1, denominator: 3 });
    }
    let names: Vec<&str> = listing.iter().map(|m| m.name.as_str()).collect();
    assert_eq!(names, vec!["x", "y", "z"]);
}

#[test]
fn utilization_uses_plain_shares() {
    let listing = calculate_utilization(&sample());
    assert_eq!(listing.len(), 4);
    assert_eq!(listing[1].name, "a_mid");
    assert_eq!(listing[1].percentage, Share { numerator: 400, denominator: 1400 });
}

#[test]
fn empty_folder_lists_nothing() {
    let base = Folder::new(&path(&["empty"]));
    assert!(files_in_folder(&base).is_empty());
    assert!(calculate_utilization(&base).is_empty());
}

#[test]
fn names_compare_character_by_character() {
    assert!(name_less_than(&"abc".to_string(), &"abd".to_string()));
    assert!(name_less_than(&"ab".to_string(), &"abc".to_string()));
    assert!(!name_less_than(&"abc".to_string(), &"abc".to_string()));
    assert!(!name_less_than(&"b".to_string(), &"abc".to_string()));
    assert!(name_less_than(&"B".to_string(), &"a".to_string()));
}

#[test]
fn listing_does_not_depend_on_the_order_of_entries() {
    let mut reversed = Folder::new(&path(&["base"]));
    reversed.add_file(path(&["a_mid"]), 400);
    reversed.add_file(path(&["b_mid"]), 400);
    reversed.add_folder(path(&["dir"]));
    reversed.add_file(path(&["dir", "inner"]), 500);
    reversed.add_file(path(&["small"]), 100);
    let first = files_in_folder(&sample());
    let second = files_in_folder(&reversed);
    assert_eq!(first.len(), second.len());
    for (a, b) in first.iter().zip(second.iter()) {
        assert_eq!(a.name, b.name);
        assert_eq!(a.size, b.size);
        assert_eq!(a.descendants, b.descendants);
        assert_eq!(a.percentage, b.percentage);
        assert_eq!(a.file_type, b.file_type);
    }
}
