use diskonaut::files::{FileOrFolder, Folder};

fn path(parts: &[&str]) -> Vec<String> {
    parts.iter().map(|p| p.to_string()).collect()
}

fn sample() -> Folder {
    let mut base = Folder::new(&path(&["tmp", "base"]));
    base.add_folder(path(&["sub"]));
    base.add_file(path(&["sub", "a"]), 4096);
    base.add_file(path(&["b"]), 8192);
    base.add_folder(path(&["sub", "deep"]));
    base.add_file(path(&["sub", "deep", "c"]), 100);
    base
}

#[test]
fn new_folder_is_named_after_last_component() {
    let folder = Folder::new(&path(&["home", "user", "projects"]));
    assert_eq!(folder.name, "projects");
    assert_eq!(folder.size, 0);
    assert_eq!(folder.num_descendants, 0);
    assert!(folder.contents.is_empty());
}

#[test]
fn adding_counts_sizes_and_descendants() {
    let base = sample();
    assert_eq!(base.size, 4096 + 8192 + 100);
    assert_eq!(base.num_descendants, 5);
    match base.path(&path(&["sub"])) {
        Some(FileOrFolder::Folder(sub)) => {
            assert_eq!(sub.size, 4196);
            assert_eq!(sub.num_descendants, 3);
        }
        _ => panic!("sub is a folder"),
    }
}

#[test]
fn lookup_after_add_finds_the_file() {
    let base = sample();
    let found = base.path(&path(&["sub", "deep", "c"])).expect("c is there");
    assert_eq!(found.name(), "c");
    assert_eq!(found.size(), 100);
    assert!(base.path(&path(&["missing"])).is_none());
    assert!(base.path(&path(&["sub", "missing"])).is_none());
}

#[test]
fn lookup_through_a_file_stops_at_the_file() {
    let base = sample();
    let found = base.path(&path(&["b", "x"])).expect("stops at b");
    assert_eq!(found.name(), "b");
}

#[test]
fn adding_below_a_missing_folder_creates_it() {
    let mut base = Folder::new(&path(&["root"]));
    base.add_file(path(&["x", "y"]), 10);
    match base.path(&path(&["x"])) {
        Some(FileOrFolder::Folder(x)) => {
            assert_eq!(x.size, 10);
            assert_eq!(x.num_descendants, 1);
        }
        _ => panic!("x was created as a folder"),
    }
    assert_eq!(base.num_descendants, 1);
}

#[test]
fn recomputed_size_matches_recorded_size() {
    let base = sample();
    assert_eq!(base.size(), base.size);
    assert_eq!(base.num_descendants(), base.num_descendants);
}

#[test]
fn delete_file_takes_off_its_size() {
    let mut base = sample();
    base.delete_path(&path(&["sub", "a"]));
    assert!(base.path(&path(&["sub", "a"])).is_none());
    assert_eq!(base.size, 8192 + 100);
    assert_eq!(base.num_descendants, 4);
    match base.path(&path(&["sub"])) {
        Some(FileOrFolder::Folder(sub)) => assert_eq!(sub.size, 100),
        _ => panic!("sub stays"),
    }
}

#[test]
fn delete_folder_takes_off_its_descendants_only() {
    let mut base = sample();
    base.delete_path(&path(&["sub"]));
    assert!(base.path(&path(&["sub"])).is_none());
    assert_eq!(base.size, 8192);
    // the folder's own count is taken off, the folder itself is not
    assert_eq!(base.num_descendants, 2);
}

#[test]
fn add_then_delete_restores_folder() {
    let mut base = sample();
    let size_before = base.size;
    let count_before = base.num_descendants;
    base.add_file(path(&["sub", "new"]), 77);
    base.delete_path(&path(&["sub", "new"]));
    assert_eq!(base.size, size_before);
    assert_eq!(base.num_descendants, count_before);
}

#[test]
fn can_delete_path_checks_the_way() {
    let base = sample();
    assert!(base.can_delete_path(&path(&["sub", "deep", "c"])));
    assert!(!base.can_delete_path(&path(&["sub", "nothing"])));
    assert!(!base.can_delete_path(&path(&["b", "x"])));
    assert!(!base.can_delete_path(&path(&[])));
}

#[test]
fn add_entry_cuts_the_base_path() {
    let mut base = Folder::new(&path(&["", "scan"]));
    base.add_entry(true, 0, &path(&["", "scan", "dir"]), 2);
    base.add_entry(false, 8, &path(&["", "scan", "dir", "file"]), 2);
    assert_eq!(base.size, 4096);
    let found = base.path(&path(&["dir", "file"])).expect("file recorded");
    assert_eq!(found.size(), 4096);
    // the scanned folder itself is cut to an empty path and changes nothing
    base.add_entry(true, 0, &path(&["", "scan"]), 2);
    assert_eq!(base.num_descendants, 2);
}

#[test]
fn adding_a_file_twice_replaces_it() {
    let mut base = Folder::new(&path(&["root"]));
    base.add_file(path(&["f"]), 10);
    base.add_file(path(&["f"]), 20);
    assert_eq!(base.contents.len(), 1);
    assert_eq!(base.path(&path(&["f"])).unwrap().size(), 20);
    assert_eq!(base.size, 30);
}

fn size_and_count_at(base: &Folder, parts: &[&str]) -> (String, u64, u64) {
    match base.path(&path(parts)) {
        Some(FileOrFolder::Folder(f)) => (f.name.clone(), f.size, f.num_descendants),
        Some(FileOrFolder::File(f)) => (f.name.clone(), f.size, 0),
        None => (String::new(), 0, 0),
    }
}

#[test]
fn entries_off_the_path_stay_as_they_were() {
    let mut base = sample();
    let deep = size_and_count_at(&base, &["sub", "deep"]);
    let a = size_and_count_at(&base, &["sub", "a"]);
    let b = size_and_count_at(&base, &["b"]);
    base.add_file(path(&["sub", "new"]), 5);
    assert_eq!(size_and_count_at(&base, &["sub", "deep"]), deep);
    assert_eq!(size_and_count_at(&base, &["sub", "a"]), a);
    assert_eq!(size_and_count_at(&base, &["b"]), b);
    base.add_folder(path(&["sub", "other"]));
    assert_eq!(size_and_count_at(&base, &["sub", "deep"]), deep);
    assert_eq!(size_and_count_at(&base, &["b"]), b);
    base.delete_path(&path(&["sub", "a"]));
    assert_eq!(size_and_count_at(&base, &["sub", "deep"]), deep);
    assert_eq!(size_and_count_at(&base, &["sub", "deep", "c"]), ("c".to_string(), 100, 0));
    assert_eq!(size_and_count_at(&base, &["b"]), b);
    assert_eq!(size_and_count_at(&base, &["sub", "new"]), ("new".to_string(), 5, 0));
}
