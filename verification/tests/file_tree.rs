use diskonaut::file_tree::{joined, names_prefix, relative_names, FileToDelete, FileTree, FileType};
use diskonaut::files::{FileOrFolder, Folder};

fn path(parts: &[&str]) -> Vec<String> {
    parts.iter().map(|p| p.to_string()).collect()
}

fn tree() -> FileTree {
    let mut base = Folder::new(&path(&["/", "srv"]));
    base.add_folder(path(&["www"]));
    base.add_file(path(&["www", "index.html"]), 300);
    base.add_file(path(&["log"]), 100);
    FileTree::new(base, path(&["/", "srv"]))
}

#[test]
fn entering_and_leaving_folders() {
    let mut t = tree();
    assert_eq!(t.get_total_size(), 400);
    assert_eq!(t.get_total_descendants(), 3);
    t.enter_folder(&"www".to_string());
    assert_eq!(t.get_current_folder().name, "www");
    assert_eq!(t.get_current_folder_size(), 300);
    assert_eq!(t.get_current_path(), path(&["/", "srv", "www"]));
    assert_eq!(t.get_relative_path(), path(&["www"]));
    assert!(matches!(t.item_in_current_folder(&"index.html".to_string()), Some(FileOrFolder::File(_))));
    assert!(t.leave_folder());
    assert!(!t.leave_folder());
    assert_eq!(t.get_current_folder().name, "srv");
}

#[test]
fn deleting_takes_the_entry_off() {
    let mut t = tree();
    let request = FileToDelete {
        path_in_filesystem: path(&["/", "srv"]),
        path_to_file: path(&["www", "index.html"]),
        file_type: FileType::File,
        num_descendants: None,
        size: 300,
    };
    assert_eq!(request.full_path(), path(&["/", "srv", "www", "index.html"]));
    t.delete_file(&request);
    assert_eq!(t.get_total_size(), 100);
    assert_eq!(t.get_total_descendants(), 2);
    let copy = request.duplicate();
    assert_eq!(copy.path_to_file, request.path_to_file);
    assert_eq!(copy.size, 300);
}

#[test]
fn scanned_entries_are_placed_below_the_base() {
    let mut t = tree();
    t.add_entry(false, 2, &path(&["/", "srv", "www", "app.js"]));
    assert_eq!(t.get_total_size(), 400 + 1024);
    t.add_entry(true, 0, &path(&["/", "srv", "cache"]));
    assert_eq!(t.get_total_descendants(), 5);
}

#[test]
fn path_helpers() {
    assert_eq!(joined(&path(&["a"]), &path(&["b", "c"])), path(&["a", "b", "c"]));
    assert_eq!(relative_names(&path(&["/", "srv", "www"]), 2), path(&["www"]));
    assert!(relative_names(&path(&["/", "srv"]), 5).is_empty());
    assert!(names_prefix(&path(&["a", "b"]), &path(&["a", "b", "c"])));
    assert!(!names_prefix(&path(&["a", "x"]), &path(&["a", "b", "c"])));
    assert!(!names_prefix(&path(&["a", "b", "c", "d"]), &path(&["a", "b", "c"])));
}
