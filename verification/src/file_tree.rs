use vstd::prelude::*;
use crate::files::{
    EntryModel, FileOrFolder, Folder, FolderModel, add_file_model, add_fits, add_folder_fits, add_folder_model,
    delete_model, delete_ok, entry_model, lookup_model, path_model, relative_path,
};
use crate::tree_laws::is_prefix;

verus! {

/// Whether an entry is a file or a folder.
#[derive(Clone, Copy, Debug, PartialEq, Eq, Structural)]
pub enum FileType {
    File,
    Folder,
}

/// An entry the user asked to delete: where the scanned folder is, the
/// names that lead from it to the entry, and what the entry held.
#[derive(Clone, Debug)]
pub struct FileToDelete {
    pub path_in_filesystem: Vec<String>,
    pub path_to_file: Vec<String>,
    pub file_type: FileType,
    pub num_descendants: Option<u64>,
    pub size: u64,
}

/// Appends the names of `tail` to those of `head`.
pub fn joined(head: &Vec<String>, tail: &Vec<String>) -> (r: Vec<String>)
    ensures
        path_model(r@) == path_model(head@) + path_model(tail@),
{
    let mut r: Vec<String> = Vec::new();
    let mut i: usize = 0;
    while i < head.len()
        invariant
            i <= head@.len(),
            path_model(r@) == path_model(head@).subrange(0, i as int),
        decreases head@.len() - i,
    {
        let c = head[i].clone();
        assert(c == head@[i as int]);
        let ghost before = r@;
        r.push(c);
        proof {
            crate::files::lemma_path_model_push(before, c);
            assert(path_model(r@) =~= path_model(head@).subrange(0, i as int + 1));
        }
        i = i + 1;
    }
    let mut j: usize = 0;
    while j < tail.len()
        invariant
            j <= tail@.len(),
            path_model(r@) == path_model(head@) + path_model(tail@).subrange(0, j as int),
        decreases tail@.len() - j,
    {
        let c = tail[j].clone();
        assert(c == tail@[j as int]);
        let ghost before = r@;
        r.push(c);
        proof {
            crate::files::lemma_path_model_push(before, c);
            assert(path_model(r@) =~= path_model(head@) + path_model(tail@).subrange(0, j as int + 1));
        }
        j = j + 1;
    }
    assert(path_model(tail@).subrange(0, tail@.len() as int) =~= path_model(tail@));
    r
}

pub fn copied(names: &Vec<String>) -> (r: Vec<String>)
    ensures
        path_model(r@) == path_model(names@),
{
    let empty: Vec<String> = Vec::new();
    let r = joined(&empty, names);
    assert(path_model(empty@) + path_model(names@) =~= path_model(names@));
    r
}

/// The names of `path` after its first `base` ones.
pub fn relative_names(path: &Vec<String>, base: usize) -> (r: Vec<String>)
    ensures
        path_model(r@) == relative_path(path_model(path@), base as int),
{
    let mut r: Vec<String> = Vec::new();
    let ghost full = path_model(path@);
    if base >= path.len() {
        assert(path_model(r@) =~= relative_path(full, base as int));
        return r;
    }
    let mut i: usize = base;
    while i < path.len()
        invariant
            full == path_model(path@),
            base <= i <= path@.len(),
            path_model(r@) == full.subrange(base as int, i as int),
        decreases path@.len() - i,
    {
        let component = path[i].clone();
        assert(component == path@[i as int]);
        let ghost before = r@;
        r.push(component);
        proof {
            crate::files::lemma_path_model_push(before, component);
            assert(path_model(r@) =~= full.subrange(base as int, i as int + 1));
        }
        i = i + 1;
    }
    r
}

/// Whether the names of `p` begin those of `q` (or are all of them).
pub fn names_prefix(p: &Vec<String>, q: &Vec<String>) -> (r: bool)
    ensures
        r == is_prefix(path_model(p@), path_model(q@)),
{
    if p.len() > q.len() {
        return false;
    }
    let mut i: usize = 0;
    while i < p.len()
        invariant
            i <= p@.len() <= q@.len(),
            forall|j: int| 0 <= j < i ==> p@[j]@ == q@[j]@,
        decreases p@.len() - i,
    {
        let same = p[i].eq(&q[i]);
        if !same {
            proof {
                assert(path_model(q@).take(p@.len() as int)[i as int] == q@[i as int]@);
                assert(path_model(p@)[i as int] == p@[i as int]@);
            }
            return false;
        }
        i = i + 1;
    }
    assert(path_model(q@).take(p@.len() as int) =~= path_model(p@));
    true
}

/// Two deletion requests name the same entry with the same record.
pub open spec fn same_request(a: FileToDelete, b: FileToDelete) -> bool {
    &&& path_model(a.path_in_filesystem@) == path_model(b.path_in_filesystem@)
    &&& path_model(a.path_to_file@) == path_model(b.path_to_file@)
    &&& a.file_type == b.file_type
    &&& a.num_descendants == b.num_descendants
    &&& a.size == b.size
}

impl FileToDelete {
    /// A copy of this request.
    pub fn duplicate(&self) -> (r: FileToDelete)
        ensures
            same_request(r, *self),
    {
        FileToDelete {
            path_in_filesystem: copied(&self.path_in_filesystem),
            path_to_file: copied(&self.path_to_file),
            file_type: self.file_type,
            num_descendants: self.num_descendants,
            size: self.size,
        }
    }

    /// The entry's path in the file system: the scanned folder's path
    /// followed by the names that lead to the entry.
    pub fn full_path(&self) -> (r: Vec<String>)
        ensures
            path_model(r@) == path_model(self.path_in_filesystem@) + path_model(self.path_to_file@),
    {
        joined(&self.path_in_filesystem, &self.path_to_file)
    }
}

/// The scanned tree together with the folder the user is looking at.
pub struct FileTree {
    pub current_folder_names: Vec<String>,
    pub space_freed: u64,
    pub failed_to_read: u64,
    pub path_in_filesystem: Vec<String>,
    pub base_folder: Folder,
}

impl FileTree {
    /// The picture of the scanned tree.
    pub open spec fn base(&self) -> FolderModel {
        self.base_folder@
    }

    /// The names of the folders from the base to the current one.
    pub open spec fn current_names(&self) -> Seq<Seq<char>> {
        path_model(self.current_folder_names@)
    }

    /// The current names lead, through folders, to a folder.
    pub open spec fn current_is_folder(&self) -> bool {
        self.current_names().len() == 0 || lookup_model(self.base(), self.current_names()) matches Some(
            EntryModel::Folder(_),
        )
    }

    /// The tree's names are unique in every folder and the current names
    /// lead to a folder.
    pub open spec fn wf(&self) -> bool {
        &&& self.base_folder.wf()
        &&& self.current_is_folder()
    }

    /// The picture of the folder the user is looking at.
    pub open spec fn current(&self) -> FolderModel {
        if self.current_names().len() == 0 {
            self.base()
        } else {
            lookup_model(self.base(), self.current_names())->0->Folder_0
        }
    }

    pub fn new(base_folder: Folder, path_in_filesystem: Vec<String>) -> (r: FileTree)
        requires
            base_folder.wf(),
        ensures
            r.wf(),
            r.base() == base_folder@,
            r.current_folder_names@.len() == 0,
            r.path_in_filesystem == path_in_filesystem,
            r.space_freed == 0,
            r.failed_to_read == 0,
    {
        FileTree {
            base_folder,
            current_folder_names: Vec::new(),
            path_in_filesystem,
            space_freed: 0,
            failed_to_read: 0,
        }
    }

    /// The size the base folder records.
    pub fn get_total_size(&self) -> (r: u64)
        ensures
            r == self.base().size,
    {
        self.base_folder.size
    }

    /// The descendant count the base folder records.
    pub fn get_total_descendants(&self) -> (r: u64)
        ensures
            r == self.base().num_descendants,
    {
        self.base_folder.num_descendants
    }

    /// The folder the user is looking at.
    pub fn get_current_folder(&self) -> (r: &Folder)
        requires
            self.wf(),
        ensures
            r@ == self.current(),
            r.wf(),
    {
        if self.current_folder_names.len() == 0 {
            &self.base_folder
        } else {
            match self.base_folder.path(&self.current_folder_names) {
                Some(FileOrFolder::Folder(current_folder)) => {
                    proof {
                        crate::files::lemma_lookup_wf(self.base_folder@, self.current_names());
                    }
                    current_folder
                },
                _ => {
                    proof {
                        assert(false);
                    }
                    &self.base_folder
                },
            }
        }
    }

    /// The size the current folder records.
    pub fn get_current_folder_size(&self) -> (r: u64)
        requires
            self.wf(),
        ensures
            r == self.current().size,
    {
        self.get_current_folder().size
    }

    /// The current folder's path in the file system.
    pub fn get_current_path(&self) -> (r: Vec<String>)
        ensures
            path_model(r@) == path_model(self.path_in_filesystem@) + self.current_names(),
    {
        joined(&self.path_in_filesystem, &self.current_folder_names)
    }

    /// The current folder's path relative to the base folder.
    pub fn get_relative_path(&self) -> (r: Vec<String>)
        ensures
            path_model(r@) == self.current_names(),
    {
        copied(&self.current_folder_names)
    }

    /// The entry of the current folder called `item_name`.
    pub fn item_in_current_folder(&self, item_name: &String) -> (r: Option<&FileOrFolder>)
        requires
            self.wf(),
        ensures
            match r {
                Some(e) => lookup_model(self.current(), seq![item_name@]) == Some(entry_model(*e)),
                None => lookup_model(self.current(), seq![item_name@]) is None,
            },
    {
        let current_folder = self.get_current_folder();
        let mut names: Vec<String> = Vec::new();
        names.push(item_name.clone());
        assert(path_model(names@) =~= seq![item_name@]);
        current_folder.path(&names)
    }

    /// Makes the folder called `folder_name` within the current one current.
    pub fn enter_folder(&mut self, folder_name: &String)
        ensures
            final(self).current_names() == old(self).current_names().push(folder_name@),
            final(self).base() == old(self).base(),
            final(self).path_in_filesystem == old(self).path_in_filesystem,
            final(self).space_freed == old(self).space_freed,
            final(self).failed_to_read == old(self).failed_to_read,
            (old(self).wf() && lookup_model(old(self).current(), seq![folder_name@]) matches Some(EntryModel::Folder(_)))
                ==> final(self).wf(),
    {
        let ghost before = self.current_folder_names@;
        self.current_folder_names.push(folder_name.clone());
        proof {
            crate::files::lemma_path_model_push(before, *folder_name);
            if old(self).wf() && lookup_model(old(self).current(), seq![folder_name@]) matches Some(EntryModel::Folder(_)) {
                crate::files::lemma_lookup_append(old(self).base(), old(self).current_names(), folder_name@);
            }
        }
    }

    /// Makes the parent of the current folder current; `false` when the
    /// current folder is the base folder, which stays current.
    pub fn leave_folder(&mut self) -> (r: bool)
        ensures
            r == (old(self).current_names().len() > 0),
            r ==> final(self).current_names() == old(self).current_names().drop_last(),
            !r ==> final(self).current_names() == old(self).current_names(),
            final(self).base() == old(self).base(),
            final(self).path_in_filesystem == old(self).path_in_filesystem,
            final(self).space_freed == old(self).space_freed,
            final(self).failed_to_read == old(self).failed_to_read,
            old(self).wf() ==> final(self).wf(),
    {
        let ghost before = self.current_folder_names@;
        let r = self.current_folder_names.pop().is_some();
        proof {
            if r {
                assert(path_model(self.current_folder_names@) =~= path_model(before).drop_last());
                if old(self).wf() && self.current_names().len() > 0 {
                    crate::files::lemma_lookup_prefix_folder(old(self).base(), old(self).current_names());
                }
            }
        }
        r
    }

    /// Removes the entry that `file_to_delete` names from the tree.
    pub fn delete_file(&mut self, file_to_delete: &FileToDelete)
        requires
            old(self).wf(),
            delete_ok(old(self).base(), path_model(file_to_delete.path_to_file@)),
        ensures
            final(self).base() == delete_model(old(self).base(), path_model(file_to_delete.path_to_file@)),
            final(self).current_folder_names == old(self).current_folder_names,
            final(self).path_in_filesystem == old(self).path_in_filesystem,
            final(self).space_freed == old(self).space_freed,
            final(self).failed_to_read == old(self).failed_to_read,
            final(self).base_folder.wf(),
    {
        self.base_folder.delete_path(&file_to_delete.path_to_file);
    }

    /// Records an entry met while scanning below the base folder.
    pub fn add_entry(&mut self, is_dir: bool, blocks: u64, entry_full_path: &Vec<String>)
        requires
            old(self).wf(),
            is_dir ==> add_folder_fits(
                old(self).base(),
                relative_path(path_model(entry_full_path@), old(self).path_in_filesystem@.len() as int),
            ),
            !is_dir ==> blocks * 512 <= u64::MAX && add_fits(
                old(self).base(),
                relative_path(path_model(entry_full_path@), old(self).path_in_filesystem@.len() as int),
                (blocks * 512) as nat,
            ),
        ensures
            final(self).base() == if is_dir {
                add_folder_model(
                    old(self).base(),
                    relative_path(path_model(entry_full_path@), old(self).path_in_filesystem@.len() as int),
                )
            } else {
                add_file_model(
                    old(self).base(),
                    relative_path(path_model(entry_full_path@), old(self).path_in_filesystem@.len() as int),
                    (blocks * 512) as nat,
                )
            },
            final(self).current_folder_names == old(self).current_folder_names,
            final(self).path_in_filesystem == old(self).path_in_filesystem,
            final(self).space_freed == old(self).space_freed,
            final(self).failed_to_read == old(self).failed_to_read,
            final(self).base_folder.wf(),
    {
        let base_path_length = self.path_in_filesystem.len();
        self.base_folder.add_entry(is_dir, blocks, entry_full_path, base_path_length);
    }
}

} // verus!
