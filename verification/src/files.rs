use vstd::prelude::*;

use crate::tree_laws::{
    law_add_file_keeps_other_entries, law_add_folder_keeps_other_entries, law_delete_keeps_other_entries, paths_part,
};

verus! {

/// A file met while scanning: its name and the disk space it takes.
#[derive(Debug)]
pub struct File {
    pub name: String,
    pub size: u64,
}

/// A folder met while scanning. `size` and `num_descendants` are kept up to
/// date as entries are added and removed; `contents` holds each entry under
/// a name that no other entry of the folder has.
#[derive(Debug)]
pub struct Folder {
    pub name: String,
    pub contents: Vec<FileOrFolder>,
    pub size: u64,
    pub num_descendants: u64,
}

#[derive(Debug)]
pub enum FileOrFolder {
    Folder(Folder),
    File(File),
}

/// The mathematical picture of a file.
pub struct FileModel {
    pub name: Seq<char>,
    pub size: nat,
}

/// The mathematical picture of a folder: its entries in order, with the
/// size and descendant count that the folder records.
pub struct FolderModel {
    pub name: Seq<char>,
    pub entries: Seq<EntryModel>,
    pub size: nat,
    pub num_descendants: nat,
}

pub enum EntryModel {
    Folder(FolderModel),
    File(FileModel),
}

/// The picture of a folder.
pub open spec fn folder_model(f: Folder) -> FolderModel
    decreases f,
{
    FolderModel {
        name: f.name@,
        entries: entry_models(f, f.contents@.len() as int),
        size: f.size as nat,
        num_descendants: f.num_descendants as nat,
    }
}

/// The pictures of the first `n` entries of a folder.
pub open spec fn entry_models(f: Folder, n: int) -> Seq<EntryModel>
    decreases f, n,
{
    if n <= 0 || n > f.contents@.len() {
        Seq::empty()
    } else {
        entry_models(f, n - 1).push(
            match f.contents@[n - 1] {
                FileOrFolder::Folder(sub) => EntryModel::Folder(folder_model(sub)),
                FileOrFolder::File(file) => EntryModel::File(
                    FileModel { name: file.name@, size: file.size as nat },
                ),
            },
        )
    }
}

/// The picture of an entry.
pub open spec fn entry_model(e: FileOrFolder) -> EntryModel {
    match e {
        FileOrFolder::Folder(sub) => EntryModel::Folder(folder_model(sub)),
        FileOrFolder::File(file) => EntryModel::File(FileModel { name: file.name@, size: file.size as nat }),
    }
}

pub proof fn lemma_entry_models(f: Folder, n: int)
    requires
        0 <= n <= f.contents@.len(),
    ensures
        entry_models(f, n).len() == n,
        forall|i: int| 0 <= i < n ==> #[trigger] entry_models(f, n)[i] == entry_model(f.contents@[i]),
    decreases n,
{
    if n > 0 {
        lemma_entry_models(f, n - 1);
    }
}

/// The entries of a folder's picture are the pictures of its entries.
pub proof fn lemma_folder_model_entries(f: Folder)
    ensures
        folder_model(f).entries == f.contents@.map_values(|e: FileOrFolder| entry_model(e)),
{
    lemma_entry_models(f, f.contents@.len() as int);
    assert(folder_model(f).entries =~= f.contents@.map_values(|e: FileOrFolder| entry_model(e)));
}

// ---------------------------------------------------------------------------
// Operations on pictures
// ---------------------------------------------------------------------------

pub open spec fn model_name(e: EntryModel) -> Seq<char> {
    match e {
        EntryModel::Folder(f) => f.name,
        EntryModel::File(f) => f.name,
    }
}

/// The space an entry takes, as the entry records it.
pub open spec fn model_size(e: EntryModel) -> nat {
    match e {
        EntryModel::Folder(f) => f.size,
        EntryModel::File(f) => f.size,
    }
}

/// What removing an entry takes off its folder's descendant count: a
/// folder's own count, or one for a file.
pub open spec fn model_removed_descendants(e: EntryModel) -> nat {
    match e {
        EntryModel::Folder(f) => f.num_descendants,
        EntryModel::File(_) => 1,
    }
}

pub open spec fn has_entry_named(entries: Seq<EntryModel>, name: Seq<char>) -> bool {
    exists|i: int| 0 <= i < entries.len() && model_name(#[trigger] entries[i]) == name
}

/// Where the entry with a given name stands, or -1.
pub open spec fn index_of_name(entries: Seq<EntryModel>, name: Seq<char>) -> int {
    if has_entry_named(entries, name) {
        choose|i: int| 0 <= i < entries.len() && model_name(#[trigger] entries[i]) == name
    } else {
        -1
    }
}

pub open spec fn model_names_unique(entries: Seq<EntryModel>) -> bool {
    forall|i: int, j: int|
        0 <= i < entries.len() && 0 <= j < entries.len() && i != j ==> model_name(#[trigger] entries[i])
            != model_name(#[trigger] entries[j])
}

/// An empty folder with the given name.
pub open spec fn empty_folder_model(name: Seq<char>) -> FolderModel {
    FolderModel { name, entries: Seq::empty(), size: 0, num_descendants: 0 }
}

/// Puts an entry under its name: in place of the entry of that name, or
/// after the others.
pub open spec fn put_entry(entries: Seq<EntryModel>, e: EntryModel) -> Seq<EntryModel> {
    let i = index_of_name(entries, model_name(e));
    if i >= 0 {
        entries.update(i, e)
    } else {
        entries.push(e)
    }
}

/// The folder after a file of `size` is recorded at `path` below it. Every
/// folder that the path goes through counts the size and one more
/// descendant; a missing folder on the way is created empty; a file on the
/// way stops the descent; the last name is set to the new file.
pub open spec fn add_file_model(m: FolderModel, path: Seq<Seq<char>>, size: nat) -> FolderModel
    decreases path.len(),
{
    if path.len() == 0 {
        m
    } else if path.len() == 1 {
        FolderModel {
            name: m.name,
            entries: put_entry(m.entries, EntryModel::File(FileModel { name: path[0], size })),
            size: m.size + size,
            num_descendants: m.num_descendants + 1,
        }
    } else {
        let entries = if has_entry_named(m.entries, path[0]) {
            m.entries
        } else {
            m.entries.push(EntryModel::Folder(empty_folder_model(path[0])))
        };
        let i = index_of_name(entries, path[0]);
        FolderModel {
            name: m.name,
            entries: match entries[i] {
                EntryModel::Folder(sub) => entries.update(
                    i,
                    EntryModel::Folder(add_file_model(sub, path.drop_first(), size)),
                ),
                EntryModel::File(_) => entries,
            },
            size: m.size + size,
            num_descendants: m.num_descendants + 1,
        }
    }
}

/// The folder after a folder is recorded at `path` below it: as for a
/// file, but no size is counted and the last name is set to a new empty
/// folder.
pub open spec fn add_folder_model(m: FolderModel, path: Seq<Seq<char>>) -> FolderModel
    decreases path.len(),
{
    if path.len() == 0 {
        m
    } else if path.len() == 1 {
        FolderModel {
            name: m.name,
            entries: put_entry(m.entries, EntryModel::Folder(empty_folder_model(path[0]))),
            size: m.size,
            num_descendants: m.num_descendants + 1,
        }
    } else {
        let entries = if has_entry_named(m.entries, path[0]) {
            m.entries
        } else {
            m.entries.push(EntryModel::Folder(empty_folder_model(path[0])))
        };
        let i = index_of_name(entries, path[0]);
        FolderModel {
            name: m.name,
            entries: match entries[i] {
                EntryModel::Folder(sub) => entries.update(
                    i,
                    EntryModel::Folder(add_folder_model(sub, path.drop_first())),
                ),
                EntryModel::File(_) => entries,
            },
            size: m.size,
            num_descendants: m.num_descendants + 1,
        }
    }
}

/// The entry that `path` leads to: names are followed through folders; a
/// file met before the path ends is the answer.
pub open spec fn lookup_model(m: FolderModel, path: Seq<Seq<char>>) -> Option<EntryModel>
    decreases path.len(),
{
    if path.len() == 0 || !has_entry_named(m.entries, path[0]) {
        None
    } else {
        let e = m.entries[index_of_name(m.entries, path[0])];
        if path.len() == 1 {
            Some(e)
        } else {
            match e {
                EntryModel::Folder(sub) => lookup_model(sub, path.drop_first()),
                EntryModel::File(_) => Some(e),
            }
        }
    }
}


/// Names are unique within every folder of the tree.
pub open spec fn model_wf(m: FolderModel) -> bool
    decreases m,
{
    &&& model_names_unique(m.entries)
    &&& forall|i: int|
        0 <= i < m.entries.len() ==> (#[trigger] m.entries[i] matches EntryModel::Folder(sub) ==> model_wf(sub))
}

pub proof fn lemma_path_model_push(s: Seq<String>, x: String)
    ensures
        path_model(s.push(x)) == path_model(s).push(x@),
{
    assert(path_model(s.push(x)) =~= path_model(s).push(x@));
}

/// The components of `path` after the first `base` ones.
pub open spec fn relative_path(path: Seq<Seq<char>>, base: int) -> Seq<Seq<char>> {
    if base >= path.len() {
        Seq::empty()
    } else {
        path.subrange(base, path.len() as int)
    }
}

/// The picture of the names of a path.
pub open spec fn path_model(path: Seq<String>) -> Seq<Seq<char>> {
    path.map_values(|s: String| s@)
}

/// No count overflows while a file of `size` is recorded at `path`.
pub open spec fn add_fits(m: FolderModel, path: Seq<Seq<char>>, size: nat) -> bool
    decreases path.len(),
{
    if path.len() == 0 {
        true
    } else {
        &&& m.size + size <= u64::MAX
        &&& m.num_descendants + 1 <= u64::MAX
        &&& (path.len() > 1 && has_entry_named(m.entries, path[0]) ==> match m.entries[index_of_name(m.entries, path[0])] {
            EntryModel::Folder(sub) => add_fits(sub, path.drop_first(), size),
            EntryModel::File(_) => true,
        })
    }
}

/// Replacing one entry of a folder replaces its picture in the folder's
/// picture.
pub proof fn lemma_model_update(old_f: Folder, new_f: Folder, i: int, e: FileOrFolder)
    requires
        0 <= i < old_f.contents@.len(),
        new_f.contents@ == old_f.contents@.update(i, e),
    ensures
        folder_model(new_f).entries == folder_model(old_f).entries.update(i, entry_model(e)),
{
    lemma_folder_model_entries(old_f);
    lemma_folder_model_entries(new_f);
    assert(folder_model(new_f).entries =~= folder_model(old_f).entries.update(i, entry_model(e)));
}

/// Appending an entry to a folder appends its picture.
pub proof fn lemma_model_push(old_f: Folder, new_f: Folder, e: FileOrFolder)
    requires
        new_f.contents@ == old_f.contents@.push(e),
    ensures
        folder_model(new_f).entries == folder_model(old_f).entries.push(entry_model(e)),
{
    lemma_folder_model_entries(old_f);
    lemma_folder_model_entries(new_f);
    assert(folder_model(new_f).entries =~= folder_model(old_f).entries.push(entry_model(e)));
}

/// Putting an entry under a name that no other entry has keeps names unique.
pub proof fn lemma_put_entry_unique(entries: Seq<EntryModel>, e: EntryModel)
    requires
        model_names_unique(entries),
    ensures
        model_names_unique(put_entry(entries, e)),
        has_entry_named(put_entry(entries, e), model_name(e)),
        index_of_name(put_entry(entries, e), model_name(e)) == (if has_entry_named(entries, model_name(e)) {
            index_of_name(entries, model_name(e))
        } else {
            entries.len() as int
        }),
{
    let r = put_entry(entries, e);
    let n = model_name(e);
    let i = index_of_name(entries, n);
    if has_entry_named(entries, n) {
        assert(model_name(entries[i]) == n);
        assert forall|a: int, b: int| 0 <= a < r.len() && 0 <= b < r.len() && a != b implies model_name(#[trigger] r[a]) != model_name(#[trigger] r[b]) by {
            if a != i && b != i {
                assert(model_name(entries[a]) != model_name(entries[b]));
            } else if a == i {
                assert(model_name(entries[b]) != model_name(entries[i]));
            } else {
                assert(model_name(entries[a]) != model_name(entries[i]));
            }
        }
        assert(model_name(r[i]) == n);
        assert(has_entry_named(r, n));
        let k = index_of_name(r, n);
        if k != i {
            assert(model_name(r[k]) != model_name(r[i]));
        }
    } else {
        let len = entries.len() as int;
        assert forall|a: int, b: int| 0 <= a < r.len() && 0 <= b < r.len() && a != b implies model_name(#[trigger] r[a]) != model_name(#[trigger] r[b]) by {
            if a != len && b != len {
                assert(model_name(entries[a]) != model_name(entries[b]));
            } else if a == len {
                assert(model_name(r[b]) == model_name(entries[b]));
                assert(!(0 <= b < entries.len() && model_name(entries[b]) == n));
            } else {
                assert(model_name(r[a]) == model_name(entries[a]));
                assert(!(0 <= a < entries.len() && model_name(entries[a]) == n));
            }
        }
        assert(model_name(r[len]) == n);
        assert(has_entry_named(r, n));
        let k = index_of_name(r, n);
        if k != len {
            assert(model_name(r[k]) != model_name(r[len]));
        }
    }
}

/// No count overflows while a folder is recorded at `path`.
pub open spec fn add_folder_fits(m: FolderModel, path: Seq<Seq<char>>) -> bool
    decreases path.len(),
{
    if path.len() == 0 {
        true
    } else {
        &&& m.num_descendants + 1 <= u64::MAX
        &&& (path.len() > 1 && has_entry_named(m.entries, path[0]) ==> match m.entries[index_of_name(m.entries, path[0])] {
            EntryModel::Folder(sub) => add_folder_fits(sub, path.drop_first()),
            EntryModel::File(_) => true,
        })
    }
}

/// The folder after the entry at `path` is removed from it: every folder
/// the path goes through gives up the removed entry's size and its
/// descendant count (a folder's own count, or one for a file).
pub open spec fn delete_model(m: FolderModel, path: Seq<Seq<char>>) -> FolderModel
    decreases path.len(),
{
    if path.len() == 0 || !has_entry_named(m.entries, path[0]) {
        m
    } else {
        let i = index_of_name(m.entries, path[0]);
        let e = m.entries[i];
        let removed = if path.len() == 1 { e } else { lookup_model(m, path)->0 };
        let entries = if path.len() == 1 {
            m.entries.remove(i)
        } else {
            match e {
                EntryModel::Folder(sub) => m.entries.update(i, EntryModel::Folder(delete_model(sub, path.drop_first()))),
                EntryModel::File(_) => m.entries,
            }
        };
        FolderModel {
            name: m.name,
            entries,
            size: (m.size - model_size(removed)) as nat,
            num_descendants: (m.num_descendants - model_removed_descendants(removed)) as nat,
        }
    }
}

/// `path` names an entry through folders only, and no count would go below
/// zero when it is removed.
pub open spec fn delete_ok(m: FolderModel, path: Seq<Seq<char>>) -> bool
    decreases path.len(),
{
    &&& path.len() >= 1
    &&& has_entry_named(m.entries, path[0])
    &&& lookup_model(m, path) is Some
    &&& m.size >= model_size(lookup_model(m, path)->0)
    &&& m.num_descendants >= model_removed_descendants(lookup_model(m, path)->0)
    &&& (path.len() > 1 ==> match m.entries[index_of_name(m.entries, path[0])] {
        EntryModel::Folder(sub) => delete_ok(sub, path.drop_first()),
        EntryModel::File(_) => false,
    })
}

/// The space all files below a folder take, summed over the tree.
pub open spec fn model_total_size(m: FolderModel) -> int
    decreases m,
{
    prefix_total_size(m, m.entries.len() as int)
}

pub open spec fn prefix_total_size(m: FolderModel, n: int) -> int
    decreases m, n,
{
    if n <= 0 || n > m.entries.len() {
        0
    } else {
        prefix_total_size(m, n - 1) + match m.entries[n - 1] {
            EntryModel::Folder(sub) => model_total_size(sub),
            EntryModel::File(file) => file.size as int,
        }
    }
}

/// The number of entries below a folder, counted over the tree.
pub open spec fn model_count(m: FolderModel) -> int
    decreases m,
{
    prefix_count(m, m.entries.len() as int)
}

pub open spec fn prefix_count(m: FolderModel, n: int) -> int
    decreases m, n,
{
    if n <= 0 || n > m.entries.len() {
        0
    } else {
        prefix_count(m, n - 1) + 1 + match m.entries[n - 1] {
            EntryModel::Folder(sub) => model_count(sub),
            EntryModel::File(_) => 0,
        }
    }
}

pub proof fn lemma_prefix_total_monotone(m: FolderModel, a: int, b: int)
    requires
        0 <= a <= b <= m.entries.len(),
    ensures
        0 <= prefix_total_size(m, a) <= prefix_total_size(m, b),
    decreases b,
{
    lemma_total_nonneg_prefix(m, a);
    if a < b {
        lemma_prefix_total_monotone(m, a, b - 1);
        match m.entries[b - 1] {
            EntryModel::Folder(sub) => lemma_total_nonneg(sub),
            EntryModel::File(_) => {},
        }
    }
}

pub proof fn lemma_total_nonneg(m: FolderModel)
    ensures
        model_total_size(m) >= 0,
    decreases m,
{
    lemma_total_nonneg_prefix(m, m.entries.len() as int);
}

pub proof fn lemma_total_nonneg_prefix(m: FolderModel, n: int)
    ensures
        prefix_total_size(m, n) >= 0,
    decreases m, n,
{
    if n > 0 && n <= m.entries.len() {
        lemma_total_nonneg_prefix(m, n - 1);
        match m.entries[n - 1] {
            EntryModel::Folder(sub) => lemma_total_nonneg(sub),
            EntryModel::File(_) => {},
        }
    }
}

pub proof fn lemma_prefix_count_monotone(m: FolderModel, a: int, b: int)
    requires
        0 <= a <= b <= m.entries.len(),
    ensures
        0 <= prefix_count(m, a) <= prefix_count(m, b),
    decreases b,
{
    lemma_count_nonneg_prefix(m, a);
    if a < b {
        lemma_prefix_count_monotone(m, a, b - 1);
        match m.entries[b - 1] {
            EntryModel::Folder(sub) => lemma_count_nonneg(sub),
            EntryModel::File(_) => {},
        }
    }
}

pub proof fn lemma_count_nonneg(m: FolderModel)
    ensures
        model_count(m) >= 0,
    decreases m,
{
    lemma_count_nonneg_prefix(m, m.entries.len() as int);
}

pub proof fn lemma_count_nonneg_prefix(m: FolderModel, n: int)
    ensures
        prefix_count(m, n) >= 0,
    decreases m, n,
{
    if n > 0 && n <= m.entries.len() {
        lemma_count_nonneg_prefix(m, n - 1);
        match m.entries[n - 1] {
            EntryModel::Folder(sub) => lemma_count_nonneg(sub),
            EntryModel::File(_) => {},
        }
    }
}

/// A folder that a path leads to in a tree with unique names has unique
/// names too.
pub proof fn lemma_lookup_wf(m: FolderModel, path: Seq<Seq<char>>)
    requires
        model_wf(m),
        lookup_model(m, path) matches Some(EntryModel::Folder(_)),
    ensures
        model_wf(lookup_model(m, path)->0->Folder_0),
    decreases path.len(),
{
    let i = index_of_name(m.entries, path[0]);
    assert(model_name(m.entries[i]) == path[0]);
    if path.len() > 1 {
        if let EntryModel::Folder(sub) = m.entries[i] {
            lemma_lookup_wf(sub, path.drop_first());
        }
    }
}

/// Going one name further from a folder that a path leads to.
pub proof fn lemma_lookup_append(m: FolderModel, path: Seq<Seq<char>>, name: Seq<char>)
    requires
        path.len() == 0 || lookup_model(m, path) matches Some(EntryModel::Folder(_)),
    ensures
        lookup_model(m, path.push(name)) == lookup_model(
            if path.len() == 0 { m } else { lookup_model(m, path)->0->Folder_0 },
            seq![name],
        ),
    decreases path.len(),
{
    if path.len() == 0 {
        assert(path.push(name) =~= seq![name]);
    } else {
        let i = index_of_name(m.entries, path[0]);
        assert(path.push(name)[0] == path[0]);
        assert(path.push(name).drop_first() =~= path.drop_first().push(name));
        if path.len() > 1 {
            if let EntryModel::Folder(sub) = m.entries[i] {
                lemma_lookup_append(sub, path.drop_first(), name);
            }
        } else {
            assert(path.drop_first().push(name) =~= seq![name]);
        }
    }
}

/// A path that leads to a folder passes through folders only.
pub proof fn lemma_lookup_prefix_folder(m: FolderModel, path: Seq<Seq<char>>)
    requires
        path.len() >= 2,
        lookup_model(m, path) matches Some(EntryModel::Folder(_)),
    ensures
        lookup_model(m, path.drop_last()) matches Some(EntryModel::Folder(_)),
    decreases path.len(),
{
    let i = index_of_name(m.entries, path[0]);
    assert(path.drop_last()[0] == path[0]);
    if let EntryModel::Folder(sub) = m.entries[i] {
        if path.len() > 2 {
            assert(path.drop_first().drop_last() =~= path.drop_last().drop_first());
            lemma_lookup_prefix_folder(sub, path.drop_first());
        }
    }
}

impl View for Folder {
    type V = FolderModel;

    open spec fn view(&self) -> FolderModel {
        folder_model(*self)
    }
}

impl Folder {
    /// Names are unique in every folder of this tree.
    pub open spec fn wf(&self) -> bool {
        model_wf(folder_model(*self))
    }
}

impl FileOrFolder {
    /// The entry's name.
    pub fn name(&self) -> (r: &str)
        ensures
            r@ == model_name(entry_model(*self)),
    {
        match self {
            FileOrFolder::Folder(folder) => folder.name.as_str(),
            FileOrFolder::File(file) => file.name.as_str(),
        }
    }

    /// The space the entry takes, as recorded.
    pub fn size(&self) -> (r: u64)
        ensures
            r == model_size(entry_model(*self)),
    {
        match self {
            FileOrFolder::Folder(folder) => folder.size,
            FileOrFolder::File(file) => file.size,
        }
    }

    /// What removing this entry takes off its folder's descendant count.
    fn removed_descendants(&self) -> (r: u64)
        ensures
            r == model_removed_descendants(entry_model(*self)),
    {
        match self {
            FileOrFolder::Folder(folder) => folder.num_descendants,
            FileOrFolder::File(_) => 1,
        }
    }

    fn name_string(&self) -> (r: &String)
        ensures
            r@ == model_name(entry_model(*self)),
    {
        match self {
            FileOrFolder::Folder(folder) => &folder.name,
            FileOrFolder::File(file) => &file.name,
        }
    }
}

impl Folder {
    /// An empty folder named after the last component of `path`.
    pub fn new(path: &Vec<String>) -> (r: Folder)
        requires
            path@.len() >= 1,
        ensures
            r@ == empty_folder_model(path@.last()@),
            r.wf(),
    {
        let name = path[path.len() - 1].clone();
        Folder::empty_named(name)
    }

    /// Records a folder at `path`, relative to this folder; every entry off
    /// the path stays as it was.
    pub fn add_folder(&mut self, path: Vec<String>)
        requires
            old(self).wf(),
            add_folder_fits(old(self)@, path_model(path@)),
        ensures
            final(self)@ == add_folder_model(old(self)@, path_model(path@)),
            final(self).wf(),
            forall|q: Seq<Seq<char>>| paths_part(path_model(path@), q)
                ==> #[trigger] lookup_model(final(self)@, q) == lookup_model(old(self)@, q),
    {
        assert(path_model(path@).subrange(0, path@.len() as int) == path_model(path@));
        let ghost before = self@;
        self.add_folder_from(&path, 0);
        proof {
            assert forall|q: Seq<Seq<char>>| paths_part(path_model(path@), q) implies #[trigger] lookup_model(self@, q)
                == lookup_model(before, q) by {
                law_add_folder_keeps_other_entries(before, path_model(path@), q);
            }
        }
    }

    /// Records a file of `size` at `path`, relative to this folder; every
    /// entry off the path stays as it was.
    pub fn add_file(&mut self, path: Vec<String>, size: u64)
        requires
            old(self).wf(),
            add_fits(old(self)@, path_model(path@), size as nat),
        ensures
            final(self)@ == add_file_model(old(self)@, path_model(path@), size as nat),
            final(self).wf(),
            forall|q: Seq<Seq<char>>| paths_part(path_model(path@), q)
                ==> #[trigger] lookup_model(final(self)@, q) == lookup_model(old(self)@, q),
    {
        assert(path_model(path@).subrange(0, path@.len() as int) == path_model(path@));
        let ghost before = self@;
        self.add_file_from(&path, 0, size);
        proof {
            assert forall|q: Seq<Seq<char>>| paths_part(path_model(path@), q) implies #[trigger] lookup_model(self@, q)
                == lookup_model(before, q) by {
                law_add_file_keeps_other_entries(before, path_model(path@), size as nat, q);
            }
        }
    }

    /// Records an entry met while scanning: `entry_full_path` is cut by the
    /// `base_path_length` components of the scanned folder's path; a folder
    /// is recorded as a folder, anything else as a file taking `blocks`
    /// blocks of 512 bytes.
    pub fn add_entry(&mut self, is_dir: bool, blocks: u64, entry_full_path: &Vec<String>, base_path_length: usize)
        requires
            old(self).wf(),
            is_dir ==> add_folder_fits(old(self)@, relative_path(path_model(entry_full_path@), base_path_length as int)),
            !is_dir ==> blocks * 512 <= u64::MAX && add_fits(
                old(self)@,
                relative_path(path_model(entry_full_path@), base_path_length as int),
                (blocks * 512) as nat,
            ),
        ensures
            final(self)@ == if is_dir {
                add_folder_model(old(self)@, relative_path(path_model(entry_full_path@), base_path_length as int))
            } else {
                add_file_model(
                    old(self)@,
                    relative_path(path_model(entry_full_path@), base_path_length as int),
                    (blocks * 512) as nat,
                )
            },
            final(self).wf(),
    {
        let mut relative: Vec<String> = Vec::new();
        let ghost full = path_model(entry_full_path@);
        if base_path_length < entry_full_path.len() {
            let mut i: usize = base_path_length;
            while i < entry_full_path.len()
                invariant
                    full == path_model(entry_full_path@),
                    base_path_length <= i <= entry_full_path@.len(),
                    path_model(relative@) == full.subrange(base_path_length as int, i as int),
                decreases entry_full_path@.len() - i,
            {
                let component = entry_full_path[i].clone();
                assert(component == entry_full_path@[i as int]);
                let ghost before = relative@;
                relative.push(component);
                proof {
                    assert(relative@ == before.push(component));
                    assert(path_model(before) == full.subrange(base_path_length as int, i as int));
                    lemma_path_model_push(before, component);
                    assert(path_model(relative@) =~= full.subrange(base_path_length as int, i as int + 1));
                }
                i = i + 1;
            }
        } else {
            assert(path_model(relative@) =~= relative_path(full, base_path_length as int));
        }
        if is_dir {
            self.add_folder(relative);
        } else {
            self.add_file(relative, blocks * 512);
        }
    }

    /// The entry that `folder_names` leads to from this folder.
    pub fn path(&self, folder_names: &Vec<String>) -> (r: Option<&FileOrFolder>)
        requires
            folder_names@.len() >= 1,
            self.wf(),
        ensures
            match r {
                Some(e) => lookup_model(self@, path_model(folder_names@)) == Some(entry_model(*e)),
                None => lookup_model(self@, path_model(folder_names@)) is None,
            },
    {
        assert(path_model(folder_names@).subrange(0, folder_names@.len() as int) == path_model(folder_names@));
        self.path_from(folder_names, 0)
    }

    /// Removes the entry that `folder_names` leads to, taking its size and
    /// descendants off every folder on the way; every entry off the path
    /// stays as it was.
    pub fn delete_path(&mut self, folder_names: &Vec<String>)
        requires
            old(self).wf(),
            delete_ok(old(self)@, path_model(folder_names@)),
        ensures
            final(self)@ == delete_model(old(self)@, path_model(folder_names@)),
            final(self).wf(),
            forall|q: Seq<Seq<char>>| paths_part(path_model(folder_names@), q)
                ==> #[trigger] lookup_model(final(self)@, q) == lookup_model(old(self)@, q),
    {
        assert(path_model(folder_names@).subrange(0, folder_names@.len() as int) == path_model(folder_names@));
        let ghost before = self@;
        self.delete_path_from(folder_names, 0);
        proof {
            assert forall|q: Seq<Seq<char>>| paths_part(path_model(folder_names@), q) implies #[trigger] lookup_model(self@, q)
                == lookup_model(before, q) by {
                law_delete_keeps_other_entries(before, path_model(folder_names@), q);
            }
        }
    }

    fn empty_named(name: String) -> (r: Folder)
        ensures
            folder_model(r) == empty_folder_model(name@),
            model_wf(folder_model(r)),
    {
        let r = Folder { name, contents: Vec::new(), size: 0, num_descendants: 0 };
        proof {
            lemma_folder_model_entries(r);
            assert(folder_model(r).entries =~= Seq::<EntryModel>::empty());
        }
        r
    }

    fn add_file_from(&mut self, path: &Vec<String>, start: usize, size: u64)
        requires
            start <= path@.len(),
            model_wf(folder_model(*old(self))),
            add_fits(folder_model(*old(self)), path_model(path@).subrange(start as int, path@.len() as int), size as nat),
        ensures
            folder_model(*final(self)) == add_file_model(
                folder_model(*old(self)),
                path_model(path@).subrange(start as int, path@.len() as int),
                size as nat,
            ),
            model_wf(folder_model(*final(self))),
        decreases path@.len() - start,
    {
        let ghost old_self = *self;
        let ghost m = folder_model(old_self);
        let ghost p = path_model(path@).subrange(start as int, path@.len() as int);
        if start == path.len() {
            return;
        }
        let name = &path[start];
        assert(p[0] == name@);
        if path.len() - start > 1 {
            let idx = match self.find_child(name) {
                Some(i) => i,
                None => {
                    let fresh = FileOrFolder::Folder(Folder::empty_named(name.clone()));
                    let ghost before = *self;
                    self.contents.push(fresh);
                    proof {
                        lemma_model_push(before, *self, fresh);
                        lemma_put_entry_unique(m.entries, entry_model(fresh));
                        assert(put_entry(m.entries, entry_model(fresh)) == m.entries.push(entry_model(fresh)));
                    }
                    self.contents.len() - 1
                },
            };
            self.size = self.size + size;
            self.num_descendants = self.num_descendants + 1;
            let ghost mid = *self;
            let ghost entries = folder_model(mid).entries;
            proof {
                lemma_folder_model_entries(mid);
                lemma_folder_model_entries(old_self);
            }
            assert(entries == (if has_entry_named(m.entries, p[0]) { m.entries } else { m.entries.push(EntryModel::Folder(empty_folder_model(p[0]))) }));
            assert(idx == index_of_name(entries, p[0]));
            let child = self.contents.remove(idx);
            let new_child = match child {
                FileOrFolder::Folder(mut folder) => {
                    proof {
                        assert(p.drop_first() == path_model(path@).subrange(start as int + 1, path@.len() as int));
                        assert(model_wf(folder_model(folder)));
                    }
                    folder.add_file_from(path, start + 1, size);
                    FileOrFolder::Folder(folder)
                },
                other => other,
            };
            self.contents.insert(idx, new_child);
            proof {
                assert(self.contents@ == mid.contents@.update(idx as int, new_child));
                lemma_model_update(mid, *self, idx as int, new_child);
                let r = add_file_model(m, p, size as nat);
                assert(r.size == self.size);
                assert(r.num_descendants == self.num_descendants);
                assert(r.name == self.name@);
                assert(r.entries == folder_model(*self).entries);
            }
        } else {
            self.size = self.size + size;
            self.num_descendants = self.num_descendants + 1;
            let file = FileOrFolder::File(File { name: name.clone(), size });
            let ghost before = *self;
            proof {
                lemma_folder_model_entries(before);
                lemma_folder_model_entries(old_self);
                assert(folder_model(before).entries == m.entries);
            }
            match self.find_child(name) {
                Some(i) => {
                    self.contents.set(i, file);
                    proof { lemma_model_update(before, *self, i as int, file); }
                },
                None => {
                    self.contents.push(file);
                    proof { lemma_model_push(before, *self, file); }
                },
            }
            proof {
                lemma_put_entry_unique(m.entries, entry_model(file));
                let r = add_file_model(m, p, size as nat);
                assert(r.size == self.size);
                assert(r.entries == folder_model(*self).entries);
            }
        }
    }

    fn add_folder_from(&mut self, path: &Vec<String>, start: usize)
        requires
            start <= path@.len(),
            model_wf(folder_model(*old(self))),
            add_folder_fits(folder_model(*old(self)), path_model(path@).subrange(start as int, path@.len() as int)),
        ensures
            folder_model(*final(self)) == add_folder_model(
                folder_model(*old(self)),
                path_model(path@).subrange(start as int, path@.len() as int),
            ),
            model_wf(folder_model(*final(self))),
        decreases path@.len() - start,
    {
        let ghost old_self = *self;
        let ghost m = folder_model(old_self);
        let ghost p = path_model(path@).subrange(start as int, path@.len() as int);
        if start == path.len() {
            return;
        }
        let name = &path[start];
        assert(p[0] == name@);
        if path.len() - start > 1 {
            let idx = match self.find_child(name) {
                Some(i) => i,
                None => {
                    let fresh = FileOrFolder::Folder(Folder::empty_named(name.clone()));
                    let ghost before = *self;
                    self.contents.push(fresh);
                    proof {
                        lemma_model_push(before, *self, fresh);
                        lemma_put_entry_unique(m.entries, entry_model(fresh));
                        assert(put_entry(m.entries, entry_model(fresh)) == m.entries.push(entry_model(fresh)));
                    }
                    self.contents.len() - 1
                },
            };
            self.num_descendants = self.num_descendants + 1;
            let ghost mid = *self;
            let ghost entries = folder_model(mid).entries;
            proof {
                lemma_folder_model_entries(mid);
                lemma_folder_model_entries(old_self);
            }
            assert(entries == (if has_entry_named(m.entries, p[0]) { m.entries } else { m.entries.push(EntryModel::Folder(empty_folder_model(p[0]))) }));
            assert(idx == index_of_name(entries, p[0]));
            let child = self.contents.remove(idx);
            let new_child = match child {
                FileOrFolder::Folder(mut folder) => {
                    proof {
                        assert(p.drop_first() == path_model(path@).subrange(start as int + 1, path@.len() as int));
                        assert(model_wf(folder_model(folder)));
                    }
                    folder.add_folder_from(path, start + 1);
                    FileOrFolder::Folder(folder)
                },
                other => other,
            };
            self.contents.insert(idx, new_child);
            proof {
                assert(self.contents@ == mid.contents@.update(idx as int, new_child));
                lemma_model_update(mid, *self, idx as int, new_child);
                let r = add_folder_model(m, p);
                assert(r.size == self.size);
                assert(r.num_descendants == self.num_descendants);
                assert(r.name == self.name@);
                assert(r.entries == folder_model(*self).entries);
            }
        } else {
            self.num_descendants = self.num_descendants + 1;
            let entry = FileOrFolder::Folder(Folder::empty_named(name.clone()));
            let ghost before = *self;
            proof {
                lemma_folder_model_entries(before);
                lemma_folder_model_entries(old_self);
                assert(folder_model(before).entries == m.entries);
            }
            match self.find_child(name) {
                Some(i) => {
                    self.contents.set(i, entry);
                    proof { lemma_model_update(before, *self, i as int, entry); }
                },
                None => {
                    self.contents.push(entry);
                    proof { lemma_model_push(before, *self, entry); }
                },
            }
            proof {
                lemma_put_entry_unique(m.entries, entry_model(entry));
                let r = add_folder_model(m, p);
                assert(r.entries == folder_model(*self).entries);
            }
        }
    }

    fn path_from(&self, folder_names: &Vec<String>, start: usize) -> (r: Option<&FileOrFolder>)
        requires
            start < folder_names@.len(),
            model_wf(folder_model(*self)),
        ensures
            match r {
                Some(e) => lookup_model(
                    folder_model(*self),
                    path_model(folder_names@).subrange(start as int, folder_names@.len() as int),
                ) == Some(entry_model(*e)),
                None => lookup_model(
                    folder_model(*self),
                    path_model(folder_names@).subrange(start as int, folder_names@.len() as int),
                ) is None,
            },
        decreases folder_names@.len() - start,
    {
        let ghost p = path_model(folder_names@).subrange(start as int, folder_names@.len() as int);
        let name = &folder_names[start];
        assert(p[0] == name@);
        proof {
            lemma_folder_model_entries(*self);
        }
        let idx = match self.find_child(name) {
            Some(i) => i,
            None => return None,
        };
        let next = &self.contents[idx];
        assert(folder_model(*self).entries[idx as int] == entry_model(*next));
        if folder_names.len() - start == 1 {
            Some(next)
        } else {
            match next {
                FileOrFolder::Folder(sub) => {
                    assert(p.drop_first() == path_model(folder_names@).subrange(start as int + 1, folder_names@.len() as int));
                    sub.path_from(folder_names, start + 1)
                },
                FileOrFolder::File(_) => Some(next),
            }
        }
    }

    fn delete_path_from(&mut self, folder_names: &Vec<String>, start: usize)
        requires
            start < folder_names@.len(),
            model_wf(folder_model(*old(self))),
            delete_ok(folder_model(*old(self)), path_model(folder_names@).subrange(start as int, folder_names@.len() as int)),
        ensures
            folder_model(*final(self)) == delete_model(
                folder_model(*old(self)),
                path_model(folder_names@).subrange(start as int, folder_names@.len() as int),
            ),
            model_wf(folder_model(*final(self))),
        decreases folder_names@.len() - start,
    {
        let ghost old_self = *self;
        let ghost m = folder_model(old_self);
        let ghost p = path_model(folder_names@).subrange(start as int, folder_names@.len() as int);
        let name = &folder_names[start];
        assert(p[0] == name@);
        proof {
            lemma_folder_model_entries(old_self);
        }
        let idx = self.find_child(name).unwrap();
        let (removed_size, removed_descendants) = {
            let item = if folder_names.len() - start == 1 {
                &self.contents[idx]
            } else {
                self.path_from(folder_names, start).unwrap()
            };
            (item.size(), item.removed_descendants())
        };
        self.size = self.size - removed_size;
        self.num_descendants = self.num_descendants - removed_descendants;
        let ghost mid = *self;
        proof {
            lemma_folder_model_entries(mid);
        }
        let child = self.contents.remove(idx);
        if folder_names.len() - start == 1 {
            proof {
                lemma_folder_model_entries(*self);
                assert(folder_model(*self).entries =~= m.entries.remove(idx as int));
                assert forall|i: int| 0 <= i < folder_model(*self).entries.len() implies (
                    #[trigger] folder_model(*self).entries[i] matches EntryModel::Folder(sub) ==> model_wf(sub)) by {
                    if i >= idx {
                        assert(folder_model(*self).entries[i] == m.entries[i + 1]);
                    }
                }
                assert(model_names_unique(folder_model(*self).entries)) by {
                    assert forall|a: int, b: int| 0 <= a < folder_model(*self).entries.len() && 0 <= b < folder_model(*self).entries.len() && a != b
                        implies model_name(#[trigger] folder_model(*self).entries[a]) != model_name(#[trigger] folder_model(*self).entries[b]) by {
                        let a2 = if a >= idx { a + 1 } else { a };
                        let b2 = if b >= idx { b + 1 } else { b };
                        assert(model_name(m.entries[a2]) != model_name(m.entries[b2]));
                    }
                }
            }
        } else {
            match child {
                FileOrFolder::Folder(mut folder) => {
                    proof {
                        assert(p.drop_first() == path_model(folder_names@).subrange(start as int + 1, folder_names@.len() as int));
                    }
                    folder.delete_path_from(folder_names, start + 1);
                    let new_child = FileOrFolder::Folder(folder);
                    self.contents.insert(idx, new_child);
                    proof {
                        assert(self.contents@ == mid.contents@.update(idx as int, new_child));
                        lemma_model_update(mid, *self, idx as int, new_child);
                    }
                },
                FileOrFolder::File(file) => {
                    proof {
                        assert(false);
                    }
                    self.contents.insert(idx, FileOrFolder::File(file));
                },
            }
        }
    }

    /// The space all files below this folder take, summed anew over the tree.
    pub fn size(&self) -> (r: u64)
        requires
            model_total_size(folder_model(*self)) <= u64::MAX,
        ensures
            r == model_total_size(folder_model(*self)),
        decreases self,
    {
        let ghost m = folder_model(*self);
        proof {
            lemma_folder_model_entries(*self);
        }
        let mut total_size: u64 = 0;
        let mut i: usize = 0;
        while i < self.contents.len()
            invariant
                i <= self.contents@.len(),
                m == folder_model(*self),
                m.entries == self.contents@.map_values(|e: FileOrFolder| entry_model(e)),
                model_total_size(m) <= u64::MAX,
                total_size == prefix_total_size(m, i as int),
            decreases self.contents@.len() - i,
        {
            proof {
                lemma_prefix_total_monotone(m, i as int + 1, m.entries.len() as int);
                lemma_prefix_total_monotone(m, i as int, i as int + 1);
            }
            let entry = &self.contents[i];
            assert(m.entries[i as int] == entry_model(*entry));
            match entry {
                FileOrFolder::Folder(folder) => {
                    proof {
                        lemma_total_nonneg_prefix(m, i as int);
                    }
                    total_size = total_size + folder.size();
                },
                FileOrFolder::File(file) => {
                    total_size = total_size + file.size;
                },
            }
            i = i + 1;
        }
        total_size
    }

    /// The number of entries below this folder, counted anew over the tree.
    pub fn num_descendants(&self) -> (r: u64)
        requires
            model_count(folder_model(*self)) <= u64::MAX,
        ensures
            r == model_count(folder_model(*self)),
        decreases self,
    {
        let ghost m = folder_model(*self);
        proof {
            lemma_folder_model_entries(*self);
        }
        let mut total_descendants: u64 = 0;
        let mut i: usize = 0;
        while i < self.contents.len()
            invariant
                i <= self.contents@.len(),
                m == folder_model(*self),
                m.entries == self.contents@.map_values(|e: FileOrFolder| entry_model(e)),
                model_count(m) <= u64::MAX,
                total_descendants == prefix_count(m, i as int),
            decreases self.contents@.len() - i,
        {
            proof {
                lemma_prefix_count_monotone(m, i as int + 1, m.entries.len() as int);
                lemma_prefix_count_monotone(m, i as int, i as int + 1);
            }
            let entry = &self.contents[i];
            assert(m.entries[i as int] == entry_model(*entry));
            proof {
                if let EntryModel::Folder(sub) = m.entries[i as int] {
                    lemma_count_nonneg(sub);
                }
                lemma_count_nonneg_prefix(m, i as int);
            }
            total_descendants = total_descendants + 1;
            if let FileOrFolder::Folder(folder) = entry {
                total_descendants = total_descendants + folder.num_descendants();
            }
            i = i + 1;
        }
        total_descendants
    }

    fn deletable_from(&self, folder_names: &Vec<String>, start: usize) -> (r: bool)
        requires
            start < folder_names@.len(),
            model_wf(folder_model(*self)),
        ensures
            r == delete_ok(folder_model(*self), path_model(folder_names@).subrange(start as int, folder_names@.len() as int)),
        decreases folder_names@.len() - start,
    {
        let ghost p = path_model(folder_names@).subrange(start as int, folder_names@.len() as int);
        let name = &folder_names[start];
        assert(p[0] == name@);
        proof {
            lemma_folder_model_entries(*self);
        }
        let idx = match self.find_child(name) {
            Some(i) => i,
            None => return false,
        };
        let target = match self.path_from(folder_names, start) {
            Some(t) => t,
            None => return false,
        };
        if self.size < target.size() || self.num_descendants < target.removed_descendants() {
            return false;
        }
        if folder_names.len() - start == 1 {
            true
        } else {
            let next = &self.contents[idx];
            assert(folder_model(*self).entries[idx as int] == entry_model(*next));
            match next {
                FileOrFolder::Folder(sub) => {
                    assert(p.drop_first() == path_model(folder_names@).subrange(start as int + 1, folder_names@.len() as int));
                    sub.deletable_from(folder_names, start + 1)
                },
                FileOrFolder::File(_) => false,
            }
        }
    }

    /// Whether `delete_path` can remove the entry that `folder_names` leads
    /// to: the names lead to it through folders, and no count would go
    /// below zero.
    pub fn can_delete_path(&self, folder_names: &Vec<String>) -> (r: bool)
        requires
            self.wf(),
        ensures
            r == delete_ok(self@, path_model(folder_names@)),
    {
        if folder_names.len() == 0 {
            return false;
        }
        assert(path_model(folder_names@).subrange(0, folder_names@.len() as int) == path_model(folder_names@));
        self.deletable_from(folder_names, 0)
    }

    fn fits_from(&self, names: &Vec<String>, start: usize, is_dir: bool, size: u64) -> (r: bool)
        requires
            start <= names@.len(),
            model_wf(folder_model(*self)),
        ensures
            r == if is_dir {
                add_folder_fits(folder_model(*self), path_model(names@).subrange(start as int, names@.len() as int))
            } else {
                add_fits(folder_model(*self), path_model(names@).subrange(start as int, names@.len() as int), size as nat)
            },
        decreases names@.len() - start,
    {
        let ghost p = path_model(names@).subrange(start as int, names@.len() as int);
        if start == names.len() {
            return true;
        }
        if self.num_descendants == u64::MAX {
            return false;
        }
        if !is_dir && self.size > u64::MAX - size {
            return false;
        }
        if names.len() - start == 1 {
            return true;
        }
        let name = &names[start];
        assert(p[0] == name@);
        proof {
            lemma_folder_model_entries(*self);
        }
        let idx = match self.find_child(name) {
            Some(i) => i,
            None => return true,
        };
        let next = &self.contents[idx];
        assert(folder_model(*self).entries[idx as int] == entry_model(*next));
        match next {
            FileOrFolder::Folder(sub) => {
                assert(p.drop_first() == path_model(names@).subrange(start as int + 1, names@.len() as int));
                sub.fits_from(names, start + 1, is_dir, size)
            },
            FileOrFolder::File(_) => true,
        }
    }

    /// Whether `add_entry` can record the entry with no count overflowing.
    pub fn can_add_entry(&self, is_dir: bool, blocks: u64, entry_full_path: &Vec<String>, base_path_length: usize) -> (r: bool)
        requires
            self.wf(),
        ensures
            r == if is_dir {
                add_folder_fits(self@, relative_path(path_model(entry_full_path@), base_path_length as int))
            } else {
                blocks * 512 <= u64::MAX && add_fits(
                    self@,
                    relative_path(path_model(entry_full_path@), base_path_length as int),
                    (blocks * 512) as nat,
                )
            },
    {
        let ghost full = path_model(entry_full_path@);
        let start = if base_path_length < entry_full_path.len() {
            base_path_length
        } else {
            entry_full_path.len()
        };
        assert(relative_path(full, base_path_length as int) =~= full.subrange(start as int, full.len() as int));
        if is_dir {
            self.fits_from(entry_full_path, start, true, 0)
        } else {
            if blocks > u64::MAX / 512 {
                return false;
            }
            self.fits_from(entry_full_path, start, false, blocks * 512)
        }
    }

    /// Where the entry called `name` stands among the contents.
    fn find_child(&self, name: &String) -> (r: Option<usize>)
        requires
            model_names_unique(folder_model(*self).entries),
        ensures
            match r {
                Some(i) => i < self.contents@.len() && i == index_of_name(folder_model(*self).entries, name@)
                    && has_entry_named(folder_model(*self).entries, name@),
                None => !has_entry_named(folder_model(*self).entries, name@),
            },
    {
        proof {
            lemma_folder_model_entries(*self);
        }
        let ghost entries = folder_model(*self).entries;
        let mut i: usize = 0;
        while i < self.contents.len()
            invariant
                i <= self.contents@.len(),
                entries == self.contents@.map_values(|e: FileOrFolder| entry_model(e)),
                entries == folder_model(*self).entries,
                model_names_unique(entries),
                forall|j: int| 0 <= j < i ==> model_name(#[trigger] entries[j]) != name@,
            decreases self.contents@.len() - i,
        {
            let entry = &self.contents[i];
            assert(*entry == self.contents@[i as int]);
            let entry_name = entry.name_string();
            let same = entry_name.eq(name);
            assert(same == (entry_name@ == name@));
            if same {
                proof {
                    assert(model_name(entries[i as int]) == name@);
                    assert(has_entry_named(entries, name@));
                    let k = index_of_name(entries, name@);
                    assert(model_name(entries[k]) == name@);
                    if k != i as int {
                        assert(model_name(entries[k]) != model_name(entries[i as int]));
                    }
                }
                return Some(i);
            }
            i = i + 1;
        }
        None
    }
}

} // verus!
