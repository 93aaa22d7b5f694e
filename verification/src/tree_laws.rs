use vstd::prelude::*;
use crate::files::{
    EntryModel, FileModel, FolderModel, add_file_model, add_folder_model, empty_folder_model, has_entry_named,
    index_of_name, lemma_put_entry_unique, lookup_model, put_entry, model_name, model_names_unique, model_wf,
    delete_model, delete_ok, model_size, model_total_size, prefix_total_size, model_count, prefix_count,
};

verus! {

/// No proper prefix of `path` leads to a file.
pub open spec fn no_file_on_way(m: FolderModel, path: Seq<Seq<char>>) -> bool
    decreases path.len(),
{
    path.len() <= 1 || !has_entry_named(m.entries, path[0]) || match m.entries[index_of_name(m.entries, path[0])] {
        EntryModel::Folder(sub) => no_file_on_way(sub, path.drop_first()),
        EntryModel::File(_) => false,
    }
}

/// Replacing an entry by one of the same name keeps names unique and keeps
/// where that name stands.
pub proof fn lemma_update_same_name(entries: Seq<EntryModel>, i: int, e: EntryModel)
    requires
        model_names_unique(entries),
        0 <= i < entries.len(),
        model_name(e) == model_name(entries[i]),
    ensures
        model_names_unique(entries.update(i, e)),
        has_entry_named(entries.update(i, e), model_name(e)),
        index_of_name(entries.update(i, e), model_name(e)) == i,
{
    let r = entries.update(i, e);
    assert forall|a: int, b: int| 0 <= a < r.len() && 0 <= b < r.len() && a != b implies model_name(#[trigger] r[a]) != model_name(#[trigger] r[b]) by {
        assert(model_name(r[a]) == model_name(entries[a]));
        assert(model_name(r[b]) == model_name(entries[b]));
    }
    assert(model_name(r[i]) == model_name(e));
    let k = index_of_name(r, model_name(e));
    if k != i {
        assert(model_name(r[k]) != model_name(r[i]));
    }
}

/// Where a name stands when names are unique.
pub proof fn lemma_index_of_name(entries: Seq<EntryModel>, i: int)
    requires
        model_names_unique(entries),
        0 <= i < entries.len(),
    ensures
        has_entry_named(entries, model_name(entries[i])),
        index_of_name(entries, model_name(entries[i])) == i,
{
    let n = model_name(entries[i]);
    assert(has_entry_named(entries, n));
    let k = index_of_name(entries, n);
    if k != i {
        assert(model_name(entries[k]) != model_name(entries[i]));
    }
}

/// The entries that a step of `add_file_model` or `add_folder_model` goes
/// down into: the existing entry of the name, or a new empty folder.
pub open spec fn entries_with_way(entries: Seq<EntryModel>, name: Seq<char>) -> Seq<EntryModel> {
    if has_entry_named(entries, name) {
        entries
    } else {
        entries.push(EntryModel::Folder(empty_folder_model(name)))
    }
}

pub proof fn lemma_entries_with_way(entries: Seq<EntryModel>, name: Seq<char>)
    requires
        model_names_unique(entries),
    ensures
        model_names_unique(entries_with_way(entries, name)),
        has_entry_named(entries_with_way(entries, name), name),
        0 <= index_of_name(entries_with_way(entries, name), name) < entries_with_way(entries, name).len(),
        model_name(entries_with_way(entries, name)[index_of_name(entries_with_way(entries, name), name)]) == name,
        !has_entry_named(entries, name) ==> index_of_name(entries_with_way(entries, name), name) == entries.len()
            && entries_with_way(entries, name)[entries.len() as int] == EntryModel::Folder(empty_folder_model(name)),
{
    if !has_entry_named(entries, name) {
        lemma_put_entry_unique(entries, EntryModel::Folder(empty_folder_model(name)));
    } else {
        let k = index_of_name(entries, name);
        assert(model_name(entries[k]) == name);
    }
}

/// After a file is recorded at a path that passes no file, the path leads
/// to that file.
pub proof fn law_add_file_then_lookup(m: FolderModel, path: Seq<Seq<char>>, size: nat)
    requires
        model_wf(m),
        path.len() >= 1,
        no_file_on_way(m, path),
    ensures
        lookup_model(add_file_model(m, path, size), path) == Some(
            EntryModel::File(FileModel { name: path.last(), size }),
        ),
    decreases path.len(),
{
    let r = add_file_model(m, path, size);
    if path.len() == 1 {
        lemma_put_entry_unique(m.entries, EntryModel::File(FileModel { name: path[0], size }));
        let e = EntryModel::File(FileModel { name: path[0], size });
        let i = index_of_name(put_entry(m.entries, e), path[0]);
        assert(put_entry(m.entries, e)[i] == e);
    } else {
        lemma_entries_with_way(m.entries, path[0]);
        let entries = entries_with_way(m.entries, path[0]);
        let i = index_of_name(entries, path[0]);
        if has_entry_named(m.entries, path[0]) {
            assert(entries[i] is Folder);
        }
        let sub = entries[i]->Folder_0;
        if has_entry_named(m.entries, path[0]) {
            assert(model_wf(sub));
        }
        let new_sub = add_file_model(sub, path.drop_first(), size);
        assert(new_sub.name == sub.name);
        lemma_update_same_name(entries, i, EntryModel::Folder(new_sub));
        law_add_file_then_lookup(sub, path.drop_first(), size);
        assert(path.drop_first().last() == path.last());
    }
}

/// After a folder is recorded at a path that passes no file, the path leads
/// to an empty folder of that name.
pub proof fn law_add_folder_then_lookup(m: FolderModel, path: Seq<Seq<char>>)
    requires
        model_wf(m),
        path.len() >= 1,
        no_file_on_way(m, path),
    ensures
        lookup_model(add_folder_model(m, path), path) == Some(EntryModel::Folder(empty_folder_model(path.last()))),
    decreases path.len(),
{
    if path.len() == 1 {
        let e = EntryModel::Folder(empty_folder_model(path[0]));
        lemma_put_entry_unique(m.entries, e);
        let i = index_of_name(put_entry(m.entries, e), path[0]);
        assert(put_entry(m.entries, e)[i] == e);
    } else {
        lemma_entries_with_way(m.entries, path[0]);
        let entries = entries_with_way(m.entries, path[0]);
        let i = index_of_name(entries, path[0]);
        if has_entry_named(m.entries, path[0]) {
            assert(entries[i] is Folder);
        }
        let sub = entries[i]->Folder_0;
        if has_entry_named(m.entries, path[0]) {
            assert(model_wf(sub));
        }
        let new_sub = add_folder_model(sub, path.drop_first());
        assert(new_sub.name == sub.name);
        lemma_update_same_name(entries, i, EntryModel::Folder(new_sub));
        law_add_folder_then_lookup(sub, path.drop_first());
        assert(path.drop_first().last() == path.last());
    }
}


/// After the entry at a path is removed, the path leads nowhere.
pub proof fn law_delete_then_lookup(m: FolderModel, path: Seq<Seq<char>>)
    requires
        model_wf(m),
        delete_ok(m, path),
    ensures
        lookup_model(delete_model(m, path), path) is None,
    decreases path.len(),
{
    let i = index_of_name(m.entries, path[0]);
    assert(model_name(m.entries[i]) == path[0]);
    let r = delete_model(m, path);
    if path.len() == 1 {
        let rest = m.entries.remove(i);
        if has_entry_named(rest, path[0]) {
            let k = choose|k: int| 0 <= k < rest.len() && model_name(#[trigger] rest[k]) == path[0];
            let k2 = if k >= i { k + 1 } else { k };
            assert(rest[k] == m.entries[k2]);
            assert(model_name(m.entries[k2]) != model_name(m.entries[i]));
        }
    } else {
        let sub = m.entries[i]->Folder_0;
        assert(model_wf(sub));
        let new_sub = delete_model(sub, path.drop_first());
        assert(new_sub.name == sub.name);
        lemma_update_same_name(m.entries, i, EntryModel::Folder(new_sub));
        law_delete_then_lookup(sub, path.drop_first());
    }
}

/// The sizes that the entries of a folder record, summed.
pub open spec fn entries_size(entries: Seq<EntryModel>) -> int
    decreases entries.len(),
{
    if entries.len() == 0 {
        0
    } else {
        entries_size(entries.drop_last()) + model_size(entries.last())
    }
}

/// Every folder of the tree records as its size the sum of what its
/// entries record.
pub open spec fn sizes_consistent(m: FolderModel) -> bool
    decreases m,
{
    &&& m.size == entries_size(m.entries)
    &&& forall|i: int|
        0 <= i < m.entries.len() ==> (#[trigger] m.entries[i] matches EntryModel::Folder(sub) ==> sizes_consistent(sub))
}

pub proof fn lemma_entries_size_update(s: Seq<EntryModel>, i: int, e: EntryModel)
    requires
        0 <= i < s.len(),
    ensures
        entries_size(s.update(i, e)) == entries_size(s) - model_size(s[i]) + model_size(e),
    decreases s.len(),
{
    let u = s.update(i, e);
    if i == s.len() - 1 {
        assert(u.drop_last() =~= s.drop_last());
    } else {
        assert(u.drop_last() =~= s.drop_last().update(i, e));
        lemma_entries_size_update(s.drop_last(), i, e);
    }
}

pub proof fn lemma_entries_size_push(s: Seq<EntryModel>, e: EntryModel)
    ensures
        entries_size(s.push(e)) == entries_size(s) + model_size(e),
{
    assert(s.push(e).drop_last() =~= s);
}

pub proof fn lemma_entries_size_remove(s: Seq<EntryModel>, i: int)
    requires
        0 <= i < s.len(),
    ensures
        entries_size(s.remove(i)) == entries_size(s) - model_size(s[i]),
    decreases s.len(),
{
    let r = s.remove(i);
    if i == s.len() - 1 {
        assert(r =~= s.drop_last());
    } else {
        assert(r.drop_last() =~= s.drop_last().remove(i));
        assert(r.last() == s.last());
        lemma_entries_size_remove(s.drop_last(), i);
    }
}

/// Recording a new file at a path that passes no file keeps every folder's
/// size the sum of its entries', and grows the top folder by the file's size.
pub proof fn law_add_file_keeps_sizes(m: FolderModel, path: Seq<Seq<char>>, size: nat)
    requires
        model_wf(m),
        sizes_consistent(m),
        path.len() >= 1,
        no_file_on_way(m, path),
        lookup_model(m, path) is None,
    ensures
        sizes_consistent(add_file_model(m, path, size)),
        add_file_model(m, path, size).size == m.size + size,
    decreases path.len(),
{
    let r = add_file_model(m, path, size);
    if path.len() == 1 {
        let e = EntryModel::File(FileModel { name: path[0], size });
        assert(!has_entry_named(m.entries, path[0]));
        assert(put_entry(m.entries, e) == m.entries.push(e));
        lemma_entries_size_push(m.entries, e);
        assert forall|i: int| 0 <= i < r.entries.len() implies (#[trigger] r.entries[i] matches EntryModel::Folder(sub) ==> sizes_consistent(sub)) by {
            if i < m.entries.len() {
                assert(r.entries[i] == m.entries[i]);
            }
        }
    } else {
        lemma_entries_with_way(m.entries, path[0]);
        let entries = entries_with_way(m.entries, path[0]);
        let i = index_of_name(entries, path[0]);
        let fresh = EntryModel::Folder(empty_folder_model(path[0]));
        if has_entry_named(m.entries, path[0]) {
            assert(entries[i] is Folder);
        } else {
            lemma_entries_size_push(m.entries, fresh);
            assert(entries_size(Seq::<EntryModel>::empty()) == 0);
            assert(sizes_consistent(empty_folder_model(path[0])));
        }
        assert(entries_size(entries) == m.size);
        let sub = entries[i]->Folder_0;
        if has_entry_named(m.entries, path[0]) {
            assert(model_wf(sub));
            assert(sizes_consistent(sub));
        }
        law_add_file_keeps_sizes(sub, path.drop_first(), size);
        let new_sub = add_file_model(sub, path.drop_first(), size);
        lemma_entries_size_update(entries, i, EntryModel::Folder(new_sub));
        assert forall|k: int| 0 <= k < r.entries.len() implies (#[trigger] r.entries[k] matches EntryModel::Folder(s2) ==> sizes_consistent(s2)) by {
            if k != i {
                assert(r.entries[k] == entries[k]);
                if k < m.entries.len() {
                    assert(entries[k] == m.entries[k]);
                }
            }
        }
    }
}

/// Removing the entry at a path keeps every folder's size the sum of its
/// entries', and shrinks the top folder by the removed entry's size.
pub proof fn law_delete_keeps_sizes(m: FolderModel, path: Seq<Seq<char>>)
    requires
        model_wf(m),
        sizes_consistent(m),
        delete_ok(m, path),
    ensures
        sizes_consistent(delete_model(m, path)),
        delete_model(m, path).size == m.size - model_size(lookup_model(m, path)->0),
    decreases path.len(),
{
    let i = index_of_name(m.entries, path[0]);
    assert(model_name(m.entries[i]) == path[0]);
    let r = delete_model(m, path);
    if path.len() == 1 {
        lemma_entries_size_remove(m.entries, i);
        assert forall|k: int| 0 <= k < r.entries.len() implies (#[trigger] r.entries[k] matches EntryModel::Folder(s2) ==> sizes_consistent(s2)) by {
            if k >= i {
                assert(r.entries[k] == m.entries[k + 1]);
            } else {
                assert(r.entries[k] == m.entries[k]);
            }
        }
    } else {
        let sub = m.entries[i]->Folder_0;
        assert(model_wf(sub));
        assert(sizes_consistent(sub));
        law_delete_keeps_sizes(sub, path.drop_first());
        let new_sub = delete_model(sub, path.drop_first());
        lemma_entries_size_update(m.entries, i, EntryModel::Folder(new_sub));
        assert forall|k: int| 0 <= k < r.entries.len() implies (#[trigger] r.entries[k] matches EntryModel::Folder(s2) ==> sizes_consistent(s2)) by {
            if k != i {
                assert(r.entries[k] == m.entries[k]);
            }
        }
    }
}

/// Where every folder records the sum of its entries' sizes, the size a
/// folder records is the size of all files below it.
pub proof fn law_recorded_size_is_total(m: FolderModel)
    requires
        sizes_consistent(m),
    ensures
        model_total_size(m) == m.size,
    decreases m,
{
    lemma_prefix_total_is_size(m, m.entries.len() as int);
    assert(m.entries.take(m.entries.len() as int) =~= m.entries);
}

pub proof fn lemma_prefix_total_is_size(m: FolderModel, n: int)
    requires
        sizes_consistent(m),
        0 <= n <= m.entries.len(),
    ensures
        prefix_total_size(m, n) == entries_size(m.entries.take(n)),
    decreases m, n,
{
    if n > 0 {
        lemma_prefix_total_is_size(m, n - 1);
        assert(m.entries.take(n).drop_last() =~= m.entries.take(n - 1));
        if let EntryModel::Folder(sub) = m.entries[n - 1] {
            law_recorded_size_is_total(sub);
        }
    }
}


/// What a folder's entries add to its descendant count: one for each entry,
/// and a folder's own count on top.
pub open spec fn entries_count(entries: Seq<EntryModel>) -> int
    decreases entries.len(),
{
    if entries.len() == 0 {
        0
    } else {
        entries_count(entries.drop_last()) + 1 + match entries.last() {
            EntryModel::Folder(sub) => sub.num_descendants as int,
            EntryModel::File(_) => 0,
        }
    }
}

pub open spec fn entry_count(e: EntryModel) -> int {
    1 + match e {
        EntryModel::Folder(sub) => sub.num_descendants as int,
        EntryModel::File(_) => 0,
    }
}

/// Every folder of the tree records as its descendant count exactly what
/// its entries add up to.
pub open spec fn counts_exact(m: FolderModel) -> bool
    decreases m,
{
    &&& m.num_descendants == entries_count(m.entries)
    &&& forall|i: int|
        0 <= i < m.entries.len() ==> (#[trigger] m.entries[i] matches EntryModel::Folder(sub) ==> counts_exact(sub))
}

/// Every proper prefix of `path` leads to a folder.
pub open spec fn parents_exist(m: FolderModel, path: Seq<Seq<char>>) -> bool
    decreases path.len(),
{
    path.len() <= 1 || (has_entry_named(m.entries, path[0]) && match m.entries[index_of_name(m.entries, path[0])] {
        EntryModel::Folder(sub) => parents_exist(sub, path.drop_first()),
        EntryModel::File(_) => false,
    })
}

pub proof fn lemma_entries_count_update(s: Seq<EntryModel>, i: int, e: EntryModel)
    requires
        0 <= i < s.len(),
    ensures
        entries_count(s.update(i, e)) == entries_count(s) - entry_count(s[i]) + entry_count(e),
    decreases s.len(),
{
    let u = s.update(i, e);
    if i == s.len() - 1 {
        assert(u.drop_last() =~= s.drop_last());
    } else {
        assert(u.drop_last() =~= s.drop_last().update(i, e));
        lemma_entries_count_update(s.drop_last(), i, e);
    }
}

pub proof fn lemma_entries_count_push(s: Seq<EntryModel>, e: EntryModel)
    ensures
        entries_count(s.push(e)) == entries_count(s) + entry_count(e),
{
    assert(s.push(e).drop_last() =~= s);
}

pub proof fn lemma_entries_count_remove(s: Seq<EntryModel>, i: int)
    requires
        0 <= i < s.len(),
    ensures
        entries_count(s.remove(i)) == entries_count(s) - entry_count(s[i]),
    decreases s.len(),
{
    let r = s.remove(i);
    if i == s.len() - 1 {
        assert(r =~= s.drop_last());
    } else {
        assert(r.drop_last() =~= s.drop_last().remove(i));
        assert(r.last() == s.last());
        lemma_entries_count_remove(s.drop_last(), i);
    }
}

/// Recording a new file inside an existing folder keeps every descendant
/// count exact, and counts one more descendant at the top.
pub proof fn law_add_file_keeps_counts(m: FolderModel, path: Seq<Seq<char>>, size: nat)
    requires
        model_wf(m),
        counts_exact(m),
        path.len() >= 1,
        parents_exist(m, path),
        lookup_model(m, path) is None,
    ensures
        counts_exact(add_file_model(m, path, size)),
        add_file_model(m, path, size).num_descendants == m.num_descendants + 1,
    decreases path.len(),
{
    let r = add_file_model(m, path, size);
    if path.len() == 1 {
        let e = EntryModel::File(FileModel { name: path[0], size });
        assert(put_entry(m.entries, e) == m.entries.push(e));
        lemma_entries_count_push(m.entries, e);
        assert forall|i: int| 0 <= i < r.entries.len() implies (#[trigger] r.entries[i] matches EntryModel::Folder(sub) ==> counts_exact(sub)) by {
            if i < m.entries.len() {
                assert(r.entries[i] == m.entries[i]);
            }
        }
    } else {
        let i = index_of_name(m.entries, path[0]);
        assert(model_name(m.entries[i]) == path[0]);
        let sub = m.entries[i]->Folder_0;
        assert(model_wf(sub));
        assert(counts_exact(sub));
        law_add_file_keeps_counts(sub, path.drop_first(), size);
        let new_sub = add_file_model(sub, path.drop_first(), size);
        lemma_entries_count_update(m.entries, i, EntryModel::Folder(new_sub));
        assert forall|k: int| 0 <= k < r.entries.len() implies (#[trigger] r.entries[k] matches EntryModel::Folder(s2) ==> counts_exact(s2)) by {
            if k != i {
                assert(r.entries[k] == m.entries[k]);
            }
        }
    }
}

/// Recording a new folder inside an existing folder keeps every descendant
/// count exact, and counts one more descendant at the top.
pub proof fn law_add_folder_keeps_counts(m: FolderModel, path: Seq<Seq<char>>)
    requires
        model_wf(m),
        counts_exact(m),
        path.len() >= 1,
        parents_exist(m, path),
        lookup_model(m, path) is None,
    ensures
        counts_exact(add_folder_model(m, path)),
        add_folder_model(m, path).num_descendants == m.num_descendants + 1,
    decreases path.len(),
{
    let r = add_folder_model(m, path);
    if path.len() == 1 {
        let e = EntryModel::Folder(empty_folder_model(path[0]));
        assert(put_entry(m.entries, e) == m.entries.push(e));
        lemma_entries_count_push(m.entries, e);
        assert(entries_count(Seq::<EntryModel>::empty()) == 0);
        assert(counts_exact(empty_folder_model(path[0])));
        assert forall|i: int| 0 <= i < r.entries.len() implies (#[trigger] r.entries[i] matches EntryModel::Folder(sub) ==> counts_exact(sub)) by {
            if i < m.entries.len() {
                assert(r.entries[i] == m.entries[i]);
            }
        }
    } else {
        let i = index_of_name(m.entries, path[0]);
        assert(model_name(m.entries[i]) == path[0]);
        let sub = m.entries[i]->Folder_0;
        assert(model_wf(sub));
        assert(counts_exact(sub));
        law_add_folder_keeps_counts(sub, path.drop_first());
        let new_sub = add_folder_model(sub, path.drop_first());
        lemma_entries_count_update(m.entries, i, EntryModel::Folder(new_sub));
        assert forall|k: int| 0 <= k < r.entries.len() implies (#[trigger] r.entries[k] matches EntryModel::Folder(s2) ==> counts_exact(s2)) by {
            if k != i {
                assert(r.entries[k] == m.entries[k]);
            }
        }
    }
}

/// Removing a file keeps every descendant count exact, and counts one
/// descendant less at the top.
pub proof fn law_delete_file_keeps_counts(m: FolderModel, path: Seq<Seq<char>>)
    requires
        model_wf(m),
        counts_exact(m),
        delete_ok(m, path),
        lookup_model(m, path)->0 is File,
    ensures
        counts_exact(delete_model(m, path)),
        delete_model(m, path).num_descendants == m.num_descendants - 1,
    decreases path.len(),
{
    let i = index_of_name(m.entries, path[0]);
    assert(model_name(m.entries[i]) == path[0]);
    let r = delete_model(m, path);
    if path.len() == 1 {
        lemma_entries_count_remove(m.entries, i);
        assert forall|k: int| 0 <= k < r.entries.len() implies (#[trigger] r.entries[k] matches EntryModel::Folder(s2) ==> counts_exact(s2)) by {
            if k >= i {
                assert(r.entries[k] == m.entries[k + 1]);
            } else {
                assert(r.entries[k] == m.entries[k]);
            }
        }
    } else {
        let sub = m.entries[i]->Folder_0;
        assert(model_wf(sub));
        assert(counts_exact(sub));
        law_delete_file_keeps_counts(sub, path.drop_first());
        let new_sub = delete_model(sub, path.drop_first());
        lemma_entries_count_update(m.entries, i, EntryModel::Folder(new_sub));
        assert forall|k: int| 0 <= k < r.entries.len() implies (#[trigger] r.entries[k] matches EntryModel::Folder(s2) ==> counts_exact(s2)) by {
            if k != i {
                assert(r.entries[k] == m.entries[k]);
            }
        }
    }
}

/// Where every descendant count is exact, the count a folder records is
/// the number of entries below it.
pub proof fn law_recorded_count_is_total(m: FolderModel)
    requires
        counts_exact(m),
    ensures
        model_count(m) == m.num_descendants,
    decreases m,
{
    lemma_prefix_count_is_count(m, m.entries.len() as int);
    assert(m.entries.take(m.entries.len() as int) =~= m.entries);
}

pub proof fn lemma_prefix_count_is_count(m: FolderModel, n: int)
    requires
        counts_exact(m),
        0 <= n <= m.entries.len(),
    ensures
        prefix_count(m, n) == entries_count(m.entries.take(n)),
    decreases m, n,
{
    if n > 0 {
        lemma_prefix_count_is_count(m, n - 1);
        assert(m.entries.take(n).drop_last() =~= m.entries.take(n - 1));
        if let EntryModel::Folder(sub) = m.entries[n - 1] {
            law_recorded_count_is_total(sub);
        }
    }
}

/// Recording a new file inside an existing folder and then removing it
/// gives back the folder as it was.
pub proof fn law_add_file_then_delete(m: FolderModel, path: Seq<Seq<char>>, size: nat)
    requires
        model_wf(m),
        path.len() >= 1,
        parents_exist(m, path),
        lookup_model(m, path) is None,
    ensures
        delete_model(add_file_model(m, path, size), path) == m,
    decreases path.len(),
{
    let a = add_file_model(m, path, size);
    assert(no_file_on_way(m, path)) by {
        lemma_parents_exist_no_file(m, path);
    }
    law_add_file_then_lookup(m, path, size);
    let d = delete_model(a, path);
    if path.len() == 1 {
        let e = EntryModel::File(FileModel { name: path[0], size });
        assert(a.entries == m.entries.push(e));
        lemma_put_entry_unique(m.entries, e);
        assert(index_of_name(a.entries, path[0]) == m.entries.len());
        assert(d.entries =~= m.entries);
    } else {
        let i = index_of_name(m.entries, path[0]);
        assert(model_name(m.entries[i]) == path[0]);
        let sub = m.entries[i]->Folder_0;
        assert(model_wf(sub));
        let new_sub = add_file_model(sub, path.drop_first(), size);
        lemma_update_same_name(m.entries, i, EntryModel::Folder(new_sub));
        law_add_file_then_delete(sub, path.drop_first(), size);
        assert(d.entries =~= m.entries);
    }
}

pub proof fn lemma_parents_exist_no_file(m: FolderModel, path: Seq<Seq<char>>)
    requires
        parents_exist(m, path),
    ensures
        no_file_on_way(m, path),
    decreases path.len(),
{
    if path.len() > 1 {
        if let EntryModel::Folder(sub) = m.entries[index_of_name(m.entries, path[0])] {
            lemma_parents_exist_no_file(sub, path.drop_first());
        }
    }
}


/// `p` is a prefix of `q` (or equal to it).
pub open spec fn is_prefix(p: Seq<Seq<char>>, q: Seq<Seq<char>>) -> bool {
    p.len() <= q.len() && q.take(p.len() as int) == p
}

/// Where a name stands is kept when another entry is replaced by one of its
/// own name.
pub proof fn lemma_index_kept_by_update(entries: Seq<EntryModel>, i: int, e: EntryModel, name: Seq<char>)
    requires
        model_names_unique(entries),
        0 <= i < entries.len(),
        model_name(e) == model_name(entries[i]),
        has_entry_named(entries, name),
    ensures
        has_entry_named(entries.update(i, e), name),
        index_of_name(entries.update(i, e), name) == index_of_name(entries, name),
{
    let k = index_of_name(entries, name);
    assert(model_name(entries[k]) == name);
    lemma_update_same_name(entries, i, e);
    let u = entries.update(i, e);
    assert(model_name(u[k]) == name);
    assert(has_entry_named(u, name));
    lemma_index_of_name(u, k);
}

/// Where a name stands is kept when an entry of a new name is appended.
pub proof fn lemma_index_kept_by_push(entries: Seq<EntryModel>, e: EntryModel, name: Seq<char>)
    requires
        model_names_unique(entries),
        !has_entry_named(entries, model_name(e)),
        has_entry_named(entries, name),
    ensures
        has_entry_named(entries.push(e), name),
        index_of_name(entries.push(e), name) == index_of_name(entries, name),
{
    let k = index_of_name(entries, name);
    assert(model_name(entries[k]) == name);
    lemma_put_entry_unique(entries, e);
    assert(put_entry(entries, e) == entries.push(e));
    let u = entries.push(e);
    assert(u[k] == entries[k]);
    lemma_index_of_name(u, k);
}

/// Where a name stands is kept when the entry of another name is set.
pub proof fn lemma_index_kept_by_put(entries: Seq<EntryModel>, e: EntryModel, name: Seq<char>)
    requires
        model_names_unique(entries),
        has_entry_named(entries, name),
        model_name(e) != name,
    ensures
        has_entry_named(put_entry(entries, e), name),
        index_of_name(put_entry(entries, e), name) == index_of_name(entries, name),
        put_entry(entries, e)[index_of_name(entries, name)] == entries[index_of_name(entries, name)],
{
    let k = index_of_name(entries, name);
    assert(model_name(entries[k]) == name);
    if has_entry_named(entries, model_name(e)) {
        let j = index_of_name(entries, model_name(e));
        assert(model_name(entries[j]) == model_name(e));
        lemma_index_kept_by_update(entries, j, e, name);
    } else {
        lemma_index_kept_by_push(entries, e, name);
    }
}

/// Recording a file keeps a folder that a path leads to, unless the file's
/// path is that path or a prefix of it.
pub proof fn law_add_file_keeps_folders(m: FolderModel, p: Seq<Seq<char>>, size: nat, q: Seq<Seq<char>>)
    requires
        model_wf(m),
        p.len() >= 1,
        lookup_model(m, q) matches Some(EntryModel::Folder(_)),
        !is_prefix(p, q),
    ensures
        lookup_model(add_file_model(m, p, size), q) matches Some(EntryModel::Folder(_)),
    decreases q.len(),
{
    let a = add_file_model(m, p, size);
    let i = index_of_name(m.entries, q[0]);
    assert(model_name(m.entries[i]) == q[0]);
    if p[0] != q[0] {
        if p.len() == 1 {
            lemma_index_kept_by_put(m.entries, EntryModel::File(FileModel { name: p[0], size }), q[0]);
        } else {
            lemma_entries_with_way(m.entries, p[0]);
            let entries = entries_with_way(m.entries, p[0]);
            if !has_entry_named(m.entries, p[0]) {
                lemma_index_kept_by_push(m.entries, EntryModel::Folder(empty_folder_model(p[0])), q[0]);
                assert(entries[i] == m.entries[i]);
            }
            let j = index_of_name(entries, p[0]);
            if let EntryModel::Folder(sub) = entries[j] {
                let new_sub = add_file_model(sub, p.drop_first(), size);
                if has_entry_named(m.entries, p[0]) {
                    lemma_index_kept_by_update(entries, j, EntryModel::Folder(new_sub), q[0]);
                } else {
                    lemma_put_entry_unique(m.entries, EntryModel::Folder(empty_folder_model(p[0])));
                    assert(put_entry(m.entries, EntryModel::Folder(empty_folder_model(p[0]))) == entries);
                    lemma_index_kept_by_update(entries, j, EntryModel::Folder(new_sub), q[0]);
                }
                assert(j != i);
            }
        }
    } else {
        if p.len() == 1 {
            assert(q.take(1) =~= p);
        }
        assert(p.len() >= 2);
        let sub = m.entries[i]->Folder_0;
        assert(model_wf(sub));
        let new_sub = add_file_model(sub, p.drop_first(), size);
        lemma_update_same_name(m.entries, i, EntryModel::Folder(new_sub));
        if q.len() > 1 {
            if is_prefix(p.drop_first(), q.drop_first()) {
                assert(q.take(p.len() as int) =~= seq![q[0]] + q.drop_first().take(p.drop_first().len() as int));
                assert(p =~= seq![p[0]] + p.drop_first());
            }
            law_add_file_keeps_folders(sub, p.drop_first(), size, q.drop_first());
        }
    }
}

/// Recording a folder keeps a folder that a path leads to, unless the new
/// folder's path is a proper prefix of that path.
pub proof fn law_add_folder_keeps_folders(m: FolderModel, p: Seq<Seq<char>>, q: Seq<Seq<char>>)
    requires
        model_wf(m),
        p.len() >= 1,
        lookup_model(m, q) matches Some(EntryModel::Folder(_)),
        !(is_prefix(p, q) && p.len() < q.len()),
    ensures
        lookup_model(add_folder_model(m, p), q) matches Some(EntryModel::Folder(_)),
    decreases q.len(),
{
    let a = add_folder_model(m, p);
    let i = index_of_name(m.entries, q[0]);
    assert(model_name(m.entries[i]) == q[0]);
    if p[0] != q[0] {
        if p.len() == 1 {
            lemma_index_kept_by_put(m.entries, EntryModel::Folder(empty_folder_model(p[0])), q[0]);
        } else {
            lemma_entries_with_way(m.entries, p[0]);
            let entries = entries_with_way(m.entries, p[0]);
            if !has_entry_named(m.entries, p[0]) {
                lemma_index_kept_by_push(m.entries, EntryModel::Folder(empty_folder_model(p[0])), q[0]);
                assert(entries[i] == m.entries[i]);
            }
            let j = index_of_name(entries, p[0]);
            if let EntryModel::Folder(sub) = entries[j] {
                let new_sub = add_folder_model(sub, p.drop_first());
                if !has_entry_named(m.entries, p[0]) {
                    lemma_put_entry_unique(m.entries, EntryModel::Folder(empty_folder_model(p[0])));
                    assert(put_entry(m.entries, EntryModel::Folder(empty_folder_model(p[0]))) == entries);
                }
                lemma_index_kept_by_update(entries, j, EntryModel::Folder(new_sub), q[0]);
                assert(j != i);
            }
        }
    } else if p.len() == 1 {
        let e = EntryModel::Folder(empty_folder_model(p[0]));
        lemma_put_entry_unique(m.entries, e);
        if q.len() > 1 {
            assert(q.take(1) =~= p);
        }
    } else {
        let sub = m.entries[i]->Folder_0;
        assert(model_wf(sub));
        let new_sub = add_folder_model(sub, p.drop_first());
        lemma_update_same_name(m.entries, i, EntryModel::Folder(new_sub));
        if q.len() > 1 {
            if is_prefix(p.drop_first(), q.drop_first()) && p.drop_first().len() < q.drop_first().len() {
                assert(q.take(p.len() as int) =~= seq![q[0]] + q.drop_first().take(p.drop_first().len() as int));
                assert(p =~= seq![p[0]] + p.drop_first());
            }
            law_add_folder_keeps_folders(sub, p.drop_first(), q.drop_first());
        }
    }
}


/// An entry of another name is found again after one entry is removed.
pub proof fn lemma_index_kept_by_remove(entries: Seq<EntryModel>, j: int, name: Seq<char>)
    requires
        model_names_unique(entries),
        0 <= j < entries.len(),
        has_entry_named(entries, name),
        model_name(entries[j]) != name,
    ensures
        has_entry_named(entries.remove(j), name),
        entries.remove(j)[index_of_name(entries.remove(j), name)] == entries[index_of_name(entries, name)],
        model_names_unique(entries.remove(j)),
{
    let k = index_of_name(entries, name);
    assert(model_name(entries[k]) == name);
    let r = entries.remove(j);
    let k2 = if k < j { k } else { k - 1 };
    assert(r[k2] == entries[k]);
    assert forall|a: int, b: int| 0 <= a < r.len() && 0 <= b < r.len() && a != b implies model_name(#[trigger] r[a]) != model_name(#[trigger] r[b]) by {
        let a2 = if a >= j { a + 1 } else { a };
        let b2 = if b >= j { b + 1 } else { b };
        assert(r[a] == entries[a2] && r[b] == entries[b2]);
    }
    lemma_index_of_name(r, k2);
}

/// Removing an entry keeps a folder that a path leads to, unless the
/// removed entry's path is a prefix of that path.
pub proof fn law_delete_keeps_folders(m: FolderModel, p: Seq<Seq<char>>, q: Seq<Seq<char>>)
    requires
        model_wf(m),
        delete_ok(m, p),
        lookup_model(m, q) matches Some(EntryModel::Folder(_)),
        !is_prefix(p, q),
    ensures
        lookup_model(delete_model(m, p), q) matches Some(EntryModel::Folder(_)),
    decreases q.len(),
{
    let i = index_of_name(m.entries, q[0]);
    assert(model_name(m.entries[i]) == q[0]);
    let j = index_of_name(m.entries, p[0]);
    assert(model_name(m.entries[j]) == p[0]);
    if p[0] != q[0] {
        if p.len() == 1 {
            lemma_index_kept_by_remove(m.entries, j, q[0]);
        } else {
            let sub = m.entries[j]->Folder_0;
            let new_sub = delete_model(sub, p.drop_first());
            lemma_index_kept_by_update(m.entries, j, EntryModel::Folder(new_sub), q[0]);
        }
    } else {
        if p.len() == 1 {
            assert(q.take(1) =~= p);
        }
        let sub = m.entries[i]->Folder_0;
        assert(model_wf(sub));
        let new_sub = delete_model(sub, p.drop_first());
        lemma_update_same_name(m.entries, i, EntryModel::Folder(new_sub));
        if q.len() > 1 {
            if is_prefix(p.drop_first(), q.drop_first()) {
                assert(q.take(p.len() as int) =~= seq![q[0]] + q.drop_first().take(p.drop_first().len() as int));
                assert(p =~= seq![p[0]] + p.drop_first());
            }
            law_delete_keeps_folders(sub, p.drop_first(), q.drop_first());
        }
    }
}


/// The entry of `entries` named `name`, if any: where a lookup of a path
/// starting with `name` steps first.
pub open spec fn entry_for(entries: Seq<EntryModel>, name: Seq<char>) -> Option<EntryModel> {
    if has_entry_named(entries, name) {
        Some(entries[index_of_name(entries, name)])
    } else {
        None
    }
}

/// A lookup depends on the folder only through its entry of the path's
/// first name.
proof fn lemma_lookup_by_entry(m1: FolderModel, m2: FolderModel, q: Seq<Seq<char>>)
    requires
        q.len() >= 1,
        entry_for(m1.entries, q[0]) == entry_for(m2.entries, q[0]),
    ensures
        lookup_model(m1, q) == lookup_model(m2, q),
{
}

/// Putting an entry of another name keeps the entry of `name`.
proof fn lemma_entry_for_put(entries: Seq<EntryModel>, e: EntryModel, name: Seq<char>)
    requires
        model_names_unique(entries),
        model_name(e) != name,
    ensures
        entry_for(put_entry(entries, e), name) == entry_for(entries, name),
{
    if has_entry_named(entries, name) {
        lemma_index_kept_by_put(entries, e, name);
    } else {
        let r = put_entry(entries, e);
        if has_entry_named(r, name) {
            let k = choose|k: int| 0 <= k < r.len() && model_name(#[trigger] r[k]) == name;
            if has_entry_named(entries, model_name(e)) {
                let i = index_of_name(entries, model_name(e));
                assert(model_name(entries[i]) == model_name(e));
                assert(k != i);
                assert(r[k] == entries[k]);
            } else {
                assert(k < entries.len());
                assert(r[k] == entries[k]);
            }
        }
    }
}

/// Replacing an entry by one of its own name keeps the entries of other
/// names.
proof fn lemma_entry_for_update(entries: Seq<EntryModel>, i: int, e: EntryModel, name: Seq<char>)
    requires
        model_names_unique(entries),
        0 <= i < entries.len(),
        model_name(e) == model_name(entries[i]),
        model_name(e) != name,
    ensures
        entry_for(entries.update(i, e), name) == entry_for(entries, name),
{
    if has_entry_named(entries, name) {
        let k = index_of_name(entries, name);
        assert(model_name(entries[k]) == name);
        lemma_index_kept_by_update(entries, i, e, name);
        assert(k != i);
    } else {
        let r = entries.update(i, e);
        if has_entry_named(r, name) {
            let k = choose|k: int| 0 <= k < r.len() && model_name(#[trigger] r[k]) == name;
            assert(k != i);
            assert(r[k] == entries[k]);
        }
    }
}

/// Removing an entry of another name keeps the entry of `name`.
proof fn lemma_entry_for_remove(entries: Seq<EntryModel>, j: int, name: Seq<char>)
    requires
        model_names_unique(entries),
        0 <= j < entries.len(),
        model_name(entries[j]) != name,
    ensures
        entry_for(entries.remove(j), name) == entry_for(entries, name),
{
    if has_entry_named(entries, name) {
        lemma_index_kept_by_remove(entries, j, name);
    } else {
        let r = entries.remove(j);
        if has_entry_named(r, name) {
            let k = choose|k: int| 0 <= k < r.len() && model_name(#[trigger] r[k]) == name;
            let k2 = if k < j { k } else { k + 1 };
            assert(r[k] == entries[k2]);
        }
    }
}

/// Neither path is a prefix of the other: they part at some name.
pub open spec fn paths_part(p: Seq<Seq<char>>, q: Seq<Seq<char>>) -> bool {
    !is_prefix(p, q) && !is_prefix(q, p)
}

/// Parting paths that start with the same name part after it too.
proof fn lemma_paths_part_rest(p: Seq<Seq<char>>, q: Seq<Seq<char>>)
    requires
        paths_part(p, q),
        p.len() >= 1,
        q.len() >= 1,
        p[0] == q[0],
    ensures
        p.len() >= 2,
        q.len() >= 2,
        paths_part(p.drop_first(), q.drop_first()),
{
    if p.len() == 1 {
        assert(q.take(1) =~= p);
    }
    if q.len() == 1 {
        assert(p.take(1) =~= q);
    }
    if is_prefix(p.drop_first(), q.drop_first()) {
        assert(q.take(p.len() as int) =~= seq![q[0]] + q.drop_first().take(p.drop_first().len() as int));
        assert(p =~= seq![p[0]] + p.drop_first());
    }
    if is_prefix(q.drop_first(), p.drop_first()) {
        assert(p.take(q.len() as int) =~= seq![p[0]] + p.drop_first().take(q.drop_first().len() as int));
        assert(q =~= seq![q[0]] + q.drop_first());
    }
}

/// Recording a file at `p` leaves every entry off its path as it was: a
/// path that parts from `p` leads where it led before.
pub proof fn law_add_file_keeps_other_entries(m: FolderModel, p: Seq<Seq<char>>, size: nat, q: Seq<Seq<char>>)
    requires
        model_wf(m),
        paths_part(p, q),
    ensures
        lookup_model(add_file_model(m, p, size), q) == lookup_model(m, q),
    decreases q.len(),
{
    assert(p.len() >= 1 && q.len() >= 1) by {
        if p.len() == 0 {
            assert(q.take(0) =~= p);
        }
        if q.len() == 0 {
            assert(p.take(0) =~= q);
        }
    }
    let a = add_file_model(m, p, size);
    if p[0] != q[0] {
        if p.len() == 1 {
            lemma_entry_for_put(m.entries, EntryModel::File(FileModel { name: p[0], size }), q[0]);
        } else {
            lemma_entries_with_way(m.entries, p[0]);
            let entries = entries_with_way(m.entries, p[0]);
            if !has_entry_named(m.entries, p[0]) {
                lemma_entry_for_put(m.entries, EntryModel::Folder(empty_folder_model(p[0])), q[0]);
            }
            let j = index_of_name(entries, p[0]);
            if let EntryModel::Folder(sub) = entries[j] {
                lemma_entry_for_update(entries, j, EntryModel::Folder(add_file_model(sub, p.drop_first(), size)), q[0]);
            }
        }
        lemma_lookup_by_entry(a, m, q);
    } else {
        lemma_paths_part_rest(p, q);
        lemma_entries_with_way(m.entries, p[0]);
        let entries = entries_with_way(m.entries, p[0]);
        let j = index_of_name(entries, p[0]);
        if let EntryModel::Folder(sub) = entries[j] {
            if has_entry_named(m.entries, p[0]) {
                assert(model_wf(sub));
            }
            let new_sub = add_file_model(sub, p.drop_first(), size);
            lemma_update_same_name(entries, j, EntryModel::Folder(new_sub));
            law_add_file_keeps_other_entries(sub, p.drop_first(), size, q.drop_first());
        }
    }
}

/// Recording a folder at `p` leaves every entry off its path as it was: a
/// path that parts from `p` leads where it led before.
pub proof fn law_add_folder_keeps_other_entries(m: FolderModel, p: Seq<Seq<char>>, q: Seq<Seq<char>>)
    requires
        model_wf(m),
        paths_part(p, q),
    ensures
        lookup_model(add_folder_model(m, p), q) == lookup_model(m, q),
    decreases q.len(),
{
    assert(p.len() >= 1 && q.len() >= 1) by {
        if p.len() == 0 {
            assert(q.take(0) =~= p);
        }
        if q.len() == 0 {
            assert(p.take(0) =~= q);
        }
    }
    let a = add_folder_model(m, p);
    if p[0] != q[0] {
        if p.len() == 1 {
            lemma_entry_for_put(m.entries, EntryModel::Folder(empty_folder_model(p[0])), q[0]);
        } else {
            lemma_entries_with_way(m.entries, p[0]);
            let entries = entries_with_way(m.entries, p[0]);
            if !has_entry_named(m.entries, p[0]) {
                lemma_entry_for_put(m.entries, EntryModel::Folder(empty_folder_model(p[0])), q[0]);
            }
            let j = index_of_name(entries, p[0]);
            if let EntryModel::Folder(sub) = entries[j] {
                lemma_entry_for_update(entries, j, EntryModel::Folder(add_folder_model(sub, p.drop_first())), q[0]);
            }
        }
        lemma_lookup_by_entry(a, m, q);
    } else {
        lemma_paths_part_rest(p, q);
        lemma_entries_with_way(m.entries, p[0]);
        let entries = entries_with_way(m.entries, p[0]);
        let j = index_of_name(entries, p[0]);
        if let EntryModel::Folder(sub) = entries[j] {
            if has_entry_named(m.entries, p[0]) {
                assert(model_wf(sub));
            }
            let new_sub = add_folder_model(sub, p.drop_first());
            lemma_update_same_name(entries, j, EntryModel::Folder(new_sub));
            law_add_folder_keeps_other_entries(sub, p.drop_first(), q.drop_first());
        }
    }
}

/// Removing the entry at `p` leaves every entry off its path as it was: a
/// path that parts from `p` leads where it led before.
pub proof fn law_delete_keeps_other_entries(m: FolderModel, p: Seq<Seq<char>>, q: Seq<Seq<char>>)
    requires
        model_wf(m),
        paths_part(p, q),
    ensures
        lookup_model(delete_model(m, p), q) == lookup_model(m, q),
    decreases q.len(),
{
    assert(p.len() >= 1 && q.len() >= 1) by {
        if p.len() == 0 {
            assert(q.take(0) =~= p);
        }
        if q.len() == 0 {
            assert(p.take(0) =~= q);
        }
    }
    if has_entry_named(m.entries, p[0]) {
        let d = delete_model(m, p);
        let i = index_of_name(m.entries, p[0]);
        assert(model_name(m.entries[i]) == p[0]);
        if p[0] != q[0] {
            if p.len() == 1 {
                lemma_entry_for_remove(m.entries, i, q[0]);
            } else if let EntryModel::Folder(sub) = m.entries[i] {
                lemma_entry_for_update(m.entries, i, EntryModel::Folder(delete_model(sub, p.drop_first())), q[0]);
            }
            lemma_lookup_by_entry(d, m, q);
        } else {
            lemma_paths_part_rest(p, q);
            if let EntryModel::Folder(sub) = m.entries[i] {
                assert(model_wf(sub));
                let new_sub = delete_model(sub, p.drop_first());
                lemma_update_same_name(m.entries, i, EntryModel::Folder(new_sub));
                law_delete_keeps_other_entries(sub, p.drop_first(), q.drop_first());
            }
        }
    }
}


/// The folder `before` was, still a folder of the same name in `after`,
/// with `count` descendants and `size` of space fewer.
pub open spec fn folder_shrunk(before: Option<EntryModel>, after: Option<EntryModel>, count: int, size: int) -> bool {
    match (before, after) {
        (Some(EntryModel::Folder(f)), Some(EntryModel::Folder(g))) => {
            &&& g.name == f.name
            &&& g.num_descendants == f.num_descendants - count
            &&& g.size == f.size - size
        },
        _ => false,
    }
}

/// Removing the entry at `p`, at any depth, takes the same descendant
/// count and size off the folder and off every folder on the way to the
/// entry: a removed folder's recorded count (one for a file) and its
/// recorded size.
pub proof fn law_delete_takes_counts_off_the_way(m: FolderModel, p: Seq<Seq<char>>)
    requires
        model_wf(m),
        delete_ok(m, p),
    ensures
        ({
            let removed = lookup_model(m, p)->0;
            let count: int = match removed {
                EntryModel::Folder(f) => f.num_descendants as int,
                EntryModel::File(_) => 1,
            };
            let size: int = match removed {
                EntryModel::Folder(f) => f.size as int,
                EntryModel::File(f) => f.size as int,
            };
            &&& delete_model(m, p).num_descendants == m.num_descendants - count
            &&& delete_model(m, p).size == m.size - size
            &&& forall|k: int| 1 <= k < p.len() ==> folder_shrunk(
                #[trigger] lookup_model(m, p.take(k)),
                lookup_model(delete_model(m, p), p.take(k)),
                count,
                size,
            )
        }),
    decreases p.len(),
{
    let i = index_of_name(m.entries, p[0]);
    assert(model_name(m.entries[i]) == p[0]);
    if p.len() > 1 {
        let sub = m.entries[i]->Folder_0;
        assert(model_wf(sub));
        let rest = p.drop_first();
        law_delete_takes_counts_off_the_way(sub, rest);
        let new_sub = delete_model(sub, rest);
        lemma_update_same_name(m.entries, i, EntryModel::Folder(new_sub));
        let r = delete_model(m, p);
        assert(lookup_model(m, p) == lookup_model(sub, rest));
        assert forall|k: int| 1 <= k < p.len() implies folder_shrunk(
            #[trigger] lookup_model(m, p.take(k)),
            lookup_model(r, p.take(k)),
            match lookup_model(m, p)->0 {
                EntryModel::Folder(f) => f.num_descendants as int,
                EntryModel::File(_) => 1,
            },
            match lookup_model(m, p)->0 {
                EntryModel::Folder(f) => f.size as int,
                EntryModel::File(f) => f.size as int,
            },
        ) by {
            let q = p.take(k);
            assert(q[0] == p[0]);
            assert(has_entry_named(r.entries, p[0]));
            assert(r.entries[index_of_name(r.entries, p[0])] == EntryModel::Folder(new_sub));
            if k == 1 {
                assert(q.len() == 1);
                assert(lookup_model(m, q) == Some(EntryModel::Folder(sub)));
                assert(lookup_model(r, q) == Some(EntryModel::Folder(new_sub)));
                assert(new_sub.name == sub.name);
            } else {
                assert(q.drop_first() =~= rest.take(k - 1));
                assert(lookup_model(m, q) == lookup_model(sub, rest.take(k - 1)));
                assert(lookup_model(r, q) == lookup_model(new_sub, rest.take(k - 1)));
            }
        }
    }
}

} // verus!
