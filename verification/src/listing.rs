use vstd::prelude::*;
use crate::file_tree::FileType;
use crate::files::{EntryModel, FileOrFolder, Folder, entry_model, lemma_folder_model_entries, model_name, model_names_unique, model_wf};

verus! {

/// The part of its folder an entry takes: `numerator / denominator`.
#[derive(Clone, Copy, Debug, PartialEq, Eq, Structural)]
pub struct Share {
    pub numerator: u64,
    pub denominator: u64,
}

/// What the tiles show of an entry of the current folder.
#[derive(Clone, Debug)]
pub struct FileMetadata {
    pub name: String,
    pub size: u64,
    pub descendants: Option<u64>,
    pub percentage: Share,
    pub file_type: FileType,
}

/// Strict lexicographic order of names, character by character.
pub open spec fn name_lt(a: Seq<char>, b: Seq<char>) -> bool
    decreases a.len(),
{
    if a.len() == 0 {
        b.len() > 0
    } else if b.len() == 0 {
        false
    } else if a[0] != b[0] {
        (a[0] as int) < (b[0] as int)
    } else {
        name_lt(a.drop_first(), b.drop_first())
    }
}

/// Larger entries come first; entries of equal size come in the order of
/// their names.
pub open spec fn comes_before(a: FileMetadata, b: FileMetadata) -> bool {
    a.size > b.size || (a.size == b.size && name_lt(a.name@, b.name@))
}

/// The share of a folder of `total` bytes and `count` entries that an entry
/// of `size` takes: every entry takes an equal share when all are empty.
pub open spec fn share_of(size: nat, total: nat, count: nat, equal_when_empty: bool) -> Share {
    if equal_when_empty && size == 0 && total == 0 {
        Share { numerator: 1, denominator: count as u64 }
    } else {
        Share { numerator: size as u64, denominator: total as u64 }
    }
}

/// `m` describes entry `e` of a folder of `total` bytes and `count` entries.
#[verifier::opaque]
pub open spec fn describes(m: FileMetadata, e: EntryModel, total: nat, count: nat, equal_when_empty: bool) -> bool {
    &&& m.name@ == model_name(e)
    &&& match e {
        EntryModel::Folder(f) => {
            &&& m.size == f.size
            &&& m.descendants == Some(f.num_descendants as u64)
            &&& m.file_type == FileType::Folder
            &&& m.percentage == share_of(f.size, total, count, equal_when_empty)
        },
        EntryModel::File(f) => {
            &&& m.size == f.size
            &&& m.descendants is None
            &&& m.file_type == FileType::File
            &&& m.percentage == share_of(f.size, total, count, equal_when_empty)
        },
    }
}

/// Each description of `r` describes one of the first `n` entries.
#[verifier::opaque]
pub open spec fn describes_some(r: Seq<FileMetadata>, entries: Seq<EntryModel>, n: int, total: nat, count: nat, equal_when_empty: bool) -> bool {
    forall|a: int| 0 <= a < r.len() ==> exists|k: int| 0 <= k < n
        && describes(#[trigger] r[a], entries[k], total, count, equal_when_empty)
}

/// Each of the first `n` entries is described in `r`.
#[verifier::opaque]
pub open spec fn describes_all(r: Seq<FileMetadata>, entries: Seq<EntryModel>, n: int, total: nat, count: nat, equal_when_empty: bool) -> bool {
    forall|k: int| 0 <= k < n ==> exists|a: int| 0 <= a < r.len()
        && describes(r[a], #[trigger] entries[k], total, count, equal_when_empty)
}

/// `r` lists one description for each entry of `entries`, ordered by
/// `comes_before`.
pub open spec fn sorted_listing(
    r: Seq<FileMetadata>,
    entries: Seq<EntryModel>,
    total: nat,
    equal_when_empty: bool,
) -> bool {
    &&& r.len() == entries.len()
    &&& forall|i: int, j: int| 0 <= i < j < r.len() ==> comes_before(#[trigger] r[i], #[trigger] r[j])
    &&& describes_some(r, entries, entries.len() as int, total, entries.len(), equal_when_empty)
    &&& describes_all(r, entries, entries.len() as int, total, entries.len(), equal_when_empty)
}

pub proof fn lemma_name_lt_irreflexive(a: Seq<char>)
    ensures
        !name_lt(a, a),
    decreases a.len(),
{
    if a.len() > 0 {
        lemma_name_lt_irreflexive(a.drop_first());
    }
}

pub proof fn lemma_name_lt_total(a: Seq<char>, b: Seq<char>)
    ensures
        a == b || name_lt(a, b) || name_lt(b, a),
    decreases a.len(),
{
    if a.len() > 0 && b.len() > 0 && a[0] == b[0] {
        lemma_name_lt_total(a.drop_first(), b.drop_first());
        if a.drop_first() == b.drop_first() {
            assert(a =~= seq![a[0]] + a.drop_first());
            assert(b =~= seq![b[0]] + b.drop_first());
        }
    } else if a.len() == 0 && b.len() == 0 {
        assert(a =~= b);
    } else if a.len() > 0 && b.len() > 0 {
        lemma_char_as_int_injective(a[0], b[0]);
    }
}

pub proof fn lemma_char_as_int_injective(a: char, b: char)
    requires
        a != b,
    ensures
        (a as int) != (b as int),
{
}

pub proof fn lemma_name_lt_transitive(a: Seq<char>, b: Seq<char>, c: Seq<char>)
    requires
        name_lt(a, b),
        name_lt(b, c),
    ensures
        name_lt(a, c),
    decreases a.len(),
{
    if a.len() > 0 && b.len() > 0 && c.len() > 0 && a[0] == b[0] && b[0] == c[0] {
        lemma_name_lt_transitive(a.drop_first(), b.drop_first(), c.drop_first());
    }
}

pub proof fn lemma_name_lt_asymmetric(a: Seq<char>, b: Seq<char>)
    requires
        name_lt(a, b),
    ensures
        !name_lt(b, a),
{
    if name_lt(b, a) {
        lemma_name_lt_transitive(a, b, a);
        lemma_name_lt_irreflexive(a);
    }
}

/// Two descriptions that show the same thing.
pub open spec fn same_metadata(a: FileMetadata, b: FileMetadata) -> bool {
    &&& a.name@ == b.name@
    &&& a.size == b.size
    &&& a.descendants == b.descendants
    &&& a.percentage == b.percentage
    &&& a.file_type == b.file_type
}

proof fn lemma_describes_same(m1: FileMetadata, m2: FileMetadata, e: EntryModel, total: nat, count: nat, equal_when_empty: bool)
    requires
        describes(m1, e, total, count, equal_when_empty),
        describes(m2, e, total, count, equal_when_empty),
    ensures
        same_metadata(m1, m2),
{
    reveal(describes);
}

/// Entry `i` of `r1` is shown at index `a` of `r2`, which is at `i` or
/// after it once the first `i` descriptions agree.
proof fn lemma_shown_in_other(
    r1: Seq<FileMetadata>,
    r2: Seq<FileMetadata>,
    e1: Seq<EntryModel>,
    e2: Seq<EntryModel>,
    total: nat,
    equal_when_empty: bool,
    i: int,
) -> (a: int)
    requires
        e1.to_multiset() == e2.to_multiset(),
        sorted_listing(r1, e1, total, equal_when_empty),
        sorted_listing(r2, e2, total, equal_when_empty),
        0 <= i < r1.len(),
        forall|b: int| 0 <= b < i ==> same_metadata(#[trigger] r1[b], r2[b]),
    ensures
        i <= a < r2.len(),
        same_metadata(r1[i], r2[a]),
{
    let n = e1.len();
    e1.to_multiset_ensures();
    e2.to_multiset_ensures();
    assert(exists|k: int| 0 <= k < n && describes(r1[i], e1[k], total, n, equal_when_empty)) by {
        reveal(describes_some);
    }
    let k = choose|k: int| 0 <= k < n && describes(r1[i], e1[k], total, n, equal_when_empty);
    assert(e1.contains(e1[k]));
    assert(e1.to_multiset().count(e1[k]) > 0);
    assert(e2.to_multiset().count(e1[k]) > 0);
    assert(e2.contains(e1[k]));
    let j = choose|j: int| 0 <= j < e2.len() && e2[j] == e1[k];
    assert(exists|a: int| 0 <= a < r2.len() && describes(r2[a], e2[j], total, n, equal_when_empty)) by {
        reveal(describes_all);
    }
    let a = choose|a: int| 0 <= a < r2.len() && describes(r2[a], e2[j], total, n, equal_when_empty);
    lemma_describes_same(r1[i], r2[a], e1[k], total, n, equal_when_empty);
    if a < i {
        assert(same_metadata(r1[a], r2[a]));
        assert(comes_before(r1[a], r1[i]));
        lemma_name_lt_irreflexive(r1[i].name@);
    }
    a
}

proof fn lemma_listings_agree_below(
    r1: Seq<FileMetadata>,
    r2: Seq<FileMetadata>,
    e1: Seq<EntryModel>,
    e2: Seq<EntryModel>,
    total: nat,
    equal_when_empty: bool,
    n: int,
)
    requires
        e1.to_multiset() == e2.to_multiset(),
        sorted_listing(r1, e1, total, equal_when_empty),
        sorted_listing(r2, e2, total, equal_when_empty),
        0 <= n <= r1.len(),
    ensures
        forall|b: int| 0 <= b < n ==> same_metadata(#[trigger] r1[b], r2[b]),
    decreases n,
{
    if n > 0 {
        let i = n - 1;
        lemma_listings_agree_below(r1, r2, e1, e2, total, equal_when_empty, i);
        let a = lemma_shown_in_other(r1, r2, e1, e2, total, equal_when_empty, i);
        assert forall|b: int| 0 <= b < i implies same_metadata(#[trigger] r2[b], r1[b]) by {
            assert(same_metadata(r1[b], r2[b]));
        }
        let c = lemma_shown_in_other(r2, r1, e2, e1, total, equal_when_empty, i);
        if a != i && c != i {
            assert(comes_before(r2[i], r2[a]));
            assert(comes_before(r1[i], r1[c]));
            if r1[i].size == r2[i].size {
                lemma_name_lt_asymmetric(r1[i].name@, r2[i].name@);
            }
        }
    }
}

/// Listing a folder does not depend on the order in which it holds its
/// entries: two ordered listings of the same entries, in whatever order,
/// show the same thing, description by description.
pub proof fn law_listing_is_determined(
    r1: Seq<FileMetadata>,
    r2: Seq<FileMetadata>,
    e1: Seq<EntryModel>,
    e2: Seq<EntryModel>,
    total: nat,
    equal_when_empty: bool,
)
    requires
        e1.to_multiset() == e2.to_multiset(),
        sorted_listing(r1, e1, total, equal_when_empty),
        sorted_listing(r2, e2, total, equal_when_empty),
    ensures
        r1.len() == r2.len(),
        forall|i: int| 0 <= i < r1.len() ==> same_metadata(#[trigger] r1[i], r2[i]),
{
    e1.to_multiset_ensures();
    e2.to_multiset_ensures();
    lemma_listings_agree_below(r1, r2, e1, e2, total, equal_when_empty, r1.len() as int);
}

/// Compares two names character by character.
pub fn name_less_than(a: &String, b: &String) -> (r: bool)
    ensures
        r == name_lt(a@, b@),
{
    let a_str = a.as_str();
    let b_str = b.as_str();
    let a_len = a_str.unicode_len();
    let b_len = b_str.unicode_len();
    let mut i: usize = 0;
    assert(a@.subrange(0, a@.len() as int) =~= a@);
    assert(b@.subrange(0, b@.len() as int) =~= b@);
    while i < a_len && i < b_len
        invariant
            a_len == a@.len(),
            b_len == b@.len(),
            a_str@ == a@,
            b_str@ == b@,
            i <= a_len,
            i <= b_len,
            name_lt(a@, b@) == name_lt(a@.subrange(i as int, a@.len() as int), b@.subrange(i as int, b@.len() as int)),
        decreases a_len - i,
    {
        let ca = a_str.get_char(i);
        let cb = b_str.get_char(i);
        let ghost sa = a@.subrange(i as int, a@.len() as int);
        let ghost sb = b@.subrange(i as int, b@.len() as int);
        assert(sa[0] == ca && sb[0] == cb);
        if ca != cb {
            return ca < cb;
        }
        assert(sa.drop_first() =~= a@.subrange(i as int + 1, a@.len() as int));
        assert(sb.drop_first() =~= b@.subrange(i as int + 1, b@.len() as int));
        i = i + 1;
    }
    i == a_len && i < b_len
}

/// The description of an entry.
fn describe(e: &FileOrFolder, total: u64, count: u64, equal_when_empty: bool) -> (r: FileMetadata)
    ensures
        describes(r, entry_model(*e), total as nat, count as nat, equal_when_empty),
{
    reveal(describes);
    let size = e.size();
    let percentage = if equal_when_empty && size == 0 && total == 0 {
        Share { numerator: 1, denominator: count }
    } else {
        Share { numerator: size, denominator: total }
    };
    match e {
        FileOrFolder::Folder(folder) => FileMetadata {
            name: folder.name.clone(),
            size,
            descendants: Some(folder.num_descendants),
            percentage,
            file_type: FileType::Folder,
        },
        FileOrFolder::File(file) => FileMetadata {
            name: file.name.clone(),
            size,
            descendants: None,
            percentage,
            file_type: FileType::File,
        },
    }
}

fn describe_folder(folder: &Folder, equal_when_empty: bool) -> (r: Vec<FileMetadata>)
    requires
        model_wf(folder@),
    ensures
        sorted_listing(r@, folder@.entries, folder@.size, equal_when_empty),
{
    let ghost entries = folder@.entries;
    proof {
        lemma_folder_model_entries(*folder);
    }
    let total = folder.size;
    let count = folder.contents.len() as u64;
    let mut r: Vec<FileMetadata> = Vec::new();
    let mut i: usize = 0;
    proof {
        reveal(describes_some);
        reveal(describes_all);
    }
    while i < folder.contents.len()
        invariant
            i <= folder.contents@.len(),
            entries == folder@.entries,
            entries == folder.contents@.map_values(|e: FileOrFolder| entry_model(e)),
            model_names_unique(entries),
            total == folder@.size,
            count == entries.len(),
            r@.len() == i,
            forall|a: int, b: int| 0 <= a < b < r@.len() ==> comes_before(#[trigger] r@[a], #[trigger] r@[b]),
            describes_some(r@, entries, i as int, total as nat, count as nat, equal_when_empty),
            describes_all(r@, entries, i as int, total as nat, count as nat, equal_when_empty),
        decreases folder.contents@.len() - i,
    {
        let entry = &folder.contents[i];
        assert(entries[i as int] == entry_model(*entry));
        let m = describe(entry, total, count, equal_when_empty);
        proof {
            reveal(describes_some);
            assert forall|a: int| 0 <= a < r@.len() implies #[trigger] r@[a].name@ != m.name@ by {
                let k = choose|k: int| 0 <= k < i && describes(r@[a], entries[k], total as nat, count as nat, equal_when_empty);
                lemma_describes_name(r@[a], entries[k], total as nat, count as nat, equal_when_empty);
                lemma_describes_name(m, entries[i as int], total as nat, count as nat, equal_when_empty);
                assert(model_name(entries[k]) != model_name(entries[i as int]));
            }
        }
        let ghost before = r@;
        let p = insert_in_order(&mut r, m);
        proof {
            lemma_insert_keeps_described(before, p as int, m, entries, i as int, total as nat, count as nat, equal_when_empty);
            lemma_insert_keeps_complete(before, p as int, m, entries, i as int, total as nat, count as nat, equal_when_empty);
        }
        i = i + 1;
    }
    r
}

/// Inserting `m` where the order puts it keeps the listing ordered.
proof fn lemma_insert_keeps_order(before: Seq<FileMetadata>, p: int, m: FileMetadata)
    requires
        0 <= p <= before.len(),
        forall|a: int, b: int| 0 <= a < b < before.len() ==> comes_before(#[trigger] before[a], #[trigger] before[b]),
        forall|a: int| 0 <= a < p ==> comes_before(#[trigger] before[a], m),
        forall|a: int| p <= a < before.len() ==> comes_before(m, #[trigger] before[a]),
    ensures
        forall|a: int, b: int| 0 <= a < b < before.insert(p, m).len() ==> comes_before(
            #[trigger] before.insert(p, m)[a],
            #[trigger] before.insert(p, m)[b],
        ),
{
    let r = before.insert(p, m);
    assert forall|a: int, b: int| 0 <= a < b < r.len() implies comes_before(#[trigger] r[a], #[trigger] r[b]) by {
        if a < p && b < p {
            assert(r[a] == before[a] && r[b] == before[b]);
        } else if a < p && b == p {
            assert(r[a] == before[a] && r[b] == m);
        } else if a < p && b > p {
            assert(r[a] == before[a] && r[b] == before[b - 1]);
            assert(comes_before(before[a], m));
            assert(comes_before(m, before[b - 1]));
            if before[a].size == m.size && m.size == before[b - 1].size {
                lemma_name_lt_transitive(before[a].name@, m.name@, before[b - 1].name@);
            }
        } else if a == p {
            assert(r[a] == m && r[b] == before[b - 1]);
        } else {
            assert(r[a] == before[a - 1] && r[b] == before[b - 1]);
        }
    }
}

/// After inserting the description of entry `i`, each listed description
/// describes one of the first `i + 1` entries.
proof fn lemma_insert_keeps_described(
    before: Seq<FileMetadata>,
    p: int,
    m: FileMetadata,
    entries: Seq<EntryModel>,
    i: int,
    total: nat,
    count: nat,
    equal_when_empty: bool,
)
    requires
        0 <= p <= before.len(),
        0 <= i < entries.len(),
        describes(m, entries[i], total, count, equal_when_empty),
        describes_some(before, entries, i, total, count, equal_when_empty),
    ensures
        describes_some(before.insert(p, m), entries, i + 1, total, count, equal_when_empty),
{
    reveal(describes_some);
    let r = before.insert(p, m);
    assert forall|a: int| 0 <= a < r.len() implies exists|k: int| 0 <= k < i + 1
        && describes(#[trigger] r[a], entries[k], total, count, equal_when_empty) by {
        if a < p {
            assert(r[a] == before[a]);
            let k = choose|k: int| 0 <= k < i && describes(before[a], entries[k], total, count, equal_when_empty);
            assert(0 <= k < i + 1 && describes(r[a], entries[k], total, count, equal_when_empty));
        } else if a == p {
            assert(r[a] == m);
            assert(describes(r[a], entries[i], total, count, equal_when_empty));
        } else {
            assert(r[a] == before[a - 1]);
            let k = choose|k: int| 0 <= k < i && describes(before[a - 1], entries[k], total, count, equal_when_empty);
            assert(0 <= k < i + 1 && describes(r[a], entries[k], total, count, equal_when_empty));
        }
    }
}

/// After inserting the description of entry `i`, each of the first `i + 1`
/// entries is described in the listing.
proof fn lemma_insert_keeps_complete(
    before: Seq<FileMetadata>,
    p: int,
    m: FileMetadata,
    entries: Seq<EntryModel>,
    i: int,
    total: nat,
    count: nat,
    equal_when_empty: bool,
)
    requires
        0 <= p <= before.len(),
        0 <= i < entries.len(),
        describes(m, entries[i], total, count, equal_when_empty),
        describes_all(before, entries, i, total, count, equal_when_empty),
    ensures
        describes_all(before.insert(p, m), entries, i + 1, total, count, equal_when_empty),
{
    reveal(describes_all);
    let r = before.insert(p, m);
    assert forall|k: int| 0 <= k < i + 1 implies exists|a: int| 0 <= a < r.len()
        && describes(r[a], #[trigger] entries[k], total, count, equal_when_empty) by {
        if k == i {
            assert(r[p] == m);
        } else {
            let a0 = choose|a0: int| 0 <= a0 < before.len() && describes(before[a0], entries[k], total, count, equal_when_empty);
            if a0 < p {
                assert(r[a0] == before[a0]);
            } else {
                assert(r[a0 + 1] == before[a0]);
            }
        }
    }
}

pub proof fn lemma_describes_name(m: FileMetadata, e: EntryModel, total: nat, count: nat, equal_when_empty: bool)
    requires
        describes(m, e, total, count, equal_when_empty),
    ensures
        m.name@ == model_name(e),
{
    reveal(describes);
}

/// Inserts `m` into an ordered listing where the order puts it.
fn insert_in_order(r: &mut Vec<FileMetadata>, m: FileMetadata) -> (p: usize)
    requires
        forall|a: int, b: int| 0 <= a < b < old(r)@.len() ==> comes_before(#[trigger] old(r)@[a], #[trigger] old(r)@[b]),
        forall|a: int| 0 <= a < old(r)@.len() ==> #[trigger] old(r)@[a].name@ != m.name@,
    ensures
        p <= old(r)@.len(),
        final(r)@ == old(r)@.insert(p as int, m),
        forall|a: int, b: int| 0 <= a < b < final(r)@.len() ==> comes_before(#[trigger] final(r)@[a], #[trigger] final(r)@[b]),
{
    let mut p: usize = 0;
    while p < r.len() && !comes_before_exec(&m, &r[p])
        invariant
            p <= r@.len(),
            forall|a: int| 0 <= a < p ==> !comes_before(m, #[trigger] r@[a]),
        decreases r@.len() - p,
    {
        p = p + 1;
    }
    proof {
        assert forall|a: int| 0 <= a < p implies comes_before(#[trigger] r@[a], m) by {
            lemma_name_lt_total(r@[a].name@, m.name@);
        }
        assert forall|a: int| p <= a < r@.len() implies comes_before(m, #[trigger] r@[a]) by {
            if a > p as int {
                assert(comes_before(r@[p as int], r@[a]));
                if m.size == r@[p as int].size && r@[p as int].size == r@[a].size {
                    lemma_name_lt_transitive(m.name@, r@[p as int].name@, r@[a].name@);
                }
            }
        }
        lemma_insert_keeps_order(r@, p as int, m);
    }
    r.insert(p, m);
    p
}

fn comes_before_exec(a: &FileMetadata, b: &FileMetadata) -> (r: bool)
    ensures
        r == comes_before(*a, *b),
{
    a.size > b.size || (a.size == b.size && name_less_than(&a.name, &b.name))
}

/// Describes the entries of `folder`, largest first and by name among
/// equals; each takes `size / folder size` of it, or an equal share when
/// the folder and the entry are empty.
pub fn files_in_folder(folder: &Folder) -> (r: Vec<FileMetadata>)
    requires
        folder.wf(),
    ensures
        sorted_listing(r@, folder@.entries, folder@.size, true),
{
    describe_folder(folder, true)
}

/// Describes the entries of `folder`, largest first and by name among
/// equals; each takes `size / folder size` of it.
pub fn calculate_utilization(folder: &Folder) -> (r: Vec<FileMetadata>)
    requires
        folder.wf(),
        folder@.size > 0 || folder@.entries.len() <= 1,
    ensures
        sorted_listing(r@, folder@.entries, folder@.size, false),
{
    describe_folder(folder, false)
}

} // verus!
