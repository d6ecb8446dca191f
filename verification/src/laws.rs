//! Laws of the builder: what a built snapshot contains and how it is laid
//! out.
//!
//! Each public proof function here states one property of [`built_dir`]
//! (the specification the executable builder is proved against), so the
//! properties hold of every snapshot the builder returns.

use vstd::prelude::*;

use crate::builder::built_dir;
use crate::builder::built_entries;
use crate::builder::built_entry;
use crate::builder::entry_key_le;
use crate::builder::mapped_entries;
use crate::builder::sort_entries;
use crate::builder::sorted_insert;
use crate::order::lemma_lex_le_total;
use crate::order::lemma_lex_le_transitive;
use crate::raw::RawEntry;
use crate::raw::RawEntryModel;
use crate::raw::RawNodeModel;
use crate::raw::raw_entries_model;
use crate::raw::child_path;
use crate::raw::count_files_entries;
use crate::raw::count_files_entry;
use crate::raw::raw_files_entries;
use crate::raw::raw_files_entry;
use crate::raw::strip_others_entries;
use crate::raw::strip_others_entry;
use crate::tree::DirModel;
use crate::tree::EntryModel;
use crate::tree::FileModel;
use crate::tree::entry_model_path;
use crate::tree::flat_dir;
use crate::tree::flat_entries;
use crate::tree::flat_entry;

verus! {

use vstd::multiset::Multiset;
use vstd::seq_lib::lemma_multiset_commutative;
use vstd::utf8::encode_utf8;

/// Flattening distributes over concatenation of entry sequences.
proof fn lemma_flat_entries_concat(a: Seq<EntryModel>, b: Seq<EntryModel>)
    ensures
        flat_entries(a + b) == flat_entries(a) + flat_entries(b),
    decreases a.len(),
{
    if a.len() == 0 {
        assert(a + b =~= b);
        assert(flat_entries(a) + flat_entries(b) =~= flat_entries(b));
    } else {
        lemma_flat_entries_concat(a.drop_first(), b);
        assert((a + b).drop_first() =~= a.drop_first() + b);
        assert((a + b)[0] == a[0]);
        assert(flat_entry(a[0]) + (flat_entries(a.drop_first()) + flat_entries(b)) =~= (flat_entry(
            a[0],
        ) + flat_entries(a.drop_first())) + flat_entries(b));
    }
}

/// Flattening a single entry is flattening the sequence that holds it.
proof fn lemma_flat_single(x: EntryModel)
    ensures
        flat_entries(seq![x]) == flat_entry(x),
{
    assert(seq![x].drop_first() =~= Seq::<EntryModel>::empty());
    assert(flat_entries(Seq::<EntryModel>::empty()) =~= Seq::<FileModel>::empty());
    assert(seq![x][0] == x);
    assert(flat_entries(seq![x]) =~= flat_entry(x) + Seq::<FileModel>::empty());
    assert(flat_entry(x) + Seq::<FileModel>::empty() =~= flat_entry(x));
}

/// Inserting into a sorted sequence adds exactly one element to the bag.
proof fn lemma_sorted_insert_multiset(x: EntryModel, s: Seq<EntryModel>)
    ensures
        sorted_insert(x, s).to_multiset() == s.to_multiset().insert(x),
    decreases s.len(),
{
    broadcast use vstd::seq_lib::group_to_multiset_ensures;

    if s.len() == 0 {
        assert(seq![x] =~= Seq::<EntryModel>::empty().push(x));
        assert(sorted_insert(x, s).to_multiset() =~= s.to_multiset().insert(x));
    } else if entry_key_le(s.last(), x) {
        assert(s.push(x).to_multiset() =~= s.to_multiset().insert(x));
    } else {
        lemma_sorted_insert_multiset(x, s.drop_last());
        assert(s =~= s.drop_last().push(s.last()));
        assert(s.to_multiset() =~= s.drop_last().to_multiset().insert(s.last()));
        assert(sorted_insert(x, s).to_multiset() =~= sorted_insert(
            x,
            s.drop_last(),
        ).to_multiset().insert(s.last()));
        assert(s.drop_last().to_multiset().insert(x).insert(s.last())
            =~= s.drop_last().to_multiset().insert(s.last()).insert(x));
        assert(sorted_insert(x, s).to_multiset() =~= s.to_multiset().insert(x));
    }
}

/// Sorting keeps exactly the same entries.
pub proof fn lemma_sort_entries_multiset(s: Seq<EntryModel>)
    ensures
        sort_entries(s).to_multiset() == s.to_multiset(),
    decreases s.len(),
{
    broadcast use vstd::seq_lib::group_to_multiset_ensures;

    if s.len() > 0 {
        lemma_sort_entries_multiset(s.drop_last());
        lemma_sorted_insert_multiset(s.last(), sort_entries(s.drop_last()));
        assert(s =~= s.drop_last().push(s.last()));
        assert(s.to_multiset() =~= s.drop_last().to_multiset().insert(s.last()));
    }
}

/// The files reachable from a sorted sequence are the files reachable from
/// the sequence: sorting a directory's children loses and invents nothing.
proof fn lemma_flat_sorted_insert_multiset(x: EntryModel, s: Seq<EntryModel>)
    ensures
        flat_entries(sorted_insert(x, s)).to_multiset() == flat_entry(x).to_multiset().add(
            flat_entries(s).to_multiset(),
        ),
    decreases s.len(),
{
    broadcast use vstd::seq_lib::group_to_multiset_ensures;
    broadcast use vstd::multiset::group_multiset_axioms;

    if s.len() == 0 {
        lemma_flat_single(x);
        assert(flat_entries(s) =~= Seq::<FileModel>::empty());
        assert(flat_entries(s).to_multiset() =~= Multiset::<FileModel>::empty());
        assert(flat_entries(sorted_insert(x, s)).to_multiset() =~= flat_entry(
            x,
        ).to_multiset().add(flat_entries(s).to_multiset()));
    } else if entry_key_le(s.last(), x) {
        assert(s.push(x) =~= s + seq![x]);
        lemma_flat_entries_concat(s, seq![x]);
        lemma_flat_single(x);
        lemma_multiset_commutative(flat_entries(s), flat_entries(seq![x]));
        assert(flat_entries(sorted_insert(x, s)).to_multiset() =~= flat_entry(
            x,
        ).to_multiset().add(flat_entries(s).to_multiset()));
    } else {
        let inner = sorted_insert(x, s.drop_last());
        lemma_flat_sorted_insert_multiset(x, s.drop_last());
        assert(inner.push(s.last()) =~= inner + seq![s.last()]);
        lemma_flat_entries_concat(inner, seq![s.last()]);
        lemma_flat_single(s.last());
        lemma_multiset_commutative(flat_entries(inner), flat_entries(seq![s.last()]));
        assert(s =~= s.drop_last() + seq![s.last()]);
        lemma_flat_entries_concat(s.drop_last(), seq![s.last()]);
        lemma_multiset_commutative(flat_entries(s.drop_last()), flat_entries(seq![s.last()]));
        assert(flat_entries(sorted_insert(x, s)).to_multiset() =~= flat_entry(
            x,
        ).to_multiset().add(flat_entries(s).to_multiset()));
    }
}

/// As above, for a whole sort.
proof fn lemma_flat_sort_multiset(s: Seq<EntryModel>)
    ensures
        flat_entries(sort_entries(s)).to_multiset() == flat_entries(s).to_multiset(),
    decreases s.len(),
{
    broadcast use vstd::seq_lib::group_to_multiset_ensures;
    broadcast use vstd::multiset::group_multiset_axioms;

    if s.len() > 0 {
        lemma_flat_sort_multiset(s.drop_last());
        lemma_flat_sorted_insert_multiset(s.last(), sort_entries(s.drop_last()));
        assert(s =~= s.drop_last() + seq![s.last()]);
        lemma_flat_entries_concat(s.drop_last(), seq![s.last()]);
        lemma_flat_single(s.last());
        lemma_multiset_commutative(flat_entries(s.drop_last()), flat_entries(seq![s.last()]));
        assert(flat_entries(sort_entries(s)).to_multiset() =~= flat_entries(s).to_multiset());
    }
}

/// The files reachable from what one raw entry builds are exactly the raw
/// entry's regular files.
proof fn lemma_built_entry_files(parent: Seq<char>, e: RawEntryModel)
    ensures
        flat_entries(built_entry(parent, e)).to_multiset() == raw_files_entry(parent, e),
    decreases e, 2int,
{
    broadcast use vstd::seq_lib::group_to_multiset_ensures;
    broadcast use vstd::multiset::group_multiset_axioms;

    match e.node {
        RawNodeModel::Other => {
            assert(flat_entries(built_entry(parent, e)) =~= Seq::<FileModel>::empty());
            assert(flat_entries(built_entry(parent, e)).to_multiset() =~= raw_files_entry(
                parent,
                e,
            ));
        },
        RawNodeModel::File { content, metadata } => {
            let fm = FileModel { path: child_path(parent, e.name), content, metadata };
            let em = EntryModel::File(fm);
            lemma_flat_single(em);
            assert(built_entry(parent, e) == seq![em]);
            assert(flat_entry(em) =~= seq![fm]);
            assert(seq![fm] =~= Seq::<FileModel>::empty().push(fm));
            assert(flat_entries(built_entry(parent, e)).to_multiset() =~= raw_files_entry(
                parent,
                e,
            ));
        },
        RawNodeModel::Dir { entries } => {
            let cp = child_path(parent, e.name);
            lemma_built_entries_files(cp, entries);
            let dm = DirModel { path: cp, children: built_entries(cp, entries) };
            let em = EntryModel::Dir(dm);
            lemma_flat_single(em);
            assert(built_entry(parent, e) == seq![em]);
            assert(flat_entry(em) == flat_entries(built_entries(cp, entries)));
        },
    }
}

/// The files reachable from a mapped listing are exactly the listing's
/// regular files.
proof fn lemma_mapped_entries_files(parent: Seq<char>, s: Seq<RawEntryModel>)
    ensures
        flat_entries(mapped_entries(parent, s)).to_multiset() == raw_files_entries(parent, s),
    decreases s, 0int,
{
    broadcast use vstd::seq_lib::group_to_multiset_ensures;
    broadcast use vstd::multiset::group_multiset_axioms;

    if s.len() == 0 {
        assert(flat_entries(mapped_entries(parent, s)) =~= Seq::<FileModel>::empty());
        assert(flat_entries(mapped_entries(parent, s)).to_multiset() =~= raw_files_entries(
            parent,
            s,
        ));
    } else {
        lemma_built_entry_files(parent, s[0]);
        lemma_mapped_entries_files(parent, s.drop_first());
        lemma_flat_entries_concat(built_entry(parent, s[0]), mapped_entries(parent, s.drop_first()));
        lemma_multiset_commutative(
            flat_entries(built_entry(parent, s[0])),
            flat_entries(mapped_entries(parent, s.drop_first())),
        );
    }
}

/// The files reachable from a built directory's children are exactly the
/// listing's regular files.
proof fn lemma_built_entries_files(parent: Seq<char>, s: Seq<RawEntryModel>)
    ensures
        flat_entries(built_entries(parent, s)).to_multiset() == raw_files_entries(parent, s),
    decreases s, 1int,
{
    lemma_flat_sort_multiset(mapped_entries(parent, s));
    lemma_mapped_entries_files(parent, s);
}

/// A bag of raw files has as many members as the listing has regular files.
proof fn lemma_raw_files_count_entry(parent: Seq<char>, e: RawEntryModel)
    ensures
        raw_files_entry(parent, e).len() == count_files_entry(e),
    decreases e, 1int,
{
    broadcast use vstd::multiset::group_multiset_axioms;

    match e.node {
        RawNodeModel::Dir { entries } => {
            lemma_raw_files_count_entries(child_path(parent, e.name), entries);
        },
        _ => {},
    }
}

/// As above, for a listing.
proof fn lemma_raw_files_count_entries(parent: Seq<char>, s: Seq<RawEntryModel>)
    ensures
        raw_files_entries(parent, s).len() == count_files_entries(s),
    decreases s, 0int,
{
    broadcast use vstd::multiset::group_multiset_axioms;

    if s.len() > 0 {
        lemma_raw_files_count_entry(parent, s[0]);
        lemma_raw_files_count_entries(parent, s.drop_first());
    }
}

/// Law: flattening a built snapshot yields exactly the regular files of the
/// raw tree, each under the path its name computes to and with the bytes
/// that were read for it, and as many of them as the raw tree has regular
/// files. Directories contribute nothing of their own, and skipped entries
/// nothing at all.
pub proof fn lemma_flatten_build_files(root: Seq<char>, s: Seq<RawEntryModel>)
    ensures
        flat_dir(built_dir(root, s)).to_multiset() == raw_files_entries(root, s),
        flat_dir(built_dir(root, s)).len() == count_files_entries(s),
{
    broadcast use vstd::seq_lib::group_to_multiset_ensures;

    lemma_built_entries_files(root, s);
    lemma_raw_files_count_entries(root, s);
}

/// Law: content fidelity. A file model is reachable from a built snapshot
/// exactly as often as the raw tree holds a regular file with that path and
/// those bytes: in particular every flattened file carries the bytes read
/// for it, and every raw file's bytes reappear unchanged.
pub proof fn lemma_content_fidelity(root: Seq<char>, s: Seq<RawEntryModel>, f: FileModel)
    ensures
        flat_dir(built_dir(root, s)).to_multiset().count(f) == raw_files_entries(root, s).count(
            f,
        ),
        flat_dir(built_dir(root, s)).contains(f) <==> raw_files_entries(root, s).count(f) > 0,
{
    broadcast use vstd::seq_lib::group_to_multiset_ensures;

    lemma_flatten_build_files(root, s);
}

/// Entries are sorted when every earlier entry's path is at most every
/// later entry's path.
pub open spec fn entries_sorted(s: Seq<EntryModel>) -> bool {
    forall|i: int, j: int| 0 <= i < j < s.len() ==> entry_key_le(#[trigger] s[i], #[trigger] s[j])
}

/// The entry order is total.
proof fn lemma_entry_key_le_total(x: EntryModel, y: EntryModel)
    ensures
        entry_key_le(x, y) || entry_key_le(y, x),
{
    lemma_lex_le_total(
        encode_utf8(entry_model_path(x)),
        encode_utf8(entry_model_path(y)),
    );
}

/// The entry order is transitive.
proof fn lemma_entry_key_le_transitive(x: EntryModel, y: EntryModel, z: EntryModel)
    requires
        entry_key_le(x, y),
        entry_key_le(y, z),
    ensures
        entry_key_le(x, z),
{
    lemma_lex_le_transitive(
        encode_utf8(entry_model_path(x)),
        encode_utf8(entry_model_path(y)),
        encode_utf8(entry_model_path(z)),
    );
}

/// Inserting into a sorted sequence keeps it sorted.
proof fn lemma_sorted_insert_sorted(x: EntryModel, s: Seq<EntryModel>)
    requires
        entries_sorted(s),
    ensures
        entries_sorted(sorted_insert(x, s)),
    decreases s.len(),
{
    broadcast use vstd::seq_lib::group_to_multiset_ensures;
    broadcast use vstd::multiset::group_multiset_axioms;

    if s.len() == 0 {
        assert(entries_sorted(seq![x]));
    } else if entry_key_le(s.last(), x) {
        let r = s.push(x);
        assert forall|i: int, j: int| 0 <= i < j < r.len() implies entry_key_le(r[i], r[j]) by {
            if j < s.len() {
                assert(entry_key_le(s[i], s[j]));
            } else {
                assert(r[j] == x);
                if i < s.len() - 1 {
                    assert(entry_key_le(s[i], s.last()));
                    lemma_entry_key_le_transitive(s[i], s.last(), x);
                }
            }
        }
    } else {
        lemma_entry_key_le_total(s.last(), x);
        assert(entry_key_le(x, s.last()));
        assert(entries_sorted(s.drop_last())) by {
            assert(forall|i: int|
                0 <= i < s.len() - 1 ==> s.drop_last()[i] == #[trigger] s[i]);
        }
        let inner = sorted_insert(x, s.drop_last());
        lemma_sorted_insert_sorted(x, s.drop_last());
        lemma_sorted_insert_multiset(x, s.drop_last());
        assert forall|i: int| 0 <= i < inner.len() implies entry_key_le(
            inner[i],
            s.last(),
        ) by {
            assert(inner.contains(inner[i]));
            assert(inner.to_multiset().count(inner[i]) > 0);
            if inner[i] == x {
            } else {
                assert(s.drop_last().to_multiset().count(inner[i]) > 0);
                assert(s.drop_last().contains(inner[i]));
                let k = choose|k: int|
                    0 <= k < s.drop_last().len() && s.drop_last()[k] == inner[i];
                assert(s[k] == inner[i]);
                assert(entry_key_le(s[k], s.last()));
            }
        }
        let r = inner.push(s.last());
        assert forall|i: int, j: int| 0 <= i < j < r.len() implies entry_key_le(r[i], r[j]) by {
            if j < inner.len() {
                assert(entry_key_le(inner[i], inner[j]));
            } else {
                assert(entry_key_le(inner[i], s.last()));
            }
        }
    }
}

/// Law: sorting sorts. Together with `lemma_sort_entries_multiset` this is
/// why two walks of an unmodified tree produce children in identical order.
pub proof fn lemma_sort_entries_sorted(s: Seq<EntryModel>)
    ensures
        entries_sorted(sort_entries(s)),
    decreases s.len(),
{
    if s.len() > 0 {
        lemma_sort_entries_sorted(s.drop_last());
        lemma_sorted_insert_sorted(s.last(), sort_entries(s.drop_last()));
    }
}

/// `child` lies strictly below `anc`: `anc` is a proper prefix of it,
/// followed by the separator.
pub open spec fn descends(child: Seq<char>, anc: Seq<char>) -> bool {
    &&& child.len() > anc.len()
    &&& child.take(anc.len() as int) == anc
    &&& child[anc.len() as int] == '/'
}

/// Descent is transitive.
pub proof fn lemma_descends_transitive(c: Seq<char>, b: Seq<char>, a: Seq<char>)
    requires
        descends(c, b),
        descends(b, a),
    ensures
        descends(c, a),
{
    assert forall|i: int| 0 <= i <= a.len() implies c[i] == b[i] by {
        assert(c.take(b.len() as int)[i] == c[i]);
    }
    assert forall|i: int| 0 <= i < a.len() implies c[i] == a[i] by {
        assert(b.take(a.len() as int)[i] == b[i]);
    }
    assert(c.take(a.len() as int) =~= a);
    assert(c[a.len() as int] == b[a.len() as int]);
}

/// The path computed for an entry descends from its parent's path.
proof fn lemma_child_path_descends(parent: Seq<char>, name: Seq<u8>)
    ensures
        descends(child_path(parent, name), parent),
{
    let c = child_path(parent, name);
    assert(c.take(parent.len() as int) =~= parent);
    assert(c[parent.len() as int] == (parent + seq!['/'])[parent.len() as int]);
}

/// A tree entry is well formed when, if it is a directory, the directory is.
pub open spec fn entry_wf(e: EntryModel) -> bool
    decreases e,
{
    match e {
        EntryModel::File(_) => true,
        EntryModel::Dir(d) => dir_wf(d),
    }
}

/// Entries all descend from `parent` and are well formed.
pub open spec fn entries_rooted(s: Seq<EntryModel>, parent: Seq<char>) -> bool
    decreases s,
{
    forall|i: int|
        0 <= i < s.len() ==> descends(entry_model_path(#[trigger] s[i]), parent) && entry_wf(s[i])
}

/// A directory snapshot is well formed: its children are sorted by path,
/// every child's path is a strict descendant of its own, and every child
/// directory is well formed in turn.
pub open spec fn dir_wf(d: DirModel) -> bool
    decreases d,
{
    entries_sorted(d.children) && entries_rooted(d.children, d.path)
}

/// Sorting preserves descent and well-formedness of every entry.
proof fn lemma_sort_preserves_rooted(s: Seq<EntryModel>, parent: Seq<char>)
    requires
        entries_rooted(s, parent),
    ensures
        entries_rooted(sort_entries(s), parent),
{
    broadcast use vstd::seq_lib::group_to_multiset_ensures;
    broadcast use vstd::multiset::group_multiset_axioms;

    lemma_sort_entries_multiset(s);
    let r = sort_entries(s);
    assert forall|i: int| 0 <= i < r.len() implies descends(entry_model_path(#[trigger] r[i]), parent)
        && entry_wf(r[i]) by {
        assert(r.contains(r[i]));
        assert(r.to_multiset().count(r[i]) > 0);
        assert(s.to_multiset().count(r[i]) > 0);
        assert(s.contains(r[i]));
        let k = choose|k: int| 0 <= k < s.len() && s[k] == r[i];
        assert(descends(entry_model_path(s[k]), parent) && entry_wf(s[k]));
    }
}

/// Everything a mapped listing produces descends from the parent and is
/// well formed.
proof fn lemma_mapped_rooted(parent: Seq<char>, s: Seq<RawEntryModel>)
    ensures
        entries_rooted(mapped_entries(parent, s), parent),
    decreases s, 3int,
{
    if s.len() == 0 {
        assert(entries_rooted(mapped_entries(parent, s), parent));
    } else {
        let head = built_entry(parent, s[0]);
        let rest = mapped_entries(parent, s.drop_first());
        assert(entries_rooted(head, parent)) by {
            match s[0].node {
                RawNodeModel::Other => {},
                RawNodeModel::File { content, metadata } => {
                    lemma_child_path_descends(parent, s[0].name);
                },
                RawNodeModel::Dir { entries } => {
                    let cp = child_path(parent, s[0].name);
                    lemma_child_path_descends(parent, s[0].name);
                    lemma_mapped_rooted(cp, entries);
                    lemma_sort_preserves_rooted(mapped_entries(cp, entries), cp);
                    lemma_sort_entries_sorted(mapped_entries(cp, entries));
                },
            }
        }
        lemma_mapped_rooted(parent, s.drop_first());
        assert forall|i: int| 0 <= i < (head + rest).len() implies descends(
            entry_model_path(#[trigger] (head + rest)[i]),
            parent,
        ) && entry_wf((head + rest)[i]) by {
            if i < head.len() {
                assert((head + rest)[i] == head[i]);
            } else {
                assert((head + rest)[i] == rest[i - head.len()]);
            }
        }
    }
}

/// Law: every snapshot the builder determines is well formed: children
/// sorted by path, every path a strict descendant of its parent directory's
/// path, recursively.
pub proof fn lemma_build_wf(root: Seq<char>, s: Seq<RawEntryModel>)
    ensures
        dir_wf(built_dir(root, s)),
{
    lemma_mapped_rooted(root, s);
    lemma_sort_preserves_rooted(mapped_entries(root, s), root);
    lemma_sort_entries_sorted(mapped_entries(root, s));
}

/// Every flattened file of well-rooted entries descends from the root.
proof fn lemma_flat_descends_entries(s: Seq<EntryModel>, p: Seq<char>)
    requires
        entries_rooted(s, p),
    ensures
        forall|i: int|
            0 <= i < flat_entries(s).len() ==> descends(#[trigger] flat_entries(s)[i].path, p),
    decreases s,
{
    if s.len() > 0 {
        let head = flat_entry(s[0]);
        let rest_entries = s.drop_first();
        assert(entries_rooted(rest_entries, p)) by {
            assert(forall|i: int|
                0 <= i < rest_entries.len() ==> rest_entries[i] == #[trigger] s[i + 1]);
        }
        lemma_flat_descends_entries(rest_entries, p);
        assert(descends(entry_model_path(s[0]), p) && entry_wf(s[0]));
        assert forall|i: int| 0 <= i < head.len() implies descends(#[trigger] head[i].path, p) by {
            match s[0] {
                EntryModel::File(f) => {
                    assert(head =~= seq![f]);
                },
                EntryModel::Dir(d) => {
                    lemma_flat_descends_entries(d.children, d.path);
                    assert(head == flat_entries(d.children));
                    lemma_descends_transitive(head[i].path, d.path, p);
                },
            }
        }
        assert forall|i: int| 0 <= i < flat_entries(s).len() implies descends(
            #[trigger] flat_entries(s)[i].path,
            p,
        ) by {
            if i < head.len() {
                assert(flat_entries(s)[i] == head[i]);
            } else {
                assert(flat_entries(s)[i] == flat_entries(rest_entries)[i - head.len()]);
            }
        }
    }
}

/// Law: path fidelity. Every flattened file of a built snapshot has a path
/// that strictly descends from the root's path.
pub proof fn lemma_path_fidelity(root: Seq<char>, s: Seq<RawEntryModel>)
    ensures
        forall|i: int|
            0 <= i < flat_dir(built_dir(root, s)).len() ==> descends(
                #[trigger] flat_dir(built_dir(root, s))[i].path,
                root,
            ),
{
    lemma_build_wf(root, s);
    lemma_flat_descends_entries(built_entries(root, s), root);
}

/// Law: an absolute root makes every flattened path absolute. Whether the
/// root is canonical only the filesystem can establish; every other path is
/// then the root extended by entry names.
pub proof fn lemma_paths_absolute(root: Seq<char>, s: Seq<RawEntryModel>)
    requires
        root.len() > 0,
        root[0] == '/',
    ensures
        forall|i: int|
            0 <= i < flat_dir(built_dir(root, s)).len() ==> (
            #[trigger] flat_dir(built_dir(root, s))[i].path)[0] == '/',
{
    lemma_path_fidelity(root, s);
    assert forall|i: int| 0 <= i < flat_dir(built_dir(root, s)).len() implies (
    #[trigger] flat_dir(built_dir(root, s))[i].path)[0] == '/' by {
        let p = flat_dir(built_dir(root, s))[i].path;
        assert(descends(p, root));
        assert(p.take(root.len() as int)[0] == p[0]);
    }
}

/// Law: determinism. The snapshot is a function of the raw listing's model
/// alone, so walking an unmodified tree twice determines snapshots with
/// equal children in identical order.
pub proof fn lemma_build_deterministic(root: Seq<char>, s1: Seq<RawEntryModel>, s2: Seq<
    RawEntryModel,
>)
    requires
        s1 == s2,
    ensures
        built_dir(root, s1) == built_dir(root, s2),
        flat_dir(built_dir(root, s1)) == flat_dir(built_dir(root, s2)),
{
}

/// Law: mode equivalence. A live listing with owned buffers and an embedded
/// listing with borrowed ones that report the same names and bytes have
/// equal models, so they determine snapshots with identical paths and
/// contents everywhere; the storage strategy is unobservable in the view.
pub proof fn lemma_mode_equivalence(
    live: Seq<RawEntry>,
    embedded: Seq<RawEntry>,
    root: Seq<char>,
)
    requires
        raw_entries_model(live) == raw_entries_model(embedded),
    ensures
        built_dir(root, raw_entries_model(live)) == built_dir(root, raw_entries_model(embedded)),
        flat_dir(built_dir(root, raw_entries_model(live))) == flat_dir(
            built_dir(root, raw_entries_model(embedded)),
        ),
{
}

/// Mapping distributes over concatenation of raw listings.
proof fn lemma_mapped_entries_concat(p: Seq<char>, a: Seq<RawEntryModel>, b: Seq<RawEntryModel>)
    ensures
        mapped_entries(p, a + b) == mapped_entries(p, a) + mapped_entries(p, b),
    decreases a.len(),
{
    if a.len() == 0 {
        assert(a + b =~= b);
        assert(mapped_entries(p, a) + mapped_entries(p, b) =~= mapped_entries(p, b));
    } else {
        lemma_mapped_entries_concat(p, a.drop_first(), b);
        assert((a + b).drop_first() =~= a.drop_first() + b);
        assert((a + b)[0] == a[0]);
        assert(built_entry(p, a[0]) + (mapped_entries(p, a.drop_first()) + mapped_entries(p, b))
            =~= (built_entry(p, a[0]) + mapped_entries(p, a.drop_first())) + mapped_entries(p, b));
    }
}

/// Mapping a single raw entry produces just that entry's result.
proof fn lemma_mapped_single(p: Seq<char>, e: RawEntryModel)
    ensures
        mapped_entries(p, seq![e]) == built_entry(p, e),
{
    assert(seq![e].drop_first() =~= Seq::<RawEntryModel>::empty());
    assert(mapped_entries(p, Seq::<RawEntryModel>::empty()) =~= Seq::<EntryModel>::empty());
    assert(seq![e][0] == e);
    assert(mapped_entries(p, seq![e]) =~= built_entry(p, e) + Seq::<EntryModel>::empty());
    assert(built_entry(p, e) + Seq::<EntryModel>::empty() =~= built_entry(p, e));
}

/// Removing skipped nodes from one entry changes nothing it builds.
proof fn lemma_strip_entry(p: Seq<char>, e: RawEntryModel)
    ensures
        built_entry(p, strip_others_entry(e)) == built_entry(p, e),
    decreases e, 3int,
{
    match e.node {
        RawNodeModel::Dir { entries } => {
            let cp = child_path(p, e.name);
            lemma_strip_entries(cp, entries);
        },
        _ => {},
    }
}

/// Removing skipped nodes from a listing changes nothing it builds.
proof fn lemma_strip_entries(p: Seq<char>, s: Seq<RawEntryModel>)
    ensures
        mapped_entries(p, strip_others_entries(s)) == mapped_entries(p, s),
    decreases s, 2int,
{
    if s.len() > 0 {
        lemma_strip_entries(p, s.drop_first());
        let rest = strip_others_entries(s.drop_first());
        if s[0].node is Other {
            assert(built_entry(p, s[0]) =~= Seq::<EntryModel>::empty());
            assert(mapped_entries(p, s) =~= mapped_entries(p, s.drop_first()));
        } else {
            lemma_strip_entry(p, s[0]);
            lemma_mapped_entries_concat(p, seq![strip_others_entry(s[0])], rest);
            lemma_mapped_single(p, strip_others_entry(s[0]));
            assert(mapped_entries(p, strip_others_entries(s)) =~= mapped_entries(p, s));
        }
    }
}

/// Law: skipped entries are irrelevant. A raw tree with its symlinks,
/// sockets and other non-file non-directory entries removed determines
/// exactly the same snapshot: they are excluded from the output of both
/// modes, and their presence is no error.
pub proof fn lemma_skipped_entries_irrelevant(root: Seq<char>, s: Seq<RawEntryModel>)
    ensures
        built_dir(root, strip_others_entries(s)) == built_dir(root, s),
{
    lemma_strip_entries(root, s);
}

} // verus!
