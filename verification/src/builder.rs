//! The tree builder: from a raw listing to a directory snapshot.
//!
//! The builder is one algorithm for both resolution modes: what differs is
//! only where the raw listing came from (a walk of the real filesystem at the
//! moment of the request, or a walk made once ahead of time whose file bytes
//! reference artifact-lifetime storage). For each directory it decodes every
//! entry name, joins it under the directory's path, recurses into
//! subdirectories, skips entries that are neither directories nor regular
//! files, and sorts the results by path. The first undecodable name aborts
//! the whole build: there is no partial tree.

use vstd::prelude::*;

use crate::buf::Text;
use crate::buf::bytes_to_text;
use crate::buf::lemma_decode_utf8_concat;
use crate::buf::lemma_slash_bytes;
use crate::error::BuildError;
use crate::order::lex_le;
use crate::order::lex_le_bytes;
use crate::raw::RawEntry;
use crate::raw::RawEntryModel;
use crate::raw::RawNode;
use crate::raw::RawNodeModel;
use crate::raw::child_path;
use crate::raw::lemma_raw_entries_model;
use crate::raw::name_in_entries;
use crate::raw::name_in_entry;
use crate::raw::names_utf8_entries;
use crate::raw::names_utf8_entry;
use crate::raw::raw_entries_model;
use crate::raw::raw_entry_model;
use crate::tree::Dir;
use crate::tree::DirEntry;
use crate::tree::DirModel;
use crate::tree::EntryModel;
use crate::tree::File;
use crate::tree::FileModel;
use crate::tree::entries_model;
use crate::tree::entry_model_path;
use crate::tree::lemma_entries_model;

verus! {

use vstd::slice::slice_to_vec;
use vstd::utf8::decode_utf8;
use vstd::utf8::encode_utf8;
use vstd::utf8::valid_utf8;

/// The sort order of tree entries: byte-lexicographic on the encoded path.
pub open spec fn entry_key_le(x: EntryModel, y: EntryModel) -> bool {
    lex_le(encode_utf8(entry_model_path(x)), encode_utf8(entry_model_path(y)))
}

/// Inserts `x` into `s`, which is sorted, keeping it sorted: `x` goes after
/// every element it is greater than.
pub open spec fn sorted_insert(x: EntryModel, s: Seq<EntryModel>) -> Seq<EntryModel>
    decreases s.len(),
{
    if s.len() == 0 {
        seq![x]
    } else if entry_key_le(s.last(), x) {
        s.push(x)
    } else {
        sorted_insert(x, s.drop_last()).push(s.last())
    }
}

/// Sorts entries by path, by insertion from the back.
pub open spec fn sort_entries(s: Seq<EntryModel>) -> Seq<EntryModel>
    decreases s.len(),
{
    if s.len() == 0 {
        s
    } else {
        sorted_insert(s.last(), sort_entries(s.drop_last()))
    }
}

/// The tree entries one raw entry produces under `parent`: none for a
/// skipped entry, one file, or one directory built from its own listing.
pub open spec fn built_entry(parent: Seq<char>, e: RawEntryModel) -> Seq<EntryModel>
    decreases e, 0int,
{
    match e.node {
        RawNodeModel::Other => Seq::empty(),
        RawNodeModel::File { content, metadata } => seq![
            EntryModel::File(FileModel { path: child_path(parent, e.name), content, metadata }),
        ],
        RawNodeModel::Dir { entries } => seq![
            EntryModel::Dir(
                DirModel {
                    path: child_path(parent, e.name),
                    children: built_entries(child_path(parent, e.name), entries),
                },
            ),
        ],
    }
}

/// The tree entries a raw listing produces under `parent`, in read order.
pub open spec fn mapped_entries(parent: Seq<char>, s: Seq<RawEntryModel>) -> Seq<EntryModel>
    decreases s, 0int,
{
    if s.len() == 0 {
        Seq::empty()
    } else {
        built_entry(parent, s[0]) + mapped_entries(parent, s.drop_first())
    }
}

/// The children of a directory at `parent` built from a raw listing: the
/// produced entries, sorted by path.
pub open spec fn built_entries(parent: Seq<char>, s: Seq<RawEntryModel>) -> Seq<EntryModel>
    decreases s, 1int,
{
    sort_entries(mapped_entries(parent, s))
}

/// The directory snapshot a raw listing of `path` builds.
pub open spec fn built_dir(path: Seq<char>, s: Seq<RawEntryModel>) -> DirModel {
    DirModel { path, children: built_entries(path, s) }
}

/// Inserts `x` into the sorted `v`, keeping it sorted.
fn insert_sorted(x: DirEntry, v: Vec<DirEntry>) -> (r: Vec<DirEntry>)
    ensures
        entries_model(r@) == sorted_insert(x@, entries_model(v@)),
    decreases v@.len(),
{
    let ghost m = entries_model(v@);
    proof {
        lemma_entries_model(v@);
    }
    let n = v.len();
    if n == 0 {
        let mut out: Vec<DirEntry> = Vec::new();
        out.push(x);
        proof {
            lemma_entries_model(out@);
            assert(entries_model(out@) =~= sorted_insert(x@, m));
        }
        out
    } else {
        let le = {
            let last = &v[n - 1];
            lex_le_bytes(last.path().as_bytes(), x.path().as_bytes())
        };
        proof {
            assert(le == entry_key_le(m.last(), x@));
        }
        if le {
            let mut out = v;
            out.push(x);
            proof {
                lemma_entries_model(out@);
                assert(entries_model(out@) =~= m.push(x@));
            }
            out
        } else {
            let mut rest = v;
            let last = rest.pop().unwrap();
            proof {
                lemma_entries_model(rest@);
                assert(entries_model(rest@) =~= m.drop_last());
                assert(last@ == m.last());
            }
            let mut out = insert_sorted(x, rest);
            let ghost mids = out@;
            out.push(last);
            proof {
                lemma_entries_model(mids);
                lemma_entries_model(out@);
                assert(out@ == mids.push(last));
                assert(entries_model(out@) =~= entries_model(mids).push(last@));
                assert(entries_model(out@) =~= sorted_insert(x@, m.drop_last()).push(m.last()));
            }
            out
        }
    }
}

/// Sorts a directory's children by path.
fn sort_dir_entries(v: Vec<DirEntry>) -> (r: Vec<DirEntry>)
    ensures
        entries_model(r@) == sort_entries(entries_model(v@)),
    decreases v@.len(),
{
    let ghost m = entries_model(v@);
    proof {
        lemma_entries_model(v@);
    }
    if v.len() == 0 {
        v
    } else {
        let mut rest = v;
        let last = rest.pop().unwrap();
        proof {
            lemma_entries_model(rest@);
            assert(entries_model(rest@) =~= m.drop_last());
            assert(last@ == m.last());
        }
        let sorted = sort_dir_entries(rest);
        insert_sorted(last, sorted)
    }
}

/// Decodes `name` and joins it under `parent`. The name's bytes are the
/// error payload when they are not valid UTF-8.
fn join_child(parent: &str, name: &[u8]) -> (r: Result<String, BuildError>)
    ensures
        r is Ok <==> valid_utf8(name@),
        r is Ok ==> r->Ok_0@ == child_path(parent@, name@),
        r is Err ==> (r->Err_0 matches BuildError::Encoding { path } && path@ == name@
            && !valid_utf8(name@)),
{
    match bytes_to_text(name) {
        None => Err(BuildError::Encoding { path: slice_to_vec(name) }),
        Some(_decoded) => {
            let mut cb: Vec<u8> = slice_to_vec(parent.as_bytes());
            cb.push(47);
            let mut nb: Vec<u8> = slice_to_vec(name);
            cb.append(&mut nb);
            proof {
                lemma_slash_bytes();
                vstd::utf8::encode_utf8_valid_utf8(parent@);
                vstd::utf8::encode_utf8_decode_utf8(parent@);
                lemma_decode_utf8_concat(encode_utf8(parent@), seq![47u8]);
                lemma_decode_utf8_concat(encode_utf8(parent@) + seq![47u8], name@);
                assert(cb@ =~= (encode_utf8(parent@) + seq![47u8]) + name@);
                assert(decode_utf8(cb@) =~= child_path(parent@, name@));
            }
            match bytes_to_text(cb.as_slice()) {
                Some(s) => Ok(s),
                None => vstd::pervasive::unreached(),
            }
        },
    }
}

/// Builds the tree entries of one raw listing under `parent`, in read order;
/// subdirectories are built completely, with their children sorted.
fn map_entries_exec(parent: &str, entries: Vec<RawEntry>) -> (r: Result<
    Vec<DirEntry>,
    BuildError,
>)
    ensures
        r is Ok <==> names_utf8_entries(raw_entries_model(entries@)),
        r is Ok ==> entries_model(r->Ok_0@) == mapped_entries(
            parent@,
            raw_entries_model(entries@),
        ),
        r is Err ==> (r->Err_0 matches BuildError::Encoding { path } && !valid_utf8(path@)
            && name_in_entries(raw_entries_model(entries@), path@)),
    decreases entries@,
{
    let ghost orig = entries@;
    let ghost rm = raw_entries_model(orig);
    proof {
        lemma_raw_entries_model(orig);
    }
    if entries.len() == 0 {
        let out: Vec<DirEntry> = Vec::new();
        proof {
            assert(entries_model(out@) =~= mapped_entries(parent@, rm));
        }
        Ok(out)
    } else {
        let mut rest_entries = entries;
        let e = rest_entries.remove(0);
        let ghost e0 = orig[0];
        proof {
            assert(rest_entries@ =~= orig.drop_first());
            lemma_raw_entries_model(orig.drop_first());
            assert(raw_entries_model(orig.drop_first()) =~= rm.drop_first());
            assert(rm[0] == raw_entry_model(e0));
        }
        let RawEntry { name, node } = e;
        let mut head: Vec<DirEntry> = Vec::new();
        match node {
            RawNode::Other => {
                proof {
                    assert(entries_model(head@) =~= built_entry(parent@, rm[0]));
                    assert(names_utf8_entry(rm[0]));
                }
            },
            RawNode::File { content, metadata } => {
                let cp = match join_child(parent, name.as_slice()) {
                    Ok(s) => s,
                    Err(err) => {
                        proof {
                            assert(name_in_entry(rm[0], name@));
                            assert(!names_utf8_entry(rm[0]));
                        }
                        return Err(err);
                    },
                };
                head.push(DirEntry::File(File { path: Text::Owned(cp), content, metadata }));
                proof {
                    lemma_entries_model(head@);
                    assert(entries_model(head@) =~= built_entry(parent@, rm[0]));
                    assert(names_utf8_entry(rm[0]));
                }
            },
            RawNode::Dir { entries: sub } => {
                let cp = match join_child(parent, name.as_slice()) {
                    Ok(s) => s,
                    Err(err) => {
                        proof {
                            assert(name_in_entry(rm[0], name@));
                            assert(!names_utf8_entry(rm[0]));
                        }
                        return Err(err);
                    },
                };
                let ghost sub0 = sub@;
                proof {
                    assert(decreases_to!(orig => e0));
                    assert(decreases_to!(e0 => e0.node));
                    assert(decreases_to!(e0.node => e0.node->Dir_entries));
                    assert(e0.node->Dir_entries == sub);
                    assert(decreases_to!(sub => sub@));
                }
                let sub_built = match map_entries_exec(cp.as_str(), sub) {
                    Ok(v) => v,
                    Err(err) => {
                        proof {
                            let pbytes = err->Encoding_path@;
                            assert(name_in_entries(raw_entries_model(sub0), pbytes));
                            assert(rm[0].node->Dir_entries == raw_entries_model(sub0));
                            assert(name_in_entry(rm[0], pbytes));
                            assert(name_in_entries(rm, pbytes));
                            assert(!names_utf8_entries(raw_entries_model(sub0)));
                            assert(!names_utf8_entry(rm[0]));
                            assert(!names_utf8_entries(rm));
                        }
                        return Err(err);
                    },
                };
                let children = sort_dir_entries(sub_built);
                head.push(DirEntry::Dir(Dir { path: Text::Owned(cp), children }));
                proof {
                    lemma_entries_model(head@);
                    assert(rm[0].node->Dir_entries == raw_entries_model(sub0));
                    assert(entries_model(head@) =~= built_entry(parent@, rm[0]));
                    assert(names_utf8_entry(rm[0]));
                }
            },
        }
        let mut rest_built = match map_entries_exec(parent, rest_entries) {
            Ok(v) => v,
            Err(err) => {
                proof {
                    let pbytes = err->Encoding_path@;
                    assert(name_in_entries(rm.drop_first(), pbytes));
                    assert(name_in_entries(rm, pbytes));
                    assert(!names_utf8_entries(rm.drop_first()));
                    assert(!names_utf8_entries(rm));
                }
                return Err(err);
            },
        };
        let ghost headm = head@;
        let ghost restm = rest_built@;
        head.append(&mut rest_built);
        proof {
            lemma_entries_model(headm);
            lemma_entries_model(restm);
            lemma_entries_model(head@);
            assert(head@ == headm + restm);
            assert(entries_model(head@) =~= entries_model(headm) + entries_model(restm));
            assert(entries_model(head@) =~= mapped_entries(parent@, rm));
        }
        Ok(head)
    }
}

/// Builds a directory snapshot at `root_path` from its raw listing.
///
/// Succeeds exactly when the root path and every directory or regular file
/// name in the listing is valid UTF-8; the error is the first undecodable
/// byte string, and no partial tree is returned. On success the snapshot is
/// exactly the one the listing determines: paths joined under the root,
/// skipped entries absent, every directory's children sorted by path.
pub fn build(root_path: &[u8], entries: Vec<RawEntry>) -> (r: Result<Dir, BuildError>)
    ensures
        r is Ok <==> valid_utf8(root_path@) && names_utf8_entries(raw_entries_model(entries@)),
        r is Ok ==> r->Ok_0@ == built_dir(decode_utf8(root_path@), raw_entries_model(entries@)),
        r is Err ==> (r->Err_0 matches BuildError::Encoding { path } && !valid_utf8(path@) && (
        path@ == root_path@ || name_in_entries(raw_entries_model(entries@), path@))),
{
    let ghost rm = raw_entries_model(entries@);
    match bytes_to_text(root_path) {
        None => Err(BuildError::Encoding { path: slice_to_vec(root_path) }),
        Some(p) => {
            let mapped = match map_entries_exec(p.as_str(), entries) {
                Ok(v) => v,
                Err(err) => {
                    return Err(err);
                },
            };
            let children = sort_dir_entries(mapped);
            let d = Dir { path: Text::Owned(p), children };
            proof {
                assert(d@ == built_dir(decode_utf8(root_path@), rm));
            }
            Ok(d)
        },
    }
}

} // verus!
