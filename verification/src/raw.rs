//! Raw directory listings: the builder's input.
//!
//! A raw listing records, for one directory, every entry the filesystem
//! reported: the entry's name as raw bytes, and what was found under it, with
//! nested listings read recursively in whatever order the filesystem returned
//! them. No interpretation has happened yet: names are undecoded, nothing is
//! sorted, and entries that are neither directories nor regular files are
//! still present. The builder turns a raw listing into a tree snapshot.

use vstd::prelude::*;

use crate::buf::Bytes;
use crate::tree::FileModel;
use crate::tree::Metadata;

verus! {

use vstd::multiset::Multiset;
use vstd::utf8::decode_utf8;
use vstd::utf8::valid_utf8;

/// One entry of a raw listing: a name, as the bytes the filesystem reported,
/// and what was found under that name.
pub struct RawEntry {
    /// The entry's name within its directory, undecoded.
    pub name: Vec<u8>,
    /// What the name refers to.
    pub node: RawNode,
}

/// What a raw listing found under one name.
pub enum RawNode {
    /// A directory, with its own raw listing.
    Dir {
        /// The directory's entries, in the order they were read.
        entries: Vec<RawEntry>,
    },
    /// A regular file.
    File {
        /// The file's bytes at the moment they were read.
        content: Bytes,
        /// Timestamps, if the filesystem exposed them.
        metadata: Option<Metadata>,
    },
    /// Anything else: symlink, socket, device. The builder skips it.
    Other,
}

/// The model of a raw entry.
pub ghost struct RawEntryModel {
    /// The name bytes.
    pub name: Seq<u8>,
    /// The node under the name.
    pub node: RawNodeModel,
}

/// The model of a raw node.
pub ghost enum RawNodeModel {
    /// A directory with the models of its entries, in read order.
    Dir { entries: Seq<RawEntryModel> },
    /// A regular file's bytes and timestamps.
    File { content: Seq<u8>, metadata: Option<Metadata> },
    /// A skipped entry.
    Other,
}

/// The model of one raw entry.
pub open spec fn raw_entry_model(e: RawEntry) -> RawEntryModel
    decreases e,
{
    RawEntryModel { name: e.name@, node: raw_node_model(e.node) }
}

/// The model of one raw node.
pub open spec fn raw_node_model(n: RawNode) -> RawNodeModel
    decreases n,
{
    match n {
        RawNode::Dir { entries } => RawNodeModel::Dir { entries: raw_entries_model(entries@) },
        RawNode::File { content, metadata } => RawNodeModel::File {
            content: content@,
            metadata,
        },
        RawNode::Other => RawNodeModel::Other,
    }
}

/// The models of a sequence of raw entries, in order.
pub open spec fn raw_entries_model(s: Seq<RawEntry>) -> Seq<RawEntryModel>
    decreases s,
{
    if s.len() == 0 {
        Seq::empty()
    } else {
        seq![raw_entry_model(s[0])] + raw_entries_model(s.drop_first())
    }
}

/// `raw_entries_model` is the pointwise model of the entries.
pub proof fn lemma_raw_entries_model(s: Seq<RawEntry>)
    ensures
        raw_entries_model(s).len() == s.len(),
        forall|i: int| 0 <= i < s.len() ==> raw_entries_model(s)[i] == raw_entry_model(s[i]),
    decreases s,
{
    if s.len() > 0 {
        lemma_raw_entries_model(s.drop_first());
        assert(forall|i: int|
            1 <= i < s.len() ==> raw_entries_model(s)[i] == raw_entries_model(s.drop_first())[i
                - 1] && s.drop_first()[i - 1] == s[i]);
    }
}

impl View for RawEntry {
    type V = RawEntryModel;

    open spec fn view(&self) -> RawEntryModel {
        raw_entry_model(*self)
    }
}

impl View for RawNode {
    type V = RawNodeModel;

    open spec fn view(&self) -> RawNodeModel {
        raw_node_model(*self)
    }
}

/// The path an entry named `name` gets under a directory at `parent`.
pub open spec fn child_path(parent: Seq<char>, name: Seq<u8>) -> Seq<char> {
    parent + seq!['/'] + decode_utf8(name)
}

/// Every name the builder must decode in one entry is valid UTF-8. Names of
/// skipped entries do not count: they are never decoded.
pub open spec fn names_utf8_entry(e: RawEntryModel) -> bool
    decreases e,
{
    match e.node {
        RawNodeModel::Other => true,
        RawNodeModel::File { .. } => valid_utf8(e.name),
        RawNodeModel::Dir { entries } => valid_utf8(e.name) && names_utf8_entries(entries),
    }
}

/// Every name the builder must decode in a listing is valid UTF-8.
pub open spec fn names_utf8_entries(s: Seq<RawEntryModel>) -> bool
    decreases s,
{
    if s.len() == 0 {
        true
    } else {
        names_utf8_entry(s[0]) && names_utf8_entries(s.drop_first())
    }
}

/// `b` names a directory or regular file somewhere in one entry.
pub open spec fn name_in_entry(e: RawEntryModel, b: Seq<u8>) -> bool
    decreases e,
{
    match e.node {
        RawNodeModel::Other => false,
        RawNodeModel::File { .. } => e.name == b,
        RawNodeModel::Dir { entries } => e.name == b || name_in_entries(entries, b),
    }
}

/// `b` names a directory or regular file somewhere in a listing.
pub open spec fn name_in_entries(s: Seq<RawEntryModel>, b: Seq<u8>) -> bool
    decreases s,
{
    s.len() > 0 && (name_in_entry(s[0], b) || name_in_entries(s.drop_first(), b))
}

/// The regular files one raw entry contributes under `parent`: the multiset
/// of file models, each with the path its name computes to.
pub open spec fn raw_files_entry(parent: Seq<char>, e: RawEntryModel) -> Multiset<FileModel>
    decreases e,
{
    match e.node {
        RawNodeModel::Other => Multiset::empty(),
        RawNodeModel::File { content, metadata } => Multiset::empty().insert(
            (FileModel { path: child_path(parent, e.name), content, metadata }),
        ),
        RawNodeModel::Dir { entries } => raw_files_entries(child_path(parent, e.name), entries),
    }
}

/// The regular files a raw listing contributes under `parent`.
pub open spec fn raw_files_entries(parent: Seq<char>, s: Seq<RawEntryModel>) -> Multiset<
    FileModel,
>
    decreases s,
{
    if s.len() == 0 {
        Multiset::empty()
    } else {
        raw_files_entry(parent, s[0]).add(raw_files_entries(parent, s.drop_first()))
    }
}

/// The number of regular files in one raw entry.
pub open spec fn count_files_entry(e: RawEntryModel) -> nat
    decreases e,
{
    match e.node {
        RawNodeModel::Other => 0,
        RawNodeModel::File { .. } => 1,
        RawNodeModel::Dir { entries } => count_files_entries(entries),
    }
}

/// The number of regular files in a raw listing.
pub open spec fn count_files_entries(s: Seq<RawEntryModel>) -> nat
    decreases s,
{
    if s.len() == 0 {
        0
    } else {
        count_files_entry(s[0]) + count_files_entries(s.drop_first())
    }
}

/// One entry with every skipped node removed, recursively. Skipped entries
/// themselves are removed by `strip_others_entries`.
pub open spec fn strip_others_entry(e: RawEntryModel) -> RawEntryModel
    decreases e,
{
    match e.node {
        RawNodeModel::Dir { entries } => RawEntryModel {
            name: e.name,
            node: RawNodeModel::Dir { entries: strip_others_entries(entries) },
        },
        _ => e,
    }
}

/// A listing with every skipped node removed, recursively.
pub open spec fn strip_others_entries(s: Seq<RawEntryModel>) -> Seq<RawEntryModel>
    decreases s,
{
    if s.len() == 0 {
        s
    } else {
        let rest = strip_others_entries(s.drop_first());
        if s[0].node is Other {
            rest
        } else {
            seq![strip_others_entry(s[0])] + rest
        }
    }
}

} // verus!
