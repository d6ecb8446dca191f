//! The in-memory tree model: directory and file snapshots.
//!
//! A snapshot is immutable once built. Its mathematical model erases the
//! storage strategy of every buffer: two snapshots that hold the same paths
//! and bytes have equal views, whether the data is owned or embedded.

use vstd::prelude::*;

use crate::buf::Bytes;
use crate::buf::Text;
use crate::buf::bytes_to_text;

verus! {

use vstd::utf8::decode_utf8;
use vstd::utf8::valid_utf8;

/// A point in time, as a duration since a fixed epoch.
#[derive(Debug, Clone, Copy, PartialEq, Eq, Structural)]
pub struct Timestamp {
    /// Whole seconds since the epoch.
    pub secs: u64,
    /// Nanoseconds within the second.
    pub nanos: u32,
}

/// Filesystem timestamps of a file, present only when the filesystem
/// exposed them at the moment the tree was built.
#[derive(Debug, Clone, Copy, PartialEq, Eq, Structural)]
pub struct Metadata {
    /// When the file was last accessed.
    pub accessed: Timestamp,
    /// When the file was created.
    pub created: Timestamp,
    /// When the file was last modified.
    pub modified: Timestamp,
}

/// A regular file snapshot: its bytes at the moment the tree was built.
#[derive(Debug, Clone)]
pub struct File {
    /// The absolute, canonical path of the file, as text.
    pub path: Text,
    /// The file's bytes; never refreshed in place.
    pub content: Bytes,
    /// Timestamps, if the filesystem exposed them.
    pub metadata: Option<Metadata>,
}

/// A directory snapshot.
#[derive(Debug)]
pub struct Dir {
    /// The absolute, canonical path of the directory, as text.
    pub path: Text,
    /// The entries the directory houses, sorted by the builder.
    pub children: Vec<DirEntry>,
}

/// A directory entry: exactly one of the two variants is active.
#[derive(Debug)]
pub enum DirEntry {
    /// A directory.
    Dir(Dir),
    /// A file.
    File(File),
}

/// The model of a file: path, content and timestamps as plain values.
pub ghost struct FileModel {
    /// The path as a character sequence.
    pub path: Seq<char>,
    /// The content as a byte sequence.
    pub content: Seq<u8>,
    /// The timestamps, if present.
    pub metadata: Option<Metadata>,
}

/// The model of a directory: its path and the models of its children.
pub ghost struct DirModel {
    /// The path as a character sequence.
    pub path: Seq<char>,
    /// The children, in their stored order.
    pub children: Seq<EntryModel>,
}

/// The model of a directory entry.
pub ghost enum EntryModel {
    /// A directory.
    Dir(DirModel),
    /// A file.
    File(FileModel),
}

/// The model of a file snapshot.
pub open spec fn file_model(f: File) -> FileModel {
    FileModel { path: f.path@, content: f.content@, metadata: f.metadata }
}

/// The model of a directory snapshot.
pub open spec fn dir_model(d: Dir) -> DirModel
    decreases d,
{
    DirModel { path: d.path@, children: entries_model(d.children@) }
}

/// The model of one entry.
pub open spec fn entry_model(e: DirEntry) -> EntryModel
    decreases e,
{
    match e {
        DirEntry::Dir(d) => EntryModel::Dir(dir_model(d)),
        DirEntry::File(f) => EntryModel::File(file_model(f)),
    }
}

/// The models of a sequence of entries, in order.
pub open spec fn entries_model(s: Seq<DirEntry>) -> Seq<EntryModel>
    decreases s,
{
    if s.len() == 0 {
        Seq::empty()
    } else {
        seq![entry_model(s[0])] + entries_model(s.drop_first())
    }
}

/// `entries_model` is the pointwise model of the entries.
pub proof fn lemma_entries_model(s: Seq<DirEntry>)
    ensures
        entries_model(s).len() == s.len(),
        forall|i: int| 0 <= i < s.len() ==> entries_model(s)[i] == entry_model(s[i]),
    decreases s,
{
    if s.len() > 0 {
        lemma_entries_model(s.drop_first());
        assert(forall|i: int|
            1 <= i < s.len() ==> entries_model(s)[i] == entries_model(s.drop_first())[i - 1]
                && s.drop_first()[i - 1] == s[i]);
    }
}

/// The models of a sequence of files, in order.
pub open spec fn files_model(s: Seq<File>) -> Seq<FileModel> {
    Seq::new(s.len(), |i: int| file_model(s[i]))
}

/// The path of an entry, whichever variant is active.
pub open spec fn entry_model_path(e: EntryModel) -> Seq<char> {
    match e {
        EntryModel::Dir(d) => d.path,
        EntryModel::File(f) => f.path,
    }
}

impl View for File {
    type V = FileModel;

    open spec fn view(&self) -> FileModel {
        file_model(*self)
    }
}

impl View for Dir {
    type V = DirModel;

    open spec fn view(&self) -> DirModel {
        dir_model(*self)
    }
}

impl View for DirEntry {
    type V = EntryModel;

    open spec fn view(&self) -> EntryModel {
        entry_model(*self)
    }
}

/// Every file reachable from one entry, depth first.
pub open spec fn flat_entry(e: EntryModel) -> Seq<FileModel>
    decreases e,
{
    match e {
        EntryModel::File(f) => seq![f],
        EntryModel::Dir(d) => flat_dir(d),
    }
}

/// Every file reachable from a directory, depth first, pre-order per
/// directory, in the stored order of the children. Directories contribute no
/// entries of their own.
pub open spec fn flat_dir(d: DirModel) -> Seq<FileModel>
    decreases d,
{
    flat_entries(d.children)
}

/// Every file reachable from a sequence of entries, in order.
pub open spec fn flat_entries(s: Seq<EntryModel>) -> Seq<FileModel>
    decreases s,
{
    if s.len() == 0 {
        Seq::empty()
    } else {
        flat_entry(s[0]) + flat_entries(s.drop_first())
    }
}

impl File {
    /// The absolute path of the file.
    pub fn path(&self) -> (r: &str)
        ensures
            r@ == self@.path,
    {
        self.path.as_str()
    }

    /// The content of the file.
    pub fn content(&self) -> (r: &[u8])
        ensures
            r@ == self@.content,
    {
        self.content.as_slice()
    }

    /// The content decoded as text: present exactly when the content is
    /// valid UTF-8; binary content yields `None`, never an error.
    pub fn content_as_text(&self) -> (r: Option<String>)
        ensures
            r is Some <==> valid_utf8(self@.content),
            r is Some ==> r->0@ == decode_utf8(self@.content),
    {
        bytes_to_text(self.content.as_slice())
    }

    /// The timestamps recorded for the file, if any.
    pub fn metadata(&self) -> (r: Option<Metadata>)
        ensures
            r == self@.metadata,
    {
        self.metadata
    }
}

impl DirEntry {
    /// The absolute path of the entry, whichever variant is active.
    pub fn path(&self) -> (r: &str)
        ensures
            r@ == entry_model_path(self@),
    {
        match self {
            DirEntry::File(f) => f.path(),
            DirEntry::Dir(d) => d.path(),
        }
    }
}

impl Dir {
    /// The children of the directory.
    pub fn children(&self) -> (r: &Vec<DirEntry>)
        ensures
            r@ == self.children@,
            entries_model(r@) == self@.children,
    {
        &self.children
    }

    /// The absolute path of the directory.
    pub fn path(&self) -> (r: &str)
        ensures
            r@ == self@.path,
    {
        self.path.as_str()
    }

    /// Collects every file reachable from the directory into a vector,
    /// depth first, pre-order per directory, consuming the directory.
    pub fn flatten(self) -> (r: Vec<File>)
        ensures
            files_model(r@) == flat_dir(self@),
        decreases self,
    {
        flatten_entries(self.children)
    }
}

/// Flattens one entry: a file stands alone, a directory is flattened.
fn flatten_entry(e: DirEntry) -> (r: Vec<File>)
    ensures
        files_model(r@) == flat_entry(e@),
    decreases e,
{
    match e {
        DirEntry::File(f) => {
            let mut out: Vec<File> = Vec::new();
            out.push(f);
            proof {
                assert(files_model(out@) =~= flat_entry(e@));
            }
            out
        },
        DirEntry::Dir(d) => d.flatten(),
    }
}

/// Flattens a sequence of entries front to back.
fn flatten_entries(entries: Vec<DirEntry>) -> (r: Vec<File>)
    ensures
        files_model(r@) == flat_entries(entries_model(entries@)),
    decreases entries@,
{
    if entries.len() == 0 {
        let out: Vec<File> = Vec::new();
        proof {
            assert(files_model(out@) =~= flat_entries(entries_model(entries@)));
        }
        out
    } else {
        let ghost orig = entries@;
        let mut rest_entries = entries;
        let e = rest_entries.remove(0);
        proof {
            assert(rest_entries@ =~= orig.drop_first());
            assert(decreases_to!(orig => orig[0]));
        }
        let mut out = flatten_entry(e);
        let mut rest = flatten_entries(rest_entries);
        out.append(&mut rest);
        proof {
            lemma_entries_model(orig);
            lemma_entries_model(orig.drop_first());
            assert(entries_model(orig).drop_first() =~= entries_model(orig.drop_first()));
            assert(files_model(out@) =~= flat_entry(entry_model(orig[0])) + flat_entries(
                entries_model(orig.drop_first()),
            ));
        }
        out
    }
}

} // verus!
