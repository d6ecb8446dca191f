use embd::Bytes;
use embd::Dir;
use embd::DirEntry;
use embd::Metadata;
use embd::RawEntry;
use embd::RawNode;
use embd::Timestamp;
use embd::BuildError;
use embd::build;

fn file_entry(name: &[u8], content: &[u8]) -> RawEntry {
    RawEntry {
        name: name.to_vec(),
        node: RawNode::File { content: Bytes::Owned(content.to_vec()), metadata: None },
    }
}

fn dir_entry(name: &[u8], entries: Vec<RawEntry>) -> RawEntry {
    RawEntry { name: name.to_vec(), node: RawNode::Dir { entries } }
}

fn other_entry(name: &[u8]) -> RawEntry {
    RawEntry { name: name.to_vec(), node: RawNode::Other }
}

fn scenario_listing() -> Vec<RawEntry> {
    // Deliberately out of order: the builder must sort.
    vec![
        file_entry(b"x.txt", b"hi"),
        dir_entry(b"b", vec![file_entry(b"y.txt", b"yo")]),
    ]
}

#[test]
fn scenario_two_files_one_subdirectory() {
    let root = build(b"/a", scenario_listing()).unwrap();
    assert_eq!(root.path(), "/a");
    let children = root.children();
    assert_eq!(children.len(), 2);
    match &children[0] {
        DirEntry::Dir(d) => {
            assert_eq!(d.path(), "/a/b");
            assert_eq!(d.children().len(), 1);
            match &d.children()[0] {
                DirEntry::File(f) => {
                    assert_eq!(f.path(), "/a/b/y.txt");
                    assert_eq!(f.content(), b"yo");
                }
                DirEntry::Dir(_) => panic!("expected a file"),
            }
        }
        DirEntry::File(_) => panic!("expected a directory first"),
    }
    match &children[1] {
        DirEntry::File(f) => {
            assert_eq!(f.path(), "/a/x.txt");
            assert_eq!(f.content(), b"hi");
        }
        DirEntry::Dir(_) => panic!("expected a file second"),
    }

    let files = root.flatten();
    assert_eq!(files.len(), 2);
    assert_eq!(files[0].path(), "/a/b/y.txt");
    assert_eq!(files[0].content(), b"yo");
    assert_eq!(files[1].path(), "/a/x.txt");
    assert_eq!(files[1].content(), b"hi");
}

/// Walks a tree without consuming it, in stored order.
fn listing(d: &Dir) -> Vec<(String, Vec<u8>)> {
    let mut out = Vec::new();
    collect(d, &mut out);
    out
}

fn collect(d: &Dir, out: &mut Vec<(String, Vec<u8>)>) {
    for c in d.children() {
        match c {
            DirEntry::Dir(sub) => collect(sub, out),
            DirEntry::File(f) => out.push((f.path().to_string(), f.content().to_vec())),
        }
    }
}

#[test]
fn rebuilding_an_unmodified_listing_is_deterministic() {
    let first = build(b"/a", scenario_listing()).unwrap();
    let second = build(b"/a", scenario_listing()).unwrap();
    assert_eq!(listing(&first), listing(&second));
    let flat_first: Vec<(String, Vec<u8>)> = first
        .flatten()
        .into_iter()
        .map(|f| (f.path().to_string(), f.content().to_vec()))
        .collect();
    let flat_second: Vec<(String, Vec<u8>)> = second
        .flatten()
        .into_iter()
        .map(|f| (f.path().to_string(), f.content().to_vec()))
        .collect();
    assert_eq!(flat_first, flat_second);
}

#[test]
fn live_and_embedded_listings_build_identical_trees() {
    static EMBEDDED_HI: &[u8] = b"hi";
    static EMBEDDED_YO: &[u8] = b"yo";
    let live = scenario_listing();
    let embedded = vec![
        RawEntry {
            name: b"x.txt".to_vec(),
            node: RawNode::File { content: Bytes::Borrowed(EMBEDDED_HI), metadata: None },
        },
        RawEntry {
            name: b"b".to_vec(),
            node: RawNode::Dir {
                entries: vec![RawEntry {
                    name: b"y.txt".to_vec(),
                    node: RawNode::File { content: Bytes::Borrowed(EMBEDDED_YO), metadata: None },
                }],
            },
        },
    ];
    let from_live = build(b"/a", live).unwrap();
    let from_embedded = build(b"/a", embedded).unwrap();
    assert_eq!(listing(&from_live), listing(&from_embedded));
    assert_eq!(from_live.path(), from_embedded.path());
}

#[test]
fn symlinks_and_sockets_are_skipped_without_error() {
    let mut entries = scenario_listing();
    // A skipped entry's name is never decoded, not even an undecodable one.
    entries.push(other_entry(&[0xff, 0x00, b'!']));
    entries.push(other_entry(b"link"));
    let root = build(b"/a", entries).unwrap();
    assert_eq!(root.children().len(), 2);
    let files = root.flatten();
    assert_eq!(files.len(), 2);
    assert_eq!(files[0].path(), "/a/b/y.txt");
    assert_eq!(files[1].path(), "/a/x.txt");
}

#[test]
fn undecodable_file_name_is_fatal() {
    let entries = vec![file_entry(&[0xff, 0xfe], b"data")];
    match build(b"/a", entries) {
        Err(BuildError::Encoding { path }) => assert_eq!(path, vec![0xff, 0xfe]),
        _ => panic!("expected an encoding failure"),
    }
}

#[test]
fn undecodable_nested_name_is_fatal() {
    let entries = vec![dir_entry(b"sub", vec![file_entry(&[0x80], b"data")])];
    match build(b"/a", entries) {
        Err(BuildError::Encoding { path }) => assert_eq!(path, vec![0x80]),
        _ => panic!("expected an encoding failure"),
    }
}

#[test]
fn undecodable_root_path_is_fatal() {
    match build(&[0xc0, 0x2f], vec![]) {
        Err(BuildError::Encoding { path }) => assert_eq!(path, vec![0xc0, 0x2f]),
        _ => panic!("expected an encoding failure"),
    }
}

#[test]
fn multibyte_names_are_decoded_not_copied() {
    // "u\u{308}" is two bytes in UTF-8; handing the bytes through unchanged
    // would not produce this string.
    let name: Vec<u8> = "\u{fc}.txt".as_bytes().to_vec();
    let root = build(b"/a", vec![file_entry(&name, b"x")]).unwrap();
    let files = root.flatten();
    assert_eq!(files[0].path(), "/a/\u{fc}.txt");
}

#[test]
fn children_are_sorted_across_kinds() {
    let entries = vec![
        file_entry(b"zz.txt", b"1"),
        dir_entry(b"aa", vec![]),
        file_entry(b"mm.bin", b"2"),
    ];
    let root = build(b"/r", entries).unwrap();
    let paths: Vec<String> = root
        .children()
        .iter()
        .map(|c| c.path().to_string())
        .collect();
    assert_eq!(paths, vec!["/r/aa".to_string(), "/r/mm.bin".to_string(), "/r/zz.txt".to_string()]);
}

#[test]
fn empty_listing_builds_an_empty_directory() {
    let root = build(b"/empty", vec![]).unwrap();
    assert_eq!(root.path(), "/empty");
    assert_eq!(root.children().len(), 0);
    assert_eq!(root.flatten().len(), 0);
}

#[test]
fn metadata_is_kept_when_present() {
    let stamp = Timestamp { secs: 1_700_000_000, nanos: 42 };
    let md = Metadata { accessed: stamp, created: stamp, modified: stamp };
    let entries = vec![RawEntry {
        name: b"f".to_vec(),
        node: RawNode::File { content: Bytes::Owned(vec![1, 2, 3]), metadata: Some(md) },
    }];
    let root = build(b"/m", entries).unwrap();
    let files = root.flatten();
    assert_eq!(files[0].metadata(), Some(md));

    let bare = build(b"/m", vec![file_entry(b"g", b"")]).unwrap();
    assert_eq!(bare.flatten()[0].metadata(), None);
}
