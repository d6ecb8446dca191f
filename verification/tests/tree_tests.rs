use embd::Bytes;
use embd::Dir;
use embd::DirEntry;
use embd::File;
use embd::Text;

fn file(path: &str, content: &[u8]) -> File {
    File {
        path: Text::Owned(path.to_string()),
        content: Bytes::Owned(content.to_vec()),
        metadata: None,
    }
}

#[test]
fn accessors_read_through_owned_buffers() {
    let f = file("/a/x.txt", b"hi");
    assert_eq!(f.path(), "/a/x.txt");
    assert_eq!(f.content(), b"hi");
}

#[test]
fn accessors_read_through_borrowed_buffers() {
    static CONTENT: &[u8] = b"hi";
    let f = File { path: Text::Borrowed("/a/x.txt"), content: Bytes::Borrowed(CONTENT), metadata: None };
    assert_eq!(f.path(), "/a/x.txt");
    assert_eq!(f.content(), b"hi");
}

#[test]
fn entry_path_follows_the_active_variant() {
    let f = DirEntry::File(file("/a/x.txt", b"hi"));
    assert_eq!(f.path(), "/a/x.txt");
    let d = DirEntry::Dir(Dir { path: Text::Owned("/a/b".to_string()), children: vec![] });
    assert_eq!(d.path(), "/a/b");
}

#[test]
fn flatten_is_depth_first_preorder() {
    let tree = Dir {
        path: Text::Owned("/r".to_string()),
        children: vec![
            DirEntry::Dir(Dir {
                path: Text::Owned("/r/a".to_string()),
                children: vec![
                    DirEntry::File(file("/r/a/one", b"1")),
                    DirEntry::File(file("/r/a/two", b"2")),
                ],
            }),
            DirEntry::File(file("/r/three", b"3")),
        ],
    };
    let files = tree.flatten();
    let paths: Vec<&str> = files.iter().map(|f| f.path()).collect();
    assert_eq!(paths, vec!["/r/a/one", "/r/a/two", "/r/three"]);
}

#[test]
fn directories_contribute_no_flattened_entries() {
    let tree = Dir {
        path: Text::Owned("/r".to_string()),
        children: vec![DirEntry::Dir(Dir {
            path: Text::Owned("/r/empty".to_string()),
            children: vec![],
        })],
    };
    assert_eq!(tree.flatten().len(), 0);
}

#[test]
fn content_as_text_decodes_valid_utf8() {
    let f = file("/a/x.txt", b"hi");
    assert_eq!(f.content_as_text(), Some("hi".to_string()));
}

#[test]
fn content_as_text_decodes_multibyte_utf8() {
    let text = "h\u{e9}llo";
    let f = file("/a/x.txt", text.as_bytes());
    assert_eq!(f.content_as_text(), Some(text.to_string()));
}

#[test]
fn content_as_text_yields_nothing_for_binary_content() {
    let f = file("/a/x.bin", &[0xff, 0x00, 0x80]);
    assert_eq!(f.content_as_text(), None);
}

#[test]
fn byte_buffer_length_matches_either_variant() {
    assert_eq!(Bytes::Owned(vec![1, 2, 3]).len(), 3);
    static FIXED: &[u8] = b"abcd";
    assert_eq!(Bytes::Borrowed(FIXED).len(), 4);
}
