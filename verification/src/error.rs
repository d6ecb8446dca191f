//! Why a build aborts.
//!
//! Every failure is fatal: a build either returns a whole tree or one of
//! these errors, never a partial tree. Paths are carried as the bytes that
//! were being resolved when the failure was found, since an undecodable path
//! is itself one of the failures.

use vstd::prelude::*;

use crate::buf::bytes_to_text;
use crate::buf::lemma_ascii_bytes_decode;
use crate::buf::lemma_decode_utf8_concat;

verus! {

use vstd::slice::slice_to_vec;
use vstd::utf8::decode_utf8;
use vstd::utf8::encode_utf8;
use vstd::utf8::valid_utf8;

/// A fatal build failure.
#[derive(Debug)]
pub enum BuildError {
    /// The anchor path has no parent directory to resolve against.
    NoParent {
        /// The anchor as given.
        anchor: Vec<u8>,
    },
    /// The resolved target names the anchor's own location, which is not a
    /// directory.
    InvalidTarget {
        /// The resolved path.
        path: Vec<u8>,
    },
    /// The requested root does not exist.
    RootNotFound {
        /// The path that could not be resolved.
        path: Vec<u8>,
    },
    /// The requested root exists but is not a directory.
    NotADirectory {
        /// The resolved root path.
        path: Vec<u8>,
    },
    /// A path is not representable as text.
    Encoding {
        /// The bytes that are not valid UTF-8.
        path: Vec<u8>,
    },
    /// Listing a directory, reading a file or inspecting an entry failed.
    Io {
        /// The path the operation was applied to.
        path: Vec<u8>,
        /// The underlying cause, as reported by the operation.
        cause: String,
    },
}

/// Path bytes rendered printably: ASCII graphic characters and the space
/// stand for themselves, every other byte becomes a question mark.
pub open spec fn printable_bytes(b: Seq<u8>) -> Seq<u8> {
    Seq::new(b.len(), |i: int| if 32 <= b[i] && b[i] < 127 { b[i] } else { 63u8 })
}

/// The one-line description of a failure: what went wrong, and the path it
/// concerns.
pub open spec fn message_model(e: BuildError) -> Seq<char> {
    match e {
        BuildError::NoParent { anchor } => "no parent directory for "@ + decode_utf8(
            printable_bytes(anchor@),
        ),
        BuildError::InvalidTarget { path } => "cannot embed a non-directory target: "@
            + decode_utf8(printable_bytes(path@)),
        BuildError::RootNotFound { path } => "failed to resolve path: "@ + decode_utf8(
            printable_bytes(path@),
        ),
        BuildError::NotADirectory { path } => "not a directory: "@ + decode_utf8(
            printable_bytes(path@),
        ),
        BuildError::Encoding { path } => "path is not valid text: "@ + decode_utf8(
            printable_bytes(path@),
        ),
        BuildError::Io { path, cause } => "failed to read "@ + decode_utf8(
            printable_bytes(path@),
        ) + ": "@ + cause@,
    }
}

/// Printably rendered bytes are a valid encoding.
proof fn lemma_printable_bytes_decode(b: Seq<u8>)
    ensures
        valid_utf8(printable_bytes(b)),
{
    lemma_ascii_bytes_decode(printable_bytes(b));
}

/// Appends the prefix's encoding and the printable rendering of `path`.
fn render_path(prefix: &str, path: &[u8]) -> (r: Vec<u8>)
    ensures
        r@ == encode_utf8(prefix@) + printable_bytes(path@),
{
    let mut out: Vec<u8> = slice_to_vec(prefix.as_bytes());
    proof {
        assert(out@ =~= encode_utf8(prefix@) + printable_bytes(path@).take(0));
    }
    let mut i: usize = 0;
    while i < path.len()
        invariant
            i <= path@.len(),
            out@ == encode_utf8(prefix@) + printable_bytes(path@).take(i as int),
        decreases path@.len() - i,
    {
        let b = path[i];
        if 32 <= b && b < 127 {
            out.push(b);
        } else {
            out.push(63);
        }
        proof {
            assert(printable_bytes(path@).take(i + 1 as int) =~= printable_bytes(
                path@,
            ).take(i as int).push(printable_bytes(path@)[i as int]));
            assert(out@ =~= encode_utf8(prefix@) + printable_bytes(path@).take(i + 1 as int));
        }
        i = i + 1;
    }
    proof {
        assert(printable_bytes(path@).take(path@.len() as int) =~= printable_bytes(path@));
    }
    out
}

/// Turns rendered bytes into text: the prefix's encoding round-trips, and
/// the printable rendering is ASCII.
fn finish_message(bytes: Vec<u8>, Ghost(prefix): Ghost<Seq<char>>, Ghost(path): Ghost<Seq<u8>>) -> (r:
    String)
    requires
        bytes@ == encode_utf8(prefix) + printable_bytes(path),
    ensures
        r@ == prefix + decode_utf8(printable_bytes(path)),
{
    proof {
        vstd::utf8::encode_utf8_valid_utf8(prefix);
        vstd::utf8::encode_utf8_decode_utf8(prefix);
        lemma_printable_bytes_decode(path);
        lemma_decode_utf8_concat(encode_utf8(prefix), printable_bytes(path));
    }
    match bytes_to_text(bytes.as_slice()) {
        Some(s) => s,
        None => vstd::pervasive::unreached(),
    }
}

impl BuildError {
    /// Describes the failure in one line, naming the path it concerns;
    /// path bytes with no printable form appear as question marks.
    pub fn message(&self) -> (r: String)
        ensures
            r@ == message_model(*self),
    {
        match self {
            BuildError::NoParent { anchor } => finish_message(
                render_path("no parent directory for ", anchor.as_slice()),
                Ghost("no parent directory for "@),
                Ghost(anchor@),
            ),
            BuildError::InvalidTarget { path } => finish_message(
                render_path("cannot embed a non-directory target: ", path.as_slice()),
                Ghost("cannot embed a non-directory target: "@),
                Ghost(path@),
            ),
            BuildError::RootNotFound { path } => finish_message(
                render_path("failed to resolve path: ", path.as_slice()),
                Ghost("failed to resolve path: "@),
                Ghost(path@),
            ),
            BuildError::NotADirectory { path } => finish_message(
                render_path("not a directory: ", path.as_slice()),
                Ghost("not a directory: "@),
                Ghost(path@),
            ),
            BuildError::Encoding { path } => finish_message(
                render_path("path is not valid text: ", path.as_slice()),
                Ghost("path is not valid text: "@),
                Ghost(path@),
            ),
            BuildError::Io { path, cause } => {
                let mut bytes = render_path("failed to read ", path.as_slice());
                let mut sep: Vec<u8> = slice_to_vec(": ".as_bytes());
                bytes.append(&mut sep);
                let mut tail: Vec<u8> = slice_to_vec(cause.as_str().as_bytes());
                bytes.append(&mut tail);
                proof {
                    let a = encode_utf8("failed to read "@) + printable_bytes(path@);
                    vstd::utf8::encode_utf8_valid_utf8("failed to read "@);
                    vstd::utf8::encode_utf8_decode_utf8("failed to read "@);
                    lemma_printable_bytes_decode(path@);
                    lemma_decode_utf8_concat(
                        encode_utf8("failed to read "@),
                        printable_bytes(path@),
                    );
                    vstd::utf8::encode_utf8_valid_utf8(": "@);
                    vstd::utf8::encode_utf8_decode_utf8(": "@);
                    lemma_decode_utf8_concat(a, encode_utf8(": "@));
                    vstd::utf8::encode_utf8_valid_utf8(cause@);
                    vstd::utf8::encode_utf8_decode_utf8(cause@);
                    lemma_decode_utf8_concat(a + encode_utf8(": "@), encode_utf8(cause@));
                    assert(bytes@ =~= (a + encode_utf8(": "@)) + encode_utf8(cause@));
                    assert(decode_utf8(bytes@) =~= message_model(*self));
                }
                match bytes_to_text(bytes.as_slice()) {
                    Some(s) => s,
                    None => vstd::pervasive::unreached(),
                }
            },
        }
    }
}

} // verus!
