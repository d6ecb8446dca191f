//! Maybe-owned byte and text buffers.
//!
//! Live-mode snapshots own their data; embedded-mode snapshots reference
//! storage that lives as long as the artifact. Both are read through the same
//! accessors, and the view of a buffer is the data alone, so contracts never
//! depend on which variant backs a value.

use vstd::prelude::*;

verus! {

use vstd::utf8::decode_utf8;
use vstd::utf8::encode_scalar;
use vstd::utf8::encode_utf8;
use vstd::utf8::valid_utf8;

/// Relies on `core::str::from_utf8`: it succeeds exactly on UTF-8-valid input
/// and decodes it. The copy into an owned `String` changes nothing.
#[verifier::external_body]
pub fn bytes_to_text(b: &[u8]) -> (r: Option<String>)
    ensures
        r is Some <==> valid_utf8(b@),
        r is Some ==> r->0@ == decode_utf8(b@),
{
    match core::str::from_utf8(b) {
        Ok(s) => Some(s.to_owned()),
        Err(_) => None,
    }
}

/// Encoding distributes over concatenation of character sequences.
pub proof fn lemma_encode_utf8_concat(c1: Seq<char>, c2: Seq<char>)
    ensures
        encode_utf8(c1 + c2) == encode_utf8(c1) + encode_utf8(c2),
    decreases c1.len(),
{
    if c1.len() == 0 {
        assert(c1 + c2 =~= c2);
        assert(encode_utf8(c1) + encode_utf8(c2) =~= encode_utf8(c2));
    } else {
        lemma_encode_utf8_concat(c1.drop_first(), c2);
        assert((c1 + c2).drop_first() =~= c1.drop_first() + c2);
        assert((c1 + c2)[0] == c1[0]);
        assert(encode_scalar(c1[0] as u32) + (encode_utf8(c1.drop_first()) + encode_utf8(c2))
            =~= (encode_scalar(c1[0] as u32) + encode_utf8(c1.drop_first())) + encode_utf8(c2));
    }
}

/// Decoding distributes over concatenation of two valid encodings.
pub proof fn lemma_decode_utf8_concat(a: Seq<u8>, b: Seq<u8>)
    requires
        valid_utf8(a),
        valid_utf8(b),
    ensures
        valid_utf8(a + b),
        decode_utf8(a + b) == decode_utf8(a) + decode_utf8(b),
{
    vstd::utf8::valid_utf8_concat(a, b);
    vstd::utf8::decode_utf8_encode_utf8(a);
    vstd::utf8::decode_utf8_encode_utf8(b);
    lemma_encode_utf8_concat(decode_utf8(a), decode_utf8(b));
    assert(a + b == encode_utf8(decode_utf8(a) + decode_utf8(b)));
    vstd::utf8::encode_utf8_decode_utf8(decode_utf8(a) + decode_utf8(b));
}

/// Bytes below 128 are a valid encoding and decode to themselves, character
/// for character.
pub proof fn lemma_ascii_bytes_decode(b: Seq<u8>)
    requires
        forall|i: int| 0 <= i < b.len() ==> b[i] < 128,
    ensures
        valid_utf8(b),
        decode_utf8(b) == Seq::new(b.len(), |i: int| b[i] as char),
{
    let chars = Seq::new(b.len(), |i: int| b[i] as char);
    assert(vstd::utf8::is_ascii_chars(chars)) by {
        assert forall|i: int| 0 <= i < chars.len() implies '\0' <= #[trigger] chars[i]
            <= '\u{7f}' by {
            assert(b[i] < 128);
            assert(chars[i] == b[i] as char);
        }
    }
    vstd::utf8::is_ascii_chars_encode_utf8(chars);
    assert(encode_utf8(chars) =~= b);
    vstd::utf8::encode_utf8_valid_utf8(chars);
    vstd::utf8::encode_utf8_decode_utf8(chars);
}

/// The single byte 47 is the encoding of the path separator.
pub proof fn lemma_slash_bytes()
    ensures
        encode_utf8(seq!['/']) == seq![47u8],
        valid_utf8(seq![47u8]),
        decode_utf8(seq![47u8]) == seq!['/'],
{
    let s = seq!['/'];
    assert(vstd::utf8::is_ascii_chars(s)) by {
        assert(s[0] == '/');
    }
    vstd::utf8::is_ascii_chars_encode_utf8(s);
    assert(encode_utf8(s)[0] == '/' as u8);
    assert(encode_utf8(s) =~= seq![47u8]);
    vstd::utf8::encode_utf8_valid_utf8(s);
    vstd::utf8::encode_utf8_decode_utf8(s);
}

/// An immutable byte buffer: either an owned allocation or a borrow with
/// unbounded lifetime.
#[derive(Debug, Clone)]
pub enum Bytes {
    /// A buffer owned by the snapshot; dropping the snapshot frees it.
    Owned(Vec<u8>),
    /// A reference into artifact-lifetime storage; cloning copies no bytes.
    Borrowed(&'static [u8]),
}

impl View for Bytes {
    type V = Seq<u8>;

    open spec fn view(&self) -> Seq<u8> {
        match self {
            Bytes::Owned(v) => v@,
            Bytes::Borrowed(s) => s@,
        }
    }
}

impl Bytes {
    /// The buffered bytes, whichever variant backs them.
    pub fn as_slice(&self) -> (r: &[u8])
        ensures
            r@ == self@,
    {
        match self {
            Bytes::Owned(v) => v.as_slice(),
            Bytes::Borrowed(s) => s,
        }
    }

    /// The number of buffered bytes.
    pub fn len(&self) -> (r: usize)
        ensures
            r == self@.len(),
    {
        match self {
            Bytes::Owned(v) => v.len(),
            Bytes::Borrowed(s) => s.len(),
        }
    }
}

/// An immutable text buffer: either an owned allocation or a borrow with
/// unbounded lifetime.
#[derive(Debug, Clone)]
pub enum Text {
    /// A string owned by the snapshot.
    Owned(String),
    /// A reference into artifact-lifetime storage.
    Borrowed(&'static str),
}

impl View for Text {
    type V = Seq<char>;

    open spec fn view(&self) -> Seq<char> {
        match self {
            Text::Owned(s) => s@,
            Text::Borrowed(s) => s@,
        }
    }
}

impl Text {
    /// The buffered text, whichever variant backs it.
    pub fn as_str(&self) -> (r: &str)
        ensures
            r@ == self@,
    {
        match self {
            Text::Owned(s) => s.as_str(),
            Text::Borrowed(s) => s,
        }
    }
}

} // verus!
