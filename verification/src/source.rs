use vstd::prelude::*;
use vstd::slice::slice_subrange;
use vstd::utf8::{decode_utf8, valid_utf8};

use crate::cell::CellValue;
use crate::error::ReadError;
use crate::id::{IdView, ResourceId};

verus! {

/// The ghost shape of a [`Source`]: the identifier it was decoded for and its
/// text.
pub struct SourceView {
    pub id: IdView,
    pub text: Seq<char>,
}

/// The parsed-text view of one resource: the decoded UTF-8 text, tied to the
/// identifier it was loaded for. When the underlying bytes change, a previous
/// value is edited in place with the new text rather than allocated anew, so
/// downstream consumers keep their incremental-reuse opportunities.
#[derive(Debug)]
pub struct Source {
    id: ResourceId,
    text: String,
}

impl View for Source {
    type V = SourceView;

    closed spec fn view(&self) -> SourceView {
        SourceView { id: self.id@, text: self.text@ }
    }
}

impl Source {
    /// A fresh parsed-text value for `id` holding `text`.
    pub fn new(id: ResourceId, text: String) -> (s: Source)
        ensures
            s@.id == id@,
            s@.text == text@,
    {
        Source { id, text }
    }

    /// The identifier this value was decoded for.
    pub fn id(&self) -> (r: &ResourceId)
        ensures
            r@ == self@.id,
    {
        &self.id
    }

    /// The decoded text.
    pub fn text(&self) -> (r: &String)
        ensures
            r@ == self@.text,
    {
        &self.text
    }

    /// Replaces the text in place, keeping the value's identity.
    pub fn replace(&mut self, text: String)
        ensures
            final(self)@.id == old(self)@.id,
            final(self)@.text == text@,
    {
        self.text = text;
    }
}

impl CellValue for Source {
    fn dup(&self) -> (r: Source) {
        Source { id: self.id.dup(), text: self.text.clone() }
    }
}

/// The bytes with a leading UTF-8 byte-order mark removed.
pub open spec fn spec_strip_bom(bytes: Seq<u8>) -> Seq<u8> {
    if bytes.len() >= 3 && bytes[0] == 0xefu8 && bytes[1] == 0xbbu8 && bytes[2] == 0xbfu8 {
        bytes.skip(3)
    } else {
        bytes
    }
}

/// What decoding freshly loaded bytes to text yields: the bytes with an
/// optional byte-order mark stripped must be valid UTF-8, else the decode
/// fails with [`ReadError::InvalidEncoding`]; a previous value keeps its
/// identifier and takes the new text, a fresh value is created for `id`.
pub open spec fn spec_decode_text(id: IdView, bytes: Seq<u8>, prev: Option<SourceView>) -> Result<
    SourceView,
    ReadError,
> {
    let stripped = spec_strip_bom(bytes);
    if !valid_utf8(stripped) {
        Err(ReadError::InvalidEncoding)
    } else {
        let text = decode_utf8(stripped);
        match prev {
            Some(p) => Ok(SourceView { id: p.id, text }),
            None => Ok(SourceView { id, text }),
        }
    }
}

/// The ghost content of an optional previous value.
pub open spec fn opt_source_view(p: Option<Source>) -> Option<SourceView> {
    match p {
        Some(s) => Some(s@),
        None => None,
    }
}

/// Relies on `core::str::from_utf8`: it succeeds exactly on valid UTF-8 and
/// yields the text that those bytes encode.
#[verifier::external_body]
pub(crate) fn utf8_to_string(bytes: &[u8]) -> (r: Option<String>)
    ensures
        r is Some <==> valid_utf8(bytes@),
        (r matches Some(s) ==> s@ == decode_utf8(bytes@)),
{
    match core::str::from_utf8(bytes) {
        Ok(s) => Some(s.to_owned()),
        Err(_) => None,
    }
}

/// Decodes freshly loaded bytes into a parsed-text value: strips an optional
/// UTF-8 byte-order mark, validates UTF-8, and either edits the previous
/// value in place with the new text or creates a fresh one for `id`.
pub fn decode_text(id: &ResourceId, bytes: &Vec<u8>, prev: Option<Source>) -> (r: Result<
    Source,
    ReadError,
>)
    ensures
        crate::cell::result_view(r) == spec_decode_text(id@, bytes@, opt_source_view(prev)),
{
    let has_bom: bool = bytes.len() >= 3 && bytes[0] == 0xef && bytes[1] == 0xbb && bytes[2]
        == 0xbf;
    let stripped: &[u8] = if has_bom {
        slice_subrange(bytes.as_slice(), 3, bytes.len())
    } else {
        bytes.as_slice()
    };
    proof {
        assert(stripped@ =~= spec_strip_bom(bytes@));
    }
    match utf8_to_string(stripped) {
        None => Err(ReadError::InvalidEncoding),
        Some(text) => match prev {
            Some(mut p) => {
                p.replace(text);
                Ok(p)
            },
            None => Ok(Source::new(id.dup(), text)),
        },
    }
}

} // verus!
