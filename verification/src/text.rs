//! Text stored in a box as raw bytes.
use vstd::prelude::*;
use crate::attr::{fixed, AttrRead};
use crate::error::ParseError;
use crate::reader::{Reader, Stream};

verus! {

/// The text that `String::from_utf8_lossy` makes of `bytes`: valid UTF-8 is kept, and
/// every invalid sequence becomes U+FFFD.
pub uninterp spec fn lossy_text(bytes: Seq<u8>) -> Seq<char>;

/// Calls `String::from_utf8_lossy`, which decodes UTF-8 and puts the replacement
/// character in place of what is not valid UTF-8.
#[verifier::external_body]
pub(crate) fn decode_lossy(bytes: &[u8]) -> (text: String)
    ensures
        text@ == lossy_text(bytes@),
{
    String::from_utf8_lossy(bytes).into_owned()
}

/// Bytes that are meant as text, kept beside the text they decode to, so that the
/// bytes can be written back as they were read.
#[derive(Clone, Debug, PartialEq, Eq)]
pub struct RawString {
    raw: Vec<u8>,
    str: String,
}

/// What a `RawString` holds: the bytes, and the text shown for them.
pub struct RawStringModel {
    pub raw: Seq<u8>,
    pub text: Seq<char>,
}

impl DeepView for RawString {
    type V = RawStringModel;

    closed spec fn deep_view(&self) -> RawStringModel {
        RawStringModel { raw: self.raw@, text: self.str@ }
    }
}

impl RawString {
    /// The raw string of these bytes, shown as `text`.
    pub fn from_parts(raw: Vec<u8>, text: String) -> (s: RawString)
        ensures
            s.deep_view() == (RawStringModel { raw: raw@, text: text@ }),
    {
        RawString { raw, str: text }
    }

    /// The raw string of these bytes, shown as their lossy decoding.
    pub fn new(raw: Vec<u8>) -> (s: RawString)
        ensures
            s.deep_view() == (RawStringModel { raw: raw@, text: lossy_text(raw@) }),
    {
        let text = decode_lossy(raw.as_slice());
        Self::from_parts(raw, text)
    }

    /// The bytes as they were read.
    pub fn raw(&self) -> (raw: &[u8])
        ensures
            raw@ == self.deep_view().raw,
    {
        self.raw.as_slice()
    }

    /// The text shown for the bytes.
    pub fn as_str(&self) -> (text: &str)
        ensures
            text@ == self.deep_view().text,
    {
        self.str.as_str()
    }
}

impl AttrRead for RawString {
    /// A raw string takes all the bytes that remain before the limit. Behind the
    /// limit there is nothing to take, and without a limit it asks for more than a
    /// stream holds.
    open spec fn decode(s: Stream) -> (Result<RawStringModel, ParseError>, Stream) {
        if s.remain() < 0 {
            (Err(ParseError::OutOfBounds), s)
        } else {
            fixed(s, s.remain(), |b: Seq<u8>| RawStringModel { raw: b, text: lossy_text(b) })
        }
    }

    fn read_attr(reader: &mut Reader) -> (r: Result<RawString, ParseError>) {
        proof {
            reader.bounds();
        }
        let want: u64 = match reader.limit() {
            None => i64::MAX as u64,
            Some(limit) => {
                if limit < reader.pos() {
                    return Err(ParseError::OutOfBounds);
                }
                limit - reader.pos()
            },
        };
        if want > usize::MAX as u64 {
            return Err(ParseError::UnexpectedEof);
        }
        let raw = reader.read_vec(want as usize)?;
        Ok(Self::new(raw))
    }
}

} // verus!
