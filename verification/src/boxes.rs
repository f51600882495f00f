//! Boxes: how a body is entered and left, and how a box is read as one value.
use vstd::prelude::*;
use crate::attr::{modeled, AttrRead};
use crate::error::ParseError;
use crate::header::BoxHeader;
use crate::reader::{Reader, Stream};

verus! {

/// Whether `t` is the stream `s` with the cursor moved from the first byte of the
/// body of the box with this header to the first byte behind it.
pub open spec fn past_body(header: BoxHeader, s: Stream, t: Stream) -> bool {
    &&& header.wf()
    &&& s.pos + header.body_len() <= u64::MAX
    &&& t == s.skip(header.body_len())
}

/// Why the body of a box with this header is not entered at all, if it is not: the
/// header is malformed or its tag is not `accepted`, or the body would end past the
/// largest offset.
pub open spec fn refusal(header: BoxHeader, s: Stream, accepted: bool) -> Option<ParseError> {
    if !header.wf() || !accepted {
        Some(ParseError::InvalidData { tag: header.id })
    } else if s.pos + header.body_len() > u64::MAX {
        Some(ParseError::InvalidSeek)
    } else {
        None
    }
}

/// What reading the body of a box does to the reader that stands at the body's first
/// byte. A refused box leaves the reader where it was. Otherwise the body is read
/// through a second handle confined to it: `content` is what that reading gives. If
/// it fails, the reader stays where it was. If it succeeds, the reader moves past the
/// whole body, whatever part of it was read, and the box is completed, which may fail
/// in its turn.
pub open spec fn framed<V>(
    header: BoxHeader,
    s: Stream,
    accepted: bool,
    content: Result<Result<V, ParseError>, ParseError>,
) -> (Result<V, ParseError>, Stream) {
    match refusal(header, s, accepted) {
        Some(e) => (Err(e), s),
        None => match content {
            Err(e) => (Err(e), s),
            Ok(completed) => (completed, s.skip(header.body_len())),
        },
    }
}

/// The content of a box that is complete as soon as its body has been read.
pub open spec fn whole<V>(content: Result<V, ParseError>) -> Result<
    Result<V, ParseError>,
    ParseError,
> {
    match content {
        Ok(v) => Ok(Ok(v)),
        Err(e) => Err(e),
    }
}

/// A box type: the tags it answers to, and how its body is read.
pub trait BoxRead: Sized + DeepView {
    /// Whether a box with this tag is of this type.
    spec fn accepts(tag: [u8; 4]) -> bool;

    /// What reading the body of a box with this header gives, and where it leaves
    /// the reader, which stood at `s`, at the first byte of the body.
    spec fn parsed(header: BoxHeader, s: Stream) -> (
        Result<<Self as DeepView>::V, ParseError>,
        Stream,
    );

    /// Reading a body leaves the reader where it was or just past the body. After a
    /// box that was read the reader stands just past the body, whatever part of the
    /// body the box took. A box with a tag that the type does not accept is refused
    /// with the reader where it was.
    proof fn parsed_moves(header: BoxHeader, s: Stream)
        ensures
            Self::parsed(header, s).1 == s || past_body(header, s, Self::parsed(header, s).1),
            Self::parsed(header, s).0 is Ok ==> past_body(header, s, Self::parsed(header, s).1),
            !Self::accepts(header.id) ==> Self::parsed(header, s) == (
                Err::<<Self as DeepView>::V, ParseError>(
                    ParseError::InvalidData { tag: header.id },
                ),
                s,
            ),
    ;

    /// Whether a box with this tag is of this type.
    fn acceptable_tag(tag: [u8; 4]) -> (accepted: bool)
        ensures
            accepted == Self::accepts(tag),
    ;

    /// Reads the body of a box whose header has just been read.
    fn read_body(header: BoxHeader, reader: &mut Reader) -> (r: Result<Self, ParseError>)
        ensures
            (modeled(r), final(reader)@) == Self::parsed(header, old(reader)@),
    ;
}

/// A whole stream read as one value.
pub trait RootRead: Sized + DeepView {
    /// What reading the stream from `s` on gives.
    spec fn decoded(s: Stream) -> Result<<Self as DeepView>::V, ParseError>;

    /// Reads the boxes that lie between the reader's cursor and its limit. The
    /// reader itself stays where it is.
    fn read(reader: &mut Reader) -> (r: Result<Self, ParseError>)
        ensures
            modeled(r) == Self::decoded(old(reader)@),
            final(reader)@ == old(reader)@,
    ;
}

/// A second handle for reading the body of the box with this header, confined to the
/// body; `reader` stands at the body's first byte.
pub fn enter<'a>(header: &BoxHeader, accepted: bool, reader: &Reader<'a>) -> (r: Result<
    Reader<'a>,
    ParseError,
>)
    ensures
        match r {
            Ok(sub) => {
                &&& refusal(*header, reader@, accepted) is None
                &&& sub@ == reader@.confined(header.body_len())
            },
            Err(e) => refusal(*header, reader@, accepted) == Some(e),
        },
{
    if header.size < 8 || !accepted {
        return Err(ParseError::InvalidData { tag: header.id });
    }
    let n: u64 = header.body_size() as u64;
    proof {
        reader.bounds();
    }
    if n > u64::MAX - reader.pos() {
        return Err(ParseError::InvalidSeek);
    }
    let mut sub: Reader<'a> = reader.clone();
    sub.set_limit(n);
    Ok(sub)
}

/// Moves `reader` from the first byte of the body of the box with this header to the
/// first byte after it.
pub fn leave(header: &BoxHeader, reader: &mut Reader)
    requires
        header.wf(),
        old(reader)@.pos + header.body_len() <= u64::MAX,
    ensures
        final(reader)@ == old(reader)@.skip(header.body_len()),
{
    proof {
        reader.bounds();
    }
    let n: i64 = header.body_size() as i64;
    let moved = reader.seek_from_current(n);
    assert(moved is Ok);
}

impl<T: BoxRead> AttrRead for T {
    /// A box as a value: its header, then its body. A header with a tag that the
    /// type does not accept is refused with the reader just past the header.
    open spec fn decode(s: Stream) -> (Result<<T as DeepView>::V, ParseError>, Stream) {
        match BoxHeader::decode(s) {
            (Err(e), t) => (Err(e), t),
            (Ok(header), t) => {
                if T::accepts(header.id) {
                    T::parsed(header, t)
                } else {
                    (Err(ParseError::InvalidData { tag: header.id }), t)
                }
            },
        }
    }

    fn read_attr(reader: &mut Reader) -> (r: Result<T, ParseError>) {
        let header: BoxHeader = match BoxHeader::read(reader) {
            Ok(header) => header,
            Err(e) => { return Err(e); },
        };
        if T::acceptable_tag(header.id) {
            T::read_body(header, reader)
        } else {
            Err(ParseError::InvalidData { tag: header.id })
        }
    }
}

/// A box that is read as a value moves the reader by the size that its header
/// declares: eight bytes of header, and the body.
pub proof fn lemma_box_moves_by_size<T: BoxRead>(s: Stream)
    requires
        <T as AttrRead>::decode(s).0 is Ok,
    ensures
        BoxHeader::decode(s).0 is Ok,
        <T as AttrRead>::decode(s).1 == s.skip(BoxHeader::decode(s).0->Ok_0.size as int),
{
    let (header, t) = BoxHeader::decode(s);
    T::parsed_moves(header->Ok_0, t);
}

/// A box whose tag the type does not accept is refused once its header has been
/// read: the reader stands behind the header, and nothing of the body is read.
pub proof fn lemma_unaccepted_box<T: BoxRead>(s: Stream)
    requires
        BoxHeader::decode(s).0 matches Ok(header) && !T::accepts(header.id),
    ensures
        <T as AttrRead>::decode(s) == (
            Err::<<T as DeepView>::V, ParseError>(
                ParseError::InvalidData { tag: BoxHeader::decode(s).0->Ok_0.id },
            ),
            s.skip(8),
        ),
{
}

} // verus!
