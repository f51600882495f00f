//! `mdat`: the media data, which is located but not read.
use vstd::prelude::*;
use crate::boxes::{enter, framed, leave, whole, BoxRead};
use crate::error::ParseError;
use crate::header::{fourcc, tag_is, BoxHeader};
use crate::reader::{Reader, Stream};

verus! {

/// The media data box. Only its place in the stream is kept: its bytes are read on
/// demand.
#[derive(Clone, Copy, Debug, PartialEq, Eq)]
pub struct Mdat {
    pub header: BoxHeader,
    /// The offset of the first byte of the body.
    pub pos: u64,
}

impl DeepView for Mdat {
    type V = Mdat;

    open spec fn deep_view(&self) -> Mdat {
        *self
    }
}

impl Mdat {
    /// Fills `buf` with the bytes that lie `offset` bytes into the body. The reader is
    /// moved there first, and then reads as it always does, under its own limit. An
    /// offset past the largest stream offset is refused.
    pub fn read_exact(&self, reader: &mut Reader, offset: u64, buf: &mut [u8]) -> (r: Result<
        (),
        ParseError,
    >)
        ensures
            self.pos + offset > u64::MAX ==> {
                &&& r == Err::<(), ParseError>(ParseError::InvalidSeek)
                &&& final(reader)@ == old(reader)@
                &&& final(buf)@ == old(buf)@
            },
            self.pos + offset <= u64::MAX ==> ({
                let at = old(reader)@.at(self.pos + offset);
                let n = old(buf)@.len() as int;
                if at.readable(n) {
                    &&& r is Ok
                    &&& final(buf)@ == at.peek(n)
                    &&& final(reader)@ == at.skip(n)
                } else {
                    &&& r == Err::<(), ParseError>(at.shortfall(n))
                    &&& final(buf)@ == old(buf)@
                    &&& final(reader)@ == at
                }
            }),
    {
        if offset > u64::MAX - self.pos {
            return Err(ParseError::InvalidSeek);
        }
        reader.seek_from_start(self.pos + offset)?;
        reader.read_exact(buf)?;
        Ok(())
    }
}

impl BoxRead for Mdat {
    open spec fn accepts(tag: [u8; 4]) -> bool {
        tag == fourcc('m', 'd', 'a', 't')
    }

    /// The body is passed over unread.
    open spec fn parsed(header: BoxHeader, s: Stream) -> (Result<Mdat, ParseError>, Stream) {
        framed(header, s, Self::accepts(header.id), whole(Ok(Mdat { header, pos: s.pos as u64 })))
    }

    proof fn parsed_moves(header: BoxHeader, s: Stream) {
    }

    fn acceptable_tag(tag: [u8; 4]) -> (accepted: bool) {
        tag_is(tag, 'm', 'd', 'a', 't')
    }

    fn read_body(header: BoxHeader, reader: &mut Reader) -> (r: Result<Mdat, ParseError>) {
        enter(&header, Self::acceptable_tag(header.id), reader)?;
        let pos: u64 = reader.pos();
        leave(&header, reader);
        Ok(Mdat { header, pos })
    }
}

} // verus!
