//! Four-character tags and the eight-byte header that starts every box.
use vstd::prelude::*;
use crate::bytes::{array_of, be_u32, u32_from_be};
use crate::error::ParseError;
use crate::reader::{Reader, Stream};
use crate::text::{decode_lossy, lossy_text};

verus! {

/// The tag spelled by four ASCII characters.
pub open spec fn fourcc(a: char, b: char, c: char, d: char) -> [u8; 4] {
    array_of::<4>(seq![a as u8, b as u8, c as u8, d as u8])
}

/// Whether `tag` is spelled by the four characters.
pub fn tag_is(tag: [u8; 4], a: char, b: char, c: char, d: char) -> (same: bool)
    requires
        (a as u32) < 256,
        (b as u32) < 256,
        (c as u32) < 256,
        (d as u32) < 256,
    ensures
        same == (tag == fourcc(a, b, c, d)),
{
    let same: bool = tag[0] == a as u8 && tag[1] == b as u8 && tag[2] == c as u8 && tag[3]
        == d as u8;
    proof {
        let spelled = seq![a as u8, b as u8, c as u8, d as u8];
        if same {
            assert(tag@ =~= spelled);
            crate::bytes::lemma_array_of::<4>(tag);
        } else if tag == fourcc(a, b, c, d) {
            crate::bytes::lemma_array_of::<4>(tag);
            assert(tag@ == spelled);
            assert(tag@[0] == spelled[0] && tag@[1] == spelled[1]);
            assert(tag@[2] == spelled[2] && tag@[3] == spelled[3]);
        }
    }
    same
}

/// A four-byte identifier, compared byte by byte.
#[derive(Clone, Copy, Debug, PartialEq, Eq)]
pub struct U32Tag {
    pub raw: [u8; 4],
}

impl DeepView for U32Tag {
    type V = U32Tag;

    open spec fn deep_view(&self) -> U32Tag {
        *self
    }
}

/// The lower-case hexadecimal digit for a number under sixteen, as an ASCII byte.
pub open spec fn hex_digit(n: u8) -> u8 {
    if n < 10 {
        (48 + n) as u8
    } else {
        (87 + n) as u8
    }
}

/// The two hexadecimal digits of a byte.
pub open spec fn hex_pair(b: u8) -> Seq<u8> {
    seq![hex_digit(b / 16), hex_digit(b % 16)]
}

/// The lower-case hexadecimal digit for a number under sixteen, as an ASCII byte.
fn hex(n: u8) -> (digit: u8)
    requires
        n < 16,
    ensures
        digit == hex_digit(n),
{
    if n < 10 {
        48 + n
    } else {
        87 + n
    }
}

impl U32Tag {
    /// The bytes of the text by which a tag is shown: between angle brackets, the tag
    /// itself in double quotes, a colon, and the four bytes in hexadecimal, the last
    /// byte first.
    pub open spec fn shown(raw: Seq<u8>) -> Seq<u8> {
        seq![60u8, 34] + raw + seq![34u8, 58, 32, 48, 120] + hex_pair(raw[3]) + hex_pair(raw[2])
            + hex_pair(raw[1]) + hex_pair(raw[0]) + seq![62u8]
    }

    /// The tag as text for a message: `<"ftyp": 0x70797466>` for the tag `ftyp`. Bytes
    /// of the tag that are not text are shown by the replacement character.
    pub fn describe(&self) -> (text: String)
        ensures
            text@ == lossy_text(Self::shown(self.raw@)),
    {
        let mut bytes: Vec<u8> = Vec::new();
        bytes.push(60);
        bytes.push(34);
        bytes.push(self.raw[0]);
        bytes.push(self.raw[1]);
        bytes.push(self.raw[2]);
        bytes.push(self.raw[3]);
        bytes.push(34);
        bytes.push(58);
        bytes.push(32);
        bytes.push(48);
        bytes.push(120);
        bytes.push(hex(self.raw[3] / 16));
        bytes.push(hex(self.raw[3] % 16));
        bytes.push(hex(self.raw[2] / 16));
        bytes.push(hex(self.raw[2] % 16));
        bytes.push(hex(self.raw[1] / 16));
        bytes.push(hex(self.raw[1] % 16));
        bytes.push(hex(self.raw[0] / 16));
        bytes.push(hex(self.raw[0] % 16));
        bytes.push(62);
        assert(bytes@ =~= Self::shown(self.raw@));
        decode_lossy(bytes.as_slice())
    }
}

/// The first eight bytes of a box: its total size, header included, and its tag.
#[derive(Clone, Copy, Debug, PartialEq, Eq)]
pub struct BoxHeader {
    pub id: [u8; 4],
    pub size: u32,
}

impl DeepView for BoxHeader {
    type V = BoxHeader;

    open spec fn deep_view(&self) -> BoxHeader {
        *self
    }
}

impl BoxHeader {
    /// A header is well formed when its size covers the header itself.
    pub open spec fn wf(&self) -> bool {
        self.size >= 8
    }

    /// The number of bytes that follow the header.
    pub open spec fn body_len(&self) -> int {
        self.size - 8
    }

    /// What reading a header at `s` gives: four bytes of big-endian size, then four
    /// bytes of tag. A size under eight is refused once both have been read.
    pub open spec fn decode(s: Stream) -> (Result<BoxHeader, ParseError>, Stream) {
        if !s.readable(4) {
            (Err(s.shortfall(4)), s)
        } else if !s.skip(4).readable(4) {
            (Err(s.skip(4).shortfall(4)), s.skip(4))
        } else {
            let size = u32_from_be(s.peek(4));
            let id = array_of::<4>(s.skip(4).peek(4));
            if size < 8 {
                (Err(ParseError::InvalidData { tag: id }), s.skip(8))
            } else {
                (Ok(BoxHeader { id, size }), s.skip(8))
            }
        }
    }

    /// Reads the header of the next box.
    pub fn read(reader: &mut Reader) -> (r: Result<BoxHeader, ParseError>)
        ensures
            (r, final(reader)@) == Self::decode(old(reader)@),
            r matches Ok(header) ==> header.wf(),
    {
        let mut size: [u8; 4] = [0u8; 4];
        let mut id: [u8; 4] = [0u8; 4];
        match reader.read_exact(&mut size) {
            Err(e) => { return Err(e); },
            Ok(_) => {},
        }
        match reader.read_exact(&mut id) {
            Err(e) => { return Err(e); },
            Ok(_) => {},
        }
        proof {
            crate::bytes::lemma_array_of::<4>(id);
        }
        let size: u32 = be_u32(&size);
        if size < 8 {
            return Err(ParseError::InvalidData { tag: id });
        }
        Ok(BoxHeader { id, size })
    }

    /// The number of bytes that follow the header.
    pub fn body_size(&self) -> (n: usize)
        requires
            self.wf(),
        ensures
            n == self.body_len(),
    {
        (self.size - 8) as usize
    }
}

} // verus!
