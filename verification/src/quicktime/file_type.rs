//! `ftyp`: the brands a file claims to follow.
use vstd::prelude::*;
use crate::attr::{decode_list, AttrRead};
use crate::boxes::{enter, framed, leave, whole, BoxRead};
use crate::bytes::{array_at, array_of};
use crate::error::ParseError;
use crate::header::{fourcc, tag_is, BoxHeader, U32Tag};
use crate::reader::{Reader, Stream};
use crate::record::{fields, read_fields, span};

verus! {

/// The file type box: the brand the file was written for, and the brands it can be
/// read as.
#[derive(Clone, Debug, PartialEq, Eq)]
pub struct Ftyp {
    pub header: BoxHeader,
    pub major_brand: U32Tag,
    pub minor_version: U32Tag,
    /// The brands that fill the rest of the body.
    pub compatible_brands: Vec<U32Tag>,
}

/// What a `ftyp` box holds.
pub struct FtypModel {
    pub header: BoxHeader,
    pub major_brand: U32Tag,
    pub minor_version: U32Tag,
    pub compatible_brands: Seq<U32Tag>,
}

impl DeepView for Ftyp {
    type V = FtypModel;

    open spec fn deep_view(&self) -> FtypModel {
        FtypModel {
            header: self.header,
            major_brand: self.major_brand,
            minor_version: self.minor_version,
            compatible_brands: self.compatible_brands.deep_view(),
        }
    }
}

impl Ftyp {
    /// The widths of the fields that the body starts with, in the order in which they
    /// are stored.
    pub open spec fn layout() -> Seq<usize> {
        seq![4usize, 4]
    }

    /// What the body holds: the fields, then entries up to the end of the body.
    pub open spec fn content(header: BoxHeader, s: Stream) -> Result<FtypModel, ParseError> {
        match fields(s, Self::layout()) {
            (Err(e), _) => Err(e),
            (Ok(b), t) => match decode_list::<U32Tag>(t) {
                (Err(e), _) => Err(e),
                (Ok(compatible_brands), _) => Ok(
                    FtypModel {
                        header,
                        major_brand: U32Tag { raw: array_of::<4>(b.subrange(0, 4)) },
                        minor_version: U32Tag { raw: array_of::<4>(b.subrange(4, 8)) },
                        compatible_brands: compatible_brands,
                    },
                ),
            },
        }
    }
}

impl BoxRead for Ftyp {
    open spec fn accepts(tag: [u8; 4]) -> bool {
        tag == fourcc('f', 't', 'y', 'p')
    }

    open spec fn parsed(header: BoxHeader, s: Stream) -> (
        Result<FtypModel, ParseError>,
        Stream,
    ) {
        framed(
            header,
            s,
            Self::accepts(header.id),
            whole(Self::content(header, s.confined(header.body_len()))),
        )
    }

    proof fn parsed_moves(header: BoxHeader, s: Stream) {
    }

    fn acceptable_tag(tag: [u8; 4]) -> (accepted: bool) {
        tag_is(tag, 'f', 't', 'y', 'p')
    }

    fn read_body(header: BoxHeader, reader: &mut Reader) -> (r: Result<Ftyp, ParseError>) {
        let mut sub = enter(&header, Self::acceptable_tag(header.id), reader)?;
        let widths: [usize; 2] = [4, 4];
        assert(widths@ =~= Self::layout());
        let bytes = read_fields(&mut sub, &widths)?;
        proof {
            reveal_with_fuel(span, 3);
        }
        let b: &[u8] = bytes.as_slice();
        let compatible_brands = Vec::<U32Tag>::read_attr(&mut sub)?;
        leave(&header, reader);
        Ok(
            Ftyp {
                header,
                major_brand: U32Tag { raw: array_at::<4>(b, 0) },
                minor_version: U32Tag { raw: array_at::<4>(b, 4) },
                compatible_brands,
            },
        )
    }
}

} // verus!
