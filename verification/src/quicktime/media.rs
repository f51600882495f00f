//! `mdia`: the media of a track and where its data is kept.
use vstd::prelude::*;
use crate::attr::{decode_list, AttrRead};
use crate::boxes::{enter, framed, leave, whole, BoxRead};
use crate::bytes::{array_at, array_of, u16_at, u16_from_be, u32_at, u32_from_be};
use crate::children::{children, read_children, Field, NoField};
use crate::error::ParseError;
use crate::header::{fourcc, tag_is, BoxHeader, U32Tag};
use crate::placeholder::{BoxContainer, BoxPlaceholder, SingleBoxPlaceholder};
use crate::quicktime::sample_table::{Stbl, StblModel};
use crate::reader::{Reader, Stream};
use crate::record::{fields, read_fields, span};
use crate::text::{RawString, RawStringModel};
use crate::time::Timescale;

verus! {

/// The media header: the time scale and length of the media of one track.
#[derive(Clone, Debug, PartialEq, Eq)]
pub struct Mdhd {
    pub header: BoxHeader,
    pub version: u8,
    pub flags: [u8; 3],
    pub creation_time: u32,
    pub modification_time: u32,
    /// The ticks per second in which the samples of the track are timed.
    pub time_scale: Timescale,
    pub duration: u32,
    pub language: u16,
    pub quality: u16,
}

impl DeepView for Mdhd {
    type V = Mdhd;

    open spec fn deep_view(&self) -> Mdhd {
        *self
    }
}

impl Mdhd {
    /// The widths of the fields that the body starts with, in the order in which they
    /// are stored.
    pub open spec fn layout() -> Seq<usize> {
        seq![1usize, 3, 4, 4, 4, 4, 2, 2]
    }

    /// What the body holds.
    pub open spec fn content(header: BoxHeader, s: Stream) -> Result<Mdhd, ParseError> {
        match fields(s, Self::layout()) {
            (Err(e), _) => Err(e),
            (Ok(b), _) => Ok(
                Mdhd {
                    header,
                    version: b[0],
                    flags: array_of::<3>(b.subrange(1, 4)),
                    creation_time: u32_from_be(b.subrange(4, 8)),
                    modification_time: u32_from_be(b.subrange(8, 12)),
                    time_scale: Timescale(u32_from_be(b.subrange(12, 16))),
                    duration: u32_from_be(b.subrange(16, 20)),
                    language: u16_from_be(b.subrange(20, 22)),
                    quality: u16_from_be(b.subrange(22, 24)),
                },
            ),
        }
    }
}

impl BoxRead for Mdhd {
    open spec fn accepts(tag: [u8; 4]) -> bool {
        tag == fourcc('m', 'd', 'h', 'd')
    }

    open spec fn parsed(header: BoxHeader, s: Stream) -> (Result<Mdhd, ParseError>, Stream) {
        framed(
            header,
            s,
            Self::accepts(header.id),
            whole(Self::content(header, s.confined(header.body_len()))),
        )
    }

    proof fn parsed_moves(header: BoxHeader, s: Stream) {
    }

    fn acceptable_tag(tag: [u8; 4]) -> (accepted: bool) {
        tag_is(tag, 'm', 'd', 'h', 'd')
    }

    fn read_body(header: BoxHeader, reader: &mut Reader) -> (r: Result<Mdhd, ParseError>) {
        let mut sub = enter(&header, Self::acceptable_tag(header.id), reader)?;
        let widths: [usize; 8] = [1, 3, 4, 4, 4, 4, 2, 2];
        assert(widths@ =~= Self::layout());
        let bytes = read_fields(&mut sub, &widths)?;
        proof {
            reveal_with_fuel(span, 9);
        }
        let b: &[u8] = bytes.as_slice();
        leave(&header, reader);
        Ok(
            Mdhd {
                header,
                version: b[0],
                flags: array_at::<3>(b, 1),
                creation_time: u32_at(b, 4),
                modification_time: u32_at(b, 8),
                time_scale: Timescale(u32_at(b, 12)),
                duration: u32_at(b, 16),
                language: u16_at(b, 20),
                quality: u16_at(b, 22),
            },
        )
    }
}

/// The handler reference: which component reads the media.
#[derive(Clone, Debug, PartialEq, Eq)]
pub struct Hdlr {
    pub header: BoxHeader,
    pub version: u8,
    pub flags: [u8; 3],
    pub component_type: U32Tag,
    pub component_subtype: U32Tag,
    pub component_flags: [u8; 4],
    pub component_flags_mask: [u8; 4],
    /// The name that fills the rest of the body.
    pub component_name: RawString,
}

/// What a `hdlr` box holds.
pub struct HdlrModel {
    pub header: BoxHeader,
    pub version: u8,
    pub flags: [u8; 3],
    pub component_type: U32Tag,
    pub component_subtype: U32Tag,
    pub component_flags: [u8; 4],
    pub component_flags_mask: [u8; 4],
    pub component_name: RawStringModel,
}

impl DeepView for Hdlr {
    type V = HdlrModel;

    open spec fn deep_view(&self) -> HdlrModel {
        HdlrModel {
            header: self.header,
            version: self.version,
            flags: self.flags,
            component_type: self.component_type,
            component_subtype: self.component_subtype,
            component_flags: self.component_flags,
            component_flags_mask: self.component_flags_mask,
            component_name: self.component_name.deep_view(),
        }
    }
}

impl Hdlr {
    /// The widths of the fields that the body starts with, in the order in which they
    /// are stored.
    pub open spec fn layout() -> Seq<usize> {
        seq![1usize, 3, 4, 4, 4, 4]
    }

    /// What the body holds: the fields, then text up to the end of the body.
    pub open spec fn content(header: BoxHeader, s: Stream) -> Result<HdlrModel, ParseError> {
        match fields(s, Self::layout()) {
            (Err(e), _) => Err(e),
            (Ok(b), t) => match RawString::decode(t) {
                (Err(e), _) => Err(e),
                (Ok(component_name), _) => Ok(
                    HdlrModel {
                        header,
                        version: b[0],
                        flags: array_of::<3>(b.subrange(1, 4)),
                        component_type: U32Tag { raw: array_of::<4>(b.subrange(4, 8)) },
                        component_subtype: U32Tag { raw: array_of::<4>(b.subrange(8, 12)) },
                        component_flags: array_of::<4>(b.subrange(12, 16)),
                        component_flags_mask: array_of::<4>(b.subrange(16, 20)),
                        component_name: component_name,
                    },
                ),
            },
        }
    }
}

impl BoxRead for Hdlr {
    open spec fn accepts(tag: [u8; 4]) -> bool {
        tag == fourcc('h', 'd', 'l', 'r')
    }

    open spec fn parsed(header: BoxHeader, s: Stream) -> (
        Result<HdlrModel, ParseError>,
        Stream,
    ) {
        framed(
            header,
            s,
            Self::accepts(header.id),
            whole(Self::content(header, s.confined(header.body_len()))),
        )
    }

    proof fn parsed_moves(header: BoxHeader, s: Stream) {
    }

    fn acceptable_tag(tag: [u8; 4]) -> (accepted: bool) {
        tag_is(tag, 'h', 'd', 'l', 'r')
    }

    fn read_body(header: BoxHeader, reader: &mut Reader) -> (r: Result<Hdlr, ParseError>) {
        let mut sub = enter(&header, Self::acceptable_tag(header.id), reader)?;
        let widths: [usize; 6] = [1, 3, 4, 4, 4, 4];
        assert(widths@ =~= Self::layout());
        let bytes = read_fields(&mut sub, &widths)?;
        proof {
            reveal_with_fuel(span, 7);
        }
        let b: &[u8] = bytes.as_slice();
        let component_name = RawString::read_attr(&mut sub)?;
        leave(&header, reader);
        Ok(
            Hdlr {
                header,
                version: b[0],
                flags: array_at::<3>(b, 1),
                component_type: U32Tag { raw: array_at::<4>(b, 4) },
                component_subtype: U32Tag { raw: array_at::<4>(b, 8) },
                component_flags: array_at::<4>(b, 12),
                component_flags_mask: array_at::<4>(b, 16),
                component_name,
            },
        )
    }
}

/// The sound media header.
#[derive(Clone, Debug, PartialEq, Eq)]
pub struct Smhd {
    pub header: BoxHeader,
    pub version: u8,
    pub flags: [u8; 3],
    pub balance: u16,
    pub _reserved: u16,
}

impl DeepView for Smhd {
    type V = Smhd;

    open spec fn deep_view(&self) -> Smhd {
        *self
    }
}

impl Smhd {
    /// The widths of the fields that the body starts with, in the order in which they
    /// are stored.
    pub open spec fn layout() -> Seq<usize> {
        seq![1usize, 3, 2, 2]
    }

    /// What the body holds.
    pub open spec fn content(header: BoxHeader, s: Stream) -> Result<Smhd, ParseError> {
        match fields(s, Self::layout()) {
            (Err(e), _) => Err(e),
            (Ok(b), _) => Ok(
                Smhd {
                    header,
                    version: b[0],
                    flags: array_of::<3>(b.subrange(1, 4)),
                    balance: u16_from_be(b.subrange(4, 6)),
                    _reserved: u16_from_be(b.subrange(6, 8)),
                },
            ),
        }
    }
}

impl BoxRead for Smhd {
    open spec fn accepts(tag: [u8; 4]) -> bool {
        tag == fourcc('s', 'm', 'h', 'd')
    }

    open spec fn parsed(header: BoxHeader, s: Stream) -> (Result<Smhd, ParseError>, Stream) {
        framed(
            header,
            s,
            Self::accepts(header.id),
            whole(Self::content(header, s.confined(header.body_len()))),
        )
    }

    proof fn parsed_moves(header: BoxHeader, s: Stream) {
    }

    fn acceptable_tag(tag: [u8; 4]) -> (accepted: bool) {
        tag_is(tag, 's', 'm', 'h', 'd')
    }

    fn read_body(header: BoxHeader, reader: &mut Reader) -> (r: Result<Smhd, ParseError>) {
        let mut sub = enter(&header, Self::acceptable_tag(header.id), reader)?;
        let widths: [usize; 4] = [1, 3, 2, 2];
        assert(widths@ =~= Self::layout());
        let bytes = read_fields(&mut sub, &widths)?;
        proof {
            reveal_with_fuel(span, 5);
        }
        let b: &[u8] = bytes.as_slice();
        leave(&header, reader);
        Ok(
            Smhd {
                header,
                version: b[0],
                flags: array_at::<3>(b, 1),
                balance: u16_at(b, 4),
                _reserved: u16_at(b, 6),
            },
        )
    }
}

/// One data reference: where the media data of a track is kept.
#[derive(Clone, Debug, PartialEq, Eq)]
pub struct DataReference {
    pub header: BoxHeader,
    pub version: u8,
    pub flags: [u8; 3],
    /// The bytes that fill the rest of the body.
    pub data: Vec<u8>,
}

/// What an `url ` box holds.
pub struct DataReferenceModel {
    pub header: BoxHeader,
    pub version: u8,
    pub flags: [u8; 3],
    pub data: Seq<u8>,
}

impl DeepView for DataReference {
    type V = DataReferenceModel;

    open spec fn deep_view(&self) -> DataReferenceModel {
        DataReferenceModel {
            header: self.header,
            version: self.version,
            flags: self.flags,
            data: self.data.deep_view(),
        }
    }
}

impl DataReference {
    /// The widths of the fields that the body starts with, in the order in which they
    /// are stored.
    pub open spec fn layout() -> Seq<usize> {
        seq![1usize, 3]
    }

    /// What the body holds: the fields, then entries up to the end of the body.
    pub open spec fn content(header: BoxHeader, s: Stream) -> Result<
        DataReferenceModel,
        ParseError,
    > {
        match fields(s, Self::layout()) {
            (Err(e), _) => Err(e),
            (Ok(b), t) => match decode_list::<u8>(t) {
                (Err(e), _) => Err(e),
                (Ok(data), _) => Ok(
                    DataReferenceModel {
                        header,
                        version: b[0],
                        flags: array_of::<3>(b.subrange(1, 4)),
                        data: data,
                    },
                ),
            },
        }
    }
}

impl BoxRead for DataReference {
    open spec fn accepts(tag: [u8; 4]) -> bool {
        tag == fourcc('u', 'r', 'l', ' ')
    }

    open spec fn parsed(header: BoxHeader, s: Stream) -> (
        Result<DataReferenceModel, ParseError>,
        Stream,
    ) {
        framed(
            header,
            s,
            Self::accepts(header.id),
            whole(Self::content(header, s.confined(header.body_len()))),
        )
    }

    proof fn parsed_moves(header: BoxHeader, s: Stream) {
    }

    fn acceptable_tag(tag: [u8; 4]) -> (accepted: bool) {
        tag_is(tag, 'u', 'r', 'l', ' ')
    }

    fn read_body(header: BoxHeader, reader: &mut Reader) -> (r: Result<DataReference, ParseError>) {
        let mut sub = enter(&header, Self::acceptable_tag(header.id), reader)?;
        let widths: [usize; 2] = [1, 3];
        assert(widths@ =~= Self::layout());
        let bytes = read_fields(&mut sub, &widths)?;
        proof {
            reveal_with_fuel(span, 3);
        }
        let b: &[u8] = bytes.as_slice();
        let data = Vec::<u8>::read_attr(&mut sub)?;
        leave(&header, reader);
        Ok(
            DataReference {
                header,
                version: b[0],
                flags: array_at::<3>(b, 1),
                data,
            },
        )
    }
}

/// The table of data references.
#[derive(Clone, Debug, PartialEq, Eq)]
pub struct Dref {
    pub header: BoxHeader,
    pub version: u8,
    pub flags: [u8; 3],
    /// The number of entries that the box declares; the table is read to the end of the
    /// body whatever this says.
    pub number_of_entries: u32,
    /// The references that fill the rest of the body, each a box of its own.
    pub drefs: Vec<DataReference>,
}

/// What a `dref` box holds.
pub struct DrefModel {
    pub header: BoxHeader,
    pub version: u8,
    pub flags: [u8; 3],
    pub number_of_entries: u32,
    pub drefs: Seq<DataReferenceModel>,
}

impl DeepView for Dref {
    type V = DrefModel;

    open spec fn deep_view(&self) -> DrefModel {
        DrefModel {
            header: self.header,
            version: self.version,
            flags: self.flags,
            number_of_entries: self.number_of_entries,
            drefs: self.drefs.deep_view(),
        }
    }
}

impl Dref {
    /// The widths of the fields that the body starts with, in the order in which they
    /// are stored.
    pub open spec fn layout() -> Seq<usize> {
        seq![1usize, 3, 4]
    }

    /// What the body holds: the fields, then entries up to the end of the body.
    pub open spec fn content(header: BoxHeader, s: Stream) -> Result<DrefModel, ParseError> {
        match fields(s, Self::layout()) {
            (Err(e), _) => Err(e),
            (Ok(b), t) => match decode_list::<DataReference>(t) {
                (Err(e), _) => Err(e),
                (Ok(drefs), _) => Ok(
                    DrefModel {
                        header,
                        version: b[0],
                        flags: array_of::<3>(b.subrange(1, 4)),
                        number_of_entries: u32_from_be(b.subrange(4, 8)),
                        drefs: drefs,
                    },
                ),
            },
        }
    }
}

impl BoxRead for Dref {
    open spec fn accepts(tag: [u8; 4]) -> bool {
        tag == fourcc('d', 'r', 'e', 'f')
    }

    open spec fn parsed(header: BoxHeader, s: Stream) -> (
        Result<DrefModel, ParseError>,
        Stream,
    ) {
        framed(
            header,
            s,
            Self::accepts(header.id),
            whole(Self::content(header, s.confined(header.body_len()))),
        )
    }

    proof fn parsed_moves(header: BoxHeader, s: Stream) {
    }

    fn acceptable_tag(tag: [u8; 4]) -> (accepted: bool) {
        tag_is(tag, 'd', 'r', 'e', 'f')
    }

    fn read_body(header: BoxHeader, reader: &mut Reader) -> (r: Result<Dref, ParseError>) {
        let mut sub = enter(&header, Self::acceptable_tag(header.id), reader)?;
        let widths: [usize; 3] = [1, 3, 4];
        assert(widths@ =~= Self::layout());
        let bytes = read_fields(&mut sub, &widths)?;
        proof {
            reveal_with_fuel(span, 4);
        }
        let b: &[u8] = bytes.as_slice();
        let drefs = Vec::<DataReference>::read_attr(&mut sub)?;
        leave(&header, reader);
        Ok(
            Dref {
                header,
                version: b[0],
                flags: array_at::<3>(b, 1),
                number_of_entries: u32_at(b, 4),
                drefs,
            },
        )
    }
}

/// The data information box, which holds the data references.
#[derive(Clone, Debug, PartialEq, Eq)]
pub struct Dinf {
    pub header: BoxHeader,
    pub dref: Dref,
}

/// What a `dinf` box holds.
pub struct DinfModel {
    pub header: BoxHeader,
    pub dref: DrefModel,
}

impl DeepView for Dinf {
    type V = DinfModel;

    open spec fn deep_view(&self) -> DinfModel {
        DinfModel {
            header: self.header,
            dref: self.dref.deep_view(),
        }
    }
}

/// The children that a `dinf` box looks for, in the order in which they are tried.
pub type DinfFields = Field<Dref, SingleBoxPlaceholder<Dref>, NoField>;

impl Dinf {
    /// The fields before any child has been seen.
    pub open spec fn vacant() -> <DinfFields as DeepView>::V {
        (None, ())
    }

    /// The box made of what the children left in the fields. A child that must occur
    /// and did not is reported by the name of its field.
    pub open spec fn completed(
        header: BoxHeader,
        held: <DinfFields as DeepView>::V,
    ) -> Result<DinfModel, ParseError> {
        match held.0 {
            None => Err(ParseError::NotFound { field: "dref" }),
            Some(dref) => Ok(
                DinfModel {
                    header,
                    dref,
                },
            ),
        }
    }

    /// What walking the children in the body gives. An error of the walk leaves the
    /// box unread; an error of completing it comes after the body has been passed.
    pub open spec fn content(header: BoxHeader, s: Stream) -> Result<
        Result<DinfModel, ParseError>,
        ParseError,
    > {
        match children::<DinfFields>(Self::vacant(), s) {
            (Err(e), _) => Err(e),
            (Ok(held), _) => Ok(Self::completed(header, held)),
        }
    }
}

impl BoxRead for Dinf {
    open spec fn accepts(tag: [u8; 4]) -> bool {
        tag == fourcc('d', 'i', 'n', 'f')
    }

    open spec fn parsed(header: BoxHeader, s: Stream) -> (
        Result<DinfModel, ParseError>,
        Stream,
    ) {
        framed(
            header,
            s,
            Self::accepts(header.id),
            Self::content(header, s.confined(header.body_len())),
        )
    }

    proof fn parsed_moves(header: BoxHeader, s: Stream) {
    }

    fn acceptable_tag(tag: [u8; 4]) -> (accepted: bool) {
        tag_is(tag, 'd', 'i', 'n', 'f')
    }

    fn read_body(header: BoxHeader, reader: &mut Reader) -> (r: Result<Dinf, ParseError>) {
        let mut sub = enter(&header, Self::acceptable_tag(header.id), reader)?;
        let mut fields: DinfFields = Field::new(
            <Dref as BoxContainer<Dref, SingleBoxPlaceholder<Dref>>>::placeholder(),
            NoField,
        );
        read_children(&mut fields, &mut sub)?;
        leave(&header, reader);
        let dref = BoxPlaceholder::get(fields.slot, "dref")?;
        Ok(Dinf { header, dref })
    }
}

/// The media information box.
#[derive(Clone, Debug, PartialEq, Eq)]
pub struct Minf {
    pub header: BoxHeader,
    pub dinf: Dinf,
    pub stbl: Stbl,
}

/// What a `minf` box holds.
pub struct MinfModel {
    pub header: BoxHeader,
    pub dinf: DinfModel,
    pub stbl: StblModel,
}

impl DeepView for Minf {
    type V = MinfModel;

    open spec fn deep_view(&self) -> MinfModel {
        MinfModel {
            header: self.header,
            dinf: self.dinf.deep_view(),
            stbl: self.stbl.deep_view(),
        }
    }
}

/// The children that a `minf` box looks for, in the order in which they are tried.
pub type MinfFields = Field<
    Dinf,
    SingleBoxPlaceholder<Dinf>,
    Field<
        Stbl,
        SingleBoxPlaceholder<Stbl>,
        NoField,
    >,
>;

impl Minf {
    /// The fields before any child has been seen.
    pub open spec fn vacant() -> <MinfFields as DeepView>::V {
        (None, (None, ()))
    }

    /// The box made of what the children left in the fields. A child that must occur
    /// and did not is reported by the name of its field; where several are missing,
    /// the first in the order of the fields.
    pub open spec fn completed(
        header: BoxHeader,
        held: <MinfFields as DeepView>::V,
    ) -> Result<MinfModel, ParseError> {
        match held.0 {
            None => Err(ParseError::NotFound { field: "dinf" }),
            Some(dinf) => match held.1.0 {
                None => Err(ParseError::NotFound { field: "stbl" }),
                Some(stbl) => Ok(
                    MinfModel {
                        header,
                        dinf,
                        stbl,
                    },
                ),
            },
        }
    }

    /// What walking the children in the body gives. An error of the walk leaves the
    /// box unread; an error of completing it comes after the body has been passed.
    pub open spec fn content(header: BoxHeader, s: Stream) -> Result<
        Result<MinfModel, ParseError>,
        ParseError,
    > {
        match children::<MinfFields>(Self::vacant(), s) {
            (Err(e), _) => Err(e),
            (Ok(held), _) => Ok(Self::completed(header, held)),
        }
    }
}

impl BoxRead for Minf {
    open spec fn accepts(tag: [u8; 4]) -> bool {
        tag == fourcc('m', 'i', 'n', 'f')
    }

    open spec fn parsed(header: BoxHeader, s: Stream) -> (
        Result<MinfModel, ParseError>,
        Stream,
    ) {
        framed(
            header,
            s,
            Self::accepts(header.id),
            Self::content(header, s.confined(header.body_len())),
        )
    }

    proof fn parsed_moves(header: BoxHeader, s: Stream) {
    }

    fn acceptable_tag(tag: [u8; 4]) -> (accepted: bool) {
        tag_is(tag, 'm', 'i', 'n', 'f')
    }

    fn read_body(header: BoxHeader, reader: &mut Reader) -> (r: Result<Minf, ParseError>) {
        let mut sub = enter(&header, Self::acceptable_tag(header.id), reader)?;
        let mut fields: MinfFields = Field::new(
            <Dinf as BoxContainer<Dinf, SingleBoxPlaceholder<Dinf>>>::placeholder(),
            Field::new(
                <Stbl as BoxContainer<Stbl, SingleBoxPlaceholder<Stbl>>>::placeholder(),
                NoField,
            ),
        );
        read_children(&mut fields, &mut sub)?;
        leave(&header, reader);
        let dinf = BoxPlaceholder::get(fields.slot, "dinf")?;
        let stbl = BoxPlaceholder::get(fields.rest.slot, "stbl")?;
        Ok(Minf { header, dinf, stbl })
    }
}

/// The media box of a track.
#[derive(Clone, Debug, PartialEq, Eq)]
pub struct Mdia {
    pub header: BoxHeader,
    pub mdhd: Mdhd,
    pub hdlr: Hdlr,
    pub minf: Minf,
}

/// What a `mdia` box holds.
pub struct MdiaModel {
    pub header: BoxHeader,
    pub mdhd: Mdhd,
    pub hdlr: HdlrModel,
    pub minf: MinfModel,
}

impl DeepView for Mdia {
    type V = MdiaModel;

    open spec fn deep_view(&self) -> MdiaModel {
        MdiaModel {
            header: self.header,
            mdhd: self.mdhd.deep_view(),
            hdlr: self.hdlr.deep_view(),
            minf: self.minf.deep_view(),
        }
    }
}

/// The children that a `mdia` box looks for, in the order in which they are tried.
pub type MdiaFields = Field<
    Mdhd,
    SingleBoxPlaceholder<Mdhd>,
    Field<
        Hdlr,
        SingleBoxPlaceholder<Hdlr>,
        Field<
            Minf,
            SingleBoxPlaceholder<Minf>,
            NoField,
        >,
    >,
>;

impl Mdia {
    /// The fields before any child has been seen.
    pub open spec fn vacant() -> <MdiaFields as DeepView>::V {
        (None, (None, (None, ())))
    }

    /// The box made of what the children left in the fields. A child that must occur
    /// and did not is reported by the name of its field; where several are missing,
    /// the first in the order of the fields.
    pub open spec fn completed(
        header: BoxHeader,
        held: <MdiaFields as DeepView>::V,
    ) -> Result<MdiaModel, ParseError> {
        match held.0 {
            None => Err(ParseError::NotFound { field: "mdhd" }),
            Some(mdhd) => match held.1.0 {
                None => Err(ParseError::NotFound { field: "hdlr" }),
                Some(hdlr) => match held.1.1.0 {
                    None => Err(ParseError::NotFound { field: "minf" }),
                    Some(minf) => Ok(
                        MdiaModel {
                            header,
                            mdhd,
                            hdlr,
                            minf,
                        },
                    ),
                },
            },
        }
    }

    /// What walking the children in the body gives. An error of the walk leaves the
    /// box unread; an error of completing it comes after the body has been passed.
    pub open spec fn content(header: BoxHeader, s: Stream) -> Result<
        Result<MdiaModel, ParseError>,
        ParseError,
    > {
        match children::<MdiaFields>(Self::vacant(), s) {
            (Err(e), _) => Err(e),
            (Ok(held), _) => Ok(Self::completed(header, held)),
        }
    }
}

impl BoxRead for Mdia {
    open spec fn accepts(tag: [u8; 4]) -> bool {
        tag == fourcc('m', 'd', 'i', 'a')
    }

    open spec fn parsed(header: BoxHeader, s: Stream) -> (
        Result<MdiaModel, ParseError>,
        Stream,
    ) {
        framed(
            header,
            s,
            Self::accepts(header.id),
            Self::content(header, s.confined(header.body_len())),
        )
    }

    proof fn parsed_moves(header: BoxHeader, s: Stream) {
    }

    fn acceptable_tag(tag: [u8; 4]) -> (accepted: bool) {
        tag_is(tag, 'm', 'd', 'i', 'a')
    }

    fn read_body(header: BoxHeader, reader: &mut Reader) -> (r: Result<Mdia, ParseError>) {
        let mut sub = enter(&header, Self::acceptable_tag(header.id), reader)?;
        let mut fields: MdiaFields = Field::new(
            <Mdhd as BoxContainer<Mdhd, SingleBoxPlaceholder<Mdhd>>>::placeholder(),
            Field::new(
                <Hdlr as BoxContainer<Hdlr, SingleBoxPlaceholder<Hdlr>>>::placeholder(),
                Field::new(
                    <Minf as BoxContainer<Minf, SingleBoxPlaceholder<Minf>>>::placeholder(),
                    NoField,
                ),
            ),
        );
        read_children(&mut fields, &mut sub)?;
        leave(&header, reader);
        let mdhd = BoxPlaceholder::get(fields.slot, "mdhd")?;
        let hdlr = BoxPlaceholder::get(fields.rest.slot, "hdlr")?;
        let minf = BoxPlaceholder::get(fields.rest.rest.slot, "minf")?;
        Ok(Mdia { header, mdhd, hdlr, minf })
    }
}

} // verus!
