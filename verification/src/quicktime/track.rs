//! `trak`: a track, its header and its edits.
use vstd::prelude::*;
use crate::attr::{decode_list, takes_width, AttrRead};
use crate::boxes::{enter, framed, leave, whole, BoxRead};
use crate::bytes::{array_at, array_of, u16_at, u16_from_be, u32_at, u32_from_be};
use crate::children::{children, read_children, Field, NoField};
use crate::error::ParseError;
use crate::header::{fourcc, tag_is, BoxHeader};
use crate::placeholder::{BoxContainer, BoxPlaceholder, SingleBoxPlaceholder};
use crate::quicktime::media::{Mdia, MdiaModel};
use crate::reader::{Reader, Stream};
use crate::record::{fields, fields_from, read_fields, span};

verus! {

/// The track header: the length of the track and where it is shown.
#[derive(Clone, Debug, PartialEq, Eq)]
pub struct Tkhd {
    pub header: BoxHeader,
    pub version: u8,
    pub flags: [u8; 3],
    pub creation_time: u32,
    pub modification_time: u32,
    pub trak_id: u32,
    pub _reserved: [u8; 4],
    pub duration: u32,
    pub _reserved2: [u8; 8],
    pub layer: u16,
    pub alternate_group: u16,
    pub volume: u16,
    pub _reserved3: [u8; 2],
    pub matrix_structure: [u8; 36],
    pub track_width: u32,
    pub track_height: u32,
}

impl DeepView for Tkhd {
    type V = Tkhd;

    open spec fn deep_view(&self) -> Tkhd {
        *self
    }
}

impl Tkhd {
    /// The widths of the fields that the body starts with, in the order in which they
    /// are stored.
    pub open spec fn layout() -> Seq<usize> {
        seq![1usize, 3, 4, 4, 4, 4, 4, 8, 2, 2, 2, 2, 36, 4, 4]
    }

    /// What the body holds.
    pub open spec fn content(header: BoxHeader, s: Stream) -> Result<Tkhd, ParseError> {
        match fields(s, Self::layout()) {
            (Err(e), _) => Err(e),
            (Ok(b), _) => Ok(
                Tkhd {
                    header,
                    version: b[0],
                    flags: array_of::<3>(b.subrange(1, 4)),
                    creation_time: u32_from_be(b.subrange(4, 8)),
                    modification_time: u32_from_be(b.subrange(8, 12)),
                    trak_id: u32_from_be(b.subrange(12, 16)),
                    _reserved: array_of::<4>(b.subrange(16, 20)),
                    duration: u32_from_be(b.subrange(20, 24)),
                    _reserved2: array_of::<8>(b.subrange(24, 32)),
                    layer: u16_from_be(b.subrange(32, 34)),
                    alternate_group: u16_from_be(b.subrange(34, 36)),
                    volume: u16_from_be(b.subrange(36, 38)),
                    _reserved3: array_of::<2>(b.subrange(38, 40)),
                    matrix_structure: array_of::<36>(b.subrange(40, 76)),
                    track_width: u32_from_be(b.subrange(76, 80)),
                    track_height: u32_from_be(b.subrange(80, 84)),
                },
            ),
        }
    }
}

impl BoxRead for Tkhd {
    open spec fn accepts(tag: [u8; 4]) -> bool {
        tag == fourcc('t', 'k', 'h', 'd')
    }

    open spec fn parsed(header: BoxHeader, s: Stream) -> (Result<Tkhd, ParseError>, Stream) {
        framed(
            header,
            s,
            Self::accepts(header.id),
            whole(Self::content(header, s.confined(header.body_len()))),
        )
    }

    proof fn parsed_moves(header: BoxHeader, s: Stream) {
    }

    fn acceptable_tag(tag: [u8; 4]) -> (accepted: bool) {
        tag_is(tag, 't', 'k', 'h', 'd')
    }

    fn read_body(header: BoxHeader, reader: &mut Reader) -> (r: Result<Tkhd, ParseError>) {
        let mut sub = enter(&header, Self::acceptable_tag(header.id), reader)?;
        let widths: [usize; 15] = [1, 3, 4, 4, 4, 4, 4, 8, 2, 2, 2, 2, 36, 4, 4];
        assert(widths@ =~= Self::layout());
        let bytes = read_fields(&mut sub, &widths)?;
        proof {
            reveal_with_fuel(span, 16);
        }
        let b: &[u8] = bytes.as_slice();
        leave(&header, reader);
        Ok(
            Tkhd {
                header,
                version: b[0],
                flags: array_at::<3>(b, 1),
                creation_time: u32_at(b, 4),
                modification_time: u32_at(b, 8),
                trak_id: u32_at(b, 12),
                _reserved: array_at::<4>(b, 16),
                duration: u32_at(b, 20),
                _reserved2: array_at::<8>(b, 24),
                layer: u16_at(b, 32),
                alternate_group: u16_at(b, 34),
                volume: u16_at(b, 36),
                _reserved3: array_at::<2>(b, 38),
                matrix_structure: array_at::<36>(b, 40),
                track_width: u32_at(b, 76),
                track_height: u32_at(b, 80),
            },
        )
    }
}

/// One entry of an edit list: a stretch of the track and the media time it shows.
#[derive(Clone, Copy, Debug, PartialEq, Eq)]
pub struct Edit {
    pub track_duration: u32,
    pub media_time: u32,
    pub media_rate: u32,
}

impl DeepView for Edit {
    type V = Edit;

    open spec fn deep_view(&self) -> Edit {
        *self
    }
}

impl Edit {
    /// The widths of the fields, in the order in which they are stored.
    pub open spec fn layout() -> Seq<usize> {
        seq![4usize, 4, 4]
    }

    /// Every value takes 12 bytes.
    pub proof fn lemma_width()
        ensures
            takes_width::<Edit>(12),
    {
        reveal_with_fuel(fields_from, 4);
        reveal_with_fuel(span, 4);
    }
}

impl AttrRead for Edit {
    open spec fn decode(s: Stream) -> (Result<Edit, ParseError>, Stream) {
        match fields(s, Self::layout()) {
            (Err(e), t) => (Err(e), t),
            (Ok(b), t) => (
                Ok(
                    Edit {
                        track_duration: u32_from_be(b.subrange(0, 4)),
                        media_time: u32_from_be(b.subrange(4, 8)),
                        media_rate: u32_from_be(b.subrange(8, 12)),
                    },
                ),
                t,
            ),
        }
    }

    fn read_attr(reader: &mut Reader) -> (r: Result<Edit, ParseError>) {
        let widths: [usize; 3] = [4, 4, 4];
        assert(widths@ =~= Self::layout());
        let bytes = read_fields(reader, &widths)?;
        proof {
            reveal_with_fuel(span, 4);
        }
        let b: &[u8] = bytes.as_slice();
        Ok(
            Edit {
                track_duration: u32_at(b, 0),
                media_time: u32_at(b, 4),
                media_rate: u32_at(b, 8),
            },
        )
    }
}

/// The edit list of a track.
#[derive(Clone, Debug, PartialEq, Eq)]
pub struct Elst {
    pub header: BoxHeader,
    pub version: u8,
    pub flags: [u8; 3],
    /// The number of entries that the box declares; the table is read to the end of the
    /// body whatever this says.
    pub number_of_entries: u32,
    /// The entries that fill the rest of the body.
    pub edit_list: Vec<Edit>,
}

/// What an `elst` box holds.
pub struct ElstModel {
    pub header: BoxHeader,
    pub version: u8,
    pub flags: [u8; 3],
    pub number_of_entries: u32,
    pub edit_list: Seq<Edit>,
}

impl DeepView for Elst {
    type V = ElstModel;

    open spec fn deep_view(&self) -> ElstModel {
        ElstModel {
            header: self.header,
            version: self.version,
            flags: self.flags,
            number_of_entries: self.number_of_entries,
            edit_list: self.edit_list.deep_view(),
        }
    }
}

impl Elst {
    /// The widths of the fields that the body starts with, in the order in which they
    /// are stored.
    pub open spec fn layout() -> Seq<usize> {
        seq![1usize, 3, 4]
    }

    /// What the body holds: the fields, then entries up to the end of the body.
    pub open spec fn content(header: BoxHeader, s: Stream) -> Result<ElstModel, ParseError> {
        match fields(s, Self::layout()) {
            (Err(e), _) => Err(e),
            (Ok(b), t) => match decode_list::<Edit>(t) {
                (Err(e), _) => Err(e),
                (Ok(edit_list), _) => Ok(
                    ElstModel {
                        header,
                        version: b[0],
                        flags: array_of::<3>(b.subrange(1, 4)),
                        number_of_entries: u32_from_be(b.subrange(4, 8)),
                        edit_list: edit_list,
                    },
                ),
            },
        }
    }
}

impl BoxRead for Elst {
    open spec fn accepts(tag: [u8; 4]) -> bool {
        tag == fourcc('e', 'l', 's', 't')
    }

    open spec fn parsed(header: BoxHeader, s: Stream) -> (
        Result<ElstModel, ParseError>,
        Stream,
    ) {
        framed(
            header,
            s,
            Self::accepts(header.id),
            whole(Self::content(header, s.confined(header.body_len()))),
        )
    }

    proof fn parsed_moves(header: BoxHeader, s: Stream) {
    }

    fn acceptable_tag(tag: [u8; 4]) -> (accepted: bool) {
        tag_is(tag, 'e', 'l', 's', 't')
    }

    fn read_body(header: BoxHeader, reader: &mut Reader) -> (r: Result<Elst, ParseError>) {
        let mut sub = enter(&header, Self::acceptable_tag(header.id), reader)?;
        let widths: [usize; 3] = [1, 3, 4];
        assert(widths@ =~= Self::layout());
        let bytes = read_fields(&mut sub, &widths)?;
        proof {
            reveal_with_fuel(span, 4);
        }
        let b: &[u8] = bytes.as_slice();
        let edit_list = Vec::<Edit>::read_attr(&mut sub)?;
        leave(&header, reader);
        Ok(
            Elst {
                header,
                version: b[0],
                flags: array_at::<3>(b, 1),
                number_of_entries: u32_at(b, 4),
                edit_list,
            },
        )
    }
}

/// The edit box, which holds the edit list.
#[derive(Clone, Debug, PartialEq, Eq)]
pub struct Edts {
    pub header: BoxHeader,
    pub edit_list: Elst,
}

/// What an `edts` box holds.
pub struct EdtsModel {
    pub header: BoxHeader,
    pub edit_list: ElstModel,
}

impl DeepView for Edts {
    type V = EdtsModel;

    open spec fn deep_view(&self) -> EdtsModel {
        EdtsModel {
            header: self.header,
            edit_list: self.edit_list.deep_view(),
        }
    }
}

/// The children that an `edts` box looks for, in the order in which they are tried.
pub type EdtsFields = Field<Elst, SingleBoxPlaceholder<Elst>, NoField>;

impl Edts {
    /// The fields before any child has been seen.
    pub open spec fn vacant() -> <EdtsFields as DeepView>::V {
        (None, ())
    }

    /// The box made of what the children left in the fields. A child that must occur
    /// and did not is reported by the name of its field.
    pub open spec fn completed(
        header: BoxHeader,
        held: <EdtsFields as DeepView>::V,
    ) -> Result<EdtsModel, ParseError> {
        match held.0 {
            None => Err(ParseError::NotFound { field: "edit_list" }),
            Some(edit_list) => Ok(
                EdtsModel {
                    header,
                    edit_list,
                },
            ),
        }
    }

    /// What walking the children in the body gives. An error of the walk leaves the
    /// box unread; an error of completing it comes after the body has been passed.
    pub open spec fn content(header: BoxHeader, s: Stream) -> Result<
        Result<EdtsModel, ParseError>,
        ParseError,
    > {
        match children::<EdtsFields>(Self::vacant(), s) {
            (Err(e), _) => Err(e),
            (Ok(held), _) => Ok(Self::completed(header, held)),
        }
    }
}

impl BoxRead for Edts {
    open spec fn accepts(tag: [u8; 4]) -> bool {
        tag == fourcc('e', 'd', 't', 's')
    }

    open spec fn parsed(header: BoxHeader, s: Stream) -> (
        Result<EdtsModel, ParseError>,
        Stream,
    ) {
        framed(
            header,
            s,
            Self::accepts(header.id),
            Self::content(header, s.confined(header.body_len())),
        )
    }

    proof fn parsed_moves(header: BoxHeader, s: Stream) {
    }

    fn acceptable_tag(tag: [u8; 4]) -> (accepted: bool) {
        tag_is(tag, 'e', 'd', 't', 's')
    }

    fn read_body(header: BoxHeader, reader: &mut Reader) -> (r: Result<Edts, ParseError>) {
        let mut sub = enter(&header, Self::acceptable_tag(header.id), reader)?;
        let mut fields: EdtsFields = Field::new(
            <Elst as BoxContainer<Elst, SingleBoxPlaceholder<Elst>>>::placeholder(),
            NoField,
        );
        read_children(&mut fields, &mut sub)?;
        leave(&header, reader);
        let edit_list = BoxPlaceholder::get(fields.slot, "edit_list")?;
        Ok(Edts { header, edit_list })
    }
}

/// One track of the movie.
#[derive(Clone, Debug, PartialEq, Eq)]
pub struct Trak {
    pub header: BoxHeader,
    pub tkhd: Tkhd,
    pub edts: Edts,
    pub mdia: Mdia,
}

/// What a `trak` box holds.
pub struct TrakModel {
    pub header: BoxHeader,
    pub tkhd: Tkhd,
    pub edts: EdtsModel,
    pub mdia: MdiaModel,
}

impl DeepView for Trak {
    type V = TrakModel;

    open spec fn deep_view(&self) -> TrakModel {
        TrakModel {
            header: self.header,
            tkhd: self.tkhd.deep_view(),
            edts: self.edts.deep_view(),
            mdia: self.mdia.deep_view(),
        }
    }
}

/// The children that a `trak` box looks for, in the order in which they are tried.
pub type TrakFields = Field<
    Tkhd,
    SingleBoxPlaceholder<Tkhd>,
    Field<
        Edts,
        SingleBoxPlaceholder<Edts>,
        Field<
            Mdia,
            SingleBoxPlaceholder<Mdia>,
            NoField,
        >,
    >,
>;

impl Trak {
    /// The fields before any child has been seen.
    pub open spec fn vacant() -> <TrakFields as DeepView>::V {
        (None, (None, (None, ())))
    }

    /// The box made of what the children left in the fields. A child that must occur
    /// and did not is reported by the name of its field; where several are missing,
    /// the first in the order of the fields.
    pub open spec fn completed(
        header: BoxHeader,
        held: <TrakFields as DeepView>::V,
    ) -> Result<TrakModel, ParseError> {
        match held.0 {
            None => Err(ParseError::NotFound { field: "tkhd" }),
            Some(tkhd) => match held.1.0 {
                None => Err(ParseError::NotFound { field: "edts" }),
                Some(edts) => match held.1.1.0 {
                    None => Err(ParseError::NotFound { field: "mdia" }),
                    Some(mdia) => Ok(
                        TrakModel {
                            header,
                            tkhd,
                            edts,
                            mdia,
                        },
                    ),
                },
            },
        }
    }

    /// What walking the children in the body gives. An error of the walk leaves the
    /// box unread; an error of completing it comes after the body has been passed.
    pub open spec fn content(header: BoxHeader, s: Stream) -> Result<
        Result<TrakModel, ParseError>,
        ParseError,
    > {
        match children::<TrakFields>(Self::vacant(), s) {
            (Err(e), _) => Err(e),
            (Ok(held), _) => Ok(Self::completed(header, held)),
        }
    }
}

impl BoxRead for Trak {
    open spec fn accepts(tag: [u8; 4]) -> bool {
        tag == fourcc('t', 'r', 'a', 'k')
    }

    open spec fn parsed(header: BoxHeader, s: Stream) -> (
        Result<TrakModel, ParseError>,
        Stream,
    ) {
        framed(
            header,
            s,
            Self::accepts(header.id),
            Self::content(header, s.confined(header.body_len())),
        )
    }

    proof fn parsed_moves(header: BoxHeader, s: Stream) {
    }

    fn acceptable_tag(tag: [u8; 4]) -> (accepted: bool) {
        tag_is(tag, 't', 'r', 'a', 'k')
    }

    fn read_body(header: BoxHeader, reader: &mut Reader) -> (r: Result<Trak, ParseError>) {
        let mut sub = enter(&header, Self::acceptable_tag(header.id), reader)?;
        let mut fields: TrakFields = Field::new(
            <Tkhd as BoxContainer<Tkhd, SingleBoxPlaceholder<Tkhd>>>::placeholder(),
            Field::new(
                <Edts as BoxContainer<Edts, SingleBoxPlaceholder<Edts>>>::placeholder(),
                Field::new(
                    <Mdia as BoxContainer<Mdia, SingleBoxPlaceholder<Mdia>>>::placeholder(),
                    NoField,
                ),
            ),
        );
        read_children(&mut fields, &mut sub)?;
        leave(&header, reader);
        let tkhd = BoxPlaceholder::get(fields.slot, "tkhd")?;
        let edts = BoxPlaceholder::get(fields.rest.slot, "edts")?;
        let mdia = BoxPlaceholder::get(fields.rest.rest.slot, "mdia")?;
        Ok(Trak { header, tkhd, edts, mdia })
    }
}

} // verus!
