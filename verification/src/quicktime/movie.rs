//! `moov` and what stands beside it at the top of a file.
use vstd::prelude::*;
use crate::boxes::{enter, framed, leave, whole, BoxRead, RootRead};
use crate::bytes::{array_at, array_of, u16_at, u16_from_be, u32_at, u32_from_be};
use crate::children::{children, read_children, Field, NoField};
use crate::error::ParseError;
use crate::header::{fourcc, tag_is, BoxHeader};
use crate::placeholder::{BoxContainer, BoxPlaceholder, SingleBoxPlaceholder};
use crate::quicktime::file_type::{Ftyp, FtypModel};
use crate::quicktime::media_data::Mdat;
use crate::quicktime::track::{Trak, TrakModel};
use crate::reader::{Reader, Stream};
use crate::record::{fields, read_fields, span};
use crate::time::Timescale;

verus! {

/// The movie header: the time scale and length of the whole movie, and how it is
/// shown by default.
#[derive(Clone, Debug, PartialEq, Eq)]
pub struct Mvhd {
    pub header: BoxHeader,
    pub version: u8,
    pub flags: [u8; 3],
    pub creation_time: u32,
    pub modification_time: u32,
    /// The ticks per second in which `duration` and the times below are counted.
    pub time_scale: Timescale,
    pub duration: u32,
    pub preferred_rate: u32,
    pub preferred_volume: u16,
    pub _reserved: [u8; 10],
    pub matrix_structure: [u8; 36],
    pub preview_time: u32,
    pub preview_duration: u32,
    pub poster_time: u32,
    pub selection_time: u32,
    pub selection_duration: u32,
    pub current_time: u32,
    pub next_track_id: u32,
}

impl DeepView for Mvhd {
    type V = Mvhd;

    open spec fn deep_view(&self) -> Mvhd {
        *self
    }
}

impl Mvhd {
    /// The widths of the fields that the body starts with, in the order in which they
    /// are stored.
    pub open spec fn layout() -> Seq<usize> {
        seq![1usize, 3, 4, 4, 4, 4, 4, 2, 10, 36, 4, 4, 4, 4, 4, 4, 4]
    }

    /// What the body holds.
    pub open spec fn content(header: BoxHeader, s: Stream) -> Result<Mvhd, ParseError> {
        match fields(s, Self::layout()) {
            (Err(e), _) => Err(e),
            (Ok(b), _) => Ok(
                Mvhd {
                    header,
                    version: b[0],
                    flags: array_of::<3>(b.subrange(1, 4)),
                    creation_time: u32_from_be(b.subrange(4, 8)),
                    modification_time: u32_from_be(b.subrange(8, 12)),
                    time_scale: Timescale(u32_from_be(b.subrange(12, 16))),
                    duration: u32_from_be(b.subrange(16, 20)),
                    preferred_rate: u32_from_be(b.subrange(20, 24)),
                    preferred_volume: u16_from_be(b.subrange(24, 26)),
                    _reserved: array_of::<10>(b.subrange(26, 36)),
                    matrix_structure: array_of::<36>(b.subrange(36, 72)),
                    preview_time: u32_from_be(b.subrange(72, 76)),
                    preview_duration: u32_from_be(b.subrange(76, 80)),
                    poster_time: u32_from_be(b.subrange(80, 84)),
                    selection_time: u32_from_be(b.subrange(84, 88)),
                    selection_duration: u32_from_be(b.subrange(88, 92)),
                    current_time: u32_from_be(b.subrange(92, 96)),
                    next_track_id: u32_from_be(b.subrange(96, 100)),
                },
            ),
        }
    }
}

impl BoxRead for Mvhd {
    open spec fn accepts(tag: [u8; 4]) -> bool {
        tag == fourcc('m', 'v', 'h', 'd')
    }

    open spec fn parsed(header: BoxHeader, s: Stream) -> (Result<Mvhd, ParseError>, Stream) {
        framed(
            header,
            s,
            Self::accepts(header.id),
            whole(Self::content(header, s.confined(header.body_len()))),
        )
    }

    proof fn parsed_moves(header: BoxHeader, s: Stream) {
    }

    fn acceptable_tag(tag: [u8; 4]) -> (accepted: bool) {
        tag_is(tag, 'm', 'v', 'h', 'd')
    }

    fn read_body(header: BoxHeader, reader: &mut Reader) -> (r: Result<Mvhd, ParseError>) {
        let mut sub = enter(&header, Self::acceptable_tag(header.id), reader)?;
        let widths: [usize; 17] = [1, 3, 4, 4, 4, 4, 4, 2, 10, 36, 4, 4, 4, 4, 4, 4, 4];
        assert(widths@ =~= Self::layout());
        let bytes = read_fields(&mut sub, &widths)?;
        proof {
            reveal_with_fuel(span, 18);
        }
        let b: &[u8] = bytes.as_slice();
        leave(&header, reader);
        Ok(
            Mvhd {
                header,
                version: b[0],
                flags: array_at::<3>(b, 1),
                creation_time: u32_at(b, 4),
                modification_time: u32_at(b, 8),
                time_scale: Timescale(u32_at(b, 12)),
                duration: u32_at(b, 16),
                preferred_rate: u32_at(b, 20),
                preferred_volume: u16_at(b, 24),
                _reserved: array_at::<10>(b, 26),
                matrix_structure: array_at::<36>(b, 36),
                preview_time: u32_at(b, 72),
                preview_duration: u32_at(b, 76),
                poster_time: u32_at(b, 80),
                selection_time: u32_at(b, 84),
                selection_duration: u32_at(b, 88),
                current_time: u32_at(b, 92),
                next_track_id: u32_at(b, 96),
            },
        )
    }
}

/// The user data box. None of its children is read.
#[derive(Clone, Debug, PartialEq, Eq)]
pub struct Udta {
    pub header: BoxHeader,
}

impl DeepView for Udta {
    type V = Udta;

    open spec fn deep_view(&self) -> Udta {
        *self
    }
}

/// A `udta` box looks for no child.
pub type UdtaFields = NoField;

impl Udta {
    /// The fields before any child has been seen.
    pub open spec fn vacant() -> <UdtaFields as DeepView>::V {
        ()
    }

    /// The box made of what the children left in the fields.
    pub open spec fn completed(
        header: BoxHeader,
        held: <UdtaFields as DeepView>::V,
    ) -> Result<Udta, ParseError> {
        Ok(Udta { header })
    }

    /// What walking the children in the body gives. An error of the walk leaves the
    /// box unread; an error of completing it comes after the body has been passed.
    pub open spec fn content(header: BoxHeader, s: Stream) -> Result<
        Result<Udta, ParseError>,
        ParseError,
    > {
        match children::<UdtaFields>(Self::vacant(), s) {
            (Err(e), _) => Err(e),
            (Ok(held), _) => Ok(Self::completed(header, held)),
        }
    }
}

impl BoxRead for Udta {
    open spec fn accepts(tag: [u8; 4]) -> bool {
        tag == fourcc('u', 'd', 't', 'a')
    }

    open spec fn parsed(header: BoxHeader, s: Stream) -> (Result<Udta, ParseError>, Stream) {
        framed(
            header,
            s,
            Self::accepts(header.id),
            Self::content(header, s.confined(header.body_len())),
        )
    }

    proof fn parsed_moves(header: BoxHeader, s: Stream) {
    }

    fn acceptable_tag(tag: [u8; 4]) -> (accepted: bool) {
        tag_is(tag, 'u', 'd', 't', 'a')
    }

    fn read_body(header: BoxHeader, reader: &mut Reader) -> (r: Result<Udta, ParseError>) {
        let mut sub = enter(&header, Self::acceptable_tag(header.id), reader)?;
        let mut fields: UdtaFields = NoField;
        read_children(&mut fields, &mut sub)?;
        leave(&header, reader);
        Ok(Udta { header })
    }
}

/// The movie box: the header of the movie, its tracks and its user data.
#[derive(Clone, Debug, PartialEq, Eq)]
pub struct Moov {
    pub header: BoxHeader,
    pub mvhd: Mvhd,
    /// The tracks, in the order in which they are stored.
    pub traks: Vec<Trak>,
    pub udta: Udta,
}

/// What a `moov` box holds.
pub struct MoovModel {
    pub header: BoxHeader,
    pub mvhd: Mvhd,
    pub traks: Seq<TrakModel>,
    pub udta: Udta,
}

impl DeepView for Moov {
    type V = MoovModel;

    open spec fn deep_view(&self) -> MoovModel {
        MoovModel {
            header: self.header,
            mvhd: self.mvhd.deep_view(),
            traks: self.traks.deep_view(),
            udta: self.udta.deep_view(),
        }
    }
}

/// The children that a `moov` box looks for, in the order in which they are tried.
pub type MoovFields = Field<
    Mvhd,
    SingleBoxPlaceholder<Mvhd>,
    Field<
        Trak,
        Vec<Trak>,
        Field<
            Udta,
            SingleBoxPlaceholder<Udta>,
            NoField,
        >,
    >,
>;

impl Moov {
    /// The fields before any child has been seen.
    pub open spec fn vacant() -> <MoovFields as DeepView>::V {
        (None, (Seq::empty(), (None, ())))
    }

    /// The box made of what the children left in the fields. A child that must occur
    /// and did not is reported by the name of its field; where several are missing,
    /// the first in the order of the fields.
    pub open spec fn completed(
        header: BoxHeader,
        held: <MoovFields as DeepView>::V,
    ) -> Result<MoovModel, ParseError> {
        match held.0 {
            None => Err(ParseError::NotFound { field: "mvhd" }),
            Some(mvhd) => match held.1.1.0 {
                None => Err(ParseError::NotFound { field: "udta" }),
                Some(udta) => Ok(
                    MoovModel {
                        header,
                        mvhd,
                        traks: held.1.0,
                        udta,
                    },
                ),
            },
        }
    }

    /// What walking the children in the body gives. An error of the walk leaves the
    /// box unread; an error of completing it comes after the body has been passed.
    pub open spec fn content(header: BoxHeader, s: Stream) -> Result<
        Result<MoovModel, ParseError>,
        ParseError,
    > {
        match children::<MoovFields>(Self::vacant(), s) {
            (Err(e), _) => Err(e),
            (Ok(held), _) => Ok(Self::completed(header, held)),
        }
    }
}

impl BoxRead for Moov {
    open spec fn accepts(tag: [u8; 4]) -> bool {
        tag == fourcc('m', 'o', 'o', 'v')
    }

    open spec fn parsed(header: BoxHeader, s: Stream) -> (
        Result<MoovModel, ParseError>,
        Stream,
    ) {
        framed(
            header,
            s,
            Self::accepts(header.id),
            Self::content(header, s.confined(header.body_len())),
        )
    }

    proof fn parsed_moves(header: BoxHeader, s: Stream) {
    }

    fn acceptable_tag(tag: [u8; 4]) -> (accepted: bool) {
        tag_is(tag, 'm', 'o', 'o', 'v')
    }

    fn read_body(header: BoxHeader, reader: &mut Reader) -> (r: Result<Moov, ParseError>) {
        let mut sub = enter(&header, Self::acceptable_tag(header.id), reader)?;
        let mut fields: MoovFields = Field::new(
            <Mvhd as BoxContainer<Mvhd, SingleBoxPlaceholder<Mvhd>>>::placeholder(),
            Field::new(
                <Vec<Trak> as BoxContainer<Trak, Vec<Trak>>>::placeholder(),
                Field::new(
                    <Udta as BoxContainer<Udta, SingleBoxPlaceholder<Udta>>>::placeholder(),
                    NoField,
                ),
            ),
        );
        read_children(&mut fields, &mut sub)?;
        leave(&header, reader);
        let mvhd = BoxPlaceholder::get(fields.slot, "mvhd")?;
        let traks = BoxPlaceholder::get(fields.rest.slot, "traks")?;
        let udta = BoxPlaceholder::get(fields.rest.rest.slot, "udta")?;
        Ok(Moov { header, mvhd, traks, udta })
    }
}

/// A movie file: its file type, its movie box and its media data.
#[derive(Clone, Debug, PartialEq, Eq)]
pub struct QuickTime {
    pub ftyp: Ftyp,
    pub moov: Moov,
    pub mdat: Mdat,
}

/// What a movie file holds.
pub struct QuickTimeModel {
    pub ftyp: FtypModel,
    pub moov: MoovModel,
    pub mdat: Mdat,
}

impl DeepView for QuickTime {
    type V = QuickTimeModel;

    open spec fn deep_view(&self) -> QuickTimeModel {
        QuickTimeModel {
            ftyp: self.ftyp.deep_view(),
            moov: self.moov.deep_view(),
            mdat: self.mdat.deep_view(),
        }
    }
}

/// The children that a movie file looks for, in the order in which they are tried.
pub type QuickTimeFields = Field<
    Ftyp,
    SingleBoxPlaceholder<Ftyp>,
    Field<
        Moov,
        SingleBoxPlaceholder<Moov>,
        Field<
            Mdat,
            SingleBoxPlaceholder<Mdat>,
            NoField,
        >,
    >,
>;

impl QuickTime {
    /// The fields before any child has been seen.
    pub open spec fn vacant() -> <QuickTimeFields as DeepView>::V {
        (None, (None, (None, ())))
    }

    /// The box made of what the children left in the fields. A child that must occur
    /// and did not is reported by the name of its field; where several are missing,
    /// the first in the order of the fields.
    pub open spec fn completed(
        held: <QuickTimeFields as DeepView>::V,
    ) -> Result<QuickTimeModel, ParseError> {
        match held.0 {
            None => Err(ParseError::NotFound { field: "ftyp" }),
            Some(ftyp) => match held.1.0 {
                None => Err(ParseError::NotFound { field: "moov" }),
                Some(moov) => match held.1.1.0 {
                    None => Err(ParseError::NotFound { field: "mdat" }),
                    Some(mdat) => Ok(
                        QuickTimeModel {
                            ftyp,
                            moov,
                            mdat,
                        },
                    ),
                },
            },
        }
    }

    /// What walking the boxes of the file gives.
    pub open spec fn content(s: Stream) -> Result<QuickTimeModel, ParseError> {
        match children::<QuickTimeFields>(Self::vacant(), s) {
            (Err(e), _) => Err(e),
            (Ok(held), _) => Self::completed(held),
        }
    }
}

impl RootRead for QuickTime {
    open spec fn decoded(s: Stream) -> Result<QuickTimeModel, ParseError> {
        Self::content(s)
    }

    fn read(reader: &mut Reader) -> (r: Result<QuickTime, ParseError>) {
        let mut sub = reader.clone();
        let mut fields: QuickTimeFields = Field::new(
            <Ftyp as BoxContainer<Ftyp, SingleBoxPlaceholder<Ftyp>>>::placeholder(),
            Field::new(
                <Moov as BoxContainer<Moov, SingleBoxPlaceholder<Moov>>>::placeholder(),
                Field::new(
                    <Mdat as BoxContainer<Mdat, SingleBoxPlaceholder<Mdat>>>::placeholder(),
                    NoField,
                ),
            ),
        );
        read_children(&mut fields, &mut sub)?;
        let ftyp = BoxPlaceholder::get(fields.slot, "ftyp")?;
        let moov = BoxPlaceholder::get(fields.rest.slot, "moov")?;
        let mdat = BoxPlaceholder::get(fields.rest.rest.slot, "mdat")?;
        Ok(QuickTime { ftyp, moov, mdat })
    }
}

} // verus!
