//! `stbl`: the tables that say where the samples of a track lie and how long they last.
use vstd::prelude::*;
use crate::attr::{decode_list, takes_width, AttrRead};
use crate::boxes::{enter, framed, leave, whole, BoxRead};
use crate::bytes::{array_at, array_of, u16_at, u16_from_be, u32_at, u32_from_be};
use crate::children::{children, read_children, Field, NoField};
use crate::error::ParseError;
use crate::header::{fourcc, tag_is, BoxHeader, U32Tag};
use crate::placeholder::{BoxContainer, BoxPlaceholder, SingleBoxPlaceholder};
use crate::reader::{Reader, Stream};
use crate::record::{fields, fields_from, read_fields, span};

verus! {

/// A run of samples that last equally long.
#[derive(Clone, Copy, Debug, PartialEq, Eq)]
pub struct TimeToSample {
    /// The number of samples in the run.
    pub sample_count: u32,
    /// The length of each of them, in ticks of the media time scale.
    pub sample_duration: u32,
}

impl DeepView for TimeToSample {
    type V = TimeToSample;

    open spec fn deep_view(&self) -> TimeToSample {
        *self
    }
}

impl TimeToSample {
    /// The widths of the fields, in the order in which they are stored.
    pub open spec fn layout() -> Seq<usize> {
        seq![4usize, 4]
    }

    /// Every value takes 8 bytes.
    pub proof fn lemma_width()
        ensures
            takes_width::<TimeToSample>(8),
    {
        reveal_with_fuel(fields_from, 3);
        reveal_with_fuel(span, 3);
    }
}

impl AttrRead for TimeToSample {
    open spec fn decode(s: Stream) -> (Result<TimeToSample, ParseError>, Stream) {
        match fields(s, Self::layout()) {
            (Err(e), t) => (Err(e), t),
            (Ok(b), t) => (
                Ok(
                    TimeToSample {
                        sample_count: u32_from_be(b.subrange(0, 4)),
                        sample_duration: u32_from_be(b.subrange(4, 8)),
                    },
                ),
                t,
            ),
        }
    }

    fn read_attr(reader: &mut Reader) -> (r: Result<TimeToSample, ParseError>) {
        let widths: [usize; 2] = [4, 4];
        assert(widths@ =~= Self::layout());
        let bytes = read_fields(reader, &widths)?;
        proof {
            reveal_with_fuel(span, 3);
        }
        let b: &[u8] = bytes.as_slice();
        Ok(
            TimeToSample {
                sample_count: u32_at(b, 0),
                sample_duration: u32_at(b, 4),
            },
        )
    }
}

/// A run of chunks that hold equally many samples.
#[derive(Clone, Copy, Debug, PartialEq, Eq)]
pub struct SampleToChunk {
    /// The number of the first chunk of the run; chunks are counted from one.
    pub first_chunk: u32,
    pub samples_per_chunk: u32,
    pub sample_description_id: u32,
}

impl DeepView for SampleToChunk {
    type V = SampleToChunk;

    open spec fn deep_view(&self) -> SampleToChunk {
        *self
    }
}

impl SampleToChunk {
    /// The widths of the fields, in the order in which they are stored.
    pub open spec fn layout() -> Seq<usize> {
        seq![4usize, 4, 4]
    }

    /// Every value takes 12 bytes.
    pub proof fn lemma_width()
        ensures
            takes_width::<SampleToChunk>(12),
    {
        reveal_with_fuel(fields_from, 4);
        reveal_with_fuel(span, 4);
    }
}

impl AttrRead for SampleToChunk {
    open spec fn decode(s: Stream) -> (Result<SampleToChunk, ParseError>, Stream) {
        match fields(s, Self::layout()) {
            (Err(e), t) => (Err(e), t),
            (Ok(b), t) => (
                Ok(
                    SampleToChunk {
                        first_chunk: u32_from_be(b.subrange(0, 4)),
                        samples_per_chunk: u32_from_be(b.subrange(4, 8)),
                        sample_description_id: u32_from_be(b.subrange(8, 12)),
                    },
                ),
                t,
            ),
        }
    }

    fn read_attr(reader: &mut Reader) -> (r: Result<SampleToChunk, ParseError>) {
        let widths: [usize; 3] = [4, 4, 4];
        assert(widths@ =~= Self::layout());
        let bytes = read_fields(reader, &widths)?;
        proof {
            reveal_with_fuel(span, 4);
        }
        let b: &[u8] = bytes.as_slice();
        Ok(
            SampleToChunk {
                first_chunk: u32_at(b, 0),
                samples_per_chunk: u32_at(b, 4),
                sample_description_id: u32_at(b, 8),
            },
        )
    }
}

/// The time-to-sample table: how long each sample lasts.
#[derive(Clone, Debug, PartialEq, Eq)]
pub struct Stts {
    pub header: BoxHeader,
    pub version: u8,
    pub flags: [u8; 3],
    /// The number of entries that the box declares; the table is read to the end of the
    /// body whatever this says.
    pub number_of_entries: u32,
    /// The runs that fill the rest of the body.
    pub time_to_sample_table: Vec<TimeToSample>,
}

/// What a `stts` box holds.
pub struct SttsModel {
    pub header: BoxHeader,
    pub version: u8,
    pub flags: [u8; 3],
    pub number_of_entries: u32,
    pub time_to_sample_table: Seq<TimeToSample>,
}

impl DeepView for Stts {
    type V = SttsModel;

    open spec fn deep_view(&self) -> SttsModel {
        SttsModel {
            header: self.header,
            version: self.version,
            flags: self.flags,
            number_of_entries: self.number_of_entries,
            time_to_sample_table: self.time_to_sample_table.deep_view(),
        }
    }
}

impl Stts {
    /// The widths of the fields that the body starts with, in the order in which they
    /// are stored.
    pub open spec fn layout() -> Seq<usize> {
        seq![1usize, 3, 4]
    }

    /// What the body holds: the fields, then entries up to the end of the body.
    pub open spec fn content(header: BoxHeader, s: Stream) -> Result<SttsModel, ParseError> {
        match fields(s, Self::layout()) {
            (Err(e), _) => Err(e),
            (Ok(b), t) => match decode_list::<TimeToSample>(t) {
                (Err(e), _) => Err(e),
                (Ok(time_to_sample_table), _) => Ok(
                    SttsModel {
                        header,
                        version: b[0],
                        flags: array_of::<3>(b.subrange(1, 4)),
                        number_of_entries: u32_from_be(b.subrange(4, 8)),
                        time_to_sample_table: time_to_sample_table,
                    },
                ),
            },
        }
    }
}

impl BoxRead for Stts {
    open spec fn accepts(tag: [u8; 4]) -> bool {
        tag == fourcc('s', 't', 't', 's')
    }

    open spec fn parsed(header: BoxHeader, s: Stream) -> (
        Result<SttsModel, ParseError>,
        Stream,
    ) {
        framed(
            header,
            s,
            Self::accepts(header.id),
            whole(Self::content(header, s.confined(header.body_len()))),
        )
    }

    proof fn parsed_moves(header: BoxHeader, s: Stream) {
    }

    fn acceptable_tag(tag: [u8; 4]) -> (accepted: bool) {
        tag_is(tag, 's', 't', 't', 's')
    }

    fn read_body(header: BoxHeader, reader: &mut Reader) -> (r: Result<Stts, ParseError>) {
        let mut sub = enter(&header, Self::acceptable_tag(header.id), reader)?;
        let widths: [usize; 3] = [1, 3, 4];
        assert(widths@ =~= Self::layout());
        let bytes = read_fields(&mut sub, &widths)?;
        proof {
            reveal_with_fuel(span, 4);
        }
        let b: &[u8] = bytes.as_slice();
        let time_to_sample_table = Vec::<TimeToSample>::read_attr(&mut sub)?;
        leave(&header, reader);
        Ok(
            Stts {
                header,
                version: b[0],
                flags: array_at::<3>(b, 1),
                number_of_entries: u32_at(b, 4),
                time_to_sample_table,
            },
        )
    }
}

/// The sample-to-chunk table: how many samples each chunk holds.
#[derive(Clone, Debug, PartialEq, Eq)]
pub struct Stsc {
    pub header: BoxHeader,
    pub version: u8,
    pub flags: [u8; 3],
    /// The number of entries that the box declares; the table is read to the end of the
    /// body whatever this says.
    pub number_of_entries: u32,
    /// The runs that fill the rest of the body.
    pub sample_to_chunk_table: Vec<SampleToChunk>,
}

/// What a `stsc` box holds.
pub struct StscModel {
    pub header: BoxHeader,
    pub version: u8,
    pub flags: [u8; 3],
    pub number_of_entries: u32,
    pub sample_to_chunk_table: Seq<SampleToChunk>,
}

impl DeepView for Stsc {
    type V = StscModel;

    open spec fn deep_view(&self) -> StscModel {
        StscModel {
            header: self.header,
            version: self.version,
            flags: self.flags,
            number_of_entries: self.number_of_entries,
            sample_to_chunk_table: self.sample_to_chunk_table.deep_view(),
        }
    }
}

impl Stsc {
    /// The widths of the fields that the body starts with, in the order in which they
    /// are stored.
    pub open spec fn layout() -> Seq<usize> {
        seq![1usize, 3, 4]
    }

    /// What the body holds: the fields, then entries up to the end of the body.
    pub open spec fn content(header: BoxHeader, s: Stream) -> Result<StscModel, ParseError> {
        match fields(s, Self::layout()) {
            (Err(e), _) => Err(e),
            (Ok(b), t) => match decode_list::<SampleToChunk>(t) {
                (Err(e), _) => Err(e),
                (Ok(sample_to_chunk_table), _) => Ok(
                    StscModel {
                        header,
                        version: b[0],
                        flags: array_of::<3>(b.subrange(1, 4)),
                        number_of_entries: u32_from_be(b.subrange(4, 8)),
                        sample_to_chunk_table: sample_to_chunk_table,
                    },
                ),
            },
        }
    }
}

impl BoxRead for Stsc {
    open spec fn accepts(tag: [u8; 4]) -> bool {
        tag == fourcc('s', 't', 's', 'c')
    }

    open spec fn parsed(header: BoxHeader, s: Stream) -> (
        Result<StscModel, ParseError>,
        Stream,
    ) {
        framed(
            header,
            s,
            Self::accepts(header.id),
            whole(Self::content(header, s.confined(header.body_len()))),
        )
    }

    proof fn parsed_moves(header: BoxHeader, s: Stream) {
    }

    fn acceptable_tag(tag: [u8; 4]) -> (accepted: bool) {
        tag_is(tag, 's', 't', 's', 'c')
    }

    fn read_body(header: BoxHeader, reader: &mut Reader) -> (r: Result<Stsc, ParseError>) {
        let mut sub = enter(&header, Self::acceptable_tag(header.id), reader)?;
        let widths: [usize; 3] = [1, 3, 4];
        assert(widths@ =~= Self::layout());
        let bytes = read_fields(&mut sub, &widths)?;
        proof {
            reveal_with_fuel(span, 4);
        }
        let b: &[u8] = bytes.as_slice();
        let sample_to_chunk_table = Vec::<SampleToChunk>::read_attr(&mut sub)?;
        leave(&header, reader);
        Ok(
            Stsc {
                header,
                version: b[0],
                flags: array_at::<3>(b, 1),
                number_of_entries: u32_at(b, 4),
                sample_to_chunk_table,
            },
        )
    }
}

/// The sample size table: how many bytes each sample takes.
#[derive(Clone, Debug, PartialEq, Eq)]
pub struct Stsz {
    pub header: BoxHeader,
    pub version: u8,
    pub flags: [u8; 3],
    pub sample_size: u32,
    /// The number of entries that the box declares; the table is read to the end of the
    /// body whatever this says.
    pub number_of_entries: u32,
    /// The sizes that fill the rest of the body, one for each sample.
    pub sample_size_table: Vec<u32>,
}

/// What a `stsz` box holds.
pub struct StszModel {
    pub header: BoxHeader,
    pub version: u8,
    pub flags: [u8; 3],
    pub sample_size: u32,
    pub number_of_entries: u32,
    pub sample_size_table: Seq<u32>,
}

impl DeepView for Stsz {
    type V = StszModel;

    open spec fn deep_view(&self) -> StszModel {
        StszModel {
            header: self.header,
            version: self.version,
            flags: self.flags,
            sample_size: self.sample_size,
            number_of_entries: self.number_of_entries,
            sample_size_table: self.sample_size_table.deep_view(),
        }
    }
}

impl Stsz {
    /// The widths of the fields that the body starts with, in the order in which they
    /// are stored.
    pub open spec fn layout() -> Seq<usize> {
        seq![1usize, 3, 4, 4]
    }

    /// What the body holds: the fields, then entries up to the end of the body.
    pub open spec fn content(header: BoxHeader, s: Stream) -> Result<StszModel, ParseError> {
        match fields(s, Self::layout()) {
            (Err(e), _) => Err(e),
            (Ok(b), t) => match decode_list::<u32>(t) {
                (Err(e), _) => Err(e),
                (Ok(sample_size_table), _) => Ok(
                    StszModel {
                        header,
                        version: b[0],
                        flags: array_of::<3>(b.subrange(1, 4)),
                        sample_size: u32_from_be(b.subrange(4, 8)),
                        number_of_entries: u32_from_be(b.subrange(8, 12)),
                        sample_size_table: sample_size_table,
                    },
                ),
            },
        }
    }
}

impl BoxRead for Stsz {
    open spec fn accepts(tag: [u8; 4]) -> bool {
        tag == fourcc('s', 't', 's', 'z')
    }

    open spec fn parsed(header: BoxHeader, s: Stream) -> (
        Result<StszModel, ParseError>,
        Stream,
    ) {
        framed(
            header,
            s,
            Self::accepts(header.id),
            whole(Self::content(header, s.confined(header.body_len()))),
        )
    }

    proof fn parsed_moves(header: BoxHeader, s: Stream) {
    }

    fn acceptable_tag(tag: [u8; 4]) -> (accepted: bool) {
        tag_is(tag, 's', 't', 's', 'z')
    }

    fn read_body(header: BoxHeader, reader: &mut Reader) -> (r: Result<Stsz, ParseError>) {
        let mut sub = enter(&header, Self::acceptable_tag(header.id), reader)?;
        let widths: [usize; 4] = [1, 3, 4, 4];
        assert(widths@ =~= Self::layout());
        let bytes = read_fields(&mut sub, &widths)?;
        proof {
            reveal_with_fuel(span, 5);
        }
        let b: &[u8] = bytes.as_slice();
        let sample_size_table = Vec::<u32>::read_attr(&mut sub)?;
        leave(&header, reader);
        Ok(
            Stsz {
                header,
                version: b[0],
                flags: array_at::<3>(b, 1),
                sample_size: u32_at(b, 4),
                number_of_entries: u32_at(b, 8),
                sample_size_table,
            },
        )
    }
}

/// The chunk offset table, with offsets of 32 bits.
#[derive(Clone, Debug, PartialEq, Eq)]
pub struct Stco {
    pub header: BoxHeader,
    pub version: u8,
    pub flags: [u8; 3],
    /// The number of entries that the box declares; the table is read to the end of the
    /// body whatever this says.
    pub number_of_entries: u32,
    /// The offsets that fill the rest of the body, one for each chunk.
    pub chunk_offset_table: Vec<u32>,
}

/// What a `stco` box holds.
pub struct StcoModel {
    pub header: BoxHeader,
    pub version: u8,
    pub flags: [u8; 3],
    pub number_of_entries: u32,
    pub chunk_offset_table: Seq<u32>,
}

impl DeepView for Stco {
    type V = StcoModel;

    open spec fn deep_view(&self) -> StcoModel {
        StcoModel {
            header: self.header,
            version: self.version,
            flags: self.flags,
            number_of_entries: self.number_of_entries,
            chunk_offset_table: self.chunk_offset_table.deep_view(),
        }
    }
}

impl Stco {
    /// The widths of the fields that the body starts with, in the order in which they
    /// are stored.
    pub open spec fn layout() -> Seq<usize> {
        seq![1usize, 3, 4]
    }

    /// What the body holds: the fields, then entries up to the end of the body.
    pub open spec fn content(header: BoxHeader, s: Stream) -> Result<StcoModel, ParseError> {
        match fields(s, Self::layout()) {
            (Err(e), _) => Err(e),
            (Ok(b), t) => match decode_list::<u32>(t) {
                (Err(e), _) => Err(e),
                (Ok(chunk_offset_table), _) => Ok(
                    StcoModel {
                        header,
                        version: b[0],
                        flags: array_of::<3>(b.subrange(1, 4)),
                        number_of_entries: u32_from_be(b.subrange(4, 8)),
                        chunk_offset_table: chunk_offset_table,
                    },
                ),
            },
        }
    }
}

impl BoxRead for Stco {
    open spec fn accepts(tag: [u8; 4]) -> bool {
        tag == fourcc('s', 't', 'c', 'o')
    }

    open spec fn parsed(header: BoxHeader, s: Stream) -> (
        Result<StcoModel, ParseError>,
        Stream,
    ) {
        framed(
            header,
            s,
            Self::accepts(header.id),
            whole(Self::content(header, s.confined(header.body_len()))),
        )
    }

    proof fn parsed_moves(header: BoxHeader, s: Stream) {
    }

    fn acceptable_tag(tag: [u8; 4]) -> (accepted: bool) {
        tag_is(tag, 's', 't', 'c', 'o')
    }

    fn read_body(header: BoxHeader, reader: &mut Reader) -> (r: Result<Stco, ParseError>) {
        let mut sub = enter(&header, Self::acceptable_tag(header.id), reader)?;
        let widths: [usize; 3] = [1, 3, 4];
        assert(widths@ =~= Self::layout());
        let bytes = read_fields(&mut sub, &widths)?;
        proof {
            reveal_with_fuel(span, 4);
        }
        let b: &[u8] = bytes.as_slice();
        let chunk_offset_table = Vec::<u32>::read_attr(&mut sub)?;
        leave(&header, reader);
        Ok(
            Stco {
                header,
                version: b[0],
                flags: array_at::<3>(b, 1),
                number_of_entries: u32_at(b, 4),
                chunk_offset_table,
            },
        )
    }
}

/// The chunk offset table, with offsets of 64 bits.
#[derive(Clone, Debug, PartialEq, Eq)]
pub struct Co64 {
    pub header: BoxHeader,
    pub version: u8,
    pub flags: [u8; 3],
    /// The number of entries that the box declares; the table is read to the end of the
    /// body whatever this says.
    pub number_of_entries: u32,
    /// The offsets that fill the rest of the body, one for each chunk.
    pub chunk_offset_table: Vec<u64>,
}

/// What a `co64` box holds.
pub struct Co64Model {
    pub header: BoxHeader,
    pub version: u8,
    pub flags: [u8; 3],
    pub number_of_entries: u32,
    pub chunk_offset_table: Seq<u64>,
}

impl DeepView for Co64 {
    type V = Co64Model;

    open spec fn deep_view(&self) -> Co64Model {
        Co64Model {
            header: self.header,
            version: self.version,
            flags: self.flags,
            number_of_entries: self.number_of_entries,
            chunk_offset_table: self.chunk_offset_table.deep_view(),
        }
    }
}

impl Co64 {
    /// The widths of the fields that the body starts with, in the order in which they
    /// are stored.
    pub open spec fn layout() -> Seq<usize> {
        seq![1usize, 3, 4]
    }

    /// What the body holds: the fields, then entries up to the end of the body.
    pub open spec fn content(header: BoxHeader, s: Stream) -> Result<Co64Model, ParseError> {
        match fields(s, Self::layout()) {
            (Err(e), _) => Err(e),
            (Ok(b), t) => match decode_list::<u64>(t) {
                (Err(e), _) => Err(e),
                (Ok(chunk_offset_table), _) => Ok(
                    Co64Model {
                        header,
                        version: b[0],
                        flags: array_of::<3>(b.subrange(1, 4)),
                        number_of_entries: u32_from_be(b.subrange(4, 8)),
                        chunk_offset_table: chunk_offset_table,
                    },
                ),
            },
        }
    }
}

impl BoxRead for Co64 {
    open spec fn accepts(tag: [u8; 4]) -> bool {
        tag == fourcc('c', 'o', '6', '4')
    }

    open spec fn parsed(header: BoxHeader, s: Stream) -> (
        Result<Co64Model, ParseError>,
        Stream,
    ) {
        framed(
            header,
            s,
            Self::accepts(header.id),
            whole(Self::content(header, s.confined(header.body_len()))),
        )
    }

    proof fn parsed_moves(header: BoxHeader, s: Stream) {
    }

    fn acceptable_tag(tag: [u8; 4]) -> (accepted: bool) {
        tag_is(tag, 'c', 'o', '6', '4')
    }

    fn read_body(header: BoxHeader, reader: &mut Reader) -> (r: Result<Co64, ParseError>) {
        let mut sub = enter(&header, Self::acceptable_tag(header.id), reader)?;
        let widths: [usize; 3] = [1, 3, 4];
        assert(widths@ =~= Self::layout());
        let bytes = read_fields(&mut sub, &widths)?;
        proof {
            reveal_with_fuel(span, 4);
        }
        let b: &[u8] = bytes.as_slice();
        let chunk_offset_table = Vec::<u64>::read_attr(&mut sub)?;
        leave(&header, reader);
        Ok(
            Co64 {
                header,
                version: b[0],
                flags: array_at::<3>(b, 1),
                number_of_entries: u32_at(b, 4),
                chunk_offset_table,
            },
        )
    }
}

/// The description of the samples of a track, in one of the formats that are known.
/// Each format has a tag of its own.
#[derive(Clone, Debug, PartialEq, Eq)]
pub enum GeneralSampleDescription {
    /// `mp4a`: sound.
    Mp4a {
        header: BoxHeader,
        _reserved: [u8; 6],
        data_reference_index: u16,
    },
    /// `avc1`: pictures.
    Avc1 {
        header: BoxHeader,
        _reserved: [u8; 6],
        data_reference_index: u16,
        version: u16,
        revision: u16,
        vendor: U32Tag,
        temporal_quality: u32,
        spatial_quality: u32,
        width: u16,
        height: u16,
        horizontal_resolution: u32,
        vertical_resolution: u32,
        data_size: u32,
        frame_per_samples: u16,
    },
    /// `Hap1`: pictures.
    Hap1 {
        header: BoxHeader,
        _reserved: [u8; 6],
        data_reference_index: u16,
        version: u16,
        revision: u16,
        vendor: U32Tag,
        temporal_quality: u32,
        spatial_quality: u32,
        width: u16,
        height: u16,
        horizontal_resolution: u32,
        vertical_resolution: u32,
        data_size: u32,
        frame_per_samples: u16,
    },
}

impl DeepView for GeneralSampleDescription {
    type V = GeneralSampleDescription;

    open spec fn deep_view(&self) -> GeneralSampleDescription {
        *self
    }
}

impl GeneralSampleDescription {
    /// The widths of the fields of a description of sound.
    pub open spec fn sound_layout() -> Seq<usize> {
        seq![6usize, 2]
    }

    /// The widths of the fields of a description of pictures.
    pub open spec fn visual_layout() -> Seq<usize> {
        seq![6usize, 2, 2, 2, 4, 4, 4, 2, 2, 4, 4, 4, 2]
    }

    /// What the body holds: the fields of the format that the tag names.
    pub open spec fn content(header: BoxHeader, s: Stream) -> Result<
        GeneralSampleDescription,
        ParseError,
    > {
        if header.id == fourcc('m', 'p', '4', 'a') {
            match fields(s, Self::sound_layout()) {
                (Err(e), _) => Err(e),
                (Ok(b), _) => Ok(
                    GeneralSampleDescription::Mp4a {
                        header,
                        _reserved: array_of::<6>(b.subrange(0, 6)),
                        data_reference_index: u16_from_be(b.subrange(6, 8)),
                    },
                ),
            }
        } else {
            match fields(s, Self::visual_layout()) {
                (Err(e), _) => Err(e),
                (Ok(b), _) => Ok(
                    if header.id == fourcc('a', 'v', 'c', '1') {
                        GeneralSampleDescription::Avc1 {
                            header,
                            _reserved: array_of::<6>(b.subrange(0, 6)),
                            data_reference_index: u16_from_be(b.subrange(6, 8)),
                            version: u16_from_be(b.subrange(8, 10)),
                            revision: u16_from_be(b.subrange(10, 12)),
                            vendor: U32Tag { raw: array_of::<4>(b.subrange(12, 16)) },
                            temporal_quality: u32_from_be(b.subrange(16, 20)),
                            spatial_quality: u32_from_be(b.subrange(20, 24)),
                            width: u16_from_be(b.subrange(24, 26)),
                            height: u16_from_be(b.subrange(26, 28)),
                            horizontal_resolution: u32_from_be(b.subrange(28, 32)),
                            vertical_resolution: u32_from_be(b.subrange(32, 36)),
                            data_size: u32_from_be(b.subrange(36, 40)),
                            frame_per_samples: u16_from_be(b.subrange(40, 42)),
                        }
                    } else {
                        GeneralSampleDescription::Hap1 {
                            header,
                            _reserved: array_of::<6>(b.subrange(0, 6)),
                            data_reference_index: u16_from_be(b.subrange(6, 8)),
                            version: u16_from_be(b.subrange(8, 10)),
                            revision: u16_from_be(b.subrange(10, 12)),
                            vendor: U32Tag { raw: array_of::<4>(b.subrange(12, 16)) },
                            temporal_quality: u32_from_be(b.subrange(16, 20)),
                            spatial_quality: u32_from_be(b.subrange(20, 24)),
                            width: u16_from_be(b.subrange(24, 26)),
                            height: u16_from_be(b.subrange(26, 28)),
                            horizontal_resolution: u32_from_be(b.subrange(28, 32)),
                            vertical_resolution: u32_from_be(b.subrange(32, 36)),
                            data_size: u32_from_be(b.subrange(36, 40)),
                            frame_per_samples: u16_from_be(b.subrange(40, 42)),
                        }
                    },
                ),
            }
        }
    }
}

impl BoxRead for GeneralSampleDescription {
    open spec fn accepts(tag: [u8; 4]) -> bool {
        tag == fourcc('m', 'p', '4', 'a')
            || tag == fourcc('a', 'v', 'c', '1')
            || tag == fourcc('H', 'a', 'p', '1')
    }

    open spec fn parsed(header: BoxHeader, s: Stream) -> (
        Result<GeneralSampleDescription, ParseError>,
        Stream,
    ) {
        framed(
            header,
            s,
            Self::accepts(header.id),
            whole(Self::content(header, s.confined(header.body_len()))),
        )
    }

    proof fn parsed_moves(header: BoxHeader, s: Stream) {
    }

    fn acceptable_tag(tag: [u8; 4]) -> (accepted: bool) {
        tag_is(tag, 'm', 'p', '4', 'a')
            || tag_is(tag, 'a', 'v', 'c', '1')
            || tag_is(tag, 'H', 'a', 'p', '1')
    }

    fn read_body(header: BoxHeader, reader: &mut Reader) -> (r: Result<
        GeneralSampleDescription,
        ParseError,
    >) {
        let mut sub = enter(&header, Self::acceptable_tag(header.id), reader)?;
        if tag_is(header.id, 'm', 'p', '4', 'a') {
            let widths: [usize; 2] = [6, 2];
            assert(widths@ =~= Self::sound_layout());
            let bytes = read_fields(&mut sub, &widths)?;
            proof {
                reveal_with_fuel(span, 3);
            }
            let b: &[u8] = bytes.as_slice();
            leave(&header, reader);
            Ok(
                GeneralSampleDescription::Mp4a {
                    header,
                    _reserved: array_at::<6>(b, 0),
                    data_reference_index: u16_at(b, 6),
                },
            )
        } else {
            let widths: [usize; 13] = [6, 2, 2, 2, 4, 4, 4, 2, 2, 4, 4, 4, 2];
            assert(widths@ =~= Self::visual_layout());
            let bytes = read_fields(&mut sub, &widths)?;
            proof {
                reveal_with_fuel(span, 14);
            }
            let b: &[u8] = bytes.as_slice();
            leave(&header, reader);
            if tag_is(header.id, 'a', 'v', 'c', '1') {
                Ok(
                    GeneralSampleDescription::Avc1 {
                        header,
                        _reserved: array_at::<6>(b, 0),
                        data_reference_index: u16_at(b, 6),
                        version: u16_at(b, 8),
                        revision: u16_at(b, 10),
                        vendor: U32Tag { raw: array_at::<4>(b, 12) },
                        temporal_quality: u32_at(b, 16),
                        spatial_quality: u32_at(b, 20),
                        width: u16_at(b, 24),
                        height: u16_at(b, 26),
                        horizontal_resolution: u32_at(b, 28),
                        vertical_resolution: u32_at(b, 32),
                        data_size: u32_at(b, 36),
                        frame_per_samples: u16_at(b, 40),
                    },
                )
            } else {
                Ok(
                    GeneralSampleDescription::Hap1 {
                        header,
                        _reserved: array_at::<6>(b, 0),
                        data_reference_index: u16_at(b, 6),
                        version: u16_at(b, 8),
                        revision: u16_at(b, 10),
                        vendor: U32Tag { raw: array_at::<4>(b, 12) },
                        temporal_quality: u32_at(b, 16),
                        spatial_quality: u32_at(b, 20),
                        width: u16_at(b, 24),
                        height: u16_at(b, 26),
                        horizontal_resolution: u32_at(b, 28),
                        vertical_resolution: u32_at(b, 32),
                        data_size: u32_at(b, 36),
                        frame_per_samples: u16_at(b, 40),
                    },
                )
            }
        }
    }
}

/// The sample description table.
#[derive(Clone, Debug, PartialEq, Eq)]
pub struct Stsd {
    pub header: BoxHeader,
    pub version: u8,
    pub flags: [u8; 3],
    /// The number of entries that the box declares; the table is read to the end of the
    /// body whatever this says.
    pub number_of_entries: u32,
    /// The descriptions that fill the rest of the body, each a box of its own.
    pub sample_description_table: Vec<GeneralSampleDescription>,
}

/// What a `stsd` box holds.
pub struct StsdModel {
    pub header: BoxHeader,
    pub version: u8,
    pub flags: [u8; 3],
    pub number_of_entries: u32,
    pub sample_description_table: Seq<GeneralSampleDescription>,
}

impl DeepView for Stsd {
    type V = StsdModel;

    open spec fn deep_view(&self) -> StsdModel {
        StsdModel {
            header: self.header,
            version: self.version,
            flags: self.flags,
            number_of_entries: self.number_of_entries,
            sample_description_table: self.sample_description_table.deep_view(),
        }
    }
}

impl Stsd {
    /// The widths of the fields that the body starts with, in the order in which they
    /// are stored.
    pub open spec fn layout() -> Seq<usize> {
        seq![1usize, 3, 4]
    }

    /// What the body holds: the fields, then entries up to the end of the body.
    pub open spec fn content(header: BoxHeader, s: Stream) -> Result<StsdModel, ParseError> {
        match fields(s, Self::layout()) {
            (Err(e), _) => Err(e),
            (Ok(b), t) => match decode_list::<GeneralSampleDescription>(t) {
                (Err(e), _) => Err(e),
                (Ok(sample_description_table), _) => Ok(
                    StsdModel {
                        header,
                        version: b[0],
                        flags: array_of::<3>(b.subrange(1, 4)),
                        number_of_entries: u32_from_be(b.subrange(4, 8)),
                        sample_description_table: sample_description_table,
                    },
                ),
            },
        }
    }
}

impl BoxRead for Stsd {
    open spec fn accepts(tag: [u8; 4]) -> bool {
        tag == fourcc('s', 't', 's', 'd')
    }

    open spec fn parsed(header: BoxHeader, s: Stream) -> (
        Result<StsdModel, ParseError>,
        Stream,
    ) {
        framed(
            header,
            s,
            Self::accepts(header.id),
            whole(Self::content(header, s.confined(header.body_len()))),
        )
    }

    proof fn parsed_moves(header: BoxHeader, s: Stream) {
    }

    fn acceptable_tag(tag: [u8; 4]) -> (accepted: bool) {
        tag_is(tag, 's', 't', 's', 'd')
    }

    fn read_body(header: BoxHeader, reader: &mut Reader) -> (r: Result<Stsd, ParseError>) {
        let mut sub = enter(&header, Self::acceptable_tag(header.id), reader)?;
        let widths: [usize; 3] = [1, 3, 4];
        assert(widths@ =~= Self::layout());
        let bytes = read_fields(&mut sub, &widths)?;
        proof {
            reveal_with_fuel(span, 4);
        }
        let b: &[u8] = bytes.as_slice();
        let sample_description_table = Vec::<GeneralSampleDescription>::read_attr(&mut sub)?;
        leave(&header, reader);
        Ok(
            Stsd {
                header,
                version: b[0],
                flags: array_at::<3>(b, 1),
                number_of_entries: u32_at(b, 4),
                sample_description_table,
            },
        )
    }
}

/// The sample group description box. Its body is not read.
#[derive(Clone, Debug, PartialEq, Eq)]
pub struct Sgpd {
    pub header: BoxHeader,
}

impl DeepView for Sgpd {
    type V = Sgpd;

    open spec fn deep_view(&self) -> Sgpd {
        *self
    }
}

impl Sgpd {
    /// What the body holds: nothing that is read.
    pub open spec fn content(header: BoxHeader, s: Stream) -> Result<Sgpd, ParseError> {
        Ok(Sgpd { header })
    }
}

impl BoxRead for Sgpd {
    open spec fn accepts(tag: [u8; 4]) -> bool {
        tag == fourcc('s', 'g', 'p', 'd')
    }

    open spec fn parsed(header: BoxHeader, s: Stream) -> (Result<Sgpd, ParseError>, Stream) {
        framed(
            header,
            s,
            Self::accepts(header.id),
            whole(Self::content(header, s.confined(header.body_len()))),
        )
    }

    proof fn parsed_moves(header: BoxHeader, s: Stream) {
    }

    fn acceptable_tag(tag: [u8; 4]) -> (accepted: bool) {
        tag_is(tag, 's', 'g', 'p', 'd')
    }

    fn read_body(header: BoxHeader, reader: &mut Reader) -> (r: Result<Sgpd, ParseError>) {
        let sub = enter(&header, Self::acceptable_tag(header.id), reader)?;
        leave(&header, reader);
        Ok(Sgpd { header })
    }
}

/// The sample-to-group box. Its body is not read.
#[derive(Clone, Debug, PartialEq, Eq)]
pub struct Sbgp {
    pub header: BoxHeader,
}

impl DeepView for Sbgp {
    type V = Sbgp;

    open spec fn deep_view(&self) -> Sbgp {
        *self
    }
}

impl Sbgp {
    /// What the body holds: nothing that is read.
    pub open spec fn content(header: BoxHeader, s: Stream) -> Result<Sbgp, ParseError> {
        Ok(Sbgp { header })
    }
}

impl BoxRead for Sbgp {
    open spec fn accepts(tag: [u8; 4]) -> bool {
        tag == fourcc('s', 'b', 'g', 'p')
    }

    open spec fn parsed(header: BoxHeader, s: Stream) -> (Result<Sbgp, ParseError>, Stream) {
        framed(
            header,
            s,
            Self::accepts(header.id),
            whole(Self::content(header, s.confined(header.body_len()))),
        )
    }

    proof fn parsed_moves(header: BoxHeader, s: Stream) {
    }

    fn acceptable_tag(tag: [u8; 4]) -> (accepted: bool) {
        tag_is(tag, 's', 'b', 'g', 'p')
    }

    fn read_body(header: BoxHeader, reader: &mut Reader) -> (r: Result<Sbgp, ParseError>) {
        let sub = enter(&header, Self::acceptable_tag(header.id), reader)?;
        leave(&header, reader);
        Ok(Sbgp { header })
    }
}

/// The sample table box: the tables from which the samples of a track are found.
#[derive(Clone, Debug, PartialEq, Eq)]
pub struct Stbl {
    pub header: BoxHeader,
    pub stsd: Stsd,
    pub stts: Stts,
    pub stsc: Stsc,
    pub stsz: Stsz,
    pub stco: Option<Stco>,
    pub co64: Option<Co64>,
}

/// What a `stbl` box holds.
pub struct StblModel {
    pub header: BoxHeader,
    pub stsd: StsdModel,
    pub stts: SttsModel,
    pub stsc: StscModel,
    pub stsz: StszModel,
    pub stco: Option<StcoModel>,
    pub co64: Option<Co64Model>,
}

impl DeepView for Stbl {
    type V = StblModel;

    open spec fn deep_view(&self) -> StblModel {
        StblModel {
            header: self.header,
            stsd: self.stsd.deep_view(),
            stts: self.stts.deep_view(),
            stsc: self.stsc.deep_view(),
            stsz: self.stsz.deep_view(),
            stco: self.stco.deep_view(),
            co64: self.co64.deep_view(),
        }
    }
}

/// The children that a `stbl` box looks for, in the order in which they are tried.
pub type StblFields = Field<
    Stsd,
    SingleBoxPlaceholder<Stsd>,
    Field<
        Stts,
        SingleBoxPlaceholder<Stts>,
        Field<
            Stsc,
            SingleBoxPlaceholder<Stsc>,
            Field<
                Stsz,
                SingleBoxPlaceholder<Stsz>,
                Field<
                    Stco,
                    Option<Stco>,
                    Field<
                        Co64,
                        Option<Co64>,
                        NoField,
                    >,
                >,
            >,
        >,
    >,
>;

impl Stbl {
    /// The fields before any child has been seen.
    pub open spec fn vacant() -> <StblFields as DeepView>::V {
        (None, (None, (None, (None, (None, (None, ()))))))
    }

    /// The box made of what the children left in the fields. A child that must occur
    /// and did not is reported by the name of its field; where several are missing,
    /// the first in the order of the fields.
    pub open spec fn completed(
        header: BoxHeader,
        held: <StblFields as DeepView>::V,
    ) -> Result<StblModel, ParseError> {
        match held.0 {
            None => Err(ParseError::NotFound { field: "stsd" }),
            Some(stsd) => match held.1.0 {
                None => Err(ParseError::NotFound { field: "stts" }),
                Some(stts) => match held.1.1.0 {
                    None => Err(ParseError::NotFound { field: "stsc" }),
                    Some(stsc) => match held.1.1.1.0 {
                        None => Err(ParseError::NotFound { field: "stsz" }),
                        Some(stsz) => Ok(
                            StblModel {
                                header,
                                stsd,
                                stts,
                                stsc,
                                stsz,
                                stco: held.1.1.1.1.0,
                                co64: held.1.1.1.1.1.0,
                            },
                        ),
                    },
                },
            },
        }
    }

    /// What walking the children in the body gives. An error of the walk leaves the
    /// box unread; an error of completing it comes after the body has been passed.
    pub open spec fn content(header: BoxHeader, s: Stream) -> Result<
        Result<StblModel, ParseError>,
        ParseError,
    > {
        match children::<StblFields>(Self::vacant(), s) {
            (Err(e), _) => Err(e),
            (Ok(held), _) => Ok(Self::completed(header, held)),
        }
    }
}

impl BoxRead for Stbl {
    open spec fn accepts(tag: [u8; 4]) -> bool {
        tag == fourcc('s', 't', 'b', 'l')
    }

    open spec fn parsed(header: BoxHeader, s: Stream) -> (
        Result<StblModel, ParseError>,
        Stream,
    ) {
        framed(
            header,
            s,
            Self::accepts(header.id),
            Self::content(header, s.confined(header.body_len())),
        )
    }

    proof fn parsed_moves(header: BoxHeader, s: Stream) {
    }

    fn acceptable_tag(tag: [u8; 4]) -> (accepted: bool) {
        tag_is(tag, 's', 't', 'b', 'l')
    }

    fn read_body(header: BoxHeader, reader: &mut Reader) -> (r: Result<Stbl, ParseError>) {
        let mut sub = enter(&header, Self::acceptable_tag(header.id), reader)?;
        let mut fields: StblFields = Field::new(
            <Stsd as BoxContainer<Stsd, SingleBoxPlaceholder<Stsd>>>::placeholder(),
            Field::new(
                <Stts as BoxContainer<Stts, SingleBoxPlaceholder<Stts>>>::placeholder(),
                Field::new(
                    <Stsc as BoxContainer<Stsc, SingleBoxPlaceholder<Stsc>>>::placeholder(),
                    Field::new(
                        <Stsz as BoxContainer<Stsz, SingleBoxPlaceholder<Stsz>>>::placeholder(),
                        Field::new(
                            <Option<Stco> as BoxContainer<Stco, Option<Stco>>>::placeholder(),
                            Field::new(
                                <Option<Co64> as BoxContainer<Co64, Option<Co64>>>::placeholder(),
                                NoField,
                            ),
                        ),
                    ),
                ),
            ),
        );
        read_children(&mut fields, &mut sub)?;
        leave(&header, reader);
        let stsd = BoxPlaceholder::get(fields.slot, "stsd")?;
        let stts = BoxPlaceholder::get(fields.rest.slot, "stts")?;
        let stsc = BoxPlaceholder::get(fields.rest.rest.slot, "stsc")?;
        let stsz = BoxPlaceholder::get(fields.rest.rest.rest.slot, "stsz")?;
        let stco = BoxPlaceholder::get(fields.rest.rest.rest.rest.slot, "stco")?;
        let co64 = BoxPlaceholder::get(fields.rest.rest.rest.rest.rest.slot, "co64")?;
        Ok(Stbl { header, stsd, stts, stsc, stsz, stco, co64 })
    }
}

} // verus!
