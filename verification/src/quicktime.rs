//! The boxes of a QuickTime movie file, and the samples of its tracks.
pub mod file_type;
pub mod media;
pub mod media_data;
pub mod movie;
pub mod sample_table;
pub mod samples;
pub mod track;

pub use crate::quicktime::file_type::Ftyp;
pub use crate::quicktime::media::{DataReference, Dinf, Dref, Hdlr, Mdhd, Mdia, Minf, Smhd};
pub use crate::quicktime::media_data::Mdat;
pub use crate::quicktime::movie::{Moov, Mvhd, QuickTime, Udta};
pub use crate::quicktime::sample_table::{
    Co64, GeneralSampleDescription, SampleToChunk, Sbgp, Sgpd, Stbl, Stco, Stsc, Stsd, Stsz, Stts,
    TimeToSample,
};
pub use crate::quicktime::samples::{Sample, SamplesError, TrackMetadata};
pub use crate::quicktime::track::{Edit, Edts, Elst, Tkhd, Trak};
pub use crate::time::Timescale;
