//! A parser for QuickTime / MP4 containers.
//!
//! A movie file is a sequence of boxes. A box is a size, a four-character tag and a
//! body, and the body of a box is either a record of fields or more boxes. This crate
//! reads such files into typed values and works out, from the tables of a track, where
//! each of its samples lies and how long it lasts.
//!
//! - [`reader`] is the cursor that everything is read through. It refuses reads past a
//!   limit, and handles on one stream keep positions of their own.
//! - [`bytes`], [`record`], [`attr`] and [`text`] decode what a body is made of:
//!   big-endian numbers, byte arrays, runs of fields, lists and text.
//! - [`header`], [`boxes`], [`placeholder`] and [`children`] read boxes: the header, the
//!   frame of a body, the fields that collect the children of a box, and the walk over
//!   those children, which steps over what it does not know.
//! - [`quicktime`] holds the boxes of a movie file, and the list of the samples of a
//!   track.
//!
//! What a function reads is stated over [`reader::Stream`], the bytes and the cursor
//! that a reader stands for. Values that own vectors or strings are described by their
//! models, which hold sequences in their place.
pub mod attr;
pub mod boxes;
pub mod bytes;
pub mod children;
pub mod error;
pub mod header;
pub mod placeholder;
pub mod quicktime;
pub mod reader;
pub mod record;
pub mod text;
pub mod time;

pub use vstd::view::DeepView;

pub use crate::attr::AttrRead;
pub use crate::boxes::{BoxRead, RootRead};
pub use crate::error::ParseError;
pub use crate::header::{BoxHeader, U32Tag};
pub use crate::placeholder::{BoxContainer, BoxPlaceholder, SingleBoxPlaceholder};
pub use crate::reader::Reader;
pub use crate::text::RawString;
