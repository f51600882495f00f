use movparse::quicktime::samples::list_samples;
use movparse::quicktime::{
    Co64, DataReference, Dinf, Dref, Edit, Edts, Elst, Ftyp, GeneralSampleDescription, Hdlr, Mdat,
    Mdhd, Minf, Moov, Mvhd, QuickTime, Sample, SampleToChunk, SamplesError, Stbl, Stco, Stsc,
    Stsd, Stsz, Stts, TimeToSample, Tkhd, Trak, Udta,
};
use movparse::time::{Duration, Timescale};
use movparse::{AttrRead, BoxHeader, BoxRead, ParseError, RawString, Reader, RootRead, U32Tag};

fn boxed(tag: &[u8; 4], body: &[u8]) -> Vec<u8> {
    let mut out = Vec::new();
    out.extend_from_slice(&(body.len() as u32 + 8).to_be_bytes());
    out.extend_from_slice(tag);
    out.extend_from_slice(body);
    out
}

fn join(parts: &[Vec<u8>]) -> Vec<u8> {
    let mut out = Vec::new();
    for part in parts {
        out.extend_from_slice(part);
    }
    out
}

fn be32(values: &[u32]) -> Vec<u8> {
    let mut out = Vec::new();
    for value in values {
        out.extend_from_slice(&value.to_be_bytes());
    }
    out
}

fn header(tag: &[u8; 4], size: u32) -> BoxHeader {
    BoxHeader { id: *tag, size }
}

fn table(entries: u32, rest: &[u8]) -> Vec<u8> {
    join(&[vec![0, 0, 0, 0], be32(&[entries]), rest.to_vec()])
}

fn ftyp_box() -> Vec<u8> {
    boxed(b"ftyp", b"isom\0\0\x02\0isomiso2avc1mp41")
}

fn mvhd_box() -> Vec<u8> {
    let mut body = vec![0u8; 100];
    body[0] = 1;
    body[1..4].copy_from_slice(&[2, 3, 4]);
    body[4..8].copy_from_slice(&5u32.to_be_bytes());
    body[8..12].copy_from_slice(&6u32.to_be_bytes());
    body[12..16].copy_from_slice(&600u32.to_be_bytes());
    body[16..20].copy_from_slice(&3000u32.to_be_bytes());
    body[20..24].copy_from_slice(&0x0001_0000u32.to_be_bytes());
    body[24..26].copy_from_slice(&0x0100u16.to_be_bytes());
    for i in 0..10 {
        body[26 + i] = 0xA0 + i as u8;
    }
    for i in 0..36 {
        body[36 + i] = i as u8;
    }
    body[72..76].copy_from_slice(&7u32.to_be_bytes());
    body[76..80].copy_from_slice(&8u32.to_be_bytes());
    body[80..84].copy_from_slice(&9u32.to_be_bytes());
    body[84..88].copy_from_slice(&10u32.to_be_bytes());
    body[88..92].copy_from_slice(&11u32.to_be_bytes());
    body[92..96].copy_from_slice(&12u32.to_be_bytes());
    body[96..100].copy_from_slice(&13u32.to_be_bytes());
    boxed(b"mvhd", &body)
}

fn tkhd_box() -> Vec<u8> {
    let mut body = vec![0u8; 84];
    body[12..16].copy_from_slice(&1u32.to_be_bytes());
    body[20..24].copy_from_slice(&3000u32.to_be_bytes());
    body[32..34].copy_from_slice(&2u16.to_be_bytes());
    body[34..36].copy_from_slice(&3u16.to_be_bytes());
    body[36..38].copy_from_slice(&4u16.to_be_bytes());
    body[76..80].copy_from_slice(&640u32.to_be_bytes());
    body[80..84].copy_from_slice(&480u32.to_be_bytes());
    boxed(b"tkhd", &body)
}

fn mdhd_box(time_scale: u32) -> Vec<u8> {
    let body = join(&[
        vec![0, 0, 0, 0],
        be32(&[1, 2, time_scale, 2000]),
        vec![0x55, 0xC4, 0x00, 0x07],
    ]);
    boxed(b"mdhd", &body)
}

fn hdlr_box() -> Vec<u8> {
    boxed(b"hdlr", b"\0\0\0\0mhlrsoun\0\0\0\x01\0\0\0\x02Sound")
}

fn stbl_box(offsets: Vec<u8>) -> Vec<u8> {
    let mp4a = boxed(b"mp4a", &[0, 0, 0, 0, 0, 0, 0, 1]);
    let stsd = boxed(b"stsd", &table(1, &mp4a));
    let stts = boxed(b"stts", &table(1, &be32(&[2, 1000])));
    let stsc = boxed(b"stsc", &table(1, &be32(&[1, 2, 1])));
    let stsz = boxed(b"stsz", &join(&[vec![0, 0, 0, 0], be32(&[0, 2, 10, 20])]));
    boxed(b"stbl", &join(&[stsd, stts, stsc, stsz, offsets]))
}

fn trak_box(time_scale: u32, offsets: Vec<u8>) -> Vec<u8> {
    let elst = boxed(b"elst", &table(1, &be32(&[3000, 0, 0x0001_0000])));
    let edts = boxed(b"edts", &elst);
    let url = boxed(b"url ", &[0, 0, 0, 1]);
    let dref = boxed(b"dref", &table(1, &url));
    let dinf = boxed(b"dinf", &dref);
    let minf = boxed(b"minf", &join(&[dinf, stbl_box(offsets)]));
    let mdia = boxed(b"mdia", &join(&[mdhd_box(time_scale), hdlr_box(), minf]));
    boxed(b"trak", &join(&[tkhd_box(), edts, mdia]))
}

fn stco_box() -> Vec<u8> {
    boxed(b"stco", &table(1, &be32(&[500])))
}

fn movie_file() -> Vec<u8> {
    let udta = boxed(b"udta", &boxed(b"meta", &[1, 2, 3, 4]));
    let moov = boxed(b"moov", &join(&[mvhd_box(), trak_box(1000, stco_box()), udta]));
    let free = boxed(b"free", &[0u8; 5]);
    let mdat = boxed(b"mdat", &[9u8, 8, 7, 6, 5, 4, 3, 2, 1, 0]);
    join(&[ftyp_box(), free, moov, mdat])
}

fn read_box<T: BoxRead>(bytes: &[u8]) -> Result<T, ParseError> {
    let mut reader = Reader::new(bytes, bytes.len() as u64);
    T::read_attr(&mut reader)
}

fn tags(names: &[&[u8; 4]]) -> Vec<U32Tag> {
    names.iter().map(|name| U32Tag { raw: **name }).collect()
}

#[test]
fn ftyp_round_trip() {
    let bytes = [
        0x00, 0x00, 0x00, 0x18, b'f', b't', b'y', b'p', b'r', b'u', b's', b't', b'm', b'p', b'4',
        b'r', b'f', b'o', b'o', b'0', b'h', b'o', b'g', b'e',
    ];
    let mut reader = Reader::new(&bytes, 24);
    let ftyp = Ftyp::read_attr(&mut reader).unwrap();
    assert_eq!(
        ftyp,
        Ftyp {
            header: header(b"ftyp", 24),
            major_brand: U32Tag { raw: *b"rust" },
            minor_version: U32Tag { raw: *b"mp4r" },
            compatible_brands: tags(&[b"foo0", b"hoge"]),
        }
    );
    assert_eq!(reader.pos(), 24);
    assert_eq!(reader.remain(), 0);
}

#[test]
fn whole_movie_file() {
    let file = movie_file();
    let mut reader = Reader::new(&file, file.len() as u64);
    let quicktime = QuickTime::read(&mut reader).unwrap();
    assert_eq!(reader.pos(), 0);
    assert_eq!(quicktime.ftyp.major_brand.raw, *b"isom");
    assert_eq!(quicktime.ftyp.minor_version.raw, *b"\0\0\x02\0");
    assert_eq!(quicktime.ftyp.compatible_brands, tags(&[b"isom", b"iso2", b"avc1", b"mp41"]));
    let moov = &quicktime.moov;
    assert_eq!(moov.traks.len(), 1);
    assert_eq!(moov.udta, Udta { header: header(b"udta", 20) });
    let mdat_at = (file.len() - 10) as u64;
    assert_eq!(quicktime.mdat, Mdat { header: header(b"mdat", 18), pos: mdat_at });
    let mut buf = [0u8; 3];
    quicktime.mdat.read_exact(&mut reader, 2, &mut buf).unwrap();
    assert_eq!(buf, [7, 6, 5]);
    assert_eq!(reader.pos(), mdat_at + 5);
}

#[test]
fn mvhd_fields() {
    let mvhd: Mvhd = read_box(&mvhd_box()).unwrap();
    let mut reserved = [0u8; 10];
    for i in 0..10 {
        reserved[i] = 0xA0 + i as u8;
    }
    let mut matrix = [0u8; 36];
    for i in 0..36 {
        matrix[i] = i as u8;
    }
    assert_eq!(
        mvhd,
        Mvhd {
            header: header(b"mvhd", 108),
            version: 1,
            flags: [2, 3, 4],
            creation_time: 5,
            modification_time: 6,
            time_scale: Timescale(600),
            duration: 3000,
            preferred_rate: 0x0001_0000,
            preferred_volume: 0x0100,
            _reserved: reserved,
            matrix_structure: matrix,
            preview_time: 7,
            preview_duration: 8,
            poster_time: 9,
            selection_time: 10,
            selection_duration: 11,
            current_time: 12,
            next_track_id: 13,
        }
    );
}

#[test]
fn track_boxes() {
    let trak: Trak = read_box(&trak_box(1000, stco_box())).unwrap();
    assert_eq!(
        trak.tkhd,
        Tkhd {
            header: header(b"tkhd", 92),
            version: 0,
            flags: [0, 0, 0],
            creation_time: 0,
            modification_time: 0,
            trak_id: 1,
            _reserved: [0; 4],
            duration: 3000,
            _reserved2: [0; 8],
            layer: 2,
            alternate_group: 3,
            volume: 4,
            _reserved3: [0; 2],
            matrix_structure: [0; 36],
            track_width: 640,
            track_height: 480,
        }
    );
    assert_eq!(
        trak.edts,
        Edts {
            header: header(b"edts", 36),
            edit_list: Elst {
                header: header(b"elst", 28),
                version: 0,
                flags: [0, 0, 0],
                number_of_entries: 1,
                edit_list: vec![Edit {
                    track_duration: 3000,
                    media_time: 0,
                    media_rate: 0x0001_0000
                }],
            },
        }
    );
    assert_eq!(
        trak.mdia.mdhd,
        Mdhd {
            header: header(b"mdhd", 32),
            version: 0,
            flags: [0, 0, 0],
            creation_time: 1,
            modification_time: 2,
            time_scale: Timescale(1000),
            duration: 2000,
            language: 0x55C4,
            quality: 7,
        }
    );
    let hdlr: &Hdlr = &trak.mdia.hdlr;
    assert_eq!(hdlr.component_type.raw, *b"mhlr");
    assert_eq!(hdlr.component_subtype.raw, *b"soun");
    assert_eq!(hdlr.component_flags, [0, 0, 0, 1]);
    assert_eq!(hdlr.component_flags_mask, [0, 0, 0, 2]);
    assert_eq!(hdlr.component_name.as_str(), "Sound");
    assert_eq!(hdlr.component_name.raw(), b"Sound");
    let minf: &Minf = &trak.mdia.minf;
    assert_eq!(
        minf.dinf,
        Dinf {
            header: header(b"dinf", 36),
            dref: Dref {
                header: header(b"dref", 28),
                version: 0,
                flags: [0, 0, 0],
                number_of_entries: 1,
                drefs: vec![DataReference {
                    header: header(b"url ", 12),
                    version: 0,
                    flags: [0, 0, 1],
                    data: vec![],
                }],
            },
        }
    );
    let stbl: &Stbl = &minf.stbl;
    assert_eq!(
        stbl.stsd,
        Stsd {
            header: header(b"stsd", 32),
            version: 0,
            flags: [0, 0, 0],
            number_of_entries: 1,
            sample_description_table: vec![GeneralSampleDescription::Mp4a {
                header: header(b"mp4a", 16),
                _reserved: [0; 6],
                data_reference_index: 1,
            }],
        }
    );
    assert_eq!(
        stbl.stts,
        Stts {
            header: header(b"stts", 24),
            version: 0,
            flags: [0, 0, 0],
            number_of_entries: 1,
            time_to_sample_table: vec![TimeToSample { sample_count: 2, sample_duration: 1000 }],
        }
    );
    assert_eq!(
        stbl.stsc,
        Stsc {
            header: header(b"stsc", 28),
            version: 0,
            flags: [0, 0, 0],
            number_of_entries: 1,
            sample_to_chunk_table: vec![SampleToChunk {
                first_chunk: 1,
                samples_per_chunk: 2,
                sample_description_id: 1
            }],
        }
    );
    assert_eq!(
        stbl.stsz,
        Stsz {
            header: header(b"stsz", 28),
            version: 0,
            flags: [0, 0, 0],
            sample_size: 0,
            number_of_entries: 2,
            sample_size_table: vec![10, 20],
        }
    );
    assert_eq!(
        stbl.stco,
        Some(Stco {
            header: header(b"stco", 20),
            version: 0,
            flags: [0, 0, 0],
            number_of_entries: 1,
            chunk_offset_table: vec![500],
        })
    );
    assert_eq!(stbl.co64, None);
}

#[test]
fn picture_descriptions() {
    let mut body = vec![0u8; 42];
    body[6..8].copy_from_slice(&1u16.to_be_bytes());
    body[8..10].copy_from_slice(&2u16.to_be_bytes());
    body[10..12].copy_from_slice(&3u16.to_be_bytes());
    body[12..16].copy_from_slice(b"appl");
    body[16..20].copy_from_slice(&4u32.to_be_bytes());
    body[20..24].copy_from_slice(&5u32.to_be_bytes());
    body[24..26].copy_from_slice(&1920u16.to_be_bytes());
    body[26..28].copy_from_slice(&1080u16.to_be_bytes());
    body[28..32].copy_from_slice(&0x0048_0000u32.to_be_bytes());
    body[32..36].copy_from_slice(&0x0049_0000u32.to_be_bytes());
    body[36..40].copy_from_slice(&6u32.to_be_bytes());
    body[40..42].copy_from_slice(&1u16.to_be_bytes());
    let avc1: GeneralSampleDescription = read_box(&boxed(b"avc1", &body)).unwrap();
    assert_eq!(
        avc1,
        GeneralSampleDescription::Avc1 {
            header: header(b"avc1", 50),
            _reserved: [0; 6],
            data_reference_index: 1,
            version: 2,
            revision: 3,
            vendor: U32Tag { raw: *b"appl" },
            temporal_quality: 4,
            spatial_quality: 5,
            width: 1920,
            height: 1080,
            horizontal_resolution: 0x0048_0000,
            vertical_resolution: 0x0049_0000,
            data_size: 6,
            frame_per_samples: 1,
        }
    );
    let hap1: GeneralSampleDescription = read_box(&boxed(b"Hap1", &body)).unwrap();
    assert!(matches!(hap1, GeneralSampleDescription::Hap1 { width: 1920, height: 1080, .. }));
    assert_eq!(
        read_box::<GeneralSampleDescription>(&boxed(b"mp4v", &body)),
        Err(ParseError::InvalidData { tag: *b"mp4v" })
    );
}

#[test]
fn variant_body_with_wrong_tag_is_refused_unread() {
    let body = [0u8; 42];
    let mut reader = Reader::new(&body, 42);
    let r = GeneralSampleDescription::read_body(header(b"mp4v", 50), &mut reader);
    assert_eq!(r, Err(ParseError::InvalidData { tag: *b"mp4v" }));
    assert_eq!(reader.pos(), 0);
}

#[test]
fn leaf_body_with_wrong_tag_is_refused_unread() {
    let bytes = ftyp_box();
    let mut reader = Reader::new(&bytes, bytes.len() as u64);
    let read = BoxHeader::read(&mut reader).unwrap();
    let r = Mvhd::read_body(read, &mut reader);
    assert_eq!(r, Err(ParseError::InvalidData { tag: *b"ftyp" }));
    assert_eq!(reader.pos(), 8);
    assert_eq!(read_box::<Mvhd>(&bytes), Err(ParseError::InvalidData { tag: *b"ftyp" }));
}

#[test]
fn unknown_child_is_skipped() {
    let unknown = boxed(b"xyzz", &[0xEE; 8]);
    assert_eq!(unknown.len(), 16);
    let elst = boxed(b"elst", &table(0, &[]));
    let bytes = boxed(b"edts", &join(&[unknown, elst]));
    let mut reader = Reader::new(&bytes, bytes.len() as u64);
    let edts = Edts::read_attr(&mut reader).unwrap();
    assert_eq!(
        edts,
        Edts {
            header: header(b"edts", 40),
            edit_list: Elst {
                header: header(b"elst", 16),
                version: 0,
                flags: [0, 0, 0],
                number_of_entries: 0,
                edit_list: vec![],
            },
        }
    );
    assert_eq!(reader.pos(), 40);
}

#[test]
fn size_under_eight_is_invalid() {
    let bytes = [0x00, 0x00, 0x00, 0x07, b'a', b'b', b'c', b'd'];
    let mut reader = Reader::new(&bytes, 8);
    assert_eq!(BoxHeader::read(&mut reader), Err(ParseError::InvalidData { tag: *b"abcd" }));
    assert_eq!(reader.pos(), 8);
}

#[test]
fn header_cut_short() {
    let bytes = [0x00, 0x00, 0x00, 0x10, b'a', b'b'];
    let mut reader = Reader::new(&bytes, 6);
    assert_eq!(BoxHeader::read(&mut reader), Err(ParseError::OutOfBounds));
    assert_eq!(reader.pos(), 4);
    let mut reader = Reader::new(&bytes, 8);
    assert_eq!(BoxHeader::read(&mut reader), Err(ParseError::UnexpectedEof));
    assert_eq!(reader.pos(), 4);
    let mut reader = Reader::new(&bytes, 3);
    assert_eq!(BoxHeader::read(&mut reader), Err(ParseError::OutOfBounds));
    assert_eq!(reader.pos(), 0);
}

#[test]
fn header_size_is_big_endian() {
    let bytes = [0x01, 0x02, 0x03, 0x04, b'a', b'b', b'c', b'd'];
    let mut reader = Reader::new(&bytes, 8);
    let read = BoxHeader::read(&mut reader).unwrap();
    assert_eq!(read, header(b"abcd", 0x0102_0304));
    assert_eq!(read.body_size(), 0x0102_0304 - 8);
}

#[test]
fn list_ends_at_limit() {
    let body = be32(&[1, 10, 2, 20, 3, 30]);
    let bytes = join(&[body, vec![0xFF; 8]]);
    let mut reader = Reader::new(&bytes, bytes.len() as u64);
    reader.set_limit(24);
    let runs = Vec::<TimeToSample>::read_attr(&mut reader).unwrap();
    assert_eq!(
        runs,
        vec![
            TimeToSample { sample_count: 1, sample_duration: 10 },
            TimeToSample { sample_count: 2, sample_duration: 20 },
            TimeToSample { sample_count: 3, sample_duration: 30 },
        ]
    );
    assert_eq!(reader.remain(), 0);
    assert_eq!(reader.pos(), 24);
}

#[test]
fn list_drops_a_cut_value() {
    let bytes = be32(&[1, 10, 2]);
    let mut reader = Reader::new(&bytes, 12);
    let runs = Vec::<TimeToSample>::read_attr(&mut reader).unwrap();
    assert_eq!(runs, vec![TimeToSample { sample_count: 1, sample_duration: 10 }]);
    assert_eq!(reader.pos(), 12);
}

#[test]
fn list_passes_on_other_errors() {
    let bytes = be32(&[1, 10, 2]);
    let mut reader = Reader::new(&bytes, 16);
    assert_eq!(Vec::<TimeToSample>::read_attr(&mut reader), Err(ParseError::UnexpectedEof));
}

#[test]
fn list_of_empty_values_ends_after_one() {
    let bytes = [1u8, 2, 3];
    let mut reader = Reader::new(&bytes, 3);
    let list = Vec::<[u8; 0]>::read_attr(&mut reader).unwrap();
    assert_eq!(list.len(), 1);
    assert_eq!(reader.pos(), 0);
}

#[test]
fn missing_child_is_not_found() {
    let bytes = boxed(b"edts", &boxed(b"xyzz", &[0; 8]));
    let mut reader = Reader::new(&bytes, bytes.len() as u64);
    assert_eq!(
        Edts::read_attr(&mut reader),
        Err(ParseError::NotFound { field: "edit_list" })
    );
    assert_eq!(reader.pos(), bytes.len() as u64);
    let moov = boxed(b"moov", &boxed(b"udta", &[]));
    assert_eq!(read_box::<Moov>(&moov), Err(ParseError::NotFound { field: "mvhd" }));
}

#[test]
fn second_single_child_is_already_present() {
    let elst = boxed(b"elst", &table(0, &[]));
    let bytes = boxed(b"edts", &join(&[elst.clone(), elst]));
    let mut reader = Reader::new(&bytes, bytes.len() as u64);
    assert_eq!(Edts::read_attr(&mut reader), Err(ParseError::AlreadyPresent));
    assert_eq!(reader.pos(), 8);
}

#[test]
fn later_optional_child_wins() {
    let first = boxed(b"stco", &table(1, &be32(&[500])));
    let second = boxed(b"stco", &table(1, &be32(&[700])));
    let stbl: Stbl = read_box(&stbl_box(join(&[first, second]))).unwrap();
    assert_eq!(stbl.stco.unwrap().chunk_offset_table, vec![700]);
}

#[test]
fn repeated_children_keep_their_order() {
    let moov = boxed(
        b"moov",
        &join(&[
            trak_box(1000, stco_box()),
            mvhd_box(),
            trak_box(2000, stco_box()),
            boxed(b"udta", &[]),
        ]),
    );
    let moov: Moov = read_box(&moov).unwrap();
    assert_eq!(moov.traks.len(), 2);
    assert_eq!(moov.traks[0].mdia.mdhd.time_scale, Timescale(1000));
    assert_eq!(moov.traks[1].mdia.mdhd.time_scale, Timescale(2000));
}

#[test]
fn truncated_leaf_fails_and_leaves_reader() {
    let mut bytes = mvhd_box();
    bytes.truncate(50);
    let mut reader = Reader::new(&bytes, 200);
    let read = BoxHeader::read(&mut reader).unwrap();
    assert_eq!(Mvhd::read_body(read, &mut reader), Err(ParseError::UnexpectedEof));
    assert_eq!(reader.pos(), 8);
    let short = boxed(b"mvhd", &[0u8; 50]);
    let mut reader = Reader::new(&short, short.len() as u64);
    assert_eq!(Mvhd::read_attr(&mut reader), Err(ParseError::OutOfBounds));
    assert_eq!(reader.pos(), 8);
}

#[test]
fn trailing_bytes_of_a_leaf_are_passed() {
    let mut body = vec![0u8; 30];
    body[12..16].copy_from_slice(&90000u32.to_be_bytes());
    let bytes = boxed(b"mdhd", &body);
    let mut reader = Reader::new(&bytes, bytes.len() as u64);
    let mdhd = Mdhd::read_attr(&mut reader).unwrap();
    assert_eq!(mdhd.time_scale, Timescale(90000));
    assert_eq!(reader.pos(), 38);
}

#[test]
fn body_past_largest_offset_is_an_invalid_seek() {
    let bytes = [0u8; 4];
    let mut reader = Reader::new(&bytes, 4);
    reader.seek_from_start(u64::MAX - 3).unwrap();
    let r = Udta::read_body(header(b"udta", 16), &mut reader);
    assert_eq!(r, Err(ParseError::InvalidSeek));
    assert_eq!(reader.pos(), u64::MAX - 3);
}

#[test]
fn raw_string_keeps_bytes_and_decodes_lossily() {
    let bytes = [b'a', 0xFF, b'b', b'!', b'!'];
    let mut reader = Reader::new(&bytes, 5);
    reader.set_limit(3);
    let text = RawString::read_attr(&mut reader).unwrap();
    assert_eq!(text.raw(), &[b'a', 0xFF, b'b']);
    assert_eq!(text.as_str(), "a\u{FFFD}b");
    assert_eq!(reader.pos(), 3);
    assert_eq!(RawString::new(vec![0xE3, 0x81, 0x82]).as_str(), "\u{3042}");
    assert_eq!(RawString::from_parts(vec![1], String::from("x")).as_str(), "x");
}

#[test]
fn raw_string_behind_the_limit_or_without_one() {
    let bytes = [1u8, 2, 3, 4];
    let mut reader = Reader::new(&bytes, 2);
    reader.seek_from_start(3).unwrap();
    assert_eq!(RawString::read_attr(&mut reader), Err(ParseError::OutOfBounds));
    reader.clear_limit();
    assert_eq!(RawString::read_attr(&mut reader), Err(ParseError::UnexpectedEof));
}

#[test]
fn mdat_reads_at_an_offset() {
    let file = join(&[boxed(b"mdat", &[10, 11, 12, 13, 14, 15]), boxed(b"free", &[0; 4])]);
    let mut reader = Reader::new(&file, file.len() as u64);
    let mdat = Mdat::read_attr(&mut reader).unwrap();
    assert_eq!(mdat, Mdat { header: header(b"mdat", 14), pos: 8 });
    assert_eq!(reader.pos(), 14);
    let mut buf = [0u8; 2];
    assert_eq!(mdat.read_exact(&mut reader, 4, &mut buf), Ok(()));
    assert_eq!(buf, [14, 15]);
    let mut long = [0u8; 64];
    assert_eq!(mdat.read_exact(&mut reader, 0, &mut long), Err(ParseError::OutOfBounds));
    assert_eq!(reader.pos(), 8);
    assert_eq!(mdat.read_exact(&mut reader, u64::MAX, &mut buf), Err(ParseError::InvalidSeek));
}

fn sample(nanos: u64, offset: usize, size: usize) -> Sample {
    Sample { duration: Duration::from_nanos(nanos), offset, size }
}

#[test]
fn sample_table() {
    let samples = list_samples(
        &Timescale(1000),
        &[TimeToSample { sample_count: 2, sample_duration: 1000 }],
        &[SampleToChunk { first_chunk: 1, samples_per_chunk: 2, sample_description_id: 1 }],
        &[10, 20],
        &[500],
    )
    .unwrap();
    assert_eq!(
        samples,
        vec![
            Sample { duration: Duration::from_secs(1), offset: 500, size: 10 },
            Sample { duration: Duration::from_secs(1), offset: 510, size: 20 },
        ]
    );
}

#[test]
fn samples_of_a_parsed_track() {
    let trak: Trak = read_box(&trak_box(1000, stco_box())).unwrap();
    assert_eq!(
        trak.samples(),
        Ok(vec![sample(1_000_000_000, 500, 10), sample(1_000_000_000, 510, 20)])
    );
    let wide = boxed(b"co64", &join(&[vec![0, 0, 0, 0], be32(&[1, 1, 2])]));
    let trak: Trak = read_box(&trak_box(1000, wide)).unwrap();
    assert_eq!(
        trak.samples(),
        Ok(vec![sample(1_000_000_000, 0x1_0000_0002, 10), sample(1_000_000_000, 0x1_0000_000C, 20)])
    );
    let both = join(&[stco_box(), boxed(b"co64", &join(&[vec![0, 0, 0, 0], be32(&[1, 0, 900])]))]);
    let trak: Trak = read_box(&trak_box(1000, both)).unwrap();
    assert_eq!(trak.samples().unwrap()[0].offset, 500);
}

#[test]
fn track_without_chunk_offsets() {
    let trak: Trak = read_box(&trak_box(1000, vec![])).unwrap();
    assert_eq!(trak.samples(), Err(SamplesError::Co64OrStcoNotFound));
}

#[test]
fn track_with_zero_time_scale() {
    let trak: Trak = read_box(&trak_box(0, stco_box())).unwrap();
    assert_eq!(trak.samples(), Err(SamplesError::ZeroTimeScale));
}

#[test]
fn samples_over_several_chunks_and_runs() {
    let stts = [
        TimeToSample { sample_count: 3, sample_duration: 300 },
        TimeToSample { sample_count: 4, sample_duration: 1001 },
    ];
    let stsc = [
        SampleToChunk { first_chunk: 2, samples_per_chunk: 2, sample_description_id: 1 },
        SampleToChunk { first_chunk: 4, samples_per_chunk: 3, sample_description_id: 1 },
    ];
    let sizes = [1, 2, 3, 4, 5, 6, 7];
    let offsets = [9000, 100, 200, 300];
    let samples = list_samples(&Timescale(600), &stts, &stsc, &sizes, &offsets).unwrap();
    let half = 500_000_000;
    let long = 1_668_333_333;
    assert_eq!(
        samples,
        vec![
            sample(half, 100, 1),
            sample(half, 101, 2),
            sample(half, 200, 3),
            sample(long, 203, 4),
            sample(long, 300, 5),
            sample(long, 305, 6),
            sample(long, 311, 7),
        ]
    );
    assert_eq!(samples.len(), 3 + 4);
    assert_eq!(samples.len(), sizes.len());
    assert_eq!(samples[4].offset + samples[4].size, samples[5].offset);
    assert_eq!(samples[5].offset + samples[5].size, samples[6].offset);
}

#[test]
fn no_samples_at_all() {
    assert_eq!(list_samples(&Timescale(0), &[], &[], &[], &[]), Ok(vec![]));
    assert_eq!(list_samples(&Timescale(0), &[], &[], &[], &[1, 2]), Ok(vec![]));
}

#[test]
fn inconsistent_tables() {
    let ts = Timescale(1000);
    let stts = [TimeToSample { sample_count: 2, sample_duration: 1000 }];
    let stsc = [SampleToChunk { first_chunk: 1, samples_per_chunk: 2, sample_description_id: 1 }];
    let bad = Err(SamplesError::InconsistentTables);
    assert_eq!(list_samples(&ts, &stts, &stsc, &[10], &[500]), bad);
    assert_eq!(list_samples(&ts, &stts, &stsc, &[10, 20, 30], &[500]), bad);
    assert_eq!(list_samples(&ts, &stts, &stsc, &[10, 20], &[]), bad);
    assert_eq!(list_samples(&ts, &stts, &stsc, &[10, 20], &[500, 600]), bad);
    assert_eq!(list_samples(&ts, &stts, &[], &[10, 20], &[500]), bad);
    let zero = [SampleToChunk { first_chunk: 0, samples_per_chunk: 2, sample_description_id: 1 }];
    assert_eq!(list_samples(&ts, &stts, &zero, &[10, 20], &[500]), bad);
    let beyond = [SampleToChunk { first_chunk: 3, samples_per_chunk: 2, sample_description_id: 1 }];
    assert_eq!(list_samples(&ts, &stts, &beyond, &[10, 20], &[500]), bad);
    let backwards = [
        SampleToChunk { first_chunk: 2, samples_per_chunk: 1, sample_description_id: 1 },
        SampleToChunk { first_chunk: 1, samples_per_chunk: 1, sample_description_id: 1 },
    ];
    assert_eq!(list_samples(&ts, &stts, &backwards, &[10, 20], &[500, 600]), bad);
    let far = [u64::MAX];
    assert_eq!(list_samples(&ts, &stts, &stsc, &[10, 20], &far), bad);
    assert_eq!(
        list_samples(&Timescale(0), &stts, &stsc, &[10, 20], &far),
        Err(SamplesError::ZeroTimeScale)
    );
}

#[test]
fn stco_widens_to_co64() {
    let stco = Stco {
        header: header(b"stco", 24),
        version: 1,
        flags: [2, 3, 4],
        number_of_entries: 2,
        chunk_offset_table: vec![5, u32::MAX],
    };
    assert_eq!(
        Co64::from(&stco),
        Co64 {
            header: header(b"stco", 24),
            version: 1,
            flags: [2, 3, 4],
            number_of_entries: 2,
            chunk_offset_table: vec![5, 0xFFFF_FFFF],
        }
    );
}

#[test]
fn durations_round_down() {
    let d = Timescale(600).decode_duration(1001);
    assert_eq!(d.as_secs(), 1);
    assert_eq!(d.subsec_nanos(), 668_333_333);
    assert_eq!(d.as_nanos(), 1_668_333_333);
    assert_eq!(Timescale(1000).decode_duration(1000), Duration::from_secs(1));
    assert_eq!(Timescale(3).decode_duration(1), Duration::from_nanos(333_333_333));
    assert_eq!(Timescale(1).decode_duration(u32::MAX).as_secs(), u32::MAX as u64);
    let moov: Moov =
        read_box(&boxed(b"moov", &join(&[mvhd_box(), boxed(b"udta", &[])]))).unwrap();
    assert_eq!(moov.video_duration(), Duration::from_secs(5));
}
