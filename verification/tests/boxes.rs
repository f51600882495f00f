use movparse::boxes::{enter, leave};
use movparse::reader::Stream;
use movparse::children::{read_children, Field, NoField};
use movparse::quicktime::file_type::Ftyp;
use movparse::{
    BoxContainer, BoxHeader, BoxPlaceholder, BoxRead, DeepView, ParseError, Reader,
    SingleBoxPlaceholder, U32Tag,
};

#[derive(Debug, PartialEq, Eq)]
struct Data {
    header: BoxHeader,
}

// The specification items of the traits are never run: only the proofs of a verified
// implementation read them.
impl DeepView for Data {
    type V = ();

    fn deep_view(&self) {
        unreachable!()
    }
}

impl BoxRead for Data {
    fn accepts(_: [u8; 4]) -> bool {
        unreachable!()
    }

    fn parsed(_: BoxHeader, _: Stream) -> (Result<(), ParseError>, Stream) {
        unreachable!()
    }

    fn parsed_moves(_: BoxHeader, _: Stream) {
        unreachable!()
    }

    fn acceptable_tag(tag: [u8; 4]) -> bool {
        tag == [b'd', b'a', b't', b'a']
    }

    fn read_body(header: BoxHeader, reader: &mut Reader) -> Result<Self, ParseError> {
        reader.seek_from_current(header.body_size() as i64)?;
        Ok(Self { header })
    }
}

#[derive(Debug, PartialEq, Eq)]
struct Test {
    header: BoxHeader,
    ftyp: Ftyp,
    data: Vec<Data>,
}

impl DeepView for Test {
    type V = ();

    fn deep_view(&self) {
        unreachable!()
    }
}

impl BoxRead for Test {
    fn accepts(_: [u8; 4]) -> bool {
        unreachable!()
    }

    fn parsed(_: BoxHeader, _: Stream) -> (Result<(), ParseError>, Stream) {
        unreachable!()
    }

    fn parsed_moves(_: BoxHeader, _: Stream) {
        unreachable!()
    }

    fn acceptable_tag(tag: [u8; 4]) -> bool {
        tag == [b't', b'e', b's', b't']
    }

    fn read_body(header: BoxHeader, reader: &mut Reader) -> Result<Self, ParseError> {
        let mut sub = enter(&header, Self::acceptable_tag(header.id), reader)?;
        let mut fields: Field<Ftyp, SingleBoxPlaceholder<Ftyp>, Field<Data, Vec<Data>, NoField>> =
            Field::new(
                <Ftyp as BoxContainer<Ftyp, SingleBoxPlaceholder<Ftyp>>>::placeholder(),
                Field::new(<Vec<Data> as BoxContainer<Data, Vec<Data>>>::placeholder(), NoField),
            );
        read_children(&mut fields, &mut sub)?;
        leave(&header, reader);
        Ok(Self {
            header,
            ftyp: BoxPlaceholder::get(fields.slot, "ftyp")?,
            data: BoxPlaceholder::get(fields.rest.slot, "data")?,
        })
    }
}

#[derive(Debug, PartialEq, Eq)]
struct Walked {
    header: BoxHeader,
    ftyp: Ftyp,
    data: Vec<Data>,
}

impl DeepView for Walked {
    type V = ();

    fn deep_view(&self) {
        unreachable!()
    }
}

impl BoxRead for Walked {
    fn accepts(_: [u8; 4]) -> bool {
        unreachable!()
    }

    fn parsed(_: BoxHeader, _: Stream) -> (Result<(), ParseError>, Stream) {
        unreachable!()
    }

    fn parsed_moves(_: BoxHeader, _: Stream) {
        unreachable!()
    }

    fn acceptable_tag(tag: [u8; 4]) -> bool {
        tag == [b't', b'e', b's', b't']
    }

    fn read_body(header: BoxHeader, reader: &mut Reader) -> Result<Self, ParseError> {
        let mut reader2 = reader.clone();
        reader2.set_limit(header.body_size() as u64);
        let mut ftyp = <Ftyp as BoxContainer<Ftyp, SingleBoxPlaceholder<Ftyp>>>::placeholder();
        let mut data = <Vec<Data> as BoxContainer<Data, Vec<Data>>>::placeholder();
        while reader2.remain() > 0 {
            let header = BoxHeader::read(&mut reader2)?;
            if ftyp.acceptable_tag(header.id) {
                let ftyp_value = ftyp.read_body(header, &mut reader2)?;
                BoxPlaceholder::push(&mut ftyp, ftyp_value)?;
            } else if BoxPlaceholder::acceptable_tag(&data, header.id) {
                let data_value = BoxPlaceholder::read_body(&data, header, &mut reader2)?;
                BoxPlaceholder::push(&mut data, data_value)?;
            }
        }
        reader.seek_from_current(header.body_size() as i64)?;
        Ok(Self {
            header,
            ftyp: ftyp.get("ftyp")?,
            data: BoxPlaceholder::get(data, "data")?,
        })
    }
}

fn write_u32(out: &mut Vec<u8>, value: u32) {
    out.extend_from_slice(&value.to_be_bytes());
}

fn ftyp_bytes() -> Vec<u8> {
    let mut ftyp = Vec::new();
    let major_brand = &[b'r', b'u', b's', b't'];
    let minor_version = &[b'm', b'p', b'4', b'r'];
    let mut compatible_brands = Vec::new();
    compatible_brands.extend_from_slice(&[b'f', b'o', b'o', b'0']);
    compatible_brands.extend_from_slice(&[b'h', b'o', b'g', b'e']);
    write_u32(
        &mut ftyp,
        4 + 4
            + major_brand.len() as u32
            + minor_version.len() as u32
            + compatible_brands.len() as u32,
    );
    ftyp.extend_from_slice(&[b'f', b't', b'y', b'p']);
    ftyp.extend_from_slice(major_brand);
    ftyp.extend_from_slice(minor_version);
    ftyp.extend_from_slice(&compatible_brands);
    ftyp
}

fn expected_ftyp() -> Ftyp {
    Ftyp {
        header: BoxHeader { id: [b'f', b't', b'y', b'p'], size: 24 },
        major_brand: U32Tag { raw: [b'r', b'u', b's', b't'] },
        minor_version: U32Tag { raw: [b'm', b'p', b'4', b'r'] },
        compatible_brands: vec![
            U32Tag { raw: [b'f', b'o', b'o', b'0'] },
            U32Tag { raw: [b'h', b'o', b'g', b'e'] },
        ],
    }
}

#[test]
fn parse_mp4_test() {
    let ftyp = ftyp_bytes();
    let mut ftyp_reader = Reader::new(&ftyp, ftyp.len() as u64);
    let ftyp_header = BoxHeader::read(&mut ftyp_reader).unwrap();
    ftyp_reader.set_limit(ftyp_header.body_size() as u64);
    let ftyp_body: Ftyp = BoxRead::read_body(ftyp_header, &mut ftyp_reader).unwrap();
    assert_eq!(ftyp_body, expected_ftyp());

    let mut data1 = Vec::new();
    write_u32(&mut data1, 108);
    data1.extend_from_slice(&[b'd', b'a', b't', b'a']);
    data1.extend_from_slice(&[255u8; 100]);

    let mut data2 = Vec::new();
    write_u32(&mut data2, 108);
    data2.extend_from_slice(&[b'd', b'a', b't', b'a']);
    data2.extend_from_slice(&[254u8; 100]);

    let mut test = Vec::new();
    write_u32(&mut test, ftyp.len() as u32 + data1.len() as u32 + data2.len() as u32 + 8);
    test.extend_from_slice(&[b't', b'e', b's', b't']);
    test.extend_from_slice(&data1);
    test.extend_from_slice(&ftyp);
    test.extend_from_slice(&data2);

    let mut reader = Reader::new(&test, test.len() as u64);
    let test_header = BoxHeader::read(&mut reader).unwrap();
    let test_body = Test::read_body(test_header, &mut reader).unwrap();
    assert_eq!(
        test_body,
        Test {
            header: BoxHeader { id: [b't', b'e', b's', b't'], size: 108 + 108 + 24 + 8 },
            ftyp: ftyp_body,
            data: vec![
                Data { header: BoxHeader { id: [b'd', b'a', b't', b'a'], size: 108 } },
                Data { header: BoxHeader { id: [b'd', b'a', b't', b'a'], size: 108 } },
            ],
        }
    );
    assert_eq!(reader.pos(), test.len() as u64);
}

#[test]
fn test_test() {
    let ftyp = ftyp_bytes();
    let mut ftyp_reader = Reader::new(&ftyp, ftyp.len() as u64);
    let ftyp_header = BoxHeader::read(&mut ftyp_reader).unwrap();
    ftyp_reader.set_limit(ftyp_header.body_size() as u64);
    let ftyp_body: Ftyp = BoxRead::read_body(ftyp_header, &mut ftyp_reader).unwrap();
    assert_eq!(ftyp_body, expected_ftyp());

    let mut data1 = Vec::new();
    write_u32(&mut data1, 108);
    data1.extend_from_slice(&[b'd', b'a', b't', b'a']);
    data1.extend_from_slice(&[255u8; 100]);

    let mut data2 = Vec::new();
    write_u32(&mut data2, 108);
    data2.extend_from_slice(&[b'd', b'a', b't', b'a']);
    data2.extend_from_slice(&[254u8; 100]);

    let mut test = Vec::new();
    write_u32(&mut test, ftyp.len() as u32 + data1.len() as u32 + data2.len() as u32 + 8);
    test.extend_from_slice(&[b't', b'e', b's', b't']);
    test.extend_from_slice(&data1);
    test.extend_from_slice(&ftyp);
    test.extend_from_slice(&data2);

    let mut reader = Reader::new(&test, test.len() as u64);
    let test_header = BoxHeader::read(&mut reader).unwrap();
    let test_body = Walked::read_body(test_header, &mut reader).unwrap();
    assert_eq!(
        test_body,
        Walked {
            header: BoxHeader { id: [b't', b'e', b's', b't'], size: 108 + 108 + 24 + 8 },
            ftyp: ftyp_body,
            data: vec![
                Data { header: BoxHeader { id: [b'd', b'a', b't', b'a'], size: 108 } },
                Data { header: BoxHeader { id: [b'd', b'a', b't', b'a'], size: 108 } },
            ],
        }
    );
}

#[test]
fn nested_container_moves_outer_reader_past_the_box() {
    let ftyp = ftyp_bytes();
    let mut file = Vec::new();
    write_u32(&mut file, 248);
    file.extend_from_slice(&[b't', b'e', b's', b't']);
    write_u32(&mut file, 108);
    file.extend_from_slice(&[b'd', b'a', b't', b'a']);
    file.extend_from_slice(&[0xFF; 100]);
    file.extend_from_slice(&ftyp);
    write_u32(&mut file, 108);
    file.extend_from_slice(&[b'd', b'a', b't', b'a']);
    file.extend_from_slice(&[0xFE; 100]);
    file.extend_from_slice(&[0; 8]);
    let mut reader = Reader::new(&file, file.len() as u64);
    let header = BoxHeader::read(&mut reader).unwrap();
    assert_eq!(reader.pos(), 8);
    let before = reader.pos();
    let body = Test::read_body(header, &mut reader).unwrap();
    assert_eq!(reader.pos(), before + header.body_size() as u64);
    assert_eq!(reader.pos(), 248);
    assert_eq!(body.data.len(), 2);
    assert_eq!(body.ftyp, expected_ftyp());
}

#[test]
fn placeholders_by_cardinality() {
    let ftyp = expected_ftyp;
    let mut single = <Ftyp as BoxContainer<Ftyp, SingleBoxPlaceholder<Ftyp>>>::placeholder();
    assert_eq!(BoxPlaceholder::push(&mut single, ftyp()), Ok(()));
    assert_eq!(BoxPlaceholder::push(&mut single, ftyp()), Err(ParseError::AlreadyPresent));
    assert_eq!(BoxPlaceholder::get(single, "ftyp"), Ok(ftyp()));
    let empty = <Ftyp as BoxContainer<Ftyp, SingleBoxPlaceholder<Ftyp>>>::placeholder();
    assert_eq!(
        BoxPlaceholder::get(empty, "brand").err(),
        Some(ParseError::NotFound { field: "brand" })
    );

    let mut optional = <Option<Ftyp> as BoxContainer<Ftyp, Option<Ftyp>>>::placeholder();
    assert_eq!(optional, None);
    let mut other = ftyp();
    other.compatible_brands.clear();
    assert_eq!(BoxPlaceholder::push(&mut optional, ftyp()), Ok(()));
    assert_eq!(BoxPlaceholder::push(&mut optional, other.clone()), Ok(()));
    assert_eq!(BoxPlaceholder::get(optional, "ftyp"), Ok(Some(other.clone())));

    let mut repeated = <Vec<Ftyp> as BoxContainer<Ftyp, Vec<Ftyp>>>::placeholder();
    assert_eq!(BoxPlaceholder::push(&mut repeated, ftyp()), Ok(()));
    assert_eq!(BoxPlaceholder::push(&mut repeated, other.clone()), Ok(()));
    assert_eq!(BoxPlaceholder::get(repeated, "ftyp"), Ok(vec![ftyp(), other]));
}

#[test]
fn walk_ends_at_the_limit() {
    let mut body = Vec::new();
    write_u32(&mut body, 16);
    body.extend_from_slice(&[b'x', b'y', b'z', b'z']);
    body.extend_from_slice(&[0xEE; 8]);
    body.extend_from_slice(&ftyp_bytes());
    write_u32(&mut body, 8);
    body.extend_from_slice(&[b'f', b'r', b'e', b'e']);
    body.extend_from_slice(&[0x77; 20]);
    let mut reader = Reader::new(&body, body.len() as u64);
    reader.set_limit(48);
    let mut fields: Field<Ftyp, SingleBoxPlaceholder<Ftyp>, NoField> = Field::new(
        <Ftyp as BoxContainer<Ftyp, SingleBoxPlaceholder<Ftyp>>>::placeholder(),
        NoField,
    );
    assert_eq!(read_children(&mut fields, &mut reader), Ok(()));
    assert_eq!(reader.remain(), 0);
    assert_eq!(reader.pos(), 48);
    assert_eq!(BoxPlaceholder::get(fields.slot, "ftyp"), Ok(expected_ftyp()));
}

#[test]
fn child_that_overruns_its_parent_ends_the_walk_behind_the_limit() {
    let mut body = ftyp_bytes();
    body.extend_from_slice(&[0; 8]);
    let mut reader = Reader::new(&body, body.len() as u64);
    reader.set_limit(16);
    let mut fields: Field<Ftyp, SingleBoxPlaceholder<Ftyp>, NoField> = Field::new(
        <Ftyp as BoxContainer<Ftyp, SingleBoxPlaceholder<Ftyp>>>::placeholder(),
        NoField,
    );
    assert_eq!(read_children(&mut fields, &mut reader), Ok(()));
    assert_eq!(reader.pos(), 24);
    assert_eq!(reader.remain(), -8);
}
