use wasm_front::ast::{ExportDesc, NumberType, ReferenceType, ValueType, VectorType};
use wasm_front::format::RuntimeError;
use wasm_front::ast::Module;
use wasm_front::loader::{check_header, decode, parse_section, parse_valuetype, Reader};

const HEADER: [u8; 8] = [0x00, 0x61, 0x73, 0x6d, 0x01, 0x00, 0x00, 0x00];

fn module_with(sections: &[u8]) -> Vec<u8> {
    let mut v = HEADER.to_vec();
    v.extend_from_slice(sections);
    v
}

const I32: ValueType = ValueType::NumberType(NumberType::I32);

#[test]
fn short_buffers_are_refused() {
    for n in 0..8 {
        let data = HEADER[..n].to_vec();
        assert_eq!(decode(data), Err(RuntimeError::InvalidModuleLength));
    }
}

#[test]
fn short_buffer_reads_nothing() {
    let mut r = Reader::new(vec![0x00, 0x61, 0x73]);
    assert_eq!(check_header(&mut r), Err(RuntimeError::InvalidModuleLength));
    assert_eq!(r.position(), 0);
}

#[test]
fn header_only_gives_empty_module() {
    let m = decode(HEADER.to_vec()).unwrap();
    assert!(m.types.is_empty());
    assert!(m.exports.is_empty());
}

#[test]
fn flipped_magic_byte_is_refused() {
    for i in 0..4 {
        let mut data = HEADER.to_vec();
        data[i] ^= 0xff;
        assert_eq!(decode(data), Err(RuntimeError::InvalidMagicNumber));
    }
}

#[test]
fn version_two_is_refused() {
    let mut data = HEADER.to_vec();
    data[4] = 2;
    assert_eq!(decode(data), Err(RuntimeError::InvalidVersionNumber));
}

#[test]
fn type_section_with_one_signature() {
    let data = module_with(&[0x01, 0x07, 0x01, 0x60, 0x02, 0x7f, 0x7f, 0x01, 0x7f]);
    let m = decode(data).unwrap();
    assert_eq!(m.types.len(), 1);
    assert_eq!(m.types[0].0, vec![I32, I32]);
    assert_eq!(m.types[0].1, vec![I32]);
    assert!(m.exports.is_empty());
}

#[test]
fn every_value_type_decodes() {
    let data = module_with(&[0x01, 0x0b, 0x01, 0x60, 0x07, 0x7f, 0x7e, 0x7d, 0x7c, 0x7b, 0x70, 0x6f, 0x00]);
    let m = decode(data).unwrap();
    assert_eq!(
        m.types[0].0,
        vec![
            ValueType::NumberType(NumberType::I32),
            ValueType::NumberType(NumberType::I64),
            ValueType::NumberType(NumberType::F32),
            ValueType::NumberType(NumberType::F64),
            ValueType::VectorType(VectorType::V128),
            ValueType::ReferenceType(ReferenceType::FuncRef),
            ValueType::ReferenceType(ReferenceType::ExternRef),
        ]
    );
    assert!(m.types[0].1.is_empty());
}

#[test]
fn two_type_sections_keep_order() {
    let data = module_with(&[
        0x01, 0x04, 0x01, 0x60, 0x00, 0x00, 0x01, 0x05, 0x01, 0x60, 0x00, 0x01, 0x7e,
    ]);
    let m = decode(data).unwrap();
    assert_eq!(m.types.len(), 2);
    assert!(m.types[0].1.is_empty());
    assert_eq!(m.types[1].1, vec![ValueType::NumberType(NumberType::I64)]);
}

#[test]
fn declared_length_longer_than_body_is_refused() {
    let data = module_with(&[0x01, 0x08, 0x01, 0x60, 0x02, 0x7f, 0x7f, 0x01, 0x7f, 0x00]);
    assert_eq!(decode(data), Err(RuntimeError::SectionSizeMismatch));
}

#[test]
fn declared_length_shorter_than_body_is_refused() {
    let data = module_with(&[0x01, 0x06, 0x01, 0x60, 0x02, 0x7f, 0x7f, 0x01, 0x7f]);
    assert_eq!(decode(data), Err(RuntimeError::SectionSizeMismatch));
}

#[test]
fn declared_length_past_the_end_is_refused() {
    let data = module_with(&[0x05, 0x09, 0x01, 0x00]);
    assert_eq!(decode(data), Err(RuntimeError::UnexpectedEnd));
}

#[test]
fn export_section_decodes() {
    let data = module_with(&[
        0x07, 0x0d, 0x02, 0x03, b'a', b'd', b'd', 0x00, 0x05, 0x03, b'm', b'e', b'm', 0x02, 0x00,
    ]);
    let m = decode(data).unwrap();
    assert_eq!(m.exports.len(), 2);
    assert_eq!(m.exports[0].name, "add");
    assert_eq!(m.exports[0].desc, ExportDesc::Func(5));
    assert_eq!(m.exports[1].name, "mem");
    assert_eq!(m.exports[1].desc, ExportDesc::Mem(0));
}

#[test]
fn export_kinds_table_and_global() {
    let data = module_with(&[0x07, 0x09, 0x02, 0x01, b't', 0x01, 0x02, 0x01, b'g', 0x03, 0x81, 0x01]);
    assert_eq!(decode(data), Err(RuntimeError::SectionSizeMismatch));
    let data = module_with(&[0x07, 0x0a, 0x02, 0x01, b't', 0x01, 0x02, 0x01, b'g', 0x03, 0x81, 0x01]);
    let m = decode(data).unwrap();
    assert_eq!(m.exports[0].desc, ExportDesc::Table(2));
    assert_eq!(m.exports[1].desc, ExportDesc::Global(129));
}

#[test]
fn export_name_keeps_utf8_text() {
    let data = module_with(&[0x07, 0x06, 0x01, 0x02, 0xc3, 0xa9, 0x00, 0x00]);
    let m = decode(data).unwrap();
    assert_eq!(m.exports[0].name, "\u{e9}");
}

#[test]
fn bad_export_kind_is_refused() {
    let data = module_with(&[0x07, 0x05, 0x01, 0x01, b'f', 0x04, 0x00]);
    assert_eq!(decode(data), Err(RuntimeError::InvalidExportType));
}

#[test]
fn bad_export_name_is_refused() {
    let data = module_with(&[0x07, 0x05, 0x01, 0x01, 0xff, 0x00, 0x00]);
    assert_eq!(decode(data), Err(RuntimeError::InvalidExportName));
}

#[test]
fn bad_value_type_is_refused() {
    let data = module_with(&[0x01, 0x05, 0x01, 0x60, 0x01, 0x40, 0x00]);
    assert_eq!(decode(data), Err(RuntimeError::InvalidValueType));
}

#[test]
fn bad_signature_marker_is_refused() {
    let data = module_with(&[0x01, 0x04, 0x01, 0x61, 0x00, 0x00]);
    assert_eq!(decode(data), Err(RuntimeError::InvalidFunctionType));
}

#[test]
fn unknown_section_ids_are_refused() {
    assert_eq!(decode(module_with(&[0x00, 0x00])), Err(RuntimeError::InvalidSectionCode));
    assert_eq!(decode(module_with(&[0x0c, 0x00])), Err(RuntimeError::InvalidSectionCode));
}

#[test]
fn other_sections_are_passed_over() {
    let data = module_with(&[0x05, 0x03, 0x01, 0x00, 0x01, 0x0b, 0x01, 0x00]);
    let m = decode(data).unwrap();
    assert!(m.types.is_empty());
    assert!(m.exports.is_empty());
}

#[test]
fn section_header_cut_short_is_refused() {
    assert_eq!(decode(module_with(&[0x01])), Err(RuntimeError::UnexpectedEnd));
    assert_eq!(decode(module_with(&[0x01, 0x80])), Err(RuntimeError::UnexpectedEnd));
}

#[test]
fn multi_byte_length_is_read() {
    let data = module_with(&[0x01, 0x84, 0x80, 0x00, 0x01, 0x60, 0x00, 0x00]);
    assert_eq!(decode(data).unwrap().types.len(), 1);
}

#[test]
fn overlong_length_is_refused() {
    let data = module_with(&[0x01, 0x80, 0x80, 0x80, 0x80, 0x80, 0x00]);
    assert_eq!(decode(data), Err(RuntimeError::InvalidInteger));
}

#[test]
fn oversized_length_is_refused() {
    let data = module_with(&[0x01, 0xff, 0xff, 0xff, 0xff, 0x1f]);
    assert_eq!(decode(data), Err(RuntimeError::InvalidInteger));
}

#[test]
fn varuint32_values() {
    let mut r = Reader::new(vec![0xe5, 0x8e, 0x26, 0xff, 0xff, 0xff, 0xff, 0x0f, 0x00]);
    assert_eq!(r.varuint32(), Ok(624485));
    assert_eq!(r.varuint32(), Ok(u32::MAX));
    assert_eq!(r.varuint32(), Ok(0));
    assert_eq!(r.varuint32(), Err(RuntimeError::UnexpectedEnd));
}

#[test]
fn reader_reads_and_moves() {
    let mut r = Reader::new(vec![0x78, 0x56, 0x34, 0x12, 0xaa, 0xbb, 0xcc]);
    assert_eq!(r.len(), 7);
    assert_eq!(r.dword(), Ok(0x1234_5678));
    assert_eq!(r.byte(), Ok(0xaa));
    assert_eq!(r.position(), 5);
    assert_eq!(r.dword(), Err(RuntimeError::UnexpectedEnd));
    assert_eq!(r.position(), 5);
    assert_eq!(r.bytes(2), Ok(vec![0xbb, 0xcc]));
    assert!(r.at_end());
    assert_eq!(r.byte(), Err(RuntimeError::UnexpectedEnd));
    assert_eq!(r.bytes(1), Err(RuntimeError::UnexpectedEnd));
    r.reset(4);
    assert_eq!(r.byte(), Ok(0xaa));
}

#[test]
fn parse_valuetype_reads_one_byte() {
    let mut r = Reader::new(vec![0x7b, 0x01]);
    assert_eq!(parse_valuetype(&mut r), Ok(ValueType::VectorType(VectorType::V128)));
    assert_eq!(parse_valuetype(&mut r), Err(RuntimeError::InvalidValueType));
    assert_eq!(parse_valuetype(&mut r), Err(RuntimeError::UnexpectedEnd));
}

#[test]
fn header_moves_past_eight_bytes() {
    let mut r = Reader::new(module_with(&[0x01]));
    assert_eq!(check_header(&mut r), Ok(()));
    assert_eq!(r.position(), 8);
}

#[test]
fn error_messages() {
    assert_eq!(RuntimeError::InvalidModuleLength.message(), "Invalid module length");
    assert_eq!(RuntimeError::InvalidMagicNumber.message(), "Invalid magic number");
    assert_eq!(RuntimeError::InvalidValueType.message(), "Invalid value type");
    assert_eq!(RuntimeError::SectionSizeMismatch.message(), "Section size mismatch");
}

#[test]
fn failed_read_keeps_cursor_in_buffer() {
    let mut r = Reader::new(vec![]);
    assert_eq!(r.byte(), Err(RuntimeError::UnexpectedEnd));
    assert_eq!(r.position(), 0);
    assert!(r.at_end());
    let mut r = Reader::new(vec![0x01, 0x02]);
    assert_eq!(r.dword(), Err(RuntimeError::UnexpectedEnd));
    assert_eq!(r.position(), 0);
}

#[test]
fn failed_section_keeps_cursor_in_buffer() {
    let mut r = Reader::new(module_with(&[0x05, 0x09, 0x01, 0x00]));
    assert_eq!(check_header(&mut r), Ok(()));
    let mut m = Module { types: Vec::new(), exports: Vec::new() };
    assert_eq!(parse_section(&mut r, &mut m), Err(RuntimeError::UnexpectedEnd));
    assert_eq!(r.position(), 10);
    assert!(r.position() <= r.len());
    let mut r = Reader::new(module_with(&[0x01, 0x80]));
    assert_eq!(check_header(&mut r), Ok(()));
    assert_eq!(parse_section(&mut r, &mut m), Err(RuntimeError::UnexpectedEnd));
    assert!(r.position() <= r.len());
}

#[test]
fn cut_header_keeps_cursor_in_buffer() {
    let mut r = Reader::new(vec![0x00, 0x61, 0x73, 0x6d, 0x01, 0x00, 0x00]);
    assert_eq!(check_header(&mut r), Err(RuntimeError::InvalidModuleLength));
    assert_eq!(r.position(), 0);
}
