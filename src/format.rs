//! The binary module format, stated over the bytes of a module.
//!
//! Each reading function takes the bytes and a position and gives either what
//! stands there together with the position just past it, or the error that a
//! decoder meets there.
use vstd::prelude::*;
use vstd::utf8::{decode_utf8, valid_utf8};

use crate::ast::{
    ExportDesc, ExportModel, FuncTypeModel, ModuleModel, NumberType, ReferenceType, ValueType,
    VectorType,
};
use crate::section;

verus! {

/// What can go wrong while decoding a binary module.
#[derive(Debug, Clone, Copy, PartialEq, Eq, Structural)]
pub enum RuntimeError {
    InvalidModuleLength,
    InvalidMagicNumber,
    InvalidVersionNumber,
    InvalidSectionCode,
    InvalidValueType,
    InvalidExportType,
    InvalidExportName,
    InvalidInstruction,
    ExportNotFound,
    InvalidArgNumber,
    InvalidFunctionType,
    InvalidInteger,
    SectionSizeMismatch,
    UnexpectedEnd,
}

/// The text that describes each error.
pub open spec fn error_message(e: RuntimeError) -> Seq<char> {
    match e {
        RuntimeError::InvalidModuleLength => "Invalid module length"@,
        RuntimeError::InvalidMagicNumber => "Invalid magic number"@,
        RuntimeError::InvalidVersionNumber => "Invalid version number"@,
        RuntimeError::InvalidSectionCode => "Invalid section code"@,
        RuntimeError::InvalidValueType => "Invalid value type"@,
        RuntimeError::InvalidExportType => "Invalid export type"@,
        RuntimeError::InvalidExportName => "Invalid export name"@,
        RuntimeError::InvalidInstruction => "Invalid instruction"@,
        RuntimeError::ExportNotFound => "Export not found"@,
        RuntimeError::InvalidArgNumber => "Invalid argument number"@,
        RuntimeError::InvalidFunctionType => "Invalid function type"@,
        RuntimeError::InvalidInteger => "Invalid integer encoding"@,
        RuntimeError::SectionSizeMismatch => "Section size mismatch"@,
        RuntimeError::UnexpectedEnd => "Unexpected end of module"@,
    }
}

impl RuntimeError {
    pub fn message(&self) -> (r: &'static str)
        ensures
            r@ == error_message(*self),
    {
        match self {
            RuntimeError::InvalidModuleLength => "Invalid module length",
            RuntimeError::InvalidMagicNumber => "Invalid magic number",
            RuntimeError::InvalidVersionNumber => "Invalid version number",
            RuntimeError::InvalidSectionCode => "Invalid section code",
            RuntimeError::InvalidValueType => "Invalid value type",
            RuntimeError::InvalidExportType => "Invalid export type",
            RuntimeError::InvalidExportName => "Invalid export name",
            RuntimeError::InvalidInstruction => "Invalid instruction",
            RuntimeError::ExportNotFound => "Export not found",
            RuntimeError::InvalidArgNumber => "Invalid argument number",
            RuntimeError::InvalidFunctionType => "Invalid function type",
            RuntimeError::InvalidInteger => "Invalid integer encoding",
            RuntimeError::SectionSizeMismatch => "Section size mismatch",
            RuntimeError::UnexpectedEnd => "Unexpected end of module",
        }
    }
}

/// The marker byte that opens a function signature.
pub const FUNC_TYPE_FORM: u8 = 0x60;

/// `\0asm`.
pub open spec fn magic() -> Seq<u8> {
    seq![0x00u8, 0x61u8, 0x73u8, 0x6du8]
}

/// The four bytes at `i`, little-endian.
pub open spec fn le_u32(s: Seq<u8>, i: int) -> int {
    s[i] + s[i + 1] * 256 + s[i + 2] * 65536 + s[i + 3] * 16777216
}

pub open spec fn pow128(k: nat) -> nat
    decreases k,
{
    if k == 0 {
        1
    } else {
        128 * pow128((k - 1) as nat)
    }
}

/// An unsigned LEB128 integer of at most 32 bits at `i`, of which the first `k`
/// groups are read and add up to `acc`. Each byte gives its low seven bits, the
/// least significant group first; the first byte below 0x80 ends the integer,
/// which takes at most five bytes and must fit in 32 bits.
pub open spec fn leb_u32_from(s: Seq<u8>, i: int, k: nat, acc: nat) -> Result<(u32, int), RuntimeError>
    decreases 5 - k,
{
    if k >= 5 {
        Err(RuntimeError::InvalidInteger)
    } else if i + k >= s.len() {
        Err(RuntimeError::UnexpectedEnd)
    } else {
        let b = s[i + k];
        let total = acc + (b % 128) as nat * pow128(k);
        if b < 128 {
            if total <= u32::MAX {
                Ok((total as u32, i + k + 1))
            } else {
                Err(RuntimeError::InvalidInteger)
            }
        } else if k == 4 {
            Err(RuntimeError::InvalidInteger)
        } else {
            leb_u32_from(s, i, k + 1, total)
        }
    }
}

/// An unsigned LEB128 integer of at most 32 bits at `i`.
pub open spec fn leb_u32(s: Seq<u8>, i: int) -> Result<(u32, int), RuntimeError> {
    leb_u32_from(s, i, 0, 0)
}

/// The module header at `i`: the magic number, then version 1. A buffer of
/// fewer than eight bytes is refused before any byte is looked at.
pub open spec fn header(s: Seq<u8>, i: int) -> Result<int, RuntimeError> {
    if s.len() < 8 {
        Err(RuntimeError::InvalidModuleLength)
    } else if i < 0 || i + 4 > s.len() {
        Err(RuntimeError::UnexpectedEnd)
    } else if s.subrange(i, i + 4) != magic() {
        Err(RuntimeError::InvalidMagicNumber)
    } else if i + 8 > s.len() {
        Err(RuntimeError::UnexpectedEnd)
    } else if le_u32(s, i + 4) != 1 {
        Err(RuntimeError::InvalidVersionNumber)
    } else {
        Ok(i + 8)
    }
}

/// The value type that a byte encodes.
pub open spec fn value_type_of(b: u8) -> Option<ValueType> {
    if b == 0x7f {
        Some(ValueType::NumberType(NumberType::I32))
    } else if b == 0x7e {
        Some(ValueType::NumberType(NumberType::I64))
    } else if b == 0x7d {
        Some(ValueType::NumberType(NumberType::F32))
    } else if b == 0x7c {
        Some(ValueType::NumberType(NumberType::F64))
    } else if b == 0x7b {
        Some(ValueType::VectorType(VectorType::V128))
    } else if b == 0x70 {
        Some(ValueType::ReferenceType(ReferenceType::FuncRef))
    } else if b == 0x6f {
        Some(ValueType::ReferenceType(ReferenceType::ExternRef))
    } else {
        None
    }
}

/// `n` more value types at `i`, after the ones in `acc`.
pub open spec fn value_types_from(s: Seq<u8>, i: int, n: nat, acc: Seq<ValueType>) -> Result<
    (Seq<ValueType>, int),
    RuntimeError,
>
    decreases n,
{
    if n == 0 {
        Ok((acc, i))
    } else if i < 0 || i >= s.len() {
        Err(RuntimeError::UnexpectedEnd)
    } else {
        match value_type_of(s[i]) {
            None => Err(RuntimeError::InvalidValueType),
            Some(t) => value_types_from(s, i + 1, (n - 1) as nat, acc.push(t)),
        }
    }
}

/// A vector of value types at `i`: a count, then that many value types.
pub open spec fn result_type(s: Seq<u8>, i: int) -> Result<(Seq<ValueType>, int), RuntimeError> {
    match leb_u32(s, i) {
        Err(e) => Err(e),
        Ok((n, j)) => value_types_from(s, j, n as nat, seq![]),
    }
}

/// A function signature at `i`: the marker byte, parameters, results.
pub open spec fn func_type(s: Seq<u8>, i: int) -> Result<(FuncTypeModel, int), RuntimeError> {
    if i < 0 || i >= s.len() {
        Err(RuntimeError::UnexpectedEnd)
    } else if s[i] != FUNC_TYPE_FORM {
        Err(RuntimeError::InvalidFunctionType)
    } else {
        match result_type(s, i + 1) {
            Err(e) => Err(e),
            Ok((params, j)) => match result_type(s, j) {
                Err(e) => Err(e),
                Ok((results, k)) => Ok((FuncTypeModel { params, results }, k)),
            },
        }
    }
}

/// `n` more function signatures at `i`, after the ones in `acc`.
pub open spec fn func_types_from(s: Seq<u8>, i: int, n: nat, acc: Seq<FuncTypeModel>) -> Result<
    (Seq<FuncTypeModel>, int),
    RuntimeError,
>
    decreases n,
{
    if n == 0 {
        Ok((acc, i))
    } else {
        match func_type(s, i) {
            Err(e) => Err(e),
            Ok((t, j)) => func_types_from(s, j, (n - 1) as nat, acc.push(t)),
        }
    }
}

/// The body of a type section at `i`: a count, then that many signatures.
pub open spec fn type_section(s: Seq<u8>, i: int) -> Result<(Seq<FuncTypeModel>, int), RuntimeError> {
    match leb_u32(s, i) {
        Err(e) => Err(e),
        Ok((n, j)) => func_types_from(s, j, n as nat, seq![]),
    }
}

/// The descriptor that an export kind byte gives to an index.
pub open spec fn export_desc_of(kind: u8, index: u32) -> Option<ExportDesc> {
    if kind == 0 {
        Some(ExportDesc::Func(index as usize))
    } else if kind == 1 {
        Some(ExportDesc::Table(index as usize))
    } else if kind == 2 {
        Some(ExportDesc::Mem(index as usize))
    } else if kind == 3 {
        Some(ExportDesc::Global(index as usize))
    } else {
        None
    }
}

/// A name at `i`: a byte count, then that many bytes of UTF-8.
pub open spec fn name(s: Seq<u8>, i: int) -> Result<(Seq<char>, int), RuntimeError> {
    match leb_u32(s, i) {
        Err(e) => Err(e),
        Ok((n, j)) => if j + n > s.len() {
            Err(RuntimeError::UnexpectedEnd)
        } else if !valid_utf8(s.subrange(j, j + n)) {
            Err(RuntimeError::InvalidExportName)
        } else {
            Ok((decode_utf8(s.subrange(j, j + n)), j + n))
        },
    }
}

/// An export at `i`: its name, a kind byte, then an index.
pub open spec fn export(s: Seq<u8>, i: int) -> Result<(ExportModel, int), RuntimeError> {
    match name(s, i) {
        Err(e) => Err(e),
        Ok((nm, j)) => if j >= s.len() {
            Err(RuntimeError::UnexpectedEnd)
        } else if s[j] > 3 {
            Err(RuntimeError::InvalidExportType)
        } else {
            match leb_u32(s, j + 1) {
                Err(e) => Err(e),
                Ok((index, k)) => Ok(
                    (ExportModel { name: nm, desc: export_desc_of(s[j], index).unwrap() }, k),
                ),
            }
        },
    }
}

/// `n` more exports at `i`, after the ones in `acc`.
pub open spec fn exports_from(s: Seq<u8>, i: int, n: nat, acc: Seq<ExportModel>) -> Result<
    (Seq<ExportModel>, int),
    RuntimeError,
>
    decreases n,
{
    if n == 0 {
        Ok((acc, i))
    } else {
        match export(s, i) {
            Err(e) => Err(e),
            Ok((x, j)) => exports_from(s, j, (n - 1) as nat, acc.push(x)),
        }
    }
}

/// The body of an export section at `i`: a count, then that many exports.
pub open spec fn export_section(s: Seq<u8>, i: int) -> Result<(Seq<ExportModel>, int), RuntimeError> {
    match leb_u32(s, i) {
        Err(e) => Err(e),
        Ok((n, j)) => exports_from(s, j, n as nat, seq![]),
    }
}

/// What the decoder of section `id` makes of the body at `start`, of declared
/// length `size`, and where it stops. Sections other than types and exports
/// are passed over whole.
pub open spec fn section_body(s: Seq<u8>, id: u8, start: int, size: int, m: ModuleModel) -> Result<
    (ModuleModel, int),
    RuntimeError,
> {
    if id == section::TYPE {
        match type_section(s, start) {
            Err(e) => Err(e),
            Ok((ts, end)) => Ok((ModuleModel { types: m.types + ts, exports: m.exports }, end)),
        }
    } else if id == section::EXPORT {
        match export_section(s, start) {
            Err(e) => Err(e),
            Ok((xs, end)) => Ok((ModuleModel { types: m.types, exports: m.exports + xs }, end)),
        }
    } else {
        Ok((m, start + size))
    }
}

/// The section at `pos`: an id byte, a declared length, then a body that must
/// take exactly that many bytes. Gives the module with the section's content
/// added and the position of the next section.
pub open spec fn section_at(s: Seq<u8>, pos: int, m: ModuleModel) -> Result<
    (ModuleModel, int),
    RuntimeError,
> {
    if pos < 0 || pos >= s.len() {
        Err(RuntimeError::UnexpectedEnd)
    } else {
        match leb_u32(s, pos + 1) {
            Err(e) => Err(e),
            Ok((size, start)) => if !section::is_known(s[pos]) {
                Err(RuntimeError::InvalidSectionCode)
            } else if start + size > s.len() {
                Err(RuntimeError::UnexpectedEnd)
            } else {
                match section_body(s, s[pos], start, size as int, m) {
                    Err(e) => Err(e),
                    Ok((m2, end)) => if end != start + size {
                        Err(RuntimeError::SectionSizeMismatch)
                    } else {
                        Ok((m2, end))
                    },
                }
            },
        }
    }
}

/// The sections from `pos` to the end of the buffer, added to `m`.
pub open spec fn sections_from(s: Seq<u8>, pos: int, m: ModuleModel) -> Result<ModuleModel, RuntimeError>
    decreases s.len() - pos,
    via sections_from_decreases
{
    if pos < 0 || pos >= s.len() {
        Ok(m)
    } else {
        match section_at(s, pos, m) {
            Err(e) => Err(e),
            Ok((m2, next)) => sections_from(s, next, m2),
        }
    }
}

#[via_fn]
proof fn sections_from_decreases(s: Seq<u8>, pos: int, m: ModuleModel) {
    if 0 <= pos < s.len() {
        lemma_leb_u32_advances(s, pos + 1, 0, 0);
    }
}

pub open spec fn empty_module() -> ModuleModel {
    ModuleModel { types: seq![], exports: seq![] }
}

/// A whole binary module: the header, then sections up to the end.
pub open spec fn module(s: Seq<u8>) -> Result<ModuleModel, RuntimeError> {
    match header(s, 0) {
        Err(e) => Err(e),
        Ok(pos) => sections_from(s, pos, empty_module()),
    }
}

/// Reading an integer moves past at least one byte.
pub proof fn lemma_leb_u32_advances(s: Seq<u8>, i: int, k: nat, acc: nat)
    ensures
        leb_u32_from(s, i, k, acc) matches Ok((_, j)) ==> j > i + k,
    decreases 5 - k,
{
    if k < 5 && i + k < s.len() && s[i + k] >= 128 && k != 4 {
        lemma_leb_u32_advances(s, i, k + 1, acc + (s[i + k] % 128) as nat * pow128(k));
    }
}

/// A buffer shorter than eight bytes is refused as too short, whatever it holds.
pub proof fn lemma_short_module_refused(s: Seq<u8>)
    requires
        s.len() < 8,
    ensures
        module(s) == Err::<ModuleModel, RuntimeError>(RuntimeError::InvalidModuleLength),
{
}

/// Changing any one byte of a correct magic number makes the module fail with
/// a bad magic number, whatever follows.
pub proof fn lemma_bad_magic_refused(s: Seq<u8>, i: int, b: u8)
    requires
        s.len() >= 8,
        s.subrange(0, 4) == magic(),
        0 <= i < 4,
        b != s[i],
    ensures
        module(s.update(i, b)) == Err::<ModuleModel, RuntimeError>(RuntimeError::InvalidMagicNumber),
{
    let t = s.update(i, b);
    assert(t.subrange(0, 4)[i] != magic()[i]);
}

/// A correct magic number followed by the version word `02 00 00 00` makes
/// the module fail with a bad version number, whatever follows.
pub proof fn lemma_bad_version_refused(s: Seq<u8>)
    requires
        s.len() >= 8,
        s.subrange(0, 4) == magic(),
    ensures
        module(s.update(4, 2).update(5, 0).update(6, 0).update(7, 0)) == Err::<
            ModuleModel,
            RuntimeError,
        >(RuntimeError::InvalidVersionNumber),
{
    let t = s.update(4, 2).update(5, 0).update(6, 0).update(7, 0);
    assert(t.subrange(0, 4) =~= s.subrange(0, 4));
    assert(le_u32(t, 4) == 2);
}

/// A section whose decoder stops anywhere but at the end that the section
/// declares makes the rest of the module fail, even though what the decoder
/// read was valid.
pub proof fn lemma_section_size_mismatch(
    s: Seq<u8>,
    pos: int,
    m: ModuleModel,
    size: u32,
    start: int,
    decoded: ModuleModel,
    end: int,
)
    requires
        0 <= pos < s.len(),
        section::is_known(s[pos]),
        leb_u32(s, pos + 1) == Ok::<(u32, int), RuntimeError>((size, start)),
        start + size <= s.len(),
        section_body(s, s[pos], start, size as int, m) == Ok::<(ModuleModel, int), RuntimeError>(
            (decoded, end),
        ),
        end != start + size,
    ensures
        section_at(s, pos, m) == Err::<(ModuleModel, int), RuntimeError>(
            RuntimeError::SectionSizeMismatch,
        ),
        sections_from(s, pos, m) == Err::<ModuleModel, RuntimeError>(
            RuntimeError::SectionSizeMismatch,
        ),
{
}

} // verus!
