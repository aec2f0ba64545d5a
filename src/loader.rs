//! The binary cursor and the section decoder.
use vstd::prelude::*;
use vstd::utf8::{decode_utf8, valid_utf8};

use crate::ast::{
    func_type_model, Export, ExportDesc, FuncType, Module, NumberType, ReferenceType, ResultType,
    Type, ValueType, VectorType,
};
use crate::format::{
    empty_module, export, export_section, exports_from, func_type, func_types_from, header,
    le_u32, leb_u32, leb_u32_from, lemma_leb_u32_advances, magic, module, name, pow128,
    result_type, section_at, sections_from, type_section, value_type_of, value_types_from,
    RuntimeError, FUNC_TYPE_FORM,
};
use crate::section;

verus! {

/// A position-tracked view of a byte buffer. Every read moves the position
/// past what it read; a read beyond the end fails and moves nothing. The
/// position never passes the end of the buffer.
pub struct Reader {
    data: Vec<u8>,
    pos: usize,
}

impl Reader {
    #[verifier::type_invariant]
    spec fn in_bounds(&self) -> bool {
        self.pos <= self.data.len()
    }
    /// The bytes read.
    pub closed spec fn buffer(&self) -> Seq<u8> {
        self.data@
    }

    /// The position of the next byte to read.
    pub closed spec fn cursor(&self) -> int {
        self.pos as int
    }

    pub fn new(data: Vec<u8>) -> (r: Self)
        ensures
            r.buffer() == data@,
            r.cursor() == 0,
            r.cursor() <= r.buffer().len(),
    {
        Self { data, pos: 0 }
    }

    pub fn len(&self) -> (r: usize)
        ensures
            r == self.buffer().len(),
            self.cursor() <= self.buffer().len(),
    {
        proof {
            use_type_invariant(self);
        }
        self.data.len()
    }

    /// The current position, to come back to with `reset`.
    pub fn position(&self) -> (r: usize)
        ensures
            r == self.cursor(),
            self.cursor() <= self.buffer().len(),
    {
        proof {
            use_type_invariant(self);
        }
        self.pos
    }

    /// Moves back, or on, to a position within the buffer.
    pub fn reset(&mut self, pos: usize)
        requires
            pos <= old(self).buffer().len(),
        ensures
            final(self).buffer() == old(self).buffer(),
            final(self).cursor() == pos,
            final(self).cursor() <= final(self).buffer().len(),
    {
        self.pos = pos;
    }

    /// Whether the position is at the end of the buffer.
    pub fn at_end(&self) -> (r: bool)
        ensures
            r == (self.cursor() == self.buffer().len()),
            self.cursor() <= self.buffer().len(),
    {
        proof {
            use_type_invariant(self);
        }
        self.pos >= self.data.len()
    }

    /// Reads four bytes as a little-endian unsigned integer.
    pub fn dword(&mut self) -> (r: Result<u32, RuntimeError>)
        ensures
            final(self).buffer() == old(self).buffer(),
            old(self).cursor() <= final(self).cursor() <= final(self).buffer().len(),
            old(self).cursor() + 4 <= old(self).buffer().len() ==> r == Ok::<u32, RuntimeError>(
                le_u32(old(self).buffer(), old(self).cursor()) as u32,
            ) && final(self).cursor() == old(self).cursor() + 4,
            old(self).cursor() + 4 > old(self).buffer().len() ==> r == Err::<u32, RuntimeError>(
                RuntimeError::UnexpectedEnd,
            ) && final(self).cursor() == old(self).cursor(),
    {
        proof {
            use_type_invariant(&*self);
        }
        if self.pos > self.data.len() || 4 > self.data.len() - self.pos {
            return Err(RuntimeError::UnexpectedEnd);
        }
        let p = self.pos;
        let b0 = self.data[p] as u32;
        let b1 = self.data[p + 1] as u32;
        let b2 = self.data[p + 2] as u32;
        let b3 = self.data[p + 3] as u32;
        self.pos = p + 4;
        Ok(b0 + b1 * 256 + b2 * 65536 + b3 * 16777216)
    }

    /// Reads `num` bytes.
    pub fn bytes(&mut self, num: usize) -> (r: Result<Vec<u8>, RuntimeError>)
        ensures
            final(self).buffer() == old(self).buffer(),
            old(self).cursor() <= final(self).cursor() <= final(self).buffer().len(),
            old(self).cursor() + num <= old(self).buffer().len() ==> (r matches Ok(v) && v@
                == old(self).buffer().subrange(old(self).cursor(), old(self).cursor() + num)
                && final(self).cursor() == old(self).cursor() + num),
            old(self).cursor() + num > old(self).buffer().len() ==> r == Err::<Vec<u8>, RuntimeError>(
                RuntimeError::UnexpectedEnd,
            ) && final(self).cursor() == old(self).cursor(),
    {
        proof {
            use_type_invariant(&*self);
        }
        if self.pos > self.data.len() || num > self.data.len() - self.pos {
            return Err(RuntimeError::UnexpectedEnd);
        }
        let start = self.pos;
        let mut v: Vec<u8> = Vec::new();
        let mut i: usize = start;
        while i < start + num
            invariant
                start + num <= self.data.len(),
                start <= i <= start + num,
                v@ == self.data@.subrange(start as int, i as int),
            decreases start + num - i,
        {
            v.push(self.data[i]);
            assert(v@ =~= self.data@.subrange(start as int, i + 1));
            i = i + 1;
        }
        self.pos = start + num;
        Ok(v)
    }

    /// Reads one byte.
    pub fn byte(&mut self) -> (r: Result<u8, RuntimeError>)
        ensures
            final(self).buffer() == old(self).buffer(),
            old(self).cursor() <= final(self).cursor() <= final(self).buffer().len(),
            0 <= old(self).cursor() < old(self).buffer().len() ==> r == Ok::<u8, RuntimeError>(
                old(self).buffer()[old(self).cursor()],
            ) && final(self).cursor() == old(self).cursor() + 1,
            old(self).cursor() >= old(self).buffer().len() ==> r == Err::<u8, RuntimeError>(
                RuntimeError::UnexpectedEnd,
            ) && final(self).cursor() == old(self).cursor(),
    {
        proof {
            use_type_invariant(&*self);
        }
        if self.pos >= self.data.len() {
            return Err(RuntimeError::UnexpectedEnd);
        }
        let b = self.data[self.pos];
        self.pos = self.pos + 1;
        Ok(b)
    }

    /// Reads an unsigned LEB128 integer of at most 32 bits.
    pub fn varuint32(&mut self) -> (r: Result<u32, RuntimeError>)
        ensures
            final(self).buffer() == old(self).buffer(),
            old(self).cursor() <= final(self).cursor() <= final(self).buffer().len(),
            match leb_u32(old(self).buffer(), old(self).cursor()) {
                Ok((v, j)) => r == Ok::<u32, RuntimeError>(v) && final(self).cursor() == j,
                Err(e) => r == Err::<u32, RuntimeError>(e),
            },
    {
        proof {
            use_type_invariant(&*self);
        }
        let ghost s = self.data@;
        let ghost i = self.pos as int;
        let mut result: u64 = 0;
        let mut mult: u64 = 1;
        let mut k: usize = 0;
        loop
            invariant
                self.data@ == s,
                s == old(self).data@,
                i == old(self).pos,
                k < 5,
                self.pos == i + k,
                mult == pow128(k as nat),
                result < mult,
                k == 0 ==> mult == 1,
                k == 1 ==> mult == 0x80,
                k == 2 ==> mult == 0x4000,
                k == 3 ==> mult == 0x20_0000,
                k == 4 ==> mult == 0x1000_0000,
                leb_u32_from(s, i, 0, 0) == leb_u32_from(s, i, k as nat, result as nat),
            decreases 5 - k,
        {
            let b = self.byte()?;
            assert((b % 128) as u64 * mult <= 127 * mult) by (nonlinear_arith)
                requires b % 128 <= 127;
            result = result + (b % 128) as u64 * mult;
            if b < 128 {
                if result > u32::MAX as u64 {
                    return Err(RuntimeError::InvalidInteger);
                }
                return Ok(result as u32);
            }
            if k == 4 {
                return Err(RuntimeError::InvalidInteger);
            }
            k = k + 1;
            mult = mult * 128;
        }
    }
}

/// Relies on std's `String::from_utf8`: it accepts exactly the well-formed
/// UTF-8 byte sequences, and the string it makes holds the characters they
/// encode.
#[verifier::external_body]
fn string_from_utf8(bytes: Vec<u8>) -> (r: Option<String>)
    ensures
        r is Some <==> valid_utf8(bytes@),
        r matches Some(s) ==> s@ == decode_utf8(bytes@),
{
    String::from_utf8(bytes).ok()
}

/// Checks the module header at the cursor: a buffer of fewer than eight bytes
/// is refused before anything is read, then the magic number and the version.
pub fn check_header(wasm: &mut Reader) -> (r: Result<(), RuntimeError>)
    ensures
        final(wasm).buffer() == old(wasm).buffer(),
        old(wasm).cursor() <= final(wasm).cursor() <= final(wasm).buffer().len(),
        old(wasm).buffer().len() < 8 ==> r == Err::<(), RuntimeError>(
            RuntimeError::InvalidModuleLength,
        ) && final(wasm).cursor() == old(wasm).cursor(),
        match header(old(wasm).buffer(), old(wasm).cursor()) {
            Ok(j) => r is Ok && final(wasm).cursor() == j,
            Err(e) => r == Err::<(), RuntimeError>(e),
        },
{
    if wasm.len() < 8 {
        return Err(RuntimeError::InvalidModuleLength);
    }
    let m = wasm.bytes(4)?;
    if !(m[0] == 0x00 && m[1] == 0x61 && m[2] == 0x73 && m[3] == 0x6d) {
        assert(m@ != magic()) by {
            if m@ == magic() {
                assert(m@[0] == 0x00 && m@[1] == 0x61 && m@[2] == 0x73 && m@[3] == 0x6d);
            }
        }
        return Err(RuntimeError::InvalidMagicNumber);
    }
    assert(m@ =~= magic());
    if wasm.dword()? != 1 {
        return Err(RuntimeError::InvalidVersionNumber);
    }
    Ok(())
}

/// Reads one value type.
pub fn parse_valuetype(wasm: &mut Reader) -> (r: Result<ValueType, RuntimeError>)
    ensures
        final(wasm).buffer() == old(wasm).buffer(),
        old(wasm).cursor() <= final(wasm).cursor() <= final(wasm).buffer().len(),
        old(wasm).cursor() >= old(wasm).buffer().len() ==> r == Err::<ValueType, RuntimeError>(
            RuntimeError::UnexpectedEnd,
        ),
        old(wasm).cursor() < old(wasm).buffer().len() ==> match value_type_of(
            old(wasm).buffer()[old(wasm).cursor()],
        ) {
            Some(t) => r == Ok::<ValueType, RuntimeError>(t) && final(wasm).cursor()
                == old(wasm).cursor() + 1,
            None => r == Err::<ValueType, RuntimeError>(RuntimeError::InvalidValueType),
        },
{
    match wasm.byte()? {
        0x7f => Ok(ValueType::NumberType(NumberType::I32)),
        0x7e => Ok(ValueType::NumberType(NumberType::I64)),
        0x7d => Ok(ValueType::NumberType(NumberType::F32)),
        0x7c => Ok(ValueType::NumberType(NumberType::F64)),
        0x7b => Ok(ValueType::VectorType(VectorType::V128)),
        0x70 => Ok(ValueType::ReferenceType(ReferenceType::FuncRef)),
        0x6f => Ok(ValueType::ReferenceType(ReferenceType::ExternRef)),
        _ => Err(RuntimeError::InvalidValueType),
    }
}

/// Reads a vector of value types.
fn parse_result_type(wasm: &mut Reader) -> (r: Result<ResultType, RuntimeError>)
    ensures
        final(wasm).buffer() == old(wasm).buffer(),
        old(wasm).cursor() <= final(wasm).cursor() <= final(wasm).buffer().len(),
        match result_type(old(wasm).buffer(), old(wasm).cursor()) {
            Ok((ts, j)) => (r matches Ok(v) && v@ == ts && final(wasm).cursor() == j),
            Err(e) => r == Err::<ResultType, RuntimeError>(e),
        },
{
    let ghost s = wasm.buffer();
    let ghost i0 = wasm.cursor();
    let n = wasm.varuint32()?;
    let mut v: Vec<ValueType> = Vec::new();
    let mut k: u32 = 0;
    while k < n
        invariant
            wasm.buffer() == s,
            s == old(wasm).buffer(),
            i0 == old(wasm).cursor(),
            i0 <= wasm.cursor() <= wasm.buffer().len(),
            k <= n,
            result_type(s, i0) == value_types_from(
                s,
                wasm.cursor(),
                (n - k) as nat,
                v@,
            ),
        decreases n - k,
    {
        let t = parse_valuetype(wasm)?;
        v.push(t);
        k = k + 1;
    }
    Ok(v)
}

/// Reads one function signature.
fn parse_func_type(wasm: &mut Reader) -> (r: Result<FuncType, RuntimeError>)
    ensures
        final(wasm).buffer() == old(wasm).buffer(),
        old(wasm).cursor() <= final(wasm).cursor() <= final(wasm).buffer().len(),
        match func_type(old(wasm).buffer(), old(wasm).cursor()) {
            Ok((t, j)) => (r matches Ok(v) && func_type_model(v) == t && final(wasm).cursor()
                == j),
            Err(e) => r == Err::<FuncType, RuntimeError>(e),
        },
{
    let form = wasm.byte()?;
    if form != FUNC_TYPE_FORM {
        return Err(RuntimeError::InvalidFunctionType);
    }
    let params = parse_result_type(wasm)?;
    let results = parse_result_type(wasm)?;
    Ok((params, results))
}

/// Reads the body of a type section.
pub fn parse_type_section(wasm: &mut Reader) -> (r: Result<Vec<Type>, RuntimeError>)
    ensures
        final(wasm).buffer() == old(wasm).buffer(),
        old(wasm).cursor() <= final(wasm).cursor() <= final(wasm).buffer().len(),
        match type_section(old(wasm).buffer(), old(wasm).cursor()) {
            Ok((ts, j)) => (r matches Ok(v) && v@.map_values(|t: FuncType| func_type_model(t))
                == ts && final(wasm).cursor() == j),
            Err(e) => r == Err::<Vec<Type>, RuntimeError>(e),
        },
{
    let ghost s = wasm.buffer();
    let ghost i0 = wasm.cursor();
    let n = wasm.varuint32()?;
    let mut v: Vec<Type> = Vec::new();
    assert(v@.map_values(|t: FuncType| func_type_model(t)) =~= seq![]);
    let mut k: u32 = 0;
    while k < n
        invariant
            wasm.buffer() == s,
            s == old(wasm).buffer(),
            i0 == old(wasm).cursor(),
            i0 <= wasm.cursor() <= wasm.buffer().len(),
            k <= n,
            type_section(s, i0) == func_types_from(
                s,
                wasm.cursor(),
                (n - k) as nat,
                v@.map_values(|t: FuncType| func_type_model(t)),
            ),
        decreases n - k,
    {
        let t = parse_func_type(wasm)?;
        let ghost before = v@;
        v.push(t);
        assert(v@.map_values(|t: FuncType| func_type_model(t)) =~= before.map_values(
            |t: FuncType| func_type_model(t),
        ).push(func_type_model(t)));
        k = k + 1;
    }
    Ok(v)
}

/// Reads a name: a byte count, then that many bytes of UTF-8.
fn parse_name(wasm: &mut Reader) -> (r: Result<String, RuntimeError>)
    ensures
        final(wasm).buffer() == old(wasm).buffer(),
        old(wasm).cursor() <= final(wasm).cursor() <= final(wasm).buffer().len(),
        match name(old(wasm).buffer(), old(wasm).cursor()) {
            Ok((nm, j)) => (r matches Ok(v) && v@ == nm && final(wasm).cursor() == j),
            Err(e) => r == Err::<String, RuntimeError>(e),
        },
{
    let n = wasm.varuint32()?;
    let raw = wasm.bytes(n as usize)?;
    match string_from_utf8(raw) {
        Some(v) => Ok(v),
        None => Err(RuntimeError::InvalidExportName),
    }
}

/// Reads one export.
fn parse_export(wasm: &mut Reader) -> (r: Result<Export, RuntimeError>)
    ensures
        final(wasm).buffer() == old(wasm).buffer(),
        old(wasm).cursor() <= final(wasm).cursor() <= final(wasm).buffer().len(),
        match export(old(wasm).buffer(), old(wasm).cursor()) {
            Ok((x, j)) => (r matches Ok(v) && v@ == x && final(wasm).cursor() == j),
            Err(e) => r == Err::<Export, RuntimeError>(e),
        },
{
    let name = parse_name(wasm)?;
    let kind = wasm.byte()?;
    if kind > 3 {
        return Err(RuntimeError::InvalidExportType);
    }
    let index = wasm.varuint32()? as usize;
    let desc = match kind {
        0 => ExportDesc::Func(index),
        1 => ExportDesc::Table(index),
        2 => ExportDesc::Mem(index),
        _ => ExportDesc::Global(index),
    };
    Ok(Export { name, desc })
}

/// Reads the body of an export section.
pub fn parse_export_section(wasm: &mut Reader) -> (r: Result<Vec<Export>, RuntimeError>)
    ensures
        final(wasm).buffer() == old(wasm).buffer(),
        old(wasm).cursor() <= final(wasm).cursor() <= final(wasm).buffer().len(),
        match export_section(old(wasm).buffer(), old(wasm).cursor()) {
            Ok((xs, j)) => (r matches Ok(v) && v@.map_values(|x: Export| x@) == xs
                && final(wasm).cursor() == j),
            Err(e) => r == Err::<Vec<Export>, RuntimeError>(e),
        },
{
    let ghost s = wasm.buffer();
    let ghost i0 = wasm.cursor();
    let n = wasm.varuint32()?;
    let mut v: Vec<Export> = Vec::new();
    assert(v@.map_values(|x: Export| x@) =~= seq![]);
    let mut k: u32 = 0;
    while k < n
        invariant
            wasm.buffer() == s,
            s == old(wasm).buffer(),
            i0 == old(wasm).cursor(),
            i0 <= wasm.cursor() <= wasm.buffer().len(),
            k <= n,
            export_section(s, i0) == exports_from(
                s,
                wasm.cursor(),
                (n - k) as nat,
                v@.map_values(|x: Export| x@),
            ),
        decreases n - k,
    {
        let x = parse_export(wasm)?;
        let ghost before = v@;
        let ghost xv = x@;
        v.push(x);
        assert(v@.map_values(|x: Export| x@) =~= before.map_values(|x: Export| x@).push(xv));
        k = k + 1;
    }
    Ok(v)
}

/// Reads one section and adds what it declares to `module`. The body must
/// take exactly the length that the section declares.
pub fn parse_section(wasm: &mut Reader, module: &mut Module) -> (r: Result<(), RuntimeError>)
    ensures
        final(wasm).buffer() == old(wasm).buffer(),
        old(wasm).cursor() <= final(wasm).cursor() <= final(wasm).buffer().len(),
        match section_at(old(wasm).buffer(), old(wasm).cursor(), old(module)@) {
            Ok((m, j)) => r is Ok && final(module)@ == m && final(wasm).cursor() == j,
            Err(e) => r == Err::<(), RuntimeError>(e),
        },
{
    let section_code = wasm.byte()?;
    let size = wasm.varuint32()?;
    if !(section::TYPE <= section_code && section_code <= section::DATA) {
        return Err(RuntimeError::InvalidSectionCode);
    }
    let start = wasm.position();
    if start > wasm.len() || size as usize > wasm.len() - start {
        return Err(RuntimeError::UnexpectedEnd);
    }
    let end = start + size as usize;
    if section_code == section::TYPE {
        let mut types = parse_type_section(wasm)?;
        let ghost before = module.types@;
        let ghost added = types@;
        module.types.append(&mut types);
        assert(module.types@.map_values(|t: FuncType| func_type_model(t)) =~= before.map_values(
            |t: FuncType| func_type_model(t),
        ) + added.map_values(|t: FuncType| func_type_model(t)));
    } else if section_code == section::EXPORT {
        let mut exports = parse_export_section(wasm)?;
        let ghost before = module.exports@;
        let ghost added = exports@;
        module.exports.append(&mut exports);
        assert(module.exports@.map_values(|x: Export| x@) =~= before.map_values(|x: Export| x@)
            + added.map_values(|x: Export| x@));
    } else {
        wasm.reset(end);
    }
    if wasm.position() != end {
        return Err(RuntimeError::SectionSizeMismatch);
    }
    Ok(())
}

/// Decodes a module at the cursor: the header, then sections up to the end of
/// the buffer.
pub fn parse_module(wasm: &mut Reader) -> (r: Result<Module, RuntimeError>)
    ensures
        final(wasm).buffer() == old(wasm).buffer(),
        old(wasm).cursor() <= final(wasm).cursor() <= final(wasm).buffer().len(),
        match header(old(wasm).buffer(), old(wasm).cursor()) {
            Err(e) => r == Err::<Module, RuntimeError>(e),
            Ok(p) => match sections_from(old(wasm).buffer(), p, empty_module()) {
                Ok(m) => (r matches Ok(x) && x@ == m),
                Err(e) => r == Err::<Module, RuntimeError>(e),
            },
        },
{
    let ghost s = wasm.buffer();
    let ghost i0 = wasm.cursor();
    check_header(wasm)?;
    let ghost p = wasm.cursor();
    let mut module = Module { types: Vec::new(), exports: Vec::new() };
    assert(module@.types =~= seq![]);
    assert(module@.exports =~= seq![]);
    while !wasm.at_end()
        invariant
            wasm.buffer() == s,
            s == old(wasm).buffer(),
            header(s, i0) == Ok::<int, RuntimeError>(p),
            i0 == old(wasm).cursor(),
            i0 <= wasm.cursor() <= wasm.buffer().len(),
            sections_from(s, p, empty_module()) == sections_from(s, wasm.cursor(), module@),
        decreases s.len() - wasm.cursor(),
    {
        proof {
            lemma_leb_u32_advances(s, wasm.cursor() + 1, 0, 0);
        }
        parse_section(wasm, &mut module)?;
    }
    Ok(module)
}

/// Decodes a whole binary module.
pub fn decode(data: Vec<u8>) -> (r: Result<Module, RuntimeError>)
    ensures
        data@.len() < 8 ==> r == Err::<Module, RuntimeError>(RuntimeError::InvalidModuleLength),
        match module(data@) {
            Ok(m) => (r matches Ok(x) && x@ == m),
            Err(e) => r == Err::<Module, RuntimeError>(e),
        },
{
    let mut wasm = Reader::new(data);
    parse_module(&mut wasm)
}

} // verus!
