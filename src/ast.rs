//! The decoded skeleton of a module, shared by both front ends.
use vstd::prelude::*;

verus! {

/// The number types: `i32`, `i64`, `f32`, `f64`.
#[derive(Debug, Clone, Copy, PartialEq, Eq, Structural)]
pub enum NumberType {
    I32,
    I64,
    F32,
    F64,
}

/// The vector type: `v128`.
#[derive(Debug, Clone, Copy, PartialEq, Eq, Structural)]
pub enum VectorType {
    V128,
}

/// The reference types: `funcref`, `externref`.
#[derive(Debug, Clone, Copy, PartialEq, Eq, Structural)]
pub enum ReferenceType {
    FuncRef,
    ExternRef,
}

/// The type of a value slot: a number, a vector or a reference type.
#[derive(Debug, Clone, Copy, PartialEq, Eq, Structural)]
pub enum ValueType {
    NumberType(NumberType),
    VectorType(VectorType),
    ReferenceType(ReferenceType),
}

/// An ordered list of value types.
pub type ResultType = Vec<ValueType>;

/// A function signature: parameter types, then result types.
pub type FuncType = (ResultType, ResultType);

pub type Type = FuncType;

#[derive(Debug, Clone, PartialEq, Eq)]
pub enum Instr {
    LocalGet(usize),
    I32Add,
}

/// A function: the index of its type, its locals and its body.
#[derive(Debug, Clone, PartialEq, Eq)]
pub struct Func {
    pub f_type: i32,
    pub locals: Vec<ValueType>,
    pub body: Vec<Instr>,
}

/// What an export refers to, by index in that item's own index space.
#[derive(Debug, Clone, Copy, PartialEq, Eq, Structural)]
pub enum ExportDesc {
    Func(usize),
    Table(usize),
    Mem(usize),
    Global(usize),
}

/// A name under which the module exports one of its items.
#[derive(Debug, Clone, PartialEq, Eq)]
pub struct Export {
    pub name: String,
    pub desc: ExportDesc,
}

/// The decoding target: function signatures and exports, in declaration order.
#[derive(Debug, PartialEq)]
pub struct Module {
    pub types: Vec<Type>,
    pub exports: Vec<Export>,
}

/// A signature as two sequences of value types.
pub struct FuncTypeModel {
    pub params: Seq<ValueType>,
    pub results: Seq<ValueType>,
}

/// An export as the characters of its name and its descriptor.
pub struct ExportModel {
    pub name: Seq<char>,
    pub desc: ExportDesc,
}

/// A module as sequences of signatures and exports.
pub struct ModuleModel {
    pub types: Seq<FuncTypeModel>,
    pub exports: Seq<ExportModel>,
}

pub open spec fn func_type_model(t: FuncType) -> FuncTypeModel {
    FuncTypeModel { params: t.0@, results: t.1@ }
}

impl View for Export {
    type V = ExportModel;

    open spec fn view(&self) -> ExportModel {
        ExportModel { name: self.name@, desc: self.desc }
    }
}

impl View for Module {
    type V = ModuleModel;

    open spec fn view(&self) -> ModuleModel {
        ModuleModel {
            types: self.types@.map_values(|t: FuncType| func_type_model(t)),
            exports: self.exports@.map_values(|e: Export| e@),
        }
    }
}

} // verus!
