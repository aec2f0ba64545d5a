//! Identifiers of the sections of a binary module.
use vstd::prelude::*;

verus! {

pub const TYPE: u8 = 1;

pub const IMPORT: u8 = 2;

pub const FUNCTION: u8 = 3;

pub const TABLE: u8 = 4;

pub const MEMORY: u8 = 5;

pub const GLOBAL: u8 = 6;

pub const EXPORT: u8 = 7;

pub const START: u8 = 8;

pub const ELEMENT: u8 = 9;

pub const CODE: u8 = 10;

pub const DATA: u8 = 11;

/// The identifiers that a module may use.
pub open spec fn is_known(id: u8) -> bool {
    TYPE <= id <= DATA
}

} // verus!
