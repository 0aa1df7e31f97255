//! Typed values held by table symbols, and the on-disk type codes.

use crate::bytes::{be_i32, be_u32, spec_be_i32, spec_be_u32};
use crate::db::DBAddress;
use crate::string_utils::{mac_roman_char, spec_mac_roman_char};
use vstd::prelude::*;

verus! {

/// On-disk value-type codes, in the order the value taxonomy lists them.
pub const VALUE_TYPE_UNINITIALIZED: u8 = 0;

pub const VALUE_TYPE_NONE: u8 = 1;

pub const VALUE_TYPE_CHAR: u8 = 2;

pub const VALUE_TYPE_INT: u8 = 3;

pub const VALUE_TYPE_BINARY: u8 = 4;

pub const VALUE_TYPE_BOOLEAN: u8 = 5;

pub const VALUE_TYPE_DATE: u8 = 6;

pub const VALUE_TYPE_DOUBLE: u8 = 7;

pub const VALUE_TYPE_STRING: u8 = 8;

pub const VALUE_TYPE_EXTERNAL: u8 = 9;

pub const VALUE_TYPE_TABLE: u8 = 10;

/// A typed value. Inline primitives live here directly; a date is seconds
/// since the classic-Mac epoch; a float is kept as its IEEE-754 bits exactly
/// as stored; a pointer-valued symbol (string, binary, external, sub-table)
/// is `DiskValue` naming the block that holds its content until resolved.
#[derive(Debug)]
pub enum Value {
    Uninitialized,
    NoValue,
    CharValue(char),
    IntValue(i32),
    BinaryValue(Vec<u8>),
    BooleanValue(bool),
    DateValue(u32),
    DoubleValue(u32),
    StringValue(String),
    ExternalValue,
    DiskValue(DBAddress),
}

/// The mathematical content of a `Value`.
pub enum ValueModel {
    Uninitialized,
    NoValue,
    CharValue(char),
    IntValue(int),
    BinaryValue(Seq<u8>),
    BooleanValue(bool),
    DateValue(u32),
    DoubleValue(u32),
    StringValue(Seq<char>),
    ExternalValue,
    DiskValue(DBAddress),
}

impl View for Value {
    type V = ValueModel;

    open spec fn view(&self) -> ValueModel {
        match self {
            Value::Uninitialized => ValueModel::Uninitialized,
            Value::NoValue => ValueModel::NoValue,
            Value::CharValue(c) => ValueModel::CharValue(*c),
            Value::IntValue(i) => ValueModel::IntValue(*i as int),
            Value::BinaryValue(b) => ValueModel::BinaryValue(b@),
            Value::BooleanValue(b) => ValueModel::BooleanValue(*b),
            Value::DateValue(d) => ValueModel::DateValue(*d),
            Value::DoubleValue(d) => ValueModel::DoubleValue(*d),
            Value::StringValue(s) => ValueModel::StringValue(s@),
            Value::ExternalValue => ValueModel::ExternalValue,
            Value::DiskValue(a) => ValueModel::DiskValue(*a),
        }
    }
}

/// A value together with its on-disk type code and bookkeeping flags. The
/// code is kept so that a pointer-valued symbol can be resolved later and so
/// that a write-back can reproduce the record.
#[derive(Debug)]
pub struct ValueRecord {
    pub value: Value,
    pub value_type: u8,
    pub is_tmp_data: bool,
    pub is_tmp_stack: bool,
    pub is_formal_val: bool,
    pub is_disk_val: bool,
}

/// The mathematical content of a `ValueRecord`.
pub struct ValueRecordModel {
    pub value: ValueModel,
    pub value_type: u8,
    pub is_tmp_data: bool,
    pub is_tmp_stack: bool,
    pub is_formal_val: bool,
    pub is_disk_val: bool,
}

impl View for ValueRecord {
    type V = ValueRecordModel;

    open spec fn view(&self) -> ValueRecordModel {
        ValueRecordModel {
            value: self.value@,
            value_type: self.value_type,
            is_tmp_data: self.is_tmp_data,
            is_tmp_stack: self.is_tmp_stack,
            is_formal_val: self.is_formal_val,
            is_disk_val: self.is_disk_val,
        }
    }
}

/// Whether a value-type code names a pointer-valued symbol, whose four data
/// bytes are the address of another block.
pub open spec fn spec_is_pointer_type(value_type: u8) -> bool {
    ||| value_type == VALUE_TYPE_BINARY
    ||| value_type == VALUE_TYPE_STRING
    ||| value_type == VALUE_TYPE_EXTERNAL
    ||| value_type == VALUE_TYPE_TABLE
}

/// The value a symbol record's four data bytes carry, interpreted by its
/// value-type code: inline primitives in place, a `DiskValue` address for
/// pointer-valued types, `Uninitialized` for the blank code and any code the
/// decoder does not know.
pub open spec fn spec_value_from_symbol(value_type: u8, data: Seq<u8>) -> ValueModel
    recommends
        data.len() == 4,
{
    if value_type == VALUE_TYPE_NONE {
        ValueModel::NoValue
    } else if value_type == VALUE_TYPE_CHAR {
        ValueModel::CharValue(spec_mac_roman_char(data[3]))
    } else if value_type == VALUE_TYPE_INT {
        ValueModel::IntValue(spec_be_i32(data, 0))
    } else if value_type == VALUE_TYPE_BOOLEAN {
        ValueModel::BooleanValue(spec_be_u32(data, 0) != 0)
    } else if value_type == VALUE_TYPE_DATE {
        ValueModel::DateValue(spec_be_u32(data, 0) as u32)
    } else if value_type == VALUE_TYPE_DOUBLE {
        ValueModel::DoubleValue(spec_be_u32(data, 0) as u32)
    } else if spec_is_pointer_type(value_type) {
        ValueModel::DiskValue(spec_be_u32(data, 0) as u32)
    } else {
        ValueModel::Uninitialized
    }
}

/// The record a symbol's type code and data bytes unpack to: the carried
/// value, with `is_disk_val` set exactly for pointer-valued types.
pub open spec fn spec_value_record_from_symbol(value_type: u8, data: Seq<u8>) -> ValueRecordModel
    recommends
        data.len() == 4,
{
    ValueRecordModel {
        value: spec_value_from_symbol(value_type, data),
        value_type: value_type,
        is_tmp_data: false,
        is_tmp_stack: false,
        is_formal_val: false,
        is_disk_val: spec_is_pointer_type(value_type),
    }
}

impl ValueRecord {
    /// An uninitialized record with every flag clear.
    pub fn new() -> (r: Self)
        ensures
            r@ == (ValueRecordModel {
                value: ValueModel::Uninitialized,
                value_type: VALUE_TYPE_UNINITIALIZED,
                is_tmp_data: false,
                is_tmp_stack: false,
                is_formal_val: false,
                is_disk_val: false,
            }),
    {
        Self {
            value: Value::Uninitialized,
            value_type: VALUE_TYPE_UNINITIALIZED,
            is_tmp_data: false,
            is_tmp_stack: false,
            is_formal_val: false,
            is_disk_val: false,
        }
    }

    /// Unpacks the value of one 10-byte symbol record from its type code and
    /// four data bytes.
    pub fn from_symbol(value_type: u8, data: &[u8]) -> (r: Self)
        requires
            data@.len() == 4,
        ensures
            r@ == spec_value_record_from_symbol(value_type, data@),
    {
        let is_pointer = value_type == VALUE_TYPE_BINARY || value_type == VALUE_TYPE_STRING
            || value_type == VALUE_TYPE_EXTERNAL || value_type == VALUE_TYPE_TABLE;
        let value = if value_type == VALUE_TYPE_NONE {
            Value::NoValue
        } else if value_type == VALUE_TYPE_CHAR {
            Value::CharValue(mac_roman_char(data[3]))
        } else if value_type == VALUE_TYPE_INT {
            Value::IntValue(be_i32(data, 0))
        } else if value_type == VALUE_TYPE_BOOLEAN {
            Value::BooleanValue(be_u32(data, 0) != 0)
        } else if value_type == VALUE_TYPE_DATE {
            Value::DateValue(be_u32(data, 0))
        } else if value_type == VALUE_TYPE_DOUBLE {
            Value::DoubleValue(be_u32(data, 0))
        } else if is_pointer {
            Value::DiskValue(be_u32(data, 0))
        } else {
            Value::Uninitialized
        };
        ValueRecord {
            value,
            value_type,
            is_tmp_data: false,
            is_tmp_stack: false,
            is_formal_val: false,
            is_disk_val: is_pointer,
        }
    }
}

} // verus!
