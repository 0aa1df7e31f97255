//! Per-symbol resident state inside a table.

use crate::value_record::{ValueModel, ValueRecord, ValueRecordModel, VALUE_TYPE_UNINITIALIZED};
use vstd::prelude::*;

verus! {

/// One symbol of a table: its name (the hash key), its typed value, and the
/// bookkeeping flags of the symbol's lifecycle.
#[derive(Debug)]
pub struct TableNode {
    pub value: ValueRecord,
    pub dont_save: bool,
    pub is_locked: bool,
    pub is_protected: bool,
    pub is_unresolved_address: bool,
    pub is_dispose_when_unlocked: bool,
    pub locks_count: u8,
    pub hash_key: String,
}

/// The mathematical content of a `TableNode`.
pub struct TableNodeModel {
    pub value: ValueRecordModel,
    pub dont_save: bool,
    pub is_locked: bool,
    pub is_protected: bool,
    pub is_unresolved_address: bool,
    pub is_dispose_when_unlocked: bool,
    pub locks_count: u8,
    pub hash_key: Seq<char>,
}

impl View for TableNode {
    type V = TableNodeModel;

    open spec fn view(&self) -> TableNodeModel {
        TableNodeModel {
            value: self.value@,
            dont_save: self.dont_save,
            is_locked: self.is_locked,
            is_protected: self.is_protected,
            is_unresolved_address: self.is_unresolved_address,
            is_dispose_when_unlocked: self.is_dispose_when_unlocked,
            locks_count: self.locks_count,
            hash_key: self.hash_key@,
        }
    }
}

/// The node a freshly unpacked symbol gets: the given name and value record,
/// with `is_unresolved_address` set exactly when the value still points at an
/// unread block.
pub open spec fn spec_node_from_symbol(name: Seq<char>, value: ValueRecordModel) -> TableNodeModel {
    TableNodeModel {
        value: value,
        dont_save: false,
        is_locked: false,
        is_protected: false,
        is_unresolved_address: value.is_disk_val,
        is_dispose_when_unlocked: false,
        locks_count: 0,
        hash_key: name,
    }
}

impl TableNode {
    /// An empty node: uninitialized value, no name, every flag clear.
    pub fn new() -> (r: Self)
        ensures
            r@ == (TableNodeModel {
                value: ValueRecordModel {
                    value: ValueModel::Uninitialized,
                    value_type: VALUE_TYPE_UNINITIALIZED,
                    is_tmp_data: false,
                    is_tmp_stack: false,
                    is_formal_val: false,
                    is_disk_val: false,
                },
                dont_save: false,
                is_locked: false,
                is_protected: false,
                is_unresolved_address: false,
                is_dispose_when_unlocked: false,
                locks_count: 0,
                hash_key: Seq::<char>::empty(),
            }),
    {
        Self {
            value: ValueRecord::new(),
            dont_save: false,
            is_locked: false,
            is_protected: false,
            is_unresolved_address: false,
            is_dispose_when_unlocked: false,
            locks_count: 0,
            hash_key: String::new(),
        }
    }

    /// The node for one freshly unpacked symbol.
    pub fn from_symbol(name: String, value: ValueRecord) -> (r: Self)
        ensures
            r@ == spec_node_from_symbol(name@, value@),
    {
        let is_unresolved = value.is_disk_val;
        Self {
            value,
            dont_save: false,
            is_locked: false,
            is_protected: false,
            is_unresolved_address: is_unresolved,
            is_dispose_when_unlocked: false,
            locks_count: 0,
            hash_key: name,
        }
    }
}

} // verus!
