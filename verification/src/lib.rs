//! Reader for a legacy object-database disk image: a heap of variable-sized
//! blocks addressed by 32-bit byte offsets, with a hierarchical symbol table
//! stored on top of it. The whole image is held in memory as a byte vector;
//! callers read the file from disk and hand the bytes in.

pub mod available_node;
pub mod bytes;
pub mod db;
pub mod db_error;
pub mod error;
pub mod header;
pub mod object_db;
pub mod odb_error;
pub mod store_error;
pub mod string_utils;
pub mod table;
pub mod table_node;
pub mod value_record;
pub mod variable;
pub mod window_info;
