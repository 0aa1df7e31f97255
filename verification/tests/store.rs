use brave_flea::db::Database;
use brave_flea::db_error::DBError;
use brave_flea::odb_error::ODBError;
use brave_flea::object_db::ObjectDB;
use brave_flea::store_error::Error;
use brave_flea::table::Table;
use brave_flea::variable::{Variable, VariableData};
use brave_flea::value_record::{
    Value, VALUE_TYPE_BOOLEAN, VALUE_TYPE_CHAR, VALUE_TYPE_DATE, VALUE_TYPE_DOUBLE,
    VALUE_TYPE_INT, VALUE_TYPE_NONE, VALUE_TYPE_STRING, VALUE_TYPE_TABLE,
};

const NOW: u32 = 3_000_000_000;

struct ImageBuilder {
    bytes: Vec<u8>,
}

impl ImageBuilder {
    fn new() -> Self {
        Self { bytes: vec![0u8; 88] }
    }

    fn set_record(&mut self, version: u8, view0: u32) {
        self.bytes[0] = 0x4d;
        self.bytes[1] = version;
        self.bytes[10..14].copy_from_slice(&view0.to_be_bytes());
    }

    fn add_block(&mut self, payload: &[u8]) -> u32 {
        let addr = self.bytes.len() as u32;
        let size = (payload.len() + 8) as u32;
        self.bytes.extend_from_slice(&size.to_be_bytes());
        self.bytes.extend_from_slice(&8u32.to_be_bytes());
        self.bytes.extend_from_slice(payload);
        addr
    }
}

/// A symbol record for the packed records region.
fn symbol_record(index_key: u32, value_type: u8, data: [u8; 4]) -> Vec<u8> {
    let mut rec = Vec::new();
    rec.extend_from_slice(&index_key.to_be_bytes());
    rec.push(value_type);
    rec.push(0);
    rec.extend_from_slice(&data);
    rec
}

/// A packed-table block payload: the two-part region (records, then name
/// pool) behind its length word, with an empty formats region.
fn packed_table_payload(header: Option<(u16, u16, u32, u32)>, records: &[u8], pool: &[u8]) -> Vec<u8> {
    let mut region = Vec::new();
    if let Some((version, sort_order, created, saved)) = header {
        region.extend_from_slice(&version.to_be_bytes());
        region.extend_from_slice(&sort_order.to_be_bytes());
        region.extend_from_slice(&created.to_be_bytes());
        region.extend_from_slice(&saved.to_be_bytes());
        region.extend_from_slice(&0u32.to_be_bytes());
    }
    region.extend_from_slice(records);

    let mut packed = Vec::new();
    packed.extend_from_slice(&(region.len() as u32).to_be_bytes());
    packed.extend_from_slice(&region);
    packed.extend_from_slice(pool);

    let mut payload = Vec::new();
    payload.extend_from_slice(&(packed.len() as u32).to_be_bytes());
    payload.extend_from_slice(&packed);
    payload
}

/// The object store's view-block payload: version word, root table address,
/// six blank window records, script address and flags.
fn view_payload(odb_version: u16, root: u32, script: u32, flags: u16) -> Vec<u8> {
    let mut payload = vec![0u8; 442];
    payload[0..2].copy_from_slice(&odb_version.to_be_bytes());
    payload[2..6].copy_from_slice(&root.to_be_bytes());
    payload[378..382].copy_from_slice(&script.to_be_bytes());
    payload[382..384].copy_from_slice(&flags.to_be_bytes());
    payload
}

fn int_value(v: i32) -> [u8; 4] {
    v.to_be_bytes()
}

#[test]
fn lib_it_works() {
    assert_eq!(2 + 2, 4);
}

#[test]
fn empty_root_store_opens() {
    let mut b = ImageBuilder::new();
    let view = b.add_block(&view_payload(3, 0, 0, 0));
    b.set_record(6, view);
    let store = ObjectDB::load_file(b.bytes, NOW).unwrap();
    let root = store.root_table().unwrap();
    assert_eq!(root.node_count(), 0);
    assert_eq!(store.script_string().as_str(), "");
    assert!(!store.is_flag_disabled());
    assert!(!store.is_popup_disabled());
    assert!(!store.is_big_window());
    assert_eq!(store.window_info_count(), 6);
}

#[test]
fn root_symbol_with_int_value() {
    let mut b = ImageBuilder::new();
    let pool = [5u8, b'c', b'o', b'u', b'n', b't'];
    let records = symbol_record(0, VALUE_TYPE_INT, int_value(42));
    let table = b.add_block(&packed_table_payload(Some((3, 0, 100, 200)), &records, &pool));
    let view = b.add_block(&view_payload(3, table, 0, 0));
    b.set_record(6, view);
    let store = ObjectDB::load_file(b.bytes, NOW).unwrap();
    let root = store.root_table().unwrap();
    assert_eq!(root.node_count(), 1);
    let node = root.get("count").unwrap();
    match &node.value.value {
        Value::IntValue(v) => assert_eq!(*v, 42),
        other => panic!("expected an int value, got {:?}", other),
    }
    assert_eq!(root.time_created(), 100);
    assert_eq!(root.time_last_saved(), 200);
    assert!(root.get("missing").is_none());
}

#[test]
fn child_table_resolves_lazily() {
    let mut b = ImageBuilder::new();

    // the block holding the string value "hi", length-prefixed
    let hi_block = b.add_block(&[2, b'h', b'i']);

    // the child table: one string symbol "note" pointing at the block
    let child_pool = [4u8, b'n', b'o', b't', b'e'];
    let child_records = symbol_record(0, VALUE_TYPE_STRING, hi_block.to_be_bytes());
    let child_block = b.add_block(&packed_table_payload(
        Some((3, 0, 0, 0)),
        &child_records,
        &child_pool,
    ));

    // the root table: one sub-table symbol "child" pointing at the child
    let root_pool = [5u8, b'c', b'h', b'i', b'l', b'd'];
    let root_records = symbol_record(0, VALUE_TYPE_TABLE, child_block.to_be_bytes());
    let root_block = b.add_block(&packed_table_payload(
        Some((3, 0, 0, 0)),
        &root_records,
        &root_pool,
    ));

    let view = b.add_block(&view_payload(3, root_block, 0, 0));
    b.set_record(6, view);
    let bytes = b.bytes.clone();

    // through the store facade
    let mut store = ObjectDB::load_file(b.bytes, NOW).unwrap();
    let child = store.load_root_child_table("child", NOW).unwrap().unwrap();
    assert_eq!(child.node_count(), 1);

    // through the heap and table layers directly, resolving the string too
    let mut db = Database::open_file(bytes, false).unwrap();
    let root = Table::load_system_table(&mut db, root_block, NOW).unwrap();
    let node = root.get("child").unwrap();
    assert!(node.is_unresolved_address);
    match &node.value.value {
        Value::DiskValue(addr) => assert_eq!(*addr, child_block),
        other => panic!("expected a disk value, got {:?}", other),
    }
    let child = root.load_child_table(&mut db, "child", NOW).unwrap().unwrap();
    let note = child.resolve_string(&mut db, "note").unwrap().unwrap();
    assert_eq!(note, "hi");
}

#[test]
fn legacy_symbol_name_looks_up_by_unicode() {
    let mut b = ImageBuilder::new();
    // "éan": 0x8E is the legacy byte for é
    let pool = [3u8, 0x8E, b'a', b'n'];
    let records = symbol_record(0, VALUE_TYPE_NONE, [0; 4]);
    let table = b.add_block(&packed_table_payload(Some((3, 0, 0, 0)), &records, &pool));
    let view = b.add_block(&view_payload(3, table, 0, 0));
    b.set_record(6, view);
    let store = ObjectDB::load_file(b.bytes, NOW).unwrap();
    let root = store.root_table().unwrap();
    assert!(root.get("éan").is_some());
    assert!(root.get("ean").is_none());
}

#[test]
fn wrong_heap_version_fails_load() {
    let mut b = ImageBuilder::new();
    let view = b.add_block(&view_payload(3, 0, 0, 0));
    b.set_record(0x21, view);
    let err = ObjectDB::load_file(b.bytes, NOW).unwrap_err();
    assert_eq!(
        err,
        Error::DB(brave_flea::error::Error::DB(DBError::WrongVersion))
    );
}

#[test]
fn unsupported_store_version_fails_load() {
    let mut b = ImageBuilder::new();
    let view = b.add_block(&view_payload(1, 0, 0, 0));
    b.set_record(6, view);
    let err = ObjectDB::load_file(b.bytes, NOW).unwrap_err();
    assert_eq!(err, Error::ODB(ODBError::BadDatabaseVersion));
}

#[test]
fn short_view_block_fails_load() {
    let mut b = ImageBuilder::new();
    let view = b.add_block(&[0, 3, 0, 0, 0, 0]);
    b.set_record(6, view);
    let err = ObjectDB::load_file(b.bytes, NOW).unwrap_err();
    assert_eq!(err, Error::TryFromSlice);
}

#[test]
fn store_flags_decode() {
    let mut b = ImageBuilder::new();
    let view = b.add_block(&view_payload(2, 0, 0, 0xE000));
    b.set_record(6, view);
    let store = ObjectDB::load_file(b.bytes, NOW).unwrap();
    assert!(store.is_flag_disabled());
    assert!(store.is_popup_disabled());
    assert!(store.is_big_window());
}

#[test]
fn script_string_decodes_from_its_block() {
    let mut b = ImageBuilder::new();
    // "on déjà" in the legacy codepage: 0x8E is é, 0x88 is à
    let script = b.add_block(&[b'o', b'n', b' ', b'd', 0x8E, b'j', 0x88]);
    let view = b.add_block(&view_payload(3, 0, script, 0));
    b.set_record(6, view);
    let store = ObjectDB::load_file(b.bytes, NOW).unwrap();
    assert_eq!(store.script_string().as_str(), "on déjà");
}

#[test]
fn window_info_decodes_from_view_block() {
    let mut b = ImageBuilder::new();
    let mut payload = view_payload(3, 0, 0, 0);
    // second window record: rectangle, name "Mono", size, hidden
    let base = 6 + 62;
    payload[base..base + 2].copy_from_slice(&1u16.to_be_bytes());
    payload[base + 8] = 4;
    payload[base + 9..base + 13].copy_from_slice(b"Mono");
    payload[base + 44..base + 46].copy_from_slice(&9u16.to_be_bytes());
    payload[base + 52] = 1;
    let view = b.add_block(&payload);
    b.set_record(6, view);
    let store = ObjectDB::load_file(b.bytes, NOW).unwrap();
    let w = store.window_info(1);
    assert_eq!(w.window_rect.top, 1);
    assert_eq!(w.font_string, "Mono");
    assert_eq!(w.font_size, 9);
    assert!(w.is_hidden);
    assert_eq!(store.window_info(0).font_string, "");
}

#[test]
fn sorted_keys_are_lexicographic() {
    let mut b = ImageBuilder::new();
    let mut pool = Vec::new();
    let mut records = Vec::new();
    for name in [b"b", b"a", b"c"] {
        let off = pool.len() as u32;
        pool.push(1u8);
        pool.extend_from_slice(name.as_slice());
        records.extend_from_slice(&symbol_record(off, VALUE_TYPE_NONE, [0; 4]));
    }
    let table = b.add_block(&packed_table_payload(Some((3, 0, 0, 0)), &records, &pool));
    let view = b.add_block(&view_payload(3, table, 0, 0));
    b.set_record(6, view);
    let store = ObjectDB::load_file(b.bytes, NOW).unwrap();
    let root = store.root_table().unwrap();
    assert_eq!(root.sorted_key_count(), 3);
    assert_eq!(root.sorted_key(0).as_str(), "a");
    assert_eq!(root.sorted_key(1).as_str(), "b");
    assert_eq!(root.sorted_key(2).as_str(), "c");
}

#[test]
fn later_record_overrides_earlier_name() {
    let mut b = ImageBuilder::new();
    let pool = [1u8, b'x'];
    let mut records = Vec::new();
    records.extend_from_slice(&symbol_record(0, VALUE_TYPE_INT, int_value(1)));
    records.extend_from_slice(&symbol_record(0, VALUE_TYPE_INT, int_value(2)));
    let table = b.add_block(&packed_table_payload(Some((3, 0, 0, 0)), &records, &pool));
    let view = b.add_block(&view_payload(3, table, 0, 0));
    b.set_record(6, view);
    let store = ObjectDB::load_file(b.bytes, NOW).unwrap();
    let root = store.root_table().unwrap();
    assert_eq!(root.node_count(), 1);
    match &root.get("x").unwrap().value.value {
        Value::IntValue(v) => assert_eq!(*v, 2),
        other => panic!("expected an int value, got {:?}", other),
    }
}

#[test]
fn unused_slots_are_skipped() {
    let mut b = ImageBuilder::new();
    // pool offset 0 holds an empty name; offset 1 holds "k"
    let pool = [0u8, 1, b'k'];
    let mut records = Vec::new();
    records.extend_from_slice(&symbol_record(0, VALUE_TYPE_INT, int_value(9)));
    records.extend_from_slice(&symbol_record(1, VALUE_TYPE_BOOLEAN, [0, 0, 0, 1]));
    let table = b.add_block(&packed_table_payload(Some((3, 0, 0, 0)), &records, &pool));
    let view = b.add_block(&view_payload(3, table, 0, 0));
    b.set_record(6, view);
    let store = ObjectDB::load_file(b.bytes, NOW).unwrap();
    let root = store.root_table().unwrap();
    assert_eq!(root.node_count(), 1);
    match &root.get("k").unwrap().value.value {
        Value::BooleanValue(v) => assert!(*v),
        other => panic!("expected a boolean value, got {:?}", other),
    }
}

#[test]
fn headerless_table_defaults_timestamps_to_now() {
    let mut b = ImageBuilder::new();
    // a version word of zero means the region has no header: it is all
    // 16 bytes of symbol records; build one 10-byte record plus one more
    // 10-byte record so the region parses evenly
    let pool = [1u8, b'p', 1, b'q'];
    let mut records = Vec::new();
    records.extend_from_slice(&symbol_record(0, VALUE_TYPE_NONE, [0; 4]));
    records.extend_from_slice(&symbol_record(2, VALUE_TYPE_NONE, [0; 4]));
    let table = b.add_block(&packed_table_payload(None, &records, &pool));
    let view = b.add_block(&view_payload(3, table, 0, 0));
    b.set_record(6, view);
    let store = ObjectDB::load_file(b.bytes, NOW).unwrap();
    let root = store.root_table().unwrap();
    assert_eq!(root.node_count(), 2);
    assert_eq!(root.time_created(), NOW);
    assert_eq!(root.time_last_saved(), NOW);
}

#[test]
fn inline_value_types_decode() {
    let mut b = ImageBuilder::new();
    let mut pool = Vec::new();
    let mut records = Vec::new();
    let names: [&[u8]; 4] = [b"ch", b"dt", b"db", b"bl"];
    let types = [VALUE_TYPE_CHAR, VALUE_TYPE_DATE, VALUE_TYPE_DOUBLE, VALUE_TYPE_BOOLEAN];
    let data: [[u8; 4]; 4] = [
        [0, 0, 0, 0x8E],
        [0, 0, 0, 60],
        [0x42, 0x28, 0, 0],
        [0, 0, 0, 0],
    ];
    for i in 0..4 {
        let off = pool.len() as u32;
        pool.push(names[i].len() as u8);
        pool.extend_from_slice(names[i]);
        records.extend_from_slice(&symbol_record(off, types[i], data[i]));
    }
    let table = b.add_block(&packed_table_payload(Some((3, 0, 0, 0)), &records, &pool));
    let view = b.add_block(&view_payload(3, table, 0, 0));
    b.set_record(6, view);
    let store = ObjectDB::load_file(b.bytes, NOW).unwrap();
    let root = store.root_table().unwrap();
    match &root.get("ch").unwrap().value.value {
        Value::CharValue(c) => assert_eq!(*c, 'é'),
        other => panic!("expected a char value, got {:?}", other),
    }
    match &root.get("dt").unwrap().value.value {
        Value::DateValue(d) => assert_eq!(*d, 60),
        other => panic!("expected a date value, got {:?}", other),
    }
    match &root.get("db").unwrap().value.value {
        Value::DoubleValue(bits) => {
            // 0x42280000 is the IEEE-754 single-precision encoding of 42.0
            assert_eq!(*bits, 0x4228_0000);
            assert_eq!(f32::from_bits(*bits), 42.0f32);
        },
        other => panic!("expected a double value, got {:?}", other),
    }
    match &root.get("bl").unwrap().value.value {
        Value::BooleanValue(v) => assert!(!*v),
        other => panic!("expected a boolean value, got {:?}", other),
    }
}

#[test]
fn variable_resolves_once_and_remembers_its_origin() {
    let mut b = ImageBuilder::new();
    let pool = [1u8, b'n'];
    let records = symbol_record(0, VALUE_TYPE_INT, int_value(7));
    let table_block = b.add_block(&packed_table_payload(Some((3, 0, 0, 0)), &records, &pool));
    let view = b.add_block(&view_payload(3, 0, 0, 0));
    b.set_record(6, view);
    let mut db = Database::open_file(b.bytes, false).unwrap();

    let mut var = Variable::<Table>::new_on_disk(table_block);
    assert_eq!(var.address(), table_block);
    var.load_from_disk(&mut db, NOW).unwrap();
    assert_eq!(var.address(), table_block);
    match &var.data {
        VariableData::InMemory(v) => {
            assert_eq!(v.old_address(), table_block);
            assert_eq!(v.data.node_count(), 1);
        },
        VariableData::OnDisk(_) => panic!("expected the value to be resident"),
    }
    // resolving again changes nothing
    var.load_from_disk(&mut db, NOW).unwrap();
    match &var.data {
        VariableData::InMemory(v) => assert_eq!(v.data.node_count(), 1),
        VariableData::OnDisk(_) => panic!("expected the value to stay resident"),
    }
}

#[test]
fn resolve_root_string_reads_its_block() {
    let mut b = ImageBuilder::new();
    let text_block = b.add_block(&[5, b'h', b'e', b'l', b'l', b'o']);
    let pool = [1u8, b's'];
    let records = symbol_record(0, VALUE_TYPE_STRING, text_block.to_be_bytes());
    let table = b.add_block(&packed_table_payload(Some((3, 0, 0, 0)), &records, &pool));
    let view = b.add_block(&view_payload(3, table, 0, 0));
    b.set_record(6, view);
    let mut store = ObjectDB::load_file(b.bytes, NOW).unwrap();
    let resolved = store.resolve_root_string("s").unwrap().unwrap();
    assert_eq!(resolved, "hello");
    // a non-string symbol resolves to nothing
    assert_eq!(store.resolve_root_string("missing").unwrap(), None);
}
