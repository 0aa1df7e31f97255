//! The object store: opens a disk image through the block heap, decodes the
//! store's view block (root table address, window metadata, script string,
//! flags) and loads the root symbol table.

use crate::bytes::{be_u16, be_u32, spec_be_u16, spec_be_u32};
use crate::db::{
    spec_open_file, spec_read_block, spec_read_block_prefix, DBAddress, Database, DbModel,
    NIL_DB_ADDRESS,
};
use crate::odb_error::ODBError;
use crate::store_error::Error;
use crate::string_utils::{read_fixed_string, spec_fixed_decoded};
use crate::table::{
    spec_load_system_table, spec_sorted_keys_of, Table, TableModel,
};
use crate::window_info::{spec_window_info, WindowInfo, WindowInfoModel};
use vstd::prelude::*;

verus! {

/// The view slot that holds the object store's entry block.
pub const ODB_VIEW: usize = 0;

/// Number of window metadata records in the store's view block.
pub const WINDOW_INFO_COUNT: usize = 6;

/// An open object store.
#[derive(Debug)]
pub struct ObjectDB {
    db: Database,
    window_info: Vec<WindowInfo>,
    script_string: String,
    is_flag_disabled: bool,
    is_popup_disabled: bool,
    is_big_window: bool,
    root_table: Option<Table>,
}

/// The mathematical content of an open object store.
pub struct ObjectDBModel {
    pub db: DbModel,
    pub window_info: Seq<WindowInfoModel>,
    pub script_string: Seq<char>,
    pub is_flag_disabled: bool,
    pub is_popup_disabled: bool,
    pub is_big_window: bool,
    pub root_table: Option<TableModel>,
}

impl View for ObjectDB {
    type V = ObjectDBModel;

    closed spec fn view(&self) -> ObjectDBModel {
        ObjectDBModel {
            db: self.db@,
            window_info: self.window_info@.map_values(|w: WindowInfo| w@),
            script_string: self.script_string@,
            is_flag_disabled: self.is_flag_disabled,
            is_popup_disabled: self.is_popup_disabled,
            is_big_window: self.is_big_window,
            root_table: match &self.root_table {
                Some(t) => Some(t@),
                None => None,
            },
        }
    }
}

/// The first `n` of the six 62-byte window records in a view-block payload,
/// starting at byte 6.
pub open spec fn spec_window_infos(buffer: Seq<u8>, n: int) -> Result<Seq<WindowInfoModel>, Error>
    decreases n,
{
    if n <= 0 {
        Ok(Seq::empty())
    } else {
        match spec_window_infos(buffer, n - 1) {
            Err(e) => Err(e),
            Ok(prev) => match spec_window_info(
                buffer.subrange(6 + (n - 1) * 62, 6 + n * 62),
            ) {
                Err(e) => Err(e),
                Ok(w) => Ok(prev.push(w)),
            },
        }
    }
}

/// The script string a view block names: empty for `NIL_DB_ADDRESS`, else the
/// fixed (not length-prefixed) legacy string filling the block's payload.
pub open spec fn spec_script_string(file: Seq<u8>, address: DBAddress) -> Result<Seq<char>, Error> {
    if address == 0 {
        Ok(Seq::empty())
    } else {
        match spec_read_block(file, address) {
            Err(e) => Err(Error::DB(e)),
            Ok(bytes) => Ok(spec_fixed_decoded(bytes)),
        }
    }
}

/// What loading an object store from a disk image yields: the open heap, the
/// decoded view block — whose version word must be 2 or 3 — and the root
/// table, or the exact failure. A view-block payload shorter than its fixed
/// fields fails with `TryFromSlice`.
pub open spec fn spec_load_file(file: Seq<u8>, now: u32) -> Result<ObjectDBModel, Error> {
    match spec_open_file(file, false) {
        Err(e) => Err(Error::DB(e)),
        Ok(db) => {
            let address = db.views[0];
            match spec_read_block_prefix(file, address, 2) {
                Err(e) => Err(Error::DB(e)),
                Ok(two) => {
                    let version_number = spec_be_u16(two, 0);
                    if version_number != 2 && version_number != 3 {
                        Err(Error::ODB(ODBError::BadDatabaseVersion))
                    } else {
                        match spec_read_block(file, address) {
                            Err(e) => Err(Error::DB(e)),
                            Ok(buffer) => if buffer.len() < 384 {
                                Err(Error::TryFromSlice)
                            } else {
                                match spec_window_infos(buffer, 6) {
                                    Err(e) => Err(e),
                                    Ok(windows) => {
                                        let script_string_address = spec_be_u32(
                                            buffer,
                                            378,
                                        ) as u32;
                                        let flags = spec_be_u16(buffer, 382);
                                        match spec_script_string(file, script_string_address) {
                                            Err(e) => Err(e),
                                            Ok(script) => {
                                                let root_table_address = spec_be_u32(
                                                    buffer,
                                                    2,
                                                ) as u32;
                                                match spec_load_system_table(
                                                    file,
                                                    root_table_address,
                                                    now,
                                                ) {
                                                    Err(e) => Err(e),
                                                    Ok(root) => Ok(
                                                        ObjectDBModel {
                                                            db: db,
                                                            window_info: windows,
                                                            script_string: script,
                                                            is_flag_disabled: flags / 0x8000 % 2
                                                                == 1,
                                                            is_popup_disabled: flags / 0x4000 % 2
                                                                == 1,
                                                            is_big_window: flags / 0x2000 % 2 == 1,
                                                            root_table: Some(root),
                                                        },
                                                    ),
                                                }
                                            },
                                        }
                                    },
                                }
                            },
                        }
                    }
                },
            }
        },
    }
}

/// Whether the store `o` is the store `m`, up to the root table's sorted key
/// list, which must be a sorted key list of the root's symbols.
pub open spec fn spec_store_matches(o: ObjectDBModel, m: ObjectDBModel) -> bool {
    &&& o.db == m.db
    &&& o.window_info == m.window_info
    &&& o.script_string == m.script_string
    &&& o.is_flag_disabled == m.is_flag_disabled
    &&& o.is_popup_disabled == m.is_popup_disabled
    &&& o.is_big_window == m.is_big_window
    &&& match (o.root_table, m.root_table) {
        (Some(t), Some(mt)) => t == (TableModel { sorted_keys: t.sorted_keys, ..mt })
            && spec_sorted_keys_of(t.sorted_keys, mt.nodes),
        (None, None) => true,
        _ => false,
    }
}

/// A failure among the first `k` window records decides the whole decode.
proof fn lemma_window_infos_err(buffer: Seq<u8>, k: int, n: int)
    requires
        0 <= k <= n,
        spec_window_infos(buffer, k) is Err,
    ensures
        spec_window_infos(buffer, n) == spec_window_infos(buffer, k),
    decreases n - k,
{
    if k < n {
        lemma_window_infos_err(buffer, k, n - 1);
    }
}

/// Decodes the six 62-byte window records of a view-block payload.
#[verifier::loop_isolation(false)]
fn decode_window_infos(buffer: &[u8]) -> (r: Result<Vec<WindowInfo>, Error>)
    requires
        buffer@.len() >= 384,
    ensures
        match (r, spec_window_infos(buffer@, 6)) {
            (Ok(v), Ok(m)) => v@.map_values(|w: WindowInfo| w@) == m,
            (Err(e), Err(se)) => e == se,
            _ => false,
        },
{
    let mut window_info: Vec<WindowInfo> = Vec::new();
    proof {
        assert(window_info@.map_values(|w: WindowInfo| w@) =~= Seq::<WindowInfoModel>::empty());
    }
    let mut i: usize = 0;
    while i < WINDOW_INFO_COUNT
        invariant
            i <= 6,
            spec_window_infos(buffer@, i as int) == Ok::<Seq<WindowInfoModel>, Error>(
                window_info@.map_values(|w: WindowInfo| w@),
            ),
        decreases 6 - i,
    {
        let w = match WindowInfo::new(&buffer[6 + i * 62..68 + i * 62]) {
            Ok(w) => w,
            Err(e) => {
                proof {
                    lemma_window_infos_err(buffer@, i + 1, 6);
                }
                return Err(e);
            },
        };
        let ghost prev = window_info@;
        window_info.push(w);
        proof {
            assert(window_info@.map_values(|wi: WindowInfo| wi@) =~= prev.map_values(
                |wi: WindowInfo| wi@,
            ).push(w@));
        }
        i += 1;
    }
    Ok(window_info)
}

/// Reads and decodes the script string the view block names, when it names
/// one.
fn load_script_string(db: &mut Database, address: DBAddress) -> (r: Result<String, Error>)
    ensures
        final(db)@ == old(db)@,
        match (r, spec_script_string(old(db)@.file, address)) {
            (Ok(script), Ok(m)) => script@ == m,
            (Err(e), Err(se)) => e == se,
            _ => false,
        },
{
    if address != NIL_DB_ADDRESS {
        let script_block = match db.read_block(address) {
            Ok(b) => b,
            Err(e) => {
                return Err(Error::DB(e));
            },
        };
        Ok(read_fixed_string(script_block.as_slice()))
    } else {
        Ok(String::new())
    }
}

impl ObjectDB {
    /// Opens an object store over a disk image held in memory. `now` is the
    /// current time in seconds since the classic-Mac epoch, used where the
    /// on-disk form predates its own timestamps.
    #[verifier::loop_isolation(false)]
    #[verifier::rlimit(100)]
    pub fn load_file(file: Vec<u8>, now: u32) -> (r: Result<ObjectDB, Error>)
        requires
            file@.len() <= 0xFFFF_FFFF,
        ensures
            match (r, spec_load_file(file@, now)) {
                (Ok(o), Ok(m)) => spec_store_matches(o@, m),
                (Err(e), Err(se)) => e == se,
                _ => false,
            },
    {
        let mut db = match Database::open_file(file, false) {
            Ok(d) => d,
            Err(e) => {
                return Err(Error::DB(e));
            },
        };
        let address = db.get_view(ODB_VIEW);

        let mut two: Vec<u8> = Vec::new();
        match db.read_block_into_buffer(address, 2, &mut two) {
            Ok(()) => {},
            Err(e) => {
                return Err(Error::DB(e));
            },
        }
        let version_number = be_u16(two.as_slice(), 0);

        // version 1 stores are not supported
        if !(version_number == 2 || version_number == 3) {
            return Err(Error::ODB(ODBError::BadDatabaseVersion));
        }

        let buffer = match db.read_block(address) {
            Ok(b) => b,
            Err(e) => {
                return Err(Error::DB(e));
            },
        };
        if buffer.len() < 384 {
            return Err(Error::TryFromSlice);
        }

        let window_info = match decode_window_infos(buffer.as_slice()) {
            Ok(v) => v,
            Err(e) => {
                return Err(e);
            },
        };

        let script_string_address = be_u32(buffer.as_slice(), 378);
        let flags = be_u16(buffer.as_slice(), 382);

        let script_string = match load_script_string(&mut db, script_string_address) {
            Ok(script) => script,
            Err(e) => {
                return Err(e);
            },
        };

        let is_flag_disabled = flags / 0x8000 % 2 == 1;
        let is_popup_disabled = flags / 0x4000 % 2 == 1;
        let is_big_window = flags / 0x2000 % 2 == 1;

        let root_table_address = be_u32(buffer.as_slice(), 2);
        let root = match Table::load_system_table(&mut db, root_table_address, now) {
            Ok(t) => t,
            Err(e) => {
                return Err(e);
            },
        };

        Ok(
            ObjectDB {
                db,
                window_info,
                script_string,
                is_flag_disabled,
                is_popup_disabled,
                is_big_window,
                root_table: Some(root),
            },
        )
    }

    /// The root symbol table.
    pub fn root_table(&self) -> (r: Option<&Table>)
        ensures
            match (r, self@.root_table) {
                (Some(t), Some(m)) => t@ == m,
                (None, None) => true,
                _ => false,
            },
    {
        self.root_table.as_ref()
    }

    /// Resolves a sub-table symbol of the root table through the store's own
    /// heap: loads and sorts the table the symbol's address names.
    pub fn load_root_child_table(&mut self, name: &str, now: u32) -> (r: Result<
        Option<Table>,
        Error,
    >)
        ensures
            final(self)@ == old(self)@,
            match old(self)@.root_table {
                None => r == Ok::<Option<Table>, Error>(None),
                Some(root) => match (
                    r,
                    crate::table::spec_load_child_table(old(self)@.db.file, root, name@, now),
                ) {
                    (Ok(Some(t)), Ok(Some(m))) => t@ == (TableModel {
                        sorted_keys: t@.sorted_keys,
                        ..m
                    }) && spec_sorted_keys_of(t@.sorted_keys, m.nodes),
                    (Ok(None), Ok(None)) => true,
                    (Err(e), Err(se)) => e == se,
                    _ => false,
                },
            },
    {
        match &self.root_table {
            Some(root) => root.load_child_table(&mut self.db, name, now),
            None => Ok(None),
        }
    }

    /// Resolves a string-valued symbol of the root table through the store's
    /// own heap.
    pub fn resolve_root_string(&mut self, name: &str) -> (r: Result<Option<String>, Error>)
        ensures
            final(self)@ == old(self)@,
            match old(self)@.root_table {
                None => r == Ok::<Option<String>, Error>(None),
                Some(root) => match (
                    r,
                    crate::table::spec_resolve_string(old(self)@.db.file, root, name@),
                ) {
                    (Ok(Some(resolved)), Ok(Some(m))) => resolved@ == m,
                    (Ok(None), Ok(None)) => true,
                    (Err(e), Err(se)) => e == se,
                    _ => false,
                },
            },
    {
        match &self.root_table {
            Some(root) => root.resolve_string(&mut self.db, name),
            None => Ok(None),
        }
    }

    /// The decoded script string of the store's view block.
    pub fn script_string(&self) -> (r: &String)
        ensures
            r@ == self@.script_string,
    {
        &self.script_string
    }

    /// Whether the flag menu is disabled.
    pub fn is_flag_disabled(&self) -> (r: bool)
        ensures
            r == self@.is_flag_disabled,
    {
        self.is_flag_disabled
    }

    /// Whether popups are disabled.
    pub fn is_popup_disabled(&self) -> (r: bool)
        ensures
            r == self@.is_popup_disabled,
    {
        self.is_popup_disabled
    }

    /// Whether the store opens in the big window.
    pub fn is_big_window(&self) -> (r: bool)
        ensures
            r == self@.is_big_window,
    {
        self.is_big_window
    }

    /// Number of decoded window metadata records.
    pub fn window_info_count(&self) -> (r: usize)
        ensures
            r == self@.window_info.len(),
    {
        self.window_info.len()
    }

    /// The `index`-th window metadata record.
    pub fn window_info(&self, index: usize) -> (r: &WindowInfo)
        requires
            index < self@.window_info.len(),
        ensures
            r@ == self@.window_info[index as int],
    {
        &self.window_info[index]
    }
}

/// After a successful load, the block at view slot 0 reads back whole and its
/// first two bytes hold a version word of 2 or 3.
pub proof fn lemma_loaded_store_view_version(file: Seq<u8>, now: u32)
    requires
        spec_load_file(file, now) is Ok,
    ensures
        spec_read_block(file, spec_load_file(file, now)->Ok_0.db.views[0]) is Ok,
        spec_read_block(file, spec_load_file(file, now)->Ok_0.db.views[0])->Ok_0.len() >= 2,
        spec_be_u16(spec_read_block(file, spec_load_file(file, now)->Ok_0.db.views[0])->Ok_0, 0)
            == 2 || spec_be_u16(
            spec_read_block(file, spec_load_file(file, now)->Ok_0.db.views[0])->Ok_0,
            0,
        ) == 3,
{
    let db = spec_open_file(file, false)->Ok_0;
    let address = db.views[0];
    let two = spec_read_block_prefix(file, address, 2)->Ok_0;
    let payload = spec_read_block(file, address)->Ok_0;
    assert(payload.len() >= 384);
    assert(two[0] == payload[0] && two[1] == payload[1]);
    assert(spec_be_u16(two, 0) == spec_be_u16(payload, 0));
}

} // verus!
