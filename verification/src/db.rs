//! The block heap: a byte-addressed container of typed blocks over a disk
//! image held in memory, with the in-memory shadow of the on-disk free list.

use crate::available_node::AvailableNode;
use crate::bytes::{be_u16, be_u32, spec_be_u16, spec_be_u32};
use crate::db_error::DBError;
use crate::error::Error;
use crate::header::{spec_db_header, DBHeader, HEADER_SIZE};
use vstd::prelude::*;

verus! {

/// A byte offset into the disk image. Offset `0` is `NIL_DB_ADDRESS` and is
/// never dereferenceable.
pub type DBAddress = u32;

/// The never-dereferenceable null address.
pub const NIL_DB_ADDRESS: DBAddress = 0;

/// Size in bytes of the fixed record at the start of the file.
pub const DATABASE_RECORD_SIZE: u32 = 88;

/// The database version this reader understands.
pub const DB_VERSION_NUMBER: u8 = 6;

/// First version whose files carry a cached shadow of the avail list.
pub const DB_FIRST_VERSION_WITH_CACHED_SHADOW_AVAIL_LIST: u8 = 6;

/// One remembered free block: where it starts and how many bytes it spans.
#[derive(Debug, Clone, Copy, PartialEq, Eq, Structural)]
pub struct AvailableNodeShadow {
    pub address: DBAddress,
    pub size: u32,
}

/// The mathematical content of an open heap: the image it was opened on and
/// every decoded field of the database record, plus the free-list shadow.
pub struct DbModel {
    pub file: Seq<u8>,
    pub system_id: u8,
    pub version_number: u8,
    pub avail_list: DBAddress,
    pub is_dirty: bool,
    pub views: Seq<DBAddress>,
    pub release_stack: Seq<DBAddress>,
    pub long_version_major: u16,
    pub long_version_minor: u16,
    pub avail_list_block: DBAddress,
    pub avail_list_shadow: Seq<AvailableNodeShadow>,
    pub is_read_only: bool,
}

/// What a seek-then-read of `count` bytes at `address` yields: the bytes, or
/// `Io` when the image ends first. A read of zero bytes always succeeds.
pub open spec fn spec_read(file: Seq<u8>, address: int, count: int) -> Result<Seq<u8>, Error> {
    if count == 0 {
        Ok(Seq::empty())
    } else if 0 <= address && address + count <= file.len() {
        Ok(file.subrange(address, address + count))
    } else {
        Err(Error::Io)
    }
}

/// The block header stored at `address`, when the image holds one there.
pub open spec fn spec_read_header(file: Seq<u8>, address: int) -> Result<DBHeader, Error> {
    match spec_read(file, address, 8) {
        Ok(s) => Ok(spec_db_header(s)),
        Err(e) => Err(e),
    }
}

/// `size - variance` in 32-bit wrapping arithmetic, as the on-disk fields
/// are subtracted.
pub open spec fn spec_payload_size(h: DBHeader) -> int {
    if h.variance <= h.size {
        h.size - h.variance
    } else {
        h.size - h.variance + 0x1_0000_0000
    }
}

/// What reading the block at `address` yields: its `size - variance` payload
/// bytes, or the exact failure. Reading `NIL_DB_ADDRESS` is `InvalidAddress`;
/// reading a block whose free bit is set is `FreeBlock`; running past the end
/// of the image is `Io`.
pub open spec fn spec_read_block(file: Seq<u8>, address: DBAddress) -> Result<Seq<u8>, Error> {
    if address == 0 {
        Err(Error::DB(DBError::InvalidAddress))
    } else {
        match spec_read_header(file, address as int) {
            Err(e) => Err(e),
            Ok(h) => if h.is_free {
                Err(Error::DB(DBError::FreeBlock))
            } else {
                spec_read(file, address + 8, spec_payload_size(h))
            },
        }
    }
}

/// Like `spec_read_block`, but yields only the first `count` payload bytes.
pub open spec fn spec_read_block_prefix(file: Seq<u8>, address: DBAddress, count: u32) -> Result<
    Seq<u8>,
    Error,
> {
    if address == 0 {
        Err(Error::DB(DBError::InvalidAddress))
    } else {
        match spec_read_header(file, address as int) {
            Err(e) => Err(e),
            Ok(h) => if h.is_free {
                Err(Error::DB(DBError::FreeBlock))
            } else {
                spec_read(file, address + 8, count as int)
            },
        }
    }
}

/// The free-list node at `address`: its header plus the forward link stored
/// in the first four payload bytes.
pub open spec fn spec_read_available_node(file: Seq<u8>, address: DBAddress) -> Result<
    AvailableNode,
    Error,
> {
    match spec_read_header(file, address as int) {
        Err(e) => Err(e),
        Ok(h) => match spec_read(file, address + 8, 4) {
            Err(e) => Err(e),
            Ok(b) => Ok(
                AvailableNode {
                    is_free: h.is_free,
                    size: h.size,
                    next_node: spec_be_u32(b, 0) as u32,
                },
            ),
        },
    }
}

/// The pair serialized at slot `i` of a cached-shadow block.
pub open spec fn spec_shadow_entry(buf: Seq<u8>, i: int) -> AvailableNodeShadow
    recommends
        0 <= i,
        i * 8 + 8 <= buf.len(),
{
    AvailableNodeShadow {
        address: spec_be_u32(buf, i * 8) as u32,
        size: spec_be_u32(buf, i * 8 + 4) as u32,
    }
}

/// The first `n` slots of a cached-shadow block, with `NIL_DB_ADDRESS`
/// padding entries dropped.
pub open spec fn spec_shadow_entries_prefix(buf: Seq<u8>, n: int) -> Seq<AvailableNodeShadow>
    decreases n,
{
    if n <= 0 {
        Seq::empty()
    } else if spec_shadow_entry(buf, n - 1).address != 0 {
        spec_shadow_entries_prefix(buf, n - 1).push(spec_shadow_entry(buf, n - 1))
    } else {
        spec_shadow_entries_prefix(buf, n - 1)
    }
}

/// The `{address, size}` pairs serialized in a cached-shadow block, with
/// `NIL_DB_ADDRESS` padding entries dropped.
pub open spec fn spec_shadow_entries(buf: Seq<u8>) -> Seq<AvailableNodeShadow> {
    spec_shadow_entries_prefix(buf, buf.len() as int / 8)
}

/// Whether some entry of `s` already remembers `address`.
pub open spec fn spec_shadow_contains(s: Seq<AvailableNodeShadow>, address: DBAddress) -> bool {
    exists|i: int| 0 <= i < s.len() && s[i].address == address
}

/// What reading the cached shadow block yields: its entries, when the block
/// reads back nonempty, its first entry names the head of the in-file chain,
/// and that head is a free block that ends within the image; the exact
/// failure otherwise.
pub open spec fn spec_read_shadow_avail_list(
    file: Seq<u8>,
    avail_list_block: DBAddress,
    avail_list: DBAddress,
) -> Result<Seq<AvailableNodeShadow>, Error> {
    match spec_read_block(file, avail_list_block) {
        Err(e) => Err(e),
        Ok(buf) => {
            let entries = spec_shadow_entries(buf);
            if entries.len() == 0 {
                Err(Error::DB(DBError::InconsistentAvailList))
            } else if entries[0].address != avail_list {
                Err(Error::DB(DBError::InconsistentAvailList))
            } else {
                match spec_read_available_node(file, entries[0].address) {
                    Err(e) => Err(e),
                    Ok(node) => if !node.is_free || entries[0].address + node.size > file.len() {
                        Err(Error::DB(DBError::InconsistentAvailList))
                    } else {
                        Ok(entries)
                    },
                }
            }
        },
    }
}

/// What walking the in-file free chain from `cursor` yields, with `acc` the
/// blocks already walked: the full list of `{address, size}` pairs, or
/// `FreeList` when the chain revisits a block (a cycle), reaches a block
/// whose free bit is clear, or reaches one that runs past the end of the
/// image.
pub open spec fn spec_walk_avail_chain(
    file: Seq<u8>,
    cursor: DBAddress,
    acc: Seq<AvailableNodeShadow>,
) -> Result<Seq<AvailableNodeShadow>, Error>
    decreases 0x1_0000_0000 - acc.len(),
{
    if cursor == 0 {
        Ok(acc)
    } else if acc.len() >= 0x1_0000_0000 {
        // more entries than there are distinct addresses: unreachable
        Err(Error::DB(DBError::FreeList))
    } else if spec_shadow_contains(acc, cursor) {
        Err(Error::DB(DBError::FreeList))
    } else {
        match spec_read_available_node(file, cursor) {
            Err(e) => Err(e),
            Ok(node) => if !node.is_free || cursor + node.size > file.len() {
                Err(Error::DB(DBError::FreeList))
            } else {
                spec_walk_avail_chain(
                    file,
                    node.next_node,
                    acc.push(AvailableNodeShadow { address: cursor, size: node.size }),
                )
            },
        }
    }
}

/// What rebuilding the free-list shadow yields: the cached shadow when the
/// record points at one, else the walked in-file chain.
pub open spec fn spec_shadow_avail_list(
    file: Seq<u8>,
    avail_list: DBAddress,
    avail_list_block: DBAddress,
) -> Result<Seq<AvailableNodeShadow>, Error> {
    if avail_list_block != 0 {
        spec_read_shadow_avail_list(file, avail_list_block, avail_list)
    } else {
        spec_walk_avail_chain(file, avail_list, Seq::empty())
    }
}

/// What opening an image yields: every decoded field of the database record
/// and the rebuilt free-list shadow, or the exact failure. A version byte
/// with a nonzero major nibble is `WrongVersion`; a matching major with a
/// differing minor is upgraded in memory (version forced to
/// `DB_VERSION_NUMBER`, dirty flag set, and for versions that predate the
/// cached shadow, the cached-shadow address discarded).
pub open spec fn spec_open_file(file: Seq<u8>, read_only: bool) -> Result<DbModel, Error> {
    match spec_read(file, 0, 88) {
        Err(e) => Err(e),
        Ok(buf) => {
            let version_number = buf[1];
            if version_number != 6 && version_number / 16 != 0 {
                Err(Error::DB(DBError::WrongVersion))
            } else {
                let avail_list = spec_be_u32(buf, 2) as u32;
                let avail_list_block_raw = spec_be_u32(buf, 38) as u32;
                let upgraded = version_number != 6;
                let avail_list_block = if upgraded && version_number < 6 {
                    0u32
                } else {
                    avail_list_block_raw
                };
                match spec_shadow_avail_list(file, avail_list, avail_list_block) {
                    Err(e) => Err(e),
                    Ok(shadow) => Ok(
                        DbModel {
                            file: file,
                            system_id: buf[0],
                            version_number: if upgraded {
                                6u8
                            } else {
                                version_number
                            },
                            avail_list: avail_list,
                            is_dirty: upgraded || spec_be_u16(buf, 8) % 2 == 1,
                            views: seq![
                                spec_be_u32(buf, 10) as u32,
                                spec_be_u32(buf, 14) as u32,
                                spec_be_u32(buf, 18) as u32,
                            ],
                            release_stack: Seq::empty(),
                            long_version_major: spec_be_u16(buf, 34) as u16,
                            long_version_minor: spec_be_u16(buf, 36) as u16,
                            avail_list_block: avail_list_block,
                            avail_list_shadow: shadow,
                            is_read_only: read_only,
                        },
                    ),
                }
            }
        },
    }
}

/// An open block heap. All reads go through the logical cursor it keeps over
/// the in-memory image.
#[derive(Debug)]
pub struct Database {
    system_id: u8,
    version_number: u8,
    avail_list: DBAddress,
    is_dirty: bool,
    views: Vec<DBAddress>,
    release_stack: Vec<DBAddress>,
    file: Vec<u8>,
    pos: u64,
    long_version_major: u16,
    long_version_minor: u16,
    avail_list_block: DBAddress,
    avail_list_shadow: Vec<AvailableNodeShadow>,
    is_read_only: bool,
}

impl View for Database {
    type V = DbModel;

    closed spec fn view(&self) -> DbModel {
        DbModel {
            file: self.file@,
            system_id: self.system_id,
            version_number: self.version_number,
            avail_list: self.avail_list,
            is_dirty: self.is_dirty,
            views: self.views@,
            release_stack: self.release_stack@,
            long_version_major: self.long_version_major,
            long_version_minor: self.long_version_minor,
            avail_list_block: self.avail_list_block,
            avail_list_shadow: self.avail_list_shadow@,
            is_read_only: self.is_read_only,
        }
    }
}

/// Copies `count` bytes of `file` starting at `start` into a fresh vector.
fn copy_range(file: &Vec<u8>, start: usize, count: usize) -> (out: Vec<u8>)
    requires
        start + count <= file@.len(),
    ensures
        out@ == file@.subrange(start as int, start as int + count as int),
{
    let n: usize = file.len();
    let mut out: Vec<u8> = Vec::new();
    let mut k: usize = 0;
    while k < count
        invariant
            start + count <= n,
            n == file@.len(),
            k <= count,
            out@ =~= file@.subrange(start as int, start as int + k as int),
        decreases count - k,
    {
        out.push(file[start + k]);
        k += 1;
    }
    proof {
        assert(out@ =~= file@.subrange(start as int, start as int + count as int));
    }
    out
}

impl Database {
    #[verifier::type_invariant]
    spec fn wf(&self) -> bool {
        self.file@.len() <= 0xFFFF_FFFF && self.views@.len() == 3
    }

    /// Number of addressable bytes in the image. Leaves the logical cursor
    /// where it was, so a read after this call sees exactly what it would
    /// have seen before.
    pub fn get_eof(&mut self) -> (r: DBAddress)
        ensures
            *final(self) == *old(self),
            r == old(self)@.file.len(),
    {
        proof {
            use_type_invariant(&*self);
        }
        // the in-memory image knows its length without seeking, so the
        // logical cursor is left untouched
        self.file.len() as u32
    }

    /// The address stored in view slot `index` of the database record.
    pub fn get_view(&self, index: usize) -> (r: DBAddress)
        requires
            index < 3,
        ensures
            r == self@.views[index as int],
    {
        proof {
            use_type_invariant(&*self);
        }
        self.views[index]
    }

    /// Moves the logical cursor to `address`.
    fn seek(&mut self, address: DBAddress)
        ensures
            final(self)@ == old(self)@,
            final(self).pos == address as u64,
    {
        proof {
            use_type_invariant(&*self);
        }
        self.pos = address as u64;
    }

    /// Seeks to `address` and reads exactly `byte_count` bytes, failing with
    /// `Io` when the image ends first.
    fn read(&mut self, address: DBAddress, byte_count: u32) -> (r: Result<Vec<u8>, Error>)
        ensures
            final(self)@ == old(self)@,
            match (r, spec_read(old(self)@.file, address as int, byte_count as int)) {
                (Ok(v), Ok(s)) => v@ == s,
                (Err(e), Err(se)) => e == se,
                _ => false,
            },
    {
        self.seek(address);
        self.read_at(address as u64, byte_count)
    }

    /// Reads and decodes the block header at `address`.
    fn read_header(&mut self, address: DBAddress) -> (r: Result<DBHeader, Error>)
        ensures
            final(self)@ == old(self)@,
            r == spec_read_header(old(self)@.file, address as int),
    {
        let buffer = match self.read(address, HEADER_SIZE) {
            Ok(b) => b,
            Err(e) => {
                return Err(e);
            },
        };
        DBHeader::new(buffer.as_slice())
    }

    /// Reads the free-list node at `address`: header plus forward link.
    fn read_available_node(&mut self, address: DBAddress) -> (r: Result<AvailableNode, Error>)
        ensures
            final(self)@ == old(self)@,
            r == spec_read_available_node(old(self)@.file, address),
    {
        let header = match self.read_header(address) {
            Ok(h) => h,
            Err(e) => {
                return Err(e);
            },
        };
        proof {
            use_type_invariant(&*self);
        }
        let link_address: u64 = address as u64 + HEADER_SIZE as u64;
        let buffer = match self.read_at(link_address, 4) {
            Ok(b) => b,
            Err(e) => {
                return Err(e);
            },
        };
        let next_node = be_u32(buffer.as_slice(), 0);
        Ok(AvailableNode { is_free: header.is_free, size: header.size, next_node })
    }

    /// Seeks to a 64-bit offset and reads exactly `byte_count` bytes; the
    /// offset may lie one block header past the last 32-bit address.
    fn read_at(&mut self, address: u64, byte_count: u32) -> (r: Result<Vec<u8>, Error>)
        ensures
            final(self)@ == old(self)@,
            match (r, spec_read(old(self)@.file, address as int, byte_count as int)) {
                (Ok(v), Ok(s)) => v@ == s,
                (Err(e), Err(se)) => e == se,
                _ => false,
            },
    {
        proof {
            use_type_invariant(&*self);
        }
        self.pos = address;
        if byte_count == 0 {
            return Ok(Vec::new());
        }
        if address > 0xFFFF_FFFFu64 || address + byte_count as u64 > self.file.len() as u64 {
            return Err(Error::Io);
        }
        let out = copy_range(&self.file, address as usize, byte_count as usize);
        self.pos = address + byte_count as u64;
        Ok(out)
    }

    /// Reads the payload of the live block at `address`: the `size -
    /// variance` bytes that follow its header.
    pub fn read_block(&mut self, address: DBAddress) -> (r: Result<Vec<u8>, Error>)
        ensures
            final(self)@ == old(self)@,
            match (r, spec_read_block(old(self)@.file, address)) {
                (Ok(v), Ok(s)) => v@ == s,
                (Err(e), Err(se)) => e == se,
                _ => false,
            },
    {
        if address == NIL_DB_ADDRESS {
            return Err(Error::DB(DBError::InvalidAddress));
        }
        let header = match self.read_header(address) {
            Ok(h) => h,
            Err(e) => {
                return Err(e);
            },
        };
        let block_size: u32 = if header.variance <= header.size {
            header.size - header.variance
        } else {
            // wrapping subtraction, as the on-disk fields are combined
            header.size + (0xFFFF_FFFFu32 - header.variance) + 1
        };
        if header.is_free {
            return Err(Error::DB(DBError::FreeBlock));
        }
        let payload_address: u64 = address as u64 + HEADER_SIZE as u64;
        self.read_at(payload_address, block_size)
    }

    /// Reads the first `byte_count` payload bytes of the live block at
    /// `address` into `buffer`, replacing its contents.
    pub fn read_block_into_buffer(
        &mut self,
        address: DBAddress,
        byte_count: u32,
        buffer: &mut Vec<u8>,
    ) -> (r: Result<(), Error>)
        ensures
            final(self)@ == old(self)@,
            match (r, spec_read_block_prefix(old(self)@.file, address, byte_count)) {
                (Ok(()), Ok(s)) => final(buffer)@ == s,
                (Err(e), Err(se)) => e == se && final(buffer)@ == old(buffer)@,
                _ => false,
            },
    {
        if address == NIL_DB_ADDRESS {
            return Err(Error::DB(DBError::InvalidAddress));
        }
        let header = match self.read_header(address) {
            Ok(h) => h,
            Err(e) => {
                return Err(e);
            },
        };
        if header.is_free {
            return Err(Error::DB(DBError::FreeBlock));
        }
        let payload_address: u64 = address as u64 + HEADER_SIZE as u64;
        match self.read_at(payload_address, byte_count) {
            Ok(v) => {
                *buffer = v;
                Ok(())
            },
            Err(e) => Err(e),
        }
    }

    /// The head of the in-file free chain, as the database record stores it.
    pub fn avail_list(&self) -> (r: DBAddress)
        ensures
            r == self@.avail_list,
    {
        self.avail_list
    }

    /// The address of the cached-shadow block, or `NIL_DB_ADDRESS`.
    pub fn avail_list_block(&self) -> (r: DBAddress)
        ensures
            r == self@.avail_list_block,
    {
        self.avail_list_block
    }

    /// The in-memory version byte, upgraded on open when the image carried a
    /// compatible older minor version.
    pub fn version_number(&self) -> (r: u8)
        ensures
            r == self@.version_number,
    {
        self.version_number
    }

    /// Whether the heap has unsaved state (including an in-memory version
    /// upgrade).
    pub fn is_dirty(&self) -> (r: bool)
        ensures
            r == self@.is_dirty,
    {
        self.is_dirty
    }

    /// The image's system byte.
    pub fn system_id(&self) -> (r: u8)
        ensures
            r == self@.system_id,
    {
        self.system_id
    }

    /// Number of entries in the free-list shadow.
    pub fn avail_list_shadow_len(&self) -> (r: usize)
        ensures
            r == self@.avail_list_shadow.len(),
    {
        self.avail_list_shadow.len()
    }

    /// The `index`-th entry of the free-list shadow.
    pub fn avail_list_shadow_entry(&self, index: usize) -> (r: AvailableNodeShadow)
        requires
            index < self@.avail_list_shadow.len(),
        ensures
            r == self@.avail_list_shadow[index as int],
    {
        self.avail_list_shadow[index]
    }

    /// The long version words of the database record.
    pub fn long_version(&self) -> (r: (u16, u16))
        ensures
            r.0 == self@.long_version_major,
            r.1 == self@.long_version_minor,
    {
        (self.long_version_major, self.long_version_minor)
    }

    /// Whether the heap was opened read-only.
    pub fn is_read_only(&self) -> (r: bool)
        ensures
            r == self@.is_read_only,
    {
        self.is_read_only
    }

    /// Whether the shadow already remembers `address`.
    fn shadow_contains(shadow: &Vec<AvailableNodeShadow>, address: DBAddress) -> (r: bool)
        ensures
            r == spec_shadow_contains(shadow@, address),
    {
        let n = shadow.len();
        let mut i: usize = 0;
        while i < n
            invariant
                i <= n,
                n == shadow@.len(),
                forall|j: int| 0 <= j < i ==> shadow@[j].address != address,
            decreases n - i,
        {
            if shadow[i].address == address {
                return true;
            }
            i += 1;
        }
        false
    }

    /// Reads the cached shadow from the block the database record points at.
    /// Returns `Ok(false)` when the record holds no cached-shadow address;
    /// `Ok(true)` when the cache was read and found consistent with the head
    /// of the in-file chain; clears the shadow and fails otherwise.
    #[verifier::loop_isolation(false)]
    fn read_shadow_avail_list(&mut self) -> (r: Result<bool, Error>)
        ensures
            final(self)@ == (DbModel {
                avail_list_shadow: final(self)@.avail_list_shadow,
                ..old(self)@
            }),
            old(self)@.avail_list_block == 0 ==> r == Ok::<bool, Error>(false)
                && final(self)@.avail_list_shadow == Seq::<AvailableNodeShadow>::empty(),
            old(self)@.avail_list_block != 0 ==> match (
                r,
                spec_read_shadow_avail_list(
                    old(self)@.file,
                    old(self)@.avail_list_block,
                    old(self)@.avail_list,
                ),
            ) {
                (Ok(b), Ok(entries)) => b && final(self)@.avail_list_shadow == entries,
                (Err(e), Err(se)) => e == se && final(self)@.avail_list_shadow
                    == Seq::<AvailableNodeShadow>::empty(),
                _ => false,
            },
    {
        proof {
            use_type_invariant(&*self);
        }
        self.avail_list_shadow = Vec::new();
        let db_eof = self.get_eof();

        if self.avail_list_block == NIL_DB_ADDRESS {
            // there is no cached shadow avail list
            return Ok(false);
        }

        let buffer = match self.read_block(self.avail_list_block) {
            Ok(b) => b,
            Err(e) => {
                return Err(e);
            },
        };
        let buffer_len = buffer.len();
        let avail_shadow_count = buffer_len / 8;

        let mut entries: Vec<AvailableNodeShadow> = Vec::new();
        let mut i: usize = 0;
        while i < avail_shadow_count
            invariant
                i <= avail_shadow_count,
                buffer_len == buffer@.len(),
                avail_shadow_count == buffer_len / 8,
                entries@ == spec_shadow_entries_prefix(buffer@, i as int),
            decreases avail_shadow_count - i,
        {
            let address = be_u32(buffer.as_slice(), i * 8);
            let size = be_u32(buffer.as_slice(), i * 8 + 4);
            if address != NIL_DB_ADDRESS {
                entries.push(AvailableNodeShadow { address, size });
            }
            i += 1;
        }
        proof {
            assert(entries@ == spec_shadow_entries(buffer@));
        }

        if entries.len() == 0 {
            return Err(Error::DB(DBError::InconsistentAvailList));
        }

        // test consistency of the cached shadow avail list
        let first_address = entries[0].address;
        if first_address != self.avail_list {
            return Err(Error::DB(DBError::InconsistentAvailList));
        }

        let first_node = match self.read_available_node(first_address) {
            Ok(n) => n,
            Err(e) => {
                return Err(e);
            },
        };
        if !first_node.is_free || first_address as u64 + first_node.size as u64 > db_eof as u64 {
            return Err(Error::DB(DBError::InconsistentAvailList));
        }

        self.avail_list_shadow = entries;
        Ok(true)
    }

    /// Rebuilds the free-list shadow: takes the cached shadow when the record
    /// points at one, else walks the in-file chain, failing with `FreeList`
    /// on a cycle, a live block in the chain, or a block past the end of the
    /// image. On failure the shadow is left empty.
    #[verifier::loop_isolation(false)]
    #[verifier::rlimit(30)]
    fn shadow_avail_list(&mut self) -> (r: Result<(), Error>)
        ensures
            final(self)@ == (DbModel {
                avail_list_shadow: final(self)@.avail_list_shadow,
                ..old(self)@
            }),
            match (
                r,
                spec_shadow_avail_list(
                    old(self)@.file,
                    old(self)@.avail_list,
                    old(self)@.avail_list_block,
                ),
            ) {
                (Ok(()), Ok(entries)) => final(self)@.avail_list_shadow == entries,
                (Err(e), Err(se)) => e == se && final(self)@.avail_list_shadow
                    == Seq::<AvailableNodeShadow>::empty(),
                _ => false,
            },
    {
        if self.avail_list_block != NIL_DB_ADDRESS {
            return match self.read_shadow_avail_list() {
                Ok(_) => Ok(()),
                Err(e) => Err(e),
            };
        }

        proof {
            use_type_invariant(&*self);
        }
        let db_eof = self.get_eof();
        self.avail_list_shadow = Vec::new();

        let ghost file0 = self@.file;
        let ghost head0 = self@.avail_list;
        let ghost m0 = self@;

        let mut shadow: Vec<AvailableNodeShadow> = Vec::new();
        let mut next_avail_adr = self.avail_list;

        while next_avail_adr != NIL_DB_ADDRESS
            invariant
                self@ == m0,
                file0 == m0.file,
                head0 == m0.avail_list,
                db_eof == file0.len(),
                forall|i: int, j: int|
                    0 <= i < j < shadow@.len() ==> shadow@[i].address != shadow@[j].address,
                forall|i: int|
                    0 <= i < shadow@.len() ==> 1 <= #[trigger] shadow@[i].address <= file0.len(),
                spec_walk_avail_chain(file0, next_avail_adr, shadow@) == spec_walk_avail_chain(
                    file0,
                    head0,
                    Seq::empty(),
                ),
            decreases file0.len() + 1 - shadow@.len(),
        {
            proof {
                lemma_distinct_shadow_len_bound(shadow@, file0.len() as int);
            }
            if Self::shadow_contains(&shadow, next_avail_adr) {
                return Err(Error::DB(DBError::FreeList));
            }
            let next_avail_node = match self.read_available_node(next_avail_adr) {
                Ok(n) => n,
                Err(e) => {
                    return Err(e);
                },
            };
            if !next_avail_node.is_free || next_avail_adr as u64 + next_avail_node.size as u64
                > db_eof as u64 {
                return Err(Error::DB(DBError::FreeList));
            }

            shadow.push(
                AvailableNodeShadow { address: next_avail_adr, size: next_avail_node.size },
            );
            proof {
                lemma_distinct_shadow_len_bound(shadow@, file0.len() as int);
            }

            next_avail_adr = next_avail_node.next_node;
        }

        self.avail_list_shadow = shadow;
        Ok(())
    }

    /// Opens a disk image: decodes the 88-byte database record, validates the
    /// version byte (upgrading a compatible older minor in memory), and
    /// rebuilds the free-list shadow. Yields exactly what `spec_open_file`
    /// states, with no partial heap observable on failure.
    pub fn open_file(file: Vec<u8>, read_only: bool) -> (r: Result<Database, Error>)
        requires
            file@.len() <= 0xFFFF_FFFF,
        ensures
            match (r, spec_open_file(file@, read_only)) {
                (Ok(db), Ok(m)) => db@ == m,
                (Err(e), Err(se)) => e == se,
                _ => false,
            },
    {
        let ghost file0 = file@;
        let mut views: Vec<DBAddress> = Vec::new();
        views.push(0);
        views.push(0);
        views.push(0);
        let mut db = Self {
            system_id: 0,
            version_number: 0,
            avail_list: 0,
            is_dirty: false,
            views,
            release_stack: Vec::new(),
            file,
            pos: 0,
            long_version_major: 0,
            long_version_minor: 0,
            avail_list_block: 0,
            avail_list_shadow: Vec::new(),
            is_read_only: read_only,
        };

        let buffer = match db.read(0, DATABASE_RECORD_SIZE) {
            Ok(b) => b,
            Err(e) => {
                return Err(e);
            },
        };
        let record = buffer.as_slice();

        db.system_id = record[0];
        db.version_number = record[1];
        db.avail_list = be_u32(record, 2);

        // bytes 6..8 are a legacy field; bytes 8..10 hold the flag word
        let flags = be_u16(record, 8);
        db.is_dirty = flags % 2 == 1;

        let mut views: Vec<DBAddress> = Vec::new();
        views.push(be_u32(record, 10));
        views.push(be_u32(record, 14));
        views.push(be_u32(record, 18));
        db.views = views;

        // bytes 22..34 are legacy fields
        db.long_version_major = be_u16(record, 34);
        db.long_version_minor = be_u16(record, 36);
        db.avail_list_block = be_u32(record, 38);

        // bytes 42..88 are legacy fields and growth space

        if db.version_number != DB_VERSION_NUMBER {
            if db.version_number / 16 != DB_VERSION_NUMBER / 16 {
                return Err(Error::DB(DBError::WrongVersion));
            }

            if db.version_number < DB_FIRST_VERSION_WITH_CACHED_SHADOW_AVAIL_LIST {
                db.avail_list_block = NIL_DB_ADDRESS;
            }

            db.version_number = DB_VERSION_NUMBER;
            db.is_dirty = true;
        }

        match db.shadow_avail_list() {
            Ok(()) => {},
            Err(e) => {
                return Err(e);
            },
        }

        proof {
            let m = spec_open_file(file0, read_only);
            assert(m is Ok);
            let model = m->Ok_0;
            assert(db@.views =~= model.views);
            assert(db@.release_stack =~= model.release_stack);
            assert(db@ == model);
        }
        Ok(db)
    }
}

/// Whether the shadow entry `e` names a block of the image whose header has
/// the free bit set and which ends within the image.
pub open spec fn spec_shadow_entry_free(file: Seq<u8>, e: AvailableNodeShadow) -> bool {
    &&& spec_read_header(file, e.address as int) is Ok
    &&& spec_read_header(file, e.address as int)->Ok_0.is_free
    &&& e.address + e.size <= file.len()
}

/// Every entry a cached-shadow block parses to has a nonzero address: the
/// zero-address slots are padding and are dropped.
pub proof fn lemma_shadow_entries_nonzero(buf: Seq<u8>, n: int)
    ensures
        forall|i: int|
            0 <= i < spec_shadow_entries_prefix(buf, n).len() ==> #[trigger] spec_shadow_entries_prefix(
                buf,
                n,
            )[i].address != 0,
    decreases n,
{
    if n > 0 {
        lemma_shadow_entries_nonzero(buf, n - 1);
        let p1 = spec_shadow_entries_prefix(buf, n - 1);
        let p = spec_shadow_entries_prefix(buf, n);
        assert forall|i: int| 0 <= i < p.len() implies #[trigger] p[i].address != 0 by {
            if i < p1.len() {
                assert(p[i] == p1[i]);
            }
        }
    }
}

/// A successful walk of the in-file chain extends what was already walked; a
/// walk from the head of the chain starts with the head, and a walk from the
/// end of the chain adds nothing.
pub proof fn lemma_walk_extends(file: Seq<u8>, cursor: DBAddress, acc: Seq<AvailableNodeShadow>)
    requires
        spec_walk_avail_chain(file, cursor, acc) is Ok,
    ensures
        acc.is_prefix_of(spec_walk_avail_chain(file, cursor, acc)->Ok_0),
        cursor == 0 ==> spec_walk_avail_chain(file, cursor, acc)->Ok_0 == acc,
        cursor != 0 ==> spec_walk_avail_chain(file, cursor, acc)->Ok_0.len() > acc.len()
            && spec_walk_avail_chain(file, cursor, acc)->Ok_0[acc.len() as int].address == cursor,
    decreases 0x1_0000_0000 - acc.len(),
{
    if cursor != 0 {
        let node = spec_read_available_node(file, cursor)->Ok_0;
        let acc2 = acc.push(AvailableNodeShadow { address: cursor, size: node.size });
        lemma_walk_extends(file, node.next_node, acc2);
        assert(acc.is_prefix_of(acc2));
        let res = spec_walk_avail_chain(file, cursor, acc)->Ok_0;
        assert(acc2.is_prefix_of(res));
        assert(acc =~= res.subrange(0, acc.len() as int));
        assert(res[acc.len() as int] == acc2.subrange(0, acc2.len() as int)[acc.len() as int]);
        assert(res[acc.len() as int].address == cursor);
    }
}

/// Every block a successful walk records is free and ends within the image.
pub proof fn lemma_walk_entries_free(file: Seq<u8>, cursor: DBAddress, acc: Seq<AvailableNodeShadow>)
    requires
        spec_walk_avail_chain(file, cursor, acc) is Ok,
        forall|i: int|
            0 <= i < acc.len() ==> spec_shadow_entry_free(file, #[trigger] acc[i]),
    ensures
        forall|i: int|
            0 <= i < spec_walk_avail_chain(file, cursor, acc)->Ok_0.len()
                ==> spec_shadow_entry_free(
                file,
                #[trigger] spec_walk_avail_chain(file, cursor, acc)->Ok_0[i],
            ),
    decreases 0x1_0000_0000 - acc.len(),
{
    if cursor != 0 {
        let node = spec_read_available_node(file, cursor)->Ok_0;
        let entry = AvailableNodeShadow { address: cursor, size: node.size };
        assert(spec_shadow_entry_free(file, entry));
        lemma_walk_entries_free(file, node.next_node, acc.push(entry));
    }
}

/// After a successful open the shadow is nonempty exactly when the in-file
/// chain has a head, and its first entry names that head — the in-file
/// `avail_list_head` of the database record.
pub proof fn lemma_open_shadow_head(file: Seq<u8>, read_only: bool)
    requires
        spec_open_file(file, read_only) is Ok,
    ensures
        spec_open_file(file, read_only)->Ok_0.avail_list_shadow.len() > 0 <==> spec_open_file(
            file,
            read_only,
        )->Ok_0.avail_list != 0,
        spec_open_file(file, read_only)->Ok_0.avail_list_shadow.len() > 0 ==> spec_open_file(
            file,
            read_only,
        )->Ok_0.avail_list_shadow[0].address == spec_open_file(file, read_only)->Ok_0.avail_list,
{
    let m = spec_open_file(file, read_only)->Ok_0;
    if m.avail_list_block != 0 {
        let buf = spec_read_block(file, m.avail_list_block)->Ok_0;
        lemma_shadow_entries_nonzero(buf, buf.len() as int / 8);
    } else {
        lemma_walk_extends(file, m.avail_list, Seq::empty());
    }
}

/// After a successful open every entry of the free-list shadow refers to a
/// block whose header has the free bit set and which ends within the image.
/// When the shadow was rebuilt by walking the in-file chain this is owed
/// outright; when it was taken from a cached-shadow block it holds for images
/// whose cache satisfies that invariant, which is the hypothesis here.
pub proof fn lemma_open_shadow_entries_free(file: Seq<u8>, read_only: bool)
    requires
        spec_open_file(file, read_only) is Ok,
        spec_open_file(file, read_only)->Ok_0.avail_list_block != 0 ==> forall|i: int|
            0 <= i < spec_open_file(file, read_only)->Ok_0.avail_list_shadow.len()
                ==> spec_shadow_entry_free(
                file,
                #[trigger] spec_open_file(file, read_only)->Ok_0.avail_list_shadow[i],
            ),
    ensures
        forall|i: int|
            0 <= i < spec_open_file(file, read_only)->Ok_0.avail_list_shadow.len()
                ==> spec_shadow_entry_free(
                file,
                #[trigger] spec_open_file(file, read_only)->Ok_0.avail_list_shadow[i],
            ),
{
    let m = spec_open_file(file, read_only)->Ok_0;
    if m.avail_list_block == 0 {
        lemma_walk_entries_free(file, m.avail_list, Seq::empty());
    }
}

/// Reading the block at `NIL_DB_ADDRESS` always fails with `InvalidAddress`.
pub proof fn lemma_read_block_nil_fails(file: Seq<u8>)
    ensures
        spec_read_block(file, NIL_DB_ADDRESS) == Err::<Seq<u8>, Error>(
            Error::DB(DBError::InvalidAddress),
        ),
{
}

/// Reading a block whose header has the free bit set fails with `FreeBlock`.
pub proof fn lemma_read_block_free_fails(file: Seq<u8>, address: DBAddress)
    requires
        address != 0,
        spec_read_header(file, address as int) is Ok,
        spec_read_header(file, address as int)->Ok_0.is_free,
    ensures
        spec_read_block(file, address) == Err::<Seq<u8>, Error>(Error::DB(DBError::FreeBlock)),
{
}

/// Opening an image whose version byte has a nonzero major nibble fails with
/// `WrongVersion`.
pub proof fn lemma_open_wrong_version_fails(file: Seq<u8>, read_only: bool)
    requires
        file.len() >= 88,
        file[1] / 16 != 0,
    ensures
        spec_open_file(file, read_only) == Err::<DbModel, Error>(Error::DB(DBError::WrongVersion)),
{
    let buf = spec_read(file, 0, 88)->Ok_0;
    assert(buf[1] == file[1]);
}

/// A chain that leads back to a block already walked — a cycle — fails the
/// walk with `FreeList`.
pub proof fn lemma_walk_cycle_fails(file: Seq<u8>, cursor: DBAddress, acc: Seq<AvailableNodeShadow>)
    requires
        cursor != 0,
        acc.len() < 0x1_0000_0000,
        spec_shadow_contains(acc, cursor),
    ensures
        spec_walk_avail_chain(file, cursor, acc) == Err::<Seq<AvailableNodeShadow>, Error>(
            Error::DB(DBError::FreeList),
        ),
{
}

/// A chain whose next block is live — its free bit clear — or runs past the
/// end of the image fails the walk with `FreeList`.
pub proof fn lemma_walk_damaged_node_fails(
    file: Seq<u8>,
    cursor: DBAddress,
    acc: Seq<AvailableNodeShadow>,
)
    requires
        cursor != 0,
        acc.len() < 0x1_0000_0000,
        !spec_shadow_contains(acc, cursor),
        spec_read_available_node(file, cursor) is Ok,
        !spec_read_available_node(file, cursor)->Ok_0.is_free || cursor
            + spec_read_available_node(file, cursor)->Ok_0.size > file.len(),
    ensures
        spec_walk_avail_chain(file, cursor, acc) == Err::<Seq<AvailableNodeShadow>, Error>(
            Error::DB(DBError::FreeList),
        ),
{
}

/// A cached shadow whose first entry does not name the head of the in-file
/// chain fails with `InconsistentAvailList`.
pub proof fn lemma_cached_shadow_head_mismatch_fails(
    file: Seq<u8>,
    avail_list_block: DBAddress,
    avail_list: DBAddress,
)
    requires
        spec_read_block(file, avail_list_block) is Ok,
        spec_shadow_entries(spec_read_block(file, avail_list_block)->Ok_0).len() == 0
            || spec_shadow_entries(spec_read_block(file, avail_list_block)->Ok_0)[0].address
            != avail_list,
    ensures
        spec_read_shadow_avail_list(file, avail_list_block, avail_list) == Err::<
            Seq<AvailableNodeShadow>,
            Error,
        >(Error::DB(DBError::InconsistentAvailList)),
{
}

/// A list of distinct nonzero addresses, each at most `bound`, has at most
/// `bound` entries.
proof fn lemma_distinct_shadow_len_bound(s: Seq<AvailableNodeShadow>, bound: int)
    requires
        0 <= bound,
        forall|i: int, j: int| 0 <= i < j < s.len() ==> s[i].address != s[j].address,
        forall|i: int| 0 <= i < s.len() ==> 1 <= #[trigger] s[i].address <= bound,
    ensures
        s.len() <= bound,
{
    let addrs = s.map_values(|e: AvailableNodeShadow| e.address as int);
    assert(addrs.no_duplicates()) by {
        assert forall|i: int, j: int| 0 <= i < addrs.len() && 0 <= j < addrs.len() && i != j
            implies addrs[i] != addrs[j] by {
            if i < j {
                assert(s[i].address != s[j].address);
            } else {
                assert(s[j].address != s[i].address);
            }
        }
    }
    addrs.unique_seq_to_set();
    assert(addrs.to_set() <= vstd::set_lib::set_int_range(1, bound + 1)) by {
        assert forall|x: int| addrs.to_set().contains(x) implies vstd::set_lib::set_int_range(
            1,
            bound + 1,
        ).contains(x) by {
            let i = choose|i: int| 0 <= i < addrs.len() && addrs[i] == x;
            assert(1 <= s[i].address <= bound);
        }
    }
    vstd::set_lib::lemma_int_range(1, bound + 1);
    vstd::set_lib::lemma_len_subset(
        addrs.to_set(),
        vstd::set_lib::set_int_range(1, bound + 1),
    );
}

} // verus!
