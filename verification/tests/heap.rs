use brave_flea::db::{Database, NIL_DB_ADDRESS};
use brave_flea::db_error::DBError;
use brave_flea::error::Error;

/// Builds disk images for the tests: an 88-byte database record followed by
/// blocks appended one after another.
pub struct ImageBuilder {
    pub bytes: Vec<u8>,
}

impl ImageBuilder {
    pub fn new() -> Self {
        Self { bytes: vec![0u8; 88] }
    }

    pub fn set_record(
        &mut self,
        version: u8,
        avail_head: u32,
        flags: u16,
        view0: u32,
        avail_list_block: u32,
    ) {
        self.bytes[0] = 0x4d; // system id
        self.bytes[1] = version;
        self.bytes[2..6].copy_from_slice(&avail_head.to_be_bytes());
        self.bytes[8..10].copy_from_slice(&flags.to_be_bytes());
        self.bytes[10..14].copy_from_slice(&view0.to_be_bytes());
        self.bytes[38..42].copy_from_slice(&avail_list_block.to_be_bytes());
    }

    /// Appends a live block whose readable payload is exactly `payload`:
    /// `size` counts the 8-byte header plus the payload, and the variance of 8
    /// makes `size - variance` the payload length.
    pub fn add_block(&mut self, payload: &[u8]) -> u32 {
        let addr = self.bytes.len() as u32;
        let size = (payload.len() + 8) as u32;
        self.bytes.extend_from_slice(&size.to_be_bytes());
        self.bytes.extend_from_slice(&8u32.to_be_bytes());
        self.bytes.extend_from_slice(payload);
        addr
    }

    /// Appends a free block of `size` total bytes whose forward link is
    /// `next`.
    pub fn add_free_block(&mut self, size: u32, next: u32) -> u32 {
        let addr = self.bytes.len() as u32;
        let size_and_free = 0x8000_0000u32 | size;
        self.bytes.extend_from_slice(&size_and_free.to_be_bytes());
        self.bytes.extend_from_slice(&0u32.to_be_bytes());
        self.bytes.extend_from_slice(&next.to_be_bytes());
        for _ in 0..(size as usize).saturating_sub(12) {
            self.bytes.push(0);
        }
        addr
    }
}

#[test]
fn it_works() {
    assert_eq!(2 + 2, 4);
}

#[test]
fn open_minimal_image() {
    let mut b = ImageBuilder::new();
    b.set_record(6, 0, 0, 0, 0);
    let db = Database::open_file(b.bytes, false).unwrap();
    assert_eq!(db.version_number(), 6);
    assert!(!db.is_dirty());
    assert_eq!(db.system_id(), 0x4d);
    assert_eq!(db.avail_list(), NIL_DB_ADDRESS);
    assert_eq!(db.avail_list_shadow_len(), 0);
}

#[test]
fn open_decodes_long_version_and_read_only_flag() {
    let mut b = ImageBuilder::new();
    b.set_record(6, 0, 1, 0, 0);
    b.bytes[34..36].copy_from_slice(&9u16.to_be_bytes());
    b.bytes[36..38].copy_from_slice(&2u16.to_be_bytes());
    let db = Database::open_file(b.bytes, true).unwrap();
    assert_eq!(db.long_version(), (9, 2));
    assert!(db.is_read_only());
    assert!(db.is_dirty());
}

#[test]
fn open_short_image_fails() {
    let bytes = vec![0u8; 40];
    let err = Database::open_file(bytes, false).unwrap_err();
    assert_eq!(err, Error::Io);
}

#[test]
fn open_upgrades_compatible_minor_version() {
    let mut b = ImageBuilder::new();
    // version 3 shares the major nibble with 6 and predates the cached shadow
    b.set_record(3, 0, 0, 0, 0x1234);
    let db = Database::open_file(b.bytes, false).unwrap();
    assert_eq!(db.version_number(), 6);
    assert!(db.is_dirty());
    assert_eq!(db.avail_list_block(), NIL_DB_ADDRESS);
}

#[test]
fn open_wrong_major_version_fails() {
    let mut b = ImageBuilder::new();
    b.set_record(0x21, 0, 0, 0, 0);
    let err = Database::open_file(b.bytes, false).unwrap_err();
    assert_eq!(err, Error::DB(DBError::WrongVersion));
}

#[test]
fn read_block_returns_payload() {
    let mut b = ImageBuilder::new();
    let addr = b.add_block(&[1, 2, 3]);
    b.set_record(6, 0, 0, 0, 0);
    let mut db = Database::open_file(b.bytes, false).unwrap();
    assert_eq!(db.read_block(addr).unwrap(), vec![1, 2, 3]);
}

#[test]
fn read_block_nil_fails_with_invalid_address() {
    let mut b = ImageBuilder::new();
    b.set_record(6, 0, 0, 0, 0);
    let mut db = Database::open_file(b.bytes, false).unwrap();
    let err = db.read_block(NIL_DB_ADDRESS).unwrap_err();
    assert_eq!(err, Error::DB(DBError::InvalidAddress));
}

#[test]
fn read_block_free_fails_with_free_block() {
    let mut b = ImageBuilder::new();
    let addr = b.add_free_block(16, 0);
    b.set_record(6, 0, 0, 0, 0);
    let mut db = Database::open_file(b.bytes, false).unwrap();
    let err = db.read_block(addr).unwrap_err();
    assert_eq!(err, Error::DB(DBError::FreeBlock));
}

#[test]
fn read_block_past_end_fails_with_io() {
    let mut b = ImageBuilder::new();
    b.set_record(6, 0, 0, 0, 0);
    let mut db = Database::open_file(b.bytes, false).unwrap();
    let err = db.read_block(10_000).unwrap_err();
    assert_eq!(err, Error::Io);
}

#[test]
fn open_walks_free_chain_into_shadow() {
    let mut b = ImageBuilder::new();
    let second = b.add_free_block(16, 0);
    let first = b.add_free_block(24, second);
    b.set_record(6, first, 0, 0, 0);
    let db = Database::open_file(b.bytes, false).unwrap();
    assert_eq!(db.avail_list_shadow_len(), 2);
    // the shadow's first entry names the in-file avail-list head
    let e0 = db.avail_list_shadow_entry(0);
    let e1 = db.avail_list_shadow_entry(1);
    assert_eq!(e0.address, first);
    assert_eq!(e0.size, 24);
    assert_eq!(e1.address, second);
    assert_eq!(e1.size, 16);
    assert_eq!(db.avail_list(), first);
}

#[test]
fn shadow_entries_refer_to_free_blocks_within_image() {
    let mut b = ImageBuilder::new();
    let second = b.add_free_block(16, 0);
    let first = b.add_free_block(24, second);
    b.set_record(6, first, 0, 0, 0);
    let eof = b.bytes.len() as u32;
    let bytes = b.bytes.clone();
    let db = Database::open_file(b.bytes, false).unwrap();
    for i in 0..db.avail_list_shadow_len() {
        let e = db.avail_list_shadow_entry(i);
        // the header's top bit is the free flag
        let word = u32::from_be_bytes([
            bytes[e.address as usize],
            bytes[e.address as usize + 1],
            bytes[e.address as usize + 2],
            bytes[e.address as usize + 3],
        ]);
        assert!(word & 0x8000_0000 != 0);
        assert!(e.address + e.size <= eof);
    }
}

#[test]
fn open_cyclic_free_chain_fails_with_free_list() {
    let mut b = ImageBuilder::new();
    let first = 88u32;
    let second = 88 + 16u32;
    b.add_free_block(16, second);
    b.add_free_block(16, first);
    b.set_record(6, first, 0, 0, 0);
    let err = Database::open_file(b.bytes, false).unwrap_err();
    assert_eq!(err, Error::DB(DBError::FreeList));
}

#[test]
fn open_chain_with_live_block_fails_with_free_list() {
    let mut b = ImageBuilder::new();
    let live = b.add_block(&[9, 9, 9, 9]);
    b.set_record(6, live, 0, 0, 0);
    let err = Database::open_file(b.bytes, false).unwrap_err();
    assert_eq!(err, Error::DB(DBError::FreeList));
}

#[test]
fn open_chain_running_past_end_fails_with_free_list() {
    let mut b = ImageBuilder::new();
    let huge = b.add_free_block(16, 0);
    // overwrite the size word with one that runs past the end of the image
    let size_and_free = 0x8000_0000u32 | 0x1000;
    b.bytes[huge as usize..huge as usize + 4].copy_from_slice(&size_and_free.to_be_bytes());
    b.set_record(6, huge, 0, 0, 0);
    let err = Database::open_file(b.bytes, false).unwrap_err();
    assert_eq!(err, Error::DB(DBError::FreeList));
}

#[test]
fn open_takes_consistent_cached_shadow() {
    let mut b = ImageBuilder::new();
    let free = b.add_free_block(16, 0);
    let mut cache = Vec::new();
    cache.extend_from_slice(&free.to_be_bytes());
    cache.extend_from_slice(&16u32.to_be_bytes());
    // a padding entry, dropped on read
    cache.extend_from_slice(&0u32.to_be_bytes());
    cache.extend_from_slice(&99u32.to_be_bytes());
    let cache_block = b.add_block(&cache);
    b.set_record(6, free, 0, 0, cache_block);
    let db = Database::open_file(b.bytes, false).unwrap();
    assert_eq!(db.avail_list_shadow_len(), 1);
    assert_eq!(db.avail_list_shadow_entry(0).address, free);
    assert_eq!(db.avail_list_shadow_entry(0).size, 16);
}

#[test]
fn open_cached_shadow_head_mismatch_fails_with_inconsistent_avail_list() {
    let mut b = ImageBuilder::new();
    let free = b.add_free_block(16, 0);
    let other = b.add_free_block(16, 0);
    let mut cache = Vec::new();
    cache.extend_from_slice(&other.to_be_bytes());
    cache.extend_from_slice(&16u32.to_be_bytes());
    let cache_block = b.add_block(&cache);
    // the record names `free` as the chain's head, but the cache starts at `other`
    b.set_record(6, free, 0, 0, cache_block);
    let err = Database::open_file(b.bytes, false).unwrap_err();
    assert_eq!(err, Error::DB(DBError::InconsistentAvailList));
}

#[test]
fn open_empty_cached_shadow_fails_with_inconsistent_avail_list() {
    let mut b = ImageBuilder::new();
    let free = b.add_free_block(16, 0);
    // a cache of nothing but padding entries reads back empty
    let cache = vec![0u8; 16];
    let cache_block = b.add_block(&cache);
    b.set_record(6, free, 0, 0, cache_block);
    let err = Database::open_file(b.bytes, false).unwrap_err();
    assert_eq!(err, Error::DB(DBError::InconsistentAvailList));
}

#[test]
fn get_eof_does_not_disturb_reads() {
    let mut b = ImageBuilder::new();
    let addr = b.add_block(&[7, 8, 9]);
    b.set_record(6, 0, 0, 0, 0);
    let eof = b.bytes.len() as u32;
    let mut db = Database::open_file(b.bytes, false).unwrap();
    let before = db.read_block(addr).unwrap();
    assert_eq!(db.get_eof(), eof);
    let after = db.read_block(addr).unwrap();
    assert_eq!(before, after);
    assert_eq!(db.get_eof(), eof);
}

#[test]
fn get_view_returns_record_slot() {
    let mut b = ImageBuilder::new();
    b.set_record(6, 0, 0, 0x0000_1000, 0);
    let db = Database::open_file(b.bytes, false).unwrap();
    assert_eq!(db.get_view(0), 0x0000_1000);
    assert_eq!(db.get_view(1), 0);
    assert_eq!(db.get_view(2), 0);
}

#[test]
fn read_block_into_buffer_reads_prefix() {
    let mut b = ImageBuilder::new();
    let addr = b.add_block(&[10, 20, 30, 40]);
    b.set_record(6, 0, 0, 0, 0);
    let mut db = Database::open_file(b.bytes, false).unwrap();
    let mut buffer = Vec::new();
    db.read_block_into_buffer(addr, 2, &mut buffer).unwrap();
    assert_eq!(buffer, vec![10, 20]);
}

#[test]
fn db_error_messages() {
    assert_eq!(
        DBError::WrongVersion.as_str(),
        "File was created by an incompatible version of this program."
    );
    assert_eq!(
        DBError::InvalidAddress.as_str(),
        "Attempted to read from an invalid dbaddress."
    );
}
