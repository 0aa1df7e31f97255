//! The symbol table: a mapping from decoded names to typed nodes, its sorted
//! key list and metadata, and the decoder of its packed on-disk form.

use crate::bytes::{be_u16, be_u32, spec_be_u16, spec_be_u32};
use crate::db::{spec_read_block, DBAddress, Database, NIL_DB_ADDRESS};
use crate::store_error::Error;
use crate::string_utils::{
    lemma_lex_lt_transitive, lemma_lex_lt_trichotomy, read_pascal_string, spec_fixed_decoded,
    spec_lex_lt, spec_pascal_decoded, str_lt,
};
use crate::table_node::{spec_node_from_symbol, TableNode, TableNodeModel};
use crate::value_record::{
    spec_value_record_from_symbol, Value, ValueModel, ValueRecord, VALUE_TYPE_BINARY,
    VALUE_TYPE_STRING, VALUE_TYPE_TABLE,
};
use crate::variable::{LoadFromBytes, Variable, VariableData};
use vstd::prelude::*;

verus! {

/// Seconds between the classic-Mac epoch and the Unix epoch.
pub const CLASSIC_MAC_EPOCH_OFFSET_SECONDS: u32 = 2082844800;

/// Converts seconds since the classic-Mac epoch (1904-01-01T00:00:00Z) to
/// seconds since the Unix epoch (1970-01-01T00:00:00Z); negative for instants
/// before 1970.
pub fn classic_mac_to_unix_seconds(seconds: u32) -> (r: i64)
    ensures
        r == seconds - 2082844800int,
{
    seconds as i64 - CLASSIC_MAC_EPOCH_OFFSET_SECONDS as i64
}

/// A symbol table: named typed nodes, the sorted list of their names, and the
/// table's own flags and timestamps (seconds since the classic-Mac epoch).
#[derive(Debug)]
pub struct Table {
    nodes: Vec<TableNode>,
    sorted_keys: Vec<String>,
    is_dirty: bool,
    is_locked: bool,
    is_window_open: bool,
    is_no_purge: bool,
    is_local_table: bool,
    is_chained: bool,
    is_dispose_when_unchained: bool,
    with_value_count: u8,
    is_verbs_require_window: bool,
    is_need_sort: bool,
    is_may_affect_display: bool,
    is_subs_dirty: bool,
    sort_order: u16,
    time_created: u32,
    time_last_saved: u32,
    temp_stack_count: u16,
}

/// The mathematical content of a table: the name-to-node mapping, the sorted
/// key list, and the metadata.
pub struct TableModel {
    pub nodes: Map<Seq<char>, TableNodeModel>,
    pub sorted_keys: Seq<Seq<char>>,
    pub is_dirty: bool,
    pub is_locked: bool,
    pub is_window_open: bool,
    pub is_no_purge: bool,
    pub is_local_table: bool,
    pub is_chained: bool,
    pub is_dispose_when_unchained: bool,
    pub with_value_count: u8,
    pub is_verbs_require_window: bool,
    pub is_need_sort: bool,
    pub is_may_affect_display: bool,
    pub is_subs_dirty: bool,
    pub sort_order: u16,
    pub time_created: u32,
    pub time_last_saved: u32,
    pub temp_stack_count: u16,
}

/// The mapping a list of nodes stands for; a later node with the same name
/// overrides an earlier one.
pub open spec fn spec_nodes_map(s: Seq<TableNode>) -> Map<Seq<char>, TableNodeModel>
    decreases s.len(),
{
    if s.len() == 0 {
        Map::empty()
    } else {
        spec_nodes_map(s.drop_last()).insert(s.last().hash_key@, s.last()@)
    }
}

/// Whether no two nodes of `s` share a name.
pub open spec fn spec_unique_keys(s: Seq<TableNode>) -> bool {
    forall|i: int, j: int|
        0 <= i < j < s.len() ==> (#[trigger] s[i].hash_key@) != (#[trigger] s[j].hash_key@)
}

/// A name is in the mapping exactly when some node carries it.
pub proof fn lemma_nodes_map_contains(s: Seq<TableNode>)
    ensures
        forall|k: Seq<char>|
            #[trigger] spec_nodes_map(s).contains_key(k) <==> exists|i: int|
                0 <= i < s.len() && (#[trigger] s[i].hash_key@) == k,
    decreases s.len(),
{
    if s.len() > 0 {
        let sd = s.drop_last();
        lemma_nodes_map_contains(sd);
        assert forall|k: Seq<char>| spec_nodes_map(s).contains_key(k) implies exists|i: int|
            0 <= i < s.len() && (#[trigger] s[i].hash_key@) == k by {
            if k == s.last().hash_key@ {
                assert(s[s.len() - 1].hash_key@ == k);
            } else {
                assert(spec_nodes_map(sd).contains_key(k));
                let i = choose|i: int| 0 <= i < sd.len() && (#[trigger] sd[i].hash_key@) == k;
                assert(sd[i] == s[i]);
                assert(s[i].hash_key@ == k);
            }
        }
        assert forall|k: Seq<char>|
            exists|i: int| 0 <= i < s.len() && (#[trigger] s[i].hash_key@) == k implies #[trigger] spec_nodes_map(
            s,
        ).contains_key(k) by {
            let i = choose|i: int| 0 <= i < s.len() && (#[trigger] s[i].hash_key@) == k;
            if i < s.len() - 1 {
                assert(sd[i] == s[i]);
                assert(sd[i].hash_key@ == k);
                assert(spec_nodes_map(sd).contains_key(k));
            }
        }
    }
}

/// With distinct names, each node is what the mapping holds under its name.
pub proof fn lemma_nodes_map_index(s: Seq<TableNode>, i: int)
    requires
        spec_unique_keys(s),
        0 <= i < s.len(),
    ensures
        spec_nodes_map(s).contains_key(s[i].hash_key@),
        spec_nodes_map(s)[s[i].hash_key@] == s[i]@,
    decreases s.len(),
{
    if i < s.len() - 1 {
        assert(spec_unique_keys(s.drop_last()));
        assert(s.drop_last()[i] == s[i]);
        lemma_nodes_map_index(s.drop_last(), i);
        assert(s[i].hash_key@ != s.last().hash_key@);
    }
}

/// Replacing the node at `i` by one with the same name is an insert of that
/// node under the name.
pub proof fn lemma_nodes_map_update(s: Seq<TableNode>, i: int, node: TableNode)
    requires
        spec_unique_keys(s),
        0 <= i < s.len(),
        s[i].hash_key@ == node.hash_key@,
    ensures
        spec_nodes_map(s.update(i, node)) =~= spec_nodes_map(s).insert(node.hash_key@, node@),
    decreases s.len(),
{
    let s2 = s.update(i, node);
    if i == s.len() - 1 {
        assert(s2.drop_last() =~= s.drop_last());
        assert(s2.last() == node);
    } else {
        assert(s2.drop_last() =~= s.drop_last().update(i, node));
        assert(s2.last() == s.last());
        assert(spec_unique_keys(s.drop_last()));
        assert(s.drop_last()[i] == s[i]);
        lemma_nodes_map_update(s.drop_last(), i, node);
        assert(s[i].hash_key@ != s.last().hash_key@);
    }
}

/// Inserts `node` into the list under its name: replaces the node that
/// already carries the name, or appends. Keeps names distinct; the mapping
/// gains exactly this node under its name.
fn insert_node(nodes: &mut Vec<TableNode>, node: TableNode)
    requires
        spec_unique_keys(old(nodes)@),
    ensures
        spec_unique_keys(final(nodes)@),
        spec_nodes_map(final(nodes)@) == spec_nodes_map(old(nodes)@).insert(
            node@.hash_key,
            node@,
        ),
{
    let n = nodes.len();
    let mut i: usize = 0;
    while i < n
        invariant
            i <= n,
            n == nodes@.len(),
            *nodes == *old(nodes),
            spec_unique_keys(nodes@),
            forall|j: int| 0 <= j < i ==> (#[trigger] nodes@[j].hash_key@) != node.hash_key@,
        decreases n - i,
    {
        if nodes[i].hash_key == node.hash_key {
            proof {
                lemma_nodes_map_update(nodes@, i as int, node);
            }
            nodes[i] = node;
            proof {
                assert(spec_unique_keys(nodes@)) by {
                    assert forall|p: int, q: int| 0 <= p < q < nodes@.len() implies (
                    #[trigger] nodes@[p].hash_key@) != (#[trigger] nodes@[q].hash_key@) by {
                        assert(old(nodes)@[p].hash_key@ != old(nodes)@[q].hash_key@);
                    }
                }
            }
            return ;
        }
        i += 1;
    }
    proof {
        lemma_nodes_map_contains(nodes@);
    }
    nodes.push(node);
    proof {
        assert(nodes@.drop_last() =~= old(nodes)@);
        assert(spec_unique_keys(nodes@)) by {
            assert forall|p: int, q: int| 0 <= p < q < nodes@.len() implies (
            #[trigger] nodes@[p].hash_key@) != (#[trigger] nodes@[q].hash_key@) by {
                if q < nodes@.len() - 1 {
                    assert(old(nodes)@[p].hash_key@ != old(nodes)@[q].hash_key@);
                } else {
                    assert(nodes@[p] == old(nodes)@[p]);
                }
            }
        }
    }
}

impl View for Table {
    type V = TableModel;

    closed spec fn view(&self) -> TableModel {
        TableModel {
            nodes: spec_nodes_map(self.nodes@),
            sorted_keys: self.sorted_keys@.map_values(|s: String| s@),
            is_dirty: self.is_dirty,
            is_locked: self.is_locked,
            is_window_open: self.is_window_open,
            is_no_purge: self.is_no_purge,
            is_local_table: self.is_local_table,
            is_chained: self.is_chained,
            is_dispose_when_unchained: self.is_dispose_when_unchained,
            with_value_count: self.with_value_count,
            is_verbs_require_window: self.is_verbs_require_window,
            is_need_sort: self.is_need_sort,
            is_may_affect_display: self.is_may_affect_display,
            is_subs_dirty: self.is_subs_dirty,
            sort_order: self.sort_order,
            time_created: self.time_created,
            time_last_saved: self.time_last_saved,
            temp_stack_count: self.temp_stack_count,
        }
    }
}

/// The model of a fresh, empty table created at `now` (seconds since the
/// classic-Mac epoch).
pub open spec fn spec_new_table(now: u32) -> TableModel {
    TableModel {
        nodes: Map::empty(),
        sorted_keys: Seq::empty(),
        is_dirty: false,
        is_locked: false,
        is_window_open: false,
        is_no_purge: false,
        is_local_table: false,
        is_chained: false,
        is_dispose_when_unchained: false,
        with_value_count: 0,
        is_verbs_require_window: false,
        is_need_sort: false,
        is_may_affect_display: false,
        is_subs_dirty: false,
        sort_order: 0,
        time_created: now,
        time_last_saved: now,
        temp_stack_count: 0,
    }
}

impl Table {
    #[verifier::type_invariant]
    spec fn wf(&self) -> bool {
        spec_unique_keys(self.nodes@)
    }

    /// An empty table created at `now` (seconds since the classic-Mac epoch).
    pub fn new(now: u32) -> (r: Self)
        ensures
            r@ == spec_new_table(now),
    {
        let r = Self {
            nodes: Vec::new(),
            sorted_keys: Vec::new(),
            is_dirty: false,
            is_locked: false,
            is_window_open: false,
            is_no_purge: false,
            is_local_table: false,
            is_chained: false,
            is_dispose_when_unchained: false,
            with_value_count: 0,
            is_verbs_require_window: false,
            is_need_sort: false,
            is_may_affect_display: false,
            is_subs_dirty: false,
            sort_order: 0,
            time_created: now,
            time_last_saved: now,
            temp_stack_count: 0,
        };
        proof {
            assert(r@.nodes =~= Map::<Seq<char>, TableNodeModel>::empty());
            assert(r@.sorted_keys =~= Seq::<Seq<char>>::empty());
        }
        r
    }

    /// Looks a symbol up by its decoded Unicode name.
    pub fn get(&self, name: &str) -> (r: Option<&TableNode>)
        ensures
            match r {
                Some(node) => self@.nodes.contains_key(name@) && node@ == self@.nodes[name@],
                None => !self@.nodes.contains_key(name@),
            },
    {
        proof {
            use_type_invariant(&*self);
            lemma_nodes_map_contains(self.nodes@);
        }
        let name_string = name.to_owned();
        let n = self.nodes.len();
        let mut i: usize = 0;
        while i < n
            invariant
                i <= n,
                n == self.nodes@.len(),
                name_string@ == name@,
                spec_unique_keys(self.nodes@),
                forall|j: int| 0 <= j < i ==> (#[trigger] self.nodes@[j].hash_key@) != name@,
            decreases n - i,
        {
            if self.nodes[i].hash_key == name_string {
                proof {
                    lemma_nodes_map_index(self.nodes@, i as int);
                }
                return Some(&self.nodes[i]);
            }
            i += 1;
        }
        proof {
            lemma_nodes_map_contains(self.nodes@);
        }
        None
    }
}

/// The 16-byte header that begins a packed table's records region.
#[derive(Debug, Clone, Copy, PartialEq, Eq, Structural)]
pub struct DiskHeader {
    pub version: u16,
    pub sort_order: u16,
    pub time_created: u32,
    pub time_last_saved: u32,
    pub flags: u32,
}

/// The header encoded by the first 16 bytes of `s`.
pub open spec fn spec_disk_header(s: Seq<u8>) -> DiskHeader
    recommends
        s.len() >= 16,
{
    DiskHeader {
        version: spec_be_u16(s, 0) as u16,
        sort_order: spec_be_u16(s, 2) as u16,
        time_created: spec_be_u32(s, 4) as u32,
        time_last_saved: spec_be_u32(s, 8) as u32,
        flags: spec_be_u32(s, 12) as u32,
    }
}

impl DiskHeader {
    /// Decodes the records-region header from its first 16 on-disk bytes.
    pub fn new(bytes: &[u8]) -> (r: Result<Self, Error>)
        ensures
            bytes@.len() >= 16 ==> r == Ok::<DiskHeader, Error>(spec_disk_header(bytes@)),
            bytes@.len() < 16 ==> r == Err::<DiskHeader, Error>(Error::TryFromSlice),
    {
        if bytes.len() < 16 {
            return Err(Error::TryFromSlice);
        }
        Ok(
            Self {
                version: be_u16(bytes, 0),
                sort_order: be_u16(bytes, 2),
                time_created: be_u32(bytes, 4),
                time_last_saved: be_u32(bytes, 8),
                flags: be_u32(bytes, 12),
            },
        )
    }
}

/// One 10-byte symbol record: a byte offset into the name pool, the value's
/// type code, the value's version (packed in the high nibble for table
/// versions below 2), and the four data bytes the type code interprets.
#[derive(Debug)]
pub struct DiskSymbolRecord {
    pub index_key: u32,
    pub value_type: u8,
    pub version: u8,
    pub data: Vec<u8>,
}

impl DiskSymbolRecord {
    /// Decodes one symbol record from its 10 on-disk bytes.
    pub fn new(bytes: &[u8]) -> (r: Result<Self, Error>)
        ensures
            match r {
                Ok(rec) => bytes@.len() >= 10 && rec.index_key == spec_be_u32(bytes@, 0)
                    && rec.value_type == bytes@[4] && rec.version == bytes@[5] && rec.data@
                    == bytes@.subrange(6, 10),
                Err(e) => bytes@.len() < 10 && e == Error::TryFromSlice,
            },
    {
        if bytes.len() < 10 {
            return Err(Error::TryFromSlice);
        }
        let index_key = be_u32(bytes, 0);
        let value_type = bytes[4];
        let version = bytes[5];
        let mut data: Vec<u8> = Vec::new();
        data.push(bytes[6]);
        data.push(bytes[7]);
        data.push(bytes[8]);
        data.push(bytes[9]);
        proof {
            assert(data@ =~= bytes@.subrange(6, 10));
        }
        Ok(Self { index_key, value_type, version, data })
    }
}

/// How a two-part buffer splits: a 4-byte big-endian length, that many bytes
/// of first part, and the rest as second part; `TryFromSlice` when the length
/// does not fit.
pub open spec fn spec_split_buffer(buffer: Seq<u8>) -> Result<(Seq<u8>, Seq<u8>), Error> {
    if buffer.len() < 4 {
        Err(Error::TryFromSlice)
    } else if 4 + spec_be_u32(buffer, 0) > buffer.len() {
        Err(Error::TryFromSlice)
    } else {
        Ok(
            (
                buffer.subrange(4, 4 + spec_be_u32(buffer, 0)),
                buffer.subrange(4 + spec_be_u32(buffer, 0), buffer.len() as int),
            ),
        )
    }
}

/// Splits a two-part buffer at the length its first four bytes give.
fn split_buffer(buffer: &[u8]) -> (r: Result<(&[u8], &[u8]), Error>)
    ensures
        match (r, spec_split_buffer(buffer@)) {
            (Ok((first, second)), Ok((sf, ss))) => first@ == sf && second@ == ss,
            (Err(e), Err(se)) => e == se,
            _ => false,
        },
{
    if buffer.len() < 4 {
        return Err(Error::TryFromSlice);
    }
    let first_buffer_size = be_u32(buffer, 0) as usize;
    if first_buffer_size > buffer.len() - 4 {
        return Err(Error::TryFromSlice);
    }
    let first = &buffer[4..4 + first_buffer_size];
    let second = &buffer[4 + first_buffer_size..buffer.len()];
    Ok((first, second))
}

/// What unpacking the 10-byte symbol records of `records` from offset `i` on
/// adds to the mapping `acc`: each record names a length-prefixed name in the
/// name pool `strings` by byte offset; an empty name marks an unused slot and
/// is skipped; a later record under a taken name overrides. `TryFromSlice`
/// when a record is cut short or its name offset or name run past the pool.
pub open spec fn spec_unpack_records(
    records: Seq<u8>,
    strings: Seq<u8>,
    i: int,
    acc: Map<Seq<char>, TableNodeModel>,
) -> Result<Map<Seq<char>, TableNodeModel>, Error>
    decreases records.len() - i,
{
    if i >= records.len() {
        Ok(acc)
    } else if records.len() - i < 10 {
        Err(Error::TryFromSlice)
    } else {
        let chunk = records.subrange(i, i + 10);
        let ik = spec_be_u32(chunk, 0);
        if ik >= strings.len() {
            Err(Error::TryFromSlice)
        } else {
            let name_len = strings[ik] as int;
            if ik + 1 + name_len > strings.len() {
                Err(Error::TryFromSlice)
            } else if name_len == 0 {
                spec_unpack_records(records, strings, i + 10, acc)
            } else {
                let name = spec_fixed_decoded(strings.subrange(ik + 1, ik + 1 + name_len));
                let node = spec_node_from_symbol(
                    name,
                    spec_value_record_from_symbol(chunk[4], chunk.subrange(6, 10)),
                );
                spec_unpack_records(records, strings, i + 10, acc.insert(name, node))
            }
        }
    }
}

/// What unpacking a packed table region into the table `m` yields: the region
/// splits into records and name pool; the records begin with a 16-byte header
/// unless its version word is zero, in which case the whole region is symbol
/// records and the timestamps default to `now`; the symbol records then fill
/// the mapping.
pub open spec fn spec_unpack_table(m: TableModel, packed: Seq<u8>, now: u32) -> Result<
    TableModel,
    Error,
> {
    match spec_split_buffer(packed) {
        Err(e) => Err(e),
        Ok((records, strings)) => if records.len() < 16 {
            Err(Error::TryFromSlice)
        } else {
            let hdr = spec_disk_header(records.subrange(0, 16));
            let start: int = if hdr.version > 0 {
                16
            } else {
                0
            };
            match spec_unpack_records(records, strings, start, m.nodes) {
                Err(e) => Err(e),
                Ok(nodes) => Ok(
                    TableModel {
                        nodes,
                        sort_order: if hdr.version > 0 {
                            hdr.sort_order
                        } else {
                            m.sort_order
                        },
                        time_created: if hdr.version > 0 {
                            hdr.time_created
                        } else {
                            now
                        },
                        time_last_saved: if hdr.version > 0 {
                            hdr.time_last_saved
                        } else {
                            now
                        },
                        ..m
                    },
                ),
            }
        },
    }
}

/// One unfolding step of `spec_unpack_records` at an unused (empty-name)
/// slot.
proof fn lemma_unpack_step_skip(
    records: Seq<u8>,
    strings: Seq<u8>,
    i: int,
    acc: Map<Seq<char>, TableNodeModel>,
)
    requires
        0 <= i,
        i + 10 <= records.len(),
        0 <= spec_be_u32(records.subrange(i, i + 10), 0) < strings.len(),
        strings[spec_be_u32(records.subrange(i, i + 10), 0)] == 0,
    ensures
        spec_unpack_records(records, strings, i, acc) == spec_unpack_records(
            records,
            strings,
            i + 10,
            acc,
        ),
{
}

/// One unfolding step of `spec_unpack_records` at a named slot.
proof fn lemma_unpack_step_insert(
    records: Seq<u8>,
    strings: Seq<u8>,
    i: int,
    acc: Map<Seq<char>, TableNodeModel>,
)
    requires
        0 <= i,
        i + 10 <= records.len(),
        0 <= spec_be_u32(records.subrange(i, i + 10), 0) < strings.len(),
        strings[spec_be_u32(records.subrange(i, i + 10), 0)] > 0,
        spec_be_u32(records.subrange(i, i + 10), 0) + 1 + strings[spec_be_u32(
            records.subrange(i, i + 10),
            0,
        )] <= strings.len(),
    ensures
        ({
            let chunk = records.subrange(i, i + 10);
            let ik = spec_be_u32(chunk, 0);
            let name_len = strings[ik] as int;
            let name = spec_fixed_decoded(strings.subrange(ik + 1, ik + 1 + name_len));
            let node = spec_node_from_symbol(
                name,
                spec_value_record_from_symbol(chunk[4], chunk.subrange(6, 10)),
            );
            spec_unpack_records(records, strings, i, acc) == spec_unpack_records(
                records,
                strings,
                i + 10,
                acc.insert(name, node),
            )
        }),
{
}

/// Unpacks the 10-byte symbol records from `start` on into `nodes`,
/// mirroring `spec_unpack_records` step by step.
#[verifier::loop_isolation(false)]
#[verifier::rlimit(60)]
fn unpack_records(records: &[u8], strings: &[u8], start: usize, nodes: &mut Vec<TableNode>) -> (r:
    Result<(), Error>)
    requires
        spec_unique_keys(old(nodes)@),
    ensures
        spec_unique_keys(final(nodes)@),
        match (
            r,
            spec_unpack_records(records@, strings@, start as int, spec_nodes_map(old(nodes)@)),
        ) {
            (Ok(()), Ok(m)) => spec_nodes_map(final(nodes)@) == m,
            (Err(e), Err(se)) => e == se,
            _ => false,
        },
{
    let ghost acc0 = spec_nodes_map(nodes@);
    let n = records.len();
    let ns = strings.len();
    let mut index: usize = start;
    while index < n
        invariant
            spec_unique_keys(nodes@),
            spec_unpack_records(records@, strings@, index as int, spec_nodes_map(nodes@))
                == spec_unpack_records(records@, strings@, start as int, acc0),
        decreases n - index,
    {
        if n - index < 10 {
            return Err(Error::TryFromSlice);
        }
        let rec = match DiskSymbolRecord::new(&records[index..index + 10]) {
            Ok(r) => r,
            Err(e) => {
                return Err(e);
            },
        };
        let ik = rec.index_key as usize;
        if ik >= ns {
            return Err(Error::TryFromSlice);
        }
        let name_len = strings[ik] as usize;
        if name_len > ns - 1 - ik {
            return Err(Error::TryFromSlice);
        }
        if name_len == 0 {
            // an empty name marks an unused slot
            proof {
                lemma_unpack_step_skip(records@, strings@, index as int, spec_nodes_map(nodes@));
            }
            index += 10;
        } else {
            let name = read_pascal_string(&strings[ik..ns]);
            proof {
                let pool_tail = strings@.subrange(ik as int, ns as int);
                assert(pool_tail.subrange(1, 1 + pool_tail[0]) =~= strings@.subrange(
                    ik + 1,
                    ik + 1 + name_len,
                ));
            }
            let value = ValueRecord::from_symbol(rec.value_type, rec.data.as_slice());
            let node = TableNode::from_symbol(name, value);
            let ghost before = spec_nodes_map(nodes@);
            insert_node(nodes, node);
            proof {
                lemma_unpack_step_insert(records@, strings@, index as int, before);
            }
            index += 10;
        }
    }
    Ok(())
}

impl Table {
    /// Unpacks a packed table region into this table: decodes the records
    /// header (or defaults the metadata when the region predates one) and
    /// inserts a node for each named symbol record.
    #[verifier::rlimit(100)]
    fn unpack_table(&mut self, packed_table: &[u8], now: u32) -> (r: Result<(), Error>)
        ensures
            match (r, spec_unpack_table(old(self)@, packed_table@, now)) {
                (Ok(()), Ok(m)) => final(self)@ == m,
                (Err(e), Err(se)) => e == se,
                _ => false,
            },
    {
        proof {
            use_type_invariant(&*self);
        }
        let (records, strings) = match split_buffer(packed_table) {
            Ok(p) => p,
            Err(e) => {
                return Err(e);
            },
        };
        if records.len() < 16 {
            return Err(Error::TryFromSlice);
        }
        let header = match DiskHeader::new(&records[0..16]) {
            Ok(h) => h,
            Err(e) => {
                return Err(e);
            },
        };

        let start: usize;
        if header.version > 0 {
            self.sort_order = header.sort_order;
            self.time_created = header.time_created;
            self.time_last_saved = header.time_last_saved;
            start = 16;
        } else {
            self.time_created = now;
            self.time_last_saved = now;
            start = 0;
        }

        let mut nodes: Vec<TableNode> = Vec::new();
        core::mem::swap(&mut nodes, &mut self.nodes);

        match unpack_records(records, strings, start, &mut nodes) {
            Ok(()) => {},
            Err(e) => {
                return Err(e);
            },
        }

        self.nodes = nodes;
        proof {
            let m = spec_unpack_table(old(self)@, packed_table@, now);
            assert(m is Ok);
            assert(self@ == m->Ok_0);
        }
        Ok(())
    }
}

/// Whether `sk` is the sorted key list of the mapping `nodes`: strictly
/// ascending in lexicographic order, and holding exactly the mapping's names.
pub open spec fn spec_sorted_keys_of(
    sk: Seq<Seq<char>>,
    nodes: Map<Seq<char>, TableNodeModel>,
) -> bool {
    &&& forall|i: int, j: int|
        0 <= i < j < sk.len() ==> spec_lex_lt(#[trigger] sk[i], #[trigger] sk[j])
    &&& forall|i: int| 0 <= i < sk.len() ==> nodes.contains_key(#[trigger] sk[i])
    &&& forall|k: Seq<char>| #[trigger] nodes.contains_key(k) ==> sk.contains(k)
}

/// Inserting a key at its place keeps a strictly sorted list sorted.
proof fn lemma_sorted_insert(kv: Seq<Seq<char>>, pos: int, key: Seq<char>)
    requires
        0 <= pos <= kv.len(),
        forall|i: int, j: int|
            0 <= i < j < kv.len() ==> spec_lex_lt(#[trigger] kv[i], #[trigger] kv[j]),
        forall|t: int| 0 <= t < pos ==> spec_lex_lt(#[trigger] kv[t], key),
        pos < kv.len() ==> spec_lex_lt(key, kv[pos]),
    ensures
        forall|i: int, j: int|
            0 <= i < j < kv.insert(pos, key).len() ==> spec_lex_lt(
                #[trigger] kv.insert(pos, key)[i],
                #[trigger] kv.insert(pos, key)[j],
            ),
{
    let nv = kv.insert(pos, key);
    assert forall|i: int, j: int| 0 <= i < j < nv.len() implies spec_lex_lt(
        #[trigger] nv[i],
        #[trigger] nv[j],
    ) by {
        if j < pos {
        } else if i < pos && j == pos {
            assert(nv[i] == kv[i] && nv[j] == key);
        } else if i < pos && j > pos {
            assert(nv[i] == kv[i] && nv[j] == kv[j - 1]);
            assert(i < j - 1);
        } else if i == pos && j > pos {
            assert(nv[i] == key && nv[j] == kv[j - 1]);
            if j - 1 > pos {
                lemma_lex_lt_transitive(key, kv[pos], kv[j - 1]);
            }
        } else {
            assert(nv[i] == kv[i - 1] && nv[j] == kv[j - 1]);
        }
    }
}

/// Whether every entry of `kv` is the name of one of the first `idx` nodes.
pub open spec fn spec_keys_from(kv: Seq<Seq<char>>, nodes: Seq<TableNode>, idx: int) -> bool {
    forall|t: int|
        0 <= t < kv.len() ==> exists|j: int|
            0 <= j < idx && (#[trigger] kv[t]) == nodes[j].hash_key@
}

/// Whether `kv` holds the name of each of the first `idx` nodes.
pub open spec fn spec_keys_cover(kv: Seq<Seq<char>>, nodes: Seq<TableNode>, idx: int) -> bool {
    forall|j: int| 0 <= j < idx ==> kv.contains(#[trigger] nodes[j].hash_key@)
}

/// One step of building the sorted key list: inserting the name of node
/// `idx` at its place keeps the list sorted and holding exactly the names of
/// the first `idx + 1` nodes.
proof fn lemma_sort_step(
    kv: Seq<Seq<char>>,
    pos: int,
    nodes: Seq<TableNode>,
    idx: int,
)
    requires
        0 <= idx < nodes.len(),
        0 <= pos <= kv.len(),
        spec_unique_keys(nodes),
        forall|i: int, j: int|
            0 <= i < j < kv.len() ==> spec_lex_lt(#[trigger] kv[i], #[trigger] kv[j]),
        spec_keys_from(kv, nodes, idx),
        spec_keys_cover(kv, nodes, idx),
        forall|t: int| 0 <= t < pos ==> spec_lex_lt(#[trigger] kv[t], nodes[idx].hash_key@),
        pos < kv.len() ==> !spec_lex_lt(kv[pos], nodes[idx].hash_key@),
    ensures
        ({
            let kv2 = kv.insert(pos, nodes[idx].hash_key@);
            &&& forall|i: int, j: int|
                0 <= i < j < kv2.len() ==> spec_lex_lt(#[trigger] kv2[i], #[trigger] kv2[j])
            &&& spec_keys_from(kv2, nodes, idx + 1)
            &&& spec_keys_cover(kv2, nodes, idx + 1)
        }),
{
    let key = nodes[idx].hash_key@;
    let kv2 = kv.insert(pos, key);
    assert forall|t: int| 0 <= t < kv.len() implies (#[trigger] kv[t]) != key by {
        assert(spec_keys_from(kv, nodes, idx));
        let j = choose|j: int| 0 <= j < idx && (#[trigger] kv[t]) == nodes[j].hash_key@;
        assert(nodes[j].hash_key@ != nodes[idx].hash_key@);
    }
    if pos < kv.len() {
        lemma_lex_lt_trichotomy(key, kv[pos]);
    }
    lemma_sorted_insert(kv, pos, key);
    assert forall|t: int| 0 <= t < kv2.len() implies exists|j: int|
        0 <= j < idx + 1 && (#[trigger] kv2[t]) == nodes[j].hash_key@ by {
        assert(spec_keys_from(kv, nodes, idx));
        if t == pos {
            assert(kv2[t] == nodes[idx].hash_key@);
        } else if t < pos {
            assert(kv2[t] == kv[t]);
            let j = choose|j: int| 0 <= j < idx && (#[trigger] kv[t]) == nodes[j].hash_key@;
            assert(kv2[t] == nodes[j].hash_key@);
        } else {
            assert(kv2[t] == kv[t - 1]);
            let j = choose|j: int| 0 <= j < idx && (#[trigger] kv[t - 1]) == nodes[j].hash_key@;
            assert(kv2[t] == nodes[j].hash_key@);
        }
    }
    assert forall|j: int| 0 <= j < idx + 1 implies kv2.contains(
        #[trigger] nodes[j].hash_key@,
    ) by {
        assert(spec_keys_cover(kv, nodes, idx));
        if j == idx {
            assert(kv2[pos] == nodes[j].hash_key@);
        } else {
            let t = choose|t: int| 0 <= t < kv.len() && kv[t] == nodes[j].hash_key@;
            if t < pos {
                assert(kv2[t] == nodes[j].hash_key@);
            } else {
                assert(kv2[t + 1] == nodes[j].hash_key@);
            }
        }
    }
}

impl Table {
    /// Rebuilds the sorted key list from the current symbols, in strict
    /// lexicographic order of the decoded Unicode names.
    #[verifier::loop_isolation(false)]
    #[verifier::rlimit(100)]
    fn sort_nodes(&mut self)
        ensures
            final(self)@ == (TableModel {
                sorted_keys: final(self)@.sorted_keys,
                ..old(self)@
            }),
            spec_sorted_keys_of(final(self)@.sorted_keys, old(self)@.nodes),
    {
        proof {
            use_type_invariant(&*self);
        }
        let n = self.nodes.len();
        let mut keys: Vec<String> = Vec::new();
        let ghost mut kv: Seq<Seq<char>> = Seq::empty();
        let mut idx: usize = 0;
        while idx < n
            invariant
                idx <= n,
                kv.len() == keys@.len(),
                forall|t: int| 0 <= t < kv.len() ==> kv[t] == (#[trigger] keys@[t])@,
                forall|i: int, j: int|
                    0 <= i < j < kv.len() ==> spec_lex_lt(#[trigger] kv[i], #[trigger] kv[j]),
                spec_keys_from(kv, self.nodes@, idx as int),
                spec_keys_cover(kv, self.nodes@, idx as int),
            decreases n - idx,
        {
            let key = self.nodes[idx].hash_key.clone();
            let nk = keys.len();
            let mut pos: usize = 0;
            while pos < nk && str_lt(&keys[pos], &key)
                invariant
                    pos <= nk,
                    forall|t: int| 0 <= t < pos ==> spec_lex_lt(#[trigger] kv[t], key@),
                decreases nk - pos,
            {
                pos += 1;
            }
            proof {
                lemma_sort_step(kv, pos as int, self.nodes@, idx as int);
            }
            let ghost old_keys = keys@;
            keys.insert(pos, key);
            proof {
                kv = kv.insert(pos as int, key@);
                assert forall|t: int| 0 <= t < kv.len() implies kv[t] == (#[trigger] keys@[t])@
                    by {
                    if t < pos {
                        assert(keys@[t] == old_keys[t]);
                    } else if t == pos {
                        assert(keys@[t] == key);
                    } else {
                        assert(keys@[t] == old_keys[t - 1]);
                    }
                }
            }
            idx += 1;
        }
        self.sorted_keys = keys;
        proof {
            lemma_nodes_map_contains(self.nodes@);
            let sk = self@.sorted_keys;
            assert(sk =~= kv);
            assert forall|i: int| 0 <= i < sk.len() implies old(self)@.nodes.contains_key(
                #[trigger] sk[i],
            ) by {
                assert(spec_keys_from(kv, self.nodes@, idx as int));
                let j = choose|j: int|
                    0 <= j < idx && (#[trigger] kv[i]) == self.nodes@[j].hash_key@;
                assert(self.nodes@[j].hash_key@ == sk[i]);
            }
            assert forall|k: Seq<char>| #[trigger] old(self)@.nodes.contains_key(k) implies sk.contains(
                k,
            ) by {
                let j = choose|j: int|
                    0 <= j < self.nodes@.len() && (#[trigger] self.nodes@[j].hash_key@) == k;
                assert(spec_keys_cover(kv, self.nodes@, idx as int));
                assert(kv.contains(self.nodes@[j].hash_key@));
                let t = choose|t: int| 0 <= t < kv.len() && kv[t] == k;
                assert(sk[t] == k);
            }
        }
    }
}

impl LoadFromBytes for Table {
    /// What a table's block payload materializes to: the payload splits into
    /// the packed table region and the formats region, and the packed table
    /// unpacks into a fresh table created at `now`.
    open spec fn spec_from_bytes(bytes: Seq<u8>, now: u32) -> Result<TableModel, Error> {
        match spec_split_buffer(bytes) {
            Err(e) => Err(e),
            Ok((packed_table, packed_formats)) => spec_unpack_table(
                spec_new_table(now),
                packed_table,
                now,
            ),
        }
    }

    fn load_from_bytes(bytes: &[u8], now: u32) -> (r: Result<Table, Error>)
    {
        let (packed_table, _packed_formats) = match split_buffer(bytes) {
            Ok(p) => p,
            Err(e) => {
                return Err(e);
            },
        };
        let mut table = Table::new(now);
        match table.unpack_table(packed_table, now) {
            Ok(()) => Ok(table),
            Err(e) => Err(e),
        }
    }
}

/// What loading the system table at `address` yields: a fresh empty table
/// for `NIL_DB_ADDRESS`, else the table materialized from the block there.
pub open spec fn spec_load_system_table(file: Seq<u8>, address: DBAddress, now: u32) -> Result<
    TableModel,
    Error,
> {
    if address == 0 {
        Ok(spec_new_table(now))
    } else {
        match spec_read_block(file, address) {
            Err(e) => Err(Error::DB(e)),
            Ok(bytes) => <Table as LoadFromBytes>::spec_from_bytes(bytes, now),
        }
    }
}

impl Table {
    /// Loads the system table whose packed form lives at `address`:
    /// materializes it through a lazy cell and sorts its key list. A
    /// `NIL_DB_ADDRESS` yields a fresh empty table.
    pub fn load_system_table(db: &mut Database, address: DBAddress, now: u32) -> (r: Result<
        Table,
        Error,
    >)
        ensures
            final(db)@ == old(db)@,
            match (r, spec_load_system_table(old(db)@.file, address, now)) {
                (Ok(t), Ok(m)) => t@ == (TableModel { sorted_keys: t@.sorted_keys, ..m })
                    && spec_sorted_keys_of(t@.sorted_keys, m.nodes),
                (Err(e), Err(se)) => e == se,
                _ => false,
            },
    {
        if address == NIL_DB_ADDRESS {
            let table = Table::new(now);
            proof {
                assert(table@.sorted_keys.len() == 0);
                assert forall|k: Seq<char>| #[trigger] table@.nodes.contains_key(k) implies table@.sorted_keys.contains(
                    k,
                ) by {
                    assert(!Map::<Seq<char>, TableNodeModel>::empty().contains_key(k));
                }
            }
            return Ok(table);
        }

        let mut variable = Variable::<Table>::new_on_disk(address);
        match variable.load_from_disk(db, now) {
            Ok(()) => {},
            Err(e) => {
                return Err(e);
            },
        }

        match variable.data {
            VariableData::InMemory(in_memory) => {
                let mut table = in_memory.data;
                table.sort_nodes();
                Ok(table)
            },
            VariableData::OnDisk(_) => {
                proof {
                    assert(false);
                }
                Err(Error::Io)
            },
        }
    }
}

/// What resolving the string-valued symbol `name` yields: the resident
/// string if one is already held; for a string symbol still on disk, the
/// length-prefixed legacy string decoded from its block; `None` when the
/// table has no such symbol or the symbol is not string-valued.
pub open spec fn spec_resolve_string(file: Seq<u8>, m: TableModel, name: Seq<char>) -> Result<
    Option<Seq<char>>,
    Error,
> {
    if !m.nodes.contains_key(name) {
        Ok(None)
    } else {
        let node = m.nodes[name];
        match node.value.value {
            ValueModel::StringValue(resident) => Ok(Some(resident)),
            ValueModel::DiskValue(addr) => if node.value.value_type == VALUE_TYPE_STRING {
                match spec_read_block(file, addr) {
                    Err(e) => Err(Error::DB(e)),
                    Ok(bytes) => if bytes.len() == 0 || bytes[0] + 1 > bytes.len() {
                        Err(Error::TryFromSlice)
                    } else {
                        Ok(Some(spec_pascal_decoded(bytes)))
                    },
                }
            } else {
                Ok(None)
            },
            _ => Ok(None),
        }
    }
}

/// What resolving the binary-valued symbol `name` yields: the resident bytes
/// if already held; for a binary symbol still on disk, the payload of its
/// block; `None` when the table has no such symbol or the symbol is not
/// binary-valued.
pub open spec fn spec_resolve_binary(file: Seq<u8>, m: TableModel, name: Seq<char>) -> Result<
    Option<Seq<u8>>,
    Error,
> {
    if !m.nodes.contains_key(name) {
        Ok(None)
    } else {
        let node = m.nodes[name];
        match node.value.value {
            ValueModel::BinaryValue(resident) => Ok(Some(resident)),
            ValueModel::DiskValue(addr) => if node.value.value_type == VALUE_TYPE_BINARY {
                match spec_read_block(file, addr) {
                    Err(e) => Err(Error::DB(e)),
                    Ok(bytes) => Ok(Some(bytes)),
                }
            } else {
                Ok(None)
            },
            _ => Ok(None),
        }
    }
}

/// What resolving the sub-table symbol `name` yields: the table loaded from
/// the block its address names; `None` when the table has no such symbol or
/// the symbol is not table-valued.
pub open spec fn spec_load_child_table(
    file: Seq<u8>,
    m: TableModel,
    name: Seq<char>,
    now: u32,
) -> Result<Option<TableModel>, Error> {
    if !m.nodes.contains_key(name) {
        Ok(None)
    } else {
        let node = m.nodes[name];
        match node.value.value {
            ValueModel::DiskValue(addr) => if node.value.value_type == VALUE_TYPE_TABLE {
                match spec_load_system_table(file, addr, now) {
                    Err(e) => Err(e),
                    Ok(t) => Ok(Some(t)),
                }
            } else {
                Ok(None)
            },
            _ => Ok(None),
        }
    }
}

impl Table {
    /// Resolves the string-valued symbol `name`, reading its block when it is
    /// still on disk.
    pub fn resolve_string(&self, db: &mut Database, name: &str) -> (r: Result<
        Option<String>,
        Error,
    >)
        ensures
            final(db)@ == old(db)@,
            match (r, spec_resolve_string(old(db)@.file, self@, name@)) {
                (Ok(Some(resolved)), Ok(Some(m))) => resolved@ == m,
                (Ok(None), Ok(None)) => true,
                (Err(e), Err(se)) => e == se,
                _ => false,
            },
    {
        let node = match self.get(name) {
            Some(n) => n,
            None => {
                return Ok(None);
            },
        };
        let value_type = node.value.value_type;
        match &node.value.value {
            Value::StringValue(resident) => Ok(Some(resident.clone())),
            Value::DiskValue(addr) => {
                if value_type == VALUE_TYPE_STRING {
                    let address = *addr;
                    let bytes = match db.read_block(address) {
                        Ok(b) => b,
                        Err(e) => {
                            return Err(Error::DB(e));
                        },
                    };
                    if bytes.len() == 0 {
                        return Err(Error::TryFromSlice);
                    }
                    let name_len = bytes[0] as usize;
                    if name_len + 1 > bytes.len() {
                        return Err(Error::TryFromSlice);
                    }
                    Ok(Some(read_pascal_string(bytes.as_slice())))
                } else {
                    Ok(None)
                }
            },
            _ => Ok(None),
        }
    }

    /// Resolves the binary-valued symbol `name`, reading its block when it is
    /// still on disk.
    pub fn resolve_binary(&self, db: &mut Database, name: &str) -> (r: Result<
        Option<Vec<u8>>,
        Error,
    >)
        ensures
            final(db)@ == old(db)@,
            match (r, spec_resolve_binary(old(db)@.file, self@, name@)) {
                (Ok(Some(resolved)), Ok(Some(m))) => resolved@ == m,
                (Ok(None), Ok(None)) => true,
                (Err(e), Err(se)) => e == se,
                _ => false,
            },
    {
        let node = match self.get(name) {
            Some(n) => n,
            None => {
                return Ok(None);
            },
        };
        let value_type = node.value.value_type;
        match &node.value.value {
            Value::BinaryValue(resident) => Ok(Some(copy_bytes(resident))),
            Value::DiskValue(addr) => {
                if value_type == VALUE_TYPE_BINARY {
                    let address = *addr;
                    match db.read_block(address) {
                        Ok(b) => Ok(Some(b)),
                        Err(e) => Err(Error::DB(e)),
                    }
                } else {
                    Ok(None)
                }
            },
            _ => Ok(None),
        }
    }

    /// Resolves the sub-table symbol `name`: loads and sorts the table whose
    /// packed form the symbol's address names.
    pub fn load_child_table(&self, db: &mut Database, name: &str, now: u32) -> (r: Result<
        Option<Table>,
        Error,
    >)
        ensures
            final(db)@ == old(db)@,
            match (r, spec_load_child_table(old(db)@.file, self@, name@, now)) {
                (Ok(Some(t)), Ok(Some(m))) => t@ == (TableModel {
                    sorted_keys: t@.sorted_keys,
                    ..m
                }) && spec_sorted_keys_of(t@.sorted_keys, m.nodes),
                (Ok(None), Ok(None)) => true,
                (Err(e), Err(se)) => e == se,
                _ => false,
            },
    {
        let node = match self.get(name) {
            Some(n) => n,
            None => {
                return Ok(None);
            },
        };
        let value_type = node.value.value_type;
        match &node.value.value {
            Value::DiskValue(addr) => {
                if value_type == VALUE_TYPE_TABLE {
                    let address = *addr;
                    match Self::load_system_table(db, address, now) {
                        Ok(t) => Ok(Some(t)),
                        Err(e) => Err(e),
                    }
                } else {
                    Ok(None)
                }
            },
            _ => Ok(None),
        }
    }

    /// Number of symbols in the table.
    pub fn node_count(&self) -> (r: usize)
        ensures
            r == self@.nodes.dom().len(),
    {
        proof {
            use_type_invariant(&*self);
            lemma_nodes_map_len(self.nodes@);
        }
        self.nodes.len()
    }

    /// Number of names in the sorted key list.
    pub fn sorted_key_count(&self) -> (r: usize)
        ensures
            r == self@.sorted_keys.len(),
    {
        self.sorted_keys.len()
    }

    /// The `i`-th name of the sorted key list.
    pub fn sorted_key(&self, i: usize) -> (r: &String)
        requires
            i < self@.sorted_keys.len(),
        ensures
            r@ == self@.sorted_keys[i as int],
    {
        &self.sorted_keys[i]
    }

    /// When the table was created, in seconds since the classic-Mac epoch.
    pub fn time_created(&self) -> (r: u32)
        ensures
            r == self@.time_created,
    {
        self.time_created
    }

    /// When the table was last saved, in seconds since the classic-Mac epoch.
    pub fn time_last_saved(&self) -> (r: u32)
        ensures
            r == self@.time_last_saved,
    {
        self.time_last_saved
    }

    /// The table's sort-order word, as stored on disk.
    pub fn sort_order(&self) -> (r: u16)
        ensures
            r == self@.sort_order,
    {
        self.sort_order
    }
}

/// Copies a byte vector.
fn copy_bytes(bytes: &Vec<u8>) -> (r: Vec<u8>)
    ensures
        r@ == bytes@,
{
    let n = bytes.len();
    let mut out: Vec<u8> = Vec::new();
    let mut i: usize = 0;
    while i < n
        invariant
            i <= n,
            n == bytes@.len(),
            out@ =~= bytes@.subrange(0, i as int),
        decreases n - i,
    {
        out.push(bytes[i]);
        i += 1;
    }
    proof {
        assert(bytes@.subrange(0, n as int) =~= bytes@);
    }
    out
}

/// With distinct names, the mapping has exactly one entry per node.
pub proof fn lemma_nodes_map_len(s: Seq<TableNode>)
    requires
        spec_unique_keys(s),
    ensures
        spec_nodes_map(s).dom().len() == s.len(),
        spec_nodes_map(s).dom().finite(),
    decreases s.len(),
{
    if s.len() > 0 {
        let sd = s.drop_last();
        assert(spec_unique_keys(sd));
        lemma_nodes_map_len(sd);
        lemma_nodes_map_contains(sd);
        assert(!spec_nodes_map(sd).contains_key(s.last().hash_key@)) by {
            if spec_nodes_map(sd).contains_key(s.last().hash_key@) {
                let i = choose|i: int|
                    0 <= i < sd.len() && (#[trigger] sd[i].hash_key@) == s.last().hash_key@;
                assert(s[i].hash_key@ == s[s.len() - 1].hash_key@);
            }
        }
        assert(spec_nodes_map(s).dom() =~= spec_nodes_map(sd).dom().insert(s.last().hash_key@));
        vstd::set::axiom_set_insert_len(spec_nodes_map(sd).dom(), s.last().hash_key@);
    } else {
        assert(spec_nodes_map(s).dom() =~= Set::<Seq<char>>::empty());
    }
}

} // verus!
