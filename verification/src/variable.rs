//! The lazy-load cell: a value that is either still on disk, named by its
//! block address, or resident in memory and remembering where it came from.

use crate::db::{spec_read_block, DBAddress, Database};
use crate::store_error::Error;
use vstd::prelude::*;

verus! {

/// A type that can be materialized from the payload of one block. `now` is
/// the moment of materialization as seconds since the classic-Mac epoch, used
/// where the on-disk form predates its own timestamps.
pub trait LoadFromBytes: Sized + View {
    /// What the bytes materialize to: the mathematical value, or the exact
    /// failure.
    spec fn spec_from_bytes(bytes: Seq<u8>, now: u32) -> Result<Self::V, Error>;

    /// Materializes a value from the payload of one block.
    fn load_from_bytes(bytes: &[u8], now: u32) -> (r: Result<Self, Error>)
        ensures
            match (r, Self::spec_from_bytes(bytes@, now)) {
                (Ok(v), Ok(m)) => v@ == m,
                (Err(e), Err(se)) => e == se,
                _ => false,
            },
    ;
}

/// A resident value and the address of the block it was read from, so that a
/// save can tell "write back in place" from "write to a fresh block".
pub struct InMemoryValue<T: LoadFromBytes> {
    pub data: T,
    pub old_address: DBAddress,
}

/// The two states of a lazy value: resident, or still on disk.
pub enum VariableData<T: LoadFromBytes> {
    InMemory(InMemoryValue<T>),
    OnDisk(DBAddress),
}

/// A lazy value of type `T`, read from its block only when resolved. It holds
/// no borrow of the heap; the heap is passed into each call that needs it.
pub struct Variable<T: LoadFromBytes> {
    pub may_affect_display: bool,
    pub is_system_table: bool,
    pub data: VariableData<T>,
}

/// The mathematical content of a lazy value's state.
pub enum VariableDataModel<M> {
    InMemory { data: M, old_address: DBAddress },
    OnDisk(DBAddress),
}

/// The mathematical content of a lazy value.
pub struct VariableModel<M> {
    pub may_affect_display: bool,
    pub is_system_table: bool,
    pub data: VariableDataModel<M>,
}

impl<T: LoadFromBytes> View for InMemoryValue<T> {
    type V = VariableDataModel<<T as View>::V>;

    open spec fn view(&self) -> VariableDataModel<<T as View>::V> {
        VariableDataModel::InMemory { data: self.data@, old_address: self.old_address }
    }
}

impl<T: LoadFromBytes> View for VariableData<T> {
    type V = VariableDataModel<<T as View>::V>;

    open spec fn view(&self) -> VariableDataModel<<T as View>::V> {
        match self {
            VariableData::InMemory(v) => v@,
            VariableData::OnDisk(address) => VariableDataModel::OnDisk(*address),
        }
    }
}

impl<T: LoadFromBytes> View for Variable<T> {
    type V = VariableModel<<T as View>::V>;

    open spec fn view(&self) -> VariableModel<<T as View>::V> {
        VariableModel {
            may_affect_display: self.may_affect_display,
            is_system_table: self.is_system_table,
            data: self.data@,
        }
    }
}

impl<T: LoadFromBytes> InMemoryValue<T> {
    /// The address of the block this value was read from.
    pub fn old_address(&self) -> (r: DBAddress)
        ensures
            self@ matches VariableDataModel::InMemory { old_address, .. } && r == old_address,
    {
        self.old_address
    }
}

impl<T: LoadFromBytes> Variable<T> {
    /// A lazy value still on disk, at `address`.
    pub fn new_on_disk(address: DBAddress) -> (r: Self)
        ensures
            r@ == (VariableModel {
                may_affect_display: false,
                is_system_table: false,
                data: VariableDataModel::<<T as View>::V>::OnDisk(address),
            }),
    {
        Self { may_affect_display: false, is_system_table: false, data: VariableData::OnDisk(address) }
    }

    /// A resident value remembering the block it once came from.
    pub fn new_in_memory(data: T, old_address: DBAddress) -> (r: Self)
        ensures
            r@ == (VariableModel {
                may_affect_display: false,
                is_system_table: false,
                data: VariableDataModel::InMemory { data: data@, old_address },
            }),
    {
        Self {
            may_affect_display: false,
            is_system_table: false,
            data: VariableData::InMemory(InMemoryValue { data, old_address }),
        }
    }

    /// The address this value lives at: the block address while on disk, or
    /// the remembered origin once resident.
    pub fn address(&self) -> (r: DBAddress)
        ensures
            r == (match self@.data {
                VariableDataModel::OnDisk(a) => a,
                VariableDataModel::InMemory { old_address, .. } => old_address,
            }),
    {
        match &self.data {
            VariableData::OnDisk(a) => *a,
            VariableData::InMemory(v) => v.old_address,
        }
    }

    /// Resolves the value: when still on disk, reads its block and
    /// materializes it, becoming resident; when already resident, does
    /// nothing. The resident value is exactly what `T::spec_from_bytes` makes
    /// of the payload of the block at the remembered address.
    pub fn load_from_disk(&mut self, db: &mut Database, now: u32) -> (r: Result<(), Error>)
        ensures
            final(db)@ == old(db)@,
            match old(self)@.data {
                VariableDataModel::InMemory { .. } => r is Ok && final(self)@ == old(self)@,
                VariableDataModel::OnDisk(address) => match spec_read_block(
                    old(db)@.file,
                    address,
                ) {
                    Err(e) => r == Err::<(), Error>(Error::DB(e)) && final(self)@ == old(self)@,
                    Ok(bytes) => match T::spec_from_bytes(bytes, now) {
                        Err(e) => r == Err::<(), Error>(e) && final(self)@ == old(self)@,
                        Ok(m) => r is Ok && final(self)@ == (VariableModel {
                            data: VariableDataModel::InMemory { data: m, old_address: address },
                            ..old(self)@
                        }),
                    },
                },
            },
    {
        match &self.data {
            VariableData::OnDisk(address) => {
                let address = *address;
                let block = match db.read_block(address) {
                    Ok(b) => b,
                    Err(e) => {
                        return Err(Error::DB(e));
                    },
                };
                let data = match T::load_from_bytes(block.as_slice(), now) {
                    Ok(d) => d,
                    Err(e) => {
                        return Err(e);
                    },
                };
                self.data = VariableData::InMemory(InMemoryValue { data, old_address: address });
            },
            VariableData::InMemory(_) => {
                // nothing to do, it is already in memory
            },
        }
        Ok(())
    }
}

} // verus!
