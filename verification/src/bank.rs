//! The content store: blobs keyed by a generated identifier.

use crate::fileload::LoadIdentifier;
use bevy::reflect::Reflect;
use std::collections::HashMap;
use vstd::prelude::*;

verus! {

/// Identifies one blob, wherever it is held. The number is the 128-bit value
/// of a UUID.
#[derive(Clone, Copy, Debug, PartialEq, Eq, Structural, Hash)]
pub struct DataId(pub u128);

/// The bits of a UUID that carry its version and variant.
pub const VERSION_VARIANT_MASK: u128 = 0x0000_0000_0000_F000_C000_0000_0000_0000;

/// Version 4 (random), RFC variant.
pub const RANDOM_VERSION_VARIANT: u128 = 0x0000_0000_0000_4000_8000_0000_0000_0000;

/// True of the numbers that name a version-4 UUID.
pub open spec fn is_random_uuid(bits: u128) -> bool {
    bits & VERSION_VARIANT_MASK == RANDOM_VERSION_VARIANT
}

/// `uuid::Uuid::new_v4`, read back with `Uuid::as_u128`. The value is random;
/// what is claimed is only that its version and variant bits are those of a
/// version-4 UUID, which `new_v4` sets by masking.
#[verifier::external_body]
pub(crate) fn random_uuid_bits() -> (bits: u128)
    ensures
        is_random_uuid(bits),
{
    uuid::Uuid::new_v4().as_u128()
}

/// `bevy::reflect::Reflect::reflect_hash` on a byte vector. The value depends
/// on the build and the machine, so nothing is claimed of it but that there
/// is one: bevy hashes a list item by item and gives none only where an item
/// gives none, and a byte always gives one.
#[verifier::external_body]
pub(crate) fn reflect_hash_bytes(data: &Vec<u8>) -> (hash: Option<u64>)
    ensures
        hash is Some,
{
    data.reflect_hash()
}

impl DataId {
    /// True of the identifiers that `get_new_id` can return.
    pub open spec fn is_generated(self) -> bool {
        is_random_uuid(self.0)
    }
}

/// A fresh identifier for a blob.
pub fn get_new_id() -> (id: DataId)
    ensures
        id.is_generated(),
{
    DataId(random_uuid_bits())
}

/// The content store: every blob that this process holds, keyed by its
/// identifier.
pub struct Bank {
    data: HashMap<u128, Vec<u8>>,
}

impl View for Bank {
    type V = Map<DataId, Seq<u8>>;

    closed spec fn view(&self) -> Map<DataId, Seq<u8>> {
        Map::new(|id: DataId| self.data@.contains_key(id.0), |id: DataId| self.data@[id.0]@)
    }
}

impl Bank {
    /// An empty store.
    pub fn new() -> (bank: Bank)
        ensures
            bank@ == Map::<DataId, Seq<u8>>::empty(),
    {
        let bank = Bank { data: HashMap::new() };
        bank
    }

    /// Puts `data` into the store under a fresh identifier and describes it.
    pub fn store(&mut self, data: Vec<u8>) -> (described: LoadIdentifier)
        ensures
            described.data_id.is_generated(),
            described.size == data@.len(),
            final(self)@ == old(self)@.insert(described.data_id, data@),
    {
        let id = get_new_id();
        self.store_at_id(&id, data)
    }

    /// Puts `data` into the store under `id`, replacing what was there, and
    /// describes it: its identifier, its length, and the hash taken of it.
    pub fn store_at_id(&mut self, id: &DataId, data: Vec<u8>) -> (described: LoadIdentifier)
        ensures
            described.data_id == *id,
            described.size == data@.len(),
            final(self)@ == old(self)@.insert(*id, data@),
    {
        let hash = reflect_hash_bytes(&data).unwrap();
        self.store_with_hash(id, data, hash)
    }

    /// Puts `data` into the store under `id`, replacing what was there, and
    /// describes it with the hash that was taken of it.
    pub fn store_with_hash(
        &mut self,
        id: &DataId,
        data: Vec<u8>,
        hash: u64,
    ) -> (described: LoadIdentifier)
        ensures
            described.data_id == *id,
            described.size == data@.len(),
            described.hash == hash,
            final(self)@ == old(self)@.insert(*id, data@),
    {
        let size = data.len();
        self.insert_data(id, data);
        LoadIdentifier { data_id: *id, size, hash }
    }

    /// Whether a blob is held under `id`.
    pub fn contains_data(&self, id: &DataId) -> (held: bool)
        ensures
            held == self@.contains_key(*id),
    {
        self.data.contains_key(&id.0)
    }

    /// The blob held under `id`.
    pub fn request_data(&self, id: &DataId) -> (found: Option<&Vec<u8>>)
        ensures
            match found {
                Some(data) => self@.contains_key(*id) && data@ == self@[*id],
                None => !self@.contains_key(*id),
            },
    {
        self.data.get(&id.0)
    }

    /// Puts `data` under `id`, replacing what was there.
    pub fn insert_data(&mut self, id: &DataId, data: Vec<u8>)
        ensures
            final(self)@ == old(self)@.insert(*id, data@),
    {
        self.data.insert(id.0, data);
    }
}

} // verus!
