//! Property metadata of the property-tokenization contract and its storage keys.

use vstd::prelude::*;

use crate::store::Store;

verus! {

/// Storage keys of the property-tokenization contract.
#[derive(Debug)]
pub enum StorageKey {
    /// Token configuration (symbol, name, decimals).
    TokenConfig,
    /// Property metadata, by property id.
    Property(u64),
    /// Share balance of an owner in a property.
    ShareBalance(u64, String),
    /// Total shares issued for a property.
    TotalShares(u64),
    /// Administrator address.
    Admin,
    /// Counter that generates property ids.
    PropertyCounter,
}

/// The short symbolic name of each kind of storage key.
pub open spec fn key_symbol(key: StorageKey) -> Seq<char> {
    match key {
        StorageKey::TokenConfig => "TknCfg"@,
        StorageKey::Property(_) => "Prop"@,
        StorageKey::ShareBalance(_, _) => "Share"@,
        StorageKey::TotalShares(_) => "TotShrs"@,
        StorageKey::Admin => "Admin"@,
        StorageKey::PropertyCounter => "PropCnt"@,
    }
}

impl StorageKey {
    /// The symbolic name of the key's kind, for logs and debugging.
    pub fn as_symbol(&self) -> (s: &'static str)
        ensures
            s@ == key_symbol(*self),
    {
        match self {
            StorageKey::TokenConfig => "TknCfg",
            StorageKey::Property(_) => "Prop",
            StorageKey::ShareBalance(_, _) => "Share",
            StorageKey::TotalShares(_) => "TotShrs",
            StorageKey::Admin => "Admin",
            StorageKey::PropertyCounter => "PropCnt",
        }
    }
}

/// Metadata of a tokenized property.
#[derive(Debug)]
pub struct PropertyMetadata {
    pub property_id: u64,
    pub owner: String,
    pub name: String,
    pub description: String,
    pub location: String,
    /// Total valuation in base currency units.
    pub valuation: i128,
    /// Number of shares of the property.
    pub total_shares: u64,
    /// Registration time.
    pub created_at: u64,
    /// Whether the property is open for trading.
    pub is_active: bool,
}

impl Clone for PropertyMetadata {
    fn clone(&self) -> (r: Self)
        ensures
            r == *self,
    {
        PropertyMetadata {
            property_id: self.property_id,
            owner: self.owner.clone(),
            name: self.name.clone(),
            description: self.description.clone(),
            location: self.location.clone(),
            valuation: self.valuation,
            total_shares: self.total_shares,
            created_at: self.created_at,
            is_active: self.is_active,
        }
    }
}

/// Storage of property metadata, by property id.
pub struct PropertyStore {
    pub properties: Store<u64, PropertyMetadata>,
}

impl PropertyStore {
    pub closed spec fn wf(&self) -> bool {
        self.properties.wf()
    }

    /// The stored metadata of each property.
    pub closed spec fn properties(&self) -> Map<u64, PropertyMetadata> {
        self.properties.map()
    }

    /// Storage holding no property.
    pub fn new() -> (s: Self)
        ensures
            s.wf(),
            s.properties() == Map::<u64, PropertyMetadata>::empty(),
    {
        PropertyStore { properties: Store::new() }
    }
}

impl PropertyMetadata {
    /// Metadata of a newly registered property; it starts active.
    #[allow(clippy::too_many_arguments)]
    pub fn new(
        property_id: u64,
        owner: String,
        name: String,
        description: String,
        location: String,
        valuation: i128,
        total_shares: u64,
        created_at: u64,
    ) -> (m: Self)
        ensures
            m == (PropertyMetadata {
                property_id,
                owner,
                name,
                description,
                location,
                valuation,
                total_shares,
                created_at,
                is_active: true,
            }),
    {
        PropertyMetadata {
            property_id,
            owner,
            name,
            description,
            location,
            valuation,
            total_shares,
            created_at,
            is_active: true,
        }
    }

    /// Stores the metadata under its property id.
    pub fn save(&self, store: &mut PropertyStore)
        requires
            old(store).wf(),
        ensures
            final(store).wf(),
            final(store).properties() == old(store).properties().insert(self.property_id, *self),
    {
        store.properties.set(self.property_id, self.clone());
    }

    /// The stored metadata of a property, if any.
    pub fn load(store: &PropertyStore, property_id: u64) -> (r: Option<PropertyMetadata>)
        requires
            store.wf(),
        ensures
            r == (if store.properties().contains_key(property_id) {
                Some(store.properties()[property_id])
            } else {
                None::<PropertyMetadata>
            }),
    {
        match store.properties.get(&property_id) {
            Some(m) => Some(m.clone()),
            None => None,
        }
    }

    /// Sets whether the property is active, and stores the updated metadata.
    pub fn set_active(&mut self, store: &mut PropertyStore, is_active: bool)
        requires
            old(store).wf(),
        ensures
            final(store).wf(),
            *final(self) == (PropertyMetadata { is_active, ..*old(self) }),
            final(store).properties() == old(store).properties().insert(
                old(self).property_id,
                *final(self),
            ),
    {
        self.is_active = is_active;
        self.save(store);
    }

    /// Removes the stored metadata of a property.
    pub fn remove(store: &mut PropertyStore, property_id: u64)
        requires
            old(store).wf(),
        ensures
            final(store).wf(),
            final(store).properties() == old(store).properties().remove(property_id),
    {
        store.properties.remove(&property_id);
    }
}

/// Loading gives back what was last saved for that property.
pub proof fn lemma_load_after_save(before: Map<u64, PropertyMetadata>, saved: PropertyMetadata, id: u64)
    ensures
        before.insert(saved.property_id, saved).contains_key(id) == (id == saved.property_id || before.contains_key(id)),
        id == saved.property_id ==> before.insert(saved.property_id, saved)[id] == saved,
        id != saved.property_id ==> before.insert(saved.property_id, saved).contains_key(id) ==> before.insert(saved.property_id, saved)[id] == before[id],
{
}

} // verus!
