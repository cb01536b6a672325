use akkuea_contracts::greeter::{GreeterError, U256Value, YourContract};
use akkuea_contracts::property::{PropertyMetadata, PropertyStore, StorageKey};
use akkuea_contracts::store::Store;

#[test]
fn greeter_initialize_sets_greeting_and_counters() {
    let mut c = YourContract::new();
    assert_eq!(c.greeting(), Err(GreeterError::GreetingNotInitialized));
    assert_eq!(c.withdraw(), Err(GreeterError::OwnerNotInitialized));
    assert!(!c.premium());
    c.initialize(String::from("GOWNER"));
    assert_eq!(c.greeting().unwrap(), b"Building Unstoppable Apps!!!".to_vec());
    assert_eq!(c.withdraw(), Ok(String::from("GOWNER")));
    assert_eq!(c.total_greeting_count(), U256Value::from_u32(0));
}

#[test]
fn greeter_set_greeting_counts_and_premium() {
    let mut c = YourContract::new();
    c.initialize(String::from("GOWNER"));
    let me = String::from("CCONTRACT");
    c.set_greeting(me.clone(), b"hi".to_vec(), U256Value::from_u32(5)).unwrap();
    assert_eq!(c.greeting().unwrap(), b"hi".to_vec());
    assert!(c.premium());
    c.set_greeting(me.clone(), b"yo".to_vec(), U256Value::from_u32(0)).unwrap();
    assert!(!c.premium());
    assert_eq!(c.total_greeting_count(), U256Value::from_u32(2));
    assert_eq!(c.user_greeting_count(&me), U256Value::from_u32(2));
    assert_eq!(c.user_greeting_count(&String::from("GSOMEONE")), U256Value::from_u32(0));
    let big = U256Value { hi: 1, lo: 0 };
    c.set_greeting(me, b"$".to_vec(), big).unwrap();
    assert!(c.premium());
}

#[test]
fn u256_increment_carries_and_overflows() {
    let v = U256Value { hi: 0, lo: u128::MAX };
    assert_eq!(v.checked_increment(), Some(U256Value { hi: 1, lo: 0 }));
    let max = U256Value { hi: u128::MAX, lo: u128::MAX };
    assert_eq!(max.checked_increment(), None);
    assert!(!U256Value::from_u32(0).is_positive());
    assert!(U256Value { hi: 1, lo: 0 }.is_positive());
}

#[test]
fn property_metadata_roundtrip() {
    let mut store = PropertyStore::new();
    let mut m = PropertyMetadata::new(
        7,
        String::from("GOWNER"),
        String::from("Loft"),
        String::from("Two rooms"),
        String::from("Lisbon"),
        250_000,
        1_000,
        42,
    );
    assert!(m.is_active);
    assert!(PropertyMetadata::load(&store, 7).is_none());
    m.save(&mut store);
    let loaded = PropertyMetadata::load(&store, 7).unwrap();
    assert_eq!(loaded.name, "Loft");
    assert_eq!(loaded.valuation, 250_000);
    assert!(loaded.is_active);
    m.set_active(&mut store, false);
    assert!(!m.is_active);
    assert!(!PropertyMetadata::load(&store, 7).unwrap().is_active);
    PropertyMetadata::remove(&mut store, 7);
    assert!(PropertyMetadata::load(&store, 7).is_none());
}

#[test]
fn storage_key_symbols() {
    assert_eq!(StorageKey::TokenConfig.as_symbol(), "TknCfg");
    assert_eq!(StorageKey::Property(1).as_symbol(), "Prop");
    assert_eq!(StorageKey::ShareBalance(1, String::from("G")).as_symbol(), "Share");
    assert_eq!(StorageKey::TotalShares(1).as_symbol(), "TotShrs");
    assert_eq!(StorageKey::Admin.as_symbol(), "Admin");
    assert_eq!(StorageKey::PropertyCounter.as_symbol(), "PropCnt");
}

#[test]
fn store_set_get_remove() {
    let mut s: Store<u64, i32> = Store::new();
    assert_eq!(s.get(&1), None);
    s.set(1, 10);
    s.set(2, 20);
    s.set(1, 11);
    assert_eq!(s.get(&1), Some(&11));
    assert_eq!(s.get(&2), Some(&20));
    assert!(s.contains(&2));
    s.remove(&2);
    assert!(!s.contains(&2));
    s.remove(&3);
    assert_eq!(s.get(&1), Some(&11));
}
