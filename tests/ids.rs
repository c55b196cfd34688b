use red4ext_rs::cname::{CName, CNamePool};
use red4ext_rs::time::{EngineTime, GameTime};
use red4ext_rs::tweak_db_id::{Cruid, TweakDbId};
use red4ext_rs::{fnv1a32, fnv1a64};

#[test]
fn conversion() {
    assert_eq!(
        TweakDbId::new("Items.FirstAidWhiffV0"),
        TweakDbId::from(90_628_141_458)
    );
    assert_eq!(
        u64::from(TweakDbId::new("Items.FirstAidWhiffV0")),
        90_628_141_458
    );
}

#[test]
fn mutation() {
    let original = TweakDbId::from(90_628_141_458);
    let modified = original.with_tdb_offset(128);
    assert_eq!(original.to_tdb_offset(), 0);
    assert_eq!(modified.to_tdb_offset(), 128);
}

#[test]
fn tweak_db_id_parts() {
    let id = TweakDbId::new("Items.FirstAidWhiffV0");
    assert_eq!(id.length(), 21);
    assert_eq!(id.hash(), (90_628_141_458u64 % (1u64 << 32)) as u32);
    assert!(id.is_valid());
    assert!(!id.has_tdb_offset());
    assert!(!TweakDbId::from(0).is_valid());
    let moved = id.with_tdb_offset(0x012345);
    assert!(moved.has_tdb_offset());
    assert_eq!(moved.to_tdb_offset(), 0x012345);
    assert_eq!(moved.hash(), id.hash());
    assert_eq!(moved.length(), id.length());
    assert_eq!(u64::from(moved), 90_628_141_458 + (0x01u64 << 40) + (0x23u64 << 48) + (0x45u64 << 56));
    assert_eq!(moved.with_tdb_offset(0).to_tdb_offset(), 0);
}

#[test]
fn tweak_db_id_from_base() {
    let base = TweakDbId::new("Items.");
    let joined = TweakDbId::new_from_base(base, "FirstAidWhiffV0");
    assert_eq!(joined, TweakDbId::new("Items.FirstAidWhiffV0"));
    assert_eq!(TweakDbId::new_with_hash_and_len(5, 2), TweakDbId::from(5 + (2u64 << 32)));
}

#[test]
fn fnv_hashes() {
    assert_eq!(fnv1a64(""), 0xcbf29ce484222325);
    assert_eq!(fnv1a64("a"), 0xaf63dc4c8601ec8c);
    assert_eq!(fnv1a32(""), 0x811c9dc5);
    assert_eq!(fnv1a32("a"), 0xe40c292c);
    assert_eq!(CName::new("a").hash, 0xaf63dc4c8601ec8c);
    assert_eq!(CName::new("a"), CName::from(0xaf63dc4c8601ec8cu64));
    assert_eq!(CName::undefined(), CName::default());
    assert!(CName::undefined().is_undefined());
    assert_ne!(CName::new("Item"), CName::new("Weapon"));
}

#[test]
fn cruid_values() {
    let c = Cruid::new("a");
    let expected = (0xF000_0000_0000_0000u64 | ((0xe40c292cu32 << 2) as u64)) as i64;
    assert_eq!(i64::from(c), expected);
    assert!(c.is_defined());
    assert!(!Cruid::default().is_defined());
    assert_eq!(Cruid::from(7), Cruid { value: 7 });
}

#[test]
fn instantiation() {
    let time = GameTime::new(2, 0, 7, 7);
    assert_eq!(time.day(), 2);
    assert_eq!(time.hour(), 0);
    assert_eq!(time.minute(), 7);
    assert_eq!(time.second(), 7);

    let time = time.with_minute(2).unwrap().with_second(2).unwrap();
    assert_eq!(time.day(), 2);
    assert_eq!(time.hour(), 0);
    assert_eq!(time.minute(), 2);
    assert_eq!(time.second(), 2);
}

#[test]
fn game_time_arithmetic() {
    let mut t = GameTime::default();
    t.add_hours(25);
    assert_eq!(u32::from(t), 90_000);
    assert_eq!(t.day(), 1);
    assert_eq!(t.hour(), 1);
    t.add_days(u32::MAX);
    assert_eq!(u32::from(t), u32::MAX);
    let t = GameTime::from(3 * 86400 + 5 * 3600 + 6 * 60 + 7);
    assert_eq!(t.with_hour(10).unwrap().hour(), 10);
    assert_eq!(t.with_hour(10).unwrap().day(), 3);
    assert!(t.with_hour(24).is_none());
    assert!(t.with_minute(60).is_none());
    assert!(t.with_second(60).is_none());
    assert_eq!(t.to_string(), "3T5:6:7");
    assert!(GameTime::from(u32::MAX).with_second(59).is_none());
}

#[test]
fn engine_time_validity() {
    assert!(!EngineTime::default().is_valid());
    assert!(EngineTime::from_bits(1).is_valid());
    assert_eq!(EngineTime::from_bits(42).to_bits(), 42);
}

#[test]
fn name_pool_records_texts() {
    let mut pool = CNamePool::new();
    let n = pool.add_cstr("Vector3");
    assert_eq!(n, CName::new("Vector3"));
    assert_eq!(n.as_str(&pool), Some("Vector3"));
    assert_eq!(pool.add_cstr("Vector3"), n);
    assert_eq!(CName::new("Other").as_str(&pool), None);
    assert_eq!(pool.as_str(n), Some("Vector3"));
}
