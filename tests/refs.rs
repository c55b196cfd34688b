use red4ext_rs::{CName, IScriptable, Native, Ref, RefPool, RttiSystem, ScriptClass, ScriptClassOps, Scripted};

struct Item;

impl ScriptClass for Item {
    type Kind = Native;

    const CLASS_NAME: &'static str = "Item";
}

struct Weapon;

impl ScriptClass for Weapon {
    type Kind = Native;

    const CLASS_NAME: &'static str = "Weapon";
}

struct Vehicle;

impl ScriptClass for Vehicle {
    type Kind = Scripted;

    const CLASS_NAME: &'static str = "Vehicle";
}

struct Missing;

impl ScriptClass for Missing {
    type Kind = Native;

    const CLASS_NAME: &'static str = "Missing";
}

fn catalog() -> RttiSystem {
    let mut rtti = RttiSystem::new();
    assert!(rtti.register_class(CName::new("IScriptable"), None, vec![], 8, 8, true));
    assert!(rtti.register_class(CName::new("Item"), Some(CName::new("IScriptable")), vec![], 16, 8, false));
    assert!(rtti.register_class(CName::new("Weapon"), Some(CName::new("Item")), vec![], 24, 8, false));
    assert!(rtti.register_class(CName::new("Vehicle"), Some(CName::new("IScriptable")), vec![], 4, 4, false));
    rtti
}

#[test]
fn counts_through_a_lifetime() {
    let rtti = catalog();
    let mut pool = RefPool::new();
    let a = Ref::<Item>::new(&rtti, &mut pool).unwrap();
    let b = a.retain(&mut pool);
    let c = a.retain(&mut pool);
    assert_eq!(a.strong_count(&pool), 3);
    assert_eq!(a.weak_count(&pool), 1);
    let w = c.downgrade(&mut pool);
    assert_eq!(a.strong_count(&pool), 2);
    assert_eq!(a.weak_count(&pool), 2);
    assert!(a.instance(&pool).is_some());
    a.release(&mut pool);
    b.release(&mut pool);
    assert_eq!(w.strong_count(&pool), 0);
    assert_eq!(w.weak_count(&pool), 1);
    assert!(w.upgrade(&mut pool).is_none());
}

#[test]
fn missing_class_gives_nothing() {
    let rtti = catalog();
    let mut pool = RefPool::new();
    assert!(Ref::<Missing>::new(&rtti, &mut pool).is_none());
}

#[test]
fn upgrade_while_alive() {
    let rtti = catalog();
    let mut pool = RefPool::new();
    let a = Ref::<Item>::new(&rtti, &mut pool).unwrap();
    let b = a.retain(&mut pool);
    let w = b.downgrade(&mut pool);
    let w2 = w.retain(&mut pool);
    assert_eq!(w.weak_count(&pool), 3);
    let up = w.upgrade(&mut pool).unwrap();
    assert!(up.ptr_eq(&a));
    assert_eq!(a.strong_count(&pool), 2);
    assert_eq!(a.weak_count(&pool), 2);
    up.release(&mut pool);
    w2.release(&mut pool);
    assert_eq!(a.strong_count(&pool), 1);
    assert_eq!(a.weak_count(&pool), 1);
    a.release(&mut pool);
}

#[test]
fn downgrade_then_upgrade_keeps_counts() {
    let rtti = catalog();
    let mut pool = RefPool::new();
    let a = Ref::<Item>::new(&rtti, &mut pool).unwrap();
    let b = a.retain(&mut pool);
    let before = (a.strong_count(&pool), a.weak_count(&pool));
    let back = b.downgrade(&mut pool).upgrade(&mut pool).unwrap();
    assert!(back.ptr_eq(&a));
    assert_eq!((a.strong_count(&pool), a.weak_count(&pool)), before);
}

#[test]
fn only_strong_handle_downgraded_dies() {
    let rtti = catalog();
    let mut pool = RefPool::new();
    let a = Ref::<Item>::new(&rtti, &mut pool).unwrap();
    let w = a.downgrade(&mut pool);
    assert_eq!(w.strong_count(&pool), 0);
    assert_eq!(w.weak_count(&pool), 1);
    assert!(w.upgrade(&mut pool).is_none());
}

#[test]
fn casts_follow_the_hierarchy() {
    let rtti = catalog();
    let mut pool = RefPool::new();
    let w = Ref::<Weapon>::new(&rtti, &mut pool).unwrap();
    let keep = w.retain(&mut pool);
    let as_item = w.cast::<Item>(&rtti, &mut pool).unwrap();
    assert!(as_item.ptr_eq(&keep));
    assert_eq!(keep.strong_count(&pool), 2);
    let as_root = as_item.cast::<IScriptable>(&rtti, &mut pool).unwrap();
    let as_weapon = as_root.cast::<Weapon>(&rtti, &mut pool).unwrap();
    assert_eq!(keep.strong_count(&pool), 2);
    assert!(as_weapon.cast::<Vehicle>(&rtti, &mut pool).is_none());
    assert_eq!(keep.strong_count(&pool), 1);
    assert_eq!(keep.weak_count(&pool), 1);

    let i = Ref::<Item>::new(&rtti, &mut pool).unwrap();
    assert!(i.cast::<Weapon>(&rtti, &mut pool).is_none());
    assert!(Ref::<Item>::empty().cast::<Item>(&rtti, &mut pool).is_none());
}

#[test]
fn fields_follow_the_class_kind() {
    let rtti = catalog();
    let mut pool = RefPool::new();
    let v = Ref::<Vehicle>::new_with(&rtti, &mut pool, |mut f: Vec<u8>| {
        f[0] = 7;
        f
    })
    .unwrap();
    assert_eq!(v.fields(&pool).unwrap(), &vec![7u8, 0, 0, 0]);
    let inst = v.instance(&pool).unwrap();
    assert_eq!(inst.class, CName::new("Vehicle"));
    assert_eq!(inst.storage, vec![0u8; 4]);
    let n = Ref::<Item>::new_with(&rtti, &mut pool, |mut f: Vec<u8>| {
        f[1] = 9;
        f
    })
    .unwrap();
    assert_eq!(n.fields(&pool).unwrap()[1], 9);
    assert_eq!(n.instance(&pool).unwrap().storage.len(), 16);
    assert_eq!(n.instance(&pool).unwrap().class(&rtti).unwrap().name(), CName::new("Item"));
}

#[test]
fn empty_handles_do_nothing() {
    let mut pool = RefPool::new();
    let e = Ref::<Item>::empty();
    assert_eq!(e.strong_count(&pool), 0);
    assert!(e.instance(&pool).is_none());
    let e2 = e.retain(&mut pool);
    e.release(&mut pool);
    let w = e2.downgrade(&mut pool);
    assert!(w.upgrade(&mut pool).is_none());
}

#[test]
fn shorthand_constructors() {
    let rtti = catalog();
    let mut pool = RefPool::new();
    let a = Item::new_ref(&rtti, &mut pool).unwrap();
    assert_eq!(a.strong_count(&pool), 1);
    let b = Vehicle::new_ref_with(&rtti, &mut pool, |mut f: Vec<u8>| {
        f[3] = 1;
        f
    })
    .unwrap();
    assert_eq!(b.fields(&pool).unwrap()[3], 1);
    assert!(!a.ptr_eq(&b));
    assert!(Missing::new_ref(&rtti, &mut pool).is_none());
}

#[test]
fn fields_can_be_rewritten() {
    let rtti = catalog();
    let mut pool = RefPool::new();
    let v = Ref::<Vehicle>::new(&rtti, &mut pool).unwrap();
    v.set_fields(&mut pool, vec![1, 2, 3, 4]);
    assert_eq!(v.fields(&pool).unwrap(), &vec![1u8, 2, 3, 4]);
    assert_eq!(v.instance(&pool).unwrap().storage, vec![0u8; 4]);
    assert_eq!(v.strong_count(&pool), 1);
    let n = Ref::<Item>::new(&rtti, &mut pool).unwrap();
    n.set_fields(&mut pool, vec![5; 16]);
    assert_eq!(n.instance(&pool).unwrap().storage, vec![5u8; 16]);
    assert_eq!(v.fields(&pool).unwrap(), &vec![1u8, 2, 3, 4]);
}
