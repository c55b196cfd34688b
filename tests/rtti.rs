use red4ext_rs::{Bitfield, CName, CNamePool, Enum, Function, GlobalFunction, Kind, Property, RttiSystem, Type, ValueContainer};

fn prop(name: &str, offset: u32) -> Property {
    Property::new(CName::new(name), CName::new("Int32"), offset)
}

fn catalog() -> RttiSystem {
    let mut rtti = RttiSystem::new();
    assert!(rtti.register_type(Type::new(CName::new("Int32"), 4, 4, Kind::Fundamental)));
    assert!(rtti.register_class(CName::new("IScriptable"), None, vec![], 64, 8, true));
    assert!(rtti.register_class(
        CName::new("Item"),
        Some(CName::new("IScriptable")),
        vec![prop("price", 0), prop("weight", 4)],
        72,
        8,
        false
    ));
    assert!(rtti.register_class(
        CName::new("Weapon"),
        Some(CName::new("Item")),
        vec![prop("damage", 8)],
        80,
        8,
        false
    ));
    assert!(rtti.register_class(CName::new("Vehicle"), Some(CName::new("IScriptable")), vec![], 64, 8, false));
    rtti
}

#[test]
fn hierarchy_queries() {
    let rtti = catalog();
    let item = rtti.get_class(CName::new("Item")).unwrap();
    let classes: Vec<CName> = rtti.get_classes(item, true).iter().map(|c| c.name()).collect();
    assert!(classes.contains(&CName::new("Item")));
    assert!(classes.contains(&CName::new("Weapon")));
    assert!(!classes.contains(&CName::new("Vehicle")));
    let derived: Vec<CName> = rtti.get_derived_classes(item).iter().map(|c| c.name()).collect();
    assert!(derived.contains(&CName::new("Weapon")));
    assert!(!derived.contains(&CName::new("Item")));

    let root = rtti.get_class(CName::new("IScriptable")).unwrap();
    assert_eq!(rtti.get_classes(root, true).len(), 4);
    assert_eq!(rtti.get_classes(root, false).len(), 3);
    assert_eq!(rtti.get_derived_classes(root).len(), 3);
}

#[test]
fn lookups_by_name() {
    let rtti = catalog();
    let item = rtti.get_class(CName::new("Item")).unwrap();
    let weapon = rtti.get_class(CName::new("Weapon")).unwrap();
    assert_eq!(item.name(), CName::new("Item"));
    assert_eq!(weapon.name(), CName::new("Weapon"));
    assert_ne!(item.name(), weapon.name());
    assert!(rtti.get_class(CName::new("Missing")).is_none());
    assert!(rtti.get_type(CName::new("Missing")).is_none());
    let ty = rtti.get_type(CName::new("Weapon")).unwrap();
    assert_eq!(ty.kind(), Kind::Class);
    assert_eq!(ty.size(), 80);
    assert_eq!(ty.as_class(&rtti).unwrap().name(), CName::new("Weapon"));
    let int = rtti.get_type(CName::new("Int32")).unwrap();
    assert!(int.as_class(&rtti).is_none());
    assert!(int.as_array().is_none());
    assert_eq!(rtti.get_native_types().len(), 5);
}

#[test]
fn duplicate_registration_is_refused() {
    let mut rtti = catalog();
    assert!(!rtti.register_class(CName::new("Item"), None, vec![], 1, 1, false));
    assert!(!rtti.register_class(CName::new("Orphan"), Some(CName::new("Nothing")), vec![], 1, 1, false));
    assert!(!rtti.register_type(Type::new(CName::new("Int32"), 4, 4, Kind::Fundamental)));
    assert!(!rtti.register_type(Type::new(CName::new("Ghost"), 8, 8, Kind::Class)));
    assert!(rtti.get_type(CName::new("Ghost")).is_none());
    assert!(rtti.get_class(CName::new("Orphan")).is_none());
}

#[test]
fn properties_along_the_chain() {
    let rtti = catalog();
    let weapon = rtti.get_class(CName::new("Weapon")).unwrap();
    let names: Vec<CName> = weapon.all_properties(&rtti).iter().map(|p| p.name()).collect();
    assert_eq!(names, vec![CName::new("damage"), CName::new("price"), CName::new("weight")]);
    let bases: Vec<CName> = weapon.base_iter(&rtti).iter().map(|c| c.name()).collect();
    assert_eq!(bases, vec![CName::new("Item"), CName::new("IScriptable")]);
    assert_eq!(weapon.base(&rtti).unwrap().name(), CName::new("Item"));
    let root = rtti.get_class(CName::new("IScriptable")).unwrap();
    assert!(root.base(&rtti).is_none());
    assert!(root.all_properties(&rtti).is_empty());
    let p = weapon.properties()[0];
    assert_eq!(p.value(ValueContainer::new(0x1000)).addr, 0x1008);
    assert_eq!(p.type_(&rtti).unwrap().name(), CName::new("Int32"));
}

#[test]
fn enums_bitfields_and_functions() {
    let mut rtti = catalog();
    assert!(rtti.register_enum(Enum { name: CName::new("gamedataQuality"), variant_names: vec![CName::new("Common"), CName::new("Rare")] }));
    assert!(rtti.register_bitfield(Bitfield { name: CName::new("Flags"), fields: vec![CName::undefined(); 64], scripted: false }));
    assert!(rtti.register_bitfield(Bitfield { name: CName::new("ScriptFlags"), fields: vec![CName::undefined(); 64], scripted: true }));
    assert_eq!(rtti.get_enums().len(), 1);
    assert_eq!(rtti.get_enum(CName::new("gamedataQuality")).unwrap().variant_names().len(), 2);
    assert_eq!(rtti.get_bitfields(false).len(), 2);
    assert_eq!(rtti.get_bitfields(true).len(), 1);
    assert_eq!(rtti.get_bitfields(true)[0].name(), CName::new("ScriptFlags"));
    assert!(rtti.get_bitfield(CName::new("Flags")).is_some());

    let mut f = Function::new(CName::new("Add"), CName::new("Add"), None);
    assert!(f.add_param(&rtti, CName::new("Int32"), CName::new("a"), false, false));
    assert!(!f.add_param(&rtti, CName::new("Missing"), CName::new("b"), false, false));
    assert!(f.set_return_type(&rtti, CName::new("Int32")));
    f.set_is_static(true);
    f.set_is_native(true);
    f.set_is_final(true);
    assert!(f.is_static());
    assert_eq!(f.params().len(), 1);
    assert!(rtti.register_function(f));
    let m = Function::new(CName::new("Item::Use"), CName::new("Use"), Some(CName::new("Item")));
    assert!(rtti.register_function(m));
    assert_eq!(rtti.get_global_functions().len(), 1);
    assert_eq!(rtti.get_class_functions().len(), 1);
    let used = rtti.get_function(CName::new("Item::Use")).unwrap();
    assert_eq!(used.parent(&rtti).unwrap().name(), CName::new("Item"));
    assert!(rtti.get_function(CName::new("Add")).unwrap().parent(&rtti).is_none());
}

#[test]
fn script_names() {
    let mut rtti = catalog();
    assert!(rtti.register_enum(Enum { name: CName::new("gamedataQuality"), variant_names: vec![] }));
    assert!(rtti.register_script_name(CName::new("Weapon"), CName::new("ScriptWeapon")));
    assert!(rtti.register_script_name(CName::new("gamedataQuality"), CName::new("Quality")));
    assert!(!rtti.register_script_name(CName::new("Weapon"), CName::new("Other")));
    assert_eq!(rtti.get_class_by_script_name(CName::new("ScriptWeapon")).unwrap().name(), CName::new("Weapon"));
    assert_eq!(rtti.get_enum_by_script_name(CName::new("Quality")).unwrap().name(), CName::new("gamedataQuality"));
    assert!(rtti.get_class_by_script_name(CName::new("Weapon")).is_none());
    assert_eq!(rtti.convert_native_to_script_name(CName::new("Weapon")), Some(CName::new("ScriptWeapon")));
    assert_eq!(rtti.convert_script_to_native_name(CName::new("ScriptWeapon")), Some(CName::new("Weapon")));
    assert_eq!(rtti.convert_native_to_script_name(CName::new("Item")), None);
}

#[test]
fn kinds() {
    assert!(Kind::Handle.is_pointer());
    assert!(!Kind::Class.is_pointer());
    assert!(Kind::Class.is_class());
    assert!(Kind::FixedArray.is_array());
    assert!(!Kind::Enum.is_array());
    let arr = Type::new_array(CName::new("array:Int32"), 16, 8, Kind::Array, CName::new("Int32"));
    assert_eq!(arr.as_array().unwrap().inner_name(), CName::new("Int32"));
}

#[test]
fn array_element_types() {
    let mut rtti = catalog();
    let arr = Type::new_array(CName::new("array:Int32"), 16, 8, Kind::Array, CName::new("Int32"));
    assert!(rtti.register_type(arr));
    let found = rtti.get_type(CName::new("array:Int32")).unwrap();
    let view = found.as_array().unwrap();
    assert_eq!(view.inner_type(&rtti).unwrap().size(), 4);
    assert_eq!(view.as_type().name(), CName::new("array:Int32"));
}

#[test]
fn global_functions_bind_handlers() {
    let rtti = catalog();
    let mut names = CNamePool::new();
    let mut g = GlobalFunction::new(&mut names, "Module.Add;Int32Int32", "Add", 7u32);
    assert_eq!(g.as_function().name(), CName::new("Module.Add;Int32Int32"));
    assert_eq!(g.as_function().short_name, CName::new("Add"));
    assert_eq!(names.as_str(CName::new("Add")), Some("Add"));
    assert_eq!(names.as_str(CName::new("Module.Add;Int32Int32")), Some("Module.Add;Int32Int32"));
    assert!(g.as_function_mut().add_param(&rtti, CName::new("Int32"), CName::new("a"), false, false));
    g.as_function_mut().set_is_native(true);
    assert!(g.as_function().is_native);
    assert_eq!(g.as_function().params().len(), 1);
    assert_eq!(g.handler, 7);
}
