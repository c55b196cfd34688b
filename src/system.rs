//! The reflection navigator: an explicit catalog of the host's types,
//! classes, enumerations, bitfields and functions, with name lookups and
//! hierarchy queries.
use vstd::prelude::*;

use crate::cname::CName;
use crate::rtti::{ArrayType, Bitfield, Class, Enum, Function, Kind, Property, Type};

verus! {

/// The host's catalog of reflected types. Every entry is identified by its
/// name, which is unique within its collection; a class's base comes before
/// it, so that every chain of bases ends.
pub struct RttiSystem {
    types: Vec<Type>,
    classes: Vec<Class>,
    enums: Vec<Enum>,
    bitfields: Vec<Bitfield>,
    functions: Vec<Function>,
    script_names: Vec<(CName, CName)>,
}

/// Every base comes before the classes that derive from it.
pub open spec fn bases_ordered(classes: Seq<Class>) -> bool {
    forall|i: int|
        #![trigger classes[i].base]
        0 <= i < classes.len() ==> match classes[i].base {
            Some(b) => b < i,
            None => true,
        }
}

pub open spec fn class_names_unique(classes: Seq<Class>) -> bool {
    forall|i: int, j: int|
        0 <= i < classes.len() && 0 <= j < classes.len() && i != j ==> classes[i].name
            != classes[j].name
}

/// The own properties of the class at `i`, then those of each of its bases,
/// nearest base first.
pub open spec fn chain_properties(classes: Seq<Class>, i: int) -> Seq<Property>
    decreases i,
{
    if 0 <= i < classes.len() {
        classes[i].properties@ + match classes[i].base {
            Some(b) => if 0 <= b < i {
                chain_properties(classes, b as int)
            } else {
                Seq::empty()
            },
            None => Seq::empty(),
        }
    } else {
        Seq::empty()
    }
}

/// The positions of the class at `i` and of each of its bases, nearest first.
pub open spec fn chain(classes: Seq<Class>, i: int) -> Seq<int>
    decreases i,
{
    if 0 <= i < classes.len() {
        seq![i] + match classes[i].base {
            Some(b) => if 0 <= b < i {
                chain(classes, b as int)
            } else {
                Seq::empty()
            },
            None => Seq::empty(),
        }
    } else {
        Seq::empty()
    }
}

/// The class at `i`, or one of its bases, is named `name`.
pub open spec fn derives_from(classes: Seq<Class>, i: int, name: CName) -> bool
    decreases i,
{
    if 0 <= i < classes.len() {
        classes[i].name == name || match classes[i].base {
            Some(b) => 0 <= b < i && derives_from(classes, b as int, name),
            None => false,
        }
    } else {
        false
    }
}

/// The properties of a class descriptor `c` whose base, if any, lies in
/// `classes`: its own, then those of each base.
pub open spec fn all_properties_of(classes: Seq<Class>, c: Class) -> Seq<Property> {
    c.properties@ + match c.base {
        Some(b) => chain_properties(classes, b as int),
        None => Seq::empty(),
    }
}

/// Whether `get_classes` keeps the class at `i`.
pub open spec fn class_selected(
    classes: Seq<Class>,
    i: int,
    base: CName,
    include_abstract: bool,
) -> bool {
    derives_from(classes, i, base) && (include_abstract || !classes[i].is_abstract)
}

/// The classes among the first `n` that `get_classes` keeps, in catalog order.
pub open spec fn selected_classes(
    classes: Seq<Class>,
    n: int,
    base: CName,
    include_abstract: bool,
) -> Seq<Class>
    decreases n,
{
    if n <= 0 {
        Seq::empty()
    } else {
        selected_classes(classes, n - 1, base, include_abstract) + if class_selected(
            classes,
            n - 1,
            base,
            include_abstract,
        ) {
            seq![classes[n - 1]]
        } else {
            Seq::empty()
        }
    }
}

/// The strict descendants of `base` among the first `n` classes, in catalog
/// order.
pub open spec fn derived_classes(classes: Seq<Class>, n: int, base: CName) -> Seq<Class>
    decreases n,
{
    if n <= 0 {
        Seq::empty()
    } else {
        derived_classes(classes, n - 1, base) + if derives_from(classes, n - 1, base)
            && classes[n - 1].name != base {
            seq![classes[n - 1]]
        } else {
            Seq::empty()
        }
    }
}

/// The catalog holds a class named `name`.
pub open spec fn has_class(classes: Seq<Class>, name: CName) -> bool {
    exists|j: int| 0 <= j < classes.len() && classes[j].name == name
}

/// The position of the class named `name`, if there is one.
pub open spec fn class_index(classes: Seq<Class>, name: CName) -> Option<int> {
    if exists|i: int| 0 <= i < classes.len() && classes[i].name == name {
        Some(choose|i: int| 0 <= i < classes.len() && classes[i].name == name)
    } else {
        None
    }
}

pub open spec fn type_index(types: Seq<Type>, name: CName) -> Option<int> {
    if exists|i: int| 0 <= i < types.len() && types[i].name == name {
        Some(choose|i: int| 0 <= i < types.len() && types[i].name == name)
    } else {
        None
    }
}

pub open spec fn enum_index(enums: Seq<Enum>, name: CName) -> Option<int> {
    if exists|i: int| 0 <= i < enums.len() && enums[i].name == name {
        Some(choose|i: int| 0 <= i < enums.len() && enums[i].name == name)
    } else {
        None
    }
}

pub open spec fn bitfield_index(bitfields: Seq<Bitfield>, name: CName) -> Option<int> {
    if exists|i: int| 0 <= i < bitfields.len() && bitfields[i].name == name {
        Some(choose|i: int| 0 <= i < bitfields.len() && bitfields[i].name == name)
    } else {
        None
    }
}

pub open spec fn function_index(functions: Seq<Function>, name: CName) -> Option<int> {
    if exists|i: int| 0 <= i < functions.len() && functions[i].name == name {
        Some(choose|i: int| 0 <= i < functions.len() && functions[i].name == name)
    } else {
        None
    }
}

/// The script name registered for the native name `name`.
pub open spec fn script_name_of(pairs: Seq<(CName, CName)>, name: CName) -> Option<CName> {
    if exists|i: int| 0 <= i < pairs.len() && pairs[i].0 == name {
        Some(pairs[choose|i: int| 0 <= i < pairs.len() && pairs[i].0 == name].1)
    } else {
        None
    }
}

/// The native name for which the script name `name` was registered.
pub open spec fn native_name_of(pairs: Seq<(CName, CName)>, name: CName) -> Option<CName> {
    if exists|i: int| 0 <= i < pairs.len() && pairs[i].1 == name {
        Some(pairs[choose|i: int| 0 <= i < pairs.len() && pairs[i].1 == name].0)
    } else {
        None
    }
}

impl RttiSystem {
    pub closed spec fn spec_types(&self) -> Seq<Type> {
        self.types@
    }

    pub closed spec fn spec_classes(&self) -> Seq<Class> {
        self.classes@
    }

    pub closed spec fn spec_enums(&self) -> Seq<Enum> {
        self.enums@
    }

    pub closed spec fn spec_bitfields(&self) -> Seq<Bitfield> {
        self.bitfields@
    }

    pub closed spec fn spec_functions(&self) -> Seq<Function> {
        self.functions@
    }

    pub closed spec fn spec_script_names(&self) -> Seq<(CName, CName)> {
        self.script_names@
    }

    /// Names are unique in each collection, native and script names are each
    /// registered once, every base comes before the classes derived from it,
    /// and every type tagged as a class has a class of its name.
    pub open spec fn wf(&self) -> bool {
        let types = self.spec_types();
        let enums = self.spec_enums();
        let bitfields = self.spec_bitfields();
        let functions = self.spec_functions();
        let pairs = self.spec_script_names();
        &&& class_names_unique(self.spec_classes())
        &&& bases_ordered(self.spec_classes())
        &&& forall|i: int|
            0 <= i < types.len() ==> ((#[trigger] types[i]).kind == Kind::Class ==> has_class(
                self.spec_classes(),
                types[i].name,
            ))
        &&& forall|i: int, j: int|
            0 <= i < types.len() && 0 <= j < types.len() && i != j ==> types[i].name
                != types[j].name
        &&& forall|i: int, j: int|
            0 <= i < enums.len() && 0 <= j < enums.len() && i != j ==> enums[i].name
                != enums[j].name
        &&& forall|i: int, j: int|
            0 <= i < bitfields.len() && 0 <= j < bitfields.len() && i != j ==> bitfields[i].name
                != bitfields[j].name
        &&& forall|i: int, j: int|
            0 <= i < functions.len() && 0 <= j < functions.len() && i != j ==> functions[i].name
                != functions[j].name
        &&& forall|i: int, j: int|
            0 <= i < pairs.len() && 0 <= j < pairs.len() && i != j ==> pairs[i].0 != pairs[j].0
                && pairs[i].1 != pairs[j].1
    }

    /// The class descriptor that `get_class` finds for `name`.
    pub open spec fn spec_get_class(&self, name: CName) -> Option<Class> {
        match class_index(self.spec_classes(), name) {
            Some(i) => Some(self.spec_classes()[i]),
            None => None,
        }
    }

    /// An empty catalog.
    pub fn new() -> (r: RttiSystem)
        ensures
            r.wf(),
            r.spec_types().len() == 0,
            r.spec_classes().len() == 0,
            r.spec_enums().len() == 0,
            r.spec_bitfields().len() == 0,
            r.spec_functions().len() == 0,
            r.spec_script_names().len() == 0,
    {
        RttiSystem {
            types: Vec::new(),
            classes: Vec::new(),
            enums: Vec::new(),
            bitfields: Vec::new(),
            functions: Vec::new(),
            script_names: Vec::new(),
        }
    }

    pub(crate) fn find_class(&self, name: CName) -> (r: Option<usize>)
        requires
            self.wf(),
        ensures
            r matches Some(i) ==> class_index(self.spec_classes(), name) == Some(i as int),
            r is None ==> class_index(self.spec_classes(), name) is None,
    {
        let mut i: usize = 0;
        while i < self.classes.len()
            invariant
                self.wf(),
                i <= self.classes@.len(),
                forall|j: int| 0 <= j < i ==> self.spec_classes()[j].name != name,
            decreases self.classes@.len() - i,
        {
            if self.classes[i].name == name {
                proof {
                    let v = self.spec_classes();
                    assert(v[i as int].name == name);
                    let k = choose|k: int| 0 <= k < v.len() && v[k].name == name;
                    assert(v[k].name == v[i as int].name);
                }
                return Some(i);
            }
            i = i + 1;
        }
        None
    }

    fn find_type(&self, name: CName) -> (r: Option<usize>)
        requires
            self.wf(),
        ensures
            r matches Some(i) ==> type_index(self.spec_types(), name) == Some(i as int),
            r is None ==> type_index(self.spec_types(), name) is None,
    {
        let mut i: usize = 0;
        while i < self.types.len()
            invariant
                self.wf(),
                i <= self.types@.len(),
                forall|j: int| 0 <= j < i ==> self.spec_types()[j].name != name,
            decreases self.types@.len() - i,
        {
            if self.types[i].name == name {
                proof {
                    let v = self.spec_types();
                    assert(v[i as int].name == name);
                    let k = choose|k: int| 0 <= k < v.len() && v[k].name == name;
                    assert(v[k].name == v[i as int].name);
                }
                return Some(i);
            }
            i = i + 1;
        }
        None
    }

    fn find_enum(&self, name: CName) -> (r: Option<usize>)
        requires
            self.wf(),
        ensures
            r matches Some(i) ==> enum_index(self.spec_enums(), name) == Some(i as int),
            r is None ==> enum_index(self.spec_enums(), name) is None,
    {
        let mut i: usize = 0;
        while i < self.enums.len()
            invariant
                self.wf(),
                i <= self.enums@.len(),
                forall|j: int| 0 <= j < i ==> self.spec_enums()[j].name != name,
            decreases self.enums@.len() - i,
        {
            if self.enums[i].name == name {
                proof {
                    let v = self.spec_enums();
                    assert(v[i as int].name == name);
                    let k = choose|k: int| 0 <= k < v.len() && v[k].name == name;
                    assert(v[k].name == v[i as int].name);
                }
                return Some(i);
            }
            i = i + 1;
        }
        None
    }

    fn find_bitfield(&self, name: CName) -> (r: Option<usize>)
        requires
            self.wf(),
        ensures
            r matches Some(i) ==> bitfield_index(self.spec_bitfields(), name) == Some(i as int),
            r is None ==> bitfield_index(self.spec_bitfields(), name) is None,
    {
        let mut i: usize = 0;
        while i < self.bitfields.len()
            invariant
                self.wf(),
                i <= self.bitfields@.len(),
                forall|j: int| 0 <= j < i ==> self.spec_bitfields()[j].name != name,
            decreases self.bitfields@.len() - i,
        {
            if self.bitfields[i].name == name {
                proof {
                    let v = self.spec_bitfields();
                    assert(v[i as int].name == name);
                    let k = choose|k: int| 0 <= k < v.len() && v[k].name == name;
                    assert(v[k].name == v[i as int].name);
                }
                return Some(i);
            }
            i = i + 1;
        }
        None
    }

    fn find_function(&self, name: CName) -> (r: Option<usize>)
        requires
            self.wf(),
        ensures
            r matches Some(i) ==> function_index(self.spec_functions(), name) == Some(i as int),
            r is None ==> function_index(self.spec_functions(), name) is None,
    {
        let mut i: usize = 0;
        while i < self.functions.len()
            invariant
                self.wf(),
                i <= self.functions@.len(),
                forall|j: int| 0 <= j < i ==> self.spec_functions()[j].name != name,
            decreases self.functions@.len() - i,
        {
            if self.functions[i].name == name {
                proof {
                    let v = self.spec_functions();
                    assert(v[i as int].name == name);
                    let k = choose|k: int| 0 <= k < v.len() && v[k].name == name;
                    assert(v[k].name == v[i as int].name);
                }
                return Some(i);
            }
            i = i + 1;
        }
        None
    }

    /// The class named `name`, if the catalog holds one.
    pub fn get_class(&self, name: CName) -> (r: Option<&Class>)
        requires
            self.wf(),
        ensures
            r matches Some(c) ==> Some(*c) == self.spec_get_class(name),
            r is None ==> self.spec_get_class(name) is None,
    {
        match self.find_class(name) {
            Some(i) => Some(&self.classes[i]),
            None => None,
        }
    }

    /// The type named `name`, if the catalog holds one.
    pub fn get_type(&self, name: CName) -> (r: Option<&Type>)
        requires
            self.wf(),
        ensures
            r matches Some(t) ==> type_index(self.spec_types(), name) matches Some(i)
                && *t == self.spec_types()[i],
            r is None ==> type_index(self.spec_types(), name) is None,
    {
        match self.find_type(name) {
            Some(i) => Some(&self.types[i]),
            None => None,
        }
    }

    /// The enumeration named `name`, if the catalog holds one.
    pub fn get_enum(&self, name: CName) -> (r: Option<&Enum>)
        requires
            self.wf(),
        ensures
            r matches Some(e) ==> enum_index(self.spec_enums(), name) matches Some(i) && *e
                == self.spec_enums()[i],
            r is None ==> enum_index(self.spec_enums(), name) is None,
    {
        match self.find_enum(name) {
            Some(i) => Some(&self.enums[i]),
            None => None,
        }
    }

    /// The bitfield named `name`, if the catalog holds one.
    pub fn get_bitfield(&self, name: CName) -> (r: Option<&Bitfield>)
        requires
            self.wf(),
        ensures
            r matches Some(b) ==> bitfield_index(self.spec_bitfields(), name) matches Some(i)
                && *b == self.spec_bitfields()[i],
            r is None ==> bitfield_index(self.spec_bitfields(), name) is None,
    {
        match self.find_bitfield(name) {
            Some(i) => Some(&self.bitfields[i]),
            None => None,
        }
    }

    /// The function named `name`, if the catalog holds one.
    pub fn get_function(&self, name: CName) -> (r: Option<&Function>)
        requires
            self.wf(),
        ensures
            r matches Some(f) ==> function_index(self.spec_functions(), name) matches Some(i)
                && *f == self.spec_functions()[i],
            r is None ==> function_index(self.spec_functions(), name) is None,
    {
        match self.find_function(name) {
            Some(i) => Some(&self.functions[i]),
            None => None,
        }
    }

    /// Adds a class named `name` whose base is the class named `base`, and
    /// the type of kind class that goes with it. Refused when a class or a
    /// type of that name exists, or the base is not in the catalog.
    pub fn register_class(
        &mut self,
        name: CName,
        base: Option<CName>,
        properties: Vec<Property>,
        size: u32,
        alignment: u32,
        is_abstract: bool,
    ) -> (r: bool)
        requires
            old(self).wf(),
        ensures
            final(self).wf(),
            r == (class_index(old(self).spec_classes(), name) is None && type_index(
                old(self).spec_types(),
                name,
            ) is None && (base matches Some(b) ==> class_index(old(self).spec_classes(), b) is Some)),
            r ==> final(self).spec_classes() == old(self).spec_classes().push(
                Class {
                    name,
                    base: match base {
                        Some(b) => Some(class_index(old(self).spec_classes(), b).unwrap() as usize),
                        None => None,
                    },
                    properties,
                    size,
                    alignment,
                    is_abstract,
                },
            ),
            r ==> final(self).spec_types() == old(self).spec_types().push(
                Type { name, size, alignment, kind: Kind::Class, inner: CName { hash: 0 } },
            ),
            !r ==> final(self).spec_classes() == old(self).spec_classes(),
            !r ==> final(self).spec_types() == old(self).spec_types(),
            final(self).spec_enums() == old(self).spec_enums(),
            final(self).spec_bitfields() == old(self).spec_bitfields(),
            final(self).spec_functions() == old(self).spec_functions(),
            final(self).spec_script_names() == old(self).spec_script_names(),
    {
        if self.find_class(name).is_some() || self.find_type(name).is_some() {
            return false;
        }
        let base_index = match base {
            Some(b) => match self.find_class(b) {
                Some(i) => Some(i),
                None => {
                    return false;
                },
            },
            None => None,
        };
        let ghost old_classes = self.spec_classes();
        let ghost old_types = self.spec_types();
        let n = self.classes.len();
        self.classes.push(Class { name, base: base_index, properties, size, alignment, is_abstract });
        self.types.push(Type { name, size, alignment, kind: Kind::Class, inner: CName { hash: 0 } });
        proof {
            let cs = self.spec_classes();
            let ts = self.spec_types();
            assert forall|i: int, j: int|
                0 <= i < cs.len() && 0 <= j < cs.len() && i != j implies #[trigger] cs[i].name
                != #[trigger] cs[j].name by {
                if i < old_classes.len() {
                    assert(cs[i] == old_classes[i]);
                }
                if j < old_classes.len() {
                    assert(cs[j] == old_classes[j]);
                }
                if i < old_classes.len() && old_classes[i].name == name {
                    assert(0 <= i < old_classes.len() && old_classes[i].name == name);
                }
                if j < old_classes.len() && old_classes[j].name == name {
                    assert(0 <= j < old_classes.len() && old_classes[j].name == name);
                }
            }
            assert forall|i: int, j: int|
                0 <= i < ts.len() && 0 <= j < ts.len() && i != j implies #[trigger] ts[i].name
                != #[trigger] ts[j].name by {
                if i < old_types.len() {
                    assert(ts[i] == old_types[i]);
                }
                if j < old_types.len() {
                    assert(ts[j] == old_types[j]);
                }
                if i < old_types.len() && old_types[i].name == name {
                    assert(0 <= i < old_types.len() && old_types[i].name == name);
                }
                if j < old_types.len() && old_types[j].name == name {
                    assert(0 <= j < old_types.len() && old_types[j].name == name);
                }
            }
            assert forall|i: int| 0 <= i < ts.len() && (#[trigger] ts[i]).kind == Kind::Class implies has_class(
                cs,
                ts[i].name,
            ) by {
                if i < old_types.len() {
                    assert(ts[i] == old_types[i]);
                    if ts[i].kind == Kind::Class {
                        assert(has_class(old_classes, ts[i].name));
                        let j = choose|j: int|
                            0 <= j < old_classes.len() && old_classes[j].name == ts[i].name;
                        assert(cs[j] == old_classes[j]);
                    }
                } else {
                    assert(cs[old_classes.len() as int].name == name);
                }
            }
            assert(bases_ordered(cs)) by {
                assert forall|i: int| 0 <= i < cs.len() implies match #[trigger] cs[i].base {
                    Some(b) => b < i,
                    None => true,
                } by {
                    if i < old_classes.len() {
                        assert(cs[i] == old_classes[i]);
                    }
                }
            }
        }
        assert(self.spec_enums() == old(self).spec_enums());
        assert(self.spec_bitfields() == old(self).spec_bitfields());
        assert(self.spec_functions() == old(self).spec_functions());
        assert(self.spec_script_names() == old(self).spec_script_names());
        true
    }

    /// Adds a type that is not a class; classes come in through
    /// `register_class`. Refused when the type is tagged as a class or a
    /// type of that name exists.
    pub fn register_type(&mut self, ty: Type) -> (r: bool)
        requires
            old(self).wf(),
        ensures
            final(self).wf(),
            r == (ty.kind != Kind::Class && type_index(old(self).spec_types(), ty.name) is None),
            final(self).spec_types() == if r {
                old(self).spec_types().push(ty)
            } else {
                old(self).spec_types()
            },
            final(self).spec_classes() == old(self).spec_classes(),
            final(self).spec_enums() == old(self).spec_enums(),
            final(self).spec_bitfields() == old(self).spec_bitfields(),
            final(self).spec_functions() == old(self).spec_functions(),
            final(self).spec_script_names() == old(self).spec_script_names(),
    {
        if ty.kind.is_class() || self.find_type(ty.name).is_some() {
            return false;
        }
        let ghost old_types = self.spec_types();
        self.types.push(ty);
        proof {
            let v = self.spec_types();
            assert forall|i: int| 0 <= i < v.len() && (#[trigger] v[i]).kind == Kind::Class implies has_class(
                self.spec_classes(),
                v[i].name,
            ) by {
                if i < old_types.len() {
                    assert(v[i] == old_types[i]);
                }
            }
        }
        proof {
            let v = self.spec_types();
            assert forall|i: int, j: int|
                0 <= i < v.len() && 0 <= j < v.len() && i != j implies #[trigger] v[i].name
                != #[trigger] v[j].name by {
                if i < old_types.len() {
                    assert(v[i] == old_types[i]);
                }
                if j < old_types.len() {
                    assert(v[j] == old_types[j]);
                }
                if i < old_types.len() && old_types[i].name == ty.name {
                    assert(0 <= i < old_types.len() && old_types[i].name == ty.name);
                }
                if j < old_types.len() && old_types[j].name == ty.name {
                    assert(0 <= j < old_types.len() && old_types[j].name == ty.name);
                }
            }
        }
        assert(self.spec_classes() == old(self).spec_classes());
        assert(self.spec_enums() == old(self).spec_enums());
        assert(self.spec_bitfields() == old(self).spec_bitfields());
        assert(self.spec_functions() == old(self).spec_functions());
        assert(self.spec_script_names() == old(self).spec_script_names());
        true
    }

    /// Adds an enumeration. Refused when one of that name exists.
    pub fn register_enum(&mut self, e: Enum) -> (r: bool)
        requires
            old(self).wf(),
        ensures
            final(self).wf(),
            r == (enum_index(old(self).spec_enums(), e.name) is None),
            final(self).spec_enums() == if r {
                old(self).spec_enums().push(e)
            } else {
                old(self).spec_enums()
            },
            final(self).spec_types() == old(self).spec_types(),
            final(self).spec_classes() == old(self).spec_classes(),
            final(self).spec_bitfields() == old(self).spec_bitfields(),
            final(self).spec_functions() == old(self).spec_functions(),
            final(self).spec_script_names() == old(self).spec_script_names(),
    {
        if self.find_enum(e.name).is_some() {
            return false;
        }
        let ghost old_enums = self.spec_enums();
        let ghost name = e.name;
        self.enums.push(e);
        proof {
            let v = self.spec_enums();
            assert forall|i: int, j: int|
                0 <= i < v.len() && 0 <= j < v.len() && i != j implies #[trigger] v[i].name
                != #[trigger] v[j].name by {
                if i < old_enums.len() {
                    assert(v[i] == old_enums[i]);
                }
                if j < old_enums.len() {
                    assert(v[j] == old_enums[j]);
                }
                if i < old_enums.len() && old_enums[i].name == name {
                    assert(0 <= i < old_enums.len() && old_enums[i].name == name);
                }
                if j < old_enums.len() && old_enums[j].name == name {
                    assert(0 <= j < old_enums.len() && old_enums[j].name == name);
                }
            }
        }
        assert(self.spec_types() == old(self).spec_types());
        assert(self.spec_classes() == old(self).spec_classes());
        assert(self.spec_bitfields() == old(self).spec_bitfields());
        assert(self.spec_functions() == old(self).spec_functions());
        assert(self.spec_script_names() == old(self).spec_script_names());
        true
    }

    /// Adds a bitfield. Refused when one of that name exists.
    pub fn register_bitfield(&mut self, b: Bitfield) -> (r: bool)
        requires
            old(self).wf(),
        ensures
            final(self).wf(),
            r == (bitfield_index(old(self).spec_bitfields(), b.name) is None),
            final(self).spec_bitfields() == if r {
                old(self).spec_bitfields().push(b)
            } else {
                old(self).spec_bitfields()
            },
            final(self).spec_types() == old(self).spec_types(),
            final(self).spec_classes() == old(self).spec_classes(),
            final(self).spec_enums() == old(self).spec_enums(),
            final(self).spec_functions() == old(self).spec_functions(),
            final(self).spec_script_names() == old(self).spec_script_names(),
    {
        if self.find_bitfield(b.name).is_some() {
            return false;
        }
        let ghost old_bitfields = self.spec_bitfields();
        let ghost name = b.name;
        self.bitfields.push(b);
        proof {
            let v = self.spec_bitfields();
            assert forall|i: int, j: int|
                0 <= i < v.len() && 0 <= j < v.len() && i != j implies #[trigger] v[i].name
                != #[trigger] v[j].name by {
                if i < old_bitfields.len() {
                    assert(v[i] == old_bitfields[i]);
                }
                if j < old_bitfields.len() {
                    assert(v[j] == old_bitfields[j]);
                }
                if i < old_bitfields.len() && old_bitfields[i].name == name {
                    assert(0 <= i < old_bitfields.len() && old_bitfields[i].name == name);
                }
                if j < old_bitfields.len() && old_bitfields[j].name == name {
                    assert(0 <= j < old_bitfields.len() && old_bitfields[j].name == name);
                }
            }
        }
        assert(self.spec_types() == old(self).spec_types());
        assert(self.spec_classes() == old(self).spec_classes());
        assert(self.spec_enums() == old(self).spec_enums());
        assert(self.spec_functions() == old(self).spec_functions());
        assert(self.spec_script_names() == old(self).spec_script_names());
        true
    }

    /// Adds a function; from then on the catalog owns it and it can no longer
    /// be changed. Refused when one of that name exists.
    pub fn register_function(&mut self, f: Function) -> (r: bool)
        requires
            old(self).wf(),
        ensures
            final(self).wf(),
            r == (function_index(old(self).spec_functions(), f.name) is None),
            final(self).spec_functions() == if r {
                old(self).spec_functions().push(f)
            } else {
                old(self).spec_functions()
            },
            final(self).spec_types() == old(self).spec_types(),
            final(self).spec_classes() == old(self).spec_classes(),
            final(self).spec_enums() == old(self).spec_enums(),
            final(self).spec_bitfields() == old(self).spec_bitfields(),
            final(self).spec_script_names() == old(self).spec_script_names(),
    {
        if self.find_function(f.name).is_some() {
            return false;
        }
        let ghost old_functions = self.spec_functions();
        let ghost name = f.name;
        self.functions.push(f);
        proof {
            let v = self.spec_functions();
            assert forall|i: int, j: int|
                0 <= i < v.len() && 0 <= j < v.len() && i != j implies #[trigger] v[i].name
                != #[trigger] v[j].name by {
                if i < old_functions.len() {
                    assert(v[i] == old_functions[i]);
                }
                if j < old_functions.len() {
                    assert(v[j] == old_functions[j]);
                }
                if i < old_functions.len() && old_functions[i].name == name {
                    assert(0 <= i < old_functions.len() && old_functions[i].name == name);
                }
                if j < old_functions.len() && old_functions[j].name == name {
                    assert(0 <= j < old_functions.len() && old_functions[j].name == name);
                }
            }
        }
        assert(self.spec_types() == old(self).spec_types());
        assert(self.spec_classes() == old(self).spec_classes());
        assert(self.spec_enums() == old(self).spec_enums());
        assert(self.spec_bitfields() == old(self).spec_bitfields());
        assert(self.spec_script_names() == old(self).spec_script_names());
        true
    }

    fn find_script_pair(&self, name: CName, by_script: bool) -> (r: Option<usize>)
        requires
            self.wf(),
        ensures
            r matches Some(i) ==> i < self.spec_script_names().len() && (if by_script {
                self.spec_script_names()[i as int].1 == name
            } else {
                self.spec_script_names()[i as int].0 == name
            }),
            r is None ==> forall|i: int|
                0 <= i < self.spec_script_names().len() ==> (if by_script {
                    self.spec_script_names()[i].1 != name
                } else {
                    self.spec_script_names()[i].0 != name
                }),
    {
        let mut i: usize = 0;
        while i < self.script_names.len()
            invariant
                self.wf(),
                i <= self.script_names@.len(),
                forall|j: int|
                    0 <= j < i ==> (if by_script {
                        self.spec_script_names()[j].1 != name
                    } else {
                        self.spec_script_names()[j].0 != name
                    }),
            decreases self.script_names@.len() - i,
        {
            let (native, script) = self.script_names[i];
            if (by_script && script == name) || (!by_script && native == name) {
                return Some(i);
            }
            i = i + 1;
        }
        None
    }

    /// Records `script` as the name that scripts use for the native name
    /// `native`. Refused when either name already has a counterpart.
    pub fn register_script_name(&mut self, native: CName, script: CName) -> (r: bool)
        requires
            old(self).wf(),
        ensures
            final(self).wf(),
            r == (script_name_of(old(self).spec_script_names(), native) is None && native_name_of(
                old(self).spec_script_names(),
                script,
            ) is None),
            final(self).spec_script_names() == if r {
                old(self).spec_script_names().push((native, script))
            } else {
                old(self).spec_script_names()
            },
            final(self).spec_types() == old(self).spec_types(),
            final(self).spec_classes() == old(self).spec_classes(),
            final(self).spec_enums() == old(self).spec_enums(),
            final(self).spec_bitfields() == old(self).spec_bitfields(),
            final(self).spec_functions() == old(self).spec_functions(),
    {
        let ghost pairs = self.spec_script_names();
        match self.find_script_pair(native, false) {
            Some(i) => {
                assert(pairs[i as int].0 == native);
                return false;
            },
            None => {},
        }
        match self.find_script_pair(script, true) {
            Some(i) => {
                assert(pairs[i as int].1 == script);
                return false;
            },
            None => {},
        }
        self.script_names.push((native, script));
        assert(self.spec_types() == old(self).spec_types());
        assert(self.spec_classes() == old(self).spec_classes());
        assert(self.spec_enums() == old(self).spec_enums());
        assert(self.spec_bitfields() == old(self).spec_bitfields());
        assert(self.spec_functions() == old(self).spec_functions());
        true
    }

    /// The script name registered for the native name `name`.
    pub fn convert_native_to_script_name(&self, name: CName) -> (r: Option<CName>)
        requires
            self.wf(),
        ensures
            r == script_name_of(self.spec_script_names(), name),
    {
        let ghost pairs = self.spec_script_names();
        match self.find_script_pair(name, false) {
            Some(i) => {
                proof {
                    let k = choose|k: int| 0 <= k < pairs.len() && pairs[k].0 == name;
                    assert(pairs[k].0 == pairs[i as int].0);
                }
                Some(self.script_names[i].1)
            },
            None => None,
        }
    }

    /// The native name for which `name` was registered as script name.
    pub fn convert_script_to_native_name(&self, name: CName) -> (r: Option<CName>)
        requires
            self.wf(),
        ensures
            r == native_name_of(self.spec_script_names(), name),
    {
        let ghost pairs = self.spec_script_names();
        match self.find_script_pair(name, true) {
            Some(i) => {
                proof {
                    let k = choose|k: int| 0 <= k < pairs.len() && pairs[k].1 == name;
                    assert(pairs[k].1 == pairs[i as int].1);
                }
                Some(self.script_names[i].0)
            },
            None => None,
        }
    }

    /// The class whose native name has the script name `name`.
    pub fn get_class_by_script_name(&self, name: CName) -> (r: Option<&Class>)
        requires
            self.wf(),
        ensures
            r matches Some(c) ==> native_name_of(self.spec_script_names(), name) matches Some(n)
                && Some(*c) == self.spec_get_class(n),
            r is None ==> (native_name_of(self.spec_script_names(), name) matches Some(n)
                ==> self.spec_get_class(n) is None),
    {
        match self.convert_script_to_native_name(name) {
            Some(n) => self.get_class(n),
            None => None,
        }
    }

    /// The enumeration whose native name has the script name `name`.
    pub fn get_enum_by_script_name(&self, name: CName) -> (r: Option<&Enum>)
        requires
            self.wf(),
        ensures
            r matches Some(e) ==> native_name_of(self.spec_script_names(), name) matches Some(n)
                && enum_index(self.spec_enums(), n) matches Some(i) && *e == self.spec_enums()[i],
            r is None ==> (native_name_of(self.spec_script_names(), name) matches Some(n)
                ==> enum_index(self.spec_enums(), n) is None),
    {
        match self.convert_script_to_native_name(name) {
            Some(n) => self.get_enum(n),
            None => None,
        }
    }
}


/// The base of a class descriptor `c`, if any, lies in the catalog.
pub open spec fn base_in(rtti: &RttiSystem, c: &Class) -> bool {
    c.base matches Some(b) ==> b < rtti.spec_classes().len()
}

impl RttiSystem {
    /// Whether the class at `i`, or one of its bases, is named `name`.
    pub(crate) fn class_derives(&self, i: usize, name: CName) -> (r: bool)
        requires
            self.wf(),
            i < self.spec_classes().len(),
        ensures
            r == derives_from(self.spec_classes(), i as int, name),
    {
        let ghost classes = self.spec_classes();
        let mut cur: usize = i;
        loop
            invariant
                self.wf(),
                classes == self.spec_classes(),
                cur < classes.len(),
                derives_from(classes, i as int, name) == derives_from(classes, cur as int, name),
            decreases cur,
        {
            let c = &self.classes[cur];
            assert(classes[cur as int].base == c.base);
            if c.name == name {
                return true;
            }
            match c.base {
                Some(b) => {
                    cur = b;
                },
                None => {
                    return false;
                },
            }
        }
    }

    /// `base` and the classes derived from it, in catalog order; abstract
    /// classes only when `include_abstract` holds.
    pub fn get_classes(&self, base: &Class, include_abstract: bool) -> (r: Vec<&Class>)
        requires
            self.wf(),
        ensures
            r@.len() == selected_classes(
                self.spec_classes(),
                self.spec_classes().len() as int,
                base.name,
                include_abstract,
            ).len(),
            forall|k: int|
                0 <= k < r@.len() ==> *r@[k] == selected_classes(
                    self.spec_classes(),
                    self.spec_classes().len() as int,
                    base.name,
                    include_abstract,
                )[k],
    {
        let ghost classes = self.spec_classes();
        let mut out: Vec<&Class> = Vec::new();
        let mut i: usize = 0;
        while i < self.classes.len()
            invariant
                self.wf(),
                classes == self.spec_classes(),
                i <= classes.len(),
                out@.len() == selected_classes(classes, i as int, base.name, include_abstract).len(),
                forall|k: int|
                    0 <= k < out@.len() ==> *out@[k] == selected_classes(
                        classes,
                        i as int,
                        base.name,
                        include_abstract,
                    )[k],
            decreases classes.len() - i,
        {
            let ghost before = selected_classes(classes, i as int, base.name, include_abstract);
            if self.class_derives(i, base.name) && (include_abstract || !self.classes[i].is_abstract) {
                out.push(&self.classes[i]);
                assert(selected_classes(classes, i as int + 1, base.name, include_abstract) =~= before.push(classes[i as int]));
            } else {
                assert(selected_classes(classes, i as int + 1, base.name, include_abstract) =~= before);
            }
            i = i + 1;
        }
        out
    }

    /// The classes derived from `base`, directly or not, in catalog order;
    /// `base` itself is left out.
    pub fn get_derived_classes(&self, base: &Class) -> (r: Vec<&Class>)
        requires
            self.wf(),
        ensures
            r@.len() == derived_classes(
                self.spec_classes(),
                self.spec_classes().len() as int,
                base.name,
            ).len(),
            forall|k: int|
                0 <= k < r@.len() ==> *r@[k] == derived_classes(
                    self.spec_classes(),
                    self.spec_classes().len() as int,
                    base.name,
                )[k],
    {
        let ghost classes = self.spec_classes();
        let mut out: Vec<&Class> = Vec::new();
        let mut i: usize = 0;
        while i < self.classes.len()
            invariant
                self.wf(),
                classes == self.spec_classes(),
                i <= classes.len(),
                out@.len() == derived_classes(classes, i as int, base.name).len(),
                forall|k: int|
                    0 <= k < out@.len() ==> *out@[k] == derived_classes(classes, i as int, base.name)[k],
            decreases classes.len() - i,
        {
            let ghost before = derived_classes(classes, i as int, base.name);
            if self.class_derives(i, base.name) && self.classes[i].name != base.name {
                out.push(&self.classes[i]);
                assert(derived_classes(classes, i as int + 1, base.name) =~= before.push(classes[i as int]));
            } else {
                assert(derived_classes(classes, i as int + 1, base.name) =~= before);
            }
            i = i + 1;
        }
        out
    }

    /// A snapshot of every type in the catalog.
    pub fn get_native_types(&self) -> (r: Vec<Type>)
        ensures
            r@ == self.spec_types(),
    {
        let mut out: Vec<Type> = Vec::new();
        let mut i: usize = 0;
        while i < self.types.len()
            invariant
                i <= self.types@.len(),
                out@ == self.spec_types().subrange(0, i as int),
            decreases self.types@.len() - i,
        {
            out.push(self.types[i]);
            i = i + 1;
            assert(out@ =~= self.spec_types().subrange(0, i as int));
        }
        assert(self.spec_types().subrange(0, i as int) =~= self.spec_types());
        out
    }

    /// A snapshot of every enumeration in the catalog.
    pub fn get_enums(&self) -> (r: Vec<&Enum>)
        ensures
            r@.len() == self.spec_enums().len(),
            forall|k: int| 0 <= k < r@.len() ==> *r@[k] == self.spec_enums()[k],
    {
        let mut out: Vec<&Enum> = Vec::new();
        let mut i: usize = 0;
        while i < self.enums.len()
            invariant
                i <= self.enums@.len(),
                out@.len() == i,
                forall|k: int| 0 <= k < i ==> *out@[k] == self.spec_enums()[k],
            decreases self.enums@.len() - i,
        {
            out.push(&self.enums[i]);
            i = i + 1;
        }
        out
    }

    /// A snapshot of the bitfields in the catalog: all of them, or only
    /// those that scripts declared.
    pub fn get_bitfields(&self, scripted_only: bool) -> (r: Vec<&Bitfield>)
        ensures
            r@.len() == self.spec_bitfields().filter(|b: Bitfield| !scripted_only || b.scripted).len(),
            forall|k: int|
                0 <= k < r@.len() ==> *r@[k] == self.spec_bitfields().filter(
                    |b: Bitfield| !scripted_only || b.scripted,
                )[k],
    {
        let ghost pred = |b: Bitfield| !scripted_only || b.scripted;
        let ghost all = self.spec_bitfields();
        let mut out: Vec<&Bitfield> = Vec::new();
        let mut i: usize = 0;
        while i < self.bitfields.len()
            invariant
                pred == (|b: Bitfield| !scripted_only || b.scripted),
                all == self.spec_bitfields(),
                i <= all.len(),
                out@.len() == all.subrange(0, i as int).filter(pred).len(),
                forall|k: int|
                    0 <= k < out@.len() ==> *out@[k] == all.subrange(0, i as int).filter(pred)[k],
            decreases all.len() - i,
        {
            let ghost before = all.subrange(0, i as int).filter(pred);
            let keep = !scripted_only || self.bitfields[i].scripted;
            proof {
                reveal(Seq::filter);
                let t = all.subrange(0, i as int + 1);
                assert(t.drop_last() =~= all.subrange(0, i as int));
                assert(t.last() == all[i as int]);
                assert(pred(all[i as int]) == keep);
                if keep {
                    assert(all.subrange(0, i as int + 1).filter(pred) == before.push(all[i as int]));
                } else {
                    assert(all.subrange(0, i as int + 1).filter(pred) == before);
                }
            }
            if keep {
                out.push(&self.bitfields[i]);
            }
            i = i + 1;
        }
        assert(all.subrange(0, i as int) =~= all);
        out
    }

    /// A snapshot of the global functions when `global` holds, else of the
    /// methods of classes.
    fn functions_where(&self, global: bool) -> (r: Vec<&Function>)
        ensures
            r@.len() == self.spec_functions().filter(|f: Function| (f.parent is None) == global).len(),
            forall|k: int|
                0 <= k < r@.len() ==> *r@[k] == self.spec_functions().filter(
                    |f: Function| (f.parent is None) == global,
                )[k],
    {
        let ghost pred = |f: Function| (f.parent is None) == global;
        let ghost all = self.spec_functions();
        let mut out: Vec<&Function> = Vec::new();
        let mut i: usize = 0;
        while i < self.functions.len()
            invariant
                pred == (|f: Function| (f.parent is None) == global),
                all == self.spec_functions(),
                i <= all.len(),
                out@.len() == all.subrange(0, i as int).filter(pred).len(),
                forall|k: int|
                    0 <= k < out@.len() ==> *out@[k] == all.subrange(0, i as int).filter(pred)[k],
            decreases all.len() - i,
        {
            let ghost before = all.subrange(0, i as int).filter(pred);
            let keep = self.functions[i].parent.is_none() == global;
            proof {
                reveal(Seq::filter);
                let t = all.subrange(0, i as int + 1);
                assert(t.drop_last() =~= all.subrange(0, i as int));
                assert(t.last() == all[i as int]);
                assert(pred(all[i as int]) == keep);
                if keep {
                    assert(all.subrange(0, i as int + 1).filter(pred) == before.push(all[i as int]));
                } else {
                    assert(all.subrange(0, i as int + 1).filter(pred) == before);
                }
            }
            if keep {
                out.push(&self.functions[i]);
            }
            i = i + 1;
        }
        assert(all.subrange(0, i as int) =~= all);
        out
    }

    /// A snapshot of the functions that belong to no class.
    pub fn get_global_functions(&self) -> (r: Vec<&Function>)
        ensures
            r@.len() == self.spec_functions().filter(|f: Function| f.parent is None).len(),
            forall|k: int|
                0 <= k < r@.len() ==> *r@[k] == self.spec_functions().filter(
                    |f: Function| f.parent is None,
                )[k],
    {
        let r = self.functions_where(true);
        assert((|f: Function| (f.parent is None) == true) =~= (|f: Function| f.parent is None));
        r
    }

    /// A snapshot of the functions that belong to a class.
    pub fn get_class_functions(&self) -> (r: Vec<&Function>)
        ensures
            r@.len() == self.spec_functions().filter(|f: Function| f.parent is Some).len(),
            forall|k: int|
                0 <= k < r@.len() ==> *r@[k] == self.spec_functions().filter(
                    |f: Function| f.parent is Some,
                )[k],
    {
        let r = self.functions_where(false);
        assert((|f: Function| (f.parent is None) == false) =~= (|f: Function| f.parent is Some));
        r
    }
}

impl Class {
    /// The descriptor of the base class, if there is one.
    pub fn base<'a>(&self, rtti: &'a RttiSystem) -> (r: Option<&'a Class>)
        requires
            rtti.wf(),
            base_in(rtti, self),
        ensures
            r matches Some(c) ==> self.base matches Some(b) && *c == rtti.spec_classes()[b as int],
            r is None ==> self.base is None,
    {
        match self.base {
            Some(b) => Some(&rtti.classes[b]),
            None => None,
        }
    }

    /// The base classes, nearest first.
    pub fn base_iter<'a>(&self, rtti: &'a RttiSystem) -> (r: Vec<&'a Class>)
        requires
            rtti.wf(),
            base_in(rtti, self),
        ensures
            self.base is None ==> r@.len() == 0,
            self.base matches Some(b) ==> r@.len() == chain(rtti.spec_classes(), b as int).len()
                && forall|k: int|
                0 <= k < r@.len() ==> *r@[k] == rtti.spec_classes()[chain(
                    rtti.spec_classes(),
                    b as int,
                )[k]],
    {
        let ghost classes = rtti.spec_classes();
        let mut out: Vec<&'a Class> = Vec::new();
        let mut cur = self.base;
        let ghost start = match self.base {
            Some(b) => chain(classes, b as int),
            None => Seq::empty(),
        };
        loop
            invariant
                rtti.wf(),
                classes == rtti.spec_classes(),
                cur matches Some(c) ==> c < classes.len(),
                start == match self.base {
                    Some(b) => chain(classes, b as int),
                    None => Seq::empty(),
                },
                out@.len() + match cur {
                    Some(c) => chain(classes, c as int).len(),
                    None => 0,
                } == start.len(),
                forall|k: int|
                    0 <= k < out@.len() ==> *out@[k] == classes[start[k]],
                forall|k: int|
                    0 <= k < (match cur {
                        Some(c) => chain(classes, c as int).len(),
                        None => 0,
                    }) ==> start[out@.len() + k] == chain(classes, cur.unwrap() as int)[k],
            decreases match cur {
                Some(c) => c + 1,
                None => 0,
            },
        {
            match cur {
                Some(c) => {
                    let ghost rest = chain(classes, c as int);
                    assert(rest[0] == c as int);
                    out.push(&rtti.classes[c]);
                    let next = rtti.classes[c].base;
                    assert(next == classes[c as int].base);
                    proof {
                        let tail = match next {
                            Some(b) => chain(classes, b as int),
                            None => Seq::<int>::empty(),
                        };
                        assert(rest =~= seq![c as int] + tail);
                        assert forall|k: int|
                            0 <= k < tail.len() implies start[out@.len() + k] == tail[k] by {
                            assert(start[(out@.len() - 1) + (k + 1)] == rest[k + 1]);
                        }
                    }
                    cur = next;
                },
                None => {
                    return out;
                },
            }
        }
    }

    /// The class's own properties, then those of each base, nearest first.
    pub fn all_properties(&self, rtti: &RttiSystem) -> (r: Vec<Property>)
        requires
            rtti.wf(),
            base_in(rtti, self),
        ensures
            r@ == all_properties_of(rtti.spec_classes(), *self),
    {
        let ghost classes = rtti.spec_classes();
        let mut out: Vec<Property> = Vec::new();
        let mut j: usize = 0;
        while j < self.properties.len()
            invariant
                j <= self.properties@.len(),
                out@ == self.properties@.subrange(0, j as int),
            decreases self.properties@.len() - j,
        {
            out.push(self.properties[j]);
            j = j + 1;
            assert(out@ =~= self.properties@.subrange(0, j as int));
        }
        assert(self.properties@.subrange(0, j as int) =~= self.properties@);
        let mut cur = self.base;
        loop
            invariant
                rtti.wf(),
                classes == rtti.spec_classes(),
                cur matches Some(c) ==> c < classes.len(),
                out@ + match cur {
                    Some(c) => chain_properties(classes, c as int),
                    None => Seq::empty(),
                } == all_properties_of(classes, *self),
            decreases match cur {
                Some(c) => c + 1,
                None => 0,
            },
        {
            match cur {
                Some(c) => {
                    let ghost before = out@;
                    let cls = &rtti.classes[c];
                    assert(classes[c as int].base == cls.base);
                    let mut j: usize = 0;
                    while j < cls.properties.len()
                        invariant
                            j <= cls.properties@.len(),
                            out@ == before + cls.properties@.subrange(0, j as int),
                        decreases cls.properties@.len() - j,
                    {
                        out.push(cls.properties[j]);
                        j = j + 1;
                        assert(out@ =~= before + cls.properties@.subrange(0, j as int));
                    }
                    assert(cls.properties@.subrange(0, j as int) =~= cls.properties@);
                    let ghost rest = match cls.base {
                        Some(b) => chain_properties(classes, b as int),
                        None => Seq::empty(),
                    };
                    assert(chain_properties(classes, c as int) == cls.properties@ + rest);
                    assert(before + (cls.properties@ + rest) =~= out@ + rest);
                    cur = cls.base;
                },
                None => {
                    assert(out@ + Seq::<Property>::empty() =~= out@);
                    return out;
                },
            }
        }
    }
}

impl Type {
    /// The class view of this type: present exactly when its tag is the
    /// class kind and the catalog holds a class of its name, which it always
    /// does for a type of the catalog.
    pub fn as_class<'a>(&self, rtti: &'a RttiSystem) -> (r: Option<&'a Class>)
        requires
            rtti.wf(),
        ensures
            self.kind != Kind::Class ==> r is None,
            self.kind == Kind::Class ==> (match r {
                Some(c) => Some(*c) == rtti.spec_get_class(self.name),
                None => rtti.spec_get_class(self.name) is None,
            }),
            self.kind == Kind::Class && rtti.spec_types().contains(*self) ==> r is Some,
    {
        if self.kind.is_class() {
            proof {
                if rtti.spec_types().contains(*self) {
                    let i = choose|i: int|
                        0 <= i < rtti.spec_types().len() && rtti.spec_types()[i] == *self;
                    assert(rtti.spec_types()[i].kind == Kind::Class);
                    let j = choose|j: int|
                        0 <= j < rtti.spec_classes().len() && rtti.spec_classes()[j].name
                            == self.name;
                    assert(rtti.spec_classes()[j].name == self.name);
                }
            }
            rtti.get_class(self.name)
        } else {
            None
        }
    }
}

impl ArrayType {
    /// The descriptor of the element type, when the catalog holds it.
    pub fn inner_type<'a>(&self, rtti: &'a RttiSystem) -> (r: Option<&'a Type>)
        requires
            rtti.wf(),
        ensures
            r matches Some(t) ==> type_index(rtti.spec_types(), self.ty.inner) matches Some(i)
                && *t == rtti.spec_types()[i],
            r is None ==> type_index(rtti.spec_types(), self.ty.inner) is None,
    {
        rtti.get_type(self.ty.inner)
    }
}

impl Property {
    /// The descriptor of the property's type, when the catalog holds it.
    pub fn type_<'a>(&self, rtti: &'a RttiSystem) -> (r: Option<&'a Type>)
        requires
            rtti.wf(),
        ensures
            r matches Some(t) ==> type_index(rtti.spec_types(), self.value_type) matches Some(i)
                && *t == rtti.spec_types()[i],
            r is None ==> type_index(rtti.spec_types(), self.value_type) is None,
    {
        rtti.get_type(self.value_type)
    }
}

impl Function {
    /// Adds a parameter named `name` of the type named `typ`, laid out at the
    /// start of the frame's parameters. Refused when the catalog holds no
    /// such type; then nothing changes.
    pub fn add_param(
        &mut self,
        rtti: &RttiSystem,
        typ: CName,
        name: CName,
        is_out: bool,
        is_optional: bool,
    ) -> (r: bool)
        requires
            rtti.wf(),
        ensures
            r == (type_index(rtti.spec_types(), typ) is Some),
            final(self).params@ == if r {
                old(self).params@.push(
                    Property {
                        name,
                        value_type: typ,
                        offset: 0,
                        in_value_holder: false,
                        scripted: false,
                        is_out,
                        is_optional,
                    },
                )
            } else {
                old(self).params@
            },
            final(self).name == old(self).name,
            final(self).short_name == old(self).short_name,
            final(self).parent == old(self).parent,
            final(self).locals@ == old(self).locals@,
            final(self).return_type == old(self).return_type,
            final(self).is_static == old(self).is_static,
            final(self).is_final == old(self).is_final,
            final(self).is_native == old(self).is_native,
    {
        if rtti.get_type(typ).is_none() {
            return false;
        }
        self.params.push(
            Property {
                name,
                value_type: typ,
                offset: 0,
                in_value_holder: false,
                scripted: false,
                is_out,
                is_optional,
            },
        );
        true
    }

    /// Sets the return type to the type named `typ`, when the catalog holds
    /// it; otherwise nothing changes. Returns whether it was set.
    pub fn set_return_type(&mut self, rtti: &RttiSystem, typ: CName) -> (r: bool)
        requires
            rtti.wf(),
        ensures
            r == (type_index(rtti.spec_types(), typ) is Some),
            final(self).return_type == if r {
                Some(typ)
            } else {
                old(self).return_type
            },
            final(self).name == old(self).name,
            final(self).short_name == old(self).short_name,
            final(self).parent == old(self).parent,
            final(self).params@ == old(self).params@,
            final(self).locals@ == old(self).locals@,
            final(self).is_static == old(self).is_static,
            final(self).is_final == old(self).is_final,
            final(self).is_native == old(self).is_native,
    {
        if rtti.get_type(typ).is_none() {
            return false;
        }
        self.return_type = Some(typ);
        true
    }

    /// The class the function belongs to, if any and if the catalog holds it.
    pub fn parent<'a>(&self, rtti: &'a RttiSystem) -> (r: Option<&'a Class>)
        requires
            rtti.wf(),
        ensures
            self.parent is None ==> r is None,
            self.parent matches Some(p) ==> (match r {
                Some(c) => Some(*c) == rtti.spec_get_class(p),
                None => rtti.spec_get_class(p) is None,
            }),
    {
        match self.parent {
            Some(p) => rtti.get_class(p),
            None => None,
        }
    }
}


/// The own properties of the classes at `idxs`, concatenated in that order.
pub open spec fn properties_along(classes: Seq<Class>, idxs: Seq<int>) -> Seq<Property>
    decreases idxs.len(),
{
    if idxs.len() == 0 {
        Seq::empty()
    } else {
        classes[idxs[0]].properties@ + properties_along(classes, idxs.drop_first())
    }
}

/// The sum of the own-property counts of the classes at `idxs`.
pub open spec fn count_along(classes: Seq<Class>, idxs: Seq<int>) -> nat
    decreases idxs.len(),
{
    if idxs.len() == 0 {
        0
    } else {
        classes[idxs[0]].properties@.len() + count_along(classes, idxs.drop_first())
    }
}

proof fn lemma_chain_properties(classes: Seq<Class>, i: int)
    requires
        bases_ordered(classes),
        0 <= i < classes.len(),
    ensures
        chain_properties(classes, i) == properties_along(classes, chain(classes, i)),
        chain_properties(classes, i).len() == count_along(classes, chain(classes, i)),
    decreases i,
{
    let c = chain(classes, i);
    assert(classes[i].base matches Some(b) ==> b < i);
    match classes[i].base {
        Some(b) => {
            lemma_chain_properties(classes, b as int);
            assert(c.drop_first() =~= chain(classes, b as int));
        },
        None => {
            assert(c.drop_first() =~= Seq::<int>::empty());
            assert(properties_along(classes, Seq::<int>::empty()) == Seq::<Property>::empty());
            assert(count_along(classes, Seq::<int>::empty()) == 0);
            assert(classes[i].properties@ + Seq::<Property>::empty() =~= classes[i].properties@);
        },
    }
}

/// The properties of a catalogued class are its own, followed by those of
/// each base in turn, nearest first; their number is the sum of the
/// own-property counts along that chain.
pub proof fn lemma_all_properties(rtti: &RttiSystem, i: int)
    requires
        rtti.wf(),
        0 <= i < rtti.spec_classes().len(),
    ensures
        all_properties_of(rtti.spec_classes(), rtti.spec_classes()[i]) == properties_along(
            rtti.spec_classes(),
            chain(rtti.spec_classes(), i),
        ),
        all_properties_of(rtti.spec_classes(), rtti.spec_classes()[i]).len() == count_along(
            rtti.spec_classes(),
            chain(rtti.spec_classes(), i),
        ),
        chain(rtti.spec_classes(), i)[0] == i,
{
    let classes = rtti.spec_classes();
    lemma_chain_properties(classes, i);
    assert(classes[i].base matches Some(b) ==> b < i);
    match classes[i].base {
        Some(b) => {},
        None => {
            assert(classes[i].properties@ + Seq::<Property>::empty() =~= classes[i].properties@);
        },
    }
}

/// Two different names never resolve to the same class: each finds a class
/// of its own name, at a different place in the catalog.
pub proof fn lemma_distinct_names_distinct_classes(rtti: &RttiSystem, a: CName, b: CName)
    requires
        rtti.wf(),
        a != b,
    ensures
        rtti.spec_get_class(a) matches Some(ca) ==> ca.name == a,
        rtti.spec_get_class(b) matches Some(cb) ==> cb.name == b,
        rtti.spec_get_class(a) is Some && rtti.spec_get_class(b) is Some ==> rtti.spec_get_class(
            a,
        ).unwrap() != rtti.spec_get_class(b).unwrap() && class_index(rtti.spec_classes(), a).unwrap()
            != class_index(rtti.spec_classes(), b).unwrap(),
{
}

} // verus!
