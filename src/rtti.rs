//! Descriptors: read-only metadata nodes for the types the host reflects.
use vstd::prelude::*;

use vstd::string::StringSliceAdditionalSpecFns;

use crate::cname::{interned, CName, CNamePool};
use crate::hash::spec_fnv1a64;

verus! {

/// The kind tag of a type: it decides which specialised view of a type
/// descriptor is valid.
#[derive(Debug, Clone, Copy, PartialEq, Eq, Structural)]
pub enum Kind {
    Name,
    Fundamental,
    Class,
    Array,
    Simple,
    Enum,
    StaticArray,
    NativeArray,
    Pointer,
    Handle,
    WeakHandle,
    ResourceReference,
    ResourceAsyncReference,
    BitField,
    LegacySingleChannelCurve,
    ScriptReference,
    FixedArray,
}

pub open spec fn spec_is_pointer(k: Kind) -> bool {
    k == Kind::Pointer || k == Kind::Handle || k == Kind::WeakHandle
}

pub open spec fn spec_is_array(k: Kind) -> bool {
    k == Kind::Array || k == Kind::StaticArray || k == Kind::NativeArray || k == Kind::FixedArray
}

impl Kind {
    /// Whether values of this kind point at other values.
    pub fn is_pointer(self) -> (r: bool)
        ensures
            r == spec_is_pointer(self),
    {
        match self {
            Kind::Pointer | Kind::Handle | Kind::WeakHandle => true,
            _ => false,
        }
    }

    /// Whether this is the kind of classes.
    pub fn is_class(self) -> (r: bool)
        ensures
            r == (self == Kind::Class),
    {
        match self {
            Kind::Class => true,
            _ => false,
        }
    }

    /// Whether values of this kind are arrays.
    pub fn is_array(self) -> (r: bool)
        ensures
            r == spec_is_array(self),
    {
        match self {
            Kind::Array | Kind::StaticArray | Kind::NativeArray | Kind::FixedArray => true,
            _ => false,
        }
    }
}

/// A type descriptor: name, size, alignment and kind tag. For arrays,
/// `inner` names the element type; for other kinds it is undefined.
#[derive(Debug, Clone, Copy, PartialEq, Eq, Structural)]
pub struct Type {
    pub name: CName,
    pub size: u32,
    pub alignment: u32,
    pub kind: Kind,
    pub inner: CName,
}

impl Type {
    /// A descriptor of a type that is not an array.
    pub fn new(name: CName, size: u32, alignment: u32, kind: Kind) -> (r: Type)
        ensures
            r == (Type { name, size, alignment, kind, inner: CName { hash: 0 } }),
    {
        Type { name, size, alignment, kind, inner: CName { hash: 0 } }
    }

    /// A descriptor of an array type whose elements have type `inner`.
    pub fn new_array(name: CName, size: u32, alignment: u32, kind: Kind, inner: CName) -> (r: Type)
        ensures
            r == (Type { name, size, alignment, kind, inner }),
    {
        Type { name, size, alignment, kind, inner }
    }

    /// The type's name.
    pub fn name(&self) -> (r: CName)
        ensures
            r == self.name,
    {
        self.name
    }

    /// The size of a value of this type, in bytes.
    pub fn size(&self) -> (r: u32)
        ensures
            r == self.size,
    {
        self.size
    }

    /// The alignment of a value of this type, in bytes.
    pub fn alignment(&self) -> (r: u32)
        ensures
            r == self.alignment,
    {
        self.alignment
    }

    /// The type's kind tag.
    pub fn kind(&self) -> (r: Kind)
        ensures
            r == self.kind,
    {
        self.kind
    }

    /// The array view of this type, present only when its tag is an array kind.
    pub fn as_array(&self) -> (r: Option<ArrayType>)
        ensures
            r == (if spec_is_array(self.kind) {
                Some(ArrayType { ty: *self })
            } else {
                None
            }),
    {
        if self.kind.is_array() {
            Some(ArrayType { ty: *self })
        } else {
            None
        }
    }
}

/// The array view of a type descriptor whose tag is an array kind.
#[derive(Debug, Clone, Copy, PartialEq, Eq, Structural)]
pub struct ArrayType {
    pub ty: Type,
}

impl ArrayType {
    /// The type descriptor this view was taken from.
    pub fn as_type(&self) -> (r: &Type)
        ensures
            *r == self.ty,
    {
        &self.ty
    }

    /// The name of the element type.
    pub fn inner_name(&self) -> (r: CName)
        ensures
            r == self.ty.inner,
    {
        self.ty.inner
    }
}

/// A property: a named field of a class, or a parameter or local of a
/// function. Its value lies `offset` bytes into the owner's value storage.
#[derive(Debug, Clone, Copy, PartialEq, Eq, Structural)]
pub struct Property {
    pub name: CName,
    pub value_type: CName,
    pub offset: u32,
    pub in_value_holder: bool,
    pub scripted: bool,
    pub is_out: bool,
    pub is_optional: bool,
}

/// The address of a value storage block.
#[derive(Debug, Clone, Copy, PartialEq, Eq, Structural)]
pub struct ValueContainer {
    pub addr: usize,
}

impl ValueContainer {
    /// The storage that starts at `addr`.
    pub fn new(addr: usize) -> (r: ValueContainer)
        ensures
            r.addr == addr,
    {
        ValueContainer { addr }
    }

    /// The address where the storage starts.
    pub fn as_ptr(&self) -> (r: usize)
        ensures
            r == self.addr,
    {
        self.addr
    }
}

/// The address of one value.
#[derive(Debug, Clone, Copy, PartialEq, Eq, Structural)]
pub struct ValuePtr {
    pub addr: usize,
}

impl ValuePtr {
    /// The value at `addr`.
    pub fn new(addr: usize) -> (r: ValuePtr)
        ensures
            r.addr == addr,
    {
        ValuePtr { addr }
    }

    /// The storage that starts where this value does.
    pub fn to_container(&self) -> (r: ValueContainer)
        ensures
            r.addr == self.addr,
    {
        ValueContainer { addr: self.addr }
    }
}

impl Property {
    /// A property of type `value_type` at `offset`, held directly and built
    /// into the host.
    pub fn new(name: CName, value_type: CName, offset: u32) -> (r: Property)
        ensures
            r == (Property {
                name,
                value_type,
                offset,
                in_value_holder: false,
                scripted: false,
                is_out: false,
                is_optional: false,
            }),
    {
        Property {
            name,
            value_type,
            offset,
            in_value_holder: false,
            scripted: false,
            is_out: false,
            is_optional: false,
        }
    }

    /// The property's name.
    pub fn name(&self) -> (r: CName)
        ensures
            r == self.name,
    {
        self.name
    }

    /// The name of the property's type.
    pub fn value_type(&self) -> (r: CName)
        ensures
            r == self.value_type,
    {
        self.value_type
    }

    /// Where the property's value lies in `container`: its start plus the
    /// property's offset.
    pub fn value(&self, container: ValueContainer) -> (r: ValuePtr)
        requires
            container.addr + self.offset <= usize::MAX,
        ensures
            r.addr == container.addr + self.offset,
    {
        ValuePtr { addr: container.addr + self.offset as usize }
    }

    /// Whether the value is stored indirectly, in a value holder.
    pub fn is_in_value_holder(&self) -> (r: bool)
        ensures
            r == self.in_value_holder,
    {
        self.in_value_holder
    }

    /// Whether the property was declared by scripts rather than built into
    /// the host.
    pub fn is_scripted(&self) -> (r: bool)
        ensures
            r == self.scripted,
    {
        self.scripted
    }
}

/// A class descriptor. `base` is the position of the base class in the
/// catalog that holds this class; `properties` are its own properties only.
#[derive(Debug)]
pub struct Class {
    pub name: CName,
    pub base: Option<usize>,
    pub properties: Vec<Property>,
    pub size: u32,
    pub alignment: u32,
    pub is_abstract: bool,
}

impl Class {
    /// The class's name.
    pub fn name(&self) -> (r: CName)
        ensures
            r == self.name,
    {
        self.name
    }

    /// The class's own properties, in declaration order.
    pub fn properties(&self) -> (r: &Vec<Property>)
        ensures
            r@ == self.properties@,
    {
        &self.properties
    }

    /// The descriptor of a type of kind class with this class's name, size
    /// and alignment.
    pub fn as_type(&self) -> (r: Type)
        ensures
            r == (Type {
                name: self.name,
                size: self.size,
                alignment: self.alignment,
                kind: Kind::Class,
                inner: CName { hash: 0 },
            }),
    {
        Type {
            name: self.name,
            size: self.size,
            alignment: self.alignment,
            kind: Kind::Class,
            inner: CName { hash: 0 },
        }
    }
}

/// A function descriptor: a global function when `parent` is absent, else a
/// method of the class that `parent` names.
#[derive(Debug)]
pub struct Function {
    pub name: CName,
    pub short_name: CName,
    pub parent: Option<CName>,
    pub params: Vec<Property>,
    pub locals: Vec<Property>,
    pub return_type: Option<CName>,
    pub is_static: bool,
    pub is_final: bool,
    pub is_native: bool,
}

impl Function {
    /// A function with no parameters, locals or return type, and no flags set.
    pub fn new(name: CName, short_name: CName, parent: Option<CName>) -> (r: Function)
        ensures
            r.name == name,
            r.short_name == short_name,
            r.parent == parent,
            r.params@.len() == 0,
            r.locals@.len() == 0,
            r.return_type is None,
            !r.is_static,
            !r.is_final,
            !r.is_native,
    {
        Function {
            name,
            short_name,
            parent,
            params: Vec::new(),
            locals: Vec::new(),
            return_type: None,
            is_static: false,
            is_final: false,
            is_native: false,
        }
    }

    /// The function's full name.
    pub fn name(&self) -> (r: CName)
        ensures
            r == self.name,
    {
        self.name
    }

    /// The function's local variables.
    pub fn locals(&self) -> (r: &Vec<Property>)
        ensures
            r@ == self.locals@,
    {
        &self.locals
    }

    /// The function's parameters, in order.
    pub fn params(&self) -> (r: &Vec<Property>)
        ensures
            r@ == self.params@,
    {
        &self.params
    }

    /// Whether the function is static.
    pub fn is_static(&self) -> (r: bool)
        ensures
            r == self.is_static,
    {
        self.is_static
    }

    /// Marks the function as native or not.
    pub fn set_is_native(&mut self, is_native: bool)
        ensures
            final(self).is_native == is_native,
            final(self).is_final == old(self).is_final,
            final(self).is_static == old(self).is_static,
            final(self).name == old(self).name,
            final(self).short_name == old(self).short_name,
            final(self).parent == old(self).parent,
            final(self).params@ == old(self).params@,
            final(self).locals@ == old(self).locals@,
            final(self).return_type == old(self).return_type,
    {
        self.is_native = is_native;
    }

    /// Marks the function as final or not.
    pub fn set_is_final(&mut self, is_final: bool)
        ensures
            final(self).is_final == is_final,
            final(self).is_native == old(self).is_native,
            final(self).is_static == old(self).is_static,
            final(self).name == old(self).name,
            final(self).short_name == old(self).short_name,
            final(self).parent == old(self).parent,
            final(self).params@ == old(self).params@,
            final(self).locals@ == old(self).locals@,
            final(self).return_type == old(self).return_type,
    {
        self.is_final = is_final;
    }

    /// Marks the function as static or not.
    pub fn set_is_static(&mut self, is_static: bool)
        ensures
            final(self).is_static == is_static,
            final(self).is_native == old(self).is_native,
            final(self).is_final == old(self).is_final,
            final(self).name == old(self).name,
            final(self).short_name == old(self).short_name,
            final(self).parent == old(self).parent,
            final(self).params@ == old(self).params@,
            final(self).locals@ == old(self).locals@,
            final(self).return_type == old(self).return_type,
    {
        self.is_static = is_static;
    }
}

/// A global function bound to the native handler that the host's call
/// dispatcher invokes for it.
#[derive(Debug)]
pub struct GlobalFunction<H> {
    pub function: Function,
    pub handler: H,
}

impl<H> GlobalFunction<H> {
    /// A global function whose full and short names are interned in `names`
    /// and whose calls go to `handler`. It has no parameters or flags yet.
    pub fn new(names: &mut CNamePool, full_name: &str, short_name: &str, handler: H) -> (r:
        GlobalFunction<H>)
        requires
            old(names).wf(),
        ensures
            final(names).wf(),
            final(names).spec_entries() == interned(
                interned(old(names).spec_entries(), r.function.name, full_name@),
                r.function.short_name,
                short_name@,
            ),
            r.function.name.hash == spec_fnv1a64(full_name.spec_bytes()),
            r.function.short_name.hash == spec_fnv1a64(short_name.spec_bytes()),
            r.function.parent is None,
            r.function.params@.len() == 0,
            r.function.locals@.len() == 0,
            r.function.return_type is None,
            !r.function.is_static && !r.function.is_final && !r.function.is_native,
            r.handler == handler,
    {
        let full = names.add_cstr(full_name);
        let short = names.add_cstr(short_name);
        GlobalFunction { function: Function::new(full, short, None), handler }
    }

    /// The function descriptor.
    pub fn as_function(&self) -> (r: &Function)
        ensures
            *r == self.function,
    {
        &self.function
    }

    /// The function descriptor, to add parameters or set flags before the
    /// function is registered.
    pub fn as_function_mut(&mut self) -> (r: &mut Function)
        ensures
            *r == old(self).function,
            final(self).function == *final(r),
            final(self).handler == old(self).handler,
    {
        &mut self.function
    }
}

/// An enumeration: a name and its constants' names, in order.
#[derive(Debug)]
pub struct Enum {
    pub name: CName,
    pub variant_names: Vec<CName>,
}

impl Enum {
    /// The enumeration's name.
    pub fn name(&self) -> (r: CName)
        ensures
            r == self.name,
    {
        self.name
    }

    /// The names of the enumeration's constants, in order.
    pub fn variant_names(&self) -> (r: &Vec<CName>)
        ensures
            r@ == self.variant_names@,
    {
        &self.variant_names
    }
}

/// A bitfield: a name and the names of its 64 bits (undefined where a bit
/// has no name).
#[derive(Debug)]
pub struct Bitfield {
    pub name: CName,
    pub fields: Vec<CName>,
    pub scripted: bool,
}

impl Bitfield {
    /// The bitfield's name.
    pub fn name(&self) -> (r: CName)
        ensures
            r == self.name,
    {
        self.name
    }

    /// The names of the bits.
    pub fn fields(&self) -> (r: &Vec<CName>)
        ensures
            r@ == self.fields@,
    {
        &self.fields
    }
}

} // verus!
