//! Reference-counted handles to instances of reflected classes.
//!
//! Every instance is owned by a block of a [`RefPool`]: a strong count, a
//! weak count and the instance itself. Strong handles ([`Ref`]) keep the
//! instance alive; weak handles ([`WeakRef`]) keep only the block. While
//! any strong handle lives, the strong handles together hold one weak
//! reference. A handle without a block is the empty handle, and every
//! operation on it does nothing.
use vstd::prelude::*;
use vstd::string::StringSliceAdditionalSpecFns;

use core::marker::PhantomData;

use crate::cname::CName;
use crate::hash::spec_fnv1a64;
use crate::rtti::Class;
use crate::system::{chain, class_index, derives_from, RttiSystem};

verus! {

/// The storage of one instance: the name of its actual class, the bytes the
/// host lays out for it, and the value holder where scripted fields live.
#[derive(Debug)]
pub struct IScriptable {
    pub class: CName,
    pub storage: Vec<u8>,
    pub value_holder: Vec<u8>,
}

/// `n` zero bytes.
pub open spec fn zeros(n: nat) -> Seq<u8> {
    Seq::new(n, |_i: int| 0u8)
}

fn zeroed(n: usize) -> (r: Vec<u8>)
    ensures
        r@ == zeros(n as nat),
{
    let mut v: Vec<u8> = Vec::new();
    let mut i: usize = 0;
    while i < n
        invariant
            i <= n,
            v@ == zeros(i as nat),
        decreases n - i,
    {
        v.push(0u8);
        i = i + 1;
        assert(v@ =~= zeros(i as nat));
    }
    v
}

impl Class {
    /// A default instance of this class: both its storage and its value
    /// holder are `size` zero bytes.
    pub fn instantiate(&self) -> (r: IScriptable)
        ensures
            r.class == self.name,
            r.storage@ == zeros(self.size as nat),
            r.value_holder@ == zeros(self.size as nat),
    {
        IScriptable {
            class: self.name,
            storage: zeroed(self.size as usize),
            value_holder: zeroed(self.size as usize),
        }
    }
}

impl IScriptable {
    /// The descriptor of the instance's actual class.
    pub fn class<'a>(&self, rtti: &'a RttiSystem) -> (r: Option<&'a Class>)
        requires
            rtti.wf(),
        ensures
            r matches Some(c) ==> Some(*c) == rtti.spec_get_class(self.class),
            r is None ==> rtti.spec_get_class(self.class) is None,
    {
        rtti.get_class(self.class)
    }

    /// The value holder, where the fields of scripted classes live.
    pub fn fields(&self) -> (r: &Vec<u8>)
        ensures
            r@ == self.value_holder@,
    {
        &self.value_holder
    }
}

/// Where the fields of a class live inside an instance: in its own storage
/// for native classes, in the value holder for scripted ones.
pub trait ClassKind {
    spec fn spec_fields(inst: &IScriptable) -> Seq<u8>;

    /// The bytes of the fields.
    fn get(inst: &IScriptable) -> (r: &Vec<u8>)
        ensures
            r@ == Self::spec_fields(inst),
    ;

    /// The instance with its fields replaced by `fields`.
    fn with_fields(inst: IScriptable, fields: Vec<u8>) -> (r: IScriptable)
        ensures
            Self::spec_fields(&r) == fields@,
            r.class == inst.class,
    ;
}

/// The marker of scripted classes, whose fields live in the value holder of
/// the generic scriptable object.
#[derive(Debug)]
pub struct Scripted;

/// The marker of native classes, whose fields are the instance's storage.
#[derive(Debug)]
pub struct Native;

impl ClassKind for Scripted {
    open spec fn spec_fields(inst: &IScriptable) -> Seq<u8> {
        inst.value_holder@
    }

    fn get(inst: &IScriptable) -> (r: &Vec<u8>) {
        &inst.value_holder
    }

    fn with_fields(inst: IScriptable, fields: Vec<u8>) -> (r: IScriptable) {
        IScriptable { class: inst.class, storage: inst.storage, value_holder: fields }
    }
}

impl ClassKind for Native {
    open spec fn spec_fields(inst: &IScriptable) -> Seq<u8> {
        inst.storage@
    }

    fn get(inst: &IScriptable) -> (r: &Vec<u8>) {
        &inst.storage
    }

    fn with_fields(inst: IScriptable, fields: Vec<u8>) -> (r: IScriptable) {
        IScriptable { class: inst.class, storage: fields, value_holder: inst.value_holder }
    }
}

/// A reflected class: the name it is registered under, and where its fields
/// live.
pub trait ScriptClass: Sized {
    type Kind: ClassKind;

    /// The name the class is registered under.
    const CLASS_NAME: &'static str;
}

/// The interned name of the class `T`.
pub open spec fn class_cname<T: ScriptClass>() -> CName {
    CName { hash: spec_fnv1a64(T::CLASS_NAME.spec_bytes()) }
}

impl ScriptClass for IScriptable {
    type Kind = Native;

    const CLASS_NAME: &'static str = "IScriptable";
}

/// A reference-count block: the strong and weak counts and the instance,
/// present exactly while the strong count is positive.
#[derive(Debug)]
pub struct Block {
    pub strong: u32,
    pub weak: u32,
    pub instance: Option<IScriptable>,
}

/// While strong references live the instance does too and the weak count
/// holds at least their shared weak reference; once none lives, the
/// instance is gone.
pub open spec fn block_wf(b: Block) -> bool {
    &&& b.strong > 0 ==> b.weak >= 1 && b.instance is Some
    &&& b.strong == 0 ==> b.instance is None
}

/// The arena of reference-count blocks. A block is never reused: once its
/// weak count reaches zero it is released for good.
pub struct RefPool {
    blocks: Vec<Block>,
}

pub open spec fn set_counts(s: Seq<Block>, b: int, strong: u32, weak: u32) -> Seq<Block> {
    s.update(b, Block { strong, weak, instance: s[b].instance })
}

/// The blocks after a strong increment of block `b`.
pub open spec fn inc_strong_spec(s: Seq<Block>, b: int) -> Seq<Block> {
    set_counts(s, b, (s[b].strong + 1) as u32, s[b].weak)
}

/// The blocks after a weak increment of block `b`.
pub open spec fn inc_weak_spec(s: Seq<Block>, b: int) -> Seq<Block> {
    set_counts(s, b, s[b].strong, (s[b].weak + 1) as u32)
}

/// The blocks after a weak decrement of block `b`; at zero the block is
/// released.
pub open spec fn dec_weak_spec(s: Seq<Block>, b: int) -> Seq<Block> {
    set_counts(s, b, s[b].strong, (s[b].weak - 1) as u32)
}

/// The blocks after a strong decrement of block `b`: from one to zero the
/// instance is destroyed and the shared weak reference is dropped.
pub open spec fn dec_strong_spec(s: Seq<Block>, b: int) -> Seq<Block> {
    if s[b].strong == 1 {
        s.update(b, Block { strong: 0, weak: (s[b].weak - 1) as u32, instance: None })
    } else {
        set_counts(s, b, (s[b].strong - 1) as u32, s[b].weak)
    }
}

/// The blocks after a strong handle to block `b` is downgraded: one weak
/// reference more, and the strong handle dropped.
pub open spec fn downgrade_spec(s: Seq<Block>, b: int) -> Seq<Block> {
    dec_strong_spec(inc_weak_spec(s, b), b)
}

/// The blocks after a weak handle to block `b` is upgraded: a strong
/// reference more if the instance lives, and the weak handle dropped.
pub open spec fn upgrade_spec(s: Seq<Block>, b: int) -> Seq<Block> {
    if s[b].strong > 0 {
        dec_weak_spec(inc_strong_spec(s, b), b)
    } else {
        dec_weak_spec(s, b)
    }
}

/// `after` is `before` with the fields of the instance of block `b`, where
/// the kind `K` puts them, replaced by `fields`; nothing else changes.
pub open spec fn fields_replaced<K: ClassKind>(
    before: Seq<Block>,
    after: Seq<Block>,
    b: int,
    fields: Seq<u8>,
) -> bool {
    &&& after.len() == before.len()
    &&& forall|i: int| 0 <= i < after.len() && i != b ==> after[i] == before[i]
    &&& after[b].strong == before[b].strong
    &&& after[b].weak == before[b].weak
    &&& after[b].instance matches Some(inst) && before[b].instance matches Some(prev) && inst.class
        == prev.class && K::spec_fields(&inst) == fields
}

impl RefPool {
    pub closed spec fn spec_blocks(&self) -> Seq<Block> {
        self.blocks@
    }

    /// Every block keeps its invariant.
    pub open spec fn wf(&self) -> bool {
        forall|b: int| 0 <= b < self.spec_blocks().len() ==> block_wf(#[trigger] self.spec_blocks()[b])
    }

    /// A strong handle to block `b` may live: the block exists and its strong
    /// count is positive.
    pub open spec fn strong_valid(&self, b: Option<usize>) -> bool {
        b matches Some(i) ==> i < self.spec_blocks().len() && self.spec_blocks()[i as int].strong > 0
    }

    /// A weak handle to block `b` may live: the block exists and its weak
    /// count covers this handle and, while the instance lives, the weak
    /// reference the strong handles share.
    pub open spec fn weak_valid(&self, b: Option<usize>) -> bool {
        b matches Some(i) ==> i < self.spec_blocks().len() && self.spec_blocks()[i as int].weak >= 1
            + if self.spec_blocks()[i as int].strong > 0 {
            1int
        } else {
            0int
        }
    }

    /// An empty pool.
    pub fn new() -> (r: RefPool)
        ensures
            r.wf(),
            r.spec_blocks().len() == 0,
    {
        RefPool { blocks: Vec::new() }
    }

    fn allocate(&mut self, inst: IScriptable) -> (r: usize)
        requires
            old(self).wf(),
        ensures
            final(self).wf(),
            r == old(self).spec_blocks().len(),
            final(self).spec_blocks() == old(self).spec_blocks().push(
                Block { strong: 1, weak: 1, instance: Some(inst) },
            ),
    {
        let r = self.blocks.len();
        self.blocks.push(Block { strong: 1, weak: 1, instance: Some(inst) });
        proof {
            assert forall|b: int| 0 <= b < self.spec_blocks().len() implies block_wf(
                #[trigger] self.spec_blocks()[b],
            ) by {
                if b < r as int {
                    assert(self.spec_blocks()[b] == old(self).spec_blocks()[b]);
                }
            }
        }
        r
    }

    fn set_strong_weak(&mut self, b: usize, strong: u32, weak: u32)
        requires
            b < old(self).spec_blocks().len(),
        ensures
            final(self).spec_blocks() == set_counts(old(self).spec_blocks(), b as int, strong, weak),
    {
        let blk = &mut self.blocks[b];
        blk.strong = strong;
        blk.weak = weak;
        assert(self.spec_blocks() =~= set_counts(old(self).spec_blocks(), b as int, strong, weak));
    }

    fn destroy_instance(&mut self, b: usize)
        requires
            b < old(self).spec_blocks().len(),
            old(self).spec_blocks()[b as int].strong == 1,
            old(self).spec_blocks()[b as int].weak >= 1,
        ensures
            final(self).spec_blocks() == dec_strong_spec(old(self).spec_blocks(), b as int),
    {
        let blk = &mut self.blocks[b];
        blk.strong = 0;
        blk.weak = blk.weak - 1;
        blk.instance = None;
        assert(self.spec_blocks() =~= dec_strong_spec(old(self).spec_blocks(), b as int));
    }

    fn replace_fields<K: ClassKind>(&mut self, b: usize, fields: Vec<u8>)
        requires
            old(self).wf(),
            b < old(self).spec_blocks().len(),
            old(self).spec_blocks()[b as int].strong > 0,
        ensures
            final(self).wf(),
            fields_replaced::<K>(old(self).spec_blocks(), final(self).spec_blocks(), b as int, fields@),
    {
        assert(block_wf(old(self).spec_blocks()[b as int]));
        let blk = &mut self.blocks[b];
        let taken = blk.instance.take();
        match taken {
            Some(inst) => {
                blk.instance = Some(K::with_fields(inst, fields));
            },
            None => {},
        }
        proof {
            assert forall|i: int| 0 <= i < self.spec_blocks().len() implies block_wf(
                #[trigger] self.spec_blocks()[i],
            ) by {
                if i != b as int {
                    assert(self.spec_blocks()[i] == old(self).spec_blocks()[i]);
                }
            }
        }
    }

    /// The strong and weak counts of block `b`.
    fn counts(&self, b: usize) -> (r: (u32, u32))
        requires
            b < self.spec_blocks().len(),
        ensures
            r == (self.spec_blocks()[b as int].strong, self.spec_blocks()[b as int].weak),
    {
        (self.blocks[b].strong, self.blocks[b].weak)
    }
}

/// The shared part of both handles: the block it refers to, if any.
#[derive(Debug, Clone, Copy)]
struct BaseRef {
    block: Option<usize>,
}

impl BaseRef {
    fn inc_strong(&self, pool: &mut RefPool)
        requires
            old(pool).wf(),
            old(pool).strong_valid(self.block),
            self.block matches Some(b) ==> old(pool).spec_blocks()[b as int].strong < u32::MAX,
        ensures
            final(pool).wf(),
            final(pool).spec_blocks() == match self.block {
                Some(b) => inc_strong_spec(old(pool).spec_blocks(), b as int),
                None => old(pool).spec_blocks(),
            },
    {
        if let Some(b) = self.block {
            let (s, w) = pool.counts(b);
            pool.set_strong_weak(b, s + 1, w);
            proof { lemma_set_counts_wf(old(pool).spec_blocks(), b as int, (s + 1) as u32, w); }
        }
    }

    fn inc_strong_if_non_zero(&self, pool: &mut RefPool) -> (r: bool)
        requires
            old(pool).wf(),
            self.block matches Some(b) ==> b < old(pool).spec_blocks().len()
                && old(pool).spec_blocks()[b as int].strong < u32::MAX,
        ensures
            final(pool).wf(),
            r == (self.block matches Some(b) && old(pool).spec_blocks()[b as int].strong > 0),
            final(pool).spec_blocks() == if r {
                inc_strong_spec(old(pool).spec_blocks(), self.block.unwrap() as int)
            } else {
                old(pool).spec_blocks()
            },
    {
        match self.block {
            Some(b) => {
                let (s, w) = pool.counts(b);
                if s != 0 {
                    pool.set_strong_weak(b, s + 1, w);
                    proof { lemma_set_counts_wf(old(pool).spec_blocks(), b as int, (s + 1) as u32, w); }
                    true
                } else {
                    false
                }
            },
            None => false,
        }
    }

    fn inc_weak(&self, pool: &mut RefPool)
        requires
            old(pool).wf(),
            self.block matches Some(b) ==> b < old(pool).spec_blocks().len()
                && old(pool).spec_blocks()[b as int].weak < u32::MAX,
        ensures
            final(pool).wf(),
            final(pool).spec_blocks() == match self.block {
                Some(b) => inc_weak_spec(old(pool).spec_blocks(), b as int),
                None => old(pool).spec_blocks(),
            },
    {
        if let Some(b) = self.block {
            let (s, w) = pool.counts(b);
            pool.set_strong_weak(b, s, w + 1);
            proof { lemma_set_counts_wf(old(pool).spec_blocks(), b as int, s, (w + 1) as u32); }
        }
    }

    fn dec_weak(&self, pool: &mut RefPool)
        requires
            old(pool).wf(),
            old(pool).weak_valid(self.block),
        ensures
            final(pool).wf(),
            final(pool).spec_blocks() == match self.block {
                Some(b) => dec_weak_spec(old(pool).spec_blocks(), b as int),
                None => old(pool).spec_blocks(),
            },
    {
        if let Some(b) = self.block {
            let (s, w) = pool.counts(b);
            pool.set_strong_weak(b, s, w - 1);
            proof { lemma_set_counts_wf(old(pool).spec_blocks(), b as int, s, (w - 1) as u32); }
        }
    }

    /// Drops one strong reference; returns whether it was the last, in which
    /// case the instance has been destroyed.
    fn dec_strong(&self, pool: &mut RefPool) -> (r: bool)
        requires
            old(pool).wf(),
            old(pool).strong_valid(self.block),
        ensures
            final(pool).wf(),
            r == (self.block matches Some(b) && old(pool).spec_blocks()[b as int].strong == 1),
            final(pool).spec_blocks() == match self.block {
                Some(b) => dec_strong_spec(old(pool).spec_blocks(), b as int),
                None => old(pool).spec_blocks(),
            },
    {
        match self.block {
            Some(b) => {
                let (s, w) = pool.counts(b);
                assert(block_wf(old(pool).spec_blocks()[b as int]));
                if s == 1 {
                    pool.destroy_instance(b);
                    proof {
                        assert forall|i: int| 0 <= i < pool.spec_blocks().len() implies block_wf(
                            #[trigger] pool.spec_blocks()[i],
                        ) by {
                            if i != b as int {
                                assert(pool.spec_blocks()[i] == old(pool).spec_blocks()[i]);
                            }
                        }
                    }
                    true
                } else {
                    pool.set_strong_weak(b, s - 1, w);
                    proof { lemma_set_counts_wf(old(pool).spec_blocks(), b as int, (s - 1) as u32, w); }
                    false
                }
            },
            None => false,
        }
    }
}

proof fn lemma_set_counts_wf(s: Seq<Block>, b: int, strong: u32, weak: u32)
    requires
        0 <= b < s.len(),
        forall|i: int| 0 <= i < s.len() ==> block_wf(#[trigger] s[i]),
        strong > 0 ==> weak >= 1 && s[b].instance is Some,
        strong == 0 ==> s[b].instance is None,
    ensures
        forall|i: int|
            0 <= i < s.len() ==> block_wf(#[trigger] set_counts(s, b, strong, weak)[i]),
{
    assert forall|i: int| 0 <= i < s.len() implies block_wf(
        #[trigger] set_counts(s, b, strong, weak)[i],
    ) by {
        if i != b {
            assert(set_counts(s, b, strong, weak)[i] == s[i]);
        }
    }
}


/// A cast to the class named `target` of a strong handle to block `b`
/// succeeds: the instance's actual class is catalogued and is, or derives
/// from, the class named `target`.
pub open spec fn cast_succeeds(rtti: &RttiSystem, s: Seq<Block>, b: int, target: CName) -> bool {
    &&& s[b].instance matches Some(inst)
    &&& class_index(rtti.spec_classes(), inst.class) matches Some(k)
    &&& derives_from(rtti.spec_classes(), k, target)
}

/// A strong handle: while it lives, the instance does.
pub struct Ref<T: ScriptClass> {
    inner: BaseRef,
    marker: PhantomData<T>,
}

/// A weak handle: it keeps the block, not the instance, and must be upgraded
/// before the instance can be reached.
pub struct WeakRef<T: ScriptClass> {
    inner: BaseRef,
    marker: PhantomData<T>,
}

impl<T: ScriptClass> Ref<T> {
    /// The block the handle refers to; none for the empty handle.
    pub closed spec fn block(&self) -> Option<usize> {
        self.inner.block
    }

    /// The empty handle.
    pub fn empty() -> (r: Ref<T>)
        ensures
            r.block() is None,
    {
        Ref { inner: BaseRef { block: None }, marker: PhantomData }
    }

    /// A new instance of `T`, default-constructed, in a block with one
    /// strong and one weak reference. Absent when the catalog has no class
    /// of `T`'s name; then nothing changes.
    pub fn new(rtti: &RttiSystem, pool: &mut RefPool) -> (r: Option<Ref<T>>)
        requires
            rtti.wf(),
            old(pool).wf(),
        ensures
            final(pool).wf(),
            r is Some <==> rtti.spec_get_class(class_cname::<T>()) is Some,
            r is None ==> final(pool).spec_blocks() == old(pool).spec_blocks(),
            r matches Some(h) ==> {
                let c = rtti.spec_get_class(class_cname::<T>()).unwrap();
                let n = old(pool).spec_blocks().len();
                let blk = final(pool).spec_blocks()[n as int];
                &&& h.block() matches Some(b) && b as int == n as int
                &&& final(pool).strong_valid(h.block())
                &&& final(pool).spec_blocks().len() == n + 1
                &&& final(pool).spec_blocks().subrange(0, n as int) == old(pool).spec_blocks()
                &&& blk.strong == 1 && blk.weak == 1
                &&& blk.instance matches Some(inst) && inst.class == c.name
                    && inst.storage@ == zeros(c.size as nat) && inst.value_holder@ == zeros(
                    c.size as nat,
                )
            },
    {
        let name = CName::new(T::CLASS_NAME);
        let class = match rtti.get_class(name) {
            Some(c) => c,
            None => {
                return None;
            },
        };
        let inst = class.instantiate();
        let ghost before = pool.spec_blocks();
        let b = pool.allocate(inst);
        assert(pool.spec_blocks().subrange(0, b as int) =~= before);
        Some(Ref { inner: BaseRef { block: Some(b) }, marker: PhantomData })
    }

    /// Like `new`, and the fields of the default instance are then handed to
    /// `init`, whose result becomes the fields.
    pub fn new_with<F: FnOnce(Vec<u8>) -> Vec<u8>>(
        rtti: &RttiSystem,
        pool: &mut RefPool,
        init: F,
    ) -> (r: Option<Ref<T>>)
        requires
            rtti.wf(),
            old(pool).wf(),
            forall|v: Vec<u8>| init.requires((v,)),
        ensures
            final(pool).wf(),
            r is Some <==> rtti.spec_get_class(class_cname::<T>()) is Some,
            r is None ==> final(pool).spec_blocks() == old(pool).spec_blocks(),
            r matches Some(h) ==> {
                let c = rtti.spec_get_class(class_cname::<T>()).unwrap();
                let n = old(pool).spec_blocks().len();
                let blk = final(pool).spec_blocks()[n as int];
                &&& h.block() matches Some(b) && b as int == n as int
                &&& final(pool).strong_valid(h.block())
                &&& final(pool).spec_blocks().len() == n + 1
                &&& final(pool).spec_blocks().subrange(0, n as int) == old(pool).spec_blocks()
                &&& blk.strong == 1 && blk.weak == 1
                &&& blk.instance matches Some(inst) && inst.class == c.name && exists|
                    d: Vec<u8>,
                    o: Vec<u8>,
                |
                    d@ == zeros(c.size as nat) && init.ensures((d,), o) && T::Kind::spec_fields(
                        &inst,
                    ) == o@
            },
    {
        let name = CName::new(T::CLASS_NAME);
        let class = match rtti.get_class(name) {
            Some(c) => c,
            None => {
                return None;
            },
        };
        let inst = class.instantiate();
        let defaults = zeroed(class.size as usize);
        let ghost d = defaults;
        let fields = init(defaults);
        let ghost o = fields;
        let inst = T::Kind::with_fields(inst, fields);
        let ghost before = pool.spec_blocks();
        let b = pool.allocate(inst);
        assert(pool.spec_blocks().subrange(0, b as int) =~= before);
        Some(Ref { inner: BaseRef { block: Some(b) }, marker: PhantomData })
    }

    /// The strong count of the handle's block; zero for the empty handle.
    pub fn strong_count(&self, pool: &RefPool) -> (r: u32)
        requires
            pool.strong_valid(self.block()),
        ensures
            r == match self.block() {
                Some(b) => pool.spec_blocks()[b as int].strong,
                None => 0,
            },
    {
        match self.inner.block {
            Some(b) => pool.counts(b).0,
            None => 0,
        }
    }

    /// The weak count of the handle's block; zero for the empty handle.
    pub fn weak_count(&self, pool: &RefPool) -> (r: u32)
        requires
            pool.strong_valid(self.block()),
        ensures
            r == match self.block() {
                Some(b) => pool.spec_blocks()[b as int].weak,
                None => 0,
            },
    {
        match self.inner.block {
            Some(b) => pool.counts(b).1,
            None => 0,
        }
    }

    /// Whether both handles refer to the same block.
    pub fn ptr_eq<U: ScriptClass>(&self, other: &Ref<U>) -> (r: bool)
        ensures
            r == (self.block() == other.block()),
    {
        match (self.inner.block, other.inner.block) {
            (Some(a), Some(b)) => a == b,
            (None, None) => true,
            _ => false,
        }
    }

    /// The instance; absent for the empty handle.
    pub fn instance<'a>(&self, pool: &'a RefPool) -> (r: Option<&'a IScriptable>)
        requires
            pool.wf(),
            pool.strong_valid(self.block()),
        ensures
            self.block() is None ==> r is None,
            self.block() matches Some(b) ==> r matches Some(i) && Some(*i)
                == pool.spec_blocks()[b as int].instance,
    {
        match self.inner.block {
            Some(b) => {
                assert(block_wf(pool.spec_blocks()[b as int]));
                match &pool.blocks[b].instance {
                    Some(i) => Some(i),
                    None => None,
                }
            },
            None => None,
        }
    }

    /// The fields of the instance, where `T`'s kind puts them; absent for
    /// the empty handle.
    pub fn fields<'a>(&self, pool: &'a RefPool) -> (r: Option<&'a Vec<u8>>)
        requires
            pool.wf(),
            pool.strong_valid(self.block()),
        ensures
            self.block() is None ==> r is None,
            self.block() matches Some(b) ==> r matches Some(f) && pool.spec_blocks()[b as int].instance
                matches Some(i) && f@ == T::Kind::spec_fields(&i),
    {
        match self.instance(pool) {
            Some(i) => Some(T::Kind::get(i)),
            None => None,
        }
    }

    /// Replaces the fields of the instance, where `T`'s kind puts them, by
    /// `fields`; the empty handle changes nothing.
    pub fn set_fields(&self, pool: &mut RefPool, fields: Vec<u8>)
        requires
            old(pool).wf(),
            old(pool).strong_valid(self.block()),
        ensures
            final(pool).wf(),
            self.block() is None ==> final(pool).spec_blocks() == old(pool).spec_blocks(),
            self.block() matches Some(b) ==> fields_replaced::<T::Kind>(
                old(pool).spec_blocks(),
                final(pool).spec_blocks(),
                b as int,
                fields@,
            ),
    {
        if let Some(b) = self.inner.block {
            pool.replace_fields::<T::Kind>(b, fields);
        }
    }

    /// Another strong handle to the same instance: the strong count grows by one.
    pub fn retain(&self, pool: &mut RefPool) -> (r: Ref<T>)
        requires
            old(pool).wf(),
            old(pool).strong_valid(self.block()),
            self.block() matches Some(b) ==> old(pool).spec_blocks()[b as int].strong < u32::MAX,
        ensures
            final(pool).wf(),
            r.block() == self.block(),
            final(pool).strong_valid(r.block()),
            final(pool).spec_blocks() == match self.block() {
                Some(b) => inc_strong_spec(old(pool).spec_blocks(), b as int),
                None => old(pool).spec_blocks(),
            },
    {
        self.inner.inc_strong(pool);
        Ref { inner: self.inner, marker: PhantomData }
    }

    /// Drops the handle: the strong count falls by one, and when it reaches
    /// zero the instance is destroyed and the shared weak reference dropped.
    pub fn release(self, pool: &mut RefPool)
        requires
            old(pool).wf(),
            old(pool).strong_valid(self.block()),
        ensures
            final(pool).wf(),
            final(pool).spec_blocks() == match self.block() {
                Some(b) => dec_strong_spec(old(pool).spec_blocks(), b as int),
                None => old(pool).spec_blocks(),
            },
    {
        self.inner.dec_strong(pool);
    }

    /// Turns the handle into a weak one: the weak count grows by one, then
    /// this strong handle is dropped.
    pub fn downgrade(self, pool: &mut RefPool) -> (r: WeakRef<T>)
        requires
            old(pool).wf(),
            old(pool).strong_valid(self.block()),
            self.block() matches Some(b) ==> old(pool).spec_blocks()[b as int].weak < u32::MAX,
        ensures
            final(pool).wf(),
            r.block() == self.block(),
            final(pool).weak_valid(r.block()),
            final(pool).spec_blocks() == match self.block() {
                Some(b) => downgrade_spec(old(pool).spec_blocks(), b as int),
                None => old(pool).spec_blocks(),
            },
    {
        self.inner.inc_weak(pool);
        self.inner.dec_strong(pool);
        WeakRef { inner: self.inner, marker: PhantomData }
    }

    /// The same handle as one to class `U`, when the instance's actual class
    /// is `U` or derives from it. Otherwise the handle is dropped and the
    /// result is absent; the empty handle gives absent too.
    pub fn cast<U: ScriptClass>(self, rtti: &RttiSystem, pool: &mut RefPool) -> (r: Option<Ref<U>>)
        requires
            rtti.wf(),
            old(pool).wf(),
            old(pool).strong_valid(self.block()),
        ensures
            final(pool).wf(),
            r is Some <==> (self.block() matches Some(b) && cast_succeeds(
                rtti,
                old(pool).spec_blocks(),
                b as int,
                class_cname::<U>(),
            )),
            r matches Some(h) ==> h.block() == self.block() && final(pool).spec_blocks() == old(
                pool,
            ).spec_blocks() && final(pool).strong_valid(h.block()),
            r is None ==> final(pool).spec_blocks() == match self.block() {
                Some(b) => dec_strong_spec(old(pool).spec_blocks(), b as int),
                None => old(pool).spec_blocks(),
            },
    {
        let b = match self.inner.block {
            Some(b) => b,
            None => {
                return None;
            },
        };
        let target = CName::new(U::CLASS_NAME);
        let ok = match &pool.blocks[b].instance {
            Some(inst) => match rtti.find_class(inst.class) {
                Some(k) => rtti.class_derives(k, target),
                None => false,
            },
            None => false,
        };
        if ok {
            Some(Ref { inner: self.inner, marker: PhantomData })
        } else {
            self.release(pool);
            None
        }
    }
}

/// Shorthands for making instances of a class.
pub trait ScriptClassOps: ScriptClass {
    /// A new default instance of the class, as `Ref::new` makes it.
    fn new_ref(rtti: &RttiSystem, pool: &mut RefPool) -> (r: Option<Ref<Self>>)
        requires
            rtti.wf(),
            old(pool).wf(),
        ensures
            final(pool).wf(),
            r is Some <==> rtti.spec_get_class(class_cname::<Self>()) is Some,
            r matches Some(h) ==> (h.block() matches Some(b) && b as int == old(pool).spec_blocks().len() as int)
                && final(pool).strong_valid(h.block()),
            r is None ==> final(pool).spec_blocks() == old(pool).spec_blocks(),
    ;

    /// A new instance of the class with fields made by `init`, as
    /// `Ref::new_with` makes it.
    fn new_ref_with<F: FnOnce(Vec<u8>) -> Vec<u8>>(
        rtti: &RttiSystem,
        pool: &mut RefPool,
        init: F,
    ) -> (r: Option<Ref<Self>>)
        requires
            rtti.wf(),
            old(pool).wf(),
            forall|v: Vec<u8>| init.requires((v,)),
        ensures
            final(pool).wf(),
            r is Some <==> rtti.spec_get_class(class_cname::<Self>()) is Some,
            r matches Some(h) ==> (h.block() matches Some(b) && b as int == old(pool).spec_blocks().len() as int)
                && final(pool).strong_valid(h.block()),
            r is None ==> final(pool).spec_blocks() == old(pool).spec_blocks(),
    ;
}

impl<T: ScriptClass> ScriptClassOps for T {
    fn new_ref(rtti: &RttiSystem, pool: &mut RefPool) -> (r: Option<Ref<Self>>) {
        Ref::new(rtti, pool)
    }

    fn new_ref_with<F: FnOnce(Vec<u8>) -> Vec<u8>>(
        rtti: &RttiSystem,
        pool: &mut RefPool,
        init: F,
    ) -> (r: Option<Ref<Self>>) {
        Ref::new_with(rtti, pool, init)
    }
}

impl<T: ScriptClass> WeakRef<T> {
    /// The block the handle refers to; none for the empty handle.
    pub closed spec fn block(&self) -> Option<usize> {
        self.inner.block
    }

    /// The empty weak handle.
    pub fn empty() -> (r: WeakRef<T>)
        ensures
            r.block() is None,
    {
        WeakRef { inner: BaseRef { block: None }, marker: PhantomData }
    }

    /// The strong count of the handle's block; zero for the empty handle.
    pub fn strong_count(&self, pool: &RefPool) -> (r: u32)
        requires
            pool.weak_valid(self.block()),
        ensures
            r == match self.block() {
                Some(b) => pool.spec_blocks()[b as int].strong,
                None => 0,
            },
    {
        match self.inner.block {
            Some(b) => pool.counts(b).0,
            None => 0,
        }
    }

    /// The weak count of the handle's block; zero for the empty handle.
    pub fn weak_count(&self, pool: &RefPool) -> (r: u32)
        requires
            pool.weak_valid(self.block()),
        ensures
            r == match self.block() {
                Some(b) => pool.spec_blocks()[b as int].weak,
                None => 0,
            },
    {
        match self.inner.block {
            Some(b) => pool.counts(b).1,
            None => 0,
        }
    }

    /// A strong handle to the instance if it still lives: the strong count
    /// grows by one only if it is positive. Either way this weak handle is
    /// dropped.
    pub fn upgrade(self, pool: &mut RefPool) -> (r: Option<Ref<T>>)
        requires
            old(pool).wf(),
            old(pool).weak_valid(self.block()),
            self.block() matches Some(b) ==> old(pool).spec_blocks()[b as int].strong < u32::MAX,
        ensures
            final(pool).wf(),
            r is Some <==> (self.block() matches Some(b) && old(pool).spec_blocks()[b as int].strong
                > 0),
            r matches Some(h) ==> h.block() == self.block() && final(pool).strong_valid(h.block()),
            self.block() matches Some(b) ==> final(pool).spec_blocks() == upgrade_spec(
                old(pool).spec_blocks(),
                b as int,
            ),
            self.block() matches Some(b) ==> (if old(pool).spec_blocks()[b as int].strong == 0 {
                final(pool).spec_blocks()[b as int].strong == 0
            } else {
                final(pool).spec_blocks()[b as int].strong == old(pool).spec_blocks()[b as int].strong
                    + 1
            }),
            self.block() is None ==> final(pool).spec_blocks() == old(pool).spec_blocks(),
    {
        let ok = self.inner.inc_strong_if_non_zero(pool);
        self.inner.dec_weak(pool);
        if ok {
            Some(Ref { inner: self.inner, marker: PhantomData })
        } else {
            None
        }
    }

    /// Another weak handle to the same block: the weak count grows by one.
    pub fn retain(&self, pool: &mut RefPool) -> (r: WeakRef<T>)
        requires
            old(pool).wf(),
            old(pool).weak_valid(self.block()),
            self.block() matches Some(b) ==> old(pool).spec_blocks()[b as int].weak < u32::MAX,
        ensures
            final(pool).wf(),
            r.block() == self.block(),
            final(pool).weak_valid(r.block()),
            final(pool).weak_valid(self.block()),
            final(pool).spec_blocks() == match self.block() {
                Some(b) => inc_weak_spec(old(pool).spec_blocks(), b as int),
                None => old(pool).spec_blocks(),
            },
    {
        self.inner.inc_weak(pool);
        WeakRef { inner: self.inner, marker: PhantomData }
    }

    /// Drops the handle: the weak count falls by one; at zero the block is
    /// released.
    pub fn release(self, pool: &mut RefPool)
        requires
            old(pool).wf(),
            old(pool).weak_valid(self.block()),
        ensures
            final(pool).wf(),
            final(pool).spec_blocks() == match self.block() {
                Some(b) => dec_weak_spec(old(pool).spec_blocks(), b as int),
                None => old(pool).spec_blocks(),
            },
    {
        self.inner.dec_weak(pool);
    }
}


/// In a well-formed pool a block whose strong count is positive has a weak
/// count of at least one and a live instance.
pub proof fn lemma_strong_holds_weak(pool: &RefPool, b: int)
    requires
        pool.wf(),
        0 <= b < pool.spec_blocks().len(),
    ensures
        pool.spec_blocks()[b].strong > 0 ==> pool.spec_blocks()[b].weak >= 1
            && pool.spec_blocks()[b].instance is Some,
{
    assert(block_wf(pool.spec_blocks()[b]));
}

/// An instance is destroyed exactly once: a strong decrement lowers the
/// strong count by one and destroys the instance, releasing the shared weak
/// reference, precisely when the count goes from one to zero; no operation
/// brings an instance back to a block that lost it.
pub proof fn lemma_destroyed_once(s: Seq<Block>, b: int)
    requires
        0 <= b < s.len(),
        block_wf(s[b]),
    ensures
        s[b].strong > 0 ==> (dec_strong_spec(s, b)[b].instance is None <==> s[b].strong == 1),
        s[b].strong > 0 ==> dec_strong_spec(s, b)[b].strong == s[b].strong - 1,
        s[b].strong > 0 ==> dec_strong_spec(s, b)[b].weak == if s[b].strong == 1 {
            s[b].weak - 1
        } else {
            s[b].weak as int
        },
        s[b].strong > 1 ==> block_wf(dec_strong_spec(s, b)[b]),
        s[b].instance is None ==> dec_strong_spec(s, b)[b].instance is None,
        s[b].instance is None ==> inc_strong_spec(s, b)[b].instance is None,
        s[b].instance is None ==> inc_weak_spec(s, b)[b].instance is None,
        s[b].instance is None ==> dec_weak_spec(s, b)[b].instance is None,
        s[b].strong == 0 ==> upgrade_spec(s, b)[b].strong == 0,
{
}

/// Upgrading a weak handle never revives an instance: when the strong count
/// is zero it stays zero, and otherwise it grows by exactly one.
pub proof fn lemma_upgrade_counts(s: Seq<Block>, b: int)
    requires
        0 <= b < s.len(),
        s[b].strong < u32::MAX,
        s[b].weak >= 1,
    ensures
        s[b].strong == 0 ==> upgrade_spec(s, b)[b].strong == 0,
        s[b].strong > 0 ==> upgrade_spec(s, b)[b].strong == s[b].strong + 1,
{
}

/// Downgrading a strong handle and upgrading the weak handle at once, while
/// another strong handle lives, leaves the block as it was: same counts,
/// same instance, and the upgrade succeeds.
pub proof fn lemma_downgrade_upgrade(s: Seq<Block>, b: int)
    requires
        0 <= b < s.len(),
        block_wf(s[b]),
        s[b].strong >= 2,
        s[b].weak < u32::MAX,
    ensures
        downgrade_spec(s, b)[b].strong > 0,
        upgrade_spec(downgrade_spec(s, b), b) == s.update(
            b,
            Block { strong: s[b].strong, weak: s[b].weak, instance: s[b].instance },
        ),
{
}

/// A cast succeeds towards the actual class and towards every one of its
/// bases: each class on the chain of the instance's class.
pub proof fn lemma_cast_to_ancestor(rtti: &RttiSystem, s: Seq<Block>, b: int, k: int, j: int)
    requires
        rtti.wf(),
        0 <= b < s.len(),
        s[b].instance matches Some(inst) && class_index(rtti.spec_classes(), inst.class) == Some(k),
        chain(rtti.spec_classes(), k).contains(j),
    ensures
        cast_succeeds(rtti, s, b, rtti.spec_classes()[j].name),
{
    lemma_chain_derives(rtti.spec_classes(), k, j);
}

proof fn lemma_chain_derives(classes: Seq<Class>, k: int, j: int)
    requires
        chain(classes, k).contains(j),
    ensures
        derives_from(classes, k, classes[j].name),
    decreases k,
{
    if 0 <= k < classes.len() {
        let c = chain(classes, k);
        let idx = choose|idx: int| 0 <= idx < c.len() && c[idx] == j;
        if idx == 0 {
            assert(c[0] == k);
        } else {
            match classes[k].base {
                Some(bb) => {
                    if 0 <= bb < k {
                        let rest = chain(classes, bb as int);
                        assert(c == seq![k] + rest);
                        assert(rest[idx - 1] == j);
                        lemma_chain_derives(classes, bb as int, j);
                    } else {
                        assert(c =~= seq![k]);
                    }
                },
                None => {
                    assert(c =~= seq![k]);
                },
            }
        }
    }
}

} // verus!
