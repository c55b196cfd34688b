//! Reflection navigation and reference-counted handles for objects whose
//! storage and type catalog belong to a host runtime.
//!
//! The host catalog is modelled by [`RttiSystem`], an explicit value that is
//! handed to every operation that needs it; reference-count blocks live in a
//! [`RefPool`] arena addressed by index.
pub mod hash;
pub mod cname;
pub mod res;
pub mod rtti;
pub mod system;
pub mod refs;
pub mod time;
pub mod tweak_db_id;
pub mod stack;

pub use cname::{CName, CNamePool};
pub use hash::{fnv1a32, fnv1a64};
pub use refs::{ClassKind, IScriptable, Native, Ref, RefPool, ScriptClass, ScriptClassOps, Scripted, WeakRef};
pub use res::{RaRef, ResRef, ResourcePath, ResourcePathError};
pub use rtti::{ArrayType, Bitfield, Class, Enum, Function, GlobalFunction, Kind, Property, Type, ValueContainer, ValuePtr};
pub use system::RttiSystem;
pub use time::{EngineTime, EngineTimeError, GameTime};
pub use stack::StackFrame;
pub use tweak_db_id::{Cruid, TweakDbId};
