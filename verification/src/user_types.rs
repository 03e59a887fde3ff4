//! Foreign-object registration: native types as first-class stack values.
//!
//! A native type is registered once per session: a metatable is created under
//! the type's stable identity string, the identifier the host hands out is
//! cached in the registry table under the type's identity key, and, when the
//! native type needs dropping, a `__gc` closure carrying the identifier as an
//! upvalue is installed on the metatable. Instances are host-managed records
//! holding a header (a narrow tag and the full registered identifier, both of
//! which a downcast must match) followed by the embedded native value's
//! bytes. Destruction is two-phase: the `__gc` hook runs while the value is
//! still intact, then the value itself is destroyed, exactly once.
//!
//! The typed layer of the binding — handing out `&T` into the embedded value
//! by reinterpreting the payload bytes — is raw pointer work and lives with
//! the unsafe dispatch layer outside this crate; here the embedded value is
//! its bytes.

use vstd::prelude::*;
use vstd::pervasive::VecAdditionalExecFns;
use vstd::string::StringSliceAdditionalSpecFns;
use crate::types::{RawType, StackPos, Type, FIRST_FOREIGN_TYPE};
use crate::value::{copy_bytes, Value};
use crate::exit::{CallError, Exit};
use crate::state::{Lua, RawUd, REGISTRY_TABLE};
use crate::tables::tbl_get;
use crate::func::NativeDispatch;

verus! {

/// Everything the binding knows about a native type at registration time:
/// its stable identity string, the identity key its cached identifier is
/// stored under in the registry, the message a failed checked downcast
/// names it by, whether instances need dropping, and the label of the
/// native function that runs its collection hook.
pub struct UserTypeDesc {
    /// The type's stable identity string; must be unique per type within a
    /// session.
    pub id: Vec<u8>,
    /// The identity key for the registry cache; the unsafe layer derives it
    /// from the address of the identity string.
    pub key: usize,
    /// Error message for whenever a value of this type is expected.
    pub expected_err: Vec<u8>,
    /// Whether instances carry a destructor that must run at collection.
    pub needs_drop: bool,
    /// Label of the native function adapting the type's collection hook.
    pub gc_func: u64,
}

/// The bytes of the metatable key the collection hook is installed under.
pub open spec fn gc_key_bytes() -> Seq<u8> {
    "__gc".spec_bytes()
}

/// The message a lookup for a type that was never registered in this
/// session fails with.
pub open spec fn unregistered_text() -> Seq<u8> {
    "type does not have an associated type ID in this Lua state".spec_bytes()
}

impl Lua {
    /// What the registry table caches under a type's identity key.
    pub open spec fn registry_entry(&self, key: usize) -> Value {
        tbl_get(self.tables@[REGISTRY_TABLE as int].entries@, Value::LightUserData(key))
    }

    /// The identifier a lookup for a type's identity key yields: the cached
    /// number read back as a type identifier, absent when nothing usable is
    /// cached.
    pub open spec fn user_type_lookup(&self, key: usize) -> Option<Type> {
        match self.registry_entry(key) {
            Value::Number(b) => if b <= 0x7fff_ffff {
                Some(Type(b as RawType))
            } else {
                None
            },
            _ => None,
        }
    }

    /// Whether a userdata record's metatable carries a collection hook: a
    /// function stored under the hook key.
    pub open spec fn has_gc_hook(&self, id: int) -> bool {
        match self.uds@[id].meta {
            Some(m) => self.has_str(gc_key_bytes()) && tbl_get(
                self.tables@[m as int].entries@,
                self.str_key(gc_key_bytes()),
            ) is Function,
            None => false,
        }
    }

    /// Whether a userdata record's header matches a registered type: both
    /// the narrow tag and the full identifier must agree before a downcast
    /// may trust the embedded value.
    pub open spec fn ud_matches(&self, id: int, ty: Type) -> bool {
        &&& self.uds@[id].rust_ty == ty.0
        &&& self.uds@[id].ty == Self::narrow_tag(ty.0 as int)
    }

    /// Allocate a new plain userdata record of the given size, its bytes
    /// zeroed and its header blank, push it onto the stack, and return its
    /// handle.
    pub fn new_userdata(&mut self, size: u32) -> (id: usize)
        requires
            old(self).wf(),
            old(self).stack@.len() < 0x7fff_ffff,
        ensures
            final(self).wf(),
            id == old(self).uds@.len(),
            final(self).stack@ == old(self).stack@.push(Value::UserData(id)),
            final(self).uds@.len() == old(self).uds@.len() + 1,
            forall|u: int| 0 <= u < old(self).uds@.len() ==> final(self).uds@[u] == old(self).uds@[u],
            final(self).uds@.last().ty == 0,
            final(self).uds@.last().rust_ty == 0,
            final(self).uds@.last().data@ == Seq::new(size as nat, |i: int| 0u8),
            final(self).uds@.last().meta is None,
            !final(self).uds@.last().finalized,
            final(self).strings == old(self).strings,
            final(self).tables == old(self).tables,
            final(self).closures == old(self).closures,
            final(self).refs == old(self).refs,
            final(self).metas == old(self).metas,
            final(self).frames == old(self).frames,
            final(self).next_type == old(self).next_type,
    {
        let id = self.uds.len();
        let mut data: Vec<u8> = Vec::new();
        let mut i: u32 = 0;
        while i < size
            invariant
                i <= size,
                data@ == Seq::new(i as nat, |k: int| 0u8),
            decreases size - i,
        {
            data.push(0);
            proof {
                assert(data@ =~= Seq::new((i + 1) as nat, |k: int| 0u8));
            }
            i += 1;
        }
        self.uds.push(RawUd { ty: 0, rust_ty: 0, data, meta: None, finalized: false });
        self.stack.push(Value::UserData(id));
        id
    }

    /// Allocate a host-managed record for an instance of a registered
    /// foreign type: stamp the header with the narrow tag and the full
    /// identifier, embed the value's bytes, attach the metatable previously
    /// created for that identifier if one exists, push the instance, and
    /// return its handle.
    pub fn create_user_type(&mut self, ty: Type, value: Vec<u8>) -> (id: usize)
        requires
            old(self).wf(),
            old(self).stack@.len() + 2 <= 0x7fff_ffff,
            FIRST_FOREIGN_TYPE <= ty.0,
            ty.0 < old(self).next_type,
        ensures
            final(self).wf(),
            id == old(self).uds@.len(),
            final(self).stack@ == old(self).stack@.push(Value::UserData(id)),
            final(self).uds@.len() == old(self).uds@.len() + 1,
            forall|u: int| 0 <= u < old(self).uds@.len() ==> final(self).uds@[u] == old(self).uds@[u],
            final(self).uds@.last().rust_ty == ty.0,
            final(self).uds@.last().ty == Self::narrow_tag(ty.0 as int),
            final(self).uds@.last().data == value,
            !final(self).uds@.last().finalized,
            final(self).uds@.last().meta == if old(self).has_meta_ty(ty.0 as int) {
                Some(old(self).metas@[old(self).meta_idx_by_ty(ty.0 as int)].table)
            } else {
                None::<usize>
            },
            final(self).ud_matches(id as int, ty),
            final(self).strings == old(self).strings,
            final(self).tables == old(self).tables,
            final(self).closures == old(self).closures,
            final(self).refs == old(self).refs,
            final(self).metas == old(self).metas,
            final(self).frames == old(self).frames,
            final(self).next_type == old(self).next_type,
    {
        let id = self.uds.len();
        let narrow = (ty.0 % 256) as u8;
        self.uds.push(RawUd { ty: narrow, rust_ty: ty.0, data: value, meta: None, finalized: false });
        self.stack.push(Value::UserData(id));
        if self.push_metatable(ty) {
            proof {
                assert(self.at(-2) == Value::UserData(id));
                assert(self.stack@.last() is Table);
            }
            match self.set_metatable(-2) {
                Ok(()) => {
                    proof {
                        assert(self.stack@ =~= old(self).stack@.push(Value::UserData(id)));
                    }
                },
                Err(_) => {
                    proof {
                        assert(false);
                    }
                },
            }
        }
        id
    }

    /// Push an instance of a registered foreign type holding the given
    /// value's bytes; this is [`Lua::create_user_type`] with the value
    /// already built.
    pub fn push_user_type(&mut self, ty: Type, value: Vec<u8>) -> (id: usize)
        requires
            old(self).wf(),
            old(self).stack@.len() + 2 <= 0x7fff_ffff,
            FIRST_FOREIGN_TYPE <= ty.0,
            ty.0 < old(self).next_type,
        ensures
            final(self).wf(),
            id == old(self).uds@.len(),
            final(self).stack@ == old(self).stack@.push(Value::UserData(id)),
            final(self).uds@.len() == old(self).uds@.len() + 1,
            forall|u: int| 0 <= u < old(self).uds@.len() ==> final(self).uds@[u] == old(self).uds@[u],
            final(self).uds@.last().rust_ty == ty.0,
            final(self).uds@.last().ty == Self::narrow_tag(ty.0 as int),
            final(self).uds@.last().data == value,
            !final(self).uds@.last().finalized,
            final(self).ud_matches(id as int, ty),
            final(self).test_ud_spec(ty, -1) == Some(id as int),
            forall|ty2: Type|
                FIRST_FOREIGN_TYPE <= ty2.0 && ty2.0 != ty.0 ==> final(self).test_ud_spec(ty2, -1)
                    is None,
            final(self).strings == old(self).strings,
            final(self).tables == old(self).tables,
            final(self).closures == old(self).closures,
            final(self).refs == old(self).refs,
            final(self).metas == old(self).metas,
            final(self).frames == old(self).frames,
            final(self).next_type == old(self).next_type,
    {
        let id = self.create_user_type(ty, value);
        proof {
            assert(self.at(-1) == Value::UserData(id));
            assert(self.type_at(-1) == ty.0);
        }
        id
    }

    /// The handle a downcast at a position yields: the userdata there, if
    /// the host's type tag and both header fields agree with the expected
    /// registered type; absence otherwise.
    pub open spec fn test_ud_spec(&self, ty: Type, pos: int) -> Option<int> {
        if self.valid_pos(pos) && self.type_at(pos) == ty.0 {
            match self.at(pos) {
                Value::UserData(id) => if self.ud_matches(id as int, ty) {
                    Some(id as int)
                } else {
                    None
                },
                _ => None,
            }
        } else {
            None
        }
    }

    /// Downcast the value at `stack_pos` to the registered type `ty`: hand
    /// back the record handle when the host's type tag and both header
    /// fields agree, absence otherwise.
    pub fn test_ud_ptr(&self, ty: Type, stack_pos: StackPos) -> (r: Option<usize>)
        requires
            self.wf(),
            FIRST_FOREIGN_TYPE <= ty.0,
        ensures
            match r {
                Some(id) => self.test_ud_spec(ty, stack_pos as int) == Some(id as int) && id
                    < self.uds@.len(),
                None => self.test_ud_spec(ty, stack_pos as int) is None,
            },
    {
        if !self.is_type(stack_pos, ty) {
            return None;
        }
        let v = self.value_at(stack_pos);
        match v {
            Value::UserData(id) => {
                let narrow = (ty.0 % 256) as u8;
                if self.uds[id].ty == narrow && self.uds[id].rust_ty == ty.0 {
                    Some(id)
                } else {
                    None
                }
            },
            _ => {
                proof {
                    assert(false);
                }
                None
            },
        }
    }

    /// Downcast the value at `stack_pos` to the registered type `ty` and
    /// copy out the embedded value's bytes, or absence on any mismatch.
    pub fn test_ud(&self, ty: Type, stack_pos: StackPos) -> (r: Option<Vec<u8>>)
        requires
            self.wf(),
            FIRST_FOREIGN_TYPE <= ty.0,
        ensures
            r is Some <==> self.test_ud_spec(ty, stack_pos as int) is Some,
            match r {
                Some(b) => self.test_ud_spec(ty, stack_pos as int) matches Some(id) && b@
                    == self.uds@[id].data@,
                None => true,
            },
    {
        match self.test_ud_ptr(ty, stack_pos) {
            Some(id) => Some(copy_bytes(self.uds[id].data.as_slice())),
            None => None,
        }
    }

    /// Downcast the value at `arg` to the registered type `ty` and hand back
    /// the record handle, or raise an argument error naming the expected
    /// type on any mismatch.
    pub fn check_ud_ptr(&mut self, ty: Type, arg: StackPos, expected_err: &[u8]) -> (r: Result<
        usize,
        Exit,
    >)
        requires
            old(self).wf(),
            FIRST_FOREIGN_TYPE <= ty.0,
            arg >= 1,
            expected_err@.len() <= 0x7fff_ffff,
        ensures
            final(self).wf(),
            final(self).stack == old(self).stack,
            final(self).tables == old(self).tables,
            final(self).uds == old(self).uds,
            final(self).closures == old(self).closures,
            final(self).refs == old(self).refs,
            final(self).metas == old(self).metas,
            final(self).frames == old(self).frames,
            final(self).next_type == old(self).next_type,
            forall|i: int|
                0 <= i < old(self).strings@.len() ==> final(self).strings@[i] == old(
                    self,
                ).strings@[i],
            final(self).strings@.len() >= old(self).strings@.len(),
            r is Ok <==> old(self).test_ud_spec(ty, arg as int) is Some,
            match r {
                Ok(id) => old(self).test_ud_spec(ty, arg as int) == Some(id as int) && id < old(
                    self,
                ).uds@.len(),
                Err(e) => final(self).is_arg_error(e, arg as u32, expected_err@),
            },
    {
        match self.test_ud_ptr(ty, arg) {
            Some(id) => Ok(id),
            None => Err(self.arg_error(arg as u32, expected_err)),
        }
    }

    /// Downcast the value at `arg` to the registered type `ty` and copy out
    /// the embedded value's bytes, or raise an argument error naming the
    /// expected type on any mismatch.
    pub fn check_ud(&mut self, ty: Type, arg: StackPos, expected_err: &[u8]) -> (r: Result<
        Vec<u8>,
        Exit,
    >)
        requires
            old(self).wf(),
            FIRST_FOREIGN_TYPE <= ty.0,
            arg >= 1,
            expected_err@.len() <= 0x7fff_ffff,
        ensures
            final(self).wf(),
            final(self).stack == old(self).stack,
            final(self).tables == old(self).tables,
            final(self).uds == old(self).uds,
            final(self).closures == old(self).closures,
            final(self).refs == old(self).refs,
            final(self).metas == old(self).metas,
            final(self).frames == old(self).frames,
            final(self).next_type == old(self).next_type,
            r is Ok <==> old(self).test_ud_spec(ty, arg as int) is Some,
            match r {
                Ok(b) => old(self).test_ud_spec(ty, arg as int) matches Some(id) && b@ == old(
                    self,
                ).uds@[id].data@,
                Err(e) => final(self).is_arg_error(e, arg as u32, expected_err@),
            },
    {
        match self.check_ud_ptr(ty, arg, expected_err) {
            Ok(id) => Ok(copy_bytes(self.uds[id].data.as_slice())),
            Err(e) => Err(e),
        }
    }

    /// Register a native type in this session: create (or re-use) the
    /// metatable under the type's identity string, cache the type identifier
    /// in the registry table under the type's identity key, and, when the
    /// type needs dropping, install a `__gc` closure carrying the identifier
    /// as its upvalue. The metatable is left on top of the stack so the
    /// caller can install the type's own metamethods; the caller is expected
    /// to register each type exactly once per session.
    pub fn register(&mut self, desc: &UserTypeDesc) -> (r: Type)
        requires
            old(self).wf(),
            old(self).stack@.len() + 4 <= 0x7fff_ffff,
            desc.id@.len() <= 0x7fff_ffff,
            old(self).next_type < 0x7fff_ffff,
        ensures
            final(self).wf(),
            Lua::extends(old(self), final(self)),
            final(self).frames == old(self).frames,
            final(self).uds == old(self).uds,
            final(self).refs == old(self).refs,
            FIRST_FOREIGN_TYPE <= r.0 < final(self).next_type,
            final(self).stack@.len() == old(self).stack@.len() + 1,
            forall|j: int|
                0 <= j < old(self).stack@.len() ==> final(self).stack@[j] == old(self).stack@[j],
            final(self).has_meta_name(desc.id@),
            r.0 == final(self).metas@[final(self).meta_idx_by_name(desc.id@)].ty,
            final(self).stack@.last() == Value::Table(
                final(self).metas@[final(self).meta_idx_by_name(desc.id@)].table,
            ),
            final(self).has_meta_ty(r.0 as int),
            final(self).registry_entry(desc.key) == Value::Number(r.0 as u64),
            forall|k2: Value|
                k2 != Value::LightUserData(desc.key) ==> #[trigger] tbl_get(
                    final(self).tables@[REGISTRY_TABLE as int].entries@,
                    k2,
                ) == tbl_get(old(self).tables@[REGISTRY_TABLE as int].entries@, k2),
            desc.needs_drop ==> (tbl_get(
                final(self).tables@[final(self).metas@[final(self).meta_idx_by_name(
                    desc.id@,
                )].table as int].entries@,
                final(self).str_key(gc_key_bytes()),
            ) matches Value::Function(c) && c < final(self).closures@.len() && final(self).closures@[c as int].func == desc.gc_func && final(self).closures@[c as int].upvalues@
                =~= seq![Value::Number(r.0 as u64)]),
            final(self).tables@[REGISTRY_TABLE as int].meta == old(
                self,
            ).tables@[REGISTRY_TABLE as int].meta,
            ({
                let mt = final(self).metas@[final(self).meta_idx_by_name(desc.id@)].table as int;
                forall|t: int|
                    0 <= t < old(self).tables@.len() && t != REGISTRY_TABLE as int && t != mt
                        ==> final(self).tables@[t] == old(self).tables@[t]
            }),
            ({
                let mt = final(self).metas@[final(self).meta_idx_by_name(desc.id@)].table as int;
                if old(self).has_meta_name(desc.id@) {
                    final(self).tables@[mt].meta == old(self).tables@[mt].meta
                } else {
                    final(self).tables@[mt].meta is None
                }
            }),
            desc.needs_drop ==> ({
                let mt = final(self).metas@[final(self).meta_idx_by_name(desc.id@)].table as int;
                forall|k2: Value|
                    k2 != final(self).str_key(gc_key_bytes()) ==> #[trigger] tbl_get(
                        final(self).tables@[mt].entries@,
                        k2,
                    ) == (if old(self).has_meta_name(desc.id@) {
                        tbl_get(old(self).tables@[mt].entries@, k2)
                    } else {
                        Value::Nil
                    })
            }),
            !desc.needs_drop ==> ({
                let mt = final(self).metas@[final(self).meta_idx_by_name(desc.id@)].table as int;
                forall|k2: Value|
                    #[trigger] tbl_get(final(self).tables@[mt].entries@, k2) == (if old(
                        self,
                    ).has_meta_name(desc.id@) {
                        tbl_get(old(self).tables@[mt].entries@, k2)
                    } else {
                        Value::Nil
                    })
            }),
            forall|c: int|
                0 <= c < old(self).closures@.len() ==> final(self).closures@[c] == old(
                    self,
                ).closures@[c],
            desc.needs_drop ==> final(self).closures@.len() == old(self).closures@.len() + 1,
            !desc.needs_drop ==> final(self).closures == old(self).closures,
    {
        let ty = self.create_metatable(desc.id.as_slice());
        let ghost s1 = *self;
        self.push_registry();
        self.push_light_userdata(desc.key);
        self.push_bits(ty.0 as u64);
        proof {
            assert(self.at(-3) == Value::Table(REGISTRY_TABLE));
            assert(self.stack@[self.stack@.len() - 2] == Value::LightUserData(desc.key));
            assert(self.stack@.last() == Value::Number(ty.0 as u64));
        }
        self.raw_set(-3);
        self.pop(1);
        proof {
            assert(self.stack@ =~= s1.stack@);
        }
        let ghost mut s6 = s1;
        let mut gc_cid: usize = 0;
        if desc.needs_drop {
            self.push_bits(ty.0 as u64);
            gc_cid = self.closures.len();
            self.push_c_closure(desc.gc_func, 1);
            proof {
                s6 = *self;
                assert(s6.stack@.last() == Value::Function(gc_cid));
                assert(s6.at(-2) == s1.stack@.last());
                assert(s6.at(-2) is Table);
                assert(s6.closures@[gc_cid as int].func == desc.gc_func);
                assert(s6.closures@[gc_cid as int].upvalues@ =~= seq![Value::Number(ty.0 as u64)]);
            }
            let gk = "__gc";
            proof {
                reveal_strlit("__gc");
                assert(vstd::utf8::is_ascii_chars(gk@));
                vstd::utf8::is_ascii_chars_encode_utf8(gk@);
                assert(gk@.len() == 4);
                assert(gc_key_bytes().len() == 4);
            }
            match self.set_field(-2, gk.as_bytes()) {
                Ok(()) => {
                    proof {
                        assert(self.stack@ =~= s1.stack@);
                        assert(gk.spec_bytes() == gc_key_bytes());
                        assert(s6.at(-2) matches Value::Table(tid) && tbl_get(
                            self.tables@[tid as int].entries@,
                            self.str_key(gc_key_bytes()),
                        ) == s6.stack@.last());
                        assert(self.closures@ == s6.closures@);
                    }
                },
                Err(_) => {
                    proof {
                        assert(false);
                    }
                },
            }
        }
        proof {
            assert(s1.strings@.len() <= self.strings@.len());
            assert forall|i: int| 0 <= i < s1.strings@.len() implies self.strings@[i]
                == s1.strings@[i] by {}
            assert(old(self).strings@.len() <= s1.strings@.len());
            assert forall|i: int| 0 <= i < old(self).strings@.len() implies self.strings@[i] == old(
                self,
            ).strings@[i] by {
                if old(self).has_meta_name(desc.id@) {
                    assert(s1.strings == old(self).strings);
                } else {
                    assert(s1.strings@[i] == old(self).strings@[i]);
                }
                assert(self.strings@[i] == s1.strings@[i]);
            }
            let i = s1.meta_idx_by_name(desc.id@);
            assert(0 <= i < s1.metas@.len() && s1.metas@[i].name < s1.strings@.len()
                && s1.strings@[s1.metas@[i].name as int]@ == desc.id@);
            assert(self.metas@ == s1.metas@);
            assert(self.strings@[s1.metas@[i].name as int] == s1.strings@[s1.metas@[i].name as int]);
            self.lemma_meta_idx_unique(desc.id@, i);
            if desc.needs_drop {
                let mt = s1.metas@[i].table as int;
                assert(self.meta_idx_by_name(desc.id@) == i);
                assert(self.metas@[i].table == s1.metas@[i].table);
                assert(s1.stack@.last() == Value::Table(s1.metas@[i].table));
                assert(s6.at(-2) == Value::Table(s1.metas@[i].table));
                assert(tbl_get(self.tables@[mt].entries@, self.str_key(gc_key_bytes()))
                    == s6.stack@.last());
                assert(s6.stack@.last() == Value::Function(gc_cid));
                assert(gc_cid < self.closures@.len());
                assert(self.closures@[gc_cid as int].func == desc.gc_func);
                assert(self.closures@[gc_cid as int].upvalues@ =~= seq![Value::Number(
                    ty.0 as u64,
                )]);
                assert(tbl_get(self.tables@[mt].entries@, self.str_key(gc_key_bytes()))
                    matches Value::Function(c) && c < self.closures@.len()
                    && self.closures@[c as int].func == desc.gc_func
                    && self.closures@[c as int].upvalues@ =~= seq![Value::Number(ty.0 as u64)]);
            }
            let mt = s1.metas@[i].table as int;
            assert(s1.wf());
            assert(3 <= mt);
            assert forall|t: int|
                0 <= t < old(self).tables@.len() && t != REGISTRY_TABLE as int && t
                    != mt implies self.tables@[t] == old(self).tables@[t] by {
                assert(s1.tables@[t] == old(self).tables@[t]);
            }
            assert(s1.tables@[REGISTRY_TABLE as int].meta == old(
                self,
            ).tables@[REGISTRY_TABLE as int].meta);
            if old(self).has_meta_name(desc.id@) {
                assert(s1.tables@[mt].meta == old(self).tables@[mt].meta);
            } else {
                assert(mt == old(self).tables@.len());
                assert(s1.tables@[mt].meta is None);
            }
            if desc.needs_drop {
                assert(s6.tables@[mt].entries@ == s1.tables@[mt].entries@);
                assert forall|k2: Value|
                    k2 != self.str_key(gc_key_bytes()) implies #[trigger] tbl_get(
                        self.tables@[mt].entries@,
                        k2,
                    ) == (if old(self).has_meta_name(desc.id@) {
                        tbl_get(old(self).tables@[mt].entries@, k2)
                    } else {
                        Value::Nil
                    }) by {
                    assert(tbl_get(self.tables@[mt].entries@, k2) == tbl_get(
                        s1.tables@[mt].entries@,
                        k2,
                    ));
                    if !old(self).has_meta_name(desc.id@) {
                        assert(s1.tables@[mt].entries@.len() == 0);
                    }
                }
            } else {
                assert(self.tables@[mt].entries@ == s1.tables@[mt].entries@);
                assert forall|k2: Value|
                    #[trigger] tbl_get(self.tables@[mt].entries@, k2) == (if old(
                        self,
                    ).has_meta_name(desc.id@) {
                        tbl_get(old(self).tables@[mt].entries@, k2)
                    } else {
                        Value::Nil
                    }) by {
                    if !old(self).has_meta_name(desc.id@) {
                        assert(s1.tables@[mt].entries@.len() == 0);
                    }
                }
            }
            assert(s1.closures@ == old(self).closures@);
            assert forall|c: int|
                0 <= c < old(self).closures@.len() implies self.closures@[c] == old(
                    self,
                ).closures@[c] by {}
        }
        ty
    }

    /// Return the [`Type`] identifier cached for a native type's identity
    /// key, raising a non-local exit when the type was never registered in
    /// this session. The lookup leaves the registry table pushed on the
    /// stack; callers drop it with the rest of their scratch values.
    pub fn user_type_of(&mut self, key: usize) -> (r: Result<Type, Exit>)
        requires
            old(self).wf(),
            old(self).stack@.len() + 2 <= 0x7fff_ffff,
        ensures
            final(self).wf(),
            Lua::extends(old(self), final(self)),
            final(self).frames == old(self).frames,
            final(self).tables == old(self).tables,
            final(self).uds == old(self).uds,
            final(self).closures == old(self).closures,
            final(self).refs == old(self).refs,
            final(self).metas == old(self).metas,
            final(self).next_type == old(self).next_type,
            r is Ok <==> old(self).user_type_lookup(key) is Some,
            r is Ok ==> Some(r->Ok_0) == old(self).user_type_lookup(key),
            r is Ok ==> final(self).strings == old(self).strings,
            r is Ok ==> final(self).stack@ == old(self).stack@.push(Value::Table(REGISTRY_TABLE)),
            r is Err ==> final(self).is_thrown_str(r->Err_0, unregistered_text()),
            r is Err ==> final(self).stack@.len() == old(self).stack@.len() + 2,
            forall|j: int|
                0 <= j < old(self).stack@.len() ==> final(self).stack@[j] == old(self).stack@[j],
    {
        self.push_registry();
        self.push_light_userdata(key);
        proof {
            assert(self.at(-2) == Value::Table(REGISTRY_TABLE));
            assert(self.stack@.last() == Value::LightUserData(key));
        }
        self.raw_get(-2);
        let found = self.value_at(-1);
        match found {
            Value::Number(b) => {
                if b <= 0x7fff_ffff {
                    self.pop(1);
                    proof {
                        assert(self.stack@ =~= old(self).stack@.push(
                            Value::Table(REGISTRY_TABLE),
                        ));
                    }
                    Ok(Type(b as RawType))
                } else {
                    let e = self.throw_fixed(
                        "type does not have an associated type ID in this Lua state",
                    );
                    proof {
                        reveal_strlit("type does not have an associated type ID in this Lua state");
                        assert(vstd::utf8::is_ascii_chars(
                            "type does not have an associated type ID in this Lua state"@,
                        ));
                        vstd::utf8::is_ascii_chars_encode_utf8(
                            "type does not have an associated type ID in this Lua state"@,
                        );
                    }
                    Err(e)
                }
            },
            _ => {
                let e = self.throw_fixed(
                    "type does not have an associated type ID in this Lua state",
                );
                proof {
                    reveal_strlit("type does not have an associated type ID in this Lua state");
                    assert(vstd::utf8::is_ascii_chars(
                        "type does not have an associated type ID in this Lua state"@,
                    ));
                    vstd::utf8::is_ascii_chars_encode_utf8(
                        "type does not have an associated type ID in this Lua state"@,
                    );
                }
                Err(e)
            },
        }
    }

    /// Run the host's collection step for a userdata record the collector
    /// has found unreachable: the metatable's `__gc` hook, if one is
    /// installed, is called with the instance as its argument while the
    /// embedded value is still intact, under a protected call whose error
    /// the collector swallows; then the embedded value is destroyed in
    /// place. The record may be collected only once, and after collection
    /// its bytes are gone.
    pub fn collect_user_type<D: NativeDispatch>(&mut self, dispatch: &mut D, id: usize) -> (r:
        Result<(), CallError>)
        requires
            old(self).wf(),
            id < old(self).uds@.len(),
            !old(self).uds@[id as int].finalized,
            old(self).stack@.len() + 2 <= 0x7fff_ffff,
        ensures
            final(self).wf(),
            Lua::extends(old(self), final(self)),
            final(self).frames@ == old(self).frames@,
            final(self).uds@[id as int].finalized,
            final(self).uds@[id as int].data@.len() == 0,
            final(self).stack@.len() == old(self).stack@.len(),
            forall|j: int|
                0 <= j < old(self).stack@.len() ==> final(self).stack@[j] == old(self).stack@[j],
            r is Err ==> old(self).has_gc_hook(id as int),
            !old(self).has_gc_hook(id as int) ==> r is Ok,
    {
        let meta = self.uds[id].meta;
        let mut failed = false;
        match meta {
            Some(m) => {
                let gk = "__gc";
                proof {
                    reveal_strlit("__gc");
                    assert(vstd::utf8::is_ascii_chars(gk@));
                    vstd::utf8::is_ascii_chars_encode_utf8(gk@);
                    assert(gk@.len() == 4);
                }
                let kid = self.intern(gk.as_bytes());
                let hook = self.table_get(m, Value::Str(kid));
                match hook {
                    Value::Function(_) => {
                        proof {
                            if old(self).has_str(gc_key_bytes()) {
                                old(self).lemma_str_id_unique(gc_key_bytes(), kid);
                            } else {
                                let entries = old(self).tables@[m as int].entries@;
                                assert forall|j: int| 0 <= j < entries.len() implies (
                                #[trigger] entries[j]).0 != Value::Str(kid) by {
                                    assert(old(self).wf_table(old(self).tables@[m as int]));
                                    assert(old(self).wf_value(entries[j].0));
                                }
                                crate::tables::lemma_tbl_get_absent(entries, Value::Str(kid));
                            }
                            assert(old(self).has_gc_hook(id as int));
                        }
                        self.push_raw_value(hook);
                        self.push_raw_value(Value::UserData(id));
                        let ghost before_call = *self;
                        match self.pcall(dispatch, 1, 0, 0) {
                            Ok(()) => {
                                proof {
                                    assert forall|j: int|
                                        0 <= j < old(self).stack@.len() implies self.stack@[j]
                                        == old(self).stack@[j] by {
                                        assert(self.stack@.subrange(
                                            0,
                                            old(self).stack@.len() as int,
                                        )[j] == before_call.stack@.subrange(
                                            0,
                                            old(self).stack@.len() as int,
                                        )[j]);
                                    }
                                }
                            },
                            Err(_) => {
                                // the collector discards errors raised by a
                                // collection hook
                                self.pop(1);
                                failed = true;
                                proof {
                                    assert forall|j: int|
                                        0 <= j < old(self).stack@.len() implies self.stack@[j]
                                        == old(self).stack@[j] by {
                                        assert(self.stack@[j] == before_call.stack@.subrange(
                                            0,
                                            old(self).stack@.len() as int,
                                        )[j]);
                                    }
                                }
                            },
                        }
                    },
                    _ => {},
                }
            },
            None => {},
        }
        let mut rec = RawUd { ty: 0, rust_ty: 0, data: Vec::new(), meta: None, finalized: false };
        self.uds.set_and_swap(id, &mut rec);
        rec.finalized = true;
        rec.data = Vec::new();
        self.uds.set_and_swap(id, &mut rec);
        proof {
            assert(self.uds@ =~= self.uds@.update(id as int, self.uds@[id as int]));
        }
        if failed {
            Err(CallError)
        } else {
            Ok(())
        }
    }

    /// Overwrite the embedded value's bytes of the userdata at `stack_pos`.
    pub fn set_user_type(&mut self, stack_pos: StackPos, data: Vec<u8>)
        requires
            old(self).wf(),
            old(self).valid_pos(stack_pos as int),
            old(self).at(stack_pos as int) is UserData,
        ensures
            final(self).wf(),
            final(self).stack == old(self).stack,
            final(self).strings == old(self).strings,
            final(self).tables == old(self).tables,
            final(self).closures == old(self).closures,
            final(self).refs == old(self).refs,
            final(self).metas == old(self).metas,
            final(self).frames == old(self).frames,
            final(self).next_type == old(self).next_type,
            final(self).uds@.len() == old(self).uds@.len(),
            old(self).at(stack_pos as int) matches Value::UserData(id) ==> {
                &&& forall|u: int|
                    0 <= u < old(self).uds@.len() && u != id ==> final(self).uds@[u] == old(
                        self,
                    ).uds@[u]
                &&& final(self).uds@[id as int].data == data
                &&& final(self).uds@[id as int].ty == old(self).uds@[id as int].ty
                &&& final(self).uds@[id as int].rust_ty == old(self).uds@[id as int].rust_ty
                &&& final(self).uds@[id as int].meta == old(self).uds@[id as int].meta
                &&& final(self).uds@[id as int].finalized == old(self).uds@[id as int].finalized
            },
    {
        let abs = self.resolve_pos(stack_pos);
        let v = self.stack[abs];
        match v {
            Value::UserData(id) => {
                let mut rec = RawUd {
                    ty: 0,
                    rust_ty: 0,
                    data: Vec::new(),
                    meta: None,
                    finalized: false,
                };
                self.uds.set_and_swap(id, &mut rec);
                rec.data = data;
                self.uds.set_and_swap(id, &mut rec);
                proof {
                    assert(self.uds@ =~= old(self).uds@.update(id as int, self.uds@[id as int]));
                }
            },
            _ => {
                proof {
                    assert(false);
                }
            },
        }
    }
}

/// Context for stack work scoped to "`self` is an instance of one registered
/// type": the registered identifier, bound at registration or recovered from
/// a method closure's upvalue.
#[derive(Clone, Copy, PartialEq, Eq, Structural, Debug)]
pub struct SelfCtx {
    ty: Type,
}

impl SelfCtx {
    /// The type identifier this context is scoped to.
    pub closed spec fn ty_spec(&self) -> Type {
        self.ty
    }

    /// Bind a context to a registered type identifier.
    pub fn new(ty: Type) -> (r: SelfCtx)
        ensures
            r.ty_spec() == ty,
    {
        SelfCtx { ty }
    }

    /// Return the [`Type`] for `self`.
    pub fn self_ty(&self) -> (r: Type)
        ensures
            r == self.ty_spec(),
    {
        self.ty
    }

    /// Downcast the first argument of the running call to this context's
    /// type and hand back the record handle, or raise an argument error.
    pub fn check_self_ptr(&self, lua: &mut Lua, expected_err: &[u8]) -> (r: Result<usize, Exit>)
        requires
            old(lua).wf(),
            FIRST_FOREIGN_TYPE <= self.ty_spec().0,
            expected_err@.len() <= 0x7fff_ffff,
        ensures
            final(lua).wf(),
            final(lua).stack == old(lua).stack,
            final(lua).tables == old(lua).tables,
            final(lua).uds == old(lua).uds,
            final(lua).closures == old(lua).closures,
            final(lua).refs == old(lua).refs,
            final(lua).metas == old(lua).metas,
            final(lua).frames == old(lua).frames,
            r is Ok <==> old(lua).test_ud_spec(self.ty_spec(), 1) is Some,
            match r {
                Ok(id) => old(lua).test_ud_spec(self.ty_spec(), 1) == Some(id as int) && id < old(
                    lua,
                ).uds@.len(),
                Err(e) => final(lua).is_arg_error(e, 1, expected_err@),
            },
    {
        lua.check_ud_ptr(self.ty, 1, expected_err)
    }

    /// Downcast the first argument of the running call to this context's
    /// type and copy out the embedded value's bytes, or raise an argument
    /// error.
    pub fn check_self(&self, lua: &mut Lua, expected_err: &[u8]) -> (r: Result<Vec<u8>, Exit>)
        requires
            old(lua).wf(),
            FIRST_FOREIGN_TYPE <= self.ty_spec().0,
            expected_err@.len() <= 0x7fff_ffff,
        ensures
            final(lua).wf(),
            final(lua).stack == old(lua).stack,
            final(lua).tables == old(lua).tables,
            final(lua).uds == old(lua).uds,
            final(lua).closures == old(lua).closures,
            final(lua).refs == old(lua).refs,
            final(lua).metas == old(lua).metas,
            final(lua).frames == old(lua).frames,
            r is Ok <==> old(lua).test_ud_spec(self.ty_spec(), 1) is Some,
            match r {
                Ok(b) => old(lua).test_ud_spec(self.ty_spec(), 1) matches Some(id) && b@ == old(
                    lua,
                ).uds@[id].data@,
                Err(e) => final(lua).is_arg_error(e, 1, expected_err@),
            },
    {
        lua.check_ud(self.ty, 1, expected_err)
    }

    /// Push a method of this type onto the stack: a closure over the given
    /// native function label capturing the type identifier as its first
    /// upvalue, where [`SelfCtx::from_upvalue`] finds it again.
    pub fn push_method(&self, lua: &mut Lua, f: u64)
        requires
            old(lua).wf(),
            old(lua).stack@.len() + 1 < 0x7fff_ffff,
            self.ty_spec().0 >= 0,
        ensures
            final(lua).wf(),
            final(lua).stack@ == old(lua).stack@.push(
                Value::Function(old(lua).closures@.len() as usize),
            ),
            final(lua).closures@.len() == old(lua).closures@.len() + 1,
            forall|c: int|
                0 <= c < old(lua).closures@.len() ==> final(lua).closures@[c] == old(
                    lua,
                ).closures@[c],
            final(lua).closures@.last().func == f,
            final(lua).closures@.last().upvalues@ =~= seq![
                Value::Number(self.ty_spec().0 as u64),
            ],
            final(lua).strings == old(lua).strings,
            final(lua).tables == old(lua).tables,
            final(lua).uds == old(lua).uds,
            final(lua).refs == old(lua).refs,
            final(lua).metas == old(lua).metas,
            final(lua).frames == old(lua).frames,
            final(lua).next_type == old(lua).next_type,
    {
        lua.push_bits(self.ty.0 as u64);
        lua.push_c_closure(f, 1);
        proof {
            assert(lua.stack@ =~= old(lua).stack@.push(
                Value::Function(old(lua).closures@.len() as usize),
            ));
        }
    }

    /// Recover the context a method closure was pushed with: the running
    /// closure's first upvalue carries the type identifier.
    pub fn from_upvalue(lua: &mut Lua) -> (r: SelfCtx)
        requires
            old(lua).wf(),
            old(lua).stack@.len() < 0x7fff_ffff,
        ensures
            final(lua).wf(),
            old(lua).same_heaps(final(lua)),
            final(lua).stack@ == old(lua).stack@,
            match old(lua).upvalue_value(0) {
                Value::Number(b) => b <= 0x7fff_ffff ==> r.ty_spec() == Type(b as RawType),
                _ => true,
            },
    {
        lua.push_upvalue(0);
        let b = lua.get_bits(-1);
        lua.pop(1);
        proof {
            assert(lua.stack@ =~= old(lua).stack@);
        }
        let t: RawType = if b <= 0x7fff_ffff {
            b as RawType
        } else {
            0
        };
        SelfCtx { ty: Type(t) }
    }
}

} // verus!
