//! The interpreter session and its collector-safe stack operations.
//!
//! One [`Lua`] value stands for the binding's view of one running interpreter
//! session: the value stack together with the session-owned heaps that stack
//! values name (interned strings, tables, closures, userdata records, durable
//! references, and the named-metatable registry). The host hands the real
//! session to a native entry point as an opaque handle; the unsafe dispatch
//! layer that adapts that handle lives outside this crate, and every method
//! here states, as a contract, the documented behaviour of the host call it
//! stands for.
//!
//! Positions follow the host's convention: positive positions are 1-based
//! from the bottom of the current frame, negative positions count from the
//! top (-1 is the top). Operations that the host documents as "caller must
//! ensure the position is valid" carry that obligation as a `requires`
//! clause; operations the host may abort through its own error mechanism
//! return an [`Exit`] instead.

use vstd::prelude::*;
use vstd::pervasive::VecAdditionalExecFns;
use vstd::string::StringSliceAdditionalSpecFns;
use crate::types::{Bits, RawRef, RawType, StackPos, Special, StdType, Type, FIRST_FOREIGN_TYPE};
use crate::value::{bytes_eq, copy_bytes, Value};
use crate::exit::Exit;

verus! {

/// One table owned by the session: an association list of key/value pairs
/// (keys are never `Nil`, values are never `Nil`) and an optional metatable.
pub struct TableRec {
    pub entries: Vec<(Value, Value)>,
    pub meta: Option<usize>,
}

/// One full userdata record: the header the binding stamps on every
/// host-allocated block, followed by the embedded native value's bytes.
pub struct RawUd {
    /// The narrow built-in type tag stored in the header.
    pub ty: u8,
    /// The full registered type identifier stored in the header.
    pub rust_ty: RawType,
    /// The embedded native value's bytes.
    pub data: Vec<u8>,
    /// The attached metatable, as a table identifier.
    pub meta: Option<usize>,
    /// Whether two-phase destruction has already run for this record.
    pub finalized: bool,
}

/// One callable owned by the session: the caller-chosen label of a native
/// function together with the values captured as upvalues at creation time.
pub struct ClosureRec {
    pub func: u64,
    pub upvalues: Vec<Value>,
}

/// One activation of a callable: the stack slot where the callee's own
/// 1-based positions start, and the closure being run.
pub struct Frame {
    pub base: usize,
    pub closure: Option<usize>,
}

/// Table identifier of the global table, created with the session.
pub const GLOBALS_TABLE: usize = 0;

/// Table identifier of the environment table, created with the session.
pub const ENVIRONMENT_TABLE: usize = 1;

/// Table identifier of the registry table, created with the session.
pub const REGISTRY_TABLE: usize = 2;

/// One entry of the named-metatable registry: an interned name, the type
/// identifier handed out for it, and the metatable itself.
pub struct MetaEntry {
    pub name: usize,
    pub ty: RawType,
    pub table: usize,
}

/// The binding's view of one running interpreter session.
pub struct Lua {
    /// The value stack, bottom first.
    pub stack: Vec<Value>,
    /// The interned string heap: equal content never appears twice.
    pub strings: Vec<Vec<u8>>,
    /// The table heap; the first three tables are the globals, environment
    /// and registry pseudo-tables.
    pub tables: Vec<TableRec>,
    /// The userdata heap.
    pub uds: Vec<RawUd>,
    /// The closure heap.
    pub closures: Vec<ClosureRec>,
    /// The anchor slots behind integer references; a freed slot is `None`.
    pub refs: Vec<Option<Value>>,
    /// The named-metatable registry.
    pub metas: Vec<MetaEntry>,
    /// The activation frames of callables currently running.
    pub frames: Vec<Frame>,
    /// The next type identifier to hand out at registration.
    pub next_type: RawType,
}

impl Lua {
    /// Stack slot where the current frame's 1-based positions start.
    pub open spec fn cur_base(&self) -> int {
        if self.frames@.len() == 0 {
            0
        } else {
            self.frames@.last().base as int
        }
    }

    /// The closure whose activation is the current frame, if any.
    pub open spec fn cur_closure(&self) -> Option<usize> {
        if self.frames@.len() == 0 {
            None
        } else {
            self.frames@.last().closure
        }
    }

    /// Number of values on the stack of the current frame.
    pub open spec fn top_spec(&self) -> int {
        self.stack@.len() - self.cur_base()
    }

    /// The absolute stack slot a position denotes.
    pub open spec fn abs_of(&self, pos: int) -> int {
        if pos > 0 {
            self.cur_base() + pos - 1
        } else {
            self.stack@.len() + pos
        }
    }

    /// Whether a position denotes a slot of the current frame.
    pub open spec fn valid_pos(&self, pos: int) -> bool {
        (1 <= pos && pos <= self.top_spec()) || (-self.top_spec() <= pos && pos <= -1)
    }

    /// The value at a position of the current frame.
    pub open spec fn at(&self, pos: int) -> Value {
        self.stack@[self.abs_of(pos)]
    }

    /// Whether a value's identifier points into the session's heaps.
    pub open spec fn wf_value(&self, v: Value) -> bool {
        match v {
            Value::Str(id) => id < self.strings@.len(),
            Value::Table(id) => id < self.tables@.len(),
            Value::Function(id) => id < self.closures@.len(),
            Value::UserData(id) => id < self.uds@.len(),
            _ => true,
        }
    }

    /// Whether every value of a sequence points into the session's heaps.
    pub open spec fn wf_values(&self, s: Seq<Value>) -> bool {
        forall|i: int| 0 <= i < s.len() ==> self.wf_value(#[trigger] s[i])
    }

    /// Whether a table's entries are well-formed: keys and values point into
    /// the session's heaps, no key is `Nil`, no stored value is `Nil`, and
    /// the metatable, if any, exists.
    pub open spec fn wf_table(&self, t: TableRec) -> bool {
        &&& forall|i: int|
            0 <= i < t.entries@.len() ==> {
                &&& self.wf_value((#[trigger] t.entries@[i]).0)
                &&& self.wf_value(t.entries@[i].1)
                &&& t.entries@[i].0 != Value::Nil
                &&& t.entries@[i].1 != Value::Nil
            }
        &&& forall|i: int, j: int|
            0 <= i < j < t.entries@.len() ==> (#[trigger] t.entries@[i]).0 != (
            #[trigger] t.entries@[j]).0
        &&& match t.meta {
            Some(m) => m < self.tables@.len(),
            None => true,
        }
    }

    /// The narrow header tag stamped for a registered type identifier.
    pub open spec fn narrow_tag(ty: int) -> int {
        ty % 256
    }

    /// A userdata record's header is well-formed: the full identifier is
    /// blank or one the session handed out, the narrow tag is its
    /// truncation, and the attached metatable, if any, exists.
    pub open spec fn wf_ud(&self, u: RawUd) -> bool {
        &&& (u.rust_ty == 0 || (FIRST_FOREIGN_TYPE <= u.rust_ty && u.rust_ty < self.next_type))
        &&& u.ty == Self::narrow_tag(u.rust_ty as int)
        &&& match u.meta {
            Some(m) => m < self.tables@.len(),
            None => true,
        }
    }

    /// Whether some interned string has the given content.
    pub open spec fn has_str(&self, s: Seq<u8>) -> bool {
        exists|i: int| 0 <= i < self.strings@.len() && (#[trigger] self.strings@[i])@ == s
    }

    /// The string heap is interned (no duplicate content) and every string
    /// is short enough for the host's length type.
    pub open spec fn strings_ok(&self) -> bool {
        &&& forall|i: int, j: int|
            0 <= i < j < self.strings@.len() ==> (#[trigger] self.strings@[i])@ != (
            #[trigger] self.strings@[j])@
        &&& forall|i: int|
            0 <= i < self.strings@.len() ==> (#[trigger] self.strings@[i])@.len() <= 0x7fff_ffff
    }

    /// Frames sit within the stack, bases never decrease inward, and every
    /// frame's closure exists.
    pub open spec fn frames_ok(&self) -> bool {
        &&& forall|i: int|
            0 <= i < self.frames@.len() ==> (#[trigger] self.frames@[i]).base <= self.stack@.len()
        &&& forall|i: int, j: int|
            0 <= i <= j < self.frames@.len() ==> (#[trigger] self.frames@[i]).base <= (
            #[trigger] self.frames@[j]).base
        &&& forall|i: int|
            0 <= i < self.frames@.len() ==> match (#[trigger] self.frames@[i]).closure {
                Some(c) => c < self.closures@.len(),
                None => true,
            }
    }

    /// Every named-metatable entry names an interned string, an existing
    /// table, and a foreign type identifier below the next one to hand out.
    pub open spec fn metas_ok(&self) -> bool {
        &&& forall|i: int|
            0 <= i < self.metas@.len() ==> {
                &&& (#[trigger] self.metas@[i]).name < self.strings@.len()
                &&& self.metas@[i].table < self.tables@.len()
                &&& 3 <= self.metas@[i].table
                &&& FIRST_FOREIGN_TYPE <= self.metas@[i].ty
                &&& self.metas@[i].ty < self.next_type
            }
        &&& forall|i: int, j: int|
            0 <= i < j < self.metas@.len() ==> (#[trigger] self.metas@[i]).ty != (
            #[trigger] self.metas@[j]).ty && self.metas@[i].name != self.metas@[j].name
    }

    /// Well-formedness of the whole session, established by [`Lua::new`] and
    /// preserved by every operation.
    pub open spec fn wf(&self) -> bool {
        &&& self.stack@.len() <= 0x7fff_ffff
        &&& self.tables@.len() >= 3
        &&& self.strings_ok()
        &&& self.wf_values(self.stack@)
        &&& forall|i: int| 0 <= i < self.tables@.len() ==> self.wf_table(#[trigger] self.tables@[i])
        &&& forall|i: int| 0 <= i < self.uds@.len() ==> self.wf_ud(#[trigger] self.uds@[i])
        &&& forall|i: int|
            0 <= i < self.closures@.len() ==> self.wf_values(
                (#[trigger] self.closures@[i]).upvalues@,
            )
        &&& forall|i: int|
            0 <= i < self.refs@.len() ==> match #[trigger] self.refs@[i] {
                Some(v) => self.wf_value(v),
                None => true,
            }
        &&& self.metas_ok()
        &&& FIRST_FOREIGN_TYPE <= self.next_type
        &&& self.frames_ok()
        &&& self.cur_base() <= self.stack@.len()
    }

    /// Everything but the stack is unchanged between two session states.
    pub open spec fn same_heaps(&self, post: &Lua) -> bool {
        &&& self.strings == post.strings
        &&& self.tables == post.tables
        &&& self.uds == post.uds
        &&& self.closures == post.closures
        &&& self.refs == post.refs
        &&& self.metas == post.metas
        &&& self.frames == post.frames
        &&& self.next_type == post.next_type
    }

    /// Start a fresh session: empty stack, no interned strings, and the
    /// three pseudo-tables (globals, environment, registry) already created.
    pub fn new() -> (r: Lua)
        ensures
            r.wf(),
            r.stack@.len() == 0,
            r.frames@.len() == 0,
            r.strings@.len() == 0,
            r.uds@.len() == 0,
            r.closures@.len() == 0,
            r.refs@.len() == 0,
            r.metas@.len() == 0,
            r.next_type == FIRST_FOREIGN_TYPE,
            r.tables@.len() == 3,
            forall|i: int|
                0 <= i < 3 ==> (#[trigger] r.tables@[i]).entries@.len() == 0
                    && r.tables@[i].meta is None,
    {
        let mut tables: Vec<TableRec> = Vec::new();
        tables.push(TableRec { entries: Vec::new(), meta: None });
        tables.push(TableRec { entries: Vec::new(), meta: None });
        tables.push(TableRec { entries: Vec::new(), meta: None });
        Lua {
            stack: Vec::new(),
            strings: Vec::new(),
            tables,
            uds: Vec::new(),
            closures: Vec::new(),
            refs: Vec::new(),
            metas: Vec::new(),
            frames: Vec::new(),
            next_type: FIRST_FOREIGN_TYPE,
        }
    }

    /// Stack slot where the current frame starts, as executable code.
    pub fn base_exec(&self) -> (r: usize)
        requires
            self.wf(),
        ensures
            r == self.cur_base(),
    {
        if self.frames.len() == 0 {
            0
        } else {
            self.frames[self.frames.len() - 1].base
        }
    }

    /// Return the amount of values on the stack of the current frame.
    /// Never fails.
    pub fn top(&self) -> (r: u32)
        requires
            self.wf(),
        ensures
            r == self.top_spec(),
    {
        let base = self.base_exec();
        (self.stack.len() - base) as u32
    }

    /// Turn a position into the absolute stack slot it denotes.
    pub(crate) fn resolve_pos(&self, stack_pos: StackPos) -> (r: usize)
        requires
            self.wf(),
            self.valid_pos(stack_pos as int),
        ensures
            r == self.abs_of(stack_pos as int),
            r < self.stack@.len(),
            self.cur_base() <= r,
    {
        let base = self.base_exec();
        if stack_pos > 0 {
            base + (stack_pos - 1) as usize
        } else {
            self.stack.len() - ((-(stack_pos as i64)) as usize)
        }
    }

    /// Read the value at a position of the current frame.
    pub fn value_at(&self, stack_pos: StackPos) -> (r: Value)
        requires
            self.wf(),
            self.valid_pos(stack_pos as int),
        ensures
            r == self.at(stack_pos as int),
    {
        let i = self.resolve_pos(stack_pos);
        self.stack[i]
    }

    /// Pop `n` values from the stack of the current frame; a no-op if `n`
    /// is 0. The caller must ensure `n` does not exceed the frame's depth
    /// (the host's behaviour otherwise is its own, typically fatal).
    pub fn pop(&mut self, amt: u32)
        requires
            old(self).wf(),
            amt <= old(self).top_spec(),
        ensures
            final(self).wf(),
            old(self).same_heaps(final(self)),
            final(self).stack@ == old(self).stack@.subrange(
                0,
                old(self).stack@.len() - amt as int,
            ),
    {
        let new_len = self.stack.len() - amt as usize;
        self.stack.truncate(new_len);
    }

    /// Push one well-formed value; internal helper shared by all pushes.
    pub(crate) fn push_raw_value(&mut self, v: Value)
        requires
            old(self).wf(),
            old(self).stack@.len() < 0x7fff_ffff,
            old(self).wf_value(v),
        ensures
            final(self).wf(),
            old(self).same_heaps(final(self)),
            final(self).stack@ == old(self).stack@.push(v),
    {
        self.stack.push(v);
    }

    /// Push a `nil` onto the stack.
    pub fn push_nil(&mut self)
        requires
            old(self).wf(),
            old(self).stack@.len() < 0x7fff_ffff,
        ensures
            final(self).wf(),
            old(self).same_heaps(final(self)),
            final(self).stack@ == old(self).stack@.push(Value::Nil),
    {
        self.push_raw_value(Value::Nil);
    }

    /// Push the given boolean onto the stack.
    pub fn push_bool(&mut self, b: bool)
        requires
            old(self).wf(),
            old(self).stack@.len() < 0x7fff_ffff,
        ensures
            final(self).wf(),
            old(self).same_heaps(final(self)),
            final(self).stack@ == old(self).stack@.push(Value::Bool(b)),
    {
        self.push_raw_value(Value::Bool(b));
    }

    /// Push the number with the given raw bits onto the stack.
    pub fn push_number(&mut self, n: Bits)
        requires
            old(self).wf(),
            old(self).stack@.len() < 0x7fff_ffff,
        ensures
            final(self).wf(),
            old(self).same_heaps(final(self)),
            final(self).stack@ == old(self).stack@.push(Value::Number(n)),
    {
        self.push_raw_value(Value::Number(n));
    }

    /// Push the given integer onto the stack as a Lua number with the same
    /// bitwise value. Together with [`Lua::get_bits`] this stores large
    /// integers losslessly.
    pub fn push_bits(&mut self, i: Bits)
        requires
            old(self).wf(),
            old(self).stack@.len() < 0x7fff_ffff,
        ensures
            final(self).wf(),
            old(self).same_heaps(final(self)),
            final(self).stack@ == old(self).stack@.push(Value::Number(i)),
    {
        self.push_number(i);
    }

    /// Push the light userdata `ptr` onto the stack: a plain machine word
    /// the host stores without interpreting.
    pub fn push_light_userdata(&mut self, ptr: usize)
        requires
            old(self).wf(),
            old(self).stack@.len() < 0x7fff_ffff,
        ensures
            final(self).wf(),
            old(self).same_heaps(final(self)),
            final(self).stack@ == old(self).stack@.push(Value::LightUserData(ptr)),
    {
        self.push_raw_value(Value::LightUserData(ptr));
    }

    /// Look an interned byte string up by content.
    fn find_str(&self, bytes: &[u8]) -> (r: Option<usize>)
        ensures
            match r {
                Some(i) => i < self.strings@.len() && self.strings@[i as int]@ == bytes@,
                None => !self.has_str(bytes@),
            },
    {
        let mut i: usize = 0;
        while i < self.strings.len()
            invariant
                i <= self.strings@.len(),
                forall|j: int| 0 <= j < i ==> (#[trigger] self.strings@[j])@ != bytes@,
            decreases self.strings@.len() - i,
        {
            if bytes_eq(self.strings[i].as_slice(), bytes) {
                return Some(i);
            }
            i += 1;
        }
        None
    }

    /// Intern a byte string in the session's string heap and return its
    /// identifier; equal content always yields the same identifier.
    pub fn intern(&mut self, bytes: &[u8]) -> (id: usize)
        requires
            old(self).wf(),
            bytes@.len() <= 0x7fff_ffff,
        ensures
            final(self).wf(),
            id < final(self).strings@.len(),
            final(self).strings@[id as int]@ == bytes@,
            old(self).has_str(bytes@) ==> *final(self) == *old(self) && id
                < old(self).strings@.len(),
            !old(self).has_str(bytes@) ==> {
                &&& id == old(self).strings@.len()
                &&& final(self).strings@.len() == old(self).strings@.len() + 1
            },
            forall|i: int|
                0 <= i < old(self).strings@.len() ==> final(self).strings@[i] == old(
                    self,
                ).strings@[i],
            final(self).stack == old(self).stack,
            final(self).tables == old(self).tables,
            final(self).uds == old(self).uds,
            final(self).closures == old(self).closures,
            final(self).refs == old(self).refs,
            final(self).metas == old(self).metas,
            final(self).frames == old(self).frames,
            final(self).next_type == old(self).next_type,
    {
        if let Some(found) = self.find_str(bytes) {
            return found;
        }
        let owned = copy_bytes(bytes);
        self.strings.push(owned);
        let ghost post = *self;
        proof {
            assert forall|a: int, b: int| 0 <= a < b < post.strings@.len() implies (
            #[trigger] post.strings@[a])@ != (#[trigger] post.strings@[b])@ by {
                if b < post.strings@.len() - 1 {
                } else {
                    assert(post.strings@[a]@ != bytes@);
                }
            }
            assert(post.wf());
        }
        self.strings.len() - 1
    }

    /// Push the given byte string onto the stack as a Lua string, verbatim,
    /// embedded zero bytes included. An empty byte sequence is special-cased
    /// so that a length of zero is never misread by the host: the pushed
    /// string is exactly the empty string.
    pub fn push_string(&mut self, bytes: &[u8]) -> (id: usize)
        requires
            old(self).wf(),
            old(self).stack@.len() < 0x7fff_ffff,
            bytes@.len() <= 0x7fff_ffff,
        ensures
            final(self).wf(),
            final(self).stack@ == old(self).stack@.push(Value::Str(id)),
            id < final(self).strings@.len(),
            final(self).strings@[id as int]@ == bytes@,
            final(self).tables == old(self).tables,
            final(self).uds == old(self).uds,
            final(self).closures == old(self).closures,
            final(self).refs == old(self).refs,
            final(self).metas == old(self).metas,
            final(self).frames == old(self).frames,
            final(self).next_type == old(self).next_type,
            final(self).strings@.len() >= old(self).strings@.len(),
            forall|i: int|
                0 <= i < old(self).strings@.len() ==> final(self).strings@[i] == old(
                    self,
                ).strings@[i],
    {
        if bytes.len() != 0 {
            self.push_non_empty_bytes(bytes)
        } else {
            let id = self.intern(bytes);
            self.push_raw_value(Value::Str(id));
            id
        }
    }

    /// Push the given non-empty slice of bytes onto the stack as a Lua
    /// string. The host call behind this operation reads exactly the given
    /// length, so the slice must not be empty (an empty one would make the
    /// host compute the length itself by scanning for a terminator).
    pub fn push_non_empty_bytes(&mut self, non_empty_bytes: &[u8]) -> (id: usize)
        requires
            old(self).wf(),
            old(self).stack@.len() < 0x7fff_ffff,
            non_empty_bytes@.len() > 0,
            non_empty_bytes@.len() <= 0x7fff_ffff,
        ensures
            final(self).wf(),
            final(self).stack@ == old(self).stack@.push(Value::Str(id)),
            id < final(self).strings@.len(),
            final(self).strings@[id as int]@ == non_empty_bytes@,
            final(self).tables == old(self).tables,
            final(self).uds == old(self).uds,
            final(self).closures == old(self).closures,
            final(self).refs == old(self).refs,
            final(self).metas == old(self).metas,
            final(self).frames == old(self).frames,
            final(self).next_type == old(self).next_type,
            final(self).strings@.len() >= old(self).strings@.len(),
            forall|i: int|
                0 <= i < old(self).strings@.len() ==> final(self).strings@[i] == old(
                    self,
                ).strings@[i],
    {
        let id = self.intern(non_empty_bytes);
        self.push_raw_value(Value::Str(id));
        id
    }

    /// Push the given zero-terminated-style text onto the stack as a Lua
    /// string; the bytes must not contain an embedded zero, as the host
    /// call behind this operation would stop at it.
    pub fn push_c_string(&mut self, string: &[u8]) -> (id: usize)
        requires
            old(self).wf(),
            old(self).stack@.len() < 0x7fff_ffff,
            string@.len() <= 0x7fff_ffff,
            forall|i: int| 0 <= i < string@.len() ==> string@[i] != 0,
        ensures
            final(self).wf(),
            final(self).stack@ == old(self).stack@.push(Value::Str(id)),
            id < final(self).strings@.len(),
            final(self).strings@[id as int]@ == string@,
            final(self).tables == old(self).tables,
            final(self).uds == old(self).uds,
            final(self).closures == old(self).closures,
            final(self).refs == old(self).refs,
            final(self).metas == old(self).metas,
            final(self).frames == old(self).frames,
            final(self).next_type == old(self).next_type,
            final(self).strings@.len() >= old(self).strings@.len(),
            forall|i: int|
                0 <= i < old(self).strings@.len() ==> final(self).strings@[i] == old(
                    self,
                ).strings@[i],
    {
        self.push_string(string)
    }

    /// The pseudo-table a [`Special`] denotes.
    pub open spec fn special_table(what: Special) -> usize {
        match what {
            Special::Glob => GLOBALS_TABLE,
            Special::Env => ENVIRONMENT_TABLE,
            Special::Registry => REGISTRY_TABLE,
        }
    }

    /// Push a [`Special`] pseudo-table onto the stack.
    pub fn push_special(&mut self, what: Special)
        requires
            old(self).wf(),
            old(self).stack@.len() < 0x7fff_ffff,
        ensures
            final(self).wf(),
            old(self).same_heaps(final(self)),
            final(self).stack@ == old(self).stack@.push(Value::Table(Self::special_table(what))),
    {
        let id = match what {
            Special::Glob => GLOBALS_TABLE,
            Special::Env => ENVIRONMENT_TABLE,
            Special::Registry => REGISTRY_TABLE,
        };
        self.push_raw_value(Value::Table(id));
    }

    /// Push the globals table onto the stack.
    pub fn push_globals(&mut self)
        requires
            old(self).wf(),
            old(self).stack@.len() < 0x7fff_ffff,
        ensures
            final(self).wf(),
            old(self).same_heaps(final(self)),
            final(self).stack@ == old(self).stack@.push(Value::Table(GLOBALS_TABLE)),
    {
        self.push_special(Special::Glob);
    }

    /// Push the environment table onto the stack.
    pub fn push_environment(&mut self)
        requires
            old(self).wf(),
            old(self).stack@.len() < 0x7fff_ffff,
        ensures
            final(self).wf(),
            old(self).same_heaps(final(self)),
            final(self).stack@ == old(self).stack@.push(Value::Table(ENVIRONMENT_TABLE)),
    {
        self.push_special(Special::Env);
    }

    /// Push the registry table onto the stack.
    pub fn push_registry(&mut self)
        requires
            old(self).wf(),
            old(self).stack@.len() < 0x7fff_ffff,
        ensures
            final(self).wf(),
            old(self).same_heaps(final(self)),
            final(self).stack@ == old(self).stack@.push(Value::Table(REGISTRY_TABLE)),
    {
        self.push_special(Special::Registry);
    }

    /// The host's integer type tag of a value; a userdata record carries the
    /// full registered identifier it was stamped with, or the plain userdata
    /// tag when it was never stamped.
    pub open spec fn type_of_value(&self, v: Value) -> int {
        match v {
            Value::Nil => StdType::Nil.raw_spec(),
            Value::Bool(_) => StdType::Bool.raw_spec(),
            Value::LightUserData(_) => StdType::LightUserData.raw_spec(),
            Value::Number(_) => StdType::Number.raw_spec(),
            Value::Str(_) => StdType::String.raw_spec(),
            Value::Table(_) => StdType::Table.raw_spec(),
            Value::Function(_) => StdType::Function.raw_spec(),
            Value::UserData(id) => if self.uds@[id as int].rust_ty != 0 {
                self.uds@[id as int].rust_ty as int
            } else {
                StdType::UserData.raw_spec()
            },
        }
    }

    /// The type tag at a position; the "none" tag for a position outside the
    /// current frame.
    pub open spec fn type_at(&self, pos: int) -> int {
        if self.valid_pos(pos) {
            self.type_of_value(self.at(pos))
        } else {
            StdType::NoneType.raw_spec()
        }
    }

    /// Return the [`Type`] of the value at `stack_pos`, or the "none" type
    /// for a position outside the current frame.
    pub fn get_type(&self, stack_pos: StackPos) -> (r: Type)
        requires
            self.wf(),
        ensures
            r.0 == self.type_at(stack_pos as int),
    {
        let base = self.base_exec();
        let top = self.top();
        let valid = (1 <= stack_pos && stack_pos as i64 <= top as i64) || (-(top as i64)
            <= stack_pos as i64 && stack_pos <= -1);
        if !valid {
            return Type(-1);
        }
        let v = self.value_at(stack_pos);
        match v {
            Value::Nil => Type(0),
            Value::Bool(_) => Type(1),
            Value::LightUserData(_) => Type(2),
            Value::Number(_) => Type(3),
            Value::Str(_) => Type(4),
            Value::Table(_) => Type(5),
            Value::Function(_) => Type(6),
            Value::UserData(id) => {
                let rt = self.uds[id].rust_ty;
                if rt != 0 {
                    Type(rt)
                } else {
                    Type(7)
                }
            },
        }
    }

    /// Return `true` if the value at `stack_pos` is of the given [`Type`].
    pub fn is_type(&self, stack_pos: StackPos, ty: Type) -> (r: bool)
        requires
            self.wf(),
        ensures
            r <==> self.type_at(stack_pos as int) == ty.0,
    {
        let found = self.get_type(stack_pos);
        found.0 == ty.0
    }

    /// Return the name of the given pre-defined type, as a byte string.
    pub fn get_type_name(&self, ty: StdType) -> (r: Vec<u8>)
        ensures
            r@ == ty.name_spec(),
    {
        ty.get_type_name()
    }

    /// Whether a value counts as true: everything but `nil` and `false`.
    pub open spec fn truthy(v: Value) -> bool {
        v != Value::Nil && v != Value::Bool(false)
    }

    /// Return the value at `stack_pos` read as a boolean: `true` for every
    /// value but `nil` and `false`.
    pub fn get_bool(&self, stack_pos: StackPos) -> (r: bool)
        requires
            self.wf(),
            self.valid_pos(stack_pos as int),
        ensures
            r == Self::truthy(self.at(stack_pos as int)),
    {
        let v = self.value_at(stack_pos);
        match v {
            Value::Nil => false,
            Value::Bool(b) => b,
            _ => true,
        }
    }

    /// The raw bits of a value read as a number: its own bits for a number,
    /// all zero for anything else.
    pub open spec fn number_bits(v: Value) -> Bits {
        match v {
            Value::Number(b) => b,
            _ => 0,
        }
    }

    /// Return the raw bits of the number at `stack_pos`, or zero bits if the
    /// value isn't a number.
    pub fn get_number(&self, stack_pos: StackPos) -> (r: Bits)
        requires
            self.wf(),
            self.valid_pos(stack_pos as int),
        ensures
            r == Self::number_bits(self.at(stack_pos as int)),
    {
        let v = self.value_at(stack_pos);
        match v {
            Value::Number(b) => b,
            _ => 0,
        }
    }

    /// Return the [`Bits`] encoded as a Lua number at `stack_pos`, or `0` if
    /// the value isn't a Lua number.
    pub fn get_bits(&self, stack_pos: StackPos) -> (r: Bits)
        requires
            self.wf(),
            self.valid_pos(stack_pos as int),
        ensures
            r == Self::number_bits(self.at(stack_pos as int)),
    {
        self.get_number(stack_pos)
    }

    /// If the value at `stack_pos` is a string, return a copy of its bytes.
    /// In this model only string values read back as strings; the host's
    /// own number-to-string coercion is not modelled.
    pub fn get_string(&self, stack_pos: StackPos) -> (r: Option<Vec<u8>>)
        requires
            self.wf(),
            self.valid_pos(stack_pos as int),
        ensures
            r is Some <==> self.at(stack_pos as int) is Str,
            match r {
                Some(b) => self.at(stack_pos as int) matches Value::Str(id) && b@
                    == self.strings@[id as int]@,
                None => true,
            },
    {
        let v = self.value_at(stack_pos);
        match v {
            Value::Str(id) => Some(copy_bytes(self.strings[id].as_slice())),
            _ => None,
        }
    }

    /// Return the label of the native callable at `stack_pos`, or nothing if
    /// the value is not a function.
    pub fn get_c_function(&self, stack_pos: StackPos) -> (r: Option<u64>)
        requires
            self.wf(),
            self.valid_pos(stack_pos as int),
        ensures
            r is Some <==> self.at(stack_pos as int) is Function,
            match r {
                Some(f) => self.at(stack_pos as int) matches Value::Function(id) && f
                    == self.closures@[id as int].func,
                None => true,
            },
    {
        let v = self.value_at(stack_pos);
        match v {
            Value::Function(id) => Some(self.closures[id].func),
            _ => None,
        }
    }

    /// Return the handle of the userdata record at `stack_pos`, or nothing
    /// if the value isn't full userdata.
    pub fn get_userdata(&self, stack_pos: StackPos) -> (r: Option<usize>)
        requires
            self.wf(),
            self.valid_pos(stack_pos as int),
        ensures
            r is Some <==> self.at(stack_pos as int) is UserData,
            match r {
                Some(id) => self.at(stack_pos as int) == Value::UserData(id) && id
                    < self.uds@.len(),
                None => true,
            },
    {
        let v = self.value_at(stack_pos);
        match v {
            Value::UserData(id) => Some(id),
            _ => None,
        }
    }

    /// The exit a failed checked conversion raises.
    pub open spec fn bad_type_exit(pos: StackPos, expected: Type) -> Exit {
        Exit::BadType { pos: pos, expected: expected }
    }

    /// Whether `e` is a general error whose error object is a string of this
    /// session with the given content.
    pub open spec fn is_thrown_str(&self, e: Exit, content: Seq<u8>) -> bool {
        match e {
            Exit::Thrown(v) => match v {
                Value::Str(id) => id < self.strings@.len() && self.strings@[id as int]@ == content,
                _ => false,
            },
            _ => false,
        }
    }

    /// Whether `e` is an argument error for the given argument whose message
    /// is a string of this session with the given content.
    pub open spec fn is_arg_error(&self, e: Exit, arg: u32, content: Seq<u8>) -> bool {
        match e {
            Exit::ArgError { arg: a, msg } => a == arg && msg < self.strings@.len()
                && self.strings@[msg as int]@ == content,
            _ => false,
        }
    }

    /// If the value at `stack_pos` is a number, return its raw bits;
    /// otherwise raise a non-local exit through the host's error mechanism.
    pub fn check_number(&self, stack_pos: StackPos) -> (r: Result<Bits, Exit>)
        requires
            self.wf(),
            self.valid_pos(stack_pos as int),
        ensures
            r is Ok <==> self.at(stack_pos as int) is Number,
            r is Ok ==> r->Ok_0 == Self::number_bits(self.at(stack_pos as int)),
            r is Err ==> r->Err_0 == Self::bad_type_exit(
                stack_pos,
                Type(StdType::Number.raw_spec() as RawType),
            ),
    {
        let v = self.value_at(stack_pos);
        match v {
            Value::Number(b) => Ok(b),
            _ => Err(Exit::BadType { pos: stack_pos, expected: Type::from_std(StdType::Number) }),
        }
    }

    /// If the value at `stack_pos` is a number, decode it as [`Bits`];
    /// otherwise raise a non-local exit.
    pub fn check_bits(&self, stack_pos: StackPos) -> (r: Result<Bits, Exit>)
        requires
            self.wf(),
            self.valid_pos(stack_pos as int),
        ensures
            r is Ok <==> self.at(stack_pos as int) is Number,
            r is Ok ==> r->Ok_0 == Self::number_bits(self.at(stack_pos as int)),
            r is Err ==> r->Err_0 == Self::bad_type_exit(
                stack_pos,
                Type(StdType::Number.raw_spec() as RawType),
            ),
    {
        self.check_number(stack_pos)
    }

    /// If the value at `stack_pos` is a string, return a copy of its bytes;
    /// otherwise raise a non-local exit.
    pub fn check_string(&self, stack_pos: StackPos) -> (r: Result<Vec<u8>, Exit>)
        requires
            self.wf(),
            self.valid_pos(stack_pos as int),
        ensures
            r is Ok <==> self.at(stack_pos as int) is Str,
            match r {
                Ok(b) => self.at(stack_pos as int) matches Value::Str(id) && b@
                    == self.strings@[id as int]@,
                Err(e) => e == Self::bad_type_exit(
                    stack_pos,
                    Type(StdType::String.raw_spec() as RawType),
                ),
            },
    {
        let v = self.value_at(stack_pos);
        match v {
            Value::Str(id) => Ok(copy_bytes(self.strings[id].as_slice())),
            _ => Err(Exit::BadType { pos: stack_pos, expected: Type::from_std(StdType::String) }),
        }
    }

    /// Raise a non-local exit unless the value at `stack_pos` is of the
    /// given [`Type`].
    pub fn check_type(&self, stack_pos: StackPos, ty: Type) -> (r: Result<(), Exit>)
        requires
            self.wf(),
        ensures
            r is Ok <==> self.type_at(stack_pos as int) == ty.0,
            r is Err ==> r->Err_0 == Self::bad_type_exit(stack_pos, ty),
    {
        if self.is_type(stack_pos, ty) {
            Ok(())
        } else {
            Err(Exit::BadType { pos: stack_pos, expected: ty })
        }
    }

    /// Throw an error carrying the given message and cease execution of the
    /// function: the returned [`Exit`] must be handed back unchanged, as the
    /// host's error mechanism does not return to the caller.
    pub fn throw_error(&mut self, message: &[u8]) -> (e: Exit)
        requires
            old(self).wf(),
            message@.len() <= 0x7fff_ffff,
        ensures
            final(self).wf(),
            final(self).stack == old(self).stack,
            final(self).tables == old(self).tables,
            final(self).uds == old(self).uds,
            final(self).closures == old(self).closures,
            final(self).refs == old(self).refs,
            final(self).metas == old(self).metas,
            final(self).frames == old(self).frames,
            final(self).next_type == old(self).next_type,
            forall|i: int|
                0 <= i < old(self).strings@.len() ==> final(self).strings@[i] == old(
                    self,
                ).strings@[i],
            final(self).strings@.len() >= old(self).strings@.len(),
            final(self).is_thrown_str(e, message@),
    {
        let id = self.intern(message);
        Exit::Thrown(Value::Str(id))
    }

    /// Whether `e` is a general error whose error object is a string of this
    /// session.
    pub open spec fn is_thrown(&self, e: Exit) -> bool {
        match e {
            Exit::Thrown(v) => self.wf_value(v) && v is Str,
            _ => false,
        }
    }

    /// Throw an error with a fixed host message and cease execution of the
    /// function; the returned [`Exit`] must be handed back unchanged.
    pub(crate) fn throw_fixed(&mut self, message: &str) -> (e: Exit)
        requires
            old(self).wf(),
        ensures
            final(self).wf(),
            final(self).stack == old(self).stack,
            final(self).tables == old(self).tables,
            final(self).uds == old(self).uds,
            final(self).closures == old(self).closures,
            final(self).refs == old(self).refs,
            final(self).metas == old(self).metas,
            final(self).frames == old(self).frames,
            final(self).next_type == old(self).next_type,
            forall|i: int|
                0 <= i < old(self).strings@.len() ==> final(self).strings@[i] == old(
                    self,
                ).strings@[i],
            final(self).strings@.len() >= old(self).strings@.len(),
            final(self).is_thrown(e),
            message.spec_bytes().len() <= 0x7fff_ffff ==> final(self).is_thrown_str(
                e,
                message.spec_bytes(),
            ),
    {
        let bytes = message.as_bytes();
        if bytes.len() <= 0x7fff_ffff {
            self.throw_error(bytes)
        } else {
            let none: Vec<u8> = Vec::new();
            self.throw_error(none.as_slice())
        }
    }

    /// Throw an error related to argument `arg_num` and cease execution of
    /// the function; the returned [`Exit`] must be handed back unchanged.
    pub fn arg_error(&mut self, arg_num: u32, message: &[u8]) -> (e: Exit)
        requires
            old(self).wf(),
            message@.len() <= 0x7fff_ffff,
        ensures
            final(self).wf(),
            final(self).stack == old(self).stack,
            final(self).tables == old(self).tables,
            final(self).uds == old(self).uds,
            final(self).closures == old(self).closures,
            final(self).refs == old(self).refs,
            final(self).metas == old(self).metas,
            final(self).frames == old(self).frames,
            final(self).next_type == old(self).next_type,
            forall|i: int|
                0 <= i < old(self).strings@.len() ==> final(self).strings@[i] == old(
                    self,
                ).strings@[i],
            final(self).strings@.len() >= old(self).strings@.len(),
            final(self).is_arg_error(e, arg_num, message@),
    {
        let id = self.intern(message);
        Exit::ArgError { arg: arg_num, msg: id }
    }

    /// Return `true` if the values at `a` and `b` are equal. Strings are
    /// interned, so string equality is content equality; numbers compare by
    /// their raw bits in this model; the host's equality metamethods are not
    /// modelled, so this agrees with [`Lua::raw_equal`].
    pub fn equal(&self, a: StackPos, b: StackPos) -> (r: bool)
        requires
            self.wf(),
            self.valid_pos(a as int),
            self.valid_pos(b as int),
        ensures
            r <==> self.at(a as int) == self.at(b as int),
    {
        let va = self.value_at(a);
        let vb = self.value_at(b);
        va == vb
    }

    /// Return `true` if the values at `a` and `b` are equal, without
    /// invoking metamethods.
    pub fn raw_equal(&self, a: StackPos, b: StackPos) -> (r: bool)
        requires
            self.wf(),
            self.valid_pos(a as int),
            self.valid_pos(b as int),
        ensures
            r <==> self.at(a as int) == self.at(b as int),
    {
        self.equal(a, b)
    }

    /// Move the value at the top of the stack into `stack_pos`, shifting
    /// upwards any values above `stack_pos`.
    pub fn insert(&mut self, stack_pos: StackPos)
        requires
            old(self).wf(),
            old(self).valid_pos(stack_pos as int),
        ensures
            final(self).wf(),
            old(self).same_heaps(final(self)),
            final(self).stack@ == old(self).stack@.drop_last().insert(
                old(self).abs_of(stack_pos as int),
                old(self).stack@.last(),
            ),
    {
        let abs = self.resolve_pos(stack_pos);
        let v = match self.stack.pop() {
            Some(v) => v,
            None => {
                proof {
                    assert(false);
                }
                Value::Nil
            },
        };
        self.stack.insert(abs, v);
        proof {
            assert(old(self).stack@.subrange(0, old(self).stack@.len() - 1) =~= old(
                self,
            ).stack@.drop_last());
            let post = self.stack@;
            let pre = old(self).stack@;
            assert forall|i: int| 0 <= i < post.len() implies self.wf_value(#[trigger] post[i]) by {
                let abs_i = old(self).abs_of(stack_pos as int);
                if i < abs_i {
                    assert(post[i] == pre[i]);
                } else if i == abs_i {
                    assert(post[i] == pre[pre.len() - 1]);
                } else {
                    assert(post[i] == pre[i - 1]);
                }
            }
        }
    }

    /// Remove the value at `stack_pos`, shifting values above it downwards.
    pub fn remove(&mut self, stack_pos: StackPos)
        requires
            old(self).wf(),
            old(self).valid_pos(stack_pos as int),
        ensures
            final(self).wf(),
            old(self).same_heaps(final(self)),
            final(self).stack@ == old(self).stack@.remove(old(self).abs_of(stack_pos as int)),
    {
        let abs = self.resolve_pos(stack_pos);
        self.stack.remove(abs);
        proof {
            let post = self.stack@;
            let pre = old(self).stack@;
            let abs_i = old(self).abs_of(stack_pos as int);
            assert forall|i: int| 0 <= i < post.len() implies self.wf_value(#[trigger] post[i]) by {
                if i < abs_i {
                    assert(post[i] == pre[i]);
                } else {
                    assert(post[i] == pre[i + 1]);
                }
            }
        }
    }

    /// A run of `nil` values.
    pub open spec fn nils(k: nat) -> Seq<Value> {
        Seq::new(k, |i: int| Value::Nil)
    }

    /// The stack after setting the current frame to exactly `n` values:
    /// truncated if it was deeper, padded with `nil` if it was shallower.
    pub open spec fn set_top_spec(s: Seq<Value>, base: int, n: int) -> Seq<Value> {
        if n <= s.len() - base {
            s.take(base + n)
        } else {
            s + Self::nils((n - (s.len() - base)) as nat)
        }
    }

    /// Set the number of values in the current frame, filling any excess
    /// slots with `nil`. This operation is not part of the host's own call
    /// table; it is built from [`Lua::pop`], [`Lua::top`] and
    /// [`Lua::push_nil`].
    pub fn set_top(&mut self, top: u32)
        requires
            old(self).wf(),
            old(self).cur_base() + top <= 0x7fff_ffff,
        ensures
            final(self).wf(),
            old(self).same_heaps(final(self)),
            final(self).stack@ == Self::set_top_spec(
                old(self).stack@,
                old(self).cur_base(),
                top as int,
            ),
    {
        let current_top = self.top();
        if top < current_top {
            self.pop(current_top - top);
            proof {
                assert(self.stack@ =~= old(self).stack@.take(
                    old(self).cur_base() + top as int,
                ));
            }
        } else if top > current_top {
            let mut k: u32 = current_top;
            while k < top
                invariant
                    self.wf(),
                    old(self).same_heaps(self),
                    current_top <= k <= top,
                    old(self).cur_base() + top <= 0x7fff_ffff,
                    current_top == old(self).top_spec(),
                    self.stack@ == old(self).stack@ + Self::nils((k - current_top) as nat),
                decreases top - k,
            {
                proof {
                    assert(self.stack@.len() == old(self).stack@.len() + (k - current_top));
                    assert(self.stack@.len() < 0x7fff_ffff);
                }
                self.push_nil();
                proof {
                    assert(old(self).stack@ + Self::nils((k - current_top) as nat) + seq![
                        Value::Nil,
                    ] =~= old(self).stack@ + Self::nils((k + 1 - current_top) as nat));
                    assert(self.stack@ =~= old(self).stack@ + Self::nils(
                        (k + 1 - current_top) as nat,
                    ));
                }
                k += 1;
            }
        } else {
            proof {
                assert(self.stack@ =~= old(self).stack@.take(
                    old(self).cur_base() + top as int,
                ));
            }
        }
    }

    /// Drain the stack of the current frame so that it has at most `top`
    /// values. This operation is not part of the host's own call table; it
    /// is built from [`Lua::pop`] and [`Lua::top`].
    pub fn drain_to(&mut self, top: u32)
        requires
            old(self).wf(),
        ensures
            final(self).wf(),
            old(self).same_heaps(final(self)),
            final(self).stack@ == if top < old(self).top_spec() {
                old(self).stack@.take(old(self).cur_base() + top as int)
            } else {
                old(self).stack@
            },
    {
        let current_top = self.top();
        if top < current_top {
            self.pop(current_top - top);
        }
    }
}

} // verus!

verus! {

/// Wrapper type for integer-based references to Lua objects.
#[derive(Clone, Copy, PartialEq, Eq, Structural, Debug)]
pub struct LuaRef(pub RawRef);

impl Lua {
    /// The value a reference currently anchors: `nil` for a freed or
    /// never-created reference.
    pub open spec fn ref_value(&self, id: int) -> Value {
        if 0 <= id < self.refs@.len() {
            match self.refs@[id] {
                Some(v) => v,
                None => Value::Nil,
            }
        } else {
            Value::Nil
        }
    }

    /// Pop a value from the stack and return a [`LuaRef`] that anchors it
    /// durably; the reference leaks its anchor slot until it is explicitly
    /// freed with [`Lua::free_ref`].
    pub fn create_ref(&mut self) -> (r: LuaRef)
        requires
            old(self).wf(),
            old(self).top_spec() >= 1,
            old(self).refs@.len() < 0x7fff_ffff,
        ensures
            final(self).wf(),
            final(self).stack@ == old(self).stack@.drop_last(),
            final(self).refs@ == old(self).refs@.push(Some(old(self).stack@.last())),
            r.0 == old(self).refs@.len(),
            final(self).strings == old(self).strings,
            final(self).tables == old(self).tables,
            final(self).uds == old(self).uds,
            final(self).closures == old(self).closures,
            final(self).metas == old(self).metas,
            final(self).frames == old(self).frames,
            final(self).next_type == old(self).next_type,
    {
        let idx = self.refs.len();
        let v = match self.stack.pop() {
            Some(v) => v,
            None => {
                proof {
                    assert(false);
                }
                Value::Nil
            },
        };
        self.refs.push(Some(v));
        proof {
            assert(self.stack@ =~= old(self).stack@.drop_last());
        }
        LuaRef(idx as RawRef)
    }

    /// Free the reference `lua_ref` if it is valid; pushing a freed
    /// reference later yields `nil`.
    pub fn free_ref(&mut self, lua_ref: LuaRef)
        requires
            old(self).wf(),
        ensures
            final(self).wf(),
            final(self).stack == old(self).stack,
            0 <= lua_ref.0 < old(self).refs@.len() ==> final(self).refs@ == old(
                self,
            ).refs@.update(lua_ref.0 as int, None::<Value>),
            !(0 <= lua_ref.0 < old(self).refs@.len()) ==> final(self).refs@ == old(self).refs@,
            final(self).strings == old(self).strings,
            final(self).tables == old(self).tables,
            final(self).uds == old(self).uds,
            final(self).closures == old(self).closures,
            final(self).metas == old(self).metas,
            final(self).frames == old(self).frames,
            final(self).next_type == old(self).next_type,
    {
        if 0 <= lua_ref.0 && (lua_ref.0 as usize) < self.refs.len() {
            self.refs.set(lua_ref.0 as usize, None);
        }
    }

    /// Push the value anchored by `lua_ref` onto the stack, or `nil` if the
    /// reference is invalid or was freed.
    pub fn push_ref(&mut self, lua_ref: LuaRef)
        requires
            old(self).wf(),
            old(self).stack@.len() < 0x7fff_ffff,
        ensures
            final(self).wf(),
            old(self).same_heaps(final(self)),
            final(self).stack@ == old(self).stack@.push(old(self).ref_value(lua_ref.0 as int)),
    {
        let v = if 0 <= lua_ref.0 && (lua_ref.0 as usize) < self.refs.len() {
            match self.refs[lua_ref.0 as usize] {
                Some(v) => v,
                None => Value::Nil,
            }
        } else {
            Value::Nil
        };
        self.push_raw_value(v);
    }

    /// The host's length of a value: the byte length for a string, zero for
    /// everything else (this model keeps no array part in tables, so a
    /// table's border is not modelled).
    pub open spec fn obj_len_spec(&self, v: Value) -> int {
        match v {
            Value::Str(id) => self.strings@[id as int]@.len() as int,
            _ => 0,
        }
    }

    /// Return the length of the object at `stack_pos`.
    pub fn obj_len(&self, stack_pos: StackPos) -> (r: i32)
        requires
            self.wf(),
            self.valid_pos(stack_pos as int),
        ensures
            r == self.obj_len_spec(self.at(stack_pos as int)),
    {
        let v = self.value_at(stack_pos);
        match v {
            Value::Str(id) => self.strings[id].len() as i32,
            _ => 0,
        }
    }
}

} // verus!
