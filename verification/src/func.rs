//! The native-callable bridge: closures, activation frames and calls.
//!
//! The host invokes native functions through raw function pointers; this
//! crate carries a native function as an opaque label (`u64`) and leaves the
//! actual jump to an implementation of [`NativeDispatch`], the seam between
//! the verified session and the caller's own function bodies. The dispatch
//! contract states exactly the frame discipline the host demands of a native
//! callable: it may work the stack of its own frame and the session's heaps,
//! but never what lies below its frame, and it reports either a count of
//! results left on top or a non-local exit.

use vstd::prelude::*;
use vstd::string::StringSliceAdditionalSpecFns;
use crate::types::{StackPos, Type};
use crate::value::{append_bytes, Value};
use crate::exit::{append_dec, append_dec_signed, CallError, Exit};
use crate::state::{ClosureRec, Frame, Lua, ENVIRONMENT_TABLE, GLOBALS_TABLE, REGISTRY_TABLE};

verus! {

/// Pseudo stack index of the registry table.
pub const REGISTRY_INDEX: StackPos = -10000;

/// Pseudo stack index of the environment table.
pub const ENVIRONMENT_INDEX: StackPos = -10001;

/// Pseudo stack index of the globals table.
pub const GLOBALS_INDEX: StackPos = -10002;

/// Return the stack index of the `n`-th upvalue of the running closure,
/// starting from `0`.
pub fn upvalue_index(n: u8) -> (r: StackPos)
    ensures
        r == -10003 - n as int,
{
    (GLOBALS_INDEX - 1) - (n as i32)
}

/// Type for the number of values returned from a native callable; never
/// negative.
#[derive(Clone, Copy, PartialEq, Eq, Structural, Debug)]
pub struct Rets {
    count: i32,
}

impl Rets {
    /// The count this value carries.
    pub closed spec fn spec_count(self) -> int {
        self.count as int
    }

    /// A [`Rets`] that indicates no return values.
    pub fn zero() -> (r: Self)
        ensures
            r.spec_count() == 0,
    {
        Rets { count: 0 }
    }

    /// Create a new [`Rets`] from the specified number of returned values;
    /// a number too large for the host's count type collapses to none.
    pub fn new(n: usize) -> (r: Self)
        ensures
            r.spec_count() == if n <= 0x7fff_ffff {
                n as int
            } else {
                0
            },
            0 <= r.spec_count() <= 0x7fff_ffff,
    {
        let count: i32 = if n <= 0x7fff_ffff {
            n as i32
        } else {
            0
        };
        Rets { count }
    }

    /// Read the count back.
    pub fn count(self) -> (r: i32)
        ensures
            r == self.spec_count(),
    {
        self.count
    }
}

/// What a native callable did: left `k` values on top of its frame for the
/// host to collect, or raised a non-local exit.
#[derive(Clone, Copy, PartialEq, Eq, Structural, Debug)]
pub enum CallOutcome {
    Return(u32),
    Raise(Exit),
}

impl Lua {
    /// The session's heaps only ever grow, and what an identifier names is
    /// never re-used: every value that was well-formed before some operation
    /// is still well-formed after it, and interned strings keep their
    /// content.
    pub open spec fn extends(pre: &Lua, post: &Lua) -> bool {
        &&& pre.strings@.len() <= post.strings@.len()
        &&& forall|i: int| 0 <= i < pre.strings@.len() ==> post.strings@[i] == pre.strings@[i]
        &&& pre.tables@.len() <= post.tables@.len()
        &&& pre.uds@.len() <= post.uds@.len()
        &&& pre.closures@.len() <= post.closures@.len()
        &&& pre.refs@.len() <= post.refs@.len()
        &&& pre.metas@.len() <= post.metas@.len()
        &&& pre.next_type <= post.next_type
    }

    /// Whether an exit's payload points into this session's heaps.
    pub open spec fn exit_ok(&self, e: Exit) -> bool {
        match e {
            Exit::Thrown(v) => self.wf_value(v),
            Exit::ArgError { arg, msg } => msg < self.strings@.len(),
            Exit::BadType { pos, expected } => true,
        }
    }

    /// The value a closure's upvalue reads as: `nil` outside any frame, for
    /// a frame without a closure, and for an upvalue index past the captured
    /// values.
    pub open spec fn upvalue_value(&self, n: int) -> Value {
        match self.cur_closure() {
            None => Value::Nil,
            Some(c) => {
                if 0 <= n < self.closures@[c as int].upvalues@.len() {
                    self.closures@[c as int].upvalues@[n]
                } else {
                    Value::Nil
                }
            },
        }
    }

    /// Read an upvalue of the running closure.
    fn upvalue_get(&self, n: usize) -> (r: Value)
        requires
            self.wf(),
        ensures
            r == self.upvalue_value(n as int),
            self.wf_value(r),
    {
        if self.frames.len() == 0 {
            return Value::Nil;
        }
        match self.frames[self.frames.len() - 1].closure {
            None => Value::Nil,
            Some(c) => {
                let ups = &self.closures[c];
                if n < ups.upvalues.len() {
                    ups.upvalues[n]
                } else {
                    Value::Nil
                }
            },
        }
    }

    /// Whether a position is acceptable to [`Lua::push_value`]: a position
    /// of the current frame, one of the three pseudo-table indices, or an
    /// upvalue index.
    pub open spec fn push_value_pos_ok(&self, pos: int) -> bool {
        pos <= -10000 || self.valid_pos(pos)
    }

    /// The value [`Lua::push_value`] duplicates for a position.
    pub open spec fn push_value_result(&self, pos: int) -> Value {
        if pos == REGISTRY_INDEX {
            Value::Table(REGISTRY_TABLE)
        } else if pos == ENVIRONMENT_INDEX {
            Value::Table(ENVIRONMENT_TABLE)
        } else if pos == GLOBALS_INDEX {
            Value::Table(GLOBALS_TABLE)
        } else if pos <= -10003 {
            self.upvalue_value(-10003 - pos)
        } else {
            self.at(pos)
        }
    }

    /// Push a copy of the value at `stack_pos` to the stack; the position
    /// may also be a pseudo-table index or an upvalue index.
    pub fn push_value(&mut self, stack_pos: StackPos)
        requires
            old(self).wf(),
            old(self).stack@.len() < 0x7fff_ffff,
            old(self).push_value_pos_ok(stack_pos as int),
        ensures
            final(self).wf(),
            old(self).same_heaps(final(self)),
            final(self).stack@ == old(self).stack@.push(
                old(self).push_value_result(stack_pos as int),
            ),
    {
        if stack_pos <= -10000 {
            let v = if stack_pos == REGISTRY_INDEX {
                Value::Table(REGISTRY_TABLE)
            } else if stack_pos == ENVIRONMENT_INDEX {
                Value::Table(ENVIRONMENT_TABLE)
            } else if stack_pos == GLOBALS_INDEX {
                Value::Table(GLOBALS_TABLE)
            } else {
                self.upvalue_get((-10003 - stack_pos) as usize)
            };
            self.push_raw_value(v);
        } else {
            let v = self.value_at(stack_pos);
            self.push_raw_value(v);
        }
    }

    /// Push the `n`-th upvalue of the running closure onto the stack, or
    /// `nil` if the upvalue index is invalid. This operation is not part of
    /// the host's own call table; it is [`Lua::push_value`] on
    /// [`upvalue_index`].
    pub fn push_upvalue(&mut self, n: u8)
        requires
            old(self).wf(),
            old(self).stack@.len() < 0x7fff_ffff,
        ensures
            final(self).wf(),
            old(self).same_heaps(final(self)),
            final(self).stack@ == old(self).stack@.push(old(self).upvalue_value(n as int)),
    {
        let idx = upvalue_index(n);
        self.push_value(idx);
    }

    /// Push the native function with the given label onto the stack as a
    /// callable without upvalues.
    pub fn push_c_function(&mut self, func: u64)
        requires
            old(self).wf(),
            old(self).stack@.len() < 0x7fff_ffff,
        ensures
            final(self).wf(),
            final(self).stack@ == old(self).stack@.push(
                Value::Function(old(self).closures@.len() as usize),
            ),
            final(self).closures@.len() == old(self).closures@.len() + 1,
            forall|c: int|
                0 <= c < old(self).closures@.len() ==> final(self).closures@[c] == old(
                    self,
                ).closures@[c],
            final(self).closures@.last().func == func,
            final(self).closures@.last().upvalues@.len() == 0,
            final(self).strings == old(self).strings,
            final(self).tables == old(self).tables,
            final(self).uds == old(self).uds,
            final(self).refs == old(self).refs,
            final(self).metas == old(self).metas,
            final(self).frames == old(self).frames,
            final(self).next_type == old(self).next_type,
    {
        let cid = self.closures.len();
        self.closures.push(ClosureRec { func, upvalues: Vec::new() });
        self.stack.push(Value::Function(cid));
    }

    /// Push the native function with the given label onto the stack as a
    /// callable capturing the top `n_upvalues` values, which are popped.
    pub fn push_c_closure(&mut self, func: u64, n_upvalues: u8)
        requires
            old(self).wf(),
            old(self).stack@.len() < 0x7fff_ffff,
            n_upvalues as int <= old(self).top_spec(),
        ensures
            final(self).wf(),
            final(self).stack@ == old(self).stack@.subrange(
                0,
                old(self).stack@.len() - n_upvalues as int,
            ).push(Value::Function(old(self).closures@.len() as usize)),
            final(self).closures@.len() == old(self).closures@.len() + 1,
            forall|c: int|
                0 <= c < old(self).closures@.len() ==> final(self).closures@[c] == old(
                    self,
                ).closures@[c],
            final(self).closures@.last().func == func,
            final(self).closures@.last().upvalues@ == old(self).stack@.subrange(
                old(self).stack@.len() - n_upvalues as int,
                old(self).stack@.len() as int,
            ),
            final(self).strings == old(self).strings,
            final(self).tables == old(self).tables,
            final(self).uds == old(self).uds,
            final(self).refs == old(self).refs,
            final(self).metas == old(self).metas,
            final(self).frames == old(self).frames,
            final(self).next_type == old(self).next_type,
    {
        let cid = self.closures.len();
        let at = self.stack.len() - n_upvalues as usize;
        let ups = self.stack.split_off(at);
        self.closures.push(ClosureRec { func, upvalues: ups });
        self.stack.push(Value::Function(cid));
    }

    /// Turn a non-local exit into the error object a protected call leaves
    /// on the stack: the thrown value itself, or the host-worded message
    /// string rendered from the argument-error or type-check payload.
    pub fn exit_object(&mut self, e: Exit) -> (v: Value)
        requires
            old(self).wf(),
            old(self).exit_ok(e),
        ensures
            final(self).wf(),
            final(self).stack == old(self).stack,
            final(self).tables == old(self).tables,
            final(self).uds == old(self).uds,
            final(self).closures == old(self).closures,
            final(self).refs == old(self).refs,
            final(self).metas == old(self).metas,
            final(self).frames == old(self).frames,
            final(self).next_type == old(self).next_type,
            forall|i: int|
                0 <= i < old(self).strings@.len() ==> final(self).strings@[i] == old(
                    self,
                ).strings@[i],
            final(self).strings@.len() >= old(self).strings@.len(),
            final(self).wf_value(v),
            v is Str,
            match e {
                Exit::Thrown(tv) => (tv is Str ==> v == tv),
                Exit::ArgError { arg, msg } => (v matches Value::Str(id) && id < final(self).strings@.len() && {
                    let text = crate::exit::arg_error_text(
                        arg as nat,
                        old(self).strings@[msg as int]@,
                    );
                    text.len() <= 0x7fff_ffff ==> final(self).strings@[id as int]@ == text
                }),
                Exit::BadType { pos, expected } => (v matches Value::Str(id) && id < final(self).strings@.len() && {
                    let text = crate::exit::bad_type_text(pos as int, expected.0 as int);
                    text.len() <= 0x7fff_ffff ==> final(self).strings@[id as int]@ == text
                }),
            },
    {
        match e {
            Exit::Thrown(v) => {
                proof {
                    assert(old(self).wf_value(v));
                }
                match v {
                    Value::Str(_) => v,
                    _ => {
                        // A thrown error object of another shape is kept as
                        // a string rendering in this model; native callables
                        // of this binding only ever throw strings.
                        let id = self.intern_bounded("error object".as_bytes());
                        Value::Str(id)
                    },
                }
            },
            Exit::ArgError { arg, msg } => {
                let mut out: Vec<u8> = Vec::new();
                append_bytes(&mut out, "bad argument #".as_bytes());
                append_dec(&mut out, arg);
                append_bytes(&mut out, " (".as_bytes());
                let m = copy_from(&self.strings, msg);
                append_bytes(&mut out, m.as_slice());
                append_bytes(&mut out, ")".as_bytes());
                proof {
                    assert(out@ =~= crate::exit::arg_error_text(
                        arg as nat,
                        old(self).strings@[msg as int]@,
                    ));
                }
                let id = self.intern_bounded(out.as_slice());
                Value::Str(id)
            },
            Exit::BadType { pos, expected } => {
                let mut out: Vec<u8> = Vec::new();
                append_bytes(&mut out, "bad type at position ".as_bytes());
                append_dec_signed(&mut out, pos);
                append_bytes(&mut out, ", expected type ".as_bytes());
                append_dec_signed(&mut out, expected.0);
                proof {
                    assert(out@ =~= crate::exit::bad_type_text(pos as int, expected.0 as int));
                }
                let id = self.intern_bounded(out.as_slice());
                Value::Str(id)
            },
        }
    }

    /// Intern a message whose length is checked at run time; an over-long
    /// message collapses to the empty string.
    fn intern_bounded(&mut self, bytes: &[u8]) -> (id: usize)
        requires
            old(self).wf(),
        ensures
            final(self).wf(),
            id < final(self).strings@.len(),
            final(self).stack == old(self).stack,
            final(self).tables == old(self).tables,
            final(self).uds == old(self).uds,
            final(self).closures == old(self).closures,
            final(self).refs == old(self).refs,
            final(self).metas == old(self).metas,
            final(self).frames == old(self).frames,
            final(self).next_type == old(self).next_type,
            forall|i: int|
                0 <= i < old(self).strings@.len() ==> final(self).strings@[i] == old(
                    self,
                ).strings@[i],
            final(self).strings@.len() >= old(self).strings@.len(),
            bytes@.len() <= 0x7fff_ffff ==> final(self).strings@[id as int]@ == bytes@,
    {
        if bytes.len() <= 0x7fff_ffff {
            self.intern(bytes)
        } else {
            let none: Vec<u8> = Vec::new();
            self.intern(none.as_slice())
        }
    }
}

/// Copy an interned string out of the heap.
fn copy_from(strings: &Vec<Vec<u8>>, id: usize) -> (r: Vec<u8>)
    requires
        id < strings@.len(),
    ensures
        r@ == strings@[id as int]@,
{
    crate::value::copy_bytes(strings[id].as_slice())
}

/// The seam between the verified session and the native function bodies the
/// binding's user wrote: given a session and the label of a native function,
/// run that function.
///
/// The contract is the frame discipline the host demands of a native
/// callable: it runs inside the frame the call set up, never touches the
/// stack below its frame and never unwinds frames it did not push, the
/// session stays well-formed and its heaps only grow, and the outcome is
/// either a count of result values it left on top of its frame or the
/// non-local exit it raised.
pub trait NativeDispatch {
    /// Run the native function with the given label.
    fn invoke(&mut self, lua: &mut Lua, func: u64) -> (r: CallOutcome)
        requires
            old(lua).wf(),
        ensures
            final(lua).wf(),
            final(lua).frames == old(lua).frames,
            final(lua).stack@.len() >= old(lua).cur_base(),
            final(lua).stack@.subrange(0, old(lua).cur_base()) == old(lua).stack@.subrange(
                0,
                old(lua).cur_base(),
            ),
            Lua::extends(old(lua), final(lua)),
            r matches CallOutcome::Return(k) ==> k as int <= final(lua).top_spec(),
            r matches CallOutcome::Raise(e) ==> final(lua).exit_ok(e),
    ;
}

/// The dispatcher of a session into which no native functions were placed:
/// every invocation raises, as the host raises for a callable it cannot
/// find. Also the witness that the dispatch contract is implementable.
pub struct NoNatives;

impl NativeDispatch for NoNatives {
    fn invoke(&mut self, lua: &mut Lua, func: u64) -> (r: CallOutcome) {
        let e = lua.throw_fixed("unknown native function");
        CallOutcome::Raise(e)
    }
}

impl Lua {
    /// A sequence of results adjusted to exactly `n` values: truncated when
    /// more were produced, padded with `nil` when fewer.
    pub open spec fn adjust_results(results: Seq<Value>, n: int) -> Seq<Value> {
        if n <= results.len() {
            results.take(n)
        } else {
            results + Self::nils((n - results.len()) as nat)
        }
    }

    /// The message a call of a non-function value fails with.
    pub open spec fn not_callable_text() -> Seq<u8> {
        "attempt to call a non-function value".spec_bytes()
    }

    /// Lay a callee's results into place: extend the stack with exactly
    /// `n_results` values — the results in order, truncated when the callee
    /// produced more, padded with `nil` when it produced fewer. This is the
    /// completion step of a call: what a call keeps of a callee's outcome
    /// is fixed here, one call below [`Lua::pcall`] and [`Lua::call`].
    pub fn push_results(&mut self, results: Vec<Value>, n_results: u32)
        requires
            old(self).wf(),
            old(self).wf_values(results@),
            old(self).stack@.len() + n_results as int <= 0x7fff_ffff,
        ensures
            final(self).wf(),
            old(self).same_heaps(final(self)),
            final(self).stack@ == old(self).stack@ + Lua::adjust_results(
                results@,
                n_results as int,
            ),
    {
        let ghost res_seq = results@;
        let base_len = self.stack.len();
        let mut i: u32 = 0;
        while i < n_results
            invariant
                i <= n_results,
                base_len == old(self).stack@.len(),
                base_len + n_results as int <= 0x7fff_ffff,
                results@ == res_seq,
                self.strings == old(self).strings,
                self.tables == old(self).tables,
                self.uds == old(self).uds,
                self.closures == old(self).closures,
                self.refs == old(self).refs,
                self.metas == old(self).metas,
                self.frames == old(self).frames,
                self.next_type == old(self).next_type,
                self.stack@.len() == base_len + i as int,
                forall|j: int| 0 <= j < base_len ==> self.stack@[j] == old(self).stack@[j],
                forall|j: int|
                    base_len <= j < self.stack@.len() ==> self.stack@[j] == (if j - base_len
                        < res_seq.len() {
                        res_seq[j - base_len]
                    } else {
                        Value::Nil
                    }),
            decreases n_results - i,
        {
            if (i as usize) < results.len() {
                let v = results[i as usize];
                self.stack.push(v);
            } else {
                self.stack.push(Value::Nil);
            }
            i += 1;
        }
        proof {
            assert(self.stack@ =~= old(self).stack@ + Lua::adjust_results(
                res_seq,
                n_results as int,
            ));
            assert forall|j: int| 0 <= j < self.stack@.len() implies self.wf_value(
                #[trigger] self.stack@[j],
            ) by {
                if j < base_len {
                    assert(old(self).wf_value(old(self).stack@[j]));
                } else if j - base_len < res_seq.len() {
                    assert(old(self).wf_value(res_seq[j - base_len]));
                }
            }
            assert forall|f: int| 0 <= f < self.frames@.len() implies (
            #[trigger] self.frames@[f]).base <= self.stack@.len() by {
                assert(old(self).frames@[f].base <= old(self).stack@.len());
            }
        }
    }

    /// Call the object just below `n_args` arguments on the stack, running
    /// native callables through `dispatch`, protected: a non-local exit
    /// raised during the call is converted into a call-failure result, with
    /// exactly one error object left in place of the callable and its
    /// arguments. On success the callable and arguments are replaced by
    /// exactly `n_results` result values, padded with `nil` if the callable
    /// produced fewer. Calling a value that is not a function fails the same
    /// way. A message-handler position is not modelled: `error_func` must
    /// be 0.
    pub fn pcall<D: NativeDispatch>(
        &mut self,
        dispatch: &mut D,
        n_args: u32,
        n_results: u32,
        error_func: StackPos,
    ) -> (r: Result<(), CallError>)
        requires
            old(self).wf(),
            n_args as int + 1 <= old(self).top_spec(),
            error_func == 0,
            old(self).stack@.len() - n_args as int - 1 + n_results as int <= 0x7fff_ffff,
        ensures
            final(self).wf(),
            Lua::extends(old(self), final(self)),
            final(self).frames@ == old(self).frames@,
            final(self).stack@.subrange(0, old(self).stack@.len() - n_args as int - 1) == old(
                self,
            ).stack@.subrange(0, old(self).stack@.len() - n_args as int - 1),
            r is Ok ==> final(self).stack@.len() == old(self).stack@.len() - n_args as int - 1
                + n_results as int,
            r is Err ==> final(self).stack@.len() == old(self).stack@.len() - n_args as int - 1 + 1,
            r is Err ==> final(self).stack@.last() is Str,
            !(old(self).at(-(n_args as int) - 1) is Function) ==> r is Err,
            !(old(self).at(-(n_args as int) - 1) is Function) ==> (final(self).stack@.last()
                matches Value::Str(sid) && sid < final(self).strings@.len() && final(self).strings@[sid as int]@ == Self::not_callable_text()),
    {
        let len = self.stack.len();
        let callee_slot = len - (n_args as usize) - 1;
        proof {
            assert(old(self).abs_of(-(n_args as int) - 1) == callee_slot);
        }
        let callee = self.stack[callee_slot];
        match callee {
            Value::Function(cid) => {
                let base = len - (n_args as usize);
                self.frames.push(Frame { base, closure: Some(cid) });
                proof {
                    let mid = *self;
                    assert forall|i: int, j: int|
                        0 <= i <= j < mid.frames@.len() implies (#[trigger] mid.frames@[i]).base
                        <= (#[trigger] mid.frames@[j]).base by {
                        if j < mid.frames@.len() - 1 {
                            assert(mid.frames@[i] == old(self).frames@[i]);
                            assert(mid.frames@[j] == old(self).frames@[j]);
                        } else if i < j {
                            assert(mid.frames@[i] == old(self).frames@[i]);
                            assert(old(self).frames@[i].base <= old(self).cur_base());
                        }
                    }
                    assert(mid.wf());
                }
                let func_label = self.closures[cid].func;
                let ghost mid = *self;
                let out = dispatch.invoke(self, func_label);
                let ghost after = *self;
                self.frames.pop();
                proof {
                    assert(self.frames@ =~= old(self).frames@);
                    assert(after.cur_base() == base);
                    assert(self.stack@.subrange(0, base as int) == mid.stack@.subrange(
                        0,
                        base as int,
                    ));
                    assert forall|i: int| 0 <= i < callee_slot implies self.stack@[i] == old(
                        self,
                    ).stack@[i] by {
                        assert(self.stack@.subrange(0, base as int)[i] == mid.stack@.subrange(
                            0,
                            base as int,
                        )[i]);
                    }
                }
                match out {
                    CallOutcome::Return(k) => {
                        let cur_len = self.stack.len();
                        let results = self.stack.split_off(cur_len - (k as usize));
                        let ghost res_seq = results@;
                        proof {
                            assert(res_seq =~= after.stack@.subrange(
                                cur_len - k as int,
                                cur_len as int,
                            ));
                            assert forall|j: int| 0 <= j < res_seq.len() implies after.wf_value(
                                #[trigger] res_seq[j],
                            ) by {
                                assert(res_seq[j] == after.stack@[cur_len - k as int + j]);
                            }
                        }
                        self.stack.truncate(callee_slot);
                        proof {
                            assert(self.stack@ =~= after.stack@.subrange(0, callee_slot as int));
                            lemma_pcall_raise_wf(old(self), &mid, &after, self, callee_slot as int);
                            assert forall|j: int| 0 <= j < res_seq.len() implies self.wf_value(
                                #[trigger] res_seq[j],
                            ) by {
                                assert(after.wf_value(res_seq[j]));
                            }
                        }
                        self.push_results(results, n_results);
                        proof {
                            assert(Lua::adjust_results(res_seq, n_results as int).len()
                                == n_results as int);
                            assert(self.stack@.subrange(0, callee_slot as int) =~= old(
                                self,
                            ).stack@.subrange(0, callee_slot as int));
                        }
                        Ok(())
                    },
                    CallOutcome::Raise(e) => {
                        self.stack.truncate(callee_slot);
                        proof {
                            assert(self.stack@ =~= after.stack@.subrange(0, callee_slot as int));
                            lemma_pcall_raise_wf(old(self), &mid, &after, self, callee_slot as int);
                        }
                        let obj = self.exit_object(e);
                        self.push_raw_value(obj);
                        proof {
                            assert(self.stack@.subrange(0, callee_slot as int) =~= old(
                                self,
                            ).stack@.subrange(0, callee_slot as int));
                        }
                        Err(CallError)
                    },
                }
            },
            _ => {
                self.stack.truncate(callee_slot);
                proof {
                    assert(self.stack@ =~= old(self).stack@.subrange(0, callee_slot as int));
                    lemma_pcall_raise_wf(old(self), old(self), old(self), self, callee_slot as int);
                    assert(self.stack@.subrange(0, callee_slot as int) =~= old(
                        self,
                    ).stack@.subrange(0, callee_slot as int));
                }
                let e = self.throw_fixed("attempt to call a non-function value");
                proof {
                    reveal_strlit("attempt to call a non-function value");
                    assert(vstd::utf8::is_ascii_chars("attempt to call a non-function value"@));
                    vstd::utf8::is_ascii_chars_encode_utf8(
                        "attempt to call a non-function value"@,
                    );
                    assert(Self::not_callable_text().len() <= 0x7fff_ffff);
                }
                let obj = match e {
                    Exit::Thrown(v) => v,
                    _ => {
                        proof {
                            assert(false);
                        }
                        Value::Nil
                    },
                };
                self.push_raw_value(obj);
                Err(CallError)
            },
        }
    }

    /// Call the object just below `n_args` arguments on the stack, running
    /// native callables through `dispatch`, unprotected: a non-local exit
    /// raised during the call is handed back unchanged and must be
    /// propagated by the caller, with the callable, its arguments and the
    /// callee's frame already unwound from the stack. On success behaves as
    /// [`Lua::pcall`].
    pub fn call<D: NativeDispatch>(
        &mut self,
        dispatch: &mut D,
        n_args: u32,
        n_results: u32,
    ) -> (r: Result<(), Exit>)
        requires
            old(self).wf(),
            n_args as int + 1 <= old(self).top_spec(),
            old(self).stack@.len() - n_args as int - 1 + n_results as int <= 0x7fff_ffff,
        ensures
            final(self).wf(),
            Lua::extends(old(self), final(self)),
            final(self).frames@ == old(self).frames@,
            final(self).stack@.subrange(0, old(self).stack@.len() - n_args as int - 1) == old(
                self,
            ).stack@.subrange(0, old(self).stack@.len() - n_args as int - 1),
            r is Ok ==> final(self).stack@.len() == old(self).stack@.len() - n_args as int - 1
                + n_results as int,
            r is Err ==> final(self).stack@.len() == old(self).stack@.len() - n_args as int - 1,
            r is Err ==> final(self).exit_ok(r->Err_0),
            !(old(self).at(-(n_args as int) - 1) is Function) ==> r is Err,
            !(old(self).at(-(n_args as int) - 1) is Function) ==> final(self).is_thrown_str(
                r->Err_0,
                Self::not_callable_text(),
            ),
    {
        let len = self.stack.len();
        let callee_slot = len - (n_args as usize) - 1;
        proof {
            assert(old(self).abs_of(-(n_args as int) - 1) == callee_slot);
        }
        let callee = self.stack[callee_slot];
        match callee {
            Value::Function(cid) => {
                let base = len - (n_args as usize);
                self.frames.push(Frame { base, closure: Some(cid) });
                proof {
                    let mid = *self;
                    assert forall|i: int, j: int|
                        0 <= i <= j < mid.frames@.len() implies (#[trigger] mid.frames@[i]).base
                        <= (#[trigger] mid.frames@[j]).base by {
                        if j < mid.frames@.len() - 1 {
                            assert(mid.frames@[i] == old(self).frames@[i]);
                            assert(mid.frames@[j] == old(self).frames@[j]);
                        } else if i < j {
                            assert(mid.frames@[i] == old(self).frames@[i]);
                            assert(old(self).frames@[i].base <= old(self).cur_base());
                        }
                    }
                    assert(mid.wf());
                }
                let func_label = self.closures[cid].func;
                let ghost mid = *self;
                let out = dispatch.invoke(self, func_label);
                let ghost after = *self;
                self.frames.pop();
                proof {
                    assert(self.frames@ =~= old(self).frames@);
                    assert(after.cur_base() == base);
                    assert forall|i: int| 0 <= i < callee_slot implies self.stack@[i] == old(
                        self,
                    ).stack@[i] by {
                        assert(self.stack@.subrange(0, base as int)[i] == mid.stack@.subrange(
                            0,
                            base as int,
                        )[i]);
                    }
                }
                match out {
                    CallOutcome::Return(k) => {
                        let cur_len = self.stack.len();
                        let results = self.stack.split_off(cur_len - (k as usize));
                        let ghost res_seq = results@;
                        proof {
                            assert(res_seq =~= after.stack@.subrange(
                                cur_len - k as int,
                                cur_len as int,
                            ));
                            assert forall|j: int| 0 <= j < res_seq.len() implies after.wf_value(
                                #[trigger] res_seq[j],
                            ) by {
                                assert(res_seq[j] == after.stack@[cur_len - k as int + j]);
                            }
                        }
                        self.stack.truncate(callee_slot);
                        proof {
                            assert(self.stack@ =~= after.stack@.subrange(0, callee_slot as int));
                            lemma_pcall_raise_wf(old(self), &mid, &after, self, callee_slot as int);
                            assert forall|j: int| 0 <= j < res_seq.len() implies self.wf_value(
                                #[trigger] res_seq[j],
                            ) by {
                                assert(after.wf_value(res_seq[j]));
                            }
                        }
                        self.push_results(results, n_results);
                        proof {
                            assert(Lua::adjust_results(res_seq, n_results as int).len()
                                == n_results as int);
                            assert(self.stack@.subrange(0, callee_slot as int) =~= old(
                                self,
                            ).stack@.subrange(0, callee_slot as int));
                        }
                        Ok(())
                    },
                    CallOutcome::Raise(e) => {
                        self.stack.truncate(callee_slot);
                        proof {
                            assert(self.stack@ =~= after.stack@.subrange(0, callee_slot as int));
                            lemma_pcall_raise_wf(old(self), &mid, &after, self, callee_slot as int);
                            assert(self.stack@.subrange(0, callee_slot as int) =~= old(
                                self,
                            ).stack@.subrange(0, callee_slot as int));
                        }
                        Err(e)
                    },
                }
            },
            _ => {
                self.stack.truncate(callee_slot);
                proof {
                    assert(self.stack@ =~= old(self).stack@.subrange(0, callee_slot as int));
                    lemma_pcall_raise_wf(old(self), old(self), old(self), self, callee_slot as int);
                    assert(self.stack@.subrange(0, callee_slot as int) =~= old(
                        self,
                    ).stack@.subrange(0, callee_slot as int));
                }
                let e = self.throw_fixed("attempt to call a non-function value");
                proof {
                    reveal_strlit("attempt to call a non-function value");
                    assert(vstd::utf8::is_ascii_chars("attempt to call a non-function value"@));
                    vstd::utf8::is_ascii_chars_encode_utf8(
                        "attempt to call a non-function value"@,
                    );
                    assert(Self::not_callable_text().len() <= 0x7fff_ffff);
                }
                Err(e)
            },
        }
    }
}

/// Well-formedness of the state a protected call reaches after unwinding a
/// failed callee.
proof fn lemma_pcall_raise_wf(pre: &Lua, mid: &Lua, after: &Lua, fin: &Lua, callee_slot: int)
    requires
        pre.wf(),
        after.wf(),
        Lua::extends(mid, after),
        mid.strings == pre.strings,
        mid.tables == pre.tables,
        mid.uds == pre.uds,
        mid.closures == pre.closures,
        mid.refs == pre.refs,
        mid.metas == pre.metas,
        mid.next_type == pre.next_type,
        fin.strings@ == after.strings@,
        fin.tables@ == after.tables@,
        fin.uds@ == after.uds@,
        fin.closures@ == after.closures@,
        fin.refs@ == after.refs@,
        fin.metas@ == after.metas@,
        fin.next_type == after.next_type,
        fin.frames@ == pre.frames@,
        0 <= callee_slot <= pre.stack@.len(),
        callee_slot >= pre.cur_base(),
        fin.stack@.len() == callee_slot,
        forall|j: int| 0 <= j < callee_slot ==> fin.stack@[j] == pre.stack@[j],
    ensures
        fin.wf(),
        Lua::extends(pre, fin),
{
    assert forall|i: int| 0 <= i < fin.stack@.len() implies fin.wf_value(
        #[trigger] fin.stack@[i],
    ) by {
        assert(pre.wf_value(pre.stack@[i]));
    }
    assert forall|i: int| 0 <= i < fin.frames@.len() implies (#[trigger] fin.frames@[i]).base
        <= fin.stack@.len() by {
        assert(pre.frames@[i].base <= pre.cur_base());
    }
}

} // verus!
