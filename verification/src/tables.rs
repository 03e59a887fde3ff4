//! Tables, metatables and the named-metatable registry.
//!
//! A table is carried as an association list with pairwise-distinct, non-nil
//! keys; [`tbl_get`] is the mathematical content of a table: the value stored
//! under a key, `nil` when the key is absent. Storing `nil` under a key
//! removes it, as in the host's interpreter. The metamethod dispatch the host
//! performs on `get_table`/`set_table`/`get_field`/`set_field` is not
//! modelled: in this model those operations behave as the raw accesses and
//! raise only when the indexed value is not a table.

use vstd::prelude::*;
use vstd::pervasive::VecAdditionalExecFns;
use vstd::string::StringSliceAdditionalSpecFns;
use crate::types::{RawType, StackPos, Type};
use crate::value::Value;
use crate::exit::Exit;
use crate::state::{Lua, MetaEntry, RawUd, TableRec};

verus! {

/// The value a table's entry list stores under `k`: the value of the first
/// pair whose key is `k`, or `nil` when no pair has that key.
pub open spec fn tbl_get(s: Seq<(Value, Value)>, k: Value) -> Value
    decreases s.len(),
{
    if s.len() == 0 {
        Value::Nil
    } else if s[0].0 == k {
        s[0].1
    } else {
        tbl_get(s.drop_first(), k)
    }
}

/// The message indexing a non-table value fails with.
pub open spec fn not_table_text() -> Seq<u8> {
    "attempt to index a non-table value".spec_bytes()
}

/// The message storing under a `nil` key fails with.
pub open spec fn nil_key_text() -> Seq<u8> {
    "table index is nil".spec_bytes()
}

/// The message attaching a non-table, non-nil metatable fails with.
pub open spec fn bad_metatable_text() -> Seq<u8> {
    "metatable must be a table or nil".spec_bytes()
}

/// The message attaching a metatable to a value that can carry none fails
/// with.
pub open spec fn no_metatable_text() -> Seq<u8> {
    "value cannot carry a metatable".spec_bytes()
}

/// The message enumerating from a key that is not in the table fails with.
pub open spec fn bad_next_key_text() -> Seq<u8> {
    "invalid key to table enumeration".spec_bytes()
}

/// A key that appears in no pair reads back as `nil`.
pub proof fn lemma_tbl_get_absent(s: Seq<(Value, Value)>, k: Value)
    requires
        forall|j: int| 0 <= j < s.len() ==> (#[trigger] s[j]).0 != k,
    ensures
        tbl_get(s, k) == Value::Nil,
    decreases s.len(),
{
    if s.len() > 0 {
        lemma_tbl_get_absent(s.drop_first(), k);
    }
}

/// Appending a pair whose key was absent stores exactly that pair and leaves
/// every other key unchanged.
pub proof fn lemma_tbl_get_push(s: Seq<(Value, Value)>, p: (Value, Value), k2: Value)
    requires
        forall|j: int| 0 <= j < s.len() ==> (#[trigger] s[j]).0 != p.0,
    ensures
        tbl_get(s.push(p), k2) == if k2 == p.0 {
            p.1
        } else {
            tbl_get(s, k2)
        },
    decreases s.len(),
{
    if s.len() == 0 {
        assert(s.push(p)[0] == p);
        if k2 != p.0 {
            assert(s.push(p).drop_first() =~= Seq::<(Value, Value)>::empty());
            assert(tbl_get(s.push(p), k2) == tbl_get(s.push(p).drop_first(), k2));
            assert(tbl_get(s.push(p).drop_first(), k2) == Value::Nil);
            assert(tbl_get(s, k2) == Value::Nil);
        } else {
            assert(tbl_get(s.push(p), k2) == p.1);
        }
    } else {
        assert(s.push(p)[0] == s[0]);
        assert(s[0].0 != p.0);
        if s[0].0 == k2 {
            assert(tbl_get(s.push(p), k2) == s[0].1);
            assert(tbl_get(s, k2) == s[0].1);
        } else {
            assert forall|j: int| 0 <= j < s.drop_first().len() implies (
            #[trigger] s.drop_first()[j]).0 != p.0 by {
                assert(s.drop_first()[j] == s[j + 1]);
            }
            assert(s.push(p).drop_first() =~= s.drop_first().push(p));
            lemma_tbl_get_push(s.drop_first(), p, k2);
        }
    }
}

/// Replacing the value of the unique pair holding a key changes what that
/// key reads back as and nothing else.
pub proof fn lemma_tbl_get_update(s: Seq<(Value, Value)>, i: int, v2: Value, k2: Value)
    requires
        0 <= i < s.len(),
        forall|j: int| 0 <= j < s.len() && j != i ==> (#[trigger] s[j]).0 != s[i].0,
    ensures
        tbl_get(s.update(i, (s[i].0, v2)), k2) == if k2 == s[i].0 {
            v2
        } else {
            tbl_get(s, k2)
        },
    decreases i,
{
    let s2 = s.update(i, (s[i].0, v2));
    if i == 0 {
        assert(s2[0] == (s[0].0, v2));
        if k2 != s[0].0 {
            assert(s2.drop_first() =~= s.drop_first());
        }
    } else {
        assert(s2[0] == s[0]);
        if s[0].0 == k2 {
            assert(k2 != s[i].0);
        } else {
            assert(s2.drop_first() =~= s.drop_first().update(i - 1, (s[i].0, v2)));
            assert(s.drop_first()[i - 1] == s[i]);
            lemma_tbl_get_update(s.drop_first(), i - 1, v2, k2);
        }
    }
}

/// Removing the unique pair holding a key makes that key read back as `nil`
/// and leaves every other key unchanged.
pub proof fn lemma_tbl_get_remove(s: Seq<(Value, Value)>, i: int, k2: Value)
    requires
        0 <= i < s.len(),
        forall|j: int| 0 <= j < s.len() && j != i ==> (#[trigger] s[j]).0 != s[i].0,
    ensures
        tbl_get(s.remove(i), k2) == if k2 == s[i].0 {
            Value::Nil
        } else {
            tbl_get(s, k2)
        },
    decreases i,
{
    let s2 = s.remove(i);
    if i == 0 {
        assert(s2 =~= s.drop_first());
        if k2 == s[0].0 {
            assert forall|j: int| 0 <= j < s2.len() implies (#[trigger] s2[j]).0 != k2 by {
                assert(s2[j] == s[j + 1]);
            }
            lemma_tbl_get_absent(s2, k2);
        }
    } else {
        assert(s2[0] == s[0]);
        if s[0].0 == k2 {
            assert(k2 != s[i].0);
        } else {
            assert(s2.drop_first() =~= s.drop_first().remove(i - 1));
            assert(s.drop_first()[i - 1] == s[i]);
            lemma_tbl_get_remove(s.drop_first(), i - 1, k2);
        }
    }
}

/// Find the pair holding a key.
fn find_key(entries: &Vec<(Value, Value)>, k: Value) -> (r: Option<usize>)
    ensures
        match r {
            Some(i) => i < entries@.len() && entries@[i as int].0 == k,
            None => forall|j: int| 0 <= j < entries@.len() ==> (#[trigger] entries@[j]).0 != k,
        },
{
    let mut i: usize = 0;
    while i < entries.len()
        invariant
            i <= entries@.len(),
            forall|j: int| 0 <= j < i ==> (#[trigger] entries@[j]).0 != k,
        decreases entries@.len() - i,
    {
        if entries[i].0 == k {
            return Some(i);
        }
        i += 1;
    }
    None
}

impl Lua {
    /// What the table with the given identifier stores under a key.
    pub open spec fn table_get_spec(&self, tid: int, k: Value) -> Value {
        tbl_get(self.tables@[tid].entries@, k)
    }

    /// Read what a table stores under a key.
    pub fn table_get(&self, tid: usize, k: Value) -> (r: Value)
        requires
            self.wf(),
            tid < self.tables@.len(),
        ensures
            r == self.table_get_spec(tid as int, k),
            self.wf_value(r),
    {
        let entries = &self.tables[tid].entries;
        match find_key(entries, k) {
            Some(i) => {
                let r = entries[i].1;
                proof {
                    lemma_tbl_get_found(entries@, i as int, k);
                }
                r
            },
            None => {
                proof {
                    lemma_tbl_get_absent(entries@, k);
                }
                Value::Nil
            },
        }
    }

    /// Store a value in a table under a key; storing `nil` removes the key.
    pub fn table_set(&mut self, tid: usize, k: Value, v: Value)
        requires
            old(self).wf(),
            tid < old(self).tables@.len(),
            old(self).wf_value(k),
            old(self).wf_value(v),
            k != Value::Nil,
        ensures
            final(self).wf(),
            final(self).stack == old(self).stack,
            final(self).strings == old(self).strings,
            final(self).uds == old(self).uds,
            final(self).closures == old(self).closures,
            final(self).refs == old(self).refs,
            final(self).metas == old(self).metas,
            final(self).frames == old(self).frames,
            final(self).next_type == old(self).next_type,
            final(self).tables@.len() == old(self).tables@.len(),
            forall|t: int|
                0 <= t < old(self).tables@.len() && t != tid ==> final(self).tables@[t] == old(
                    self,
                ).tables@[t],
            final(self).tables@[tid as int].meta == old(self).tables@[tid as int].meta,
            forall|k2: Value|
                #[trigger] tbl_get(final(self).tables@[tid as int].entries@, k2) == if k2 == k {
                    v
                } else {
                    tbl_get(old(self).tables@[tid as int].entries@, k2)
                },
    {
        let mut rec = TableRec { entries: Vec::new(), meta: None };
        self.tables.set_and_swap(tid, &mut rec);
        let ghost pre = rec.entries@;
        match find_key(&rec.entries, k) {
            Some(i) => {
                proof {
                    assert(old(self).wf_table(old(self).tables@[tid as int]));
                }
                if v == Value::Nil {
                    rec.entries.remove(i);
                    proof {
                        assert forall|k2: Value| #[trigger]
                            tbl_get(rec.entries@, k2) == if k2 == k {
                                v
                            } else {
                                tbl_get(pre, k2)
                            } by {
                            lemma_tbl_get_remove(pre, i as int, k2);
                        }
                        assert forall|a: int, b: int|
                            0 <= a < b < rec.entries@.len() implies (
                        #[trigger] rec.entries@[a]).0 != (#[trigger] rec.entries@[b]).0 by {
                            let pa = if a < i as int {
                                a
                            } else {
                                a + 1
                            };
                            let pb = if b < i as int {
                                b
                            } else {
                                b + 1
                            };
                            assert(rec.entries@[a] == pre[pa]);
                            assert(rec.entries@[b] == pre[pb]);
                        }
                    }
                } else {
                    rec.entries.set(i, (k, v));
                    proof {
                        assert forall|k2: Value| #[trigger]
                            tbl_get(rec.entries@, k2) == if k2 == k {
                                v
                            } else {
                                tbl_get(pre, k2)
                            } by {
                            lemma_tbl_get_update(pre, i as int, v, k2);
                        }
                    }
                }
            },
            None => {
                if v != Value::Nil {
                    rec.entries.push((k, v));
                    proof {
                        assert forall|k2: Value| #[trigger]
                            tbl_get(rec.entries@, k2) == if k2 == k {
                                v
                            } else {
                                tbl_get(pre, k2)
                            } by {
                            lemma_tbl_get_push(pre, (k, v), k2);
                        }
                    }
                } else {
                    proof {
                        assert forall|k2: Value| #[trigger]
                            tbl_get(rec.entries@, k2) == if k2 == k {
                                v
                            } else {
                                tbl_get(pre, k2)
                            } by {
                            if k2 == k {
                                lemma_tbl_get_absent(pre, k);
                            }
                        }
                    }
                }
            },
        }
        self.tables.set_and_swap(tid, &mut rec);
        proof {
            assert(self.tables@ =~= old(self).tables@.update(
                tid as int,
                self.tables@[tid as int],
            ));
        }
    }
}

impl Lua {
    /// The identifier of the interned string with the given content; only
    /// meaningful when such a string exists (see [`Lua::has_str`]).
    pub open spec fn str_id_of(&self, content: Seq<u8>) -> int {
        choose|i: int| 0 <= i < self.strings@.len() && (#[trigger] self.strings@[i])@ == content
    }

    /// The string value with the given content, as a stack value of this
    /// session.
    pub open spec fn str_key(&self, content: Seq<u8>) -> Value {
        Value::Str(self.str_id_of(content) as usize)
    }

    /// Interned identifiers are unique for a content.
    pub proof fn lemma_str_id_unique(&self, content: Seq<u8>, id: usize)
        requires
            self.strings_ok(),
            id < self.strings@.len(),
            self.strings@[id as int]@ == content,
        ensures
            self.str_id_of(content) == id,
            self.str_key(content) == Value::Str(id),
    {
        assert(0 <= id < self.strings@.len() && self.strings@[id as int]@ == content);
        let i = self.str_id_of(content);
        assert(0 <= i < self.strings@.len() && self.strings@[i]@ == content);
        if i != id {
            assert(self.strings@[i]@ != self.strings@[id as int]@);
        }
    }

    /// Create a new table and push it onto the stack.
    pub fn create_table(&mut self)
        requires
            old(self).wf(),
            old(self).stack@.len() < 0x7fff_ffff,
        ensures
            final(self).wf(),
            final(self).tables@.len() == old(self).tables@.len() + 1,
            forall|t: int|
                0 <= t < old(self).tables@.len() ==> final(self).tables@[t] == old(self).tables@[t],
            final(self).tables@.last().entries@.len() == 0,
            final(self).tables@.last().meta is None,
            final(self).stack@ == old(self).stack@.push(
                Value::Table(old(self).tables@.len() as usize),
            ),
            final(self).strings == old(self).strings,
            final(self).uds == old(self).uds,
            final(self).closures == old(self).closures,
            final(self).refs == old(self).refs,
            final(self).metas == old(self).metas,
            final(self).frames == old(self).frames,
            final(self).next_type == old(self).next_type,
    {
        let tid = self.tables.len();
        self.tables.push(TableRec { entries: Vec::new(), meta: None });
        self.stack.push(Value::Table(tid));
    }

    /// Push the value `t[key]`, where `t` is the table at `stack_pos` and
    /// `key` is the value popped from the stack, without metamethod
    /// dispatch. The caller must ensure the value at `stack_pos` is a table.
    pub fn raw_get(&mut self, stack_pos: StackPos)
        requires
            old(self).wf(),
            old(self).valid_pos(stack_pos as int),
            old(self).at(stack_pos as int) is Table,
        ensures
            final(self).wf(),
            old(self).same_heaps(final(self)),
            old(self).at(stack_pos as int) matches Value::Table(tid) ==> final(self).stack@ == old(
                self,
            ).stack@.drop_last().push(
                tbl_get(old(self).tables@[tid as int].entries@, old(self).stack@.last()),
            ),
    {
        let abs = self.resolve_pos(stack_pos);
        let table_value = self.stack[abs];
        let key = self.stack[self.stack.len() - 1];
        match table_value {
            Value::Table(tid) => {
                let v = self.table_get(tid, key);
                self.pop(1);
                self.push_raw_value(v);
                proof {
                    assert(old(self).stack@.subrange(0, old(self).stack@.len() - 1) =~= old(
                        self,
                    ).stack@.drop_last());
                }
            },
            _ => {
                proof {
                    assert(false);
                }
            },
        }
    }

    /// Set `t[key]` to the value popped from the stack, where `t` is the
    /// table at `stack_pos` and `key` is the value popped from just below
    /// the top, without metamethod dispatch. The caller must ensure the
    /// value at `stack_pos` is a table and the key is not `nil`.
    pub fn raw_set(&mut self, stack_pos: StackPos)
        requires
            old(self).wf(),
            old(self).valid_pos(stack_pos as int),
            old(self).at(stack_pos as int) is Table,
            old(self).top_spec() >= 2,
            old(self).stack@[old(self).stack@.len() - 2] != Value::Nil,
        ensures
            final(self).wf(),
            final(self).stack@ == old(self).stack@.subrange(0, old(self).stack@.len() - 2),
            final(self).strings == old(self).strings,
            final(self).uds == old(self).uds,
            final(self).closures == old(self).closures,
            final(self).refs == old(self).refs,
            final(self).metas == old(self).metas,
            final(self).frames == old(self).frames,
            final(self).next_type == old(self).next_type,
            final(self).tables@.len() == old(self).tables@.len(),
            old(self).at(stack_pos as int) matches Value::Table(tid) ==> {
                &&& forall|t: int|
                    0 <= t < old(self).tables@.len() && t != tid ==> final(self).tables@[t] == old(
                        self,
                    ).tables@[t]
                &&& final(self).tables@[tid as int].meta == old(self).tables@[tid as int].meta
                &&& forall|k2: Value|
                    #[trigger] tbl_get(final(self).tables@[tid as int].entries@, k2) == if k2
                        == old(self).stack@[old(self).stack@.len() - 2] {
                        old(self).stack@.last()
                    } else {
                        tbl_get(old(self).tables@[tid as int].entries@, k2)
                    }
            },
    {
        let abs = self.resolve_pos(stack_pos);
        let table_value = self.stack[abs];
        let key = self.stack[self.stack.len() - 2];
        let v = self.stack[self.stack.len() - 1];
        match table_value {
            Value::Table(tid) => {
                self.pop(2);
                self.table_set(tid, key, v);
            },
            _ => {
                proof {
                    assert(false);
                }
            },
        }
    }

    /// Push the value `t[key]`, where `t` is the value at `stack_pos` and
    /// `key` is the value popped from the stack. Raises a non-local exit
    /// when the value at `stack_pos` is not a table (the host's metamethod
    /// dispatch on other values is not modelled).
    pub fn get_table(&mut self, stack_pos: StackPos) -> (r: Result<(), Exit>)
        requires
            old(self).wf(),
            old(self).valid_pos(stack_pos as int),
            old(self).top_spec() >= 1,
        ensures
            final(self).wf(),
            r is Ok <==> old(self).at(stack_pos as int) is Table,
            r is Ok ==> old(self).same_heaps(final(self)),
            old(self).at(stack_pos as int) matches Value::Table(tid) ==> final(self).stack@ == old(
                self,
            ).stack@.drop_last().push(
                tbl_get(old(self).tables@[tid as int].entries@, old(self).stack@.last()),
            ),
            r is Err ==> final(self).stack == old(self).stack && final(self).tables == old(
                self,
            ).tables && final(self).uds == old(self).uds && final(self).closures == old(
                self,
            ).closures && final(self).refs == old(self).refs && final(self).metas == old(
                self,
            ).metas && final(self).frames == old(self).frames && final(self).next_type == old(
                self,
            ).next_type,
            r is Err ==> final(self).is_thrown_str(r->Err_0, not_table_text()),
    {
        let abs = self.resolve_pos(stack_pos);
        let table_value = self.stack[abs];
        match table_value {
            Value::Table(_) => {
                self.raw_get(stack_pos);
                Ok(())
            },
            _ => {
                let e = self.throw_fixed("attempt to index a non-table value");
                proof {
                    reveal_strlit("attempt to index a non-table value");
                    assert(vstd::utf8::is_ascii_chars("attempt to index a non-table value"@));
                    vstd::utf8::is_ascii_chars_encode_utf8("attempt to index a non-table value"@);
                }
                Err(e)
            },
        }
    }

    /// Set `t[key]` to the value popped from the stack, where `t` is the
    /// value at `stack_pos` and `key` is the value popped from just below
    /// the top. Raises a non-local exit when the value at `stack_pos` is not
    /// a table or the key is `nil`.
    pub fn set_table(&mut self, stack_pos: StackPos) -> (r: Result<(), Exit>)
        requires
            old(self).wf(),
            old(self).valid_pos(stack_pos as int),
            old(self).top_spec() >= 2,
        ensures
            final(self).wf(),
            r is Ok <==> (old(self).at(stack_pos as int) is Table && old(self).stack@[old(
                self,
            ).stack@.len() - 2] != Value::Nil),
            r is Ok ==> final(self).stack@ == old(self).stack@.subrange(
                0,
                old(self).stack@.len() - 2,
            ) && final(self).strings == old(self).strings && final(self).uds == old(self).uds
                && final(self).closures == old(self).closures && final(self).refs == old(self).refs
                && final(self).metas == old(self).metas && final(self).frames == old(self).frames
                && final(self).next_type == old(self).next_type && final(self).tables@.len() == old(
                self,
            ).tables@.len(),
            r is Ok ==> (old(self).at(stack_pos as int) matches Value::Table(tid) && {
                &&& forall|t: int|
                    0 <= t < old(self).tables@.len() && t != tid ==> final(self).tables@[t] == old(
                        self,
                    ).tables@[t]
                &&& final(self).tables@[tid as int].meta == old(self).tables@[tid as int].meta
                &&& forall|k2: Value|
                    #[trigger] tbl_get(final(self).tables@[tid as int].entries@, k2) == if k2
                        == old(self).stack@[old(self).stack@.len() - 2] {
                        old(self).stack@.last()
                    } else {
                        tbl_get(old(self).tables@[tid as int].entries@, k2)
                    }
            }),
            r is Err ==> final(self).stack == old(self).stack && final(self).tables == old(
                self,
            ).tables && final(self).uds == old(self).uds && final(self).closures == old(
                self,
            ).closures && final(self).refs == old(self).refs && final(self).metas == old(
                self,
            ).metas && final(self).frames == old(self).frames && final(self).next_type == old(
                self,
            ).next_type,
            r is Err && !(old(self).at(stack_pos as int) is Table) ==> final(self).is_thrown_str(
                r->Err_0,
                not_table_text(),
            ),
            r is Err && old(self).at(stack_pos as int) is Table ==> final(self).is_thrown_str(
                r->Err_0,
                nil_key_text(),
            ),
    {
        let abs = self.resolve_pos(stack_pos);
        let table_value = self.stack[abs];
        let key = self.stack[self.stack.len() - 2];
        match table_value {
            Value::Table(_) => {
                if key == Value::Nil {
                    {
                let e = self.throw_fixed("table index is nil");
                proof {
                    reveal_strlit("table index is nil");
                    assert(vstd::utf8::is_ascii_chars("table index is nil"@));
                    vstd::utf8::is_ascii_chars_encode_utf8("table index is nil"@);
                }
                Err(e)
            }
                } else {
                    self.raw_set(stack_pos);
                    Ok(())
                }
            },
            _ => {
                let e = self.throw_fixed("attempt to index a non-table value");
                proof {
                    reveal_strlit("attempt to index a non-table value");
                    assert(vstd::utf8::is_ascii_chars("attempt to index a non-table value"@));
                    vstd::utf8::is_ascii_chars_encode_utf8("attempt to index a non-table value"@);
                }
                Err(e)
            },
        }
    }

    /// Push the value `t[key]`, where `t` is the value at `stack_pos`,
    /// without popping anything; the key is given as bytes. Raises a
    /// non-local exit when the value at `stack_pos` is not a table.
    pub fn get_field(&mut self, stack_pos: StackPos, key: &[u8]) -> (r: Result<(), Exit>)
        requires
            old(self).wf(),
            old(self).valid_pos(stack_pos as int),
            old(self).stack@.len() < 0x7fff_ffff,
            key@.len() <= 0x7fff_ffff,
        ensures
            final(self).wf(),
            r is Ok <==> old(self).at(stack_pos as int) is Table,
            forall|i: int|
                0 <= i < old(self).strings@.len() ==> final(self).strings@[i] == old(
                    self,
                ).strings@[i],
            final(self).strings@.len() >= old(self).strings@.len(),
            final(self).tables == old(self).tables,
            final(self).uds == old(self).uds,
            final(self).closures == old(self).closures,
            final(self).refs == old(self).refs,
            final(self).metas == old(self).metas,
            final(self).frames == old(self).frames,
            final(self).next_type == old(self).next_type,
            r is Ok ==> final(self).has_str(key@),
            r is Ok ==> (old(self).at(stack_pos as int) matches Value::Table(tid) && final(self).stack@ == old(self).stack@.push(
                tbl_get(old(self).tables@[tid as int].entries@, final(self).str_key(key@)),
            )),
            r is Err ==> final(self).stack == old(self).stack,
            r is Err ==> final(self).is_thrown_str(r->Err_0, not_table_text()),
    {
        let abs = self.resolve_pos(stack_pos);
        let table_value = self.stack[abs];
        match table_value {
            Value::Table(tid) => {
                let kid = self.intern(key);
                proof {
                    self.lemma_str_id_unique(key@, kid);
                }
                let v = self.table_get(tid, Value::Str(kid));
                self.push_raw_value(v);
                Ok(())
            },
            _ => {
                let e = self.throw_fixed("attempt to index a non-table value");
                proof {
                    reveal_strlit("attempt to index a non-table value");
                    assert(vstd::utf8::is_ascii_chars("attempt to index a non-table value"@));
                    vstd::utf8::is_ascii_chars_encode_utf8("attempt to index a non-table value"@);
                }
                Err(e)
            },
        }
    }

    /// Set `t[key]` to the value popped from the stack, where `t` is the
    /// value at `stack_pos`; the key is given as bytes. Raises a non-local
    /// exit when the value at `stack_pos` is not a table.
    pub fn set_field(&mut self, stack_pos: StackPos, key: &[u8]) -> (r: Result<(), Exit>)
        requires
            old(self).wf(),
            old(self).valid_pos(stack_pos as int),
            old(self).top_spec() >= 1,
            key@.len() <= 0x7fff_ffff,
        ensures
            final(self).wf(),
            r is Ok <==> old(self).at(stack_pos as int) is Table,
            forall|i: int|
                0 <= i < old(self).strings@.len() ==> final(self).strings@[i] == old(
                    self,
                ).strings@[i],
            final(self).strings@.len() >= old(self).strings@.len(),
            final(self).uds == old(self).uds,
            final(self).closures == old(self).closures,
            final(self).refs == old(self).refs,
            final(self).metas == old(self).metas,
            final(self).frames == old(self).frames,
            final(self).next_type == old(self).next_type,
            final(self).tables@.len() == old(self).tables@.len(),
            r is Ok ==> final(self).has_str(key@),
            r is Ok ==> final(self).stack@ == old(self).stack@.drop_last(),
            r is Ok ==> (old(self).at(stack_pos as int) matches Value::Table(tid) && {
                &&& forall|t: int|
                    0 <= t < old(self).tables@.len() && t != tid ==> final(self).tables@[t] == old(
                        self,
                    ).tables@[t]
                &&& final(self).tables@[tid as int].meta == old(self).tables@[tid as int].meta
                &&& forall|k2: Value|
                    #[trigger] tbl_get(final(self).tables@[tid as int].entries@, k2) == if k2
                        == final(self).str_key(key@) {
                        old(self).stack@.last()
                    } else {
                        tbl_get(old(self).tables@[tid as int].entries@, k2)
                    }
            }),
            r is Err ==> final(self).stack == old(self).stack && final(self).tables == old(
                self,
            ).tables,
            r is Err ==> final(self).is_thrown_str(r->Err_0, not_table_text()),
    {
        let abs = self.resolve_pos(stack_pos);
        let table_value = self.stack[abs];
        let v = self.stack[self.stack.len() - 1];
        match table_value {
            Value::Table(tid) => {
                let kid = self.intern(key);
                proof {
                    self.lemma_str_id_unique(key@, kid);
                    assert(self.stack@.subrange(0, self.stack@.len() - 1) =~= self.stack@.drop_last(
                    ));
                }
                self.pop(1);
                self.table_set(tid, Value::Str(kid), v);
                Ok(())
            },
            _ => {
                let e = self.throw_fixed("attempt to index a non-table value");
                proof {
                    reveal_strlit("attempt to index a non-table value");
                    assert(vstd::utf8::is_ascii_chars("attempt to index a non-table value"@));
                    vstd::utf8::is_ascii_chars_encode_utf8("attempt to index a non-table value"@);
                }
                Err(e)
            },
        }
    }
}

/// Find the registry entry holding a metatable name (an interned string
/// identifier).
fn find_meta_name(metas: &Vec<MetaEntry>, nid: usize) -> (r: Option<usize>)
    ensures
        match r {
            Some(i) => i < metas@.len() && metas@[i as int].name == nid,
            None => forall|j: int| 0 <= j < metas@.len() ==> (#[trigger] metas@[j]).name != nid,
        },
{
    let mut i: usize = 0;
    while i < metas.len()
        invariant
            i <= metas@.len(),
            forall|j: int| 0 <= j < i ==> (#[trigger] metas@[j]).name != nid,
        decreases metas@.len() - i,
    {
        if metas[i].name == nid {
            return Some(i);
        }
        i += 1;
    }
    None
}

/// Find the registry entry holding a type identifier.
fn find_meta_ty(metas: &Vec<MetaEntry>, ty: RawType) -> (r: Option<usize>)
    ensures
        match r {
            Some(i) => i < metas@.len() && metas@[i as int].ty == ty,
            None => forall|j: int| 0 <= j < metas@.len() ==> (#[trigger] metas@[j]).ty != ty,
        },
{
    let mut i: usize = 0;
    while i < metas.len()
        invariant
            i <= metas@.len(),
            forall|j: int| 0 <= j < i ==> (#[trigger] metas@[j]).ty != ty,
        decreases metas@.len() - i,
    {
        if metas[i].ty == ty {
            return Some(i);
        }
        i += 1;
    }
    None
}

impl Lua {
    /// The metatable attached to a value, if any: tables and full userdata
    /// carry one of their own.
    pub open spec fn meta_of_value(&self, v: Value) -> Option<usize> {
        match v {
            Value::Table(id) => self.tables@[id as int].meta,
            Value::UserData(id) => self.uds@[id as int].meta,
            _ => None,
        }
    }

    /// The metatable a stack value popped by `set_metatable` denotes: a
    /// table attaches itself, `nil` detaches.
    pub open spec fn meta_opt_of(v: Value) -> Option<usize> {
        match v {
            Value::Table(m) => Some(m),
            _ => None,
        }
    }

    /// Whether some named metatable was created under the given name.
    pub open spec fn has_meta_name(&self, content: Seq<u8>) -> bool {
        exists|i: int|
            0 <= i < self.metas@.len() && (#[trigger] self.metas@[i]).name < self.strings@.len()
                && self.strings@[self.metas@[i].name as int]@ == content
    }

    /// The registry entry created under the given name; only meaningful when
    /// [`Lua::has_meta_name`] holds.
    pub open spec fn meta_idx_by_name(&self, content: Seq<u8>) -> int {
        choose|i: int|
            0 <= i < self.metas@.len() && (#[trigger] self.metas@[i]).name < self.strings@.len()
                && self.strings@[self.metas@[i].name as int]@ == content
    }

    /// Whether some named metatable obtained the given type identifier.
    pub open spec fn has_meta_ty(&self, t: int) -> bool {
        exists|i: int| 0 <= i < self.metas@.len() && (#[trigger] self.metas@[i]).ty == t
    }

    /// The registry entry that obtained the given type identifier; only
    /// meaningful when [`Lua::has_meta_ty`] holds.
    pub open spec fn meta_idx_by_ty(&self, t: int) -> int {
        choose|i: int| 0 <= i < self.metas@.len() && (#[trigger] self.metas@[i]).ty == t
    }

    /// A registry entry whose name has the given content is the entry the
    /// name denotes: names are interned and entries' names are distinct.
    pub proof fn lemma_meta_idx_unique(&self, content: Seq<u8>, i: int)
        requires
            self.wf(),
            0 <= i < self.metas@.len(),
            self.metas@[i].name < self.strings@.len(),
            self.strings@[self.metas@[i].name as int]@ == content,
        ensures
            self.has_meta_name(content),
            self.meta_idx_by_name(content) == i,
    {
        assert(self.has_meta_name(content));
        let j = self.meta_idx_by_name(content);
        assert(0 <= j < self.metas@.len() && self.metas@[j].name < self.strings@.len()
            && self.strings@[self.metas@[j].name as int]@ == content);
        if j != i {
            if self.metas@[j].name != self.metas@[i].name {
                let a = self.metas@[j].name as int;
                let b = self.metas@[i].name as int;
                assert(self.strings@[a]@ != self.strings@[b]@);
            }
        }
    }

    /// Whether some pair of a table's entry list holds the given key.
    pub open spec fn tbl_has_key(s: Seq<(Value, Value)>, k: Value) -> bool {
        exists|i: int| 0 <= i < s.len() && (#[trigger] s[i]).0 == k
    }

    /// The index of the pair holding a key; only meaningful when
    /// [`Lua::tbl_has_key`] holds (keys are pairwise distinct).
    pub open spec fn tbl_key_idx(s: Seq<(Value, Value)>, k: Value) -> int {
        choose|i: int| 0 <= i < s.len() && (#[trigger] s[i]).0 == k
    }

    /// Pop a key from the stack and push the next key/value pair of the
    /// table at `stack_pos` in this model's enumeration order (the order
    /// the pairs were stored in), returning 1; a popped `nil` starts the
    /// enumeration, and past the last pair nothing is pushed and 0 is
    /// returned. A non-nil key that is not in the table raises, as the
    /// host does. The host's own enumeration order is unspecified; only
    /// the set of pairs enumerated is shared with it.
    pub fn next(&mut self, stack_pos: StackPos) -> (r: Result<i32, Exit>)
        requires
            old(self).wf(),
            old(self).valid_pos(stack_pos as int),
            old(self).at(stack_pos as int) is Table,
            old(self).top_spec() >= 1,
            old(self).stack@.len() < 0x7fff_ffff,
        ensures
            final(self).wf(),
            final(self).tables == old(self).tables,
            final(self).uds == old(self).uds,
            final(self).closures == old(self).closures,
            final(self).refs == old(self).refs,
            final(self).metas == old(self).metas,
            final(self).frames == old(self).frames,
            final(self).next_type == old(self).next_type,
            forall|i: int|
                0 <= i < old(self).strings@.len() ==> final(self).strings@[i] == old(
                    self,
                ).strings@[i],
            final(self).strings@.len() >= old(self).strings@.len(),
            old(self).at(stack_pos as int) matches Value::Table(tid) ==> {
                let entries = old(self).tables@[tid as int].entries@;
                let key = old(self).stack@.last();
                &&& (r is Err <==> key != Value::Nil && !Self::tbl_has_key(entries, key))
                &&& (r is Err ==> final(self).stack == old(self).stack && final(self).is_thrown_str(r->Err_0, bad_next_key_text()))
                &&& (key == Value::Nil && entries.len() == 0 ==> r == Ok::<i32, Exit>(0) && final(self).stack@ == old(self).stack@.drop_last())
                &&& (key == Value::Nil && entries.len() > 0 ==> r == Ok::<i32, Exit>(1) && final(self).stack@ == old(self).stack@.drop_last().push(entries[0].0).push(entries[0].1))
                &&& (key != Value::Nil && Self::tbl_has_key(entries, key) ==> {
                    let i = Self::tbl_key_idx(entries, key);
                    if i + 1 < entries.len() {
                        r == Ok::<i32, Exit>(1) && final(self).stack@ == old(
                            self,
                        ).stack@.drop_last().push(entries[i + 1].0).push(entries[i + 1].1)
                    } else {
                        r == Ok::<i32, Exit>(0) && final(self).stack@ == old(
                            self,
                        ).stack@.drop_last()
                    }
                })
            },
    {
        let abs = self.resolve_pos(stack_pos);
        let table_value = self.stack[abs];
        let key = self.stack[self.stack.len() - 1];
        match table_value {
            Value::Table(tid) => {
                proof {
                    assert(old(self).wf_table(old(self).tables@[tid as int]));
                }
                let next_idx: usize = if key == Value::Nil {
                    0
                } else {
                    match find_key(&self.tables[tid].entries, key) {
                        Some(i) => {
                            let n = self.tables[tid].entries.len();
                            proof {
                                let entries = self.tables@[tid as int].entries@;
                                assert(Self::tbl_has_key(entries, key));
                                let j = Self::tbl_key_idx(entries, key);
                                assert(0 <= j < entries.len() && entries[j].0 == key);
                                if j != i as int {
                                    assert(entries[j].0 != entries[i as int].0);
                                }
                                assert(i < n);
                            }
                            i + 1
                        },
                        None => {
                            let e = self.throw_fixed("invalid key to table enumeration");
                            proof {
                                reveal_strlit("invalid key to table enumeration");
                                assert(vstd::utf8::is_ascii_chars(
                                    "invalid key to table enumeration"@,
                                ));
                                vstd::utf8::is_ascii_chars_encode_utf8(
                                    "invalid key to table enumeration"@,
                                );
                            }
                            return Err(e);
                        },
                    }
                };
                self.pop(1);
                proof {
                    assert(self.stack@ =~= old(self).stack@.drop_last());
                }
                if next_idx < self.tables[tid].entries.len() {
                    let pair = self.tables[tid].entries[next_idx];
                    self.push_raw_value(pair.0);
                    self.push_raw_value(pair.1);
                    Ok(1)
                } else {
                    Ok(0)
                }
            },
            _ => {
                proof {
                    assert(false);
                }
                Err(Exit::Thrown(Value::Nil))
            },
        }
    }

    /// Push the metatable of the value at `stack_pos` on the stack and
    /// return `true`, or push nothing and return `false` if the value
    /// carries none.
    pub fn get_metatable(&mut self, stack_pos: StackPos) -> (r: bool)
        requires
            old(self).wf(),
            old(self).valid_pos(stack_pos as int),
            old(self).stack@.len() < 0x7fff_ffff,
        ensures
            final(self).wf(),
            old(self).same_heaps(final(self)),
            r <==> old(self).meta_of_value(old(self).at(stack_pos as int)) is Some,
            old(self).meta_of_value(old(self).at(stack_pos as int)) matches Some(m) ==> final(self).stack@ == old(self).stack@.push(Value::Table(m)),
            !r ==> final(self).stack == old(self).stack,
    {
        let v = self.value_at(stack_pos);
        let meta: Option<usize> = match v {
            Value::Table(id) => self.tables[id].meta,
            Value::UserData(id) => self.uds[id].meta,
            _ => None,
        };
        match meta {
            Some(m) => {
                proof {
                    match v {
                        Value::Table(id) => {
                            assert(old(self).wf_table(old(self).tables@[id as int]));
                        },
                        _ => {},
                    }
                }
                self.push_raw_value(Value::Table(m));
                true
            },
            None => false,
        }
    }

    /// Set the metatable of the value at `stack_pos` to the table popped
    /// from the stack (`nil` detaches it). Raises a non-local exit when the
    /// popped value is neither a table nor `nil`, or when the value at
    /// `stack_pos` can carry no metatable.
    pub fn set_metatable(&mut self, stack_pos: StackPos) -> (r: Result<(), Exit>)
        requires
            old(self).wf(),
            old(self).valid_pos(stack_pos as int),
            old(self).top_spec() >= 1,
        ensures
            final(self).wf(),
            forall|i: int|
                0 <= i < old(self).strings@.len() ==> final(self).strings@[i] == old(
                    self,
                ).strings@[i],
            final(self).strings@.len() >= old(self).strings@.len(),
            r is Ok ==> final(self).strings == old(self).strings,
            final(self).closures == old(self).closures,
            final(self).refs == old(self).refs,
            final(self).metas == old(self).metas,
            final(self).frames == old(self).frames,
            final(self).next_type == old(self).next_type,
            r is Ok <==> ((old(self).at(stack_pos as int) is Table || old(self).at(
                stack_pos as int,
            ) is UserData) && (old(self).stack@.last() is Table || old(self).stack@.last()
                is Nil)),
            r is Ok ==> final(self).stack@ == old(self).stack@.drop_last(),
            r is Err ==> final(self).stack == old(self).stack && final(self).tables == old(
                self,
            ).tables && final(self).uds == old(self).uds,
            r is Err && !(old(self).stack@.last() is Table || old(self).stack@.last() is Nil)
                ==> final(self).is_thrown_str(r->Err_0, bad_metatable_text()),
            r is Err && (old(self).stack@.last() is Table || old(self).stack@.last() is Nil)
                ==> final(self).is_thrown_str(r->Err_0, no_metatable_text()),
            r is Ok ==> (old(self).at(stack_pos as int) matches Value::Table(tid) ==> {
                &&& final(self).uds == old(self).uds
                &&& final(self).tables@.len() == old(self).tables@.len()
                &&& forall|t: int|
                    0 <= t < old(self).tables@.len() && t != tid ==> final(self).tables@[t] == old(
                        self,
                    ).tables@[t]
                &&& final(self).tables@[tid as int].entries == old(self).tables@[tid as int].entries
                &&& final(self).tables@[tid as int].meta == Self::meta_opt_of(
                    old(self).stack@.last(),
                )
            }),
            r is Ok ==> (old(self).at(stack_pos as int) matches Value::UserData(uid) ==> {
                &&& final(self).tables == old(self).tables
                &&& final(self).uds@.len() == old(self).uds@.len()
                &&& forall|u: int|
                    0 <= u < old(self).uds@.len() && u != uid ==> final(self).uds@[u] == old(
                        self,
                    ).uds@[u]
                &&& final(self).uds@[uid as int].ty == old(self).uds@[uid as int].ty
                &&& final(self).uds@[uid as int].rust_ty == old(self).uds@[uid as int].rust_ty
                &&& final(self).uds@[uid as int].data == old(self).uds@[uid as int].data
                &&& final(self).uds@[uid as int].finalized == old(self).uds@[uid as int].finalized
                &&& final(self).uds@[uid as int].meta == Self::meta_opt_of(old(self).stack@.last())
            }),
    {
        let abs = self.resolve_pos(stack_pos);
        let target = self.stack[abs];
        let mt_v = self.stack[self.stack.len() - 1];
        let new_meta: Option<usize> = match mt_v {
            Value::Table(m) => Some(m),
            Value::Nil => None,
            _ => {
                return {
                let e = self.throw_fixed("metatable must be a table or nil");
                proof {
                    reveal_strlit("metatable must be a table or nil");
                    assert(vstd::utf8::is_ascii_chars("metatable must be a table or nil"@));
                    vstd::utf8::is_ascii_chars_encode_utf8("metatable must be a table or nil"@);
                }
                Err(e)
            };
            },
        };
        match target {
            Value::Table(tid) => {
                self.pop(1);
                let mut rec = TableRec { entries: Vec::new(), meta: None };
                self.tables.set_and_swap(tid, &mut rec);
                rec.meta = new_meta;
                self.tables.set_and_swap(tid, &mut rec);
                proof {
                    assert(self.tables@ =~= old(self).tables@.update(
                        tid as int,
                        self.tables@[tid as int],
                    ));
                }
                Ok(())
            },
            Value::UserData(uid) => {
                self.pop(1);
                let mut rec = RawUd {
                    ty: 0,
                    rust_ty: 0,
                    data: Vec::new(),
                    meta: None,
                    finalized: false,
                };
                self.uds.set_and_swap(uid, &mut rec);
                rec.meta = new_meta;
                self.uds.set_and_swap(uid, &mut rec);
                proof {
                    assert(self.uds@ =~= old(self).uds@.update(uid as int, self.uds@[uid as int]));
                }
                Ok(())
            },
            _ => {
                let e = self.throw_fixed("value cannot carry a metatable");
                proof {
                    reveal_strlit("value cannot carry a metatable");
                    assert(vstd::utf8::is_ascii_chars("value cannot carry a metatable"@));
                    vstd::utf8::is_ascii_chars_encode_utf8("value cannot carry a metatable"@);
                }
                Err(e)
            },
        }
    }

    /// Push the metatable associated with the given `name`, creating it if
    /// it doesn't exist, and return the [`Type`] identifier to use for it.
    /// Creating the same name twice yields the identifier and metatable the
    /// first call obtained.
    pub fn create_metatable(&mut self, name: &[u8]) -> (r: Type)
        requires
            old(self).wf(),
            old(self).stack@.len() < 0x7fff_ffff,
            name@.len() <= 0x7fff_ffff,
            old(self).next_type < 0x7fff_ffff,
        ensures
            final(self).wf(),
            final(self).uds == old(self).uds,
            final(self).closures == old(self).closures,
            final(self).refs == old(self).refs,
            final(self).frames == old(self).frames,
            old(self).has_meta_name(name@) ==> {
                &&& final(self).tables == old(self).tables
                &&& final(self).metas == old(self).metas
                &&& final(self).strings == old(self).strings
                &&& final(self).next_type == old(self).next_type
                &&& r.0 == old(self).metas@[old(self).meta_idx_by_name(name@)].ty
                &&& final(self).stack@ == old(self).stack@.push(
                    Value::Table(old(self).metas@[old(self).meta_idx_by_name(name@)].table),
                )
            },
            !old(self).has_meta_name(name@) ==> {
                &&& r.0 == old(self).next_type
                &&& final(self).next_type == old(self).next_type + 1
                &&& final(self).tables@.len() == old(self).tables@.len() + 1
                &&& forall|t: int|
                    0 <= t < old(self).tables@.len() ==> final(self).tables@[t] == old(
                        self,
                    ).tables@[t]
                &&& final(self).tables@.last().entries@.len() == 0
                &&& final(self).tables@.last().meta is None
                &&& final(self).metas@.len() == old(self).metas@.len() + 1
                &&& forall|m: int|
                    0 <= m < old(self).metas@.len() ==> final(self).metas@[m] == old(self).metas@[m]
                &&& final(self).metas@.last().ty == old(self).next_type
                &&& final(self).metas@.last().table == old(self).tables@.len()
                &&& final(self).metas@.last().name < final(self).strings@.len()
                &&& final(self).strings@[final(self).metas@.last().name as int]@ == name@
                &&& final(self).stack@ == old(self).stack@.push(
                    Value::Table(old(self).tables@.len() as usize),
                )
                &&& forall|i: int|
                    0 <= i < old(self).strings@.len() ==> final(self).strings@[i] == old(
                        self,
                    ).strings@[i]
            },
            final(self).has_meta_name(name@),
            final(self).has_meta_ty(r.0 as int),
            final(self).strings@.len() >= old(self).strings@.len(),
            crate::types::FIRST_FOREIGN_TYPE <= r.0 < final(self).next_type,
            r.0 == final(self).metas@[final(self).meta_idx_by_name(name@)].ty,
            final(self).stack@.last() == Value::Table(
                final(self).metas@[final(self).meta_idx_by_name(name@)].table,
            ),
            final(self).stack@.len() == old(self).stack@.len() + 1,
            forall|j: int| 0 <= j < old(self).stack@.len() ==> final(self).stack@[j] == old(
                self,
            ).stack@[j],
    {
        let nid = self.intern(name);
        match find_meta_name(&self.metas, nid) {
            Some(i) => {
                let entry_ty = self.metas[i].ty;
                let entry_table = self.metas[i].table;
                proof {
                    assert(old(self).has_str(name@));
                    assert(*self == *old(self));
                    assert(old(self).has_meta_name(name@));
                    let j = old(self).meta_idx_by_name(name@);
                    assert(0 <= j < old(self).metas@.len() && old(self).metas@[j].name < old(
                        self,
                    ).strings@.len() && old(self).strings@[old(self).metas@[j].name as int]@
                        == name@);
                    if old(self).metas@[j].name != nid {
                        assert(old(self).strings@[old(self).metas@[j].name as int]@ != old(
                            self,
                        ).strings@[nid as int]@);
                    }
                    if j != i as int {
                        assert(old(self).metas@[j].name != old(self).metas@[i as int].name);
                    }
                }
                self.push_raw_value(Value::Table(entry_table));
                proof {
                    assert(final(self).has_meta_name(name@));
                    assert(final(self).has_meta_ty(entry_ty as int));
                }
                Type(entry_ty)
            },
            None => {
                proof {
                    if old(self).has_meta_name(name@) {
                        let j = old(self).meta_idx_by_name(name@);
                        assert(0 <= j < self.metas@.len() && self.metas@[j].name
                            < self.strings@.len() && self.strings@[self.metas@[j].name as int]@
                            == name@);
                        if self.metas@[j].name != nid {
                            assert(self.strings@[self.metas@[j].name as int]@
                                != self.strings@[nid as int]@);
                        }
                        assert(false);
                    }
                }
                let ty = self.next_type;
                self.next_type = ty + 1;
                let tid = self.tables.len();
                self.tables.push(TableRec { entries: Vec::new(), meta: None });
                self.metas.push(MetaEntry { name: nid, ty: ty, table: tid });
                self.push_raw_value(Value::Table(tid));
                proof {
                    let fin = *self;
                    assert(fin.metas@.last().name == nid);
                    assert(fin.strings@[nid as int]@ == name@);
                    assert(fin.has_meta_name(name@));
                    assert(fin.metas@.last().ty == ty);
                    assert(fin.has_meta_ty(ty as int));
                }
                Type(ty)
            },
        }
    }

    /// Push the metatable associated with the given [`Type`], returning
    /// `true` if it exists; nothing is pushed when no metatable obtained
    /// that identifier.
    pub fn push_metatable(&mut self, ty: Type) -> (r: bool)
        requires
            old(self).wf(),
            old(self).stack@.len() < 0x7fff_ffff,
        ensures
            final(self).wf(),
            old(self).same_heaps(final(self)),
            r <==> old(self).has_meta_ty(ty.0 as int),
            r ==> final(self).stack@ == old(self).stack@.push(
                Value::Table(old(self).metas@[old(self).meta_idx_by_ty(ty.0 as int)].table),
            ),
            !r ==> final(self).stack == old(self).stack,
    {
        match find_meta_ty(&self.metas, ty.0) {
            Some(i) => {
                let entry_table = self.metas[i].table;
                proof {
                    assert(old(self).has_meta_ty(ty.0 as int));
                    let j = old(self).meta_idx_by_ty(ty.0 as int);
                    assert(0 <= j < old(self).metas@.len() && old(self).metas@[j].ty == ty.0);
                    if j != i as int {
                        assert(old(self).metas@[j].ty != old(self).metas@[i as int].ty);
                    }
                }
                self.push_raw_value(Value::Table(entry_table));
                true
            },
            None => {
                proof {
                    if old(self).has_meta_ty(ty.0 as int) {
                        let j = old(self).meta_idx_by_ty(ty.0 as int);
                        assert(0 <= j < self.metas@.len() && self.metas@[j].ty == ty.0);
                    }
                }
                false
            },
        }
    }
}

/// The fact [`find_key`] leaves implicit: a found pair determines the
/// stored value.
proof fn lemma_tbl_get_found(s: Seq<(Value, Value)>, i: int, k: Value)
    requires
        0 <= i < s.len(),
        s[i].0 == k,
        forall|a: int, b: int| 0 <= a < b < s.len() ==> (#[trigger] s[a]).0 != (#[trigger] s[b]).0,
    ensures
        tbl_get(s, k) == s[i].1,
    decreases i,
{
    if i == 0 {
    } else {
        assert(s[0].0 != k);
        assert(s.drop_first()[i - 1] == s[i]);
        lemma_tbl_get_found(s.drop_first(), i - 1, k);
    }
}

} // verus!
