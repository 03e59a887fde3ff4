//! The values that can sit on the interpreter's stack, as this model
//! carries them.
//!
//! Strings, tables, functions and userdata are owned by the session's heaps
//! (see [`crate::state::Lua`]) and a stack value only names its record, so a
//! stack value is a small copyable tag. Strings are interned: equal byte
//! content always has the same identifier, which makes identifier equality
//! agree with content equality, as it does in the host's interpreter.

use vstd::prelude::*;
use crate::types::Bits;

verus! {

/// One value on the interpreter's stack.
#[derive(Clone, Copy, PartialEq, Eq, Structural, Debug)]
pub enum Value {
    /// The absence of a value.
    Nil,
    /// A boolean.
    Bool(bool),
    /// A number, carried as the raw bits of the host's 64-bit numeric type.
    Number(Bits),
    /// An interned byte string; the identifier indexes the session's string
    /// heap.
    Str(usize),
    /// A table; the identifier indexes the session's table heap.
    Table(usize),
    /// A callable; the identifier indexes the session's closure heap.
    Function(usize),
    /// A full userdata record; the identifier indexes the session's userdata
    /// heap.
    UserData(usize),
    /// A light userdata: a plain machine word the host never interprets.
    LightUserData(usize),
}

/// Compare two byte slices for content equality.
pub fn bytes_eq(a: &[u8], b: &[u8]) -> (r: bool)
    ensures
        r <==> a@ == b@,
{
    if a.len() != b.len() {
        proof {
            assert(a@.len() != b@.len());
        }
        return false;
    }
    let mut i: usize = 0;
    while i < a.len()
        invariant
            i <= a@.len(),
            a@.len() == b@.len(),
            forall|j: int| 0 <= j < i ==> a@[j] == b@[j],
        decreases a@.len() - i,
    {
        if a[i] != b[i] {
            return false;
        }
        i += 1;
    }
    proof {
        assert(a@ =~= b@);
    }
    true
}

/// Append the bytes of `b` to `out`.
pub fn append_bytes(out: &mut Vec<u8>, b: &[u8])
    ensures
        final(out)@ == old(out)@ + b@,
{
    let mut i: usize = 0;
    while i < b.len()
        invariant
            i <= b@.len(),
            out@ == old(out)@ + b@.subrange(0, i as int),
        decreases b@.len() - i,
    {
        out.push(b[i]);
        proof {
            assert(b@.subrange(0, i as int).push(b@[i as int]) =~= b@.subrange(0, i + 1));
        }
        i += 1;
    }
    proof {
        assert(b@.subrange(0, b@.len() as int) =~= b@);
    }
}

/// Copy a byte slice into a fresh vector.
pub fn copy_bytes(b: &[u8]) -> (r: Vec<u8>)
    ensures
        r@ == b@,
{
    let mut out: Vec<u8> = Vec::new();
    append_bytes(&mut out, b);
    proof {
        assert(Seq::<u8>::empty() + b@ =~= b@);
    }
    out
}

} // verus!
