//! The binding's laws: properties that hold across operations, stated over
//! the same specification functions the operations' contracts use.

use vstd::prelude::*;
use crate::types::{Bits, Type};
use crate::value::Value;
use crate::state::Lua;

verus! {

/// Stack discipline: after any sequence of operations that pushed `n_push`
/// values and popped `n_pop` values of the current frame, the depth the
/// session reports is the depth before plus the net pushes minus the net
/// pops. Each push contract adds exactly one value and each pop contract
/// removes exactly the requested count, and none of them moves the frame,
/// so any such run meets this lemma's premises.
pub proof fn lemma_top_counts_pushes_and_pops(pre: &Lua, post: &Lua, n_push: int, n_pop: int)
    requires
        post.frames@ == pre.frames@,
        post.stack@.len() == pre.stack@.len() + n_push - n_pop,
    ensures
        post.top_spec() == pre.top_spec() + n_push - n_pop,
{
}

/// Setting the stack of a frame to a depth is idempotent: applying the same
/// target depth a second time leaves the stack exactly as the first
/// application left it.
pub proof fn lemma_set_top_idempotent(s: Seq<Value>, base: int, n: int)
    requires
        0 <= base <= s.len(),
        0 <= n,
    ensures
        Lua::set_top_spec(Lua::set_top_spec(s, base, n), base, n) == Lua::set_top_spec(
            s,
            base,
            n,
        ),
{
    let once = Lua::set_top_spec(s, base, n);
    if n <= s.len() - base {
        assert(once.len() == base + n);
        assert(Lua::set_top_spec(once, base, n) =~= once);
    } else {
        assert(once.len() == base + n);
        assert(Lua::set_top_spec(once, base, n) =~= once);
    }
}

/// The lossless large-integer round trip: pushing any 64-bit pattern as a
/// number and reading the top of the stack back as bits yields exactly that
/// pattern, for every representable pattern. `push_bits` ensures the premise
/// and `get_bits` returns `number_bits` of the value at the position, so the
/// two compose to the identity.
pub proof fn lemma_bits_round_trip(l: &Lua, x: Bits)
    requires
        l.cur_base() < l.stack@.len(),
        l.stack@.last() == Value::Number(x),
    ensures
        l.valid_pos(-1),
        Lua::number_bits(l.at(-1)) == x,
{
}

/// A registered type's lookup is determined by the registry cache alone:
/// two session states whose registry tables cache the same value under a
/// type's identity key agree on the looked-up identifier. Since
/// `user_type_of` leaves the registry cache unchanged, looking a registered
/// type up any number of times yields the same identifier.
pub proof fn lemma_user_type_lookup_determined(l1: &Lua, l2: &Lua, key: usize)
    requires
        l1.registry_entry(key) == l2.registry_entry(key),
    ensures
        l1.user_type_lookup(key) == l2.user_type_lookup(key),
{
}

/// After registration cached its identifier, the lookup finds exactly that
/// identifier: `register` ensures the registry caches the identifier's bits
/// under the type's identity key, and this lemma carries that cache to the
/// result `user_type_of` is bound to return.
pub proof fn lemma_registered_type_found(l: &Lua, key: usize, ty: Type)
    requires
        l.registry_entry(key) == Value::Number(ty.0 as u64),
        0 <= ty.0,
    ensures
        l.user_type_lookup(key) == Some(ty),
{
    assert(ty.0 as u64 <= 0x7fff_ffff);
}

/// The host-reported length of a pushed string is exactly the byte count it
/// was pushed with; in particular a string pushed from an empty byte
/// sequence reports length zero.
pub proof fn lemma_pushed_string_length(l: &Lua, id: usize, bytes: Seq<u8>)
    requires
        id < l.strings@.len(),
        l.strings@[id as int]@ == bytes,
    ensures
        l.obj_len_spec(Value::Str(id)) == bytes.len(),
{
}

} // verus!
