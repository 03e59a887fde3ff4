//! Non-local host exits and the protected-call failure result.
//!
//! The host's error mechanism aborts the current native call without
//! returning normally. This model carries such an exit as an ordinary value
//! of type [`Exit`] that every fallible operation returns in its `Err` case;
//! a caller must treat it as terminal and hand it back unchanged, exactly as
//! native code must let the host's unwind pass through. Only a protected
//! call turns an exit into the recoverable [`CallError`] result, leaving the
//! error object on the stack.

use vstd::prelude::*;
use vstd::string::StringSliceAdditionalSpecFns;
use crate::types::Type;
use crate::value::Value;

verus! {

/// A non-local exit raised through the host's own error mechanism.
#[derive(Clone, Copy, PartialEq, Eq, Structural, Debug)]
pub enum Exit {
    /// A general error carrying an error object, as raised by `throw_error`
    /// or by the interpreter itself.
    Thrown(Value),
    /// An argument error naming the offending argument, as raised by
    /// `arg_error` and by the checked downcasts; the message is an interned
    /// string identifier.
    ArgError { arg: u32, msg: usize },
    /// A failed checked conversion or type test at a stack position.
    BadType { pos: i32, expected: Type },
}

/// Error result of a protected call: the called object raised a non-local
/// exit, which the protected call converted into this value, leaving the
/// error object on the stack.
#[derive(Clone, Copy, PartialEq, Eq, Structural, Debug, Default)]
pub struct CallError;

impl CallError {
    /// A short description of this error.
    pub fn message(&self) -> (r: &'static str) {
        "error encountered in protected call"
    }
}

/// The decimal digits of `n`, most significant first.
pub open spec fn dec_spec(n: nat) -> Seq<u8>
    decreases n,
{
    if n < 10 {
        seq![(48 + n) as u8]
    } else {
        dec_spec(n / 10).push((48 + n % 10) as u8)
    }
}

/// Append the decimal digits of `n` to `out`.
pub fn append_dec(out: &mut Vec<u8>, n: u32)
    ensures
        final(out)@ == old(out)@ + dec_spec(n as nat),
    decreases n,
{
    if n >= 10 {
        append_dec(out, n / 10);
    }
    out.push(48 + (n % 10) as u8);
    proof {
        if n >= 10 {
            assert(old(out)@ + dec_spec((n / 10) as nat).push((48 + n % 10) as u8) =~= old(
                out,
            )@ + dec_spec(n as nat));
        } else {
            assert(old(out)@.push((48 + n % 10) as u8) =~= old(out)@ + dec_spec(n as nat));
        }
    }
}

/// Append the decimal digits of `n`, with a leading minus sign when `n` is
/// negative, to `out`.
pub fn append_dec_signed(out: &mut Vec<u8>, n: i32)
    ensures
        final(out)@ == old(out)@ + dec_signed_spec(n as int),
{
    if n < 0 {
        out.push(45u8);
        let m: u32 = if n == i32::MIN {
            2147483648u32
        } else {
            (-n) as u32
        };
        assert(m == -(n as int));
        append_dec(out, m);
        proof {
            assert(old(out)@.push(45u8) + dec_spec((-(n as int)) as nat) =~= old(out)@
                + dec_signed_spec(n as int));
        }
    } else {
        append_dec(out, n as u32);
    }
}

/// The decimal rendering of `n`, with a leading minus sign when negative.
pub open spec fn dec_signed_spec(n: int) -> Seq<u8> {
    if n < 0 {
        seq![45u8] + dec_spec((-n) as nat)
    } else {
        dec_spec(n as nat)
    }
}

/// The error object an argument error renders to: the argument number and
/// the message, in the host's wording.
pub open spec fn arg_error_text(arg: nat, msg: Seq<u8>) -> Seq<u8> {
    "bad argument #".spec_bytes() + dec_spec(arg) + " (".spec_bytes() + msg + ")".spec_bytes()
}

/// The error object a failed checked conversion renders to: the position
/// and the expected type's tag.
pub open spec fn bad_type_text(pos: int, expected: int) -> Seq<u8> {
    "bad type at position ".spec_bytes() + dec_signed_spec(pos) + ", expected type ".spec_bytes()
        + dec_signed_spec(expected)
}

} // verus!
