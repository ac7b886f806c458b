use vstd::prelude::*;

use crate::word::{be_value, lemma_be_value_bound, lemma_pow256_mono, pow256, Word, WORD_BYTES};

verus! {

/// Why an invocation failed. Every failure aborts the invocation and leaves
/// the contract's storage as it was.
#[derive(Clone, Copy, Debug, PartialEq, Eq, Structural)]
pub enum InvocationError {
    UnknownMethod,
    InvalidArguments,
    NotInitialized,
    AlreadyInitialized,
}

/// Whether a method may write storage.
#[derive(Clone, Copy, Debug, PartialEq, Eq, Structural)]
pub enum Mutability {
    ReadOnly,
    Mutating,
}

/// The value types that cross the contract boundary.
#[derive(Clone, Copy, Debug, PartialEq, Eq, Structural)]
pub enum AbiType {
    Uint256,
}

/// An externally visible method: its name, selector, mutability and types.
#[derive(Clone, Debug)]
pub struct MethodDescriptor {
    pub name: &'static str,
    pub selector: u32,
    pub mutability: Mutability,
    pub params: Vec<AbiType>,
    pub returns: Option<AbiType>,
}

/// The number of bytes in a selector.
pub const SELECTOR_BYTES: usize = 4;

/// The selector that a byte string names, if it is one.
pub open spec fn selector_spec(sel: Seq<u8>) -> Option<nat> {
    if sel.len() == SELECTOR_BYTES {
        Some(be_value(sel))
    } else {
        None
    }
}

/// `out` is the encoding of a single 256-bit return value `w`.
pub open spec fn encodes_word(out: Seq<u8>, w: Word) -> bool {
    out.len() == WORD_BYTES && be_value(out) == w.value()
}

/// Reads a selector: exactly four bytes, most significant first.
pub fn selector_of(sel: &[u8]) -> (r: Option<u32>)
    ensures
        r is Some <==> selector_spec(sel@) is Some,
        r matches Some(x) ==> selector_spec(sel@) == Some(x as nat),
{
    if sel.len() != SELECTOR_BYTES {
        return None;
    }
    let mut acc: u32 = 0;
    let mut i: usize = 0;
    while i < SELECTOR_BYTES
        invariant
            sel@.len() == SELECTOR_BYTES,
            i <= SELECTOR_BYTES,
            acc as nat == be_value(sel@.subrange(0, i as int)),
        decreases SELECTOR_BYTES - i,
    {
        let ghost next = sel@.subrange(0, i + 1);
        proof {
            assert(next.drop_last() =~= sel@.subrange(0, i as int));
            assert(next.last() == sel@[i as int]);
            assert(next.len() == i + 1);
            lemma_be_value_bound(next);
            lemma_pow256_mono((i + 1) as nat, 4);
            reveal_with_fuel(pow256, 5);
            assert(acc as nat * 256 + sel@[i as int] as nat <= u32::MAX);
        }
        acc = acc * 256 + sel[i] as u32;
        i = i + 1;
    }
    assert(sel@.subrange(0, 4) =~= sel@);
    Some(acc)
}

/// Reads the arguments of a method that takes no parameters.
pub fn decode_no_args(args: &[u8]) -> (r: Result<(), InvocationError>)
    ensures
        r is Ok <==> args@.len() == 0,
        r is Err ==> r == Err::<(), InvocationError>(InvocationError::InvalidArguments),
{
    if args.len() == 0 {
        Ok(())
    } else {
        Err(InvocationError::InvalidArguments)
    }
}

/// Reads the arguments of a method that takes one 256-bit parameter.
pub fn decode_word_arg(args: &[u8]) -> (r: Result<Word, InvocationError>)
    ensures
        r is Ok <==> args@.len() == WORD_BYTES,
        r matches Ok(w) ==> w.value() == be_value(args@),
        r is Err ==> r == Err::<Word, InvocationError>(InvocationError::InvalidArguments),
{
    match Word::from_be_bytes(args) {
        Some(w) => Ok(w),
        None => Err(InvocationError::InvalidArguments),
    }
}

} // verus!
