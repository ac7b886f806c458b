use vstd::prelude::*;

use crate::dispatch::{
    decode_no_args, decode_word_arg, encodes_word, selector_of, selector_spec, AbiType,
    InvocationError, MethodDescriptor, Mutability,
};
use crate::slot::StorageU256;
use crate::word::{be_value, Word, WORD_BYTES};

verus! {

/// Selector of `get()`.
pub const GET_SELECTOR: u32 = 0x6d4ce63c;

/// Selector of `set(uint256)`.
pub const SET_SELECTOR: u32 = 0x60fe47b1;

/// Identifier of the slot that holds the stored value.
pub const VALUE_SLOT: u64 = 0;

/// A contract that holds one 256-bit value, read by `get` and written by `set`.
#[derive(Clone, Copy, Debug, PartialEq, Eq, Structural)]
pub struct Storage {
    pub value: StorageU256,
}

impl Storage {
    pub open spec fn well_formed(self) -> bool {
        self.value.key == VALUE_SLOT
    }

    /// A freshly deployed contract, holding zero.
    pub fn new() -> (r: Storage)
        ensures
            r.well_formed(),
            r.value.value.value() == 0,
    {
        Storage { value: StorageU256::new(VALUE_SLOT) }
    }

    pub fn get(&self) -> (r: Word)
        ensures
            r == self.value.value,
    {
        self.value.get()
    }

    pub fn set(&mut self, new_value: Word)
        ensures
            final(self).value == old(self).value.with_value(new_value),
    {
        self.value.set(new_value);
    }

    /// The methods that callers can invoke.
    pub fn abi() -> (r: Vec<MethodDescriptor>)
        ensures
            r@.len() == 2,
            r@[0].name@ == "get"@,
            r@[0].selector == GET_SELECTOR,
            r@[0].mutability == Mutability::ReadOnly,
            r@[0].params@.len() == 0,
            r@[0].returns == Some(AbiType::Uint256),
            r@[1].name@ == "set"@,
            r@[1].selector == SET_SELECTOR,
            r@[1].mutability == Mutability::Mutating,
            r@[1].params@ == seq![AbiType::Uint256],
            r@[1].returns == None::<AbiType>,
    {
        let mut r: Vec<MethodDescriptor> = Vec::new();
        r.push(MethodDescriptor {
            name: "get",
            selector: GET_SELECTOR,
            mutability: Mutability::ReadOnly,
            params: Vec::new(),
            returns: Some(AbiType::Uint256),
        });
        let mut params: Vec<AbiType> = Vec::new();
        params.push(AbiType::Uint256);
        r.push(MethodDescriptor {
            name: "set",
            selector: SET_SELECTOR,
            mutability: Mutability::Mutating,
            params,
            returns: None,
        });
        proof {
            reveal_strlit("get");
            reveal_strlit("set");
            assert(r@[1].params@ =~= seq![AbiType::Uint256]);
        }
        r
    }

    /// The entrypoint: runs the method that `selector` names on the
    /// encoded `args`, and returns its encoded result.
    pub fn invoke(&mut self, selector: &[u8], args: &[u8]) -> (r: Result<Vec<u8>, InvocationError>)
        ensures
            r is Err ==> *final(self) == *old(self),
            selector_spec(selector@) == Some(GET_SELECTOR as nat) ==> if args@.len() == 0 {
                &&& *final(self) == *old(self)
                &&& r matches Ok(out) && encodes_word(out@, old(self).value.value)
            } else {
                r == Err::<Vec<u8>, InvocationError>(InvocationError::InvalidArguments)
            },
            selector_spec(selector@) == Some(SET_SELECTOR as nat) ==> if args@.len()
                == WORD_BYTES {
                &&& r matches Ok(out) && out@.len() == 0
                &&& final(self).value.key == old(self).value.key
                &&& final(self).value.value.value() == be_value(args@)
            } else {
                r == Err::<Vec<u8>, InvocationError>(InvocationError::InvalidArguments)
            },
            selector_spec(selector@) != Some(GET_SELECTOR as nat) && selector_spec(selector@)
                != Some(SET_SELECTOR as nat) ==> r == Err::<Vec<u8>, InvocationError>(
                InvocationError::UnknownMethod,
            ),
    {
        let s = match selector_of(selector) {
            Some(s) => s,
            None => return Err(InvocationError::UnknownMethod),
        };
        if s == GET_SELECTOR {
            match decode_no_args(args) {
                Ok(()) => Ok(self.get().to_be_bytes()),
                Err(e) => Err(e),
            }
        } else if s == SET_SELECTOR {
            match decode_word_arg(args) {
                Ok(w) => {
                    self.set(w);
                    Ok(Vec::new())
                },
                Err(e) => Err(e),
            }
        } else {
            Err(InvocationError::UnknownMethod)
        }
    }
}

} // verus!
