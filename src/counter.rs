use vstd::prelude::*;

use crate::dispatch::{
    decode_no_args, encodes_word, selector_of, selector_spec, AbiType, InvocationError,
    MethodDescriptor, Mutability,
};
use crate::slot::StorageU256;
use crate::word::{word_base, Word};

verus! {

/// Selector of `count()`.
pub const COUNT_SELECTOR: u32 = 0x06661abd;

/// Selector of `increment()`.
pub const INCREMENT_SELECTOR: u32 = 0xd09de08a;

/// Identifier of the slot that holds the count.
pub const COUNT_SLOT: u64 = 0;

/// A counter that starts at zero and wraps to zero past the largest word.
#[derive(Clone, Copy, Debug, PartialEq, Eq, Structural)]
pub struct Counter {
    pub count: StorageU256,
}

impl Counter {
    pub open spec fn well_formed(self) -> bool {
        self.count.key == COUNT_SLOT
    }

    /// A freshly deployed counter, holding zero.
    pub fn new() -> (r: Counter)
        ensures
            r.well_formed(),
            r.count.value.value() == 0,
    {
        Counter { count: StorageU256::new(COUNT_SLOT) }
    }

    pub fn count(&self) -> (r: Word)
        ensures
            r == self.count.value,
    {
        self.count.get()
    }

    pub fn increment(&mut self)
        ensures
            final(self).count.key == old(self).count.key,
            final(self).count.value.value() == (old(self).count.value.value() + 1) % word_base(),
    {
        let c = self.count.get();
        self.count.set(c.wrapping_inc());
    }

    /// The methods that callers can invoke.
    pub fn abi() -> (r: Vec<MethodDescriptor>)
        ensures
            r@.len() == 2,
            r@[0].name@ == "count"@,
            r@[0].selector == COUNT_SELECTOR,
            r@[0].mutability == Mutability::ReadOnly,
            r@[0].params@.len() == 0,
            r@[0].returns == Some(AbiType::Uint256),
            r@[1].name@ == "increment"@,
            r@[1].selector == INCREMENT_SELECTOR,
            r@[1].mutability == Mutability::Mutating,
            r@[1].params@.len() == 0,
            r@[1].returns == None::<AbiType>,
    {
        let mut r: Vec<MethodDescriptor> = Vec::new();
        r.push(MethodDescriptor {
            name: "count",
            selector: COUNT_SELECTOR,
            mutability: Mutability::ReadOnly,
            params: Vec::new(),
            returns: Some(AbiType::Uint256),
        });
        r.push(MethodDescriptor {
            name: "increment",
            selector: INCREMENT_SELECTOR,
            mutability: Mutability::Mutating,
            params: Vec::new(),
            returns: None,
        });
        proof {
            reveal_strlit("count");
            reveal_strlit("increment");
        }
        r
    }

    /// The entrypoint: runs the method that `selector` names on the
    /// encoded `args`, and returns its encoded result.
    pub fn invoke(&mut self, selector: &[u8], args: &[u8]) -> (r: Result<Vec<u8>, InvocationError>)
        ensures
            r is Err ==> *final(self) == *old(self),
            selector_spec(selector@) == Some(COUNT_SELECTOR as nat) ==> if args@.len() == 0 {
                &&& *final(self) == *old(self)
                &&& r matches Ok(out) && encodes_word(out@, old(self).count.value)
            } else {
                r == Err::<Vec<u8>, InvocationError>(InvocationError::InvalidArguments)
            },
            selector_spec(selector@) == Some(INCREMENT_SELECTOR as nat) ==> if args@.len() == 0 {
                &&& r matches Ok(out) && out@.len() == 0
                &&& final(self).count.key == old(self).count.key
                &&& final(self).count.value.value() == (old(self).count.value.value() + 1)
                    % word_base()
            } else {
                r == Err::<Vec<u8>, InvocationError>(InvocationError::InvalidArguments)
            },
            selector_spec(selector@) != Some(COUNT_SELECTOR as nat) && selector_spec(selector@)
                != Some(INCREMENT_SELECTOR as nat) ==> r == Err::<Vec<u8>, InvocationError>(
                InvocationError::UnknownMethod,
            ),
    {
        let s = match selector_of(selector) {
            Some(s) => s,
            None => return Err(InvocationError::UnknownMethod),
        };
        if s == COUNT_SELECTOR {
            match decode_no_args(args) {
                Ok(()) => Ok(self.count().to_be_bytes()),
                Err(e) => Err(e),
            }
        } else if s == INCREMENT_SELECTOR {
            match decode_no_args(args) {
                Ok(()) => {
                    self.increment();
                    Ok(Vec::new())
                },
                Err(e) => Err(e),
            }
        } else {
            Err(InvocationError::UnknownMethod)
        }
    }
}

} // verus!
