use vstd::prelude::*;

use crate::counter::{COUNT_SELECTOR, COUNT_SLOT, INCREMENT_SELECTOR};
use crate::dispatch::{
    decode_no_args, decode_word_arg, encodes_word, selector_of, selector_spec, AbiType,
    InvocationError, MethodDescriptor, Mutability,
};
use crate::slot::StorageU256;
use crate::word::{be_value, word_base, Word, WORD_BYTES};

verus! {

/// Whether the constructor has run.
#[derive(Clone, Copy, Debug, PartialEq, Eq, Structural)]
pub enum InitState {
    Uninitialized,
    Initialized,
}

/// A counter whose starting value is set once, by its constructor. No other
/// method runs before the constructor has.
#[derive(Clone, Copy, Debug, PartialEq, Eq, Structural)]
pub struct InitCounter {
    pub count: StorageU256,
    pub state: InitState,
}

impl InitCounter {
    pub open spec fn well_formed(self) -> bool {
        self.count.key == COUNT_SLOT
    }

    /// The contract after its constructor is invoked with `v`.
    pub open spec fn constructed(self, v: Word) -> InitCounter {
        match self.state {
            InitState::Uninitialized => InitCounter {
                count: self.count.with_value(v),
                state: InitState::Initialized,
            },
            InitState::Initialized => self,
        }
    }

    /// What invoking the constructor returns.
    pub open spec fn constructor_outcome(self) -> Result<(), InvocationError> {
        match self.state {
            InitState::Uninitialized => Ok(()),
            InitState::Initialized => Err(InvocationError::AlreadyInitialized),
        }
    }

    /// A freshly deployed contract, waiting for its constructor.
    pub fn deploy() -> (r: InitCounter)
        ensures
            r.well_formed(),
            r.state == InitState::Uninitialized,
            r.count.value.value() == 0,
    {
        InitCounter { count: StorageU256::new(COUNT_SLOT), state: InitState::Uninitialized }
    }

    /// Sets the starting count; runs at most once.
    pub fn constructor(&mut self, initial_value: Word) -> (r: Result<(), InvocationError>)
        ensures
            *final(self) == old(self).constructed(initial_value),
            r == old(self).constructor_outcome(),
    {
        match self.state {
            InitState::Initialized => Err(InvocationError::AlreadyInitialized),
            InitState::Uninitialized => {
                self.count.set(initial_value);
                self.state = InitState::Initialized;
                Ok(())
            },
        }
    }

    pub fn count(&self) -> (r: Result<Word, InvocationError>)
        ensures
            self.state == InitState::Uninitialized ==> r == Err::<Word, InvocationError>(
                InvocationError::NotInitialized,
            ),
            self.state == InitState::Initialized ==> r == Ok::<Word, InvocationError>(
                self.count.value,
            ),
    {
        match self.state {
            InitState::Uninitialized => Err(InvocationError::NotInitialized),
            InitState::Initialized => Ok(self.count.get()),
        }
    }

    pub fn increment(&mut self) -> (r: Result<(), InvocationError>)
        ensures
            old(self).state == InitState::Uninitialized ==> {
                &&& r == Err::<(), InvocationError>(InvocationError::NotInitialized)
                &&& *final(self) == *old(self)
            },
            old(self).state == InitState::Initialized ==> {
                &&& r is Ok
                &&& final(self).state == InitState::Initialized
                &&& final(self).count.key == old(self).count.key
                &&& final(self).count.value.value() == (old(self).count.value.value() + 1)
                    % word_base()
            },
    {
        match self.state {
            InitState::Uninitialized => Err(InvocationError::NotInitialized),
            InitState::Initialized => {
                let c = self.count.get();
                self.count.set(c.wrapping_inc());
                Ok(())
            },
        }
    }

    /// The deployment entry: runs the constructor on its encoded argument.
    pub fn invoke_constructor(&mut self, args: &[u8]) -> (r: Result<(), InvocationError>)
        ensures
            r is Err ==> *final(self) == *old(self),
            old(self).state == InitState::Initialized ==> r == Err::<(), InvocationError>(
                InvocationError::AlreadyInitialized,
            ),
            old(self).state == InitState::Uninitialized ==> if args@.len() == WORD_BYTES {
                &&& r is Ok
                &&& final(self).state == InitState::Initialized
                &&& final(self).count.key == old(self).count.key
                &&& final(self).count.value.value() == be_value(args@)
            } else {
                r == Err::<(), InvocationError>(InvocationError::InvalidArguments)
            },
    {
        if let InitState::Initialized = self.state {
            return Err(InvocationError::AlreadyInitialized);
        }
        match decode_word_arg(args) {
            Ok(w) => self.constructor(w),
            Err(e) => Err(e),
        }
    }

    /// The methods that callers can invoke once the constructor has run.
    pub fn abi() -> (r: Vec<MethodDescriptor>)
        ensures
            r@.len() == 2,
            r@[0].name@ == "count"@,
            r@[0].selector == COUNT_SELECTOR,
            r@[0].mutability == Mutability::ReadOnly,
            r@[0].params@.len() == 0,
            r@[0].returns == Some(AbiType::Uint256),
            r@[1].name@ == "increment"@,
            r@[1].selector == INCREMENT_SELECTOR,
            r@[1].mutability == Mutability::Mutating,
            r@[1].params@.len() == 0,
            r@[1].returns == None::<AbiType>,
    {
        crate::counter::Counter::abi()
    }

    /// The constructor's parameters: one 256-bit starting value.
    pub fn constructor_params() -> (r: Vec<AbiType>)
        ensures
            r@ == seq![AbiType::Uint256],
    {
        let mut r: Vec<AbiType> = Vec::new();
        r.push(AbiType::Uint256);
        proof {
            assert(r@ =~= seq![AbiType::Uint256]);
        }
        r
    }

    /// The entrypoint: runs the method that `selector` names on the
    /// encoded `args`, and returns its encoded result.
    pub fn invoke(&mut self, selector: &[u8], args: &[u8]) -> (r: Result<Vec<u8>, InvocationError>)
        ensures
            r is Err ==> *final(self) == *old(self),
            final(self).state == old(self).state,
            selector_spec(selector@) != Some(COUNT_SELECTOR as nat) && selector_spec(selector@)
                != Some(INCREMENT_SELECTOR as nat) ==> r == Err::<Vec<u8>, InvocationError>(
                InvocationError::UnknownMethod,
            ),
            old(self).state == InitState::Uninitialized && (selector_spec(selector@) == Some(
                COUNT_SELECTOR as nat,
            ) || selector_spec(selector@) == Some(INCREMENT_SELECTOR as nat)) ==> r == Err::<
                Vec<u8>,
                InvocationError,
            >(InvocationError::NotInitialized),
            old(self).state == InitState::Initialized && selector_spec(selector@) == Some(
                COUNT_SELECTOR as nat,
            ) ==> if args@.len() == 0 {
                &&& *final(self) == *old(self)
                &&& r matches Ok(out) && encodes_word(out@, old(self).count.value)
            } else {
                r == Err::<Vec<u8>, InvocationError>(InvocationError::InvalidArguments)
            },
            old(self).state == InitState::Initialized && selector_spec(selector@) == Some(
                INCREMENT_SELECTOR as nat,
            ) ==> if args@.len() == 0 {
                &&& r matches Ok(out) && out@.len() == 0
                &&& final(self).count.key == old(self).count.key
                &&& final(self).count.value.value() == (old(self).count.value.value() + 1)
                    % word_base()
            } else {
                r == Err::<Vec<u8>, InvocationError>(InvocationError::InvalidArguments)
            },
    {
        let s = match selector_of(selector) {
            Some(s) => s,
            None => return Err(InvocationError::UnknownMethod),
        };
        if s != COUNT_SELECTOR && s != INCREMENT_SELECTOR {
            return Err(InvocationError::UnknownMethod);
        }
        if let InitState::Uninitialized = self.state {
            return Err(InvocationError::NotInitialized);
        }
        if let Err(e) = decode_no_args(args) {
            return Err(e);
        }
        if s == COUNT_SELECTOR {
            match self.count() {
                Ok(c) => Ok(c.to_be_bytes()),
                Err(e) => Err(e),
            }
        } else {
            match self.increment() {
                Ok(()) => Ok(Vec::new()),
                Err(e) => Err(e),
            }
        }
    }
}

/// On a contract that is not yet initialized, the constructor sets the count
/// to its argument and initializes it; a second constructor call then fails
/// with `AlreadyInitialized` and changes nothing.
pub proof fn lemma_constructor_runs_once(c: InitCounter, v: Word, w: Word)
    requires
        c.state == InitState::Uninitialized,
    ensures
        c.constructor_outcome() is Ok,
        c.constructed(v).state == InitState::Initialized,
        c.constructed(v).count.value == v,
        c.constructed(v).count.key == c.count.key,
        c.constructed(v).constructor_outcome() == Err::<(), InvocationError>(
            InvocationError::AlreadyInitialized,
        ),
        c.constructed(v).constructed(w) == c.constructed(v),
{
}

} // verus!
