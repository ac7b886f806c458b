use stylus_contracts::counter::{Counter, COUNT_SELECTOR, INCREMENT_SELECTOR};
use stylus_contracts::dispatch::{selector_of, AbiType, InvocationError, Mutability};
use stylus_contracts::init_counter::{InitCounter, InitState};
use stylus_contracts::storage::{Storage, GET_SELECTOR, SET_SELECTOR};
use stylus_contracts::word::Word;
use stylus_sdk::alloy_primitives::U256;

fn word(x: u128) -> Word {
    Word::from_u128(x)
}

fn encoded(x: u128) -> Vec<u8> {
    let mut out = vec![0u8; 16];
    out.extend_from_slice(&x.to_be_bytes());
    out
}

#[test]
fn storage_reads_back_last_of_several_writes() {
    let mut s = Storage::new();
    assert_eq!(s.get(), word(0));
    for v in [7u128, 3, 42, 0, 99] {
        s.set(word(v));
    }
    assert_eq!(s.get(), word(99));
}

#[test]
fn storage_set_and_get_through_entrypoint() {
    let mut s = Storage::new();
    let out = s.invoke(&SET_SELECTOR.to_be_bytes(), &encoded(1234)).unwrap();
    assert!(out.is_empty());
    let out = s.invoke(&GET_SELECTOR.to_be_bytes(), &[]).unwrap();
    assert_eq!(out, encoded(1234));
    assert_eq!(s.get(), word(1234));
}

#[test]
fn storage_set_with_high_half() {
    let mut s = Storage::new();
    let mut args = vec![0u8; 32];
    args[0] = 0x80;
    args[31] = 1;
    s.invoke(&SET_SELECTOR.to_be_bytes(), &args).unwrap();
    assert_eq!(s.get(), Word { hi: 1u128 << 127, lo: 1 });
    assert_eq!(s.get().to_be_bytes(), args);
}

#[test]
fn counter_increments_by_one() {
    let mut c = Counter::new();
    assert_eq!(c.count(), word(0));
    c.increment();
    assert_eq!(c.count(), word(1));
    c.increment();
    assert_eq!(c.count(), word(2));
}

#[test]
fn counter_carries_into_high_half() {
    let mut c = Counter::new();
    c.count.value = Word { hi: 0, lo: u128::MAX };
    c.increment();
    assert_eq!(c.count(), Word { hi: 1, lo: 0 });
}

#[test]
fn counter_wraps_at_largest_word() {
    let mut c = Counter::new();
    c.count.value = Word { hi: u128::MAX, lo: u128::MAX };
    c.increment();
    assert_eq!(c.count(), word(0));
}

#[test]
fn counter_through_entrypoint() {
    let mut c = Counter::new();
    for _ in 0..3 {
        let out = c.invoke(&INCREMENT_SELECTOR.to_be_bytes(), &[]).unwrap();
        assert!(out.is_empty());
    }
    assert_eq!(c.invoke(&COUNT_SELECTOR.to_be_bytes(), &[]).unwrap(), encoded(3));
}

#[test]
fn init_counter_example_scenario() {
    let mut c = InitCounter::deploy();
    assert_eq!(c.constructor(word(5)), Ok(()));
    assert_eq!(c.count(), Ok(word(5)));
    for _ in 0..3 {
        assert_eq!(c.increment(), Ok(()));
    }
    assert_eq!(c.count(), Ok(word(8)));
}

#[test]
fn init_counter_constructor_runs_once() {
    let mut c = InitCounter::deploy();
    assert_eq!(c.constructor(word(5)), Ok(()));
    assert_eq!(c.constructor(word(9)), Err(InvocationError::AlreadyInitialized));
    assert_eq!(c.count(), Ok(word(5)));
    assert_eq!(c.state, InitState::Initialized);
}

#[test]
fn init_counter_refuses_methods_before_constructor() {
    let mut c = InitCounter::deploy();
    assert_eq!(c.count(), Err(InvocationError::NotInitialized));
    assert_eq!(c.increment(), Err(InvocationError::NotInitialized));
    let before = c;
    assert_eq!(
        c.invoke(&COUNT_SELECTOR.to_be_bytes(), &[]),
        Err(InvocationError::NotInitialized)
    );
    assert_eq!(
        c.invoke(&INCREMENT_SELECTOR.to_be_bytes(), &[]),
        Err(InvocationError::NotInitialized)
    );
    assert_eq!(c, before);
}

#[test]
fn init_counter_through_entrypoints() {
    let mut c = InitCounter::deploy();
    assert_eq!(c.invoke_constructor(&encoded(5)), Ok(()));
    assert_eq!(
        c.invoke_constructor(&encoded(6)),
        Err(InvocationError::AlreadyInitialized)
    );
    for _ in 0..3 {
        c.invoke(&INCREMENT_SELECTOR.to_be_bytes(), &[]).unwrap();
    }
    assert_eq!(c.invoke(&COUNT_SELECTOR.to_be_bytes(), &[]).unwrap(), encoded(8));
}

#[test]
fn init_counter_constructor_rejects_malformed_argument() {
    let mut c = InitCounter::deploy();
    assert_eq!(
        c.invoke_constructor(&[1, 2, 3]),
        Err(InvocationError::InvalidArguments)
    );
    assert_eq!(c.state, InitState::Uninitialized);
    assert_eq!(c.invoke_constructor(&encoded(2)), Ok(()));
    assert_eq!(c.count(), Ok(word(2)));
}

#[test]
fn unknown_selector_is_refused() {
    let mut s = Storage::new();
    assert_eq!(
        s.invoke(&[0xde, 0xad, 0xbe, 0xef], &[]),
        Err(InvocationError::UnknownMethod)
    );
    assert_eq!(s.invoke(&[0x6d, 0x4c, 0xe6], &[]), Err(InvocationError::UnknownMethod));
    let mut c = Counter::new();
    assert_eq!(
        c.invoke(&GET_SELECTOR.to_be_bytes(), &[]),
        Err(InvocationError::UnknownMethod)
    );
    let mut i = InitCounter::deploy();
    assert_eq!(
        i.invoke(&SET_SELECTOR.to_be_bytes(), &encoded(1)),
        Err(InvocationError::UnknownMethod)
    );
}

#[test]
fn malformed_set_leaves_storage_unchanged() {
    let mut s = Storage::new();
    s.set(word(17));
    let before = s;
    assert_eq!(
        s.invoke(&SET_SELECTOR.to_be_bytes(), &[0u8; 31]),
        Err(InvocationError::InvalidArguments)
    );
    assert_eq!(
        s.invoke(&SET_SELECTOR.to_be_bytes(), &[0u8; 33]),
        Err(InvocationError::InvalidArguments)
    );
    assert_eq!(s, before);
    assert_eq!(s.get(), word(17));
}

#[test]
fn failed_increment_leaves_counter_unchanged() {
    let mut c = Counter::new();
    c.increment();
    let before = c;
    assert_eq!(
        c.invoke(&INCREMENT_SELECTOR.to_be_bytes(), &[1]),
        Err(InvocationError::InvalidArguments)
    );
    assert_eq!(c, before);
    assert_eq!(c.count(), word(1));
}

#[test]
fn selector_reads_four_bytes_big_endian() {
    assert_eq!(selector_of(&[0x06, 0x66, 0x1a, 0xbd]), Some(0x06661abd));
    assert_eq!(selector_of(&[0x06, 0x66, 0x1a]), None);
    assert_eq!(selector_of(&[0x06, 0x66, 0x1a, 0xbd, 0]), None);
}

#[test]
fn word_bytes_round_trip() {
    let w = Word { hi: 0x0102_0304_0506_0708_090a_0b0c_0d0e_0f10, lo: 0xff };
    let b = w.to_be_bytes();
    assert_eq!(b.len(), 32);
    assert_eq!(b[0], 0x01);
    assert_eq!(b[15], 0x10);
    assert_eq!(b[31], 0xff);
    assert_eq!(Word::from_be_bytes(&b), Some(w));
    assert_eq!(Word::from_be_bytes(&b[1..]), None);
}

#[test]
fn abi_lists_methods() {
    let abi = Storage::abi();
    assert_eq!(abi.len(), 2);
    assert_eq!(abi[0].name, "get");
    assert_eq!(abi[0].mutability, Mutability::ReadOnly);
    assert_eq!(abi[1].name, "set");
    assert_eq!(abi[1].selector, SET_SELECTOR);
    assert_eq!(abi[1].params, vec![AbiType::Uint256]);
    let abi = Counter::abi();
    assert_eq!(abi[1].name, "increment");
    assert_eq!(abi[1].mutability, Mutability::Mutating);
    assert_eq!(InitCounter::abi()[0].selector, COUNT_SELECTOR);
    assert_eq!(InitCounter::constructor_params(), vec![AbiType::Uint256]);
}

#[test]
fn selectors_are_keccak_of_signatures() {
    let pairs = [
        ("count()", COUNT_SELECTOR),
        ("increment()", INCREMENT_SELECTOR),
        ("get()", GET_SELECTOR),
        ("set(uint256)", SET_SELECTOR),
    ];
    for (signature, selector) in pairs {
        let hash = stylus_sdk::crypto::keccak(signature.as_bytes());
        assert_eq!(hash[..4], selector.to_be_bytes());
    }
}

#[test]
fn increment_matches_host_arithmetic_at_the_top() {
    let top = U256::MAX;
    let wrapped = top + U256::from(1);
    assert_eq!(wrapped, U256::ZERO);
    let mut c = Counter::new();
    c.count.value = Word { hi: u128::MAX, lo: u128::MAX };
    c.increment();
    assert_eq!(c.count(), Word { hi: 0, lo: 0 });
}
