use vstd::prelude::*;

use crate::word::Word;

verus! {

/// A persistent 256-bit value, bound to a slot identifier that is fixed
/// when the contract type is defined.
#[derive(Clone, Copy, Debug, PartialEq, Eq, Structural)]
pub struct StorageU256 {
    pub key: u64,
    pub value: Word,
}

impl StorageU256 {
    /// The same slot, holding `v`.
    pub open spec fn with_value(self, v: Word) -> StorageU256 {
        StorageU256 { key: self.key, value: v }
    }

    /// The slot after writing each of `vs` in turn.
    pub open spec fn after_writes(self, vs: Seq<Word>) -> StorageU256
        decreases vs.len(),
    {
        if vs.len() == 0 {
            self
        } else {
            self.with_value(vs[0]).after_writes(vs.drop_first())
        }
    }

    /// A fresh slot at `key`, holding zero.
    pub fn new(key: u64) -> (r: StorageU256)
        ensures
            r.key == key,
            r.value.value() == 0,
    {
        StorageU256 { key, value: Word::zero() }
    }

    pub fn get(&self) -> (r: Word)
        ensures
            r == self.value,
    {
        self.value
    }

    pub fn set(&mut self, v: Word)
        ensures
            *final(self) == old(self).with_value(v),
    {
        self.value = v;
    }
}

/// After any non-empty run of writes, a slot reads back the last value
/// written, and it stays bound to the same identifier.
pub proof fn lemma_last_write_wins(s: StorageU256, vs: Seq<Word>)
    requires
        vs.len() > 0,
    ensures
        s.after_writes(vs).value == vs.last(),
        s.after_writes(vs).key == s.key,
    decreases vs.len(),
{
    let rest = vs.drop_first();
    let t = s.with_value(vs[0]);
    assert(s.after_writes(vs) == t.after_writes(rest));
    if vs.len() > 1 {
        lemma_last_write_wins(t, rest);
        assert(rest.last() == vs.last());
    } else {
        assert(rest.len() == 0);
        assert(t.after_writes(rest) == t);
    }
}

} // verus!
