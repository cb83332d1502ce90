//! The store: values under keys, and one key that cannot be written.

use vstd::prelude::*;
use vstd::slice::slice_to_vec;

verus! {

/// The key that says what the store is: `version`.
pub open spec fn version_key() -> Seq<u8> {
    seq![0x76u8, 0x65u8, 0x72u8, 0x73u8, 0x69u8, 0x6Fu8, 0x6Eu8]
}

/// What the store is: `KVStore 2.0`.
pub open spec fn version_value() -> Seq<u8> {
    seq![0x4Bu8, 0x56u8, 0x53u8, 0x74u8, 0x6Fu8, 0x72u8, 0x65u8, 0x20u8, 0x32u8, 0x2Eu8, 0x30u8]
}

/// Why a value is not stored.
#[derive(Clone, Copy, Debug, PartialEq, Eq, Structural)]
pub enum StoreError {
    /// The key is `version`.
    ReservedKey,
}

impl StoreError {
    /// The error in words.
    pub fn message(&self) -> (text: String)
        ensures
            text@ == "Key cannot be 'version'"@,
    {
        String::from_str("Key cannot be 'version'")
    }
}

struct Pair {
    key: Vec<u8>,
    value: Vec<u8>,
}

spec fn holds(pairs: Seq<Pair>, key: Seq<u8>) -> bool {
    exists|i: int| 0 <= i < pairs.len() && (#[trigger] pairs[i]).key@ == key
}

spec fn slot(pairs: Seq<Pair>, key: Seq<u8>) -> int {
    choose|i: int| 0 <= i < pairs.len() && (#[trigger] pairs[i]).key@ == key
}

spec fn distinct_keys(pairs: Seq<Pair>) -> bool {
    forall|i: int, j: int|
        0 <= i < pairs.len() && 0 <= j < pairs.len() && i != j ==> (#[trigger] pairs[i]).key@ != (
        #[trigger] pairs[j]).key@
}

spec fn as_map(pairs: Seq<Pair>) -> Map<Seq<u8>, Seq<u8>> {
    Map::new(|key: Seq<u8>| holds(pairs, key), |key: Seq<u8>| pairs[slot(pairs, key)].value@)
}

fn same_bytes(a: &[u8], b: &[u8]) -> (same: bool)
    ensures
        same == (a@ == b@),
{
    if a.len() != b.len() {
        return false;
    }
    let mut i: usize = 0;
    while i < a.len()
        invariant
            i <= a.len(),
            a.len() == b.len(),
            forall|j: int| 0 <= j < i ==> a@[j] == b@[j],
        decreases a.len() - i,
    {
        if a[i] != b[i] {
            return false;
        }
        i += 1;
    }
    assert(a@ =~= b@);
    true
}

fn version_key_bytes() -> (key: [u8; 7])
    ensures
        key@ == version_key(),
{
    let key = [0x76u8, 0x65u8, 0x72u8, 0x73u8, 0x69u8, 0x6Fu8, 0x6Eu8];
    assert(key@ =~= version_key());
    key
}

fn version_value_bytes() -> (value: [u8; 11])
    ensures
        value@ == version_value(),
{
    let value = [
        0x4Bu8,
        0x56u8,
        0x53u8,
        0x74u8,
        0x6Fu8,
        0x72u8,
        0x65u8,
        0x20u8,
        0x32u8,
        0x2Eu8,
        0x30u8,
    ];
    assert(value@ =~= version_value());
    value
}

/// Whether `key` is the key that cannot be written.
pub fn is_version_key(key: &[u8]) -> (yes: bool)
    ensures
        yes == (key@ == version_key()),
{
    let version = version_key_bytes();
    same_bytes(key, version.as_slice())
}

/// Values under keys. The key `version` is there from the start and keeps
/// its value.
pub struct KVStore {
    pairs: Vec<Pair>,
}

impl KVStore {
    /// The value under each key.
    pub closed spec fn view(&self) -> Map<Seq<u8>, Seq<u8>> {
        as_map(self.pairs@)
    }

    #[verifier::type_invariant]
    spec fn well_formed(&self) -> bool {
        distinct_keys(self.pairs@)
    }

    /// A store that holds nothing but its version.
    pub fn new() -> (store: Self)
        ensures
            store@ == Map::<Seq<u8>, Seq<u8>>::empty().insert(version_key(), version_value()),
    {
        let mut pairs: Vec<Pair> = Vec::new();
        let key = version_key_bytes();
        let value = version_value_bytes();
        pairs.push(Pair { key: slice_to_vec(key.as_slice()), value: slice_to_vec(value.as_slice()) });
        proof {
            assert(pairs@[0].key@ == version_key());
            assert(as_map(pairs@) =~= Map::<Seq<u8>, Seq<u8>>::empty().insert(
                version_key(),
                version_value(),
            ));
        }
        KVStore { pairs }
    }

    fn find(&self, key: &[u8]) -> (at: Option<usize>)
        ensures
            at is Some <==> holds(self.pairs@, key@),
            at matches Some(i) ==> i == slot(self.pairs@, key@) && i < self.pairs@.len(),
    {
        proof {
            use_type_invariant(self);
        }
        let mut i: usize = 0;
        while i < self.pairs.len()
            invariant
                i <= self.pairs.len(),
                distinct_keys(self.pairs@),
                forall|j: int| 0 <= j < i ==> (#[trigger] self.pairs@[j]).key@ != key@,
            decreases self.pairs.len() - i,
        {
            if same_bytes(self.pairs[i].key.as_slice(), key) {
                return Some(i);
            }
            i += 1;
        }
        None
    }

    /// Stores `value` under `key`, in place of what was there. The key
    /// `version` is refused and the store stays as it was.
    pub fn insert(&mut self, key: &[u8], value: &[u8]) -> (result: Result<(), StoreError>)
        ensures
            key@ == version_key() ==> result == Err::<(), StoreError>(StoreError::ReservedKey)
                && final(self)@ == old(self)@,
            key@ != version_key() ==> result is Ok && final(self)@ == old(self)@.insert(
                key@,
                value@,
            ),
    {
        if is_version_key(key) {
            return Err(StoreError::ReservedKey);
        }
        let at = self.find(key);
        proof {
            use_type_invariant(&*self);
        }
        let ghost before = self.pairs@;
        let mut pairs = Vec::new();
        core::mem::swap(&mut self.pairs, &mut pairs);
        let pair = Pair { key: slice_to_vec(key), value: slice_to_vec(value) };
        match at {
            Some(i) => {
                pairs.set(i, pair);
            },
            None => {
                pairs.push(pair);
            },
        }
        proof {
            let after = pairs@;
            let target = as_map(before).insert(key@, value@);
            assert(distinct_keys(after));
            assert forall|k: Seq<u8>| holds(after, k) <==> #[trigger] target.dom().contains(k) by {
                if holds(after, k) {
                    let i = slot(after, k);
                    if after[i].key@ != key@ {
                        assert(before[i].key@ == k);
                    }
                }
                if holds(before, k) {
                    let i = slot(before, k);
                    assert(after[i].key@ == k);
                }
                if k == key@ {
                    let i = if at is Some { at->0 as int } else { after.len() - 1 };
                    assert(after[i].key@ == k);
                }
            }
            assert forall|k: Seq<u8>| holds(after, k) implies after[slot(after, k)].value@
                == #[trigger] target[k] by {
                let i = slot(after, k);
                if k != key@ {
                    assert(before[i].key@ == k);
                    assert(slot(before, k) == i);
                } else {
                    let j = if at is Some { at->0 as int } else { after.len() - 1 };
                    assert(after[j].key@ == k);
                    assert(i == j);
                }
            }
            assert(as_map(after) =~= target);
        }
        self.pairs = pairs;
        Ok(())
    }

    /// The value under `key`, if there is one.
    pub fn get(&self, key: &[u8]) -> (value: Option<Vec<u8>>)
        ensures
            value is Some <==> self@.contains_key(key@),
            value matches Some(bytes) ==> bytes@ == self@[key@],
    {
        match self.find(key) {
            Some(i) => Some(slice_to_vec(self.pairs[i].value.as_slice())),
            None => None,
        }
    }
}

} // verus!
