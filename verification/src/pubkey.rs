use vstd::prelude::*;

verus! {

/// The address of an account: 32 bytes.
#[derive(Clone, Copy, Debug)]
pub struct Pubkey {
    pub bytes: [u8; 32],
}

impl View for Pubkey {
    type V = Seq<u8>;

    open spec fn view(&self) -> Seq<u8> {
        self.bytes@
    }
}

/// The index of the first key of `keys` equal to `key`, or -1 when there is none.
pub open spec fn first_index(keys: Seq<Seq<u8>>, key: Seq<u8>) -> int {
    if exists|i: int| is_first_index(keys, key, i) {
        choose|i: int| is_first_index(keys, key, i)
    } else {
        -1
    }
}

/// `i` is the position of the first occurrence of `key` in `keys`.
pub open spec fn is_first_index(keys: Seq<Seq<u8>>, key: Seq<u8>, i: int) -> bool {
    &&& 0 <= i < keys.len()
    &&& keys[i] == key
    &&& forall|j: int| 0 <= j < i ==> keys[j] != key
}

/// The first occurrence of a key is unique, so `first_index` names it.
pub proof fn lemma_first_index_is(keys: Seq<Seq<u8>>, key: Seq<u8>, i: int)
    requires
        is_first_index(keys, key, i),
    ensures
        first_index(keys, key) == i,
{
    let c = choose|c: int| is_first_index(keys, key, c);
    assert(is_first_index(keys, key, c));
    if c < i {
        assert(keys[c] != key);
    } else if c > i {
        assert(keys[i] != key);
    }
}

/// A key that does not occur has no first index; one that occurs has one.
pub proof fn lemma_first_index_absent(keys: Seq<Seq<u8>>, key: Seq<u8>)
    ensures
        (forall|j: int| 0 <= j < keys.len() ==> keys[j] != key) <==> first_index(keys, key) == -1,
        first_index(keys, key) != -1 ==> is_first_index(keys, key, first_index(keys, key)),
{
    if exists|j: int| 0 <= j < keys.len() && keys[j] == key {
        let j = choose|j: int| 0 <= j < keys.len() && keys[j] == key;
        lemma_some_first_index(keys, key, j);
    }
}

proof fn lemma_some_first_index(keys: Seq<Seq<u8>>, key: Seq<u8>, j: int)
    requires
        0 <= j < keys.len(),
        keys[j] == key,
    ensures
        exists|i: int| is_first_index(keys, key, i),
    decreases j,
{
    if forall|k: int| 0 <= k < j ==> keys[k] != key {
        assert(is_first_index(keys, key, j));
    } else {
        let k = choose|k: int| 0 <= k < j && keys[k] == key;
        lemma_some_first_index(keys, key, k);
    }
}

impl Pubkey {
    /// The key with the given bytes.
    pub fn new_from_array(bytes: [u8; 32]) -> (k: Pubkey)
        ensures
            k@ == bytes@,
    {
        Pubkey { bytes }
    }

    /// The bytes of the key.
    pub fn to_bytes(&self) -> (b: [u8; 32])
        ensures
            b@ == self@,
    {
        self.bytes
    }

    /// The bytes of the key in a `Vec`, as a seed of a program address.
    pub fn to_vec(&self) -> (v: Vec<u8>)
        ensures
            v@ == self@,
    {
        let mut v: Vec<u8> = Vec::new();
        let mut i: usize = 0;
        while i < 32
            invariant
                0 <= i <= 32,
                self@.len() == 32,
                v@ == self@.take(i as int),
            decreases 32 - i,
        {
            v.push(self.bytes[i]);
            i = i + 1;
            assert(v@ =~= self@.take(i as int));
        }
        assert(self@.take(32) =~= self@);
        v
    }

    /// Whether the two keys hold the same bytes.
    pub fn key_eq(&self, other: &Pubkey) -> (b: bool)
        ensures
            b == (self@ == other@),
    {
        let mut i: usize = 0;
        while i < 32
            invariant
                0 <= i <= 32,
                self@.len() == 32,
                other@.len() == 32,
                forall|j: int| 0 <= j < i ==> self@[j] == other@[j],
            decreases 32 - i,
        {
            if self.bytes[i] != other.bytes[i] {
                return false;
            }
            i = i + 1;
        }
        assert(self@ =~= other@);
        true
    }
}

} // verus!
