//! Records addressed by the fields that identify them, with create-once and
//! overwrite operations.

use vstd::prelude::*;

verus! {

/// The identifying fields a record's address is derived from: an agent id, a
/// 32-byte key (a client, a request hash or a metadata key hash) and a number
/// (a feedback index, or 0 where the record kind has none).
#[derive(Clone, Copy, Debug)]
pub struct RecordKey {
    pub agent: u64,
    pub key: [u8; 32],
    pub n: u64,
}

/// What a record's address stands for.
pub type Address = (u64, Seq<u8>, u64);

impl View for RecordKey {
    type V = Address;

    open spec fn view(&self) -> Address {
        (self.agent, self.key@, self.n)
    }
}

impl RecordKey {
    pub fn new(agent: u64, key: [u8; 32], n: u64) -> (r: RecordKey)
        ensures
            r@ == (agent, key@, n),
    {
        RecordKey { agent, key, n }
    }

    fn same(&self, other: &RecordKey) -> (r: bool)
        ensures
            r == (self@ == other@),
    {
        self.agent == other.agent && self.n == other.n && crate::util::bytes32_eq(
            &self.key,
            &other.key,
        )
    }
}

/// A map from addresses to records of one kind.
pub struct Table<V> {
    keys: Vec<RecordKey>,
    vals: Vec<V>,
}

impl<V> Table<V> {
    /// Keys and records pair up, and no address occurs twice.
    pub closed spec fn wf(&self) -> bool {
        &&& self.keys@.len() == self.vals@.len()
        &&& forall|i: int, j: int|
            0 <= i < j < self.keys@.len() ==> #[trigger] self.keys@[i]@ != #[trigger] self.keys@[j]@
    }

    pub closed spec fn view(&self) -> Map<Address, V> {
        Map::new(
            |a: Address| exists|i: int| 0 <= i < self.keys@.len() && #[trigger] self.keys@[i]@ == a,
            |a: Address|
                self.vals@[choose|i: int| 0 <= i < self.keys@.len() && #[trigger] self.keys@[i]@ == a],
        )
    }

    proof fn lemma_at(&self, i: int)
        requires
            self.wf(),
            0 <= i < self.keys@.len(),
        ensures
            self.view().contains_key(self.keys@[i]@),
            self.view()[self.keys@[i]@] == self.vals@[i],
    {
        let a = self.keys@[i]@;
        assert(self.view().contains_key(a));
        let j = choose|j: int| 0 <= j < self.keys@.len() && #[trigger] self.keys@[j]@ == a;
        if j < i {
            assert(self.keys@[j]@ != self.keys@[i]@);
        } else if i < j {
            assert(self.keys@[i]@ != self.keys@[j]@);
        }
    }

    pub fn new() -> (r: Table<V>)
        ensures
            r.wf(),
            r.view() == Map::<Address, V>::empty(),
    {
        let r = Table { keys: Vec::new(), vals: Vec::new() };
        assert(r.view() =~= Map::<Address, V>::empty());
        r
    }

    /// The position of the record at `k`, if there is one.
    fn find(&self, k: &RecordKey) -> (r: Option<usize>)
        requires
            self.wf(),
        ensures
            r is None <==> !self.view().contains_key(k@),
            r matches Some(i) ==> i < self.keys@.len() && self.keys@[i as int]@ == k@,
    {
        let n = self.keys.len();
        let mut i: usize = 0;
        while i < n
            invariant
                n == self.keys@.len(),
                i <= n,
                forall|j: int| 0 <= j < i ==> #[trigger] self.keys@[j]@ != k@,
            decreases n - i,
        {
            if self.keys[i].same(k) {
                return Some(i);
            }
            i = i + 1;
        }
        None
    }

    /// The record at `k`, if there is one.
    pub fn get(&self, k: &RecordKey) -> (r: Option<&V>)
        requires
            self.wf(),
        ensures
            r is None <==> !self.view().contains_key(k@),
            r matches Some(v) ==> *v == self.view()[k@],
    {
        match self.find(k) {
            None => None,
            Some(i) => {
                proof {
                    self.lemma_at(i as int);
                }
                Some(&self.vals[i])
            },
        }
    }

    /// Creates the record at `k`, which must be free.
    pub(crate) fn insert_new(&mut self, k: RecordKey, v: V)
        requires
            old(self).wf(),
            !old(self).view().contains_key(k@),
        ensures
            final(self).wf(),
            final(self).view() == old(self).view().insert(k@, v),
    {
        let ghost old_keys = self.keys@;
        let ghost old_vals = self.vals@;
        self.keys.push(k);
        self.vals.push(v);
        let ghost n = old_keys.len() as int;
        assert forall|i: int| 0 <= i < n implies #[trigger] old_keys[i]@ != k@ by {
            if old_keys[i]@ == k@ {
                assert(old(self).view().contains_key(k@));
            }
        }
        assert(self.wf());
        assert forall|a: Address| #[trigger]
            self.view().contains_key(a) == old(self).view().insert(k@, v).contains_key(a) by {
            if old(self).view().contains_key(a) {
                let j = choose|j: int| 0 <= j < n && #[trigger] old_keys[j]@ == a;
                assert(self.keys@[j]@ == a);
            }
            if self.view().contains_key(a) && a != k@ {
                let j = choose|j: int| 0 <= j < n + 1 && #[trigger] self.keys@[j]@ == a;
                assert(old_keys[j]@ == a);
            }
            if a == k@ {
                assert(self.keys@[n]@ == a);
            }
        }
        assert forall|a: Address| #[trigger] self.view().contains_key(a) implies self.view()[a]
            == old(self).view().insert(k@, v)[a] by {
            let j = choose|j: int| 0 <= j < n + 1 && #[trigger] self.keys@[j]@ == a;
            self.lemma_at(j);
            if j < n {
                old(self).lemma_at(j);
            }
        }
        assert(self.view() =~= old(self).view().insert(k@, v));
    }

    /// Replaces the record at `k`, or creates it if the address is free.
    pub(crate) fn upsert(&mut self, k: RecordKey, v: V)
        requires
            old(self).wf(),
        ensures
            final(self).wf(),
            final(self).view() == old(self).view().insert(k@, v),
    {
        match self.find(&k) {
            None => self.insert_new(k, v),
            Some(i) => {
                let ghost n = self.keys@.len() as int;
                self.vals[i] = v;
                assert(self.wf());
                assert forall|a: Address| #[trigger]
                    self.view().contains_key(a) == old(self).view().insert(k@, v).contains_key(a) by {
                    if old(self).view().contains_key(a) {
                        let j = choose|j: int| 0 <= j < n && #[trigger] self.keys@[j]@ == a;
                        assert(self.keys@[j]@ == a);
                    }
                    if a == k@ {
                        assert(self.keys@[i as int]@ == a);
                    }
                }
                assert forall|a: Address| #[trigger] self.view().contains_key(a) implies self.view()[a]
                    == old(self).view().insert(k@, v)[a] by {
                    let j = choose|j: int| 0 <= j < n && #[trigger] self.keys@[j]@ == a;
                    self.lemma_at(j);
                    old(self).lemma_at(j);
                }
                assert(self.view() =~= old(self).view().insert(k@, v));
            },
        }
    }
}

} // verus!
