//! State-change records of a transaction and the counts that data availability is billed on.

use vstd::prelude::*;

verus! {

/// A field element, as its high and low 128 bits.
#[derive(Clone, Copy, Debug, PartialEq, Eq, Hash, Structural)]
pub struct Felt {
    pub high: u128,
    pub low: u128,
}

/// A contract address.
pub type ContractAddress = Felt;

/// One storage cell: a contract and a key in its storage.
#[derive(Clone, Copy, Debug, PartialEq, Eq, Hash, Structural)]
pub struct StorageEntry {
    pub address: ContractAddress,
    pub key: Felt,
}

/// The keys changed by a transaction, per category, each key once.
#[derive(Debug)]
pub struct StateChanges {
    pub storage_updates: Vec<StorageEntry>,
    pub nonce_updates: Vec<ContractAddress>,
    pub class_hash_updates: Vec<ContractAddress>,
    pub compiled_class_hash_updates: Vec<Felt>,
}

/// Counts of state changes that data availability is billed on.
#[derive(Clone, Copy, Debug, Default, PartialEq, Eq, Structural)]
pub struct StateChangesCount {
    pub n_storage_updates: u64,
    pub n_class_hash_updates: u64,
    pub n_compiled_class_hash_updates: u64,
    pub n_modified_contracts: u64,
}

/// No element of `a` is in `b`.
pub open spec fn disjoint_seqs<T>(a: Seq<T>, b: Seq<T>) -> bool {
    forall|i: int| 0 <= i < a.len() ==> !b.contains(#[trigger] a[i])
}

pub proof fn lemma_push_contains<T>(s: Seq<T>, x: T)
    ensures
        forall|y: T| #[trigger] s.push(x).contains(y) <==> (s.contains(y) || y == x),
        s.push(x).to_set() == s.to_set().insert(x),
{
    assert forall|y: T| #[trigger] s.push(x).contains(y) <==> (s.contains(y) || y == x) by {
        if s.push(x).contains(y) {
            let j = choose|j: int| 0 <= j < s.len() + 1 && s.push(x)[j] == y;
            if j < s.len() {
                assert(s[j] == y);
            }
        }
        if s.contains(y) {
            let j = choose|j: int| 0 <= j < s.len() && s[j] == y;
            assert(s.push(x)[j] == y);
        }
        if y == x {
            assert(s.push(x)[s.len() as int] == y);
        }
    }
    assert(s.push(x).to_set() =~= s.to_set().insert(x));
}

/// `a` followed by the elements of `b` that are not in `a`.
fn union_felts(a: &Vec<Felt>, b: &Vec<Felt>) -> (r: Vec<Felt>)
    requires
        a@.no_duplicates(),
        b@.no_duplicates(),
    ensures
        r@.no_duplicates(),
        forall|x: Felt| r@.contains(x) <==> (a@.contains(x) || b@.contains(x)),
        disjoint_seqs(b@, a@) ==> r@ == a@ + b@,
{
    let mut r: Vec<Felt> = a.clone();
    let mut i: usize = 0;
    assert(r@ =~= a@ + b@.take(0));
    while i < b.len()
        invariant
            i <= b.len(),
            a@.no_duplicates(),
            b@.no_duplicates(),
            r@.no_duplicates(),
            forall|x: Felt| r@.contains(x) <==> (a@.contains(x) || b@.take(i as int).contains(x)),
            disjoint_seqs(b@, a@) ==> r@ == a@ + b@.take(i as int),
        decreases b.len() - i,
    {
        let x = b[i];
        assert(b@.take(i + 1) =~= b@.take(i as int).push(x));
        proof {
            lemma_push_contains(b@.take(i as int), x);
            lemma_push_contains(r@, x);
        }
        if !contains_felt(&r, &x) {
            r.push(x);
        } else {
            proof {
                if disjoint_seqs(b@, a@) {
                    assert(!a@.contains(b@[i as int]));
                    let j = choose|j: int| 0 <= j < i && b@.take(i as int)[j] == x;
                    assert(b@[j] == b@[i as int]);
                }
            }
        }
        i = i + 1;
    }
    assert(b@.take(b.len() as int) =~= b@);
    r
}

fn contains_felt(v: &Vec<Felt>, x: &Felt) -> (r: bool)
    ensures
        r == v@.contains(*x),
{
    let mut i: usize = 0;
    while i < v.len()
        invariant
            i <= v.len(),
            forall|j: int| 0 <= j < i ==> v@[j] != *x,
        decreases v.len() - i,
    {
        if v[i] == *x {
            return true;
        }
        i = i + 1;
    }
    false
}

fn contains_entry(v: &Vec<StorageEntry>, x: &StorageEntry) -> (r: bool)
    ensures
        r == v@.contains(*x),
{
    let mut i: usize = 0;
    while i < v.len()
        invariant
            i <= v.len(),
            forall|j: int| 0 <= j < i ==> v@[j] != *x,
        decreases v.len() - i,
    {
        if v[i] == *x {
            return true;
        }
        i = i + 1;
    }
    false
}

/// `a` followed by the entries of `b` that are not in `a`.
fn union_entries(a: &Vec<StorageEntry>, b: &Vec<StorageEntry>) -> (r: Vec<StorageEntry>)
    requires
        a@.no_duplicates(),
        b@.no_duplicates(),
    ensures
        r@.no_duplicates(),
        forall|x: StorageEntry| r@.contains(x) <==> (a@.contains(x) || b@.contains(x)),
        disjoint_seqs(b@, a@) ==> r@ == a@ + b@,
{
    let mut r: Vec<StorageEntry> = a.clone();
    let mut i: usize = 0;
    assert(r@ =~= a@ + b@.take(0));
    while i < b.len()
        invariant
            i <= b.len(),
            a@.no_duplicates(),
            b@.no_duplicates(),
            r@.no_duplicates(),
            forall|x: StorageEntry| r@.contains(x) <==> (a@.contains(x) || b@.take(i as int).contains(x)),
            disjoint_seqs(b@, a@) ==> r@ == a@ + b@.take(i as int),
        decreases b.len() - i,
    {
        let x = b[i];
        assert(b@.take(i + 1) =~= b@.take(i as int).push(x));
        proof {
            lemma_push_contains(b@.take(i as int), x);
            lemma_push_contains(r@, x);
        }
        if !contains_entry(&r, &x) {
            r.push(x);
        } else {
            proof {
                if disjoint_seqs(b@, a@) {
                    assert(!a@.contains(b@[i as int]));
                    let j = choose|j: int| 0 <= j < i && b@.take(i as int)[j] == x;
                    assert(b@[j] == b@[i as int]);
                }
            }
        }
        i = i + 1;
    }
    assert(b@.take(b.len() as int) =~= b@);
    r
}

impl StateChanges {
    pub open spec fn wf(&self) -> bool {
        &&& self.storage_updates@.no_duplicates()
        &&& self.nonce_updates@.no_duplicates()
        &&& self.class_hash_updates@.no_duplicates()
        &&& self.compiled_class_hash_updates@.no_duplicates()
    }

    /// No changes at all.
    pub fn empty() -> (r: StateChanges)
        ensures
            r.wf(),
            r.storage_updates@.len() == 0,
            r.nonce_updates@.len() == 0,
            r.class_hash_updates@.len() == 0,
            r.compiled_class_hash_updates@.len() == 0,
    {
        StateChanges {
            storage_updates: Vec::new(),
            nonce_updates: Vec::new(),
            class_hash_updates: Vec::new(),
            compiled_class_hash_updates: Vec::new(),
        }
    }

    /// Union of two records, category by category: nothing recorded in either is lost.
    pub fn merge(a: &StateChanges, b: &StateChanges) -> (r: StateChanges)
        requires
            a.wf(),
            b.wf(),
        ensures
            r.wf(),
            forall|x: StorageEntry| r.storage_updates@.contains(x) <==> (a.storage_updates@.contains(x) || b.storage_updates@.contains(x)),
            forall|x: Felt| r.nonce_updates@.contains(x) <==> (a.nonce_updates@.contains(x) || b.nonce_updates@.contains(x)),
            forall|x: Felt| r.class_hash_updates@.contains(x) <==> (a.class_hash_updates@.contains(x) || b.class_hash_updates@.contains(x)),
            forall|x: Felt| r.compiled_class_hash_updates@.contains(x) <==> (a.compiled_class_hash_updates@.contains(x)
                || b.compiled_class_hash_updates@.contains(x)),
            disjoint_seqs(b.storage_updates@, a.storage_updates@) ==> r.storage_updates@ == a.storage_updates@ + b.storage_updates@,
            disjoint_seqs(b.nonce_updates@, a.nonce_updates@) ==> r.nonce_updates@ == a.nonce_updates@ + b.nonce_updates@,
            disjoint_seqs(b.class_hash_updates@, a.class_hash_updates@) ==> r.class_hash_updates@ == a.class_hash_updates@ + b.class_hash_updates@,
            disjoint_seqs(b.compiled_class_hash_updates@, a.compiled_class_hash_updates@) ==> r.compiled_class_hash_updates@
                == a.compiled_class_hash_updates@ + b.compiled_class_hash_updates@,
    {
        StateChanges {
            storage_updates: union_entries(&a.storage_updates, &b.storage_updates),
            nonce_updates: union_felts(&a.nonce_updates, &b.nonce_updates),
            class_hash_updates: union_felts(&a.class_hash_updates, &b.class_hash_updates),
            compiled_class_hash_updates: union_felts(&a.compiled_class_hash_updates, &b.compiled_class_hash_updates),
        }
    }

    /// A contract is modified when it has a storage, nonce or class update.
    pub open spec fn is_modified(&self, address: ContractAddress) -> bool {
        ||| exists|i: int| 0 <= i < self.storage_updates.len() && (#[trigger] self.storage_updates@[i]).address == address
        ||| self.nonce_updates@.contains(address)
        ||| self.class_hash_updates@.contains(address)
    }

    /// The counts that data availability is billed on (see `count_for_fee_charge`).
    pub open spec fn spec_fee_charge_count(
        &self,
        sender_balance_entry: Option<StorageEntry>,
        fee_token_address: ContractAddress,
    ) -> StateChangesCount {
        StateChangesCount {
            n_storage_updates: (self.storage_updates.len() + match sender_balance_entry {
                Some(e) => if self.storage_updates@.contains(e) { 0int } else { 1int },
                None => 0int,
            }) as u64,
            n_class_hash_updates: self.class_hash_updates.len() as u64,
            n_compiled_class_hash_updates: self.compiled_class_hash_updates.len() as u64,
            n_modified_contracts: self.modified_excluding(fee_token_address).len() as u64,
        }
    }

    /// The modified contracts other than `excluded`.
    pub open spec fn modified_excluding(&self, excluded: ContractAddress) -> Set<Felt> {
        Set::new(|x: Felt| self.is_modified(x) && x != excluded)
    }

    /// The modified contracts, each once.
    pub fn modified_contracts(&self) -> (r: Vec<ContractAddress>)
        requires
            self.wf(),
        ensures
            r@.no_duplicates(),
            forall|x: Felt| r@.contains(x) <==> self.is_modified(x),
    {
        let mut addresses: Vec<ContractAddress> = Vec::new();
        let mut i: usize = 0;
        while i < self.storage_updates.len()
            invariant
                i <= self.storage_updates.len(),
                addresses@.no_duplicates(),
                forall|x: Felt| addresses@.contains(x) <==> exists|j: int| 0 <= j < i && (#[trigger] self.storage_updates@[j]).address == x,
            decreases self.storage_updates.len() - i,
        {
            let address = self.storage_updates[i].address;
            proof {
                lemma_push_contains(addresses@, address);
            }
            if !contains_felt(&addresses, &address) {
                addresses.push(address);
            }
            proof {
                assert forall|x: Felt| addresses@.contains(x) <==> exists|j: int| 0 <= j < i + 1 && (#[trigger] self.storage_updates@[j]).address == x by {
                    if x == address {
                        assert(self.storage_updates@[i as int].address == x);
                    }
                }
            }
            i = i + 1;
        }
        let with_nonces = union_felts(&addresses, &self.nonce_updates);
        union_felts(&with_nonces, &self.class_hash_updates)
    }

    /// The counts that data availability is billed on. The sender's fee-token balance
    /// cell (`sender_balance_entry`) will be written by the fee transfer, so it is counted
    /// whether or not it was already changed; the fee-token contract itself is not counted
    /// as modified, since it is charged once per block.
    pub fn count_for_fee_charge(
        &self,
        sender_balance_entry: Option<StorageEntry>,
        fee_token_address: ContractAddress,
    ) -> (r: StateChangesCount)
        requires
            self.wf(),
            self.storage_updates.len() < u64::MAX,
        ensures
            r == self.spec_fee_charge_count(sender_balance_entry, fee_token_address),
            r.n_storage_updates == self.storage_updates.len() + (match sender_balance_entry {
                Some(e) => if self.storage_updates@.contains(e) { 0int } else { 1int },
                None => 0int,
            }),
            r.n_class_hash_updates == self.class_hash_updates.len(),
            r.n_compiled_class_hash_updates == self.compiled_class_hash_updates.len(),
            r.n_modified_contracts == self.modified_excluding(fee_token_address).len(),
    {
        let modified = self.modified_contracts();
        let mut n_modified: u64 = 0;
        let mut i: usize = 0;
        let ghost counted: Set<Felt> = Set::empty();
        while i < modified.len()
            invariant
                i <= modified.len(),
                modified@.no_duplicates(),
                counted == modified@.take(i as int).to_set().remove(fee_token_address),
                counted.finite(),
                n_modified as int == counted.len(),
                n_modified <= i,
            decreases modified.len() - i,
        {
            let x = modified[i];
            let ghost prefix = modified@.take(i as int);
            assert(modified@.take(i + 1) =~= prefix.push(x));
            assert(!prefix.contains(x)) by {
                if prefix.contains(x) {
                    let j = choose|j: int| 0 <= j < i && prefix[j] == x;
                    assert(modified@[j] == modified@[i as int]);
                }
            }
            if x != fee_token_address {
                n_modified = n_modified + 1;
                proof {
                    lemma_push_contains(prefix, x);
                    assert(!counted.contains(x));
                    assert(prefix.push(x).to_set().remove(fee_token_address) =~= counted.insert(x));
                    counted = counted.insert(x);
                }
            } else {
                proof {
                    lemma_push_contains(prefix, x);
                    assert(prefix.push(x).to_set().remove(fee_token_address) =~= counted);
                }
            }
            i = i + 1;
        }
        proof {
            assert(modified@.take(modified.len() as int) =~= modified@);
            assert(counted =~= self.modified_excluding(fee_token_address));
        }
        let n_storage_updates = match sender_balance_entry {
            Some(e) => if contains_entry(&self.storage_updates, &e) {
                self.storage_updates.len() as u64
            } else {
                self.storage_updates.len() as u64 + 1
            },
            None => self.storage_updates.len() as u64,
        };
        let r = StateChangesCount {
            n_storage_updates,
            n_class_hash_updates: self.class_hash_updates.len() as u64,
            n_compiled_class_hash_updates: self.compiled_class_hash_updates.len() as u64,
            n_modified_contracts: n_modified,
        };
        let ghost expected = self.spec_fee_charge_count(sender_balance_entry, fee_token_address);
        assert(r.n_storage_updates == expected.n_storage_updates);
        assert(r.n_class_hash_updates == expected.n_class_hash_updates);
        assert(r.n_compiled_class_hash_updates == expected.n_compiled_class_hash_updates);
        assert(r.n_modified_contracts == expected.n_modified_contracts);
        r
    }
}

/// Merging two records whose keys are disjoint in every category adds their counts.
pub proof fn lemma_merge_disjoint_counts(a: &StateChanges, b: &StateChanges, r: &StateChanges)
    requires
        a.wf(),
        b.wf(),
        disjoint_seqs(b.storage_updates@, a.storage_updates@) ==> r.storage_updates@ == a.storage_updates@ + b.storage_updates@,
        disjoint_seqs(b.nonce_updates@, a.nonce_updates@) ==> r.nonce_updates@ == a.nonce_updates@ + b.nonce_updates@,
        disjoint_seqs(b.class_hash_updates@, a.class_hash_updates@) ==> r.class_hash_updates@ == a.class_hash_updates@ + b.class_hash_updates@,
        disjoint_seqs(b.compiled_class_hash_updates@, a.compiled_class_hash_updates@) ==> r.compiled_class_hash_updates@
            == a.compiled_class_hash_updates@ + b.compiled_class_hash_updates@,
        disjoint_seqs(b.storage_updates@, a.storage_updates@),
        disjoint_seqs(b.nonce_updates@, a.nonce_updates@),
        disjoint_seqs(b.class_hash_updates@, a.class_hash_updates@),
        disjoint_seqs(b.compiled_class_hash_updates@, a.compiled_class_hash_updates@),
    ensures
        r.storage_updates.len() == a.storage_updates.len() + b.storage_updates.len(),
        r.nonce_updates.len() == a.nonce_updates.len() + b.nonce_updates.len(),
        r.class_hash_updates.len() == a.class_hash_updates.len() + b.class_hash_updates.len(),
        r.compiled_class_hash_updates.len() == a.compiled_class_hash_updates.len() + b.compiled_class_hash_updates.len(),
{
}

} // verus!
