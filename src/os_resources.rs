//! Resource formulas of the operating system: per-transaction-type and per-syscall
//! resource vectors, and the cost of data-availability commitments.

use vstd::prelude::*;

use crate::kinds::{N_SYSCALLS, N_TX_TYPES, SyscallSelector, TransactionType};
use crate::resources::{
    Builtin, ResourceCounts, ResourceVector, counts_add, counts_fit, counts_scale, counts_zero, opt_counts,
};

verus! {

/// `constant + calldata_factor * calldata_length`.
#[derive(Debug)]
pub struct ResourcesParams {
    pub constant: ResourceVector,
    pub calldata_factor: ResourceVector,
}

impl ResourcesParams {
    pub open spec fn wf(&self) -> bool {
        self.constant.wf() && self.calldata_factor.wf()
    }
}

/// The fields of a formula's document: `constant` and `calldata_factor` when present, and
/// the whole document read as one resource vector when it can be.
#[derive(Debug)]
pub struct ResourceParamsRaw {
    pub constant: Option<ResourceVector>,
    pub calldata_factor: Option<ResourceVector>,
    pub whole: Option<ResourceVector>,
}

#[derive(Clone, Copy, Debug, PartialEq, Eq, Structural)]
pub enum ResourcesParamsError {
    /// `constant` is given without `calldata_factor`.
    MissingCalldataFactor,
    /// Neither `constant` nor a resource vector is given.
    Malformed,
}

impl ResourcesParams {
    /// Reads a formula: both terms when `constant` is given (then `calldata_factor` must be
    /// too); otherwise the whole document is the constant term and the calldata term is zero.
    pub fn try_from(raw: ResourceParamsRaw) -> (r: Result<ResourcesParams, ResourcesParamsError>)
        requires
            raw.constant matches Some(c) ==> c.wf(),
            raw.calldata_factor matches Some(f) ==> f.wf(),
            raw.whole matches Some(w) ==> w.wf(),
        ensures
            r matches Ok(p) ==> p.wf(),
            match (raw.constant, raw.calldata_factor) {
                (Some(c), Some(f)) => r matches Ok(p) && p.constant == c && p.calldata_factor == f,
                (Some(_), None) => r == Err::<ResourcesParams, ResourcesParamsError>(ResourcesParamsError::MissingCalldataFactor),
                (None, _) => match raw.whole {
                    Some(w) => r matches Ok(p) && p.constant == w && p.calldata_factor@ == counts_zero(),
                    None => r == Err::<ResourcesParams, ResourcesParamsError>(ResourcesParamsError::Malformed),
                },
            },
    {
        match (raw.constant, raw.calldata_factor) {
            (Some(constant), Some(calldata_factor)) => Ok(ResourcesParams { constant, calldata_factor }),
            (Some(_), None) => Err(ResourcesParamsError::MissingCalldataFactor),
            (None, _) => match raw.whole {
                Some(whole) => Ok(ResourcesParams { constant: whole, calldata_factor: ResourceVector::zero() }),
                None => Err(ResourcesParamsError::Malformed),
            },
        }
    }
}

/// The current and the legacy formula of one transaction type; costs use the legacy one.
#[derive(Debug)]
pub struct ResourcesByVersion {
    pub resources: ResourcesParams,
    pub deprecated_resources: ResourcesParams,
}

#[derive(Debug)]
pub enum OsResourcesError {
    MissingTransactionType(TransactionType),
    MissingSyscall(SyscallSelector),
}

/// `Some(c)` when every component of `c` fits a `u64`.
pub open spec fn fit_or_none(c: ResourceCounts) -> Option<ResourceCounts> {
    if counts_fit(c) {
        Some(c)
    } else {
        None
    }
}

/// `base + factor * n`, or `None` when the product or the sum leaves the `u64` range.
pub open spec fn linear_resources(base: ResourceCounts, factor: ResourceCounts, n: int) -> Option<ResourceCounts> {
    if counts_fit(counts_scale(factor, n)) {
        fit_or_none(counts_add(base, counts_scale(factor, n)))
    } else {
        None
    }
}

/// Resources of hashing `data_length` elements with the Poseidon builtin.
pub open spec fn poseidon_hash_many_counts(data_length: int) -> ResourceCounts {
    ResourceCounts {
        steps: (data_length / 10) * 55 + ((data_length % 10) / 2) * 18 + (data_length % 2) * 3 + 21,
        memory_holes: 0,
        builtins: counts_zero().builtins.update(Builtin::Poseidon.spec_index() as int, data_length / 2 + 1),
    }
}

/// Resources of hashing `data_length` elements with the Poseidon builtin.
pub fn poseidon_hash_many_cost(data_length: u64) -> (r: Option<ResourceVector>)
    ensures
        r is Some <==> counts_fit(poseidon_hash_many_counts(data_length as int)),
        r matches Some(v) ==> v.wf() && v@ == poseidon_hash_many_counts(data_length as int),
{
    let n_steps = match (data_length / 10).checked_mul(55) {
        Some(x) => x,
        None => return None,
    };
    assert((data_length % 10) / 2 * 18 <= 72);
    assert((data_length % 2) * 3 <= 3);
    let n_steps = match n_steps.checked_add((data_length % 10) / 2 * 18 + (data_length % 2) * 3 + 21) {
        Some(x) => x,
        None => return None,
    };
    let mut v = ResourceVector::from_steps(n_steps);
    v.set_builtin(Builtin::Poseidon, data_length / 2 + 1);
    assert(v@.builtins =~= poseidon_hash_many_counts(data_length as int).builtins);
    Some(v)
}

/// `base + factor * n`, `None` exactly when a component leaves the `u64` range.
pub fn linear_combination(base: &ResourceVector, factor: &ResourceVector, n: u64) -> (r: Option<ResourceVector>)
    requires
        base.wf(),
        factor.wf(),
    ensures
        r matches Some(v) ==> v.wf(),
        opt_counts(r) == linear_resources(base@, factor@, n as int),
{
    let scaled = match factor.checked_scale(n) {
        Some(s) => s,
        None => return None,
    };
    base.checked_add(&scaled)
}

/// Resource formulas of the operating system, complete for every transaction type and
/// every syscall.
#[derive(Debug)]
pub struct OsResources {
    execute_syscalls: Vec<(SyscallSelector, ResourceVector)>,
    execute_txs_inner: Vec<(TransactionType, ResourcesByVersion)>,
    compute_os_kzg_commitment_info: ResourceVector,
}

/// Position of the first entry for `tx_type`.
pub open spec fn tx_position(table: Seq<(TransactionType, ResourcesByVersion)>, tx_type: TransactionType, j: int) -> bool {
    &&& 0 <= j < table.len()
    &&& table[j].0 == tx_type
    &&& forall|i: int| 0 <= i < j ==> (#[trigger] table[i]).0 != tx_type
}

/// Position of the first entry for `selector`.
pub open spec fn syscall_position(table: Seq<(SyscallSelector, ResourceVector)>, selector: SyscallSelector, j: int) -> bool {
    &&& 0 <= j < table.len()
    &&& table[j].0 == selector
    &&& forall|i: int| 0 <= i < j ==> (#[trigger] table[i]).0 != selector
}

pub open spec fn has_tx(table: Seq<(TransactionType, ResourcesByVersion)>, t: TransactionType) -> bool {
    exists|j: int| tx_position(table, t, j)
}

pub open spec fn has_syscall(table: Seq<(SyscallSelector, ResourceVector)>, s: SyscallSelector) -> bool {
    exists|j: int| syscall_position(table, s, j)
}

pub open spec fn lists_tx(table: Seq<(TransactionType, ResourcesByVersion)>, t: TransactionType) -> bool {
    exists|j: int| 0 <= j < table.len() && table[j].0 == t
}

pub open spec fn lists_syscall(table: Seq<(SyscallSelector, ResourceVector)>, s: SyscallSelector) -> bool {
    exists|j: int| 0 <= j < table.len() && table[j].0 == s
}

impl OsResources {
    pub closed spec fn spec_syscalls(&self) -> Seq<(SyscallSelector, ResourceVector)> {
        self.execute_syscalls@
    }

    pub closed spec fn spec_txs(&self) -> Seq<(TransactionType, ResourcesByVersion)> {
        self.execute_txs_inner@
    }

    pub closed spec fn spec_kzg(&self) -> ResourceVector {
        self.compute_os_kzg_commitment_info
    }

    /// The legacy formula of a transaction type (its first entry).
    pub open spec fn spec_params(&self, tx_type: TransactionType) -> ResourcesParams {
        let j = choose|j: int| tx_position(self.spec_txs(), tx_type, j);
        self.spec_txs()[j].1.deprecated_resources
    }

    /// The per-call resources of a syscall (its first entry).
    pub open spec fn spec_syscall(&self, selector: SyscallSelector) -> ResourceVector {
        let j = choose|j: int| syscall_position(self.spec_syscalls(), selector, j);
        self.spec_syscalls()[j].1
    }

    /// Every transaction type and syscall has an entry, and every vector is well formed.
    pub open spec fn wf(&self) -> bool {
        &&& forall|t: TransactionType| #[trigger] has_tx(self.spec_txs(), t)
        &&& forall|s: SyscallSelector| #[trigger] has_syscall(self.spec_syscalls(), s)
        &&& forall|j: int| 0 <= j < self.spec_txs().len() ==> (#[trigger] self.spec_txs()[j]).1.resources.wf()
            && self.spec_txs()[j].1.deprecated_resources.wf()
        &&& forall|j: int| 0 <= j < self.spec_syscalls().len() ==> (#[trigger] self.spec_syscalls()[j]).1.wf()
        &&& self.spec_kzg().wf()
    }

    /// Builds the table, failing on the first transaction type, then the first syscall,
    /// that has no entry.
    pub fn new(
        execute_syscalls: Vec<(SyscallSelector, ResourceVector)>,
        execute_txs_inner: Vec<(TransactionType, ResourcesByVersion)>,
        compute_os_kzg_commitment_info: ResourceVector,
    ) -> (r: Result<OsResources, OsResourcesError>)
        requires
            forall|j: int| 0 <= j < execute_txs_inner.len() ==> (#[trigger] execute_txs_inner@[j]).1.resources.wf()
                && execute_txs_inner@[j].1.deprecated_resources.wf(),
            forall|j: int| 0 <= j < execute_syscalls.len() ==> (#[trigger] execute_syscalls@[j]).1.wf(),
            compute_os_kzg_commitment_info.wf(),
        ensures
            r matches Ok(o) ==> o.wf() && o.spec_syscalls() == execute_syscalls@ && o.spec_txs() == execute_txs_inner@
                && o.spec_kzg() == compute_os_kzg_commitment_info,
            r is Ok <==> (forall|t: TransactionType| #[trigger] lists_tx(execute_txs_inner@, t))
                && (forall|s: SyscallSelector| #[trigger] lists_syscall(execute_syscalls@, s)),
            r matches Err(OsResourcesError::MissingTransactionType(t)) ==> !lists_tx(execute_txs_inner@, t)
                && forall|u: TransactionType| u.spec_index() < t.spec_index() ==> #[trigger] lists_tx(execute_txs_inner@, u),
            r matches Err(OsResourcesError::MissingSyscall(s)) ==> !lists_syscall(execute_syscalls@, s)
                && (forall|t: TransactionType| #[trigger] lists_tx(execute_txs_inner@, t))
                && forall|u: SyscallSelector| u.spec_index() < s.spec_index() ==> #[trigger] lists_syscall(execute_syscalls@, u),
    {
        let ghost syscalls = execute_syscalls@;
        let ghost txs = execute_txs_inner@;
        let o = OsResources { execute_syscalls, execute_txs_inner, compute_os_kzg_commitment_info };
        assert(o.spec_syscalls() == syscalls && o.spec_txs() == txs);
        match o.validate() {
            Ok(()) => Ok(o),
            Err(e) => Err(e),
        }
    }

    /// Checks that every transaction type and every syscall has an entry.
    pub fn validate(&self) -> (r: Result<(), OsResourcesError>)
        ensures
            r is Ok <==> (forall|t: TransactionType| #[trigger] lists_tx(self.spec_txs(), t))
                && (forall|s: SyscallSelector| #[trigger] lists_syscall(self.spec_syscalls(), s)),
            r is Ok ==> (forall|t: TransactionType| #[trigger] has_tx(self.spec_txs(), t))
                && (forall|s: SyscallSelector| #[trigger] has_syscall(self.spec_syscalls(), s)),
            r matches Err(OsResourcesError::MissingTransactionType(t)) ==> !lists_tx(self.spec_txs(), t)
                && forall|u: TransactionType| u.spec_index() < t.spec_index() ==> #[trigger] lists_tx(self.spec_txs(), u),
            r matches Err(OsResourcesError::MissingSyscall(s)) ==> !lists_syscall(self.spec_syscalls(), s)
                && (forall|t: TransactionType| #[trigger] lists_tx(self.spec_txs(), t))
                && forall|u: SyscallSelector| u.spec_index() < s.spec_index() ==> #[trigger] lists_syscall(self.spec_syscalls(), u),
    {
        let mut i: usize = 0;
        while i < N_TX_TYPES
            invariant
                i <= N_TX_TYPES,
                forall|t: TransactionType| t.spec_index() < i ==> has_tx(self.spec_txs(), t),
            decreases N_TX_TYPES - i,
        {
            let t = TransactionType::from_index(i);
            match self.find_tx(t) {
                Some(_) => {},
                None => {
                    assert(!lists_tx(self.spec_txs(), t));
                    proof {
                        assert forall|u: TransactionType| u.spec_index() < t.spec_index() implies #[trigger] lists_tx(self.spec_txs(), u) by {
                            assert(has_tx(self.spec_txs(), u));
                            let j = choose|j: int| tx_position(self.spec_txs(), u, j);
                            assert(self.spec_txs()[j].0 == u);
                        }
                    }
                    return Err(OsResourcesError::MissingTransactionType(t));
                },
            }
            proof {
                assert forall|u: TransactionType| u.spec_index() < i + 1 implies has_tx(self.spec_txs(), u) by {
                    if u.spec_index() == i {
                        assert(u == t);
                    }
                }
            }
            i = i + 1;
        }
        let mut i: usize = 0;
        while i < N_SYSCALLS
            invariant
                i <= N_SYSCALLS,
                forall|t: TransactionType| #[trigger] has_tx(self.spec_txs(), t),
                forall|s: SyscallSelector| s.spec_index() < i ==> has_syscall(self.spec_syscalls(), s),
            decreases N_SYSCALLS - i,
        {
            let s = SyscallSelector::from_index(i);
            match self.find_syscall(s) {
                Some(_) => {},
                None => {
                    proof {
                        assert forall|t: TransactionType| #[trigger] lists_tx(self.spec_txs(), t) by {
                            assert(has_tx(self.spec_txs(), t));
                            let j = choose|j: int| tx_position(self.spec_txs(), t, j);
                            assert(self.spec_txs()[j].0 == t);
                        }
                    }
                    assert(!lists_syscall(self.spec_syscalls(), s));
                    proof {
                        assert forall|u: SyscallSelector| u.spec_index() < s.spec_index() implies #[trigger] lists_syscall(self.spec_syscalls(), u) by {
                            assert(has_syscall(self.spec_syscalls(), u));
                            let j = choose|j: int| syscall_position(self.spec_syscalls(), u, j);
                            assert(self.spec_syscalls()[j].0 == u);
                        }
                    }
                    return Err(OsResourcesError::MissingSyscall(s));
                },
            }
            proof {
                assert forall|u: SyscallSelector| u.spec_index() < i + 1 implies has_syscall(self.spec_syscalls(), u) by {
                    if u.spec_index() == i {
                        assert(u == s);
                    }
                }
            }
            i = i + 1;
        }
        proof {
            assert forall|t: TransactionType| #[trigger] lists_tx(self.spec_txs(), t) by {
                assert(t.spec_index() < N_TX_TYPES);
                assert(has_tx(self.spec_txs(), t));
                let j = choose|j: int| tx_position(self.spec_txs(), t, j);
                assert(self.spec_txs()[j].0 == t);
            }
            assert forall|s: SyscallSelector| #[trigger] lists_syscall(self.spec_syscalls(), s) by {
                assert(s.spec_index() < N_SYSCALLS);
                assert(has_syscall(self.spec_syscalls(), s));
                let j = choose|j: int| syscall_position(self.spec_syscalls(), s, j);
                assert(self.spec_syscalls()[j].0 == s);
            }
            assert forall|s: SyscallSelector| #[trigger] has_syscall(self.spec_syscalls(), s) by {
                assert(s.spec_index() < N_SYSCALLS);
            }
        }
        Ok(())
    }

    /// The legacy formula of a transaction type.
    pub fn resources_params_for_tx_type(&self, tx_type: TransactionType) -> (r: &ResourcesParams)
        requires
            self.wf(),
        ensures
            *r == self.spec_params(tx_type),
            r.wf(),
    {
        match self.find_tx(tx_type) {
            Some(j) => {
                proof {
                    assert(has_tx(self.spec_txs(), tx_type));
                    let k = choose|k: int| tx_position(self.spec_txs(), tx_type, k);
                    assert(k == j) by {
                        if k < j {
                            assert(self.spec_txs()[k].0 != tx_type);
                        } else if j < k {
                            assert(self.spec_txs()[j as int].0 != tx_type);
                        }
                    }
                }
                &self.execute_txs_inner[j].1.deprecated_resources
            },
            None => {
                proof {
                    assert(has_tx(self.spec_txs(), tx_type));
                    let k = choose|k: int| tx_position(self.spec_txs(), tx_type, k);
                    assert(self.spec_txs()[k].0 == tx_type);
                }
                &self.execute_txs_inner[0].1.deprecated_resources
            },
        }
    }

    /// The per-call resources of a syscall.
    pub fn syscall_resources(&self, selector: SyscallSelector) -> (r: &ResourceVector)
        requires
            self.wf(),
        ensures
            *r == self.spec_syscall(selector),
            r.wf(),
    {
        match self.find_syscall(selector) {
            Some(j) => {
                proof {
                    assert(has_syscall(self.spec_syscalls(), selector));
                    let k = choose|k: int| syscall_position(self.spec_syscalls(), selector, k);
                    assert(k == j) by {
                        if k < j {
                            assert(self.spec_syscalls()[k].0 != selector);
                        } else if j < k {
                            assert(self.spec_syscalls()[j as int].0 != selector);
                        }
                    }
                }
                &self.execute_syscalls[j].1
            },
            None => {
                proof {
                    assert(has_syscall(self.spec_syscalls(), selector));
                    let k = choose|k: int| syscall_position(self.spec_syscalls(), selector, k);
                    assert(self.spec_syscalls()[k].0 == selector);
                }
                &self.execute_syscalls[0].1
            },
        }
    }

    /// `constant + calldata_factor * calldata_length` for the transaction type.
    pub open spec fn spec_tx_resources(&self, tx_type: TransactionType, calldata_length: int) -> Option<ResourceCounts> {
        let p = self.spec_params(tx_type);
        linear_resources(p.constant@, p.calldata_factor@, calldata_length)
    }

    /// `compute_os_kzg_commitment_info * data_segment_length + poseidon_hash_many(data_segment_length)`.
    pub open spec fn spec_kzg_da_resources(&self, data_segment_length: int) -> Option<ResourceCounts> {
        let scaled = counts_scale(self.spec_kzg()@, data_segment_length);
        let hashing = poseidon_hash_many_counts(data_segment_length);
        if counts_fit(scaled) && counts_fit(hashing) {
            fit_or_none(counts_add(scaled, hashing))
        } else {
            None
        }
    }

    /// Transaction-type resources, plus the data-availability commitment when it is used.
    pub open spec fn spec_additional_tx_resources(
        &self,
        tx_type: TransactionType,
        calldata_length: int,
        data_segment_length: int,
        use_kzg_da: bool,
    ) -> Option<ResourceCounts> {
        match self.spec_tx_resources(tx_type, calldata_length) {
            None => None,
            Some(base) => if !use_kzg_da {
                Some(base)
            } else {
                match self.spec_kzg_da_resources(data_segment_length) {
                    None => None,
                    Some(da) => fit_or_none(counts_add(base, da)),
                }
            },
        }
    }

    /// Sum of `resources(selector) * count` over the counter, in order.
    pub open spec fn spec_syscall_total(&self, counter: Seq<(SyscallSelector, u64)>) -> Option<ResourceCounts>
        decreases counter.len(),
    {
        if counter.len() == 0 {
            Some(counts_zero())
        } else {
            match self.spec_syscall_total(counter.drop_last()) {
                None => None,
                Some(acc) => {
                    let (selector, count) = counter.last();
                    let scaled = counts_scale(self.spec_syscall(selector)@, count as int);
                    if counts_fit(scaled) {
                        fit_or_none(counts_add(acc, scaled))
                    } else {
                        None
                    }
                },
            }
        }
    }

    /// Resources the OS spends on a transaction of this type, by calldata length;
    /// `None` when a component leaves the `u64` range.
    pub fn resources_for_tx_type(&self, tx_type: TransactionType, calldata_length: u64) -> (r: Option<ResourceVector>)
        requires
            self.wf(),
        ensures
            r matches Some(v) ==> v.wf(),
            opt_counts(r) == self.spec_tx_resources(tx_type, calldata_length as int),
    {
        let params = self.resources_params_for_tx_type(tx_type);
        linear_combination(&params.constant, &params.calldata_factor, calldata_length)
    }

    /// Resources the OS spends computing the data-availability commitment.
    pub fn os_kzg_da_resources(&self, data_segment_length: u64) -> (r: Option<ResourceVector>)
        requires
            self.wf(),
        ensures
            r matches Some(v) ==> v.wf(),
            opt_counts(r) == self.spec_kzg_da_resources(data_segment_length as int),
    {
        let scaled = match self.compute_os_kzg_commitment_info.checked_scale(data_segment_length) {
            Some(s) => s,
            None => return None,
        };
        let hashing = match poseidon_hash_many_cost(data_segment_length) {
            Some(h) => h,
            None => return None,
        };
        scaled.checked_add(&hashing)
    }

    /// Resources the OS spends on a transaction besides its syscalls.
    pub fn get_additional_os_tx_resources(
        &self,
        tx_type: TransactionType,
        calldata_length: u64,
        data_segment_length: u64,
        use_kzg_da: bool,
    ) -> (r: Option<ResourceVector>)
        requires
            self.wf(),
        ensures
            r matches Some(v) ==> v.wf(),
            opt_counts(r) == self.spec_additional_tx_resources(
                tx_type,
                calldata_length as int,
                data_segment_length as int,
                use_kzg_da,
            ),
    {
        let base = match self.resources_for_tx_type(tx_type, calldata_length) {
            Some(b) => b,
            None => return None,
        };
        if !use_kzg_da {
            return Some(base);
        }
        let da = match self.os_kzg_da_resources(data_segment_length) {
            Some(d) => d,
            None => return None,
        };
        base.checked_add(&da)
    }

    /// Resources the OS spends on the given syscall invocations.
    pub fn get_additional_os_syscall_resources(&self, counter: &Vec<(SyscallSelector, u64)>) -> (r: Option<ResourceVector>)
        requires
            self.wf(),
        ensures
            r matches Some(v) ==> v.wf(),
            opt_counts(r) == self.spec_syscall_total(counter@),
    {
        let mut total = ResourceVector::zero();
        let mut i: usize = 0;
        assert(counter@.take(0) =~= Seq::<(SyscallSelector, u64)>::empty());
        while i < counter.len()
            invariant
                i <= counter.len(),
                self.wf(),
                total.wf(),
                self.spec_syscall_total(counter@.take(i as int)) == Some(total@),
            decreases counter.len() - i,
        {
            let ghost prefix = counter@.take(i + 1);
            assert(prefix.drop_last() =~= counter@.take(i as int));
            assert(prefix.last() == counter@[i as int]);
            let (selector, count) = counter[i];
            let per_call = self.syscall_resources(selector);
            let scaled = match per_call.checked_scale(count) {
                Some(s) => s,
                None => {
                    proof {
                        lemma_syscall_total_none_persists(self, counter@, i + 1);
                    }
                    return None;
                },
            };
            total = match total.checked_add(&scaled) {
                Some(t) => t,
                None => {
                    proof {
                        lemma_syscall_total_none_persists(self, counter@, i + 1);
                    }
                    return None;
                },
            };
            i = i + 1;
        }
        assert(counter@.take(counter.len() as int) =~= counter@);
        Some(total)
    }

    fn find_tx(&self, tx_type: TransactionType) -> (r: Option<usize>)
        ensures
            r matches Some(j) ==> tx_position(self.spec_txs(), tx_type, j as int),
            r is None ==> forall|j: int| 0 <= j < self.spec_txs().len() ==> (#[trigger] self.spec_txs()[j]).0 != tx_type,
    {
        let mut i: usize = 0;
        while i < self.execute_txs_inner.len()
            invariant
                i <= self.execute_txs_inner.len(),
                forall|j: int| 0 <= j < i ==> (#[trigger] self.execute_txs_inner@[j]).0 != tx_type,
            decreases self.execute_txs_inner.len() - i,
        {
            if self.execute_txs_inner[i].0 == tx_type {
                return Some(i);
            }
            i = i + 1;
        }
        None
    }

    fn find_syscall(&self, selector: SyscallSelector) -> (r: Option<usize>)
        ensures
            r matches Some(j) ==> syscall_position(self.spec_syscalls(), selector, j as int),
            r is None ==> forall|j: int| 0 <= j < self.spec_syscalls().len() ==> (#[trigger] self.spec_syscalls()[j]).0 != selector,
    {
        let mut i: usize = 0;
        while i < self.execute_syscalls.len()
            invariant
                i <= self.execute_syscalls.len(),
                forall|j: int| 0 <= j < i ==> (#[trigger] self.execute_syscalls@[j]).0 != selector,
            decreases self.execute_syscalls.len() - i,
        {
            if self.execute_syscalls[i].0 == selector {
                return Some(i);
            }
            i = i + 1;
        }
        None
    }
}

/// Once a prefix of the counter overflows, the whole total does.
pub proof fn lemma_syscall_total_none_persists(o: &OsResources, counter: Seq<(SyscallSelector, u64)>, n: int)
    requires
        0 <= n <= counter.len(),
        o.spec_syscall_total(counter.take(n)) is None,
    ensures
        o.spec_syscall_total(counter) is None,
    decreases counter.len() - n,
{
    if n == counter.len() {
        assert(counter.take(n) =~= counter);
    } else {
        let shorter = counter.drop_last();
        assert(shorter.take(n) =~= counter.take(n));
        lemma_syscall_total_none_persists(o, shorter, n);
    }
}

/// With no calldata, the OS resources of a transaction type are its constant term.
pub proof fn lemma_tx_resources_without_calldata(o: &OsResources, tx_type: TransactionType)
    requires
        o.wf(),
    ensures
        o.spec_tx_resources(tx_type, 0) == Some(o.spec_params(tx_type).constant@),
{
    let p = o.spec_params(tx_type);
    assert(has_tx(o.spec_txs(), tx_type));
    let j = choose|j: int| tx_position(o.spec_txs(), tx_type, j);
    assert(p.wf());
    let scaled = counts_scale(p.calldata_factor@, 0);
    assert(scaled.builtins =~= counts_zero().builtins);
    let sum = counts_add(p.constant@, scaled);
    assert(sum.builtins =~= p.constant@.builtins);
}

} // verus!
