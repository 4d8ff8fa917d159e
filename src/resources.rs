//! Resource vectors: a step count, a memory-hole count, and per-builtin usage.

use vstd::prelude::*;

verus! {

/// Number of builtins known to the protocol.
pub const N_BUILTINS: usize = 9;

/// The closed set of builtins (co-processors) whose usage is metered.
#[derive(Clone, Copy, Debug, PartialEq, Eq, Hash, Structural)]
pub enum Builtin {
    Output,
    Pedersen,
    RangeCheck,
    Ecdsa,
    Bitwise,
    EcOp,
    Keccak,
    Poseidon,
    SegmentArena,
}

impl Builtin {
    pub open spec fn spec_index(self) -> nat {
        match self {
            Builtin::Output => 0,
            Builtin::Pedersen => 1,
            Builtin::RangeCheck => 2,
            Builtin::Ecdsa => 3,
            Builtin::Bitwise => 4,
            Builtin::EcOp => 5,
            Builtin::Keccak => 6,
            Builtin::Poseidon => 7,
            Builtin::SegmentArena => 8,
        }
    }

    /// Position of this builtin in a resource vector's usage table.
    pub fn index(&self) -> (r: usize)
        ensures
            r == self.spec_index(),
            r < N_BUILTINS,
    {
        match self {
            Builtin::Output => 0,
            Builtin::Pedersen => 1,
            Builtin::RangeCheck => 2,
            Builtin::Ecdsa => 3,
            Builtin::Bitwise => 4,
            Builtin::EcOp => 5,
            Builtin::Keccak => 6,
            Builtin::Poseidon => 7,
            Builtin::SegmentArena => 8,
        }
    }

    pub open spec fn spec_name(self) -> Seq<char> {
        match self {
            Builtin::Output => "output_builtin"@,
            Builtin::Pedersen => "pedersen_builtin"@,
            Builtin::RangeCheck => "range_check_builtin"@,
            Builtin::Ecdsa => "ecdsa_builtin"@,
            Builtin::Bitwise => "bitwise_builtin"@,
            Builtin::EcOp => "ec_op_builtin"@,
            Builtin::Keccak => "keccak_builtin"@,
            Builtin::Poseidon => "poseidon_builtin"@,
            Builtin::SegmentArena => "segment_arena_builtin"@,
        }
    }

    /// The builtin's name as it appears in resource documents.
    pub fn name(&self) -> (r: String)
        ensures
            r@ == self.spec_name(),
    {
        match self {
            Builtin::Output => "output_builtin".to_owned(),
            Builtin::Pedersen => "pedersen_builtin".to_owned(),
            Builtin::RangeCheck => "range_check_builtin".to_owned(),
            Builtin::Ecdsa => "ecdsa_builtin".to_owned(),
            Builtin::Bitwise => "bitwise_builtin".to_owned(),
            Builtin::EcOp => "ec_op_builtin".to_owned(),
            Builtin::Keccak => "keccak_builtin".to_owned(),
            Builtin::Poseidon => "poseidon_builtin".to_owned(),
            Builtin::SegmentArena => "segment_arena_builtin".to_owned(),
        }
    }

    pub fn from_index(i: usize) -> (r: Builtin)
        requires
            i < N_BUILTINS,
        ensures
            r.spec_index() == i,
    {
        if i == 0 {
            Builtin::Output
        } else if i == 1 {
            Builtin::Pedersen
        } else if i == 2 {
            Builtin::RangeCheck
        } else if i == 3 {
            Builtin::Ecdsa
        } else if i == 4 {
            Builtin::Bitwise
        } else if i == 5 {
            Builtin::EcOp
        } else if i == 6 {
            Builtin::Keccak
        } else if i == 7 {
            Builtin::Poseidon
        } else {
            Builtin::SegmentArena
        }
    }

    /// The builtin with the given name, if the name is known.
    pub fn from_name(name: &String) -> (r: Option<Builtin>)
        ensures
            r matches Some(b) ==> b.spec_name() == name@,
            r is None ==> forall|b: Builtin| b.spec_name() != name@,
    {
        let mut i: usize = 0;
        while i < N_BUILTINS
            invariant
                i <= N_BUILTINS,
                forall|b: Builtin| b.spec_index() < i ==> b.spec_name() != name@,
            decreases N_BUILTINS - i,
        {
            let b = Builtin::from_index(i);
            let candidate = b.name();
            if *name == candidate {
                return Some(b);
            }
            proof {
                assert forall|c: Builtin| c.spec_index() < i + 1 implies c.spec_name() != name@ by {
                    if c.spec_index() == i {
                        assert(c == b);
                    }
                }
            }
            i = i + 1;
        }
        proof {
            assert forall|b: Builtin| b.spec_name() != name@ by {
                assert(b.spec_index() < N_BUILTINS);
            }
        }
        None
    }
}

/// Mathematical value of a resource vector.
pub struct ResourceCounts {
    pub steps: int,
    pub memory_holes: int,
    pub builtins: Seq<int>,
}

pub open spec fn counts_add(a: ResourceCounts, b: ResourceCounts) -> ResourceCounts {
    ResourceCounts {
        steps: a.steps + b.steps,
        memory_holes: a.memory_holes + b.memory_holes,
        builtins: Seq::new(N_BUILTINS as nat, |i: int| a.builtins[i] + b.builtins[i]),
    }
}

pub open spec fn counts_scale(a: ResourceCounts, n: int) -> ResourceCounts {
    ResourceCounts {
        steps: a.steps * n,
        memory_holes: a.memory_holes * n,
        builtins: Seq::new(N_BUILTINS as nat, |i: int| a.builtins[i] * n),
    }
}

pub open spec fn counts_zero() -> ResourceCounts {
    ResourceCounts {
        steps: 0,
        memory_holes: 0,
        builtins: Seq::new(N_BUILTINS as nat, |i: int| 0int),
    }
}

/// The value of an optional vector.
pub open spec fn opt_counts(r: Option<ResourceVector>) -> Option<ResourceCounts> {
    match r {
        Some(v) => Some(v@),
        None => None,
    }
}

/// Every component is representable as a `u64`.
pub open spec fn counts_fit(a: ResourceCounts) -> bool {
    &&& 0 <= a.steps <= u64::MAX
    &&& 0 <= a.memory_holes <= u64::MAX
    &&& a.builtins.len() == N_BUILTINS
    &&& forall|i: int| 0 <= i < N_BUILTINS ==> 0 <= #[trigger] a.builtins[i] <= u64::MAX
}

/// Step count, memory holes and builtin usage of one execution (or of a formula term).
#[derive(Clone, Debug, PartialEq, Eq)]
pub struct ResourceVector {
    pub n_steps: u64,
    pub n_memory_holes: u64,
    /// Usage per builtin, indexed by `Builtin::index`.
    pub builtin_counts: Vec<u64>,
}

impl View for ResourceVector {
    type V = ResourceCounts;

    open spec fn view(&self) -> ResourceCounts {
        ResourceCounts {
            steps: self.n_steps as int,
            memory_holes: self.n_memory_holes as int,
            builtins: self.builtin_counts@.map_values(|c: u64| c as int),
        }
    }
}

impl ResourceVector {
    pub open spec fn wf(&self) -> bool {
        self.builtin_counts.len() == N_BUILTINS
    }

    pub open spec fn spec_builtin(&self, b: Builtin) -> int {
        self@.builtins[b.spec_index() as int]
    }

    /// The empty vector: no steps, no holes, no builtin usage.
    pub fn zero() -> (r: ResourceVector)
        ensures
            r.wf(),
            r@ == counts_zero(),
    {
        let r = ResourceVector { n_steps: 0, n_memory_holes: 0, builtin_counts: vec![0u64; N_BUILTINS] };
        assert(r@.builtins =~= counts_zero().builtins);
        r
    }

    /// A vector with the given steps and no other usage.
    pub fn from_steps(n_steps: u64) -> (r: ResourceVector)
        ensures
            r.wf(),
            r@ == (ResourceCounts { steps: n_steps as int, ..counts_zero() }),
    {
        let r = ResourceVector { n_steps, n_memory_holes: 0, builtin_counts: vec![0u64; N_BUILTINS] };
        assert(r@.builtins =~= counts_zero().builtins);
        r
    }

    /// Usage of one builtin.
    pub fn builtin(&self, b: Builtin) -> (r: u64)
        requires
            self.wf(),
        ensures
            r == self.spec_builtin(b),
    {
        self.builtin_counts[b.index()]
    }

    /// Sets the usage of one builtin, leaving the rest unchanged.
    pub fn set_builtin(&mut self, b: Builtin, count: u64)
        requires
            old(self).wf(),
        ensures
            final(self).wf(),
            final(self)@ == (ResourceCounts {
                builtins: old(self)@.builtins.update(b.spec_index() as int, count as int),
                ..old(self)@
            }),
    {
        let i = b.index();
        self.builtin_counts.set(i, count);
        assert(self@.builtins =~= old(self)@.builtins.update(i as int, count as int));
    }

    /// Builds a vector from a builtin-name counter; fails with the first unknown name.
    pub fn from_counter(n_steps: u64, n_memory_holes: u64, counter: &Vec<(String, u64)>) -> (r:
        Result<ResourceVector, String>)
        ensures
            r matches Ok(v) ==> {
                &&& v.wf()
                &&& v.n_steps == n_steps
                &&& v.n_memory_holes == n_memory_holes
                &&& forall|b: Builtin| #[trigger] v.spec_builtin(b) == last_count_named(counter@, b.spec_name())
            },
            r is Ok <==> forall|i: int|
                0 <= i < counter.len() ==> is_builtin_name((#[trigger] counter@[i]).0@),
            r matches Err(name) ==> exists|i: int|
                0 <= i < counter.len() && (#[trigger] counter@[i]).0 == name && !is_builtin_name(name@),
    {
        let mut v = ResourceVector::zero();
        let mut i: usize = 0;
        while i < counter.len()
            invariant
                i <= counter.len(),
                v.wf(),
                v.n_steps == 0,
                v.n_memory_holes == 0,
                forall|b: Builtin| #[trigger] v.spec_builtin(b) == last_count_named(counter@.take(i as int), b.spec_name()),
                forall|j: int| 0 <= j < i ==> is_builtin_name((#[trigger] counter@[j]).0@),
            decreases counter.len() - i,
        {
            let ghost prev = v;
            match Builtin::from_name(&counter[i].0) {
                Some(b) => {
                    v.set_builtin(b, counter[i].1);
                    proof {
                        assert(counter@.take(i + 1).drop_last() =~= counter@.take(i as int));
                        assert(counter@.take(i + 1).last() == counter@[i as int]);
                        assert(v@.builtins == prev@.builtins.update(b.spec_index() as int, counter@[i as int].1 as int));
                        assert forall|c: Builtin| #[trigger] v.spec_builtin(c) == last_count_named(counter@.take(i + 1), c.spec_name()) by {
                            lemma_builtin_names_distinct(b, c);
                            if c != b {
                                assert(v.spec_builtin(c) == prev.spec_builtin(c));
                            }
                        }
                    }
                },
                None => {
                    return Err(counter[i].0.clone());
                },
            }
            i = i + 1;
        }
        assert(counter@.take(counter.len() as int) =~= counter@);
        let r = ResourceVector { n_steps, n_memory_holes, builtin_counts: v.builtin_counts };
        assert forall|b: Builtin| #[trigger] r.spec_builtin(b) == last_count_named(counter@, b.spec_name()) by {
            assert(r.spec_builtin(b) == v.spec_builtin(b));
        }
        Ok(r)
    }

    /// Pointwise sum; `None` exactly when a component would exceed `u64::MAX`.
    pub fn checked_add(&self, other: &ResourceVector) -> (r: Option<ResourceVector>)
        requires
            self.wf(),
            other.wf(),
        ensures
            r is Some <==> counts_fit(counts_add(self@, other@)),
            r matches Some(v) ==> v.wf() && v@ == counts_add(self@, other@),
    {
        let ghost sum = counts_add(self@, other@);
        let n_steps = match self.n_steps.checked_add(other.n_steps) {
            Some(s) => s,
            None => return None,
        };
        let n_memory_holes = match self.n_memory_holes.checked_add(other.n_memory_holes) {
            Some(h) => h,
            None => return None,
        };
        let mut builtin_counts: Vec<u64> = Vec::new();
        let mut i: usize = 0;
        while i < N_BUILTINS
            invariant
                i <= N_BUILTINS,
                self.wf(),
                other.wf(),
                builtin_counts.len() == i,
                sum == counts_add(self@, other@),
                forall|j: int| 0 <= j < i ==> #[trigger] builtin_counts@[j] == self.builtin_counts@[j] + other.builtin_counts@[j],
            decreases N_BUILTINS - i,
        {
            match self.builtin_counts[i].checked_add(other.builtin_counts[i]) {
                Some(c) => builtin_counts.push(c),
                None => {
                    assert(sum.builtins[i as int] > u64::MAX);
                    return None;
                },
            }
            i = i + 1;
        }
        let r = ResourceVector { n_steps, n_memory_holes, builtin_counts };
        assert(r@.builtins =~= sum.builtins);
        Some(r)
    }

    /// Every component multiplied by `n`; `None` exactly when a component would exceed `u64::MAX`.
    pub fn checked_scale(&self, n: u64) -> (r: Option<ResourceVector>)
        requires
            self.wf(),
        ensures
            r is Some <==> counts_fit(counts_scale(self@, n as int)),
            r matches Some(v) ==> v.wf() && v@ == counts_scale(self@, n as int),
    {
        let ghost prod = counts_scale(self@, n as int);
        let n_steps = match self.n_steps.checked_mul(n) {
            Some(s) => s,
            None => return None,
        };
        let n_memory_holes = match self.n_memory_holes.checked_mul(n) {
            Some(h) => h,
            None => return None,
        };
        let mut builtin_counts: Vec<u64> = Vec::new();
        let mut i: usize = 0;
        while i < N_BUILTINS
            invariant
                i <= N_BUILTINS,
                self.wf(),
                builtin_counts.len() == i,
                prod == counts_scale(self@, n as int),
                forall|j: int| 0 <= j < i ==> #[trigger] builtin_counts@[j] == self.builtin_counts@[j] * n,
            decreases N_BUILTINS - i,
        {
            match self.builtin_counts[i].checked_mul(n) {
                Some(c) => builtin_counts.push(c),
                None => {
                    assert(prod.builtins[i as int] > u64::MAX);
                    return None;
                },
            }
            i = i + 1;
        }
        let r = ResourceVector { n_steps, n_memory_holes, builtin_counts };
        assert(r@.builtins =~= prod.builtins);
        Some(r)
    }
}

/// Distinct builtins have distinct names.
pub proof fn lemma_builtin_names_distinct(b: Builtin, c: Builtin)
    ensures
        b != c ==> b.spec_name() != c.spec_name(),
{
    reveal_strlit("output_builtin");
    reveal_strlit("pedersen_builtin");
    reveal_strlit("range_check_builtin");
    reveal_strlit("ecdsa_builtin");
    reveal_strlit("bitwise_builtin");
    reveal_strlit("ec_op_builtin");
    reveal_strlit("keccak_builtin");
    reveal_strlit("poseidon_builtin");
    reveal_strlit("segment_arena_builtin");
    let (x, y) = (b.spec_name(), c.spec_name());
    if b != c {
        assert(x.len() != y.len() || x[0] != y[0] || x[1] != y[1] || x[2] != y[2]);
    }
}

/// Whether `name` names a known builtin.
pub open spec fn is_builtin_name(name: Seq<char>) -> bool {
    exists|b: Builtin| b.spec_name() == name
}

/// The count given to the last entry named `name`, or zero when there is none.
pub open spec fn last_count_named(counter: Seq<(String, u64)>, name: Seq<char>) -> int
    decreases counter.len(),
{
    if counter.len() == 0 {
        0
    } else if counter.last().0@ == name {
        counter.last().1 as int
    } else {
        last_count_named(counter.drop_last(), name)
    }
}

/// Addition of resource vectors is commutative.
pub proof fn lemma_add_commutative(a: ResourceCounts, b: ResourceCounts)
    ensures
        counts_add(a, b) == counts_add(b, a),
{
    assert(counts_add(a, b).builtins =~= counts_add(b, a).builtins);
}

/// Addition of resource vectors is associative.
pub proof fn lemma_add_associative(a: ResourceCounts, b: ResourceCounts, c: ResourceCounts)
    ensures
        counts_add(counts_add(a, b), c) == counts_add(a, counts_add(b, c)),
{
    assert(counts_add(counts_add(a, b), c).builtins =~= counts_add(a, counts_add(b, c)).builtins);
}

/// Scaling distributes over addition: `n * (a + b) == n * a + n * b`.
pub proof fn lemma_scale_distributes(a: ResourceCounts, b: ResourceCounts, n: int)
    ensures
        counts_scale(counts_add(a, b), n) == counts_add(counts_scale(a, n), counts_scale(b, n)),
{
    let l = counts_scale(counts_add(a, b), n);
    let r = counts_add(counts_scale(a, n), counts_scale(b, n));
    assert forall|i: int| 0 <= i < N_BUILTINS implies #[trigger] l.builtins[i] == r.builtins[i] by {
        assert((a.builtins[i] + b.builtins[i]) * n == a.builtins[i] * n + b.builtins[i] * n)
            by (nonlinear_arith);
    }
    assert(l.builtins =~= r.builtins);
    assert((a.steps + b.steps) * n == a.steps * n + b.steps * n) by (nonlinear_arith);
    assert((a.memory_holes + b.memory_holes) * n == a.memory_holes * n + b.memory_holes * n)
        by (nonlinear_arith);
}

} // verus!
