//! What the agent tells the cluster about its node, and how it judges the
//! renewals of the node's lease.

use vstd::prelude::*;
use vstd::string::*;

verus! {

/// How many seconds lie between two renewals of the node's lease.
pub const LEASE_RENEWAL_SECONDS: u64 = 10;

/// How many renewals have to fail in a row before the node counts as not
/// ready.
pub const LEASE_FAILURE_LIMIT: u8 = 3;

/// The label that names a node's architecture.
pub const NODE_ARCH_LABEL: &'static str = "kubernetes.io/arch";

/// The key of the taint that keeps pods for other architectures off the node.
pub const ARCH_TAINT_KEY: &'static str = "krustlet/arch";

/// What a taint does to pods that do not tolerate it.
#[derive(Clone, Copy, Debug, PartialEq, Eq, Structural)]
pub enum TaintEffect {
    /// Such pods are not scheduled on the node, and evicted if they run
    /// there.
    NoExecute,
}

impl TaintEffect {
    /// The word by which the control plane knows the effect.
    pub fn as_str(&self) -> (word: &'static str)
        ensures
            word@ == "NoExecute"@,
    {
        "NoExecute"
    }
}

/// A taint of a node.
#[derive(Debug)]
pub struct Taint {
    pub key: String,
    pub value: String,
    pub effect: TaintEffect,
}

/// The label that the node of a provider carries: the architecture label
/// with the provider's architecture.
pub fn arch_label(arch: &str) -> (label: (String, String))
    ensures
        label.0@ == NODE_ARCH_LABEL@,
        label.1@ == arch@,
{
    (String::from_str(NODE_ARCH_LABEL), String::from_str(arch))
}

/// The taint that the node of a provider carries: pods that do not
/// tolerate the provider's architecture are kept off.
pub fn arch_taint(arch: &str) -> (taint: Taint)
    ensures
        taint.key@ == ARCH_TAINT_KEY@,
        taint.value@ == arch@,
        taint.effect == TaintEffect::NoExecute,
{
    Taint {
        key: String::from_str(ARCH_TAINT_KEY),
        value: String::from_str(arch),
        effect: TaintEffect::NoExecute,
    }
}

/// How many of the latest renewals failed in a row, counted up to the limit.
pub open spec fn failures_in_a_row(renewals: Seq<bool>) -> nat
    decreases renewals.len(),
{
    if renewals.len() == 0 || renewals.last() {
        0
    } else {
        let before = failures_in_a_row(renewals.drop_last());
        if before < LEASE_FAILURE_LIMIT {
            before + 1
        } else {
            before
        }
    }
}

/// The node counts as not ready exactly where the latest three renewals have
/// all failed.
pub proof fn lemma_not_ready_after_three(renewals: Seq<bool>)
    ensures
        failures_in_a_row(renewals) <= LEASE_FAILURE_LIMIT,
        failures_in_a_row(renewals) == LEASE_FAILURE_LIMIT <==> (renewals.len() >= 3
            && !renewals[renewals.len() - 1] && !renewals[renewals.len() - 2]
            && !renewals[renewals.len() - 3]),
    decreases renewals.len(),
{
    reveal_with_fuel(failures_in_a_row, 4);
    if renewals.len() > 0 {
        let a = renewals.drop_last();
        lemma_not_ready_after_three(a);
        if a.len() > 0 {
            let b = a.drop_last();
            lemma_not_ready_after_three(b);
            assert(a[a.len() - 1] == renewals[renewals.len() - 2]);
            if b.len() > 0 {
                let c = b.drop_last();
                lemma_not_ready_after_three(c);
                assert(b[b.len() - 1] == renewals[renewals.len() - 3]);
            }
        }
    }
}

/// The judge of the lease's renewals.
pub struct LeaseKeeper {
    failures: u8,
    renewals: Ghost<Seq<bool>>,
}

impl LeaseKeeper {
    #[verifier::type_invariant]
    spec fn inv(self) -> bool {
        self.failures as nat == failures_in_a_row(self.renewals@)
    }

    /// Every renewal so far, oldest first: whether it went well.
    pub closed spec fn renewals(&self) -> Seq<bool> {
        self.renewals@
    }

    /// A judge that has seen no renewal yet.
    pub fn new() -> (keeper: LeaseKeeper)
        ensures
            keeper.renewals() == Seq::<bool>::empty(),
    {
        let renewals: Ghost<Seq<bool>> = Ghost(Seq::empty());
        LeaseKeeper { failures: 0, renewals }
    }

    /// Whether the node counts as ready: it does unless the latest three
    /// renewals have all failed.
    pub fn ready(&self) -> (r: bool)
        ensures
            r == (failures_in_a_row(self.renewals()) < LEASE_FAILURE_LIMIT),
    {
        proof {
            use_type_invariant(self);
        }
        self.failures < LEASE_FAILURE_LIMIT
    }

    /// Takes the outcome of one renewal, and says whether the node has to be
    /// marked as not ready now: it has where this failure is the third in a
    /// row.
    pub fn record(&mut self, renewed: bool) -> (mark_not_ready: bool)
        ensures
            final(self).renewals() == old(self).renewals().push(renewed),
            mark_not_ready == (failures_in_a_row(old(self).renewals()) < LEASE_FAILURE_LIMIT
                && failures_in_a_row(final(self).renewals()) == LEASE_FAILURE_LIMIT),
    {
        proof {
            use_type_invariant(&*self);
            lemma_not_ready_after_three(self.renewals@);
        }
        let before = self.failures;
        let ghost history = self.renewals@.push(renewed);
        assert(history.drop_last() =~= self.renewals@);
        let after: u8 = if renewed {
            0
        } else if before < LEASE_FAILURE_LIMIT {
            before + 1
        } else {
            before
        };
        let renewals: Ghost<Seq<bool>> = Ghost(history);
        let mut next = LeaseKeeper { failures: after, renewals };
        core::mem::swap(self, &mut next);
        before < LEASE_FAILURE_LIMIT && after == LEASE_FAILURE_LIMIT
    }
}

} // verus!
