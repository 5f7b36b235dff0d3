//! The threshold policy: how many nodes there are, how many of them must
//! take part, and by which numbers they are known.

use crate::error::LheError;
use vstd::prelude::*;
use vstd::slice::slice_to_vec;

verus! {

/// A policy `(t, n)` with the numbers of its nodes.
#[derive(Clone, Debug, PartialEq)]
pub struct ThresholdPolicy {
    /// How many shares are needed to decrypt.
    pub t: usize,
    /// How many nodes hold a share.
    pub n: usize,
    /// The numbers by which the nodes are known.
    pub indices: Vec<u16>,
}

/// The number of the `k`-th node, counted from zero, in the canonical
/// numbering `1..n`. The numbering wraps where it passes sixteen bits.
pub open spec fn canonical_index(k: int) -> u16 {
    ((k + 1) % 65536) as u16
}

/// The canonical numbering of `n` nodes: `1, 2, .., n`.
pub open spec fn canonical_indices(n: nat) -> Seq<u16> {
    Seq::new(n, |k: int| canonical_index(k))
}

/// The most nodes that the canonical numbering can tell apart: beyond it the
/// numbers `1..n` no longer fit sixteen bits.
pub const MAX_CANONICAL: usize = 65535;

/// What is wrong with a policy `(t, n)` that is to be numbered canonically:
/// `Policy` where `t > n`, `t == 0` or `n < 3`; otherwise `Parameter` where
/// it has more nodes than the canonical numbering can tell apart.
pub open spec fn canonical_fault(t: int, n: int) -> Option<LheError> {
    if !valid_policy(t, n) {
        Some(LheError::Policy)
    } else if n > MAX_CANONICAL {
        Some(LheError::Parameter)
    } else {
        None
    }
}

/// Whether `(t, n)` is a policy at all: at least three nodes, and a threshold
/// between one and their number.
pub open spec fn valid_policy(t: int, n: int) -> bool {
    n >= 3 && 1 <= t <= n
}

/// What a policy holds.
pub struct PolicyView {
    pub t: int,
    pub n: int,
    pub indices: Seq<u16>,
}

impl PolicyView {
    /// Whether the policy has the right shape: it names no more nodes than it
    /// has.
    pub open spec fn shaped(self) -> bool {
        self.indices.len() <= self.n
    }

    /// Whether the policy's numbers are valid.
    pub open spec fn valid(self) -> bool {
        valid_policy(self.t, self.n)
    }
}

/// The policy `(t, n)` in its canonical numbering.
pub open spec fn canonical_policy(t: int, n: int) -> PolicyView {
    PolicyView { t, n, indices: canonical_indices(n as nat) }
}

impl View for ThresholdPolicy {
    type V = PolicyView;

    open spec fn view(&self) -> PolicyView {
        PolicyView { t: self.t as int, n: self.n as int, indices: self.indices@ }
    }
}

impl ThresholdPolicy {

    /// The policy in the shape that names its nodes. Only the shape is
    /// looked at: `Parameter` where more than `n` nodes are named. Whether
    /// `(t, n)` is valid is asked when a context is derived from the policy.
    pub fn explicit(t: usize, n: usize, indices: &[u16]) -> (r: Result<Self, LheError>)
        ensures
            match r {
                Ok(p) => indices@.len() <= n && p@ == (PolicyView {
                    t: t as int,
                    n: n as int,
                    indices: indices@,
                }),
                Err(e) => e == LheError::Parameter && indices@.len() > n,
            },
    {
        if indices.len() > n {
            return Err(LheError::Parameter);
        }
        Ok(ThresholdPolicy { t, n, indices: slice_to_vec(indices) })
    }

    /// The policy in the shape that leaves the numbering out: the nodes are
    /// `1, 2, .., n`.
    pub fn canonical(t: usize, n: usize) -> (p: Self)
        ensures
            p@ == canonical_policy(t as int, n as int),
            p@.shaped(),
    {
        ThresholdPolicy { t, n, indices: canonical(n) }
    }

    /// A copy of the policy.
    pub fn copy(&self) -> (p: Self)
        ensures
            p@ == self@,
    {
        ThresholdPolicy { t: self.t, n: self.n, indices: slice_to_vec(self.indices.as_slice()) }
    }

    /// Accepts the policy where a context can be derived from it: `Policy`
    /// where `t > n`, `t == 0` or `n < 3`; otherwise `Parameter` where more
    /// than `n` nodes are named.
    pub fn check(&self) -> (r: Result<(), LheError>)
        ensures
            match r {
                Ok(_) => self@.valid() && self@.shaped(),
                Err(e) => if self@.valid() {
                    e == LheError::Parameter && !self@.shaped()
                } else {
                    e == LheError::Policy
                },
            },
    {
        check_policy(self.t, self.n)?;
        if self.indices.len() > self.n {
            return Err(LheError::Parameter);
        }
        Ok(())
    }

    /// Whether `index` is the number of one of the policy's nodes.
    pub fn has_index(&self, index: u16) -> (found: bool)
        ensures
            found == self.indices@.contains(index),
    {
        let mut i: usize = 0;
        while i < self.indices.len()
            invariant
                i <= self.indices@.len(),
                forall|j: int| 0 <= j < i ==> self.indices@[j] != index,
            decreases self.indices@.len() - i,
        {
            if self.indices[i] == index {
                return true;
            }
            i += 1;
        }
        false
    }

    /// Whether every one of `chosen` is the number of one of the policy's
    /// nodes.
    pub fn has_all(&self, chosen: &[u16]) -> (all: bool)
        ensures
            all == forall|j: int| 0 <= j < chosen@.len() ==> self.indices@.contains(chosen@[j]),
    {
        let mut i: usize = 0;
        while i < chosen.len()
            invariant
                i <= chosen@.len(),
                forall|j: int| 0 <= j < i ==> self.indices@.contains(chosen@[j]),
            decreases chosen@.len() - i,
        {
            if !self.has_index(chosen[i]) {
                return false;
            }
            i += 1;
        }
        true
    }
}

/// Accepts `(t, n)` where it is a policy; `Policy` where `t > n`, `t == 0` or
/// `n < 3`.
pub fn check_policy(t: usize, n: usize) -> (r: Result<(), LheError>)
    ensures
        match r {
            Ok(_) => valid_policy(t as int, n as int),
            Err(e) => e == LheError::Policy && !valid_policy(t as int, n as int),
        },
{
    if n < 3 || t == 0 || t > n {
        Err(LheError::Policy)
    } else {
        Ok(())
    }
}

/// Accepts `(t, n)` as a policy that can be numbered canonically, or says
/// what is wrong with it.
pub fn check_canonical(t: usize, n: usize) -> (r: Result<(), LheError>)
    ensures
        match r {
            Ok(_) => canonical_fault(t as int, n as int).is_none(),
            Err(e) => canonical_fault(t as int, n as int) == Some(e),
        },
{
    check_policy(t, n)?;
    if n > MAX_CANONICAL {
        return Err(LheError::Parameter);
    }
    Ok(())
}

/// The canonical numbering of `n` nodes.
pub fn canonical(n: usize) -> (indices: Vec<u16>)
    ensures
        indices@ == canonical_indices(n as nat),
{
    let mut indices: Vec<u16> = Vec::new();
    let mut i: usize = 0;
    while i < n
        invariant
            i <= n,
            indices@ == canonical_indices(i as nat),
        decreases n - i,
    {
        i += 1;
        indices.push((i % 65536) as u16);
        assert(indices@ =~= canonical_indices(i as nat));
    }
    indices
}

/// The two shapes of a policy agree: naming the nodes `1, 2, .., n` gives the
/// policy that leaving the numbering out gives. Up to 65535 nodes the
/// canonical numbers are the numbers `1..n` themselves, each once.
pub proof fn lemma_canonical_shape(n: nat)
    ensures
        canonical_indices(n).len() == n,
        forall|k: int| 0 <= k < n && k < 65535 ==> #[trigger] canonical_indices(n)[k] == k + 1,
        n <= 65535 ==> forall|i: u16| 1 <= i <= n <==> #[trigger] canonical_indices(n).contains(i),
{
    if n <= 65535 {
        assert forall|i: u16| 1 <= i <= n implies #[trigger] canonical_indices(n).contains(i) by {
            assert(canonical_indices(n)[i - 1] == i);
        }
    }
}

} // verus!
