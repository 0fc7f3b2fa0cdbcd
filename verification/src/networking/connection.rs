//! Bookkeeping of the static pool of TCP buffer slots.
//!
//! The firmware keeps [`MAX_CONNECTIONS`] pairs of receive/transmit buffers
//! and an atomic bitmask whose bit `i` is set while slot `i` is in use.
//! These functions compute how the mask changes when a slot is claimed or
//! released; the atomic compare-and-swap that publishes the change is done
//! by the caller.

use vstd::prelude::*;

verus! {

/// Number of buffer slots, hence of concurrent connections.
pub const MAX_CONNECTIONS: usize = 4;

/// Number of TCP connection attempts before giving up.
pub const MAX_TCP_RETRIES: usize = 5;

/// Whether bit `i` of the pool mask is set (slot `i` is in use).
pub open spec fn slot_used(mask: u8, i: u8) -> bool {
    (mask >> i) & 1u8 == 1u8
}

/// Number of set bits among the lowest `k` bits of `mask`.
pub open spec fn used_count_below(mask: u8, k: nat) -> nat
    decreases k,
{
    if k == 0 {
        0
    } else {
        used_count_below(mask, (k - 1) as nat) + if slot_used(mask, (k - 1) as u8) {
            1nat
        } else {
            0nat
        }
    }
}

proof fn lemma_bit_test(mask: u8, i: u8)
    requires
        i < 8,
    ensures
        (mask & (1u8 << i) == 0u8) == !slot_used(mask, i),
{
    assert((mask & (1u8 << i) == 0u8) == !((mask >> i) & 1u8 == 1u8)) by (bit_vector)
        requires
            i < 8,
    ;
}

proof fn lemma_set_bit(mask: u8, i: u8, j: u8)
    requires
        i < 8,
        j < 8,
    ensures
        slot_used(mask | (1u8 << i), j) == (j == i || slot_used(mask, j)),
{
    assert(((mask | (1u8 << i)) >> j) & 1u8 == 1u8 <==> (j == i || (mask >> j) & 1u8 == 1u8))
        by (bit_vector)
        requires
            i < 8,
            j < 8,
    ;
}

proof fn lemma_clear_bit(mask: u8, i: u8, j: u8)
    requires
        i < 8,
        j < 8,
    ensures
        slot_used(mask & !(1u8 << i), j) == (j != i && slot_used(mask, j)),
{
    assert(((mask & !(1u8 << i)) >> j) & 1u8 == 1u8 <==> (j != i && (mask >> j) & 1u8 == 1u8))
        by (bit_vector)
        requires
            i < 8,
            j < 8,
    ;
}

/// The first free slot of the pool, if any.
pub fn pick_free_slot(mask: u8) -> (r: Option<usize>)
    ensures
        match r {
            Some(i) => i < MAX_CONNECTIONS && !slot_used(mask, i as u8) && forall|j: u8|
                j < i ==> slot_used(mask, j),
            None => forall|j: u8| j < MAX_CONNECTIONS ==> slot_used(mask, j),
        },
{
    let mut i: usize = 0;
    while i < MAX_CONNECTIONS
        invariant
            i <= MAX_CONNECTIONS,
            forall|j: u8| j < i ==> slot_used(mask, j),
        decreases MAX_CONNECTIONS - i,
    {
        let bit = 1u8 << (i as u8);
        proof {
            lemma_bit_test(mask, i as u8);
        }
        if mask & bit == 0 {
            return Some(i);
        }
        i = i + 1;
    }
    None
}

/// The mask with bit `i` set.
pub open spec fn claimed(mask: u8, i: u8) -> u8 {
    mask | (1u8 << i)
}

/// The mask with bit `i` cleared.
pub open spec fn released(mask: u8, i: u8) -> u8 {
    mask & !(1u8 << i)
}

/// The pool mask once slot `index` is claimed.
pub fn claim_slot(mask: u8, index: usize) -> (r: u8)
    requires
        index < 8,
    ensures
        r == claimed(mask, index as u8),
        forall|j: u8| j < 8 ==> slot_used(r, j) == (j == index || slot_used(mask, j)),
{
    let r = mask | (1u8 << (index as u8));
    proof {
        assert forall|j: u8| j < 8 implies slot_used(r, j) == (j == index || slot_used(mask, j)) by {
            lemma_set_bit(mask, index as u8, j);
        }
    }
    r
}

/// Release a previously claimed buffer slot: the pool mask once slot `index`
/// is free again.
pub fn release_slot(mask: u8, index: usize) -> (r: u8)
    requires
        index < 8,
    ensures
        r == released(mask, index as u8),
        forall|j: u8| j < 8 ==> slot_used(r, j) == (j != index && slot_used(mask, j)),
{
    let r = mask & !(1u8 << (index as u8));
    proof {
        assert forall|j: u8| j < 8 implies slot_used(r, j) == (j != index && slot_used(mask, j)) by {
            lemma_clear_bit(mask, index as u8, j);
        }
    }
    r
}

/// Releasing a slot undoes claiming it: claiming a free slot and then
/// releasing it gives back the mask it started from.
pub proof fn release_undoes_claim(mask: u8, i: u8)
    requires
        i < 8,
        !slot_used(mask, i),
    ensures
        released(claimed(mask, i), i) == mask,
{
    assert(!((mask >> i) & 1u8 == 1u8) ==> (mask | (1u8 << i)) & !(1u8 << i) == mask) by (bit_vector)
        requires
            i < 8,
    ;
}

/// Claiming a slot leaves the claims of the other slots as they were, and
/// marks the claimed one.
pub proof fn claim_is_local(mask: u8, i: u8, j: u8)
    requires
        i < 8,
        j < 8,
    ensures
        slot_used(claimed(mask, i), j) == (j == i || slot_used(mask, j)),
        slot_used(released(mask, i), j) == (j != i && slot_used(mask, j)),
{
    lemma_set_bit(mask, i, j);
    lemma_clear_bit(mask, i, j);
}

/// Number of slots marked in use (the set bits of the whole mask).
pub fn used_slots(mask: u8) -> (n: u32)
    ensures
        n as nat == used_count_below(mask, 8),
{
    let mut n: u32 = 0;
    let mut k: u8 = 0;
    while k < 8
        invariant
            k <= 8,
            n as nat == used_count_below(mask, k as nat),
            n <= k,
        decreases 8 - k,
    {
        if (mask >> k) & 1u8 == 1u8 {
            n = n + 1;
        }
        k = k + 1;
    }
    n
}

/// Whether every slot is taken, so a claim must fail with no free buffers.
pub fn pool_exhausted(mask: u8) -> (r: bool)
    ensures
        r == (used_count_below(mask, 8) >= MAX_CONNECTIONS),
{
    used_slots(mask) as usize >= MAX_CONNECTIONS
}

/// How a TCP connection continues after attempt `attempt` (counting from
/// 1) of [`MAX_TCP_RETRIES`].
#[derive(Debug, Clone, Copy, PartialEq, Eq, Structural)]
pub enum TcpAttempt {
    /// The connection is up.
    Connected,
    /// Try again.
    Retry,
    /// Every attempt failed: release the buffer slot and report the error.
    Failed,
}

/// Decide how connecting continues after an attempt.
pub fn tcp_attempt_step(attempt: usize, connected: bool) -> (r: TcpAttempt)
    requires
        1 <= attempt <= MAX_TCP_RETRIES,
    ensures
        r == if connected {
            TcpAttempt::Connected
        } else if attempt < MAX_TCP_RETRIES {
            TcpAttempt::Retry
        } else {
            TcpAttempt::Failed
        },
{
    if connected {
        TcpAttempt::Connected
    } else if attempt < MAX_TCP_RETRIES {
        TcpAttempt::Retry
    } else {
        TcpAttempt::Failed
    }
}

} // verus!
