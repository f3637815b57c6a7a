//! How a request is cut into chunks: every chunk is as large as the cap
//! allows, and the last one takes what is left.

use vstd::prelude::*;

verus! {

/// No chunk is larger than this many bytes (ten mebibytes).
pub const CHUNK_CAP: usize = 10485760;

/// The size of the chunk to claim next when `allocated` of `requested`
/// bytes are already held: the cap, or what is missing if that is less.
/// Zero when nothing is missing.
pub open spec fn chunk_size_after(requested: nat, allocated: nat) -> nat {
    if allocated >= requested {
        0
    } else if requested - allocated < CHUNK_CAP {
        (requested - allocated) as nat
    } else {
        CHUNK_CAP as nat
    }
}

/// How many chunks a request of `requested` bytes takes.
pub open spec fn chunk_count(requested: nat) -> nat {
    (requested + CHUNK_CAP - 1) as nat / (CHUNK_CAP as nat)
}

/// How many bytes the first `k` chunks of a request hold together.
pub open spec fn held_after(requested: nat, k: nat) -> nat {
    if k * (CHUNK_CAP as nat) < requested {
        k * (CHUNK_CAP as nat)
    } else {
        requested
    }
}

/// The size of chunk number `i` (from zero) of a request.
pub open spec fn planned_chunk(requested: nat, i: nat) -> nat {
    chunk_size_after(requested, i * (CHUNK_CAP as nat))
}

/// The sizes of all the chunks of a request, in the order they are claimed.
pub open spec fn chunk_plan(requested: nat) -> Seq<nat> {
    Seq::new(chunk_count(requested), |i: int| planned_chunk(requested, i as nat))
}

/// The sum of a sequence of sizes.
pub open spec fn total(sizes: Seq<nat>) -> nat
    decreases sizes.len(),
{
    if sizes.len() == 0 {
        0
    } else {
        total(sizes.drop_last()) + sizes.last()
    }
}

/// The size of the next chunk to claim.
pub fn next_chunk_size(requested: usize, allocated: usize) -> (size: usize)
    ensures
        size == chunk_size_after(requested as nat, allocated as nat),
{
    if allocated >= requested {
        0
    } else if requested - allocated < CHUNK_CAP {
        requested - allocated
    } else {
        CHUNK_CAP
    }
}

/// Chunk `i` is part of the plan exactly when the chunks before it fall
/// short of the request.
pub proof fn lemma_chunk_count(requested: nat, i: nat)
    ensures
        i < chunk_count(requested) <==> i * CHUNK_CAP < requested,
{
    let cap = CHUNK_CAP as int;
    let n = chunk_count(requested) as int;
    assert(n * cap <= requested + cap - 1 < (n + 1) * cap) by (nonlinear_arith)
        requires
            n == (requested + cap - 1) / cap,
            cap > 0,
    ;
    if i < n {
        assert(i * cap <= (n - 1) * cap) by (nonlinear_arith)
            requires
                i <= n - 1,
                cap > 0,
        ;
        assert((n - 1) * cap == n * cap - cap) by (nonlinear_arith);
    } else {
        assert(i * cap >= n * cap) by (nonlinear_arith)
            requires
                i >= n,
                cap > 0,
        ;
        assert((n + 1) * cap == n * cap + cap) by (nonlinear_arith);
    }
}

/// Claiming one more chunk raises what is held by exactly that chunk.
pub proof fn lemma_held_step(requested: nat, k: nat)
    ensures
        held_after(requested, k + 1) == held_after(requested, k) + planned_chunk(requested, k),
{
    assert((k + 1) * CHUNK_CAP == k * CHUNK_CAP + CHUNK_CAP) by (nonlinear_arith);
}

/// The first `k` sizes of the plan add up to what is held after `k` chunks.
pub proof fn lemma_plan_prefix_total(requested: nat, k: nat)
    requires
        k <= chunk_count(requested),
    ensures
        total(chunk_plan(requested).take(k as int)) == held_after(requested, k),
    decreases k,
{
    let prefix = chunk_plan(requested).take(k as int);
    if k == 0 {
        assert(0 * CHUNK_CAP == 0);
    } else {
        let before = (k - 1) as nat;
        lemma_plan_prefix_total(requested, before);
        assert(prefix.drop_last() =~= chunk_plan(requested).take(before as int));
        assert(prefix.last() == planned_chunk(requested, before));
        lemma_held_step(requested, before);
    }
}

/// The plan of a request: every chunk holds at least one byte and at most
/// the cap, every chunk but the last is a full one, and together they hold
/// exactly what was asked for.
pub proof fn lemma_chunk_plan(requested: nat)
    ensures
        forall|i: int|
            0 <= i < chunk_plan(requested).len() ==> 0 < #[trigger] chunk_plan(requested)[i]
                <= CHUNK_CAP,
        forall|i: int|
            0 <= i < chunk_plan(requested).len() - 1 ==> #[trigger] chunk_plan(requested)[i]
                == CHUNK_CAP,
        total(chunk_plan(requested)) == requested,
{
    let plan = chunk_plan(requested);
    let n = chunk_count(requested);
    assert forall|i: int| 0 <= i < plan.len() implies 0 < #[trigger] plan[i] <= CHUNK_CAP by {
        lemma_chunk_count(requested, i as nat);
    }
    assert forall|i: int| 0 <= i < plan.len() - 1 implies #[trigger] plan[i] == CHUNK_CAP by {
        lemma_chunk_count(requested, (i + 1) as nat);
        assert((i + 1) * CHUNK_CAP == i * CHUNK_CAP + CHUNK_CAP) by (nonlinear_arith);
    }
    lemma_plan_prefix_total(requested, n);
    assert(plan.take(n as int) =~= plan);
    lemma_chunk_count(requested, n);
}

} // verus!
