//! Processor affinity: which threads of the processor a process may run on.

use vstd::arithmetic::div_mod::{lemma_mod_breakdown, lemma_small_mod};
use vstd::arithmetic::power2::{
    lemma2_to64, lemma_pow2_adds, lemma_pow2_pos, lemma_pow2_unfold, pow2,
};
use vstd::bits::lemma_usize_shr_is_div;
use vstd::prelude::*;

verus! {

/// Whether a mask selects the logical thread `thread`.
pub open spec fn selects(mask: usize, thread: usize) -> bool {
    (mask >> thread) & 1 == 1
}

/// Whether a thread is the first one of its physical core, where `core_of` says
/// for each logical thread which core it belongs to.
pub open spec fn is_first_thread(core_of: Seq<usize>, thread: int) -> bool {
    0 <= thread < core_of.len() && forall|u: int|
        0 <= u < thread ==> #[trigger] core_of[u] != core_of[thread]
}

/// Whether a mask selects the first thread of every physical core and nothing
/// else.
pub open spec fn selects_physical_cores(mask: usize, core_of: Seq<usize>) -> bool {
    forall|thread: usize|
        thread < usize::BITS ==> (#[trigger] selects(mask, thread) <==> is_first_thread(
            core_of,
            thread as int,
        ))
}

/// The sum of two to the number of each of the first `n` threads that is the
/// first one of its core.
pub open spec fn first_threads_value(core_of: Seq<usize>, n: nat) -> nat
    decreases n,
{
    if n == 0 {
        0
    } else {
        first_threads_value(core_of, (n - 1) as nat) + if is_first_thread(core_of, n - 1) {
            pow2((n - 1) as nat)
        } else {
            0
        }
    }
}

/// Tells whether a mask selects a thread.
fn is_selected(mask: usize, thread: usize) -> (selected: bool)
    requires
        thread < usize::BITS,
    ensures
        selected == selects(mask, thread),
{
    (mask >> thread) & 1 == 1
}

/// Whether `core` is the first of the cores, given by the masks of their threads,
/// that `thread` belongs to.
pub open spec fn is_core_of(core_masks: Seq<usize>, thread: usize, core: int) -> bool {
    0 <= core < core_masks.len() && selects(core_masks[core], thread) && forall|c: int|
        0 <= c < core ==> !selects(#[trigger] core_masks[c], thread)
}

/// Whether none of the cores has the thread.
pub open spec fn is_stray(core_masks: Seq<usize>, thread: usize) -> bool {
    forall|c: int| 0 <= c < core_masks.len() ==> !selects(#[trigger] core_masks[c], thread)
}

/// Whether `core_of` says which core each thread belongs to: the first of the
/// cores that have it. A thread that no core has counts as a core of its own,
/// numbered behind the others.
pub open spec fn assigns_cores(core_of: Seq<usize>, core_masks: Seq<usize>) -> bool {
    forall|t: usize|
        t < core_of.len() ==> {
            ||| is_core_of(core_masks, t, (#[trigger] core_of[t as int]) as int)
            ||| is_stray(core_masks, t) && core_of[t as int] == core_masks.len() + t
        }
}

/// Which core each of the first `thread_count` logical threads belongs to, from
/// the masks of the threads of each core.
pub fn cores_of_threads(core_masks: &Vec<usize>, thread_count: usize) -> (core_of: Vec<usize>)
    requires
        thread_count <= usize::BITS,
        core_masks.len() + thread_count <= usize::MAX,
    ensures
        core_of.len() == thread_count,
        assigns_cores(core_of@, core_masks@),
{
    let mut core_of: Vec<usize> = Vec::new();
    let mut t: usize = 0;
    while t < thread_count
        invariant
            t <= thread_count <= usize::BITS,
            core_masks.len() + thread_count <= usize::MAX,
            core_of.len() == t,
            assigns_cores(core_of@, core_masks@),
        decreases thread_count - t,
    {
        let mut core: usize = 0;
        while core < core_masks.len() && !is_selected(core_masks[core], t)
            invariant
                core <= core_masks.len(),
                t < usize::BITS,
                forall|c: int| 0 <= c < core ==> !selects(#[trigger] core_masks@[c], t),
            decreases core_masks.len() - core,
        {
            core = core + 1;
        }
        if core == core_masks.len() {
            core_of.push(core_masks.len() + t);
        } else {
            core_of.push(core);
        }
        t = t + 1;
    }
    core_of
}

/// Where no thread belongs to two cores, two threads count as threads of one core
/// exactly when some core has both.
pub proof fn law_threads_share_a_core(
    core_of: Seq<usize>,
    core_masks: Seq<usize>,
    t: usize,
    u: usize,
)
    requires
        assigns_cores(core_of, core_masks),
        t < core_of.len(),
        u < core_of.len(),
        t != u,
        forall|c: int, d: int, k: usize|
            0 <= c < d < core_masks.len() && k < core_of.len() ==> !(#[trigger] selects(
                core_masks[c],
                k,
            ) && #[trigger] selects(core_masks[d], k)),
    ensures
        core_of[t as int] == core_of[u as int] <==> exists|c: int|
            0 <= c < core_masks.len() && selects(#[trigger] core_masks[c], t) && selects(
                core_masks[c],
                u,
            ),
{
    let (a, b) = (core_of[t as int] as int, core_of[u as int] as int);
    assert(is_core_of(core_masks, t, a) || is_stray(core_masks, t) && a == core_masks.len() + t);
    assert(is_core_of(core_masks, u, b) || is_stray(core_masks, u) && b == core_masks.len() + u);
    if exists|c: int|
        0 <= c < core_masks.len() && selects(#[trigger] core_masks[c], t) && selects(
            core_masks[c],
            u,
        ) {
        let c = choose|c: int|
            0 <= c < core_masks.len() && selects(#[trigger] core_masks[c], t) && selects(
                core_masks[c],
                u,
            );
        assert(selects(core_masks[a], t) && selects(core_masks[b], u));
        assert(a == c && b == c);
    }
    if a == b && a < core_masks.len() {
        assert(selects(core_masks[a], t) && selects(core_masks[a], u));
    }
}

/// The mask that selects only the first thread of every physical core, where
/// `core_of` says for each logical thread which core it belongs to. As a number
/// it is the sum of two to the number of each such thread.
pub fn get_physical_core_mask(core_of: &Vec<usize>) -> (mask: usize)
    requires
        core_of.len() <= usize::BITS,
    ensures
        selects_physical_cores(mask, core_of@),
        mask == first_threads_value(core_of@, core_of@.len()),
{
    let mut mask: usize = 0;
    let mut i: usize = 0;
    proof {
        assert forall|thread: usize| thread < usize::BITS implies !(#[trigger] selects(
            mask,
            thread,
        )) by {
            assert((0usize >> thread) & 1 == 0) by (bit_vector);
        }
    }
    while i < core_of.len()
        invariant
            i <= core_of.len() <= usize::BITS,
            forall|thread: usize|
                thread < usize::BITS ==> (#[trigger] selects(mask, thread) <==> thread < i
                    && is_first_thread(core_of@, thread as int)),
        decreases core_of.len() - i,
    {
        let ghost before = mask;
        let mut u: usize = 0;
        while u < i && core_of[u] != core_of[i]
            invariant
                u <= i < core_of.len(),
                forall|k: int| 0 <= k < u ==> #[trigger] core_of@[k] != core_of@[i as int],
            decreases i - u,
        {
            u = u + 1;
        }
        if u == i {
            mask = mask | (1usize << i);
            proof {
                assert forall|thread: usize| thread < usize::BITS implies (#[trigger] selects(
                    mask,
                    thread,
                ) <==> thread == i || selects(before, thread)) by {
                    assert(((before | (1usize << i)) >> thread) & 1 == 1 <==> (thread == i || (
                    before >> thread) & 1 == 1)) by (bit_vector)
                        requires
                            thread < usize::BITS,
                            i < usize::BITS,
                    ;
                }
            }
        } else {
            assert(core_of@[u as int] == core_of@[i as int]);
        }
        i = i + 1;
    }
    proof {
        lemma_mask_value(mask, core_of@);
    }
    mask
}

/// Whether a mask selects a thread of `core`.
pub open spec fn core_in_use(mask: usize, core_of: Seq<usize>, core: usize) -> bool {
    exists|u: usize|
        u < core_of.len() && #[trigger] selects(mask, u) && core_of[u as int] == core
}

/// A process that is held to such a mask has one thread of every physical core:
/// every core has a selected thread, no two selected threads share a core, and
/// none is selected that the processor lacks.
pub proof fn law_one_thread_of_every_core(mask: usize, core_of: Seq<usize>)
    requires
        core_of.len() <= usize::BITS,
        selects_physical_cores(mask, core_of),
    ensures
        forall|t: int|
            0 <= t < core_of.len() ==> core_in_use(mask, core_of, #[trigger] core_of[t]),
        forall|t: usize, u: usize|
            t < usize::BITS && u < usize::BITS && t != u && #[trigger] selects(mask, t)
                && #[trigger] selects(mask, u) ==> core_of[t as int] != core_of[u as int],
        forall|t: usize|
            core_of.len() <= t < usize::BITS ==> !(#[trigger] selects(mask, t)),
{
    assert forall|t: int| 0 <= t < core_of.len() implies core_in_use(
        mask,
        core_of,
        #[trigger] core_of[t],
    ) by {
        let u = lemma_first_of_core(core_of, t);
        assert(selects(mask, u as usize));
    }
}

/// Every core has a first thread.
proof fn lemma_first_of_core(core_of: Seq<usize>, thread: int) -> (first: int)
    requires
        0 <= thread < core_of.len(),
    ensures
        is_first_thread(core_of, first),
        core_of[first] == core_of[thread],
    decreases thread,
{
    if is_first_thread(core_of, thread) {
        thread
    } else {
        let u = choose|u: int| 0 <= u < thread && #[trigger] core_of[u] == core_of[thread];
        lemma_first_of_core(core_of, u)
    }
}

/// Without threads that share a core every thread is selected.
pub proof fn law_single_threaded_cores(mask: usize, core_of: Seq<usize>)
    requires
        selects_physical_cores(mask, core_of),
        core_of.no_duplicates(),
    ensures
        forall|thread: usize|
            thread < usize::BITS ==> (#[trigger] selects(mask, thread) <==> thread
                < core_of.len()),
{
}

/// There is one mask of the physical cores only.
pub proof fn law_physical_core_mask_unique(mask: usize, other: usize, core_of: Seq<usize>)
    requires
        core_of.len() <= usize::BITS,
        selects_physical_cores(mask, core_of),
        selects_physical_cores(other, core_of),
    ensures
        mask == other,
{
    lemma_mask_value(mask, core_of);
    lemma_mask_value(other, core_of);
}

/// A mask is the sum of two to the number of each thread that it selects.
proof fn lemma_mask_value(mask: usize, core_of: Seq<usize>)
    requires
        core_of.len() <= usize::BITS,
        selects_physical_cores(mask, core_of),
    ensures
        mask == first_threads_value(core_of, core_of.len()),
{
    lemma_low_bits_value(mask, core_of, usize::BITS as nat);
    lemma_whole_width(mask);
    lemma_value_past_the_last(core_of, usize::BITS as nat);
}

proof fn lemma_low_bits_value(mask: usize, core_of: Seq<usize>, n: nat)
    requires
        n <= usize::BITS,
        selects_physical_cores(mask, core_of),
    ensures
        mask as int % pow2(n) as int == first_threads_value(core_of, n),
    decreases n,
{
    if n > 0 {
        let m = (n - 1) as nat;
        lemma_low_bits_value(mask, core_of, m);
        lemma_low_bits(mask, m);
        assert(selects(mask, m as usize) <==> is_first_thread(core_of, m as int));
    } else {
        lemma2_to64();
    }
}

/// Past the last thread nothing is added.
proof fn lemma_value_past_the_last(core_of: Seq<usize>, n: nat)
    requires
        n >= core_of.len(),
    ensures
        first_threads_value(core_of, n) == first_threads_value(core_of, core_of.len()),
    decreases n,
{
    if n > core_of.len() {
        lemma_value_past_the_last(core_of, (n - 1) as nat);
    }
}

/// The number that the first `n + 1` bits of a mask make is that of the first
/// `n`, and two to the `n` more where the mask selects thread `n`.
proof fn lemma_low_bits(mask: usize, n: nat)
    requires
        n < usize::BITS,
    ensures
        mask as int % pow2(n + 1) as int == mask as int % pow2(n) as int + if selects(
            mask,
            n as usize,
        ) {
            pow2(n) as int
        } else {
            0
        },
{
    let shifted = mask >> (n as usize);
    lemma_pow2_pos(n);
    lemma_pow2_unfold(n + 1);
    lemma_usize_shr_is_div(mask, n as usize);
    assert(shifted & 1 == shifted % 2) by (bit_vector);
    let (low, bit) = (mask as int % pow2(n) as int, shifted as int % 2);
    assert(mask as int % pow2(n + 1) as int == pow2(n) * bit + low) by {
        lemma_mod_breakdown(mask as int, pow2(n) as int, 2);
        assert(pow2(n + 1) == pow2(n) * 2);
        assert(shifted as int == mask as int / pow2(n) as int);
    }
    assert(pow2(n) * bit == if bit == 1 {
        pow2(n) as int
    } else {
        0
    }) by (nonlinear_arith)
        requires
            bit == 0 || bit == 1,
    ;
}

/// All the bits of a mask make the mask.
proof fn lemma_whole_width(mask: usize)
    ensures
        mask as int % pow2(usize::BITS as nat) as int == mask,
{
    lemma2_to64();
    lemma_small_mod(mask as nat, pow2(usize::BITS as nat));
}

/// Whether every two threads in a row share a core, and no others do.
pub open spec fn two_threads_each(core_of: Seq<usize>) -> bool {
    forall|t: int, u: int|
        0 <= t < core_of.len() && 0 <= u < core_of.len() ==> (#[trigger] core_of[t]
            == #[trigger] core_of[u] <==> t / 2 == u / 2)
}

/// How many of the first `n` threads a mask selects.
pub open spec fn selected_below(mask: usize, n: nat) -> nat
    decreases n,
{
    if n == 0 {
        0
    } else {
        selected_below(mask, (n - 1) as nat) + if selects(mask, (n - 1) as usize) {
            1nat
        } else {
            0
        }
    }
}

/// On a processor with two threads to a core the even threads are selected: half
/// as many as there are, rounded up. As a number the mask is then the sum of
/// the powers of four below two to the number of threads.
pub proof fn law_one_thread_per_core(mask: usize, core_of: Seq<usize>)
    requires
        core_of.len() <= usize::BITS,
        selects_physical_cores(mask, core_of),
        two_threads_each(core_of),
    ensures
        forall|thread: usize|
            thread < usize::BITS ==> (#[trigger] selects(mask, thread) <==> thread < core_of.len()
                && thread % 2 == 0),
        selected_below(mask, usize::BITS as nat) == (core_of.len() + 1) / 2,
        3 * mask + 1 == pow2(2 * ((core_of.len() + 1) / 2)),
{
    assert forall|thread: usize| thread < usize::BITS implies (#[trigger] selects(mask, thread)
        <==> thread < core_of.len() && thread % 2 == 0) by {
        let t = thread as int;
        if t < core_of.len() && t % 2 == 1 {
            assert(core_of[t - 1] == core_of[t]);
        }
    }
    lemma_even_threads(mask, core_of.len(), usize::BITS as nat);
    lemma_whole_width(mask);
}

proof fn lemma_even_threads(mask: usize, thread_count: nat, n: nat)
    requires
        thread_count <= usize::BITS,
        n <= usize::BITS,
        forall|thread: usize|
            thread < usize::BITS ==> (#[trigger] selects(mask, thread) <==> thread < thread_count
                && thread % 2 == 0),
    ensures
        n <= thread_count ==> selected_below(mask, n) == (n + 1) / 2,
        n <= thread_count ==> 3 * (mask as int % pow2(n) as int) + 1 == pow2(2 * ((n + 1) / 2)),
        n >= thread_count ==> selected_below(mask, n) == (thread_count + 1) / 2,
        n >= thread_count ==> 3 * (mask as int % pow2(n) as int) + 1 == pow2(
            2 * ((thread_count + 1) / 2),
        ),
    decreases n,
{
    if n > 0 {
        let m = (n - 1) as nat;
        lemma_even_threads(mask, thread_count, m);
        lemma_low_bits(mask, m);
        assert(selects(mask, m as usize) <==> m < thread_count && m % 2 == 0);
        lemma_pow2_unfold(m + 1);
        lemma_pow2_unfold(m + 2);
    } else {
        lemma2_to64();
    }
}

/// A mask selects a thread exactly when the binary digit of that place is one.
pub proof fn law_selects_is_binary_digit(mask: usize, thread: usize)
    requires
        thread < usize::BITS,
    ensures
        selects(mask, thread) <==> (mask as nat / pow2(thread as nat)) % 2 == 1,
{
    let shifted = mask >> thread;
    lemma_usize_shr_is_div(mask, thread);
    assert(shifted & 1 == shifted % 2) by (bit_vector);
}

/// The mask of the physical cores has a one in the place of a thread exactly when
/// the thread is there and no thread before it is of the same core.
pub proof fn law_mask_has_the_first_threads(mask: usize, core_of: Seq<usize>, thread: usize)
    requires
        core_of.len() <= usize::BITS,
        selects_physical_cores(mask, core_of),
        thread < usize::BITS,
    ensures
        (mask as nat / pow2(thread as nat)) % 2 == 1 <==> thread < core_of.len() && forall|u: int|
            0 <= u < thread ==> #[trigger] core_of[u] != core_of[thread as int],
{
    law_selects_is_binary_digit(mask, thread);
    assert(selects(mask, thread) <==> is_first_thread(core_of, thread as int));
}

/// The value of the first threads is the one number that has those ones.
pub proof fn law_first_threads_value(mask: usize, core_of: Seq<usize>)
    requires
        core_of.len() <= usize::BITS,
        mask == first_threads_value(core_of, core_of.len()),
    ensures
        selects_physical_cores(mask, core_of),
{
    assert forall|thread: usize| thread < usize::BITS implies (#[trigger] selects(mask, thread)
        <==> is_first_thread(core_of, thread as int)) by {
        law_selects_is_binary_digit(mask, thread);
        lemma_value_past_the_last(core_of, usize::BITS as nat);
        lemma_value_has_digit(core_of, usize::BITS as nat, thread as nat);
    }
}

/// The value of the first `n` threads is below two to the `n`.
proof fn lemma_value_bound(core_of: Seq<usize>, n: nat)
    ensures
        first_threads_value(core_of, n) < pow2(n),
    decreases n,
{
    if n > 0 {
        lemma_value_bound(core_of, (n - 1) as nat);
        lemma_pow2_unfold(n);
    } else {
        lemma2_to64();
    }
}

/// The value of the first `n` threads has a one exactly in the places of threads
/// that are the first of their core.
proof fn lemma_value_has_digit(core_of: Seq<usize>, n: nat, t: nat)
    requires
        t < n,
    ensures
        (first_threads_value(core_of, n) / pow2(t)) % 2 == 1 <==> is_first_thread(
            core_of,
            t as int,
        ),
    decreases n,
{
    let m = (n - 1) as nat;
    let (rest, p) = (first_threads_value(core_of, m), pow2(t));
    lemma_pow2_pos(t);
    if t == m {
        lemma_value_bound(core_of, m);
        assert(rest / p == 0 && (rest + p) / p == 1) by (nonlinear_arith)
            requires
                rest < p,
                p > 0,
        ;
    } else {
        lemma_value_has_digit(core_of, m, t);
        let q = pow2((m - t - 1) as nat);
        lemma_pow2_adds(t, (m - t) as nat);
        lemma_pow2_unfold((m - t) as nat);
        assert(pow2(m) == p * (2 * q));
        assert((rest + p * (2 * q)) / p == rest / p + 2 * q) by {
            vstd::arithmetic::div_mod::lemma_hoist_over_denominator(
                rest as int,
                (2 * q) as int,
                p,
            );
            assert(p * (2 * q) == (2 * q) * p) by (nonlinear_arith);
        }
    }
}

/// A thread belongs to a core that has it, to the first one if there are more. One
/// that none has is given a number that no core and no other thread is given.
pub proof fn law_threads_belong_to_cores(core_of: Seq<usize>, core_masks: Seq<usize>, t: usize)
    requires
        assigns_cores(core_of, core_masks),
        t < core_of.len(),
        t < usize::BITS,
    ensures
        forall|c: int|
            0 <= c < core_masks.len() && (#[trigger] core_masks[c] as nat / pow2(t as nat)) % 2 == 1
                ==> core_of[t as int] <= c,
        core_of[t as int] < core_masks.len() ==> (core_masks[core_of[t as int] as int] as nat
            / pow2(t as nat)) % 2 == 1,
        core_of[t as int] >= core_masks.len() ==> core_of[t as int] == core_masks.len() + t,
{
    let a = core_of[t as int] as int;
    assert(is_core_of(core_masks, t, a) || is_stray(core_masks, t) && a == core_masks.len() + t);
    assert forall|c: int|
        0 <= c < core_masks.len() && (#[trigger] core_masks[c] as nat / pow2(t as nat)) % 2
            == 1 implies core_of[t as int] <= c by {
        law_selects_is_binary_digit(core_masks[c], t);
    }
    if a < core_masks.len() {
        law_selects_is_binary_digit(core_masks[a], t);
    }
}

} // verus!
