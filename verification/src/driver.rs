//! The per-tick decisions of the crank control loop: the admission gates,
//! the worker-count scaling, the dispatched owner set, and the slot
//! watermark that keeps concurrent workers from redoing submitted work.

use vstd::prelude::*;

use crate::keys::Pubkey;
use crate::owners::{collect_owner_accounts, owner_accounts, owners_of, sorted_strict};
use crate::queue::Event;

verus! {

/// What one tick of the control loop decides.
pub enum TickDecision {
    /// The fetched queue is no newer than the one already dispatched for.
    Stale,
    /// No live events.
    Empty,
    /// A recent crank and a short queue: wait.
    Throttled,
    /// Dispatch this many workers over this ordered owner set.
    Dispatch { worker_count: usize, orders_accounts: Vec<Pubkey> },
}

/// The stale-slot gate: the observed slot is at or below the watermark.
pub open spec fn stale_gate(slot_watermark: u64, event_q_slot: u64) -> bool {
    event_q_slot <= slot_watermark
}

/// Tests the stale-slot gate alone, so a stale tick can be skipped before
/// any account is decoded.
pub fn is_stale(slot_watermark: u64, event_q_slot: u64) -> (r: bool)
    ensures
        r == stale_gate(slot_watermark, event_q_slot),
{
    event_q_slot <= slot_watermark
}

/// The empty gate: a fresh slot but no live events.
pub open spec fn empty_gate(slot_watermark: u64, event_q_slot: u64, event_q_len: nat) -> bool {
    !stale_gate(slot_watermark, event_q_slot) && event_q_len == 0
}

/// The throttle gate: a fresh slot, a non-empty but short queue, and a crank
/// more recent than the configured delay.
pub open spec fn throttle_gate(
    slot_watermark: u64,
    event_q_slot: u64,
    event_q_len: nat,
    elapsed_secs: u64,
    max_wait_for_events_delay: u64,
    max_q_length: u64,
) -> bool {
    &&& !stale_gate(slot_watermark, event_q_slot)
    &&& event_q_len > 0
    &&& elapsed_secs < max_wait_for_events_delay
    &&& event_q_len < max_q_length
}

/// The dispatch condition: a fresh slot, live events, and no throttling.
pub open spec fn dispatch_gate(
    slot_watermark: u64,
    event_q_slot: u64,
    event_q_len: nat,
    elapsed_secs: u64,
    max_wait_for_events_delay: u64,
    max_q_length: u64,
) -> bool {
    &&& !stale_gate(slot_watermark, event_q_slot)
    &&& event_q_len > 0
    &&& !(elapsed_secs < max_wait_for_events_delay && event_q_len < max_q_length)
}

/// Gate exclusivity: in any iteration exactly one of stale, empty, throttled
/// and dispatched applies.
pub proof fn lemma_gate_exclusive(
    slot_watermark: u64,
    event_q_slot: u64,
    event_q_len: nat,
    elapsed_secs: u64,
    max_wait_for_events_delay: u64,
    max_q_length: u64,
)
    ensures
        (if stale_gate(slot_watermark, event_q_slot) {
            1int
        } else {
            0int
        }) + (if empty_gate(slot_watermark, event_q_slot, event_q_len) {
            1int
        } else {
            0int
        }) + (if throttle_gate(
            slot_watermark,
            event_q_slot,
            event_q_len,
            elapsed_secs,
            max_wait_for_events_delay,
            max_q_length,
        ) {
            1int
        } else {
            0int
        }) + (if dispatch_gate(
            slot_watermark,
            event_q_slot,
            event_q_len,
            elapsed_secs,
            max_wait_for_events_delay,
            max_q_length,
        ) {
            1int
        } else {
            0int
        }) == 1,
{
}

/// The worker count dispatched for a backlog: scales with the queue length,
/// is capped by the configured pool size, and is at least one.
pub open spec fn spec_worker_count(
    num_workers: int,
    event_q_len: int,
    events_per_worker: int,
) -> int {
    vstd::math::min(num_workers, 2 * event_q_len / events_per_worker + 1)
}

/// Worker-count bounds: with a non-empty pool and a positive per-worker
/// quota, between one worker and the whole pool is dispatched.
pub proof fn lemma_worker_count_bounds(num_workers: int, event_q_len: int, events_per_worker: int)
    requires
        num_workers >= 1,
        events_per_worker >= 1,
        event_q_len >= 0,
    ensures
        1 <= spec_worker_count(num_workers, event_q_len, events_per_worker) <= num_workers,
{
    assert(2 * event_q_len / events_per_worker >= 0) by {
        vstd::arithmetic::div_mod::lemma_div_pos_is_pos(2 * event_q_len, events_per_worker);
    }
}

/// Computes the dispatched worker count.
pub fn worker_count(num_workers: usize, event_q_len: usize, events_per_worker: usize) -> (r: usize)
    requires
        num_workers >= 1,
        events_per_worker >= 1,
        event_q_len <= (usize::MAX - 1) / 2,
    ensures
        r == spec_worker_count(num_workers as int, event_q_len as int, events_per_worker as int),
        1 <= r <= num_workers,
{
    proof {
        lemma_worker_count_bounds(
            num_workers as int,
            event_q_len as int,
            events_per_worker as int,
        );
    }
    let scaled = 2 * event_q_len / events_per_worker + 1;
    if num_workers < scaled {
        num_workers
    } else {
        scaled
    }
}

/// Decides one tick of the control loop from the observed slot, the live
/// segments, the time since the last crank, and the configuration.  The
/// gates are tested in order: stale slot, empty queue, throttle; otherwise
/// the tick dispatches the scaled worker count over the ordered owner set of
/// the live events, capped at `num_accounts`.
pub fn decide_tick(
    slot_watermark: u64,
    event_q_slot: u64,
    seg0: &Vec<Event>,
    seg1: &Vec<Event>,
    elapsed_secs: u64,
    num_workers: usize,
    events_per_worker: usize,
    num_accounts: usize,
    max_q_length: u64,
    max_wait_for_events_delay: u64,
) -> (r: TickDecision)
    requires
        num_workers >= 1,
        events_per_worker >= 1,
        seg0@.len() + seg1@.len() <= (usize::MAX - 1) / 2,
    ensures
        ({
            let qlen = (seg0@.len() + seg1@.len()) as nat;
            &&& (r is Stale <==> stale_gate(slot_watermark, event_q_slot))
            &&& (r is Empty <==> empty_gate(slot_watermark, event_q_slot, qlen))
            &&& (r is Throttled <==> throttle_gate(
                slot_watermark,
                event_q_slot,
                qlen,
                elapsed_secs,
                max_wait_for_events_delay,
                max_q_length,
            ))
            &&& (r is Dispatch <==> dispatch_gate(
                slot_watermark,
                event_q_slot,
                qlen,
                elapsed_secs,
                max_wait_for_events_delay,
                max_q_length,
            ))
            &&& match r {
                TickDecision::Dispatch { worker_count: wc, orders_accounts } => {
                    &&& wc == spec_worker_count(
                        num_workers as int,
                        qlen as int,
                        events_per_worker as int,
                    )
                    &&& 1 <= wc <= num_workers
                    &&& orders_accounts@ == owner_accounts(
                        owners_of(seg0@ + seg1@),
                        Seq::empty(),
                        num_accounts as nat,
                    )
                    &&& sorted_strict(orders_accounts@)
                    &&& orders_accounts@.len() <= num_accounts
                },
                _ => true,
            }
        }),
{
    if event_q_slot <= slot_watermark {
        return TickDecision::Stale;
    }
    let event_q_len = seg0.len() + seg1.len();
    if event_q_len == 0 {
        return TickDecision::Empty;
    }
    if elapsed_secs < max_wait_for_events_delay && (event_q_len as u64) < max_q_length {
        return TickDecision::Throttled;
    }
    let wc = worker_count(num_workers, event_q_len, events_per_worker);
    let orders_accounts = collect_owner_accounts(seg0, seg1, num_accounts);
    TickDecision::Dispatch { worker_count: wc, orders_accounts }
}

/// The dispatched owner set: the user accounts of a dispatch hold each
/// owner at most once (they are strictly increasing), never exceed the
/// configured cap, and every one of them is the owner of some live event.
pub proof fn lemma_dispatched_owner_set(seg0: Seq<Event>, seg1: Seq<Event>, num_accounts: nat)
    ensures
        ({
            let users = owner_accounts(owners_of(seg0 + seg1), Seq::empty(), num_accounts);
            &&& sorted_strict(users)
            &&& users.len() <= num_accounts
            &&& forall|y: Pubkey|
                #[trigger] users.contains(y) ==> exists|i: int|
                    0 <= i < (seg0 + seg1).len() && (#[trigger] (seg0 + seg1)[i]).owner == y
        }),
{
    let all = seg0 + seg1;
    crate::owners::lemma_owner_accounts(owners_of(all), Seq::empty(), num_accounts);
    let users = owner_accounts(owners_of(all), Seq::empty(), num_accounts);
    assert forall|y: Pubkey| #[trigger] users.contains(y) implies exists|i: int|
        0 <= i < all.len() && (#[trigger] all[i]).owner == y by {
        assert(owners_of(all).contains(y));
        let k = choose|k: int| 0 <= k < owners_of(all).len() && owners_of(all)[k] == y;
        assert(all[k].owner == y);
    }
}

/// Advances the slot watermark by max-combining one successfully submitted
/// slot: the watermark never decreases.
pub fn advance_watermark(slot_watermark: u64, slot: u64) -> (r: u64)
    ensures
        r == vstd::math::max(slot_watermark as int, slot as int),
        r >= slot_watermark,
        r >= slot,
{
    if slot > slot_watermark {
        slot
    } else {
        slot_watermark
    }
}

/// The watermark after a sequence of worker completions, each a success flag
/// and the slot the worker observed: successful completions max-combine
/// their slot, failed ones leave the watermark alone.
pub open spec fn watermark_after(init: u64, completions: Seq<(bool, u64)>) -> u64
    decreases completions.len(),
{
    if completions.len() == 0 {
        init
    } else {
        let prev = watermark_after(init, completions.drop_last());
        if completions.last().0 && completions.last().1 > prev {
            completions.last().1
        } else {
            prev
        }
    }
}

/// Watermark monotonicity: after any finite sequence of worker completions
/// the watermark is the maximum of the initial value and the successful
/// workers' observed slots — it never decreases, it is an upper bound on
/// every successful slot, and it is attained by the initial value or some
/// successful completion.
pub proof fn lemma_watermark_is_max(init: u64, completions: Seq<(bool, u64)>)
    ensures
        watermark_after(init, completions) >= init,
        forall|i: int|
            0 <= i < completions.len() && (#[trigger] completions[i]).0 ==> watermark_after(
                init,
                completions,
            ) >= completions[i].1,
        watermark_after(init, completions) == init || exists|i: int|
            0 <= i < completions.len() && (#[trigger] completions[i]).0 && completions[i].1
                == watermark_after(init, completions),
    decreases completions.len(),
{
    if completions.len() > 0 {
        lemma_watermark_is_max(init, completions.drop_last());
        let w = watermark_after(init, completions);
        let prev = watermark_after(init, completions.drop_last());
        assert forall|i: int|
            0 <= i < completions.len() && (#[trigger] completions[i]).0 implies w
            >= completions[i].1 by {
            if i < completions.len() - 1 {
                assert(completions.drop_last()[i] == completions[i]);
            }
        }
        if w != init {
            if w == prev {
                let i = choose|i: int|
                    0 <= i < completions.drop_last().len()
                        && (#[trigger] completions.drop_last()[i]).0
                        && completions.drop_last()[i].1 == prev;
                assert(completions[i] == completions.drop_last()[i]);
            } else {
                assert(completions[completions.len() - 1] == completions.last());
            }
        }
    }
}

} // verus!
