//! Tests of the per-tick gate decisions, worker scaling, owner collection
//! and the slot watermark.

use crank::driver::{advance_watermark, decide_tick, worker_count, TickDecision};
use crank::keys::Pubkey;
use crank::owners::{collect_all_owner_accounts, collect_owner_accounts};
use crank::queue::Event;

fn event_with_owner(owner: Pubkey) -> Event {
    Event {
        event_flags: 1,
        owner_slot: 0,
        fee_tier: 0,
        native_qty_released: 0,
        native_qty_paid: 0,
        native_fee_or_rebate: 0,
        order_id: 0,
        owner,
        client_order_id: 0,
    }
}

fn key(n: u64) -> Pubkey {
    Pubkey::new(n, 0, 0, 0)
}

#[test]
fn stale_slot_gates_iteration() {
    // Watermark 100, observed slot 100, non-empty queue: no dispatch.
    let seg0 = vec![event_with_owner(key(1))];
    let seg1 = vec![];
    let d = decide_tick(100, 100, &seg0, &seg1, 999, 4, 5, 32, 1, 60);
    assert!(matches!(d, TickDecision::Stale));
}

#[test]
fn empty_queue_gates_iteration() {
    let seg0: Vec<Event> = vec![];
    let seg1: Vec<Event> = vec![];
    let d = decide_tick(100, 101, &seg0, &seg1, 999, 4, 5, 32, 1, 60);
    assert!(matches!(d, TickDecision::Empty));
}

#[test]
fn short_queue_recent_crank_throttles() {
    // One live event, cranked five seconds ago, max wait sixty: with
    // max_q_length 1 the length test `1 < 1` fails, so dispatch happens;
    // with max_q_length 2 the same tick throttles.
    let seg0 = vec![event_with_owner(key(1))];
    let seg1 = vec![];
    let d = decide_tick(100, 101, &seg0, &seg1, 5, 4, 5, 32, 1, 60);
    assert!(matches!(d, TickDecision::Dispatch { .. }));
    let d2 = decide_tick(100, 101, &seg0, &seg1, 5, 4, 5, 32, 2, 60);
    assert!(matches!(d2, TickDecision::Throttled));
}

#[test]
fn long_wait_dispatches_short_queue() {
    let seg0 = vec![event_with_owner(key(1))];
    let seg1 = vec![];
    let d = decide_tick(100, 101, &seg0, &seg1, 60, 4, 5, 32, 2, 60);
    assert!(matches!(d, TickDecision::Dispatch { .. }));
}

#[test]
fn worker_scaling() {
    // num_workers 8, events_per_worker 5, twelve live events:
    // min(8, 2 * 12 / 5 + 1) = 5 workers.
    assert_eq!(worker_count(8, 12, 5), 5);
    assert_eq!(worker_count(8, 0, 5), 1);
    assert_eq!(worker_count(2, 1000, 5), 2);
    assert_eq!(worker_count(1, 0, 1), 1);
}

#[test]
fn dispatch_carries_scaled_workers_and_owner_set() {
    let a = key(30);
    let b = key(10);
    let c = key(20);
    // Twelve events over three owners, in insertion order a, b, c.
    let mut seg0 = Vec::new();
    for i in 0..12 {
        let owner = match i % 3 {
            0 => a,
            1 => b,
            _ => c,
        };
        seg0.push(event_with_owner(owner));
    }
    let seg1 = vec![];
    let d = decide_tick(100, 101, &seg0, &seg1, 999, 8, 5, 32, 1, 60);
    match d {
        TickDecision::Dispatch { worker_count, orders_accounts } => {
            assert_eq!(worker_count, 5);
            assert_eq!(orders_accounts, vec![b, c, a]);
        }
        _ => panic!("expected a dispatch"),
    }
}

#[test]
fn owner_set_sorted_unique_and_capped() {
    let seg0 = vec![
        event_with_owner(key(5)),
        event_with_owner(key(3)),
        event_with_owner(key(5)),
        event_with_owner(key(9)),
    ];
    let seg1 = vec![event_with_owner(key(1)), event_with_owner(key(3))];
    let all = collect_owner_accounts(&seg0, &seg1, 32);
    assert_eq!(all, vec![key(1), key(3), key(5), key(9)]);
    // The cap stops collection once the set holds that many owners.
    let capped = collect_owner_accounts(&seg0, &seg1, 2);
    assert_eq!(capped, vec![key(3), key(5)]);
    let none = collect_owner_accounts(&seg0, &seg1, 0);
    assert!(none.is_empty());
    let full = collect_all_owner_accounts(&seg0, &seg1);
    assert_eq!(full, vec![key(1), key(3), key(5), key(9)]);
}

#[test]
fn owner_order_is_word_lexicographic() {
    let x = Pubkey::new(1, 9, 0, 0);
    let y = Pubkey::new(2, 0, 0, 0);
    let z = Pubkey::new(1, 9, 0, 1);
    let seg0 = vec![event_with_owner(y), event_with_owner(z), event_with_owner(x)];
    let seg1 = vec![];
    let set = collect_all_owner_accounts(&seg0, &seg1);
    assert_eq!(set, vec![x, z, y]);
}

#[test]
fn watermark_is_running_max_of_successes() {
    // Worker completions in arbitrary order: only successes advance it.
    let mut w: u64 = 0;
    w = advance_watermark(w, 120);
    assert_eq!(w, 120);
    w = advance_watermark(w, 90);
    assert_eq!(w, 120);
    w = advance_watermark(w, 121);
    assert_eq!(w, 121);
    // A failed completion performs no update at all.
    assert_eq!(w, 121);
}
