//! The event-queue account layout: a fixed header followed by a circular
//! buffer of fixed-size event records, split into its two live segments.

use vstd::prelude::*;

use crate::keys::Pubkey;

verus! {

/// Why the inner words of a queue account were rejected.
#[derive(Clone, Copy, Debug, PartialEq, Eq, Structural)]
pub enum MalformedQueue {
    /// Fewer words than the fixed header takes.
    HeaderDecode,
    /// The words after the header are not a whole number of event records.
    EventDecode,
}

/// The fixed queue header: the first four words of the inner payload.
#[derive(Clone, Copy, Debug, PartialEq, Eq, Structural)]
pub struct EventQueueHeader {
    pub account_flags: u64,
    /// Index of the oldest live event.
    pub head: u64,
    /// Number of live events.
    pub count: u64,
    pub seq_num: u64,
}

/// One match-engine event record: eleven words.
#[derive(Clone, Copy, Debug, PartialEq, Eq, Structural)]
pub struct Event {
    pub event_flags: u8,
    pub owner_slot: u8,
    pub fee_tier: u8,
    pub native_qty_released: u64,
    pub native_qty_paid: u64,
    pub native_fee_or_rebate: u64,
    pub order_id: u128,
    /// The open-orders account the event applies to.
    pub owner: Pubkey,
    pub client_order_id: u64,
}

/// The number of words a header takes.
pub open spec fn header_words() -> int {
    4
}

/// The number of words one event record takes.
pub open spec fn event_words() -> int {
    11
}

/// The event record encoded by eleven words.
pub open spec fn event_of_words(w: Seq<u64>) -> Event
    recommends
        w.len() == 11,
{
    Event {
        event_flags: (w[0] % 0x100) as u8,
        owner_slot: ((w[0] / 0x100) % 0x100) as u8,
        fee_tier: ((w[0] / 0x1_0000) % 0x100) as u8,
        native_qty_released: w[1],
        native_qty_paid: w[2],
        native_fee_or_rebate: w[3],
        order_id: (w[4] + w[5] * 0x1_0000_0000_0000_0000) as u128,
        owner: Pubkey { w0: w[6], w1: w[7], w2: w[8], w3: w[9] },
        client_order_id: w[10],
    }
}

/// The event records encoded by a word sequence, eleven words a record.
pub open spec fn events_of_words(w: Seq<u64>) -> Seq<Event> {
    Seq::new((w.len() / 11) as nat, |i: int| event_of_words(w.subrange(11 * i, 11 * i + 11)))
}

/// The first live segment: the live events stored from `head` up to the end
/// of the buffer, capped at `count`.
pub open spec fn seg0_of(events: Seq<Event>, head: u64, count: u64) -> Seq<Event> {
    let split = if head <= events.len() { head as int } else { events.len() as int };
    let head_seg = events.skip(split);
    head_seg.take(if count <= head_seg.len() { count as int } else { head_seg.len() as int })
}

/// The second live segment: the wrapped-around live events stored at the
/// front of the buffer.
pub open spec fn seg1_of(events: Seq<Event>, head: u64, count: u64) -> Seq<Event> {
    let split = if head <= events.len() { head as int } else { events.len() as int };
    let tail_seg = events.take(split);
    let rest = count - seg0_of(events, head, count).len();
    tail_seg.take(if rest <= split { if rest >= 0 { rest } else { 0 } } else { split })
}

/// What parsing the inner words of an event-queue account yields: the header
/// and the two live segments, or the reason for rejection.
pub open spec fn spec_parse_event_queue(words: Seq<u64>) -> Result<
    (EventQueueHeader, Seq<Event>, Seq<Event>),
    MalformedQueue,
> {
    if words.len() < header_words() {
        Err(MalformedQueue::HeaderDecode)
    } else if (words.len() - header_words()) % event_words() != 0 {
        Err(MalformedQueue::EventDecode)
    } else {
        let header = EventQueueHeader {
            account_flags: words[0],
            head: words[1],
            count: words[2],
            seq_num: words[3],
        };
        let events = events_of_words(words.skip(4));
        Ok((header, seg0_of(events, header.head, header.count), seg1_of(events, header.head, header.count)))
    }
}

/// Decodes one event record starting at word `base` of `words`.
fn event_at(words: &Vec<u64>, base: usize) -> (r: Event)
    requires
        base + 11 <= words@.len(),
    ensures
        r == event_of_words(words@.subrange(base as int, base + 11)),
{
    let _n = words.len();
    let w0 = words[base];
    let r = Event {
        event_flags: (w0 % 0x100) as u8,
        owner_slot: ((w0 / 0x100) % 0x100) as u8,
        fee_tier: ((w0 / 0x1_0000) % 0x100) as u8,
        native_qty_released: words[base + 1],
        native_qty_paid: words[base + 2],
        native_fee_or_rebate: words[base + 3],
        order_id: (words[base + 4] as u128) + (words[base + 5] as u128) * 0x1_0000_0000_0000_0000,
        owner: Pubkey {
            w0: words[base + 6],
            w1: words[base + 7],
            w2: words[base + 8],
            w3: words[base + 9],
        },
        client_order_id: words[base + 10],
    };
    proof {
        let sub = words@.subrange(base as int, base + 11);
        assert(forall|j: int| 0 <= j < 11 ==> #[trigger] sub[j] == words@[base + j]);
    }
    r
}

/// Parses the inner words of an event-queue account into its header and the
/// two live event segments, in live order.  The segment lengths always sum to
/// the smaller of `header.count` and the buffer capacity.
#[verifier::loop_isolation(false)]
pub fn parse_event_queue(words: &Vec<u64>) -> (r: Result<
    (EventQueueHeader, Vec<Event>, Vec<Event>),
    MalformedQueue,
>)
    ensures
        match r {
            Ok((header, seg0, seg1)) => spec_parse_event_queue(words@) == Ok::<
                _,
                MalformedQueue,
            >((header, seg0@, seg1@)) && seg0@.len() + seg1@.len() == vstd::math::min(
                header.count as int,
                (words@.len() - 4) / 11,
            ),
            Err(e) => spec_parse_event_queue(words@) == Err::<
                (EventQueueHeader, Seq<Event>, Seq<Event>),
                MalformedQueue,
            >(e),
        },
{
    if words.len() < 4 {
        return Err(MalformedQueue::HeaderDecode);
    }
    if (words.len() - 4) % 11 != 0 {
        return Err(MalformedQueue::EventDecode);
    }
    let header = EventQueueHeader {
        account_flags: words[0],
        head: words[1],
        count: words[2],
        seq_num: words[3],
    };
    let capacity = (words.len() - 4) / 11;
    let ghost all_events = events_of_words(words@.skip(4));
    assert(all_events.len() == capacity);
    let split: usize = if header.head <= capacity as u64 {
        header.head as usize
    } else {
        capacity
    };
    // seg0: events[split .. split + head_len]
    let head_seg_len = capacity - split;
    let head_len: usize = if header.count <= head_seg_len as u64 {
        header.count as usize
    } else {
        head_seg_len
    };
    // seg1: events[0 .. tail_len]
    let rest = header.count - head_len as u64;
    let tail_len: usize = if rest <= split as u64 {
        rest as usize
    } else {
        split
    };
    let mut seg0: Vec<Event> = Vec::new();
    let mut i: usize = 0;
    while i < head_len
        invariant
            0 <= i <= head_len,
            seg0@.len() == i,
            forall|k: int| 0 <= k < i ==> seg0@[k] == all_events[split + k],
        decreases head_len - i,
    {
        let e = event_at(words, 4 + 11 * (split + i));
        proof {
            let sub = words@.skip(4).subrange(11 * (split + i), 11 * (split + i) + 11);
            assert(forall|j: int| 0 <= j < 11 ==> #[trigger] sub[j] == words@[4 + 11 * (split + i)
                + j]);
            assert(words@.subrange(4 + 11 * (split + i), 4 + 11 * (split + i) + 11) =~= sub);
        }
        seg0.push(e);
        i = i + 1;
    }
    let mut seg1: Vec<Event> = Vec::new();
    let mut i: usize = 0;
    while i < tail_len
        invariant
            0 <= i <= tail_len,
            seg1@.len() == i,
            forall|k: int| 0 <= k < i ==> seg1@[k] == all_events[k],
        decreases tail_len - i,
    {
        let e = event_at(words, 4 + 11 * i);
        proof {
            let sub = words@.skip(4).subrange(11 * i, 11 * i + 11);
            assert(forall|j: int| 0 <= j < 11 ==> #[trigger] sub[j] == words@[4 + 11 * i + j]);
            assert(words@.subrange(4 + 11 * i, 4 + 11 * i + 11) =~= sub);
        }
        seg1.push(e);
        i = i + 1;
    }
    proof {
        assert(seg0@ =~= seg0_of(all_events, header.head, header.count));
        assert(seg1@ =~= seg1_of(all_events, header.head, header.count));
    }
    Ok((header, seg0, seg1))
}

/// The live events of a circular buffer in insertion order: `count` events
/// starting at index `head`, wrapping at the end of the buffer.
pub open spec fn live_events(events: Seq<Event>, head: u64, count: u64) -> Seq<Event> {
    Seq::new(count as nat, |i: int| events[(head + i) % (events.len() as int)])
}

/// Round trip of the split-ring decoding: whenever `count` and `head` lie
/// within the buffer, the two parsed segments concatenated are exactly the
/// `count` live events in insertion order.
pub proof fn lemma_parse_round_trip(events: Seq<Event>, head: u64, count: u64)
    requires
        count <= events.len(),
        head <= events.len(),
        events.len() > 0,
    ensures
        seg0_of(events, head, count) + seg1_of(events, head, count) =~= live_events(
            events,
            head,
            count,
        ),
        seg0_of(events, head, count).len() + seg1_of(events, head, count).len() == count,
{
    let n = events.len() as int;
    let s0 = seg0_of(events, head, count);
    let s1 = seg1_of(events, head, count);
    assert forall|i: int| 0 <= i < count implies (s0 + s1)[i] == live_events(events, head, count)[i]
    by {
        if i < s0.len() {
            assert((head + i) % n == head + i) by {
                assert(0 <= head + i < n);
                vstd::arithmetic::div_mod::lemma_small_mod((head + i) as nat, n as nat);
            }
        } else {
            assert((head + i) % n == head + i - n) by {
                assert(n <= head + i < 2 * n);
                assert((head + i) == n + (head + i - n));
                vstd::arithmetic::div_mod::lemma_mod_add_multiples_vanish(head + i - n, n);
                vstd::arithmetic::div_mod::lemma_small_mod((head + i - n) as nat, n as nat);
            }
        }
    }
}

} // verus!
