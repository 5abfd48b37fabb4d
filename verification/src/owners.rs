//! The ordered set of open-orders accounts referenced by pending events:
//! sorted, duplicate-free, and optionally capped at a configured size.

use vstd::prelude::*;

use crate::keys::{key_lt, lemma_key_lt_total, lemma_key_lt_trans, pubkey_lt, Pubkey};
use crate::queue::Event;

verus! {

/// A strictly increasing sequence of addresses: sorted and duplicate-free.
pub open spec fn sorted_strict(s: Seq<Pubkey>) -> bool {
    forall|i: int, j: int| 0 <= i < j < s.len() ==> key_lt(s[i], s[j])
}

/// The owners of a sequence of events, in event order.
pub open spec fn owners_of(events: Seq<Event>) -> Seq<Pubkey> {
    events.map_values(|e: Event| e.owner)
}

/// Insertion of an address into a sorted duplicate-free sequence: the
/// sequence is unchanged if the address is present, else the address enters
/// at its ordered position.
pub open spec fn sorted_insert(s: Seq<Pubkey>, x: Pubkey) -> Seq<Pubkey>
    decreases s.len(),
{
    if s.len() == 0 {
        seq![x]
    } else if key_lt(x, s[0]) {
        seq![x] + s
    } else if x == s[0] {
        s
    } else {
        seq![s[0]] + sorted_insert(s.drop_first(), x)
    }
}

/// What `sorted_insert` contains: the old elements and the new address, in
/// strictly increasing order, with the length growing exactly when the
/// address was absent.
pub proof fn lemma_sorted_insert(s: Seq<Pubkey>, x: Pubkey)
    requires
        sorted_strict(s),
    ensures
        sorted_strict(sorted_insert(s, x)),
        forall|y: Pubkey|
            #[trigger] sorted_insert(s, x).contains(y) <==> (s.contains(y) || y == x),
        sorted_insert(s, x).len() == if s.contains(x) {
            s.len()
        } else {
            s.len() + 1
        },
    decreases s.len(),
{
    let r = sorted_insert(s, x);
    if s.len() == 0 {
        assert forall|y: Pubkey| #[trigger] r.contains(y) implies (s.contains(y) || y == x) by {
            assert(r[0] == x);
        }
        assert(r.contains(x)) by {
            assert(r[0] == x);
        }
    } else if key_lt(x, s[0]) {
        assert forall|i: int, j: int| 0 <= i < j < r.len() implies key_lt(r[i], r[j]) by {
            if i == 0 {
                if j > 1 {
                    lemma_key_lt_trans(x, s[0], s[j - 1]);
                }
            }
        }
        assert(!s.contains(x)) by {
            if s.contains(x) {
                let i = choose|i: int| 0 <= i < s.len() && s[i] == x;
                if i > 0 {
                    assert(key_lt(s[0], s[i]));
                }
                lemma_key_lt_total(x, s[0]);
            }
        }
        assert forall|y: Pubkey| #[trigger] r.contains(y) implies (s.contains(y) || y == x) by {
            let i = choose|i: int| 0 <= i < r.len() && r[i] == y;
            if i > 0 {
                assert(s[i - 1] == y);
            }
        }
        assert forall|y: Pubkey| s.contains(y) || y == x implies #[trigger] r.contains(y) by {
            if s.contains(y) {
                let i = choose|i: int| 0 <= i < s.len() && s[i] == y;
                assert(r[i + 1] == y);
            } else {
                assert(r[0] == y);
            }
        }
    } else if x == s[0] {
        assert(s.contains(x)) by {
            assert(s[0] == x);
        }
    } else {
        lemma_key_lt_total(x, s[0]);
        let tail = s.drop_first();
        assert(sorted_strict(tail)) by {
            assert(forall|i: int, j: int|
                0 <= i < j < tail.len() ==> key_lt(#[trigger] tail[i], #[trigger] tail[j]));
        }
        lemma_sorted_insert(tail, x);
        let rt = sorted_insert(tail, x);
        assert(r =~= seq![s[0]] + rt);
        // every element of rt is above s[0]
        assert forall|j: int| 0 <= j < rt.len() implies key_lt(s[0], rt[j]) by {
            assert(rt.contains(rt[j]));
            if rt[j] == x {
            } else {
                assert(tail.contains(rt[j]));
                let i = choose|i: int| 0 <= i < tail.len() && tail[i] == rt[j];
                assert(tail[i] == s[i + 1]);
            }
        }
        assert forall|i: int, j: int| 0 <= i < j < r.len() implies key_lt(r[i], r[j]) by {
            if i > 0 {
                assert(key_lt(rt[i - 1], rt[j - 1]));
            }
        }
        assert forall|y: Pubkey| #[trigger] r.contains(y) implies (s.contains(y) || y == x) by {
            let i = choose|i: int| 0 <= i < r.len() && r[i] == y;
            if i == 0 {
                assert(s[0] == y);
            } else {
                assert(rt.contains(r[i]));
                if y != x {
                    assert(tail.contains(y));
                    let k = choose|k: int| 0 <= k < tail.len() && tail[k] == y;
                    assert(s[k + 1] == y);
                }
            }
        }
        assert forall|y: Pubkey| s.contains(y) || y == x implies #[trigger] r.contains(y) by {
            if y == x || tail.contains(y) {
                assert(rt.contains(y));
                let k = choose|k: int| 0 <= k < rt.len() && rt[k] == y;
                assert(r[k + 1] == y);
            } else {
                let i = choose|i: int| 0 <= i < s.len() && s[i] == y;
                if i == 0 {
                    assert(r[0] == y);
                } else {
                    assert(tail[i - 1] == y);
                }
            }
        }
        assert(s.contains(x) <==> tail.contains(x)) by {
            if s.contains(x) {
                let i = choose|i: int| 0 <= i < s.len() && s[i] == x;
                lemma_key_lt_total(x, s[0]);
                assert(i != 0);
                assert(tail[i - 1] == x);
            }
            if tail.contains(x) {
                let i = choose|i: int| 0 <= i < tail.len() && tail[i] == x;
                assert(s[i + 1] == x);
            }
        }
    }
}

/// Where the scan of `insert_owner` stops, the recursive insertion places the
/// address: at position `i`, or nowhere if it already stands there.
proof fn lemma_sorted_insert_at(s: Seq<Pubkey>, x: Pubkey, i: int)
    requires
        sorted_strict(s),
        0 <= i <= s.len(),
        forall|k: int| 0 <= k < i ==> key_lt(#[trigger] s[k], x),
        i < s.len() ==> !key_lt(s[i], x),
    ensures
        i < s.len() && s[i] == x ==> sorted_insert(s, x) == s,
        !(i < s.len() && s[i] == x) ==> sorted_insert(s, x) == s.insert(i, x),
    decreases s.len(),
{
    if s.len() == 0 {
        assert(sorted_insert(s, x) =~= s.insert(0, x));
    } else if i == 0 {
        if s[0] == x {
        } else {
            lemma_key_lt_total(x, s[0]);
            assert(key_lt(x, s[0]));
            assert(sorted_insert(s, x) =~= s.insert(0, x));
        }
    } else {
        assert(key_lt(s[0], x));
        lemma_key_lt_total(x, s[0]);
        let tail = s.drop_first();
        assert(sorted_strict(tail)) by {
            assert(forall|p: int, q: int|
                0 <= p < q < tail.len() ==> key_lt(#[trigger] tail[p], #[trigger] tail[q]));
        }
        assert(forall|k: int| 0 <= k < i - 1 ==> key_lt(#[trigger] tail[k], x));
        lemma_sorted_insert_at(tail, x, i - 1);
        if i < s.len() && s[i] == x {
            assert(tail[i - 1] == x);
            assert(sorted_insert(s, x) =~= seq![s[0]] + tail);
            assert(seq![s[0]] + tail =~= s);
        } else {
            assert(!(i - 1 < tail.len() && tail[i - 1] == x));
            assert(sorted_insert(s, x) =~= seq![s[0]] + tail.insert(i - 1, x));
            assert(seq![s[0]] + tail.insert(i - 1, x) =~= s.insert(i, x));
        }
    }
}

/// Inserts an address into a sorted duplicate-free list, keeping it sorted
/// and duplicate-free.
#[verifier::loop_isolation(false)]
pub fn insert_owner(v: &mut Vec<Pubkey>, x: Pubkey)
    requires
        sorted_strict(old(v)@),
    ensures
        final(v)@ == sorted_insert(old(v)@, x),
        sorted_strict(final(v)@),
{
    let mut i: usize = 0;
    while i < v.len() && pubkey_lt(&v[i], &x)
        invariant
            0 <= i <= v@.len(),
            forall|k: int| 0 <= k < i ==> key_lt(#[trigger] v@[k], x),
        decreases v@.len() - i,
    {
        i = i + 1;
    }
    proof {
        lemma_sorted_insert_at(v@, x, i as int);
    }
    if i < v.len() {
        let same = v[i] == x;
        if same {
            return ;
        }
    }
    v.insert(i, x);
    proof {
        lemma_sorted_insert(old(v)@, x);
    }
}

/// The ordered owner set accumulated from a sequence of owners in order,
/// stopping once the set holds `cap` addresses.
pub open spec fn owner_accounts(owners: Seq<Pubkey>, acc: Seq<Pubkey>, cap: nat) -> Seq<Pubkey>
    decreases owners.len(),
{
    if owners.len() == 0 || acc.len() >= cap {
        acc
    } else {
        owner_accounts(owners.drop_first(), sorted_insert(acc, owners[0]), cap)
    }
}

/// The accumulated owner set stays sorted and duplicate-free, never exceeds
/// the cap once the accumulator is within it, and only ever holds addresses
/// from the accumulator or the owner sequence.
pub proof fn lemma_owner_accounts(owners: Seq<Pubkey>, acc: Seq<Pubkey>, cap: nat)
    requires
        sorted_strict(acc),
        acc.len() <= cap,
    ensures
        sorted_strict(owner_accounts(owners, acc, cap)),
        owner_accounts(owners, acc, cap).len() <= cap,
        forall|y: Pubkey|
            #[trigger] owner_accounts(owners, acc, cap).contains(y) ==> (acc.contains(y)
                || owners.contains(y)),
    decreases owners.len(),
{
    if owners.len() == 0 || acc.len() >= cap {
    } else {
        lemma_sorted_insert(acc, owners[0]);
        let acc1 = sorted_insert(acc, owners[0]);
        if acc1.len() > cap {
            assert(acc.len() == cap);  // contradiction with the guard
        }
        lemma_owner_accounts(owners.drop_first(), acc1, cap);
        assert forall|y: Pubkey|
            #[trigger] owner_accounts(owners, acc, cap).contains(y) implies (acc.contains(y)
            || owners.contains(y)) by {
            if acc1.contains(y) {
                if y == owners[0] {
                    assert(owners.contains(y)) by {
                        assert(owners[0] == y);
                    }
                }
            } else if owners.drop_first().contains(y) {
                let k = choose|k: int|
                    0 <= k < owners.drop_first().len() && owners.drop_first()[k] == y;
                assert(owners[k + 1] == y);
            }
        }
    }
}

/// Collects the ordered set of owners referenced by the two live event
/// segments in live order, stopping once the set holds `num_accounts`
/// addresses.
#[verifier::loop_isolation(false)]
pub fn collect_owner_accounts(seg0: &Vec<Event>, seg1: &Vec<Event>, num_accounts: usize) -> (r:
    Vec<Pubkey>)
    ensures
        r@ == owner_accounts(owners_of(seg0@ + seg1@), Seq::empty(), num_accounts as nat),
        sorted_strict(r@),
        r@.len() <= num_accounts,
{
    let ghost all = owners_of(seg0@ + seg1@);
    let mut v: Vec<Pubkey> = Vec::new();
    let mut done = false;
    let mut i: usize = 0;
    proof {
        assert(all.skip(0) =~= all);
    }
    while i < seg0.len() && !done
        invariant
            0 <= i <= seg0@.len(),
            sorted_strict(v@),
            v@.len() <= num_accounts,
            done ==> v@.len() >= num_accounts,
            owner_accounts(all, Seq::empty(), num_accounts as nat) == owner_accounts(
                all.skip(i as int),
                v@,
                num_accounts as nat,
            ),
        decreases seg0@.len() - i + (if done { 0int } else { 1int }),
    {
        if v.len() >= num_accounts {
            done = true;
        } else {
            proof {
                assert(all[i as int] == seg0@[i as int].owner) by {
                    assert((seg0@ + seg1@)[i as int] == seg0@[i as int]);
                }
                assert(all.skip(i as int).drop_first() =~= all.skip(i + 1));
                assert(all.skip(i as int)[0] == all[i as int]);
                lemma_sorted_insert(v@, all[i as int]);
            }
            insert_owner(&mut v, seg0[i].owner);
            i = i + 1;
        }
    }
    let mut j: usize = 0;
    while j < seg1.len() && !done
        invariant
            0 <= j <= seg1@.len(),
            sorted_strict(v@),
            v@.len() <= num_accounts,
            done ==> v@.len() >= num_accounts,
            owner_accounts(all, Seq::empty(), num_accounts as nat) == owner_accounts(
                all.skip(seg0@.len() + j),
                v@,
                num_accounts as nat,
            ),
        decreases seg1@.len() - j + (if done { 0int } else { 1int }),
    {
        if v.len() >= num_accounts {
            done = true;
        } else {
            proof {
                let p = seg0@.len() + j;
                assert(all[p as int] == seg1@[j as int].owner) by {
                    assert((seg0@ + seg1@)[p as int] == seg1@[j as int]);
                }
                assert(all.skip(p as int).drop_first() =~= all.skip(p + 1));
                assert(all.skip(p as int)[0] == all[p as int]);
                lemma_sorted_insert(v@, all[p as int]);
            }
            insert_owner(&mut v, seg1[j].owner);
            j = j + 1;
        }
    }
    proof {
        if done {
            assert(owner_accounts(all, Seq::empty(), num_accounts as nat) == v@);
        } else {
            assert(all.skip((seg0@.len() + seg1@.len()) as int).len() == 0);
        }
    }
    v
}

/// The full ordered owner set of a sequence of owners, uncapped: every owner
/// enters, duplicates collapse.
pub open spec fn sorted_unique(owners: Seq<Pubkey>) -> Seq<Pubkey>
    decreases owners.len(),
{
    if owners.len() == 0 {
        Seq::empty()
    } else {
        sorted_insert(sorted_unique(owners.drop_last()), owners.last())
    }
}

/// The full ordered owner set is sorted, duplicate-free, and holds exactly
/// the addresses of the owner sequence.
pub proof fn lemma_sorted_unique(owners: Seq<Pubkey>)
    ensures
        sorted_strict(sorted_unique(owners)),
        forall|y: Pubkey| #[trigger] sorted_unique(owners).contains(y) <==> owners.contains(y),
        sorted_unique(owners).len() <= owners.len(),
    decreases owners.len(),
{
    if owners.len() == 0 {
    } else {
        lemma_sorted_unique(owners.drop_last());
        lemma_sorted_insert(sorted_unique(owners.drop_last()), owners.last());
        assert forall|y: Pubkey| #[trigger] sorted_unique(owners).contains(y) implies
            owners.contains(y) by {
            if owners.drop_last().contains(y) {
                let k = choose|k: int|
                    0 <= k < owners.drop_last().len() && owners.drop_last()[k] == y;
                assert(owners[k] == y);
            } else {
                assert(owners.last() == y);
            }
        }
        assert forall|y: Pubkey| owners.contains(y) implies #[trigger] sorted_unique(
            owners,
        ).contains(y) by {
            let k = choose|k: int| 0 <= k < owners.len() && owners[k] == y;
            if k < owners.len() - 1 {
                assert(owners.drop_last()[k] == y);
            }
        }
    }
}

/// Collects the full ordered owner set of the two live event segments, in
/// live order.
#[verifier::loop_isolation(false)]
pub fn collect_all_owner_accounts(seg0: &Vec<Event>, seg1: &Vec<Event>) -> (r: Vec<Pubkey>)
    ensures
        r@ == sorted_unique(owners_of(seg0@ + seg1@)),
        sorted_strict(r@),
{
    let ghost all = owners_of(seg0@ + seg1@);
    let mut v: Vec<Pubkey> = Vec::new();
    let mut i: usize = 0;
    while i < seg0.len()
        invariant
            0 <= i <= seg0@.len(),
            sorted_strict(v@),
            v@ == sorted_unique(all.take(i as int)),
        decreases seg0@.len() - i,
    {
        proof {
            assert(all[i as int] == seg0@[i as int].owner) by {
                assert((seg0@ + seg1@)[i as int] == seg0@[i as int]);
            }
            assert(all.take(i + 1).drop_last() =~= all.take(i as int));
            assert(all.take(i + 1).last() == all[i as int]);
        }
        insert_owner(&mut v, seg0[i].owner);
        i = i + 1;
    }
    let mut j: usize = 0;
    while j < seg1.len()
        invariant
            0 <= j <= seg1@.len(),
            sorted_strict(v@),
            v@ == sorted_unique(all.take(seg0@.len() + j)),
        decreases seg1@.len() - j,
    {
        proof {
            let p = seg0@.len() + j;
            assert(all[p as int] == seg1@[j as int].owner) by {
                assert((seg0@ + seg1@)[p as int] == seg1@[j as int]);
            }
            assert(all.take(p + 1).drop_last() =~= all.take(p as int));
            assert(all.take(p + 1).last() == all[p as int]);
        }
        insert_owner(&mut v, seg1[j].owner);
        j = j + 1;
    }
    proof {
        assert(all.take((seg0@.len() + seg1@.len()) as int) =~= all);
    }
    v
}

} // verus!
