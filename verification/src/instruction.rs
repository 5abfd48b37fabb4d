//! The consume-events instruction: its account-meta list and its packed
//! payload, plus the randomised lamport amount that makes each submitted
//! transaction unique.

use vstd::prelude::*;

use crate::decode::{spec_strip_padding, strip_padding, MalformedAccount};
use crate::keys::Pubkey;
use crate::market::MarketPubkeys;
use crate::owners::{collect_all_owner_accounts, lemma_sorted_unique, owners_of, sorted_unique};
use crate::queue::{
    parse_event_queue, spec_parse_event_queue, Event, EventQueueHeader, MalformedQueue,
};

verus! {

/// Why an event-queue account could not be decoded.
#[derive(Clone, Copy, Debug, PartialEq, Eq, Structural)]
pub enum CrankError {
    /// The account framing was rejected.
    Account(MalformedAccount),
    /// The inner queue layout was rejected.
    Queue(MalformedQueue),
}

/// One entry of an instruction's account list.
#[derive(Clone, Copy, Debug, PartialEq, Eq, Structural)]
pub struct AccountMeta {
    pub pubkey: Pubkey,
    pub is_signer: bool,
    pub is_writable: bool,
}

/// An instruction for the exchange program: the program address, the account
/// list, and the packed payload bytes.
#[derive(Clone, Debug)]
pub struct Instruction {
    pub program_id: Pubkey,
    pub accounts: Vec<AccountMeta>,
    pub data: Vec<u8>,
}

/// A writable non-signer entry for the given account.
pub open spec fn writable_meta(k: Pubkey) -> AccountMeta {
    AccountMeta { pubkey: k, is_signer: false, is_writable: true }
}

/// The account list of a consume-events instruction: one writable non-signer
/// entry per user account in the given order, then market, event queue, coin
/// wallet and price-currency wallet, each writable.
pub open spec fn consume_events_metas(
    users: Seq<Pubkey>,
    keys: MarketPubkeys,
    coin_wallet: Pubkey,
    pc_wallet: Pubkey,
) -> Seq<AccountMeta> {
    users.map_values(|k: Pubkey| writable_meta(k)) + seq![
        writable_meta(keys.market),
        writable_meta(keys.event_q),
        writable_meta(coin_wallet),
        writable_meta(pc_wallet),
    ]
}

/// The packed payload of the exchange's consume-events instruction: a zero
/// version byte, the instruction discriminant 3 as a little-endian 32-bit
/// word, and the event limit as a little-endian 16-bit word.
pub open spec fn consume_events_data(limit: u16) -> Seq<u8> {
    seq![0u8, 3u8, 0u8, 0u8, 0u8, (limit % 0x100) as u8, (limit / 0x100) as u8]
}

/// Relies on serum_dex::instruction::MarketInstruction::pack, which encodes
/// a versioned instruction with bincode's fixed little-endian layout: for the
/// consume-events variant, the zero version byte, the variant index 3 as four
/// little-endian bytes, and the 16-bit limit as two little-endian bytes.
#[verifier::external_body]
fn pack_consume_events(limit: u16) -> (r: Vec<u8>)
    ensures
        r@ == consume_events_data(limit),
{
    serum_dex::instruction::MarketInstruction::ConsumeEvents(limit).pack()
}

/// Relies on rand::random, seeded from the thread-local generator; nothing is
/// promised of the drawn value.
pub assume_specification<T>[ rand::random::<T> ]() -> (r: T)
    where
        rand::distributions::Standard: rand::distributions::Distribution<T>,
;

/// A random lamport amount for the self-transfer that perturbs a
/// transaction's signature: always in `1 ..= 10000`, whatever was drawn.
pub fn transfer_nonce_lamports() -> (r: u64)
    ensures
        1 <= r <= 10000,
{
    let raw: u64 = rand::random::<u64>();
    raw % 10000 + 1
}

/// Builds the consume-events instruction for one dispatch: the given user
/// accounts and the four fixed market accounts, with the per-worker event
/// limit (reduced to 16 bits) as payload.
#[verifier::loop_isolation(false)]
pub fn build_consume_events(
    program_id: &Pubkey,
    keys: &MarketPubkeys,
    user_accounts: &Vec<Pubkey>,
    coin_wallet: &Pubkey,
    pc_wallet: &Pubkey,
    events_per_worker: usize,
) -> (r: Instruction)
    ensures
        r.program_id == *program_id,
        r.accounts@ == consume_events_metas(user_accounts@, *keys, *coin_wallet, *pc_wallet),
        r.data@ == consume_events_data((events_per_worker % 0x1_0000) as u16),
{
    let mut accounts: Vec<AccountMeta> = Vec::new();
    let mut i: usize = 0;
    while i < user_accounts.len()
        invariant
            0 <= i <= user_accounts@.len(),
            accounts@ =~= user_accounts@.take(i as int).map_values(|k: Pubkey| writable_meta(k)),
        decreases user_accounts@.len() - i,
    {
        accounts.push(AccountMeta { pubkey: user_accounts[i], is_signer: false, is_writable: true });
        proof {
            assert(accounts@ =~= user_accounts@.take(i + 1).map_values(
                |k: Pubkey| writable_meta(k),
            ));
        }
        i = i + 1;
    }
    accounts.push(AccountMeta { pubkey: keys.market, is_signer: false, is_writable: true });
    accounts.push(AccountMeta { pubkey: keys.event_q, is_signer: false, is_writable: true });
    accounts.push(AccountMeta { pubkey: *coin_wallet, is_signer: false, is_writable: true });
    accounts.push(AccountMeta { pubkey: *pc_wallet, is_signer: false, is_writable: true });
    let limit: u16 = (events_per_worker % 0x1_0000) as u16;
    let data = pack_consume_events(limit);
    proof {
        assert(user_accounts@.take(user_accounts@.len() as int) =~= user_accounts@);
        assert(accounts@ =~= consume_events_metas(
            user_accounts@,
            *keys,
            *coin_wallet,
            *pc_wallet,
        ));
    }
    Instruction { program_id: *program_id, accounts, data }
}

/// The header and live segments a raw event-queue account decodes to, or the
/// first reason for rejection.
pub open spec fn spec_queue_segs(data: Seq<u8>) -> Result<
    (EventQueueHeader, Seq<Event>, Seq<Event>),
    CrankError,
> {
    match spec_strip_padding(data) {
        Err(e) => Err(CrankError::Account(e)),
        Ok(words) => match spec_parse_event_queue(words) {
            Err(e) => Err(CrankError::Queue(e)),
            Ok(t) => Ok(t),
        },
    }
}

/// Decodes a raw event-queue account into its header and live segments.
pub fn queue_segs(data: &[u8]) -> (r: Result<(EventQueueHeader, Vec<Event>, Vec<Event>), CrankError>)
    ensures
        match r {
            Ok((h, s0, s1)) => spec_queue_segs(data@) == Ok::<_, CrankError>((h, s0@, s1@)),
            Err(e) => spec_queue_segs(data@) == Err::<
                (EventQueueHeader, Seq<Event>, Seq<Event>),
                CrankError,
            >(e),
        },
{
    let words = match strip_padding(data) {
        Ok(w) => w,
        Err(e) => {
            return Err(CrankError::Account(e));
        },
    };
    match parse_event_queue(&words) {
        Ok(t) => Ok(t),
        Err(e) => Err(CrankError::Queue(e)),
    }
}

/// The user accounts of the one-shot consume-events instruction: the full
/// ordered owner set of the live events, cut to the 32 smallest.
pub open spec fn one_shot_users(s0: Seq<Event>, s1: Seq<Event>) -> Seq<Pubkey> {
    let sorted = sorted_unique(owners_of(s0 + s1));
    sorted.take(vstd::math::min(32, sorted.len() as int))
}

/// Builds the one-shot consume-events instruction straight from a raw
/// event-queue account: no instruction when the queue is empty, else the 32
/// smallest owners of the live events ahead of the fixed market accounts,
/// with the account count as the event limit.
#[verifier::rlimit(100)]
pub fn consume_events_instruction(
    event_q_data: &[u8],
    program_id: &Pubkey,
    state: &MarketPubkeys,
    coin_wallet: &Pubkey,
    pc_wallet: &Pubkey,
) -> (r: Result<Option<Instruction>, CrankError>)
    ensures
        match r {
            Ok(opt) => {
                &&& spec_queue_segs(event_q_data@) is Ok
                &&& {
                    let (h, s0, s1) = spec_queue_segs(event_q_data@).unwrap();
                    match opt {
                        None => s0.len() + s1.len() == 0,
                        Some(ix) => {
                            &&& s0.len() + s1.len() > 0
                            &&& ix.program_id == *program_id
                            &&& ix.accounts@ == consume_events_metas(
                                one_shot_users(s0, s1),
                                *state,
                                *coin_wallet,
                                *pc_wallet,
                            )
                            &&& ix.data@ == consume_events_data(
                                (one_shot_users(s0, s1).len() + 4) as u16,
                            )
                        },
                    }
                }
            },
            Err(e) => spec_queue_segs(event_q_data@) == Err::<
                (EventQueueHeader, Seq<Event>, Seq<Event>),
                CrankError,
            >(e),
        },
{
    let (_header, seg0, seg1) = match queue_segs(event_q_data) {
        Ok(t) => t,
        Err(e) => {
            return Err(e);
        },
    };
    if seg0.len() == 0 && seg1.len() == 0 {
        return Ok(None);
    }
    let mut users = collect_all_owner_accounts(&seg0, &seg1);
    proof {
        lemma_sorted_unique(owners_of(seg0@ + seg1@));
    }
    users.truncate(32);
    assert(users@ =~= one_shot_users(seg0@, seg1@));
    let instruction = build_consume_events(
        program_id,
        state,
        &users,
        coin_wallet,
        pc_wallet,
        users.len() + 4,
    );
    Ok(Some(instruction))
}

} // verus!
