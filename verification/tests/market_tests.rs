//! Tests of market-key resolution and consume-events instruction building.

use crank::decode::MalformedAccount;
use crank::instruction::{build_consume_events, consume_events_instruction, transfer_nonce_lamports};
use crank::keys::Pubkey;
use crank::market::{get_keys_for_market, MarketPubkeys, ResolveError};

fn key(n: u64) -> Pubkey {
    Pubkey::new(n, n + 1, n + 2, n + 3)
}

fn framed(inner_words: &[u64]) -> Vec<u8> {
    let mut v = Vec::new();
    v.extend_from_slice(b"serum");
    for w in inner_words {
        v.extend_from_slice(&w.to_le_bytes());
    }
    v.extend_from_slice(b"padding");
    v
}

fn put_key(words: &mut [u64], at: usize, k: Pubkey) {
    words[at] = k.w0;
    words[at + 1] = k.w1;
    words[at + 2] = k.w2;
    words[at + 3] = k.w3;
}

/// A well-formed base-layout market account for the given market address and
/// vault-signer nonce.
fn market_words(market: Pubkey, nonce: u64) -> Vec<u64> {
    let mut words = vec![0u64; 47];
    words[0] = 3; // initialized | market
    put_key(&mut words, 1, market); // own address
    words[5] = nonce;
    put_key(&mut words, 14, key(140)); // coin vault
    put_key(&mut words, 20, key(200)); // pc vault
    put_key(&mut words, 27, key(270)); // request queue
    put_key(&mut words, 31, key(310)); // event queue
    put_key(&mut words, 35, key(350)); // bids
    put_key(&mut words, 39, key(390)); // asks
    words
}

/// Resolves with the first nonce the derivation accepts; the derivation
/// rejects roughly half of all nonces, so a handful of tries always finds
/// one.
fn resolve_some(market: Pubkey, program_id: Pubkey) -> (MarketPubkeys, u64) {
    for nonce in 0..64 {
        let data = framed(&market_words(market, nonce));
        match get_keys_for_market(&data, &program_id, &market) {
            Ok(keys) => return (keys, nonce),
            Err(ResolveError::VaultSignerDerivation) => continue,
            Err(e) => panic!("unexpected resolve error: {:?}", e),
        }
    }
    panic!("no nonce in 0..64 yielded a vault signer");
}

#[test]
fn resolve_passes_market_fields_through() {
    let market = key(1);
    let program_id = key(77);
    let (keys, _nonce) = resolve_some(market, program_id);
    assert_eq!(keys.market, market);
    assert_eq!(keys.req_q, key(270));
    assert_eq!(keys.event_q, key(310));
    assert_eq!(keys.bids, key(350));
    assert_eq!(keys.asks, key(390));
    assert_eq!(keys.coin_vault, key(140));
    assert_eq!(keys.pc_vault, key(200));
}

#[test]
fn resolve_derives_vault_signer() {
    let market = key(1);
    let program_id = key(77);
    let (keys, nonce) = resolve_some(market, program_id);
    // The derived address is none of the inputs.
    assert_ne!(keys.vault_signer_key, market);
    assert_ne!(keys.vault_signer_key, program_id);
    // The derivation is deterministic.
    let data = framed(&market_words(market, nonce));
    let again = get_keys_for_market(&data, &program_id, &market).expect("same nonce resolves");
    assert_eq!(again.vault_signer_key, keys.vault_signer_key);
}

#[test]
fn some_nonce_fails_derivation() {
    // The derivation rejects roughly half of all nonces, so 64 tries always
    // hit at least one rejection.
    let market = key(1);
    let program_id = key(77);
    let mut saw_failure = false;
    for nonce in 0..64 {
        let data = framed(&market_words(market, nonce));
        if get_keys_for_market(&data, &program_id, &market)
            == Err(ResolveError::VaultSignerDerivation)
        {
            saw_failure = true;
        }
    }
    assert!(saw_failure);
}

#[test]
fn resolve_rejects_bad_framing() {
    let market = key(1);
    let program_id = key(77);
    let mut data = framed(&market_words(market, 0));
    data[0] = b'x';
    assert_eq!(
        get_keys_for_market(&data, &program_id, &market),
        Err(ResolveError::Account(MalformedAccount::HeadMismatch))
    );
}

#[test]
fn resolve_rejects_unknown_flag_bits() {
    let market = key(1);
    let program_id = key(77);
    let mut words = market_words(market, 0);
    words[0] = 0x400; // a bit above the known flags
    assert_eq!(
        get_keys_for_market(&framed(&words), &program_id, &market),
        Err(ResolveError::InvalidMarketFlags)
    );
}

#[test]
fn resolve_rejects_wrong_flag_pattern() {
    let market = key(1);
    let program_id = key(77);
    let mut words = market_words(market, 0);
    words[0] = 1; // initialized but not a market
    assert_eq!(
        get_keys_for_market(&framed(&words), &program_id, &market),
        Err(ResolveError::InvalidMarketFlags)
    );
}

#[test]
fn resolve_rejects_wrong_layout_length() {
    let market = key(1);
    let program_id = key(77);
    let mut words = market_words(market, 0);
    words.push(0); // 48 words: neither layout variant
    assert_eq!(
        get_keys_for_market(&framed(&words), &program_id, &market),
        Err(ResolveError::MalformedMarket)
    );
}

#[test]
fn resolve_rejects_foreign_own_address() {
    let market = key(1);
    let program_id = key(77);
    let (_keys, nonce) = resolve_some(market, program_id);
    let mut words = market_words(market, nonce);
    put_key(&mut words, 1, key(999));
    assert_eq!(
        get_keys_for_market(&framed(&words), &program_id, &market),
        Err(ResolveError::MarketAddressMismatch)
    );
}

fn some_market_keys() -> MarketPubkeys {
    MarketPubkeys {
        market: key(1),
        req_q: key(270),
        event_q: key(310),
        bids: key(350),
        asks: key(390),
        coin_vault: key(140),
        pc_vault: key(200),
        vault_signer_key: key(888),
    }
}

#[test]
fn consume_events_payload_bytes() {
    let keys = some_market_keys();
    let users = vec![key(10), key(20)];
    let ix = build_consume_events(&key(77), &keys, &users, &key(60), &key(61), 5);
    // Version byte, discriminant 3 little-endian, limit 5 little-endian.
    assert_eq!(ix.data, vec![0, 3, 0, 0, 0, 5, 0]);
    let ix2 = build_consume_events(&key(77), &keys, &users, &key(60), &key(61), 0x1234);
    assert_eq!(ix2.data, vec![0, 3, 0, 0, 0, 0x34, 0x12]);
}

#[test]
fn consume_events_meta_list_shape() {
    let keys = some_market_keys();
    let coin = key(60);
    let pc = key(61);
    let users = vec![key(10), key(20), key(30)];
    let ix = build_consume_events(&key(77), &keys, &users, &coin, &pc, 5);
    assert_eq!(ix.program_id, key(77));
    assert_eq!(ix.accounts.len(), users.len() + 4);
    for (i, u) in users.iter().enumerate() {
        assert_eq!(ix.accounts[i].pubkey, *u);
        assert!(ix.accounts[i].is_writable);
        assert!(!ix.accounts[i].is_signer);
    }
    let tail: Vec<Pubkey> = ix.accounts[users.len()..].iter().map(|m| m.pubkey).collect();
    assert_eq!(tail, vec![keys.market, keys.event_q, coin, pc]);
    assert!(ix.accounts.iter().all(|m| m.is_writable && !m.is_signer));
}

/// Builds a framed event-queue account with the given owner first-words.
fn queue_account(owners: &[u64]) -> Vec<u8> {
    let mut words: Vec<u64> = vec![0x11, 0, owners.len() as u64, 0];
    for o in owners {
        let mut record = [0u64; 11];
        record[6] = *o;
        words.extend_from_slice(&record);
    }
    let mut v = Vec::new();
    v.extend_from_slice(b"serum");
    for w in &words {
        v.extend_from_slice(&w.to_le_bytes());
    }
    v.extend_from_slice(b"padding");
    v
}

#[test]
fn one_shot_instruction_empty_queue() {
    let keys = some_market_keys();
    let data = queue_account(&[]);
    let r = consume_events_instruction(&data, &key(77), &keys, &key(60), &key(61))
        .expect("valid queue account");
    assert!(r.is_none());
}

#[test]
fn one_shot_instruction_shape() {
    let keys = some_market_keys();
    // Ten events over three owners inserted in the order 30, 10, 20.
    let mut owners = Vec::new();
    for i in 0..10 {
        owners.push(match i % 3 {
            0 => 30,
            1 => 10,
            _ => 20,
        });
    }
    let data = queue_account(&owners);
    let ix = consume_events_instruction(&data, &key(77), &keys, &key(60), &key(61))
        .expect("valid queue account")
        .expect("non-empty queue");
    // Three unique owners sorted, then the four fixed accounts.
    assert_eq!(ix.accounts.len(), 3 + 4);
    let users: Vec<u64> = ix.accounts[..3].iter().map(|m| m.pubkey.w0).collect();
    assert_eq!(users, vec![10, 20, 30]);
    // The limit is the whole account count.
    assert_eq!(ix.data, vec![0, 3, 0, 0, 0, 7, 0]);
}

#[test]
fn transfer_nonce_stays_in_range() {
    for _ in 0..1000 {
        let n = transfer_nonce_lamports();
        assert!((1..=10000).contains(&n));
    }
}
