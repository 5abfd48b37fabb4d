//! Decoding of the market-state account and resolution of the full bundle of
//! per-market account addresses the crank needs.

use vstd::prelude::*;

use crate::decode::{spec_strip_padding, strip_padding, word_of_le_bytes, MalformedAccount};
use crate::keys::Pubkey;

verus! {

/// Why market-key resolution rejected its input.
#[derive(Clone, Copy, Debug, PartialEq, Eq, Structural)]
pub enum ResolveError {
    /// The account framing was rejected.
    Account(MalformedAccount),
    /// The inner payload does not have the length of either market-state
    /// layout variant.
    MalformedMarket,
    /// The account-flag word holds unknown bits or is not the
    /// initialized-market pattern.
    InvalidMarketFlags,
    /// No vault-signer address exists for the stored nonce.
    VaultSignerDerivation,
    /// The market state records an address other than the fetched account.
    MarketAddressMismatch,
}

/// All per-market account addresses the crank needs, resolved once at
/// startup.
#[derive(Clone, Copy, Debug, PartialEq, Eq, Structural)]
pub struct MarketPubkeys {
    pub market: Pubkey,
    pub req_q: Pubkey,
    pub event_q: Pubkey,
    pub bids: Pubkey,
    pub asks: Pubkey,
    pub coin_vault: Pubkey,
    pub pc_vault: Pubkey,
    pub vault_signer_key: Pubkey,
}

/// The eight little-endian bytes of a 64-bit word.
pub open spec fn le8(w: u64) -> Seq<u8> {
    seq![
        (w % 0x100) as u8,
        ((w / 0x100) % 0x100) as u8,
        ((w / 0x1_0000) % 0x100) as u8,
        ((w / 0x100_0000) % 0x100) as u8,
        ((w / 0x1_0000_0000) % 0x100) as u8,
        ((w / 0x100_0000_0000) % 0x100) as u8,
        ((w / 0x1_0000_0000_0000) % 0x100) as u8,
        ((w / 0x100_0000_0000_0000) % 0x100) as u8,
    ]
}

/// The 32-byte form of an address: its four words little-endian.
pub open spec fn key_bytes(k: Pubkey) -> Seq<u8> {
    le8(k.w0) + le8(k.w1) + le8(k.w2) + le8(k.w3)
}

/// The address encoded by 32 little-endian bytes.
pub open spec fn key_of_bytes(b: Seq<u8>) -> Pubkey {
    Pubkey {
        w0: word_of_le_bytes(b.subrange(0, 8)),
        w1: word_of_le_bytes(b.subrange(8, 16)),
        w2: word_of_le_bytes(b.subrange(16, 24)),
        w3: word_of_le_bytes(b.subrange(24, 32)),
    }
}

/// The address stored as four words starting at word `i`.
pub open spec fn market_key_at(words: Seq<u64>, i: int) -> Pubkey {
    Pubkey { w0: words[i], w1: words[i + 1], w2: words[i + 2], w3: words[i + 3] }
}

/// The vault-signer address the exchange program derives from a market's
/// nonce, the market address and the program id, when one exists.  The
/// derivation is a pure function of these three arguments; it is not given a
/// definition here.
pub uninterp spec fn vault_signer_of(nonce: u64, market: Seq<u8>, program_id: Seq<u8>) -> Option<
    Seq<u8>,
>;

/// Relies on serum_dex::state::gen_vault_signer_key, which derives the
/// program-derived vault-signer address from exactly (nonce, market,
/// program id) and returns a 32-byte address, or fails when no address
/// exists for that nonce.
#[verifier::external_body]
fn create_vault_signer_address(nonce: u64, market: &Vec<u8>, program_id: &Vec<u8>) -> (r: Option<
    Vec<u8>,
>)
    requires
        market@.len() == 32,
        program_id@.len() == 32,
    ensures
        r is Some <==> vault_signer_of(nonce, market@, program_id@) is Some,
        r is Some ==> r.unwrap()@ == vault_signer_of(nonce, market@, program_id@).unwrap()
            && r.unwrap()@.len() == 32,
{
    let m = solana_program::pubkey::Pubkey::try_from(market.as_slice()).unwrap();
    let p = solana_program::pubkey::Pubkey::try_from(program_id.as_slice()).unwrap();
    match serum_dex::state::gen_vault_signer_key(nonce, &m, &p) {
        Ok(pk) => Some(pk.to_bytes().to_vec()),
        Err(_) => None,
    }
}

/// Appends the eight little-endian bytes of a word.
fn push_word_le(v: &mut Vec<u8>, w: u64)
    ensures
        final(v)@ == old(v)@ + le8(w),
{
    v.push((w % 0x100) as u8);
    v.push(((w / 0x100) % 0x100) as u8);
    v.push(((w / 0x1_0000) % 0x100) as u8);
    v.push(((w / 0x100_0000) % 0x100) as u8);
    v.push(((w / 0x1_0000_0000) % 0x100) as u8);
    v.push(((w / 0x100_0000_0000) % 0x100) as u8);
    v.push(((w / 0x1_0000_0000_0000) % 0x100) as u8);
    v.push(((w / 0x100_0000_0000_0000) % 0x100) as u8);
    assert(final(v)@ =~= old(v)@ + le8(w));
}

/// The 32-byte form of an address.
pub fn pubkey_to_bytes(k: &Pubkey) -> (r: Vec<u8>)
    ensures
        r@ == key_bytes(*k),
        r@.len() == 32,
{
    let mut v: Vec<u8> = Vec::new();
    push_word_le(&mut v, k.w0);
    push_word_le(&mut v, k.w1);
    push_word_le(&mut v, k.w2);
    push_word_le(&mut v, k.w3);
    assert(v@ =~= key_bytes(*k));
    v
}

/// Reads the word stored little-endian at bytes `base .. base + 8`.
fn word_le_at(b: &Vec<u8>, base: usize) -> (r: u64)
    requires
        base + 8 <= b@.len(),
    ensures
        r == word_of_le_bytes(b@.subrange(base as int, base + 8)),
{
    let _n = b.len();
    let r = (b[base] as u64) + (b[base + 1] as u64) * 0x100 + (b[base + 2] as u64) * 0x1_0000 + (
    b[base + 3] as u64) * 0x100_0000 + (b[base + 4] as u64) * 0x1_0000_0000 + (b[base + 5] as u64)
        * 0x100_0000_0000 + (b[base + 6] as u64) * 0x1_0000_0000_0000 + (b[base + 7] as u64)
        * 0x100_0000_0000_0000;
    proof {
        let sub = b@.subrange(base as int, base + 8);
        assert(forall|j: int| 0 <= j < 8 ==> #[trigger] sub[j] == b@[base + j]);
    }
    r
}

/// The address encoded by 32 little-endian bytes.
pub fn pubkey_from_bytes(b: &Vec<u8>) -> (r: Pubkey)
    requires
        b@.len() == 32,
    ensures
        r == key_of_bytes(b@),
{
    Pubkey {
        w0: word_le_at(b, 0),
        w1: word_le_at(b, 8),
        w2: word_le_at(b, 16),
        w3: word_le_at(b, 24),
    }
}

/// The word lengths of the two market-state layout variants.
pub open spec fn market_state_words(permissioned: bool) -> int {
    if permissioned {
        183
    } else {
        47
    }
}

/// What resolving the market keys from the raw market-account bytes yields:
/// the framing is stripped; the account-flag word is validated; the layout
/// variant is chosen by the permissioned flag bit; the flag pattern must be
/// exactly the initialized market; the vault signer is derived from the
/// stored nonce; and the stored own address must equal the fetched market.
pub open spec fn spec_resolve_market(data: Seq<u8>, program_id: Pubkey, market: Pubkey) -> Result<
    MarketPubkeys,
    ResolveError,
> {
    match spec_strip_padding(data) {
        Err(e) => Err(ResolveError::Account(e)),
        Ok(words) => {
            if words.len() < 1 {
                Err(ResolveError::MalformedMarket)
            } else if words[0] >= 0x400 {
                Err(ResolveError::InvalidMarketFlags)
            } else if words.len() != market_state_words((words[0] / 0x200) % 2 == 1) {
                Err(ResolveError::MalformedMarket)
            } else if words[0] != 3 {
                Err(ResolveError::InvalidMarketFlags)
            } else if vault_signer_of(words[5], key_bytes(market), key_bytes(program_id)) is None {
                Err(ResolveError::VaultSignerDerivation)
            } else if market_key_at(words, 1) != market {
                Err(ResolveError::MarketAddressMismatch)
            } else {
                Ok(
                    MarketPubkeys {
                        market,
                        req_q: market_key_at(words, 27),
                        event_q: market_key_at(words, 31),
                        bids: market_key_at(words, 35),
                        asks: market_key_at(words, 39),
                        coin_vault: market_key_at(words, 14),
                        pc_vault: market_key_at(words, 20),
                        vault_signer_key: key_of_bytes(
                            vault_signer_of(
                                words[5],
                                key_bytes(market),
                                key_bytes(program_id),
                            ).unwrap(),
                        ),
                    },
                )
            }
        },
    }
}

/// Resolves the bundle of per-market addresses from the market account's raw
/// bytes, choosing the layout variant by the permissioned flag bit and
/// validating flags, layout and the stored own address.
pub fn get_keys_for_market(data: &[u8], program_id: &Pubkey, market: &Pubkey) -> (r: Result<
    MarketPubkeys,
    ResolveError,
>)
    ensures
        match r {
            Ok(keys) => spec_resolve_market(data@, *program_id, *market) == Ok::<
                MarketPubkeys,
                ResolveError,
            >(keys),
            Err(e) => spec_resolve_market(data@, *program_id, *market) == Err::<
                MarketPubkeys,
                ResolveError,
            >(e),
        },
{
    let words = match strip_padding(data) {
        Ok(w) => w,
        Err(e) => {
            return Err(ResolveError::Account(e));
        },
    };
    if words.len() < 1 {
        return Err(ResolveError::MalformedMarket);
    }
    let flags = words[0];
    if flags >= 0x400 {
        return Err(ResolveError::InvalidMarketFlags);
    }
    let permissioned = (flags / 0x200) % 2 == 1;
    let expected: usize = if permissioned {
        183
    } else {
        47
    };
    if words.len() != expected {
        return Err(ResolveError::MalformedMarket);
    }
    if flags != 3 {
        return Err(ResolveError::InvalidMarketFlags);
    }
    let market_bytes = pubkey_to_bytes(market);
    let program_bytes = pubkey_to_bytes(program_id);
    let vault_bytes = match create_vault_signer_address(words[5], &market_bytes, &program_bytes) {
        Some(b) => b,
        None => {
            return Err(ResolveError::VaultSignerDerivation);
        },
    };
    let own_address = Pubkey { w0: words[1], w1: words[2], w2: words[3], w3: words[4] };
    if !(own_address.w0 == market.w0 && own_address.w1 == market.w1 && own_address.w2 == market.w2
        && own_address.w3 == market.w3) {
        return Err(ResolveError::MarketAddressMismatch);
    }
    Ok(
        MarketPubkeys {
            market: *market,
            req_q: Pubkey { w0: words[27], w1: words[28], w2: words[29], w3: words[30] },
            event_q: Pubkey { w0: words[31], w1: words[32], w2: words[33], w3: words[34] },
            bids: Pubkey { w0: words[35], w1: words[36], w2: words[37], w3: words[38] },
            asks: Pubkey { w0: words[39], w1: words[40], w2: words[41], w3: words[42] },
            coin_vault: Pubkey { w0: words[14], w1: words[15], w2: words[16], w3: words[17] },
            pc_vault: Pubkey { w0: words[20], w1: words[21], w2: words[22], w3: words[23] },
            vault_signer_key: pubkey_from_bytes(&vault_bytes),
        },
    )
}

} // verus!
