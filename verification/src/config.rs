//! The crank's configuration record and its defaults; loading and saving
//! live with the process harness.

use vstd::prelude::*;

verus! {

broadcast use vstd::string::to_string_from_display_ensures_for_str;

/// One market entry of the configuration: the market account and the two
/// wallets that collect the crank's fee accounts, all as displayable
/// addresses.
#[derive(Clone, Debug, Default)]
pub struct Market {
    pub name: String,
    pub market_account: String,
    pub coin_wallet: String,
    pub pc_wallet: String,
}

/// The crank's configuration: endpoints, key path, logging, and the markets
/// to serve.
#[derive(Clone, Debug)]
pub struct Configuration {
    pub http_rpc_url: String,
    pub ws_rpc_url: String,
    pub key_path: String,
    pub log_file: String,
    pub debug_log: bool,
    pub markets: Vec<Market>,
}

impl Default for Configuration {
    /// The development defaults: public development endpoints, the standard
    /// key location, file logging off, and one sample market entry.
    fn default() -> (r: Configuration)
        ensures
            r.http_rpc_url@ == "https://api.devnet.solana.com"@,
            r.ws_rpc_url@ == "ws://api.devnet.solana.com"@,
            r.key_path@ == "~/.config/solana/id.json"@,
            r.log_file@ == "liquidator.log"@,
            !r.debug_log,
            r.markets@.len() == 1,
            r.markets@[0].name@ == "TULIP-USDC"@,
            r.markets@[0].market_account@ == "somekey"@,
            r.markets@[0].coin_wallet@ == "somewallet"@,
            r.markets@[0].pc_wallet@ == "some_pc_wallet"@,
    {
        let market = Market {
            name: "TULIP-USDC".to_string(),
            market_account: "somekey".to_string(),
            coin_wallet: "somewallet".to_string(),
            pc_wallet: "some_pc_wallet".to_string(),
        };
        let mut markets: Vec<Market> = Vec::new();
        markets.push(market);
        Configuration {
            http_rpc_url: "https://api.devnet.solana.com".to_string(),
            ws_rpc_url: "ws://api.devnet.solana.com".to_string(),
            key_path: "~/.config/solana/id.json".to_string(),
            log_file: "liquidator.log".to_string(),
            debug_log: false,
            markets,
        }
    }
}

} // verus!
