use vstd::prelude::*;

verus! {

/// Settings of a worker: its identity, the mnemonic its wallets derive
/// from, the market contract and the server it talks to.
#[derive(Debug, Clone)]
pub struct Settings {
    pub uuid: String,
    pub mnemonic: String,
    pub contract_id: String,
    pub websocket_url: String,
    pub chain: String,
}

} // verus!
