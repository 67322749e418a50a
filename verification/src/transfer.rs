//! Cross-chain transfers: the request, the names that are derived from it,
//! and the trace it leaves in the security event log.

use vstd::prelude::*;
use vstd::string::StringExecFns;
use crate::decimal::{decimal, decimal_text};
use crate::events::{newest, EventLog, SecurityEventView, MAX_EVENTS};

verus! {

/// The severity under which a performed transfer is logged.
pub const TRANSFER_SEVERITY: u8 = 3;

/// The severity under which a transaction flagged as risky is logged.
pub const FLAGGED_SEVERITY: u8 = 9;

/// A request to move an amount of a token from one chain to another.
#[derive(Debug, PartialEq, Eq)]
pub struct CrossChainTransfer {
    pub from_chain: String,
    pub to_chain: String,
    pub amount: u64,
    pub token_type: String,
    pub ai_approved: bool,
}

/// The name of the pool between two chains: both names, joined by an
/// underscore.
pub open spec fn pool_id_text(from_chain: Seq<char>, to_chain: Seq<char>) -> Seq<char> {
    from_chain + "_"@ + to_chain
}

/// The identifier of a transfer performed at `timestamp`: `tx`, both chain
/// names and the timestamp in decimal, joined by underscores.
pub open spec fn transaction_id_text(
    from_chain: Seq<char>,
    to_chain: Seq<char>,
    timestamp: u64,
) -> Seq<char> {
    "tx_"@ + from_chain + "_"@ + to_chain + "_"@ + decimal_text(timestamp as nat)
}

/// What the log says of a transfer: the two chains with an arrow between
/// them, then the amount in decimal and the token, separated by spaces.
pub open spec fn transfer_details_text(
    from_chain: Seq<char>,
    to_chain: Seq<char>,
    amount: u64,
    token_type: Seq<char>,
) -> Seq<char> {
    from_chain + "\u{2192}"@ + to_chain + " "@ + decimal_text(amount as nat) + " "@ + token_type
}

/// What the log says of a transaction that was flagged as risky.
pub open spec fn flagged_details_text(pool_id: Seq<char>, amount: u64) -> Seq<char> {
    "Pool "@ + pool_id + " tx "@ + decimal_text(amount as nat) + " flagged"@
}

/// The names of the chains between which transfers are supported.
pub open spec fn supported_chain_names() -> Seq<Seq<char>> {
    seq!["Bitcoin"@, "Ethereum"@, "ICP"@, "Sonic"@]
}

impl CrossChainTransfer {
    /// The name of the pool that the transfer goes through.
    pub fn pool_id(&self) -> (name: String)
        ensures
            name@ == pool_id_text(self.from_chain@, self.to_chain@),
    {
        let mut name = self.from_chain.clone();
        name.append("_");
        name.append(self.to_chain.as_str());
        name
    }

    /// The identifier of the transfer when performed at `timestamp`.
    pub fn transaction_id(&self, timestamp: u64) -> (id: String)
        ensures
            id@ == transaction_id_text(self.from_chain@, self.to_chain@, timestamp),
    {
        let mut id = String::from_str("tx_");
        id.append(self.from_chain.as_str());
        id.append("_");
        id.append(self.to_chain.as_str());
        id.append("_");
        let stamp = decimal(timestamp);
        id.append(stamp.as_str());
        id
    }

    /// What the log says of the transfer.
    pub fn details(&self) -> (text: String)
        ensures
            text@ == transfer_details_text(
                self.from_chain@,
                self.to_chain@,
                self.amount,
                self.token_type@,
            ),
    {
        let mut text = self.from_chain.clone();
        text.append("\u{2192}");
        text.append(self.to_chain.as_str());
        text.append(" ");
        let amount = decimal(self.amount);
        text.append(amount.as_str());
        text.append(" ");
        text.append(self.token_type.as_str());
        text
    }

    /// Records the transfer, performed at `timestamp`, in the log: one event
    /// of type `CROSS_CHAIN_TX` and severity `TRANSFER_SEVERITY` with the
    /// transfer's details.
    pub fn log_to(&self, log: &mut EventLog, timestamp: u64)
        requires
            old(log).wf(),
        ensures
            final(log).wf(),
            final(log)@ == newest(
                old(log)@.push(
                    SecurityEventView {
                        event_type: "CROSS_CHAIN_TX"@,
                        severity: TRANSFER_SEVERITY,
                        timestamp,
                        details: transfer_details_text(
                            self.from_chain@,
                            self.to_chain@,
                            self.amount,
                            self.token_type@,
                        ),
                    },
                ),
                MAX_EVENTS as nat,
            ),
    {
        let details = self.details();
        log.log_security_event("CROSS_CHAIN_TX", TRANSFER_SEVERITY, timestamp, details);
    }
}

/// Records in the log that a transaction of `amount` through the pool
/// `pool_id` was flagged as risky at `timestamp`: one event of type
/// `HIGH_RISK_TX` and severity `FLAGGED_SEVERITY`.
pub fn log_flagged_transaction(log: &mut EventLog, pool_id: &str, amount: u64, timestamp: u64)
    requires
        old(log).wf(),
    ensures
        final(log).wf(),
        final(log)@ == newest(
            old(log)@.push(
                SecurityEventView {
                    event_type: "HIGH_RISK_TX"@,
                    severity: FLAGGED_SEVERITY,
                    timestamp,
                    details: flagged_details_text(pool_id@, amount),
                },
            ),
            MAX_EVENTS as nat,
        ),
{
    let mut details = String::from_str("Pool ");
    details.append(pool_id);
    details.append(" tx ");
    let written = decimal(amount);
    details.append(written.as_str());
    details.append(" flagged");
    log.log_security_event("HIGH_RISK_TX", FLAGGED_SEVERITY, timestamp, details);
}

/// The chains between which transfers are supported: Bitcoin, Ethereum, ICP
/// and Sonic, in this order.
pub fn get_supported_chains() -> (chains: Vec<String>)
    ensures
        chains@.map_values(|name: String| name@) == supported_chain_names(),
{
    let mut chains: Vec<String> = Vec::new();
    chains.push(String::from_str("Bitcoin"));
    chains.push(String::from_str("Ethereum"));
    chains.push(String::from_str("ICP"));
    chains.push(String::from_str("Sonic"));
    assert(chains@.map_values(|name: String| name@) =~= supported_chain_names());
    chains
}

} // verus!
