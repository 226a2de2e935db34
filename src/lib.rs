/// Character-level text: substring search and line splitting.
pub mod text;
/// Facts read from the wallet console's output: addresses, balances, transaction ids.
pub mod extract;
/// Pointing the node's miner at a wallet address in its configuration text.
pub mod config;
/// JSON answers of the node and the faucet, read through serde_json.
pub mod json;
/// One readiness probe and its outcome.
pub mod readiness;
/// Repeated probing under a retry policy.
pub mod poller;
/// Which light-client backend runs, and where the wallet reaches it.
pub mod backend;
/// The ordered bootstrap stages and what a failure of each does.
pub mod sequencer;
/// Smoke checks and the golden end-to-end flow.
pub mod runner;
/// The `docker compose` project: its directory, argument lists and output.
pub mod compose;
