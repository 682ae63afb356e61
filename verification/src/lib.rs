//! A wager/arbitration protocol layered over a token-balance ledger: a
//! transfer whose receiver holds enough to cover it is not executed but
//! suspended as a wager between the two parties, and settled — loser pays
//! winner — only when a privileged operator records the external referee's
//! verdict. Every entry point is all-or-nothing: on any failure the whole
//! state is left exactly as it was.

pub mod contract;
pub mod ledger;
pub mod metadata;
pub mod verdict;
