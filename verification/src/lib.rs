//! A transfer-transaction block executor with a verified parallel execution
//! engine: transactions are speculatively executed against a read-only ledger
//! snapshot, validated against the writes of logically earlier transactions,
//! and committed only when the result provably equals a sequential run; on a
//! scheduling anomaly the whole block falls back to sequential re-execution.

pub mod measurement;
pub mod parallel_executor;
pub mod sequential;
pub mod transactions;
pub mod types;
pub mod utils;
pub mod vm;
