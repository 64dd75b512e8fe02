//! Data model of the block executor: accounts, the ledger snapshot,
//! transfer transactions with their declared or inferred footprints,
//! write sets, transaction outputs and the block-level error taxonomy.

use vstd::prelude::*;

verus! {

/// Success code of a transfer that executed and moved funds.
pub const KEEP_EXECUTED: u64 = 0;
/// The transfer aborted: the sender's balance was below the amount.
pub const KEEP_INSUFFICIENT_BALANCE: u64 = 1;
/// The transfer aborted: the receiving account does not exist.
pub const KEEP_RECEIVER_MISSING: u64 = 2;

/// The transaction was thrown away: its signature did not verify.
pub const DISCARD_SIGNATURE_INVALID: u64 = 10;
/// The transaction was thrown away: the sending account does not exist.
pub const DISCARD_SENDER_MISSING: u64 = 11;
/// The transaction was thrown away: its sequence number is below the account's.
pub const DISCARD_SEQUENCE_TOO_OLD: u64 = 12;
/// The transaction was thrown away: its sequence number is above the account's.
pub const DISCARD_SEQUENCE_TOO_NEW: u64 = 13;

/// One ledger account: a monotonic transaction counter and a balance.
#[derive(Clone, Copy, PartialEq, Eq, Structural, Debug)]
pub struct Account {
    pub sequence_number: u64,
    pub balance: u64,
}

/// A point-in-time, read-only view of the ledger, keyed by account index.
/// An entry of `None` is an absent (never created or deleted) account.
#[derive(Clone, Debug)]
pub struct LedgerSnapshot {
    pub accounts: Vec<Option<Account>>,
}

impl View for LedgerSnapshot {
    type V = Seq<Option<Account>>;

    open spec fn view(&self) -> Seq<Option<Account>> {
        self.accounts@
    }
}

/// How a transaction's write footprint is known ahead of execution.
#[derive(Clone, PartialEq, Eq, Debug)]
pub enum FootprintDecl {
    /// The analyzer infers the footprint from the transaction's shape.
    Inferred,
    /// The keys the transaction declares it may write. A declaration that
    /// misses a key the execution actually writes is an unestimated write.
    DeclaredWrites(Vec<usize>),
    /// The analyzer cannot model this transaction; scheduling cannot trust it.
    Opaque,
}

/// A fixed peer-to-peer transfer instruction, immutable once constructed.
#[derive(Clone, PartialEq, Eq, Debug)]
pub struct TransferTxn {
    pub sender: usize,
    pub receiver: usize,
    /// Must equal the sender's current sequence number at apply time.
    pub sequence_number: u64,
    pub amount: u64,
    /// Checked during preprocessing against `expected_signature`.
    pub signature: u64,
    pub footprint: FootprintDecl,
}

/// A transaction handed to the block executor.
#[derive(Clone, PartialEq, Eq, Debug)]
pub enum Transaction {
    /// An ordinary signed transfer.
    Transfer(TransferTxn),
    /// A structurally invalid transaction; executing a block that holds one
    /// is a user error, a property of the input and not of the scheduler.
    Invalid(u64),
}

/// The authenticator a well-formed transfer carries over its own fields.
/// Signature internals are out of scope here, so validity is modeled as
/// agreement with this function of the signed fields.
pub open spec fn expected_signature(t: TransferTxn) -> u64 {
    (t.sender as u64) ^ (t.receiver as u64) ^ t.sequence_number ^ t.amount
}

/// Computes the authenticator a transfer with these fields must carry.
pub fn sign_transfer(sender: usize, receiver: usize, sequence_number: u64, amount: u64) -> (r: u64)
    ensures
        forall|t: TransferTxn|
            t.sender == sender && t.receiver == receiver && t.sequence_number == sequence_number
                && t.amount == amount ==> r == expected_signature(t),
{
    (sender as u64) ^ (receiver as u64) ^ sequence_number ^ amount
}

/// One mutation of a ledger key.
#[derive(Clone, Copy, PartialEq, Eq, Structural, Debug)]
pub enum WriteOp {
    Write(Account),
    Delete,
}

/// Outcome class of one transaction, carried in its output.
#[derive(Clone, Copy, PartialEq, Eq, Structural, Debug)]
pub enum TransactionStatus {
    /// The transaction is part of the block; the code tells success from abort.
    Keep(u64),
    /// The transaction is dropped with a status code; nothing is written.
    Discard(u64),
    /// The transaction must be retried in a later block.
    Retry,
}

/// What executing one transaction produced: its write set (keys unique),
/// the number of emitted events (opaque beyond their count), the cost
/// charged, and the status.
#[derive(Clone, PartialEq, Eq, Debug)]
pub struct TransactionOutput {
    pub write_set: Vec<(usize, WriteOp)>,
    pub events_len: u64,
    pub gas_used: u64,
    pub status: TransactionStatus,
}

/// Mathematical model of a `TransactionOutput`: the same fields with the
/// write set as a sequence.
pub struct OutputModel {
    pub write_set: Seq<(usize, WriteOp)>,
    pub events_len: u64,
    pub gas_used: u64,
    pub status: TransactionStatus,
}

impl View for TransactionOutput {
    type V = OutputModel;

    open spec fn view(&self) -> OutputModel {
        OutputModel {
            write_set: self.write_set@,
            events_len: self.events_len,
            gas_used: self.gas_used,
            status: self.status,
        }
    }
}

impl TransactionOutput {
    /// A copy of this output's write set.
    pub fn get_writes(&self) -> (r: Vec<(usize, WriteOp)>)
        ensures
            r@ == self@.write_set,
    {
        let mut r: Vec<(usize, WriteOp)> = Vec::new();
        let mut i: usize = 0;
        while i < self.write_set.len()
            invariant
                i <= self.write_set.len(),
                r@ == self.write_set@.subrange(0, i as int),
            decreases self.write_set.len() - i,
        {
            r.push(self.write_set[i]);
            i = i + 1;
        }
        proof {
            assert(r@ =~= self.write_set@);
        }
        r
    }

    /// The output recorded for a transaction that comes after a skip signal:
    /// nothing written, nothing charged, to be retried in a later block.
    pub fn skip_output() -> (r: Self)
        ensures
            r@.write_set.len() == 0,
            r@.events_len == 0,
            r@.gas_used == 0,
            r@.status == TransactionStatus::Retry,
    {
        TransactionOutput {
            write_set: Vec::new(),
            events_len: 0,
            gas_used: 0,
            status: TransactionStatus::Retry,
        }
    }

    /// A value-preserving copy.
    pub fn duplicate(&self) -> (r: Self)
        ensures
            r@ == self@,
    {
        TransactionOutput {
            write_set: self.get_writes(),
            events_len: self.events_len,
            gas_used: self.gas_used,
            status: self.status,
        }
    }
}

/// An error that aborts a whole block with no outputs.
#[derive(Clone, Copy, PartialEq, Eq, Structural, Debug)]
pub enum BlockError {
    /// The execution layer found an internal inconsistency; fatal, and
    /// unrelated to the scheduling strategy.
    InvariantViolation,
    /// A property of the submitted block itself; fatal for this call but
    /// no fault of the parallel strategy.
    UserError(u64),
}

/// Why a parallel attempt was abandoned for sequential re-execution.
#[derive(Clone, Copy, PartialEq, Eq, Structural, Debug)]
pub enum FallbackCause {
    /// Footprint inference could not model some transaction.
    InferenceFailure,
    /// A transaction wrote a key outside its declared write footprint.
    UnestimatedWrite,
}

} // verus!
