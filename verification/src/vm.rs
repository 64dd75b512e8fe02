//! Semantics of executing one transfer transaction against a ledger state:
//! the mathematical step function, its executable counterpart, write-set
//! application, and the frame property that lets speculative results be
//! validated against the keys earlier transactions wrote.

use vstd::prelude::*;

use crate::types::{
    Account, BlockError, OutputModel, Transaction, TransactionOutput, TransactionStatus,
    TransferTxn, WriteOp, expected_signature, sign_transfer, DISCARD_SENDER_MISSING,
    DISCARD_SEQUENCE_TOO_NEW, DISCARD_SEQUENCE_TOO_OLD, DISCARD_SIGNATURE_INVALID, KEEP_EXECUTED,
    KEEP_INSUFFICIENT_BALANCE, KEEP_RECEIVER_MISSING,
};

verus! {

/// The account at key `k`, or `None` when the key is out of range or absent.
pub open spec fn account_at(st: Seq<Option<Account>>, k: usize) -> Option<Account> {
    if k < st.len() {
        st[k as int]
    } else {
        None
    }
}

/// An output that keeps nothing: the transaction was discarded with `code`.
pub open spec fn discard_model(code: u64) -> OutputModel {
    OutputModel {
        write_set: Seq::empty(),
        events_len: 0,
        gas_used: 0,
        status: TransactionStatus::Discard(code),
    }
}

/// What executing `txn` against the fixed state `st` returns: either one
/// output, or an error that aborts the whole block. The execution reads
/// exactly the sender's and the receiver's ledger entries.
pub open spec fn vm_result(txn: Transaction, st: Seq<Option<Account>>) -> Result<
    OutputModel,
    BlockError,
> {
    match txn {
        Transaction::Invalid(code) => Err(BlockError::UserError(code)),
        Transaction::Transfer(t) => {
            if t.signature != expected_signature(t) {
                Ok(discard_model(DISCARD_SIGNATURE_INVALID))
            } else {
                match account_at(st, t.sender) {
                    None => Ok(discard_model(DISCARD_SENDER_MISSING)),
                    Some(s) => {
                        if t.sequence_number < s.sequence_number {
                            Ok(discard_model(DISCARD_SEQUENCE_TOO_OLD))
                        } else if t.sequence_number > s.sequence_number {
                            Ok(discard_model(DISCARD_SEQUENCE_TOO_NEW))
                        } else if s.sequence_number == u64::MAX {
                            // The counter cannot advance: the state is corrupt.
                            Err(BlockError::InvariantViolation)
                        } else {
                            vm_transfer_step(t, s, account_at(st, t.receiver))
                        }
                    },
                }
            }
        },
    }
}

/// The transfer itself, once the signature and the sequence number hold:
/// `s` is the sender's account, `rc` the receiver's entry.
pub open spec fn vm_transfer_step(t: TransferTxn, s: Account, rc: Option<Account>) -> Result<
    OutputModel,
    BlockError,
> {
    let bumped = Account { sequence_number: (s.sequence_number + 1) as u64, balance: s.balance };
    match rc {
        None => Ok(
            OutputModel {
                write_set: seq![(t.sender, WriteOp::Write(bumped))],
                events_len: 0,
                gas_used: 1,
                status: TransactionStatus::Keep(KEEP_RECEIVER_MISSING),
            },
        ),
        Some(r) => {
            if s.balance < t.amount {
                Ok(
                    OutputModel {
                        write_set: seq![(t.sender, WriteOp::Write(bumped))],
                        events_len: 0,
                        gas_used: 1,
                        status: TransactionStatus::Keep(KEEP_INSUFFICIENT_BALANCE),
                    },
                )
            } else if t.sender == t.receiver {
                Ok(
                    OutputModel {
                        write_set: seq![(t.sender, WriteOp::Write(bumped))],
                        events_len: 2,
                        gas_used: 1,
                        status: TransactionStatus::Keep(KEEP_EXECUTED),
                    },
                )
            } else if r.balance as int + t.amount as int > u64::MAX as int {
                // The receiver's balance would leave the representable range:
                // the ledger would be corrupt.
                Err(BlockError::InvariantViolation)
            } else {
                Ok(
                    OutputModel {
                        write_set: seq![
                            (
                                t.sender,
                                WriteOp::Write(
                                    Account {
                                        sequence_number: (s.sequence_number + 1) as u64,
                                        balance: (s.balance - t.amount) as u64,
                                    },
                                ),
                            ),
                            (
                                t.receiver,
                                WriteOp::Write(
                                    Account {
                                        sequence_number: r.sequence_number,
                                        balance: (r.balance + t.amount) as u64,
                                    },
                                ),
                            ),
                        ],
                        events_len: 2,
                        gas_used: 1,
                        status: TransactionStatus::Keep(KEEP_EXECUTED),
                    },
                )
            }
        },
    }
}

/// The keys whose ledger entries `txn`'s execution reads.
pub open spec fn read_keys(txn: Transaction) -> Set<usize> {
    match txn {
        Transaction::Transfer(t) => set![t.sender, t.receiver],
        Transaction::Invalid(_) => Set::empty(),
    }
}

/// The state after one write record lands on `st`. Keys out of range
/// change nothing.
pub open spec fn apply_write(st: Seq<Option<Account>>, k: usize, op: WriteOp) -> Seq<
    Option<Account>,
> {
    if k < st.len() {
        st.update(
            k as int,
            match op {
                WriteOp::Write(a) => Some(a),
                WriteOp::Delete => None,
            },
        )
    } else {
        st
    }
}

/// The state after a whole write set lands on `st`, first record first.
pub open spec fn apply_write_set(st: Seq<Option<Account>>, ws: Seq<(usize, WriteOp)>) -> Seq<
    Option<Account>,
>
    decreases ws.len(),
{
    if ws.len() == 0 {
        st
    } else {
        apply_write_set(apply_write(st, ws[0].0, ws[0].1), ws.drop_first())
    }
}

/// Applying a write set keeps the ledger's key range.
pub proof fn lemma_apply_write_set_len(st: Seq<Option<Account>>, ws: Seq<(usize, WriteOp)>)
    ensures
        apply_write_set(st, ws).len() == st.len(),
    decreases ws.len(),
{
    if ws.len() > 0 {
        lemma_apply_write_set_len(apply_write(st, ws[0].0, ws[0].1), ws.drop_first());
    }
}

/// A key no record of the write set names keeps its entry.
pub proof fn lemma_apply_write_set_frame(
    st: Seq<Option<Account>>,
    ws: Seq<(usize, WriteOp)>,
    k: usize,
)
    requires
        forall|i: int| 0 <= i < ws.len() ==> (#[trigger] ws[i]).0 != k,
    ensures
        account_at(apply_write_set(st, ws), k) == account_at(st, k),
    decreases ws.len(),
{
    if ws.len() > 0 {
        assert(ws[0].0 != k);
        let st1 = apply_write(st, ws[0].0, ws[0].1);
        assert(account_at(st1, k) == account_at(st, k));
        assert(forall|i: int|
            0 <= i < ws.drop_first().len() ==> (#[trigger] ws.drop_first()[i]).0 != k);
        lemma_apply_write_set_frame(st1, ws.drop_first(), k);
    }
}

/// Executes one transaction against a fixed ledger state.
pub fn execute_txn(txn: &Transaction, state: &Vec<Option<Account>>) -> (r: Result<
    TransactionOutput,
    BlockError,
>)
    ensures
        result_model(r) == vm_result(*txn, state@),
{
    match txn {
        Transaction::Invalid(code) => Err(BlockError::UserError(*code)),
        Transaction::Transfer(t) => {
            let sig = sign_transfer(t.sender, t.receiver, t.sequence_number, t.amount);
            if t.signature != sig {
                Ok(discard_output(DISCARD_SIGNATURE_INVALID))
            } else {
                let sender_entry = lookup(state, t.sender);
                match sender_entry {
                    None => Ok(discard_output(DISCARD_SENDER_MISSING)),
                    Some(s) => {
                        if t.sequence_number < s.sequence_number {
                            Ok(discard_output(DISCARD_SEQUENCE_TOO_OLD))
                        } else if t.sequence_number > s.sequence_number {
                            Ok(discard_output(DISCARD_SEQUENCE_TOO_NEW))
                        } else if s.sequence_number == u64::MAX {
                            Err(BlockError::InvariantViolation)
                        } else {
                            let rc = lookup(state, t.receiver);
                            execute_transfer_step(t, s, rc)
                        }
                    },
                }
            }
        },
    }
}

/// Builds the output of a transaction discarded with `code`.
fn discard_output(code: u64) -> (r: TransactionOutput)
    ensures
        r@ == discard_model(code),
{
    TransactionOutput {
        write_set: Vec::new(),
        events_len: 0,
        gas_used: 0,
        status: TransactionStatus::Discard(code),
    }
}

/// Folds a `Result` of executable values to the model the spec speaks of.
pub open spec fn result_model(r: Result<TransactionOutput, BlockError>) -> Result<
    OutputModel,
    BlockError,
> {
    match r {
        Ok(o) => Ok(o@),
        Err(e) => Err(e),
    }
}

/// The transfer itself, signature and sequence number already checked.
fn execute_transfer_step(t: &TransferTxn, s: Account, rc: Option<Account>) -> (r: Result<
    TransactionOutput,
    BlockError,
>)
    requires
        s.sequence_number < u64::MAX,
    ensures
        result_model(r) == vm_transfer_step(*t, s, rc),
{
    let bumped = Account { sequence_number: s.sequence_number + 1, balance: s.balance };
    match rc {
        None => {
            let mut ws: Vec<(usize, WriteOp)> = Vec::new();
            ws.push((t.sender, WriteOp::Write(bumped)));
            proof {
                assert(ws@ =~= seq![(t.sender, WriteOp::Write(bumped))]);
            }
            Ok(
                TransactionOutput {
                    write_set: ws,
                    events_len: 0,
                    gas_used: 1,
                    status: TransactionStatus::Keep(KEEP_RECEIVER_MISSING),
                },
            )
        },
        Some(r) => {
            if s.balance < t.amount {
                let mut ws: Vec<(usize, WriteOp)> = Vec::new();
                ws.push((t.sender, WriteOp::Write(bumped)));
                proof {
                    assert(ws@ =~= seq![(t.sender, WriteOp::Write(bumped))]);
                }
                Ok(
                    TransactionOutput {
                        write_set: ws,
                        events_len: 0,
                        gas_used: 1,
                        status: TransactionStatus::Keep(KEEP_INSUFFICIENT_BALANCE),
                    },
                )
            } else if t.sender == t.receiver {
                let mut ws: Vec<(usize, WriteOp)> = Vec::new();
                ws.push((t.sender, WriteOp::Write(bumped)));
                proof {
                    assert(ws@ =~= seq![(t.sender, WriteOp::Write(bumped))]);
                }
                Ok(
                    TransactionOutput {
                        write_set: ws,
                        events_len: 2,
                        gas_used: 1,
                        status: TransactionStatus::Keep(KEEP_EXECUTED),
                    },
                )
            } else if t.amount > u64::MAX - r.balance {
                Err(BlockError::InvariantViolation)
            } else {
                let sender_after = Account {
                    sequence_number: s.sequence_number + 1,
                    balance: s.balance - t.amount,
                };
                let receiver_after = Account {
                    sequence_number: r.sequence_number,
                    balance: r.balance + t.amount,
                };
                let mut ws: Vec<(usize, WriteOp)> = Vec::new();
                ws.push((t.sender, WriteOp::Write(sender_after)));
                ws.push((t.receiver, WriteOp::Write(receiver_after)));
                proof {
                    assert(ws@ =~= seq![
                        (t.sender, WriteOp::Write(sender_after)),
                        (t.receiver, WriteOp::Write(receiver_after)),
                    ]);
                }
                Ok(
                    TransactionOutput {
                        write_set: ws,
                        events_len: 2,
                        gas_used: 1,
                        status: TransactionStatus::Keep(KEEP_EXECUTED),
                    },
                )
            }
        },
    }
}

/// Reads the ledger entry at `k`.
pub fn lookup(state: &Vec<Option<Account>>, k: usize) -> (r: Option<Account>)
    ensures
        r == account_at(state@, k),
{
    if k < state.len() {
        state[k]
    } else {
        None
    }
}

/// Lands a whole write set on a ledger state, first record first.
pub fn apply_writes(state: &mut Vec<Option<Account>>, ws: &Vec<(usize, WriteOp)>)
    ensures
        final(state)@ == apply_write_set(old(state)@, ws@),
{
    proof {
        assert(ws@.skip(0) =~= ws@);
    }
    let mut i: usize = 0;
    while i < ws.len()
        invariant
            i <= ws.len(),
            apply_write_set(state@, ws@.skip(i as int)) == apply_write_set(old(state)@, ws@),
        decreases ws.len() - i,
    {
        let (k, op) = ws[i];
        let ghost pre = state@;
        if k < state.len() {
            let entry = match op {
                WriteOp::Write(a) => Some(a),
                WriteOp::Delete => None,
            };
            state.set(k, entry);
        }
        proof {
            assert(state@ == apply_write(pre, k, op));
            assert(ws@.skip(i as int)[0] == ws@[i as int]);
            assert(ws@.skip(i as int).drop_first() =~= ws@.skip(i as int + 1));
        }
        i = i + 1;
    }
    proof {
        assert(ws@.skip(ws@.len() as int) =~= Seq::<(usize, WriteOp)>::empty());
    }
}

/// Frame property: the step function depends on the ledger state only
/// through the transaction's read keys, so two states of one key range that
/// agree on those keys give one and the same result.
pub proof fn lemma_vm_frame(
    txn: Transaction,
    st1: Seq<Option<Account>>,
    st2: Seq<Option<Account>>,
)
    requires
        st1.len() == st2.len(),
        forall|k: usize| read_keys(txn).contains(k) ==> account_at(st1, k) == account_at(st2, k),
    ensures
        vm_result(txn, st1) == vm_result(txn, st2),
{
    match txn {
        Transaction::Transfer(t) => {
            assert(read_keys(txn).contains(t.sender));
            assert(read_keys(txn).contains(t.receiver));
        },
        Transaction::Invalid(_) => {},
    }
}

/// A write set names each key at most once.
pub open spec fn write_keys_unique(ws: Seq<(usize, WriteOp)>) -> bool {
    forall|i: int, j: int| 0 <= i < j < ws.len() ==> (#[trigger] ws[i]).0 != (#[trigger] ws[j]).0
}

/// Every output the step function produces has a write set with unique keys.
pub proof fn lemma_write_set_keys_unique(txn: Transaction, st: Seq<Option<Account>>)
    ensures
        (vm_result(txn, st) matches Ok(o) ==> write_keys_unique(o.write_set)),
{
}

/// Sequence-number discipline: a signed transfer whose sequence number does
/// not equal the sender's current one is discarded, never fatal and never
/// written; one that is kept advances the sender's counter by exactly one.
pub proof fn lemma_sequence_number_discipline(t: TransferTxn, st: Seq<Option<Account>>)
    requires
        t.signature == expected_signature(t),
        account_at(st, t.sender) is Some,
    ensures
        t.sequence_number != account_at(st, t.sender)->0.sequence_number ==> (vm_result(
            Transaction::Transfer(t),
            st,
        ) matches Ok(o) && o.status matches TransactionStatus::Discard(_) && o.write_set.len()
            == 0),
        (vm_result(Transaction::Transfer(t), st) matches Ok(o) && o.status matches
            TransactionStatus::Keep(_)) ==> (account_at(
            apply_write_set(st, vm_result(Transaction::Transfer(t), st)->Ok_0.write_set),
            t.sender,
        ) matches Some(a) && a.sequence_number == account_at(
            st,
            t.sender,
        )->0.sequence_number + 1),
{
    let s = account_at(st, t.sender)->0;
    let r = vm_result(Transaction::Transfer(t), st);
    reveal_with_fuel(apply_write_set, 3);
    if t.sequence_number == s.sequence_number && s.sequence_number != u64::MAX {
        if r matches Ok(o) && o.status matches TransactionStatus::Keep(_) {
            let o = r->Ok_0;
            let st1 = apply_write(st, o.write_set[0].0, o.write_set[0].1);
            if o.write_set.len() == 1 {
                assert(o.write_set.drop_first() =~= Seq::<(usize, WriteOp)>::empty());
                assert(apply_write_set(st, o.write_set) == st1);
            } else {
                let st2 = apply_write(st1, o.write_set[1].0, o.write_set[1].1);
                assert(o.write_set.drop_first().drop_first() =~= Seq::<(usize, WriteOp)>::empty());
                assert(o.write_set.drop_first()[0] == o.write_set[1]);
                assert(apply_write_set(st, o.write_set) == st2);
                assert(t.sender != t.receiver);
            }
        }
    }
}

} // verus!
