use diem_transaction_benchmarks::parallel_executor::ParallelDiemVM;
use diem_transaction_benchmarks::sequential::execute_block_sequential;
use diem_transaction_benchmarks::transactions::acc_gen;
use diem_transaction_benchmarks::types::{
    Account, BlockError, FallbackCause, FootprintDecl, LedgerSnapshot, Transaction,
    TransactionOutput, TransactionStatus, TransferTxn, sign_transfer, DISCARD_SEQUENCE_TOO_NEW,
    DISCARD_SEQUENCE_TOO_OLD, DISCARD_SIGNATURE_INVALID, KEEP_EXECUTED,
    KEEP_INSUFFICIENT_BALANCE, KEEP_RECEIVER_MISSING,
};

fn transfer(sender: usize, receiver: usize, sequence_number: u64, amount: u64) -> Transaction {
    let signature = sign_transfer(sender, receiver, sequence_number, amount);
    Transaction::Transfer(TransferTxn {
        sender,
        receiver,
        sequence_number,
        amount,
        signature,
        footprint: FootprintDecl::Inferred,
    })
}

fn run_both(
    txns: &Vec<Transaction>,
    snapshot: &LedgerSnapshot,
) -> (
    Result<(Vec<TransactionOutput>, Option<FallbackCause>), BlockError>,
    Result<Vec<TransactionOutput>, BlockError>,
) {
    let parallel = ParallelDiemVM::execute_block(txns, snapshot);
    let sequential = execute_block_sequential(txns, snapshot);
    (parallel, sequential)
}

#[test]
fn parallel_equals_sequential_on_chained_transfers() {
    let snapshot = acc_gen(4);
    // A chain where each transfer depends on the previous one's writes.
    let txns = vec![
        transfer(0, 1, 0, 100),
        transfer(1, 2, 0, 50),
        transfer(2, 3, 0, 25),
        transfer(0, 2, 1, 10),
    ];
    let (parallel, sequential) = run_both(&txns, &snapshot);
    let (outs, fallback) = parallel.expect("block should execute");
    let seq_outs = sequential.expect("block should execute");
    assert_eq!(outs, seq_outs);
    assert_eq!(fallback, None);
    for o in &outs {
        assert_eq!(o.status, TransactionStatus::Keep(KEEP_EXECUTED));
    }
}

#[test]
fn output_order_matches_input_order() {
    let snapshot = acc_gen(3);
    let txns = vec![
        transfer(0, 1, 0, 7),
        transfer(2, 2, 0, 1),
        transfer(1, 0, 0, 3),
    ];
    let (outs, _) = ParallelDiemVM::execute_block(&txns, &snapshot).expect("block executes");
    assert_eq!(outs.len(), txns.len());
    // Output i carries exactly transaction i's write set: its first write
    // names the transaction's sender.
    assert_eq!(outs[0].write_set[0].0, 0);
    assert_eq!(outs[1].write_set[0].0, 2);
    assert_eq!(outs[2].write_set[0].0, 1);
}

#[test]
fn sequence_numbers_must_increase_per_sender() {
    let snapshot = acc_gen(2);
    let txns = vec![
        transfer(0, 1, 0, 1),
        transfer(0, 1, 1, 1),
        transfer(0, 1, 1, 1), // replayed: now too old
        transfer(0, 1, 5, 1), // far ahead: too new
    ];
    let (outs, fallback) = ParallelDiemVM::execute_block(&txns, &snapshot).expect("no fatal");
    assert_eq!(fallback, None);
    assert_eq!(outs[0].status, TransactionStatus::Keep(KEEP_EXECUTED));
    assert_eq!(outs[1].status, TransactionStatus::Keep(KEEP_EXECUTED));
    assert_eq!(outs[2].status, TransactionStatus::Discard(DISCARD_SEQUENCE_TOO_OLD));
    assert_eq!(outs[3].status, TransactionStatus::Discard(DISCARD_SEQUENCE_TOO_NEW));
    // Discarded transactions write nothing.
    assert!(outs[2].write_set.is_empty());
    assert!(outs[3].write_set.is_empty());
}

#[test]
fn same_key_writers_commit_or_fall_back_never_wrong() {
    // Two transactions writing the sender's key in original order: the
    // second reads what the first wrote, so speculation against the shared
    // snapshot is stale and the engine must still match sequential output.
    let snapshot = acc_gen(3);
    let txns = vec![transfer(0, 1, 0, 600_000_000), transfer(0, 2, 1, 500_000_000)];
    let (parallel, sequential) = run_both(&txns, &snapshot);
    let (outs, _fallback) = parallel.expect("block executes");
    let seq_outs = sequential.expect("block executes");
    assert_eq!(outs, seq_outs);
    assert_eq!(outs[0].status, TransactionStatus::Keep(KEEP_EXECUTED));
    // After sending 600m of 1000m, the second 500m transfer must abort.
    assert_eq!(outs[1].status, TransactionStatus::Keep(KEEP_INSUFFICIENT_BALANCE));
}

#[test]
fn invariant_violation_aborts_with_zero_outputs() {
    // A corrupted counter: the account's sequence number cannot advance.
    let snapshot = LedgerSnapshot {
        accounts: vec![
            Some(Account { sequence_number: u64::MAX, balance: 10 }),
            Some(Account { sequence_number: 0, balance: 10 }),
        ],
    };
    let txns = vec![transfer(1, 0, 0, 1), transfer(0, 1, u64::MAX, 1)];
    let parallel = ParallelDiemVM::execute_block(&txns, &snapshot);
    assert_eq!(parallel, Err(BlockError::InvariantViolation));
    let sequential = execute_block_sequential(&txns, &snapshot);
    assert_eq!(sequential, Err(BlockError::InvariantViolation));
}

#[test]
fn balance_overflow_is_fatal() {
    let snapshot = LedgerSnapshot {
        accounts: vec![
            Some(Account { sequence_number: 0, balance: 10 }),
            Some(Account { sequence_number: 0, balance: u64::MAX }),
        ],
    };
    let txns = vec![transfer(0, 1, 0, 1)];
    assert_eq!(
        ParallelDiemVM::execute_block(&txns, &snapshot),
        Err(BlockError::InvariantViolation)
    );
}

#[test]
fn structurally_invalid_transaction_is_a_user_error() {
    let snapshot = acc_gen(2);
    let txns = vec![transfer(0, 1, 0, 1), Transaction::Invalid(42)];
    assert_eq!(
        ParallelDiemVM::execute_block(&txns, &snapshot),
        Err(BlockError::UserError(42))
    );
}

#[test]
fn bad_signature_is_discarded_not_fatal() {
    let snapshot = acc_gen(2);
    let mut t = TransferTxn {
        sender: 0,
        receiver: 1,
        sequence_number: 0,
        amount: 1,
        signature: 0,
        footprint: FootprintDecl::Inferred,
    };
    t.signature = sign_transfer(0, 1, 0, 1) ^ 1;
    let txns = vec![Transaction::Transfer(t), transfer(1, 0, 0, 2)];
    let (outs, fallback) = ParallelDiemVM::execute_block(&txns, &snapshot).expect("no fatal");
    assert_eq!(fallback, None);
    assert_eq!(outs[0].status, TransactionStatus::Discard(DISCARD_SIGNATURE_INVALID));
    assert_eq!(outs[1].status, TransactionStatus::Keep(KEEP_EXECUTED));
}

#[test]
fn opaque_footprint_forces_sequential_fallback() {
    let snapshot = acc_gen(2);
    let sig = sign_transfer(0, 1, 0, 1);
    let opaque = Transaction::Transfer(TransferTxn {
        sender: 0,
        receiver: 1,
        sequence_number: 0,
        amount: 1,
        signature: sig,
        footprint: FootprintDecl::Opaque,
    });
    let txns = vec![opaque, transfer(1, 0, 0, 2)];
    let (parallel, sequential) = run_both(&txns, &snapshot);
    let (outs, fallback) = parallel.expect("block executes");
    assert_eq!(fallback, Some(FallbackCause::InferenceFailure));
    assert_eq!(outs, sequential.expect("block executes"));
}

#[test]
fn unestimated_write_forces_sequential_fallback() {
    let snapshot = acc_gen(2);
    let sig = sign_transfer(0, 1, 0, 1);
    // Declares an empty write footprint but actually writes two keys.
    let lying = Transaction::Transfer(TransferTxn {
        sender: 0,
        receiver: 1,
        sequence_number: 0,
        amount: 1,
        signature: sig,
        footprint: FootprintDecl::DeclaredWrites(vec![]),
    });
    let txns = vec![lying, transfer(1, 0, 0, 2)];
    let (parallel, sequential) = run_both(&txns, &snapshot);
    let (outs, fallback) = parallel.expect("block executes");
    assert_eq!(fallback, Some(FallbackCause::UnestimatedWrite));
    assert_eq!(outs, sequential.expect("block executes"));
    assert_eq!(outs[0].status, TransactionStatus::Keep(KEEP_EXECUTED));
}

#[test]
fn missing_receiver_aborts_but_keeps_the_transaction() {
    let snapshot = LedgerSnapshot {
        accounts: vec![Some(Account { sequence_number: 0, balance: 10 }), None],
    };
    let txns = vec![transfer(0, 1, 0, 1)];
    let (outs, _) = ParallelDiemVM::execute_block(&txns, &snapshot).expect("no fatal");
    assert_eq!(outs[0].status, TransactionStatus::Keep(KEEP_RECEIVER_MISSING));
    // The sender's counter still advances.
    assert_eq!(outs[0].write_set.len(), 1);
    let (key, _) = outs[0].write_set[0];
    assert_eq!(key, 0);
}

#[test]
fn skip_output_is_an_empty_retry() {
    let o = TransactionOutput::skip_output();
    assert_eq!(o.status, TransactionStatus::Retry);
    assert!(o.write_set.is_empty());
    assert_eq!(o.gas_used, 0);
    assert_eq!(o.events_len, 0);
}

#[test]
fn get_writes_copies_the_write_set() {
    let snapshot = acc_gen(2);
    let txns = vec![transfer(0, 1, 0, 5)];
    let (outs, _) = ParallelDiemVM::execute_block(&txns, &snapshot).expect("no fatal");
    let writes = outs[0].get_writes();
    assert_eq!(writes, outs[0].write_set);
    assert_eq!(writes.len(), 2);
}
