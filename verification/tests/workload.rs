use diem_transaction_benchmarks::measurement::{average_tps, throughput_tps};
use diem_transaction_benchmarks::transactions::{
    acc_gen, synthetic_rows, ParallelBenchState, TransactionBencher, TransactionBenchState,
    universe_strategy_with_enough_balance, DEFAULT_NUM_ACCOUNTS, DEFAULT_NUM_TRANSACTIONS,
    UNIVERSE_BALANCE,
};
use diem_transaction_benchmarks::types::{Transaction, TransactionStatus, KEEP_EXECUTED};
use diem_transaction_benchmarks::utils::{concatenate_strings, parse_field_or_zero, read_csv_with_header};

#[test]
fn malformed_sender_field_defaults_to_zero() {
    let data = b"sender,receiver,amount\nabc,5,10\n";
    let rows = read_csv_with_header(data).expect("csv reads");
    assert_eq!(rows, vec![(0, 5, 10)]);
}

#[test]
fn missing_fields_default_to_zero() {
    let narrow = b"h\n7\n";
    let rows = read_csv_with_header(narrow).expect("csv reads");
    assert_eq!(rows, vec![(7, 0, 0)]);
    let two_wide = b"h1,h2\n1,2\n";
    let rows = read_csv_with_header(two_wide).expect("csv reads");
    assert_eq!(rows, vec![(1, 2, 0)]);
}

#[test]
fn ragged_record_file_is_one_malformed_error() {
    // A record whose width differs from the header's is a file-level error,
    // not a per-row default.
    let data = b"h1,h2,h3\n7\n";
    assert!(read_csv_with_header(data).is_err());
}

#[test]
fn header_row_is_skipped_and_rows_parse_in_order() {
    let data = b"sender,receiver,amount\n1,2,3\n4,5,6\n";
    let rows = read_csv_with_header(data).expect("csv reads");
    assert_eq!(rows, vec![(1, 2, 3), (4, 5, 6)]);
}

#[test]
fn oversized_and_odd_fields_default_to_zero() {
    assert_eq!(parse_field_or_zero(&b"999999999999999999999999999999".to_vec()), 0);
    assert_eq!(parse_field_or_zero(&b"007".to_vec()), 7);
    assert_eq!(parse_field_or_zero(&b"".to_vec()), 0);
    assert_eq!(parse_field_or_zero(&b"1 2".to_vec()), 0);
    assert_eq!(parse_field_or_zero(&b"42".to_vec()), 42);
}

#[test]
fn throughput_is_positive_for_non_empty_blocks() {
    assert_eq!(throughput_tps(10, 2), Some(5000));
    // Slower than one transaction per second still reports at least one.
    assert_eq!(throughput_tps(1, 2000), Some(1));
    assert_eq!(throughput_tps(3, 7), Some(429));
}

#[test]
fn throughput_of_empty_block_or_instant_run_is_undefined() {
    assert_eq!(throughput_tps(0, 5), None);
    assert_eq!(throughput_tps(5, 0), None);
    assert_eq!(throughput_tps(0, 0), None);
}

#[test]
fn average_handles_empty_and_ordinary_series() {
    assert_eq!(average_tps(&vec![]), None);
    assert_eq!(average_tps(&vec![3, 5]), Some(4));
    assert_eq!(average_tps(&vec![10]), Some(10));
}

#[test]
fn concatenate_strings_joins() {
    assert_eq!(concatenate_strings("ab", "cd"), "abcd");
    assert_eq!(concatenate_strings("", "x"), "x");
}

#[test]
fn bencher_defaults_and_setters() {
    let b = TransactionBencher::new(());
    assert_eq!(b.num_accounts, DEFAULT_NUM_ACCOUNTS);
    assert_eq!(b.num_transactions, DEFAULT_NUM_TRANSACTIONS);
    let mut b = TransactionBencher::new(());
    b.num_accounts(7).num_transactions(9);
    assert_eq!(b.num_accounts, 7);
    assert_eq!(b.num_transactions, 9);
    let d = TransactionBencher::new_default();
    assert_eq!(d.num_accounts, 0);
    assert_eq!(d.num_transactions, 0);
}

#[test]
fn universe_has_funded_accounts() {
    let plan = universe_strategy_with_enough_balance(3);
    let u = plan.gen_account_universe();
    assert_eq!(u.accounts.len(), 3);
    for a in &u.accounts {
        let a = a.expect("account exists");
        assert_eq!(a.sequence_number, 0);
        assert_eq!(a.balance, UNIVERSE_BALANCE);
    }
    let g = acc_gen(2);
    assert_eq!(g.accounts.len(), 2);
}

#[test]
fn replay_assigns_consecutive_sequence_numbers_per_sender() {
    let universe = acc_gen(3);
    let rows = vec![(0, 1, 10), (0, 2, 20), (1, 0, 30), (0, 1, 40)];
    let state = TransactionBenchState::setup_from_files_and_universe(&rows, universe);
    let seqs: Vec<u64> = state
        .transactions
        .iter()
        .map(|t| match t {
            Transaction::Transfer(t) => t.sequence_number,
            _ => panic!("replay builds transfers"),
        })
        .collect();
    assert_eq!(seqs, vec![0, 1, 0, 2]);
    // Replayed transfers all move one unit and all commit.
    let outs = state.execute().expect("block executes");
    assert_eq!(outs.len(), 4);
    for o in &outs {
        assert_eq!(o.status, TransactionStatus::Keep(KEEP_EXECUTED));
    }
}

#[test]
fn replayed_block_runs_in_parallel_too() {
    let universe = acc_gen(3);
    let rows = vec![(0, 1, 1), (1, 2, 1), (0, 2, 1)];
    let state = ParallelBenchState::setup_from_files_and_universe(&rows, universe);
    let (outs, fallback) = state.execute().expect("block executes");
    assert_eq!(outs.len(), 3);
    assert_eq!(fallback, None);
}

#[test]
fn synthetic_state_builds_and_commits_without_fallback() {
    let state = ParallelBenchState::with_size(5, 40, 12345);
    assert_eq!(state.bench_state.transactions.len(), 40);
    assert_eq!(state.bench_state.executor.accounts.len(), 5);
    let (outs, fallback) = state.execute().expect("block executes");
    assert_eq!(outs.len(), 40);
    assert_eq!(fallback, None);
}

#[test]
fn synthetic_rows_are_deterministic_in_the_seed() {
    let a = synthetic_rows(7, 20, 99);
    let b = synthetic_rows(7, 20, 99);
    assert_eq!(a, b);
    let c = synthetic_rows(7, 20, 100);
    assert_ne!(a, c);
    for row in &a {
        assert!(row.0 < 7 && row.1 < 7);
        assert!(row.2 == 1 || row.2 == 2);
    }
}

#[test]
fn csv_replay_end_to_end_matches_sequential() {
    let data = b"sender,receiver,amount\n0,1,5\n1,0,5\n0,1,5\n";
    let rows = read_csv_with_header(data).expect("csv reads");
    let parallel_state =
        ParallelBenchState::setup_from_files_and_universe(&rows, acc_gen(2));
    let sequential_state =
        TransactionBenchState::setup_from_files_and_universe(&rows, acc_gen(2));
    let (outs, _) = parallel_state.execute().expect("block executes");
    let seq_outs = sequential_state.execute().expect("block executes");
    assert_eq!(outs, seq_outs);
}
