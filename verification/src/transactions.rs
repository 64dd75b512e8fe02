//! Benchmarking support for transactions: workload construction (synthetic
//! or replayed from record rows), the account universe the workloads
//! reference, and the states a benchmark run executes.

use vstd::prelude::*;

use crate::sequential::{block_result_model, execute_block_sequential, seq_exec};
use crate::parallel_executor::ParallelDiemVM;
use crate::types::{
    Account, BlockError, FallbackCause, FootprintDecl, LedgerSnapshot, OutputModel, Transaction,
    TransactionOutput, TransferTxn, expected_signature, sign_transfer,
};

verus! {

/// The number of accounts created by default.
pub const DEFAULT_NUM_ACCOUNTS: usize = 100;

/// The number of transactions created by default.
pub const DEFAULT_NUM_TRANSACTIONS: usize = 1000;

/// The balance every generated account starts with: ample for any workload
/// this crate builds.
pub const UNIVERSE_BALANCE: u64 = 1_000_000_000;

/// Benchmarking support for transactions: block dimensions plus the workload
/// strategy that builds the transaction stream.
pub struct TransactionBencher<S> {
    pub num_accounts: usize,
    pub num_transactions: usize,
    pub strategy: S,
}

impl TransactionBencher<()> {
    /// A bencher with no strategy and no dimensions, for replay runs that
    /// take both from the record file.
    pub fn new_default() -> (r: Self)
        ensures
            r.num_accounts == 0,
            r.num_transactions == 0,
    {
        TransactionBencher { num_accounts: 0, num_transactions: 0, strategy: () }
    }
}

impl<S> TransactionBencher<S> {
    /// Creates a new transaction bencher with default settings.
    pub fn new(strategy: S) -> (r: Self)
        ensures
            r.num_accounts == DEFAULT_NUM_ACCOUNTS,
            r.num_transactions == DEFAULT_NUM_TRANSACTIONS,
            r.strategy == strategy,
    {
        TransactionBencher {
            num_accounts: DEFAULT_NUM_ACCOUNTS,
            num_transactions: DEFAULT_NUM_TRANSACTIONS,
            strategy,
        }
    }

    /// Sets a custom number of accounts.
    pub fn num_accounts(&mut self, num_accounts: usize) -> (r: &mut Self)
        ensures
            (*r).num_accounts == num_accounts,
            (*r).num_transactions == old(self).num_transactions,
            (*r).strategy == old(self).strategy,
            *final(self) == *final(r),
    {
        self.num_accounts = num_accounts;
        self
    }

    /// Sets a custom number of transactions.
    pub fn num_transactions(&mut self, num_transactions: usize) -> (r: &mut Self)
        ensures
            (*r).num_transactions == num_transactions,
            (*r).num_accounts == old(self).num_accounts,
            (*r).strategy == old(self).strategy,
            *final(self) == *final(r),
    {
        self.num_transactions = num_transactions;
        self
    }
}

/// A plan for an account universe where every account can fund any workload.
pub struct UniversePlan {
    pub num_accounts: usize,
    pub balance_per_account: u64,
}

/// Returns the universe plan benchmarks use: `num_accounts` accounts, each
/// holding ample balance.
pub fn universe_strategy_with_enough_balance(num_accounts: usize) -> (r: UniversePlan)
    ensures
        r.num_accounts == num_accounts,
        r.balance_per_account == UNIVERSE_BALANCE,
{
    UniversePlan { num_accounts, balance_per_account: UNIVERSE_BALANCE }
}

impl UniversePlan {
    /// Materialises the plan as a ledger snapshot: fresh accounts, counters
    /// at zero, each funded with the planned balance.
    pub fn gen_account_universe(&self) -> (r: LedgerSnapshot)
        ensures
            r@.len() == self.num_accounts,
            forall|i: int|
                0 <= i < self.num_accounts ==> r@[i] == Some(
                    Account { sequence_number: 0u64, balance: self.balance_per_account },
                ),
    {
        let mut accounts: Vec<Option<Account>> = Vec::new();
        let mut i: usize = 0;
        while i < self.num_accounts
            invariant
                i <= self.num_accounts,
                accounts@.len() == i,
                forall|j: int|
                    0 <= j < i ==> accounts@[j] == Some(
                        Account { sequence_number: 0u64, balance: self.balance_per_account },
                    ),
            decreases self.num_accounts - i,
        {
            accounts.push(Some(Account { sequence_number: 0, balance: self.balance_per_account }));
            i = i + 1;
        }
        LedgerSnapshot { accounts }
    }
}

/// Generates the account universe a run of `account_num` accounts uses.
pub fn acc_gen(account_num: usize) -> (r: LedgerSnapshot)
    ensures
        r@.len() == account_num,
        forall|i: int|
            0 <= i < account_num ==> r@[i] == Some(
                Account { sequence_number: 0u64, balance: UNIVERSE_BALANCE },
            ),
{
    let plan = universe_strategy_with_enough_balance(account_num);
    plan.gen_account_universe()
}

/// How many of the first `i` rows name `s` as their sender.
pub open spec fn count_sender(rows: Seq<(usize, usize, usize)>, s: usize, i: int) -> int
    decreases i,
{
    if i <= 0 {
        0
    } else {
        count_sender(rows, s, i - 1) + (if rows[i - 1].0 == s {
            1int
        } else {
            0int
        })
    }
}

/// Counting a sender looks only at the sender column.
proof fn lemma_count_sender_same_senders(
    a: Seq<(usize, usize, usize)>,
    b: Seq<(usize, usize, usize)>,
    s: usize,
    i: int,
)
    requires
        a.len() == b.len(),
        forall|j: int| 0 <= j < a.len() ==> (#[trigger] a[j]).0 == (#[trigger] b[j]).0,
        0 <= i <= a.len(),
    ensures
        count_sender(a, s, i) == count_sender(b, s, i),
    decreases i,
{
    if i > 0 {
        lemma_count_sender_same_senders(a, b, s, i - 1);
    }
}

proof fn lemma_count_sender_bound(rows: Seq<(usize, usize, usize)>, s: usize, i: int)
    requires
        0 <= i,
    ensures
        0 <= count_sender(rows, s, i) <= i,
    decreases i,
{
    if i > 0 {
        lemma_count_sender_bound(rows, s, i - 1);
    }
}

/// Every ledger entry is a live account whose counter can still advance by
/// one step per row.
pub open spec fn universe_supports(ledger: Seq<Option<Account>>, row_count: int) -> bool {
    forall|k: int|
        0 <= k < ledger.len() ==> ((#[trigger] ledger[k]) matches Some(a) && a.sequence_number
            + row_count <= u64::MAX)
}

/// Row `j` names account indices inside the universe.
pub open spec fn rows_in_universe(
    rows: Seq<(usize, usize, usize)>,
    ledger: Seq<Option<Account>>,
) -> bool {
    forall|j: int|
        0 <= j < rows.len() ==> (#[trigger] rows[j]).0 < ledger.len() && rows[j].1 < ledger.len()
}

/// The transfer that row `j` must become: its declared sender and receiver,
/// the row's amount, a sequence number that continues the sender's account
/// counter past every earlier row from the same sender, a valid signature,
/// and a footprint left to inference.
pub open spec fn replay_txn_ok(
    txn: Transaction,
    rows: Seq<(usize, usize, usize)>,
    ledger: Seq<Option<Account>>,
    j: int,
) -> bool {
    txn matches Transaction::Transfer(t) && t.sender == rows[j].0 && t.receiver == rows[j].1
        && t.amount == rows[j].2 as u64 && t.sequence_number as int == ledger[
        rows[j].0 as int
    ]->0.sequence_number + count_sender(rows, rows[j].0, j) && t.signature == expected_signature(t)
        && t.footprint is Inferred
}

/// Builds one signed transfer per row, in row order. Each sender's rows get
/// consecutive sequence numbers starting at the sender's account counter, so
/// a replayed stream presents strictly increasing numbers per sender.
pub fn build_transfer_block(
    rows: &Vec<(usize, usize, usize)>,
    ledger: &LedgerSnapshot,
) -> (r: Vec<Transaction>)
    requires
        rows_in_universe(rows@, ledger@),
        universe_supports(ledger@, rows@.len() as int),
    ensures
        r@.len() == rows@.len(),
        forall|j: int| 0 <= j < rows@.len() ==> replay_txn_ok(#[trigger] r@[j], rows@, ledger@, j),
{
    // The next sequence number to hand out, per account.
    let mut counts: Vec<u64> = Vec::new();
    let mut k: usize = 0;
    while k < ledger.accounts.len()
        invariant
            k <= ledger.accounts.len(),
            counts@.len() == k,
            universe_supports(ledger@, rows@.len() as int),
            forall|k2: int|
                0 <= k2 < k ==> counts@[k2] == ledger@[k2]->0.sequence_number,
        decreases ledger.accounts.len() - k,
    {
        let seed = match ledger.accounts[k] {
            Some(a) => a.sequence_number,
            None => 0,
        };
        counts.push(seed);
        k = k + 1;
    }
    let mut r: Vec<Transaction> = Vec::new();
    let mut i: usize = 0;
    while i < rows.len()
        invariant
            i <= rows.len(),
            r@.len() == i,
            counts@.len() == ledger@.len(),
            rows_in_universe(rows@, ledger@),
            universe_supports(ledger@, rows@.len() as int),
            forall|k2: usize|
                k2 < counts@.len() ==> counts@[k2 as int] as int == ledger@[
                    k2 as int
                ]->0.sequence_number + count_sender(rows@, k2, i as int),
            forall|j: int| 0 <= j < i ==> replay_txn_ok(#[trigger] r@[j], rows@, ledger@, j),
        decreases rows.len() - i,
    {
        let (sender, receiver, amount) = rows[i];
        let sequence_number = counts[sender];
        proof {
            lemma_count_sender_bound(rows@, sender, i as int);
            assert(ledger@[sender as int] matches Some(_));
        }
        let amount64 = amount as u64;
        let signature = sign_transfer(sender, receiver, sequence_number, amount64);
        let t = TransferTxn {
            sender,
            receiver,
            sequence_number,
            amount: amount64,
            signature,
            footprint: FootprintDecl::Inferred,
        };
        r.push(Transaction::Transfer(t));
        let ghost pre_counts = counts@;
        counts.set(sender, sequence_number + 1);
        proof {
            assert forall|k2: usize| k2 < counts@.len() implies counts@[k2 as int] as int
                == ledger@[k2 as int]->0.sequence_number + count_sender(
                rows@,
                k2,
                i as int + 1,
            ) by {
                assert(pre_counts[k2 as int] as int == ledger@[
                    k2 as int
                ]->0.sequence_number + count_sender(rows@, k2, i as int));
                assert(count_sender(rows@, k2, i as int + 1) == count_sender(rows@, k2, i as int)
                    + (if rows@[i as int].0 == k2 {
                    1int
                } else {
                    0int
                }));
                if k2 == sender {
                    assert(counts@[k2 as int] == sequence_number + 1);
                    assert(rows@[i as int].0 == sender);
                } else {
                    assert(counts@[k2 as int] == pre_counts[k2 as int]);
                    assert(rows@[i as int].0 != k2);
                }
            }
        }
        i = i + 1;
    }
    r
}

/// The rows of a replayed record file, each taken with a unit amount, as the
/// replayed workload sends one coin per recorded transfer.
pub fn rows_with_unit_amount(rows: &Vec<(usize, usize, usize)>) -> (r: Vec<(usize, usize, usize)>)
    ensures
        r@.len() == rows@.len(),
        forall|j: int|
            0 <= j < rows@.len() ==> #[trigger] r@[j] == ((rows@[j].0, rows@[j].1, 1usize)),
{
    let mut r: Vec<(usize, usize, usize)> = Vec::new();
    let mut i: usize = 0;
    while i < rows.len()
        invariant
            i <= rows.len(),
            r@.len() == i,
            forall|j: int| 0 <= j < i ==> #[trigger] r@[j] == ((rows@[j].0, rows@[j].1, 1usize)),
        decreases rows.len() - i,
    {
        let (s, rcv, _) = rows[i];
        r.push((s, rcv, 1));
        i = i + 1;
    }
    r
}

/// One step of the linear congruential generator behind the synthetic
/// workload: the caller owns the state and passes it explicitly.
pub open spec fn lcg_next(x: u64) -> u64 {
    (((x as int) * 6364136223846793005 + 1442695040888963407) % 0x1_0000_0000_0000_0000) as u64
}

/// Advances the caller-owned random state by one step.
pub fn lcg_step(x: u64) -> (r: u64)
    ensures
        r == lcg_next(x),
{
    let wide: u128 = (x as u128) * 6364136223846793005u128 + 1442695040888963407u128;
    let low = wide % 0x1_0000_0000_0000_0000u128;
    low as u64
}

/// The generator's state after `k` draws from `seed`.
pub open spec fn lcg_state(seed: u64, k: int) -> u64
    decreases k,
{
    if k <= 0 {
        seed
    } else {
        lcg_next(lcg_state(seed, k - 1))
    }
}

/// The synthetic row `j` drawn from `seed`: three consecutive draws give the
/// sender, the receiver, and an amount of one or two.
pub open spec fn synthetic_row(num_accounts: usize, seed: u64, j: int) -> (usize, usize, usize) {
    (
        (lcg_state(seed, 3 * j + 1) as int % (num_accounts as int)) as usize,
        (lcg_state(seed, 3 * j + 2) as int % (num_accounts as int)) as usize,
        (1 + lcg_state(seed, 3 * j + 3) as int % 2) as usize,
    )
}

/// Draws `num_transactions` synthetic transfer rows from the caller's random
/// state: sender and receiver inside the universe, amounts of one or two.
#[verifier::rlimit(50)]
pub fn synthetic_rows(num_accounts: usize, num_transactions: usize, seed: u64) -> (r: Vec<
    (usize, usize, usize),
>)
    requires
        num_accounts > 0,
    ensures
        r@.len() == num_transactions,
        forall|j: int|
            0 <= j < num_transactions ==> #[trigger] r@[j] == synthetic_row(num_accounts, seed, j),
        forall|j: int|
            0 <= j < num_transactions ==> (#[trigger] r@[j]).0 < num_accounts && r@[j].1
                < num_accounts && 1 <= r@[j].2 <= 2,
{
    let mut state = seed;
    let mut r: Vec<(usize, usize, usize)> = Vec::new();
    let mut i: usize = 0;
    while i < num_transactions
        invariant
            i <= num_transactions,
            r@.len() == i,
            num_accounts > 0,
            state == lcg_state(seed, 3 * i as int),
            forall|j: int|
                0 <= j < i ==> #[trigger] r@[j] == synthetic_row(num_accounts, seed, j),
            forall|j: int|
                0 <= j < i ==> (#[trigger] r@[j]).0 < num_accounts && r@[j].1 < num_accounts && 1
                    <= r@[j].2 <= 2,
        decreases num_transactions - i,
    {
        state = lcg_step(state);
        proof {
            assert(state == lcg_state(seed, 3 * i as int + 1));
        }
        let sender = (state % (num_accounts as u64)) as usize;
        state = lcg_step(state);
        proof {
            assert(state == lcg_state(seed, 3 * i as int + 2));
        }
        let receiver = (state % (num_accounts as u64)) as usize;
        state = lcg_step(state);
        proof {
            assert(state == lcg_state(seed, 3 * i as int + 3));
        }
        let amount = (1 + state % 2) as usize;
        proof {
            assert((sender, receiver, amount) == synthetic_row(num_accounts, seed, i as int));
            assert(3 * (i as int) + 3 == 3 * (i as int + 1));
        }
        r.push((sender, receiver, amount));
        i = i + 1;
    }
    r
}

/// A ready-to-execute benchmark state: the universe snapshot and the block.
pub struct TransactionBenchState {
    pub executor: LedgerSnapshot,
    pub transactions: Vec<Transaction>,
}

impl TransactionBenchState {
    /// Builds a replay state: one unit transfer per record row, sequence
    /// numbers assigned per sender, against the given universe.
    pub fn setup_from_files_and_universe(
        rows: &Vec<(usize, usize, usize)>,
        universe: LedgerSnapshot,
    ) -> (r: Self)
        requires
            forall|j: int|
                0 <= j < rows@.len() ==> (#[trigger] rows@[j]).0 < universe@.len() && rows@[j].1
                    < universe@.len(),
            universe_supports(universe@, rows@.len() as int),
        ensures
            r.executor == universe,
            r.transactions@.len() == rows@.len(),
            forall|j: int|
                0 <= j < rows@.len() ==> ((#[trigger] r.transactions@[j]) matches
                    Transaction::Transfer(t) && t.sender == rows@[j].0 && t.receiver == rows@[j].1
                    && t.amount == 1 && t.footprint is Inferred && t.signature
                    == expected_signature(t) && t.sequence_number as int == universe@[
                    rows@[j].0 as int
                ]->0.sequence_number + count_sender(rows@, rows@[j].0, j)),
    {
        let unit_rows = rows_with_unit_amount(rows);
        proof {
            assert(rows_in_universe(unit_rows@, universe@));
        }
        let transactions = build_transfer_block(&unit_rows, &universe);
        proof {
            assert forall|j: int| 0 <= j < rows@.len() implies ((
            #[trigger] transactions@[j]) matches Transaction::Transfer(t) && t.sender
                == rows@[j].0 && t.receiver == rows@[j].1 && t.amount == 1
                && t.footprint is Inferred && t.signature == expected_signature(t)
                && t.sequence_number as int == universe@[
                rows@[j].0 as int
            ]->0.sequence_number + count_sender(rows@, rows@[j].0, j)) by {
                assert(replay_txn_ok(transactions@[j], unit_rows@, universe@, j));
                lemma_count_sender_same_senders(unit_rows@, rows@, rows@[j].0, j);
            }
        }
        TransactionBenchState { executor: universe, transactions }
    }

    /// Builds a synthetic state: a fresh amply funded universe and a block
    /// of random transfers drawn from the caller-owned random state.
    pub fn with_size(num_accounts: usize, num_transactions: usize, seed: u64) -> (r: Self)
        requires
            num_accounts > 0,
        ensures
            r.executor@.len() == num_accounts,
            r.transactions@.len() == num_transactions,
            forall|j: int|
                0 <= j < num_transactions ==> crate::parallel_executor::plain_inferred_transfer(
                    #[trigger] r.transactions@[j],
                ),
    {
        let universe = acc_gen(num_accounts);
        let rows = synthetic_rows(num_accounts, num_transactions, seed);
        proof {
            assert(universe_supports(universe@, rows@.len() as int));
            assert(rows_in_universe(rows@, universe@));
        }
        let transactions = build_transfer_block(&rows, &universe);
        proof {
            assert forall|j: int|
                0 <= j < num_transactions implies crate::parallel_executor::plain_inferred_transfer(
                #[trigger] transactions@[j],
            ) by {
                assert(replay_txn_ok(transactions@[j], rows@, universe@, j));
            }
        }
        TransactionBenchState { executor: universe, transactions }
    }

    /// Executes this state's block in order with the sequential baseline.
    pub fn execute(self) -> (r: Result<Vec<TransactionOutput>, BlockError>)
        ensures
            block_result_model(r) == seq_exec(self.transactions@, self.executor@),
    {
        execute_block_sequential(&self.transactions, &self.executor)
    }
}

/// A benchmark state to be executed by the parallel engine.
pub struct ParallelBenchState {
    pub bench_state: TransactionBenchState,
}

impl ParallelBenchState {
    /// Builds a replay state for a parallel run.
    pub fn setup_from_files_and_universe(
        rows: &Vec<(usize, usize, usize)>,
        universe: LedgerSnapshot,
    ) -> (r: Self)
        requires
            forall|j: int|
                0 <= j < rows@.len() ==> (#[trigger] rows@[j]).0 < universe@.len() && rows@[j].1
                    < universe@.len(),
            universe_supports(universe@, rows@.len() as int),
        ensures
            r.bench_state.executor == universe,
            r.bench_state.transactions@.len() == rows@.len(),
    {
        ParallelBenchState {
            bench_state: TransactionBenchState::setup_from_files_and_universe(rows, universe),
        }
    }

    /// Builds a synthetic state for a parallel run.
    pub fn with_size(num_accounts: usize, num_transactions: usize, seed: u64) -> (r: Self)
        requires
            num_accounts > 0,
        ensures
            r.bench_state.executor@.len() == num_accounts,
            r.bench_state.transactions@.len() == num_transactions,
    {
        ParallelBenchState {
            bench_state: TransactionBenchState::with_size(num_accounts, num_transactions, seed),
        }
    }

    /// Executes this state's block with the parallel engine; the outputs
    /// equal a sequential run of the same block.
    pub fn execute(self) -> (r: Result<
        (Vec<TransactionOutput>, Option<FallbackCause>),
        BlockError,
    >)
        ensures
            (match r {
                Ok(p) => seq_exec(self.bench_state.transactions@, self.bench_state.executor@)
                    == Result::<Seq<OutputModel>, BlockError>::Ok(
                    p.0@.map_values(|o: TransactionOutput| o@),
                ),
                Err(e) => seq_exec(self.bench_state.transactions@, self.bench_state.executor@)
                    == Result::<Seq<OutputModel>, BlockError>::Err(e),
            }),
    {
        ParallelDiemVM::execute_block(&self.bench_state.transactions, &self.bench_state.executor)
    }
}

} // verus!
