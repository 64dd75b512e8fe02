//! The baseline sequential executor: applies the block's transactions one at
//! a time, in original order, each observing every earlier write. Its
//! mathematical statement, `seq_exec`, is the reference every other
//! execution strategy is held to.

use vstd::prelude::*;

use crate::types::{
    Account, BlockError, LedgerSnapshot, OutputModel, Transaction, TransactionOutput,
};
use crate::vm::{apply_write_set, apply_writes, execute_txn, result_model, vm_result};

verus! {

/// What a strict in-order run of `txns` from state `st` returns: the ordered
/// outputs, one per transaction, or the error of the first transaction that
/// aborts the block, with no outputs at all.
pub open spec fn seq_exec(txns: Seq<Transaction>, st: Seq<Option<Account>>) -> Result<
    Seq<OutputModel>,
    BlockError,
>
    decreases txns.len(),
{
    if txns.len() == 0 {
        Ok(Seq::empty())
    } else {
        match vm_result(txns[0], st) {
            Err(e) => Err(e),
            Ok(o) => match seq_exec(txns.drop_first(), apply_write_set(st, o.write_set)) {
                Err(e) => Err(e),
                Ok(rest) => Ok(seq![o] + rest),
            },
        }
    }
}

/// The ledger state a strict in-order run presents to transaction `i`.
pub open spec fn state_before(txns: Seq<Transaction>, st: Seq<Option<Account>>, i: int) -> Seq<
    Option<Account>,
>
    decreases i,
{
    if i <= 0 || txns.len() == 0 {
        st
    } else {
        state_before(
            txns.drop_first(),
            apply_write_set(st, vm_result(txns[0], st)->Ok_0.write_set),
            i - 1,
        )
    }
}

/// Order preservation: a block that succeeds returns exactly one output per
/// input transaction, and output `i` is the result of transaction `i`
/// against the state every earlier transaction's writes produced.
pub proof fn lemma_order_preservation(txns: Seq<Transaction>, st: Seq<Option<Account>>)
    requires
        seq_exec(txns, st) is Ok,
    ensures
        seq_exec(txns, st)->Ok_0.len() == txns.len(),
        forall|i: int|
            0 <= i < txns.len() ==> vm_result(txns[i], #[trigger] state_before(txns, st, i))
                == Result::<OutputModel, BlockError>::Ok(seq_exec(txns, st)->Ok_0[i]),
    decreases txns.len(),
{
    if txns.len() > 0 {
        let o = vm_result(txns[0], st)->Ok_0;
        let st1 = apply_write_set(st, o.write_set);
        lemma_order_preservation(txns.drop_first(), st1);
        let rest = seq_exec(txns.drop_first(), st1)->Ok_0;
        assert forall|i: int| 0 <= i < txns.len() implies vm_result(
            txns[i],
            #[trigger] state_before(txns, st, i),
        ) == Result::<OutputModel, BlockError>::Ok(seq_exec(txns, st)->Ok_0[i]) by {
            if i > 0 {
                assert(state_before(txns, st, i) == state_before(txns.drop_first(), st1, i - 1));
                assert(txns.drop_first()[i - 1] == txns[i]);
                assert((seq![o] + rest)[i] == rest[i - 1]);
            } else {
                assert((seq![o] + rest)[0] == o);
            }
        }
    }
}

/// Maps a block-level executable result to the model `seq_exec` speaks of.
pub open spec fn block_result_model(r: Result<Vec<TransactionOutput>, BlockError>) -> Result<
    Seq<OutputModel>,
    BlockError,
> {
    match r {
        Ok(outs) => Ok(outs@.map_values(|o: TransactionOutput| o@)),
        Err(e) => Err(e),
    }
}

/// A working copy of a ledger state.
pub fn copy_state(v: &Vec<Option<Account>>) -> (r: Vec<Option<Account>>)
    ensures
        r@ == v@,
{
    let mut r: Vec<Option<Account>> = Vec::new();
    let mut i: usize = 0;
    while i < v.len()
        invariant
            i <= v.len(),
            r@ == v@.subrange(0, i as int),
        decreases v.len() - i,
    {
        r.push(v[i]);
        i = i + 1;
    }
    proof {
        assert(r@ =~= v@);
    }
    r
}

/// Applies the block strictly in order against a private copy of the
/// snapshot; the snapshot itself is never written, so repeated runs over the
/// same input are comparable.
pub fn execute_block_sequential(txns: &Vec<Transaction>, snapshot: &LedgerSnapshot) -> (r: Result<
    Vec<TransactionOutput>,
    BlockError,
>)
    ensures
        block_result_model(r) == seq_exec(txns@, snapshot@),
{
    let mut state = copy_state(&snapshot.accounts);
    let mut outs: Vec<TransactionOutput> = Vec::new();
    proof {
        assert(txns@.skip(0) =~= txns@);
        assert(outs@.map_values(|o: TransactionOutput| o@) =~= Seq::<OutputModel>::empty());
    }
    let mut i: usize = 0;
    while i < txns.len()
        invariant
            i <= txns.len(),
            outs@.len() == i,
            (match seq_exec(txns@.skip(i as int), state@) {
                Ok(rest) => seq_exec(txns@, snapshot@) == Result::<
                    Seq<OutputModel>,
                    BlockError,
                >::Ok(outs@.map_values(|o: TransactionOutput| o@) + rest),
                Err(e) => seq_exec(txns@, snapshot@) == Result::<
                    Seq<OutputModel>,
                    BlockError,
                >::Err(e),
            }),
        decreases txns.len() - i,
    {
        let ghost pre_outs = outs@;
        let ghost suffix = txns@.skip(i as int);
        proof {
            assert(suffix[0] == txns@[i as int]);
            assert(suffix.drop_first() =~= txns@.skip(i as int + 1));
        }
        match execute_txn(&txns[i], &state) {
            Err(e) => {
                return Err(e);
            },
            Ok(o) => {
                apply_writes(&mut state, &o.write_set);
                outs.push(o);
                proof {
                    assert(outs@.map_values(|x: TransactionOutput| x@) =~= pre_outs.map_values(
                        |x: TransactionOutput| x@,
                    ) + seq![o@]);
                    if seq_exec(txns@.skip(i as int + 1), state@) is Ok {
                        let rest = seq_exec(txns@.skip(i as int + 1), state@)->Ok_0;
                        assert(pre_outs.map_values(|x: TransactionOutput| x@) + (seq![o@] + rest)
                            =~= outs@.map_values(|x: TransactionOutput| x@) + rest);
                    }
                }
            },
        }
        i = i + 1;
    }
    proof {
        assert(txns@.skip(txns@.len() as int) =~= Seq::<Transaction>::empty());
        assert(outs@.map_values(|o: TransactionOutput| o@) + Seq::<OutputModel>::empty()
            =~= outs@.map_values(|o: TransactionOutput| o@));
    }
    Ok(outs)
}

} // verus!
