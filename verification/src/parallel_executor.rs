//! The parallel block-execution engine. Signature verification and
//! speculative execution run concurrently across worker threads; a verified
//! validation-and-commit pass then either adopts each speculative result,
//! re-executes a transaction whose reads an earlier commit touched, or
//! abandons the parallel attempt for the whole block and re-executes it
//! sequentially. Whatever path is taken, the outputs provably equal the
//! sequential executor's.

use vstd::prelude::*;

use rayon::iter::{IntoParallelRefIterator, ParallelIterator};

use crate::sequential::{copy_state, execute_block_sequential, seq_exec};
use crate::types::{
    Account, BlockError, FallbackCause, FootprintDecl, LedgerSnapshot, OutputModel, Transaction,
    TransactionOutput, TransferTxn, WriteOp, expected_signature, sign_transfer,
};
use crate::vm::{
    account_at, apply_write_set, apply_writes, execute_txn, lemma_apply_write_set_frame,
    lemma_vm_frame, read_keys, result_model, vm_result,
};

verus! {

/// A transaction after the preprocessing stage: signature checked and
/// write footprint resolved, ready for speculative scheduling.
pub enum VerifiedTransaction {
    /// Signature verified; the transfer and the keys it is expected to write.
    Verified(TransferTxn, Vec<usize>),
    /// Signature verified, but footprint inference could not model it.
    Unmodeled(TransferTxn),
    /// The signature did not verify: a placeholder that execution turns into
    /// a discarded output, never a fatal condition.
    SignatureFailure,
    /// The input transaction was structurally invalid.
    Rejected(u64),
}

/// The footprint of a transfer, abstracted from its declaration form.
pub enum FootprintModel {
    Inferred,
    Declared(Seq<usize>),
    Opaque,
}

/// The declaration form of a footprint, as a mathematical value.
pub open spec fn footprint_model(fp: FootprintDecl) -> FootprintModel {
    match fp {
        FootprintDecl::Inferred => FootprintModel::Inferred,
        FootprintDecl::DeclaredWrites(d) => FootprintModel::Declared(d@),
        FootprintDecl::Opaque => FootprintModel::Opaque,
    }
}

/// Two transfers that agree on every field.
pub open spec fn transfer_eq(a: TransferTxn, b: TransferTxn) -> bool {
    &&& a.sender == b.sender
    &&& a.receiver == b.receiver
    &&& a.sequence_number == b.sequence_number
    &&& a.amount == b.amount
    &&& a.signature == b.signature
    &&& footprint_model(a.footprint) == footprint_model(b.footprint)
}

/// What preprocessing one transaction must yield.
pub open spec fn preprocess_ok(txn: Transaction, vt: VerifiedTransaction) -> bool {
    match txn {
        Transaction::Invalid(code) => vt matches VerifiedTransaction::Rejected(c) && c == code,
        Transaction::Transfer(t) => {
            if t.signature != expected_signature(t) {
                vt is SignatureFailure
            } else {
                match t.footprint {
                    FootprintDecl::Opaque => vt matches VerifiedTransaction::Unmodeled(t2)
                        && transfer_eq(t2, t),
                    FootprintDecl::Inferred => vt matches VerifiedTransaction::Verified(t2, w)
                        && transfer_eq(t2, t) && w@ == seq![t.sender, t.receiver],
                    FootprintDecl::DeclaredWrites(d) => vt matches VerifiedTransaction::Verified(
                        t2,
                        w,
                    ) && transfer_eq(t2, t) && w@ == d@,
                }
            }
        },
    }
}

/// A field-for-field copy of a transfer.
fn copy_transfer(t: &TransferTxn) -> (r: TransferTxn)
    ensures
        transfer_eq(r, *t),
{
    let footprint = match &t.footprint {
        FootprintDecl::Inferred => FootprintDecl::Inferred,
        FootprintDecl::Opaque => FootprintDecl::Opaque,
        FootprintDecl::DeclaredWrites(d) => FootprintDecl::DeclaredWrites(copy_keys(d)),
    };
    TransferTxn {
        sender: t.sender,
        receiver: t.receiver,
        sequence_number: t.sequence_number,
        amount: t.amount,
        signature: t.signature,
        footprint,
    }
}

/// A copy of a key list.
fn copy_keys(v: &Vec<usize>) -> (r: Vec<usize>)
    ensures
        r@ == v@,
{
    let mut r: Vec<usize> = Vec::new();
    let mut i: usize = 0;
    while i < v.len()
        invariant
            i <= v.len(),
            r@ == v@.subrange(0, i as int),
        decreases v.len() - i,
    {
        r.push(v[i]);
        i = i + 1;
    }
    proof {
        assert(r@ =~= v@);
    }
    r
}

/// Verifies one transaction's signature and resolves its footprint.
pub fn preprocess_transaction(txn: &Transaction) -> (r: VerifiedTransaction)
    ensures
        preprocess_ok(*txn, r),
{
    match txn {
        Transaction::Invalid(code) => VerifiedTransaction::Rejected(*code),
        Transaction::Transfer(t) => {
            let sig = sign_transfer(t.sender, t.receiver, t.sequence_number, t.amount);
            if t.signature != sig {
                VerifiedTransaction::SignatureFailure
            } else {
                match &t.footprint {
                    FootprintDecl::Opaque => VerifiedTransaction::Unmodeled(copy_transfer(t)),
                    FootprintDecl::Inferred => {
                        let mut w: Vec<usize> = Vec::new();
                        w.push(t.sender);
                        w.push(t.receiver);
                        proof {
                            assert(w@ =~= seq![t.sender, t.receiver]);
                        }
                        VerifiedTransaction::Verified(copy_transfer(t), w)
                    },
                    FootprintDecl::DeclaredWrites(d) => VerifiedTransaction::Verified(
                        copy_transfer(t),
                        copy_keys(d),
                    ),
                }
            }
        },
    }
}

/// Relies on rayon's `par_iter().map(..).collect()`: an indexed parallel map
/// collected into a `Vec` yields the per-element results of the mapped
/// function, in input order. Each element is `preprocess_transaction`, whose
/// verified contract is `preprocess_ok`.
#[verifier::external_body]
fn preprocess_all(txns: &Vec<Transaction>) -> (r: Vec<VerifiedTransaction>)
    ensures
        r@.len() == txns@.len(),
        forall|i: int| 0 <= i < txns@.len() ==> preprocess_ok(txns@[i], #[trigger] r@[i]),
{
    txns.par_iter().map(preprocess_transaction).collect()
}

/// Relies on rayon's `par_iter().map(..).collect()`, order-preserving as
/// above. Each element is `execute_txn` against the shared read-only
/// snapshot, whose verified contract ties the result to `vm_result`.
#[verifier::external_body]
fn execute_all_speculative(txns: &Vec<Transaction>, snapshot: &LedgerSnapshot) -> (r: Vec<
    Result<TransactionOutput, BlockError>,
>)
    ensures
        r@.len() == txns@.len(),
        forall|i: int|
            0 <= i < txns@.len() ==> result_model(#[trigger] r@[i]) == vm_result(
                txns@[i],
                snapshot@,
            ),
{
    txns.par_iter().map(|t| execute_txn(t, &snapshot.accounts)).collect()
}

/// A value-preserving copy of a per-transaction result.
fn duplicate_result(r: &Result<TransactionOutput, BlockError>) -> (d: Result<
    TransactionOutput,
    BlockError,
>)
    ensures
        result_model(d) == result_model(*r),
{
    match r {
        Ok(o) => Ok(o.duplicate()),
        Err(e) => Err(*e),
    }
}

/// Whether `k` occurs in `v`.
fn contains_key(v: &Vec<usize>, k: usize) -> (r: bool)
    ensures
        r == v@.contains(k),
{
    let mut i: usize = 0;
    while i < v.len()
        invariant
            i <= v.len(),
            forall|j: int| 0 <= j < i ==> v@[j] != k,
        decreases v.len() - i,
    {
        if v[i] == k {
            return true;
        }
        i = i + 1;
    }
    false
}

/// Whether every key the write set names stands in `hint`.
fn write_keys_subset(ws: &Vec<(usize, WriteOp)>, hint: &Vec<usize>) -> (r: bool)
    ensures
        r == (forall|j: int| 0 <= j < ws@.len() ==> hint@.contains((#[trigger] ws@[j]).0)),
{
    let mut i: usize = 0;
    while i < ws.len()
        invariant
            i <= ws.len(),
            forall|j: int| 0 <= j < i ==> hint@.contains((#[trigger] ws@[j]).0),
        decreases ws.len() - i,
    {
        let (k, _) = ws[i];
        if !contains_key(hint, k) {
            return false;
        }
        i = i + 1;
    }
    true
}

/// Adds the keys a write set names to the record of committed writes.
fn record_keys(written: &mut Vec<usize>, ws: &Vec<(usize, WriteOp)>)
    ensures
        forall|k: usize|
            final(written)@.contains(k) <==> (old(written)@.contains(k) || (exists|j: int|
                0 <= j < ws@.len() && (#[trigger] ws@[j]).0 == k)),
{
    let mut i: usize = 0;
    while i < ws.len()
        invariant
            i <= ws.len(),
            forall|k: usize|
                written@.contains(k) <==> (old(written)@.contains(k) || (exists|j: int|
                    0 <= j < i && (#[trigger] ws@[j]).0 == k)),
        decreases ws.len() - i,
    {
        let (k, _) = ws[i];
        let ghost pre = written@;
        written.push(k);
        proof {
            assert forall|x: usize| written@.contains(x) <==> (pre.contains(x) || ws@[
                i as int
            ].0 == x) by {
                if pre.contains(x) {
                    let idx = choose|idx: int| 0 <= idx < pre.len() && pre[idx] == x;
                    assert(written@[idx] == x);
                } else if ws@[i as int].0 == x {
                    assert(written@[written@.len() - 1] == x);
                } else if written@.contains(x) {
                    let idx = choose|idx: int| 0 <= idx < written@.len() && written@[idx] == x;
                    if idx < pre.len() {
                        assert(pre[idx] == x);
                    }
                }
            }
            assert forall|x: usize| written@.contains(x) <==> (old(written)@.contains(x) || (
            exists|j: int| 0 <= j < i + 1 && (#[trigger] ws@[j]).0 == x)) by {
                if written@.contains(x) {
                    if pre.contains(x) {
                    } else {
                        assert(ws@[i as int].0 == x);
                    }
                }
                if exists|j: int| 0 <= j < i + 1 && (#[trigger] ws@[j]).0 == x {
                    let j = choose|j: int| 0 <= j < i + 1 && (#[trigger] ws@[j]).0 == x;
                    if j < i {
                        assert(exists|j2: int| 0 <= j2 < i && (#[trigger] ws@[j2]).0 == x);
                    } else {
                        assert(ws@[i as int].0 == x);
                    }
                }
            }
        }
        i = i + 1;
    }
}

/// A transfer with an inferred footprint: the ordinary case, for which the
/// parallel path never needs the sequential fallback.
pub open spec fn plain_inferred_transfer(txn: Transaction) -> bool {
    txn matches Transaction::Transfer(t) && t.footprint is Inferred
}

/// A kept transfer writes only the sender's and the receiver's keys.
pub proof fn lemma_transfer_write_keys(t: TransferTxn, st: Seq<Option<Account>>)
    ensures
        (vm_result(Transaction::Transfer(t), st) matches Ok(o) ==> forall|j: int|
            0 <= j < o.write_set.len() ==> ((#[trigger] o.write_set[j]).0 == t.sender
                || o.write_set[j].0 == t.receiver)),
{
}

/// The parallel execution engine over the transfer VM.
pub struct ParallelDiemVM {}

impl ParallelDiemVM {
    /// Executes a whole block. The defining property: whatever internal
    /// strategy ran — speculative commits, per-transaction re-execution, or
    /// a block-wide sequential fallback (reported in the flag) — the outputs
    /// equal what the sequential executor returns for the same input, and an
    /// error surfaces exactly when the sequential run errs, with no outputs.
    /// A block of ordinary transfers with inferred footprints that succeeds
    /// never reports a fallback.
    pub fn execute_block(txns: &Vec<Transaction>, snapshot: &LedgerSnapshot) -> (r: Result<
        (Vec<TransactionOutput>, Option<FallbackCause>),
        BlockError,
    >)
        ensures
            (match r {
                Ok(p) => seq_exec(txns@, snapshot@) == Result::<Seq<OutputModel>, BlockError>::Ok(
                    p.0@.map_values(|o: TransactionOutput| o@),
                ),
                Err(e) => seq_exec(txns@, snapshot@) == Result::<
                    Seq<OutputModel>,
                    BlockError,
                >::Err(e),
            }),
            (forall|i: int| 0 <= i < txns@.len() ==> plain_inferred_transfer(txns@[i])) && r is Ok
                ==> r->Ok_0.1 is None,
    {
        // Stage one: verify signatures and resolve footprints, in parallel.
        let verified = preprocess_all(txns);

        // A footprint the analyzer cannot model poisons the scheduling
        // decision for the whole block: fall back before speculating.
        let mut g: usize = 0;
        while g < verified.len()
            invariant
                g <= verified.len(),
                verified@.len() == txns@.len(),
                forall|j: int| 0 <= j < txns@.len() ==> preprocess_ok(txns@[j], verified@[j]),
                forall|j: int|
                    0 <= j < g ==> !((#[trigger] verified@[j]) matches
                        VerifiedTransaction::Unmodeled(_)),
            decreases verified.len() - g,
        {
            if let VerifiedTransaction::Unmodeled(_) = &verified[g] {
                proof {
                    assert(!plain_inferred_transfer(txns@[g as int]));
                }
                return Self::fallback_sequential(txns, snapshot, FallbackCause::InferenceFailure);
            }
            g = g + 1;
        }

        // Stage two: execute every transaction speculatively against the
        // shared snapshot, in parallel. Reads may be stale; the commit pass
        // below is what makes the results trustworthy.
        let speculative = execute_all_speculative(txns, snapshot);

        // Stage three: validate and commit in original order.
        let mut state = copy_state(&snapshot.accounts);
        let mut outs: Vec<TransactionOutput> = Vec::new();
        let mut written: Vec<usize> = Vec::new();
        proof {
            assert(txns@.skip(0) =~= txns@);
            assert(outs@.map_values(|o: TransactionOutput| o@) =~= Seq::<OutputModel>::empty());
        }
        let mut i: usize = 0;
        while i < txns.len()
            invariant
                i <= txns.len(),
                outs@.len() == i,
                state@.len() == snapshot@.len(),
                verified@.len() == txns@.len(),
                speculative@.len() == txns@.len(),
                forall|j: int| 0 <= j < txns@.len() ==> preprocess_ok(txns@[j], verified@[j]),
                forall|j: int|
                    0 <= j < txns@.len() ==> result_model(#[trigger] speculative@[j]) == vm_result(
                        txns@[j],
                        snapshot@,
                    ),
                forall|k: usize|
                    k < state@.len() && !written@.contains(k) ==> account_at(state@, k)
                        == account_at(snapshot@, k),
                (match seq_exec(txns@.skip(i as int), state@) {
                    Ok(rest) => seq_exec(txns@, snapshot@) == Result::<
                        Seq<OutputModel>,
                        BlockError,
                    >::Ok(outs@.map_values(|o: TransactionOutput| o@) + rest),
                    Err(e) => seq_exec(txns@, snapshot@) == Result::<
                        Seq<OutputModel>,
                        BlockError,
                    >::Err(e),
                }),
            decreases txns.len() - i,
        {
            let ghost pre_outs = outs@;
            let ghost suffix = txns@.skip(i as int);
            proof {
                assert(suffix[0] == txns@[i as int]);
                assert(suffix.drop_first() =~= txns@.skip(i as int + 1));
            }

            // Validation: did an earlier commit write into this
            // transaction's read set? If not, the speculative result is
            // exactly what in-order execution would produce here.
            let stale = match &txns[i] {
                Transaction::Transfer(t) => contains_key(&written, t.sender) || contains_key(
                    &written,
                    t.receiver,
                ),
                Transaction::Invalid(_) => false,
            };
            let res = if stale {
                // Conflict detected: re-execute against the committed state.
                execute_txn(&txns[i], &state)
            } else {
                proof {
                    assert forall|k: usize| read_keys(txns@[i as int]).contains(k) implies
                        account_at(snapshot@, k) == account_at(state@, k) by {
                        if k < state@.len() {
                            assert(!written@.contains(k));
                        }
                    }
                    lemma_vm_frame(txns@[i as int], snapshot@, state@);
                }
                duplicate_result(&speculative[i])
            };
            proof {
                assert(result_model(res) == vm_result(txns@[i as int], state@));
            }
            match res {
                Err(e) => {
                    return Err(e);
                },
                Ok(o) => {
                    // A write outside the declared footprint invalidates the
                    // scheduling decision for the whole block.
                    let footprint_holds = match &verified[i] {
                        VerifiedTransaction::Verified(_, w) => write_keys_subset(&o.write_set, w),
                        _ => o.write_set.len() == 0,
                    };
                    if !footprint_holds {
                        proof {
                            if forall|j: int|
                                0 <= j < txns@.len() ==> plain_inferred_transfer(
                                    #[trigger] txns@[j],
                                ) {
                                let t = txns@[i as int]->Transfer_0;
                                lemma_transfer_write_keys(t, state@);
                                assert(preprocess_ok(txns@[i as int], verified@[i as int]));
                                if t.signature == expected_signature(t) {
                                    let w = verified@[i as int]->Verified_1;
                                    assert(w@[0] == t.sender && w@[1] == t.receiver);
                                    assert(forall|j: int|
                                        0 <= j < o.write_set@.len() ==> w@.contains(
                                            (#[trigger] o.write_set@[j]).0,
                                        ));
                                    assert(false);
                                } else {
                                    assert(o@.write_set.len() == 0);
                                    assert(false);
                                }
                            }
                        }
                        return Self::fallback_sequential(
                            txns,
                            snapshot,
                            FallbackCause::UnestimatedWrite,
                        );
                    }
                    let ghost pre_written = written@;
                    let ghost pre_state = state@;
                    record_keys(&mut written, &o.write_set);
                    apply_writes(&mut state, &o.write_set);
                    outs.push(o);
                    proof {
                        crate::vm::lemma_apply_write_set_len(pre_state, o.write_set@);
                        assert forall|k: usize|
                            k < state@.len() && !written@.contains(k) implies account_at(
                            state@,
                            k,
                        ) == account_at(snapshot@, k) by {
                            assert(!pre_written.contains(k));
                            assert(forall|j: int|
                                0 <= j < o.write_set@.len() ==> (#[trigger] o.write_set@[j]).0
                                    != k);
                            lemma_apply_write_set_frame(pre_state, o.write_set@, k);
                        }
                        assert(outs@.map_values(|x: TransactionOutput| x@)
                            =~= pre_outs.map_values(|x: TransactionOutput| x@) + seq![o@]);
                        if seq_exec(txns@.skip(i as int + 1), state@) is Ok {
                            let rest = seq_exec(txns@.skip(i as int + 1), state@)->Ok_0;
                            assert(pre_outs.map_values(|x: TransactionOutput| x@) + (seq![o@]
                                + rest) =~= outs@.map_values(|x: TransactionOutput| x@) + rest);
                        }
                    }
                },
            }
            i = i + 1;
        }
        proof {
            assert(txns@.skip(txns@.len() as int) =~= Seq::<Transaction>::empty());
            assert(outs@.map_values(|o: TransactionOutput| o@) + Seq::<OutputModel>::empty()
                =~= outs@.map_values(|o: TransactionOutput| o@));
        }
        Ok((outs, None))
    }

    /// Abandons the parallel attempt: the whole block is re-executed by the
    /// sequential baseline and the cause is reported beside its outputs.
    fn fallback_sequential(
        txns: &Vec<Transaction>,
        snapshot: &LedgerSnapshot,
        cause: FallbackCause,
    ) -> (r: Result<(Vec<TransactionOutput>, Option<FallbackCause>), BlockError>)
        ensures
            (match r {
                Ok(p) => seq_exec(txns@, snapshot@) == Result::<Seq<OutputModel>, BlockError>::Ok(
                    p.0@.map_values(|o: TransactionOutput| o@),
                ) && p.1 == Some(cause),
                Err(e) => seq_exec(txns@, snapshot@) == Result::<
                    Seq<OutputModel>,
                    BlockError,
                >::Err(e),
            }),
    {
        match execute_block_sequential(txns, snapshot) {
            Ok(outs) => Ok((outs, Some(cause))),
            Err(e) => Err(e),
        }
    }
}

} // verus!
