//! Witness assembly: the plan of what to fetch for a block, and the
//! combination of everything fetched into one internally consistent
//! `BlockWitness`. Any failed check aborts the whole assembly: no partial
//! witness is ever produced.

use vstd::prelude::*;
use crate::collector::collect_addresses;
use crate::collector::collect_spec;
use crate::collector::full_transactions;
use crate::collector::full_txs_of;
use crate::heights::height_str_of;
use crate::heights::height_value;
use crate::heights::parse_height;
use crate::heights::valid_height_str;
use crate::types::AccountProof;
use crate::types::AccountState;
use crate::types::Block;
use crate::types::BlockWitness;
use crate::types::Transaction;
use crate::types::TransactionReceipt;
use crate::types::WitnessError;

verus! {

/// Receipts pair with transactions: one receipt per transaction, in the same
/// order, each carrying its transaction's hash.
pub open spec fn receipts_paired(txs: Seq<Transaction>, rs: Seq<TransactionReceipt>) -> bool {
    &&& rs.len() == txs.len()
    &&& forall|i: int|
        0 <= i < txs.len() ==> (#[trigger] rs[i]).transactionHash@ == txs[i].hash@
}

/// The hash column of a transaction list, as character sequences.
pub open spec fn hashes_of(txs: Seq<Transaction>) -> Seq<Seq<char>> {
    txs.map_values(|t: Transaction| t.hash@)
}

/// The entries of an association list with keys as character sequences.
pub open spec fn entries_of<T>(m: Seq<(String, T)>) -> Seq<(Seq<char>, T)> {
    m.map_values(|p: (String, T)| (p.0@, p.1))
}

/// The key column of an association list, as character sequences.
pub open spec fn keys_of<T>(m: Seq<(String, T)>) -> Seq<Seq<char>> {
    m.map_values(|p: (String, T)| p.0@)
}

/// What holds of every witness this assembler emits: the stored transactions
/// are exactly the full bodies of the stored current block; receipts pair
/// with them; the previous header's height precedes the current header's
/// height by one; and the three per-account maps share one key list, equal
/// to the collected address set of the current block.
pub open spec fn witness_consistent(w: BlockWitness) -> bool {
    &&& w.transactions@ == full_txs_of(w.block_header.transactions@)
    &&& receipts_paired(w.transactions@, w.receipts@)
    &&& valid_height_str(w.block_header.number@)
    &&& valid_height_str(w.prev_block_header.number@)
    &&& height_value(w.block_header.number@) > 0
    &&& height_value(w.prev_block_header.number@) + 1 == height_value(w.block_header.number@)
    &&& keys_of(w.pre_state@) == collect_spec(w.block_header.transactions@)
    &&& keys_of(w.post_state@) == keys_of(w.pre_state@)
    &&& keys_of(w.merkle_proofs@) == keys_of(w.pre_state@)
}

/// What a fetched block asks to be fetched next: the height pair, the tag to
/// request the previous block with, the addresses whose state and proofs are
/// needed, and the hash of every full transaction, whose receipt is needed.
#[derive(Debug)]
pub struct FetchPlan {
    pub curr_height: u64,
    pub prev_height: u64,
    pub prev_height_tag: String,
    pub addresses: Vec<String>,
    pub receipt_hashes: Vec<String>,
}

/// Plans the remaining fetches for a current block: parses its height,
/// computes the predecessor height (failing fast at genesis), and lists the
/// participant addresses and the receipt hashes. Succeeds exactly when the
/// block's number is a valid in-range height above zero.
#[verifier::loop_isolation(false)]
pub fn extraction_plan(block: &Block) -> (r: Result<FetchPlan, WitnessError>)
    ensures
        match r {
            Ok(p) => {
                &&& valid_height_str(block.number@)
                &&& height_value(block.number@) <= u64::MAX
                &&& height_value(block.number@) > 0
                &&& p.curr_height as nat == height_value(block.number@)
                &&& p.prev_height == p.curr_height - 1
                &&& p.prev_height_tag@ == height_str_of(p.prev_height as nat)
                &&& p.addresses.deep_view() == collect_spec(block.transactions@)
                &&& p.receipt_hashes.deep_view() == hashes_of(full_txs_of(block.transactions@))
            },
            Err(e) => {
                if !(valid_height_str(block.number@) && height_value(block.number@) <= u64::MAX) {
                    e matches WitnessError::DecodeError { context } && context@
                        == "invalid block height "@ + block.number@
                } else {
                    height_value(block.number@) == 0 && e == WitnessError::GenesisBoundaryError
                }
            },
        },
{
    let curr_height = match parse_height(block.number.as_str()) {
        Ok(v) => v,
        Err(e) => {
            return Err(e);
        },
    };
    let prev_height = match crate::heights::previous_height(curr_height) {
        Ok(v) => v,
        Err(e) => {
            return Err(e);
        },
    };
    let prev_height_tag = crate::heights::format_height(prev_height);
    let addresses = collect_addresses(block);
    let txs = full_transactions(block);
    let mut receipt_hashes: Vec<String> = Vec::new();
    let mut i: usize = 0;
    while i < txs.len()
        invariant
            i <= txs.len(),
            receipt_hashes@.len() == i,
            forall|k: int| 0 <= k < i ==> (#[trigger] receipt_hashes@[k])@ == txs@[k].hash@,
        decreases txs.len() - i,
    {
        receipt_hashes.push(txs[i].hash.clone());
        i = i + 1;
    }
    proof {
        assert(receipt_hashes.deep_view() =~= hashes_of(full_txs_of(block.transactions@)));
    }
    Ok(FetchPlan { curr_height, prev_height, prev_height_tag, addresses, receipt_hashes })
}

/// The checks assembly makes on what was fetched: both headers carry valid
/// in-range heights, the current block is past genesis, the previous height
/// precedes the current one by one, receipts pair with the block's full
/// transactions, and the per-account inputs line up with the collected
/// address set.
pub open spec fn assembly_ok(
    curr: Block,
    prev: Block,
    receipts: Vec<TransactionReceipt>,
    states: Vec<AccountState>,
    proofs: Vec<(AccountProof, AccountProof)>,
) -> bool {
    &&& valid_height_str(curr.number@)
    &&& height_value(curr.number@) <= u64::MAX
    &&& height_value(curr.number@) > 0
    &&& valid_height_str(prev.number@)
    &&& height_value(prev.number@) <= u64::MAX
    &&& height_value(prev.number@) + 1 == height_value(curr.number@)
    &&& receipts_paired(full_txs_of(curr.transactions@), receipts@)
    &&& states@.len() == collect_spec(curr.transactions@).len()
    &&& proofs@.len() == collect_spec(curr.transactions@).len()
}

/// How every field of an emitted witness is determined by what was fetched:
/// headers and receipts are kept as handed in; the transactions are the
/// block's full bodies; the three maps are keyed by the collected addresses
/// in collection order, carry the fetched states and proof pairs in that
/// order, and the post-execution map repeats the pre-execution map's entries
/// (one state value holds both sides of the delta).
pub open spec fn assembled_fields(
    w: BlockWitness,
    curr: Block,
    prev: Block,
    receipts: Vec<TransactionReceipt>,
    states: Vec<AccountState>,
    proofs: Vec<(AccountProof, AccountProof)>,
) -> bool {
    let addrs = collect_spec(curr.transactions@);
    &&& w.block_header == curr
    &&& w.prev_block_header == prev
    &&& w.transactions@ == full_txs_of(curr.transactions@)
    &&& w.receipts == receipts
    &&& w.pre_state@.len() == addrs.len()
    &&& forall|k: int|
        0 <= k < addrs.len() ==> (#[trigger] w.pre_state@[k]).0@ == addrs[k] && w.pre_state@[k].1
            == states@[k]
    &&& w.post_state@ == w.pre_state@
    &&& w.merkle_proofs@.len() == addrs.len()
    &&& forall|k: int|
        0 <= k < addrs.len() ==> (#[trigger] w.merkle_proofs@[k]).0@ == addrs[k]
            && w.merkle_proofs@[k].1 == proofs@[k]
}

/// Which error assembly reports, decided by the first failing check.
pub open spec fn assembly_error(
    e: WitnessError,
    curr: Block,
    prev: Block,
    receipts: Vec<TransactionReceipt>,
    states: Vec<AccountState>,
    proofs: Vec<(AccountProof, AccountProof)>,
) -> bool {
    if !(valid_height_str(curr.number@) && height_value(curr.number@) <= u64::MAX) {
        e matches WitnessError::DecodeError { context } && context@ == "invalid block height "@
            + curr.number@
    } else if height_value(curr.number@) == 0 {
        e == WitnessError::GenesisBoundaryError
    } else if !(valid_height_str(prev.number@) && height_value(prev.number@) <= u64::MAX) {
        e matches WitnessError::DecodeError { context } && context@ == "invalid block height "@
            + prev.number@
    } else if height_value(prev.number@) + 1 != height_value(curr.number@) {
        e matches WitnessError::DecodeError { context } && context@ == "previous block "@
            + prev.number@ + " does not precede "@ + curr.number@
    } else if !receipts_paired(full_txs_of(curr.transactions@), receipts@) {
        e matches WitnessError::DecodeError { context } && context@
            == "receipts do not pair with the block's transactions"@
    } else {
        e == WitnessError::InconsistentSetError
    }
}

/// Combines everything fetched for one block into a `BlockWitness`, checking
/// every cross-input invariant first. `states` and `proofs` are expected in
/// the collected address order an earlier `extraction_plan` gave. Succeeds
/// exactly when all checks of `assembly_ok` pass; the emitted witness is
/// then determined by the inputs (`assembled_fields`) and internally
/// consistent (`witness_consistent`). On any failed check the whole assembly
/// aborts with the error `assembly_error` pins; no partial witness exists.
#[verifier::loop_isolation(false)]
pub fn assemble(
    curr_block: Block,
    prev_block: Block,
    receipts: Vec<TransactionReceipt>,
    states: Vec<AccountState>,
    proofs: Vec<(AccountProof, AccountProof)>,
) -> (r: Result<BlockWitness, WitnessError>)
    ensures
        match r {
            Ok(w) => {
                &&& assembly_ok(curr_block, prev_block, receipts, states, proofs)
                &&& assembled_fields(w, curr_block, prev_block, receipts, states, proofs)
                &&& witness_consistent(w)
            },
            Err(e) => {
                &&& !assembly_ok(curr_block, prev_block, receipts, states, proofs)
                &&& assembly_error(e, curr_block, prev_block, receipts, states, proofs)
            },
        },
{
    let curr_height = match parse_height(curr_block.number.as_str()) {
        Ok(v) => v,
        Err(e) => {
            return Err(e);
        },
    };
    if curr_height == 0 {
        return Err(WitnessError::GenesisBoundaryError);
    }
    let prev_height = match parse_height(prev_block.number.as_str()) {
        Ok(v) => v,
        Err(e) => {
            return Err(e);
        },
    };
    if prev_height != curr_height - 1 {
        let mut context = String::new();
        context.append("previous block ");
        context.append(prev_block.number.as_str());
        context.append(" does not precede ");
        context.append(curr_block.number.as_str());
        return Err(WitnessError::DecodeError { context });
    }
    let transactions = full_transactions(&curr_block);
    if receipts.len() != transactions.len() {
        return Err(pairing_error());
    }
    let mut i: usize = 0;
    while i < transactions.len()
        invariant
            i <= transactions.len(),
            transactions@ == full_txs_of(curr_block.transactions@),
            receipts@.len() == transactions@.len(),
            forall|k: int|
                0 <= k < i ==> (#[trigger] receipts@[k]).transactionHash@
                    == transactions@[k].hash@,
        decreases transactions.len() - i,
    {
        if !receipts[i].transactionHash.eq(&transactions[i].hash) {
            proof {
                assert((receipts@[i as int]).transactionHash@ != full_txs_of(
                    curr_block.transactions@,
                )[i as int].hash@);
            }
            return Err(pairing_error());
        }
        i = i + 1;
    }
    let addresses = collect_addresses(&curr_block);
    if states.len() != addresses.len() || proofs.len() != addresses.len() {
        return Err(WitnessError::InconsistentSetError);
    }
    let ghost addrs = collect_spec(curr_block.transactions@);
    let ghost proofs0 = proofs@;
    let mut proofs = proofs;
    let mut pre_state: Vec<(String, AccountState)> = Vec::new();
    let mut post_state: Vec<(String, AccountState)> = Vec::new();
    let mut merkle_proofs: Vec<(String, (AccountProof, AccountProof))> = Vec::new();
    let mut j: usize = 0;
    while j < addresses.len()
        invariant
            j <= addresses.len(),
            addresses.deep_view() == addrs,
            states@.len() == addresses@.len(),
            proofs0.len() == addresses@.len(),
            proofs@ == proofs0.skip(j as int),
            pre_state@.len() == j,
            forall|k: int|
                0 <= k < j ==> (#[trigger] pre_state@[k]).0@ == addrs[k] && pre_state@[k].1
                    == states@[k],
            post_state@ == pre_state@,
            merkle_proofs@.len() == j,
            forall|k: int|
                0 <= k < j ==> (#[trigger] merkle_proofs@[k]).0@ == addrs[k]
                    && merkle_proofs@[k].1 == proofs0[k],
        decreases addresses.len() - j,
    {
        let st = states[j].clone();
        proof {
            assert(proofs0.skip(j as int)[0] == proofs0[j as int]);
            assert(proofs0.skip(j as int).remove(0) =~= proofs0.skip(j + 1));
        }
        let pr = proofs.remove(0);
        let key_pre = addresses[j].clone();
        let key_post = addresses[j].clone();
        let key_mp = addresses[j].clone();
        proof {
            assert(addresses.deep_view()[j as int] == addresses@[j as int]@);
        }
        pre_state.push((key_pre, st.clone()));
        post_state.push((key_post, st));
        merkle_proofs.push((key_mp, pr));
        proof {
            assert(post_state@ =~= pre_state@);
        }
        j = j + 1;
    }
    let witness = BlockWitness {
        block_header: curr_block,
        prev_block_header: prev_block,
        transactions,
        receipts,
        pre_state,
        post_state,
        merkle_proofs,
    };
    proof {
        assert(keys_of(witness.pre_state@) =~= addrs);
        assert(keys_of(witness.post_state@) =~= keys_of(witness.pre_state@));
        assert(keys_of(witness.merkle_proofs@) =~= keys_of(witness.pre_state@));
    }
    Ok(witness)
}

/// Builds the error for receipts that do not pair with the transactions.
fn pairing_error() -> (e: WitnessError)
    ensures
        e matches WitnessError::DecodeError { context } && context@
            == "receipts do not pair with the block's transactions"@,
{
    let mut context = String::new();
    context.append("receipts do not pair with the block's transactions");
    WitnessError::DecodeError { context }
}

/// Receipt pairing: in a witness whose transactions carry pairwise distinct
/// hashes, each transaction has exactly one receipt bearing its hash — the
/// one at its own position.
pub proof fn lemma_receipt_pairing(txs: Seq<Transaction>, rs: Seq<TransactionReceipt>)
    requires
        receipts_paired(txs, rs),
        forall|i: int, j: int| 0 <= i < j < txs.len() ==> txs[i].hash@ != txs[j].hash@,
    ensures
        forall|i: int|
            0 <= i < txs.len() ==> (#[trigger] rs[i]).transactionHash@ == txs[i].hash@,
        forall|i: int, j: int|
            0 <= i < txs.len() && 0 <= j < rs.len() && (#[trigger] rs[j]).transactionHash@ == (
            #[trigger] txs[i].hash@) ==> j == i,
{
    assert forall|i: int, j: int|
        0 <= i < txs.len() && 0 <= j < rs.len() && (#[trigger] rs[j]).transactionHash@ == (
        #[trigger] txs[i].hash@) implies j == i by {
        if j < i {
            assert(txs[j].hash@ != txs[i].hash@);
        } else if i < j {
            assert(txs[i].hash@ != txs[j].hash@);
        }
    }
}

/// Idempotence: assembly is a pure function of what was fetched. Two
/// assemblies from equal fetched inputs — as from an unchanged node asked
/// for the same concrete height twice — either fail with the same error, or
/// emit witnesses with equal content, field for field and entry for entry.
pub proof fn lemma_assembly_idempotent(
    curr: Block,
    prev: Block,
    receipts: Vec<TransactionReceipt>,
    states: Vec<AccountState>,
    proofs: Vec<(AccountProof, AccountProof)>,
    r1: Result<BlockWitness, WitnessError>,
    r2: Result<BlockWitness, WitnessError>,
)
    requires
        r1 is Ok ==> assembled_fields(r1->Ok_0, curr, prev, receipts, states, proofs),
        r2 is Ok ==> assembled_fields(r2->Ok_0, curr, prev, receipts, states, proofs),
        r1 is Err ==> !assembly_ok(curr, prev, receipts, states, proofs) && assembly_error(
            r1->Err_0,
            curr,
            prev,
            receipts,
            states,
            proofs,
        ),
        r2 is Err ==> !assembly_ok(curr, prev, receipts, states, proofs) && assembly_error(
            r2->Err_0,
            curr,
            prev,
            receipts,
            states,
            proofs,
        ),
        r1 is Ok ==> assembly_ok(curr, prev, receipts, states, proofs),
        r2 is Ok ==> assembly_ok(curr, prev, receipts, states, proofs),
    ensures
        r1 is Ok <==> r2 is Ok,
        (r1 is Ok && r2 is Ok) ==> same_witness(r1->Ok_0, r2->Ok_0),
        (r1 is Err && r2 is Err) ==> same_error(r1->Err_0, r2->Err_0),
{
    if r1 is Ok && r2 is Ok {
        let w1 = r1->Ok_0;
        let w2 = r2->Ok_0;
        assert(entries_of(w1.pre_state@) =~= entries_of(w2.pre_state@));
        assert(entries_of(w1.merkle_proofs@) =~= entries_of(w2.merkle_proofs@));
    }
}

/// Equal witness content: equal headers, transactions and receipts, and the
/// three maps equal entry for entry (keys as character sequences, values as
/// fetched).
pub open spec fn same_witness(w1: BlockWitness, w2: BlockWitness) -> bool {
    &&& w1.block_header == w2.block_header
    &&& w1.prev_block_header == w2.prev_block_header
    &&& w1.transactions@ == w2.transactions@
    &&& w1.receipts@ == w2.receipts@
    &&& entries_of(w1.pre_state@) == entries_of(w2.pre_state@)
    &&& w1.post_state@ == w1.pre_state@ && w2.post_state@ == w2.pre_state@
    &&& entries_of(w1.merkle_proofs@) == entries_of(w2.merkle_proofs@)
}

/// Equal failures: the same variant, with contexts of the same characters.
pub open spec fn same_error(e1: WitnessError, e2: WitnessError) -> bool {
    match (e1, e2) {
        (
            WitnessError::TransportError { context: c1 },
            WitnessError::TransportError { context: c2 },
        ) => c1@ == c2@,
        (WitnessError::RpcError { context: c1 }, WitnessError::RpcError { context: c2 }) => c1@
            == c2@,
        (WitnessError::DecodeError { context: c1 }, WitnessError::DecodeError { context: c2 }) => c1@
            == c2@,
        (
            WitnessError::NotFoundError { context: c1 },
            WitnessError::NotFoundError { context: c2 },
        ) => c1@ == c2@,
        (WitnessError::GenesisBoundaryError, WitnessError::GenesisBoundaryError) => true,
        (WitnessError::InconsistentSetError, WitnessError::InconsistentSetError) => true,
        _ => false,
    }
}

} // verus!
