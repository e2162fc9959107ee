//! Participant-address collection: the deduplicated set of accounts a
//! block's full transactions reference. Only full transaction bodies are
//! scanned; bare hash slots contribute nothing. The sender is always
//! collected, the recipient when present (a contract-creation transaction
//! has none). Addresses are normalized to lowercase hex before insertion,
//! since the node may answer with mixed case; deduplication is by exact
//! equality of the normalized strings, and first-occurrence order is kept.

use vstd::prelude::*;
use crate::types::Block;
use crate::types::Transaction;
use crate::types::TransactionOrHash;

verus! {

/// An ASCII uppercase letter mapped to its lowercase form; every other
/// character kept. The codepoint range is `A`..`Z`.
pub open spec fn lower_char(c: char) -> char {
    if 65 <= c as u32 && c as u32 <= 90 {
        ((c as u32 + 32) as u8) as char
    } else {
        c
    }
}

/// A string normalized character by character to lowercase.
pub open spec fn normalize_spec(s: Seq<char>) -> Seq<char> {
    s.map_values(|c: char| lower_char(c))
}

/// Relies on `String`'s `FromIterator<char>` impl through
/// `core::iter::Iterator::collect`: collecting characters yields the string
/// of exactly those characters in order.
#[verifier::external_body]
pub(crate) fn string_from_chars(v: &Vec<char>) -> (r: String)
    ensures
        r@ == v@,
{
    v.iter().collect()
}

/// Normalizes an address string to lowercase.
pub fn normalize_address(s: &str) -> (r: String)
    ensures
        r@ == normalize_spec(s@),
{
    let len = s.unicode_len();
    let mut chars: Vec<char> = Vec::new();
    let mut i: usize = 0;
    while i < len
        invariant
            i <= len,
            len == s@.len(),
            chars@ =~= normalize_spec(s@).take(i as int),
        decreases len - i,
    {
        let c = s.get_char(i);
        let u = c as u32;
        let lc: char = if 65 <= u && u <= 90 {
            ((u + 32) as u8) as char
        } else {
            c
        };
        proof {
            assert(lc == lower_char(s@[i as int]));
            assert(normalize_spec(s@).take(i + 1).drop_last() =~= normalize_spec(s@).take(
                i as int,
            ));
        }
        chars.push(lc);
        i = i + 1;
    }
    proof {
        assert(chars@ =~= normalize_spec(s@));
    }
    string_from_chars(&chars)
}

/// The full transaction bodies among a block's transaction slots, in block
/// order; bare hash slots are skipped.
pub open spec fn full_txs_of(s: Seq<TransactionOrHash>) -> Seq<Transaction>
    decreases s.len(),
{
    if s.len() == 0 {
        Seq::empty()
    } else {
        full_txs_of(s.drop_last()) + (match s.last() {
            TransactionOrHash::Full(t) => seq![t],
            TransactionOrHash::Hash(_) => Seq::empty(),
        })
    }
}

/// Extracts the full transaction bodies of a block, in block order.
pub fn full_transactions(block: &Block) -> (r: Vec<Transaction>)
    ensures
        r@ == full_txs_of(block.transactions@),
{
    let mut out: Vec<Transaction> = Vec::new();
    let mut i: usize = 0;
    while i < block.transactions.len()
        invariant
            i <= block.transactions.len(),
            out@ =~= full_txs_of(block.transactions@.take(i as int)),
        decreases block.transactions.len() - i,
    {
        proof {
            assert(block.transactions@.take(i + 1).drop_last() =~= block.transactions@.take(
                i as int,
            ));
            assert(block.transactions@.take(i + 1).last() == block.transactions@[i as int]);
        }
        match &block.transactions[i] {
            TransactionOrHash::Full(t) => {
                out.push(t.clone());
            },
            TransactionOrHash::Hash(_) => {},
        }
        proof {
            assert(out@ =~= full_txs_of(block.transactions@.take(i + 1)));
        }
        i = i + 1;
    }
    proof {
        assert(block.transactions@.take(block.transactions@.len() as int) =~= block.transactions@);
    }
    out
}

/// The normalized addresses one full transaction references: its sender,
/// then its recipient when there is one.
pub open spec fn tx_addresses(t: Transaction) -> Seq<Seq<char>> {
    match t.to {
        Some(a) => seq![normalize_spec(t.from@), normalize_spec(a@)],
        None => seq![normalize_spec(t.from@)],
    }
}

/// All normalized addresses of a transaction list, in order of occurrence,
/// duplicates kept.
pub open spec fn all_addresses(txs: Seq<Transaction>) -> Seq<Seq<char>>
    decreases txs.len(),
{
    if txs.len() == 0 {
        Seq::empty()
    } else {
        all_addresses(txs.drop_last()) + tx_addresses(txs.last())
    }
}

/// A sequence with every repeated element dropped, keeping each element's
/// first occurrence.
pub open spec fn dedup_first(s: Seq<Seq<char>>) -> Seq<Seq<char>>
    decreases s.len(),
{
    if s.len() == 0 {
        Seq::empty()
    } else if s.drop_last().contains(s.last()) {
        dedup_first(s.drop_last())
    } else {
        dedup_first(s.drop_last()) + seq![s.last()]
    }
}

/// Deduplication keeps exactly the members of its input.
pub proof fn lemma_dedup_contains(s: Seq<Seq<char>>, a: Seq<char>)
    ensures
        dedup_first(s).contains(a) <==> s.contains(a),
    decreases s.len(),
{
    if s.len() == 0 {
    } else {
        lemma_dedup_contains(s.drop_last(), a);
        assert(s.contains(a) <==> (s.drop_last().contains(a) || a == s.last())) by {
            if s.contains(a) {
                let i = choose|i: int| 0 <= i < s.len() && s[i] == a;
                if i < s.len() - 1 {
                    assert(s.drop_last()[i] == a);
                }
            }
            if s.drop_last().contains(a) {
                let i = choose|i: int| 0 <= i < s.drop_last().len() && s.drop_last()[i] == a;
                assert(s[i] == a);
            }
        }
        if !s.drop_last().contains(s.last()) {
            let d = dedup_first(s.drop_last()) + seq![s.last()];
            assert(d.contains(a) <==> (dedup_first(s.drop_last()).contains(a) || a == s.last()))
                by {
                if dedup_first(s.drop_last()).contains(a) {
                    let i = choose|i: int|
                        0 <= i < dedup_first(s.drop_last()).len() && dedup_first(s.drop_last())[i]
                            == a;
                    assert(d[i] == a);
                }
                assert(d[d.len() - 1] == s.last());
                if d.contains(a) {
                    let i = choose|i: int| 0 <= i < d.len() && d[i] == a;
                    if i < d.len() - 1 {
                        assert(dedup_first(s.drop_last())[i] == a);
                    }
                }
            }
        }
    }
}

/// Deduplication leaves no element twice.
pub proof fn lemma_dedup_distinct(s: Seq<Seq<char>>)
    ensures
        forall|i: int, j: int|
            0 <= i < j < dedup_first(s).len() ==> dedup_first(s)[i] != dedup_first(s)[j],
    decreases s.len(),
{
    if s.len() == 0 {
    } else {
        lemma_dedup_distinct(s.drop_last());
        if !s.drop_last().contains(s.last()) {
            lemma_dedup_contains(s.drop_last(), s.last());
            let d = dedup_first(s);
            assert forall|i: int, j: int| 0 <= i < j < d.len() implies d[i] != d[j] by {
                if j < d.len() - 1 {
                    assert(dedup_first(s.drop_last())[i] == d[i]);
                    assert(dedup_first(s.drop_last())[j] == d[j]);
                } else {
                    assert(dedup_first(s.drop_last())[i] == d[i]);
                    assert(dedup_first(s.drop_last()).contains(d[i]));
                }
            }
        }
    }
}

/// The deduplicated, normalized address list a block's full transactions
/// reference, in first-occurrence order.
pub open spec fn collect_spec(slots: Seq<TransactionOrHash>) -> Seq<Seq<char>> {
    dedup_first(all_addresses(full_txs_of(slots)))
}

/// Whether a vector already holds a string of the same characters.
fn contains_string(v: &Vec<String>, s: &String) -> (r: bool)
    ensures
        r == v.deep_view().contains(s@),
{
    let mut i: usize = 0;
    while i < v.len()
        invariant
            i <= v.len(),
            forall|j: int| 0 <= j < i ==> v.deep_view()[j] != s@,
        decreases v.len() - i,
    {
        if v[i].eq(s) {
            proof {
                assert(v.deep_view()[i as int] == s@);
            }
            return true;
        }
        i = i + 1;
    }
    proof {
        assert(!v.deep_view().contains(s@)) by {
            if v.deep_view().contains(s@) {
                let j = choose|j: int| 0 <= j < v.deep_view().len() && v.deep_view()[j] == s@;
            }
        }
    }
    false
}

/// Pushes a normalized address unless an equal one is already collected.
fn insert_address(out: &mut Vec<String>, addr: String)
    ensures
        final(out).deep_view() == if old(out).deep_view().contains(addr@) {
            old(out).deep_view()
        } else {
            old(out).deep_view() + seq![addr@]
        },
{
    if !contains_string(out, &addr) {
        out.push(addr);
        proof {
            assert(out.deep_view() =~= old(out).deep_view() + seq![addr@]);
        }
    }
}

/// Collects the deduplicated set of addresses a block's full transactions
/// reference: every sender, every present recipient, each normalized to
/// lowercase, in first-occurrence order and free of duplicates. A block
/// holding only bare transaction hashes yields the empty list.
pub fn collect_addresses(block: &Block) -> (r: Vec<String>)
    ensures
        r.deep_view() == collect_spec(block.transactions@),
        forall|i: int, j: int| 0 <= i < j < r@.len() ==> r.deep_view()[i] != r.deep_view()[j],
{
    let ghost slots = block.transactions@;
    let mut out: Vec<String> = Vec::new();
    let mut i: usize = 0;
    while i < block.transactions.len()
        invariant
            i <= block.transactions.len(),
            slots == block.transactions@,
            out.deep_view() == dedup_first(all_addresses(full_txs_of(slots.take(i as int)))),
        decreases block.transactions.len() - i,
    {
        let ghost pre = all_addresses(full_txs_of(slots.take(i as int)));
        proof {
            assert(slots.take(i + 1).drop_last() =~= slots.take(i as int));
            assert(slots.take(i + 1).last() == slots[i as int]);
        }
        match &block.transactions[i] {
            TransactionOrHash::Full(t) => {
                proof {
                    let f = full_txs_of(slots.take(i + 1));
                    assert(f.drop_last() =~= full_txs_of(slots.take(i as int)));
                    assert(f.last() == *t);
                    assert(all_addresses(f) == pre + tx_addresses(*t));
                }
                let from_n = normalize_address(t.from.as_str());
                proof {
                    lemma_dedup_contains(pre, from_n@);
                    assert((pre + seq![from_n@]).drop_last() =~= pre);
                }
                insert_address(&mut out, from_n);
                match &t.to {
                    Some(a) => {
                        let ghost mid = pre + seq![normalize_spec(t.from@)];
                        let to_n = normalize_address(a.as_str());
                        proof {
                            lemma_dedup_contains(mid, to_n@);
                            assert((mid + seq![to_n@]).drop_last() =~= mid);
                            assert(mid + seq![to_n@] =~= pre + tx_addresses(*t));
                        }
                        insert_address(&mut out, to_n);
                    },
                    None => {
                        proof {
                            assert(pre + seq![normalize_spec(t.from@)] =~= pre + tx_addresses(*t));
                        }
                    },
                }
            },
            TransactionOrHash::Hash(_) => {
                proof {
                    assert(full_txs_of(slots.take(i + 1)) =~= full_txs_of(slots.take(i as int)));
                }
            },
        }
        i = i + 1;
    }
    proof {
        assert(slots.take(slots.len() as int) =~= slots);
        lemma_dedup_distinct(all_addresses(full_txs_of(slots)));
    }
    out
}

/// Whether one transaction references an address: the address is its
/// normalized sender, or its normalized recipient when one is present.
pub open spec fn tx_references(t: Transaction, a: Seq<char>) -> bool {
    a == normalize_spec(t.from@) || (t.to matches Some(to) && a == normalize_spec(to@))
}

/// Address completeness: the collected address set is exactly the senders
/// and present recipients of the block's full transactions, normalized, with
/// contract-creation transactions contributing no recipient.
pub proof fn lemma_address_completeness(slots: Seq<TransactionOrHash>)
    ensures
        collect_spec(slots).to_set() == Set::new(
            |a: Seq<char>|
                exists|i: int|
                    0 <= i < full_txs_of(slots).len() && tx_references(
                        #[trigger] full_txs_of(slots)[i],
                        a,
                    ),
        ),
{
    let txs = full_txs_of(slots);
    let target = Set::new(
        |a: Seq<char>| exists|i: int| 0 <= i < txs.len() && tx_references(#[trigger] txs[i], a),
    );
    assert forall|a: Seq<char>| collect_spec(slots).to_set().contains(a) <==> target.contains(
        a,
    ) by {
        lemma_dedup_contains(all_addresses(txs), a);
        lemma_all_addresses_member(txs, a);
    }
    assert(collect_spec(slots).to_set() =~= target);
}

/// Membership in the flat address list is reference by some transaction.
proof fn lemma_all_addresses_member(txs: Seq<Transaction>, a: Seq<char>)
    ensures
        all_addresses(txs).contains(a) <==> exists|i: int|
            0 <= i < txs.len() && tx_references(#[trigger] txs[i], a),
    decreases txs.len(),
{
    if txs.len() == 0 {
    } else {
        let rest = txs.drop_last();
        let t = txs.last();
        lemma_all_addresses_member(rest, a);
        let whole = all_addresses(rest) + tx_addresses(t);
        assert(whole.contains(a) <==> (all_addresses(rest).contains(a) || tx_addresses(t).contains(
            a,
        ))) by {
            if all_addresses(rest).contains(a) {
                let i = choose|i: int|
                    0 <= i < all_addresses(rest).len() && all_addresses(rest)[i] == a;
                assert(whole[i] == a);
            }
            if tx_addresses(t).contains(a) {
                let i = choose|i: int| 0 <= i < tx_addresses(t).len() && tx_addresses(t)[i] == a;
                assert(whole[all_addresses(rest).len() + i] == a);
            }
            if whole.contains(a) {
                let i = choose|i: int| 0 <= i < whole.len() && whole[i] == a;
                if i < all_addresses(rest).len() {
                    assert(all_addresses(rest)[i] == a);
                } else {
                    assert(tx_addresses(t)[i - all_addresses(rest).len()] == a);
                }
            }
        }
        assert(tx_addresses(t).contains(a) <==> tx_references(t, a)) by {
            assert(tx_addresses(t)[0] == normalize_spec(t.from@));
            if t.to is Some {
                assert(tx_addresses(t)[1] == normalize_spec(t.to->0@));
            }
            if tx_addresses(t).contains(a) {
                let i = choose|i: int| 0 <= i < tx_addresses(t).len() && tx_addresses(t)[i] == a;
            }
        }
        if exists|i: int| 0 <= i < rest.len() && tx_references(#[trigger] rest[i], a) {
            let i = choose|i: int| 0 <= i < rest.len() && tx_references(#[trigger] rest[i], a);
            assert(txs[i] == rest[i]);
            assert(tx_references(txs[i], a));
        }
        if tx_references(t, a) {
            assert(tx_references(txs[txs.len() - 1], a));
        }
        if exists|i: int| 0 <= i < txs.len() && tx_references(#[trigger] txs[i], a) {
            let i = choose|i: int| 0 <= i < txs.len() && tx_references(#[trigger] txs[i], a);
            if i < txs.len() - 1 {
                assert(rest[i] == txs[i]);
                assert(tx_references(rest[i], a));
            }
        }
    }
}

} // verus!
