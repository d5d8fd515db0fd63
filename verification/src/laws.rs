//! The store's cross-row invariants, and their preservation by the writer.
//!
//! A committed store is internally consistent: every block row is keyed by
//! its own height and has its hash-index row; every coin row has its parent
//! index row and its created-height index row; a spent coin also has its
//! spent-height index row and its spend row, at the same height. `commit`
//! preserves all of it, for insertions whose rows are well formed and whose
//! identifiers are fresh or consistent — the uniqueness the chain itself
//! guarantees.

use vstd::prelude::*;

use crate::codec::{
    sdecode_block_record, sdecode_coin_record, sdecode_coin_spend_record, senc_block_record,
    senc_coin_record, senc_coin_spend_record, senc_u32,
};
use crate::store::{
    apply_batch, batch_last, cf_table, lemma_get_apply_batch, store_get, store_sorted, Cf, PutV,
    StoreV,
};
use crate::vm::coin_id_of;
use crate::writer::{
    block_puts, coin_puts, concat_map, ins_batch, spend_puts, tail_puts, InsertionsV,
};

verus! {

// ---------------------------------------------------------------------------
// The invariants.
// ---------------------------------------------------------------------------

/// One block row is sound: it decodes, sits under its own height key, and
/// its header hash maps back to that height.
pub open spec fn block_row_ok(s: StoreV, k: Seq<u8>) -> bool {
    match spec_get_blocks(s, k) {
        Some(v) => match sdecode_block_record(v) {
            Some(br) => k == senc_u32(br.height) && store_get(s, Cf::BlockHashes, br.header_hash)
                == Some(senc_u32(br.height)),
            None => false,
        },
        None => true,
    }
}

/// Every block row decodes, sits under its own height key, and its header
/// hash maps back to that height.
pub open spec fn inv_blocks(s: StoreV) -> bool {
    forall|k: Seq<u8>| #[trigger] block_row_ok(s, k)
}

pub open spec fn spec_get_blocks(s: StoreV, k: Seq<u8>) -> Option<Seq<u8>> {
    store_get(s, Cf::Blocks, k)
}

pub open spec fn spec_get_coins(s: StoreV, k: Seq<u8>) -> Option<Seq<u8>> {
    store_get(s, Cf::Coins, k)
}

/// One coin row is sound: it decodes, and sits under the digest of its own
/// coin triple; its parent pair is in the parent index; its created height
/// is in the height index; and, if spent, its spent height is in the height
/// index and its spend row records that same height.
pub open spec fn coin_row_ok(s: StoreV, k: Seq<u8>) -> bool {
    match spec_get_coins(s, k) {
            None => true,
            Some(v) => match sdecode_coin_record(v) {
            Some(r) => {
                &&& k == coin_id_of(r.coin.parent_coin_id, r.coin.puzzle_hash, r.coin.amount)
                &&& store_get(s, Cf::CoinParentHashIndex, r.coin.parent_coin_id + k) is Some
                &&& store_get(s, Cf::CoinHeightIndex, senc_u32(r.created_height) + k) is Some
                &&& match r.spent_height {
                    Some(h) => {
                        &&& store_get(s, Cf::CoinHeightIndex, senc_u32(h) + k) is Some
                        &&& match store_get(s, Cf::CoinSpends, k) {
                            Some(sv) => match sdecode_coin_spend_record(sv) {
                                Some(sr) => sr.spent_height == h,
                                None => false,
                            },
                            None => false,
                        }
                    },
                    None => true,
                }
            },
                None => false,
            },
    }
}

/// Every coin row of the store is sound.
pub open spec fn inv_coins(s: StoreV) -> bool {
    forall|k: Seq<u8>| #[trigger] coin_row_ok(s, k)
}

/// An empty store satisfies both invariants.
pub proof fn lemma_empty_store_invariants()
    ensures
        inv_blocks(crate::store::empty_store()),
        inv_coins(crate::store::empty_store()),
{
}

// ---------------------------------------------------------------------------
// Batches: what a put's presence means for the committed store.
// ---------------------------------------------------------------------------

/// The last write to a key is one of the batch's puts.
proof fn lemma_batch_last_is_put(b: Seq<PutV>, cf: Cf, k: Seq<u8>)
    requires
        batch_last(b, cf, k) is Some,
    ensures
        exists|i: int|
            0 <= i < b.len() && (#[trigger] b[i]).cf == cf && b[i].key == k && b[i].value
                == batch_last(b, cf, k)->Some_0,
    decreases b.len(),
{
    let rest = b.subrange(1, b.len() as int);
    if batch_last(rest, cf, k) is Some {
        lemma_batch_last_is_put(rest, cf, k);
        let i = choose|i: int|
            0 <= i < rest.len() && (#[trigger] rest[i]).cf == cf && rest[i].key == k
                && rest[i].value == batch_last(rest, cf, k)->Some_0;
        assert(b[i + 1] == rest[i]);
    } else {
        assert(b[0].cf == cf && b[0].key == k);
    }
}

/// A key some put writes is written after the batch.
proof fn lemma_put_implies_last_some(b: Seq<PutV>, i: int)
    requires
        0 <= i < b.len(),
    ensures
        batch_last(b, b[i].cf, b[i].key) is Some,
    decreases b.len(),
{
    let rest = b.subrange(1, b.len() as int);
    if i == 0 {
        if batch_last(rest, b[0].cf, b[0].key) is Some {
        } else {
        }
    } else {
        assert(rest[i - 1] == b[i]);
        lemma_put_implies_last_some(rest, i - 1);
    }
}

/// Every put of a group stands somewhere in the group's concatenation.
proof fn lemma_concat_map_mem<A>(s: Seq<A>, f: spec_fn(A) -> Seq<PutV>, i: int, j: int)
    requires
        0 <= i < s.len(),
        0 <= j < f(s[i]).len(),
    ensures
        exists|m: int| 0 <= m < concat_map(s, f).len() && #[trigger] concat_map(s, f)[m] == f(
            s[i],
        )[j],
    decreases s.len(),
{
    let rest = s.subrange(1, s.len() as int);
    if i == 0 {
        assert(concat_map(s, f)[j] == f(s[0])[j]);
    } else {
        assert(rest[i - 1] == s[i]);
        lemma_concat_map_mem(rest, f, i - 1, j);
        let m = choose|m: int|
            0 <= m < concat_map(rest, f).len() && #[trigger] concat_map(rest, f)[m] == f(
                rest[i - 1],
            )[j];
        assert(concat_map(s, f)[f(s[0]).len() + m] == concat_map(rest, f)[m]);
    }
}

/// Every put of the group's concatenation comes from some element.
proof fn lemma_concat_map_origin<A>(s: Seq<A>, f: spec_fn(A) -> Seq<PutV>, m: int)
    requires
        0 <= m < concat_map(s, f).len(),
    ensures
        exists|i: int, j: int|
            0 <= i < s.len() && 0 <= j < f(s[i]).len() && concat_map(s, f)[m] == (#[trigger] f(
                s[i],
            )[j]),
    decreases s.len(),
{
    let rest = s.subrange(1, s.len() as int);
    if m < f(s[0]).len() {
        assert(concat_map(s, f)[m] == f(s[0])[m]);
    } else {
        lemma_concat_map_origin(rest, f, m - f(s[0]).len() as int);
        let (i, j) = choose|i: int, j: int|
            0 <= i < rest.len() && 0 <= j < f(rest[i]).len() && concat_map(rest, f)[m - f(
                s[0],
            ).len()] == (#[trigger] f(rest[i])[j]);
        assert(s[i + 1] == rest[i]);
        assert(concat_map(s, f)[m] == concat_map(rest, f)[m - f(s[0]).len()]);
    }
}

/// The four groups of a writer batch, by index ranges.
#[verifier::rlimit(100)]
#[verifier::spinoff_prover]
proof fn lemma_ins_batch_origin(iv: InsertionsV, m: int)
    requires
        0 <= m < ins_batch(iv).len(),
    ensures
        (exists|i: int, j: int|
            0 <= i < iv.blocks.len() && 0 <= j < block_puts(iv.blocks[i]).len() && ins_batch(iv)[m]
                == (#[trigger] block_puts(iv.blocks[i])[j])) || (exists|i: int, j: int|
            0 <= i < iv.coins.len() && 0 <= j < coin_puts(iv.coins[i]).len() && ins_batch(iv)[m]
                == (#[trigger] coin_puts(iv.coins[i])[j])) || (exists|i: int, j: int|
            0 <= i < iv.spends.len() && 0 <= j < spend_puts(iv.spends[i]).len() && ins_batch(iv)[m]
                == (#[trigger] spend_puts(iv.spends[i])[j])) || (exists|i: int, j: int|
            0 <= i < iv.tails.len() && 0 <= j < tail_puts(iv.tails[i]).len() && ins_batch(iv)[m]
                == (#[trigger] tail_puts(iv.tails[i])[j])),
{
    let fb = |b: crate::types::BlockRecordV| block_puts(b);
    let fc = |c: (Seq<u8>, crate::types::CoinRecordV)| coin_puts(c);
    let fs = |c: (Seq<u8>, crate::types::CoinSpendRecordV)| spend_puts(c);
    let ft = |c: (Seq<u8>, Seq<u8>)| tail_puts(c);
    let gb = concat_map(iv.blocks, fb);
    let gc = concat_map(iv.coins, fc);
    let gs = concat_map(iv.spends, fs);
    let gt = concat_map(iv.tails, ft);
    assert(ins_batch(iv) == gb + gc + gs + gt);
    if m < gb.len() {
        assert(ins_batch(iv)[m] == gb[m]);
        lemma_concat_map_origin(iv.blocks, fb, m);
        let (i, j) = choose|i: int, j: int|
            0 <= i < iv.blocks.len() && 0 <= j < fb(iv.blocks[i]).len() && gb[m] == (#[trigger] fb(
                iv.blocks[i],
            )[j]);
        assert(fb(iv.blocks[i]) == block_puts(iv.blocks[i]));
        assert(ins_batch(iv)[m] == block_puts(iv.blocks[i])[j]);
        assert(0 <= j < block_puts(iv.blocks[i]).len());
    } else if m < gb.len() + gc.len() {
        assert(ins_batch(iv)[m] == gc[m - gb.len()]);
        lemma_concat_map_origin(iv.coins, fc, m - gb.len() as int);
        let (i, j) = choose|i: int, j: int|
            0 <= i < iv.coins.len() && 0 <= j < fc(iv.coins[i]).len() && gc[m - gb.len()] == (
            #[trigger] fc(iv.coins[i])[j]);
        assert(fc(iv.coins[i]) == coin_puts(iv.coins[i]));
        assert(ins_batch(iv)[m] == coin_puts(iv.coins[i])[j]);
        assert(0 <= j < coin_puts(iv.coins[i]).len());
    } else if m < gb.len() + gc.len() + gs.len() {
        assert(ins_batch(iv)[m] == gs[m - gb.len() - gc.len()]);
        lemma_concat_map_origin(iv.spends, fs, m - gb.len() as int - gc.len() as int);
        let (i, j) = choose|i: int, j: int|
            0 <= i < iv.spends.len() && 0 <= j < fs(iv.spends[i]).len() && gs[m - gb.len()
                - gc.len()] == (#[trigger] fs(iv.spends[i])[j]);
        assert(fs(iv.spends[i]) == spend_puts(iv.spends[i]));
        assert(ins_batch(iv)[m] == spend_puts(iv.spends[i])[j]);
        assert(0 <= j < spend_puts(iv.spends[i]).len());
    } else {
        assert(ins_batch(iv)[m] == gt[m - gb.len() - gc.len() - gs.len()]);
        lemma_concat_map_origin(
            iv.tails,
            ft,
            m - gb.len() as int - gc.len() as int - gs.len() as int,
        );
        let (i, j) = choose|i: int, j: int|
            0 <= i < iv.tails.len() && 0 <= j < ft(iv.tails[i]).len() && gt[m - gb.len() - gc.len()
                - gs.len()] == (#[trigger] ft(iv.tails[i])[j]);
        assert(ft(iv.tails[i]) == tail_puts(iv.tails[i]));
        assert(ins_batch(iv)[m] == tail_puts(iv.tails[i])[j]);
        assert(0 <= j < tail_puts(iv.tails[i]).len());
    }
}

/// A put of one group stands in the whole writer batch.
proof fn lemma_ins_batch_mem_coin(iv: InsertionsV, i: int, j: int)
    requires
        0 <= i < iv.coins.len(),
        0 <= j < coin_puts(iv.coins[i]).len(),
    ensures
        exists|m: int| 0 <= m < ins_batch(iv).len() && #[trigger] ins_batch(iv)[m] == coin_puts(
            iv.coins[i],
        )[j],
{
    let fb = |b: crate::types::BlockRecordV| block_puts(b);
    let fc = |c: (Seq<u8>, crate::types::CoinRecordV)| coin_puts(c);
    let fs = |c: (Seq<u8>, crate::types::CoinSpendRecordV)| spend_puts(c);
    let ft = |c: (Seq<u8>, Seq<u8>)| tail_puts(c);
    let gb = concat_map(iv.blocks, fb);
    let gc = concat_map(iv.coins, fc);
    lemma_concat_map_mem(iv.coins, fc, i, j);
    let m = choose|m: int|
        0 <= m < gc.len() && #[trigger] gc[m] == fc(iv.coins[i])[j];
    assert(ins_batch(iv) == gb + gc + concat_map(iv.spends, fs) + concat_map(iv.tails, ft));
    assert(ins_batch(iv)[gb.len() + m] == gc[m]);
}

proof fn lemma_ins_batch_mem_spend(iv: InsertionsV, i: int, j: int)
    requires
        0 <= i < iv.spends.len(),
        0 <= j < spend_puts(iv.spends[i]).len(),
    ensures
        exists|m: int| 0 <= m < ins_batch(iv).len() && #[trigger] ins_batch(iv)[m] == spend_puts(
            iv.spends[i],
        )[j],
{
    let fb = |b: crate::types::BlockRecordV| block_puts(b);
    let fc = |c: (Seq<u8>, crate::types::CoinRecordV)| coin_puts(c);
    let fs = |c: (Seq<u8>, crate::types::CoinSpendRecordV)| spend_puts(c);
    let ft = |c: (Seq<u8>, Seq<u8>)| tail_puts(c);
    let gb = concat_map(iv.blocks, fb);
    let gc = concat_map(iv.coins, fc);
    let gs = concat_map(iv.spends, fs);
    lemma_concat_map_mem(iv.spends, fs, i, j);
    let m = choose|m: int|
        0 <= m < gs.len() && #[trigger] gs[m] == fs(iv.spends[i])[j];
    assert(ins_batch(iv) == gb + gc + gs + concat_map(iv.tails, ft));
    assert(ins_batch(iv)[gb.len() + gc.len() + m] == gs[m]);
}

proof fn lemma_ins_batch_mem_block(iv: InsertionsV, i: int, j: int)
    requires
        0 <= i < iv.blocks.len(),
        0 <= j < block_puts(iv.blocks[i]).len(),
    ensures
        exists|m: int| 0 <= m < ins_batch(iv).len() && #[trigger] ins_batch(iv)[m] == block_puts(
            iv.blocks[i],
        )[j],
{
    let fb = |b: crate::types::BlockRecordV| block_puts(b);
    let fc = |c: (Seq<u8>, crate::types::CoinRecordV)| coin_puts(c);
    let fs = |c: (Seq<u8>, crate::types::CoinSpendRecordV)| spend_puts(c);
    let ft = |c: (Seq<u8>, Seq<u8>)| tail_puts(c);
    let gb = concat_map(iv.blocks, fb);
    lemma_concat_map_mem(iv.blocks, fb, i, j);
    let m = choose|m: int|
        0 <= m < gb.len() && #[trigger] gb[m] == fb(iv.blocks[i])[j];
    assert(ins_batch(iv) == gb + concat_map(iv.coins, fc) + concat_map(iv.spends, fs) + concat_map(
        iv.tails,
        ft,
    ));
    assert(ins_batch(iv)[m] == gb[m]);
}


// ---------------------------------------------------------------------------
// Preservation: one committed batch keeps the invariants.
// ---------------------------------------------------------------------------

/// What the writer's input must satisfy for the invariants to carry over:
/// rows are well formed; block heights and header hashes are distinct and
/// the hashes are new; coin ids are distinct; a spent coin carries a spend
/// row at the same height, and a spend row's coin is in the batch unless it
/// is unknown to the store. The chain itself guarantees the distinctness:
/// ids and header hashes are digests.
pub open spec fn ins_consistent(s: StoreV, iv: InsertionsV) -> bool {
    &&& forall|i: int| 0 <= i < iv.blocks.len() ==> (#[trigger] iv.blocks[i]).wf()
    &&& forall|i: int| 0 <= i < iv.coins.len() ==> (#[trigger] iv.coins[i]).1.wf()
    &&& forall|i: int| 0 <= i < iv.spends.len() ==> (#[trigger] iv.spends[i]).1.wf()
    &&& forall|i: int, j: int|
        0 <= i < j < iv.blocks.len() ==> (#[trigger] iv.blocks[i]).height != (
        #[trigger] iv.blocks[j]).height && iv.blocks[i].header_hash != iv.blocks[j].header_hash
    &&& forall|i: int|
        0 <= i < iv.blocks.len() ==> store_get(
            s,
            Cf::BlockHashes,
            (#[trigger] iv.blocks[i]).header_hash,
        ) is None
    &&& forall|i: int, j: int|
        0 <= i < j < iv.coins.len() ==> (#[trigger] iv.coins[i]).0 != (#[trigger] iv.coins[j]).0
    &&& forall|i: int|
        0 <= i < iv.coins.len() ==> (#[trigger] iv.coins[i]).0 == coin_id_of(
            iv.coins[i].1.coin.parent_coin_id,
            iv.coins[i].1.coin.puzzle_hash,
            iv.coins[i].1.coin.amount,
        )
    &&& forall|i: int|
        0 <= i < iv.coins.len() && (#[trigger] iv.coins[i]).1.spent_height is Some ==> exists|j: int|
            0 <= j < iv.spends.len() && (#[trigger] iv.spends[j]).0 == iv.coins[i].0
    &&& forall|i: int, j: int|
        0 <= i < iv.coins.len() && 0 <= j < iv.spends.len() && (#[trigger] iv.spends[j]).0 == (
        #[trigger] iv.coins[i]).0 ==> iv.coins[i].1.spent_height == Some(
            iv.spends[j].1.spent_height,
        )
    &&& forall|j: int|
        0 <= j < iv.spends.len() ==> (exists|i: int|
            0 <= i < iv.coins.len() && (#[trigger] iv.coins[i]).0 == (#[trigger] iv.spends[j]).0)
            || spec_get_coins(s, iv.spends[j].0) is None
}

/// A coin row the batch wrote is sound in the committed store.
#[verifier::rlimit(100)]
#[verifier::spinoff_prover]
proof fn lemma_coin_row_batch(s: StoreV, iv: InsertionsV, k: Seq<u8>)
    requires
        store_sorted(s),
        ins_consistent(s, iv),
        batch_last(ins_batch(iv), Cf::Coins, k) is Some,
    ensures
        coin_row_ok(apply_batch(s, ins_batch(iv)), k),
{
    let b = ins_batch(iv);
    let s2 = apply_batch(s, b);
    lemma_get_apply_batch(s, b, Cf::Coins, k);
    lemma_batch_last_is_put(b, Cf::Coins, k);
    let m = choose|m: int|
        0 <= m < b.len() && (#[trigger] b[m]).cf == Cf::Coins && b[m].key == k && b[m].value
            == batch_last(b, Cf::Coins, k)->Some_0;
    lemma_ins_batch_origin(iv, m);
    let (i, j) = choose|i: int, j: int|
        0 <= i < iv.coins.len() && 0 <= j < coin_puts(iv.coins[i]).len() && b[m] == (
        #[trigger] coin_puts(iv.coins[i])[j]);
    let r = iv.coins[i].1;
    assert(j == 0);
    assert(k == iv.coins[i].0);
    crate::codec::lemma_round_trip_coin_record(r);
    lemma_ins_batch_mem_coin(iv, i, 1);
    let m1 = choose|m1: int| 0 <= m1 < b.len() && #[trigger] b[m1] == coin_puts(iv.coins[i])[1];
    lemma_put_implies_last_some(b, m1);
    lemma_get_apply_batch(s, b, Cf::CoinHeightIndex, senc_u32(r.created_height) + k);
    lemma_ins_batch_mem_coin(iv, i, 2);
    let m2 = choose|m2: int| 0 <= m2 < b.len() && #[trigger] b[m2] == coin_puts(iv.coins[i])[2];
    lemma_put_implies_last_some(b, m2);
    lemma_get_apply_batch(s, b, Cf::CoinParentHashIndex, r.coin.parent_coin_id + k);
    match r.spent_height {
        Some(h) => {
            lemma_ins_batch_mem_coin(iv, i, 3);
            let m3 = choose|m3: int|
                0 <= m3 < b.len() && #[trigger] b[m3] == coin_puts(iv.coins[i])[3];
            lemma_put_implies_last_some(b, m3);
            lemma_get_apply_batch(s, b, Cf::CoinHeightIndex, senc_u32(h) + k);
            let js = choose|js: int|
                0 <= js < iv.spends.len() && (#[trigger] iv.spends[js]).0 == iv.coins[i].0;
            lemma_ins_batch_mem_spend(iv, js, 0);
            let ms = choose|ms: int|
                0 <= ms < b.len() && #[trigger] b[ms] == spend_puts(iv.spends[js])[0];
            lemma_put_implies_last_some(b, ms);
            lemma_get_apply_batch(s, b, Cf::CoinSpends, k);
            lemma_batch_last_is_put(b, Cf::CoinSpends, k);
            let mv = choose|mv: int|
                0 <= mv < b.len() && (#[trigger] b[mv]).cf == Cf::CoinSpends && b[mv].key == k
                    && b[mv].value == batch_last(b, Cf::CoinSpends, k)->Some_0;
            lemma_ins_batch_origin(iv, mv);
            let (i2, j2) = choose|i2: int, j2: int|
                0 <= i2 < iv.spends.len() && 0 <= j2 < spend_puts(iv.spends[i2]).len() && b[mv]
                    == (#[trigger] spend_puts(iv.spends[i2])[j2]);
            assert(j2 == 0);
            assert(iv.spends[i2].0 == k);
            assert(iv.coins[i].1.spent_height == Some(iv.spends[i2].1.spent_height));
            crate::codec::lemma_round_trip_coin_spend_record(iv.spends[i2].1);
        },
        None => {},
    }
}

/// A coin row the batch did not touch keeps the rows it had: a batch never
/// deletes, and a batch spend row under this id would come with a coin row.
#[verifier::rlimit(100)]
#[verifier::spinoff_prover]
proof fn lemma_coin_row_old(s: StoreV, iv: InsertionsV, k: Seq<u8>)
    requires
        store_sorted(s),
        inv_coins(s),
        ins_consistent(s, iv),
        batch_last(ins_batch(iv), Cf::Coins, k) is None,
    ensures
        coin_row_ok(apply_batch(s, ins_batch(iv)), k),
{
    let b = ins_batch(iv);
    let s2 = apply_batch(s, b);
    lemma_get_apply_batch(s, b, Cf::Coins, k);
    assert(coin_row_ok(s, k));
    if spec_get_coins(s, k) is Some {
        let v = spec_get_coins(s, k)->Some_0;
        match sdecode_coin_record(v) {
            Some(r) => {
                lemma_get_apply_batch(s, b, Cf::CoinParentHashIndex, r.coin.parent_coin_id + k);
                lemma_get_apply_batch(s, b, Cf::CoinHeightIndex, senc_u32(r.created_height) + k);
                match r.spent_height {
                    Some(h) => {
                        lemma_get_apply_batch(s, b, Cf::CoinHeightIndex, senc_u32(h) + k);
                        lemma_get_apply_batch(s, b, Cf::CoinSpends, k);
                        if batch_last(b, Cf::CoinSpends, k) is Some {
                            lemma_batch_last_is_put(b, Cf::CoinSpends, k);
                            let mv = choose|mv: int|
                                0 <= mv < b.len() && (#[trigger] b[mv]).cf == Cf::CoinSpends
                                    && b[mv].key == k && b[mv].value == batch_last(
                                    b,
                                    Cf::CoinSpends,
                                    k,
                                )->Some_0;
                            lemma_ins_batch_origin(iv, mv);
                            let (i2, j2) = choose|i2: int, j2: int|
                                0 <= i2 < iv.spends.len() && 0 <= j2 < spend_puts(
                                    iv.spends[i2],
                                ).len() && b[mv] == (#[trigger] spend_puts(iv.spends[i2])[j2]);
                            assert(j2 == 0);
                            assert(iv.spends[i2].0 == k);
                            if exists|i3: int|
                                0 <= i3 < iv.coins.len() && (#[trigger] iv.coins[i3]).0 == k {
                                let i3 = choose|i3: int|
                                    0 <= i3 < iv.coins.len() && (#[trigger] iv.coins[i3]).0 == k;
                                lemma_ins_batch_mem_coin(iv, i3, 0);
                                let mc = choose|mc: int|
                                    0 <= mc < b.len() && #[trigger] b[mc] == coin_puts(
                                        iv.coins[i3],
                                    )[0];
                                lemma_put_implies_last_some(b, mc);
                                assert(false);
                            } else {
                                assert(spec_get_coins(s, k) is None);
                                assert(false);
                            }
                        }
                    },
                    None => {},
                }
            },
            None => {},
        }
    }
}

/// The committed store keeps the coin invariant.
pub proof fn lemma_commit_preserves_coins(s: StoreV, iv: InsertionsV)
    requires
        store_sorted(s),
        inv_coins(s),
        ins_consistent(s, iv),
    ensures
        inv_coins(apply_batch(s, ins_batch(iv))),
{
    let b = ins_batch(iv);
    assert forall|k: Seq<u8>| #[trigger] coin_row_ok(apply_batch(s, b), k) by {
        if batch_last(b, Cf::Coins, k) is Some {
            lemma_coin_row_batch(s, iv, k);
        } else {
            lemma_coin_row_old(s, iv, k);
        }
    }
}

/// A block row the batch wrote is sound in the committed store.
#[verifier::rlimit(100)]
#[verifier::spinoff_prover]
proof fn lemma_block_row_batch(s: StoreV, iv: InsertionsV, k: Seq<u8>)
    requires
        store_sorted(s),
        ins_consistent(s, iv),
        batch_last(ins_batch(iv), Cf::Blocks, k) is Some,
    ensures
        block_row_ok(apply_batch(s, ins_batch(iv)), k),
{
    let b = ins_batch(iv);
    let s2 = apply_batch(s, b);
    lemma_get_apply_batch(s, b, Cf::Blocks, k);
    lemma_batch_last_is_put(b, Cf::Blocks, k);
    let m = choose|m: int|
        0 <= m < b.len() && (#[trigger] b[m]).cf == Cf::Blocks && b[m].key == k && b[m].value
            == batch_last(b, Cf::Blocks, k)->Some_0;
    lemma_ins_batch_origin(iv, m);
    let (i, j) = choose|i: int, j: int|
        0 <= i < iv.blocks.len() && 0 <= j < block_puts(iv.blocks[i]).len() && b[m] == (
        #[trigger] block_puts(iv.blocks[i])[j]);
    assert(j == 0);
    let br = iv.blocks[i];
    assert(k == senc_u32(br.height));
    crate::codec::lemma_round_trip_block_record(br);
    lemma_ins_batch_mem_block(iv, i, 1);
    let m1 = choose|m1: int| 0 <= m1 < b.len() && #[trigger] b[m1] == block_puts(iv.blocks[i])[1];
    lemma_put_implies_last_some(b, m1);
    lemma_get_apply_batch(s, b, Cf::BlockHashes, br.header_hash);
    lemma_batch_last_is_put(b, Cf::BlockHashes, br.header_hash);
    let mh = choose|mh: int|
        0 <= mh < b.len() && (#[trigger] b[mh]).cf == Cf::BlockHashes && b[mh].key
            == br.header_hash && b[mh].value == batch_last(b, Cf::BlockHashes, br.header_hash)->Some_0;
    lemma_ins_batch_origin(iv, mh);
    let (i2, j2) = choose|i2: int, j2: int|
        0 <= i2 < iv.blocks.len() && 0 <= j2 < block_puts(iv.blocks[i2]).len() && b[mh] == (
        #[trigger] block_puts(iv.blocks[i2])[j2]);
    assert(j2 == 1);
    assert(iv.blocks[i2].header_hash == br.header_hash);
    if i2 != i {
        assert(false);
    }
}

/// A block row the batch did not touch keeps its hash mapping: the batch's
/// header hashes are fresh, so the hash index row is untouched too.
#[verifier::rlimit(100)]
#[verifier::spinoff_prover]
proof fn lemma_block_row_old(s: StoreV, iv: InsertionsV, k: Seq<u8>)
    requires
        store_sorted(s),
        inv_blocks(s),
        ins_consistent(s, iv),
        batch_last(ins_batch(iv), Cf::Blocks, k) is None,
    ensures
        block_row_ok(apply_batch(s, ins_batch(iv)), k),
{
    let b = ins_batch(iv);
    let s2 = apply_batch(s, b);
    lemma_get_apply_batch(s, b, Cf::Blocks, k);
    assert(block_row_ok(s, k));
    if spec_get_blocks(s, k) is Some {
        let v = spec_get_blocks(s, k)->Some_0;
        match sdecode_block_record(v) {
            Some(br) => {
                lemma_get_apply_batch(s, b, Cf::BlockHashes, br.header_hash);
                if batch_last(b, Cf::BlockHashes, br.header_hash) is Some {
                    lemma_batch_last_is_put(b, Cf::BlockHashes, br.header_hash);
                    let mh = choose|mh: int|
                        0 <= mh < b.len() && (#[trigger] b[mh]).cf == Cf::BlockHashes && b[mh].key
                            == br.header_hash && b[mh].value == batch_last(
                            b,
                            Cf::BlockHashes,
                            br.header_hash,
                        )->Some_0;
                    lemma_ins_batch_origin(iv, mh);
                    let (i2, j2) = choose|i2: int, j2: int|
                        0 <= i2 < iv.blocks.len() && 0 <= j2 < block_puts(iv.blocks[i2]).len()
                            && b[mh] == (#[trigger] block_puts(iv.blocks[i2])[j2]);
                    assert(j2 == 1);
                    assert(store_get(s, Cf::BlockHashes, iv.blocks[i2].header_hash) is None);
                    assert(false);
                }
            },
            None => {},
        }
    }
}

/// The committed store keeps the block invariant.
pub proof fn lemma_commit_preserves_blocks(s: StoreV, iv: InsertionsV)
    requires
        store_sorted(s),
        inv_blocks(s),
        ins_consistent(s, iv),
    ensures
        inv_blocks(apply_batch(s, ins_batch(iv))),
{
    let b = ins_batch(iv);
    assert forall|k: Seq<u8>| #[trigger] block_row_ok(apply_batch(s, b), k) by {
        if batch_last(b, Cf::Blocks, k) is Some {
            lemma_block_row_batch(s, iv, k);
        } else {
            lemma_block_row_old(s, iv, k);
        }
    }
}

} // verus!
