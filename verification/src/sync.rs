//! The sync scheduler's decisions, and the batch builder that merges a
//! window of replayed blocks into one `Insertions` value.
//!
//! The loop itself — fetching blobs, waiting on the upstream store — is
//! outside work; what is decided here is which window to fetch next and how
//! a window's outputs merge: a coin created and spent in the same window is
//! written once, with both heights and the refined classification.

use vstd::prelude::*;

use crate::classify::ParsedBlock;
use crate::queries::Database;
use crate::store::{store_get, Cf};
use crate::types::{BlockRecord, Bytes32, CoinRecord, Error};
use crate::vm;
use crate::vm::coin_id_of;
use crate::writer::Insertions;

verus! {

/// What the scheduler does next: pull a window of heights, or wait at the
/// peak.
pub enum SyncAction {
    Fetch { start: u32, count: u32 },
    Wait,
}

/// The next window to fetch: resume one past the local peak (or at the
/// genesis start with an empty store), while the upstream peak is ahead.
pub fn next_action(
    local_peak: Option<u32>,
    upstream_peak: u32,
    batch_size: u32,
    genesis_start: u32,
) -> (r: SyncAction)
    ensures
        match r {
            SyncAction::Fetch { start, count } => {
                &&& start == (match local_peak {
                    Some(h) => h + 1,
                    None => genesis_start as int,
                })
                &&& count == batch_size
                &&& start < upstream_peak
                &&& batch_size > 0
            },
            SyncAction::Wait => batch_size == 0 || (match local_peak {
                Some(h) => h as int + 1 >= upstream_peak,
                None => genesis_start >= upstream_peak,
            }),
        },
{
    if batch_size == 0 {
        return SyncAction::Wait;
    }
    let start: u32 = match local_peak {
        Some(h) => {
            if h == u32::MAX {
                return SyncAction::Wait;
            }
            h + 1
        },
        None => genesis_start,
    };
    if start < upstream_peak {
        SyncAction::Fetch { start, count: batch_size }
    } else {
        SyncAction::Wait
    }
}

/// Insert a created coin, replacing an earlier record under the same id.
fn upsert_created(created: &mut Vec<(Bytes32, CoinRecord)>, id: Bytes32, rec: CoinRecord)
    requires
        forall|j: int|
            0 <= j < old(created)@.len() ==> (#[trigger] old(created)@[j]).1.wf()
                && old(created)@[j].0@.len() == 32 && old(created)@[j].0@ == coin_id_of(
                old(created)@[j].1.coin.parent_coin_id@,
                old(created)@[j].1.coin.puzzle_hash@,
                old(created)@[j].1.coin.amount,
            ),
        rec.wf(),
        id@.len() == 32,
        id@ == coin_id_of(rec.coin.parent_coin_id@, rec.coin.puzzle_hash@, rec.coin.amount),
    ensures
        forall|j: int|
            0 <= j < final(created)@.len() ==> (#[trigger] final(created)@[j]).1.wf()
                && final(created)@[j].0@.len() == 32 && final(created)@[j].0@ == coin_id_of(
                final(created)@[j].1.coin.parent_coin_id@,
                final(created)@[j].1.coin.puzzle_hash@,
                final(created)@[j].1.coin.amount,
            ),
{
    let n: usize = created.len();
    let mut i: usize = 0;
    while i < n
        invariant
            n == created@.len(),
            i <= n,
            id@.len() == 32,
            rec.wf(),
            id@ == coin_id_of(rec.coin.parent_coin_id@, rec.coin.puzzle_hash@, rec.coin.amount),
            forall|j: int|
                0 <= j < created@.len() ==> (#[trigger] created@[j]).1.wf()
                    && created@[j].0@.len() == 32 && created@[j].0@ == coin_id_of(
                    created@[j].1.coin.parent_coin_id@,
                    created@[j].1.coin.puzzle_hash@,
                    created@[j].1.coin.amount,
                ),
        decreases n - i,
    {
        if created[i].0.eq_to(&id) {
            created[i] = (id, rec);
            return;
        }
        i += 1;
    }
    created.push((id, rec));
}

/// Merge a window of replayed blocks into one `Insertions` value, folding a
/// spend into its same-window addition, and refreshing the stored record of
/// a coin spent from an earlier window. The blocks of the result are
/// exactly the input block records, in order; every coin and spend entry is
/// keyed by the digest of its own coin triple; a stored row that does not
/// decode is the only failure.
pub fn build_insertions(db: &Database, parsed: Vec<ParsedBlock>) -> (r: Result<Insertions, Error>)
    requires
        db.wf(),
        forall|i: int| 0 <= i < parsed@.len() ==> (#[trigger] parsed@[i]).wf(),
    ensures
        r matches Ok(ins) ==> {
            &&& ins.wf()
            &&& ins@.blocks == parsed@.map_values(|pb: ParsedBlock| pb.block_record@)
            &&& forall|j: int|
                0 <= j < ins@.coins.len() ==> (#[trigger] ins@.coins[j]).0 == coin_id_of(
                    ins@.coins[j].1.coin.parent_coin_id,
                    ins@.coins[j].1.coin.puzzle_hash,
                    ins@.coins[j].1.coin.amount,
                )
            &&& forall|j: int|
                0 <= j < ins@.spends.len() ==> (#[trigger] ins@.spends[j]).0 == coin_id_of(
                    ins@.spends[j].1.coin.parent_coin_id,
                    ins@.spends[j].1.coin.puzzle_hash,
                    ins@.spends[j].1.coin.amount,
                )
        },
        r matches Err(e) ==> e == Error::Corrupt && exists|k: Seq<u8>|
            match #[trigger] store_get(db@, Cf::Coins, k) {
                Some(v) => crate::codec::sdecode_coin_record(v) is None,
                None => false,
            },
{
    let ghost fb = |pb: ParsedBlock| pb.block_record@;
    let ghost coins_keyed = |ins: Insertions|
        forall|j: int|
            0 <= j < ins@.coins.len() ==> (#[trigger] ins@.coins[j]).0 == coin_id_of(
                ins@.coins[j].1.coin.parent_coin_id,
                ins@.coins[j].1.coin.puzzle_hash,
                ins@.coins[j].1.coin.amount,
            );
    let ghost spends_keyed = |ins: Insertions|
        forall|j: int|
            0 <= j < ins@.spends.len() ==> (#[trigger] ins@.spends[j]).0 == coin_id_of(
                ins@.spends[j].1.coin.parent_coin_id,
                ins@.spends[j].1.coin.puzzle_hash,
                ins@.spends[j].1.coin.amount,
            );
    let mut ins = Insertions::new();
    let mut created: Vec<(Bytes32, CoinRecord)> = Vec::new();
    let ghost parsedv = parsed@;
    let mut parsed = parsed;
    let mut bi: usize = 0;
    let nb: usize = parsed.len();
    proof {
        assert(ins@.blocks =~= parsedv.take(0).map_values(fb));
    }
    while parsed.len() > 0
        invariant
            db.wf(),
            bi + parsed@.len() == nb,
            nb == parsedv.len(),
            forall|j: int| 0 <= j < parsed@.len() ==> (#[trigger] parsed@[j]) == parsedv[bi + j],
            forall|i: int| 0 <= i < parsedv.len() ==> (#[trigger] parsedv[i]).wf(),
            ins.wf(),
            fb == (|pb: ParsedBlock| pb.block_record@),
            coins_keyed == (|ins: Insertions|
                forall|j: int|
                    0 <= j < ins@.coins.len() ==> (#[trigger] ins@.coins[j]).0 == coin_id_of(
                        ins@.coins[j].1.coin.parent_coin_id,
                        ins@.coins[j].1.coin.puzzle_hash,
                        ins@.coins[j].1.coin.amount,
                    )),
            spends_keyed == (|ins: Insertions|
                forall|j: int|
                    0 <= j < ins@.spends.len() ==> (#[trigger] ins@.spends[j]).0 == coin_id_of(
                        ins@.spends[j].1.coin.parent_coin_id,
                        ins@.spends[j].1.coin.puzzle_hash,
                        ins@.spends[j].1.coin.amount,
                    )),
            ins@.blocks == parsedv.take(bi as int).map_values(fb),
            coins_keyed(ins),
            spends_keyed(ins),
            forall|j: int|
                0 <= j < created@.len() ==> (#[trigger] created@[j]).1.wf()
                    && created@[j].0@.len() == 32 && created@[j].0@ == coin_id_of(
                    created@[j].1.coin.parent_coin_id@,
                    created@[j].1.coin.puzzle_hash@,
                    created@[j].1.coin.amount,
                ),
        decreases parsed@.len(),
    {
        let block = parsed.remove(0);
        proof {
            assert(block == parsedv[bi as int]);
        }
        let ghost blocks0 = ins@.blocks;
        ins.push_block(block.block_record);
        proof {
            assert(parsedv.take(bi as int + 1).map_values(fb) =~= parsedv.take(bi as int)
                .map_values(fb).push(parsedv[bi as int].block_record@));
        }

        let mut additions = block.additions;
        while additions.len() > 0
            invariant
                forall|j: int|
                    0 <= j < additions@.len() ==> (#[trigger] additions@[j]).1.wf()
                        && additions@[j].0@.len() == 32 && additions@[j].0@ == coin_id_of(
                        additions@[j].1.coin.parent_coin_id@,
                        additions@[j].1.coin.puzzle_hash@,
                        additions@[j].1.coin.amount,
                    ),
                forall|j: int|
                    0 <= j < created@.len() ==> (#[trigger] created@[j]).1.wf()
                        && created@[j].0@.len() == 32 && created@[j].0@ == coin_id_of(
                        created@[j].1.coin.parent_coin_id@,
                        created@[j].1.coin.puzzle_hash@,
                        created@[j].1.coin.amount,
                    ),
            decreases additions@.len(),
        {
            let (id, rec) = additions.remove(0);
            upsert_created(&mut created, id, rec);
        }

        let mut updates = block.updates;
        while updates.len() > 0
            invariant
                db.wf(),
                ins.wf(),
                coins_keyed == (|ins: Insertions|
                    forall|j: int|
                        0 <= j < ins@.coins.len() ==> (#[trigger] ins@.coins[j]).0 == coin_id_of(
                            ins@.coins[j].1.coin.parent_coin_id,
                            ins@.coins[j].1.coin.puzzle_hash,
                            ins@.coins[j].1.coin.amount,
                        )),
                spends_keyed == (|ins: Insertions|
                    forall|j: int|
                        0 <= j < ins@.spends.len() ==> (#[trigger] ins@.spends[j]).0 == coin_id_of(
                            ins@.spends[j].1.coin.parent_coin_id,
                            ins@.spends[j].1.coin.puzzle_hash,
                            ins@.spends[j].1.coin.amount,
                        )),
                ins@.blocks == blocks0.push(parsedv[bi as int].block_record@),
                blocks0 == parsedv.take(bi as int).map_values(fb),
                fb == (|pb: ParsedBlock| pb.block_record@),
                coins_keyed(ins),
                spends_keyed(ins),
                forall|j: int| 0 <= j < updates@.len() ==> (#[trigger] updates@[j]).wf(),
                forall|j: int|
                    0 <= j < created@.len() ==> (#[trigger] created@[j]).1.wf()
                        && created@[j].0@.len() == 32 && created@[j].0@ == coin_id_of(
                        created@[j].1.coin.parent_coin_id@,
                        created@[j].1.coin.puzzle_hash@,
                        created@[j].1.coin.amount,
                    ),
            decreases updates@.len(),
        {
            let upd = updates.remove(0);
            let id = vm::coin_id(
                &upd.spend.coin.parent_coin_id,
                &upd.spend.coin.puzzle_hash,
                upd.spend.coin.amount,
            );
            let mut found: Option<usize> = None;
            let nc: usize = created.len();
            let mut ci: usize = 0;
            while ci < nc
                invariant
                    nc == created@.len(),
                    ci <= nc,
                    found matches Some(fi) ==> fi < created@.len(),
                decreases nc - ci,
            {
                if created[ci].0.eq_to(&id) {
                    found = Some(ci);
                    break;
                }
                ci += 1;
            }
            match found {
                Some(fi) => {
                    proof {
                        assert(created@[fi as int].0@ == coin_id_of(
                            created@[fi as int].1.coin.parent_coin_id@,
                            created@[fi as int].1.coin.puzzle_hash@,
                            created@[fi as int].1.coin.amount,
                        ));
                    }
                    let slot = &mut created[fi].1;
                    upd.apply(slot);
                    proof {
                        assert(created@[fi as int].1.wf());
                    }
                },
                None => {
                    match db.coin(&id) {
                        Ok(Some(mut rec)) => {
                            // a stored row whose recorded triple does not
                            // match the spend's is left alone: its digest
                            // cannot be trusted
                            let same = rec.coin.parent_coin_id.eq_to(
                                &upd.spend.coin.parent_coin_id,
                            ) && rec.coin.puzzle_hash.eq_to(&upd.spend.coin.puzzle_hash)
                                && rec.coin.amount == upd.spend.coin.amount;
                            if same {
                                upd.apply(&mut rec);
                                ins.push_coin(id.clone_of(), rec);
                            }
                        },
                        Ok(None) => {},
                        Err(e) => {
                            return Err(e);
                        },
                    }
                },
            }
            ins.push_spend(id, upd.spend);
        }

        let mut tails = block.tails;
        while tails.len() > 0
            invariant
                ins.wf(),
                coins_keyed == (|ins: Insertions|
                    forall|j: int|
                        0 <= j < ins@.coins.len() ==> (#[trigger] ins@.coins[j]).0 == coin_id_of(
                            ins@.coins[j].1.coin.parent_coin_id,
                            ins@.coins[j].1.coin.puzzle_hash,
                            ins@.coins[j].1.coin.amount,
                        )),
                spends_keyed == (|ins: Insertions|
                    forall|j: int|
                        0 <= j < ins@.spends.len() ==> (#[trigger] ins@.spends[j]).0 == coin_id_of(
                            ins@.spends[j].1.coin.parent_coin_id,
                            ins@.spends[j].1.coin.puzzle_hash,
                            ins@.spends[j].1.coin.amount,
                        )),
                ins@.blocks == blocks0.push(parsedv[bi as int].block_record@),
                blocks0 == parsedv.take(bi as int).map_values(fb),
                fb == (|pb: ParsedBlock| pb.block_record@),
                coins_keyed(ins),
                spends_keyed(ins),
                forall|j: int| 0 <= j < tails@.len() ==> (#[trigger] tails@[j]).0@.len() == 32,
            decreases tails@.len(),
        {
            let t = tails.remove(0);
            let (tid, tbytes) = t;
            ins.push_tail(tid, tbytes);
        }
        bi += 1;
    }

    let mut created = created;
    while created.len() > 0
        invariant
            ins.wf(),
            coins_keyed == (|ins: Insertions|
                forall|j: int|
                    0 <= j < ins@.coins.len() ==> (#[trigger] ins@.coins[j]).0 == coin_id_of(
                        ins@.coins[j].1.coin.parent_coin_id,
                        ins@.coins[j].1.coin.puzzle_hash,
                        ins@.coins[j].1.coin.amount,
                    )),
            spends_keyed == (|ins: Insertions|
                forall|j: int|
                    0 <= j < ins@.spends.len() ==> (#[trigger] ins@.spends[j]).0 == coin_id_of(
                        ins@.spends[j].1.coin.parent_coin_id,
                        ins@.spends[j].1.coin.puzzle_hash,
                        ins@.spends[j].1.coin.amount,
                    )),
            ins@.blocks == parsedv.map_values(fb),
            fb == (|pb: ParsedBlock| pb.block_record@),
            coins_keyed(ins),
            spends_keyed(ins),
            forall|j: int|
                0 <= j < created@.len() ==> (#[trigger] created@[j]).1.wf()
                    && created@[j].0@.len() == 32 && created@[j].0@ == coin_id_of(
                    created@[j].1.coin.parent_coin_id@,
                    created@[j].1.coin.puzzle_hash@,
                    created@[j].1.coin.amount,
                ),
        decreases created@.len(),
    {
        let c = created.remove(0);
        let (cid, crec) = c;
        ins.push_coin(cid, crec);
    }
    proof {
        assert(coins_keyed(ins));
        assert(spends_keyed(ins));
    }
    Ok(ins)
}

} // verus!