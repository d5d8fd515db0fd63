//! Store, writer and query tests: atomic commits, idempotence, and the
//! boundary behaviors of the range and index scans.

use xchdev::classify::{parse_block, BlockData, ParsedBlock};
use xchdev::queries::{BlocksRequest, Database};
use xchdev::sync::{build_insertions, next_action, SyncAction};
use xchdev::types::{BlockRecord, Bytes32, Coin, CoinKind, CoinRecord, CoinSpendRecord};
use xchdev::writer::Insertions;

fn b32(x: u8) -> Bytes32 {
    Bytes32 { bytes: vec![x; 32] }
}

fn coin(p: u8, q: u8, amount: u64) -> Coin {
    Coin { parent_coin_id: b32(p), puzzle_hash: b32(q), amount }
}

fn block_record(height: u32, hash: u8) -> BlockRecord {
    BlockRecord {
        height,
        header_hash: b32(hash),
        weight: height as u128,
        total_iters: height as u128,
        farmer_puzzle_hash: b32(1),
        pool_puzzle_hash: None,
        prev_block_hash: b32(2),
        transaction_info: None,
    }
}

fn coin_record(c: Coin, created: u32, spent: Option<u32>) -> CoinRecord {
    CoinRecord {
        coin: c,
        created_height: created,
        spent_height: spent,
        hint: None,
        memos: None,
        kind: CoinKind::Unknown,
        p2_puzzle: None,
    }
}

fn simple_insertions() -> Insertions {
    let mut ins = Insertions::new();
    ins.push_block(block_record(10, 110));
    ins.push_block(block_record(11, 111));
    ins.push_coin(b32(70), coin_record(coin(60, 61, 5), 10, None));
    ins.push_coin(b32(71), coin_record(coin(60, 62, 7), 10, Some(11)));
    ins.push_spend(
        b32(71),
        CoinSpendRecord {
            coin: coin(60, 62, 7),
            puzzle_reveal: vec![1],
            solution: vec![2],
            spent_height: 11,
        },
    );
    ins.push_tail(b32(90), vec![9, 9, 9]);
    ins
}

#[test]
fn empty_database_state() {
    let db = Database::new();
    assert_eq!(db.state().unwrap().peak_height, 0);
    assert!(db.peak().unwrap().is_none());
    assert!(db.block(0).unwrap().is_none());
    assert!(db.coin(&b32(1)).unwrap().is_none());
    assert!(db.coin_spend(&b32(1)).unwrap().is_none());
    assert!(db.block_height(&b32(1)).unwrap().is_none());
}

#[test]
fn commit_and_read_back() {
    let mut db = Database::new();
    let ins = simple_insertions();
    db.commit(&ins);

    assert_eq!(db.state().unwrap().peak_height, 11);
    let (peak_height, peak_block) = db.peak().unwrap().unwrap();
    assert_eq!(peak_height, 11);
    assert_eq!(peak_block, block_record(11, 111));

    assert_eq!(db.block(10).unwrap().unwrap(), block_record(10, 110));
    assert_eq!(db.block_height(&b32(110)).unwrap(), Some(10));
    assert_eq!(db.block_height(&b32(111)).unwrap(), Some(11));

    let c = db.coin(&b32(70)).unwrap().unwrap();
    assert_eq!(c.coin, coin(60, 61, 5));
    assert_eq!(c.spent_height, None);

    let folded = db.coin(&b32(71)).unwrap().unwrap();
    assert_eq!(folded.spent_height, Some(11));

    let spend = db.coin_spend(&b32(71)).unwrap().unwrap();
    assert_eq!(spend.spent_height, 11);

    assert_eq!(db.tail(&b32(90)), Some(vec![9, 9, 9]));
}

#[test]
fn commit_twice_is_idempotent() {
    let mut db1 = Database::new();
    let mut db2 = Database::new();
    let ins = simple_insertions();
    db1.commit(&ins);
    db2.commit(&ins);
    db2.commit(&ins);
    assert_eq!(db1.store.blocks.entries, db2.store.blocks.entries);
    assert_eq!(db1.store.block_hashes.entries, db2.store.block_hashes.entries);
    assert_eq!(db1.store.coins.entries, db2.store.coins.entries);
    assert_eq!(db1.store.coin_height_index.entries, db2.store.coin_height_index.entries);
    assert_eq!(
        db1.store.coin_parent_hash_index.entries,
        db2.store.coin_parent_hash_index.entries
    );
    assert_eq!(db1.store.coin_spends.entries, db2.store.coin_spends.entries);
    assert_eq!(db1.store.tails.entries, db2.store.tails.entries);
}

#[test]
fn blocks_query_limit_zero_is_empty() {
    let mut db = Database::new();
    db.commit(&simple_insertions());
    let req = BlocksRequest { limit: 0, start: None, reverse: false };
    assert_eq!(db.blocks(&req).unwrap().len(), 0);
    let req = BlocksRequest { limit: 0, start: None, reverse: true };
    assert_eq!(db.blocks(&req).unwrap().len(), 0);
}

#[test]
fn blocks_query_reverse_walks_down_from_peak() {
    let mut db = Database::new();
    let mut ins = Insertions::new();
    for h in 0..5u32 {
        ins.push_block(block_record(h, 100 + h as u8));
    }
    db.commit(&ins);
    let req = BlocksRequest { limit: 3, start: None, reverse: true };
    let list = db.blocks(&req).unwrap();
    let heights: Vec<u32> = list.iter().map(|(h, _)| *h).collect();
    assert_eq!(heights, vec![4, 3, 2]);
}

#[test]
fn blocks_query_forward_from_start() {
    let mut db = Database::new();
    let mut ins = Insertions::new();
    for h in 0..5u32 {
        ins.push_block(block_record(h, 100 + h as u8));
    }
    db.commit(&ins);
    let req = BlocksRequest { limit: 10, start: Some(2), reverse: false };
    let list = db.blocks(&req).unwrap();
    let heights: Vec<u32> = list.iter().map(|(h, _)| *h).collect();
    assert_eq!(heights, vec![2, 3, 4]);
}

#[test]
fn coins_by_block_unions_additions_and_spends() {
    let mut db = Database::new();
    let mut ins = Insertions::new();
    ins.push_block(block_record(5, 105));
    ins.push_block(block_record(6, 106));
    // created at 5, spent at 6
    ins.push_coin(b32(80), coin_record(coin(1, 2, 10), 5, Some(6)));
    // created at 6
    ins.push_coin(b32(81), coin_record(coin(1, 3, 11), 6, None));
    ins.push_spend(
        b32(80),
        CoinSpendRecord {
            coin: coin(1, 2, 10),
            puzzle_reveal: vec![],
            solution: vec![],
            spent_height: 6,
        },
    );
    db.commit(&ins);

    let at6 = db.coins_by_block(&b32(106)).unwrap().unwrap();
    let mut ids: Vec<Vec<u8>> = at6.iter().map(|(id, _)| id.bytes.clone()).collect();
    ids.sort();
    assert_eq!(ids, vec![b32(80).bytes, b32(81).bytes]);

    let at5 = db.coins_by_block(&b32(105)).unwrap().unwrap();
    assert_eq!(at5.len(), 1);
    assert_eq!(at5[0].0, b32(80));

    assert!(db.coins_by_block(&b32(200)).unwrap().is_none());
}

#[test]
fn spends_by_block_filters_by_spent_height() {
    let mut db = Database::new();
    let mut ins = Insertions::new();
    ins.push_block(block_record(5, 105));
    ins.push_block(block_record(6, 106));
    ins.push_coin(b32(80), coin_record(coin(1, 2, 10), 5, Some(6)));
    ins.push_coin(b32(81), coin_record(coin(1, 3, 11), 6, None));
    ins.push_spend(
        b32(80),
        CoinSpendRecord {
            coin: coin(1, 2, 10),
            puzzle_reveal: vec![7],
            solution: vec![8],
            spent_height: 6,
        },
    );
    db.commit(&ins);

    let at6 = db.spends_by_block(&b32(106)).unwrap().unwrap();
    assert_eq!(at6.len(), 1);
    assert_eq!(at6[0].0, b32(80));
    assert_eq!(at6[0].1.puzzle_reveal, vec![7]);

    let at5 = db.spends_by_block(&b32(105)).unwrap().unwrap();
    assert_eq!(at5.len(), 0);
}

#[test]
fn coins_by_parent_lists_children_once() {
    let mut db = Database::new();
    let mut ins = Insertions::new();
    ins.push_block(block_record(1, 101));
    ins.push_coin(b32(80), coin_record(coin(50, 2, 10), 1, None));
    ins.push_coin(b32(81), coin_record(coin(50, 3, 11), 1, None));
    ins.push_coin(b32(82), coin_record(coin(51, 3, 12), 1, None));
    db.commit(&ins);

    let mut children: Vec<Vec<u8>> =
        db.coins_by_parent(&b32(50)).unwrap().iter().map(|id| id.bytes.clone()).collect();
    children.sort();
    assert_eq!(children, vec![b32(80).bytes, b32(81).bytes]);
    assert_eq!(db.coins_by_parent(&b32(52)).unwrap().len(), 0);
}

#[test]
fn reward_block_end_to_end() {
    // an empty store, one non-transaction block with its reward coins
    let bd = BlockData {
        height: 100,
        header_hash: b32(200),
        weight: 7,
        total_iters: 9,
        farmer_puzzle_hash: b32(201),
        pool_puzzle_hash: None,
        prev_block_hash: b32(202),
        transaction_info: None,
        reward_coins: vec![coin(210, 211, 1_750_000_000_000), coin(212, 213, 250_000_000_000)],
        generator: None,
        generator_refs: vec![],
    };
    let pb: ParsedBlock = parse_block(&bd, &vec![]).unwrap();
    assert_eq!(pb.additions.len(), 2);
    assert!(matches!(pb.additions[0].1.kind, CoinKind::Reward));
    assert!(matches!(pb.additions[1].1.kind, CoinKind::Reward));
    assert_eq!(pb.updates.len(), 0);

    let mut db = Database::new();
    let ins = build_insertions(&db, vec![pb]).unwrap();
    db.commit(&ins);

    assert_eq!(db.state().unwrap().peak_height, 100);
    let block = db.block(100).unwrap().unwrap();
    assert_eq!(block.header_hash, b32(200));
    assert!(block.transaction_info.is_none());

    let coins = db.coins_by_block(&b32(200)).unwrap().unwrap();
    assert_eq!(coins.len(), 2);
    for (_, rec) in &coins {
        assert!(matches!(rec.kind, CoinKind::Reward));
        assert_eq!(rec.created_height, 100);
        assert_eq!(rec.spent_height, None);
    }
    let spends = db.spends_by_block(&b32(200)).unwrap().unwrap();
    assert_eq!(spends.len(), 0);
}

#[test]
fn resume_height_follows_peak() {
    match next_action(None, 100, 10, 0) {
        SyncAction::Fetch { start, count } => {
            assert_eq!(start, 0);
            assert_eq!(count, 10);
        },
        SyncAction::Wait => panic!("expected a fetch"),
    }
    match next_action(Some(41), 100, 10, 0) {
        SyncAction::Fetch { start, count } => {
            assert_eq!(start, 42);
            assert_eq!(count, 10);
        },
        SyncAction::Wait => panic!("expected a fetch"),
    }
    assert!(matches!(next_action(Some(99), 100, 10, 0), SyncAction::Wait));
    assert!(matches!(next_action(Some(120), 100, 10, 0), SyncAction::Wait));
}

#[test]
fn config_defaults() {
    let c = xchdev::config::Config::default();
    assert_eq!(c.port, 3000);
    assert_eq!(c.batch_size, 1000);
    assert_eq!(c.db_path, ".xchdev/db");
    assert_eq!(c.blockchain_db_path, "db/blockchain_v2_mainnet.sqlite");
    assert_eq!(c.cert_path, "config/ssl/daemon/private_daemon.crt");
    assert_eq!(c.key_path, "config/ssl/daemon/private_daemon.key");
    assert_eq!(xchdev::config::default_limit(), 50);
}
