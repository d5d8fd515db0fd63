//! Classification tests against the real virtual machine: a standard spend
//! whose puzzle is the identity program, so its solution is its condition
//! list.

use chia_protocol::Bytes32 as ChiaBytes32;
use chia_puzzle_types::singleton::SingletonStruct;
use chia_puzzle_types::Memos;
use chia_sdk_types::conditions::CreateCoin;
use chia_sdk_types::Condition;
use clvm_traits::ToClvm;
use clvmr::serde::node_to_bytes;
use clvmr::Allocator;

use xchdev::classify::{classify_spend, SINGLETON_LAUNCHER_MOD};
use xchdev::types::{Bytes32, Coin, CoinKind};
use xchdev::vm::coin_id;

fn b32(x: u8) -> Bytes32 {
    Bytes32 { bytes: vec![x; 32] }
}

#[test]
fn coin_id_matches_the_network_digest() {
    let parent = b32(1);
    let ph = b32(2);
    let id = coin_id(&parent, &ph, 1000);
    let chia_coin = chia_protocol::Coin::new(
        ChiaBytes32::new([1; 32]),
        ChiaBytes32::new([2; 32]),
        1000,
    );
    assert_eq!(id.bytes, chia_coin.coin_id().as_ref().to_vec());
}

#[test]
fn launcher_module_hash_matches_the_puzzle_library() {
    let s = SingletonStruct::new(ChiaBytes32::new([5; 32]));
    assert_eq!(s.launcher_puzzle_hash.as_ref(), &SINGLETON_LAUNCHER_MOD);
}

#[test]
fn standard_spend_yields_hinted_unknown_child() {
    let mut a = Allocator::new();

    // the identity program: running it returns the solution itself
    let puzzle_node = a.one();

    let hint = ChiaBytes32::new([7; 32]);
    let note: &[u8] = b"note";
    let memos_node = (hint, (note, ())).to_clvm(&mut a).unwrap();
    let expected_memos = node_to_bytes(&a, memos_node).unwrap();

    let child_ph = ChiaBytes32::new([9; 32]);
    let conditions: Vec<Condition<clvmr::NodePtr>> =
        vec![Condition::CreateCoin(CreateCoin::new(child_ph, 1000, Memos::Some(memos_node)))];
    let solution = conditions.to_clvm(&mut a).unwrap();

    let spent = Coin { parent_coin_id: b32(3), puzzle_hash: b32(4), amount: 2000 };
    let out = classify_spend(&mut a, 200, &spent, puzzle_node, solution).unwrap();

    assert_eq!(out.update.spend.spent_height, 200);
    assert_eq!(out.update.spend.coin, spent);
    assert!(matches!(out.update.kind, CoinKind::Unknown));

    assert_eq!(out.additions.len(), 1);
    let (child_id, child) = &out.additions[0];
    let spent_id = coin_id(&spent.parent_coin_id, &spent.puzzle_hash, spent.amount);
    assert_eq!(child.coin.parent_coin_id, spent_id);
    assert_eq!(child.coin.puzzle_hash.bytes, vec![9; 32]);
    assert_eq!(child.coin.amount, 1000);
    assert_eq!(child.created_height, 200);
    assert_eq!(child.spent_height, None);
    assert_eq!(child.hint.as_ref().unwrap().bytes, vec![7; 32]);
    assert_eq!(child.memos.as_ref().unwrap(), &expected_memos);
    assert!(matches!(child.kind, CoinKind::Unknown));
    let expected_child_id =
        coin_id(&child.coin.parent_coin_id, &child.coin.puzzle_hash, child.coin.amount);
    assert_eq!(child_id.bytes, expected_child_id.bytes);
}

#[test]
fn spend_without_create_coins_adds_nothing() {
    let mut a = Allocator::new();
    let puzzle_node = a.one();
    let conditions: Vec<Condition<clvmr::NodePtr>> = vec![];
    let solution = conditions.to_clvm(&mut a).unwrap();
    let spent = Coin { parent_coin_id: b32(3), puzzle_hash: b32(4), amount: 1 };
    let out = classify_spend(&mut a, 7, &spent, puzzle_node, solution).unwrap();
    assert_eq!(out.additions.len(), 0);
    assert_eq!(out.tails.len(), 0);
}
