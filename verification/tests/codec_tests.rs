//! Round-trip and rejection tests for the record codec.

use xchdev::codec::{
    decode_block_record, decode_coin_record, decode_coin_spend_record, encode_block_record,
    encode_coin_record, encode_coin_spend_record,
};
use xchdev::types::{
    BlockRecord, Bytes32, CatLineageProof, Coin, CoinKind, CoinRecord, CoinSpendRecord, P2Puzzle,
    SingletonLineageProof, TransactionInfo,
};

fn b32(x: u8) -> Bytes32 {
    Bytes32 { bytes: vec![x; 32] }
}

fn coin(p: u8, q: u8, amount: u64) -> Coin {
    Coin { parent_coin_id: b32(p), puzzle_hash: b32(q), amount }
}

fn base_record(kind: CoinKind, p2: Option<P2Puzzle>) -> CoinRecord {
    CoinRecord {
        coin: coin(1, 2, 1000),
        created_height: 100,
        spent_height: Some(200),
        hint: Some(b32(3)),
        memos: Some(vec![0xde, 0xad, 0xbe, 0xef]),
        kind,
        p2_puzzle: p2,
    }
}

#[test]
fn round_trip_coin_record_unknown() {
    let r = base_record(CoinKind::Unknown, None);
    let bytes = encode_coin_record(&r);
    assert_eq!(decode_coin_record(&bytes), Some(r));
}

#[test]
fn round_trip_coin_record_reward() {
    let r = CoinRecord {
        coin: coin(9, 8, 1_750_000_000_000),
        created_height: 42,
        spent_height: None,
        hint: None,
        memos: None,
        kind: CoinKind::Reward,
        p2_puzzle: None,
    };
    let bytes = encode_coin_record(&r);
    assert_eq!(decode_coin_record(&bytes), Some(r));
}

#[test]
fn round_trip_coin_record_cat_with_clawback() {
    let kind = CoinKind::Cat {
        asset_id: b32(7),
        hidden_puzzle_hash: Some(b32(8)),
        p2_puzzle_hash: b32(9),
        lineage_proof: Some(CatLineageProof {
            parent_parent_coin_id: b32(10),
            parent_inner_puzzle_hash: b32(11),
            parent_amount: 5,
        }),
    };
    let p2 = P2Puzzle::ClawbackV2 {
        sender_puzzle_hash: b32(12),
        receiver_puzzle_hash: b32(13),
        seconds: 3600,
        amount: 1000,
        hinted: true,
    };
    let r = base_record(kind, Some(p2));
    let bytes = encode_coin_record(&r);
    assert_eq!(decode_coin_record(&bytes), Some(r));
}

#[test]
fn round_trip_coin_record_singleton() {
    let kind = CoinKind::Singleton {
        launcher_id: b32(21),
        lineage_proof: SingletonLineageProof {
            parent_parent_coin_id: b32(22),
            parent_inner_puzzle_hash: None,
            parent_amount: 1,
        },
    };
    let r = base_record(kind, None);
    let bytes = encode_coin_record(&r);
    assert_eq!(decode_coin_record(&bytes), Some(r));
}

#[test]
fn round_trip_coin_record_nft() {
    let kind = CoinKind::Nft {
        launcher_id: b32(31),
        metadata: vec![1, 2, 3, 4, 5],
        metadata_updater_puzzle_hash: b32(32),
        current_owner: Some(b32(33)),
        royalty_puzzle_hash: b32(34),
        royalty_basis_points: 300,
        p2_puzzle_hash: b32(35),
        lineage_proof: SingletonLineageProof {
            parent_parent_coin_id: b32(36),
            parent_inner_puzzle_hash: Some(b32(37)),
            parent_amount: 1,
        },
    };
    let r = base_record(kind, None);
    let bytes = encode_coin_record(&r);
    assert_eq!(decode_coin_record(&bytes), Some(r));
}

#[test]
fn round_trip_coin_record_did() {
    let kind = CoinKind::Did {
        launcher_id: b32(41),
        recovery_list_hash: None,
        num_verifications_required: 1,
        metadata: vec![],
        p2_puzzle_hash: b32(42),
        lineage_proof: SingletonLineageProof {
            parent_parent_coin_id: b32(43),
            parent_inner_puzzle_hash: Some(b32(44)),
            parent_amount: 1,
        },
    };
    let r = base_record(kind, None);
    let bytes = encode_coin_record(&r);
    assert_eq!(decode_coin_record(&bytes), Some(r));
}

#[test]
fn round_trip_block_record() {
    let r = BlockRecord {
        height: 100,
        header_hash: b32(50),
        weight: 123456789012345678901234567890u128,
        total_iters: 987654321u128,
        farmer_puzzle_hash: b32(51),
        pool_puzzle_hash: Some(b32(52)),
        prev_block_hash: b32(53),
        transaction_info: Some(TransactionInfo {
            timestamp: 1700000000,
            fees: 100,
            cost: 200,
            additions: 3,
            removals: 1,
            prev_transaction_block_hash: b32(54),
        }),
    };
    let bytes = encode_block_record(&r);
    assert_eq!(decode_block_record(&bytes), Some(r));
}

#[test]
fn round_trip_block_record_non_transaction() {
    let r = BlockRecord {
        height: 0,
        header_hash: b32(60),
        weight: 0,
        total_iters: 0,
        farmer_puzzle_hash: b32(61),
        pool_puzzle_hash: None,
        prev_block_hash: b32(62),
        transaction_info: None,
    };
    let bytes = encode_block_record(&r);
    assert_eq!(decode_block_record(&bytes), Some(r));
}

#[test]
fn round_trip_coin_spend_record() {
    let r = CoinSpendRecord {
        coin: coin(1, 2, 1),
        puzzle_reveal: vec![0xff, 0x01, 0x80],
        solution: vec![0x80],
        spent_height: 500,
    };
    let bytes = encode_coin_spend_record(&r);
    assert_eq!(decode_coin_spend_record(&bytes), Some(r));
}

#[test]
fn unknown_kind_tag_is_rejected() {
    let r = base_record(CoinKind::Unknown, None);
    let mut bytes = encode_coin_record(&r);
    // the kind tag sits after coin (72), created height (4), spent height
    // (5), hint (33) and memos (1 + 4 + 4) bytes
    let tag_index = 72 + 4 + 5 + 33 + 9;
    assert_eq!(bytes[tag_index], 0);
    bytes[tag_index] = 99;
    assert_eq!(decode_coin_record(&bytes), None);
}

#[test]
fn truncated_record_is_rejected() {
    let r = base_record(CoinKind::Unknown, None);
    let bytes = encode_coin_record(&r);
    let truncated = bytes[..bytes.len() - 1].to_vec();
    assert_eq!(decode_coin_record(&truncated), None);
}

#[test]
fn trailing_bytes_are_rejected() {
    let r = base_record(CoinKind::Unknown, None);
    let mut bytes = encode_coin_record(&r);
    bytes.push(0);
    assert_eq!(decode_coin_record(&bytes), None);
}

#[test]
fn encoding_is_deterministic() {
    let r = base_record(CoinKind::Reward, None);
    assert_eq!(encode_coin_record(&r), encode_coin_record(&r.clone()));
}
