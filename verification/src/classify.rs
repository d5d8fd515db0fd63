//! The block-replay and coin-classification pipeline.
//!
//! A compressed blob is decoded to a typed block; the block's generator is
//! replayed inside the machine to obtain its spend list; each spend is
//! classified against the library of well-known templates, producing one
//! updated coin and the coins it created. Reward coins come first in every
//! block's additions and are never produced by a spend.

use vstd::prelude::*;

use crate::types::{
    Bytes32, Coin, CoinKind, CoinRecord, CoinSpendRecord, Error, P2Puzzle, TransactionInfo,
    BlockRecord, UpdatedCoin, clone_bytes, clone_opt_b32,
};
use crate::vm;
use crate::vm::{coin_id_of, CatChildData, CreateCoinData};

verus! {

/// The hash of the uncurried singleton launcher module: the puzzle that
/// starts a new singleton lineage.
pub const SINGLETON_LAUNCHER_MOD: [u8; 32] = [
    0xef, 0xf0, 0x75, 0x22, 0x49, 0x50, 0x60, 0xc0, 0x66, 0xf6, 0x6f, 0x32, 0xac, 0xc2, 0xa7,
    0x7e, 0x3a, 0x3e, 0x73, 0x7a, 0xca, 0x8b, 0xae, 0xa4, 0xd1, 0xa6, 0x4e, 0xa4, 0xcd, 0xc1,
    0x3d, 0xa9,
];

/// Whether a 32-byte identifier equals the launcher module hash.
pub fn is_launcher_mod(h: &Bytes32) -> (r: bool)
    ensures
        r <==> h@ == SINGLETON_LAUNCHER_MOD@,
{
    let n: usize = h.bytes.len();
    if n != 32 {
        return false;
    }
    let mut i: usize = 0;
    while i < 32
        invariant
            n == h.bytes@.len() == 32,
            i <= 32,
            forall|j: int| 0 <= j < i ==> h.bytes@[j] == SINGLETON_LAUNCHER_MOD@[j],
        decreases 32 - i,
    {
        if h.bytes[i] != SINGLETON_LAUNCHER_MOD[i] {
            return false;
        }
        i += 1;
    }
    assert(h@ =~= SINGLETON_LAUNCHER_MOD@);
    true
}


/// The errors the virtual-machine boundary can produce: never a missing
/// reference block and never storage corruption.
pub open spec fn vm_error(e: Error) -> bool {
    e == Error::Io || e == Error::Validation || e == Error::Eval || e == Error::FromClvm
}

/// A decoded block: the header fields, the reward coins its formula pays
/// out, and its transaction generator with the heights it references.
pub struct BlockData {
    pub height: u32,
    pub header_hash: Bytes32,
    pub weight: u128,
    pub total_iters: u128,
    pub farmer_puzzle_hash: Bytes32,
    pub pool_puzzle_hash: Option<Bytes32>,
    pub prev_block_hash: Bytes32,
    pub transaction_info: Option<(u64, u64, u64, Bytes32)>,
    pub reward_coins: Vec<Coin>,
    pub generator: Option<Vec<u8>>,
    pub generator_refs: Vec<u32>,
}

impl BlockData {
    pub open spec fn wf(&self) -> bool {
        &&& self.header_hash@.len() == 32
        &&& self.farmer_puzzle_hash@.len() == 32
        &&& self.prev_block_hash@.len() == 32
        &&& match self.pool_puzzle_hash {
            Some(h) => h@.len() == 32,
            None => true,
        }
        &&& match self.transaction_info {
            Some(t) => t.3@.len() == 32,
            None => true,
        }
        &&& forall|i: int| 0 <= i < self.reward_coins@.len() ==> (#[trigger] self.reward_coins@[i]).wf()
    }
}

/// Decompress and parse one block blob from the upstream store.
pub fn decode_block(blob: &Vec<u8>) -> (r: Result<BlockData, Error>)
    ensures
        r matches Ok(bd) ==> bd.wf(),
        vm::inflated(blob@) is None ==> r is Err,
        r matches Err(e) ==> vm_error(e),
{
    let bytes = vm::zstd_inflate(blob)?;
    let fb = vm::fb_from_bytes(&bytes)?;
    Ok(
        BlockData {
            height: vm::fb_height(&fb),
            header_hash: vm::fb_header_hash(&fb),
            weight: vm::fb_weight(&fb),
            total_iters: vm::fb_total_iters(&fb),
            farmer_puzzle_hash: vm::fb_farmer_puzzle_hash(&fb),
            pool_puzzle_hash: vm::fb_pool_puzzle_hash(&fb),
            prev_block_hash: vm::fb_prev_header_hash(&fb),
            transaction_info: vm::fb_transaction_info(&fb),
            reward_coins: vm::fb_reward_coins(&fb),
            generator: vm::fb_generator(&fb),
            generator_refs: vm::fb_generator_refs(&fb),
        },
    )
}

/// The output of classifying one spend: the spent coin's update, the coins
/// it created, and any TAIL programs it revealed.
pub struct SpendOutput {
    pub update: UpdatedCoin,
    pub additions: Vec<(Bytes32, CoinRecord)>,
    pub tails: Vec<(Bytes32, Vec<u8>)>,
}

impl SpendOutput {
    /// What classification promises of its output for a spend of `coin` at
    /// `height`: the update is the spend of that coin at that height; every
    /// child satisfies `child_ok` (well-formed, unspent, created here, child
    /// of this coin, keyed by its own digest, never a reward, singleton only
    /// when odd, with lineage and escrow tied to this spend); when the
    /// refined kind is a plain singleton every child is odd; TAIL programs
    /// are recorded only for a token spend, under its asset id.
    pub open spec fn wf_for(&self, height: u32, coin: Coin) -> bool {
        &&& self.update.wf()
        &&& self.update.spend.coin@ == coin@
        &&& self.update.spend.spent_height == height
        &&& forall|j: int|
            0 <= j < self.additions@.len() ==> child_ok(
                (#[trigger] self.additions@[j]).0,
                self.additions@[j].1,
                height,
                coin,
            )
        &&& (self.update.kind@ is Singleton ==> forall|j: int|
            0 <= j < self.additions@.len() ==> (#[trigger] self.additions@[j]).1.coin.amount % 2
                == 1)
        &&& match self.update.kind@ {
            crate::types::CoinKindV::Cat { asset_id, .. } => forall|j: int|
                0 <= j < self.tails@.len() ==> (#[trigger] self.tails@[j]).0@ == asset_id,
            _ => self.tails@.len() == 0,
        }
        &&& forall|j: int| 0 <= j < self.tails@.len() ==> (#[trigger] self.tails@[j]).0@.len() == 32
    }
}

/// A child coin drawn from one create-coin condition, before its template
/// classification: the reconstructed coin, its leading 32-byte memo as the
/// hint, and the full memo list kept verbatim.
struct ChildSeed {
    coin: Coin,
    hint: Option<Bytes32>,
    memos: Option<Vec<u8>>,
    clawback_memo: Option<clvmr::NodePtr>,
}

/// Build one child seed from a create-coin condition of the spent coin.
fn child_seed(
    a: &clvmr::Allocator,
    parent_id: &Bytes32,
    cc: &CreateCoinData,
) -> (r: Result<ChildSeed, Error>)
    requires
        parent_id.wf(),
        cc.puzzle_hash@.len() == 32,
    ensures
        r matches Ok(s) ==> {
            &&& s.coin.wf()
            &&& s.coin@.parent_coin_id == parent_id@
            &&& s.coin@.puzzle_hash == cc.puzzle_hash@
            &&& s.coin@.amount == cc.amount
            &&& match s.hint {
                Some(h) => h@.len() == 32,
                None => true,
            }
            &&& match s.memos {
                Some(m) => m@.len() < 0x1_0000_0000,
                None => true,
            }
        },
        r matches Err(e) ==> vm_error(e),
{
    let coin = Coin::new(parent_id.clone_of(), cc.puzzle_hash.clone_of(), cc.amount);
    let mut hint: Option<Bytes32> = None;
    let mut memos: Option<Vec<u8>> = None;
    let mut clawback_memo: Option<clvmr::NodePtr> = None;
    match cc.memos {
        Some(memos_node) => {
            match vm::parse_hint(a, memos_node) {
                Some((h, rest)) => {
                    hint = Some(h);
                    match vm::parse_pair(a, rest) {
                        Some((memo, _)) => {
                            clawback_memo = Some(memo);
                        },
                        None => {},
                    }
                },
                None => {},
            }
            let bytes = vm::node_to_bytes(a, memos_node)?;
            if bytes.len() as u64 >= 0x1_0000_0000u64 {
                return Err(Error::Validation);
            }
            memos = Some(bytes);
        },
        None => {},
    }
    Ok(ChildSeed { coin, hint, memos, clawback_memo })
}

/// Attach a clawback escrow to a child when its memos carry one: the
/// resulting escrow names the child's own hint as receiver, the child's
/// amount, and was reached through the hint.
fn attach_clawback(
    a: &clvmr::Allocator,
    seed: &ChildSeed,
    p2_puzzle_hash: &Bytes32,
) -> (r: Option<P2Puzzle>)
    requires
        p2_puzzle_hash.wf(),
        match seed.hint {
            Some(h) => h@.len() == 32,
            None => true,
        },
    ensures
        r matches Some(p) ==> p@.wf() && (match p@ {
            crate::types::P2PuzzleV::ClawbackV2 { receiver_puzzle_hash, amount, hinted, .. } => {
                &&& seed.hint matches Some(hh) && receiver_puzzle_hash == hh@
                &&& amount == seed.coin.amount
                &&& hinted == true
            },
        }),
{
    match (&seed.hint, &seed.clawback_memo) {
        (Some(receiver), Some(memo)) => {
            vm::clawback_from_memo(a, *memo, receiver, seed.coin.amount, true, p2_puzzle_hash)
        },
        _ => None,
    }
}

/// Classify one spend: refine the spent coin's kind, and derive the coins
/// it created with their own classifications.
#[verifier::rlimit(100)]
pub fn classify_spend(
    a: &mut clvmr::Allocator,
    height: u32,
    coin: &Coin,
    puzzle_node: clvmr::NodePtr,
    solution: clvmr::NodePtr,
) -> (r: Result<SpendOutput, Error>)
    requires
        coin.wf(),
    ensures
        r matches Ok(o) ==> o.wf_for(height, *coin),
        r matches Err(e) ==> vm_error(e),
{
    let puzzle = vm::puzzle_parse(a, puzzle_node);
    let coin_id = vm::coin_id(&coin.parent_coin_id, &coin.puzzle_hash, coin.amount);

    let puzzle_reveal = vm::node_to_bytes(a, puzzle_node)?;
    let solution_bytes = vm::node_to_bytes(a, solution)?;
    if puzzle_reveal.len() as u64 >= 0x1_0000_0000u64 || solution_bytes.len() as u64 >= 0x1_0000_0000u64 {
        return Err(Error::Validation);
    }
    let spend = CoinSpendRecord {
        coin: coin.clone_of(),
        puzzle_reveal,
        solution: solution_bytes,
        spent_height: height,
    };

    let mut kind = CoinKind::Unknown;
    let mut p2: Option<P2Puzzle> = None;
    let mut additions: Vec<(Bytes32, CoinRecord)> = Vec::new();
    let mut tails: Vec<(Bytes32, Vec<u8>)> = Vec::new();

    // Fungible-token wrapper: children are reconstructed by the template
    // parser; a revealed TAIL program is recorded under the asset id. One
    // evaluation yields the condition list for both.
    if let Some(parsed_cat) = vm::cat_parse(a, coin, &puzzle, solution)? {
        let cat = vm::cat_data(&parsed_cat);
        let children: Option<Vec<CatChildData>> = convert_cat_children(
            vm::cat_children(a, coin, &puzzle, solution),
        );
        let output = vm::run_puzzle(a, puzzle_node, solution)?;
        let mut conditions = vm::conditions_from(a, output)?;
        while conditions.len() > 0
            invariant
                coin.wf(),
                coin_id@ == coin_id_of(coin.parent_coin_id@, coin.puzzle_hash@, coin.amount),
                coin_id@.len() == 32,
                cat.wf(),
                forall|j: int|
                    0 <= j < additions@.len() ==> child_ok(
                        (#[trigger] additions@[j]).0,
                        additions@[j].1,
                        height,
                        *coin,
                    ),
                forall|j: int| 0 <= j < tails@.len() ==> (#[trigger] tails@[j]).0@
                    == cat.asset_id@,
                match children {
                    Some(ref cs) => forall|i: int|
                        0 <= i < cs@.len() ==> (#[trigger] cs@[i]).info.wf() && cs@[i].coin.wf(),
                    None => true,
                },
            decreases conditions@.len(),
        {
            let c = conditions.remove(0);
            match vm::condition_data(c) {
                vm::ConditionData::Create(cc) => {
                    let seed = child_seed(a, &coin_id, &cc)?;
                    let mut child_kind = CoinKind::Unknown;
                    let mut child_p2: Option<P2Puzzle> = None;
                    match &children {
                        Some(cs) => {
                            match find_cat_child(cs, &seed.coin) {
                                Some(ci2) => {
                                    let info = &cs[ci2].info;
                                    child_p2 = attach_clawback(a, &seed, &info.p2_puzzle_hash);
                                    child_kind = CoinKind::Cat {
                                        asset_id: info.asset_id.clone_of(),
                                        hidden_puzzle_hash: clone_opt_b32(&info.hidden_puzzle_hash),
                                        p2_puzzle_hash: info.p2_puzzle_hash.clone_of(),
                                        lineage_proof: match &info.lineage_proof {
                                            Some(l) => Some(l.clone_of()),
                                            None => None,
                                        },
                                    };
                                },
                                None => {},
                            }
                        },
                        None => {},
                    }
                    push_child(&mut additions, a, height, coin, &coin_id, seed, child_kind, child_p2);
                },
                vm::ConditionData::Tail(program) => {
                    let bytes = vm::node_to_bytes(a, program)?;
                    tails.push((cat.asset_id.clone_of(), bytes));
                },
                _ => {},
            }
        }
        kind = CoinKind::Cat {
            asset_id: cat.asset_id,
            hidden_puzzle_hash: cat.hidden_puzzle_hash,
            p2_puzzle_hash: cat.p2_puzzle_hash,
            lineage_proof: cat.lineage_proof,
        };
        return Ok(finish_spend(spend, kind, p2, additions, tails, height, coin));
    }

    // Unique-token wrapper.
    if let Some(nft_raw) = vm::nft_parse(a, coin, &puzzle, solution)? {
        let nft = vm::nft_data(&nft_raw);
        let output = vm::run_puzzle(a, puzzle_node, solution)?;
        let conditions = vm::conditions_from(a, output)?;
        let child: Option<(Coin, vm::NftData)> = match vm::nft_parse_child(
            a,
            coin,
            &puzzle,
            solution,
        ) {
            Some(raw) => Some((vm::nft_coin(&raw), vm::nft_data(&raw))),
            None => None,
        };
        let mut conditions = conditions;
        while conditions.len() > 0
            invariant
                coin.wf(),
                coin_id@ == coin_id_of(coin.parent_coin_id@, coin.puzzle_hash@, coin.amount),
                coin_id@.len() == 32,
                forall|j: int|
                    0 <= j < additions@.len() ==> child_ok(
                        (#[trigger] additions@[j]).0,
                        additions@[j].1,
                        height,
                        *coin,
                    ),
                match child {
                    Some(ref p) => p.1.wf() && p.0.wf(),
                    None => true,
                },
            decreases conditions@.len(),
        {
            let c = conditions.remove(0);
            match vm::condition_data(c) {
                vm::ConditionData::Create(cc) => {
                    let seed = child_seed(a, &coin_id, &cc)?;
                    let mut child_kind = CoinKind::Unknown;
                    let mut child_p2: Option<P2Puzzle> = None;
                    match &child {
                        Some((ccoin, data)) => {
                            if coins_eq(ccoin, &seed.coin) {
                                child_p2 = attach_clawback(a, &seed, &data.p2_puzzle_hash);
                                child_kind = nft_kind(a, data)?;
                            }
                        },
                        None => {},
                    }
                    push_child(&mut additions, a, height, coin, &coin_id, seed, child_kind, child_p2);
                },
                _ => {},
            }
        }
        kind = nft_kind(a, &nft)?;
        return Ok(finish_spend(spend, kind, p2, additions, tails, height, coin));
    }

    // Decentralized-identifier wrapper.
    if let Some(did_raw) = vm::did_parse(a, coin, &puzzle, solution)? {
        let did = vm::did_data(&did_raw);
        let output = vm::run_puzzle(a, puzzle_node, solution)?;
        let mut conditions = vm::conditions_from(a, output)?;
        while conditions.len() > 0
            invariant
                coin.wf(),
                coin_id@ == coin_id_of(coin.parent_coin_id@, coin.puzzle_hash@, coin.amount),
                coin_id@.len() == 32,
                forall|j: int|
                    0 <= j < additions@.len() ==> child_ok(
                        (#[trigger] additions@[j]).0,
                        additions@[j].1,
                        height,
                        *coin,
                    ),
            decreases conditions@.len(),
        {
            let c = conditions.remove(0);
            match vm::condition_data(c) {
                vm::ConditionData::Create(cc) => {
                    let seed = child_seed(a, &coin_id, &cc)?;
                    let mut child_kind = CoinKind::Unknown;
                    let mut child_p2: Option<P2Puzzle> = None;
                    if seed.coin.amount % 2 == 1 {
                        match vm::did_parse_child(a, coin, &puzzle, solution, &seed.coin) {
                            Some(raw) => {
                                let data = vm::did_data(&raw);
                                child_p2 = attach_clawback(a, &seed, &data.p2_puzzle_hash);
                                child_kind = did_kind(a, &data)?;
                            },
                            None => {},
                        }
                    }
                    push_child(&mut additions, a, height, coin, &coin_id, seed, child_kind, child_p2);
                },
                _ => {},
            }
        }
        kind = did_kind(a, &did)?;
        return Ok(finish_spend(spend, kind, p2, additions, tails, height, coin));
    }

    // Plain singleton wrapper: run the inner puzzle, keep only odd-amount
    // children, and rewrap their puzzle hashes; a melt ends the lineage.
    if let Some((launcher_id, inner)) = vm::singleton_parse(a, &puzzle)? {
        let (_lineage, _amount, inner_solution) = vm::singleton_solution_parse(a, solution)?;
        let inner_ph = vm::puzzle_hash(&inner);
        let inner_ptr = vm::puzzle_ptr(&inner);
        let output = vm::run_puzzle(a, inner_ptr, inner_solution)?;
        let conditions = vm::conditions_from(a, output)?;
        let mut melted = false;
        let mut conditions = conditions;
        let mut kept: Vec<CreateCoinData> = Vec::new();
        while conditions.len() > 0
            invariant
                forall|j: int| 0 <= j < kept@.len() ==> (#[trigger] kept@[j]).puzzle_hash@.len()
                    == 32 && kept@[j].amount % 2 == 1,
            decreases conditions@.len(),
        {
            let c = conditions.remove(0);
            match vm::condition_data(c) {
                vm::ConditionData::Melt => {
                    melted = true;
                },
                vm::ConditionData::Create(cc) => {
                    if cc.amount % 2 == 1 {
                        kept.push(cc);
                    }
                },
                _ => {},
            }
        }
        if !melted {
            let nk: usize = kept.len();
            let mut ki: usize = 0;
            while ki < nk
                invariant
                    nk == kept@.len(),
                    ki <= nk,
                    coin.wf(),
                    launcher_id@.len() == 32,
                    inner_ph@.len() == 32,
                    coin_id@ == coin_id_of(coin.parent_coin_id@, coin.puzzle_hash@, coin.amount),
                coin_id@.len() == 32,
                    forall|j: int| 0 <= j < kept@.len() ==> (#[trigger] kept@[j]).puzzle_hash@.len()
                        == 32 && kept@[j].amount % 2 == 1,
                    forall|j: int|
                        0 <= j < additions@.len() ==> child_ok(
                            (#[trigger] additions@[j]).0,
                            additions@[j].1,
                            height,
                            *coin,
                        ),
                    forall|j: int| 0 <= j < additions@.len() ==> (#[trigger] additions@[j]).1.coin
                        .amount % 2 == 1,
                decreases nk - ki,
            {
                let cc = &kept[ki];
                let wrapped_ph = vm::singleton_puzzle_hash(&launcher_id, &cc.puzzle_hash);
                let child_coin = Coin::new(coin_id.clone_of(), wrapped_ph, cc.amount);
                let child_kind = CoinKind::Singleton {
                    launcher_id: launcher_id.clone_of(),
                    lineage_proof: crate::types::SingletonLineageProof {
                        parent_parent_coin_id: coin.parent_coin_id.clone_of(),
                        parent_inner_puzzle_hash: Some(inner_ph.clone_of()),
                        parent_amount: coin.amount,
                    },
                };
                let child_id = vm::coin_id(
                    &child_coin.parent_coin_id,
                    &child_coin.puzzle_hash,
                    child_coin.amount,
                );
                let rec = CoinRecord {
                    coin: child_coin,
                    created_height: height,
                    spent_height: None,
                    hint: None,
                    memos: None,
                    kind: child_kind,
                    p2_puzzle: None,
                };
                additions.push((child_id, rec));
                ki += 1;
            }
        }
        kind = CoinKind::Singleton {
            launcher_id,
            lineage_proof: crate::types::SingletonLineageProof {
                parent_parent_coin_id: coin.parent_coin_id.clone_of(),
                parent_inner_puzzle_hash: Some(inner_ph),
                parent_amount: coin.amount,
            },
        };
        return Ok(finish_spend(spend, kind, p2, additions, tails, height, coin));
    }

    // Launcher: the single odd child it declares starts a new lineage whose
    // launcher id is this coin's id, with an eve lineage proof.
    let mod_hash = vm::puzzle_mod_hash(&puzzle);
    let is_launcher = is_launcher_mod(&mod_hash);

    let output = vm::run_puzzle(a, puzzle_node, solution)?;
    let mut conditions = vm::conditions_from(a, output)?;
    while conditions.len() > 0
        invariant
            coin.wf(),
            coin_id@ == coin_id_of(coin.parent_coin_id@, coin.puzzle_hash@, coin.amount),
                coin_id@.len() == 32,
            forall|j: int|
                0 <= j < additions@.len() ==> child_ok(
                    (#[trigger] additions@[j]).0,
                    additions@[j].1,
                    height,
                    *coin,
                ),
        decreases conditions@.len(),
    {
        let c = conditions.remove(0);
        match vm::condition_data(c) {
            vm::ConditionData::Create(cc) => {
                let seed = child_seed(a, &coin_id, &cc)?;
                let mut child_kind = CoinKind::Unknown;
                let child_p2: Option<P2Puzzle> = None;
                if is_launcher && seed.coin.amount % 2 == 1 {
                    child_kind = CoinKind::Singleton {
                        launcher_id: coin_id.clone_of(),
                        lineage_proof: crate::types::SingletonLineageProof {
                            parent_parent_coin_id: coin.parent_coin_id.clone_of(),
                            parent_inner_puzzle_hash: None,
                            parent_amount: coin.amount,
                        },
                    };
                }
                push_child(&mut additions, a, height, coin, &coin_id, seed, child_kind, child_p2);
            },
            _ => {},
        }
    }
    Ok(finish_spend(spend, kind, p2, additions, tails, height, coin))
}


/// Convert reconstructed token children to plain values.
fn convert_cat_children(raw: Option<Vec<chia_sdk_driver::Cat>>) -> (r: Option<Vec<CatChildData>>)
    ensures
        r matches Some(v) ==> forall|i: int|
            0 <= i < v@.len() ==> (#[trigger] v@[i]).info.wf() && v@[i].coin.wf(),
{
    match raw {
        None => None,
        Some(mut cats) => {
            let mut out: Vec<CatChildData> = Vec::new();
            while cats.len() > 0
                invariant
                    forall|i: int|
                        0 <= i < out@.len() ==> (#[trigger] out@[i]).info.wf() && out@[i].coin.wf(),
                decreases cats@.len(),
            {
                let c = cats.remove(0);
                out.push(CatChildData { coin: vm::cat_child_coin(&c), info: vm::cat_child_data(&c) });
            }
            Some(out)
        },
    }
}

/// What every listed child satisfies: well-formed and unspent, created at
/// this height as a child of the spent coin, keyed by the digest of its own
/// triple, never a reward; a plain-singleton classification comes only with
/// an odd amount and a lineage proof naming the spent coin's parent and
/// amount; an attached escrow carries the child's own hint and amount and
/// was reached through the hint.
pub open spec fn child_ok(id: Bytes32, c: CoinRecord, height: u32, parent: Coin) -> bool {
    &&& id@.len() == 32
    &&& c.wf()
    &&& c.created_height == height
    &&& c.spent_height is None
    &&& c.coin.parent_coin_id@ == coin_id_of(
        parent.parent_coin_id@,
        parent.puzzle_hash@,
        parent.amount,
    )
    &&& id@ == coin_id_of(c.coin.parent_coin_id@, c.coin.puzzle_hash@, c.coin.amount)
    &&& !(c.kind@ is Reward)
    &&& (c.kind@ is Singleton ==> c.coin.amount % 2 == 1)
    &&& match c.kind@ {
        crate::types::CoinKindV::Singleton { lineage_proof, .. } => {
            &&& lineage_proof.parent_parent_coin_id == parent.parent_coin_id@
            &&& lineage_proof.parent_amount == parent.amount
        },
        _ => true,
    }
    &&& match c@.p2_puzzle {
        Some(p) => match p {
            crate::types::P2PuzzleV::ClawbackV2 { receiver_puzzle_hash, amount, hinted, .. } => {
                &&& c@.hint matches Some(hh) && receiver_puzzle_hash == hh
                &&& amount == c.coin.amount
                &&& hinted == true
            },
        },
        None => true,
    }
}

/// Append one classified child. A singleton classification is kept only for
/// an odd amount; an even child falls back to unknown.
fn push_child(
    additions: &mut Vec<(Bytes32, CoinRecord)>,
    a: &clvmr::Allocator,
    height: u32,
    parent: &Coin,
    parent_id: &Bytes32,
    seed: ChildSeed,
    kind: CoinKind,
    p2: Option<P2Puzzle>,
)
    requires
        parent.wf(),
        parent_id@ == coin_id_of(parent.parent_coin_id@, parent.puzzle_hash@, parent.amount),
        seed.coin.wf(),
        seed.coin@.parent_coin_id == parent_id@,
        match seed.hint {
            Some(h) => h@.len() == 32,
            None => true,
        },
        match seed.memos {
            Some(m) => m@.len() < 0x1_0000_0000,
            None => true,
        },
        kind@.wf(),
        !(kind@ is Reward),
        match kind@ {
            crate::types::CoinKindV::Singleton { lineage_proof, .. } => {
                &&& lineage_proof.parent_parent_coin_id == parent.parent_coin_id@
                &&& lineage_proof.parent_amount == parent.amount
            },
            _ => true,
        },
        match p2 {
            Some(pp) => pp@.wf() && (match pp@ {
                crate::types::P2PuzzleV::ClawbackV2 {
                    receiver_puzzle_hash,
                    amount,
                    hinted,
                    ..
                } => {
                    &&& seed.hint matches Some(hh) && receiver_puzzle_hash == hh@
                    &&& amount == seed.coin.amount
                    &&& hinted == true
                },
            }),
            None => true,
        },
        forall|j: int|
            0 <= j < old(additions)@.len() ==> child_ok(
                (#[trigger] old(additions)@[j]).0,
                old(additions)@[j].1,
                height,
                *parent,
            ),
    ensures
        forall|j: int|
            0 <= j < final(additions)@.len() ==> child_ok(
                (#[trigger] final(additions)@[j]).0,
                final(additions)@[j].1,
                height,
                *parent,
            ),
        final(additions)@.len() == old(additions)@.len() + 1,
{
    let kept_kind = if matches!(kind, CoinKind::Singleton { .. }) && seed.coin.amount % 2 == 0 {
        CoinKind::Unknown
    } else {
        kind
    };
    let child_id = vm::coin_id(&seed.coin.parent_coin_id, &seed.coin.puzzle_hash, seed.coin.amount);
    let rec = CoinRecord {
        coin: seed.coin,
        created_height: height,
        spent_height: None,
        hint: seed.hint,
        memos: seed.memos,
        kind: kept_kind,
        p2_puzzle: p2,
    };
    let ghost before = additions@;
    additions.push((child_id, rec));
    proof {
        assert forall|j: int| 0 <= j < additions@.len() implies child_ok(
            (#[trigger] additions@[j]).0,
            additions@[j].1,
            height,
            *parent,
        ) by {
            if j < before.len() {
                assert(additions@[j] == before[j]);
            }
        }
    }
}

/// Assemble the classifier's output for one spend.
fn finish_spend(
    spend: CoinSpendRecord,
    kind: CoinKind,
    p2: Option<P2Puzzle>,
    additions: Vec<(Bytes32, CoinRecord)>,
    tails: Vec<(Bytes32, Vec<u8>)>,
    height: u32,
    coin: &Coin,
) -> (r: SpendOutput)
    requires
        spend.wf(),
        spend.coin@ == coin@,
        spend.spent_height == height,
        kind@.wf(),
        match p2 {
            Some(pp) => pp@.wf(),
            None => true,
        },
        forall|j: int|
            0 <= j < additions@.len() ==> child_ok(
                (#[trigger] additions@[j]).0,
                additions@[j].1,
                height,
                *coin,
            ),
        kind@ is Singleton ==> forall|j: int|
            0 <= j < additions@.len() ==> (#[trigger] additions@[j]).1.coin.amount % 2 == 1,
        match kind@ {
            crate::types::CoinKindV::Cat { asset_id, .. } => forall|j: int|
                0 <= j < tails@.len() ==> (#[trigger] tails@[j]).0@ == asset_id,
            _ => tails@.len() == 0,
        },
    ensures
        r.wf_for(height, *coin),
{
    proof {
        match kind@ {
            crate::types::CoinKindV::Cat { asset_id, .. } => {
                assert(asset_id.len() == 32);
            },
            _ => {},
        }
    }
    SpendOutput { update: UpdatedCoin { spend, kind, p2_puzzle: p2 }, additions, tails }
}

/// The unique-token classification of parsed wrapper data; serializing the
/// metadata can fail, which fails the batch.
fn nft_kind(a: &clvmr::Allocator, d: &vm::NftData) -> (r: Result<CoinKind, Error>)
    requires
        d.wf(),
    ensures
        r matches Ok(k) ==> k@.wf() && !(k@ is Reward) && !(k@ is Singleton),
        r matches Err(e) ==> vm_error(e),
{
    let metadata = vm::node_to_bytes(a, d.metadata)?;
    if metadata.len() as u64 >= 0x1_0000_0000u64 {
        return Err(Error::Validation);
    }
    Ok(
        CoinKind::Nft {
            launcher_id: d.launcher_id.clone_of(),
            metadata,
            metadata_updater_puzzle_hash: d.metadata_updater_puzzle_hash.clone_of(),
            current_owner: clone_opt_b32(&d.current_owner),
            royalty_puzzle_hash: d.royalty_puzzle_hash.clone_of(),
            royalty_basis_points: d.royalty_basis_points,
            p2_puzzle_hash: d.p2_puzzle_hash.clone_of(),
            lineage_proof: d.lineage.clone_of(),
        },
    )
}

/// The identifier classification of parsed wrapper data.
fn did_kind(a: &clvmr::Allocator, d: &vm::DidData) -> (r: Result<CoinKind, Error>)
    requires
        d.wf(),
    ensures
        r matches Ok(k) ==> k@.wf() && !(k@ is Reward) && !(k@ is Singleton),
        r matches Err(e) ==> vm_error(e),
{
    let metadata = vm::node_to_bytes(a, d.metadata)?;
    if metadata.len() as u64 >= 0x1_0000_0000u64 {
        return Err(Error::Validation);
    }
    Ok(
        CoinKind::Did {
            launcher_id: d.launcher_id.clone_of(),
            recovery_list_hash: clone_opt_b32(&d.recovery_list_hash),
            num_verifications_required: d.num_verifications_required,
            metadata,
            p2_puzzle_hash: d.p2_puzzle_hash.clone_of(),
            lineage_proof: d.lineage.clone_of(),
        },
    )
}

/// Whether two coins are the same triple.
fn coins_eq(a: &Coin, b: &Coin) -> (r: bool)
    ensures
        r <==> a@.parent_coin_id == b@.parent_coin_id && a@.puzzle_hash == b@.puzzle_hash
            && a@.amount == b@.amount,
{
    a.parent_coin_id.eq_to(&b.parent_coin_id) && a.puzzle_hash.eq_to(&b.puzzle_hash) && a.amount
        == b.amount
}

/// Find the reconstructed token child matching a created coin.
fn find_cat_child(cs: &Vec<CatChildData>, coin: &Coin) -> (r: Option<usize>)
    ensures
        r matches Some(i) ==> i < cs@.len(),
{
    let n: usize = cs.len();
    let mut i: usize = 0;
    while i < n
        invariant
            n == cs@.len(),
            i <= n,
        decreases n - i,
    {
        if coins_eq(&cs[i].coin, coin) {
            return Some(i);
        }
        i += 1;
    }
    None
}



/// Whether a referenced height is present in the fetched reference list.
pub open spec fn ref_present(refs: Seq<(u32, Vec<u8>)>, h: u32) -> bool {
    exists|j: int| 0 <= j < refs.len() && (#[trigger] refs[j]).0 == h
}

/// One block's replay output: its record and the coin changes it makes.
pub struct ParsedBlock {
    pub block_record: BlockRecord,
    pub updates: Vec<UpdatedCoin>,
    pub additions: Vec<(Bytes32, CoinRecord)>,
    pub tails: Vec<(Bytes32, Vec<u8>)>,
}

impl ParsedBlock {
    pub open spec fn wf(&self) -> bool {
        &&& self.block_record.wf()
        &&& forall|i: int| 0 <= i < self.updates@.len() ==> (#[trigger] self.updates@[i]).wf()
        &&& forall|i: int|
            0 <= i < self.additions@.len() ==> (#[trigger] self.additions@[i]).1.wf()
                && self.additions@[i].0@.len() == 32 && self.additions@[i].0@ == coin_id_of(
                self.additions@[i].1.coin.parent_coin_id@,
                self.additions@[i].1.coin.puzzle_hash@,
                self.additions@[i].1.coin.amount,
            )
        &&& forall|i: int| 0 <= i < self.tails@.len() ==> (#[trigger] self.tails@[i]).0@.len() == 32
    }

    /// Reward coins stand first among the additions, classified as rewards,
    /// with neither hint nor memos.
    pub open spec fn rewards_first(&self, rewards: Seq<Coin>) -> bool {
        &&& self.additions@.len() >= rewards.len()
        &&& forall|i: int|
            0 <= i < rewards.len() ==> {
                let c = (#[trigger] self.additions@[i]).1;
                &&& c.coin@ == rewards[i]@
                &&& c.kind@ is Reward
                &&& c.hint is None
                &&& c.memos is None
                &&& c.spent_height is None
            }
    }
}

/// Replay one decoded block: its reward coins become additions first, then
/// the generator's spend list is classified in the order the generator
/// emits it. A missing generator reference fails with its height.
pub fn parse_block(bd: &BlockData, refs: &Vec<(u32, Vec<u8>)>) -> (r: Result<ParsedBlock, Error>)
    requires
        bd.wf(),
    ensures
        r matches Ok(pb) ==> {
            &&& pb.wf()
            &&& pb.rewards_first(bd.reward_coins@)
            &&& pb.block_record@.height == bd.height
            &&& pb.block_record@.header_hash == bd.header_hash@
            &&& pb.block_record@.prev_block_hash == bd.prev_block_hash@
            &&& pb.block_record@.weight == bd.weight
            &&& pb.block_record@.total_iters == bd.total_iters
            &&& pb.block_record@.farmer_puzzle_hash == bd.farmer_puzzle_hash@
            &&& pb.block_record@.pool_puzzle_hash == crate::types::vopt_b32(bd.pool_puzzle_hash)
            &&& pb.additions@.len() < 0x1_0000_0000
            &&& pb.updates@.len() < 0x1_0000_0000
            &&& pb.block_record@.transaction_info == (match bd.transaction_info {
                Some((ts, fees, cost, ptx)) => Some(crate::types::TransactionInfoV {
                    timestamp: ts,
                    fees,
                    cost,
                    additions: pb.additions@.len() as u32,
                    removals: pb.updates@.len() as u32,
                    prev_transaction_block_hash: ptx@,
                }),
                None => None,
            })
            &&& forall|i: int|
                0 <= i < pb.additions@.len() ==> (#[trigger] pb.additions@[i]).1.created_height
                    == bd.height
            &&& forall|i: int|
                0 <= i < pb.updates@.len() ==> (#[trigger] pb.updates@[i]).spend.spent_height
                    == bd.height
            &&& (bd.generator is None ==> pb.updates@.len() == 0 && pb.additions@.len()
                == bd.reward_coins@.len())
        },
        (bd.generator is None && bd.reward_coins@.len() < 0x1_0000_0000) ==> r is Ok,
        match r {
            Err(Error::MissingReferenceBlock(h)) => {
                &&& bd.generator is Some
                &&& exists|i: int|
                    0 <= i < bd.generator_refs@.len() && (#[trigger] bd.generator_refs@[i]) == h
                        && (forall|i2: int|
                        0 <= i2 < i ==> #[trigger] ref_present(refs@, bd.generator_refs@[i2]))
                &&& !ref_present(refs@, h)
            },
            _ => true,
        },
{
    let height = bd.height;
    let mut additions: Vec<(Bytes32, CoinRecord)> = Vec::new();
    let mut updates: Vec<UpdatedCoin> = Vec::new();
    let mut tails: Vec<(Bytes32, Vec<u8>)> = Vec::new();

    let nr: usize = bd.reward_coins.len();
    let mut i: usize = 0;
    while i < nr
        invariant
            nr == bd.reward_coins@.len(),
            i <= nr,
            bd.wf(),
            additions@.len() == i,
            forall|j: int|
                0 <= j < i ==> {
                    let c = (#[trigger] additions@[j]).1;
                    &&& c.coin@ == bd.reward_coins@[j]@
                    &&& c.kind@ is Reward
                    &&& c.hint is None
                    &&& c.memos is None
                    &&& c.spent_height is None
                    &&& c.wf()
                    &&& c.created_height == height
                    &&& additions@[j].0@.len() == 32
                    &&& additions@[j].0@ == coin_id_of(
                        c.coin.parent_coin_id@,
                        c.coin.puzzle_hash@,
                        c.coin.amount,
                    )
                },
        decreases nr - i,
    {
        let coin = bd.reward_coins[i].clone_of();
        let id = vm::coin_id(&coin.parent_coin_id, &coin.puzzle_hash, coin.amount);
        let rec = CoinRecord {
            coin,
            created_height: height,
            spent_height: None,
            hint: None,
            memos: None,
            kind: CoinKind::Reward,
            p2_puzzle: None,
        };
        additions.push((id, rec));
        i += 1;
    }
    let ghost reward_count = additions@.len();

    match &bd.generator {
        None => {},
        Some(generator_blob) => {
            let mut a = vm::new_allocator();
            let generator = vm::node_from_bytes(&mut a, generator_blob)?;
            let mut block_refs: Vec<Vec<u8>> = Vec::new();
            let ng: usize = bd.generator_refs.len();
            let mut gi: usize = 0;
            while gi < ng
                invariant
                    ng == bd.generator_refs@.len(),
                    gi <= ng,
                    bd.generator is Some,
                    forall|i2: int|
                        0 <= i2 < gi ==> #[trigger] ref_present(refs@, bd.generator_refs@[i2]),
                decreases ng - gi,
            {
                let want = bd.generator_refs[gi];
                match find_ref(refs, want) {
                    Some(blob) => {
                        block_refs.push(blob);
                    },
                    None => {
                        return Err(Error::MissingReferenceBlock(want));
                    },
                }
                gi += 1;
            }
            let args = vm::setup_generator_args(&mut a, &block_refs)?;
            let result = vm::run_puzzle(&mut a, generator, args)?;
            let mut iter = vm::first_node(&a, result)?;
            let mut fuel: u64 = 0x1000_0000;
            loop
                invariant
                    bd.wf(),
                    bd.generator is Some,
                    nr == bd.reward_coins@.len(),
                    reward_count == nr,
                    additions@.len() >= reward_count,
                    forall|j: int|
                        0 <= j < reward_count ==> {
                            let c = (#[trigger] additions@[j]).1;
                            &&& c.coin@ == bd.reward_coins@[j]@
                            &&& c.kind@ is Reward
                            &&& c.hint is None
                            &&& c.memos is None
                            &&& c.spent_height is None
                        },
                    forall|j: int|
                        0 <= j < additions@.len() ==> (#[trigger] additions@[j]).1.wf()
                            && additions@[j].0@.len() == 32 && additions@[j].1.created_height
                            == height && additions@[j].1.spent_height is None
                            && additions@[j].0@ == coin_id_of(
                            additions@[j].1.coin.parent_coin_id@,
                            additions@[j].1.coin.puzzle_hash@,
                            additions@[j].1.coin.amount,
                        ),
                    forall|j: int|
                        0 <= j < updates@.len() ==> (#[trigger] updates@[j]).wf()
                            && updates@[j].spend.spent_height == height,
                    forall|j: int| 0 <= j < tails@.len() ==> (#[trigger] tails@[j]).0@.len() == 32,
                decreases fuel,
            {
                if fuel == 0 {
                    // a spend list this long is not a valid chain: corruption
                    return Err(Error::Validation);
                }
                fuel = fuel - 1;
                let step = vm::next_node(&a, iter)?;
                match step {
                    None => {
                        break;
                    },
                    Some((spend_node, rest)) => {
                        iter = rest;
                        let (parent, amount, puzzle_node, solution) = vm::parse_spend_node(
                            &a,
                            spend_node,
                        )?;
                        let puzzle = vm::puzzle_parse(&a, puzzle_node);
                        let puzzle_hash = vm::puzzle_hash(&puzzle);
                        let coin = Coin::new(parent, puzzle_hash, amount);
                        let out = classify_spend(&mut a, height, &coin, puzzle_node, solution)?;
                        let ghost before_a = additions@;
                        let ghost before_u = updates@;
                        let ghost before_t = tails@;
                        let mut out_additions = out.additions;
                        let mut out_tails = out.tails;
                        updates.push(out.update);
                        append_children(&mut additions, &mut out_additions, height, &coin);
                        append_tails(&mut tails, &mut out_tails);
                        proof {
                            assert forall|j: int| 0 <= j < reward_count implies {
                                let c = (#[trigger] additions@[j]).1;
                                &&& c.coin@ == bd.reward_coins@[j]@
                                &&& c.kind@ is Reward
                                &&& c.hint is None
                                &&& c.memos is None
                                &&& c.spent_height is None
                            } by {
                                assert(additions@[j] == before_a[j]);
                            }
                        }
                    },
                }
            }
        },
    }

    let additions_count = additions.len();
    let removals_count = updates.len();
    if additions_count as u64 >= 0x1_0000_0000u64 || removals_count as u64 >= 0x1_0000_0000u64 {
        return Err(Error::Validation);
    }
    let block_record = BlockRecord {
        height,
        header_hash: bd.header_hash.clone_of(),
        weight: bd.weight,
        total_iters: bd.total_iters,
        farmer_puzzle_hash: bd.farmer_puzzle_hash.clone_of(),
        pool_puzzle_hash: clone_opt_b32(&bd.pool_puzzle_hash),
        prev_block_hash: bd.prev_block_hash.clone_of(),
        transaction_info: match &bd.transaction_info {
            Some((timestamp, fees, cost, prev_tx)) => Some(
                TransactionInfo {
                    timestamp: *timestamp,
                    fees: *fees,
                    cost: *cost,
                    additions: additions_count as u32,
                    removals: removals_count as u32,
                    prev_transaction_block_hash: prev_tx.clone_of(),
                },
            ),
            None => None,
        },
    };
    Ok(ParsedBlock { block_record, updates, additions, tails })
}

/// Look a referenced generator up by height.
fn find_ref(refs: &Vec<(u32, Vec<u8>)>, height: u32) -> (r: Option<Vec<u8>>)
    ensures
        r is Some ==> exists|i: int|
            0 <= i < refs@.len() && (#[trigger] refs@[i]).0 == height,
        r is None ==> forall|i: int| 0 <= i < refs@.len() ==> (#[trigger] refs@[i]).0 != height,
{
    let n: usize = refs.len();
    let mut i: usize = 0;
    while i < n
        invariant
            n == refs@.len(),
            i <= n,
            forall|j: int| 0 <= j < i ==> (#[trigger] refs@[j]).0 != height,
        decreases n - i,
    {
        if refs[i].0 == height {
            return Some(clone_bytes(&refs[i].1));
        }
        i += 1;
    }
    None
}

/// Move one spend's children onto the block's additions.
fn append_children(
    additions: &mut Vec<(Bytes32, CoinRecord)>,
    more: &mut Vec<(Bytes32, CoinRecord)>,
    height: u32,
    coin: &Coin,
)
    requires
        forall|j: int|
            0 <= j < old(additions)@.len() ==> (#[trigger] old(additions)@[j]).1.wf()
                && old(additions)@[j].0@.len() == 32
                && old(additions)@[j].1.created_height == height
                && old(additions)@[j].1.spent_height is None
                && old(additions)@[j].0@ == coin_id_of(
                old(additions)@[j].1.coin.parent_coin_id@,
                old(additions)@[j].1.coin.puzzle_hash@,
                old(additions)@[j].1.coin.amount,
            ),
        forall|j: int|
            0 <= j < old(more)@.len() ==> child_ok(
                (#[trigger] old(more)@[j]).0,
                old(more)@[j].1,
                height,
                *coin,
            ),
        coin.wf(),
    ensures
        final(additions)@.len() == old(additions)@.len() + old(more)@.len(),
        forall|j: int|
            0 <= j < final(additions)@.len() ==> (#[trigger] final(additions)@[j]).1.wf()
                && final(additions)@[j].0@.len() == 32
                && final(additions)@[j].1.created_height == height
                && final(additions)@[j].1.spent_height is None
                && final(additions)@[j].0@ == coin_id_of(
                final(additions)@[j].1.coin.parent_coin_id@,
                final(additions)@[j].1.coin.puzzle_hash@,
                final(additions)@[j].1.coin.amount,
            ),
        forall|j: int|
            0 <= j < old(additions)@.len() ==> (#[trigger] final(additions)@[j])
                == old(additions)@[j],
{
    let ghost base = additions@;
    let ghost morev = old(more)@;
    let n: usize = more.len();
    let mut i: usize = 0;
    while more.len() > 0
        invariant
            coin.wf(),
            i + more@.len() == n,
            n == morev.len(),
            forall|j: int| 0 <= j < more@.len() ==> (#[trigger] more@[j]) == morev[i + j],
            forall|j: int|
                0 <= j < morev.len() ==> child_ok(
                    (#[trigger] morev[j]).0,
                    morev[j].1,
                    height,
                    *coin,
                ),
            additions@.len() == base.len() + i,
            forall|j: int| 0 <= j < base.len() ==> (#[trigger] additions@[j]) == base[j],
            forall|j: int|
                0 <= j < additions@.len() ==> (#[trigger] additions@[j]).1.wf()
                    && additions@[j].0@.len() == 32 && additions@[j].1.created_height == height
                    && additions@[j].1.spent_height is None && additions@[j].0@ == coin_id_of(
                    additions@[j].1.coin.parent_coin_id@,
                    additions@[j].1.coin.puzzle_hash@,
                    additions@[j].1.coin.amount,
                ),
        decreases more@.len(),
    {
        let item = more.remove(0);
        proof {
            assert(child_ok(morev[i as int].0, morev[i as int].1, height, *coin));
        }
        additions.push(item);
        i += 1;
    }
}

/// Move one spend's TAIL records onto the block's list.
fn append_tails(tails: &mut Vec<(Bytes32, Vec<u8>)>, more: &mut Vec<(Bytes32, Vec<u8>)>)
    requires
        forall|j: int| 0 <= j < old(tails)@.len() ==> (#[trigger] old(tails)@[j]).0@.len() == 32,
        forall|j: int| 0 <= j < old(more)@.len() ==> (#[trigger] old(more)@[j]).0@.len() == 32,
    ensures
        forall|j: int| 0 <= j < final(tails)@.len() ==> (#[trigger] final(tails)@[j]).0@.len()
            == 32,
{
    let ghost morev = old(more)@;
    let n: usize = more.len();
    let mut i: usize = 0;
    while more.len() > 0
        invariant
            i + more@.len() == n,
            n == morev.len(),
            forall|j: int| 0 <= j < more@.len() ==> (#[trigger] more@[j]) == morev[i + j],
            forall|j: int| 0 <= j < morev.len() ==> (#[trigger] morev[j]).0@.len() == 32,
            forall|j: int| 0 <= j < tails@.len() ==> (#[trigger] tails@[j]).0@.len() == 32,
        decreases more@.len(),
    {
        let item = more.remove(0);
        proof {
            assert(morev[i as int].0@.len() == 32);
        }
        tails.push(item);
        i += 1;
    }
}

} // verus!
