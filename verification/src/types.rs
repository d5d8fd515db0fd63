//! Core data model: 32-byte identifiers, coins, block and coin records, and
//! the tagged classification (`CoinKind`, `P2Puzzle`) attached to each coin.
//!
//! Every executable type has a mathematical view (`...V`) over which the
//! contracts of the codec, the store and the queries are stated.

use vstd::prelude::*;

verus! {

/// A 32-byte identifier: a header hash, coin id, puzzle hash, asset id, etc.
#[derive(Clone, Debug, PartialEq, Eq)]
pub struct Bytes32 {
    pub bytes: Vec<u8>,
}

impl View for Bytes32 {
    type V = Seq<u8>;

    open spec fn view(&self) -> Seq<u8> {
        self.bytes@
    }
}

impl Bytes32 {
    /// Well-formed: exactly 32 bytes.
    pub open spec fn wf(&self) -> bool {
        self.bytes@.len() == 32
    }

    pub fn new(bytes: Vec<u8>) -> (r: Bytes32)
        requires
            bytes@.len() == 32,
        ensures
            r@ == bytes@,
            r.wf(),
    {
        Bytes32 { bytes }
    }

    pub fn clone_of(&self) -> (r: Bytes32)
        ensures
            r@ == self@,
    {
        Bytes32 { bytes: clone_bytes(&self.bytes) }
    }

    pub fn eq_to(&self, other: &Bytes32) -> (r: bool)
        ensures
            r <==> self@ == other@,
    {
        bytes_eq(&self.bytes, &other.bytes)
    }
}

/// Byte-vector equality, decided element by element.
pub fn bytes_eq(a: &Vec<u8>, b: &Vec<u8>) -> (r: bool)
    ensures
        r <==> a@ == b@,
{
    if a.len() != b.len() {
        assert(a@ != b@);
        return false;
    }
    let n: usize = a.len();
    let mut i: usize = 0;
    while i < n
        invariant
            n == a@.len(),
            a@.len() == b@.len(),
            i <= n,
            forall|j: int| 0 <= j < i ==> a@[j] == b@[j],
        decreases n - i,
    {
        if a[i] != b[i] {
            return false;
        }
        i += 1;
    }
    assert(a@ =~= b@);
    true
}

/// A copy of a byte vector.
pub fn clone_bytes(a: &Vec<u8>) -> (r: Vec<u8>)
    ensures
        r@ == a@,
{
    let mut out: Vec<u8> = Vec::new();
    let n: usize = a.len();
    let mut i: usize = 0;
    while i < n
        invariant
            n == a@.len(),
            i <= n,
            out@ == a@.subrange(0, i as int),
        decreases n - i,
    {
        out.push(a[i]);
        i += 1;
    }
    assert(out@ =~= a@);
    out
}


/// Views of optional fields, shared by the record views and the codec.
pub open spec fn vopt_b32(o: Option<Bytes32>) -> Option<Seq<u8>> {
    match o {
        Some(h) => Some(h@),
        None => None,
    }
}

pub open spec fn vopt_bytes(o: Option<Vec<u8>>) -> Option<Seq<u8>> {
    match o {
        Some(b) => Some(b@),
        None => None,
    }
}

pub open spec fn vopt_ti(o: Option<TransactionInfo>) -> Option<TransactionInfoV> {
    match o {
        Some(t) => Some(t@),
        None => None,
    }
}

pub open spec fn vopt_clp(o: Option<CatLineageProof>) -> Option<CatLineageProofV> {
    match o {
        Some(l) => Some(l@),
        None => None,
    }
}

pub open spec fn vopt_p2(o: Option<P2Puzzle>) -> Option<P2PuzzleV> {
    match o {
        Some(p) => Some(p@),
        None => None,
    }
}

/// An unspent output: identified by the tree hash of this triple.
#[derive(Clone, Debug, PartialEq, Eq)]
pub struct Coin {
    pub parent_coin_id: Bytes32,
    pub puzzle_hash: Bytes32,
    pub amount: u64,
}

#[verifier::ext_equal]
pub struct CoinV {
    pub parent_coin_id: Seq<u8>,
    pub puzzle_hash: Seq<u8>,
    pub amount: u64,
}

impl View for Coin {
    type V = CoinV;

    open spec fn view(&self) -> CoinV {
        CoinV {
            parent_coin_id: self.parent_coin_id@,
            puzzle_hash: self.puzzle_hash@,
            amount: self.amount,
        }
    }
}

impl CoinV {
    pub open spec fn wf(self) -> bool {
        self.parent_coin_id.len() == 32 && self.puzzle_hash.len() == 32
    }
}

impl Coin {
    pub open spec fn wf(&self) -> bool {
        self@.wf()
    }

    pub fn new(parent_coin_id: Bytes32, puzzle_hash: Bytes32, amount: u64) -> (r: Coin)
        ensures
            r@ == (CoinV {
                parent_coin_id: parent_coin_id@,
                puzzle_hash: puzzle_hash@,
                amount,
            }),
    {
        Coin { parent_coin_id, puzzle_hash, amount }
    }

    pub fn clone_of(&self) -> (r: Coin)
        ensures
            r@ == self@,
    {
        Coin {
            parent_coin_id: self.parent_coin_id.clone_of(),
            puzzle_hash: self.puzzle_hash.clone_of(),
            amount: self.amount,
        }
    }
}

/// Transaction-block metadata carried by a block record.
#[derive(Clone, Debug, PartialEq, Eq)]
pub struct TransactionInfo {
    pub timestamp: u64,
    pub fees: u64,
    pub cost: u64,
    pub additions: u32,
    pub removals: u32,
    pub prev_transaction_block_hash: Bytes32,
}

#[verifier::ext_equal]
pub struct TransactionInfoV {
    pub timestamp: u64,
    pub fees: u64,
    pub cost: u64,
    pub additions: u32,
    pub removals: u32,
    pub prev_transaction_block_hash: Seq<u8>,
}

impl View for TransactionInfo {
    type V = TransactionInfoV;

    open spec fn view(&self) -> TransactionInfoV {
        TransactionInfoV {
            timestamp: self.timestamp,
            fees: self.fees,
            cost: self.cost,
            additions: self.additions,
            removals: self.removals,
            prev_transaction_block_hash: self.prev_transaction_block_hash@,
        }
    }
}

impl TransactionInfoV {
    pub open spec fn wf(self) -> bool {
        self.prev_transaction_block_hash.len() == 32
    }
}


impl TransactionInfo {
    pub open spec fn wf(&self) -> bool {
        self@.wf()
    }
}

/// One row of the `blocks` column, keyed by height.
#[derive(Clone, Debug, PartialEq, Eq)]
pub struct BlockRecord {
    pub height: u32,
    pub header_hash: Bytes32,
    pub weight: u128,
    pub total_iters: u128,
    pub farmer_puzzle_hash: Bytes32,
    pub pool_puzzle_hash: Option<Bytes32>,
    pub prev_block_hash: Bytes32,
    pub transaction_info: Option<TransactionInfo>,
}

#[verifier::ext_equal]
pub struct BlockRecordV {
    pub height: u32,
    pub header_hash: Seq<u8>,
    pub weight: u128,
    pub total_iters: u128,
    pub farmer_puzzle_hash: Seq<u8>,
    pub pool_puzzle_hash: Option<Seq<u8>>,
    pub prev_block_hash: Seq<u8>,
    pub transaction_info: Option<TransactionInfoV>,
}

impl View for BlockRecord {
    type V = BlockRecordV;

    open spec fn view(&self) -> BlockRecordV {
        BlockRecordV {
            height: self.height,
            header_hash: self.header_hash@,
            weight: self.weight,
            total_iters: self.total_iters,
            farmer_puzzle_hash: self.farmer_puzzle_hash@,
            pool_puzzle_hash: match self.pool_puzzle_hash {
                Some(h) => Some(h@),
                None => None,
            },
            prev_block_hash: self.prev_block_hash@,
            transaction_info: match self.transaction_info {
                Some(t) => Some(t@),
                None => None,
            },
        }
    }
}

impl BlockRecordV {
    pub open spec fn wf(self) -> bool {
        &&& self.header_hash.len() == 32
        &&& self.farmer_puzzle_hash.len() == 32
        &&& self.prev_block_hash.len() == 32
        &&& match self.pool_puzzle_hash {
            Some(h) => h.len() == 32,
            None => true,
        }
        &&& match self.transaction_info {
            Some(t) => t.wf(),
            None => true,
        }
    }
}

impl BlockRecord {
    pub open spec fn wf(&self) -> bool {
        self@.wf()
    }
}

/// Lineage proof recorded for singleton-family coins (NFT, DID, plain
/// singleton). `parent_inner_puzzle_hash` is absent for an eve coin.
#[derive(Clone, Debug, PartialEq, Eq)]
pub struct SingletonLineageProof {
    pub parent_parent_coin_id: Bytes32,
    pub parent_inner_puzzle_hash: Option<Bytes32>,
    pub parent_amount: u64,
}

#[verifier::ext_equal]
pub struct SingletonLineageProofV {
    pub parent_parent_coin_id: Seq<u8>,
    pub parent_inner_puzzle_hash: Option<Seq<u8>>,
    pub parent_amount: u64,
}

impl View for SingletonLineageProof {
    type V = SingletonLineageProofV;

    open spec fn view(&self) -> SingletonLineageProofV {
        SingletonLineageProofV {
            parent_parent_coin_id: self.parent_parent_coin_id@,
            parent_inner_puzzle_hash: match self.parent_inner_puzzle_hash {
                Some(h) => Some(h@),
                None => None,
            },
            parent_amount: self.parent_amount,
        }
    }
}

impl SingletonLineageProofV {
    pub open spec fn wf(self) -> bool {
        &&& self.parent_parent_coin_id.len() == 32
        &&& match self.parent_inner_puzzle_hash {
            Some(h) => h.len() == 32,
            None => true,
        }
    }
}


impl SingletonLineageProof {
    pub open spec fn wf(&self) -> bool {
        self@.wf()
    }
}

/// Lineage proof recorded for fungible-token coins.
#[derive(Clone, Debug, PartialEq, Eq)]
pub struct CatLineageProof {
    pub parent_parent_coin_id: Bytes32,
    pub parent_inner_puzzle_hash: Bytes32,
    pub parent_amount: u64,
}

#[verifier::ext_equal]
pub struct CatLineageProofV {
    pub parent_parent_coin_id: Seq<u8>,
    pub parent_inner_puzzle_hash: Seq<u8>,
    pub parent_amount: u64,
}

impl View for CatLineageProof {
    type V = CatLineageProofV;

    open spec fn view(&self) -> CatLineageProofV {
        CatLineageProofV {
            parent_parent_coin_id: self.parent_parent_coin_id@,
            parent_inner_puzzle_hash: self.parent_inner_puzzle_hash@,
            parent_amount: self.parent_amount,
        }
    }
}

impl CatLineageProofV {
    pub open spec fn wf(self) -> bool {
        self.parent_parent_coin_id.len() == 32 && self.parent_inner_puzzle_hash.len() == 32
    }
}

/// Classification of a coin against the library of well-known templates.
#[derive(Clone, Debug, PartialEq, Eq)]
pub enum CoinKind {
    Unknown,
    Reward,
    Cat {
        asset_id: Bytes32,
        hidden_puzzle_hash: Option<Bytes32>,
        p2_puzzle_hash: Bytes32,
        lineage_proof: Option<CatLineageProof>,
    },
    Singleton {
        launcher_id: Bytes32,
        lineage_proof: SingletonLineageProof,
    },
    Nft {
        launcher_id: Bytes32,
        metadata: Vec<u8>,
        metadata_updater_puzzle_hash: Bytes32,
        current_owner: Option<Bytes32>,
        royalty_puzzle_hash: Bytes32,
        royalty_basis_points: u16,
        p2_puzzle_hash: Bytes32,
        lineage_proof: SingletonLineageProof,
    },
    Did {
        launcher_id: Bytes32,
        recovery_list_hash: Option<Bytes32>,
        num_verifications_required: u64,
        metadata: Vec<u8>,
        p2_puzzle_hash: Bytes32,
        lineage_proof: SingletonLineageProof,
    },
}

#[verifier::ext_equal]
pub enum CoinKindV {
    Unknown,
    Reward,
    Cat {
        asset_id: Seq<u8>,
        hidden_puzzle_hash: Option<Seq<u8>>,
        p2_puzzle_hash: Seq<u8>,
        lineage_proof: Option<CatLineageProofV>,
    },
    Singleton {
        launcher_id: Seq<u8>,
        lineage_proof: SingletonLineageProofV,
    },
    Nft {
        launcher_id: Seq<u8>,
        metadata: Seq<u8>,
        metadata_updater_puzzle_hash: Seq<u8>,
        current_owner: Option<Seq<u8>>,
        royalty_puzzle_hash: Seq<u8>,
        royalty_basis_points: u16,
        p2_puzzle_hash: Seq<u8>,
        lineage_proof: SingletonLineageProofV,
    },
    Did {
        launcher_id: Seq<u8>,
        recovery_list_hash: Option<Seq<u8>>,
        num_verifications_required: u64,
        metadata: Seq<u8>,
        p2_puzzle_hash: Seq<u8>,
        lineage_proof: SingletonLineageProofV,
    },
}

impl View for CoinKind {
    type V = CoinKindV;

    open spec fn view(&self) -> CoinKindV {
        match self {
            CoinKind::Unknown => CoinKindV::Unknown,
            CoinKind::Reward => CoinKindV::Reward,
            CoinKind::Cat { asset_id, hidden_puzzle_hash, p2_puzzle_hash, lineage_proof } => {
                CoinKindV::Cat {
                    asset_id: asset_id@,
                    hidden_puzzle_hash: match hidden_puzzle_hash {
                        Some(h) => Some(h@),
                        None => None,
                    },
                    p2_puzzle_hash: p2_puzzle_hash@,
                    lineage_proof: match lineage_proof {
                        Some(l) => Some(l@),
                        None => None,
                    },
                }
            },
            CoinKind::Singleton { launcher_id, lineage_proof } => {
                CoinKindV::Singleton { launcher_id: launcher_id@, lineage_proof: lineage_proof@ }
            },
            CoinKind::Nft {
                launcher_id,
                metadata,
                metadata_updater_puzzle_hash,
                current_owner,
                royalty_puzzle_hash,
                royalty_basis_points,
                p2_puzzle_hash,
                lineage_proof,
            } => {
                CoinKindV::Nft {
                    launcher_id: launcher_id@,
                    metadata: metadata@,
                    metadata_updater_puzzle_hash: metadata_updater_puzzle_hash@,
                    current_owner: match current_owner {
                        Some(h) => Some(h@),
                        None => None,
                    },
                    royalty_puzzle_hash: royalty_puzzle_hash@,
                    royalty_basis_points: *royalty_basis_points,
                    p2_puzzle_hash: p2_puzzle_hash@,
                    lineage_proof: lineage_proof@,
                }
            },
            CoinKind::Did {
                launcher_id,
                recovery_list_hash,
                num_verifications_required,
                metadata,
                p2_puzzle_hash,
                lineage_proof,
            } => {
                CoinKindV::Did {
                    launcher_id: launcher_id@,
                    recovery_list_hash: match recovery_list_hash {
                        Some(h) => Some(h@),
                        None => None,
                    },
                    num_verifications_required: *num_verifications_required,
                    metadata: metadata@,
                    p2_puzzle_hash: p2_puzzle_hash@,
                    lineage_proof: lineage_proof@,
                }
            },
        }
    }
}

impl CoinKindV {
    pub open spec fn wf(self) -> bool {
        match self {
            CoinKindV::Unknown => true,
            CoinKindV::Reward => true,
            CoinKindV::Cat { asset_id, hidden_puzzle_hash, p2_puzzle_hash, lineage_proof } => {
                &&& asset_id.len() == 32
                &&& match hidden_puzzle_hash {
                    Some(h) => h.len() == 32,
                    None => true,
                }
                &&& p2_puzzle_hash.len() == 32
                &&& match lineage_proof {
                    Some(l) => l.wf(),
                    None => true,
                }
            },
            CoinKindV::Singleton { launcher_id, lineage_proof } => {
                launcher_id.len() == 32 && lineage_proof.wf()
            },
            CoinKindV::Nft {
                launcher_id,
                metadata,
                metadata_updater_puzzle_hash,
                current_owner,
                royalty_puzzle_hash,
                p2_puzzle_hash,
                lineage_proof,
                ..
            } => {
                &&& launcher_id.len() == 32
                &&& metadata_updater_puzzle_hash.len() == 32
                &&& match current_owner {
                    Some(h) => h.len() == 32,
                    None => true,
                }
                &&& royalty_puzzle_hash.len() == 32
                &&& p2_puzzle_hash.len() == 32
                &&& lineage_proof.wf()
                &&& metadata.len() < 0x1_0000_0000
            },
            CoinKindV::Did {
                launcher_id,
                recovery_list_hash,
                metadata,
                p2_puzzle_hash,
                lineage_proof,
                ..
            } => {
                &&& launcher_id.len() == 32
                &&& match recovery_list_hash {
                    Some(h) => h.len() == 32,
                    None => true,
                }
                &&& p2_puzzle_hash.len() == 32
                &&& lineage_proof.wf()
                &&& metadata.len() < 0x1_0000_0000
            },
        }
    }
}


impl CatLineageProof {
    pub open spec fn wf(&self) -> bool {
        self@.wf()
    }
}


/// What can go wrong while decoding, replaying or reading back a block.
#[derive(Clone, Debug, PartialEq, Eq)]
pub enum Error {
    /// A slice had the wrong length for a 32-byte identifier.
    TryFromSlice,
    /// The blob could not be decompressed or parsed.
    Io,
    /// The generator output was not a well-formed spend list.
    Validation,
    /// The virtual machine failed to evaluate a puzzle.
    Eval,
    /// A value could not be read back from the virtual machine.
    FromClvm,
    /// A generator references a height that is not in the main chain.
    MissingReferenceBlock(u32),
    /// A persisted record failed to decode: storage corruption.
    Corrupt,
}

/// A copy of an optional 32-byte identifier.
pub fn clone_opt_b32(o: &Option<Bytes32>) -> (r: Option<Bytes32>)
    ensures
        match o {
            Some(h) => r matches Some(rh) && rh@ == h@,
            None => r is None,
        },
{
    match o {
        Some(h) => Some(h.clone_of()),
        None => None,
    }
}

impl SingletonLineageProof {
    pub fn clone_of(&self) -> (r: SingletonLineageProof)
        ensures
            r@ == self@,
    {
        SingletonLineageProof {
            parent_parent_coin_id: self.parent_parent_coin_id.clone_of(),
            parent_inner_puzzle_hash: clone_opt_b32(&self.parent_inner_puzzle_hash),
            parent_amount: self.parent_amount,
        }
    }
}

impl CatLineageProof {
    pub fn clone_of(&self) -> (r: CatLineageProof)
        ensures
            r@ == self@,
    {
        CatLineageProof {
            parent_parent_coin_id: self.parent_parent_coin_id.clone_of(),
            parent_inner_puzzle_hash: self.parent_inner_puzzle_hash.clone_of(),
            parent_amount: self.parent_amount,
        }
    }
}

impl CoinKind {
    pub fn clone_of(&self) -> (r: CoinKind)
        ensures
            r@ == self@,
    {
        match self {
            CoinKind::Unknown => CoinKind::Unknown,
            CoinKind::Reward => CoinKind::Reward,
            CoinKind::Cat { asset_id, hidden_puzzle_hash, p2_puzzle_hash, lineage_proof } => {
                CoinKind::Cat {
                    asset_id: asset_id.clone_of(),
                    hidden_puzzle_hash: clone_opt_b32(hidden_puzzle_hash),
                    p2_puzzle_hash: p2_puzzle_hash.clone_of(),
                    lineage_proof: match lineage_proof {
                        Some(l) => Some(l.clone_of()),
                        None => None,
                    },
                }
            },
            CoinKind::Singleton { launcher_id, lineage_proof } => {
                CoinKind::Singleton {
                    launcher_id: launcher_id.clone_of(),
                    lineage_proof: lineage_proof.clone_of(),
                }
            },
            CoinKind::Nft {
                launcher_id,
                metadata,
                metadata_updater_puzzle_hash,
                current_owner,
                royalty_puzzle_hash,
                royalty_basis_points,
                p2_puzzle_hash,
                lineage_proof,
            } => {
                CoinKind::Nft {
                    launcher_id: launcher_id.clone_of(),
                    metadata: clone_bytes(metadata),
                    metadata_updater_puzzle_hash: metadata_updater_puzzle_hash.clone_of(),
                    current_owner: clone_opt_b32(current_owner),
                    royalty_puzzle_hash: royalty_puzzle_hash.clone_of(),
                    royalty_basis_points: *royalty_basis_points,
                    p2_puzzle_hash: p2_puzzle_hash.clone_of(),
                    lineage_proof: lineage_proof.clone_of(),
                }
            },
            CoinKind::Did {
                launcher_id,
                recovery_list_hash,
                num_verifications_required,
                metadata,
                p2_puzzle_hash,
                lineage_proof,
            } => {
                CoinKind::Did {
                    launcher_id: launcher_id.clone_of(),
                    recovery_list_hash: clone_opt_b32(recovery_list_hash),
                    num_verifications_required: *num_verifications_required,
                    metadata: clone_bytes(metadata),
                    p2_puzzle_hash: p2_puzzle_hash.clone_of(),
                    lineage_proof: lineage_proof.clone_of(),
                }
            },
        }
    }
}

/// A time-locked escrow attached to a coin through its memo channel.
#[derive(Clone, Debug, PartialEq, Eq)]
pub enum P2Puzzle {
    ClawbackV2 {
        sender_puzzle_hash: Bytes32,
        receiver_puzzle_hash: Bytes32,
        seconds: u64,
        amount: u64,
        hinted: bool,
    },
}

#[verifier::ext_equal]
pub enum P2PuzzleV {
    ClawbackV2 {
        sender_puzzle_hash: Seq<u8>,
        receiver_puzzle_hash: Seq<u8>,
        seconds: u64,
        amount: u64,
        hinted: bool,
    },
}

impl View for P2Puzzle {
    type V = P2PuzzleV;

    open spec fn view(&self) -> P2PuzzleV {
        match self {
            P2Puzzle::ClawbackV2 {
                sender_puzzle_hash,
                receiver_puzzle_hash,
                seconds,
                amount,
                hinted,
            } => {
                P2PuzzleV::ClawbackV2 {
                    sender_puzzle_hash: sender_puzzle_hash@,
                    receiver_puzzle_hash: receiver_puzzle_hash@,
                    seconds: *seconds,
                    amount: *amount,
                    hinted: *hinted,
                }
            },
        }
    }
}

impl P2PuzzleV {
    pub open spec fn wf(self) -> bool {
        match self {
            P2PuzzleV::ClawbackV2 { sender_puzzle_hash, receiver_puzzle_hash, .. } => {
                sender_puzzle_hash.len() == 32 && receiver_puzzle_hash.len() == 32
            },
        }
    }
}

impl P2Puzzle {
    pub fn clone_of(&self) -> (r: P2Puzzle)
        ensures
            r@ == self@,
    {
        match self {
            P2Puzzle::ClawbackV2 {
                sender_puzzle_hash,
                receiver_puzzle_hash,
                seconds,
                amount,
                hinted,
            } => {
                P2Puzzle::ClawbackV2 {
                    sender_puzzle_hash: sender_puzzle_hash.clone_of(),
                    receiver_puzzle_hash: receiver_puzzle_hash.clone_of(),
                    seconds: *seconds,
                    amount: *amount,
                    hinted: *hinted,
                }
            },
        }
    }
}

/// One row of the `coins` column, keyed by coin id.
#[derive(Clone, Debug, PartialEq, Eq)]
pub struct CoinRecord {
    pub coin: Coin,
    pub created_height: u32,
    pub spent_height: Option<u32>,
    pub hint: Option<Bytes32>,
    pub memos: Option<Vec<u8>>,
    pub kind: CoinKind,
    pub p2_puzzle: Option<P2Puzzle>,
}

#[verifier::ext_equal]
pub struct CoinRecordV {
    pub coin: CoinV,
    pub created_height: u32,
    pub spent_height: Option<u32>,
    pub hint: Option<Seq<u8>>,
    pub memos: Option<Seq<u8>>,
    pub kind: CoinKindV,
    pub p2_puzzle: Option<P2PuzzleV>,
}

impl View for CoinRecord {
    type V = CoinRecordV;

    open spec fn view(&self) -> CoinRecordV {
        CoinRecordV {
            coin: self.coin@,
            created_height: self.created_height,
            spent_height: self.spent_height,
            hint: match self.hint {
                Some(h) => Some(h@),
                None => None,
            },
            memos: match self.memos {
                Some(m) => Some(m@),
                None => None,
            },
            kind: self.kind@,
            p2_puzzle: match self.p2_puzzle {
                Some(p) => Some(p@),
                None => None,
            },
        }
    }
}

impl CoinRecordV {
    pub open spec fn wf(self) -> bool {
        &&& self.coin.wf()
        &&& match self.hint {
            Some(h) => h.len() == 32,
            None => true,
        }
        &&& match self.memos {
            Some(m) => m.len() < 0x1_0000_0000,
            None => true,
        }
        &&& self.kind.wf()
        &&& match self.p2_puzzle {
            Some(p) => p.wf(),
            None => true,
        }
    }
}

impl CoinRecord {
    pub open spec fn wf(&self) -> bool {
        self@.wf()
    }
}

/// One row of the `coin_spends` column, keyed by coin id.
#[derive(Clone, Debug, PartialEq, Eq)]
pub struct CoinSpendRecord {
    pub coin: Coin,
    pub puzzle_reveal: Vec<u8>,
    pub solution: Vec<u8>,
    pub spent_height: u32,
}

#[verifier::ext_equal]
pub struct CoinSpendRecordV {
    pub coin: CoinV,
    pub puzzle_reveal: Seq<u8>,
    pub solution: Seq<u8>,
    pub spent_height: u32,
}

impl View for CoinSpendRecord {
    type V = CoinSpendRecordV;

    open spec fn view(&self) -> CoinSpendRecordV {
        CoinSpendRecordV {
            coin: self.coin@,
            puzzle_reveal: self.puzzle_reveal@,
            solution: self.solution@,
            spent_height: self.spent_height,
        }
    }
}

impl CoinSpendRecordV {
    pub open spec fn wf(self) -> bool {
        &&& self.coin.wf()
        &&& self.puzzle_reveal.len() < 0x1_0000_0000
        &&& self.solution.len() < 0x1_0000_0000
    }
}

impl CoinSpendRecord {
    pub open spec fn wf(&self) -> bool {
        self@.wf()
    }
}

/// The spent-coin output of classification: the spend row to write, together
/// with the refined kind and escrow information for the spent coin.
#[derive(Clone, Debug, PartialEq, Eq)]
pub struct UpdatedCoin {
    pub spend: CoinSpendRecord,
    pub kind: CoinKind,
    pub p2_puzzle: Option<P2Puzzle>,
}

#[verifier::ext_equal]
pub struct UpdatedCoinV {
    pub spend: CoinSpendRecordV,
    pub kind: CoinKindV,
    pub p2_puzzle: Option<P2PuzzleV>,
}

impl View for UpdatedCoin {
    type V = UpdatedCoinV;

    open spec fn view(&self) -> UpdatedCoinV {
        UpdatedCoinV {
            spend: self.spend@,
            kind: self.kind@,
            p2_puzzle: match self.p2_puzzle {
                Some(p) => Some(p@),
                None => None,
            },
        }
    }
}

impl UpdatedCoinV {
    pub open spec fn wf(self) -> bool {
        self.spend.wf() && self.kind.wf() && match self.p2_puzzle {
            Some(p) => p.wf(),
            None => true,
        }
    }
}

impl UpdatedCoin {
    pub open spec fn wf(&self) -> bool {
        self@.wf()
    }

    /// Fold this spend into an addition created in the same batch: the coin is
    /// written once, with both heights and the refined classification.
    pub fn apply(&self, coin_record: &mut CoinRecord)
        ensures
            final(coin_record)@ == (CoinRecordV {
                spent_height: Some(self.spend.spent_height),
                kind: if !(self.kind@ is Unknown) { self.kind@ } else { old(coin_record)@.kind },
                p2_puzzle: match self.p2_puzzle {
                    Some(p) => Some(p@),
                    None => old(coin_record)@.p2_puzzle,
                },
                ..old(coin_record)@
            }),
    {
        coin_record.spent_height = Some(self.spend.spent_height);
        if !matches!(self.kind, CoinKind::Unknown) {
            coin_record.kind = self.kind.clone_of();
        }
        if let Some(p) = &self.p2_puzzle {
            coin_record.p2_puzzle = Some(p.clone_of());
        }
    }
}

} // verus!
