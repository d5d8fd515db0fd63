//! The trusted boundary around the puzzle virtual machine and the standard
//! puzzle library.
//!
//! The machine's arena, node handles and parsed puzzles are opaque here:
//! nothing is assumed about what a puzzle evaluates to. Each wrapper makes
//! exactly one outside call and converts its result to plain values; the
//! classifier is then verified for every value those calls can hand back.
//! Only two results are named as pure functions of their arguments: the coin
//! id digest and the singleton wrapper hash, which depend on nothing but the
//! bytes given to them.

use vstd::prelude::*;

use chia_sdk_driver::Layer;
use chia_traits::Streamable;
use clvm_traits::FromClvm;

use crate::types::{
    Bytes32, CatLineageProof, Coin, Error, P2Puzzle, SingletonLineageProof,
};

verus! {

#[verifier::external_type_specification]
#[verifier::external_body]
pub struct ExAllocator(clvmr::Allocator);

#[verifier::external_type_specification]
#[verifier::external_body]
pub struct ExNodePtr(clvmr::NodePtr);

#[verifier::external_type_specification]
#[verifier::external_body]
pub struct ExPuzzle(chia_sdk_driver::Puzzle);

#[verifier::external_type_specification]
#[verifier::external_body]
#[verifier::reject_recursive_types(T)]
pub struct ExCondition<T>(chia_sdk_types::Condition<T>);

/// The coin id: the network's digest of the parent id, puzzle hash and
/// amount. A pure function of the three.
pub uninterp spec fn coin_id_of(parent: Seq<u8>, puzzle_hash: Seq<u8>, amount: u64) -> Seq<u8>;

/// The full puzzle hash of a singleton wrapper curried over a launcher id
/// and an inner puzzle hash. A pure function of the two.
pub uninterp spec fn singleton_ph_of(launcher_id: Seq<u8>, inner_ph: Seq<u8>) -> Seq<u8>;

/// The decompressed form of a block blob, when it is valid. A pure function
/// of the blob.
pub uninterp spec fn inflated(blob: Seq<u8>) -> Option<Seq<u8>>;

/// Relies on `chia_protocol::Coin::coin_id`: the sha-256 digest of the
/// parent id, puzzle hash and canonically encoded amount; it depends on the
/// three fields alone.
#[verifier::external_body]
pub fn coin_id(parent: &Bytes32, puzzle_hash: &Bytes32, amount: u64) -> (r: Bytes32)
    requires
        parent.wf(),
        puzzle_hash.wf(),
    ensures
        r@ == coin_id_of(parent@, puzzle_hash@, amount),
        r@.len() == 32,
{
    let c = chia_protocol::Coin::new(
        chia_protocol::Bytes32::new(parent.bytes.as_slice().try_into().unwrap()),
        chia_protocol::Bytes32::new(puzzle_hash.bytes.as_slice().try_into().unwrap()),
        amount,
    );
    Bytes32 { bytes: c.coin_id().as_ref().to_vec() }
}

/// Relies on `chia_puzzle_types::singleton::SingletonArgs::curry_tree_hash`:
/// the tree hash of the singleton wrapper over the two hashes; it depends on
/// them alone.
#[verifier::external_body]
pub fn singleton_puzzle_hash(launcher_id: &Bytes32, inner_ph: &Bytes32) -> (r: Bytes32)
    requires
        launcher_id.wf(),
        inner_ph.wf(),
    ensures
        r@ == singleton_ph_of(launcher_id@, inner_ph@),
        r@.len() == 32,
{
    let h = chia_puzzle_types::singleton::SingletonArgs::curry_tree_hash(
        chia_protocol::Bytes32::new(launcher_id.bytes.as_slice().try_into().unwrap()),
        clvm_utils::TreeHash::new(inner_ph.bytes.as_slice().try_into().unwrap()),
    );
    Bytes32 { bytes: h.to_bytes().to_vec() }
}

/// Relies on `zstd::decode_all`: whether a blob inflates, and to what,
/// depends on the blob alone.
#[verifier::external_body]
pub fn zstd_inflate(blob: &Vec<u8>) -> (r: Result<Vec<u8>, Error>)
    ensures
        r is Ok <==> inflated(blob@) is Some,
        r matches Ok(v) ==> v@ == inflated(blob@)->Some_0,
        r matches Err(e) ==> e == Error::Io,
{
    zstd::decode_all(std::io::Cursor::new(blob.as_slice())).map(|v| v).map_err(|_| Error::Io)
}

/// A fresh per-block arena. Relies on `clvmr::Allocator::new`.
#[verifier::external_body]
pub fn new_allocator() -> clvmr::Allocator {
    clvmr::Allocator::new()
}

/// Relies on `clvmr::serde::node_from_bytes_backrefs`: parse a serialized
/// program, with back-references, into the arena.
#[verifier::external_body]
pub fn node_from_bytes(a: &mut clvmr::Allocator, bytes: &Vec<u8>) -> (r: Result<
    clvmr::NodePtr,
    Error,
>)
    ensures
        r matches Err(e) ==> e == Error::Io,
{
    clvmr::serde::node_from_bytes_backrefs(a, bytes.as_slice()).map_err(|_| Error::Io)
}

/// Relies on `clvmr::serde::node_to_bytes`: serialize a node.
#[verifier::external_body]
pub fn node_to_bytes(a: &clvmr::Allocator, n: clvmr::NodePtr) -> (r: Result<Vec<u8>, Error>)
    ensures
        r matches Err(e) ==> e == Error::Io,
{
    clvmr::serde::node_to_bytes(a, n).map_err(|_| Error::Io)
}

/// Relies on `chia_consensus::run_block_generator::setup_generator_args`:
/// build the cons list of referenced generators the network specifies.
#[verifier::external_body]
pub fn setup_generator_args(a: &mut clvmr::Allocator, refs: &Vec<Vec<u8>>) -> (r: Result<
    clvmr::NodePtr,
    Error,
>)
    ensures
        r matches Err(e) ==> e == Error::Validation,
{
    chia_consensus::run_block_generator::setup_generator_args(
        a,
        refs.iter().map(|r| r.as_slice()),
        0,
    ).map_err(|_| Error::Validation)
}

/// Relies on `chia_sdk_types::run_puzzle`: evaluate a puzzle against a
/// solution inside the machine.
#[verifier::external_body]
pub fn run_puzzle(a: &mut clvmr::Allocator, puzzle: clvmr::NodePtr, solution: clvmr::NodePtr) -> (r:
    Result<clvmr::NodePtr, Error>)
    ensures
        r matches Err(e) ==> e == Error::Eval,
{
    chia_sdk_types::run_puzzle(a, puzzle, solution).map_err(|_| Error::Eval)
}

/// Relies on `chia_consensus::validation_error::first`: the head of a pair.
#[verifier::external_body]
pub fn first_node(a: &clvmr::Allocator, n: clvmr::NodePtr) -> (r: Result<clvmr::NodePtr, Error>)
    ensures
        r matches Err(e) ==> e == Error::Validation,
{
    chia_consensus::validation_error::first(a, n).map_err(|_| Error::Validation)
}

/// Relies on `chia_consensus::validation_error::next`: one step along the
/// spend list, or its end.
#[verifier::external_body]
pub fn next_node(a: &clvmr::Allocator, n: clvmr::NodePtr) -> (r: Result<
    Option<(clvmr::NodePtr, clvmr::NodePtr)>,
    Error,
>)
    ensures
        r matches Err(e) ==> e == Error::Validation,
{
    chia_consensus::validation_error::next(a, n).map_err(|_| Error::Validation)
}

/// Relies on `chia_consensus::get_puzzle_and_solution::parse_coin_spend`:
/// one spend-list element as parent id, amount, puzzle and solution.
#[verifier::external_body]
pub fn parse_spend_node(a: &clvmr::Allocator, n: clvmr::NodePtr) -> (r: Result<
    (Bytes32, u64, clvmr::NodePtr, clvmr::NodePtr),
    Error,
>)
    ensures
        r matches Ok(v) ==> v.0@.len() == 32,
        r matches Err(e) ==> e == Error::Validation,
{
    let (parent, amount, puzzle, solution) =
        chia_consensus::get_puzzle_and_solution::parse_coin_spend(a, n).map_err(
            |_| Error::Validation,
        )?;
    if parent.as_ref().len() != 32 {
        return Err(Error::Validation);
    }
    Ok((Bytes32 { bytes: parent.as_ref().to_vec() }, amount, puzzle, solution))
}

/// Relies on `chia_sdk_driver::Puzzle::parse`: read a node as a puzzle,
/// peeling a curried form if there is one.
#[verifier::external_body]
pub fn puzzle_parse(a: &clvmr::Allocator, n: clvmr::NodePtr) -> chia_sdk_driver::Puzzle {
    chia_sdk_driver::Puzzle::parse(a, n)
}

/// Relies on `chia_sdk_driver::Puzzle::curried_puzzle_hash`.
#[verifier::external_body]
pub fn puzzle_hash(p: &chia_sdk_driver::Puzzle) -> (r: Bytes32)
    ensures
        r@.len() == 32,
{
    Bytes32 { bytes: p.curried_puzzle_hash().to_bytes().to_vec() }
}

/// Relies on `chia_sdk_driver::Puzzle::mod_hash`: the hash of the uncurried
/// module, the classifier's dispatch key.
#[verifier::external_body]
pub fn puzzle_mod_hash(p: &chia_sdk_driver::Puzzle) -> (r: Bytes32)
    ensures
        r@.len() == 32,
{
    Bytes32 { bytes: p.mod_hash().to_bytes().to_vec() }
}

/// Relies on `chia_sdk_driver::Puzzle::ptr`.
#[verifier::external_body]
pub fn puzzle_ptr(p: &chia_sdk_driver::Puzzle) -> clvmr::NodePtr {
    p.ptr()
}

/// Relies on `clvm_traits::FromClvm` for `Vec<Condition>`: the condition
/// list a puzzle evaluation produced.
#[verifier::external_body]
pub fn conditions_from(a: &clvmr::Allocator, output: clvmr::NodePtr) -> (r: Result<
    Vec<chia_sdk_types::Condition<clvmr::NodePtr>>,
    Error,
>)
    ensures
        r matches Err(e) ==> e == Error::FromClvm,
{
    Vec::<chia_sdk_types::Condition<clvmr::NodePtr>>::from_clvm(a, output).map_err(
        |_| Error::FromClvm,
    )
}

/// A create-coin condition as plain values: puzzle hash, amount, and the
/// memos node if one was given.
pub struct CreateCoinData {
    pub puzzle_hash: Bytes32,
    pub amount: u64,
    pub memos: Option<clvmr::NodePtr>,
}

/// One condition, split into what the classifier acts on: a created coin, a
/// revealed TAIL program, a singleton melt, or anything else.
pub enum ConditionData {
    Create(CreateCoinData),
    Tail(clvmr::NodePtr),
    Melt,
    Other,
}

/// Tells the variants of an outside `Condition` apart, one arm each,
/// moving their fields; the memo marker is split into an option.
#[verifier::external_body]
pub fn condition_data(c: chia_sdk_types::Condition<clvmr::NodePtr>) -> (r: ConditionData)
    ensures
        r matches ConditionData::Create(d) ==> d.puzzle_hash@.len() == 32,
{
    match c {
        chia_sdk_types::Condition::CreateCoin(cc) => ConditionData::Create(CreateCoinData {
            puzzle_hash: Bytes32 { bytes: cc.puzzle_hash.as_ref().to_vec() },
            amount: cc.amount,
            memos: match cc.memos {
                chia_puzzle_types::Memos::Some(n) => Some(n),
                chia_puzzle_types::Memos::None => None,
            },
        }),
        chia_sdk_types::Condition::RunCatTail(rct) => ConditionData::Tail(rct.program),
        chia_sdk_types::Condition::MeltSingleton(_) => ConditionData::Melt,
        _ => ConditionData::Other,
    }
}

/// Relies on `clvm_traits::FromClvm` for `(Bytes32, NodePtr)`: the leading
/// 32-byte memo of a memo list, with the rest of the list.
#[verifier::external_body]
pub fn parse_hint(a: &clvmr::Allocator, memos: clvmr::NodePtr) -> (r: Option<
    (Bytes32, clvmr::NodePtr),
>)
    ensures
        r matches Some(p) ==> p.0@.len() == 32,
{
    let (hint, rest) = <(chia_protocol::Bytes32, clvmr::NodePtr)>::from_clvm(a, memos).ok()?;
    Some((Bytes32 { bytes: hint.as_ref().to_vec() }, rest))
}

/// Relies on `clvm_traits::FromClvm` for `(NodePtr, NodePtr)`: the head of a
/// list of nodes, with the rest.
#[verifier::external_body]
pub fn parse_pair(a: &clvmr::Allocator, n: clvmr::NodePtr) -> Option<(clvmr::NodePtr, clvmr::NodePtr)> {
    <(clvmr::NodePtr, clvmr::NodePtr)>::from_clvm(a, n).ok()
}

#[verifier::external_type_specification]
#[verifier::external_body]
pub struct ExLineageProof(chia_puzzle_types::LineageProof);

#[verifier::external_type_specification]
#[verifier::external_body]
pub struct ExProof(chia_puzzle_types::Proof);

/// Converts an outside lineage proof, field for field.
#[verifier::external_body]
fn cat_lineage(l: chia_puzzle_types::LineageProof) -> (r: CatLineageProof)
    ensures
        r@.wf(),
{
    CatLineageProof {
        parent_parent_coin_id: Bytes32 { bytes: l.parent_parent_coin_info.as_ref().to_vec() },
        parent_inner_puzzle_hash: Bytes32 { bytes: l.parent_inner_puzzle_hash.as_ref().to_vec() },
        parent_amount: l.parent_amount,
    }
}

/// Converts an outside singleton proof: an eve proof carries no parent
/// inner hash.
#[verifier::external_body]
fn singleton_lineage(p: &chia_puzzle_types::Proof) -> (r: SingletonLineageProof)
    ensures
        r@.wf(),
{
    let (pp, inner, amount) = match p {
        chia_puzzle_types::Proof::Eve(e) => (e.parent_parent_coin_info, None, e.parent_amount),
        chia_puzzle_types::Proof::Lineage(l) => (
            l.parent_parent_coin_info,
            Some(l.parent_inner_puzzle_hash),
            l.parent_amount,
        ),
    };
    SingletonLineageProof {
        parent_parent_coin_id: Bytes32 { bytes: pp.as_ref().to_vec() },
        parent_inner_puzzle_hash: inner.map(|x| Bytes32 { bytes: x.as_ref().to_vec() }),
        parent_amount: amount,
    }
}

#[verifier::external_type_specification]
#[verifier::external_body]
pub struct ExParsedCat(chia_sdk_driver::ParsedCat);

#[verifier::external_type_specification]
#[verifier::external_body]
pub struct ExCat(chia_sdk_driver::Cat);

#[verifier::external_type_specification]
#[verifier::external_body]
#[verifier::reject_recursive_types(I)]
pub struct ExSingletonPrimitive<I>(chia_sdk_driver::Singleton<I>);

#[verifier::external_type_specification]
#[verifier::external_body]
pub struct ExNftInfo(chia_sdk_driver::NftInfo);

#[verifier::external_type_specification]
#[verifier::external_body]
pub struct ExDidInfo(chia_sdk_driver::DidInfo);

/// A fungible-token wrapper read from a spend.
pub struct CatData {
    pub asset_id: Bytes32,
    pub hidden_puzzle_hash: Option<Bytes32>,
    pub p2_puzzle_hash: Bytes32,
    pub lineage_proof: Option<CatLineageProof>,
}

impl CatData {
    pub open spec fn wf(&self) -> bool {
        &&& self.asset_id@.len() == 32
        &&& match self.hidden_puzzle_hash {
            Some(h) => h@.len() == 32,
            None => true,
        }
        &&& self.p2_puzzle_hash@.len() == 32
        &&& match self.lineage_proof {
            Some(l) => l@.wf(),
            None => true,
        }
    }
}

/// A fungible-token child reconstructed from its parent's spend.
pub struct CatChildData {
    pub coin: Coin,
    pub info: CatData,
}

/// Relies on `chia_sdk_driver::Cat::parse`: `Ok(None)` when the puzzle is
/// not a token wrapper; an error when it should have been one but did not
/// parse.
#[verifier::external_body]
pub fn cat_parse(
    a: &clvmr::Allocator,
    coin: &Coin,
    puzzle: &chia_sdk_driver::Puzzle,
    solution: clvmr::NodePtr,
) -> (r: Result<Option<chia_sdk_driver::ParsedCat>, Error>)
    requires
        coin.wf(),
    ensures
        r matches Err(e) ==> e == Error::Eval,
{
    let c = chia_protocol::Coin::new(
        coin.parent_coin_id.bytes.as_slice().try_into().unwrap(),
        coin.puzzle_hash.bytes.as_slice().try_into().unwrap(),
        coin.amount,
    );
    chia_sdk_driver::Cat::parse(a, c, *puzzle, solution).map_err(|_| Error::Eval)
}

/// Picks the token fields out of a parsed wrapper.
#[verifier::external_body]
pub fn cat_data(p: &chia_sdk_driver::ParsedCat) -> (r: CatData)
    ensures
        r.wf(),
{
    CatData {
        asset_id: Bytes32 { bytes: p.cat.info.asset_id.as_ref().to_vec() },
        hidden_puzzle_hash: p.cat.info.hidden_puzzle_hash.map(
            |x| Bytes32 { bytes: x.as_ref().to_vec() },
        ),
        p2_puzzle_hash: Bytes32 { bytes: p.cat.info.p2_puzzle_hash.as_ref().to_vec() },
        lineage_proof: p.cat.lineage_proof.map(cat_lineage),
    }
}

/// Relies on `chia_sdk_driver::Cat::parse_children`: the token children of
/// a token spend.
#[verifier::external_body]
pub fn cat_children(
    a: &mut clvmr::Allocator,
    coin: &Coin,
    puzzle: &chia_sdk_driver::Puzzle,
    solution: clvmr::NodePtr,
) -> (r: Option<Vec<chia_sdk_driver::Cat>>)
    requires
        coin.wf(),
{
    let c = chia_protocol::Coin::new(
        coin.parent_coin_id.bytes.as_slice().try_into().unwrap(),
        coin.puzzle_hash.bytes.as_slice().try_into().unwrap(),
        coin.amount,
    );
    chia_sdk_driver::Cat::parse_children(a, c, *puzzle, solution).ok().flatten()
}

/// Picks a token child's reconstructed coin.
#[verifier::external_body]
pub fn cat_child_coin(c: &chia_sdk_driver::Cat) -> (r: Coin)
    ensures
        r.wf(),
{
    Coin {
        parent_coin_id: Bytes32 { bytes: c.coin.parent_coin_info.as_ref().to_vec() },
        puzzle_hash: Bytes32 { bytes: c.coin.puzzle_hash.as_ref().to_vec() },
        amount: c.coin.amount,
    }
}

/// Picks a token child's classification fields.
#[verifier::external_body]
pub fn cat_child_data(c: &chia_sdk_driver::Cat) -> (r: CatData)
    ensures
        r.wf(),
{
    CatData {
        asset_id: Bytes32 { bytes: c.info.asset_id.as_ref().to_vec() },
        hidden_puzzle_hash: c.info.hidden_puzzle_hash.map(
            |x| Bytes32 { bytes: x.as_ref().to_vec() },
        ),
        p2_puzzle_hash: Bytes32 { bytes: c.info.p2_puzzle_hash.as_ref().to_vec() },
        lineage_proof: c.lineage_proof.map(cat_lineage),
    }
}

/// A unique-token wrapper read from a spend; the metadata stays a node
/// until it is serialized.
pub struct NftData {
    pub launcher_id: Bytes32,
    pub metadata: clvmr::NodePtr,
    pub metadata_updater_puzzle_hash: Bytes32,
    pub current_owner: Option<Bytes32>,
    pub royalty_puzzle_hash: Bytes32,
    pub royalty_basis_points: u16,
    pub p2_puzzle_hash: Bytes32,
    pub lineage: SingletonLineageProof,
}

impl NftData {
    pub open spec fn wf(&self) -> bool {
        &&& self.launcher_id@.len() == 32
        &&& self.metadata_updater_puzzle_hash@.len() == 32
        &&& match self.current_owner {
            Some(h) => h@.len() == 32,
            None => true,
        }
        &&& self.royalty_puzzle_hash@.len() == 32
        &&& self.p2_puzzle_hash@.len() == 32
        &&& self.lineage@.wf()
    }
}

/// Relies on `chia_sdk_driver::Nft::parse`.
#[verifier::external_body]
pub fn nft_parse(
    a: &clvmr::Allocator,
    coin: &Coin,
    puzzle: &chia_sdk_driver::Puzzle,
    solution: clvmr::NodePtr,
) -> (r: Result<Option<chia_sdk_driver::Nft>, Error>)
    requires
        coin.wf(),
    ensures
        r matches Err(e) ==> e == Error::Eval,
{
    let c = chia_protocol::Coin::new(
        coin.parent_coin_id.bytes.as_slice().try_into().unwrap(),
        coin.puzzle_hash.bytes.as_slice().try_into().unwrap(),
        coin.amount,
    );
    match chia_sdk_driver::Nft::parse(a, c, *puzzle, solution) {
        Ok(v) => Ok(v.map(|(nft, _, _)| nft)),
        Err(_) => Err(Error::Eval),
    }
}

/// Relies on `chia_sdk_driver::Nft::parse_child`.
#[verifier::external_body]
pub fn nft_parse_child(
    a: &mut clvmr::Allocator,
    coin: &Coin,
    puzzle: &chia_sdk_driver::Puzzle,
    solution: clvmr::NodePtr,
) -> (r: Option<chia_sdk_driver::Nft>)
    requires
        coin.wf(),
{
    let c = chia_protocol::Coin::new(
        coin.parent_coin_id.bytes.as_slice().try_into().unwrap(),
        coin.puzzle_hash.bytes.as_slice().try_into().unwrap(),
        coin.amount,
    );
    chia_sdk_driver::Nft::parse_child(a, c, *puzzle, solution).ok().flatten()
}

/// Picks a unique token's reconstructed coin.
#[verifier::external_body]
pub fn nft_coin(n: &chia_sdk_driver::Nft) -> (r: Coin)
    ensures
        r.wf(),
{
    Coin {
        parent_coin_id: Bytes32 { bytes: n.coin.parent_coin_info.as_ref().to_vec() },
        puzzle_hash: Bytes32 { bytes: n.coin.puzzle_hash.as_ref().to_vec() },
        amount: n.coin.amount,
    }
}

/// Picks a unique token's classification fields.
#[verifier::external_body]
pub fn nft_data(n: &chia_sdk_driver::Nft) -> (r: NftData)
    ensures
        r.wf(),
{
    NftData {
        launcher_id: Bytes32 { bytes: n.info.launcher_id.as_ref().to_vec() },
        metadata: n.info.metadata.ptr(),
        metadata_updater_puzzle_hash: Bytes32 {
            bytes: n.info.metadata_updater_puzzle_hash.as_ref().to_vec(),
        },
        current_owner: n.info.current_owner.map(|x| Bytes32 { bytes: x.as_ref().to_vec() }),
        royalty_puzzle_hash: Bytes32 { bytes: n.info.royalty_puzzle_hash.as_ref().to_vec() },
        royalty_basis_points: n.info.royalty_basis_points,
        p2_puzzle_hash: Bytes32 { bytes: n.info.p2_puzzle_hash.as_ref().to_vec() },
        lineage: singleton_lineage(&n.proof),
    }
}

/// A decentralized-identifier wrapper read from a spend.
pub struct DidData {
    pub launcher_id: Bytes32,
    pub recovery_list_hash: Option<Bytes32>,
    pub num_verifications_required: u64,
    pub metadata: clvmr::NodePtr,
    pub p2_puzzle_hash: Bytes32,
    pub lineage: SingletonLineageProof,
}

impl DidData {
    pub open spec fn wf(&self) -> bool {
        &&& self.launcher_id@.len() == 32
        &&& match self.recovery_list_hash {
            Some(h) => h@.len() == 32,
            None => true,
        }
        &&& self.p2_puzzle_hash@.len() == 32
        &&& self.lineage@.wf()
    }
}

/// Relies on `chia_sdk_driver::Did::parse`.
#[verifier::external_body]
pub fn did_parse(
    a: &clvmr::Allocator,
    coin: &Coin,
    puzzle: &chia_sdk_driver::Puzzle,
    solution: clvmr::NodePtr,
) -> (r: Result<Option<chia_sdk_driver::Did>, Error>)
    requires
        coin.wf(),
    ensures
        r matches Err(e) ==> e == Error::Eval,
{
    let c = chia_protocol::Coin::new(
        coin.parent_coin_id.bytes.as_slice().try_into().unwrap(),
        coin.puzzle_hash.bytes.as_slice().try_into().unwrap(),
        coin.amount,
    );
    match chia_sdk_driver::Did::parse(a, c, *puzzle, solution) {
        Ok(v) => Ok(v.map(|(did, _)| did)),
        Err(_) => Err(Error::Eval),
    }
}

/// Relies on `chia_sdk_driver::Did::parse_child`: the identifier child
/// matching a hinted coin.
#[verifier::external_body]
pub fn did_parse_child(
    a: &mut clvmr::Allocator,
    coin: &Coin,
    puzzle: &chia_sdk_driver::Puzzle,
    solution: clvmr::NodePtr,
    child: &Coin,
) -> (r: Option<chia_sdk_driver::Did>)
    requires
        coin.wf(),
        child.wf(),
{
    let c = chia_protocol::Coin::new(
        coin.parent_coin_id.bytes.as_slice().try_into().unwrap(),
        coin.puzzle_hash.bytes.as_slice().try_into().unwrap(),
        coin.amount,
    );
    let cc = chia_protocol::Coin::new(
        child.parent_coin_id.bytes.as_slice().try_into().unwrap(),
        child.puzzle_hash.bytes.as_slice().try_into().unwrap(),
        child.amount,
    );
    chia_sdk_driver::Did::parse_child(a, c, *puzzle, solution, cc).ok().flatten()
}

/// Picks an identifier's classification fields.
#[verifier::external_body]
pub fn did_data(d: &chia_sdk_driver::Did) -> (r: DidData)
    ensures
        r.wf(),
{
    DidData {
        launcher_id: Bytes32 { bytes: d.info.launcher_id.as_ref().to_vec() },
        recovery_list_hash: d.info.recovery_list_hash.map(
            |x| Bytes32 { bytes: x.as_ref().to_vec() },
        ),
        num_verifications_required: d.info.num_verifications_required,
        metadata: d.info.metadata.ptr(),
        p2_puzzle_hash: Bytes32 { bytes: d.info.p2_puzzle_hash.as_ref().to_vec() },
        lineage: singleton_lineage(&d.proof),
    }
}

/// Relies on `chia_sdk_driver::SingletonLayer::parse_puzzle`: the launcher
/// id and inner puzzle of a singleton wrapper, or nothing for any other
/// puzzle.
#[verifier::external_body]
pub fn singleton_parse(a: &clvmr::Allocator, puzzle: &chia_sdk_driver::Puzzle) -> (r: Result<
    Option<(Bytes32, chia_sdk_driver::Puzzle)>,
    Error,
>)
    ensures
        r matches Ok(Some(p)) ==> p.0@.len() == 32,
        r matches Err(e) ==> e == Error::Eval,
{
    match chia_sdk_driver::SingletonLayer::<chia_sdk_driver::Puzzle>::parse_puzzle(a, *puzzle) {
        Ok(Some(layer)) => Ok(Some((
            Bytes32 { bytes: layer.launcher_id.as_ref().to_vec() },
            layer.inner_puzzle,
        ))),
        Ok(None) => Ok(None),
        Err(_) => Err(Error::Eval),
    }
}

/// Relies on `chia_sdk_driver::SingletonLayer::parse_solution`: the lineage
/// proof, amount and inner solution of a singleton spend.
#[verifier::external_body]
pub fn singleton_solution_parse(a: &clvmr::Allocator, solution: clvmr::NodePtr) -> (r: Result<
    (SingletonLineageProof, u64, clvmr::NodePtr),
    Error,
>)
    ensures
        r matches Ok(p) ==> p.0@.wf(),
        r matches Err(e) ==> e == Error::Eval,
{
    match chia_sdk_driver::SingletonLayer::<chia_sdk_driver::Puzzle>::parse_solution(a, solution) {
        Ok(sol) => Ok((singleton_lineage(&sol.lineage_proof), sol.amount, sol.inner_solution)),
        Err(_) => Err(Error::Eval),
    }
}

/// Relies on `chia_sdk_driver::ClawbackV2::from_memo`: the escrow encoded in
/// a memo, checked against the expected inner puzzle hash. The receiver,
/// amount and hinted flag of the result are the ones given.
#[verifier::external_body]
pub fn clawback_from_memo(
    a: &clvmr::Allocator,
    memo: clvmr::NodePtr,
    receiver: &Bytes32,
    amount: u64,
    hinted: bool,
    expected_p2: &Bytes32,
) -> (r: Option<P2Puzzle>)
    requires
        receiver.wf(),
        expected_p2.wf(),
    ensures
        r matches Some(p) ==> p@.wf() && (p@ matches crate::types::P2PuzzleV::ClawbackV2 {
            receiver_puzzle_hash,
            amount: am,
            hinted: hi,
            ..
        } && receiver_puzzle_hash == receiver@ && am == amount && hi == hinted),
{
    let rb = receiver.bytes.as_slice().try_into().unwrap();
    let eb = expected_p2.bytes.as_slice().try_into().unwrap();
    let cb = chia_sdk_driver::ClawbackV2::from_memo(a, memo, rb, amount, hinted, eb)?;
    Some(P2Puzzle::ClawbackV2 {
        sender_puzzle_hash: Bytes32 { bytes: cb.sender_puzzle_hash.as_ref().to_vec() },
        receiver_puzzle_hash: Bytes32 { bytes: cb.receiver_puzzle_hash.as_ref().to_vec() },
        seconds: cb.seconds,
        amount: cb.amount,
        hinted: cb.hinted,
    })
}

#[verifier::external_type_specification]
#[verifier::external_body]
pub struct ExFullBlock(chia_protocol::FullBlock);

/// Relies on `chia_traits::Streamable::from_bytes`: parse a decompressed
/// blob as a full block.
#[verifier::external_body]
pub fn fb_from_bytes(bytes: &Vec<u8>) -> (r: Result<chia_protocol::FullBlock, Error>)
    ensures
        r matches Err(e) ==> e == Error::Io,
{
    chia_protocol::FullBlock::from_bytes(bytes.as_slice()).map_err(|_| Error::Io)
}

/// Relies on `FullBlock::height`.
#[verifier::external_body]
pub fn fb_height(b: &chia_protocol::FullBlock) -> u32 {
    b.height()
}

/// Relies on `FullBlock::header_hash`: the hash of the block's foliage.
#[verifier::external_body]
pub fn fb_header_hash(b: &chia_protocol::FullBlock) -> (r: Bytes32)
    ensures
        r@.len() == 32,
{
    Bytes32 { bytes: b.header_hash().as_ref().to_vec() }
}

/// Relies on `FullBlock::prev_header_hash`.
#[verifier::external_body]
pub fn fb_prev_header_hash(b: &chia_protocol::FullBlock) -> (r: Bytes32)
    ensures
        r@.len() == 32,
{
    Bytes32 { bytes: b.prev_header_hash().as_ref().to_vec() }
}

/// Relies on `FullBlock::weight`.
#[verifier::external_body]
pub fn fb_weight(b: &chia_protocol::FullBlock) -> u128 {
    b.weight()
}

/// Relies on `FullBlock::total_iters`.
#[verifier::external_body]
pub fn fb_total_iters(b: &chia_protocol::FullBlock) -> u128 {
    b.total_iters()
}

/// Picks the farmer payout hash out of the block's foliage.
#[verifier::external_body]
pub fn fb_farmer_puzzle_hash(b: &chia_protocol::FullBlock) -> (r: Bytes32)
    ensures
        r@.len() == 32,
{
    Bytes32 {
        bytes: b.foliage.foliage_block_data.farmer_reward_puzzle_hash.as_ref().to_vec(),
    }
}

/// Picks the pool payout hash out of the block's proof of space, if one is
/// declared.
#[verifier::external_body]
pub fn fb_pool_puzzle_hash(b: &chia_protocol::FullBlock) -> (r: Option<Bytes32>)
    ensures
        r matches Some(h) ==> h@.len() == 32,
{
    b.reward_chain_block.proof_of_space.pool_contract_puzzle_hash.map(
        |x| Bytes32 { bytes: x.as_ref().to_vec() },
    )
}

/// Picks the transaction-block metadata, present only on transaction
/// blocks: timestamp, fees, cost, and the previous transaction block hash.
#[verifier::external_body]
pub fn fb_transaction_info(b: &chia_protocol::FullBlock) -> (r: Option<(u64, u64, u64, Bytes32)>)
    ensures
        r matches Some(t) ==> t.3@.len() == 32,
{
    match (&b.transactions_info, &b.foliage_transaction_block) {
        (Some(ti), Some(tb)) => Some((
            tb.timestamp,
            ti.fees,
            ti.cost,
            Bytes32 { bytes: tb.prev_transaction_block_hash.as_ref().to_vec() },
        )),
        _ => None,
    }
}

/// Relies on `FullBlock::get_included_reward_coins`: the coins the block's
/// fixed reward formula pays out.
#[verifier::external_body]
pub fn fb_reward_coins(b: &chia_protocol::FullBlock) -> (r: Vec<Coin>)
    ensures
        forall|i: int| 0 <= i < r@.len() ==> (#[trigger] r@[i]).wf(),
{
    b.get_included_reward_coins().into_iter().map(|c| Coin {
        parent_coin_id: Bytes32 { bytes: c.parent_coin_info.as_ref().to_vec() },
        puzzle_hash: Bytes32 { bytes: c.puzzle_hash.as_ref().to_vec() },
        amount: c.amount,
    }).collect()
}

/// Picks the serialized transaction generator, if the block has one.
#[verifier::external_body]
pub fn fb_generator(b: &chia_protocol::FullBlock) -> Option<Vec<u8>> {
    b.transactions_generator.as_ref().map(|p| p.as_ref().to_vec())
}

/// Picks the heights of the prior blocks whose generators are referenced.
#[verifier::external_body]
pub fn fb_generator_refs(b: &chia_protocol::FullBlock) -> Vec<u32> {
    b.transactions_generator_ref_list.clone()
}

} // verus!
