//! The writer: turns a merged `Insertions` value into one atomic write
//! batch and commits it.
//!
//! `ins_batch` is the exact list of puts the writer issues: for each block
//! its row and its hash-index row; for each coin its row, its created-height
//! and parent index rows, and its spent-height index row if it is spent; for
//! each spend its row and its spent-height index row; for each TAIL its
//! bytes under the asset id. Because the batch is a function of the
//! insertions alone, committing the same insertions twice leaves the store
//! exactly where the first commit left it.

use vstd::prelude::*;

use crate::codec::{
    enc_u32, encode_block_record, encode_coin_record, encode_coin_spend_record, senc_block_record,
    senc_coin_record, senc_coin_spend_record, senc_u32,
};
use crate::store::{apply_batch, Cf, PutV, Store, StoreV, WriteBatch};
use crate::store::lemma_apply_batch_idempotent;
use crate::types::{
    clone_bytes, BlockRecord, BlockRecordV, Bytes32, CoinRecord, CoinRecordV, CoinSpendRecord,
    CoinSpendRecordV,
};

verus! {

/// The merged output of classifying a batch of blocks, ready to become one
/// atomic write batch. Insertion order is preserved.
pub struct Insertions {
    pub blocks: Vec<BlockRecord>,
    pub coins: Vec<(Bytes32, CoinRecord)>,
    pub spends: Vec<(Bytes32, CoinSpendRecord)>,
    pub tails: Vec<(Bytes32, Vec<u8>)>,
}

#[verifier::ext_equal]
pub struct InsertionsV {
    pub blocks: Seq<BlockRecordV>,
    pub coins: Seq<(Seq<u8>, CoinRecordV)>,
    pub spends: Seq<(Seq<u8>, CoinSpendRecordV)>,
    pub tails: Seq<(Seq<u8>, Seq<u8>)>,
}

impl View for Insertions {
    type V = InsertionsV;

    open spec fn view(&self) -> InsertionsV {
        InsertionsV {
            blocks: self.blocks@.map_values(|b: BlockRecord| b@),
            coins: self.coins@.map_values(|c: (Bytes32, CoinRecord)| (c.0@, c.1@)),
            spends: self.spends@.map_values(|c: (Bytes32, CoinSpendRecord)| (c.0@, c.1@)),
            tails: self.tails@.map_values(|c: (Bytes32, Vec<u8>)| (c.0@, c.1@)),
        }
    }
}

impl Insertions {
    pub open spec fn wf(&self) -> bool {
        &&& forall|i: int| 0 <= i < self@.blocks.len() ==> (#[trigger] self@.blocks[i]).wf()
        &&& forall|i: int|
            0 <= i < self@.coins.len() ==> (#[trigger] self@.coins[i]).1.wf()
                && self@.coins[i].0.len() == 32
        &&& forall|i: int|
            0 <= i < self@.spends.len() ==> (#[trigger] self@.spends[i]).1.wf()
                && self@.spends[i].0.len() == 32
        &&& forall|i: int| 0 <= i < self@.tails.len() ==> (#[trigger] self@.tails[i]).0.len() == 32
    }

    pub fn new() -> (r: Insertions)
        ensures
            r@.blocks == Seq::<BlockRecordV>::empty(),
            r@.coins == Seq::<(Seq<u8>, CoinRecordV)>::empty(),
            r@.spends == Seq::<(Seq<u8>, CoinSpendRecordV)>::empty(),
            r@.tails == Seq::<(Seq<u8>, Seq<u8>)>::empty(),
            r.wf(),
    {
        let r = Insertions { blocks: Vec::new(), coins: Vec::new(), spends: Vec::new(), tails: Vec::new() };
        proof {
            assert(r@.blocks =~= Seq::<BlockRecordV>::empty());
            assert(r@.coins =~= Seq::<(Seq<u8>, CoinRecordV)>::empty());
            assert(r@.spends =~= Seq::<(Seq<u8>, CoinSpendRecordV)>::empty());
            assert(r@.tails =~= Seq::<(Seq<u8>, Seq<u8>)>::empty());
        }
        r
    }
}


impl Insertions {
    pub fn push_block(&mut self, b: BlockRecord)
        requires
            old(self).wf(),
            b.wf(),
        ensures
            final(self).wf(),
            final(self)@.blocks == old(self)@.blocks.push(b@),
            final(self)@.coins == old(self)@.coins,
            final(self)@.spends == old(self)@.spends,
            final(self)@.tails == old(self)@.tails,
    {
        let ghost before = self@;
        self.blocks.push(b);
        proof {
            assert(self@.blocks =~= before.blocks.push(self.blocks@.last()@));
            assert(self@.coins =~= before.coins);
            assert(self@.spends =~= before.spends);
            assert(self@.tails =~= before.tails);
        }
    }

    pub fn push_coin(&mut self, id: Bytes32, rec: CoinRecord)
        requires
            old(self).wf(),
            id@.len() == 32,
            rec.wf(),
        ensures
            final(self).wf(),
            final(self)@.coins == old(self)@.coins.push((id@, rec@)),
            final(self)@.blocks == old(self)@.blocks,
            final(self)@.spends == old(self)@.spends,
            final(self)@.tails == old(self)@.tails,
    {
        let ghost before = self@;
        self.coins.push((id, rec));
        proof {
            assert(self@.coins =~= before.coins.push(
                (self.coins@.last().0@, self.coins@.last().1@),
            ));
            assert(self@.blocks =~= before.blocks);
            assert(self@.spends =~= before.spends);
            assert(self@.tails =~= before.tails);
        }
    }

    pub fn push_spend(&mut self, id: Bytes32, rec: CoinSpendRecord)
        requires
            old(self).wf(),
            id@.len() == 32,
            rec.wf(),
        ensures
            final(self).wf(),
            final(self)@.spends == old(self)@.spends.push((id@, rec@)),
            final(self)@.blocks == old(self)@.blocks,
            final(self)@.coins == old(self)@.coins,
            final(self)@.tails == old(self)@.tails,
    {
        let ghost before = self@;
        self.spends.push((id, rec));
        proof {
            assert(self@.spends =~= before.spends.push(
                (self.spends@.last().0@, self.spends@.last().1@),
            ));
            assert(self@.blocks =~= before.blocks);
            assert(self@.coins =~= before.coins);
            assert(self@.tails =~= before.tails);
        }
    }

    pub fn push_tail(&mut self, id: Bytes32, bytes: Vec<u8>)
        requires
            old(self).wf(),
            id@.len() == 32,
        ensures
            final(self).wf(),
            final(self)@.tails == old(self)@.tails.push((id@, bytes@)),
            final(self)@.blocks == old(self)@.blocks,
            final(self)@.coins == old(self)@.coins,
            final(self)@.spends == old(self)@.spends,
    {
        let ghost before = self@;
        self.tails.push((id, bytes));
        proof {
            assert(self@.tails =~= before.tails.push(
                (self.tails@.last().0@, self.tails@.last().1@),
            ));
            assert(self@.blocks =~= before.blocks);
            assert(self@.coins =~= before.coins);
            assert(self@.spends =~= before.spends);
        }
    }
}

/// Concatenation of the put groups of each element, in order.
pub open spec fn concat_map<A>(s: Seq<A>, f: spec_fn(A) -> Seq<PutV>) -> Seq<PutV>
    decreases s.len(),
{
    if s.len() == 0 {
        Seq::empty()
    } else {
        f(s[0]) + concat_map(s.subrange(1, s.len() as int), f)
    }
}

pub proof fn lemma_concat_map_snoc<A>(s: Seq<A>, f: spec_fn(A) -> Seq<PutV>, x: A)
    ensures
        concat_map(s.push(x), f) == concat_map(s, f) + f(x),
    decreases s.len(),
{
    if s.len() == 0 {
        assert(s.push(x)[0] == x);
        assert(s.push(x).subrange(1, 1) =~= Seq::<A>::empty());
        assert(concat_map(Seq::<A>::empty(), f) == Seq::<PutV>::empty());
        assert(concat_map(s.push(x), f) == f(x) + Seq::<PutV>::empty());
        assert(f(x) + Seq::<PutV>::empty() =~= Seq::<PutV>::empty() + f(x));
    } else {
        assert(s.push(x)[0] == s[0]);
        assert(s.push(x).subrange(1, s.push(x).len() as int) =~= s.subrange(
            1,
            s.len() as int,
        ).push(x));
        lemma_concat_map_snoc(s.subrange(1, s.len() as int), f, x);
        assert(f(s[0]) + (concat_map(s.subrange(1, s.len() as int), f) + f(x)) =~= (f(s[0])
            + concat_map(s.subrange(1, s.len() as int), f)) + f(x));
    }
}

/// The puts of one block: its row under the big-endian height, and the
/// hash-index row mapping its header hash back to the height.
pub open spec fn block_puts(b: BlockRecordV) -> Seq<PutV> {
    seq![
        PutV { cf: Cf::Blocks, key: senc_u32(b.height), value: senc_block_record(b) },
        PutV { cf: Cf::BlockHashes, key: b.header_hash, value: senc_u32(b.height) },
    ]
}

/// The puts of one coin: its row, its created-height index row, its parent
/// index row, and its spent-height index row when it is spent.
pub open spec fn coin_puts(c: (Seq<u8>, CoinRecordV)) -> Seq<PutV> {
    let base = seq![
        PutV { cf: Cf::Coins, key: c.0, value: senc_coin_record(c.1) },
        PutV {
            cf: Cf::CoinHeightIndex,
            key: senc_u32(c.1.created_height) + c.0,
            value: Seq::empty(),
        },
        PutV {
            cf: Cf::CoinParentHashIndex,
            key: c.1.coin.parent_coin_id + c.0,
            value: Seq::empty(),
        },
    ];
    match c.1.spent_height {
        Some(h) => base + seq![
            PutV { cf: Cf::CoinHeightIndex, key: senc_u32(h) + c.0, value: Seq::empty() },
        ],
        None => base,
    }
}

/// The puts of one spend: its row and its spent-height index row.
pub open spec fn spend_puts(c: (Seq<u8>, CoinSpendRecordV)) -> Seq<PutV> {
    seq![
        PutV { cf: Cf::CoinSpends, key: c.0, value: senc_coin_spend_record(c.1) },
        PutV {
            cf: Cf::CoinHeightIndex,
            key: senc_u32(c.1.spent_height) + c.0,
            value: Seq::empty(),
        },
    ]
}

/// The put of one TAIL program, keyed by asset id.
pub open spec fn tail_puts(c: (Seq<u8>, Seq<u8>)) -> Seq<PutV> {
    seq![PutV { cf: Cf::Tails, key: c.0, value: c.1 }]
}

/// The whole batch of an `Insertions` value: a function of the insertions
/// alone.
pub open spec fn ins_batch(iv: InsertionsV) -> Seq<PutV> {
    concat_map(iv.blocks, |b: BlockRecordV| block_puts(b)) + concat_map(
        iv.coins,
        |c: (Seq<u8>, CoinRecordV)| coin_puts(c),
    ) + concat_map(iv.spends, |c: (Seq<u8>, CoinSpendRecordV)| spend_puts(c)) + concat_map(
        iv.tails,
        |c: (Seq<u8>, Seq<u8>)| tail_puts(c),
    )
}

/// The height key: four big-endian bytes.
pub fn height_key(height: u32) -> (r: Vec<u8>)
    ensures
        r@ == senc_u32(height),
{
    let mut out: Vec<u8> = Vec::new();
    enc_u32(&mut out, height);
    assert(out@ =~= senc_u32(height));
    out
}

/// A composite key: the four-byte height followed by a 32-byte identifier.
pub fn height_id_key(height: u32, id: &Bytes32) -> (r: Vec<u8>)
    requires
        id.wf(),
    ensures
        r@ == senc_u32(height) + id@,
{
    let mut out: Vec<u8> = Vec::new();
    enc_u32(&mut out, height);
    let mut i: usize = 0;
    let n: usize = id.bytes.len();
    while i < n
        invariant
            n == id.bytes@.len(),
            i <= n,
            out@ == senc_u32(height) + id@.subrange(0, i as int),
        decreases n - i,
    {
        out.push(id.bytes[i]);
        assert(out@ =~= senc_u32(height) + id@.subrange(0, i as int + 1));
        i += 1;
    }
    assert(out@ =~= senc_u32(height) + id@);
    out
}

/// A composite key: two 32-byte identifiers.
pub fn id_id_key(a: &Bytes32, b: &Bytes32) -> (r: Vec<u8>)
    ensures
        r@ == a@ + b@,
{
    let mut out = clone_bytes(&a.bytes);
    let mut i: usize = 0;
    let n: usize = b.bytes.len();
    while i < n
        invariant
            n == b.bytes@.len(),
            i <= n,
            out@ == a@ + b@.subrange(0, i as int),
        decreases n - i,
    {
        out.push(b.bytes[i]);
        assert(out@ =~= a@ + b@.subrange(0, i as int + 1));
        i += 1;
    }
    assert(out@ =~= a@ + b@);
    out
}

/// Assemble the atomic write batch of an `Insertions` value.
pub fn build_batch(ins: &Insertions) -> (r: WriteBatch)
    requires
        ins.wf(),
    ensures
        r@ == ins_batch(ins@),
{
    let ghost fb = |b: BlockRecordV| block_puts(b);
    let ghost fc = |c: (Seq<u8>, CoinRecordV)| coin_puts(c);
    let ghost fs = |c: (Seq<u8>, CoinSpendRecordV)| spend_puts(c);
    let ghost ft = |c: (Seq<u8>, Seq<u8>)| tail_puts(c);
    let mut batch = WriteBatch::new();

    let nb: usize = ins.blocks.len();
    let mut i: usize = 0;
    proof {
        assert(ins@.blocks.subrange(0, 0) =~= Seq::<BlockRecordV>::empty());
        assert(batch@ =~= concat_map(ins@.blocks.subrange(0, 0), fb));
    }
    while i < nb
        invariant
            nb == ins@.blocks.len(),
            i <= nb,
            ins.wf(),
            ins.blocks@.len() == nb,
            fb == (|b: BlockRecordV| block_puts(b)),
            batch@ == concat_map(ins@.blocks.subrange(0, i as int), fb),
        decreases nb - i,
    {
        let ghost before = batch@;
        let b = &ins.blocks[i];
        proof {
            assert(ins@.blocks[i as int] == ins.blocks@[i as int]@);
        }
        let bytes = encode_block_record(b);
        batch.put(Cf::Blocks, height_key(b.height), bytes);
        batch.put(Cf::BlockHashes, clone_bytes(&b.header_hash.bytes), height_key(b.height));
        proof {
            lemma_concat_map_snoc(ins@.blocks.subrange(0, i as int), fb, ins@.blocks[i as int]);
            assert(ins@.blocks.subrange(0, i as int).push(ins@.blocks[i as int]) =~= ins@.blocks
                .subrange(0, i as int + 1));
            assert(batch@ =~= before + block_puts(ins@.blocks[i as int]));
        }
        i += 1;
    }
    proof {
        assert(ins@.blocks.subrange(0, nb as int) =~= ins@.blocks);
    }
    let ghost part1 = batch@;

    let nc: usize = ins.coins.len();
    let mut i: usize = 0;
    proof {
        assert(ins@.coins.subrange(0, 0) =~= Seq::<(Seq<u8>, CoinRecordV)>::empty());
        assert(part1 + concat_map(ins@.coins.subrange(0, 0), fc) =~= part1);
    }
    while i < nc
        invariant
            nc == ins@.coins.len(),
            i <= nc,
            ins.wf(),
            ins.coins@.len() == nc,
            fc == (|c: (Seq<u8>, CoinRecordV)| coin_puts(c)),
            batch@ == part1 + concat_map(ins@.coins.subrange(0, i as int), fc),
        decreases nc - i,
    {
        let ghost before = batch@;
        let (id, rec) = &ins.coins[i];
        proof {
            assert(ins@.coins[i as int] == (ins.coins@[i as int].0@, ins.coins@[i as int].1@));
        }
        let bytes = encode_coin_record(rec);
        batch.put(Cf::Coins, clone_bytes(&id.bytes), bytes);
        batch.put(Cf::CoinHeightIndex, height_id_key(rec.created_height, id), Vec::new());
        batch.put(Cf::CoinParentHashIndex, id_id_key(&rec.coin.parent_coin_id, id), Vec::new());
        match &rec.spent_height {
            Some(h) => {
                batch.put(Cf::CoinHeightIndex, height_id_key(*h, id), Vec::new());
            },
            None => {},
        }
        proof {
            lemma_concat_map_snoc(ins@.coins.subrange(0, i as int), fc, ins@.coins[i as int]);
            assert(ins@.coins.subrange(0, i as int).push(ins@.coins[i as int]) =~= ins@.coins
                .subrange(0, i as int + 1));
            assert(batch@ =~= before + coin_puts(ins@.coins[i as int]));
        }
        i += 1;
    }
    proof {
        assert(ins@.coins.subrange(0, nc as int) =~= ins@.coins);
    }
    let ghost part2 = batch@;

    let ns: usize = ins.spends.len();
    let mut i: usize = 0;
    proof {
        assert(ins@.spends.subrange(0, 0) =~= Seq::<(Seq<u8>, CoinSpendRecordV)>::empty());
        assert(part2 + concat_map(ins@.spends.subrange(0, 0), fs) =~= part2);
    }
    while i < ns
        invariant
            ns == ins@.spends.len(),
            i <= ns,
            ins.wf(),
            ins.spends@.len() == ns,
            fs == (|c: (Seq<u8>, CoinSpendRecordV)| spend_puts(c)),
            batch@ == part2 + concat_map(ins@.spends.subrange(0, i as int), fs),
        decreases ns - i,
    {
        let ghost before = batch@;
        let (id, rec) = &ins.spends[i];
        proof {
            assert(ins@.spends[i as int] == (ins.spends@[i as int].0@, ins.spends@[i as int].1@));
        }
        let bytes = encode_coin_spend_record(rec);
        batch.put(Cf::CoinSpends, clone_bytes(&id.bytes), bytes);
        batch.put(Cf::CoinHeightIndex, height_id_key(rec.spent_height, id), Vec::new());
        proof {
            lemma_concat_map_snoc(ins@.spends.subrange(0, i as int), fs, ins@.spends[i as int]);
            assert(ins@.spends.subrange(0, i as int).push(ins@.spends[i as int]) =~= ins@.spends
                .subrange(0, i as int + 1));
            assert(batch@ =~= before + spend_puts(ins@.spends[i as int]));
        }
        i += 1;
    }
    proof {
        assert(ins@.spends.subrange(0, ns as int) =~= ins@.spends);
    }
    let ghost part3 = batch@;

    let nt: usize = ins.tails.len();
    let mut i: usize = 0;
    proof {
        assert(ins@.tails.subrange(0, 0) =~= Seq::<(Seq<u8>, Seq<u8>)>::empty());
        assert(part3 + concat_map(ins@.tails.subrange(0, 0), ft) =~= part3);
    }
    while i < nt
        invariant
            nt == ins@.tails.len(),
            i <= nt,
            ins.wf(),
            ins.tails@.len() == nt,
            ft == (|c: (Seq<u8>, Seq<u8>)| tail_puts(c)),
            batch@ == part3 + concat_map(ins@.tails.subrange(0, i as int), ft),
        decreases nt - i,
    {
        let ghost before = batch@;
        let (id, bytes) = &ins.tails[i];
        proof {
            assert(ins@.tails[i as int] == (ins.tails@[i as int].0@, ins.tails@[i as int].1@));
        }
        batch.put(Cf::Tails, clone_bytes(&id.bytes), clone_bytes(bytes));
        proof {
            lemma_concat_map_snoc(ins@.tails.subrange(0, i as int), ft, ins@.tails[i as int]);
            assert(ins@.tails.subrange(0, i as int).push(ins@.tails[i as int]) =~= ins@.tails
                .subrange(0, i as int + 1));
            assert(batch@ =~= before + tail_puts(ins@.tails[i as int]));
        }
        i += 1;
    }
    proof {
        assert(ins@.tails.subrange(0, nt as int) =~= ins@.tails);
        assert(batch@ == ins_batch(ins@));
    }
    batch
}

/// Commit a merged `Insertions` value as one atomic batch.
pub fn commit_insertions(store: &mut Store, ins: &Insertions)
    requires
        old(store).wf(),
        ins.wf(),
    ensures
        final(store)@ == apply_batch(old(store)@, ins_batch(ins@)),
        final(store).wf(),
{
    let batch = build_batch(ins);
    store.commit(batch);
}

/// Committing the same insertions twice against the same starting state
/// produces the same terminal state: the second commit is a no-op.
pub proof fn lemma_commit_idempotent(s: StoreV, iv: InsertionsV)
    requires
        crate::store::store_sorted(s),
    ensures
        apply_batch(apply_batch(s, ins_batch(iv)), ins_batch(iv)) == apply_batch(s, ins_batch(iv)),
{
    lemma_apply_batch_idempotent(s, ins_batch(iv));
}

} // verus!
