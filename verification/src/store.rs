//! The store: seven named ordered key/value columns and an atomic batched
//! write protocol.
//!
//! All writes go through `commit`, which applies a whole `WriteBatch` in
//! order; `apply_batch` is its mathematical reading. Committing the same
//! batch twice leaves the store exactly where one commit left it.

use vstd::prelude::*;

use crate::table::{
    lemma_canonical, lemma_get_upsert, lemma_upsert_sorted, spec_get, spec_upsert, Table, TableV,
    table_sorted,
};

verus! {

/// A named column family, with the fixed key-prefix length its scans use.
pub struct Column {
    pub name: &'static str,
    pub prefix: Option<usize>,
}

/// The column families of the store.
#[derive(Clone, Copy, Debug, PartialEq, Eq, Structural)]
pub enum Cf {
    Blocks,
    BlockHashes,
    Coins,
    CoinHeightIndex,
    CoinParentHashIndex,
    CoinSpends,
    Tails,
}

/// The declared layout: data columns have no prefix extractor; index columns
/// scan under a 32-byte identifier or a 4-byte height prefix.
pub fn columns() -> (r: Vec<Column>)
    ensures
        r@.len() == 7,
{
    let mut v: Vec<Column> = Vec::new();
    v.push(Column { name: "blocks", prefix: None });
    v.push(Column { name: "block_hashes", prefix: None });
    v.push(Column { name: "coins", prefix: None });
    v.push(Column { name: "coin_height_index", prefix: Some(4) });
    v.push(Column { name: "coin_parent_hash_index", prefix: Some(32) });
    v.push(Column { name: "coin_spends", prefix: None });
    v.push(Column { name: "tails", prefix: None });
    v
}

/// One write: a key/value put into one column.
pub struct Put {
    pub cf: Cf,
    pub key: Vec<u8>,
    pub value: Vec<u8>,
}

#[verifier::ext_equal]
pub struct PutV {
    pub cf: Cf,
    pub key: Seq<u8>,
    pub value: Seq<u8>,
}

impl View for Put {
    type V = PutV;

    open spec fn view(&self) -> PutV {
        PutV { cf: self.cf, key: self.key@, value: self.value@ }
    }
}

/// An ordered list of puts, applied atomically by `commit`.
pub struct WriteBatch {
    pub puts: Vec<Put>,
}

impl View for WriteBatch {
    type V = Seq<PutV>;

    open spec fn view(&self) -> Seq<PutV> {
        self.puts@.map(|i: int, p: Put| p@)
    }
}

impl WriteBatch {
    pub fn new() -> (r: WriteBatch)
        ensures
            r@ == Seq::<PutV>::empty(),
    {
        let b = WriteBatch { puts: Vec::new() };
        assert(b@ =~= Seq::<PutV>::empty());
        b
    }

    pub fn put(&mut self, cf: Cf, key: Vec<u8>, value: Vec<u8>)
        ensures
            final(self)@ == old(self)@.push(PutV { cf, key: key@, value: value@ }),
    {
        let ghost before = self@;
        self.puts.push(Put { cf, key, value });
        assert(self@ =~= before.push(PutV { cf, key: self.puts@.last().key@, value: self.puts@.last().value@ }));
    }
}

/// The mathematical reading of the whole store.
#[verifier::ext_equal]
pub struct StoreV {
    pub blocks: TableV,
    pub block_hashes: TableV,
    pub coins: TableV,
    pub coin_height_index: TableV,
    pub coin_parent_hash_index: TableV,
    pub coin_spends: TableV,
    pub tails: TableV,
}

pub open spec fn store_sorted(s: StoreV) -> bool {
    &&& table_sorted(s.blocks)
    &&& table_sorted(s.block_hashes)
    &&& table_sorted(s.coins)
    &&& table_sorted(s.coin_height_index)
    &&& table_sorted(s.coin_parent_hash_index)
    &&& table_sorted(s.coin_spends)
    &&& table_sorted(s.tails)
}

/// The table of one column.
pub open spec fn cf_table(s: StoreV, cf: Cf) -> TableV {
    match cf {
        Cf::Blocks => s.blocks,
        Cf::BlockHashes => s.block_hashes,
        Cf::Coins => s.coins,
        Cf::CoinHeightIndex => s.coin_height_index,
        Cf::CoinParentHashIndex => s.coin_parent_hash_index,
        Cf::CoinSpends => s.coin_spends,
        Cf::Tails => s.tails,
    }
}

/// Point lookup in one column of the store reading.
pub open spec fn store_get(s: StoreV, cf: Cf, k: Seq<u8>) -> Option<Seq<u8>> {
    spec_get(cf_table(s, cf), k)
}

/// One put applied to the store reading.
pub open spec fn apply_put(s: StoreV, p: PutV) -> StoreV {
    match p.cf {
        Cf::Blocks => StoreV { blocks: spec_upsert(s.blocks, p.key, p.value), ..s },
        Cf::BlockHashes => StoreV { block_hashes: spec_upsert(s.block_hashes, p.key, p.value), ..s },
        Cf::Coins => StoreV { coins: spec_upsert(s.coins, p.key, p.value), ..s },
        Cf::CoinHeightIndex => StoreV {
            coin_height_index: spec_upsert(s.coin_height_index, p.key, p.value),
            ..s
        },
        Cf::CoinParentHashIndex => StoreV {
            coin_parent_hash_index: spec_upsert(s.coin_parent_hash_index, p.key, p.value),
            ..s
        },
        Cf::CoinSpends => StoreV { coin_spends: spec_upsert(s.coin_spends, p.key, p.value), ..s },
        Cf::Tails => StoreV { tails: spec_upsert(s.tails, p.key, p.value), ..s },
    }
}

/// A batch applied in order.
pub open spec fn apply_batch(s: StoreV, b: Seq<PutV>) -> StoreV
    decreases b.len(),
{
    if b.len() == 0 {
        s
    } else {
        apply_batch(apply_put(s, b[0]), b.subrange(1, b.len() as int))
    }
}

pub proof fn lemma_apply_put_sorted(s: StoreV, p: PutV)
    requires
        store_sorted(s),
    ensures
        store_sorted(apply_put(s, p)),
{
    lemma_upsert_sorted(cf_table(s, p.cf), p.key, p.value);
}

pub proof fn lemma_apply_batch_sorted(s: StoreV, b: Seq<PutV>)
    requires
        store_sorted(s),
    ensures
        store_sorted(apply_batch(s, b)),
    decreases b.len(),
{
    if b.len() > 0 {
        lemma_apply_put_sorted(s, b[0]);
        lemma_apply_batch_sorted(apply_put(s, b[0]), b.subrange(1, b.len() as int));
    }
}

/// Appending one put to a batch applies it last.
pub proof fn lemma_apply_batch_snoc(s: StoreV, b: Seq<PutV>, p: PutV)
    ensures
        apply_batch(s, b.push(p)) == apply_put(apply_batch(s, b), p),
    decreases b.len(),
{
    if b.len() == 0 {
        assert(b.push(p)[0] == p);
        assert(b.push(p).subrange(1, 1) =~= Seq::<PutV>::empty());
        assert(apply_batch(apply_put(s, p), Seq::<PutV>::empty()) == apply_put(s, p));
        assert(apply_batch(s, b.push(p)) == apply_put(s, p));
        assert(apply_batch(s, b) == s);
    } else {
        assert(b.push(p)[0] == b[0]);
        assert(b.push(p).subrange(1, b.push(p).len() as int) =~= b.subrange(
            1,
            b.len() as int,
        ).push(p));
        lemma_apply_batch_snoc(apply_put(s, b[0]), b.subrange(1, b.len() as int), p);
        assert(apply_batch(s, b.push(p)) == apply_batch(
            apply_put(s, b[0]),
            b.subrange(1, b.len() as int).push(p),
        ));
        assert(apply_batch(s, b) == apply_batch(apply_put(s, b[0]), b.subrange(1, b.len() as int)));
    }
}

/// The value of the last put to `(cf, k)` in a batch, if any.
pub open spec fn batch_last(b: Seq<PutV>, cf: Cf, k: Seq<u8>) -> Option<Seq<u8>>
    decreases b.len(),
{
    if b.len() == 0 {
        None
    } else {
        match batch_last(b.subrange(1, b.len() as int), cf, k) {
            Some(v) => Some(v),
            None => {
                if b[0].cf == cf && b[0].key == k {
                    Some(b[0].value)
                } else {
                    None
                }
            },
        }
    }
}

/// After a batch, a key reads the value of its last put, or what it read
/// before the batch.
pub proof fn lemma_get_apply_batch(s: StoreV, b: Seq<PutV>, cf: Cf, k: Seq<u8>)
    requires
        store_sorted(s),
    ensures
        store_get(apply_batch(s, b), cf, k) == match batch_last(b, cf, k) {
            Some(v) => Some(v),
            None => store_get(s, cf, k),
        },
    decreases b.len(),
{
    if b.len() > 0 {
        let s1 = apply_put(s, b[0]);
        let rest = b.subrange(1, b.len() as int);
        lemma_apply_put_sorted(s, b[0]);
        lemma_get_apply_batch(s1, rest, cf, k);
        lemma_get_upsert(cf_table(s, b[0].cf), b[0].key, b[0].value, k);
    }
}

/// Committing the same batch twice leaves the store where one commit left
/// it: every key of every column reads the same, so the sorted tables are
/// identical.
pub proof fn lemma_apply_batch_idempotent(s: StoreV, b: Seq<PutV>)
    requires
        store_sorted(s),
    ensures
        apply_batch(apply_batch(s, b), b) == apply_batch(s, b),
{
    let s1 = apply_batch(s, b);
    let s2 = apply_batch(s1, b);
    lemma_apply_batch_sorted(s, b);
    lemma_apply_batch_sorted(s1, b);
    assert forall|cf: Cf, k: Seq<u8>| #[trigger] store_get(s2, cf, k) == store_get(s1, cf, k) by {
        lemma_get_apply_batch(s, b, cf, k);
        lemma_get_apply_batch(s1, b, cf, k);
    }
    assert forall|k: Seq<u8>| #[trigger] spec_get(s2.blocks, k) == spec_get(s1.blocks, k) by {
        assert(store_get(s2, Cf::Blocks, k) == store_get(s1, Cf::Blocks, k));
    }
    lemma_canonical(s2.blocks, s1.blocks);
    assert forall|k: Seq<u8>| #[trigger] spec_get(s2.block_hashes, k) == spec_get(
        s1.block_hashes,
        k,
    ) by {
        assert(store_get(s2, Cf::BlockHashes, k) == store_get(s1, Cf::BlockHashes, k));
    }
    lemma_canonical(s2.block_hashes, s1.block_hashes);
    assert forall|k: Seq<u8>| #[trigger] spec_get(s2.coins, k) == spec_get(s1.coins, k) by {
        assert(store_get(s2, Cf::Coins, k) == store_get(s1, Cf::Coins, k));
    }
    lemma_canonical(s2.coins, s1.coins);
    assert forall|k: Seq<u8>| #[trigger] spec_get(s2.coin_height_index, k) == spec_get(
        s1.coin_height_index,
        k,
    ) by {
        assert(store_get(s2, Cf::CoinHeightIndex, k) == store_get(s1, Cf::CoinHeightIndex, k));
    }
    lemma_canonical(s2.coin_height_index, s1.coin_height_index);
    assert forall|k: Seq<u8>| #[trigger] spec_get(s2.coin_parent_hash_index, k) == spec_get(
        s1.coin_parent_hash_index,
        k,
    ) by {
        assert(store_get(s2, Cf::CoinParentHashIndex, k) == store_get(
            s1,
            Cf::CoinParentHashIndex,
            k,
        ));
    }
    lemma_canonical(s2.coin_parent_hash_index, s1.coin_parent_hash_index);
    assert forall|k: Seq<u8>| #[trigger] spec_get(s2.coin_spends, k) == spec_get(
        s1.coin_spends,
        k,
    ) by {
        assert(store_get(s2, Cf::CoinSpends, k) == store_get(s1, Cf::CoinSpends, k));
    }
    lemma_canonical(s2.coin_spends, s1.coin_spends);
    assert forall|k: Seq<u8>| #[trigger] spec_get(s2.tails, k) == spec_get(s1.tails, k) by {
        assert(store_get(s2, Cf::Tails, k) == store_get(s1, Cf::Tails, k));
    }
    lemma_canonical(s2.tails, s1.tails);
    assert(s2 =~= s1);
}

/// The executable store.
pub struct Store {
    pub blocks: Table,
    pub block_hashes: Table,
    pub coins: Table,
    pub coin_height_index: Table,
    pub coin_parent_hash_index: Table,
    pub coin_spends: Table,
    pub tails: Table,
}

impl View for Store {
    type V = StoreV;

    open spec fn view(&self) -> StoreV {
        StoreV {
            blocks: self.blocks@,
            block_hashes: self.block_hashes@,
            coins: self.coins@,
            coin_height_index: self.coin_height_index@,
            coin_parent_hash_index: self.coin_parent_hash_index@,
            coin_spends: self.coin_spends@,
            tails: self.tails@,
        }
    }
}

impl Store {
    pub open spec fn wf(&self) -> bool {
        store_sorted(self@)
    }

    /// An empty store, with every declared column present.
    pub fn open() -> (r: Store)
        ensures
            r@ == empty_store(),
            r.wf(),
    {
        let s = Store {
            blocks: Table::new(),
            block_hashes: Table::new(),
            coins: Table::new(),
            coin_height_index: Table::new(),
            coin_parent_hash_index: Table::new(),
            coin_spends: Table::new(),
            tails: Table::new(),
        };
        assert(s@ =~= empty_store());
        s
    }

    /// Point lookup in one column.
    pub fn get(&self, cf: Cf, key: &Vec<u8>) -> (r: Option<Vec<u8>>)
        requires
            self.wf(),
        ensures
            match r {
                Some(v) => store_get(self@, cf, key@) == Some(v@),
                None => store_get(self@, cf, key@) is None,
            },
    {
        match cf {
            Cf::Blocks => self.blocks.get(key),
            Cf::BlockHashes => self.block_hashes.get(key),
            Cf::Coins => self.coins.get(key),
            Cf::CoinHeightIndex => self.coin_height_index.get(key),
            Cf::CoinParentHashIndex => self.coin_parent_hash_index.get(key),
            Cf::CoinSpends => self.coin_spends.get(key),
            Cf::Tails => self.tails.get(key),
        }
    }

    /// Apply a whole batch, in order, as one atomic write.
    pub fn commit(&mut self, batch: WriteBatch)
        requires
            old(self).wf(),
        ensures
            final(self)@ == apply_batch(old(self)@, batch@),
            final(self).wf(),
    {
        proof {
            lemma_apply_batch_sorted(self@, batch@);
        }
        let ghost s0 = self@;
        let ghost bv = batch@;
        let n: usize = batch.puts.len();
        let mut rest = batch;
        let mut i: usize = 0;
        proof {
            assert(bv.subrange(0, 0) =~= Seq::<PutV>::empty());
        }
        while i < n
            invariant
                n == bv.len(),
                i <= n,
                i + rest.puts@.len() == n,
                forall|j: int| 0 <= j < rest.puts@.len() ==> (#[trigger] rest.puts@[j])@ == bv[i
                    + j],
                store_sorted(s0),
                self@ == apply_batch(s0, bv.subrange(0, i as int)),
                store_sorted(self@),
            decreases n - i,
        {
            let ghost before = self@;
            let p = rest.puts.remove(0);
            proof {
                assert(p@ == bv[i as int]);
            }
            self.apply_one(p);
            proof {
                lemma_apply_batch_snoc(s0, bv.subrange(0, i as int), bv[i as int]);
                assert(bv.subrange(0, i as int).push(bv[i as int]) =~= bv.subrange(
                    0,
                    i as int + 1,
                ));
                assert forall|j: int| 0 <= j < rest.puts@.len() implies (#[trigger] rest.puts@[j])@
                    == bv[i + 1 + j] by {
                }
            }
            i += 1;
        }
        proof {
            assert(bv.subrange(0, n as int) =~= bv);
        }
    }

    /// One put, routed to its column.
    fn apply_one(&mut self, p: Put)
        requires
            old(self).wf(),
        ensures
            final(self)@ == apply_put(old(self)@, p@),
            final(self).wf(),
    {
        proof {
            lemma_apply_put_sorted(self@, p@);
        }
        let Put { cf, key, value } = p;
        match cf {
            Cf::Blocks => self.blocks.upsert(key, value),
            Cf::BlockHashes => self.block_hashes.upsert(key, value),
            Cf::Coins => self.coins.upsert(key, value),
            Cf::CoinHeightIndex => self.coin_height_index.upsert(key, value),
            Cf::CoinParentHashIndex => self.coin_parent_hash_index.upsert(key, value),
            Cf::CoinSpends => self.coin_spends.upsert(key, value),
            Cf::Tails => self.tails.upsert(key, value),
        }
        assert(self@ =~= apply_put(old(self)@, p@));
    }
}

pub open spec fn empty_store() -> StoreV {
    StoreV {
        blocks: Seq::empty(),
        block_hashes: Seq::empty(),
        coins: Seq::empty(),
        coin_height_index: Seq::empty(),
        coin_parent_hash_index: Seq::empty(),
        coin_spends: Seq::empty(),
        tails: Seq::empty(),
    }
}

} // verus!
