//! The read-only query surface over the store.
//!
//! Every lookup states exactly which rows it reads and what it returns for
//! them; "not found" is a distinct outcome, never an error. A stored value
//! that fails to decode is storage corruption and is reported as such.

use vstd::prelude::*;

use crate::codec::{
    decode_block_record, decode_coin_record, decode_coin_spend_record, dec_u32, sdec_u32,
    sdecode_block_record, sdecode_coin_record, sdecode_coin_spend_record, senc_u32,
};
use crate::store::{store_get, Cf, Store, StoreV};
use crate::table::{
    is_prefix_of, lemma_get_to_index, lemma_index_to_get, lex_lt, spec_get, take_at_most,
    sel_forward, sel_reverse, sel_prefix, entries_view,
};
use crate::types::{BlockRecord, Bytes32, CoinRecord, CoinSpendRecord, Error};
use crate::writer::{commit_insertions, height_key, ins_batch, Insertions};
use crate::store::apply_batch;

verus! {

/// Lexicographic order of two four-byte keys is numeric order of the heights
/// they decode to.
pub proof fn lemma_key_order(a: Seq<u8>, b: Seq<u8>, ha: u32, hb: u32)
    requires
        a.len() == 4,
        b.len() == 4,
        sdec_u32(a, 0) == Some((ha, 4int)),
        sdec_u32(b, 0) == Some((hb, 4int)),
    ensures
        lex_lt(a, b) <==> ha < hb,
{
    reveal(sdec_u32);
    let a0 = a[0];
    let a1 = a[1];
    let a2 = a[2];
    let a3 = a[3];
    let b0 = b[0];
    let b1 = b[1];
    let b2 = b[2];
    let b3 = b[3];
    assert(ha == ((a0 as u32) << 24) | ((a1 as u32) << 16) | ((a2 as u32) << 8) | (a3 as u32));
    assert(hb == ((b0 as u32) << 24) | ((b1 as u32) << 16) | ((b2 as u32) << 8) | (b3 as u32));
    assert(((((a0 as u32) << 24) | ((a1 as u32) << 16) | ((a2 as u32) << 8) | (a3 as u32)) < ((((
    b0 as u32) << 24) | ((b1 as u32) << 16) | ((b2 as u32) << 8) | (b3 as u32)))) <==> (a0 < b0 || (
    a0 == b0 && (a1 < b1 || (a1 == b1 && (a2 < b2 || (a2 == b2 && a3 < b3))))))) by (bit_vector);
    let s1a = a.subrange(1, 4);
    let s1b = b.subrange(1, 4);
    let s2a = s1a.subrange(1, 3);
    let s2b = s1b.subrange(1, 3);
    let s3a = s2a.subrange(1, 2);
    let s3b = s2b.subrange(1, 2);
    assert(s1a[0] == a1 && s1a[1] == a2 && s1a[2] == a3);
    assert(s1b[0] == b1 && s1b[1] == b2 && s1b[2] == b3);
    assert(s2a[0] == a2 && s2a[1] == a3);
    assert(s2b[0] == b2 && s2b[1] == b3);
    assert(s3a[0] == a3 && s3b[0] == b3);
    assert(s3a.subrange(1, 1).len() == 0);
    assert(lex_lt(s3a.subrange(1, 1), s3b.subrange(1, 1)) == false);
    assert(lex_lt(s3a, s3b) <==> a3 < b3);
    assert(lex_lt(s2a, s2b) <==> (a2 < b2 || (a2 == b2 && a3 < b3)));
    assert(lex_lt(s1a, s1b) <==> (a1 < b1 || (a1 == b1 && (a2 < b2 || (a2 == b2 && a3 < b3)))));
    assert(lex_lt(a, b) <==> (a0 < b0 || (a0 == b0 && (a1 < b1 || (a1 == b1 && (a2 < b2 || (a2
        == b2 && a3 < b3)))))));
}

/// The height a block key stands for: height keys are big-endian, so key
/// order is height order.
pub proof fn lemma_height_key_order(h1: u32, h2: u32)
    ensures
        lex_lt(senc_u32(h1), senc_u32(h2)) <==> h1 < h2,
{
    let a = senc_u32(h1);
    let b = senc_u32(h2);
    assert(Seq::<u8>::empty() + a + Seq::<u8>::empty() =~= a);
    assert(Seq::<u8>::empty() + b + Seq::<u8>::empty() =~= b);
    crate::codec::lemma_dec_enc_u32(h1, Seq::<u8>::empty(), Seq::<u8>::empty());
    crate::codec::lemma_dec_enc_u32(h2, Seq::<u8>::empty(), Seq::<u8>::empty());
    lemma_key_order(a, b, h1, h2);
}

/// Height keys are injective.
pub proof fn lemma_height_key_inj(h1: u32, h2: u32)
    requires
        senc_u32(h1) == senc_u32(h2),
    ensures
        h1 == h2,
{
    lemma_height_key_order(h1, h2);
    lemma_height_key_order(h2, h1);
}


/// Whether a stored value is the four-byte big-endian form of some height.
pub open spec fn is_height_value(v: Seq<u8>) -> bool {
    exists|h: u32| v == senc_u32(h)
}

/// A value that is some height's key decodes as exactly that: used to show
/// that a failed height decode means the value is not a height key.
proof fn lemma_height_value_decodes(v: Seq<u8>)
    requires
        is_height_value(v),
    ensures
        exists|h: u32| v == senc_u32(h) && sdec_u32(v, 0) == Some((h, 4int)),
{
    let h = choose|h: u32| v == senc_u32(h);
    assert(Seq::<u8>::empty() + senc_u32(h) + Seq::<u8>::empty() =~= senc_u32(h));
    crate::codec::lemma_dec_enc_u32(h, Seq::<u8>::empty(), Seq::<u8>::empty());
}

/// The answer of `state`: the synced peak height.
pub struct StateResponse {
    pub peak_height: u32,
}

/// The parameters of a `blocks` range query.
pub struct BlocksRequest {
    pub limit: usize,
    pub start: Option<u32>,
    pub reverse: bool,
}

/// The indexed database: the store together with its read queries.
pub struct Database {
    pub store: Store,
}

impl View for Database {
    type V = StoreV;

    open spec fn view(&self) -> StoreV {
        self.store@
    }
}

impl Database {
    pub open spec fn wf(&self) -> bool {
        self.store.wf()
    }

    /// A fresh, empty database with every column family declared.
    pub fn new() -> (r: Database)
        ensures
            r@ == crate::store::empty_store(),
            r.wf(),
    {
        Database { store: Store::open() }
    }

    /// Commit a merged `Insertions` value as one atomic write batch.
    pub fn commit(&mut self, ins: &Insertions)
        requires
            old(self).wf(),
            ins.wf(),
        ensures
            final(self)@ == apply_batch(old(self)@, ins_batch(ins@)),
            final(self).wf(),
    {
        commit_insertions(&mut self.store, ins);
    }

    /// The highest committed block, if any: the last key of the blocks
    /// column, which is the peak by the big-endian key order.
    pub fn peak(&self) -> (r: Result<Option<(u32, BlockRecord)>, Error>)
        requires
            self.wf(),
        ensures
            match r {
                Ok(Some((h, b))) => {
                    &&& store_get(self@, Cf::Blocks, senc_u32(h)) == Some(
                        self@.blocks.last().1,
                    )
                    &&& self@.blocks.len() > 0
                    &&& self@.blocks.last().0 == senc_u32(h)
                    &&& sdecode_block_record(self@.blocks.last().1) == Some(b@)
                    &&& forall|h2: u32|
                        #[trigger] store_get(self@, Cf::Blocks, senc_u32(h2)) is Some ==> h2 <= h
                },
                Ok(None) => self@.blocks.len() == 0,
                Err(e) => e == Error::Corrupt && self@.blocks.len() > 0 && (!is_height_value(
                    self@.blocks.last().0,
                ) || sdecode_block_record(self@.blocks.last().1) is None),
            },
    {
        let last = self.store.blocks.last();
        match last {
            None => Ok(None),
            Some((key, value)) => {
                let hd = dec_u32(&key, 0);
                match hd {
                    Some((h, j)) if j == key.len() => {
                        match decode_block_record(&value) {
                            Some(b) => {
                                proof {
                                    let t = self@.blocks;
                                    assert(key@ == t.last().0);
                                    assert(key@.len() == 4);
                                    crate::codec::lemma_enc_dec_u32(key@, h);
                                    lemma_index_to_get(t, t.len() - 1);
                                    assert forall|h2: u32|
                                        #[trigger] store_get(self@, Cf::Blocks, senc_u32(h2))
                                            is Some implies h2 <= h by {
                                        lemma_get_to_index(t, senc_u32(h2));
                                        let i = choose|i: int|
                                            0 <= i < t.len() && (#[trigger] t[i]).0 == senc_u32(h2)
                                                && t[i].1 == spec_get(t, senc_u32(h2))->Some_0;
                                        if i < t.len() - 1 {
                                            assert(lex_lt(t[i].0, t[t.len() - 1].0));
                                        }
                                        lemma_height_key_order(h2, h);
                                        lemma_height_key_order(h, h2);
                                    }
                                }
                                Ok(Some((h, b)))
                            },
                            None => Err(Error::Corrupt),
                        }
                    },
                    _ => {
                        proof {
                            if is_height_value(key@) {
                                lemma_height_value_decodes(key@);
                            }
                        }
                        Err(Error::Corrupt)
                    },
                }
            },
        }
    }

    /// The current peak height, `0` for an empty store.
    pub fn state(&self) -> (r: Result<StateResponse, Error>)
        requires
            self.wf(),
        ensures
            match r {
                Ok(s) => (self@.blocks.len() == 0 ==> s.peak_height == 0) && (self@.blocks.len()
                    > 0 ==> store_get(self@, Cf::Blocks, senc_u32(s.peak_height)) is Some && (
                forall|h2: u32|
                    #[trigger] store_get(self@, Cf::Blocks, senc_u32(h2)) is Some ==> h2
                        <= s.peak_height)),
                Err(e) => e == Error::Corrupt && self@.blocks.len() > 0 && (!is_height_value(
                    self@.blocks.last().0,
                ) || sdecode_block_record(self@.blocks.last().1) is None),
            },
    {
        match self.peak() {
            Ok(Some((h, _))) => Ok(StateResponse { peak_height: h }),
            Ok(None) => Ok(StateResponse { peak_height: 0 }),
            Err(e) => Err(e),
        }
    }

    /// The block at a height, if there is one.
    pub fn block(&self, height: u32) -> (r: Result<Option<BlockRecord>, Error>)
        requires
            self.wf(),
        ensures
            match r {
                Ok(Some(b)) => {
                    &&& store_get(self@, Cf::Blocks, senc_u32(height)) is Some
                    &&& sdecode_block_record(
                        store_get(self@, Cf::Blocks, senc_u32(height))->Some_0,
                    ) == Some(b@)
                },
                Ok(None) => store_get(self@, Cf::Blocks, senc_u32(height)) is None,
                Err(e) => e == Error::Corrupt && (match store_get(
                    self@,
                    Cf::Blocks,
                    senc_u32(height),
                ) {
                    Some(v) => sdecode_block_record(v) is None,
                    None => false,
                }),
            },
    {
        let key = height_key(height);
        match self.store.get(Cf::Blocks, &key) {
            None => Ok(None),
            Some(value) => match decode_block_record(&value) {
                Some(b) => Ok(Some(b)),
                None => Err(Error::Corrupt),
            },
        }
    }

    /// The height a header hash maps to, if the block is committed.
    pub fn block_height(&self, hash: &Bytes32) -> (r: Result<Option<u32>, Error>)
        requires
            self.wf(),
        ensures
            match r {
                Ok(Some(h)) => store_get(self@, Cf::BlockHashes, hash@) == Some(senc_u32(h)),
                Ok(None) => store_get(self@, Cf::BlockHashes, hash@) is None,
                Err(e) => e == Error::Corrupt && (match store_get(self@, Cf::BlockHashes, hash@) {
                    Some(v) => !is_height_value(v),
                    None => false,
                }),
            },
    {
        match self.store.get(Cf::BlockHashes, &hash.bytes) {
            None => Ok(None),
            Some(value) => {
                match dec_u32(&value, 0) {
                    Some((h, j)) if j == value.len() => {
                        proof {
                            crate::codec::lemma_enc_dec_u32(value@, h);
                        }
                        Ok(Some(h))
                    },
                    _ => {
                        proof {
                            if is_height_value(value@) {
                                lemma_height_value_decodes(value@);
                            }
                        }
                        Err(Error::Corrupt)
                    },
                }
            },
        }
    }

    /// The coin record under a coin id.
    pub fn coin(&self, coin_id: &Bytes32) -> (r: Result<Option<CoinRecord>, Error>)
        requires
            self.wf(),
        ensures
            match r {
                Ok(Some(c)) => {
                    &&& store_get(self@, Cf::Coins, coin_id@) is Some
                    &&& sdecode_coin_record(store_get(self@, Cf::Coins, coin_id@)->Some_0)
                        == Some(c@)
                    &&& c.wf()
                },
                Ok(None) => store_get(self@, Cf::Coins, coin_id@) is None,
                Err(e) => e == Error::Corrupt && (match store_get(self@, Cf::Coins, coin_id@) {
                    Some(v) => sdecode_coin_record(v) is None,
                    None => false,
                }),
            },
    {
        match self.store.get(Cf::Coins, &coin_id.bytes) {
            None => Ok(None),
            Some(value) => match decode_coin_record(&value) {
                Some(c) => Ok(Some(c)),
                None => Err(Error::Corrupt),
            },
        }
    }

    /// The spend record under a coin id.
    pub fn coin_spend(&self, coin_id: &Bytes32) -> (r: Result<Option<CoinSpendRecord>, Error>)
        requires
            self.wf(),
        ensures
            match r {
                Ok(Some(c)) => {
                    &&& store_get(self@, Cf::CoinSpends, coin_id@) is Some
                    &&& sdecode_coin_spend_record(
                        store_get(self@, Cf::CoinSpends, coin_id@)->Some_0,
                    ) == Some(c@)
                },
                Ok(None) => store_get(self@, Cf::CoinSpends, coin_id@) is None,
                Err(e) => e == Error::Corrupt && (match store_get(self@, Cf::CoinSpends, coin_id@) {
                    Some(v) => sdecode_coin_spend_record(v) is None,
                    None => false,
                }),
            },
    {
        match self.store.get(Cf::CoinSpends, &coin_id.bytes) {
            None => Ok(None),
            Some(value) => match decode_coin_spend_record(&value) {
                Some(c) => Ok(Some(c)),
                None => Err(Error::Corrupt),
            },
        }
    }

    /// The TAIL program recorded for an asset id.
    pub fn tail(&self, asset_id: &Bytes32) -> (r: Option<Vec<u8>>)
        requires
            self.wf(),
        ensures
            match r {
                Some(v) => store_get(self@, Cf::Tails, asset_id@) == Some(v@),
                None => store_get(self@, Cf::Tails, asset_id@) is None,
            },
    {
        self.store.get(Cf::Tails, &asset_id.bytes)
    }
}


/// Filtering with a predicate that holds everywhere keeps every entry.
pub proof fn lemma_filter_all(t: Seq<(Seq<u8>, Seq<u8>)>, pred: spec_fn((Seq<u8>, Seq<u8>)) -> bool)
    requires
        forall|e: (Seq<u8>, Seq<u8>)| #[trigger] pred(e),
    ensures
        t.filter(pred) == t,
    decreases t.len(),
{
    reveal(Seq::filter);
    if t.len() == 0 {
        assert(t.filter(pred) =~= t);
    } else {
        lemma_filter_all(t.drop_last(), pred);
        assert(pred(t.last()));
        assert(t.filter(pred) == t.drop_last().filter(pred).push(t.last()));
        assert(t.drop_last().push(t.last()) =~= t);
    }
}

/// A filtered table keeps its key order.
pub proof fn lemma_filter_sorted(t: Seq<(Seq<u8>, Seq<u8>)>, pred: spec_fn((Seq<u8>, Seq<u8>)) -> bool)
    requires
        crate::table::table_sorted(t),
    ensures
        crate::table::table_sorted(t.filter(pred)),
        forall|i: int|
            0 <= i < t.filter(pred).len() ==> exists|m: int|
                0 <= m < t.len() && (#[trigger] t[m]) == (#[trigger] t.filter(pred)[i]),
    decreases t.len(),
{
    reveal(Seq::filter);
    let f = t.filter(pred);
    if t.len() == 0 {
    } else {
        let t0 = t.drop_last();
        assert(crate::table::table_sorted(t0)) by {
            assert forall|i: int, j: int| 0 <= i < j < t0.len() implies lex_lt(
                #[trigger] t0[i].0,
                #[trigger] t0[j].0,
            ) by {
                assert(t0[i] == t[i]);
                assert(t0[j] == t[j]);
            }
        }
        lemma_filter_sorted(t0, pred);
        let f0 = t0.filter(pred);
        if pred(t.last()) {
            assert(f == f0.push(t.last()));
            assert forall|i: int, j: int| 0 <= i < j < f.len() implies lex_lt(
                #[trigger] f[i].0,
                #[trigger] f[j].0,
            ) by {
                if j < f.len() - 1 {
                    assert(f[i] == f0[i]);
                    assert(f[j] == f0[j]);
                } else {
                    assert(f[i] == f0[i]);
                    assert(f[j] == t.last());
                    let m = choose|m: int|
                        0 <= m < t0.len() && (#[trigger] t0[m]) == (#[trigger] t0.filter(pred)[i]);
                    assert(t[m] == t0[m]);
                    assert(lex_lt(t[m].0, t[t.len() - 1].0));
                }
            }
            assert forall|i: int| 0 <= i < f.len() implies exists|m: int|
                0 <= m < t.len() && (#[trigger] t[m]) == (#[trigger] t.filter(pred)[i]) by {
                if i < f.len() - 1 {
                    let m = choose|m: int|
                        0 <= m < t0.len() && (#[trigger] t0[m]) == (#[trigger] t0.filter(pred)[i]);
                    assert(t[m] == f[i]);
                } else {
                    assert(t[t.len() - 1] == f[i]);
                }
            }
        } else {
            assert(f == f0);
            assert forall|i: int| 0 <= i < f.len() implies exists|m: int|
                0 <= m < t.len() && (#[trigger] t[m]) == (#[trigger] t.filter(pred)[i]) by {
                let m = choose|m: int|
                    0 <= m < t0.len() && (#[trigger] t0[m]) == (#[trigger] t0.filter(pred)[i]);
                assert(t[m] == f[i]);
            }
        }
    }
}

/// The entries a `blocks` range query selects, in the order it returns them.
pub open spec fn blocks_selection(s: StoreV, start: Option<u32>, reverse: bool, limit: int) -> Seq<
    (Seq<u8>, Seq<u8>),
> {
    let key = match start {
        Some(h) => Some(senc_u32(h)),
        None => None,
    };
    if reverse {
        take_at_most(sel_reverse(s.blocks, key).reverse(), limit)
    } else {
        take_at_most(sel_forward(s.blocks, key), limit)
    }
}



/// In a forward range selection over the sorted blocks table, decoded
/// heights are strictly increasing.
#[verifier::rlimit(100)]
#[verifier::spinoff_prover]
proof fn lemma_blocks_order_forward(
    t: crate::table::TableV,
    key: Option<Seq<u8>>,
    limit: int,
    heights: Seq<u32>,
)
    requires
        crate::table::table_sorted(t),
        limit >= 0,
        heights.len() == take_at_most(sel_forward(t, key), limit).len(),
        forall|j: int|
            0 <= j < heights.len() ==> (#[trigger] take_at_most(sel_forward(t, key), limit)[j]).0
                == senc_u32(heights[j]),
    ensures
        forall|j1: int, j2: int|
            0 <= j1 < j2 < heights.len() ==> (#[trigger] heights[j1]) < (#[trigger] heights[j2]),
{
    let fs = sel_forward(t, key);
    lemma_filter_sorted(
        t,
        |e: (Seq<u8>, Seq<u8>)|
            match key {
                None => true,
                Some(st) => !lex_lt(e.0, st),
            },
    );
    let sel = take_at_most(fs, limit);
    assert forall|j1: int, j2: int| 0 <= j1 < j2 < heights.len() implies (#[trigger] heights[j1])
        < (#[trigger] heights[j2]) by {
        assert(sel[j1] == fs[j1]);
        assert(sel[j2] == fs[j2]);
        assert(lex_lt(fs[j1].0, fs[j2].0));
        lemma_height_key_order(heights[j1], heights[j2]);
    }
}

/// In a reverse range selection over the sorted blocks table, decoded
/// heights are strictly decreasing, and with no starting key the walk
/// begins at the highest committed key.
#[verifier::rlimit(100)]
#[verifier::spinoff_prover]
proof fn lemma_blocks_order_reverse(
    t: crate::table::TableV,
    key: Option<Seq<u8>>,
    limit: int,
    heights: Seq<u32>,
)
    requires
        crate::table::table_sorted(t),
        limit >= 0,
        heights.len() == take_at_most(sel_reverse(t, key).reverse(), limit).len(),
        forall|j: int|
            0 <= j < heights.len() ==> (#[trigger] take_at_most(
                sel_reverse(t, key).reverse(),
                limit,
            )[j]).0 == senc_u32(heights[j]),
    ensures
        forall|j1: int, j2: int|
            0 <= j1 < j2 < heights.len() ==> (#[trigger] heights[j1]) > (#[trigger] heights[j2]),
        (key is None && t.len() > 0 && limit > 0) ==> heights.len() > 0 && senc_u32(heights[0])
            == t.last().0,
{
    let pred = |e: (Seq<u8>, Seq<u8>)|
        match key {
            None => true,
            Some(st) => !lex_lt(st, e.0),
        };
    let fs = sel_reverse(t, key);
    lemma_filter_sorted(t, pred);
    let sel = take_at_most(fs.reverse(), limit);
    assert forall|j1: int, j2: int| 0 <= j1 < j2 < heights.len() implies (#[trigger] heights[j1])
        > (#[trigger] heights[j2]) by {
        let m1 = fs.len() - 1 - j1;
        let m2 = fs.len() - 1 - j2;
        assert(sel[j1] == fs.reverse()[j1]);
        assert(sel[j2] == fs.reverse()[j2]);
        assert(fs.reverse()[j1] == fs[m1]);
        assert(fs.reverse()[j2] == fs[m2]);
        assert(lex_lt(fs[m2].0, fs[m1].0));
        lemma_height_key_order(heights[j2], heights[j1]);
    }
    if key is None && t.len() > 0 && limit > 0 {
        lemma_filter_all(t, pred);
        assert(fs == t);
        assert(sel[0] == fs.reverse()[0]);
        assert(fs.reverse()[0] == fs[fs.len() - 1]);
    }
}

/// Decode a list of scanned block entries: each key is a four-byte height
/// and each value a block record, or the first malformed entry is reported
/// as corruption.
fn decode_block_entries(entries: &Vec<crate::table::Entry>) -> (r: Result<
    Vec<(u32, BlockRecord)>,
    Error,
>)
    ensures
        match r {
            Ok(list) => {
                &&& list@.len() == entries@.len()
                &&& forall|j: int|
                    0 <= j < entries@.len() ==> (#[trigger] entries@[j]).0@ == senc_u32(
                        list@[j].0,
                    ) && sdecode_block_record(entries@[j].1@) == Some(list@[j].1@)
            },
            Err(e) => e == Error::Corrupt && exists|j: int|
                0 <= j < entries@.len() && (!is_height_value((#[trigger] entries@[j]).0@)
                    || sdecode_block_record(entries@[j].1@) is None),
        },
{
    let n: usize = entries.len();
    let mut out: Vec<(u32, BlockRecord)> = Vec::new();
    let mut i: usize = 0;
    while i < n
        invariant
            n == entries@.len(),
            i <= n,
            out@.len() == i,
            forall|j: int|
                0 <= j < i ==> (#[trigger] entries@[j]).0@ == senc_u32(out@[j].0)
                    && sdecode_block_record(entries@[j].1@) == Some(out@[j].1@),
        decreases n - i,
    {
        let (key, value) = &entries[i];
        match dec_u32(key, 0) {
            Some((h, j)) if j == key.len() => {
                match decode_block_record(value) {
                    Some(b) => {
                        proof {
                            crate::codec::lemma_enc_dec_u32(key@, h);
                        }
                        out.push((h, b));
                    },
                    None => {
                        return Err(Error::Corrupt);
                    },
                }
            },
            _ => {
                proof {
                    if is_height_value(key@) {
                        lemma_height_value_decodes(key@);
                    }
                }
                return Err(Error::Corrupt);
            },
        }
        i += 1;
    }
    Ok(out)
}

impl Database {
    /// Up to `limit` blocks in the requested direction; `start == None`
    /// begins at the lowest (or, reversed, the highest) committed height.
    /// A `limit` of zero selects nothing.
    #[verifier::rlimit(100)]
    #[verifier::spinoff_prover]
    pub fn blocks(&self, req: &BlocksRequest) -> (r: Result<Vec<(u32, BlockRecord)>, Error>)
        requires
            self.wf(),
        ensures
            match r {
                Ok(list) => {
                    let sel = blocks_selection(self@, req.start, req.reverse, req.limit as int);
                    &&& list@.len() == sel.len()
                    &&& forall|j: int|
                        0 <= j < sel.len() ==> (#[trigger] sel[j]).0 == senc_u32(list@[j].0)
                            && sdecode_block_record(sel[j].1) == Some(list@[j].1@)
                    &&& req.limit == 0 ==> list@.len() == 0
                    &&& !req.reverse ==> forall|j1: int, j2: int|
                        0 <= j1 < j2 < list@.len() ==> (#[trigger] list@[j1]).0 < (
                        #[trigger] list@[j2]).0
                    &&& req.reverse ==> forall|j1: int, j2: int|
                        0 <= j1 < j2 < list@.len() ==> (#[trigger] list@[j1]).0 > (
                        #[trigger] list@[j2]).0
                    &&& (req.reverse && req.start is None && self@.blocks.len() > 0 && req.limit
                        > 0) ==> list@.len() > 0 && senc_u32(list@[0].0) == self@.blocks.last().0
                },
                Err(e) => {
                    let sel = blocks_selection(self@, req.start, req.reverse, req.limit as int);
                    e == Error::Corrupt && exists|j: int|
                        0 <= j < sel.len() && (!is_height_value((#[trigger] sel[j]).0)
                            || sdecode_block_record(sel[j].1) is None)
                },
            },
    {
        let ghost sel = blocks_selection(self@, req.start, req.reverse, req.limit as int);
        let start_key: Option<Vec<u8>> = match req.start {
            Some(h) => Some(height_key(h)),
            None => None,
        };
        let entries = if req.reverse {
            self.store.blocks.scan_reverse(start_key.as_ref(), req.limit)
        } else {
            self.store.blocks.scan_forward(start_key.as_ref(), req.limit)
        };
        proof {
            assert(entries_view(entries@) == sel);
        }
        let out = match decode_block_entries(&entries) {
            Ok(out) => out,
            Err(e) => {
                proof {
                    let j = choose|j: int|
                        0 <= j < entries@.len() && (!is_height_value((#[trigger] entries@[j]).0@)
                            || sdecode_block_record(entries@[j].1@) is None);
                    assert(sel[j] == (entries@[j].0@, entries@[j].1@));
                }
                return Err(e);
            },
        };
        proof {
            assert forall|j: int| 0 <= j < sel.len() implies (#[trigger] sel[j]).0 == senc_u32(
                out@[j].0,
            ) && sdecode_block_record(sel[j].1) == Some(out@[j].1@) by {
                assert(sel[j] == (entries@[j].0@, entries@[j].1@));
            }
        }
        proof {
            let key = match req.start {
                Some(h) => Some(senc_u32(h)),
                None => None,
            };
            let heights = out@.map_values(|p: (u32, BlockRecord)| p.0);
            assert(heights.len() == sel.len());
            assert forall|j: int| 0 <= j < heights.len() implies (#[trigger] sel[j]).0 == senc_u32(
                heights[j],
            ) by {
                assert(heights[j] == out@[j].0);
            }
            if req.reverse {
                lemma_blocks_order_reverse(self@.blocks, key, req.limit as int, heights);
            } else {
                lemma_blocks_order_forward(self@.blocks, key, req.limit as int, heights);
            }
            assert forall|j1: int, j2: int| 0 <= j1 < j2 < out@.len() implies (req.reverse ==> (
            #[trigger] out@[j1]).0 > (#[trigger] out@[j2]).0) && (!req.reverse ==> out@[j1].0
                < out@[j2].0) by {
                assert(heights[j1] == out@[j1].0);
                assert(heights[j2] == out@[j2].0);
            }
            if req.reverse && req.start.is_none() && self@.blocks.len() > 0 && req.limit > 0 {
                assert(heights[0] == out@[0].0);
            }
        }
        Ok(out)
    }
}


/// Suffix identifiers of all keys that begin with `prefix`: the index scan
/// behind the by-height and by-parent queries. `None` means a malformed key
/// was found: storage corruption.
fn prefix_ids(table: &crate::table::Table, prefix: &Vec<u8>) -> (r: Option<Vec<Bytes32>>)
    ensures
        match r {
            Some(ids) => {
                let sel = sel_prefix(table@, prefix@);
                &&& ids@.len() == sel.len()
                &&& forall|j: int|
                    0 <= j < sel.len() ==> prefix@ + (#[trigger] ids@[j])@ == sel[j].0
                        && ids@[j]@.len() == 32
            },
            None => exists|j: int|
                0 <= j < sel_prefix(table@, prefix@).len() && (#[trigger] sel_prefix(
                    table@,
                    prefix@,
                )[j]).0.len() != prefix@.len() + 32,
        },
{
    let entries = table.scan_prefix(prefix);
    let ghost sel = sel_prefix(table@, prefix@);
    let n: usize = entries.len();
    let mut ids: Vec<Bytes32> = Vec::new();
    let mut i: usize = 0;
    while i < n
        invariant
            n == entries@.len(),
            i <= n,
            sel == entries_view(entries@),
            sel == sel_prefix(table@, prefix@),
            forall|j: int|
                0 <= j < entries@.len() ==> (#[trigger] sel[j]) == (
                    entries@[j].0@,
                    entries@[j].1@,
                ),
            ids@.len() == i,
            forall|j: int|
                0 <= j < i ==> prefix@ + (#[trigger] ids@[j])@ == sel[j].0 && ids@[j]@.len() == 32,
        decreases n - i,
    {
        let (key, _value) = &entries[i];
        if key.len() < prefix.len() || key.len() - prefix.len() != 32 {
            proof {
                assert(sel[i as int].0.len() != prefix@.len() + 32);
            }
            return None;
        }
        proof {
            crate::table::lemma_sel_prefix_pred(table@, prefix@, i as int);
        }
        let id_bytes = crate::codec::copy_range(key, prefix.len(), key.len());
        let id = Bytes32::new(id_bytes);
        proof {
            assert(key@.subrange(0, prefix@.len() as int) == prefix@);
            assert(prefix@ + key@.subrange(prefix@.len() as int, key@.len() as int) =~= key@);
        }
        ids.push(id);
        i += 1;
    }
    Some(ids)
}

impl Database {
    /// The ids of all children of a parent coin, through the 32-byte-prefix
    /// parent index. Every child is listed exactly once.
    pub fn coins_by_parent(&self, parent_id: &Bytes32) -> (r: Result<Vec<Bytes32>, Error>)
        requires
            self.wf(),
            parent_id.wf(),
        ensures
            match r {
                Ok(ids) => {
                    &&& forall|j: int|
                        0 <= j < ids@.len() ==> store_get(
                            self@,
                            Cf::CoinParentHashIndex,
                            parent_id@ + (#[trigger] ids@[j])@,
                        ) is Some
                    &&& forall|k: Seq<u8>|
                        #[trigger] store_get(self@, Cf::CoinParentHashIndex, k) is Some
                            && is_prefix_of(parent_id@, k) ==> exists|j: int|
                            0 <= j < ids@.len() && parent_id@ + (#[trigger] ids@[j])@ == k
                    &&& forall|j1: int, j2: int|
                        0 <= j1 < j2 < ids@.len() ==> (#[trigger] ids@[j1])@ != (
                        #[trigger] ids@[j2])@
                },
                Err(e) => e == Error::Corrupt && exists|j: int|
                    0 <= j < sel_prefix(self@.coin_parent_hash_index, parent_id@).len() && (
                    #[trigger] sel_prefix(self@.coin_parent_hash_index, parent_id@)[j]).0.len()
                        != 64,
            },
    {
        let ghost pred = |e: (Seq<u8>, Seq<u8>)| is_prefix_of(parent_id@, e.0);
        match prefix_ids(&self.store.coin_parent_hash_index, &parent_id.bytes) {
            None => Err(Error::Corrupt),
            Some(ids) => {
                proof {
                    lemma_scan_prefix_complete(self@.coin_parent_hash_index, parent_id@, ids@);
                }
                Ok(ids)
            },
        }
    }
}

/// The glue between a prefix selection and the table it came from: every
/// selected entry is found by lookup, every matching key is selected, and
/// the suffix ids are pairwise distinct.
proof fn lemma_scan_prefix_complete(t: crate::table::TableV, prefix: Seq<u8>, ids: Seq<Bytes32>)
    requires
        crate::table::table_sorted(t),
        ids.len() == sel_prefix(t, prefix).len(),
        forall|j: int|
            0 <= j < ids.len() ==> prefix + (#[trigger] ids[j])@ == sel_prefix(t, prefix)[j].0
                && ids[j]@.len() == 32,
    ensures
        forall|j: int|
            0 <= j < ids.len() ==> #[trigger] spec_get(t, prefix + (#[trigger] ids[j])@) is Some,
        forall|k: Seq<u8>|
            #[trigger] spec_get(t, k) is Some && is_prefix_of(prefix, k) ==> exists|j: int|
                0 <= j < ids.len() && prefix + (#[trigger] ids[j])@ == k,
        forall|j1: int, j2: int|
            0 <= j1 < j2 < ids.len() ==> (#[trigger] ids[j1])@ != (#[trigger] ids[j2])@,
{
    let pred = |e: (Seq<u8>, Seq<u8>)| is_prefix_of(prefix, e.0);
    let sel = t.filter(pred);
    lemma_filter_sorted(t, pred);
    assert forall|j: int| 0 <= j < ids.len() implies #[trigger] spec_get(
        t,
        prefix + (#[trigger] ids[j])@,
    ) is Some by {
        let m = choose|m: int| 0 <= m < t.len() && (#[trigger] t[m]) == (#[trigger] t.filter(pred)[j]);
        lemma_index_to_get(t, m);
    }
    assert forall|k: Seq<u8>|
        #[trigger] spec_get(t, k) is Some && is_prefix_of(prefix, k) implies exists|j: int|
        0 <= j < ids.len() && prefix + (#[trigger] ids[j])@ == k by {
        lemma_get_to_index(t, k);
        let m = choose|m: int|
            0 <= m < t.len() && (#[trigger] t[m]).0 == k && t[m].1 == spec_get(t, k)->Some_0;
        t.lemma_filter_contains(pred, m);
        assert(sel.contains(t[m]));
        let j = choose|j: int| 0 <= j < sel.len() && sel[j] == t[m];
        assert(prefix + ids[j]@ == k);
    }
    assert forall|j1: int, j2: int| 0 <= j1 < j2 < ids.len() implies (#[trigger] ids[j1])@ != (
    #[trigger] ids[j2])@ by {
        assert(lex_lt(sel[j1].0, sel[j2].0));
        crate::table::lemma_lex_irrefl(sel[j1].0);
        if ids[j1]@ == ids[j2]@ {
            assert(sel[j1].0 == sel[j2].0);
        }
    }
}



/// What lets a by-block lookup report corruption: the hash row is not a
/// height; or a height-index key at that height is not a height-and-id
/// pair; or a coin row (or, for the spends lookup, a spend row) fails to
/// decode.
pub open spec fn by_block_corrupt(s: StoreV, hash: Seq<u8>, coins_only: bool) -> bool {
    ||| match store_get(s, Cf::BlockHashes, hash) {
        Some(v) => !is_height_value(v),
        None => false,
    }
    ||| exists|h: u32, j: int|
        store_get(s, Cf::BlockHashes, hash) == Some(senc_u32(h)) && 0 <= j < sel_prefix(
            s.coin_height_index,
            senc_u32(h),
        ).len() && (#[trigger] sel_prefix(s.coin_height_index, senc_u32(h))[j]).0.len() != 36
    ||| exists|k: Seq<u8>|
        match #[trigger] store_get(s, Cf::Coins, k) {
            Some(v) => sdecode_coin_record(v) is None,
            None => false,
        }
    ||| (!coins_only && exists|k: Seq<u8>|
        match #[trigger] store_get(s, Cf::CoinSpends, k) {
            Some(v) => sdecode_coin_spend_record(v) is None,
            None => false,
        })
}

impl Database {
    /// All coin records created or spent at the block with the given header
    /// hash: the union of additions and removals at its height, each coin
    /// listed once. `Ok(None)` means the header hash is unknown.
    pub fn coins_by_block(&self, hash: &Bytes32) -> (r: Result<
        Option<Vec<(Bytes32, CoinRecord)>>,
        Error,
    >)
        requires
            self.wf(),
        ensures
            match r {
                Ok(Some(list)) => exists|h: u32|
                    {
                        &&& store_get(self@, Cf::BlockHashes, hash@) == Some(senc_u32(h))
                        &&& forall|j: int|
                            0 <= j < list@.len() ==> {
                                let id = (#[trigger] list@[j]).0@;
                                &&& store_get(self@, Cf::CoinHeightIndex, senc_u32(h) + id)
                                    is Some
                                &&& store_get(self@, Cf::Coins, id) is Some
                                &&& sdecode_coin_record(
                                    store_get(self@, Cf::Coins, id)->Some_0,
                                ) == Some(list@[j].1@)
                            }
                        &&& forall|k: Seq<u8>|
                            #[trigger] store_get(self@, Cf::CoinHeightIndex, k) is Some
                                && is_prefix_of(senc_u32(h), k) && k.len() == 36 && store_get(
                                self@,
                                Cf::Coins,
                                k.subrange(4, 36),
                            ) is Some ==> exists|j: int|
                                0 <= j < list@.len() && (#[trigger] list@[j]).0@ == k.subrange(
                                    4,
                                    36,
                                )
                        &&& forall|j1: int, j2: int|
                            0 <= j1 < j2 < list@.len() ==> (#[trigger] list@[j1]).0@ != (
                            #[trigger] list@[j2]).0@
                    },
                Ok(None) => store_get(self@, Cf::BlockHashes, hash@) is None,
                Err(e) => e == Error::Corrupt && by_block_corrupt(self@, hash@, true),
            },
    {
        let height = match self.block_height(hash) {
            Ok(Some(h)) => h,
            Ok(None) => {
                return Ok(None);
            },
            Err(e) => {
                return Err(e);
            },
        };
        let prefix = height_key(height);
        let ids = match prefix_ids(&self.store.coin_height_index, &prefix) {
            Some(ids) => ids,
            None => {
                return Err(Error::Corrupt);
            },
        };
        proof {
            lemma_scan_prefix_complete(self@.coin_height_index, senc_u32(height), ids@);
        }
        let n: usize = ids.len();
        let mut out: Vec<(Bytes32, CoinRecord)> = Vec::new();
        let mut i: usize = 0;
        while i < n
            invariant
                self.wf(),
                n == ids@.len(),
                i <= n,
                store_get(self@, Cf::BlockHashes, hash@) == Some(senc_u32(height)),
                forall|j: int|
                    0 <= j < ids@.len() ==> #[trigger] store_get(
                        self@,
                        Cf::CoinHeightIndex,
                        senc_u32(height) + (#[trigger] ids@[j])@,
                    ) is Some && ids@[j]@.len() == 32,
                forall|j1: int, j2: int|
                    0 <= j1 < j2 < ids@.len() ==> (#[trigger] ids@[j1])@ != (#[trigger] ids@[j2])@,
                forall|j: int|
                    0 <= j < out@.len() ==> {
                        let id = (#[trigger] out@[j]).0@;
                        &&& store_get(self@, Cf::CoinHeightIndex, senc_u32(height) + id) is Some
                        &&& store_get(self@, Cf::Coins, id) is Some
                        &&& sdecode_coin_record(store_get(self@, Cf::Coins, id)->Some_0) == Some(
                            out@[j].1@,
                        )
                    },
                forall|m: int|
                    0 <= m < i && #[trigger] store_get(self@, Cf::Coins, (#[trigger] ids@[m])@)
                        is Some ==> exists|j: int|
                        0 <= j < out@.len() && (#[trigger] out@[j]).0@ == ids@[m]@,
                forall|j: int|
                    0 <= j < out@.len() ==> exists|m: int|
                        0 <= m < i && (#[trigger] out@[j]).0@ == (#[trigger] ids@[m])@,
                forall|j1: int, j2: int|
                    0 <= j1 < j2 < out@.len() ==> (#[trigger] out@[j1]).0@ != (
                    #[trigger] out@[j2]).0@,
            decreases n - i,
        {
            let id = ids[i].clone_of();
            proof {
                assert(id@ == ids@[i as int]@);
            }
            match self.coin(&id) {
                Ok(Some(rec)) => {
                    let ghost out0 = out@;
                    out.push((id, rec));
                    proof {
                        assert(out@[out@.len() - 1].0@ == ids@[i as int]@);
                        assert forall|j1: int, j2: int|
                            0 <= j1 < j2 < out@.len() implies (#[trigger] out@[j1]).0@ != (
                        #[trigger] out@[j2]).0@ by {
                            if j2 == out@.len() - 1 {
                                let m = choose|m: int|
                                    0 <= m < i && (#[trigger] out0[j1]).0@ == (#[trigger] ids@[m])@;
                                assert(ids@[m]@ != ids@[i as int]@);
                            }
                        }
                        assert forall|m: int|
                            0 <= m < i + 1 && #[trigger] store_get(
                                self@,
                                Cf::Coins,
                                (#[trigger] ids@[m])@,
                            ) is Some implies exists|j: int|
                            0 <= j < out@.len() && (#[trigger] out@[j]).0@ == ids@[m]@ by {
                            if m < i {
                                let j = choose|j: int|
                                    0 <= j < out0.len() && (#[trigger] out0[j]).0@ == ids@[m]@;
                                assert(out@[j] == out0[j]);
                            } else {
                                assert(out@[out@.len() - 1].0@ == ids@[m]@);
                            }
                        }
                    }
                },
                Ok(None) => {
                    proof {
                        assert(store_get(self@, Cf::Coins, ids@[i as int]@) is None);
                    }
                },
                Err(e) => {
                    return Err(e);
                },
            }
            i += 1;
        }
        proof {
            assert forall|k: Seq<u8>|
                #[trigger] store_get(self@, Cf::CoinHeightIndex, k) is Some && is_prefix_of(
                    senc_u32(height),
                    k,
                ) && k.len() == 36 && store_get(self@, Cf::Coins, k.subrange(4, 36))
                    is Some implies exists|j: int|
                0 <= j < out@.len() && (#[trigger] out@[j]).0@ == k.subrange(4, 36) by {
                let m = choose|m: int|
                    0 <= m < ids@.len() && senc_u32(height) + (#[trigger] ids@[m])@ == k;
                assert(ids@[m]@ =~= k.subrange(4, 36));
                assert(store_get(self@, Cf::Coins, ids@[m]@) is Some);
            }
        }
        Ok(Some(out))
    }

    /// All spend records at the block with the given header hash: the coins
    /// whose spent height equals the block's height. `Ok(None)` means the
    /// header hash is unknown.
    pub fn spends_by_block(&self, hash: &Bytes32) -> (r: Result<
        Option<Vec<(Bytes32, CoinSpendRecord)>>,
        Error,
    >)
        requires
            self.wf(),
        ensures
            match r {
                Ok(Some(list)) => exists|h: u32|
                    {
                        &&& store_get(self@, Cf::BlockHashes, hash@) == Some(senc_u32(h))
                        &&& forall|j: int|
                            0 <= j < list@.len() ==> {
                                let id = (#[trigger] list@[j]).0@;
                                &&& store_get(self@, Cf::Coins, id) is Some
                                &&& store_get(self@, Cf::CoinSpends, id) is Some
                                &&& sdecode_coin_spend_record(
                                    store_get(self@, Cf::CoinSpends, id)->Some_0,
                                ) == Some(list@[j].1@)
                                &&& exists|c: crate::types::CoinRecordV|
                                    sdecode_coin_record(store_get(self@, Cf::Coins, id)->Some_0)
                                        == Some(c) && c.spent_height == Some(h)
                            }
                        &&& forall|k: Seq<u8>|
                            (#[trigger] store_get(self@, Cf::CoinHeightIndex, k)) is Some
                                && is_prefix_of(senc_u32(h), k) && k.len() == 36 && (match
                            store_get(self@, Cf::Coins, k.subrange(4, 36)) {
                                Some(v) => match sdecode_coin_record(v) {
                                    Some(c) => c.spent_height == Some(h),
                                    None => false,
                                },
                                None => false,
                            }) && store_get(self@, Cf::CoinSpends, k.subrange(4, 36))
                                is Some ==> exists|j: int|
                                0 <= j < list@.len() && (#[trigger] list@[j]).0@ == k.subrange(
                                    4,
                                    36,
                                )
                        &&& forall|j1: int, j2: int|
                            0 <= j1 < j2 < list@.len() ==> (#[trigger] list@[j1]).0@ != (
                            #[trigger] list@[j2]).0@
                    },
                Ok(None) => store_get(self@, Cf::BlockHashes, hash@) is None,
                Err(e) => e == Error::Corrupt && by_block_corrupt(self@, hash@, false),
            },
    {
        let height = match self.block_height(hash) {
            Ok(Some(h)) => h,
            Ok(None) => {
                return Ok(None);
            },
            Err(e) => {
                return Err(e);
            },
        };
        let prefix = height_key(height);
        let ids = match prefix_ids(&self.store.coin_height_index, &prefix) {
            Some(ids) => ids,
            None => {
                return Err(Error::Corrupt);
            },
        };
        proof {
            lemma_scan_prefix_complete(self@.coin_height_index, senc_u32(height), ids@);
        }
        let n: usize = ids.len();
        let mut out: Vec<(Bytes32, CoinSpendRecord)> = Vec::new();
        let mut i: usize = 0;
        while i < n
            invariant
                self.wf(),
                n == ids@.len(),
                i <= n,
                store_get(self@, Cf::BlockHashes, hash@) == Some(senc_u32(height)),
                forall|j1: int, j2: int|
                    0 <= j1 < j2 < ids@.len() ==> (#[trigger] ids@[j1])@ != (#[trigger] ids@[j2])@,
                forall|j: int|
                    0 <= j < out@.len() ==> {
                        let id = (#[trigger] out@[j]).0@;
                        &&& store_get(self@, Cf::Coins, id) is Some
                        &&& store_get(self@, Cf::CoinSpends, id) is Some
                        &&& sdecode_coin_spend_record(
                            store_get(self@, Cf::CoinSpends, id)->Some_0,
                        ) == Some(out@[j].1@)
                        &&& exists|c: crate::types::CoinRecordV|
                            sdecode_coin_record(store_get(self@, Cf::Coins, id)->Some_0) == Some(c)
                                && c.spent_height == Some(height)
                    },
                forall|j: int|
                    0 <= j < out@.len() ==> exists|m: int|
                        0 <= m < i && (#[trigger] out@[j]).0@ == (#[trigger] ids@[m])@,
                forall|m: int|
                    0 <= m < i && (match store_get(self@, Cf::Coins, (#[trigger] ids@[m])@) {
                        Some(v) => match sdecode_coin_record(v) {
                            Some(c) => c.spent_height == Some(height),
                            None => false,
                        },
                        None => false,
                    }) && store_get(self@, Cf::CoinSpends, ids@[m]@) is Some ==> exists|j: int|
                        0 <= j < out@.len() && (#[trigger] out@[j]).0@ == ids@[m]@,
                forall|j1: int, j2: int|
                    0 <= j1 < j2 < out@.len() ==> (#[trigger] out@[j1]).0@ != (
                    #[trigger] out@[j2]).0@,
            decreases n - i,
        {
            let id = ids[i].clone_of();
            proof {
                assert(id@ == ids@[i as int]@);
            }
            match self.coin(&id) {
                Ok(Some(rec)) => {
                    let spent_matches = match &rec.spent_height {
                        Some(sh) => *sh == height,
                        None => false,
                    };
                    if spent_matches {
                        match self.coin_spend(&id) {
                            Ok(Some(spend)) => {
                                let ghost out0 = out@;
                                out.push((id, spend));
                                proof {
                                    assert(out@[out@.len() - 1].0@ == ids@[i as int]@);
                                    assert forall|j1: int, j2: int|
                                        0 <= j1 < j2 < out@.len() implies (
                                    #[trigger] out@[j1]).0@ != (#[trigger] out@[j2]).0@ by {
                                        if j2 == out@.len() - 1 {
                                            let m = choose|m: int|
                                                0 <= m < i && (#[trigger] out0[j1]).0@ == (
                                                #[trigger] ids@[m])@;
                                            assert(ids@[m]@ != ids@[i as int]@);
                                        }
                                    }
                                    assert forall|m: int|
                                        0 <= m < i + 1 && (match store_get(
                                            self@,
                                            Cf::Coins,
                                            (#[trigger] ids@[m])@,
                                        ) {
                                            Some(v) => match sdecode_coin_record(v) {
                                                Some(c) => c.spent_height == Some(height),
                                                None => false,
                                            },
                                            None => false,
                                        }) && store_get(self@, Cf::CoinSpends, ids@[m]@)
                                            is Some implies exists|j: int|
                                        0 <= j < out@.len() && (#[trigger] out@[j]).0@
                                            == ids@[m]@ by {
                                        if m < i {
                                            let j = choose|j: int|
                                                0 <= j < out0.len() && (#[trigger] out0[j]).0@
                                                    == ids@[m]@;
                                            assert(out@[j] == out0[j]);
                                        } else {
                                            assert(out@[out@.len() - 1].0@ == ids@[m]@);
                                        }
                                    }
                                }
                            },
                            Ok(None) => {},
                            Err(e) => {
                                return Err(e);
                            },
                        }
                    }
                },
                Ok(None) => {},
                Err(e) => {
                    return Err(e);
                },
            }
            i += 1;
        }
        proof {
            assert forall|k: Seq<u8>|
                (#[trigger] store_get(self@, Cf::CoinHeightIndex, k)) is Some && is_prefix_of(
                    senc_u32(height),
                    k,
                ) && k.len() == 36 && (match store_get(self@, Cf::Coins, k.subrange(4, 36)) {
                    Some(v) => match sdecode_coin_record(v) {
                        Some(c) => c.spent_height == Some(height),
                        None => false,
                    },
                    None => false,
                }) && store_get(self@, Cf::CoinSpends, k.subrange(4, 36))
                    is Some implies exists|j: int|
                0 <= j < out@.len() && (#[trigger] out@[j]).0@ == k.subrange(4, 36) by {
                let m = choose|m: int|
                    0 <= m < ids@.len() && senc_u32(height) + (#[trigger] ids@[m])@ == k;
                assert(ids@[m]@ =~= k.subrange(4, 36));
            }
        }
        Ok(Some(out))
    }
}

} // verus!
