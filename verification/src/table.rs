//! An ordered key/value table: the building block of the store.
//!
//! Entries are kept strictly sorted by byte-lexicographic key order, the
//! order in which range and prefix scans walk them. `spec_get` and
//! `spec_upsert` are the mathematical reading of point lookups and writes;
//! two well-formed tables that agree on every lookup are equal.

use vstd::prelude::*;
use vstd::seq_lib::*;

use crate::types::{bytes_eq, clone_bytes};

verus! {

/// Byte-lexicographic strict order; a proper prefix comes first.
pub open spec fn lex_lt(a: Seq<u8>, b: Seq<u8>) -> bool
    decreases a.len(),
{
    if b.len() == 0 {
        false
    } else if a.len() == 0 {
        true
    } else if a[0] < b[0] {
        true
    } else if a[0] > b[0] {
        false
    } else {
        lex_lt(a.subrange(1, a.len() as int), b.subrange(1, b.len() as int))
    }
}

pub proof fn lemma_lex_irrefl(a: Seq<u8>)
    ensures
        !lex_lt(a, a),
    decreases a.len(),
{
    if a.len() > 0 {
        lemma_lex_irrefl(a.subrange(1, a.len() as int));
    }
}

/// Exactly one of `a < b`, `a == b`, `b < a` holds.
pub proof fn lemma_lex_trichotomy(a: Seq<u8>, b: Seq<u8>)
    ensures
        lex_lt(a, b) || a == b || lex_lt(b, a),
        lex_lt(a, b) ==> a != b && !lex_lt(b, a),
        lex_lt(b, a) ==> a != b && !lex_lt(a, b),
    decreases a.len(),
{
    lemma_lex_irrefl(a);
    lemma_lex_irrefl(b);
    if a.len() > 0 && b.len() > 0 {
        let a1 = a.subrange(1, a.len() as int);
        let b1 = b.subrange(1, b.len() as int);
        lemma_lex_trichotomy(a1, b1);
        if a[0] == b[0] && a1 == b1 {
            assert forall|i: int| 0 <= i < a.len() implies a[i] == b[i] by {
                if i > 0 {
                    assert(a1[i - 1] == b1[i - 1]);
                }
            }
            assert(a =~= b);
        }
    } else if a.len() == 0 && b.len() == 0 {
        assert(a =~= b);
    }
}

pub proof fn lemma_lex_trans(a: Seq<u8>, b: Seq<u8>, c: Seq<u8>)
    requires
        lex_lt(a, b),
        lex_lt(b, c),
    ensures
        lex_lt(a, c),
    decreases a.len(),
{
    if a.len() > 0 && b.len() > 0 && c.len() > 0 {
        if a[0] == b[0] && b[0] == c[0] {
            lemma_lex_trans(
                a.subrange(1, a.len() as int),
                b.subrange(1, b.len() as int),
                c.subrange(1, c.len() as int),
            );
        }
    }
}

/// Three-way byte comparison: negative, zero or positive as `a` is below,
/// equal to, or above `b` in lexicographic order.
pub fn lex_cmp(a: &Vec<u8>, b: &Vec<u8>) -> (r: i8)
    ensures
        r == -1 || r == 0 || r == 1,
        r == -1 <==> lex_lt(a@, b@),
        r == 0 <==> a@ == b@,
        r == 1 <==> lex_lt(b@, a@),
{
    proof {
        lemma_lex_trichotomy(a@, b@);
    }
    let an: usize = a.len();
    let bn: usize = b.len();
    let mut i: usize = 0;
    proof {
        assert(a@.subrange(0, an as int) =~= a@);
        assert(b@.subrange(0, bn as int) =~= b@);
    }
    loop
        invariant
            i <= an <= a@.len(),
            i <= bn <= b@.len(),
            an == a@.len(),
            bn == b@.len(),
            forall|j: int| 0 <= j < i ==> a@[j] == b@[j],
            lex_lt(a@, b@) <==> lex_lt(
                a@.subrange(i as int, an as int),
                b@.subrange(i as int, bn as int),
            ),
            lex_lt(b@, a@) <==> lex_lt(
                b@.subrange(i as int, bn as int),
                a@.subrange(i as int, an as int),
            ),
            a@ == b@ <==> a@.subrange(i as int, an as int) == b@.subrange(i as int, bn as int),
        decreases an - i,
    {
        proof {
            lemma_lex_trichotomy(a@.subrange(i as int, an as int), b@.subrange(i as int, bn as int));
        }
        if i >= an && i >= bn {
            assert(a@.subrange(i as int, an as int) =~= b@.subrange(i as int, bn as int));
            return 0;
        }
        if i >= an {
            assert(lex_lt(a@.subrange(i as int, an as int), b@.subrange(i as int, bn as int)));
            return -1;
        }
        if i >= bn {
            assert(lex_lt(b@.subrange(i as int, bn as int), a@.subrange(i as int, an as int)));
            return 1;
        }
        let x = a[i];
        let y = b[i];
        if x < y {
            assert(lex_lt(a@.subrange(i as int, an as int), b@.subrange(i as int, bn as int)));
            assert(a@ != b@);
            return -1;
        }
        if x > y {
            assert(lex_lt(b@.subrange(i as int, bn as int), a@.subrange(i as int, an as int)));
            assert(a@ != b@);
            return 1;
        }
        proof {
            let sa = a@.subrange(i as int, an as int);
            let sb = b@.subrange(i as int, bn as int);
            assert(sa.subrange(1, sa.len() as int) =~= a@.subrange(i as int + 1, an as int));
            assert(sb.subrange(1, sb.len() as int) =~= b@.subrange(i as int + 1, bn as int));
        }
        i += 1;
    }
}

/// One table entry: a key and its value.
pub type Entry = (Vec<u8>, Vec<u8>);

/// The mathematical reading of a table: key/value pairs in key order.
pub type TableV = Seq<(Seq<u8>, Seq<u8>)>;

/// Point lookup in the sequence reading.
pub open spec fn spec_get(t: TableV, k: Seq<u8>) -> Option<Seq<u8>>
    decreases t.len(),
{
    if t.len() == 0 {
        None
    } else if t[0].0 == k {
        Some(t[0].1)
    } else {
        spec_get(t.subrange(1, t.len() as int), k)
    }
}

/// Point write in the sequence reading: replace, or insert in key order.
pub open spec fn spec_upsert(t: TableV, k: Seq<u8>, v: Seq<u8>) -> TableV
    decreases t.len(),
{
    if t.len() == 0 {
        seq![(k, v)]
    } else if lex_lt(k, t[0].0) {
        seq![(k, v)] + t
    } else if t[0].0 == k {
        seq![(k, v)] + t.subrange(1, t.len() as int)
    } else {
        seq![t[0]] + spec_upsert(t.subrange(1, t.len() as int), k, v)
    }
}

/// Strictly sorted by key; keys are unique by consequence.
pub open spec fn table_sorted(t: TableV) -> bool {
    forall|i: int, j: int| 0 <= i < j < t.len() ==> lex_lt(#[trigger] t[i].0, #[trigger] t[j].0)
}

pub proof fn lemma_sorted_tail(t: TableV)
    requires
        table_sorted(t),
        t.len() > 0,
    ensures
        table_sorted(t.subrange(1, t.len() as int)),
{
    let t1 = t.subrange(1, t.len() as int);
    assert forall|i: int, j: int| 0 <= i < j < t1.len() implies lex_lt(
        #[trigger] t1[i].0,
        #[trigger] t1[j].0,
    ) by {
        assert(t1[i] == t[i + 1]);
        assert(t1[j] == t[j + 1]);
    }
}

/// In a sorted table, a key below the first key is absent.
pub proof fn lemma_get_below_first(t: TableV, k: Seq<u8>)
    requires
        table_sorted(t),
        t.len() == 0 || lex_lt(k, t[0].0),
    ensures
        spec_get(t, k) is None,
    decreases t.len(),
{
    if t.len() > 0 {
        lemma_lex_trichotomy(k, t[0].0);
        let t1 = t.subrange(1, t.len() as int);
        lemma_sorted_tail(t);
        if t1.len() > 0 {
            assert(lex_lt(t[0].0, t[1].0));
            lemma_lex_trans(k, t[0].0, t1[0].0);
        }
        lemma_get_below_first(t1, k);
    }
}

/// Lookup after a write: the written key reads back the written value, and
/// every other key is unchanged.
pub proof fn lemma_get_upsert(t: TableV, k: Seq<u8>, v: Seq<u8>, q: Seq<u8>)
    requires
        table_sorted(t),
    ensures
        spec_get(spec_upsert(t, k, v), q) == if q == k {
            Some(v)
        } else {
            spec_get(t, q)
        },
    decreases t.len(),
{
    let u = spec_upsert(t, k, v);
    if t.len() == 0 {
        assert(u == seq![(k, v)]);
        assert(u.subrange(1, 1) =~= Seq::<(Seq<u8>, Seq<u8>)>::empty());
        assert(spec_get(Seq::<(Seq<u8>, Seq<u8>)>::empty(), q) is None);
        assert(u[0].0 == k);
        assert(spec_get(spec_upsert(t, k, v), q) =~~= if q == k {
            Some(v)
        } else {
            spec_get(t, q)
        });
    } else if lex_lt(k, t[0].0) {
        assert(u == seq![(k, v)] + t);
        assert(u.subrange(1, u.len() as int) =~= t);
        assert(u[0].0 == k);
        assert(spec_get(u.subrange(1, u.len() as int), q) == spec_get(t, q));
        assert(spec_get(spec_upsert(t, k, v), q) =~~= if q == k {
            Some(v)
        } else {
            spec_get(t, q)
        });
    } else if t[0].0 == k {
        assert(u == seq![(k, v)] + t.subrange(1, t.len() as int));
        assert(u.subrange(1, u.len() as int) =~= t.subrange(1, t.len() as int));
        lemma_sorted_tail(t);
        lemma_lex_trichotomy(q, t[0].0);
        assert(u[0].0 == k);
        assert(spec_get(u.subrange(1, u.len() as int), q) == spec_get(t.subrange(1, t.len() as int), q));
        assert(spec_get(spec_upsert(t, k, v), q) =~~= if q == k {
            Some(v)
        } else {
            spec_get(t, q)
        });
    } else {
        lemma_lex_trichotomy(k, t[0].0);
        let t1 = t.subrange(1, t.len() as int);
        lemma_sorted_tail(t);
        lemma_get_upsert(t1, k, v, q);
        assert(u == seq![t[0]] + spec_upsert(t1, k, v));
        assert(u.subrange(1, u.len() as int) =~= spec_upsert(t1, k, v));
        assert(u[0] == t[0]);
        assert(spec_get(u.subrange(1, u.len() as int), q) == spec_get(spec_upsert(t1, k, v), q));
        assert(spec_get(spec_upsert(t, k, v), q) =~~= if q == k {
            Some(v)
        } else {
            spec_get(t, q)
        });
    }
    assert(spec_get(spec_upsert(t, k, v), q) =~~= if q == k {
        Some(v)
    } else {
        spec_get(t, q)
    });
}

/// A write keeps the table sorted.
pub proof fn lemma_upsert_sorted(t: TableV, k: Seq<u8>, v: Seq<u8>)
    requires
        table_sorted(t),
    ensures
        table_sorted(spec_upsert(t, k, v)),
    decreases t.len(),
{
    let u = spec_upsert(t, k, v);
    if t.len() == 0 {
    } else if lex_lt(k, t[0].0) {
        assert(u == seq![(k, v)] + t);
        assert forall|i: int, j: int| 0 <= i < j < u.len() implies lex_lt(
            #[trigger] u[i].0,
            #[trigger] u[j].0,
        ) by {
            if i == 0 {
                if j > 1 {
                    lemma_lex_trans(k, t[0].0, t[j - 1].0);
                }
            } else {
                assert(u[i] == t[i - 1]);
                assert(u[j] == t[j - 1]);
            }
        }
    } else if t[0].0 == k {
        assert(u == seq![(k, v)] + t.subrange(1, t.len() as int));
        assert forall|i: int, j: int| 0 <= i < j < u.len() implies lex_lt(
            #[trigger] u[i].0,
            #[trigger] u[j].0,
        ) by {
            if i == 0 {
                assert(u[j] == t[j]);
            } else {
                assert(u[i] == t[i]);
                assert(u[j] == t[j]);
            }
        }
    } else {
        lemma_lex_trichotomy(k, t[0].0);
        let t1 = t.subrange(1, t.len() as int);
        lemma_sorted_tail(t);
        lemma_upsert_sorted(t1, k, v);
        let u1 = spec_upsert(t1, k, v);
        assert(u == seq![t[0]] + u1);
        // every key of `u1` is a key of `t1` or `k`, all above `t[0].0`
        lemma_upsert_keys(t1, k, v);
        assert forall|i: int, j: int| 0 <= i < j < u.len() implies lex_lt(
            #[trigger] u[i].0,
            #[trigger] u[j].0,
        ) by {
            if i == 0 {
                let kj = u1[j - 1].0;
                assert(kj == k || exists|m: int| 0 <= m < t1.len() && #[trigger] t1[m].0 == kj);
                if kj == k {
                } else {
                    let m = choose|m: int| 0 <= m < t1.len() && #[trigger] t1[m].0 == kj;
                    assert(t1[m] == t[m + 1]);
                    assert(lex_lt(t[0].0, t[m + 1].0));
                }
            } else {
                assert(u[i] == u1[i - 1]);
                assert(u[j] == u1[j - 1]);
            }
        }
    }
}

/// Every key of an updated table is the written key or one already present.
pub proof fn lemma_upsert_keys(t: TableV, k: Seq<u8>, v: Seq<u8>)
    ensures
        forall|i: int|
            0 <= i < spec_upsert(t, k, v).len() ==> (#[trigger] spec_upsert(t, k, v)[i].0 == k
                || exists|m: int| 0 <= m < t.len() && #[trigger] t[m].0 == spec_upsert(t, k, v)[i].0),
    decreases t.len(),
{
    let u = spec_upsert(t, k, v);
    if t.len() == 0 {
    } else if lex_lt(k, t[0].0) {
        assert forall|i: int| 0 <= i < u.len() implies (#[trigger] u[i].0 == k || exists|m: int|
            0 <= m < t.len() && #[trigger] t[m].0 == u[i].0) by {
            if i > 0 {
                assert(t[i - 1].0 == u[i].0);
            }
        }
    } else if t[0].0 == k {
        assert forall|i: int| 0 <= i < u.len() implies (#[trigger] u[i].0 == k || exists|m: int|
            0 <= m < t.len() && #[trigger] t[m].0 == u[i].0) by {
            if i > 0 {
                assert(t[i].0 == u[i].0);
            }
        }
    } else {
        let t1 = t.subrange(1, t.len() as int);
        lemma_upsert_keys(t1, k, v);
        let u1 = spec_upsert(t1, k, v);
        assert(u == seq![t[0]] + u1);
        assert forall|i: int| 0 <= i < u.len() implies (#[trigger] u[i].0 == k || exists|m: int|
            0 <= m < t.len() && #[trigger] t[m].0 == u[i].0) by {
            if i == 0 {
                assert(t[0].0 == u[0].0);
            } else {
                assert(u[i] == u1[i - 1]);
                if u1[i - 1].0 != k {
                    let m = choose|m: int| 0 <= m < t1.len() && #[trigger] t1[m].0 == u1[i - 1].0;
                    assert(t[m + 1].0 == u[i].0);
                }
            }
        }
    }
}

/// Two sorted tables that agree on every lookup are the same table.
pub proof fn lemma_canonical(t1: TableV, t2: TableV)
    requires
        table_sorted(t1),
        table_sorted(t2),
        forall|k: Seq<u8>| #[trigger] spec_get(t1, k) == spec_get(t2, k),
    ensures
        t1 == t2,
    decreases t1.len() + t2.len(),
{
    if t1.len() == 0 && t2.len() == 0 {
        assert(t1 =~= t2);
    } else if t1.len() == 0 {
        assert(spec_get(t2, t2[0].0) == Some(t2[0].1));
        assert(spec_get(t1, t2[0].0) is None);
    } else if t2.len() == 0 {
        assert(spec_get(t1, t1[0].0) == Some(t1[0].1));
        assert(spec_get(t2, t1[0].0) is None);
    } else {
        let k1 = t1[0].0;
        let k2 = t2[0].0;
        lemma_lex_trichotomy(k1, k2);
        if lex_lt(k1, k2) {
            assert(spec_get(t1, k1) == Some(t1[0].1));
            lemma_get_below_first(t2, k1);
            assert(false);
        } else if lex_lt(k2, k1) {
            assert(spec_get(t2, k2) == Some(t2[0].1));
            lemma_get_below_first(t1, k2);
            assert(false);
        } else {
            assert(spec_get(t1, k1) == Some(t1[0].1));
            assert(spec_get(t2, k1) == Some(t2[0].1));
            let r1 = t1.subrange(1, t1.len() as int);
            let r2 = t2.subrange(1, t2.len() as int);
            lemma_sorted_tail(t1);
            lemma_sorted_tail(t2);
            assert forall|k: Seq<u8>| #[trigger] spec_get(r1, k) == spec_get(r2, k) by {
                if k == k1 {
                    lemma_first_key_absent_in_tail(t1);
                    lemma_first_key_absent_in_tail(t2);
                } else {
                    assert(spec_get(t1, k) == spec_get(r1, k));
                    assert(spec_get(t2, k) == spec_get(r2, k));
                }
            }
            lemma_canonical(r1, r2);
            assert(t1[0].1 == t2[0].1);
            assert(t1[0].0 == t2[0].0);
            assert forall|i: int| 0 <= i < t1.len() implies t1[i] == t2[i] by {
                if i == 0 {
                    assert(t1[0] =~= t2[0]);
                } else {
                    assert(t1[i] == r1[i - 1]);
                    assert(t2[i] == r2[i - 1]);
                }
            }
            assert(t1 =~= t2);
        }
    }
}

/// The first key of a sorted table does not recur in its tail.
pub proof fn lemma_first_key_absent_in_tail(t: TableV)
    requires
        table_sorted(t),
        t.len() > 0,
    ensures
        spec_get(t.subrange(1, t.len() as int), t[0].0) is None,
{
    let t1 = t.subrange(1, t.len() as int);
    lemma_sorted_tail(t);
    if t1.len() > 0 {
        assert(lex_lt(t[0].0, t[1].0));
        assert(t1[0] == t[1]);
    }
    lemma_get_below_first(t1, t[0].0);
}


/// A found key sits at some index.
pub proof fn lemma_get_to_index(t: TableV, k: Seq<u8>)
    requires
        spec_get(t, k) is Some,
    ensures
        exists|i: int|
            0 <= i < t.len() && (#[trigger] t[i]).0 == k && t[i].1 == spec_get(t, k)->Some_0,
    decreases t.len(),
{
    if t[0].0 == k {
        assert(t[0].0 == k);
    } else {
        let t1 = t.subrange(1, t.len() as int);
        lemma_get_to_index(t1, k);
        let i = choose|i: int|
            0 <= i < t1.len() && (#[trigger] t1[i]).0 == k && t1[i].1 == spec_get(t1, k)->Some_0;
        assert(t[i + 1] == t1[i]);
    }
}

/// Every index of a sorted table is found by lookup.
pub proof fn lemma_index_to_get(t: TableV, i: int)
    requires
        table_sorted(t),
        0 <= i < t.len(),
    ensures
        spec_get(t, t[i].0) == Some(t[i].1),
    decreases t.len(),
{
    if i == 0 {
    } else {
        assert(lex_lt(t[0].0, t[i].0));
        lemma_lex_trichotomy(t[0].0, t[i].0);
        let t1 = t.subrange(1, t.len() as int);
        lemma_sorted_tail(t);
        assert(t1[i - 1] == t[i]);
        lemma_index_to_get(t1, i - 1);
    }
}


/// Every selected entry of a prefix scan carries the prefix.
pub proof fn lemma_sel_prefix_pred(t: TableV, prefix: Seq<u8>, i: int)
    requires
        0 <= i < sel_prefix(t, prefix).len(),
    ensures
        is_prefix_of(prefix, sel_prefix(t, prefix)[i].0),
{
    t.lemma_filter_pred(|e: (Seq<u8>, Seq<u8>)| is_prefix_of(prefix, e.0), i);
}

/// The executable table.
pub struct Table {
    pub entries: Vec<Entry>,
}

impl View for Table {
    type V = TableV;

    open spec fn view(&self) -> TableV {
        self.entries@.map(|i: int, p: Entry| (p.0@, p.1@))
    }
}

impl Table {
    pub open spec fn wf(&self) -> bool {
        table_sorted(self@)
    }

    pub fn new() -> (r: Table)
        ensures
            r@ == Seq::<(Seq<u8>, Seq<u8>)>::empty(),
            r.wf(),
    {
        let t = Table { entries: Vec::new() };
        assert(t@ =~= Seq::<(Seq<u8>, Seq<u8>)>::empty());
        t
    }

    pub fn len(&self) -> (r: usize)
        ensures
            r == self@.len(),
    {
        self.entries.len()
    }

    /// Point lookup.
    pub fn get(&self, key: &Vec<u8>) -> (r: Option<Vec<u8>>)
        requires
            self.wf(),
        ensures
            match r {
                Some(v) => spec_get(self@, key@) == Some(v@),
                None => spec_get(self@, key@) is None,
            },
    {
        let n: usize = self.entries.len();
        let mut i: usize = 0;
        proof {
            assert(self@.subrange(0, n as int) =~= self@);
        }
        while i < n
            invariant
                n == self@.len(),
                i <= n,
                self@.len() == self.entries@.len(),
                forall|j: int| 0 <= j < self@.len() ==> (#[trigger] self@[j]) == (
                    self.entries@[j].0@,
                    self.entries@[j].1@,
                ),
                spec_get(self@, key@) == spec_get(self@.subrange(i as int, n as int), key@),
            decreases n - i,
        {
            proof {
                let rest = self@.subrange(i as int, n as int);
                assert(rest[0] == self@[i as int]);
                assert(rest.subrange(1, rest.len() as int) =~= self@.subrange(
                    i as int + 1,
                    n as int,
                ));
            }
            if bytes_eq(&self.entries[i].0, key) {
                return Some(clone_bytes(&self.entries[i].1));
            }
            i += 1;
        }
        proof {
            assert(self@.subrange(n as int, n as int) =~= Seq::<(Seq<u8>, Seq<u8>)>::empty());
        }
        None
    }

    /// Point write: replace the value under `key`, or insert the pair in key
    /// order.
    pub fn upsert(&mut self, key: Vec<u8>, value: Vec<u8>)
        requires
            old(self).wf(),
        ensures
            final(self)@ == spec_upsert(old(self)@, key@, value@),
            final(self).wf(),
    {
        proof {
            lemma_upsert_sorted(self@, key@, value@);
        }
        let ghost t0 = self@;
        let n: usize = self.entries.len();
        let mut i: usize = 0;
        while i < n
            invariant
                n == old(self)@.len(),
                i <= n,
                self == old(self),
                t0 == self@,
                table_sorted(t0),
                table_sorted(spec_upsert(t0, key@, value@)),
                forall|j: int| 0 <= j < i ==> lex_lt(#[trigger] self@[j].0, key@),
            decreases n - i,
        {
            let c = lex_cmp(&self.entries[i].0, &key);
            proof {
                assert(self@[i as int] == (self.entries@[i as int].0@, self.entries@[i as int].1@));
            }
            if c == 0 {
                self.entries[i] = (key, value);
                proof {
                    lemma_upsert_at_index(t0, key@, value@, i as int);
                    assert(self@ =~= t0.update(i as int, (key@, value@)));
                }
                return;
            }
            if c > 0 {
                self.entries.insert(i, (key, value));
                proof {
                    lemma_insert_at_index(t0, key@, value@, i as int);
                    assert(self@ =~= Seq::<(Seq<u8>, Seq<u8>)>::empty() + t0.subrange(0, i as int)
                        + seq![(key@, value@)] + t0.subrange(i as int, t0.len() as int));
                }
                return;
            }
            i += 1;
        }
        self.entries.push((key, value));
        proof {
            lemma_insert_at_index(t0, key@, value@, n as int);
            assert(self@ =~= Seq::<(Seq<u8>, Seq<u8>)>::empty() + t0.subrange(0, n as int)
                + seq![(key@, value@)] + t0.subrange(n as int, t0.len() as int));
        }
    }
}

/// Replacing the value at the index holding `k` realizes `spec_upsert`.
proof fn lemma_upsert_at_index(t: TableV, k: Seq<u8>, v: Seq<u8>, i: int)
    requires
        table_sorted(t),
        0 <= i < t.len(),
        t[i].0 == k,
        forall|j: int| 0 <= j < i ==> lex_lt(#[trigger] t[j].0, k),
    ensures
        spec_upsert(t, k, v) == t.update(i, (k, v)),
    decreases t.len(),
{
    lemma_lex_irrefl(k);
    if i == 0 {
        assert(spec_upsert(t, k, v) == seq![(k, v)] + t.subrange(1, t.len() as int));
        assert(seq![(k, v)] + t.subrange(1, t.len() as int) =~= t.update(0, (k, v)));
    } else {
        assert(lex_lt(t[0].0, k));
        lemma_lex_trichotomy(k, t[0].0);
        let t1 = t.subrange(1, t.len() as int);
        lemma_sorted_tail(t);
        assert forall|j: int| 0 <= j < i - 1 implies lex_lt(#[trigger] t1[j].0, k) by {
            assert(t1[j] == t[j + 1]);
        }
        assert(t1[i - 1] == t[i]);
        lemma_upsert_at_index(t1, k, v, i - 1);
        assert(spec_upsert(t, k, v) == seq![t[0]] + t1.update(i - 1, (k, v)));
        assert(seq![t[0]] + t1.update(i - 1, (k, v)) =~= t.update(i, (k, v)));
    }
}

/// Inserting before the first index whose key is above `k` realizes
/// `spec_upsert` when `k` is absent.
proof fn lemma_insert_at_index(t: TableV, k: Seq<u8>, v: Seq<u8>, i: int)
    requires
        table_sorted(t),
        0 <= i <= t.len(),
        forall|j: int| 0 <= j < i ==> lex_lt(#[trigger] t[j].0, k),
        i < t.len() ==> lex_lt(k, t[i].0),
    ensures
        spec_upsert(t, k, v) == Seq::<(Seq<u8>, Seq<u8>)>::empty() + t.subrange(0, i) + seq![(k, v)]
            + t.subrange(i, t.len() as int),
    decreases t.len(),
{
    let target = Seq::<(Seq<u8>, Seq<u8>)>::empty() + t.subrange(0, i) + seq![(k, v)] + t.subrange(
        i,
        t.len() as int,
    );
    if t.len() == 0 {
        assert(spec_upsert(t, k, v) == seq![(k, v)]);
        assert(target =~= seq![(k, v)]);
    } else if i == 0 {
        assert(lex_lt(k, t[0].0));
        assert(spec_upsert(t, k, v) == seq![(k, v)] + t);
        assert(target =~= seq![(k, v)] + t);
    } else {
        assert(lex_lt(t[0].0, k));
        lemma_lex_trichotomy(k, t[0].0);
        let t1 = t.subrange(1, t.len() as int);
        lemma_sorted_tail(t);
        assert forall|j: int| 0 <= j < i - 1 implies lex_lt(#[trigger] t1[j].0, k) by {
            assert(t1[j] == t[j + 1]);
        }
        if i - 1 < t1.len() {
            assert(t1[i - 1] == t[i]);
        }
        lemma_insert_at_index(t1, k, v, i - 1);
        assert(spec_upsert(t, k, v) == seq![t[0]] + (Seq::<(Seq<u8>, Seq<u8>)>::empty()
            + t1.subrange(0, i - 1) + seq![(k, v)] + t1.subrange(i - 1, t1.len() as int)));
        assert(seq![t[0]] + (Seq::<(Seq<u8>, Seq<u8>)>::empty() + t1.subrange(0, i - 1) + seq![
            (k, v),
        ] + t1.subrange(i - 1, t1.len() as int)) =~= target);
    }
}


/// `p` is a prefix of `k`.
pub open spec fn is_prefix_of(p: Seq<u8>, k: Seq<u8>) -> bool {
    p.len() <= k.len() && k.subrange(0, p.len() as int) == p
}

/// Whether `k` starts with `p`.
pub fn starts_with(k: &Vec<u8>, p: &Vec<u8>) -> (r: bool)
    ensures
        r <==> is_prefix_of(p@, k@),
{
    if p.len() > k.len() {
        return false;
    }
    let n: usize = p.len();
    let mut i: usize = 0;
    while i < n
        invariant
            n == p@.len() <= k@.len(),
            i <= n,
            forall|j: int| 0 <= j < i ==> k@[j] == p@[j],
        decreases n - i,
    {
        if k[i] != p[i] {
            assert(k@.subrange(0, n as int)[i as int] != p@[i as int]);
            return false;
        }
        i += 1;
    }
    assert(k@.subrange(0, n as int) =~= p@);
    true
}

/// The first `n` items, or all of them if fewer.
pub open spec fn take_at_most<A>(s: Seq<A>, n: int) -> Seq<A> {
    if n <= s.len() {
        s.take(n)
    } else {
        s
    }
}

proof fn lemma_take_of_concat<A>(a: Seq<A>, b: Seq<A>, l: int)
    requires
        0 <= l <= a.len(),
    ensures
        (a + b).take(l) == a.take(l),
{
    assert((a + b).take(l) =~= a.take(l));
}

/// The view of an entry list.
pub open spec fn entries_view(s: Seq<Entry>) -> Seq<(Seq<u8>, Seq<u8>)> {
    s.map_values(|e: Entry| (e.0@, e.1@))
}

pub fn clone_entry(e: &Entry) -> (r: Entry)
    ensures
        r.0@ == e.0@,
        r.1@ == e.1@,
{
    (clone_bytes(&e.0), clone_bytes(&e.1))
}

/// The range selected by a scan: every entry, or those at or above (at or
/// below, for a reverse scan) the starting key.
pub open spec fn sel_forward(t: TableV, start: Option<Seq<u8>>) -> Seq<(Seq<u8>, Seq<u8>)> {
    t.filter(
        |e: (Seq<u8>, Seq<u8>)|
            match start {
                None => true,
                Some(st) => !lex_lt(e.0, st),
            },
    )
}

pub open spec fn sel_reverse(t: TableV, start: Option<Seq<u8>>) -> Seq<(Seq<u8>, Seq<u8>)> {
    t.filter(
        |e: (Seq<u8>, Seq<u8>)|
            match start {
                None => true,
                Some(st) => !lex_lt(st, e.0),
            },
    )
}

/// Entries whose key begins with `prefix`, in key order.
pub open spec fn sel_prefix(t: TableV, prefix: Seq<u8>) -> Seq<(Seq<u8>, Seq<u8>)> {
    t.filter(|e: (Seq<u8>, Seq<u8>)| is_prefix_of(prefix, e.0))
}

impl Table {
    /// The entry under the highest key.
    pub fn last(&self) -> (r: Option<Entry>)
        ensures
            match r {
                Some(e) => self@.len() > 0 && (e.0@, e.1@) == self@.last(),
                None => self@.len() == 0,
            },
    {
        let n: usize = self.entries.len();
        if n == 0 {
            return None;
        }
        let e = clone_entry(&self.entries[n - 1]);
        proof {
            assert(self@[n - 1] == (self.entries@[n - 1 as int].0@, self.entries@[n - 1 as int].1@));
        }
        Some(e)
    }

    /// All entries whose key starts with `prefix`, in key order.
    pub fn scan_prefix(&self, prefix: &Vec<u8>) -> (r: Vec<Entry>)
        ensures
            entries_view(r@) == sel_prefix(self@, prefix@),
    {
        let ghost pred = |e: (Seq<u8>, Seq<u8>)| is_prefix_of(prefix@, e.0);
        let n: usize = self.entries.len();
        let mut out: Vec<Entry> = Vec::new();
        let mut i: usize = 0;
        proof {
            assert(self@.take(0) =~= Seq::<(Seq<u8>, Seq<u8>)>::empty());
            assert(entries_view(out@) =~= self@.take(0).filter(pred));
        }
        while i < n
            invariant
                n == self@.len(),
                self@.len() == self.entries@.len(),
                forall|j: int| 0 <= j < self@.len() ==> (#[trigger] self@[j]) == (
                    self.entries@[j].0@,
                    self.entries@[j].1@,
                ),
                i <= n,
                pred == (|e: (Seq<u8>, Seq<u8>)| is_prefix_of(prefix@, e.0)),
                entries_view(out@) == self@.take(i as int).filter(pred),
            decreases n - i,
        {
            let ghost out0 = entries_view(out@);
            let m = starts_with(&self.entries[i].0, prefix);
            if m {
                out.push(clone_entry(&self.entries[i]));
                proof {
                    assert(entries_view(out@) =~= out0.push(self@[i as int]));
                }
            }
            proof {
                let tk = self@.take(i as int + 1);
                assert(tk.drop_last() =~= self@.take(i as int));
                assert(tk.last() == self@[i as int]);
                reveal_with_fuel(Seq::filter, 2);
                assert(tk.filter(pred) == if pred(self@[i as int]) {
                    self@.take(i as int).filter(pred).push(self@[i as int])
                } else {
                    self@.take(i as int).filter(pred)
                });
            }
            i += 1;
        }
        proof {
            assert(self@.take(n as int) =~= self@);
        }
        out
    }

    /// Up to `limit` entries in key order, all of them or those at or above
    /// the starting key.
    pub fn scan_forward(&self, start: Option<&Vec<u8>>, limit: usize) -> (r: Vec<Entry>)
        ensures
            entries_view(r@) == take_at_most(
                sel_forward(
                    self@,
                    match start {
                        Some(st) => Some(st@),
                        None => None,
                    },
                ),
                limit as int,
            ),
    {
        let ghost sv: Option<Seq<u8>> = match start {
            Some(st) => Some(st@),
            None => None,
        };
        let ghost pred = |e: (Seq<u8>, Seq<u8>)|
            match sv {
                None => true,
                Some(st) => !lex_lt(e.0, st),
            };
        let n: usize = self.entries.len();
        let mut out: Vec<Entry> = Vec::new();
        let mut i: usize = 0;
        proof {
            assert(self@.take(0) =~= Seq::<(Seq<u8>, Seq<u8>)>::empty());
            assert(entries_view(out@) =~= self@.take(0).filter(pred));
        }
        while i < n
            invariant
                n == self@.len(),
                self@.len() == self.entries@.len(),
                forall|j: int| 0 <= j < self@.len() ==> (#[trigger] self@[j]) == (
                    self.entries@[j].0@,
                    self.entries@[j].1@,
                ),
                i <= n,
                out@.len() <= limit,
                sv == (match start {
                    Some(st) => Some(st@),
                    None => None,
                }),
                pred == (|e: (Seq<u8>, Seq<u8>)|
                    match sv {
                        None => true,
                        Some(st) => !lex_lt(e.0, st),
                    }),
                entries_view(out@) == self@.take(i as int).filter(pred),
            decreases n - i,
        {
            if out.len() == limit {
                proof {
                    let a = self@.take(i as int);
                    let b = self@.subrange(i as int, n as int);
                    assert(a + b =~= self@);
                    Seq::filter_distributes_over_add(a, b, pred);
                    lemma_take_of_concat(a.filter(pred), b.filter(pred), limit as int);
                    assert(a.filter(pred).take(limit as int) =~= a.filter(pred));
                }
                return out;
            }
            let ghost out0 = entries_view(out@);
            let keep = match start {
                Some(st) => {
                    let c = lex_cmp(&self.entries[i].0, st);
                    c >= 0
                },
                None => true,
            };
            if keep {
                out.push(clone_entry(&self.entries[i]));
                proof {
                    assert(entries_view(out@) =~= out0.push(self@[i as int]));
                }
            }
            proof {
                let tk = self@.take(i as int + 1);
                assert(tk.drop_last() =~= self@.take(i as int));
                assert(tk.last() == self@[i as int]);
                reveal_with_fuel(Seq::filter, 2);
                assert(tk.filter(pred) == if pred(self@[i as int]) {
                    self@.take(i as int).filter(pred).push(self@[i as int])
                } else {
                    self@.take(i as int).filter(pred)
                });
            }
            i += 1;
        }
        proof {
            assert(self@.take(n as int) =~= self@);
        }
        out
    }

    /// Up to `limit` entries walking downward from the highest key, all of
    /// them or those at or below the starting key.
    pub fn scan_reverse(&self, start: Option<&Vec<u8>>, limit: usize) -> (r: Vec<Entry>)
        ensures
            entries_view(r@) == take_at_most(
                sel_reverse(
                    self@,
                    match start {
                        Some(st) => Some(st@),
                        None => None,
                    },
                ).reverse(),
                limit as int,
            ),
    {
        let ghost sv: Option<Seq<u8>> = match start {
            Some(st) => Some(st@),
            None => None,
        };
        let ghost pred = |e: (Seq<u8>, Seq<u8>)|
            match sv {
                None => true,
                Some(st) => !lex_lt(st, e.0),
            };
        let n: usize = self.entries.len();
        let mut out: Vec<Entry> = Vec::new();
        let mut i: usize = n;
        proof {
            assert(self@.subrange(n as int, n as int) =~= Seq::<(Seq<u8>, Seq<u8>)>::empty());
            assert(entries_view(out@) =~= self@.subrange(n as int, n as int).filter(pred).reverse());
        }
        while i > 0
            invariant
                n == self@.len(),
                self@.len() == self.entries@.len(),
                forall|j: int| 0 <= j < self@.len() ==> (#[trigger] self@[j]) == (
                    self.entries@[j].0@,
                    self.entries@[j].1@,
                ),
                i <= n,
                out@.len() <= limit,
                sv == (match start {
                    Some(st) => Some(st@),
                    None => None,
                }),
                pred == (|e: (Seq<u8>, Seq<u8>)|
                    match sv {
                        None => true,
                        Some(st) => !lex_lt(st, e.0),
                    }),
                entries_view(out@) == self@.subrange(i as int, n as int).filter(pred).reverse(),
            decreases i,
        {
            if out.len() == limit {
                proof {
                    let a = self@.take(i as int);
                    let b = self@.subrange(i as int, n as int);
                    assert(a + b =~= self@);
                    Seq::filter_distributes_over_add(a, b, pred);
                    assert((a.filter(pred) + b.filter(pred)).reverse() =~= b.filter(pred).reverse()
                        + a.filter(pred).reverse());
                    lemma_take_of_concat(
                        b.filter(pred).reverse(),
                        a.filter(pred).reverse(),
                        limit as int,
                    );
                    assert(b.filter(pred).reverse().take(limit as int) =~= b.filter(pred).reverse());
                }
                return out;
            }
            let ghost out0 = entries_view(out@);
            i -= 1;
            let keep = match start {
                Some(st) => {
                    let c = lex_cmp(&self.entries[i].0, st);
                    c <= 0
                },
                None => true,
            };
            if keep {
                out.push(clone_entry(&self.entries[i]));
                proof {
                    assert(entries_view(out@) =~= out0.push(self@[i as int]));
                }
            }
            proof {
                let su = self@.subrange(i as int, n as int);
                let su1 = self@.subrange(i as int + 1, n as int);
                assert(su =~= seq![self@[i as int]] + su1);
                Seq::filter_distributes_over_add(seq![self@[i as int]], su1, pred);
                reveal_with_fuel(Seq::filter, 2);
                assert(seq![self@[i as int]].drop_last() =~= Seq::<(Seq<u8>, Seq<u8>)>::empty());
                assert(seq![self@[i as int]].filter(pred) == if pred(self@[i as int]) {
                    seq![self@[i as int]]
                } else {
                    Seq::<(Seq<u8>, Seq<u8>)>::empty()
                });
                if pred(self@[i as int]) {
                    assert((seq![self@[i as int]] + su1.filter(pred)).reverse()
                        =~= su1.filter(pred).reverse().push(self@[i as int]));
                } else {
                    assert((Seq::<(Seq<u8>, Seq<u8>)>::empty() + su1.filter(pred)).reverse()
                        =~= su1.filter(pred).reverse());
                }
            }
        }
        proof {
            assert(self@.subrange(0, n as int) =~= self@);
        }
        out
    }
}

} // verus!
