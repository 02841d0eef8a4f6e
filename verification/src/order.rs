//! Lexicographic ordering of prefix names, and sorted insertion into the
//! prefix table.
//!
//! The compact serializer keeps its namespace table as an association list
//! sorted strictly ascending by prefix name; registering a prefix inserts at
//! the right place, or replaces the address when the name is already there.

use vstd::prelude::*;
use vstd::utf8::char_u32_cast;

verus! {

/// Strict lexicographic order on character sequences, by code point.
pub open spec fn lex_lt(a: Seq<char>, b: Seq<char>) -> bool
    decreases a.len(),
{
    if b.len() == 0 {
        false
    } else if a.len() == 0 {
        true
    } else if (a[0] as u32) < (b[0] as u32) {
        true
    } else if (b[0] as u32) < (a[0] as u32) {
        false
    } else {
        lex_lt(a.drop_first(), b.drop_first())
    }
}

/// Two sequences neither of which precedes the other are equal.
pub proof fn lemma_lex_connex(a: Seq<char>, b: Seq<char>)
    requires
        !lex_lt(a, b),
        !lex_lt(b, a),
    ensures
        a == b,
    decreases a.len(),
{
    if a.len() == 0 || b.len() == 0 {
        assert(a =~= b);
    } else {
        assert(a[0] as u32 == b[0] as u32);
        char_u32_cast(a[0], a[0] as u32);
        char_u32_cast(b[0], b[0] as u32);
        lemma_lex_connex(a.drop_first(), b.drop_first());
        assert(a =~= seq![a[0]] + a.drop_first());
        assert(b =~= seq![b[0]] + b.drop_first());
    }
}

/// The order is transitive.
pub proof fn lemma_lex_trans(a: Seq<char>, b: Seq<char>, c: Seq<char>)
    requires
        lex_lt(a, b),
        lex_lt(b, c),
    ensures
        lex_lt(a, c),
    decreases a.len(),
{
    if a.len() == 0 {
        assert(b.len() > 0);
        assert(c.len() > 0);
    } else {
        assert(b.len() > 0 && c.len() > 0);
        if a[0] as u32 == b[0] as u32 && b[0] as u32 == c[0] as u32 {
            lemma_lex_trans(a.drop_first(), b.drop_first(), c.drop_first());
        }
    }
}

/// The order restricted to the tails of sequences with equal heads.
proof fn lemma_lex_skip(a: Seq<char>, b: Seq<char>, i: int)
    requires
        0 <= i <= a.len(),
        0 <= i <= b.len(),
        forall|j: int| 0 <= j < i ==> a[j] == b[j],
    ensures
        lex_lt(a, b) == lex_lt(a.skip(i), b.skip(i)),
    decreases i,
{
    if i > 0 {
        assert(a.len() > 0 && b.len() > 0);
        assert(a[0] == b[0]);
        lemma_lex_skip(a.drop_first(), b.drop_first(), i - 1);
        assert(a.drop_first().skip(i - 1) =~= a.skip(i));
        assert(b.drop_first().skip(i - 1) =~= b.skip(i));
        assert(forall|j: int| 0 <= j < i - 1 ==> a.drop_first()[j] == b.drop_first()[j]);
    } else {
        assert(a.skip(0) =~= a);
        assert(b.skip(0) =~= b);
    }
}

/// Whether `a` precedes `b` lexicographically.
pub fn lex_less(a: &Vec<char>, b: &Vec<char>) -> (r: bool)
    ensures
        r == lex_lt(a@, b@),
{
    let mut i: usize = 0;
    while i < a.len() && i < b.len()
        invariant
            i <= a@.len(),
            i <= b@.len(),
            forall|j: int| 0 <= j < i ==> a@[j] == b@[j],
        decreases a@.len() - i,
    {
        let x = a[i] as u32;
        let y = b[i] as u32;
        if x != y {
            proof {
                lemma_lex_skip(a@, b@, i as int);
                assert(a@.skip(i as int)[0] == a@[i as int]);
                assert(b@.skip(i as int)[0] == b@[i as int]);
            }
            return x < y;
        }
        proof {
            char_u32_cast(a@[i as int], x);
            char_u32_cast(b@[i as int], y);
        }
        i = i + 1;
    }
    proof {
        lemma_lex_skip(a@, b@, i as int);
        assert(lex_lt(a@, b@) == lex_lt(a@.skip(i as int), b@.skip(i as int)));
    }
    a.len() < b.len()
}

/// The prefix table as the specification sees it: names with addresses.
pub type Pairs = Seq<(Seq<char>, Seq<char>)>;

/// Strictly ascending by name.
pub open spec fn sorted_keys(ps: Pairs) -> bool {
    forall|i: int, j: int| 0 <= i < j < ps.len() ==> lex_lt(#[trigger] ps[i].0, #[trigger] ps[j].0)
}

/// Insert a name/address pair in order, replacing the address of a name
/// already present.
pub open spec fn insert_sorted(ps: Pairs, k: Seq<char>, v: Seq<char>) -> Pairs
    decreases ps.len(),
{
    if ps.len() == 0 {
        seq![(k, v)]
    } else if lex_lt(ps[0].0, k) {
        seq![ps[0]] + insert_sorted(ps.drop_first(), k, v)
    } else if ps[0].0 == k {
        seq![(k, v)] + ps.drop_first()
    } else {
        seq![(k, v)] + ps
    }
}

/// `insert_sorted` splits the table at the first entry whose name does not
/// precede the inserted one.
pub proof fn lemma_insert_sorted_split(ps: Pairs, k: Seq<char>, v: Seq<char>, pos: int)
    requires
        0 <= pos <= ps.len(),
        forall|i: int| 0 <= i < pos ==> lex_lt(#[trigger] ps[i].0, k),
        pos < ps.len() ==> !lex_lt(ps[pos as int].0, k),
    ensures
        pos < ps.len() && ps[pos as int].0 == k ==> insert_sorted(ps, k, v) == ps.take(pos)
            + seq![(k, v)] + ps.skip(pos + 1),
        !(pos < ps.len() && ps[pos as int].0 == k) ==> insert_sorted(ps, k, v) == ps.take(pos)
            + seq![(k, v)] + ps.skip(pos),
    decreases ps.len(),
{
    if ps.len() == 0 {
        assert(insert_sorted(ps, k, v) =~= ps.take(0) + seq![(k, v)] + ps.skip(0));
    } else if pos == 0 {
        if ps[0].0 == k {
            assert(insert_sorted(ps, k, v) =~= ps.take(0) + seq![(k, v)] + ps.skip(1));
        } else {
            assert(insert_sorted(ps, k, v) =~= ps.take(0) + seq![(k, v)] + ps.skip(0));
        }
    } else {
        assert(lex_lt(ps[0].0, k));
        let tail = ps.drop_first();
        assert(forall|i: int| 0 <= i < pos - 1 ==> lex_lt(#[trigger] tail[i].0, k));
        lemma_insert_sorted_split(tail, k, v, pos - 1);
        if pos < ps.len() && ps[pos as int].0 == k {
            assert(tail[pos - 1].0 == k);
            assert(insert_sorted(ps, k, v) =~= ps.take(pos) + seq![(k, v)] + ps.skip(pos + 1));
        } else {
            assert(insert_sorted(ps, k, v) =~= ps.take(pos) + seq![(k, v)] + ps.skip(pos));
        }
    }
}

/// Inserting keeps the table strictly sorted.
pub proof fn lemma_insert_sorted_preserves(ps: Pairs, k: Seq<char>, v: Seq<char>)
    requires
        sorted_keys(ps),
    ensures
        sorted_keys(insert_sorted(ps, k, v)),
    decreases ps.len(),
{
    let r = insert_sorted(ps, k, v);
    if ps.len() == 0 {
    } else if lex_lt(ps[0].0, k) {
        lemma_insert_sorted_preserves(ps.drop_first(), k, v);
        let tail = insert_sorted(ps.drop_first(), k, v);
        // Every name in the inserted tail either came from the old tail or is
        // the inserted name, so the head still precedes all of them.
        assert forall|i: int, j: int| 0 <= i < j < r.len() implies lex_lt(
            #[trigger] r[i].0,
            #[trigger] r[j].0,
        ) by {
            if i == 0 {
                lemma_in_insert_sorted(ps.drop_first(), k, v, j - 1);
                if tail[j - 1].0 == k {
                } else {
                    let m = choose|m: int|
                        0 <= m < ps.drop_first().len() && ps.drop_first()[m] == tail[j - 1];
                    assert(lex_lt(ps[0].0, ps[m + 1].0));
                }
            } else {
                assert(r[i] == tail[i - 1]);
                assert(r[j] == tail[j - 1]);
            }
        }
    } else if ps[0].0 == k {
        assert forall|i: int, j: int| 0 <= i < j < r.len() implies lex_lt(
            #[trigger] r[i].0,
            #[trigger] r[j].0,
        ) by {
            if i == 0 {
                assert(r[j] == ps.drop_first()[j - 1]);
                assert(lex_lt(ps[0].0, ps[j as int].0));
            } else {
                assert(r[i] == ps[i as int]);
                assert(r[j] == ps[j as int]);
            }
        }
    } else {
        lemma_lex_connex_not(ps[0].0, k);
        assert forall|i: int, j: int| 0 <= i < j < r.len() implies lex_lt(
            #[trigger] r[i].0,
            #[trigger] r[j].0,
        ) by {
            if i == 0 {
                assert(r[j] == ps[j - 1]);
                if j == 1 {
                } else {
                    lemma_lex_trans(k, ps[0].0, ps[j - 1].0);
                }
            } else {
                assert(r[i] == ps[i - 1]);
                assert(r[j] == ps[j - 1]);
            }
        }
    }
}

/// A name that neither precedes nor equals another is preceded by it.
proof fn lemma_lex_connex_not(a: Seq<char>, b: Seq<char>)
    requires
        !lex_lt(a, b),
        a != b,
    ensures
        lex_lt(b, a),
{
    if !lex_lt(b, a) {
        lemma_lex_connex(a, b);
    }
}

/// Every entry of an inserted table is either the inserted pair or an entry
/// of the old table.
proof fn lemma_in_insert_sorted(ps: Pairs, k: Seq<char>, v: Seq<char>, j: int)
    requires
        0 <= j < insert_sorted(ps, k, v).len(),
    ensures
        insert_sorted(ps, k, v)[j].0 == k || exists|m: int|
            0 <= m < ps.len() && ps[m] == insert_sorted(ps, k, v)[j],
    decreases ps.len(),
{
    let r = insert_sorted(ps, k, v);
    if ps.len() == 0 {
    } else if lex_lt(ps[0].0, k) {
        if j == 0 {
            assert(ps[0] == r[0]);
        } else {
            lemma_in_insert_sorted(ps.drop_first(), k, v, j - 1);
            let tail = insert_sorted(ps.drop_first(), k, v);
            if tail[j - 1].0 == k {
            } else {
                let m = choose|m: int|
                    0 <= m < ps.drop_first().len() && ps.drop_first()[m] == tail[j - 1];
                assert(ps[m + 1] == r[j]);
            }
        }
    } else if ps[0].0 == k {
        if j == 0 {
        } else {
            assert(ps[j as int] == r[j]);
        }
    } else {
        if j == 0 {
        } else {
            assert(ps[j - 1] == r[j]);
        }
    }
}

} // verus!
