//! The mathematical model of the whitelist: an ordered sequence of account
//! identifiers without duplicates, grown by idempotent appends.

use vstd::prelude::*;

verus! {

/// One candidate arrives: it is appended only when it is not yet present.
pub open spec fn insert_unique(ws: Seq<Seq<char>>, c: Seq<char>) -> Seq<Seq<char>> {
    if ws.contains(c) {
        ws
    } else {
        ws.push(c)
    }
}

/// A whole batch of candidates arrives: each one, in input order, is appended
/// only when it is not yet present. This is the effect of `store_wallets`.
pub open spec fn store_all(ws: Seq<Seq<char>>, cs: Seq<Seq<char>>) -> Seq<Seq<char>>
    decreases cs.len(),
{
    if cs.len() == 0 {
        ws
    } else {
        insert_unique(store_all(ws, cs.drop_last()), cs.last())
    }
}

/// The position of the first occurrence of `x` in `s`, or `s.len()` when `x`
/// does not occur.
pub open spec fn first_occurrence(s: Seq<Seq<char>>, x: Seq<char>) -> int
    decreases s.len(),
{
    if s.len() == 0 {
        0
    } else if s[0] == x {
        0
    } else {
        1 + first_occurrence(s.drop_first(), x)
    }
}

/// Storing an empty batch leaves the whitelist unchanged.
pub proof fn lemma_store_all_empty(ws: Seq<Seq<char>>)
    ensures
        store_all(ws, Seq::<Seq<char>>::empty()) == ws,
{
}

/// Two successive batches have the same effect as one batch made of their
/// concatenation: the whitelist after any sequence of `store_wallets` calls is
/// the whitelist after a single call on all the inputs joined in order.
pub proof fn lemma_store_all_concat(ws: Seq<Seq<char>>, cs: Seq<Seq<char>>, ds: Seq<Seq<char>>)
    ensures
        store_all(store_all(ws, cs), ds) == store_all(ws, cs + ds),
    decreases ds.len(),
{
    if ds.len() == 0 {
        assert(cs + ds =~= cs);
    } else {
        lemma_store_all_concat(ws, cs, ds.drop_last());
        assert((cs + ds).drop_last() =~= cs + ds.drop_last());
        assert((cs + ds).last() == ds.last());
    }
}

/// The whitelist only grows: the entries already present keep their positions,
/// and whatever is appended comes after them.
pub proof fn lemma_store_all_prefix(ws: Seq<Seq<char>>, cs: Seq<Seq<char>>)
    ensures
        ws.is_prefix_of(store_all(ws, cs)),
    decreases cs.len(),
{
    if cs.len() > 0 {
        lemma_store_all_prefix(ws, cs.drop_last());
    }
}

/// An identifier stands in the whitelist after a batch exactly when it stood
/// there before or occurs in the batch: the result is the union of the two.
pub proof fn lemma_store_all_membership(ws: Seq<Seq<char>>, cs: Seq<Seq<char>>, x: Seq<char>)
    ensures
        store_all(ws, cs).contains(x) <==> ws.contains(x) || cs.contains(x),
    decreases cs.len(),
{
    if cs.len() == 0 {
    } else {
        lemma_store_all_membership(ws, cs.drop_last(), x);
        let prev = store_all(ws, cs.drop_last());
        let c = cs.last();
        assert(cs[cs.len() - 1] == c);
        if cs.drop_last().contains(x) {
            let k = choose|k: int| 0 <= k < cs.len() - 1 && cs.drop_last()[k] == x;
            assert(cs[k] == x);
        }
        if cs.contains(x) && x != c {
            let k = choose|k: int| 0 <= k < cs.len() && cs[k] == x;
            assert(cs.drop_last()[k] == x);
        }
        if !prev.contains(c) {
            let r = prev.push(c);
            assert(store_all(ws, cs) == r);
            assert(r[prev.len() as int] == c);
            if prev.contains(x) {
                let k = choose|k: int| 0 <= k < prev.len() && prev[k] == x;
                assert(r[k] == x);
            }
            if r.contains(x) && x != c {
                let k = choose|k: int| 0 <= k < r.len() && r[k] == x;
                assert(prev[k] == x);
            }
        }
    }
}

/// Candidates that are all already whitelisted are silently absorbed: the
/// whitelist does not change.
pub proof fn lemma_store_all_absorbed(ws: Seq<Seq<char>>, cs: Seq<Seq<char>>)
    requires
        forall|k: int| 0 <= k < cs.len() ==> ws.contains(#[trigger] cs[k]),
    ensures
        store_all(ws, cs) == ws,
    decreases cs.len(),
{
    if cs.len() > 0 {
        assert(forall|k: int|
            0 <= k < cs.len() - 1 ==> #[trigger] cs.drop_last()[k] == cs[k]);
        lemma_store_all_absorbed(ws, cs.drop_last());
        assert(cs[cs.len() - 1] == cs.last());
    }
}

/// Storing the same batch twice has the effect of storing it once.
pub proof fn lemma_store_all_idempotent(ws: Seq<Seq<char>>, cs: Seq<Seq<char>>)
    ensures
        store_all(store_all(ws, cs), cs) == store_all(ws, cs),
{
    let r = store_all(ws, cs);
    assert forall|k: int| 0 <= k < cs.len() implies r.contains(#[trigger] cs[k]) by {
        lemma_store_all_membership(ws, cs, cs[k]);
    }
    lemma_store_all_absorbed(r, cs);
}

/// An idempotent append keeps the whitelist free of duplicates.
pub proof fn lemma_insert_unique_no_duplicates(ws: Seq<Seq<char>>, c: Seq<char>)
    requires
        ws.no_duplicates(),
    ensures
        insert_unique(ws, c).no_duplicates(),
{
    if !ws.contains(c) {
        let r = ws.push(c);
        assert forall|i: int, j: int| 0 <= i < j < r.len() implies r[i] != r[j] by {
            if j < r.len() - 1 {
                assert(ws[i] != ws[j]);
            } else {
                assert(ws[i] == r[i]);
            }
        }
    }
}

/// A whitelist without duplicates never acquires one, whatever batch arrives.
pub proof fn lemma_store_all_no_duplicates(ws: Seq<Seq<char>>, cs: Seq<Seq<char>>)
    requires
        ws.no_duplicates(),
    ensures
        store_all(ws, cs).no_duplicates(),
    decreases cs.len(),
{
    if cs.len() > 0 {
        lemma_store_all_no_duplicates(ws, cs.drop_last());
        lemma_insert_unique_no_duplicates(store_all(ws, cs.drop_last()), cs.last());
    }
}

proof fn lemma_first_occurrence_found(s: Seq<Seq<char>>, x: Seq<char>)
    requires
        s.contains(x),
    ensures
        0 <= first_occurrence(s, x) < s.len(),
        s[first_occurrence(s, x)] == x,
        forall|j: int| 0 <= j < first_occurrence(s, x) ==> s[j] != x,
    decreases s.len(),
{
    if s[0] == x {
    } else {
        let k = choose|k: int| 0 <= k < s.len() && s[k] == x;
        assert(s.drop_first()[k - 1] == x);
        lemma_first_occurrence_found(s.drop_first(), x);
        assert forall|j: int| 0 <= j < first_occurrence(s, x) implies s[j] != x by {
            if j > 0 {
                assert(s.drop_first()[j - 1] == s[j]);
            }
        }
    }
}

proof fn lemma_first_occurrence_missing(s: Seq<Seq<char>>, x: Seq<char>)
    requires
        !s.contains(x),
    ensures
        first_occurrence(s, x) == s.len(),
    decreases s.len(),
{
    if s.len() > 0 {
        assert(s[0] != x);
        assert forall|k: int| 0 <= k < s.drop_first().len() implies s.drop_first()[k] != x by {
            assert(s.drop_first()[k] == s[k + 1]);
        }
        lemma_first_occurrence_missing(s.drop_first(), x);
    }
}

proof fn lemma_first_occurrence_push(s: Seq<Seq<char>>, c: Seq<char>, x: Seq<char>)
    requires
        s.contains(x),
    ensures
        first_occurrence(s.push(c), x) == first_occurrence(s, x),
    decreases s.len(),
{
    if s[0] == x {
        assert(s.push(c)[0] == x);
    } else {
        let k = choose|k: int| 0 <= k < s.len() && s[k] == x;
        assert(s.drop_first()[k - 1] == x);
        lemma_first_occurrence_push(s.drop_first(), c, x);
        assert(s.push(c)[0] == s[0]);
        assert(s.push(c).drop_first() =~= s.drop_first().push(c));
    }
}

proof fn lemma_first_occurrence_push_new(s: Seq<Seq<char>>, x: Seq<char>)
    requires
        !s.contains(x),
    ensures
        first_occurrence(s.push(x), x) == s.len(),
    decreases s.len(),
{
    if s.len() == 0 {
        assert(s.push(x)[0] == x);
    } else {
        assert(s[0] != x);
        assert(s.push(x)[0] == s[0]);
        assert forall|k: int| 0 <= k < s.drop_first().len() implies s.drop_first()[k] != x by {
            assert(s.drop_first()[k] == s[k + 1]);
        }
        assert(s.push(x).drop_first() =~= s.drop_first().push(x));
        lemma_first_occurrence_push_new(s.drop_first(), x);
    }
}

proof fn lemma_first_occurrence_self(s: Seq<Seq<char>>, i: int)
    requires
        s.no_duplicates(),
        0 <= i < s.len(),
    ensures
        first_occurrence(s, s[i]) == i,
{
    assert(s.contains(s[i]));
    lemma_first_occurrence_found(s, s[i]);
    let f = first_occurrence(s, s[i]);
    if f != i {
        assert(s[f] == s[i]);
    }
}

/// An entry of the whitelist after a batch occurs in the prior whitelist or in
/// the batch.
proof fn lemma_store_all_entry_source(ws: Seq<Seq<char>>, cs: Seq<Seq<char>>, i: int)
    requires
        0 <= i < store_all(ws, cs).len(),
    ensures
        (ws + cs).contains(store_all(ws, cs)[i]),
{
    let r = store_all(ws, cs);
    assert(r.contains(r[i]));
    lemma_store_all_membership(ws, cs, r[i]);
    seq_membership_in_concat(ws, cs, r[i]);
}

/// The whitelist lists identifiers in first-seen order: for a duplicate-free
/// whitelist `ws` and a batch `cs`, any two entries of the result stand in the
/// order of their first occurrences in `ws + cs`.
pub proof fn lemma_store_all_first_seen(ws: Seq<Seq<char>>, cs: Seq<Seq<char>>)
    requires
        ws.no_duplicates(),
    ensures
        forall|i: int, j: int|
            0 <= i < j < store_all(ws, cs).len() ==> first_occurrence(
                ws + cs,
                store_all(ws, cs)[i],
            ) < first_occurrence(ws + cs, store_all(ws, cs)[j]),
    decreases cs.len(),
{
    let r = store_all(ws, cs);
    let all = ws + cs;
    if cs.len() == 0 {
        assert(all =~= ws);
        assert forall|i: int, j: int| 0 <= i < j < r.len() implies first_occurrence(all, r[i])
            < first_occurrence(all, r[j]) by {
            lemma_first_occurrence_self(all, i);
            lemma_first_occurrence_self(all, j);
        }
    } else {
        lemma_store_all_first_seen(ws, cs.drop_last());
        let prev = store_all(ws, cs.drop_last());
        let all0 = ws + cs.drop_last();
        let c = cs.last();
        assert(all =~= all0.push(c));
        assert forall|i: int, j: int| 0 <= i < j < r.len() implies first_occurrence(all, r[i])
            < first_occurrence(all, r[j]) by {
            if prev.contains(c) {
                assert(r == prev);
                lemma_store_all_entry_source(ws, cs.drop_last(), i);
                lemma_store_all_entry_source(ws, cs.drop_last(), j);
                lemma_first_occurrence_push(all0, c, r[i]);
                lemma_first_occurrence_push(all0, c, r[j]);
            } else {
                assert(r == prev.push(c));
                if j < r.len() - 1 {
                    assert(r[i] == prev[i] && r[j] == prev[j]);
                    lemma_store_all_entry_source(ws, cs.drop_last(), i);
                    lemma_store_all_entry_source(ws, cs.drop_last(), j);
                    lemma_first_occurrence_push(all0, c, prev[i]);
                    lemma_first_occurrence_push(all0, c, prev[j]);
                } else {
                    assert(r[j] == c);
                    assert(r[i] == prev[i]);
                    lemma_store_all_entry_source(ws, cs.drop_last(), i);
                    lemma_first_occurrence_push(all0, c, prev[i]);
                    lemma_first_occurrence_found(all0, prev[i]);
                    lemma_store_all_membership(ws, cs.drop_last(), c);
                    seq_membership_in_concat(ws, cs.drop_last(), c);
                    assert(!all0.contains(c));
                    lemma_first_occurrence_push_new(all0, c);
                }
            }
        }
    }
}

proof fn seq_membership_in_concat(a: Seq<Seq<char>>, b: Seq<Seq<char>>, x: Seq<char>)
    ensures
        (a + b).contains(x) <==> a.contains(x) || b.contains(x),
{
    if a.contains(x) {
        let k = choose|k: int| 0 <= k < a.len() && a[k] == x;
        assert((a + b)[k] == x);
    }
    if b.contains(x) {
        let k = choose|k: int| 0 <= k < b.len() && b[k] == x;
        assert((a + b)[a.len() + k] == x);
    }
    if (a + b).contains(x) {
        let k = choose|k: int| 0 <= k < (a + b).len() && (a + b)[k] == x;
        if k < a.len() {
            assert(a[k] == x);
        } else {
            assert(b[k - a.len()] == x);
        }
    }
}

} // verus!
