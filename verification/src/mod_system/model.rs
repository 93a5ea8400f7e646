//! Mathematical model of descriptor sets: the identifier order used to
//! break priority ties, the sorted root order, and lookup by identifier.

use vstd::prelude::*;

verus! {

use vstd::multiset::Multiset;

/// Mathematical image of one mod descriptor: its identifier, its priority
/// hint (lower loads first), and the identifiers it depends on.
pub ghost struct ModView {
    pub id: Seq<char>,
    pub load_order: u32,
    pub deps: Seq<Seq<char>>,
}

/// Strict lexicographic order on identifiers, by Unicode scalar value.
/// A proper prefix comes before every extension of it.
pub open spec fn lex_lt(a: Seq<char>, b: Seq<char>) -> bool
    decreases a.len(),
{
    if b.len() == 0 {
        false
    } else if a.len() == 0 {
        true
    } else if a[0] < b[0] {
        true
    } else if a[0] == b[0] {
        lex_lt(a.drop_first(), b.drop_first())
    } else {
        false
    }
}

pub proof fn lemma_lex_lt_irreflexive(a: Seq<char>)
    ensures
        !lex_lt(a, a),
    decreases a.len(),
{
    if a.len() > 0 {
        lemma_lex_lt_irreflexive(a.drop_first());
    }
}

/// Distinct identifiers are ordered one way or the other.
pub proof fn lemma_lex_lt_connected(a: Seq<char>, b: Seq<char>)
    ensures
        a != b ==> lex_lt(a, b) || lex_lt(b, a),
    decreases a.len(),
{
    if a != b {
        if a.len() > 0 && b.len() > 0 && a[0] == b[0] {
            lemma_lex_lt_connected(a.drop_first(), b.drop_first());
            if a.drop_first() == b.drop_first() {
                assert(a.drop_first().len() == b.drop_first().len());
                assert(a.len() == b.len());
                assert forall|i: int| 0 <= i < a.len() implies a[i] == b[i] by {
                    if i > 0 {
                        assert(a[i] == a.drop_first()[i - 1]);
                        assert(b[i] == b.drop_first()[i - 1]);
                    }
                }
                assert(a =~= b);
            } else {
                assert(lex_lt(a, b) == lex_lt(a.drop_first(), b.drop_first()));
                assert(lex_lt(b, a) == lex_lt(b.drop_first(), a.drop_first()));
            }
        } else if a.len() > 0 && b.len() > 0 {
            assert(a[0] < b[0] || b[0] < a[0]);
        } else if a.len() == 0 && b.len() == 0 {
            assert(a =~= b);
        }
    }
}

pub proof fn lemma_lex_lt_transitive(a: Seq<char>, b: Seq<char>, c: Seq<char>)
    requires
        lex_lt(a, b),
        lex_lt(b, c),
    ensures
        lex_lt(a, c),
    decreases a.len(),
{
    if a.len() > 0 && b.len() > 0 && c.len() > 0 && a[0] == b[0] && b[0] == c[0] {
        lemma_lex_lt_transitive(a.drop_first(), b.drop_first(), c.drop_first());
    }
}

/// Strict sort key: ascending priority, identifier order breaking ties.
pub open spec fn key_lt(a: ModView, b: ModView) -> bool {
    a.load_order < b.load_order || (a.load_order == b.load_order && lex_lt(a.id, b.id))
}

/// Non-strict counterpart of [`key_lt`].
pub open spec fn key_le(a: ModView, b: ModView) -> bool {
    !key_lt(b, a)
}

/// The sequence is ordered by [`key_le`].
pub open spec fn sorted_mods(s: Seq<ModView>) -> bool {
    forall|i: int, j: int| 0 <= i < j < s.len() ==> key_le(s[i], s[j])
}

/// No two descriptors carry the same identifier.
pub open spec fn distinct_ids(s: Seq<ModView>) -> bool {
    forall|i: int, j: int| 0 <= i < j < s.len() ==> s[i].id != s[j].id
}

/// The key order is irreflexive and asymmetric.
pub proof fn lemma_key_asym(a: ModView, b: ModView)
    ensures
        !key_lt(a, a),
        key_lt(a, b) ==> !key_lt(b, a),
{
    lemma_lex_lt_irreflexive(a.id);
    if lex_lt(a.id, b.id) && lex_lt(b.id, a.id) {
        lemma_lex_lt_transitive(a.id, b.id, a.id);
    }
}

/// The key order chains: a strict step on either side of a non-strict one
/// keeps strictness, and `key_le` is transitive and decides ties exactly.
pub proof fn lemma_key_order(a: ModView, b: ModView, c: ModView)
    ensures
        key_lt(a, b) && key_le(b, c) ==> key_lt(a, c),
        key_le(a, b) && key_lt(b, c) ==> key_lt(a, c),
        key_le(a, b) && key_le(b, c) ==> key_le(a, c),
        key_le(a, b) && key_le(b, a) ==> a.load_order == b.load_order && a.id == b.id,
{
    lemma_lex_lt_irreflexive(a.id);
    lemma_lex_lt_irreflexive(b.id);
    lemma_lex_lt_irreflexive(c.id);
    lemma_lex_lt_connected(a.id, b.id);
    lemma_lex_lt_connected(b.id, c.id);
    lemma_lex_lt_connected(a.id, c.id);
    if lex_lt(a.id, b.id) && lex_lt(b.id, c.id) {
        lemma_lex_lt_transitive(a.id, b.id, c.id);
    }
    if lex_lt(b.id, c.id) && lex_lt(c.id, a.id) {
        lemma_lex_lt_transitive(b.id, c.id, a.id);
    }
    if lex_lt(c.id, a.id) && lex_lt(a.id, b.id) {
        lemma_lex_lt_transitive(c.id, a.id, b.id);
    }
}

/// Insert `m` behind every element that does not strictly exceed it, so
/// that an element inserted later lands after earlier ones with equal keys.
pub open spec fn insert_sorted(m: ModView, s: Seq<ModView>) -> Seq<ModView>
    decreases s.len(),
{
    if s.len() == 0 {
        seq![m]
    } else if key_lt(m, s[0]) {
        seq![m] + s
    } else {
        seq![s[0]] + insert_sorted(m, s.drop_first())
    }
}

/// Stable insertion sort of a descriptor sequence by [`key_lt`].
pub open spec fn sort_mods(s: Seq<ModView>) -> Seq<ModView>
    decreases s.len(),
{
    if s.len() == 0 {
        Seq::empty()
    } else {
        insert_sorted(s.last(), sort_mods(s.drop_last()))
    }
}

pub proof fn lemma_insert_sorted(m: ModView, s: Seq<ModView>)
    requires
        sorted_mods(s),
    ensures
        sorted_mods(insert_sorted(m, s)),
        insert_sorted(m, s).to_multiset() =~= s.to_multiset().insert(m),
        insert_sorted(m, s).len() == s.len() + 1,
        forall|j: int|
            0 <= j < insert_sorted(m, s).len() ==> insert_sorted(m, s)[j] == m || s.contains(
                #[trigger] insert_sorted(m, s)[j],
            ),
    decreases s.len(),
{
    broadcast use vstd::seq_lib::group_to_multiset_ensures;

    let r = insert_sorted(m, s);
    if s.len() == 0 {
        assert(seq![m] =~= Seq::empty().push(m));
        assert(Seq::<ModView>::empty().to_multiset() =~= Multiset::empty());
    } else if key_lt(m, s[0]) {
        assert forall|i: int, j: int| 0 <= i < j < r.len() implies key_le(r[i], r[j]) by {
            if i == 0 {
                lemma_key_asym(s[0], s[0]);
                lemma_key_order(m, s[0], s[j - 1]);
                lemma_key_asym(m, s[j - 1]);
            } else {
                assert(r[i] == s[i - 1] && r[j] == s[j - 1]);
            }
        }
        assert forall|j: int| 0 <= j < r.len() implies r[j] == m || s.contains(#[trigger] r[j]) by {
            if j > 0 {
                assert(r[j] == s[j - 1]);
            }
        }
        vstd::seq_lib::lemma_multiset_commutative(seq![m], s);
        assert(seq![m] =~= Seq::empty().push(m));
        assert(Seq::<ModView>::empty().to_multiset() =~= Multiset::empty());
        assert(r.to_multiset() =~= s.to_multiset().insert(m));
    } else {
        let tail = s.drop_first();
        assert forall|i: int, j: int| 0 <= i < j < tail.len() implies key_le(tail[i], tail[j]) by {
            assert(tail[i] == s[i + 1] && tail[j] == s[j + 1]);
        }
        lemma_insert_sorted(m, tail);
        let rt = insert_sorted(m, tail);
        assert forall|i: int, j: int| 0 <= i < j < r.len() implies key_le(r[i], r[j]) by {
            if i == 0 {
                assert(r[j] == rt[j - 1]);
                if rt[j - 1] == m {
                    assert(key_le(s[0], m));
                } else {
                    let k = choose|k: int| 0 <= k < tail.len() && tail[k] == rt[j - 1];
                    assert(s[0 + 1 + k] == tail[k]);
                    assert(key_le(s[0], s[1 + k]));
                }
            } else {
                assert(r[i] == rt[i - 1] && r[j] == rt[j - 1]);
            }
        }
        assert forall|j: int| 0 <= j < r.len() implies r[j] == m || s.contains(#[trigger] r[j]) by {
            if j == 0 {
                assert(s.contains(s[0]));
            } else {
                assert(r[j] == rt[j - 1]);
                if rt[j - 1] != m {
                    let k = choose|k: int| 0 <= k < tail.len() && tail[k] == rt[j - 1];
                    assert(s[1 + k] == tail[k]);
                    assert(s.contains(s[1 + k]));
                }
            }
        }
        vstd::seq_lib::lemma_multiset_commutative(seq![s[0]], rt);
        assert(seq![s[0]] =~= Seq::empty().push(s[0]));
        assert(Seq::<ModView>::empty().to_multiset() =~= Multiset::empty());
        assert(s =~= seq![s[0]] + tail);
        vstd::seq_lib::lemma_multiset_commutative(seq![s[0]], tail);
        assert(r.to_multiset() =~= s.to_multiset().insert(m));
    }
}

pub proof fn lemma_sort_mods(s: Seq<ModView>)
    ensures
        sorted_mods(sort_mods(s)),
        sort_mods(s).to_multiset() =~= s.to_multiset(),
        sort_mods(s).len() == s.len(),
    decreases s.len(),
{
    broadcast use vstd::seq_lib::group_to_multiset_ensures;

    if s.len() > 0 {
        lemma_sort_mods(s.drop_last());
        lemma_insert_sorted(s.last(), sort_mods(s.drop_last()));
        assert(s =~= s.drop_last().push(s.last()));
    }
}

/// Sorted sequences over the same descriptors, none sharing an identifier,
/// are one and the same sequence.
pub proof fn lemma_sorted_mods_unique(x: Seq<ModView>, y: Seq<ModView>)
    requires
        sorted_mods(x),
        sorted_mods(y),
        x.to_multiset() =~= y.to_multiset(),
        distinct_ids(x),
    ensures
        x =~= y,
    decreases x.len(),
{
    broadcast use vstd::seq_lib::group_to_multiset_ensures;

    if x.len() == 0 {
        assert(y.to_multiset().len() == 0);
    } else {
        assert(x.to_multiset().count(x[0]) > 0);
        assert(y.contains(x[0]));
        assert(y.to_multiset().count(y[0]) > 0);
        assert(x.contains(y[0]));
        let j = choose|j: int| 0 <= j < y.len() && y[j] == x[0];
        let k = choose|k: int| 0 <= k < x.len() && x[k] == y[0];
        assert(key_le(y[0], y[j]) || j == 0);
        assert(key_le(x[0], x[k]) || k == 0);
        lemma_key_order(x[0], y[0], x[0]);
        assert(x[0].id == y[0].id);
        if k != 0 {
            assert(x[0].id != x[k].id);
        }
        assert(x[0] == y[0]);
        let xt = x.drop_first();
        let yt = y.drop_first();
        assert(x.remove(0) =~= xt);
        assert(y.remove(0) =~= yt);
        assert(xt.to_multiset() =~= x.to_multiset().remove(x[0]));
        assert(yt.to_multiset() =~= y.to_multiset().remove(y[0]));
        assert forall|i: int, j2: int| 0 <= i < j2 < xt.len() implies key_le(xt[i], xt[j2]) by {
            assert(xt[i] == x[i + 1] && xt[j2] == x[j2 + 1]);
        }
        assert forall|i: int, j2: int| 0 <= i < j2 < yt.len() implies key_le(yt[i], yt[j2]) by {
            assert(yt[i] == y[i + 1] && yt[j2] == y[j2 + 1]);
        }
        assert forall|i: int, j2: int| 0 <= i < j2 < xt.len() implies xt[i].id != xt[j2].id by {
            assert(xt[i] == x[i + 1] && xt[j2] == x[j2 + 1]);
        }
        lemma_sorted_mods_unique(xt, yt);
        assert forall|i: int| 0 <= i < x.len() implies x[i] == y[i] by {
            if i > 0 {
                assert(x[i] == xt[i - 1] && y[i] == yt[i - 1]);
            }
        }
    }
}

/// Index of the first descriptor carrying `id`, or the length if none does.
pub open spec fn find_idx(mm: Seq<ModView>, id: Seq<char>) -> int
    decreases mm.len(),
{
    if mm.len() == 0 {
        0
    } else if mm[0].id == id {
        0
    } else {
        1 + find_idx(mm.drop_first(), id)
    }
}

/// Some descriptor in the sequence carries `id`.
pub open spec fn has_mod(mm: Seq<ModView>, id: Seq<char>) -> bool {
    find_idx(mm, id) < mm.len()
}

/// The descriptor that a lookup of `id` yields: the first one carrying it.
pub open spec fn found_mod(mm: Seq<ModView>, id: Seq<char>) -> ModView {
    mm[find_idx(mm, id)]
}

/// The declared dependencies of the descriptor that `id` resolves to.
pub open spec fn deps_of(mm: Seq<ModView>, id: Seq<char>) -> Seq<Seq<char>> {
    found_mod(mm, id).deps
}

/// `a`'s descriptor exists and declares a dependency on `b`.
pub open spec fn dep_edge(mm: Seq<ModView>, a: Seq<char>, b: Seq<char>) -> bool {
    has_mod(mm, a) && deps_of(mm, a).contains(b)
}

pub proof fn lemma_find_idx(mm: Seq<ModView>, id: Seq<char>)
    ensures
        0 <= find_idx(mm, id) <= mm.len(),
        has_mod(mm, id) ==> found_mod(mm, id).id == id,
        forall|k: int| 0 <= k < find_idx(mm, id) ==> mm[k].id != id,
        (exists|i: int| 0 <= i < mm.len() && mm[i].id == id) ==> has_mod(mm, id),
    decreases mm.len(),
{
    if mm.len() > 0 && mm[0].id != id {
        lemma_find_idx(mm.drop_first(), id);
        assert forall|k: int| 0 <= k < find_idx(mm, id) implies mm[k].id != id by {
            if k > 0 {
                assert(mm[k] == mm.drop_first()[k - 1]);
            }
        }
        if exists|i: int| 0 <= i < mm.len() && mm[i].id == id {
            let i = choose|i: int| 0 <= i < mm.len() && mm[i].id == id;
            assert(mm.drop_first()[i - 1].id == id);
        }
    }
}

/// Index of the last descriptor carrying `id`, or the length if none
/// does.
pub open spec fn last_idx(mm: Seq<ModView>, id: Seq<char>) -> int
    decreases mm.len(),
{
    if mm.len() == 0 {
        0
    } else if mm.last().id == id {
        mm.len() - 1
    } else if last_idx(mm.drop_last(), id) == mm.len() - 1 {
        mm.len() as int
    } else {
        last_idx(mm.drop_last(), id)
    }
}

pub proof fn lemma_last_idx(mm: Seq<ModView>, id: Seq<char>)
    ensures
        0 <= last_idx(mm, id) <= mm.len(),
        last_idx(mm, id) < mm.len() ==> mm[last_idx(mm, id)].id == id,
        forall|k: int| last_idx(mm, id) < k < mm.len() ==> mm[k].id != id,
        has_mod(mm, id) <==> last_idx(mm, id) < mm.len(),
    decreases mm.len(),
{
    lemma_find_idx(mm, id);
    if mm.len() > 0 && mm.last().id != id {
        lemma_last_idx(mm.drop_last(), id);
        lemma_find_idx(mm.drop_last(), id);
        assert forall|k: int| last_idx(mm, id) < k < mm.len() implies mm[k].id != id by {
            if k < mm.len() - 1 {
                assert(mm[k] == mm.drop_last()[k]);
            }
        }
        if has_mod(mm, id) {
            assert(mm[find_idx(mm, id)].id == id);
            assert(find_idx(mm, id) < mm.len() - 1);
            assert(mm.drop_last()[find_idx(mm, id)].id == id);
            assert(has_mod(mm.drop_last(), id));
        }
        if has_mod(mm.drop_last(), id) {
            assert(mm.drop_last()[find_idx(mm.drop_last(), id)].id == id);
            assert(mm[find_idx(mm.drop_last(), id)].id == id);
            assert(has_mod(mm, id));
        }
    }
}

/// The registry's collapse of a descriptor sequence: for each identifier,
/// only the last descriptor carrying it survives, in its own position —
/// a later registration replaces an earlier one.
pub open spec fn dedup_last(s: Seq<ModView>) -> Seq<ModView>
    decreases s.len(),
{
    if s.len() == 0 {
        Seq::empty()
    } else if has_mod(s.drop_first(), s[0].id) {
        dedup_last(s.drop_first())
    } else {
        seq![s[0]] + dedup_last(s.drop_first())
    }
}

/// What the collapse yields: pairwise-distinct identifiers, the same
/// declared identifiers, and for each of them the descriptor that was
/// registered last.
pub proof fn lemma_dedup_last(s: Seq<ModView>)
    ensures
        distinct_ids(dedup_last(s)),
        forall|id: Seq<char>| #![trigger has_mod(dedup_last(s), id)] #![trigger has_mod(s, id)]
            has_mod(dedup_last(s), id) <==> has_mod(s, id),
        forall|id: Seq<char>|
            #[trigger] has_mod(s, id) ==> found_mod(dedup_last(s), id) == s[last_idx(s, id)],
    decreases s.len(),
{
    if s.len() == 0 {
    } else {
        let tail = s.drop_first();
        let d = dedup_last(s);
        lemma_dedup_last(tail);
        assert forall|id: Seq<char>| #[trigger] has_mod(s, id) implies s[0].id == id || has_mod(
            tail,
            id,
        ) by {
            lemma_find_idx(s, id);
            lemma_find_idx(tail, id);
            if s[0].id != id {
                assert(s[find_idx(s, id)].id == id);
                assert(tail[find_idx(s, id) - 1].id == id);
            }
        }
        assert forall|id: Seq<char>|
            (s[0].id == id || has_mod(tail, id)) implies #[trigger] has_mod(s, id) by {
            lemma_find_idx(s, id);
            lemma_find_idx(tail, id);
            if s[0].id == id {
            } else {
                assert(tail[find_idx(tail, id)].id == id);
                assert(s[1 + find_idx(tail, id)].id == id);
            }
        }
        assert forall|id: Seq<char>|
            has_mod(tail, id) implies s[last_idx(s, id)] == tail[last_idx(tail, id)] by {
            lemma_last_idx(s, id);
            lemma_last_idx(tail, id);
            let lt = last_idx(tail, id);
            assert(s[lt + 1].id == id);
            assert(forall|k: int| lt + 1 < k < s.len() ==> s[k] == tail[k - 1]);
            assert(forall|k: int| lt + 1 < k < s.len() ==> s[k].id != id);
            let ls = last_idx(s, id);
            if ls < lt + 1 {
                assert(s[lt + 1].id != id);
            }
            if ls > lt + 1 {
                assert(tail[ls - 1].id == id);
            }
            assert(ls == lt + 1);
            assert(s[ls] == tail[lt]);
        }
        if has_mod(tail, s[0].id) {
            assert(d == dedup_last(tail));
            assert forall|id: Seq<char>| #[trigger] has_mod(s, id) implies found_mod(d, id) == s[last_idx(
                s,
                id,
            )] by {
                assert(has_mod(tail, id)) by {
                    if s[0].id == id {
                    }
                }
            }
        } else {
            let dt = dedup_last(tail);
            assert(d == seq![s[0]] + dt);
            assert(d[0] == s[0]);
            assert(forall|k: int| 1 <= k < d.len() ==> d[k] == dt[k - 1]);
            assert forall|k: int| 1 <= k < d.len() implies d[k].id != s[0].id by {
                lemma_find_idx(dt, s[0].id);
                if dt[k - 1].id == s[0].id {
                    assert(has_mod(dt, s[0].id));
                    assert(has_mod(tail, s[0].id));
                }
            }
            assert forall|i: int, j: int| 0 <= i < j < d.len() implies d[i].id != d[j].id by {
                if i > 0 {
                    assert(d[i] == dt[i - 1] && d[j] == dt[j - 1]);
                }
            }
            assert forall|id: Seq<char>| #![trigger has_mod(d, id)] #![trigger has_mod(s, id)]
                has_mod(d, id) <==> has_mod(s, id) by {
                lemma_find_idx(d, id);
                lemma_find_idx(dt, id);
                if has_mod(d, id) {
                    if find_idx(d, id) == 0 {
                        assert(s[0].id == id);
                    } else {
                        assert(dt[find_idx(d, id) - 1].id == id);
                        assert(has_mod(dt, id));
                    }
                }
                if s[0].id == id {
                    assert(d[0].id == id);
                }
                if has_mod(tail, id) {
                    assert(dt[find_idx(dt, id)].id == id);
                    assert(d[1 + find_idx(dt, id)].id == id);
                }
            }
            assert forall|id: Seq<char>| #[trigger] has_mod(s, id) implies found_mod(d, id) == s[last_idx(
                s,
                id,
            )] by {
                lemma_find_idx(d, id);
                lemma_find_idx(dt, id);
                lemma_find_idx(tail, id);
                lemma_last_idx(s, id);
                lemma_last_idx(tail, id);
                if s[0].id == id {
                    assert(find_idx(d, id) == 0);
                    assert(found_mod(d, id) == s[0]);
                    assert(!has_mod(tail, id));
                    assert(forall|k: int| 0 < k < s.len() ==> s[k] == tail[k - 1]);
                    assert forall|k: int| 0 < k < s.len() implies s[k].id != id by {
                        if tail[k - 1].id == id {
                            assert(has_mod(tail, id));
                        }
                    }
                    if last_idx(s, id) > 0 {
                        assert(s[last_idx(s, id)].id != id);
                    }
                } else {
                    assert(has_mod(tail, id));
                    assert(d[0].id != id);
                    assert(find_idx(d, id) == 1 + find_idx(dt, id)) by {
                        assert(d.drop_first() =~= dt);
                    }
                    assert(found_mod(d, id) == dt[find_idx(dt, id)]);
                    assert(found_mod(d, id) == found_mod(dt, id));
                }
            }
        }
    }
}

/// The set of identifiers that the descriptor sequence declares.
pub open spec fn ids_of(mm: Seq<ModView>) -> Set<Seq<char>> {
    mm.map_values(|m: ModView| m.id).to_set()
}

pub proof fn lemma_ids_of(mm: Seq<ModView>, id: Seq<char>)
    ensures
        ids_of(mm).contains(id) <==> has_mod(mm, id),
        ids_of(mm).finite(),
{
    broadcast use vstd::seq_lib::seq_to_set_is_finite;

    lemma_find_idx(mm, id);
    let mapped = mm.map_values(|m: ModView| m.id);
    if has_mod(mm, id) {
        assert(mapped[find_idx(mm, id)] == id);
        assert(mapped.contains(id));
    }
    if mapped.contains(id) {
        let i = choose|i: int| 0 <= i < mapped.len() && mapped[i] == id;
        assert(mm[i].id == id);
    }
}

/// Accumulated outcome of a traversal: the growing load order (post-order:
/// a mod follows all of its dependencies) and the identifiers that could
/// not be placed, in the order their failure was first recorded.
pub ghost struct Trav {
    pub order: Seq<Seq<char>>,
    pub failed: Seq<Seq<char>>,
}

/// Append `x` unless it is already recorded.
pub open spec fn push_unique(s: Seq<Seq<char>>, x: Seq<char>) -> Seq<Seq<char>> {
    if s.contains(x) {
        s
    } else {
        s.push(x)
    }
}

/// One depth-first visit of `id`, with `stack` the identifiers on the
/// active recursion path.  An identifier already placed succeeds at once.
/// One with no descriptor fails without being recorded — it names no mod,
/// so only its dependents belong in the failed set — and one re-entered
/// while still on the path fails as a cycle member.  Otherwise every
/// declared dependency is visited in declaration order — collecting
/// failures rather than stopping at the first — and the identifier is
/// placed exactly when all of them succeeded, recorded as failed
/// otherwise.
pub open spec fn visit(mm: Seq<ModView>, stack: Seq<Seq<char>>, t: Trav, id: Seq<char>) -> (
    Trav,
    bool,
)
    decreases ids_of(mm).difference(stack.to_set()).len(), 0int, 0int,
        via visit_decreases
{
    if t.order.contains(id) {
        (t, true)
    } else if !has_mod(mm, id) {
        (t, false)
    } else if stack.contains(id) {
        (Trav { order: t.order, failed: push_unique(t.failed, id) }, false)
    } else {
        let (t1, ok) = visit_deps(mm, stack.push(id), t, deps_of(mm, id));
        if ok {
            (Trav { order: t1.order.push(id), failed: t1.failed }, true)
        } else {
            (Trav { order: t1.order, failed: push_unique(t1.failed, id) }, false)
        }
    }
}

/// Visit each identifier of `ds` in turn, threading the accumulated
/// outcome; the flag reports whether every one of them succeeded.
pub open spec fn visit_deps(
    mm: Seq<ModView>,
    stack: Seq<Seq<char>>,
    t: Trav,
    ds: Seq<Seq<char>>,
) -> (Trav, bool)
    decreases ids_of(mm).difference(stack.to_set()).len(), 1int, ds.len(),
        via visit_deps_decreases
{
    if ds.len() == 0 {
        (t, true)
    } else {
        let (t1, ok1) = visit(mm, stack, t, ds[0]);
        let (t2, ok2) = visit_deps(mm, stack, t1, ds.drop_first());
        (t2, ok1 && ok2)
    }
}

#[via_fn]
proof fn visit_decreases(mm: Seq<ModView>, stack: Seq<Seq<char>>, t: Trav, id: Seq<char>) {
    broadcast use vstd::set::group_set_axioms;
    broadcast use vstd::seq_lib::seq_to_set_is_finite;
    broadcast use vstd::seq_lib::lemma_seq_contains_after_push;

    lemma_ids_of(mm, id);
    if !t.order.contains(id) && has_mod(mm, id) && !stack.contains(id) {
        let before = ids_of(mm).difference(stack.to_set());
        let after = ids_of(mm).difference(stack.push(id).to_set());
        assert(stack.push(id).to_set() =~= stack.to_set().insert(id));
        assert(after =~= before.remove(id));
        assert(before.contains(id));
        assert(after.len() < before.len());
    }
}

#[via_fn]
proof fn visit_deps_decreases(
    mm: Seq<ModView>,
    stack: Seq<Seq<char>>,
    t: Trav,
    ds: Seq<Seq<char>>,
) {
}

/// The identifiers of a descriptor sequence, in its order.
pub open spec fn root_ids(mm: Seq<ModView>) -> Seq<Seq<char>> {
    mm.map_values(|m: ModView| m.id)
}

/// The empty traversal outcome.
pub open spec fn trav_empty() -> Trav {
    Trav { order: Seq::empty(), failed: Seq::empty() }
}

/// Run the whole resolution over an already sorted descriptor sequence:
/// visit every root in order, starting from an empty path and outcome.
pub open spec fn run_roots(mm: Seq<ModView>) -> Trav {
    visit_deps(mm, Seq::empty(), trav_empty(), root_ids(mm)).0
}

/// The complete resolution of a descriptor sequence: sort by priority with
/// the identifier tiebreaker, then traverse every root.
pub open spec fn resolution(mods: Seq<ModView>) -> Trav {
    run_roots(sort_mods(mods))
}

/// The load order that resolution yields.
pub open spec fn resolution_order(mods: Seq<ModView>) -> Seq<Seq<char>> {
    resolution(mods).order
}

/// The identifiers that resolution could not place.
pub open spec fn resolution_failed(mods: Seq<ModView>) -> Seq<Seq<char>> {
    resolution(mods).failed
}

} // verus!
