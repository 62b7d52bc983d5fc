//! Summing amounts by key: the maps from names or dates to totals that the
//! statistics report, kept as lists of pairs in order of first appearance.
//! Sums saturate at `u64::MAX`.
use vstd::prelude::*;

verus! {

/// `x`, or `u64::MAX` if it is larger.
pub open spec fn sat(x: int) -> int {
    if x <= u64::MAX { x } else { u64::MAX as int }
}

/// A list of (key, amount) pairs, keys by their text.
pub open spec fn pairs_view(v: Seq<(String, u64)>) -> Seq<(Seq<char>, u64)> {
    v.map_values(|p: (String, u64)| (p.0@, p.1))
}

/// No key occurs twice.
pub open spec fn distinct_keys(r: Seq<(Seq<char>, u64)>) -> bool {
    forall|i: int, j: int| 0 <= i < r.len() && 0 <= j < r.len() && i != j ==> r[i].0 != r[j].0
}

pub open spec fn has_key(r: Seq<(Seq<char>, u64)>, k: Seq<char>) -> bool {
    exists|i: int| 0 <= i < r.len() && r[i].0 == k
}

/// The position of key `k`, or -1.
pub open spec fn key_index(r: Seq<(Seq<char>, u64)>, k: Seq<char>) -> int {
    if has_key(r, k) {
        choose|i: int| 0 <= i < r.len() && r[i].0 == k
    } else {
        -1
    }
}

/// The totals by key: each key once, in order of first appearance, with the
/// (saturating) sum of its amounts.
pub open spec fn tally_spec(items: Seq<(Seq<char>, u64)>) -> Seq<(Seq<char>, u64)>
    decreases items.len(),
{
    if items.len() == 0 {
        seq![]
    } else {
        let r = tally_spec(items.drop_last());
        let k = items.last().0;
        let a = items.last().1;
        let j = key_index(r, k);
        if j >= 0 {
            r.update(j, (k, sat(r[j].1 + a) as u64))
        } else {
            r.push((k, a))
        }
    }
}

/// The sum of the amounts given for key `k`.
pub open spec fn key_total(items: Seq<(Seq<char>, u64)>, k: Seq<char>) -> int
    decreases items.len(),
{
    if items.len() == 0 {
        0
    } else {
        key_total(items.drop_last(), k) + if items.last().0 == k {
            items.last().1 as int
        } else {
            0
        }
    }
}

/// The sum of all amounts.
pub open spec fn amounts_total(items: Seq<(Seq<char>, u64)>) -> int
    decreases items.len(),
{
    if items.len() == 0 {
        0
    } else {
        amounts_total(items.drop_last()) + items.last().1 as int
    }
}

proof fn lemma_key_index(r: Seq<(Seq<char>, u64)>, k: Seq<char>)
    requires
        distinct_keys(r),
    ensures
        key_index(r, k) >= 0 ==> 0 <= key_index(r, k) < r.len() && r[key_index(r, k)].0 == k,
        key_index(r, k) < 0 ==> !has_key(r, k),
        forall|i: int| 0 <= i < r.len() && r[i].0 == k ==> key_index(r, k) == i,
{
}

/// The totals by key have each key once, hold exactly the keys given, and give each
/// key the (saturating) sum of its amounts.
pub proof fn lemma_tally(items: Seq<(Seq<char>, u64)>)
    ensures
        distinct_keys(tally_spec(items)),
        forall|k: Seq<char>| has_key(tally_spec(items), k) <==> has_key(items, k),
        forall|i: int| 0 <= i < tally_spec(items).len() ==> (#[trigger] tally_spec(items)[i]).1 == sat(
            key_total(items, tally_spec(items)[i].0),
        ),
    decreases items.len(),
{
    if items.len() > 0 {
        let pre = items.drop_last();
        lemma_tally(pre);
        let r = tally_spec(pre);
        let k = items.last().0;
        let a = items.last().1;
        lemma_key_index(r, k);
        let j = key_index(r, k);
        let t = tally_spec(items);
        assert forall|kk: Seq<char>| has_key(t, kk) <==> has_key(items, kk) by {
            if has_key(items, kk) {
                let w = choose|i: int| 0 <= i < items.len() && items[i].0 == kk;
                if w < items.len() - 1 {
                    assert(pre[w].0 == kk);
                    assert(has_key(pre, kk));
                    let v = choose|i: int| 0 <= i < r.len() && r[i].0 == kk;
                    assert(t[v].0 == kk);
                } else {
                    if j >= 0 {
                        assert(t[j].0 == kk);
                    } else {
                        assert(t[r.len() as int].0 == kk);
                    }
                }
            }
            if has_key(t, kk) {
                let v = choose|i: int| 0 <= i < t.len() && t[i].0 == kk;
                if kk == k {
                    assert(items[items.len() - 1].0 == kk);
                } else {
                    assert(v < r.len() && r[v].0 == kk);
                    assert(has_key(r, kk));
                    assert(has_key(pre, kk));
                    let w = choose|i: int| 0 <= i < pre.len() && pre[i].0 == kk;
                    assert(items[w] == pre[w]);
                    assert(items[w].0 == kk);
                }
            }
        }
        assert forall|i: int| 0 <= i < t.len() implies (#[trigger] t[i]).1 == sat(key_total(items, t[i].0)) by {
            if j >= 0 && i == j {
                assert(key_total(items, k) == key_total(pre, k) + a);
            } else if j < 0 && i == r.len() {
                assert(!has_key(pre, k));
                lemma_key_total_absent(pre, k);
            } else {
                assert(t[i] == r[i]);
                assert(r[i].0 != k);
            }
        }
    }
}

proof fn lemma_key_total_absent(items: Seq<(Seq<char>, u64)>, k: Seq<char>)
    requires
        !has_key(items, k),
    ensures
        key_total(items, k) == 0,
    decreases items.len(),
{
    if items.len() > 0 {
        let pre = items.drop_last();
        assert(!has_key(pre, k)) by {
            if has_key(pre, k) {
                let w = choose|i: int| 0 <= i < pre.len() && pre[i].0 == k;
                assert(items[w].0 == k);
            }
        }
        lemma_key_total_absent(pre, k);
        assert(items[items.len() - 1].0 != k);
    }
}

/// Without saturation, the totals by key add up to the sum of all amounts.
pub proof fn lemma_tally_sum(items: Seq<(Seq<char>, u64)>)
    requires
        amounts_total(items) <= u64::MAX,
    ensures
        amounts_total(tally_spec(items)) == amounts_total(items),
    decreases items.len(),
{
    if items.len() > 0 {
        let pre = items.drop_last();
        lemma_amounts_total_prefix(items);
        lemma_tally_sum(pre);
        let r = tally_spec(pre);
        let k = items.last().0;
        let a = items.last().1;
        lemma_tally(pre);
        lemma_key_index(r, k);
        let j = key_index(r, k);
        if j >= 0 {
            lemma_amounts_total_update(r, j, (k, (r[j].1 + a) as u64));
            assert(r[j].1 + a <= u64::MAX) by {
                lemma_amount_le_total(r, j);
            }
        } else {
            assert(r.push((k, a)).drop_last() =~= r);
        }
    }
}

proof fn lemma_amounts_total_prefix(items: Seq<(Seq<char>, u64)>)
    requires
        items.len() > 0,
    ensures
        amounts_total(items.drop_last()) <= amounts_total(items),
{
}

proof fn lemma_amount_le_total(r: Seq<(Seq<char>, u64)>, j: int)
    requires
        0 <= j < r.len(),
    ensures
        r[j].1 <= amounts_total(r),
    decreases r.len(),
{
    if j < r.len() - 1 {
        lemma_amount_le_total(r.drop_last(), j);
    } else {
        assert(amounts_total(r.drop_last()) >= 0) by {
            lemma_amounts_total_nonneg(r.drop_last());
        }
    }
}

proof fn lemma_amounts_total_nonneg(r: Seq<(Seq<char>, u64)>)
    ensures
        amounts_total(r) >= 0,
    decreases r.len(),
{
    if r.len() > 0 {
        lemma_amounts_total_nonneg(r.drop_last());
    }
}

proof fn lemma_amounts_total_update(r: Seq<(Seq<char>, u64)>, j: int, p: (Seq<char>, u64))
    requires
        0 <= j < r.len(),
    ensures
        amounts_total(r.update(j, p)) == amounts_total(r) - r[j].1 + p.1,
    decreases r.len(),
{
    if j < r.len() - 1 {
        assert(r.update(j, p).drop_last() =~= r.drop_last().update(j, p));
        lemma_amounts_total_update(r.drop_last(), j, p);
    } else {
        assert(r.update(j, p).drop_last() =~= r.drop_last());
    }
}

/// The amount of key `k` in a list of totals, 0 where the key is absent.
pub open spec fn amount_of(r: Seq<(Seq<char>, u64)>, k: Seq<char>) -> int {
    if has_key(r, k) {
        r[key_index(r, k)].1 as int
    } else {
        0
    }
}

/// Read by key, the totals give the (saturating) sum of the key's amounts.
pub proof fn lemma_amount_of_tally(items: Seq<(Seq<char>, u64)>, k: Seq<char>)
    ensures
        amount_of(tally_spec(items), k) == sat(key_total(items, k)),
{
    lemma_tally(items);
    let t = tally_spec(items);
    lemma_key_index(t, k);
    if !has_key(t, k) {
        lemma_key_total_absent(items, k);
    } else {
        let j = key_index(t, k);
        assert(t[j].1 == sat(key_total(items, t[j].0)));
    }
}

/// The position of `key` in `v`, if it is there.
fn find_key(v: &Vec<(String, u64)>, key: &String) -> (res: Option<usize>)
    ensures
        match res {
            Some(j) => j < v.len() && v@[j as int].0@ == key@,
            None => !has_key(pairs_view(v@), key@),
        },
{
    let mut i: usize = 0;
    while i < v.len()
        invariant
            i <= v.len(),
            forall|j: int| 0 <= j < i ==> v@[j].0@ != key@,
        decreases v.len() - i,
    {
        if v[i].0 == *key {
            return Some(i);
        }
        i = i + 1;
    }
    assert(!has_key(pairs_view(v@), key@)) by {
        if has_key(pairs_view(v@), key@) {
            let w = choose|j: int| 0 <= j < pairs_view(v@).len() && pairs_view(v@)[j].0 == key@;
            assert(v@[w].0@ == key@);
        }
    }
    None
}

/// Sums the amounts by key.
pub fn tally(items: &Vec<(String, u64)>) -> (res: Vec<(String, u64)>)
    ensures
        pairs_view(res@) == tally_spec(pairs_view(items@)),
{
    let mut out: Vec<(String, u64)> = Vec::new();
    let mut i: usize = 0;
    assert(pairs_view(items@).take(0) =~= Seq::<(Seq<char>, u64)>::empty());
    assert(pairs_view(out@) =~= Seq::<(Seq<char>, u64)>::empty());
    while i < items.len()
        invariant
            i <= items.len(),
            pairs_view(out@) == tally_spec(pairs_view(items@).take(i as int)),
        decreases items.len() - i,
    {
        let ghost pre = pairs_view(items@).take(i as int);
        let ghost cur = pairs_view(items@).take(i + 1);
        assert(cur.drop_last() =~= pre);
        assert(cur.last() == (items@[i as int].0@, items@[i as int].1));
        proof {
            lemma_tally(pre);
            lemma_key_index(tally_spec(pre), items@[i as int].0@);
        }
        let key = &items[i].0;
        let amount = items[i].1;
        match find_key(&out, key) {
            Some(j) => {
                let old_amount = out[j].1;
                let k = out[j].0.clone();
                let ghost before = out@;
                assert(pairs_view(before)[j as int].0 == items@[i as int].0@);
                assert(key_index(pairs_view(before), items@[i as int].0@) == j);
                out.set(j, (k, old_amount.saturating_add(amount)));
                assert(pairs_view(out@) =~= pairs_view(before).update(
                    j as int,
                    (items@[i as int].0@, sat(before[j as int].1 + amount) as u64),
                ));
            },
            None => {
                let ghost before = out@;
                out.push((key.clone(), amount));
                assert(pairs_view(out@) =~= pairs_view(before).push((items@[i as int].0@, amount)));
            },
        }
        i = i + 1;
    }
    assert(pairs_view(items@).take(items.len() as int) =~= pairs_view(items@));
    out
}

} // verus!
