//! Maps and sets keyed by text, kept in the order of their keys.

use crate::text::{same, to_chars, views};
use vstd::prelude::*;

verus! {

/// The order of texts: by their characters, a text before what it is a start of.
pub open spec fn less(a: Seq<char>, b: Seq<char>) -> bool
    decreases a.len(),
{
    if b.len() == 0 {
        false
    } else if a.len() == 0 {
        true
    } else if a[0] != b[0] {
        a[0] < b[0]
    } else {
        less(a.drop_first(), b.drop_first())
    }
}

pub proof fn less_is_irreflexive(a: Seq<char>)
    ensures
        !less(a, a),
    decreases a.len(),
{
    if a.len() > 0 {
        less_is_irreflexive(a.drop_first());
    }
}

pub proof fn less_is_total(a: Seq<char>, b: Seq<char>)
    ensures
        a == b || less(a, b) || less(b, a),
    decreases a.len(),
{
    if a.len() > 0 && b.len() > 0 && a[0] == b[0] {
        less_is_total(a.drop_first(), b.drop_first());
        if a.drop_first() == b.drop_first() {
            assert(a =~= seq![a[0]] + a.drop_first());
            assert(b =~= seq![b[0]] + b.drop_first());
        }
    } else if a.len() == 0 && b.len() == 0 {
        assert(a =~= b);
    }
}

pub proof fn less_is_transitive(a: Seq<char>, b: Seq<char>, c: Seq<char>)
    requires
        less(a, b),
        less(b, c),
    ensures
        less(a, c),
    decreases a.len(),
{
    if a.len() > 0 && a[0] == b[0] && b[0] == c[0] {
        less_is_transitive(a.drop_first(), b.drop_first(), c.drop_first());
    }
}

/// `str` as `Ord`: the slice stands before the other one.
pub fn before(a: &str, b: &str) -> (r: bool)
    ensures
        r == less(a@, b@),
{
    let x = to_chars(a);
    let y = to_chars(b);
    let mut i: usize = 0;
    assert(x@.skip(0) =~= x@);
    assert(y@.skip(0) =~= y@);
    while i < x.len() && i < y.len() && x[i] == y[i]
        invariant
            i <= x.len(),
            i <= y.len(),
            less(x@, y@) == less(x@.skip(i as int), y@.skip(i as int)),
        decreases x.len() - i,
    {
        assert(x@.skip(i as int).drop_first() =~= x@.skip(i + 1));
        assert(y@.skip(i as int).drop_first() =~= y@.skip(i + 1));
        i += 1;
    }
    if i >= y.len() {
        false
    } else if i >= x.len() {
        true
    } else {
        x[i] < y[i]
    }
}

/// The keys of a sequence of entries ascend, so none occurs twice.
pub open spec fn ascending<V>(m: Seq<(Seq<char>, V)>) -> bool {
    forall|i: int, j: int| 0 <= i < j < m.len() ==> less((#[trigger] m[i]).0, (#[trigger] m[j]).0)
}

/// The entries with one more in its place; an entry that has the key is replaced.
pub open spec fn inserted<V>(m: Seq<(Seq<char>, V)>, key: Seq<char>, value: V) -> Seq<
    (Seq<char>, V),
>
    decreases m.len(),
{
    if m.len() == 0 {
        seq![(key, value)]
    } else if m.last().0 == key {
        m.update(m.len() - 1, (key, value))
    } else if less(m.last().0, key) {
        m.push((key, value))
    } else {
        inserted(m.drop_last(), key, value).push(m.last())
    }
}

/// The value that entries hold for a key.
pub open spec fn found<V>(m: Seq<(Seq<char>, V)>, key: Seq<char>) -> Option<V>
    decreases m.len(),
{
    if m.len() == 0 {
        None
    } else if m.last().0 == key {
        Some(m.last().1)
    } else {
        found(m.drop_last(), key)
    }
}

/// Some entry has the key.
pub open spec fn has_key<V>(m: Seq<(Seq<char>, V)>, key: Seq<char>) -> bool {
    exists|i: int| 0 <= i < m.len() && (#[trigger] m[i]).0 == key
}

pub proof fn found_is_there<V>(m: Seq<(Seq<char>, V)>, key: Seq<char>)
    ensures
        found(m, key) is Some <==> has_key(m, key),
        found(m, key) matches Some(v) ==> exists|i: int|
            0 <= i < m.len() && #[trigger] m[i] == (key, v),
    decreases m.len(),
{
    if m.len() > 0 {
        let rest = m.drop_last();
        found_is_there(rest, key);
        if m.last().0 == key {
            assert(m[m.len() - 1] == (key, m.last().1));
        } else {
            if has_key(m, key) {
                let i = choose|i: int| 0 <= i < m.len() && (#[trigger] m[i]).0 == key;
                assert(rest[i] == m[i]);
            }
            if found(rest, key) is Some {
                let v = found(rest, key)->0;
                let i = choose|i: int| 0 <= i < rest.len() && #[trigger] rest[i] == (key, v);
                assert(m[i] == (key, v));
            }
        }
    }
}

/// Inserting keeps the order, finds what was inserted, and leaves every other key.
pub proof fn inserted_is_found<V>(
    m: Seq<(Seq<char>, V)>,
    key: Seq<char>,
    value: V,
    other: Seq<char>,
)
    requires
        ascending(m),
    ensures
        ascending(inserted(m, key, value)),
        found(inserted(m, key, value), key) == Some(value),
        other != key ==> found(inserted(m, key, value), other) == found(m, other),
        forall|i: int|
            0 <= i < inserted(m, key, value).len() ==> ((#[trigger] inserted(m, key, value)[i]).0
                == key || has_key(m, inserted(m, key, value)[i].0)),
    decreases m.len(),
{
    let after = inserted(m, key, value);
    if m.len() == 0 {
        assert(after.drop_last() =~= m);
    } else {
        let rest = m.drop_last();
        let last = m.last();
        assert(ascending(rest)) by {
            assert forall|i: int, j: int| 0 <= i < j < rest.len() implies less(
                (#[trigger] rest[i]).0,
                (#[trigger] rest[j]).0,
            ) by {
                assert(rest[i] == m[i] && rest[j] == m[j]);
            }
        }
        if last.0 == key {
            assert(after.drop_last() =~= rest);
            assert forall|i: int, j: int| 0 <= i < j < after.len() implies less(
                (#[trigger] after[i]).0,
                (#[trigger] after[j]).0,
            ) by {
                assert(after[i].0 == m[i].0 && after[j].0 == m[j].0);
            }
            assert forall|i: int| 0 <= i < after.len() implies ((#[trigger] after[i]).0 == key
                || has_key(m, after[i].0)) by {
                assert(after[i].0 == m[i].0);
            }
        } else if less(last.0, key) {
            assert(after.drop_last() =~= m);
            assert forall|i: int, j: int| 0 <= i < j < after.len() implies less(
                (#[trigger] after[i]).0,
                (#[trigger] after[j]).0,
            ) by {
                if j == m.len() {
                    if i < m.len() - 1 {
                        assert(less(m[i].0, m[m.len() - 1].0));
                        less_is_transitive(m[i].0, last.0, key);
                    }
                } else {
                    assert(less(m[i].0, m[j].0));
                }
            }
            assert forall|i: int| 0 <= i < after.len() implies ((#[trigger] after[i]).0 == key
                || has_key(m, after[i].0)) by {
                if i < m.len() {
                    assert(after[i] == m[i]);
                }
            }
        } else {
            less_is_total(last.0, key);
            inserted_is_found(rest, key, value, other);
            let front = inserted(rest, key, value);
            assert(after.drop_last() =~= front);
            assert forall|i: int| 0 <= i < after.len() implies ((#[trigger] after[i]).0 == key
                || has_key(m, after[i].0)) by {
                if i < front.len() {
                    assert(after[i] == front[i]);
                    if front[i].0 != key {
                        assert(has_key(rest, front[i].0));
                        let k = choose|k: int|
                            0 <= k < rest.len() && (#[trigger] rest[k]).0 == front[i].0;
                        assert(m[k].0 == front[i].0);
                    }
                } else {
                    assert(after[i] == m[m.len() - 1]);
                }
            }
            assert forall|i: int, j: int| 0 <= i < j < after.len() implies less(
                (#[trigger] after[i]).0,
                (#[trigger] after[j]).0,
            ) by {
                if j == front.len() {
                    assert(after[i] == front[i]);
                    if front[i].0 != key {
                        assert(has_key(rest, front[i].0));
                        let k = choose|k: int|
                            0 <= k < rest.len() && (#[trigger] rest[k]).0 == front[i].0;
                        assert(less(m[k].0, m[m.len() - 1].0));
                    }
                } else {
                    assert(after[i] == front[i] && after[j] == front[j]);
                }
            }
            if found(inserted(m, key, value), key) != Some(value) {
                less_is_irreflexive(key);
            }
        }
    }
}

/// The entries of a vector, by their views.
pub open spec fn keyed<V: DeepView>(m: Seq<(String, V)>) -> Seq<(Seq<char>, V::V)> {
    m.map_values(|e: (String, V)| (e.0@, e.1.deep_view()))
}

/// Inserts an entry in its place; an entry that has the key is replaced.
pub fn insert<V: DeepView>(m: &mut Vec<(String, V)>, key: String, value: V)
    ensures
        keyed(final(m)@) == inserted(keyed(old(m)@), key@, value.deep_view()),
{
    let ghost all = keyed(m@);
    let ghost v = value.deep_view();
    let mut i: usize = m.len();
    assert(all.take(i as int) =~= all);
    assert(inserted(all, key@, v) =~= inserted(all.take(i as int), key@, v) + all.skip(i as int));
    while i > 0 && !same(m[i - 1].0.as_str(), key.as_str()) && !before(
        m[i - 1].0.as_str(),
        key.as_str(),
    )
        invariant
            i <= m.len(),
            all == keyed(m@),
            inserted(all, key@, v) == inserted(all.take(i as int), key@, v) + all.skip(i as int),
        decreases i,
    {
        let ghost front = all.take(i as int);
        assert(front.drop_last() =~= all.take(i - 1));
        assert(front.last() == all[i - 1]);
        assert(all[i - 1].0 == m@[i - 1].0@);
        assert(inserted(front, key@, v) == inserted(all.take(i - 1), key@, v).push(all[i - 1]));
        assert(inserted(all, key@, v) =~= inserted(all.take(i - 1), key@, v) + all.skip(i - 1));
        i -= 1;
    }
    let ghost front = all.take(i as int);
    if i > 0 && same(m[i - 1].0.as_str(), key.as_str()) {
        assert(front.last() == all[i - 1]);
        m.set(i - 1, (key, value));
        assert(keyed(m@) =~= inserted(front, key@, v) + all.skip(i as int));
    } else {
        assert(inserted(front, key@, v) =~= front.push((key@, v))) by {
            if i > 0 {
                assert(front.last() == all[i - 1]);
            }
        }
        m.insert(i, (key, value));
        assert(keyed(m@) =~= front.push((key@, v)) + all.skip(i as int));
    }
}

/// The value that entries hold for a key.
pub fn find<'a, V: DeepView>(m: &'a Vec<(String, V)>, key: &str) -> (r: Option<&'a V>)
    ensures
        match r {
            Some(v) => found(keyed(m@), key@) == Some(v.deep_view()),
            None => found(keyed(m@), key@) is None,
        },
{
    let ghost all = keyed(m@);
    let mut i: usize = m.len();
    assert(all.take(i as int) =~= all);
    while i > 0
        invariant
            i <= m.len(),
            all == keyed(m@),
            found(all, key@) == found(all.take(i as int), key@),
        decreases i,
    {
        assert(all.take(i as int).drop_last() =~= all.take(i - 1));
        assert(all.take(i as int).last() == (m@[i - 1].0@, m@[i - 1].1.deep_view()));
        i -= 1;
        if same(m[i].0.as_str(), key) {
            return Some(&m[i].1);
        }
    }
    None
}

// ---------------------------------------------------------------------------
// Sorting
// ---------------------------------------------------------------------------

/// The entries with one more behind those whose keys are not greater.
pub open spec fn placed<V>(m: Seq<(Seq<char>, V)>, key: Seq<char>, value: V) -> Seq<
    (Seq<char>, V),
>
    decreases m.len(),
{
    if m.len() > 0 && less(key, m.last().0) {
        placed(m.drop_last(), key, value).push(m.last())
    } else {
        m.push((key, value))
    }
}

/// The entries sorted by their keys; entries with equal keys stay in their order.
pub open spec fn arranged<V>(m: Seq<(Seq<char>, V)>) -> Seq<(Seq<char>, V)>
    decreases m.len(),
{
    if m.len() == 0 {
        Seq::empty()
    } else {
        placed(arranged(m.drop_last()), m.last().0, m.last().1)
    }
}

/// No key is less than one before it.
pub open spec fn sorted<V>(m: Seq<(Seq<char>, V)>) -> bool {
    forall|i: int, j: int|
        0 <= i < j < m.len() ==> !less((#[trigger] m[j]).0, (#[trigger] m[i]).0)
}

proof fn placing_sorts<V>(m: Seq<(Seq<char>, V)>, key: Seq<char>, value: V)
    requires
        sorted(m),
    ensures
        sorted(placed(m, key, value)),
        placed(m, key, value).to_multiset() =~= m.to_multiset().insert((key, value)),
        forall|k: int|
            0 <= k < placed(m, key, value).len() ==> (#[trigger] placed(m, key, value)[k]).0 == key
                || exists|i: int| 0 <= i < m.len() && m[i].0 == placed(m, key, value)[k].0,
    decreases m.len(),
{
    broadcast use vstd::seq_lib::group_to_multiset_ensures;

    let after = placed(m, key, value);
    if m.len() > 0 && less(key, m.last().0) {
        let rest = m.drop_last();
        let last = m.last();
        assert(sorted(rest)) by {
            assert forall|i: int, j: int| 0 <= i < j < rest.len() implies !less(
                (#[trigger] rest[j]).0,
                (#[trigger] rest[i]).0,
            ) by {
                assert(rest[i] == m[i] && rest[j] == m[j]);
            }
        }
        placing_sorts(rest, key, value);
        let front = placed(rest, key, value);
        assert(m =~= rest.push(last));
        assert forall|k: int| 0 <= k < after.len() implies (#[trigger] after[k]).0 == key
            || exists|i: int| 0 <= i < m.len() && m[i].0 == after[k].0 by {
            if k < front.len() {
                assert(after[k] == front[k]);
                if front[k].0 != key {
                    let i = choose|i: int| 0 <= i < rest.len() && rest[i].0 == front[k].0;
                    assert(m[i].0 == after[k].0);
                }
            } else {
                assert(m[m.len() - 1].0 == after[k].0);
            }
        }
        assert forall|i: int, j: int| 0 <= i < j < after.len() implies !less(
            (#[trigger] after[j]).0,
            (#[trigger] after[i]).0,
        ) by {
            if j == front.len() {
                assert(after[i] == front[i]);
                if front[i].0 == key {
                    if less(last.0, key) {
                        less_is_transitive(key, last.0, key);
                        less_is_irreflexive(key);
                    }
                } else {
                    let k = choose|k: int| 0 <= k < rest.len() && rest[k].0 == front[i].0;
                    assert(!less(m[m.len() - 1].0, m[k].0));
                }
            } else {
                assert(after[i] == front[i] && after[j] == front[j]);
            }
        }
    } else {
        assert forall|i: int, j: int| 0 <= i < j < after.len() implies !less(
            (#[trigger] after[j]).0,
            (#[trigger] after[i]).0,
        ) by {
            if j == m.len() {
                if i < m.len() - 1 && less(key, m[i].0) {
                    assert(!less(m[m.len() - 1].0, m[i].0));
                    less_is_total(m[i].0, m[m.len() - 1].0);
                    if less(m[i].0, m.last().0) {
                        less_is_transitive(key, m[i].0, m.last().0);
                    }
                }
            } else {
                assert(after[i] == m[i] && after[j] == m[j]);
            }
        }
        assert forall|k: int| 0 <= k < after.len() implies (#[trigger] after[k]).0 == key
            || exists|i: int| 0 <= i < m.len() && m[i].0 == after[k].0 by {
            if k < m.len() {
                assert(m[k].0 == after[k].0);
            }
        }
    }
}

/// Arranging sorts the entries, and neither adds nor loses one.
pub proof fn arranging_sorts<V>(m: Seq<(Seq<char>, V)>)
    ensures
        sorted(arranged(m)),
        arranged(m).to_multiset() =~= m.to_multiset(),
    decreases m.len(),
{
    broadcast use vstd::seq_lib::group_to_multiset_ensures;

    if m.len() > 0 {
        let rest = m.drop_last();
        arranging_sorts(rest);
        placing_sorts(arranged(rest), m.last().0, m.last().1);
        assert(m =~= rest.push(m.last()));
    } else {
        assert(arranged(m) =~= m);
    }
}

/// Texts that are sorted are in one order only, whatever order they came in.
pub proof fn one_order_is_sorted(a: Seq<(Seq<char>, ())>, b: Seq<(Seq<char>, ())>)
    requires
        sorted(a),
        sorted(b),
        a.to_multiset() =~= b.to_multiset(),
    ensures
        a == b,
    decreases a.len(),
{
    broadcast use vstd::seq_lib::group_to_multiset_ensures;

    assert(a.to_multiset().len() == a.len());
    assert(b.to_multiset().len() == b.len());
    if a.len() == 0 {
        assert(a =~= b);
    } else {
        let x = a.last();
        let y = b.last();
        assert(b.to_multiset().contains(x)) by {
            assert(a.contains(x));
        }
        assert(a.to_multiset().contains(y)) by {
            assert(b.contains(y));
        }
        let i = choose|i: int| 0 <= i < b.len() && b[i] == x;
        let j = choose|j: int| 0 <= j < a.len() && a[j] == y;
        if i < b.len() - 1 {
            assert(!less(b[b.len() - 1].0, b[i].0));
        }
        if j < a.len() - 1 {
            assert(!less(a[a.len() - 1].0, a[j].0));
        }
        less_is_total(x.0, y.0);
        less_is_irreflexive(x.0);
        assert(x == y);
        let p = a.drop_last();
        let q = b.drop_last();
        assert(a =~= p.push(x));
        assert(b =~= q.push(x));
        assert(p.to_multiset() =~= a.to_multiset().remove(x));
        assert(q.to_multiset() =~= b.to_multiset().remove(x));
        assert(sorted(p)) by {
            assert forall|i: int, j: int| 0 <= i < j < p.len() implies !less(
                (#[trigger] p[j]).0,
                (#[trigger] p[i]).0,
            ) by {
                assert(p[i] == a[i] && p[j] == a[j]);
            }
        }
        assert(sorted(q)) by {
            assert forall|i: int, j: int| 0 <= i < j < q.len() implies !less(
                (#[trigger] q[j]).0,
                (#[trigger] q[i]).0,
            ) by {
                assert(q[i] == b[i] && q[j] == b[j]);
            }
        }
        one_order_is_sorted(p, q);
    }
}

/// Places an entry behind those whose keys are not greater.
pub fn place<V: DeepView>(m: &mut Vec<(String, V)>, key: String, value: V)
    ensures
        keyed(final(m)@) == placed(keyed(old(m)@), key@, value.deep_view()),
{
    let ghost all = keyed(m@);
    let ghost v = value.deep_view();
    let mut i: usize = m.len();
    assert(all.take(i as int) =~= all);
    assert(placed(all, key@, v) =~= placed(all.take(i as int), key@, v) + all.skip(i as int));
    while i > 0 && before(key.as_str(), m[i - 1].0.as_str())
        invariant
            i <= m.len(),
            all == keyed(m@),
            placed(all, key@, v) == placed(all.take(i as int), key@, v) + all.skip(i as int),
        decreases i,
    {
        let ghost front = all.take(i as int);
        assert(front.drop_last() =~= all.take(i - 1));
        assert(front.last() == all[i - 1]);
        assert(all[i - 1].0 == m@[i - 1].0@);
        assert(placed(front, key@, v) == placed(all.take(i - 1), key@, v).push(all[i - 1]));
        assert(placed(all, key@, v) =~= placed(all.take(i - 1), key@, v) + all.skip(i - 1));
        i -= 1;
    }
    let ghost front = all.take(i as int);
    assert(placed(front, key@, v) =~= front.push((key@, v))) by {
        if i > 0 {
            assert(front.last() == all[i - 1]);
            assert(all[i - 1].0 == m@[i - 1].0@);
        }
    }
    m.insert(i, (key, value));
    assert(keyed(m@) =~= front.push((key@, v)) + all.skip(i as int));
}

// ---------------------------------------------------------------------------
// Sets
// ---------------------------------------------------------------------------

/// The members of a set in their order.
pub open spec fn members(m: Seq<(Seq<char>, ())>) -> Seq<Seq<char>> {
    m.map_values(|e: (Seq<char>, ())| e.0)
}

/// The set of the texts of a sequence.
pub open spec fn set_of(texts: Seq<Seq<char>>) -> Seq<(Seq<char>, ())>
    decreases texts.len(),
{
    if texts.len() == 0 {
        Seq::empty()
    } else {
        inserted(set_of(texts.drop_last()), texts.last(), ())
    }
}

/// The set holds each text of the sequence and nothing else, in ascending order.
pub proof fn set_holds_all(texts: Seq<Seq<char>>, t: Seq<char>)
    ensures
        ascending(set_of(texts)),
        has_key(set_of(texts), t) <==> texts.contains(t),
    decreases texts.len(),
{
    if texts.len() > 0 {
        let rest = texts.drop_last();
        let last = texts.last();
        set_holds_all(rest, t);
        inserted_is_found(set_of(rest), last, (), t);
        found_is_there(set_of(texts), t);
        found_is_there(set_of(rest), t);
        if texts.contains(t) {
            let i = choose|i: int| 0 <= i < texts.len() && texts[i] == t;
            if i < rest.len() {
                assert(rest[i] == t);
            }
        }
        if rest.contains(t) {
            let i = choose|i: int| 0 <= i < rest.len() && rest[i] == t;
            assert(texts[i] == t);
        }
        if t == last {
            assert(texts[texts.len() - 1] == t);
        }
    }
}

proof fn one_less<V>(m: Seq<(Seq<char>, V)>, t: Seq<char>)
    requires
        ascending(m),
        m.len() > 0,
    ensures
        ascending(m.drop_last()),
        has_key(m.drop_last(), t) <==> has_key(m, t) && t != m.last().0,
{
    let rest = m.drop_last();
    assert forall|i: int, j: int| 0 <= i < j < rest.len() implies less(
        (#[trigger] rest[i]).0,
        (#[trigger] rest[j]).0,
    ) by {
        assert(rest[i] == m[i] && rest[j] == m[j]);
    }
    if has_key(rest, t) {
        let i = choose|i: int| 0 <= i < rest.len() && (#[trigger] rest[i]).0 == t;
        assert(m[i] == rest[i]);
        assert(less(m[i].0, m[m.len() - 1].0));
        less_is_irreflexive(t);
    }
    if has_key(m, t) && t != m.last().0 {
        let i = choose|i: int| 0 <= i < m.len() && (#[trigger] m[i]).0 == t;
        assert(rest[i] == m[i]);
    }
}

/// Two sets with the same members are one.
pub proof fn one_set_is_ascending(a: Seq<(Seq<char>, ())>, b: Seq<(Seq<char>, ())>)
    requires
        ascending(a),
        ascending(b),
        forall|t: Seq<char>| #[trigger] has_key(a, t) <==> has_key(b, t),
    ensures
        a == b,
    decreases a.len(),
{
    if a.len() == 0 {
        if b.len() > 0 {
            assert(has_key(b, b[0].0));
            assert(has_key(a, b[0].0));
        }
        assert(a =~= b);
    } else {
        let x = a.last().0;
        assert(a[a.len() - 1].0 == x);
        assert(has_key(a, x));
        let i = choose|i: int| 0 <= i < b.len() && (#[trigger] b[i]).0 == x;
        let y = b.last().0;
        assert(b[b.len() - 1].0 == y);
        assert(has_key(b, y));
        assert(has_key(a, y));
        let j = choose|j: int| 0 <= j < a.len() && (#[trigger] a[j]).0 == y;
        if x != y {
            assert(less(b[i].0, b[b.len() - 1].0));
            assert(less(a[j].0, a[a.len() - 1].0));
            less_is_transitive(x, y, x);
            less_is_irreflexive(x);
        }
        let p = a.drop_last();
        let q = b.drop_last();
        one_less(a, x);
        one_less(b, x);
        assert forall|t: Seq<char>| #[trigger] has_key(p, t) <==> has_key(q, t) by {
            one_less(a, t);
            one_less(b, t);
            assert(has_key(a, t) <==> has_key(b, t));
        }
        one_set_is_ascending(p, q);
        assert(a.last().1 == b.last().1);
        assert(a =~= p.push(a.last()));
        assert(b =~= q.push(b.last()));
    }
}

/// The set of the texts of a vector.
pub fn to_set(texts: &Vec<String>) -> (r: Vec<(String, ())>)
    ensures
        keyed(r@) == set_of(views(texts@)),
{
    let ghost all = views(texts@);
    let mut r: Vec<(String, ())> = Vec::new();
    let mut i: usize = 0;
    assert(keyed(r@) =~= set_of(all.take(0)));
    while i < texts.len()
        invariant
            i <= texts.len(),
            all == views(texts@),
            keyed(r@) == set_of(all.take(i as int)),
        decreases texts.len() - i,
    {
        assert(all.take(i + 1).drop_last() =~= all.take(i as int));
        insert(&mut r, texts[i].clone(), ());
        i += 1;
    }
    assert(all.take(i as int) =~= all);
    r
}

/// The members of one set that are not in another one, in their order.
pub open spec fn difference(a: Seq<(Seq<char>, ())>, b: Seq<(Seq<char>, ())>) -> Seq<Seq<char>>
    decreases a.len(),
{
    if a.len() == 0 {
        Seq::empty()
    } else {
        let rest = difference(a.drop_last(), b);
        if found(b, a.last().0) is Some {
            rest
        } else {
            rest.push(a.last().0)
        }
    }
}

/// What a difference holds: what is in the one and not in the other.
pub proof fn difference_holds(a: Seq<(Seq<char>, ())>, b: Seq<(Seq<char>, ())>, t: Seq<char>)
    ensures
        difference(a, b).contains(t) <==> has_key(a, t) && !has_key(b, t),
    decreases a.len(),
{
    if a.len() > 0 {
        let rest = a.drop_last();
        let last = a.last().0;
        difference_holds(rest, b, t);
        found_is_there(b, last);
        found_is_there(a, t);
        found_is_there(rest, t);
        let d = difference(rest, b);
        if d.contains(t) {
            let i = choose|i: int| 0 <= i < d.len() && d[i] == t;
            assert(difference(a, b)[i] == t);
        }
        if found(b, last) is None {
            assert(difference(a, b)[d.len() as int] == last);
        }
        if difference(a, b).contains(t) {
            let i = choose|i: int| 0 <= i < difference(a, b).len() && difference(a, b)[i] == t;
            if i < d.len() {
                assert(d[i] == t);
            }
        }
    }
}

pub fn minus(a: &Vec<(String, ())>, b: &Vec<(String, ())>) -> (r: Vec<String>)
    ensures
        views(r@) == difference(keyed(a@), keyed(b@)),
{
    let ghost all = keyed(a@);
    let mut r: Vec<String> = Vec::new();
    let mut i: usize = 0;
    assert(views(r@) =~= difference(all.take(0), keyed(b@)));
    while i < a.len()
        invariant
            i <= a.len(),
            all == keyed(a@),
            views(r@) == difference(all.take(i as int), keyed(b@)),
        decreases a.len() - i,
    {
        assert(all.take(i + 1).drop_last() =~= all.take(i as int));
        assert(all.take(i + 1).last().0 == a@[i as int].0@);
        if find(b, a[i].0.as_str()).is_none() {
            let ghost prior = views(r@);
            r.push(a[i].0.clone());
            assert(views(r@) =~= prior.push(a@[i as int].0@));
        }
        i += 1;
    }
    assert(all.take(i as int) =~= all);
    r
}

} // verus!
