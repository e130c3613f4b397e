//! The order of names: by character, as strings are ordered.

use crate::names::NameMap;
use crate::text::{texts, to_chars};
use vstd::prelude::*;

verus! {

/// Whether `a` comes before `b`: at the first place where they differ `a`
/// has the smaller character, or `a` ends there and `b` goes on.
pub open spec fn lex_lt(a: Seq<char>, b: Seq<char>) -> bool
    decreases a.len(),
{
    if b.len() == 0 {
        false
    } else if a.len() == 0 {
        true
    } else if a[0] != b[0] {
        (a[0] as int) < (b[0] as int)
    } else {
        lex_lt(a.drop_first(), b.drop_first())
    }
}

/// Nothing comes before itself.
pub proof fn lemma_lex_irreflexive(a: Seq<char>)
    ensures
        !lex_lt(a, a),
    decreases a.len(),
{
    if a.len() > 0 {
        lemma_lex_irreflexive(a.drop_first());
    }
}

/// Of two different names one comes before the other.
pub proof fn lemma_lex_connected(a: Seq<char>, b: Seq<char>)
    ensures
        a == b || lex_lt(a, b) || lex_lt(b, a),
    decreases a.len(),
{
    if a.len() > 0 && b.len() > 0 {
        if a[0] == b[0] {
            lemma_lex_connected(a.drop_first(), b.drop_first());
            if a.drop_first() == b.drop_first() {
                assert(a =~= seq![a[0]] + a.drop_first());
                assert(b =~= seq![b[0]] + b.drop_first());
            }
        }
    } else if a.len() == 0 && b.len() == 0 {
        assert(a =~= b);
    }
}

/// No two names come before each other.
pub proof fn lemma_lex_asymmetric(a: Seq<char>, b: Seq<char>)
    ensures
        !(lex_lt(a, b) && lex_lt(b, a)),
    decreases a.len(),
{
    if a.len() > 0 && b.len() > 0 && a[0] == b[0] {
        lemma_lex_asymmetric(a.drop_first(), b.drop_first());
    }
}

/// What comes before a name comes before everything after that name.
pub proof fn lemma_lex_transitive(a: Seq<char>, b: Seq<char>, c: Seq<char>)
    requires
        lex_lt(a, b),
        lex_lt(b, c),
    ensures
        lex_lt(a, c),
    decreases a.len(),
{
    if a.len() > 0 && b.len() > 0 && c.len() > 0 {
        if a[0] == b[0] && b[0] == c[0] {
            lemma_lex_transitive(a.drop_first(), b.drop_first(), c.drop_first());
        }
    }
}

/// Whether each name of `s` comes before all that follow it.
pub open spec fn ascending(s: Seq<Seq<char>>) -> bool {
    forall|i: int, j: int| 0 <= i < j < s.len() ==> lex_lt(#[trigger] s[i], #[trigger] s[j])
}

/// The names of `set` in ascending order.
pub open spec fn ordered(set: Set<Seq<char>>) -> Seq<Seq<char>> {
    choose|q: Seq<Seq<char>>| ascending(q) && q.to_set() == set
}

/// An ascending list holds no name twice.
pub proof fn lemma_ascending_distinct(s: Seq<Seq<char>>)
    requires
        ascending(s),
    ensures
        s.no_duplicates(),
{
    assert forall|i: int, j: int| 0 <= i < s.len() && 0 <= j < s.len() && i != j implies s[i]
        != s[j] by {
        lemma_lex_irreflexive(s[i]);
        if i < j {
            assert(lex_lt(s[i], s[j]));
        } else {
            assert(lex_lt(s[j], s[i]));
        }
    }
}

/// Two ascending lists of the same names are the same list.
pub proof fn lemma_ascending_unique(p: Seq<Seq<char>>, q: Seq<Seq<char>>)
    requires
        ascending(p),
        ascending(q),
        p.to_set() == q.to_set(),
    ensures
        p == q,
    decreases p.len(),
{
    if p.len() == 0 {
        if q.len() > 0 {
            assert(q.to_set().contains(q[0]));
            assert(p.to_set().contains(q[0]));
        }
        assert(p =~= q);
    } else {
        assert(p.to_set().contains(p.last()));
        assert(q.to_set().contains(p.last()));
        assert(q.len() > 0);
        assert(q.to_set().contains(q.last()));
        assert(p.to_set().contains(q.last()));
        let ip = choose|i: int| 0 <= i < p.len() && p[i] == q.last();
        let iq = choose|i: int| 0 <= i < q.len() && q[i] == p.last();
        lemma_lex_asymmetric(p.last(), q.last());
        lemma_lex_irreflexive(p.last());
        if ip < p.len() - 1 {
            assert(lex_lt(p[ip], p[p.len() - 1]));
        }
        if iq < q.len() - 1 {
            assert(lex_lt(q[iq], q[q.len() - 1]));
        }
        assert(p.last() == q.last());
        let p0 = p.drop_last();
        let q0 = q.drop_last();
        lemma_ascending_distinct(p);
        lemma_ascending_distinct(q);
        assert forall|x: Seq<char>| p0.to_set().contains(x) <==> q0.to_set().contains(x) by {
            if p0.to_set().contains(x) {
                let i = choose|i: int| 0 <= i < p0.len() && p0[i] == x;
                assert(p[i] == x);
                assert(p.to_set().contains(x));
                assert(q.to_set().contains(x));
                let j = choose|j: int| 0 <= j < q.len() && q[j] == x;
                assert(j != q.len() - 1);
                assert(q0[j] == x);
            }
            if q0.to_set().contains(x) {
                let i = choose|i: int| 0 <= i < q0.len() && q0[i] == x;
                assert(q[i] == x);
                assert(q.to_set().contains(x));
                assert(p.to_set().contains(x));
                let j = choose|j: int| 0 <= j < p.len() && p[j] == x;
                assert(j != p.len() - 1);
                assert(p0[j] == x);
            }
        }
        assert(p0.to_set() =~= q0.to_set());
        lemma_ascending_unique(p0, q0);
        assert(p =~= p0.push(p.last()));
        assert(q =~= q0.push(q.last()));
    }
}

/// An ascending list is the ascending order of its names.
pub proof fn lemma_ordered(p: Seq<Seq<char>>)
    requires
        ascending(p),
    ensures
        ordered(p.to_set()) == p,
{
    let q = ordered(p.to_set());
    lemma_ascending_unique(q, p);
}

/// Whether `a` comes before `b`.
pub fn comes_before(a: &str, b: &str) -> (r: bool)
    ensures
        r == lex_lt(a@, b@),
{
    let x = to_chars(a);
    let y = to_chars(b);
    let mut i: usize = 0;
    assert(x@.skip(0) =~= x@);
    assert(y@.skip(0) =~= y@);
    while i < x.len() && i < y.len()
        invariant
            i <= x.len(),
            i <= y.len(),
            x@ == a@,
            y@ == b@,
            lex_lt(x@, y@) == lex_lt(x@.skip(i as int), y@.skip(i as int)),
        decreases x.len() - i,
    {
        let ghost xs = x@.skip(i as int);
        let ghost ys = y@.skip(i as int);
        assert(xs[0] == x@[i as int] && ys[0] == y@[i as int]);
        if x[i] != y[i] {
            return x[i] < y[i];
        }
        assert(xs.drop_first() =~= x@.skip(i + 1));
        assert(ys.drop_first() =~= y@.skip(i + 1));
        i += 1;
    }
    i < y.len()
}

/// Puts `name` into the ascending list `list`, where it is not yet.
pub(crate) fn insert_ascending(list: &mut Vec<String>, name: String)
    requires
        ascending(texts(old(list)@)),
        !texts(old(list)@).contains(name@),
    ensures
        ascending(texts(final(list)@)),
        texts(final(list)@).to_set() == texts(old(list)@).to_set().insert(name@),
        final(list)@.len() == old(list)@.len() + 1,
{
    let ghost before = texts(list@);
    let mut i: usize = 0;
    while i < list.len() && comes_before(list[i].as_str(), name.as_str())
        invariant
            i <= list.len(),
            texts(list@) == before,
            forall|j: int| 0 <= j < i ==> lex_lt(#[trigger] before[j], name@),
        decreases list.len() - i,
    {
        i += 1;
    }
    list.insert(i, name);
    proof {
        let after = texts(list@);
        assert(after =~= before.insert(i as int, name@));
        assert forall|a: int, b: int| 0 <= a < b < after.len() implies lex_lt(
            #[trigger] after[a],
            #[trigger] after[b],
        ) by {
            if b < i {
                assert(lex_lt(before[a], before[b]));
            } else if b == i {
            } else if a == i {
                // name comes before everything from position i on
                let y = before[b - 1];
                if b - 1 == i {
                    assert(before.contains(y));
                    lemma_lex_connected(y, name@);
                } else {
                    let x = before[i as int];
                    assert(before.contains(x));
                    lemma_lex_connected(x, name@);
                    assert(lex_lt(before[i as int], before[b - 1]));
                    lemma_lex_transitive(name@, x, y);
                }
            } else if a < i {
                assert(lex_lt(before[a], before[b - 1]));
            } else {
                assert(lex_lt(before[a - 1], before[b - 1]));
            }
        }
        assert forall|x: Seq<char>| after.to_set().contains(x) <==> before.to_set().insert(
            name@,
        ).contains(x) by {
            if after.to_set().contains(x) {
                let k = choose|k: int| 0 <= k < after.len() && after[k] == x;
                if k < i {
                    assert(before[k] == x);
                } else if k > i {
                    assert(before[k - 1] == x);
                }
            }
            if before.to_set().contains(x) {
                let k = choose|k: int| 0 <= k < before.len() && before[k] == x;
                if k < i {
                    assert(after[k] == x);
                } else {
                    assert(after[k + 1] == x);
                }
            }
            if x == name@ {
                assert(after[i as int] == x);
            }
        }
        assert(after.to_set() =~= before.to_set().insert(name@));
    }
}

/// The keys of `map` in ascending order.
pub fn sorted_keys<T: View>(map: &NameMap<T>) -> (r: Vec<String>)
    ensures
        texts(r@) == ordered(map@.dom()),
        ascending(texts(r@)),
        texts(r@).to_set() == map@.dom(),
{
    let mut r: Vec<String> = Vec::new();
    let n = map.len();
    let mut i: usize = 0;
    assert(texts(r@) =~= Seq::<Seq<char>>::empty());
    assert(map.keys().take(0).to_set() =~= Set::<Seq<char>>::empty());
    assert(texts(r@).to_set() =~= Set::<Seq<char>>::empty());
    while i < n
        invariant
            i <= n,
            n == map.keys().len(),
            map.keys().no_duplicates(),
            ascending(texts(r@)),
            texts(r@).to_set() == map.keys().take(i as int).to_set(),
        decreases n - i,
    {
        let key = map.key_at(i).clone();
        proof {
            if texts(r@).contains(key@) {
                assert(texts(r@).to_set().contains(key@));
                let k = choose|k: int|
                    0 <= k < map.keys().take(i as int).len() && map.keys().take(i as int)[k]
                        == key@;
                assert(map.keys()[k] == map.keys()[i as int]);
            }
            assert(map.keys().take(i + 1) =~= map.keys().take(i as int).push(key@));
            assert(map.keys().take(i as int).push(key@).to_set() =~= map.keys().take(
                i as int,
            ).to_set().insert(key@)) by {
                let s = map.keys().take(i as int);
                assert forall|x: Seq<char>| s.push(key@).to_set().contains(x)
                    <==> s.to_set().insert(key@).contains(x) by {
                    if s.push(key@).to_set().contains(x) {
                        let k = choose|k: int| 0 <= k < s.push(key@).len() && s.push(key@)[k] == x;
                        if k < s.len() {
                            assert(s[k] == x);
                        }
                    }
                    if s.to_set().contains(x) {
                        let k = choose|k: int| 0 <= k < s.len() && s[k] == x;
                        assert(s.push(key@)[k] == x);
                    }
                    if x == key@ {
                        assert(s.push(key@)[s.len() as int] == x);
                    }
                }
            }
        }
        insert_ascending(&mut r, key);
        i += 1;
    }
    proof {
        assert(map.keys().take(n as int) =~= map.keys());
        assert(map.keys().to_set() =~= map@.dom());
        lemma_ordered(texts(r@));
    }
    r
}

/// The names of `keys` whose mark is set.
pub open spec fn marked(keys: Seq<Seq<char>>, marks: Seq<bool>) -> Set<Seq<char>> {
    Set::new(
        |x: Seq<char>|
            exists|i: int| 0 <= i < keys.len() && i < marks.len() && keys[i] == x && marks[i],
    )
}

/// The names of the ascending list `keys` whose mark is set, in order.
pub(crate) fn keep_marked(keys: &Vec<String>, marks: &Vec<bool>) -> (r: Vec<String>)
    requires
        ascending(texts(keys@)),
        marks@.len() == keys@.len(),
    ensures
        ascending(texts(r@)),
        texts(r@).to_set() == marked(texts(keys@), marks@),
        texts(r@) == ordered(marked(texts(keys@), marks@)),
{
    let mut r: Vec<String> = Vec::new();
    let mut i: usize = 0;
    let ghost ks = texts(keys@);
    assert(texts(r@) =~= Seq::<Seq<char>>::empty());
    while i < keys.len()
        invariant
            i <= keys.len(),
            ks == texts(keys@),
            marks@.len() == keys@.len(),
            ascending(ks),
            ascending(texts(r@)),
            forall|x: Seq<char>| #[trigger]
                texts(r@).contains(x) <==> exists|j: int| 0 <= j < i && ks[j] == x && marks@[j],
        decreases keys.len() - i,
    {
        if marks[i] {
            let ghost before = texts(r@);
            r.push(keys[i].clone());
            proof {
                let after = texts(r@);
                assert(after =~= before.push(ks[i as int]));
                assert forall|a: int, b: int| 0 <= a < b < after.len() implies lex_lt(
                    #[trigger] after[a],
                    #[trigger] after[b],
                ) by {
                    if b == before.len() {
                        assert(before.contains(before[a]));
                        let j = choose|j: int| 0 <= j < i && ks[j] == before[a] && marks@[j];
                        assert(lex_lt(ks[j], ks[i as int]));
                    } else {
                        assert(lex_lt(before[a], before[b]));
                    }
                }
                assert forall|x: Seq<char>| #[trigger]
                    after.contains(x) <==> exists|j: int|
                        0 <= j < i + 1 && ks[j] == x && marks@[j] by {
                    if after.contains(x) {
                        let k = choose|k: int| 0 <= k < after.len() && after[k] == x;
                        if k < before.len() {
                            assert(before[k] == x);
                            assert(before.contains(x));
                            let j = choose|j: int| 0 <= j < i && ks[j] == x && marks@[j];
                            assert(0 <= j < i + 1 && ks[j] == x && marks@[j]);
                        } else {
                            assert(ks[i as int] == x && marks@[i as int]);
                        }
                    }
                    if exists|j: int| 0 <= j < i + 1 && ks[j] == x && marks@[j] {
                        let j = choose|j: int| 0 <= j < i + 1 && ks[j] == x && marks@[j];
                        if j < i {
                            assert(before.contains(x));
                            let k = choose|k: int| 0 <= k < before.len() && before[k] == x;
                            assert(after[k] == x);
                        } else {
                            assert(after[before.len() as int] == x);
                        }
                    }
                }
            }
        } else {
            proof {
                assert forall|x: Seq<char>| #[trigger]
                    texts(r@).contains(x) <==> exists|j: int|
                        0 <= j < i + 1 && ks[j] == x && marks@[j] by {
                    if texts(r@).contains(x) {
                        let j = choose|j: int| 0 <= j < i && ks[j] == x && marks@[j];
                        assert(0 <= j < i + 1 && ks[j] == x && marks@[j]);
                    }
                    if exists|j: int| 0 <= j < i + 1 && ks[j] == x && marks@[j] {
                        let j = choose|j: int| 0 <= j < i + 1 && ks[j] == x && marks@[j];
                        assert(j < i);
                    }
                }
            }
        }
        i += 1;
    }
    proof {
        assert forall|x: Seq<char>| texts(r@).to_set().contains(x) <==> marked(ks, marks@).contains(
            x,
        ) by {
            if texts(r@).to_set().contains(x) {
                assert(texts(r@).contains(x));
                let j = choose|j: int| 0 <= j < keys.len() && ks[j] == x && marks@[j];
                assert(0 <= j < ks.len() && j < marks@.len() && ks[j] == x && marks@[j]);
            }
            if marked(ks, marks@).contains(x) {
                let j = choose|j: int|
                    0 <= j < ks.len() && j < marks@.len() && ks[j] == x && marks@[j];
                assert(0 <= j < keys.len() && ks[j] == x && marks@[j]);
                assert(texts(r@).contains(x));
            }
        }
        assert(texts(r@).to_set() =~= marked(ks, marks@));
        lemma_ordered(texts(r@));
    }
    r
}

} // verus!
