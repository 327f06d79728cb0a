//! Lexicographic order on names, and sorting a list of names by it.

use vstd::prelude::*;
use crate::text::views;

verus! {

/// `a` comes strictly before `b` in lexicographic order by character code.
pub open spec fn lex_lt(a: Seq<char>, b: Seq<char>) -> bool
    decreases a.len(),
{
    if a.len() == 0 {
        b.len() > 0
    } else if b.len() == 0 {
        false
    } else if a[0] != b[0] {
        a[0] < b[0]
    } else {
        lex_lt(a.drop_first(), b.drop_first())
    }
}

/// Each name comes strictly before every later one.
pub open spec fn strictly_sorted(s: Seq<Seq<char>>) -> bool {
    forall|i: int, j: int| 0 <= i < j < s.len() ==> lex_lt(#[trigger] s[i], #[trigger] s[j])
}

/// No name comes before itself.
pub proof fn lemma_lex_irreflexive(a: Seq<char>)
    ensures
        !lex_lt(a, a),
    decreases a.len(),
{
    if a.len() > 0 {
        lemma_lex_irreflexive(a.drop_first());
    }
}

/// Of two different names exactly one comes first.
pub proof fn lemma_lex_total(a: Seq<char>, b: Seq<char>)
    ensures
        a != b ==> (lex_lt(a, b) || lex_lt(b, a)),
        !(lex_lt(a, b) && lex_lt(b, a)),
    decreases a.len(),
{
    if a.len() > 0 && b.len() > 0 && a[0] == b[0] {
        lemma_lex_total(a.drop_first(), b.drop_first());
        if a != b {
            assert(a =~= seq![a[0]] + a.drop_first());
            assert(b =~= seq![b[0]] + b.drop_first());
        }
    } else if a.len() == 0 && b.len() == 0 {
        assert(a =~= b);
    }
}

/// The order is transitive.
pub proof fn lemma_lex_transitive(a: Seq<char>, b: Seq<char>, c: Seq<char>)
    requires
        lex_lt(a, b),
        lex_lt(b, c),
    ensures
        lex_lt(a, c),
    decreases a.len(),
{
    if a.len() > 0 && b.len() > 0 && c.len() > 0 && a[0] == b[0] && b[0] == c[0] {
        lemma_lex_transitive(a.drop_first(), b.drop_first(), c.drop_first());
    }
}

/// Whether `a` comes strictly before `b` in lexicographic order.
pub fn less_than(a: &str, b: &str) -> (r: bool)
    ensures
        r == lex_lt(a@, b@),
{
    let n = a.unicode_len();
    let m = b.unicode_len();
    let mut i: usize = 0;
    assert(a@.skip(0) =~= a@);
    assert(b@.skip(0) =~= b@);
    while i < n && i < m
        invariant
            n == a@.len(),
            m == b@.len(),
            i <= n,
            i <= m,
            lex_lt(a@, b@) == lex_lt(a@.skip(i as int), b@.skip(i as int)),
        decreases n - i,
    {
        let x = a.get_char(i);
        let y = b.get_char(i);
        if x != y {
            return x < y;
        }
        assert(a@.skip(i as int).drop_first() =~= a@.skip(i + 1));
        assert(b@.skip(i as int).drop_first() =~= b@.skip(i + 1));
        i += 1;
    }
    i < m && i == n
}

/// `names` in strictly increasing order, each distinct name once.
pub fn sort_names(names: Vec<String>) -> (r: Vec<String>)
    ensures
        strictly_sorted(views(r@)),
        views(r@).to_set() == views(names@).to_set(),
{
    let mut r: Vec<String> = Vec::new();
    let mut k: usize = 0;
    while k < names.len()
        invariant
            k <= names.len(),
            strictly_sorted(views(r@)),
            views(r@).to_set() == views(names@).take(k as int).to_set(),
        decreases names.len() - k,
    {
        let x = &names[k];
        let mut i: usize = 0;
        let mut searching = true;
        while searching && i < r.len()
            invariant
                i <= r.len(),
                forall|j: int| 0 <= j < i ==> lex_lt(#[trigger] r@[j]@, x@),
                !searching ==> i < r.len() && !lex_lt(r@[i as int]@, x@),
            decreases r.len() - i + (if searching { 1int } else { 0int }),
        {
            if less_than(r[i].as_str(), x.as_str()) {
                i += 1;
            } else {
                searching = false;
            }
        }
        let ghost before = views(r@);
        proof {
            assert(views(names@).take(k + 1) =~= views(names@).take(k as int).push(x@));
        }
        if i < r.len() && r[i] == names[k] {
            assert(views(r@).to_set() =~= views(names@).take(k + 1).to_set()) by {
                assert(before[i as int] == x@);
            }
        } else {
            proof {
                if i < r.len() {
                    lemma_lex_total(r@[i as int]@, x@);
                    assert(lex_lt(x@, before[i as int]));
                    assert forall|j: int| i < j < before.len() implies lex_lt(
                        x@,
                        #[trigger] before[j],
                    ) by {
                        lemma_lex_transitive(x@, before[i as int], before[j]);
                    }
                }
            }
            r.insert(i, x.clone());
            proof {
                let after = views(r@);
                assert(after =~= before.insert(i as int, x@));
                assert forall|a: int, b: int| 0 <= a < b < after.len() implies lex_lt(
                    #[trigger] after[a],
                    #[trigger] after[b],
                ) by {
                    if a < i && b > i {
                        lemma_lex_transitive(after[a], x@, after[b]);
                    }
                }
                assert(after.to_set() =~= views(names@).take(k + 1).to_set()) by {
                    assert forall|y: Seq<char>| after.contains(y) <==> before.contains(y) || y
                        == x@ by {
                        if after.contains(y) {
                            let t = choose|t: int| 0 <= t < after.len() && after[t] == y;
                            if t < i {
                                assert(before[t] == y);
                            } else if t > i {
                                assert(before[t - 1] == y);
                            }
                        }
                        if before.contains(y) {
                            let t = choose|t: int| 0 <= t < before.len() && before[t] == y;
                            if t < i {
                                assert(after[t] == y);
                            } else {
                                assert(after[t + 1] == y);
                            }
                        }
                        if y == x@ {
                            assert(after[i as int] == y);
                        }
                    }
                    assert forall|y: Seq<char>|
                        views(names@).take(k + 1).contains(y) <==> before.contains(y) || y
                            == x@ by {
                        assert(before.to_set().contains(y) == before.contains(y));
                        assert(views(names@).take(k as int).to_set().contains(y) == views(
                            names@,
                        ).take(k as int).contains(y));
                        let s = views(names@).take(k as int);
                        if s.push(x@).contains(y) && y != x@ {
                            let t = choose|t: int| 0 <= t < s.len() + 1 && s.push(x@)[t] == y;
                            assert(s[t] == y);
                        }
                        if s.contains(y) {
                            let t = choose|t: int| 0 <= t < s.len() && s[t] == y;
                            assert(s.push(x@)[t] == y);
                        }
                        if y == x@ {
                            assert(s.push(x@)[s.len() as int] == y);
                        }
                    }
                }
            }
        }
        k += 1;
    }
    assert(views(names@).take(k as int) =~= views(names@));
    r
}

/// Two strictly sorted lists of the same names are the same list.
pub proof fn lemma_sorted_unique(a: Seq<Seq<char>>, b: Seq<Seq<char>>)
    requires
        strictly_sorted(a),
        strictly_sorted(b),
        a.to_set() == b.to_set(),
    ensures
        a == b,
    decreases a.len(),
{
    assert forall|y: Seq<char>| a.contains(y) == b.contains(y) by {
        assert(a.to_set().contains(y) == a.contains(y));
        assert(b.to_set().contains(y) == b.contains(y));
    }
    if a.len() == 0 {
        if b.len() > 0 {
            assert(b.contains(b[0]));
        }
        assert(a =~= b);
    } else {
        assert(a.contains(a[0]));
        assert(b.len() > 0);
        assert(b.contains(b[0]));
        let j = choose|j: int| 0 <= j < a.len() && a[j] == b[0];
        let k = choose|k: int| 0 <= k < b.len() && b[k] == a[0];
        lemma_lex_total(a[0], b[0]);
        if j > 0 && k > 0 {
            assert(lex_lt(a[0], a[j]));
            assert(lex_lt(b[0], b[k]));
        }
        assert(a[0] == b[0]);
        let a1 = a.drop_first();
        let b1 = b.drop_first();
        assert forall|y: Seq<char>| a1.contains(y) == b1.contains(y) by {
            if a1.contains(y) {
                let t = choose|t: int| 0 <= t < a1.len() && a1[t] == y;
                assert(a.contains(y));
                assert(lex_lt(a[0], a[t + 1]));
                lemma_lex_irreflexive(y);
                let u = choose|u: int| 0 <= u < b.len() && b[u] == y;
                assert(u != 0);
                assert(b1[u - 1] == y);
            }
            if b1.contains(y) {
                let t = choose|t: int| 0 <= t < b1.len() && b1[t] == y;
                assert(b.contains(y));
                assert(lex_lt(b[0], b[t + 1]));
                lemma_lex_irreflexive(y);
                let u = choose|u: int| 0 <= u < a.len() && a[u] == y;
                assert(u != 0);
                assert(a1[u - 1] == y);
            }
        }
        assert(a1.to_set() =~= b1.to_set());
        lemma_sorted_unique(a1, b1);
        assert(a =~= seq![a[0]] + a1);
        assert(b =~= seq![b[0]] + b1);
    }
}

} // verus!
