//! Ordering of texts (as `str`'s `Ord` orders them) and a stable sort of
//! positions by a rank and a text.
use vstd::prelude::*;

verus! {

/// `a < b` in the order of `str`: lexicographic by code point, a proper
/// prefix first.
pub open spec fn text_less(a: Seq<char>, b: Seq<char>) -> bool
    decreases a.len(),
{
    if a.len() == 0 {
        b.len() > 0
    } else if b.len() == 0 {
        false
    } else if a[0] != b[0] {
        a[0] < b[0]
    } else {
        text_less(a.drop_first(), b.drop_first())
    }
}

pub proof fn lemma_text_less_irreflexive(a: Seq<char>)
    ensures
        !text_less(a, a),
    decreases a.len(),
{
    if a.len() > 0 {
        lemma_text_less_irreflexive(a.drop_first());
    }
}

pub proof fn lemma_text_less_asymmetric(a: Seq<char>, b: Seq<char>)
    ensures
        !(text_less(a, b) && text_less(b, a)),
    decreases a.len(),
{
    if a.len() > 0 && b.len() > 0 && a[0] == b[0] {
        lemma_text_less_asymmetric(a.drop_first(), b.drop_first());
    }
}

pub proof fn lemma_text_less_total(a: Seq<char>, b: Seq<char>)
    ensures
        a == b || text_less(a, b) || text_less(b, a),
    decreases a.len(),
{
    if a.len() > 0 && b.len() > 0 && a[0] == b[0] {
        lemma_text_less_total(a.drop_first(), b.drop_first());
        if a.drop_first() == b.drop_first() {
            assert(a =~= seq![a[0]] + a.drop_first());
            assert(b =~= seq![b[0]] + b.drop_first());
        }
    } else if a.len() > 0 && b.len() > 0 {
    } else if a.len() == 0 && b.len() == 0 {
        assert(a =~= b);
    }
}

pub proof fn lemma_text_less_transitive(a: Seq<char>, b: Seq<char>, c: Seq<char>)
    requires
        text_less(a, b),
        text_less(b, c),
    ensures
        text_less(a, c),
    decreases a.len(),
{
    if a.len() > 0 && b.len() > 0 && c.len() > 0 && a[0] == b[0] && b[0] == c[0] {
        lemma_text_less_transitive(a.drop_first(), b.drop_first(), c.drop_first());
    }
}

/// `a < b` as texts.
pub fn chars_less(a: &[char], b: &[char]) -> (r: bool)
    ensures
        r == text_less(a@, b@),
{
    let mut i: usize = 0;
    assert(a@.skip(0) =~= a@ && b@.skip(0) =~= b@);
    while i < a.len() && i < b.len() && a[i] == b[i]
        invariant
            i <= a.len(),
            i <= b.len(),
            text_less(a@, b@) == text_less(a@.skip(i as int), b@.skip(i as int)),
        decreases a.len() - i,
    {
        assert(a@.skip(i as int).drop_first() =~= a@.skip(i + 1));
        assert(b@.skip(i as int).drop_first() =~= b@.skip(i + 1));
        i += 1;
    }
    if i == a.len() {
        i < b.len()
    } else if i == b.len() {
        false
    } else {
        a[i] < b[i]
    }
}

/// Position `i` comes before position `j`: by rank, then by text, then by
/// position, which makes the order strict and total on distinct positions.
pub open spec fn key_less(ranks: Seq<i128>, texts: Seq<Seq<char>>, i: int, j: int) -> bool {
    ||| ranks[i] < ranks[j]
    ||| ranks[i] == ranks[j] && text_less(texts[i], texts[j])
    ||| ranks[i] == ranks[j] && texts[i] == texts[j] && i < j
}

/// Whether position `j` comes before position `i`.
pub fn comes_before(ranks: &Vec<i128>, texts: &Vec<Vec<char>>, j: usize, i: usize) -> (r: bool)
    requires
        ranks.len() == texts.len(),
        j < ranks.len(),
        i < ranks.len(),
    ensures
        r == key_less(ranks@, texts@.map_values(|t: Vec<char>| t@), j as int, i as int),
{
    let ghost tv = texts@.map_values(|t: Vec<char>| t@);
    assert(tv[j as int] == texts@[j as int]@ && tv[i as int] == texts@[i as int]@);
    proof {
        lemma_text_less_total(tv[j as int], tv[i as int]);
        lemma_text_less_asymmetric(tv[j as int], tv[i as int]);
    }
    ranks[j] < ranks[i] || (ranks[j] == ranks[i] && (chars_less(&texts[j], &texts[i]) || (
    !chars_less(&texts[i], &texts[j]) && j < i)))
}

/// `order` lists each position below `n` exactly once.
pub open spec fn is_arrangement(order: Seq<usize>, n: int) -> bool {
    &&& order.len() == n
    &&& forall|k: int| 0 <= k < order.len() ==> #[trigger] order[k] < n
    &&& order.no_duplicates()
}

/// Each listed position comes before every later one.
pub open spec fn sorted_by_key(order: Seq<usize>, ranks: Seq<i128>, texts: Seq<Seq<char>>) -> bool {
    forall|a: int, b: int|
        0 <= a < b < order.len() ==> key_less(ranks, texts, #[trigger] order[a] as int, #[trigger] order[b] as int)
}

proof fn lemma_key_less_transitive(ranks: Seq<i128>, texts: Seq<Seq<char>>, i: int, j: int, k: int)
    requires
        key_less(ranks, texts, i, j),
        key_less(ranks, texts, j, k),
    ensures
        key_less(ranks, texts, i, k),
{
    if ranks[i] == ranks[j] && ranks[j] == ranks[k] {
        if text_less(texts[i], texts[j]) && text_less(texts[j], texts[k]) {
            lemma_text_less_transitive(texts[i], texts[j], texts[k]);
        }
    }
}

proof fn lemma_key_less_total(ranks: Seq<i128>, texts: Seq<Seq<char>>, i: int, j: int)
    requires
        i != j,
    ensures
        key_less(ranks, texts, i, j) || key_less(ranks, texts, j, i),
{
    lemma_text_less_total(texts[i], texts[j]);
}

/// The positions `0..n` stably sorted by `(rank, text)`: every position once,
/// each before all later ones in the order of `key_less`.
pub fn stable_order(ranks: &Vec<i128>, texts: &Vec<Vec<char>>) -> (order: Vec<usize>)
    requires
        ranks.len() == texts.len(),
    ensures
        is_arrangement(order@, ranks.len() as int),
        sorted_by_key(order@, ranks@, texts@.map_values(|t: Vec<char>| t@)),
{
    let ghost tv = texts@.map_values(|t: Vec<char>| t@);
    let mut order: Vec<usize> = Vec::new();
    let mut i: usize = 0;
    while i < ranks.len()
        invariant
            ranks.len() == texts.len(),
            tv == texts@.map_values(|t: Vec<char>| t@),
            i <= ranks.len(),
            is_arrangement(order@, i as int),
            sorted_by_key(order@, ranks@, tv),
        decreases ranks.len() - i,
    {
        // first place whose position does not come before `i`
        let mut p: usize = 0;
        while p < order.len() && comes_before(ranks, texts, order[p], i)
            invariant
                ranks.len() == texts.len(),
                tv == texts@.map_values(|t: Vec<char>| t@),
                i < ranks.len(),
                p <= order.len(),
                is_arrangement(order@, i as int),
                forall|k: int| 0 <= k < p ==> key_less(ranks@, tv, #[trigger] order@[k] as int, i as int),
            decreases order.len() - p,
        {
            proof {
                let j = order@[p as int] as int;
                assert(tv[j] == texts@[j]@ && tv[i as int] == texts@[i as int]@);
                lemma_text_less_total(tv[j], tv[i as int]);
                lemma_text_less_asymmetric(tv[j], tv[i as int]);
            }
            p += 1;
        }
        proof {
            if p < order.len() {
                let j = order@[p as int] as int;
                assert(tv[j] == texts@[j]@ && tv[i as int] == texts@[i as int]@);
                lemma_text_less_total(tv[j], tv[i as int]);
                lemma_text_less_asymmetric(tv[j], tv[i as int]);
                assert(j < i);
                lemma_key_less_total(ranks@, tv, j, i as int);
                assert(key_less(ranks@, tv, i as int, j));
            }
        }
        let ghost old_order = order@;
        order.insert(p, i);
        proof {
            assert(order@ =~= old_order.insert(p as int, i));
            assert forall|a: int, b: int| 0 <= a < b < order@.len() implies key_less(
                ranks@,
                tv,
                #[trigger] order@[a] as int,
                #[trigger] order@[b] as int,
            ) by {
                if a < p && b == p {
                } else if a < p && b > p {
                    assert(order@[b] == old_order[b - 1]);
                } else if a == p && b > p {
                    assert(order@[b] == old_order[b - 1]);
                    if b - 1 > p {
                        assert(key_less(ranks@, tv, old_order[p as int] as int, old_order[b - 1] as int));
                        lemma_key_less_transitive(
                            ranks@,
                            tv,
                            i as int,
                            old_order[p as int] as int,
                            old_order[b - 1] as int,
                        );
                    }
                } else if a > p {
                    assert(order@[a] == old_order[a - 1]);
                    assert(order@[b] == old_order[b - 1]);
                } else {
                    assert(order@[a] == old_order[a]);
                    assert(order@[b] == old_order[b]);
                }
            }
            assert forall|x: int, y: int|
                0 <= x < order@.len() && 0 <= y < order@.len() && x != y implies order@[x]
                != order@[y] by {
                if x == p as int {
                    if y < p {
                        assert(order@[y] == old_order[y]);
                    } else {
                        assert(order@[y] == old_order[y - 1]);
                    }
                } else if y == p as int {
                    if x < p {
                        assert(order@[x] == old_order[x]);
                    } else {
                        assert(order@[x] == old_order[x - 1]);
                    }
                } else {
                    let xo = if x < p {
                        x
                    } else {
                        x - 1
                    };
                    let yo = if y < p {
                        y
                    } else {
                        y - 1
                    };
                    assert(order@[x] == old_order[xo]);
                    assert(order@[y] == old_order[yo]);
                }
            }
            assert forall|k: int| 0 <= k < order@.len() implies #[trigger] order@[k] < i + 1 by {
                if k < p {
                    assert(order@[k] == old_order[k]);
                } else if k > p {
                    assert(order@[k] == old_order[k - 1]);
                }
            }
        }
        i += 1;
    }
    order
}


proof fn lemma_key_less_asymmetric(ranks: Seq<i128>, texts: Seq<Seq<char>>, i: int, j: int)
    ensures
        !(key_less(ranks, texts, i, j) && key_less(ranks, texts, j, i)),
{
    lemma_text_less_asymmetric(texts[i], texts[j]);
    lemma_text_less_irreflexive(texts[i]);
}

/// An arrangement of `0..n` lists every position below `n`.
pub proof fn lemma_arrangement_covers(order: Seq<usize>, n: int, v: int)
    requires
        is_arrangement(order, n),
        0 <= v < n,
    ensures
        exists|k: int| 0 <= k < order.len() && order[k] == v,
{
    let s = order.map_values(|x: usize| x as int);
    assert forall|a: int, b: int| 0 <= a < s.len() && 0 <= b < s.len() && a != b implies s[a] != s[b] by {
        assert(order[a] != order[b]);
    }
    assert(s.no_duplicates());
    s.unique_seq_to_set();
    vstd::seq_lib::seq_to_set_is_finite(s);
    vstd::set_lib::lemma_int_range(0, n);
    let range = vstd::set_lib::set_int_range(0, n);
    assert(s.to_set().subset_of(range)) by {
        assert forall|x: int| s.to_set().contains(x) implies range.contains(x) by {
            let k = choose|k: int| 0 <= k < s.len() && s[k] == x;
            assert(order[k] < n);
        }
    }
    vstd::set_lib::lemma_subset_equality(s.to_set(), range);
    assert(range.contains(v));
    assert(s.to_set().contains(v));
    let k = choose|k: int| 0 <= k < s.len() && s[k] == v;
    assert(order[k] == v);
}

proof fn lemma_sorted_prefix_equal(
    o1: Seq<usize>,
    o2: Seq<usize>,
    ranks: Seq<i128>,
    texts: Seq<Seq<char>>,
    n: int,
    a: int,
)
    requires
        is_arrangement(o1, n),
        is_arrangement(o2, n),
        sorted_by_key(o1, ranks, texts),
        sorted_by_key(o2, ranks, texts),
        0 <= a < n,
    ensures
        forall|b: int| 0 <= b <= a ==> o1[b] == o2[b],
    decreases a,
{
    if a > 0 {
        lemma_sorted_prefix_equal(o1, o2, ranks, texts, n, a - 1);
    }
    let x = o1[a] as int;
    let y = o2[a] as int;
    if x != y {
        lemma_key_less_total(ranks, texts, x, y);
        lemma_key_less_asymmetric(ranks, texts, x, y);
        if key_less(ranks, texts, x, y) {
            lemma_arrangement_covers(o2, n, x);
            let b = choose|k: int| 0 <= k < o2.len() && o2[k] == x;
            if b < a {
                assert(o1[b] == o2[b]);
                assert(o1[b] == o1[a]);
            } else {
                assert(key_less(ranks, texts, o2[a] as int, o2[b] as int));
            }
        } else {
            lemma_arrangement_covers(o1, n, y);
            let b = choose|k: int| 0 <= k < o1.len() && o1[k] == y;
            if b < a {
                assert(o1[b] == o2[b]);
                assert(o2[b] == o2[a]);
            } else {
                assert(key_less(ranks, texts, o1[a] as int, o1[b] as int));
            }
        }
    }
}

/// Two arrangements sorted by the same keys are the same: the order
/// `stable_order` computes is the only one.
pub proof fn lemma_sorted_arrangement_unique(
    o1: Seq<usize>,
    o2: Seq<usize>,
    ranks: Seq<i128>,
    texts: Seq<Seq<char>>,
    n: int,
)
    requires
        is_arrangement(o1, n),
        is_arrangement(o2, n),
        sorted_by_key(o1, ranks, texts),
        sorted_by_key(o2, ranks, texts),
    ensures
        o1 == o2,
{
    if n > 0 {
        lemma_sorted_prefix_equal(o1, o2, ranks, texts, n, n - 1);
    }
    assert(o1 =~= o2);
}

} // verus!
