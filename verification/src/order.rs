//! Stable ordering of records by a key: the order that std's stable
//! `sort_by` produces, given as the permutation of positions that it applies.
//!
//! Keys are sequences of integers compared lexicographically, a shorter
//! sequence coming before every longer one that extends it.  This covers
//! integer keys (one element), pairs of integers, and strings (their code
//! points, which order exactly as `String`'s `Ord` does).
use vstd::prelude::*;

verus! {

/// `a` comes strictly before `b` in lexicographic order.
pub open spec fn lex_lt(a: Seq<i128>, b: Seq<i128>) -> bool
    decreases a.len(),
{
    if a.len() == 0 {
        b.len() > 0
    } else if b.len() == 0 {
        false
    } else if a[0] < b[0] {
        true
    } else if a[0] > b[0] {
        false
    } else {
        lex_lt(a.drop_first(), b.drop_first())
    }
}

/// Lexicographic order is irreflexive and total.
pub proof fn lemma_lex_total(a: Seq<i128>, b: Seq<i128>)
    ensures
        !lex_lt(a, a),
        a != b ==> (lex_lt(a, b) || lex_lt(b, a)),
        !(lex_lt(a, b) && lex_lt(b, a)),
    decreases a.len(),
{
    if a.len() > 0 && b.len() > 0 {
        lemma_lex_total(a.drop_first(), b.drop_first());
        lemma_lex_total(a.drop_first(), a.drop_first());
        if a != b && a[0] == b[0] {
            assert(a.drop_first() != b.drop_first()) by {
                if a.drop_first() == b.drop_first() {
                    assert(a =~= seq![a[0]] + a.drop_first());
                    assert(b =~= seq![b[0]] + b.drop_first());
                }
            }
        }
    } else if a.len() > 0 {
        lemma_lex_total(a.drop_first(), a.drop_first());
    } else if b.len() == 0 {
        assert(a =~= b);
    }
}

/// Lexicographic order is transitive.
pub proof fn lemma_lex_trans(a: Seq<i128>, b: Seq<i128>, c: Seq<i128>)
    requires
        lex_lt(a, b),
        lex_lt(b, c),
    ensures
        lex_lt(a, c),
    decreases a.len(),
{
    if a.len() > 0 && b.len() > 0 && c.len() > 0 {
        if a[0] == b[0] && b[0] == c[0] {
            lemma_lex_trans(a.drop_first(), b.drop_first(), c.drop_first());
        }
    }
}

/// The keys as sequences.
pub open spec fn keys_view(keys: Seq<Vec<i128>>) -> Seq<Seq<i128>> {
    keys.map_values(|k: Vec<i128>| k@)
}

/// Position `i` comes before position `j` in the stable order of `keys`
/// (descending keys when `desc`): by key, and by position among equal keys.
pub open spec fn key_before(keys: Seq<Seq<i128>>, desc: bool, i: int, j: int) -> bool {
    if keys[i] == keys[j] {
        i < j
    } else if desc {
        lex_lt(keys[j], keys[i])
    } else {
        lex_lt(keys[i], keys[j])
    }
}

/// `p` lists every position of `keys` once, in stable order.
pub open spec fn is_stable_order(keys: Seq<Seq<i128>>, desc: bool, p: Seq<usize>) -> bool {
    &&& p.len() == keys.len()
    &&& forall|a: int| 0 <= a < p.len() ==> #[trigger] p[a] < keys.len()
    &&& forall|a: int, b: int|
        0 <= a < b < p.len() ==> key_before(keys, desc, #[trigger] p[a] as int, #[trigger] p[b] as int)
    &&& forall|m: int| 0 <= m < keys.len() ==> #[trigger] p.contains(m as usize)
}

/// `key_before` is a strict total order on positions.
proof fn lemma_before_order(keys: Seq<Seq<i128>>, desc: bool, i: int, j: int, k: int)
    ensures
        !key_before(keys, desc, i, i),
        i != j ==> (key_before(keys, desc, i, j) || key_before(keys, desc, j, i)),
        !(key_before(keys, desc, i, j) && key_before(keys, desc, j, i)),
        key_before(keys, desc, i, j) && key_before(keys, desc, j, k) ==> key_before(
            keys,
            desc,
            i,
            k,
        ),
{
    lemma_lex_total(keys[i], keys[j]);
    lemma_lex_total(keys[j], keys[k]);
    lemma_lex_total(keys[i], keys[k]);
    lemma_lex_total(keys[i], keys[i]);
    if key_before(keys, desc, i, j) && key_before(keys, desc, j, k) {
        if keys[i] != keys[j] && keys[j] != keys[k] {
            if desc {
                lemma_lex_trans(keys[k], keys[j], keys[i]);
            } else {
                lemma_lex_trans(keys[i], keys[j], keys[k]);
            }
        }
    }
}

/// The stable order of `keys` (descending when `desc`).  There is exactly one
/// (see [`lemma_stable_order_unique`] and [`stable_order`]).
pub open spec fn sorted_order(keys: Seq<Seq<i128>>, desc: bool) -> Seq<usize> {
    choose|p: Seq<usize>| is_stable_order(keys, desc, p)
}

/// Two stable orders agree on their first `a` positions.
proof fn lemma_prefix_agree(keys: Seq<Seq<i128>>, desc: bool, p1: Seq<usize>, p2: Seq<usize>, a: int)
    requires
        is_stable_order(keys, desc, p1),
        is_stable_order(keys, desc, p2),
        0 <= a <= p1.len(),
    ensures
        forall|i: int| 0 <= i < a ==> p1[i] == p2[i],
    decreases a,
{
    if a > 0 {
        lemma_prefix_agree(keys, desc, p1, p2, a - 1);
        let k = a - 1;
        let x = p1[k];
        let y = p2[k];
        if x != y {
            assert(p1.contains(y)) by {
                assert(p2[k] < keys.len());
                assert(p1.contains((y as int) as usize));
            }
            assert(p2.contains(x)) by {
                assert(p1[k] < keys.len());
                assert(p2.contains((x as int) as usize));
            }
            let b = choose|b: int| 0 <= b < p1.len() && p1[b] == y;
            let c = choose|c: int| 0 <= c < p2.len() && p2[c] == x;
            lemma_before_order(keys, desc, x as int, y as int, 0);
            lemma_before_order(keys, desc, y as int, y as int, 0);
            lemma_before_order(keys, desc, x as int, x as int, 0);
            if b < k {
                assert(p1[b] == p2[b]);
                assert(key_before(keys, desc, p2[b] as int, p2[k] as int));
            } else if c < k {
                assert(p2[c] == p1[c]);
                assert(key_before(keys, desc, p1[c] as int, p1[k] as int));
            } else {
                assert(key_before(keys, desc, p1[k] as int, p1[b] as int));
                assert(key_before(keys, desc, p2[k] as int, p2[c] as int));
            }
        }
    }
}

/// A stable sort is deterministic: there is at most one stable order of a
/// sequence of keys.
pub proof fn lemma_stable_order_unique(keys: Seq<Seq<i128>>, desc: bool, p1: Seq<usize>, p2: Seq<usize>)
    requires
        is_stable_order(keys, desc, p1),
        is_stable_order(keys, desc, p2),
    ensures
        p1 == p2,
{
    lemma_prefix_agree(keys, desc, p1, p2, p1.len() as int);
    assert(p1 =~= p2);
}

/// `p` lists the positions below `m` once each, in stable order.
pub open spec fn orders_prefix(keys: Seq<Seq<i128>>, desc: bool, p: Seq<usize>, m: int) -> bool {
    &&& p.len() == m
    &&& forall|a: int| 0 <= a < p.len() ==> #[trigger] p[a] < m
    &&& forall|a: int, b: int|
        0 <= a < b < p.len() ==> key_before(keys, desc, #[trigger] p[a] as int, #[trigger] p[b] as int)
    &&& forall|k: int| 0 <= k < m ==> #[trigger] p.contains(k as usize)
}

/// The first position of `p` whose record comes after record `x` (the
/// length of `p` when there is none).
pub open spec fn insertion_point(keys: Seq<Seq<i128>>, desc: bool, p: Seq<usize>, x: int) -> int
    decreases p.len(),
{
    if p.len() == 0 {
        0
    } else if key_before(keys, desc, x, p[0] as int) {
        0
    } else {
        1 + insertion_point(keys, desc, p.drop_first(), x)
    }
}

/// The insertion point is the first position whose record comes after `x`.
proof fn lemma_insertion_point(keys: Seq<Seq<i128>>, desc: bool, p: Seq<usize>, x: int)
    ensures
        0 <= insertion_point(keys, desc, p, x) <= p.len(),
        forall|a: int| 0 <= a < insertion_point(keys, desc, p, x) ==> !key_before(keys, desc, x, #[trigger] p[a] as int),
        insertion_point(keys, desc, p, x) < p.len() ==> key_before(
            keys,
            desc,
            x,
            p[insertion_point(keys, desc, p, x)] as int,
        ),
    decreases p.len(),
{
    if p.len() > 0 && !key_before(keys, desc, x, p[0] as int) {
        lemma_insertion_point(keys, desc, p.drop_first(), x);
        let ip = insertion_point(keys, desc, p, x);
        assert forall|a: int| 0 <= a < ip implies !key_before(keys, desc, x, #[trigger] p[a] as int) by {
            if a > 0 {
                assert(p[a] == p.drop_first()[a - 1]);
            }
        }
        if ip < p.len() {
            assert(p[ip] == p.drop_first()[ip - 1]);
        }
    }
}

/// Every prefix of the positions has a stable order: insert each next
/// position before the first one whose record comes after it.
proof fn lemma_prefix_order_exists(keys: Seq<Seq<i128>>, desc: bool, m: int)
    requires
        0 <= m <= keys.len(),
        keys.len() <= usize::MAX,
    ensures
        exists|p: Seq<usize>| orders_prefix(keys, desc, p, m),
    decreases m,
{
    if m == 0 {
        assert(orders_prefix(keys, desc, Seq::<usize>::empty(), 0));
    } else {
        let i = m - 1;
        lemma_prefix_order_exists(keys, desc, i);
        let old_p = choose|p: Seq<usize>| orders_prefix(keys, desc, p, i);
        let pos = insertion_point(keys, desc, old_p, i);
        lemma_insertion_point(keys, desc, old_p, i);
        let p = old_p.insert(pos, i as usize);
        assert forall|a: int| 0 <= a < p.len() implies #[trigger] p[a] < m by {
            if a < pos {
                assert(p[a] == old_p[a]);
            } else if a > pos {
                assert(p[a] == old_p[a - 1]);
            }
        }
        assert forall|a: int, b: int| 0 <= a < b < p.len() implies key_before(
            keys,
            desc,
            #[trigger] p[a] as int,
            #[trigger] p[b] as int,
        ) by {
            if a < pos && b == pos {
                assert(p[a] == old_p[a]);
                assert(!key_before(keys, desc, i, old_p[a] as int));
                lemma_before_order(keys, desc, i, old_p[a] as int, 0);
            } else if a == pos && b > pos {
                let q = old_p[b - 1] as int;
                assert(p[b] == old_p[b - 1]);
                if b - 1 == pos {
                } else {
                    assert(key_before(keys, desc, old_p[pos] as int, old_p[b - 1] as int));
                    lemma_before_order(keys, desc, i, old_p[pos] as int, q);
                }
            } else if a < pos && b > pos {
                assert(p[a] == old_p[a]);
                assert(p[b] == old_p[b - 1]);
                assert(key_before(keys, desc, old_p[a] as int, old_p[b - 1] as int));
            } else if b < pos {
                assert(p[a] == old_p[a]);
                assert(p[b] == old_p[b]);
            } else {
                assert(p[a] == old_p[a - 1]);
                assert(p[b] == old_p[b - 1]);
                assert(key_before(keys, desc, old_p[a - 1] as int, old_p[b - 1] as int));
            }
        }
        assert forall|k: int| 0 <= k < m implies #[trigger] p.contains(k as usize) by {
            if k == i {
                assert(p[pos] == i as usize);
            } else {
                assert(old_p.contains(k as usize));
                let j = choose|j: int| 0 <= j < old_p.len() && old_p[j] == k as usize;
                if j < pos {
                    assert(p[j] == k as usize);
                } else {
                    assert(p[j + 1] == k as usize);
                }
            }
        }
        assert(orders_prefix(keys, desc, p, m));
    }
}

/// Every sequence of keys (with positions that fit in `usize`) has a stable
/// order, so [`sorted_order`] is one.
pub proof fn lemma_sorted_order_exists(keys: Seq<Seq<i128>>, desc: bool)
    requires
        keys.len() <= usize::MAX,
    ensures
        is_stable_order(keys, desc, sorted_order(keys, desc)),
{
    lemma_prefix_order_exists(keys, desc, keys.len() as int);
    let p = choose|p: Seq<usize>| orders_prefix(keys, desc, p, keys.len() as int);
    assert(is_stable_order(keys, desc, p));
}

/// A stable order of `keys` is the stable order [`sorted_order`].
pub proof fn lemma_sorted_order_is(keys: Seq<Seq<i128>>, desc: bool, p: Seq<usize>)
    requires
        is_stable_order(keys, desc, p),
    ensures
        sorted_order(keys, desc) == p,
{
    lemma_stable_order_unique(keys, desc, p, sorted_order(keys, desc));
}

/// Whether `a` comes strictly before `b` lexicographically.
fn lex_less(a: &Vec<i128>, b: &Vec<i128>) -> (r: bool)
    ensures
        r == lex_lt(a@, b@),
{
    let mut i: usize = 0;
    assert(a@.skip(0) =~= a@);
    assert(b@.skip(0) =~= b@);
    while i < a.len() && i < b.len()
        invariant
            i <= a.len(),
            i <= b.len(),
            lex_lt(a@, b@) == lex_lt(a@.skip(i as int), b@.skip(i as int)),
        decreases a.len() - i,
    {
        let ghost sa = a@.skip(i as int);
        let ghost sb = b@.skip(i as int);
        assert(sa[0] == a@[i as int]);
        assert(sb[0] == b@[i as int]);
        if a[i] < b[i] {
            return true;
        }
        if a[i] > b[i] {
            return false;
        }
        assert(sa.drop_first() =~= a@.skip(i + 1));
        assert(sb.drop_first() =~= b@.skip(i + 1));
        i += 1;
    }
    i < b.len()
}

/// Whether `a` and `b` are equal.
fn keys_equal(a: &Vec<i128>, b: &Vec<i128>) -> (r: bool)
    ensures
        r == (a@ == b@),
{
    if a.len() != b.len() {
        return false;
    }
    let mut i: usize = 0;
    while i < a.len()
        invariant
            a.len() == b.len(),
            i <= a.len(),
            forall|k: int| 0 <= k < i ==> a@[k] == b@[k],
        decreases a.len() - i,
    {
        if a[i] != b[i] {
            return false;
        }
        i += 1;
    }
    assert(a@ =~= b@);
    true
}

/// Whether position `i` comes before position `j`.
fn before(keys: &Vec<Vec<i128>>, desc: bool, i: usize, j: usize) -> (r: bool)
    requires
        i < keys.len(),
        j < keys.len(),
    ensures
        r == key_before(keys_view(keys@), desc, i as int, j as int),
{
    if keys_equal(&keys[i], &keys[j]) {
        i < j
    } else if desc {
        lex_less(&keys[j], &keys[i])
    } else {
        lex_less(&keys[i], &keys[j])
    }
}

/// The stable order of `keys` (descending when `desc`): the positions in
/// the order in which a stable sort by key places the records they hold.
pub fn stable_order(keys: &Vec<Vec<i128>>, desc: bool) -> (p: Vec<usize>)
    ensures
        is_stable_order(keys_view(keys@), desc, p@),
        p@ == sorted_order(keys_view(keys@), desc),
{
    let ghost kv = keys_view(keys@);
    let n = keys.len();
    let mut p: Vec<usize> = Vec::new();
    let mut i: usize = 0;
    while i < n
        invariant
            n == keys.len(),
            kv == keys_view(keys@),
            i <= n,
            p@.len() == i,
            forall|a: int| 0 <= a < p@.len() ==> #[trigger] p@[a] < i,
            forall|a: int, b: int|
                0 <= a < b < p@.len() ==> key_before(kv, desc, #[trigger] p@[a] as int, #[trigger] p@[b] as int),
            forall|m: int| 0 <= m < i ==> #[trigger] p@.contains(m as usize),
        decreases n - i,
    {
        let mut pos: usize = 0;
        while pos < p.len() && !before(keys, desc, i, p[pos])
            invariant
                n == keys.len(),
                kv == keys_view(keys@),
                i < n,
                pos <= p@.len(),
                forall|a: int| 0 <= a < p@.len() ==> #[trigger] p@[a] < i,
                forall|a: int| 0 <= a < pos ==> !key_before(kv, desc, i as int, #[trigger] p@[a] as int),
            decreases p@.len() - pos,
        {
            pos += 1;
        }
        let ghost old_p = p@;
        p.insert(pos, i);
        assert(p@ =~= old_p.insert(pos as int, i));
        assert forall|a: int, b: int| 0 <= a < b < p@.len() implies key_before(
            kv,
            desc,
            #[trigger] p@[a] as int,
            #[trigger] p@[b] as int,
        ) by {
            if a < pos && b == pos {
                lemma_before_order(kv, desc, i as int, old_p[a] as int, 0);
            } else if a == pos && b > pos {
                let q = old_p[b - 1] as int;
                if b - 1 == pos {
                } else {
                    lemma_before_order(kv, desc, i as int, old_p[pos as int] as int, q);
                }
            } else if a < pos && b > pos {
                assert(key_before(kv, desc, old_p[a] as int, old_p[b - 1] as int));
            } else if b < pos {
            } else {
                assert(key_before(kv, desc, old_p[a - 1] as int, old_p[b - 1] as int));
            }
        }
        assert forall|m: int| 0 <= m < i + 1 implies #[trigger] p@.contains(m as usize) by {
            if m == i {
                assert(p@[pos as int] == i);
            } else {
                assert(old_p.contains(m as usize));
                let k = choose|k: int| 0 <= k < old_p.len() && old_p[k] == m as usize;
                if k < pos {
                    assert(p@[k] == m as usize);
                } else {
                    assert(p@[k + 1] == m as usize);
                }
            }
        }
        i += 1;
    }
    proof {
        lemma_stable_order_unique(kv, desc, p@, sorted_order(kv, desc));
    }
    p
}

} // verus!
