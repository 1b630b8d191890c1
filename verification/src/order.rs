//! The order of paths, component by component, and a stable sort by it.
use vstd::prelude::*;

use crate::components::{components, get_components};
use crate::text::{chars_of, texts};

verus! {

/// -1, 0 or 1 as `a` stands before, at or behind `b` by character values.
pub open spec fn text_order(a: Seq<char>, b: Seq<char>) -> int
    decreases a.len(),
{
    if a.len() == 0 && b.len() == 0 {
        0
    } else if a.len() == 0 {
        -1
    } else if b.len() == 0 {
        1
    } else if a[0] < b[0] {
        -1
    } else if b[0] < a[0] {
        1
    } else {
        text_order(a.skip(1), b.skip(1))
    }
}

/// The root stands before `.`, that before `..`, and that before every name.
pub open spec fn part_rank(p: Seq<char>) -> int {
    if p == seq!['/'] {
        0
    } else if p == seq!['.'] {
        1
    } else if p == seq!['.', '.'] {
        2
    } else {
        3
    }
}

/// The order of two components.
pub open spec fn part_order(p: Seq<char>, q: Seq<char>) -> int {
    if part_rank(p) < part_rank(q) {
        -1
    } else if part_rank(q) < part_rank(p) {
        1
    } else {
        text_order(p, q)
    }
}

/// The order of two rows of components: by the first that differs, a shorter row first.
pub open spec fn parts_order(a: Seq<Seq<char>>, b: Seq<Seq<char>>) -> int
    decreases a.len(),
{
    if a.len() == 0 && b.len() == 0 {
        0
    } else if a.len() == 0 {
        -1
    } else if b.len() == 0 {
        1
    } else if part_order(a[0], b[0]) != 0 {
        part_order(a[0], b[0])
    } else {
        parts_order(a.skip(1), b.skip(1))
    }
}

/// The order of two paths.
pub open spec fn path_order(s: Seq<char>, t: Seq<char>) -> int {
    parts_order(components(s), components(t))
}

// ---------------------------------------------------------------------------------------------
// The order is total
// ---------------------------------------------------------------------------------------------
proof fn lemma_text_order_flip(a: Seq<char>, b: Seq<char>)
    ensures
        text_order(b, a) == -text_order(a, b),
        -1 <= text_order(a, b) <= 1,
        text_order(a, b) == 0 <==> a == b,
    decreases a.len(),
{
    if a.len() > 0 && b.len() > 0 && a[0] == b[0] {
        lemma_text_order_flip(a.skip(1), b.skip(1));
        if text_order(a, b) == 0 {
            assert(a =~= seq![a[0]] + a.skip(1));
            assert(b =~= seq![b[0]] + b.skip(1));
        }
    } else if a.len() == 0 && b.len() == 0 {
        assert(a =~= b);
    }
}

proof fn lemma_text_order_chain(a: Seq<char>, b: Seq<char>, c: Seq<char>)
    requires
        text_order(a, b) <= 0,
        text_order(b, c) <= 0,
    ensures
        text_order(a, c) <= 0,
    decreases a.len(),
{
    if a.len() > 0 && b.len() > 0 && c.len() > 0 && a[0] == b[0] && b[0] == c[0] {
        lemma_text_order_chain(a.skip(1), b.skip(1), c.skip(1));
    }
}

proof fn lemma_part_order_flip(p: Seq<char>, q: Seq<char>)
    ensures
        part_order(q, p) == -part_order(p, q),
        -1 <= part_order(p, q) <= 1,
        part_order(p, q) == 0 <==> p == q,
{
    lemma_text_order_flip(p, q);
}

proof fn lemma_part_order_chain(p: Seq<char>, q: Seq<char>, r: Seq<char>)
    requires
        part_order(p, q) <= 0,
        part_order(q, r) <= 0,
    ensures
        part_order(p, r) <= 0,
{
    if part_rank(p) == part_rank(q) && part_rank(q) == part_rank(r) {
        lemma_text_order_chain(p, q, r);
    }
}

proof fn lemma_parts_order_flip(a: Seq<Seq<char>>, b: Seq<Seq<char>>)
    ensures
        parts_order(b, a) == -parts_order(a, b),
        -1 <= parts_order(a, b) <= 1,
        parts_order(a, b) == 0 <==> a == b,
    decreases a.len(),
{
    if a.len() > 0 && b.len() > 0 {
        lemma_part_order_flip(a[0], b[0]);
        if part_order(a[0], b[0]) == 0 {
            lemma_parts_order_flip(a.skip(1), b.skip(1));
            if parts_order(a, b) == 0 {
                assert(a =~= seq![a[0]] + a.skip(1));
                assert(b =~= seq![b[0]] + b.skip(1));
            }
        }
    } else if a.len() == 0 && b.len() == 0 {
        assert(a =~= b);
    }
}

proof fn lemma_parts_order_chain(a: Seq<Seq<char>>, b: Seq<Seq<char>>, c: Seq<Seq<char>>)
    requires
        parts_order(a, b) <= 0,
        parts_order(b, c) <= 0,
    ensures
        parts_order(a, c) <= 0,
    decreases a.len(),
{
    if a.len() > 0 && b.len() > 0 && c.len() > 0 {
        lemma_part_order_flip(a[0], b[0]);
        lemma_part_order_flip(b[0], c[0]);
        lemma_part_order_flip(a[0], c[0]);
        lemma_part_order_chain(a[0], b[0], c[0]);
        if a[0] == b[0] && b[0] == c[0] {
            lemma_parts_order_chain(a.skip(1), b.skip(1), c.skip(1));
        } else if a[0] == c[0] {
            // Then b[0] differs from both, and stands both before and behind the same component.
            assert(part_order(b[0], a[0]) == -part_order(a[0], b[0]));
        }
    }
}

/// Two paths are ordered one way or the other, and equally only when their components agree.
pub proof fn path_order_is_total(s: Seq<char>, t: Seq<char>)
    ensures
        path_order(t, s) == -path_order(s, t),
        -1 <= path_order(s, t) <= 1,
        path_order(s, t) == 0 <==> components(s) == components(t),
{
    lemma_parts_order_flip(components(s), components(t));
}

/// The order of paths chains.
pub proof fn path_order_is_transitive(s: Seq<char>, t: Seq<char>, u: Seq<char>)
    requires
        path_order(s, t) <= 0,
        path_order(t, u) <= 0,
    ensures
        path_order(s, u) <= 0,
{
    lemma_parts_order_chain(components(s), components(t), components(u));
}

// ---------------------------------------------------------------------------------------------
// Deciding it
// ---------------------------------------------------------------------------------------------
fn order_texts(a: &str, b: &str) -> (r: i8)
    ensures
        r == text_order(a@, b@),
{
    let x: Vec<char> = chars_of(a);
    let y: Vec<char> = chars_of(b);
    let mut i: usize = 0;
    assert(a@.skip(0) =~= a@ && b@.skip(0) =~= b@);
    while i < x.len() && i < y.len()
        invariant
            x@ == a@,
            y@ == b@,
            i <= x@.len(),
            i <= y@.len(),
            text_order(a@, b@) == text_order(a@.skip(i as int), b@.skip(i as int)),
        decreases x@.len() - i,
    {
        proof {
            assert(a@.skip(i as int).skip(1) =~= a@.skip(i + 1));
            assert(b@.skip(i as int).skip(1) =~= b@.skip(i + 1));
        }
        if x[i] < y[i] {
            return -1;
        }
        if y[i] < x[i] {
            return 1;
        }
        i += 1;
    }
    if x.len() == y.len() {
        0
    } else if i == x.len() {
        -1
    } else {
        1
    }
}

fn rank_of(p: &str) -> (r: u8)
    ensures
        r == part_rank(p@),
{
    let c: Vec<char> = chars_of(p);
    let r: u8 = if c.len() == 1 && c[0] == '/' {
        assert(p@ =~= seq!['/']);
        0
    } else if c.len() == 1 && c[0] == '.' {
        assert(p@ =~= seq!['.']);
        1
    } else if c.len() == 2 && c[0] == '.' && c[1] == '.' {
        assert(p@ =~= seq!['.', '.']);
        2
    } else {
        3
    };
    proof {
        assert(seq!['/'].len() == 1 && seq!['.'].len() == 1 && seq!['.', '.'].len() == 2);
        assert(seq!['/'][0] == '/' && seq!['.'][0] == '.');
        assert(seq!['.', '.'][0] == '.' && seq!['.', '.'][1] == '.');
    }
    r
}

fn order_parts(a: &Vec<String>, b: &Vec<String>) -> (r: i8)
    ensures
        r == parts_order(texts(a@), texts(b@)),
{
    let ghost ta = texts(a@);
    let ghost tb = texts(b@);
    let mut i: usize = 0;
    assert(ta.skip(0) =~= ta && tb.skip(0) =~= tb);
    while i < a.len() && i < b.len()
        invariant
            ta == texts(a@),
            tb == texts(b@),
            i <= a@.len(),
            i <= b@.len(),
            parts_order(ta, tb) == parts_order(ta.skip(i as int), tb.skip(i as int)),
        decreases a@.len() - i,
    {
        proof {
            assert(ta.skip(i as int)[0] == a@[i as int]@);
            assert(tb.skip(i as int)[0] == b@[i as int]@);
            assert(ta.skip(i as int).skip(1) =~= ta.skip(i + 1));
            assert(tb.skip(i as int).skip(1) =~= tb.skip(i + 1));
        }
        let x: u8 = rank_of(&a[i]);
        let y: u8 = rank_of(&b[i]);
        if x < y {
            return -1;
        }
        if y < x {
            return 1;
        }
        let o: i8 = order_texts(&a[i], &b[i]);
        if o != 0 {
            return o;
        }
        i += 1;
    }
    if a.len() == b.len() {
        0
    } else if i == a.len() {
        -1
    } else {
        1
    }
}

/// The order of two paths.
pub fn order_paths(s: &str, t: &str) -> (r: i8)
    ensures
        r == path_order(s@, t@),
{
    let a: Vec<String> = get_components(s);
    let b: Vec<String> = get_components(t);
    order_parts(&a, &b)
}

// ---------------------------------------------------------------------------------------------
// Sorting
// ---------------------------------------------------------------------------------------------
/// No path stands before one in front of it.
pub open spec fn is_sorted(s: Seq<Seq<char>>) -> bool {
    forall|i: int, j: int| 0 <= i < j < s.len() ==> path_order(#[trigger] s[i], #[trigger] s[j]) <= 0
}

/// The paths of `s` that are ordered as `x` is, in the order in which they stand.
pub open spec fn class_of(s: Seq<Seq<char>>, x: Seq<char>) -> Seq<Seq<char>> {
    s.filter(|y: Seq<char>| path_order(y, x) == 0)
}

/// `r` holds the paths of `s` in order, and paths of equal order as they stood.
pub open spec fn is_stable_sort_of(r: Seq<Seq<char>>, s: Seq<Seq<char>>) -> bool {
    &&& is_sorted(r)
    &&& r.to_multiset() == s.to_multiset()
    &&& forall|x: Seq<char>| #[trigger] class_of(r, x) == class_of(s, x)
}

proof fn lemma_insert_keeps_sort(
    r: Seq<Seq<char>>,
    s: Seq<Seq<char>>,
    x: Seq<char>,
    p: int,
)
    requires
        is_stable_sort_of(r, s),
        0 <= p <= r.len(),
        forall|i: int| 0 <= i < p ==> path_order(#[trigger] r[i], x) <= 0,
        forall|i: int| p <= i < r.len() ==> path_order(#[trigger] r[i], x) > 0,
    ensures
        is_stable_sort_of(r.insert(p, x), s.push(x)),
{
    let n = r.insert(p, x);
    let front = r.take(p);
    let back = r.skip(p);
    assert(r =~= front + back);
    assert(n =~= front.push(x) + back);
    assert forall|i: int, j: int| 0 <= i < j < n.len() implies path_order(
        #[trigger] n[i],
        #[trigger] n[j],
    ) <= 0 by {
        let a = if i < p {
            r[i]
        } else if i == p {
            x
        } else {
            r[i - 1]
        };
        let b = if j < p {
            r[j]
        } else if j == p {
            x
        } else {
            r[j - 1]
        };
        assert(n[i] == a && n[j] == b);
        if i == p {
            assert(path_order(r[j - 1], x) > 0);
            path_order_is_total(r[j - 1], x);
        }
    }
    broadcast use vstd::seq_lib::group_to_multiset_ensures;

    r.insert_ensures(p, x);
    assert(n.to_multiset() =~= r.to_multiset().insert(x));
    assert(s.push(x).to_multiset() =~= s.to_multiset().insert(x));
    assert forall|z: Seq<char>| #[trigger] class_of(n, z) == class_of(s.push(x), z) by {
        let pred = |y: Seq<char>| path_order(y, z) == 0;
        Seq::filter_distributes_over_add(front, back, pred);
        Seq::filter_distributes_over_add(front.push(x), back, pred);
        front.lemma_filter_push(x, pred);
        s.lemma_filter_push(x, pred);
        assert(class_of(r, z) == class_of(s, z));
        assert(r.filter(pred) == front.filter(pred) + back.filter(pred));
        if pred(x) {
            assert forall|i: int| 0 <= i < back.len() implies !pred(#[trigger] back[i]) by {
                assert(back[i] == r[p + i]);
                assert(path_order(r[p + i], x) > 0);
                if path_order(back[i], z) == 0 {
                    path_order_is_total(x, z);
                    path_order_is_transitive(back[i], z, x);
                }
            }
            lemma_filter_none(back, pred);
            assert(n.filter(pred) =~= front.filter(pred).push(x));
            assert(r.filter(pred) =~= front.filter(pred));
        } else {
            assert(n.filter(pred) =~= r.filter(pred));
        }
    }
}

proof fn lemma_filter_none(s: Seq<Seq<char>>, pred: spec_fn(Seq<char>) -> bool)
    requires
        forall|i: int| 0 <= i < s.len() ==> !pred(#[trigger] s[i]),
    ensures
        s.filter(pred) == Seq::<Seq<char>>::empty(),
    decreases s.len(),
{
    reveal(Seq::filter);
    if s.len() > 0 {
        let t = s.drop_last();
        assert forall|i: int| 0 <= i < t.len() implies !pred(#[trigger] t[i]) by {
            assert(t[i] == s[i]);
        }
        lemma_filter_none(t, pred);
        assert(!pred(s.last()));
    }
}

/// The position in a sorted list behind every path that stands before `x` or with it.
fn place_for(sorted: &Vec<String>, x: &str) -> (p: usize)
    requires
        is_sorted(texts(sorted@)),
    ensures
        p <= sorted@.len(),
        forall|i: int| 0 <= i < p ==> path_order(#[trigger] texts(sorted@)[i], x@) <= 0,
        forall|i: int| p <= i < sorted@.len() ==> path_order(#[trigger] texts(sorted@)[i], x@) > 0,
{
    let ghost t = texts(sorted@);
    let mut lo: usize = 0;
    let mut hi: usize = sorted.len();
    while lo < hi
        invariant
            t == texts(sorted@),
            is_sorted(t),
            lo <= hi <= sorted@.len(),
            forall|i: int| 0 <= i < lo ==> path_order(#[trigger] t[i], x@) <= 0,
            forall|i: int| hi <= i < t.len() ==> path_order(#[trigger] t[i], x@) > 0,
        decreases hi - lo,
    {
        let mid: usize = lo + (hi - lo) / 2;
        assert(t[mid as int] == sorted@[mid as int]@);
        if order_paths(&sorted[mid], x) <= 0 {
            assert forall|i: int| 0 <= i < mid + 1 implies path_order(#[trigger] t[i], x@) <= 0 by {
                if i < mid {
                    assert(path_order(t[i], t[mid as int]) <= 0);
                    path_order_is_transitive(t[i], t[mid as int], x@);
                }
            }
            lo = mid + 1;
        } else {
            assert forall|i: int| mid <= i < t.len() implies path_order(#[trigger] t[i], x@) > 0 by {
                if mid < i && path_order(t[i], x@) <= 0 {
                    assert(path_order(t[mid as int], t[i]) <= 0);
                    path_order_is_transitive(t[mid as int], t[i], x@);
                }
            }
            hi = mid;
        }
    }
    lo
}

/// The paths in order; paths of equal order stay as they stood.
pub fn sort_paths(list: &Vec<String>) -> (r: Vec<String>)
    ensures
        is_stable_sort_of(texts(r@), texts(list@)),
{
    let ghost all = texts(list@);
    let mut out: Vec<String> = Vec::new();
    let mut i: usize = 0;
    proof {
        assert(texts(out@) =~= Seq::<Seq<char>>::empty());
        assert(all.take(0) =~= Seq::<Seq<char>>::empty());
    }
    while i < list.len()
        invariant
            all == texts(list@),
            i <= list@.len(),
            is_stable_sort_of(texts(out@), all.take(i as int)),
        decreases list@.len() - i,
    {
        let x: String = list[i].clone();
        let p: usize = place_for(&out, &x);
        proof {
            lemma_insert_keeps_sort(texts(out@), all.take(i as int), x@, p as int);
            assert(texts(out@.insert(p as int, x)) =~= texts(out@).insert(p as int, x@));
            assert(all.take(i as int).push(x@) =~= all.take(i + 1));
        }
        out.insert(p, x);
        i += 1;
    }
    assert(all.take(i as int) =~= all);
    out
}

/// Two texts are ordered by the first character in which they differ, and a text stands before
/// every longer one that starts with it.
pub proof fn texts_are_ordered_by_their_first_difference(
    p: Seq<char>,
    a: char,
    x: Seq<char>,
    b: char,
    y: Seq<char>,
)
    ensures
        a < b ==> text_order(p + seq![a] + x, p + seq![b] + y) == -1 && text_order(
            p + seq![b] + y,
            p + seq![a] + x,
        ) == 1,
        text_order(p, p + seq![a] + x) == -1,
        text_order(p + seq![a] + x, p) == 1,
        text_order(p, p) == 0,
    decreases p.len(),
{
    let s = p + seq![a] + x;
    let t = p + seq![b] + y;
    if p.len() == 0 {
        assert(s[0] == a && t[0] == b);
    } else {
        let q = p.skip(1);
        texts_are_ordered_by_their_first_difference(q, a, x, b, y);
        assert(s[0] == p[0] && t[0] == p[0]);
        assert(s.skip(1) =~= q + seq![a] + x);
        assert(t.skip(1) =~= q + seq![b] + y);
    }
}

/// Two paths are ordered by the first component in which they differ: the root stands first, then
/// the current directory, then the one above, then the names as texts. A path stands before all
/// that lies below it.
pub proof fn paths_are_ordered_by_their_first_difference(
    s: Seq<char>,
    t: Seq<char>,
    p: Seq<Seq<char>>,
    a: Seq<char>,
    x: Seq<Seq<char>>,
    b: Seq<char>,
    y: Seq<Seq<char>>,
)
    requires
        components(s) == p + seq![a] + x,
    ensures
        components(t) == p ==> path_order(t, s) == -1,
        components(t) == p + seq![b] + y && a != b ==> {
            let special = set![seq!['/'], seq!['.'], seq!['.', '.']];
            &&& a == seq!['/'] ==> path_order(s, t) == -1
            &&& a == seq!['.'] && b != seq!['/'] ==> path_order(s, t) == -1
            &&& a == seq!['.', '.'] && !special.contains(b) ==> path_order(s, t) == -1
            &&& !special.contains(a) && !special.contains(b) ==> path_order(s, t) == text_order(
                a,
                b,
            )
        },
{
    assert(seq!['/'][0] == '/' && seq!['.'][0] == '.');
    assert(seq!['.'].len() == 1 && seq!['.', '.'].len() == 2);
    lemma_common_front(p, seq![a] + x, seq![b] + y);
    lemma_common_front(p, Seq::empty(), seq![a] + x);
    assert(p + (seq![a] + x) =~= components(s));
    assert(p + Seq::<Seq<char>>::empty() =~= p);
    assert((seq![a] + x)[0] == a && (seq![b] + y)[0] == b);
    assert(p + (seq![b] + y) =~= p + seq![b] + y);
    lemma_text_order_flip(a, b);
}

proof fn lemma_common_front(p: Seq<Seq<char>>, a: Seq<Seq<char>>, b: Seq<Seq<char>>)
    ensures
        parts_order(p + a, p + b) == parts_order(a, b),
    decreases p.len(),
{
    if p.len() == 0 {
        assert(p + a =~= a && p + b =~= b);
    } else {
        assert((p + a)[0] == p[0] && (p + b)[0] == p[0]);
        assert((p + a).skip(1) =~= p.skip(1) + a);
        assert((p + b).skip(1) =~= p.skip(1) + b);
        lemma_part_order_flip(p[0], p[0]);
        lemma_common_front(p.skip(1), a, b);
    }
}

/// Sorted paths are the given ones, each as often; none stands before one in front of it; and those
/// whose components agree stand as they stood.
pub proof fn sorting_keeps_equal_paths_as_they_stood(
    r: Seq<Seq<char>>,
    s: Seq<Seq<char>>,
    x: Seq<char>,
    i: int,
    j: int,
)
    requires
        is_stable_sort_of(r, s),
    ensures
        r.to_multiset().count(x) == s.to_multiset().count(x),
        0 <= i < j < r.len() ==> path_order(r[i], r[j]) == -1 || components(r[i]) == components(
            r[j],
        ),
        r.filter(|y: Seq<char>| components(y) == components(x)) == s.filter(
            |y: Seq<char>| components(y) == components(x),
        ),
{
    let p = |y: Seq<char>| components(y) == components(x);
    let q = |y: Seq<char>| path_order(y, x) == 0;
    assert forall|y: Seq<char>| #[trigger] p(y) == q(y) by {
        path_order_is_total(y, x);
    }
    assert(p =~= q);
    assert(class_of(r, x) == class_of(s, x));
    if 0 <= i < j < r.len() {
        path_order_is_total(r[i], r[j]);
    }
}

} // verus!
