//! The components of a path: prefixes by component, and the order that sorts paths.
use vstd::prelude::*;

use crate::path::{join, joined, rooted};
use crate::text::{chars_of, part_of, same_text, texts, without};

verus! {

// ---------------------------------------------------------------------------------------------
// Components
// ---------------------------------------------------------------------------------------------
/// The stretches of text between separators, empty ones too.
pub open spec fn segments(s: Seq<char>) -> Seq<Seq<char>>
    decreases s.len(),
{
    if s.len() == 0 {
        seq![Seq::<char>::empty()]
    } else {
        let before = segments(s.drop_last());
        if s.last() == '/' {
            before.push(Seq::<char>::empty())
        } else {
            before.drop_last().push(before.last().push(s.last()))
        }
    }
}

/// The segments that count: not the empty ones, and a `.` only in front.
pub open spec fn counted(segs: Seq<Seq<char>>) -> Seq<Seq<char>>
    decreases segs.len(),
{
    if segs.len() == 0 {
        Seq::empty()
    } else {
        let before = counted(segs.drop_last());
        let x = segs.last();
        if x.len() > 0 && (x != seq!['.'] || segs.len() == 1) {
            before.push(x)
        } else {
            before
        }
    }
}

/// The components of a path, with `/` for the root.
pub open spec fn components(s: Seq<char>) -> Seq<Seq<char>> {
    if rooted(s) {
        seq![seq!['/']] + counted(segments(s))
    } else {
        counted(segments(s))
    }
}

/// Components spelled as a path.
pub open spec fn spelled(parts: Seq<Seq<char>>) -> Seq<char>
    decreases parts.len(),
{
    if parts.len() == 0 {
        Seq::empty()
    } else {
        joined(spelled(parts.drop_last()), parts.last())
    }
}

/// What is left of `path` behind the components of `prefix`, if it starts with them.
pub open spec fn strip_prefix(path: Seq<char>, prefix: Seq<char>) -> Option<Seq<char>> {
    let a = components(path);
    let b = components(prefix);
    if b.is_prefix_of(a) {
        Some(spelled(a.skip(b.len() as int)))
    } else {
        None
    }
}

// ---------------------------------------------------------------------------------------------
// Taking apart and putting together
// ---------------------------------------------------------------------------------------------
/// `x` is the name of one step: not empty, not `.`, and without a separator.
pub open spec fn is_step(x: Seq<char>) -> bool {
    &&& x.len() > 0
    &&& x != seq!['.']
    &&& forall|i: int| 0 <= i < x.len() ==> x[i] != '/'
}

proof fn lemma_segments(s: Seq<char>)
    ensures
        segments(s).len() > 0,
        forall|k: int, i: int|
            0 <= k < segments(s).len() && 0 <= i < segments(s)[k].len() ==> #[trigger] segments(
                s,
            )[k][i] != '/',
        rooted(s) ==> segments(s).len() > 1 && segments(s)[0].len() == 0,
        s.len() > 0 && s.last() == '/' ==> segments(s).last().len() == 0,
    decreases s.len(),
{
    if s.len() > 0 {
        let t = s.drop_last();
        lemma_segments(t);
        let before = segments(t);
        let now = segments(s);
        if s.len() > 1 {
            assert(t[0] == s[0]);
        }
        assert forall|k: int, i: int| 0 <= k < now.len() && 0 <= i < now[k].len() implies #[trigger] now[k][i]
            != '/' by {
            if k < before.len() - 1 {
                assert(now[k] == before[k]);
            } else if s.last() == '/' {
                if k == before.len() - 1 {
                    assert(now[k] == before[k]);
                }
            } else {
                assert(now[k] == before.last().push(s.last()));
                if i < before.last().len() {
                    assert(before[before.len() - 1][i] == now[k][i]);
                }
            }
        }
    }
}

/// Text without separators extends the last segment.
proof fn lemma_segments_extend(s: Seq<char>, x: Seq<char>)
    requires
        forall|i: int| 0 <= i < x.len() ==> x[i] != '/',
    ensures
        segments(s + x) == segments(s).drop_last().push(segments(s).last() + x),
    decreases x.len(),
{
    lemma_segments(s);
    if x.len() == 0 {
        assert(s + x =~= s);
        assert(segments(s).last() + x =~= segments(s).last());
        assert(segments(s) =~= segments(s).drop_last().push(segments(s).last()));
    } else {
        let y = x.drop_last();
        lemma_segments_extend(s, y);
        assert((s + x).drop_last() =~= s + y);
        assert((s + x).last() == x.last());
        let before = segments(s + y);
        assert(before.drop_last() =~= segments(s).drop_last());
        assert(before.last().push(x.last()) =~= segments(s).last() + x);
    }
}

/// A step joined to a path is its last component.
proof fn lemma_join_step(base: Seq<char>, x: Seq<char>)
    requires
        is_step(x),
    ensures
        components(joined(base, x)) == components(base).push(x),
{
    reveal_with_fuel(counted, 2);
    assert(!rooted(x));
    let s = joined(base, x);
    lemma_segments(base);
    if base.len() == 0 {
        assert(s =~= base + x);
        lemma_segments_extend(base, x);
        assert(segments(base).last() + x =~= x);
        assert(segments(s) =~= seq![x]);
        assert(segments(s).drop_last() =~= Seq::<Seq<char>>::empty());
        assert(counted(segments(s)) =~= seq![x]);
        assert(segments(base).drop_last() =~= Seq::<Seq<char>>::empty());
        assert(components(base) =~= Seq::<Seq<char>>::empty());
        assert(components(s) =~= components(base).push(x));
    } else {
        let head = if base.last() == '/' {
            base
        } else {
            base + seq!['/']
        };
        assert(s =~= head + x);
        assert(rooted(s) == rooted(base)) by {
            assert(s[0] == base[0]);
        }
        lemma_segments_extend(head, x);
        let front = if base.last() == '/' {
            segments(base).drop_last()
        } else {
            segments(base)
        };
        if base.last() != '/' {
            assert(head.drop_last() =~= base);
            assert(segments(head) == segments(base).push(Seq::<char>::empty()));
            assert(segments(head).drop_last() =~= segments(base));
        } else {
            assert(counted(segments(base)) == counted(front));
        }
        assert(segments(head).last() + x =~= x);
        assert(segments(s) == front.push(x));
        assert(front.push(x).drop_last() =~= front);
        assert(front.len() > 0) by {
            if base.last() == '/' && base.len() > 0 {
                lemma_segments(base.drop_last());
                assert(segments(base) == segments(base.drop_last()).push(Seq::<char>::empty()));
            }
        }
        assert(counted(segments(s)) == counted(segments(base)).push(x));
        assert(components(s) =~= components(base).push(x));
    }
}

/// Only the first component can be the root or `.`; the others are steps.
proof fn lemma_counted_are_steps(segs: Seq<Seq<char>>)
    requires
        forall|k: int, i: int|
            0 <= k < segs.len() && 0 <= i < segs[k].len() ==> #[trigger] segs[k][i] != '/',
    ensures
        forall|k: int| 1 <= k < counted(segs).len() ==> is_step(#[trigger] counted(segs)[k]),
        segs.len() > 0 && segs[0].len() == 0 && counted(segs).len() > 0 ==> is_step(
            counted(segs)[0],
        ),
        counted(segs).len() > 0 ==> counted(segs)[0].len() > 0 && forall|i: int|
            0 <= i < counted(segs)[0].len() ==> #[trigger] counted(segs)[0][i] != '/',
        counted(segs).len() <= segs.len(),
    decreases segs.len(),
{
    if segs.len() > 0 {
        let t = segs.drop_last();
        assert forall|k: int, i: int| 0 <= k < t.len() && 0 <= i < t[k].len() implies #[trigger] t[k][i]
            != '/' by {
            assert(t[k] == segs[k]);
        }
        lemma_counted_are_steps(t);
        let x = segs.last();
        assert forall|i: int| 0 <= i < x.len() implies x[i] != '/' by {
            assert(segs[segs.len() - 1][i] != '/');
        }
        if t.len() == 0 {
            assert(counted(t).len() == 0);
        }
    }
}

proof fn lemma_component_steps(s: Seq<char>)
    ensures
        forall|k: int| 1 <= k < components(s).len() ==> is_step(#[trigger] components(s)[k]),
        components(s).len() > 0 ==> {
            let x = components(s)[0];
            x == seq!['/'] || x == seq!['.'] || is_step(x)
        },
{
    lemma_segments(s);
    let segs = segments(s);
    assert forall|k: int, i: int| 0 <= k < segs.len() && 0 <= i < segs[k].len() implies #[trigger] segs[k][i]
        != '/' by {}
    lemma_counted_are_steps(segs);
    let parts = components(s);
    let kept = counted(segs);
    if rooted(s) {
        assert forall|k: int| 1 <= k < parts.len() implies is_step(#[trigger] parts[k]) by {
            assert(parts[k] == kept[k - 1]);
        }
    }
}

/// Joining a spelled row of steps appends them.
proof fn lemma_join_spelled(base: Seq<char>, parts: Seq<Seq<char>>)
    requires
        forall|k: int| 0 <= k < parts.len() ==> is_step(#[trigger] parts[k]),
    ensures
        components(joined(base, spelled(parts))) == components(base) + parts,
        !rooted(spelled(parts)),
        parts.len() > 0 ==> spelled(parts).len() > 0 && spelled(parts).last() != '/',
    decreases parts.len(),
{
    if parts.len() == 0 {
        lemma_join_nothing(base);
        assert(components(base) + parts =~= components(base));
    } else {
        let init = parts.drop_last();
        let x = parts.last();
        assert forall|k: int| 0 <= k < init.len() implies is_step(#[trigger] init[k]) by {
            assert(init[k] == parts[k]);
        }
        assert(is_step(parts[parts.len() - 1]));
        lemma_join_spelled(base, init);
        let q = spelled(init);
        if init.len() == 0 {
            assert(spelled(parts) =~= x);
            assert(joined(base, x) =~= joined(joined(base, q), x));
        } else {
            assert(spelled(parts) =~= q + seq!['/'] + x);
            assert(spelled(parts)[0] == q[0]);
            assert(joined(base, q).last() == q.last());
            assert(joined(base, spelled(parts)) =~= joined(joined(base, q), x));
        }
        lemma_join_step(joined(base, q), x);
        assert(components(base) + parts =~= (components(base) + init).push(x));
    }
}

proof fn lemma_join_nothing(base: Seq<char>)
    ensures
        components(joined(base, Seq::empty())) == components(base),
{
    let s = joined(base, Seq::<char>::empty());
    if base.len() == 0 || base.last() == '/' {
        assert(s =~= base);
    } else {
        assert(s =~= base + seq!['/']);
        assert(s.drop_last() =~= base);
        assert(segments(s) == segments(base).push(Seq::<char>::empty()));
        assert(segments(s).drop_last() =~= segments(base));
        assert(s[0] == base[0]);
    }
}

/// Where a prefix can be taken off a path, joining it on again gives a path with the same
/// components.
pub proof fn strip_then_join(path: Seq<char>, prefix: Seq<char>)
    requires
        strip_prefix(path, prefix) is Some,
    ensures
        components(joined(prefix, strip_prefix(path, prefix)->0)) == components(path),
{
    let a = components(path);
    let b = components(prefix);
    let rest = a.skip(b.len() as int);
    lemma_component_steps(path);
    if b.len() > 0 {
        assert forall|k: int| 0 <= k < rest.len() implies is_step(#[trigger] rest[k]) by {
            assert(rest[k] == a[b.len() + k]);
        }
        lemma_join_spelled(prefix, rest);
        assert(b + rest =~= a);
    } else {
        lemma_no_components(prefix);
        assert(rest =~= a);
        assert(joined(prefix, spelled(rest)) =~= spelled(rest));
        lemma_spelled_components(a);
    }
}

/// What is left of a path behind a prefix that is not empty can be joined to any base: the steps
/// behind the prefix then stand behind the base.
pub proof fn strip_then_move(path: Seq<char>, prefix: Seq<char>, base: Seq<char>)
    requires
        strip_prefix(path, prefix) is Some,
        components(prefix).len() > 0,
    ensures
        components(joined(base, strip_prefix(path, prefix)->0)) == components(base) + components(
            path,
        ).skip(components(prefix).len() as int),
{
    let a = components(path);
    let b = components(prefix);
    let rest = a.skip(b.len() as int);
    lemma_component_steps(path);
    assert forall|k: int| 0 <= k < rest.len() implies is_step(#[trigger] rest[k]) by {
        assert(rest[k] == a[b.len() + k]);
    }
    lemma_join_spelled(base, rest);
}

/// Only the empty path has no components.
proof fn lemma_no_components(s: Seq<char>)
    requires
        components(s).len() == 0,
    ensures
        s.len() == 0,
{
    if s.len() > 0 {
        assert(!rooted(s));
        lemma_first_segment(s);
    }
}

proof fn lemma_first_segment(s: Seq<char>)
    requires
        s.len() > 0,
        s[0] != '/',
    ensures
        segments(s)[0].len() > 0,
        counted(segments(s)).len() > 0,
    decreases s.len(),
{
    let t = s.drop_last();
    lemma_segments(t);
    if s.len() == 1 {
        assert(t =~= Seq::<char>::empty());
        assert(segments(s) =~= seq![seq![s[0]]]);
        assert(segments(s).drop_last() =~= Seq::<Seq<char>>::empty());
    } else {
        assert(t[0] == s[0]);
        lemma_first_segment(t);
        let before = segments(t);
        let now = segments(s);
        if s.last() == '/' {
            assert(now.drop_last() =~= before);
        } else {
            assert(now.drop_last() =~= before.drop_last());
            if before.len() == 1 {
                assert(now.drop_last() =~= Seq::<Seq<char>>::empty());
                assert(now.last().len() > 0);
            } else {
                assert(now[0] == before[0]);
                lemma_counted_front(now);
            }
        }
    }
}

proof fn lemma_counted_front(segs: Seq<Seq<char>>)
    requires
        segs.len() > 0,
        segs[0].len() > 0,
    ensures
        counted(segs).len() > 0,
    decreases segs.len(),
{
    if segs.len() > 1 {
        assert(segs.drop_last()[0] == segs[0]);
        lemma_counted_front(segs.drop_last());
    }
}

/// Spelling a path's components gives a path with those components.
proof fn lemma_spelled_components(parts: Seq<Seq<char>>)
    requires
        forall|k: int| 1 <= k < parts.len() ==> is_step(#[trigger] parts[k]),
        parts.len() > 0 ==> parts[0] == seq!['/'] || parts[0] == seq!['.'] || is_step(parts[0]),
    ensures
        components(spelled(parts)) == parts,
    decreases parts.len(),
{
    reveal_with_fuel(counted, 3);
    if parts.len() == 0 {
        let s = spelled(parts);
        assert(segments(s).drop_last() =~= Seq::<Seq<char>>::empty());
        assert(components(s) =~= parts);
    } else if parts.len() == 1 {
        let x = parts[0];
        assert(parts.drop_last() =~= Seq::<Seq<char>>::empty());
        assert(spelled(parts) =~= x);
        if is_step(x) {
            lemma_join_step(Seq::<char>::empty(), x);
            assert(joined(Seq::<char>::empty(), x) =~= x);
            lemma_spelled_components(Seq::<Seq<char>>::empty());
            assert(parts =~= Seq::<Seq<char>>::empty().push(x));
        } else {
            assert(x.drop_last() =~= Seq::<char>::empty());
            let e = Seq::<char>::empty();
            assert(segments(x.drop_last()) =~= seq![e]);
            if x == seq!['/'] {
                assert(segments(x) =~= seq![e, e]);
                assert(segments(x).drop_last() =~= seq![e]);
                assert(seq![e].drop_last() =~= Seq::<Seq<char>>::empty());
                assert(components(x) =~= parts);
            } else {
                assert(e.push('.') =~= x);
                assert(segments(x) =~= seq![x]);
                assert(segments(x).drop_last() =~= Seq::<Seq<char>>::empty());
                assert(components(x) =~= parts);
            }
        }
    } else {
        let init = parts.drop_last();
        assert forall|k: int| 1 <= k < init.len() implies is_step(#[trigger] init[k]) by {
            assert(init[k] == parts[k]);
        }
        assert(init[0] == parts[0]);
        lemma_spelled_components(init);
        assert(is_step(parts[parts.len() - 1]));
        lemma_join_step(spelled(init), parts.last());
        assert(parts =~= init.push(parts.last()));
    }
}

proof fn lemma_texts_push(list: Seq<String>, x: String)
    ensures
        texts(list.push(x)) == texts(list).push(x@),
{
    assert(texts(list.push(x)) =~= texts(list).push(x@));
}

/// Adds the segment of a path between two positions, if it counts.
fn push_segment(out: &mut Vec<String>, s: &str, from: usize, to: usize, first: bool)
    requires
        from <= to <= s@.len(),
    ensures
        ({
            let x = s@.subrange(from as int, to as int);
            texts(final(out)@) == if x.len() > 0 && (x != seq!['.'] || first) {
                texts(old(out)@).push(x)
            } else {
                texts(old(out)@)
            }
        }),
{
    let x: String = part_of(s, from, to);
    proof {
        reveal_strlit(".");
        assert("."@ =~= seq!['.']);
    }
    if from < to && (first || !same_text(&x, ".")) {
        out.push(x);
        proof {
            lemma_texts_push(old(out)@, x);
        }
    }
}

/// The components of a path, with `/` for the root.
pub fn get_components(s: &str) -> (r: Vec<String>)
    ensures
        texts(r@) == components(s@),
{
    let c: Vec<char> = chars_of(s);
    let len: usize = c.len();
    let mut out: Vec<String> = Vec::new();
    if len > 0 && c[0] == '/' {
        proof {
            reveal_strlit("/");
            assert("/"@ =~= seq!['/']);
        }
        out.push("/".to_owned());
    }
    let ghost root = texts(out@);
    let ghost mut done: Seq<Seq<char>> = Seq::empty();
    let mut first: bool = true;
    let mut from: usize = 0;
    let mut i: usize = 0;
    proof {
        assert(root =~= if rooted(s@) { seq![seq!['/']] } else { Seq::<Seq<char>>::empty() });
        assert(s@.take(0) =~= Seq::<char>::empty());
        assert(segments(s@.take(0)) =~= done.push(s@.subrange(0, 0)));
        assert(root + counted(done) =~= root);
    }
    while i < len
        invariant
            c@ == s@,
            len == c@.len(),
            from <= i <= len,
            first == (done.len() == 0),
            segments(s@.take(i as int)) == done.push(s@.subrange(from as int, i as int)),
            texts(out@) == root + counted(done),
        decreases len - i,
    {
        let ghost head = s@.take(i + 1);
        let ghost cur = s@.subrange(from as int, i as int);
        proof {
            assert(head.drop_last() =~= s@.take(i as int));
            assert(head.last() == s@[i as int]);
        }
        if c[i] == '/' {
            push_segment(&mut out, s, from, i, first);
            proof {
                let next = done.push(cur);
                assert(next.drop_last() =~= done);
                assert(texts(out@) =~= root + counted(next));
                done = next;
                assert(s@.subrange(i + 1, i + 1) =~= Seq::<char>::empty());
            }
            first = false;
            from = i + 1;
        } else {
            proof {
                let before = done.push(cur);
                assert(before.drop_last() =~= done);
                assert(before.last() == cur);
                assert(cur.push(s@[i as int]) =~= s@.subrange(from as int, i + 1));
            }
        }
        i += 1;
    }
    push_segment(&mut out, s, from, len, first);
    proof {
        let all = done.push(s@.subrange(from as int, len as int));
        assert(s@.take(len as int) =~= s@);
        assert(all.drop_last() =~= done);
        assert(texts(out@) =~= root + counted(all));
        assert(texts(out@) =~= components(s@));
    }
    out
}

/// Components from position `from` on, spelled as a path.
fn spell_from(parts: &Vec<String>, from: usize) -> (r: String)
    requires
        from <= parts@.len(),
    ensures
        r@ == spelled(texts(parts@).skip(from as int)),
{
    let ghost all = texts(parts@).skip(from as int);
    let mut out: String = String::new();
    let mut i: usize = from;
    assert(all.take(0) =~= Seq::<Seq<char>>::empty());
    while i < parts.len()
        invariant
            from <= i <= parts@.len(),
            all == texts(parts@).skip(from as int),
            out@ == spelled(all.take(i - from)),
        decreases parts@.len() - i,
    {
        proof {
            let k = i - from;
            assert(all.take(k + 1).drop_last() =~= all.take(k));
            assert(all.take(k + 1).last() == parts@[i as int]@);
        }
        out = join(&out, &parts[i]);
        i += 1;
    }
    assert(all.take(i - from) =~= all);
    out
}

/// What is left of `path` behind the components of `prefix`, if it starts with them.
pub fn without_prefix(path: &str, prefix: &str) -> (r: Option<String>)
    ensures
        match r {
            Some(rest) => strip_prefix(path@, prefix@) == Some(rest@),
            None => strip_prefix(path@, prefix@) is None,
        },
{
    let a: Vec<String> = get_components(path);
    let b: Vec<String> = get_components(prefix);
    let ghost ta = components(path@);
    let ghost tb = components(prefix@);
    if b.len() > a.len() {
        return None;
    }
    let mut i: usize = 0;
    while i < b.len()
        invariant
            ta == texts(a@),
            tb == texts(b@),
            ta == components(path@),
            tb == components(prefix@),
            i <= b@.len() <= a@.len(),
            forall|j: int| 0 <= j < i ==> ta[j] == #[trigger] tb[j],
        decreases b@.len() - i,
    {
        if !same_text(&a[i], &b[i]) {
            assert(ta.subrange(0, tb.len() as int)[i as int] != tb[i as int]);
            return None;
        }
        assert(ta[i as int] == tb[i as int]);
        i += 1;
    }
    assert(tb.is_prefix_of(ta)) by {
        assert(ta.subrange(0, tb.len() as int) =~= tb);
    }
    Some(spell_from(&a, b.len()))
}

/// The root is a component of its own; the empty path has none.
pub proof fn the_root_is_a_component()
    ensures
        components(Seq::empty()) == Seq::<Seq<char>>::empty(),
        components(seq!['/']) == seq![seq!['/']],
        components(seq!['.']) == seq![seq!['.']],
        components(seq!['/', '.']) == seq![seq!['/']],
{
    let none = Seq::<Seq<char>>::empty();
    lemma_spelled_components(none);
    let root = seq![seq!['/']];
    let dot = seq![seq!['.']];
    lemma_spelled_components(root);
    lemma_spelled_components(dot);
    assert(root.drop_last() =~= none);
    assert(dot.drop_last() =~= none);
    assert(spelled(root) =~= seq!['/']);
    assert(spelled(dot) =~= seq!['.']);
    let e = Seq::<char>::empty();
    let below = seq!['/', '.'];
    reveal_with_fuel(counted, 3);
    reveal_with_fuel(segments, 3);
    assert(below.drop_last() =~= seq!['/']);
    assert(seq!['/'].drop_last() =~= e);
    assert(segments(seq!['/']) =~= seq![e, e]);
    assert(segments(below) =~= seq![e, seq!['.']]);
    assert(segments(below).drop_last() =~= seq![e]);
    assert(seq![e].drop_last() =~= none);
    assert(counted(segments(below)) =~= none);
    assert(components(below) =~= root);
}

/// A name behind a directory is its last component, and the others are those of the directory.
pub proof fn names_follow_their_directory(dir: Seq<char>, n: Seq<char>)
    requires
        dir.len() == 0 || dir[dir.len() - 1] == '/',
        n.len() > 0,
        without(n, '/'),
        n != seq!['.'],
    ensures
        components(dir + n) == components(dir).push(n),
{
    lemma_join_step(dir, n);
    assert(joined(dir, n) =~= dir + n);
}

/// A separator, or a separator and a `.`, behind a path that is not empty adds no component.
pub proof fn separators_add_no_component(s: Seq<char>)
    requires
        s.len() > 0,
    ensures
        components(s + seq!['/']) == components(s),
        components(s + seq!['/', '.']) == components(s),
{
    reveal_with_fuel(counted, 2);
    let a = s + seq!['/'];
    let b = s + seq!['/', '.'];
    lemma_segments(s);
    assert(a.drop_last() =~= s);
    assert(b.drop_last() =~= a);
    assert(a[0] == s[0] && b[0] == s[0]);
    let e = Seq::<char>::empty();
    assert(segments(a) == segments(s).push(e));
    assert(segments(a).drop_last() =~= segments(s));
    assert(segments(b) == segments(a).drop_last().push(e.push('.')));
    assert(e.push('.') =~= seq!['.']);
    assert(segments(b).drop_last() =~= segments(s));
    assert(counted(segments(b)) == counted(segments(s)));
}

/// A prefix comes off a path exactly when the path's components start with its own, and what is
/// left spells the others.
pub proof fn prefixes_come_off_by_component(
    path: Seq<char>,
    prefix: Seq<char>,
    rest: Seq<Seq<char>>,
)
    requires
        components(prefix).len() > 0,
    ensures
        components(path) == components(prefix) + rest ==> (strip_prefix(
            path,
            prefix,
        ) matches Some(left) && components(left) == rest && !rooted(left)),
        strip_prefix(path, prefix) is Some ==> exists|more: Seq<Seq<char>>|
            components(path) == #[trigger] (components(prefix) + more),
{
    let a = components(path);
    let b = components(prefix);
    if a == b + rest {
        assert(a.subrange(0, b.len() as int) =~= b);
        assert(a.skip(b.len() as int) =~= rest);
        lemma_component_steps(path);
        assert forall|k: int| 0 <= k < rest.len() implies is_step(#[trigger] rest[k]) by {
            assert(rest[k] == a[b.len() + k]);
        }
        lemma_join_spelled(Seq::empty(), rest);
        lemma_spelled_components(rest);
    }
    if strip_prefix(path, prefix) is Some {
        let more = a.skip(b.len() as int);
        assert(a =~= b + more);
    }
}

/// What is left of a path behind a prefix is spelled with one separator between two components,
/// and none around them.
pub proof fn stripped_paths_are_spelled_plainly(
    path: Seq<char>,
    longer: Seq<char>,
    prefix: Seq<char>,
    rest: Seq<Seq<char>>,
    x: Seq<char>,
)
    requires
        components(prefix).len() > 0,
        components(path) == components(prefix) + rest,
        components(longer) == components(prefix) + rest.push(x),
    ensures
        rest.len() == 0 ==> strip_prefix(path, prefix) == Some(Seq::<char>::empty())
            && strip_prefix(longer, prefix) == Some(x),
        rest.len() > 0 ==> (strip_prefix(path, prefix) matches Some(left) && strip_prefix(
            longer,
            prefix,
        ) == Some(left + seq!['/'] + x)),
{
    let a = components(path);
    let c = components(longer);
    let b = components(prefix);
    assert(a.subrange(0, b.len() as int) =~= b);
    assert(c.subrange(0, b.len() as int) =~= b);
    assert(a.skip(b.len() as int) =~= rest);
    assert(c.skip(b.len() as int) =~= rest.push(x));
    assert(rest.push(x).drop_last() =~= rest);
    lemma_component_steps(longer);
    assert(x == c[(b.len() + rest.len()) as int]);
    assert(is_step(x));
    assert(!rooted(x));
    if rest.len() == 0 {
        assert(joined(Seq::<char>::empty(), x) =~= x);
        assert(spelled(rest) =~= Seq::<char>::empty());
    } else {
        let y = rest.last();
        assert(y == c[b.len() + rest.len() - 1]);
        assert(is_step(y));
        assert(y.last() != '/');
        assert(spelled(rest).last() == y.last());
    }
}

} // verus!
