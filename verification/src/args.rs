//! Argument lists of the programs that this tool runs.
use vstd::prelude::*;

use crate::text::texts;

verus! {

/// A flag followed by its value, where there is one.
pub open spec fn flag_with(flag: Seq<char>, value: Option<String>) -> Seq<Seq<char>> {
    match value {
        Some(v) => seq![flag, v@],
        None => Seq::empty(),
    }
}

/// A flag, where it is on.
pub open spec fn flag_if(flag: Seq<char>, on: bool) -> Seq<Seq<char>> {
    if on {
        seq![flag]
    } else {
        Seq::empty()
    }
}

/// Adds a flag and its value, where there is one.
pub fn push_flag_with(args: &mut Vec<String>, flag: &str, value: &Option<String>)
    ensures
        texts(final(args)@) == texts(old(args)@) + flag_with(flag@, *value),
{
    match value {
        Some(v) => {
            args.push(flag.to_owned());
            args.push(v.clone());
            assert(texts(args@) =~= texts(old(args)@) + seq![flag@, v@]);
        },
        None => {
            assert(texts(args@) =~= texts(old(args)@) + Seq::<Seq<char>>::empty());
        },
    }
}

/// Adds a flag, where it is on.
pub fn push_flag_if(args: &mut Vec<String>, flag: &str, on: bool)
    ensures
        texts(final(args)@) == texts(old(args)@) + flag_if(flag@, on),
{
    if on {
        args.push(flag.to_owned());
        assert(texts(args@) =~= texts(old(args)@) + seq![flag@]);
    } else {
        assert(texts(args@) =~= texts(old(args)@) + Seq::<Seq<char>>::empty());
    }
}

/// Appends copies of strings.
pub fn push_all(out: &mut Vec<String>, more: &Vec<String>)
    ensures
        texts(final(out)@) == texts(old(out)@) + texts(more@),
{
    let ghost start = texts(out@);
    let mut i: usize = 0;
    assert(start + texts(more@).take(0) =~= start);
    while i < more.len()
        invariant
            i <= more@.len(),
            texts(out@) == start + texts(more@).take(i as int),
        decreases more@.len() - i,
    {
        let ghost before = out@;
        out.push(more[i].clone());
        proof {
            assert(texts(out@) =~= texts(before).push(more@[i as int]@));
            assert(texts(more@).take(i + 1) =~= texts(more@).take(i as int).push(
                more@[i as int]@,
            ));
            assert(texts(out@) =~= start + texts(more@).take(i + 1));
        }
        i += 1;
    }
    assert(texts(more@).take(i as int) =~= texts(more@));
}

} // verus!
