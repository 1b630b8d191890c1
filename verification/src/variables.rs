//! The environment that the compiler sees: the variables that a compile sets, and the host's.
use vstd::prelude::*;

use crate::compile::{
    compiler_env, key_inputs, lemma_pair_texts_push, pair_texts, CompileRequest, CompileSite,
};
use crate::text::{opt_text, same_text};

verus! {

/// Some variable has the name.
pub open spec fn has_name(vars: Seq<(Seq<char>, Seq<char>)>, name: Seq<char>) -> bool {
    exists|i: int| 0 <= i < vars.len() && (#[trigger] vars[i]).0 == name
}

/// The first of the variables of each name, in order.
pub open spec fn keep_first(vars: Seq<(Seq<char>, Seq<char>)>) -> Seq<(Seq<char>, Seq<char>)>
    decreases vars.len(),
{
    if vars.len() == 0 {
        Seq::empty()
    } else {
        let before = keep_first(vars.drop_last());
        if has_name(before, vars.last().0) {
            before
        } else {
            before.push(vars.last())
        }
    }
}

/// The value of the first variable of the name, if there is one.
pub open spec fn value_of(vars: Seq<(Seq<char>, Seq<char>)>, name: Seq<char>) -> Option<Seq<char>>
    decreases vars.len(),
{
    if vars.len() == 0 {
        None
    } else {
        match value_of(vars.drop_last(), name) {
            Some(v) => Some(v),
            None => if vars.last().0 == name {
                Some(vars.last().1)
            } else {
                None
            },
        }
    }
}

/// What the compiler sees: the variables set for it, and of the host's those of other names.
pub open spec fn guest_vars(
    set: Seq<(Seq<char>, Seq<char>)>,
    host: Seq<(Seq<char>, Seq<char>)>,
) -> Seq<(Seq<char>, Seq<char>)> {
    keep_first(set + host)
}

/// Adds a variable, unless there is one of its name.
fn add_variable(vars: &mut Vec<(String, String)>, name: &str, value: &str)
    ensures
        pair_texts(final(vars)@) == (if has_name(pair_texts(old(vars)@), name@) {
            pair_texts(old(vars)@)
        } else {
            pair_texts(old(vars)@).push((name@, value@))
        }),
{
    let ghost all = pair_texts(vars@);
    let mut i: usize = 0;
    while i < vars.len()
        invariant
            i <= vars@.len(),
            all == pair_texts(vars@),
            vars@ == old(vars)@,
            forall|j: int| 0 <= j < i ==> (#[trigger] all[j]).0 != name@,
        decreases vars@.len() - i,
    {
        assert(all[i as int].0 == vars@[i as int].0@);
        if same_text(&vars[i].0, name) {
            return;
        }
        i += 1;
    }
    let pair: (String, String) = (name.to_owned(), value.to_owned());
    vars.push(pair);
    proof {
        lemma_pair_texts_push(old(vars)@, pair);
    }
}

/// Adds variables, each unless there is one of its name.
fn add_variables(
    vars: &mut Vec<(String, String)>,
    more: &Vec<(String, String)>,
    Ghost(before): Ghost<Seq<(Seq<char>, Seq<char>)>>,
)
    requires
        pair_texts(old(vars)@) == keep_first(before),
    ensures
        pair_texts(final(vars)@) == keep_first(before + pair_texts(more@)),
{
    let ghost all = pair_texts(more@);
    let mut i: usize = 0;
    assert(before + all.take(0) =~= before);
    while i < more.len()
        invariant
            i <= more@.len(),
            all == pair_texts(more@),
            pair_texts(vars@) == keep_first(before + all.take(i as int)),
        decreases more@.len() - i,
    {
        let ghost done = before + all.take(i + 1);
        proof {
            assert(done.drop_last() =~= before + all.take(i as int));
            assert(done.last() == all[i as int]);
        }
        add_variable(vars, &more[i].0, &more[i].1);
        i += 1;
    }
    assert(before + all.take(i as int) =~= before + all);
}

/// What the compiler sees, each name once: the variables set for it, and of the host's those of
/// other names.
pub fn guest_env(set: &Vec<(String, String)>, host: &Vec<(String, String)>) -> (r: Vec<
    (String, String),
>)
    ensures
        pair_texts(r@) == guest_vars(pair_texts(set@), pair_texts(host@)),
{
    let mut vars: Vec<(String, String)> = Vec::new();
    let ghost none = Seq::<(Seq<char>, Seq<char>)>::empty();
    assert(pair_texts(vars@) =~= none);
    add_variables(&mut vars, set, Ghost(none));
    assert(none + pair_texts(set@) =~= pair_texts(set@));
    add_variables(&mut vars, host, Ghost(pair_texts(set@)));
    vars
}

/// No variable reaches the compiler twice.
pub proof fn each_variable_is_seen_once(vars: Seq<(Seq<char>, Seq<char>)>, i: int, j: int)
    requires
        0 <= i < j < keep_first(vars).len(),
    ensures
        keep_first(vars)[i].0 != keep_first(vars)[j].0,
    decreases vars.len(),
{
    let before = keep_first(vars.drop_last());
    if j < before.len() {
        each_variable_is_seen_once(vars.drop_last(), i, j);
    } else {
        assert(keep_first(vars)[i] == before[i]);
    }
}

proof fn lemma_has_value(vars: Seq<(Seq<char>, Seq<char>)>, name: Seq<char>)
    ensures
        value_of(vars, name) is Some <==> has_name(vars, name),
    decreases vars.len(),
{
    if vars.len() > 0 {
        let t = vars.drop_last();
        lemma_has_value(t, name);
        if has_name(t, name) {
            let i = choose|i: int| 0 <= i < t.len() && (#[trigger] t[i]).0 == name;
            assert(vars[i] == t[i]);
        }
        if has_name(vars, name) && vars.last().0 != name {
            let i = choose|i: int| 0 <= i < vars.len() && (#[trigger] vars[i]).0 == name;
            assert(t[i] == vars[i]);
        }
        if vars.last().0 == name {
            assert(vars[vars.len() - 1].0 == name);
        }
    }
}

proof fn lemma_keep_first_values(vars: Seq<(Seq<char>, Seq<char>)>, name: Seq<char>)
    ensures
        value_of(keep_first(vars), name) == value_of(vars, name),
    decreases vars.len(),
{
    if vars.len() > 0 {
        lemma_keep_first_values(vars.drop_last(), name);
        let before = keep_first(vars.drop_last());
        let x = vars.last();
        lemma_has_value(before, name);
        assert(before.push(x).drop_last() =~= before);
    }
}

proof fn lemma_values_add(
    a: Seq<(Seq<char>, Seq<char>)>,
    b: Seq<(Seq<char>, Seq<char>)>,
    name: Seq<char>,
)
    ensures
        value_of(a + b, name) == (match value_of(a, name) {
            Some(v) => Some(v),
            None => value_of(b, name),
        }),
    decreases b.len(),
{
    if b.len() == 0 {
        assert(a + b =~= a);
    } else {
        assert((a + b).drop_last() =~= a + b.drop_last());
        lemma_values_add(a, b.drop_last(), name);
    }
}

/// A variable that is set for the compiler has that value, whatever the host's is; any other has
/// the host's.
pub proof fn set_variables_win(
    set: Seq<(Seq<char>, Seq<char>)>,
    host: Seq<(Seq<char>, Seq<char>)>,
    name: Seq<char>,
)
    ensures
        value_of(guest_vars(set, host), name) == (match value_of(set, name) {
            Some(v) => Some(v),
            None => value_of(host, name),
        }),
{
    lemma_keep_first_values(set + host, name);
    lemma_values_add(set, host, name);
}

/// The compiler sees the optimization level, the code generator and the words on wide arithmetic
/// and debug names that are part of the compile's key: every variable that changes its output.
pub proof fn the_compiler_sees_what_is_keyed(
    request: CompileRequest,
    site: CompileSite,
    host: Seq<(Seq<char>, Seq<char>)>,
)
    requires
        opt_text(site.opt_env) == value_of(host, "ZENA_OPT_LEVEL"@),
        opt_text(site.backend) == value_of(host, "ZENA_BACKEND"@),
        opt_text(site.wide_arithmetic) == value_of(host, "ZENA_WIDE_ARITHMETIC"@),
        opt_text(site.debug_names) == value_of(host, "ZENA_DEBUG_NAMES"@),
    ensures
        ({
            let seen = guest_vars(compiler_env(request.debug, site.opt_flag), host);
            let key = key_inputs(request, site);
            &&& value_of(seen, "ZENA_OPT_LEVEL"@) == opt_text(key.opt_level)
            &&& value_of(seen, "ZENA_BACKEND"@) == opt_text(key.backend)
            &&& value_of(seen, "ZENA_WIDE_ARITHMETIC"@) == opt_text(key.wide_arithmetic)
            &&& value_of(seen, "ZENA_DEBUG_NAMES"@) == (if key.debug {
                Some("1"@)
            } else {
                opt_text(key.debug_names)
            })
        }),
{
    reveal_strlit("ZENA_DEBUG_NAMES");
    reveal_strlit("ZENA_OPT_LEVEL");
    reveal_strlit("ZENA_BACKEND");
    reveal_strlit("ZENA_WIDE_ARITHMETIC");
    assert("ZENA_DEBUG_NAMES"@.len() == 16 && "ZENA_OPT_LEVEL"@.len() == 14);
    assert("ZENA_BACKEND"@.len() == 12 && "ZENA_WIDE_ARITHMETIC"@.len() == 20);
    let set = compiler_env(request.debug, site.opt_flag);
    set_variables_win(set, host, "ZENA_OPT_LEVEL"@);
    set_variables_win(set, host, "ZENA_BACKEND"@);
    set_variables_win(set, host, "ZENA_WIDE_ARITHMETIC"@);
    set_variables_win(set, host, "ZENA_DEBUG_NAMES"@);
    reveal_with_fuel(value_of, 3);
    let front = set.drop_last();
    if set.len() == 2 {
        assert(front[0] == set[0]);
        assert(front.drop_last().len() == 0);
    } else if set.len() == 1 {
        assert(front.len() == 0);
    }
}

/// The value of a variable is that of the first of its name; one that is not there has none.
pub proof fn variables_have_their_first_value(
    vars: Seq<(Seq<char>, Seq<char>)>,
    name: Seq<char>,
    i: int,
)
    ensures
        0 <= i < vars.len() && vars[i].0 == name && (forall|j: int|
            0 <= j < i ==> (#[trigger] vars[j]).0 != name) ==> value_of(vars, name) == Some(
            vars[i].1,
        ),
        (forall|j: int| 0 <= j < vars.len() ==> (#[trigger] vars[j]).0 != name) ==> value_of(
            vars,
            name,
        ) is None,
    decreases vars.len(),
{
    if vars.len() > 0 {
        let t = vars.drop_last();
        variables_have_their_first_value(t, name, i);
        assert(forall|j: int| 0 <= j < t.len() ==> #[trigger] t[j] == vars[j]);
    }
}

/// What the compiler sees is what was set or what the host has, in that order, and every name of
/// those is seen.
pub proof fn the_compiler_sees_given_variables(
    set: Seq<(Seq<char>, Seq<char>)>,
    host: Seq<(Seq<char>, Seq<char>)>,
    i: int,
    j: int,
)
    ensures
        0 <= i < guest_vars(set, host).len() ==> (set + host).contains(guest_vars(set, host)[i]),
        0 <= i < j < guest_vars(set, host).len() ==> exists|a: int, b: int|
            0 <= a < b < (set + host).len() && #[trigger] (set + host)[a] == guest_vars(
                set,
                host,
            )[i] && #[trigger] (set + host)[b] == guest_vars(set, host)[j],
        0 <= i < (set + host).len() ==> exists|k: int|
            0 <= k < guest_vars(set, host).len() && (#[trigger] guest_vars(set, host)[k]).0 == (set
                + host)[i].0,
{
    let vars = set + host;
    lemma_kept(vars, i, j);
    if 0 <= i < vars.len() {
        let k = choose|k: int|
            0 <= k < keep_first(vars).len() && (#[trigger] keep_first(vars)[k]).0 == vars[i].0;
        assert(guest_vars(set, host)[k].0 == vars[i].0);
    }
}

proof fn lemma_kept(vars: Seq<(Seq<char>, Seq<char>)>, i: int, j: int)
    ensures
        0 <= i < keep_first(vars).len() ==> vars.contains(keep_first(vars)[i]),
        0 <= i < j < keep_first(vars).len() ==> exists|a: int, b: int|
            0 <= a < b < vars.len() && #[trigger] vars[a] == keep_first(vars)[i]
                && #[trigger] vars[b] == keep_first(vars)[j],
        0 <= i < vars.len() ==> exists|k: int|
            0 <= k < keep_first(vars).len() && (#[trigger] keep_first(vars)[k]).0 == vars[i].0,
    decreases vars.len(),
{
    if vars.len() > 0 {
        let t = vars.drop_last();
        let before = keep_first(t);
        let all = keep_first(vars);
        let n = vars.len() - 1;
        lemma_kept(t, i, j);
        assert(forall|k: int| 0 <= k < n ==> #[trigger] t[k] == vars[k]);
        assert(forall|k: int| 0 <= k < before.len() ==> #[trigger] all[k] == before[k]);
        if 0 <= i < before.len() {
            let a = choose|a: int| 0 <= a < t.len() && t[a] == before[i];
            assert(vars[a] == all[i]);
            if j == before.len() && j < all.len() {
                assert(vars[n] == all[j]);
            }
        } else if 0 <= i < all.len() {
            assert(vars[n] == all[i]);
        }
        if 0 <= i < j < before.len() {
            let (a, b) = choose|a: int, b: int|
                0 <= a < b < t.len() && #[trigger] t[a] == before[i] && #[trigger] t[b] == before[j];
            assert(vars[a] == all[i] && vars[b] == all[j]);
        }
        if 0 <= i < n {
            let k = choose|k: int|
                0 <= k < before.len() && (#[trigger] before[k]).0 == t[i].0;
            assert(all[k].0 == vars[i].0);
        } else if i == n {
            if has_name(before, vars.last().0) {
                let k = choose|k: int|
                    0 <= k < before.len() && (#[trigger] before[k]).0 == vars.last().0;
                assert(all[k].0 == vars[i].0);
            } else {
                assert(all[before.len() as int].0 == vars[i].0);
            }
        }
    }
}

/// The level of the command line reaches the compiler before the environment's, debugging asks for
/// debug names whatever the environment says, and the other settings are the environment's.
pub proof fn settings_reach_the_compiler(
    debug: bool,
    opt_flag: Option<String>,
    host: Seq<(Seq<char>, Seq<char>)>,
    name: Seq<char>,
)
    ensures
        ({
            let seen = guest_vars(compiler_env(debug, opt_flag), host);
            &&& value_of(seen, "ZENA_OPT_LEVEL"@) == (match opt_flag {
                Some(level) => Some(level@),
                None => value_of(host, "ZENA_OPT_LEVEL"@),
            })
            &&& value_of(seen, "ZENA_DEBUG_NAMES"@) == (if debug {
                Some("1"@)
            } else {
                value_of(host, "ZENA_DEBUG_NAMES"@)
            })
            &&& name != "ZENA_OPT_LEVEL"@ && name != "ZENA_DEBUG_NAMES"@ ==> value_of(seen, name)
                == value_of(host, name)
        }),
{
    reveal_strlit("ZENA_DEBUG_NAMES");
    reveal_strlit("ZENA_OPT_LEVEL");
    assert("ZENA_DEBUG_NAMES"@.len() == 16 && "ZENA_OPT_LEVEL"@.len() == 14);
    let set = compiler_env(debug, opt_flag);
    set_variables_win(set, host, "ZENA_OPT_LEVEL"@);
    set_variables_win(set, host, "ZENA_DEBUG_NAMES"@);
    set_variables_win(set, host, name);
    reveal_with_fuel(value_of, 3);
    let front = set.drop_last();
    if set.len() == 2 {
        assert(front[0] == set[0]);
        assert(front.drop_last().len() == 0);
    } else if set.len() == 1 {
        assert(front.len() == 0);
    }
}

} // verus!
