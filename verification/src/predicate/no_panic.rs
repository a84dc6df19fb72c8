//! The `no_panic` predicate: no panic-related function is reachable through
//! the call graph of the target function.
use vstd::prelude::*;

use super::combinators::{find_function, lookup, missing_function, missing_function_message, And, Not, Or};
use crate::env::{envs_view, EnvSpec, EnvView, OptView};
use crate::ir::{functions_view, strings_view, BlockView, FunctionIr, FunctionView};
use crate::text::{chars_of, contains, contains_str, join};
use crate::{res_view, Predicate};

verus! {

broadcast use vstd::string::group_string_axioms, vstd::set::group_set_axioms, vstd::seq_lib::seq_to_set_is_finite, vstd::seq_lib::lemma_seq_contains_after_push;

/// Predicate that asserts no panic-related functions are reachable from the target.
pub struct NoPanic;

#[allow(non_upper_case_globals)]
pub const no_panic: NoPanic = NoPanic;

/// A symbol of a panic sink: the `core::panicking` and `std::panicking`
/// modules (in both manglings), and the failure paths of `unwrap`, `expect`,
/// assertions, slicing, `panic_fmt` and `begin_panic`.
pub open spec fn is_panic_name(name: Seq<char>) -> bool {
    ||| contains(name, "4core9panicking"@)
    ||| contains(name, "3std9panicking"@)
    ||| contains(name, "unwrap_failed"@)
    ||| contains(name, "expect_failed"@)
    ||| contains(name, "assert_failed"@)
    ||| contains(name, "slice_error_fail"@)
    ||| contains(name, "panic_fmt"@)
    ||| contains(name, "begin_panic"@)
}

fn is_panic_function(name: &String) -> (b: bool)
    ensures
        b == is_panic_name(name@),
{
    let c = chars_of(name.as_str());
    contains_str(&c, "4core9panicking") || contains_str(&c, "3std9panicking") || contains_str(
        &c,
        "unwrap_failed",
    ) || contains_str(&c, "expect_failed") || contains_str(&c, "assert_failed") || contains_str(
        &c,
        "slice_error_fail",
    ) || contains_str(&c, "panic_fmt") || contains_str(&c, "begin_panic")
}

// ---------------------------------------------------------------------------
// The call graph
// ---------------------------------------------------------------------------

/// The callees of the blocks, block by block, in order.
pub open spec fn flat_calls(blocks: Seq<BlockView>) -> Seq<Seq<char>>
    decreases blocks.len(),
{
    if blocks.len() == 0 {
        seq![]
    } else {
        flat_calls(blocks.drop_last()) + blocks.last().calls
    }
}

/// Every call of `f`, in order.
pub open spec fn calls_of(f: FunctionView) -> Seq<Seq<char>> {
    flat_calls(f.blocks)
}

/// The names of the functions.
pub open spec fn names_of(fns: Seq<FunctionView>) -> Set<Seq<char>> {
    fns.map_values(|f: FunctionView| f.name).to_set()
}

/// How many named functions are not yet visited.
pub open spec fn unvisited(fns: Seq<FunctionView>, visited: Set<Seq<char>>) -> nat {
    names_of(fns).difference(visited).len()
}

pub proof fn lemma_lookup_named(fns: Seq<FunctionView>, name: Seq<char>)
    ensures
        lookup(fns, name) matches Some(f) ==> names_of(fns).contains(name) && f.name == name,
    decreases fns.len(),
{
    if fns.len() > 0 {
        let m = fns.map_values(|f: FunctionView| f.name);
        if fns.last().name == name {
            assert(m[fns.len() - 1] == name);
            assert(m.contains(name));
        } else {
            lemma_lookup_named(fns.drop_last(), name);
            if lookup(fns, name) is Some {
                let m2 = fns.drop_last().map_values(|f: FunctionView| f.name);
                assert(m2.contains(name));
                let j = choose|j: int| 0 <= j < m2.len() && m2[j] == name;
                assert(m[j] == name);
                assert(m.contains(name));
            }
        }
    }
}

pub proof fn lemma_unvisited_insert(fns: Seq<FunctionView>, visited: Set<Seq<char>>, name: Seq<char>)
    requires
        names_of(fns).contains(name),
        !visited.contains(name),
    ensures
        unvisited(fns, visited.insert(name)) + 1 == unvisited(fns, visited),
{
    let d = names_of(fns).difference(visited);
    assert(names_of(fns).difference(visited.insert(name)) =~= d.remove(name));
    assert(d.contains(name));
}

pub proof fn lemma_unvisited_subset(fns: Seq<FunctionView>, v: Set<Seq<char>>, w: Set<Seq<char>>)
    requires
        v.subset_of(w),
    ensures
        unvisited(fns, w) <= unvisited(fns, v),
{
    vstd::set_lib::lemma_len_subset(
        names_of(fns).difference(w),
        names_of(fns).difference(v),
    );
}

/// Where a depth-first search for a panic call ends.
pub enum Search {
    /// A call chain from the start to a panic function.
    Found(Seq<Seq<char>>),
    /// No panic call; the names visited by then.
    Done(Set<Seq<char>>),
    /// A function that must be searched is not in the map: its name.
    Missing(Seq<char>),
}

/// Depth-first search from `name` for a call of a panic function, skipping
/// the names already in `visited`.
pub open spec fn search_fn(fns: Seq<FunctionView>, name: Seq<char>, visited: Set<Seq<char>>) -> Search
    decreases unvisited(fns, visited), 0nat, 0nat,
{
    if visited.contains(name) {
        Search::Done(visited)
    } else {
        match lookup(fns, name) {
            None => Search::Missing(name),
            Some(f) => {
                proof {
                    lemma_lookup_named(fns, name);
                    lemma_unvisited_insert(fns, visited, name);
                }
                search_calls(fns, name, calls_of(f), 0, visited.insert(name))
            },
        }
    }
}

/// The search through the calls of `name` from the `k`-th on.
pub open spec fn search_calls(
    fns: Seq<FunctionView>,
    name: Seq<char>,
    calls: Seq<Seq<char>>,
    k: int,
    visited: Set<Seq<char>>,
) -> Search
    decreases unvisited(fns, visited), 1nat, calls.len() - k,
{
    if k < 0 || k >= calls.len() {
        Search::Done(visited)
    } else if is_panic_name(calls[k]) {
        Search::Found(seq![name, calls[k]])
    } else {
        match search_fn(fns, calls[k], visited) {
            Search::Found(ch) => Search::Found(seq![name] + ch),
            Search::Missing(n) => Search::Missing(n),
            Search::Done(v2) => {
                proof {
                    lemma_unvisited_subset(fns, visited, v2.union(visited));
                }
                search_calls(fns, name, calls, k + 1, v2.union(visited))
            },
        }
    }
}

/// The search from the target function, with nothing visited yet.
pub open spec fn panic_search(fn_name: Seq<char>, functions: Seq<FunctionView>) -> Search {
    search_fn(functions, fn_name, Set::empty())
}

/// The separator between names of a call chain.
pub open spec fn arrow() -> Seq<char> {
    " \u{2192} "@
}

pub proof fn lemma_search_grows(fns: Seq<FunctionView>, name: Seq<char>, visited: Set<Seq<char>>)
    ensures
        search_fn(fns, name, visited) matches Search::Done(v2) ==> visited.subset_of(v2),
    decreases unvisited(fns, visited), 0nat, 0nat,
{
    if !visited.contains(name) {
        if let Some(f) = lookup(fns, name) {
            lemma_lookup_named(fns, name);
            lemma_unvisited_insert(fns, visited, name);
            lemma_search_calls_grows(fns, name, calls_of(f), 0, visited.insert(name));
        }
    }
}

pub proof fn lemma_search_calls_grows(
    fns: Seq<FunctionView>,
    name: Seq<char>,
    calls: Seq<Seq<char>>,
    k: int,
    visited: Set<Seq<char>>,
)
    ensures
        search_calls(fns, name, calls, k, visited) matches Search::Done(v2) ==> visited.subset_of(
            v2,
        ),
    decreases unvisited(fns, visited), 1nat, calls.len() - k,
{
    if 0 <= k < calls.len() && !is_panic_name(calls[k]) {
        lemma_search_grows(fns, calls[k], visited);
        if let Search::Done(v2) = search_fn(fns, calls[k], visited) {
            lemma_unvisited_subset(fns, visited, v2.union(visited));
            lemma_search_calls_grows(fns, name, calls, k + 1, v2.union(visited));
        }
    }
}

// ---------------------------------------------------------------------------
// What the search finds
// ---------------------------------------------------------------------------

/// `path` is a chain of calls: each name but the last is a function of the
/// map, and its calls include the next name.
pub open spec fn is_call_path(fns: Seq<FunctionView>, path: Seq<Seq<char>>) -> bool {
    forall|i: int|
        0 <= i < path.len() - 1 ==> #[trigger] lookup(fns, path[i]) is Some && calls_of(
            lookup(fns, path[i]).unwrap(),
        ).contains(path[i + 1])
}

/// A panic function is reachable from `root` through one or more calls.
pub open spec fn panic_reachable(fns: Seq<FunctionView>, root: Seq<char>) -> bool {
    exists|path: Seq<Seq<char>>|
        #![trigger is_call_path(fns, path)]
        path.len() >= 2 && path[0] == root && is_call_path(fns, path) && is_panic_name(path.last())
}

/// A chain from `name` to a panic function.
pub open spec fn panic_chain_from(fns: Seq<FunctionView>, name: Seq<char>, ch: Seq<Seq<char>>) -> bool {
    &&& ch.len() >= 2
    &&& ch[0] == name
    &&& is_call_path(fns, ch)
    &&& is_panic_name(ch.last())
}

pub proof fn lemma_found_fn(fns: Seq<FunctionView>, name: Seq<char>, visited: Set<Seq<char>>)
    ensures
        search_fn(fns, name, visited) matches Search::Found(ch) ==> panic_chain_from(fns, name, ch),
    decreases unvisited(fns, visited), 0nat, 0nat,
{
    if !visited.contains(name) {
        if let Some(f) = lookup(fns, name) {
            lemma_lookup_named(fns, name);
            lemma_unvisited_insert(fns, visited, name);
            lemma_found_calls(fns, name, calls_of(f), 0, visited.insert(name));
        }
    }
}

pub proof fn lemma_found_calls(
    fns: Seq<FunctionView>,
    name: Seq<char>,
    calls: Seq<Seq<char>>,
    k: int,
    visited: Set<Seq<char>>,
)
    requires
        lookup(fns, name) is Some,
        calls == calls_of(lookup(fns, name).unwrap()),
    ensures
        search_calls(fns, name, calls, k, visited) matches Search::Found(ch) ==> panic_chain_from(
            fns,
            name,
            ch,
        ),
    decreases unvisited(fns, visited), 1nat, calls.len() - k,
{
    if 0 <= k < calls.len() {
        assert(calls.contains(calls[k]));
        if is_panic_name(calls[k]) {
            let ch = seq![name, calls[k]];
            assert(is_call_path(fns, ch)) by {
                assert forall|i: int| 0 <= i < ch.len() - 1 implies #[trigger] lookup(fns, ch[i])
                    is Some && calls_of(lookup(fns, ch[i]).unwrap()).contains(ch[i + 1]) by {
                    assert(i == 0);
                }
            }
        } else {
            lemma_found_fn(fns, calls[k], visited);
            match search_fn(fns, calls[k], visited) {
                Search::Found(tail) => {
                    let ch = seq![name] + tail;
                    assert(ch.last() == tail.last());
                    assert(is_call_path(fns, ch)) by {
                        assert forall|i: int| 0 <= i < ch.len() - 1 implies #[trigger] lookup(
                            fns,
                            ch[i],
                        ) is Some && calls_of(lookup(fns, ch[i]).unwrap()).contains(ch[i + 1]) by {
                            if i == 0 {
                                assert(ch[1] == tail[0]);
                            } else {
                                assert(ch[i] == tail[i - 1]);
                                assert(ch[i + 1] == tail[i]);
                                assert(lookup(fns, tail[i - 1]) is Some);
                            }
                        }
                    }
                },
                Search::Done(v2) => {
                    lemma_unvisited_subset(fns, visited, v2.union(visited));
                    lemma_found_calls(fns, name, calls, k + 1, v2.union(visited));
                },
                Search::Missing(_) => {},
            }
        }
    }
}

/// Every visited name outside `stack` is a function of the map whose calls
/// are all visited and none of them a panic function.
pub open spec fn closed(fns: Seq<FunctionView>, visited: Set<Seq<char>>, stack: Set<Seq<char>>) -> bool {
    forall|v: Seq<char>|
        #![trigger visited.contains(v)]
        visited.contains(v) && !stack.contains(v) ==> lookup(fns, v) is Some && forall|c: Seq<char>|
            #![trigger calls_of(lookup(fns, v).unwrap()).contains(c)]
            calls_of(lookup(fns, v).unwrap()).contains(c) ==> !is_panic_name(c) && visited.contains(
                c,
            )
}

pub proof fn lemma_done_fn(
    fns: Seq<FunctionView>,
    name: Seq<char>,
    visited: Set<Seq<char>>,
    stack: Set<Seq<char>>,
)
    requires
        closed(fns, visited, stack),
        stack.subset_of(visited),
    ensures
        search_fn(fns, name, visited) matches Search::Done(v2) ==> closed(fns, v2, stack)
            && v2.contains(name) && visited.subset_of(v2),
    decreases unvisited(fns, visited), 0nat, 0nat,
{
    if !visited.contains(name) {
        if let Some(f) = lookup(fns, name) {
            lemma_lookup_named(fns, name);
            lemma_unvisited_insert(fns, visited, name);
            let v1 = visited.insert(name);
            let s1 = stack.insert(name);
            assert(closed(fns, v1, s1)) by {
                assert forall|v: Seq<char>| #[trigger]
                    v1.contains(v) && !s1.contains(v) implies lookup(fns, v) is Some && forall|
                    c: Seq<char>,
                |
                    #![trigger calls_of(lookup(fns, v).unwrap()).contains(c)]
                    calls_of(lookup(fns, v).unwrap()).contains(c) ==> !is_panic_name(c)
                        && v1.contains(c) by {
                    assert(visited.contains(v));
                }
            }
            lemma_done_calls(fns, name, calls_of(f), 0, v1, s1);
            if let Search::Done(v2) = search_fn(fns, name, visited) {
                assert(closed(fns, v2, stack)) by {
                    assert forall|v: Seq<char>| #[trigger]
                        v2.contains(v) && !stack.contains(v) implies lookup(fns, v) is Some
                        && forall|c: Seq<char>|
                        #![trigger calls_of(lookup(fns, v).unwrap()).contains(c)]
                        calls_of(lookup(fns, v).unwrap()).contains(c) ==> !is_panic_name(c)
                            && v2.contains(c) by {
                        if v == name {
                            assert forall|c: Seq<char>| #[trigger]
                                calls_of(lookup(fns, v).unwrap()).contains(c) implies !is_panic_name(
                                c,
                            ) && v2.contains(c) by {
                                let j = choose|j: int|
                                    0 <= j < calls_of(f).len() && calls_of(f)[j] == c;
                                assert(calls_of(f)[j] == c);
                            }
                        } else {
                            assert(!s1.contains(v));
                        }
                    }
                }
            }
        }
    }
}

pub proof fn lemma_done_calls(
    fns: Seq<FunctionView>,
    name: Seq<char>,
    calls: Seq<Seq<char>>,
    k: int,
    visited: Set<Seq<char>>,
    stack: Set<Seq<char>>,
)
    requires
        closed(fns, visited, stack),
        stack.subset_of(visited),
        0 <= k,
        forall|j: int|
            0 <= j < k && j < calls.len() ==> !is_panic_name(#[trigger] calls[j]) && visited.contains(
                calls[j],
            ),
    ensures
        search_calls(fns, name, calls, k, visited) matches Search::Done(v2) ==> closed(
            fns,
            v2,
            stack,
        ) && visited.subset_of(v2) && forall|j: int|
            0 <= j < calls.len() ==> !is_panic_name(#[trigger] calls[j]) && v2.contains(calls[j]),
    decreases unvisited(fns, visited), 1nat, calls.len() - k,
{
    if k < calls.len() && !is_panic_name(calls[k]) {
        lemma_done_fn(fns, calls[k], visited, stack);
        if let Search::Done(v2) = search_fn(fns, calls[k], visited) {
            let w = v2.union(visited);
            assert(w =~= v2);
            lemma_unvisited_subset(fns, visited, w);
            lemma_done_calls(fns, name, calls, k + 1, w, stack);
        }
    }
}

pub proof fn lemma_path_closed(
    fns: Seq<FunctionView>,
    visited: Set<Seq<char>>,
    path: Seq<Seq<char>>,
    i: int,
)
    requires
        closed(fns, visited, Set::empty()),
        is_call_path(fns, path),
        path.len() > 0,
        visited.contains(path[0]),
        0 <= i < path.len(),
    ensures
        visited.contains(path[i]),
        i > 0 ==> !is_panic_name(path[i]),
    decreases i,
{
    if i > 0 {
        lemma_path_closed(fns, visited, path, i - 1);
        assert(lookup(fns, path[i - 1]) is Some);
        assert(calls_of(lookup(fns, path[i - 1]).unwrap()).contains(path[i]));
    }
}

/// `no_panic` fails exactly when a panic function is reachable from the
/// target through its calls, and the chain it reports is such a path.
pub proof fn law_no_panic(fn_name: Seq<char>, functions: Seq<FunctionView>, env: EnvView)
    requires
        NoPanic.evaluable(fn_name, functions, env),
    ensures
        (NoPanic.outcome(fn_name, functions, env) is Ok) == !panic_reachable(functions, fn_name),
        panic_search(fn_name, functions) matches Search::Found(ch) ==> panic_chain_from(
            functions,
            fn_name,
            ch,
        ),
{
    lemma_found_fn(functions, fn_name, Set::empty());
    lemma_done_fn(functions, fn_name, Set::empty(), Set::empty());
    match panic_search(fn_name, functions) {
        Search::Found(ch) => {
            assert(is_call_path(functions, ch));
        },
        Search::Done(v2) => {
            if panic_reachable(functions, fn_name) {
                let path = choose|path: Seq<Seq<char>>|
                    #![trigger is_call_path(functions, path)]
                    path.len() >= 2 && path[0] == fn_name && is_call_path(functions, path)
                        && is_panic_name(path.last());
                lemma_path_closed(functions, v2, path, path.len() - 1);
            }
        },
        Search::Missing(_) => {},
    }
}

// ---------------------------------------------------------------------------
// The search, executed
// ---------------------------------------------------------------------------

/// The names in `v`, as a set.
pub open spec fn visited_set(v: Seq<String>) -> Set<Seq<char>> {
    strings_view(v).to_set()
}

fn contains_string(v: &Vec<String>, s: &String) -> (b: bool)
    ensures
        b == visited_set(v@).contains(s@),
{
    let mut i: usize = 0;
    while i < v.len()
        invariant
            i <= v@.len(),
            forall|k: int| 0 <= k < i ==> v@[k]@ != s@,
        decreases v@.len() - i,
    {
        if v[i] == *s {
            assert(strings_view(v@)[i as int] == s@);
            return true;
        }
        i += 1;
    }
    assert(!strings_view(v@).contains(s@)) by {
        if strings_view(v@).contains(s@) {
            let j = choose|j: int| 0 <= j < strings_view(v@).len() && strings_view(v@)[j] == s@;
            assert(v@[j]@ == s@);
        }
    }
    false
}

/// Every call of `f`, in order.
fn all_calls(f: &FunctionIr) -> (r: Vec<String>)
    ensures
        strings_view(r@) == calls_of(f@),
{
    let ghost bv = f@.blocks;
    let mut r: Vec<String> = Vec::new();
    let mut b: usize = 0;
    assert(bv.take(0) =~= Seq::<BlockView>::empty());
    assert(strings_view(r@) =~= Seq::<Seq<char>>::empty());
    while b < f.blocks.len()
        invariant
            bv == f@.blocks,
            b <= bv.len(),
            strings_view(r@) == flat_calls(bv.take(b as int)),
        decreases bv.len() - b,
    {
        let block = &f.blocks[b];
        let ghost before = strings_view(r@);
        let mut c: usize = 0;
        while c < block.calls.len()
            invariant
                strings_view(r@) == before + strings_view(block.calls@).take(c as int),
                c <= block.calls@.len(),
            decreases block.calls@.len() - c,
        {
            let ghost prev = strings_view(r@);
            r.push(block.calls[c].clone());
            assert(strings_view(r@) =~= prev.push(block.calls@[c as int]@));
            assert(strings_view(block.calls@).take(c + 1) =~= strings_view(block.calls@).take(
                c as int,
            ).push(block.calls@[c as int]@));
            c += 1;
        }
        assert(strings_view(block.calls@).take(c as int) =~= strings_view(block.calls@));
        assert(bv.take(b + 1).drop_last() =~= bv.take(b as int));
        assert(bv.take(b + 1).last() == block@);
        b += 1;
    }
    assert(bv.take(b as int) =~= bv);
    r
}

fn find_panic_chain(
    fn_name: &String,
    functions: &Vec<FunctionIr>,
    visited: &mut Vec<String>,
) -> (r: Result<Option<(Vec<String>, &'static str)>, String>)
    ensures
        match search_fn(functions_view(functions@), fn_name@, visited_set(old(visited)@)) {
            Search::Found(ch) => r matches Ok(Some((c, reason))) && strings_view(c@) == ch
                && reason@ == "panic function reachable"@,
            Search::Done(v2) => r matches Ok(None) && visited_set(final(visited)@) == v2,
            Search::Missing(n) => r matches Err(m) && m@ == n,
        },
    decreases unvisited(functions_view(functions@), visited_set(visited@)),
{
    let ghost fv = functions_view(functions@);
    let ghost v0 = visited_set(visited@);
    assert(v0 == visited_set(old(visited)@));
    if contains_string(visited, fn_name) {
        return Ok(None);
    }
    let ghost before = strings_view(visited@);
    visited.push(fn_name.clone());
    assert(strings_view(visited@) =~= before.push(fn_name@));
    assert(visited_set(visited@) =~= v0.insert(fn_name@));
    let idx = match find_function(fn_name.as_str(), functions) {
        Some(i) => i,
        None => {
            return Err(fn_name.clone());
        },
    };
    proof {
        lemma_lookup_named(fv, fn_name@);
        lemma_unvisited_insert(fv, v0, fn_name@);
    }
    let calls = all_calls(&functions[idx]);
    let ghost cv = strings_view(calls@);
    let mut k: usize = 0;
    while k < calls.len()
        invariant
            fv == functions_view(functions@),
            v0 == visited_set(old(visited)@),
            cv == strings_view(calls@),
            k <= calls@.len(),
            search_fn(fv, fn_name@, v0) == search_calls(fv, fn_name@, cv, k as int, visited_set(visited@)),
            v0.insert(fn_name@).subset_of(visited_set(visited@)),
            unvisited(fv, v0.insert(fn_name@)) + 1 == unvisited(fv, v0),
        decreases calls@.len() - k,
    {
        if is_panic_function(&calls[k]) {
            let chain = vec![fn_name.clone(), calls[k].clone()];
            assert(cv[k as int] == calls@[k as int]@);
            assert(is_panic_name(cv[k as int]));
            assert(search_calls(fv, fn_name@, cv, k as int, visited_set(visited@)) == Search::Found(seq![fn_name@, cv[k as int]]));
            assert(strings_view(chain@) =~= seq![fn_name@, cv[k as int]]);
            let reason: &'static str = "panic function reachable";
            assert(reason@ == "panic function reachable"@);
            return Ok(Some((chain, reason)));
        }
        let ghost vk = visited_set(visited@);
        proof {
            lemma_unvisited_subset(fv, v0.insert(fn_name@), vk);
            lemma_search_grows(fv, cv[k as int], vk);
            assert(unvisited(fv, vk) < unvisited(fv, v0));
        }
        match find_panic_chain(&calls[k], functions, visited) {
            Ok(Some((chain, reason))) => {
                let mut chain = chain;
                let ghost tail = strings_view(chain@);
                chain.insert(0, fn_name.clone());
                assert(strings_view(chain@) =~= seq![fn_name@] + tail);
                return Ok(Some((chain, reason)));
            },
            Ok(None) => {
                assert(visited_set(visited@).union(vk) =~= visited_set(visited@));
            },
            Err(m) => {
                return Err(m);
            },
        }
        k += 1;
    }
    Ok(None)
}

/// Append `parts` to `s`, with `sep` between consecutive parts.
fn push_joined(s: &mut String, parts: &Vec<String>, sep: &str)
    ensures
        final(s)@ == old(s)@ + join(strings_view(parts@), sep@),
{
    let ghost pv = strings_view(parts@);
    let mut i: usize = 0;
    assert(pv.take(0) =~= Seq::<Seq<char>>::empty());
    while i < parts.len()
        invariant
            i <= parts@.len(),
            pv == strings_view(parts@),
            s@ == old(s)@ + join(pv.take(i as int), sep@),
        decreases parts@.len() - i,
    {
        assert(pv.take(i + 1).drop_last() =~= pv.take(i as int));
        if i > 0 {
            s.append(sep);
        }
        s.append(parts[i].as_str());
        i += 1;
    }
    assert(pv.take(i as int) =~= pv);
}

impl Predicate for NoPanic {
    open spec fn ready(&self) -> bool {
        true
    }

    open spec fn evaluable(&self, fn_name: Seq<char>, functions: Seq<FunctionView>, env: EnvView) -> bool {
        !(panic_search(fn_name, functions) is Missing)
    }

    open spec fn outcome(&self, fn_name: Seq<char>, functions: Seq<FunctionView>, env: EnvView) -> Result<
        (),
        Seq<char>,
    > {
        match panic_search(fn_name, functions) {
            Search::Found(ch) => Err(
                "no_panic: "@ + "panic function reachable"@ + "\n  call chain: "@ + join(ch, arrow()),
            ),
            _ => Ok(()),
        }
    }

    fn evaluate(&self, fn_name: &str, functions: &Vec<FunctionIr>, env: &EnvSpec) -> (r: Result<
        (),
        String,
    >) {
        let mut visited: Vec<String> = Vec::new();
        assert(visited_set(visited@) =~= Set::<Seq<char>>::empty());
        let name = String::from_str(fn_name);
        match find_panic_chain(&name, functions, &mut visited) {
            Ok(Some((chain, reason))) => {
                let mut s = String::from_str("no_panic: ");
                s.append(reason);
                s.append("\n  call chain: ");
                push_joined(&mut s, &chain, " \u{2192} ");
                Err(s)
            },
            _ => Ok(()),
        }
    }

    fn can_evaluate(&self, fn_name: &str, functions: &Vec<FunctionIr>, env: &EnvSpec) -> (b: bool) {
        let mut visited: Vec<String> = Vec::new();
        assert(visited_set(visited@) =~= Set::<Seq<char>>::empty());
        let name = String::from_str(fn_name);
        find_panic_chain(&name, functions, &mut visited).is_ok()
    }

    open spec fn refusal(&self, fn_name: Seq<char>, functions: Seq<FunctionView>, env: EnvView) -> Seq<char> {
        match panic_search(fn_name, functions) {
            Search::Missing(m) => missing_function(m),
            _ => seq![],
        }
    }

    fn refusal_message(&self, fn_name: &str, functions: &Vec<FunctionIr>, env: &EnvSpec) -> (m: String) {
        let mut visited: Vec<String> = Vec::new();
        assert(visited_set(visited@) =~= Set::<Seq<char>>::empty());
        let name = String::from_str(fn_name);
        match find_panic_chain(&name, functions, &mut visited) {
            Err(missing) => missing_function_message(missing.as_str()),
            Ok(_) => String::new(),
        }
    }

    open spec fn conflict(&self) -> Option<Seq<char>> {
        None
    }

    fn environment_conflict(&self) -> (r: Option<String>) {
        None
    }

    open spec fn collectable(&self) -> bool {
        true
    }

    open spec fn environments(&self) -> Seq<EnvView> {
        seq![EnvView { rustc: None, target: None, opt: OptView::Release }]
    }

    fn environments_compatible(&self) -> (b: bool) {
        true
    }

    fn collect_environments(&self, envs: &mut Vec<EnvSpec>) {
        let ghost before = envs_view(envs@);
        envs.push(EnvSpec::release());
        assert(envs_view(envs@) =~= before + self.environments());
    }

    open spec fn text(&self) -> Seq<char> {
        "no_panic"@
    }

    fn to_string(&self) -> (s: String) {
        String::from_str("no_panic")
    }
}

pub proof fn lemma_flat_calls_contains(blocks: Seq<BlockView>, b: int, callee: Seq<char>)
    requires
        0 <= b < blocks.len(),
        blocks[b].calls.contains(callee),
    ensures
        flat_calls(blocks).contains(callee),
    decreases blocks.len(),
{
    let k = choose|k: int| 0 <= k < blocks[b].calls.len() && blocks[b].calls[k] == callee;
    if b == blocks.len() - 1 {
        let pre = flat_calls(blocks.drop_last());
        assert((pre + blocks.last().calls)[pre.len() + k] == callee);
    } else {
        lemma_flat_calls_contains(blocks.drop_last(), b, callee);
        let j = choose|j: int|
            0 <= j < flat_calls(blocks.drop_last()).len() && flat_calls(blocks.drop_last())[j]
                == callee;
        assert((flat_calls(blocks.drop_last()) + blocks.last().calls)[j] == callee);
    }
}

/// `no_panic` fails on a function one of whose blocks calls a symbol that
/// holds any of the panic-sink fragments (`4core9panicking`,
/// `3std9panicking`, `unwrap_failed`, `expect_failed`, `assert_failed`,
/// `slice_error_fail`, `panic_fmt`, `begin_panic`).
pub proof fn law_panic_sinks_fail(
    fn_name: Seq<char>,
    functions: Seq<FunctionView>,
    env: EnvView,
    b: int,
    callee: Seq<char>,
    frag: Seq<char>,
)
    requires
        NoPanic.evaluable(fn_name, functions, env),
        lookup(functions, fn_name) matches Some(f) && 0 <= b < f.blocks.len()
            && f.blocks[b].calls.contains(callee),
        frag == "4core9panicking"@ || frag == "3std9panicking"@ || frag == "unwrap_failed"@ || frag
            == "expect_failed"@ || frag == "assert_failed"@ || frag == "slice_error_fail"@ || frag
            == "panic_fmt"@ || frag == "begin_panic"@,
        contains(callee, frag),
    ensures
        NoPanic.outcome(fn_name, functions, env) is Err,
{
    let f = lookup(functions, fn_name).unwrap();
    lemma_flat_calls_contains(f.blocks, b, callee);
    assert(is_panic_name(callee));
    let path = seq![fn_name, callee];
    assert(is_call_path(functions, path));
    assert(panic_reachable(functions, fn_name));
    law_no_panic(fn_name, functions, env);
}

} // verus!
