//! The verdict of one IR assertion: given the functions read from the IR of
//! every environment that was built, find the container function, the
//! targets it refers to, and evaluate the predicate on each target in each
//! environment.
use vstd::prelude::*;

use crate::env::{env_text, envs_view, push_new, EnvSpec, EnvView};
use crate::ir::{functions_view, strings_view, FunctionIr, FunctionView};
use crate::locate::{find_referenced_functions, referenced};
use crate::text::{chars_of, lines, lines_of, push_chars, push_replacing_nl, replace_nl};
use crate::{res_view, Predicate};

verus! {

broadcast use vstd::string::group_string_axioms;

/// One environment's build: the environment and the functions of its IR.
pub struct EnvIr {
    pub env: EnvSpec,
    pub functions: Vec<FunctionIr>,
}

/// One environment's build as plain values.
pub struct EnvIrView {
    pub env: EnvView,
    pub functions: Seq<FunctionView>,
}

pub open spec fn builds_view(v: Seq<EnvIr>) -> Seq<EnvIrView> {
    v.map_values(|b: EnvIr| EnvIrView { env: b.env@, functions: functions_view(b.functions@) })
}

/// Index of the first function at or after `i` called `name`.
pub open spec fn first_named_from(fns: Seq<FunctionView>, name: Seq<char>, i: int) -> Option<int>
    decreases fns.len() - i,
{
    if i < 0 || i >= fns.len() {
        None
    } else if fns[i].name == name {
        Some(i)
    } else {
        first_named_from(fns, name, i + 1)
    }
}

/// The first function called `name`.
pub open spec fn first_named(fns: Seq<FunctionView>, name: Seq<char>) -> Option<FunctionView> {
    match first_named_from(fns, name, 0) {
        Some(i) => Some(fns[i]),
        None => None,
    }
}

pub proof fn lemma_first_named(fns: Seq<FunctionView>, name: Seq<char>, i: int)
    requires
        0 <= i,
    ensures
        first_named_from(fns, name, i) matches Some(k) ==> i <= k < fns.len(),
    decreases fns.len() - i,
{
    if i < fns.len() && fns[i].name != name {
        lemma_first_named(fns, name, i + 1);
    }
}

fn find_first(functions: &Vec<FunctionIr>, name: &str) -> (r: Option<usize>)
    ensures
        r matches Some(k) ==> first_named_from(functions_view(functions@), name@, 0) == Some(
            k as int,
        ),
        r is None ==> first_named_from(functions_view(functions@), name@, 0) is None,
{
    let ghost fv = functions_view(functions@);
    let mut i: usize = 0;
    while i < functions.len()
        invariant
            fv == functions_view(functions@),
            first_named_from(fv, name@, 0) == first_named_from(fv, name@, i as int),
        decreases functions@.len() - i,
    {
        if crate::text::str_eq(functions[i].name.as_str(), name) {
            return Some(i);
        }
        i += 1;
    }
    None
}

/// The function that build `b` has for the `idx`-th target of the container
/// `symbol`, when it has one with a body.
pub open spec fn env_target(b: EnvIrView, symbol: Seq<char>, idx: int) -> Option<FunctionView> {
    match first_named(b.functions, symbol) {
        None => None,
        Some(c) => {
            let refs = referenced(c.raw);
            if 0 <= idx < refs.len() {
                match first_named(b.functions, refs[idx]) {
                    Some(f) => if f.blocks.len() > 0 {
                        Some(f)
                    } else {
                        None
                    },
                    None => None,
                }
            } else {
                None
            }
        },
    }
}

pub open spec fn failure_message(
    pred_str: Seq<char>,
    label: Seq<char>,
    env: EnvView,
    reason: Seq<char>,
    raw: Seq<char>,
) -> Seq<char> {
    "ir-assert: assertion failed\n  predicate: "@ + pred_str + "\n  target: "@ + label
        + "\n  environment: "@ + env_text(env) + "\n  reason:\n    "@ + replace_nl(
        reason,
        "\n    "@,
    ) + "\n\n"@ + raw
}

pub open spec fn unmatched_message(pred_str: Seq<char>, label: Seq<char>) -> Seq<char> {
    "ir-assert: none of the environments matched the predicate\n  predicate: "@ + pred_str
        + "\n  target: "@ + label + "\n  available environments: []"@
}

/// The verdict on target `idx` over the builds from the `j`-th on; `any`
/// records whether an earlier build had the target.
pub open spec fn target_verdict<P: Predicate>(
    pred: P,
    builds: Seq<EnvIrView>,
    symbol: Seq<char>,
    idx: int,
    label: Seq<char>,
    pred_str: Seq<char>,
    j: int,
    any: bool,
) -> Result<(), Seq<char>>
    decreases builds.len() - j,
{
    if j < 0 || j >= builds.len() {
        if any {
            Ok(())
        } else {
            Err(unmatched_message(pred_str, label))
        }
    } else {
        match env_target(builds[j], symbol, idx) {
            None => target_verdict(pred, builds, symbol, idx, label, pred_str, j + 1, any),
            Some(f) => if !pred.evaluable(f.name, builds[j].functions, builds[j].env) {
                Err(pred.refusal(f.name, builds[j].functions, builds[j].env))
            } else {
                match pred.outcome(f.name, builds[j].functions, builds[j].env) {
                    Err(reason) => Err(
                        failure_message(pred_str, label, builds[j].env, reason, f.raw),
                    ),
                    Ok(()) => target_verdict(pred, builds, symbol, idx, label, pred_str, j + 1, true),
                }
            },
        }
    }
}

/// How target `idx` is named in messages: by the name given for it, else by
/// its symbol.
pub open spec fn target_label(names: Seq<Seq<char>>, refs: Seq<Seq<char>>, idx: int) -> Seq<char> {
    if idx < names.len() {
        names[idx]
    } else {
        refs[idx]
    }
}

/// The verdict over the targets from the `idx`-th on.
pub open spec fn targets_verdict<P: Predicate>(
    pred: P,
    builds: Seq<EnvIrView>,
    symbol: Seq<char>,
    refs: Seq<Seq<char>>,
    names: Seq<Seq<char>>,
    pred_str: Seq<char>,
    idx: int,
) -> Result<(), Seq<char>>
    decreases refs.len() - idx,
{
    if idx < 0 || idx >= refs.len() {
        Ok(())
    } else if first_named(builds[0].functions, refs[idx]) matches Some(f) && f.blocks.len() == 0 {
        targets_verdict(pred, builds, symbol, refs, names, pred_str, idx + 1)
    } else {
        match target_verdict(
            pred,
            builds,
            symbol,
            idx,
            target_label(names, refs, idx),
            pred_str,
            0,
            false,
        ) {
            Err(e) => Err(e),
            Ok(()) => targets_verdict(pred, builds, symbol, refs, names, pred_str, idx + 1),
        }
    }
}

/// The verdict of an assertion: `Ok` when the predicate holds of every
/// target in every build that has it, else the failure report. The first
/// build is the one whose container names the targets.
pub open spec fn assertion_verdict<P: Predicate>(
    pred: P,
    builds: Seq<EnvIrView>,
    symbol: Seq<char>,
    pred_str: Seq<char>,
    names: Seq<Seq<char>>,
) -> Result<(), Seq<char>> {
    if builds.len() == 0 {
        Err("ir-assert: none of the environments are available"@)
    } else {
        match first_named(builds[0].functions, symbol) {
            None => Err("ir-assert: container function '"@ + symbol + "' not found in IR. "@),
            Some(c) => {
                let refs = referenced(c.raw);
                if refs.len() == 0 {
                    Err(
                        "ir-assert: no function references found in container '"@ + symbol
                            + "'. Make sure target functions are referenced via inline asm."@,
                    )
                } else {
                    targets_verdict(pred, builds, symbol, refs, names, pred_str, 0)
                }
            },
        }
    }
}

fn env_target_exec(b: &EnvIr, symbol: &str, idx: usize) -> (r: Option<usize>)
    ensures
        r matches Some(k) ==> k < b.functions@.len() && env_target(
            EnvIrView { env: b.env@, functions: functions_view(b.functions@) },
            symbol@,
            idx as int,
        ) == Some(b.functions@[k as int]@),
        r is None ==> env_target(
            EnvIrView { env: b.env@, functions: functions_view(b.functions@) },
            symbol@,
            idx as int,
        ) is None,
{
    let ghost fv = functions_view(b.functions@);
    proof {
        lemma_first_named(fv, symbol@, 0);
    }
    let c = match find_first(&b.functions, symbol) {
        Some(c) => c,
        None => return None,
    };
    let refs = find_referenced_functions(&b.functions[c]);
    if idx >= refs.len() {
        return None;
    }
    proof {
        lemma_first_named(fv, refs@[idx as int]@, 0);
    }
    match find_first(&b.functions, refs[idx].as_str()) {
        Some(k) => if b.functions[k].blocks.len() > 0 {
            Some(k)
        } else {
            None
        },
        None => None,
    }
}

fn label_of(names: &Vec<String>, refs: &Vec<String>, idx: usize) -> (s: String)
    requires
        idx < refs@.len(),
    ensures
        s@ == target_label(strings_view(names@), strings_view(refs@), idx as int),
{
    if idx < names.len() {
        names[idx].clone()
    } else {
        refs[idx].clone()
    }
}

fn target_check<P: Predicate>(
    pred: &P,
    builds: &Vec<EnvIr>,
    symbol: &str,
    idx: usize,
    label: &String,
    pred_str: &str,
) -> (r: Result<(), String>)
    requires
        pred.ready(),
    ensures
        res_view(r) == target_verdict(
            *pred,
            builds_view(builds@),
            symbol@,
            idx as int,
            label@,
            pred_str@,
            0,
            false,
        ),
{
    let ghost bv = builds_view(builds@);
    let mut any = false;
    let mut j: usize = 0;
    while j < builds.len()
        invariant
            pred.ready(),
            bv == builds_view(builds@),
            j <= builds@.len(),
            target_verdict(*pred, bv, symbol@, idx as int, label@, pred_str@, 0, false)
                == target_verdict(*pred, bv, symbol@, idx as int, label@, pred_str@, j as int, any),
        decreases builds@.len() - j,
    {
        let b = &builds[j];
        assert(bv[j as int] == EnvIrView { env: b.env@, functions: functions_view(b.functions@) });
        match env_target_exec(b, symbol, idx) {
            None => {},
            Some(k) => {
                let f = &b.functions[k];
                if !pred.can_evaluate(f.name.as_str(), &b.functions, &b.env) {
                    return Err(pred.refusal_message(f.name.as_str(), &b.functions, &b.env));
                }
                match pred.evaluate(f.name.as_str(), &b.functions, &b.env) {
                    Err(reason) => {
                        let mut s = String::from_str("ir-assert: assertion failed\n  predicate: ");
                        s.append(pred_str);
                        s.append("\n  target: ");
                        s.append(label.as_str());
                        s.append("\n  environment: ");
                        let e = b.env.text();
                        s.append(e.as_str());
                        s.append("\n  reason:\n    ");
                        push_replacing_nl(&mut s, &reason, "\n    ");
                        s.append("\n\n");
                        s.append(f.raw.as_str());
                        return Err(s);
                    },
                    Ok(()) => {
                        any = true;
                    },
                }
            },
        }
        j += 1;
    }
    if any {
        Ok(())
    } else {
        let mut s = String::from_str(
            "ir-assert: none of the environments matched the predicate\n  predicate: ",
        );
        s.append(pred_str);
        s.append("\n  target: ");
        s.append(label.as_str());
        s.append("\n  available environments: []");
        Err(s)
    }
}

/// Evaluate `pred` on every target of the container function `symbol`, in
/// every build. `Ok` when it holds throughout, else the report of the
/// first failure. The closures of its block quantifiers must build the same
/// block predicate on every call (`ready`).
pub fn check_assertion<P: Predicate>(
    pred: &P,
    symbol: &str,
    builds: &Vec<EnvIr>,
    pred_str: &str,
    target_names: &Vec<String>,
) -> (r: Result<(), String>)
    requires
        pred.ready(),
    ensures
        res_view(r) == assertion_verdict(
            *pred,
            builds_view(builds@),
            symbol@,
            pred_str@,
            strings_view(target_names@),
        ),
{
    let ghost bv = builds_view(builds@);
    if builds.len() == 0 {
        return Err(String::from_str("ir-assert: none of the environments are available"));
    }
    let default_functions = &builds[0].functions;
    assert(bv[0].functions == functions_view(default_functions@));
    proof {
        lemma_first_named(bv[0].functions, symbol@, 0);
    }
    let c = match find_first(default_functions, symbol) {
        Some(c) => c,
        None => {
            let mut s = String::from_str("ir-assert: container function '");
            s.append(symbol);
            s.append("' not found in IR. ");
            return Err(s);
        },
    };
    let refs = find_referenced_functions(&default_functions[c]);
    if refs.len() == 0 {
        let mut s = String::from_str("ir-assert: no function references found in container '");
        s.append(symbol);
        s.append("'. Make sure target functions are referenced via inline asm.");
        return Err(s);
    }
    let ghost rv = strings_view(refs@);
    let mut idx: usize = 0;
    while idx < refs.len()
        invariant
            pred.ready(),
            bv == builds_view(builds@),
            bv.len() > 0,
            bv[0].functions == functions_view(default_functions@),
            rv == strings_view(refs@),
            idx <= refs@.len(),
            assertion_verdict(*pred, bv, symbol@, pred_str@, strings_view(target_names@))
                == targets_verdict(
                *pred,
                bv,
                symbol@,
                rv,
                strings_view(target_names@),
                pred_str@,
                idx as int,
            ),
        decreases refs@.len() - idx,
    {
        proof {
            lemma_first_named(bv[0].functions, rv[idx as int], 0);
        }
        let skip = match find_first(default_functions, refs[idx].as_str()) {
            Some(k) => default_functions[k].blocks.len() == 0,
            None => false,
        };
        if !skip {
            let label = label_of(target_names, &refs, idx);
            match target_check(pred, builds, symbol, idx, &label, pred_str) {
                Err(e) => {
                    return Err(e);
                },
                Ok(()) => {},
            }
        }
        idx += 1;
    }
    Ok(())
}

/// The environments with each repeated one dropped; the first of equal
/// environments stays, in order.
pub fn dedup_envs(envs: &Vec<EnvSpec>) -> (r: Vec<EnvSpec>)
    ensures
        envs_view(r@) == push_new(seq![], envs_view(envs@)),
{
    let mut r: Vec<EnvSpec> = Vec::new();
    assert(envs_view(r@) =~= Seq::<EnvView>::empty());
    crate::env::append_new(&mut r, envs);
    r
}

/// Each of `ls` on a line of its own, indented by four spaces.
pub open spec fn indented_lines(ls: Seq<Seq<char>>) -> Seq<char>
    decreases ls.len(),
{
    if ls.len() == 0 {
        seq![]
    } else {
        indented_lines(ls.drop_last()) + "    "@ + ls.last() + "\n"@
    }
}

/// Builds that failed, as plain values: the environment and the error.
pub open spec fn failures_view(v: Seq<(EnvSpec, String)>) -> Seq<(EnvView, Seq<char>)> {
    v.map_values(|f: (EnvSpec, String)| (f.0@, f.1@))
}

/// One entry per failed build: the environment in brackets, then the lines
/// of its error, indented.
pub open spec fn failure_entries(fs: Seq<(EnvView, Seq<char>)>) -> Seq<char>
    decreases fs.len(),
{
    if fs.len() == 0 {
        seq![]
    } else {
        failure_entries(fs.drop_last()) + "\n  ["@ + env_text(fs.last().0) + "]\n"@
            + indented_lines(lines(fs.last().1))
    }
}

/// The report when some of the environments could not be built.
pub open spec fn unavailable_report(fs: Seq<(EnvView, Seq<char>)>) -> Seq<char> {
    "ir-assert: none of the environments are available\n"@ + failure_entries(fs)
}

/// The report for the builds that failed, `failures`, in order.
pub fn unavailable_message(failures: &Vec<(EnvSpec, String)>) -> (s: String)
    ensures
        s@ == unavailable_report(failures_view(failures@)),
{
    let ghost fv = failures_view(failures@);
    let mut s = String::from_str("ir-assert: none of the environments are available\n");
    let ghost head = s@;
    let mut i: usize = 0;
    while i < failures.len()
        invariant
            fv == failures_view(failures@),
            i <= failures@.len(),
            s@ == head + failure_entries(fv.take(i as int)),
        decreases failures@.len() - i,
    {
        let ghost before = s@;
        s.append("\n  [");
        let t = failures[i].0.text();
        s.append(t.as_str());
        s.append("]\n");
        let cs = chars_of(failures[i].1.as_str());
        let ls = lines_of(&cs);
        let ghost lv = lines(cs@);
        let ghost mid = s@;
        let mut k: usize = 0;
        while k < ls.len()
            invariant
                ls@.len() == lv.len(),
                forall|m: int| 0 <= m < ls@.len() ==> #[trigger] ls@[m]@ == lv[m],
                k <= ls@.len(),
                s@ == mid + indented_lines(lv.take(k as int)),
            decreases ls@.len() - k,
        {
            s.append("    ");
            push_chars(&mut s, &ls[k]);
            s.append("\n");
            k += 1;
            assert(lv.take(k as int).drop_last() =~= lv.take(k - 1));
        }
        assert(lv.take(lv.len() as int) =~= lv);
        i += 1;
        assert(fv.take(i as int).drop_last() =~= fv.take(i - 1));
        assert(fv[i - 1] == (failures@[i - 1].0@, failures@[i - 1].1@));
    }
    assert(fv.take(fv.len() as int) =~= fv);
    s
}

pub proof fn lemma_target_verdict_every_build<P: Predicate>(
    pred: P,
    builds: Seq<EnvIrView>,
    symbol: Seq<char>,
    idx: int,
    label: Seq<char>,
    pred_str: Seq<char>,
    j0: int,
    any: bool,
    j: int,
)
    requires
        target_verdict(pred, builds, symbol, idx, label, pred_str, j0, any) is Ok,
        0 <= j0 <= j < builds.len(),
        env_target(builds[j], symbol, idx) is Some,
    ensures
        ({
            let f = env_target(builds[j], symbol, idx).unwrap();
            &&& pred.evaluable(f.name, builds[j].functions, builds[j].env)
            &&& pred.outcome(f.name, builds[j].functions, builds[j].env) is Ok
        }),
    decreases j - j0,
{
    if j0 < j {
        match env_target(builds[j0], symbol, idx) {
            None => {
                lemma_target_verdict_every_build(pred, builds, symbol, idx, label, pred_str, j0 + 1, any, j);
            },
            Some(f) => {
                lemma_target_verdict_every_build(pred, builds, symbol, idx, label, pred_str, j0 + 1, true, j);
            },
        }
    }
}

pub proof fn lemma_targets_verdict_each<P: Predicate>(
    pred: P,
    builds: Seq<EnvIrView>,
    symbol: Seq<char>,
    refs: Seq<Seq<char>>,
    names: Seq<Seq<char>>,
    pred_str: Seq<char>,
    k: int,
    idx: int,
)
    requires
        targets_verdict(pred, builds, symbol, refs, names, pred_str, k) is Ok,
        0 <= k <= idx < refs.len(),
        !(first_named(builds[0].functions, refs[idx]) matches Some(f) && f.blocks.len() == 0),
    ensures
        target_verdict(pred, builds, symbol, idx, target_label(names, refs, idx), pred_str, 0, false) is Ok,
    decreases idx - k,
{
    if k < idx {
        lemma_targets_verdict_each(pred, builds, symbol, refs, names, pred_str, k + 1, idx);
    }
}

/// An assertion holds only if, in every build, the predicate can be
/// evaluated and holds on each target of the container that the build has
/// with a body (a target that the first build has without a body is not
/// checked anywhere).
pub proof fn law_assertion_checks_every_build<P: Predicate>(
    pred: P,
    builds: Seq<EnvIrView>,
    symbol: Seq<char>,
    pred_str: Seq<char>,
    names: Seq<Seq<char>>,
    idx: int,
    j: int,
)
    requires
        assertion_verdict(pred, builds, symbol, pred_str, names) is Ok,
        0 <= j < builds.len(),
        first_named(builds[0].functions, symbol) matches Some(c) && 0 <= idx < referenced(c.raw).len()
            && !(first_named(builds[0].functions, referenced(c.raw)[idx]) matches Some(f)
            && f.blocks.len() == 0),
        env_target(builds[j], symbol, idx) is Some,
    ensures
        ({
            let f = env_target(builds[j], symbol, idx).unwrap();
            &&& pred.evaluable(f.name, builds[j].functions, builds[j].env)
            &&& pred.outcome(f.name, builds[j].functions, builds[j].env) is Ok
        }),
{
    let c = first_named(builds[0].functions, symbol).unwrap();
    let refs = referenced(c.raw);
    lemma_targets_verdict_each(pred, builds, symbol, refs, names, pred_str, 0, idx);
    lemma_target_verdict_every_build(
        pred,
        builds,
        symbol,
        idx,
        target_label(names, refs, idx),
        pred_str,
        0,
        false,
        j,
    );
}

} // verus!
