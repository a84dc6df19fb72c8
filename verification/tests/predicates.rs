use ir_assert::env::EnvSpec;
use ir_assert::ir::{parse_ir_functions, BasicBlockIr, FunctionIr};
use ir_assert::predicate::combinators::{merge_results, negate_result, or_results, And, At, BlockPred, Cmp, CmpOp, Not, Or, Quantifier};
use ir_assert::predicate::dsl::{BlockRef, Property};
use ir_assert::predicate::{basic_blocks, branches, calls, debug, instructions, no_panic, phi_nodes, allocas, opt3, rustc, target};
use ir_assert::Predicate;

fn block(c: &[&str], i: usize, a: usize, b: usize, p: usize) -> BasicBlockIr {
    BasicBlockIr {
        calls: c.iter().map(|s| s.to_string()).collect(),
        instructions: i,
        allocas: a,
        branches: b,
        phi_nodes: p,
    }
}

fn function(name: &str, blocks: Vec<BasicBlockIr>) -> FunctionIr {
    FunctionIr { name: name.to_string(), blocks, raw: format!("define void @{}() {{\n}}", name) }
}

fn sample() -> Vec<FunctionIr> {
    vec![
        function("f", vec![block(&["g"], 3, 1, 1, 0), block(&[], 2, 0, 1, 1), block(&["h", "g"], 4, 0, 0, 0)]),
        function("g", vec![block(&[], 1, 0, 0, 0)]),
        function("h", vec![block(&["g"], 2, 0, 0, 0)]),
    ]
}

fn env() -> EnvSpec {
    EnvSpec::default_env()
}

#[test]
fn comparison_passes_and_fails_with_message() {
    let fns = sample();
    assert_eq!(basic_blocks.len().eq(3).evaluate("f", &fns, &env()), Ok(()));
    assert_eq!(calls.len().eq(3).evaluate("f", &fns, &env()), Ok(()));
    assert_eq!(instructions.len().le(9).evaluate("f", &fns, &env()), Ok(()));
    assert_eq!(allocas.len().gt(0).evaluate("f", &fns, &env()), Ok(()));
    assert_eq!(branches.len().ge(2).evaluate("f", &fns, &env()), Ok(()));
    assert_eq!(phi_nodes.len().ne(0).evaluate("f", &fns, &env()), Ok(()));
    assert_eq!(
        calls.len().lt(2).evaluate("f", &fns, &env()),
        Err("calls.len(): expected < 2, got 3".to_string())
    );
    assert_eq!(
        basic_blocks.len().eq(1).evaluate("f", &fns, &env()),
        Err("basic_blocks.len(): expected == 1, got 3".to_string())
    );
}

#[test]
fn and_lists_both_failures() {
    let fns = sample();
    let p = calls.len().eq(0) & basic_blocks.len().eq(1);
    assert_eq!(
        p.evaluate("f", &fns, &env()),
        Err("calls.len(): expected == 0, got 3\nbasic_blocks.len(): expected == 1, got 3".to_string())
    );
    let q = calls.len().eq(3) & basic_blocks.len().eq(3);
    assert_eq!(q.evaluate("f", &fns, &env()), Ok(()));
}

#[test]
fn or_reports_both_alternatives() {
    let fns = sample();
    let p = calls.len().eq(0) | basic_blocks.len().eq(1);
    assert_eq!(
        p.evaluate("f", &fns, &env()),
        Err("none of the alternatives succeeded:\n  calls.len(): expected == 0, got 3\n  basic_blocks.len(): expected == 1, got 3".to_string())
    );
    let q = calls.len().eq(0) | basic_blocks.len().eq(3);
    assert_eq!(q.evaluate("f", &fns, &env()), Ok(()));
}

#[test]
fn not_inverts() {
    let fns = sample();
    assert_eq!(Not(calls.len().eq(0)).evaluate("f", &fns, &env()), Ok(()));
    assert_eq!(
        Not(calls.len().eq(3)).evaluate("f", &fns, &env()),
        Err("expected predicate to fail, but it succeeded".to_string())
    );
}

#[test]
fn chained_comparisons_form_a_range() {
    let fns = sample();
    assert_eq!(basic_blocks.len().ge(2).le(4).evaluate("f", &fns, &env()), Ok(()));
    assert!(basic_blocks.len().ge(4).le(9).evaluate("f", &fns, &env()).is_err());
    assert!(calls.len().gt(0).lt(3).evaluate("f", &fns, &env()).is_err());
    assert_eq!(calls.len().gt(0).lt(4).ne(2).evaluate("f", &fns, &env()), Ok(()));
}

#[test]
fn quantifiers_over_blocks() {
    let fns = sample();
    let all_instr = basic_blocks.all(|bb| bb.instructions.len().ge(2));
    assert_eq!(all_instr.evaluate("f", &fns, &env()), Ok(()));
    let all_no_calls = basic_blocks.all(|bb| bb.calls.len().eq(0));
    assert_eq!(
        all_no_calls.evaluate("f", &fns, &env()),
        Err("basic_blocks.all(): failed at block 0".to_string())
    );
    let any_phi = basic_blocks.any(|bb| bb.phi_nodes.len().eq(1));
    assert_eq!(any_phi.evaluate("f", &fns, &env()), Ok(()));
    let any_big = basic_blocks.any(|bb| bb.instructions.len().gt(10));
    assert_eq!(
        any_big.evaluate("f", &fns, &env()),
        Err("basic_blocks.any(): no block satisfied the predicate".to_string())
    );
    let combined = basic_blocks.all(|bb| bb.allocas.len().eq(0) | bb.branches.len().eq(1));
    assert_eq!(combined.evaluate("f", &fns, &env()), Ok(()));
    let negated = basic_blocks.all(|bb| BlockPred::Not(Box::new(bb.calls.len().gt(2))));
    assert_eq!(negated.evaluate("f", &fns, &env()), Ok(()));
}

#[test]
fn indexed_block_access() {
    let fns = sample();
    assert_eq!(basic_blocks.at(2).calls().len().eq(2).evaluate("f", &fns, &env()), Ok(()));
    assert_eq!(basic_blocks.at(1).phi_nodes().len().eq(1).evaluate("f", &fns, &env()), Ok(()));
    assert_eq!(
        basic_blocks.at(0).instructions().len().eq(1).evaluate("f", &fns, &env()),
        Err("basic_blocks[0]:\n  instructions.len(): expected == 1, got 3".to_string())
    );
    let chained = basic_blocks.at(0).allocas().len().ge(1).le(1);
    assert_eq!(chained.evaluate("f", &fns, &env()), Ok(()));
    let twice = basic_blocks.at(0).branches().len().eq(1).eq(2);
    assert_eq!(
        twice.evaluate("f", &fns, &env()),
        Err("basic_blocks[0]:\n  branches.len(): expected == 2, got 1".to_string())
    );
}

#[test]
fn block_predicate_combinators() {
    let fns = sample();
    let p = At { index: 0, pred: BlockRef::new().calls.len().eq(0) & BlockRef::new().allocas.len().eq(0) };
    assert_eq!(
        p.evaluate("f", &fns, &env()),
        Err("basic_blocks[0]:\n  calls.len(): expected == 0, got 1\n  allocas.len(): expected == 0, got 1".to_string())
    );
    let q = At { index: 1, pred: BlockPred::Or(Box::new(BlockRef::new().calls.len().eq(1)), Box::new(BlockRef::new().calls.len().eq(2))) };
    assert_eq!(
        q.evaluate("f", &fns, &env()),
        Err("basic_blocks[1]:\n  none of the alternatives succeeded:\n    calls.len(): expected == 1, got 0\n    calls.len(): expected == 2, got 0".to_string())
    );
}

#[test]
fn checks_can_be_refused_up_front() {
    let fns = sample();
    assert!(!calls.len().eq(0).can_evaluate("missing", &fns, &env()));
    assert!(calls.len().eq(0).can_evaluate("f", &fns, &env()));
    assert!(!basic_blocks.at(7).calls().len().eq(0).can_evaluate("f", &fns, &env()));
    let bad = Quantifier {
        require_all: true,
        f: |_bb: BlockRef| BlockPred::Cmp { property: Property::BasicBlocksLen, op: CmpOp::Eq(1) },
    };
    assert!(!bad.can_evaluate("f", &fns, &env()));
    // an `or` only needs its right side when the left fails
    let lazy = calls.len().eq(3) | calls.len().eq(0);
    assert!(lazy.can_evaluate("f", &fns, &env()));
}

#[test]
fn quantifier_closure_runs_once_per_block_examined() {
    let fns = sample();
    let n = fns[0].blocks.len();
    let count = std::cell::Cell::new(0usize);
    let all = basic_blocks.all(|bb| {
        count.set(count.get() + 1);
        bb.instructions.len().ge(0)
    });
    // building the predicate does not call the closure
    assert_eq!(count.get(), 0);
    assert_eq!(all.evaluate("f", &fns, &env()), Ok(()));
    assert_eq!(count.get(), n);
    count.set(0);
    let any = basic_blocks.any(|bb| {
        count.set(count.get() + 1);
        bb.instructions.len().ge(0)
    });
    assert_eq!(count.get(), 0);
    assert_eq!(any.evaluate("f", &fns, &env()), Ok(()));
    // `any` stops at the first block that satisfies the predicate
    assert_eq!(count.get(), 1);
}

#[test]
fn refusals_report_what_stopped_the_evaluation() {
    let fns = sample();
    assert_eq!(
        calls.len().eq(0).refusal_message("missing", &fns, &env()),
        "function 'missing' not found in environment IR map"
    );
    assert_eq!(
        basic_blocks.at(7).calls().len().eq(0).refusal_message("f", &fns, &env()),
        "index out of bounds: the len is 3 but the index is 7"
    );
    let on_fn_level = basic_blocks.all(|_bb: BlockRef| BlockPred::Cmp {
        property: Property::BasicBlocksLen,
        op: CmpOp::Eq(1),
    });
    assert!(!on_fn_level.can_evaluate("f", &fns, &env()));
    assert_eq!(
        on_fn_level.refusal_message("f", &fns, &env()),
        "internal error: entered unreachable code: BasicBlocksLen is not a block-level property"
    );
    // the left side of `&` is evaluated first
    assert_eq!(
        (calls.len().eq(0) & basic_blocks.at(9).calls().len().eq(0)).refusal_message("nope", &fns, &env()),
        "function 'nope' not found in environment IR map"
    );
}

#[test]
fn no_panic_stops_at_a_function_without_a_body() {
    // `f` calls `g` and `h`; `ext` is declared only
    let fns = vec![
        function("f", vec![block(&["g", "ext"], 2, 0, 0, 0)]),
        function("g", vec![block(&[], 1, 0, 0, 0)]),
    ];
    assert!(!no_panic.can_evaluate("f", &fns, &env()));
    assert_eq!(
        no_panic.refusal_message("f", &fns, &env()),
        "function 'ext' not found in environment IR map"
    );
    assert_eq!(
        no_panic.refusal_message("absent", &fns, &env()),
        "function 'absent' not found in environment IR map"
    );
}

#[test]
fn last_function_of_a_name_wins() {
    let mut fns = sample();
    fns.push(function("g", vec![block(&[], 1, 0, 0, 0), block(&[], 1, 0, 0, 0)]));
    assert_eq!(basic_blocks.len().eq(2).evaluate("g", &fns, &env()), Ok(()));
}

#[test]
fn no_panic_follows_the_call_graph() {
    let mut fns = sample();
    assert_eq!(no_panic.evaluate("f", &fns, &env()), Ok(()));
    fns[1] = function("g", vec![block(&["_ZN4core9panicking9panic_fmt17h"], 1, 0, 0, 0)]);
    assert_eq!(
        no_panic.evaluate("f", &fns, &env()),
        Err("no_panic: panic function reachable\n  call chain: f \u{2192} g \u{2192} _ZN4core9panicking9panic_fmt17h".to_string())
    );
    assert_eq!(
        no_panic.evaluate("g", &fns, &env()),
        Err("no_panic: panic function reachable\n  call chain: g \u{2192} _ZN4core9panicking9panic_fmt17h".to_string())
    );
}

#[test]
fn no_panic_handles_cycles() {
    let fns = vec![
        function("a", vec![block(&["b"], 1, 0, 0, 0)]),
        function("b", vec![block(&["a", "b"], 1, 0, 0, 0)]),
    ];
    assert_eq!(no_panic.evaluate("a", &fns, &env()), Ok(()));
    assert!(no_panic.can_evaluate("a", &fns, &env()));
}

#[test]
fn no_panic_needs_every_searched_callee() {
    let fns = vec![function("a", vec![block(&["extern_fn"], 1, 0, 0, 0)])];
    assert!(!no_panic.can_evaluate("a", &fns, &env()));
    // a panic call found first is reported without looking further
    let fns2 = vec![function("a", vec![block(&["std::panicking::begin_panic", "extern_fn"], 1, 0, 0, 0)])];
    assert!(no_panic.can_evaluate("a", &fns2, &env()));
    assert!(no_panic.evaluate("a", &fns2, &env()).is_err());
}

#[test]
fn no_panic_on_parsed_ir() {
    let ir = "define void @outer() {
start:
  call void @inner()
  ret void
}

define void @inner() {
start:
  call void @_ZN4core6option13unwrap_failed17hE()
  ret void
}

define void @_ZN4core6option13unwrap_failed17hE() {
start:
  unreachable
}
";
    let fns = parse_ir_functions(ir);
    assert_eq!(
        no_panic.evaluate("outer", &fns, &env()),
        Err("no_panic: panic function reachable\n  call chain: outer \u{2192} inner \u{2192} _ZN4core6option13unwrap_failed17hE".to_string())
    );
    assert_eq!(Not(no_panic).evaluate("outer", &fns, &env()), Ok(()));
}

#[test]
fn environment_predicates() {
    let fns = sample();
    let linux = EnvSpec::target("x86_64-unknown-linux-gnu");
    assert_eq!(target("x86_64-unknown-linux-gnu").evaluate("f", &fns, &linux), Ok(()));
    assert_eq!(
        target("wasm32-unknown-unknown").evaluate("f", &fns, &linux),
        Err("environment mismatch: expected target(\"wasm32-unknown-unknown\"), got target(\"x86_64-unknown-linux-gnu\")".to_string())
    );
    assert_eq!(debug.evaluate("f", &fns, &EnvSpec::debug()), Ok(()));
    assert_eq!(
        ir_assert::predicate::debug::Debug.evaluate("f", &fns, &EnvSpec::release()),
        Err("expected debug build, got release".to_string())
    );
    let p = Not(rustc("1.86")) | basic_blocks.len().eq(3);
    assert_eq!(p.evaluate("f", &fns, &env()), Ok(()));
}

#[test]
fn predicate_texts() {
    assert_eq!(calls.len().eq(0).to_string(), "calls.len().eq(0)");
    assert_eq!((calls.len().eq(0) & Not(basic_blocks.len().ge(2))).to_string(), "(calls.len().eq(0) && !(basic_blocks.len().ge(2)))");
    assert_eq!((no_panic | debug).to_string(), "(no_panic || debug)");
    assert_eq!(basic_blocks.all(|bb| bb.calls.len().eq(0)).to_string(), "basic_blocks.all(|bb| ...)");
    assert_eq!(basic_blocks.any(|bb| bb.calls.len().eq(0)).to_string(), "basic_blocks.any(|bb| ...)");
    assert_eq!(basic_blocks.at(3).calls().len().eq(0).to_string(), "basic_blocks.at(3).<prop>().len().<cmp>()");
    assert_eq!(opt3().to_string(), "opt_level(\"3\")");
    assert_eq!(CmpOp::Ge(12).to_string(), "ge(12)");
}

#[test]
fn result_combinators() {
    let e = |s: &str| Err::<(), String>(s.to_string());
    assert_eq!(merge_results(Ok(()), Ok(())), Ok(()));
    assert_eq!(merge_results(e("a"), Ok(())), e("a"));
    assert_eq!(merge_results(Ok(()), e("b")), e("b"));
    assert_eq!(merge_results(e("a"), e("b")), e("a\nb"));
    assert_eq!(or_results(e("a\nx"), e("b")), e("none of the alternatives succeeded:\n  a\n  x\n  b"));
    assert_eq!(or_results(e("a"), Ok(())), Ok(()));
    assert_eq!(negate_result(e("a")), Ok(()));
    assert_eq!(negate_result(Ok(())), e("expected predicate to fail, but it succeeded"));
}

#[test]
fn explicit_structs_evaluate_like_the_dsl() {
    let fns = sample();
    let p = And(Cmp { property: Property::CallsLen, op: CmpOp::Eq(3) }, Or(Cmp { property: Property::BasicBlocksLen, op: CmpOp::Eq(9) }, Cmp { property: Property::BasicBlocksLen, op: CmpOp::Eq(3) }));
    assert_eq!(p.evaluate("f", &fns, &env()), Ok(()));
}

#[test]
fn large_numbers_in_messages() {
    let fns = vec![function("big", vec![block(&[], 1234567890, 0, 0, 0)])];
    assert_eq!(
        instructions.len().eq(10).evaluate("big", &fns, &env()),
        Err("instructions.len(): expected == 10, got 1234567890".to_string())
    );
}

#[test]
fn any_is_the_negation_of_all_not() {
    let fns = sample();
    for n in 0..6 {
        let any = basic_blocks.any(move |bb| bb.instructions.len().eq(n));
        let all_not = basic_blocks.all(move |bb| BlockPred::Not(Box::new(bb.instructions.len().eq(n))));
        assert_eq!(any.evaluate("f", &fns, &env()).is_ok(), all_not.evaluate("f", &fns, &env()).is_err());
    }
}

#[test]
fn double_negation() {
    let fns = sample();
    for n in 0..5 {
        let p = calls.len().eq(n);
        let q = Not(Not(calls.len().eq(n)));
        assert_eq!(p.evaluate("f", &fns, &env()).is_ok(), q.evaluate("f", &fns, &env()).is_ok());
    }
}
