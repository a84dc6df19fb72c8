use ir_assert::assertion::{check_assertion, dedup_envs, EnvIr};
use ir_assert::env::{EnvSpec, OptLevel};
use ir_assert::ir::parse_ir_functions;
use ir_assert::predicate::combinators::Not;
use ir_assert::predicate::{basic_blocks, calls, debug, no_panic, opt0, opt3, rustc, target, target_wasm32_unknown_unknown, target_x86_64_unknown_linux_gnu};
use ir_assert::Predicate;

fn collect<P: Predicate>(p: &P) -> Vec<EnvSpec> {
    let mut v = Vec::new();
    p.collect_environments(&mut v);
    v
}

#[test]
fn constructors_and_decompose() {
    let e = EnvSpec::rustc_target("1.90", "x86_64-unknown-linux-gnu");
    assert_eq!(e.decompose(), (Some("1.90"), Some("x86_64-unknown-linux-gnu"), &OptLevel::Any));
    let o = EnvSpec::target_opt_level("wasm32-unknown-unknown", "z");
    assert_eq!(o.decompose(), (None, Some("wasm32-unknown-unknown"), &OptLevel::OptLevel("z")));
    assert_eq!(EnvSpec::debug().opt_level, OptLevel::Debug);
    assert_eq!(EnvSpec::release().opt_level, OptLevel::Release);
    assert_eq!(rustc("1.80"), EnvSpec::rustc("1.80"));
    assert_eq!(target_wasm32_unknown_unknown(), target("wasm32-unknown-unknown"));
}

#[test]
fn and_merges_fields() {
    let a = EnvSpec::rustc("1.90").and(&EnvSpec::target("x86_64-unknown-linux-gnu"));
    assert_eq!(a, EnvSpec::rustc_target("1.90", "x86_64-unknown-linux-gnu"));
    let b = EnvSpec::release().and(&EnvSpec::opt_level("2"));
    assert_eq!(b.opt_level, OptLevel::OptLevel("2"));
    let c = EnvSpec::opt_level("2").and(&EnvSpec::release());
    assert_eq!(c.opt_level, OptLevel::OptLevel("2"));
    let d = EnvSpec::default_env().and(&EnvSpec::debug());
    assert_eq!(d, EnvSpec::debug());
    assert_eq!(EnvSpec::rustc("1.90").and(&EnvSpec::rustc("1.90")), EnvSpec::rustc("1.90"));
}

#[test]
fn and_conflicts() {
    assert!(EnvSpec::rustc("1.80").conflicts_with(&EnvSpec::rustc("1.90")));
    assert!(EnvSpec::target("a").conflicts_with(&EnvSpec::target("b")));
    assert!(EnvSpec::debug().conflicts_with(&EnvSpec::release()));
    assert!(EnvSpec::debug().conflicts_with(&EnvSpec::opt_level("3")));
    assert!(EnvSpec::opt_level("0").conflicts_with(&EnvSpec::opt_level("3")));
    assert!(!EnvSpec::release().conflicts_with(&EnvSpec::opt_level("3")));
    assert!(!EnvSpec::rustc("1.80").conflicts_with(&EnvSpec::target("b")));
    assert!(!(rustc("1.80") & rustc("1.90")).environments_compatible());
    assert!(!(debug & opt3()).environments_compatible());
    assert!(!(opt0() & opt3()).environments_compatible());
    assert!(!(debug & no_panic).environments_compatible());
    assert!((rustc("1.90") & target("x86_64-unknown-linux-gnu")).environments_compatible());
}

#[test]
fn or_minimizes() {
    let general = EnvSpec::target("x86_64-unknown-linux-gnu");
    let specific = EnvSpec::rustc_target("1.90", "x86_64-unknown-linux-gnu");
    assert_eq!(general.or(&specific), vec![general]);
    assert_eq!(specific.or(&general), vec![general]);
    assert_eq!(general.or(&general), vec![general]);
    let other = EnvSpec::target("wasm32-unknown-unknown");
    assert_eq!(general.or(&other), vec![general, other]);
    assert_eq!(EnvSpec::default_env().or(&EnvSpec::debug()), vec![EnvSpec::default_env()]);
}

#[test]
fn collected_environments() {
    assert_eq!(collect(&calls.len().eq(0)), vec![EnvSpec::default_env()]);
    assert_eq!(collect(&debug), vec![EnvSpec::debug()]);
    assert_eq!(collect(&no_panic), vec![EnvSpec::release()]);
    assert_eq!(collect(&Not(no_panic)), vec![EnvSpec::release()]);
    assert_eq!(collect(&(target("x") & calls.len().eq(0))), vec![EnvSpec::target("x")]);
    assert_eq!(collect(&(rustc("1.80") | rustc("1.90"))), vec![EnvSpec::rustc("1.80"), EnvSpec::rustc("1.90")]);
    // the earlier, narrower environment stays beside the default that covers it
    assert_eq!(collect(&(target("x") | calls.len().eq(0))), vec![EnvSpec::target("x"), EnvSpec::default_env()]);
    assert_eq!(collect(&(calls.len().eq(0) | target("x"))), vec![EnvSpec::default_env()]);
    let cross = (rustc("1.80") | rustc("1.90")) & (target("a") | target("b"));
    assert_eq!(
        collect(&cross),
        vec![
            EnvSpec::rustc_target("1.80", "a"),
            EnvSpec::rustc_target("1.80", "b"),
            EnvSpec::rustc_target("1.90", "a"),
            EnvSpec::rustc_target("1.90", "b"),
        ]
    );
    let env_pair = (target_x86_64_unknown_linux_gnu() & opt0()) | (target_x86_64_unknown_linux_gnu() & opt3());
    assert_eq!(
        collect(&env_pair),
        vec![EnvSpec::target_opt_level("x86_64-unknown-linux-gnu", "0"), EnvSpec::target_opt_level("x86_64-unknown-linux-gnu", "3")]
    );
}

#[test]
fn environment_texts() {
    assert_eq!(EnvSpec::default_env().text(), "default");
    assert_eq!(EnvSpec::rustc("1.80").text(), "rustc(\"1.80\")");
    assert_eq!(EnvSpec::target("t").text(), "target(\"t\")");
    assert_eq!(EnvSpec::rustc_target("1.80", "t").text(), "rustc(\"1.80\") && target(\"t\")");
    assert_eq!(EnvSpec::debug().text(), "debug");
    assert_eq!(EnvSpec::release().to_string(), "release");
    assert_eq!(EnvSpec::rustc("1").and(&EnvSpec::debug()).text(), "rustc(\"1\") && debug");
    assert_eq!(EnvSpec::target_opt_level("t", "3").text(), "target(\"t\") && opt_level(\"3\")");
    assert_eq!(EnvSpec::rustc_target("1", "t").and(&EnvSpec::release()).text(), "rustc(\"1\") && target(\"t\") && release");
}

#[test]
fn environment_matching() {
    let built = EnvSpec::rustc_target("1.90", "x86_64-unknown-linux-gnu").and(&EnvSpec::opt_level("3"));
    assert!(built.satisfies(&EnvSpec::rustc("1.90")));
    assert!(built.satisfies(&EnvSpec::default_env()));
    assert!(built.satisfies(&opt3()));
    assert!(!built.satisfies(&EnvSpec::release()));
    assert!(!built.satisfies(&EnvSpec::rustc("1.80")));
}

#[test]
fn dedup_keeps_first_occurrences() {
    let v = vec![EnvSpec::debug(), EnvSpec::release(), EnvSpec::debug(), EnvSpec::rustc("1"), EnvSpec::release()];
    assert_eq!(dedup_envs(&v), vec![EnvSpec::debug(), EnvSpec::release(), EnvSpec::rustc("1")]);
}

const CONTAINER_IR: &str = "define void @ir_assert_container_1() {
start:
  call void asm sideeffect \"\", \"r\"(i64 ptrtoint (ptr @tgt to i64))
  ret void
}

define i64 @tgt(i64 %a) {
start:
  %r = add i64 %a, 1
  ret i64 %r
}
";

fn builds() -> Vec<EnvIr> {
    vec![EnvIr { env: EnvSpec::default_env(), functions: parse_ir_functions(CONTAINER_IR) }]
}

#[test]
fn assertion_passes() {
    let names = vec!["my_target".to_string()];
    let r = check_assertion(&(basic_blocks.len().eq(1) & calls.len().eq(0)), "ir_assert_container_1", &builds(), "pred", &names);
    assert_eq!(r, Ok(()));
}

#[test]
fn assertion_failure_report() {
    let names = vec!["my_target".to_string()];
    let r = check_assertion(&calls.len().eq(5), "ir_assert_container_1", &builds(), "calls.len().eq(5)", &names);
    let expected = format!(
        "ir-assert: assertion failed\n  predicate: calls.len().eq(5)\n  target: my_target\n  environment: default\n  reason:\n    calls.len(): expected == 5, got 0\n\n{}",
        "define i64 @tgt(i64 %a) {\nstart:\n  %r = add i64 %a, 1\n  ret i64 %r\n}"
    );
    assert_eq!(r, Err(expected));
}

#[test]
fn assertion_structural_errors() {
    let names: Vec<String> = vec![];
    assert_eq!(
        check_assertion(&no_panic, "sym", &vec![], "p", &names),
        Err("ir-assert: none of the environments are available".to_string())
    );
    assert_eq!(
        check_assertion(&no_panic, "missing_container", &builds(), "p", &names),
        Err("ir-assert: container function 'missing_container' not found in IR. ".to_string())
    );
    let no_refs = vec![EnvIr { env: EnvSpec::default_env(), functions: parse_ir_functions("define void @c() {\nstart:\n  ret void\n}\n") }];
    assert_eq!(
        check_assertion(&no_panic, "c", &no_refs, "p", &names),
        Err("ir-assert: no function references found in container 'c'. Make sure target functions are referenced via inline asm.".to_string())
    );
}

#[test]
fn assertion_target_missing_everywhere() {
    let ir = format!("{}{}", "define void @c() {\nstart:\n  call void asm sideeffect \"\", \"r\"(i64 ptrtoint (ptr @declared_only to i64))\n  ret void\n}\n", "declare void @declared_only()\n");
    let b = vec![EnvIr { env: EnvSpec::default_env(), functions: parse_ir_functions(&ir) }];
    let names = vec!["named".to_string()];
    assert_eq!(
        check_assertion(&no_panic, "c", &b, "no_panic", &names),
        Err("ir-assert: none of the environments matched the predicate\n  predicate: no_panic\n  target: named\n  available environments: []".to_string())
    );
}

#[test]
fn assertion_skips_targets_without_body() {
    let ir = "define void @c() {\nstart:\n  call void asm sideeffect \"\", \"r\"(i64 ptrtoint (ptr @hollow to i64))\n  ret void\n}\n\ndefine void @hollow() {\n; nothing\n}\n";
    let b = vec![EnvIr { env: EnvSpec::default_env(), functions: parse_ir_functions(ir) }];
    let names: Vec<String> = vec![];
    assert_eq!(check_assertion(&calls.len().eq(9), "c", &b, "p", &names), Ok(()));
}

#[test]
fn assertion_in_unmatched_environment() {
    let names: Vec<String> = vec![];
    let r = check_assertion(&EnvSpec::debug(), "ir_assert_container_1", &builds(), "debug", &names);
    assert!(r.unwrap_err().starts_with("ir-assert: assertion failed\n  predicate: debug\n  target: tgt\n  environment: default\n  reason:\n    environment mismatch: expected debug, got default"));
    let r2 = check_assertion(&calls.len().eq(0), "ir_assert_container_1", &vec![], "p", &names);
    assert!(r2.is_err());
}

#[test]
fn assertion_refuses_what_cannot_be_evaluated() {
    let names: Vec<String> = vec![];
    let r = check_assertion(&basic_blocks.at(4).calls().len().eq(0), "ir_assert_container_1", &builds(), "p", &names);
    assert_eq!(
        r,
        Err("index out of bounds: the len is 1 but the index is 4".to_string())
    );
}

#[test]
fn and_does_not_depend_on_order() {
    let envs = vec![
        EnvSpec::default_env(),
        EnvSpec::rustc("1.90"),
        EnvSpec::target("t"),
        EnvSpec::release(),
        EnvSpec::opt_level("2"),
        EnvSpec::debug(),
        EnvSpec::rustc_target("1.90", "t"),
    ];
    for a in &envs {
        for b in &envs {
            assert_eq!(a.conflicts_with(b), b.conflicts_with(a));
            if !a.conflicts_with(b) {
                assert_eq!(a.and(b), b.and(a));
            }
        }
        assert_eq!(a.and(a), *a);
        assert_eq!(EnvSpec::default_env().and(a), *a);
    }
}

#[test]
fn or_keeps_the_union_of_matching_builds() {
    let specs = vec![EnvSpec::default_env(), EnvSpec::rustc("1.90"), EnvSpec::target("t"), EnvSpec::debug(), EnvSpec::opt_level("3")];
    let builds = vec![
        EnvSpec::default_env(),
        EnvSpec::rustc_target("1.90", "t"),
        EnvSpec::debug(),
        EnvSpec::target_opt_level("t", "3"),
        EnvSpec::rustc("1.80"),
    ];
    for a in &specs {
        for b in &specs {
            let merged = a.or(b);
            assert!(merged.len() == 1 || merged.len() == 2);
            for e in &builds {
                let either = e.satisfies(a) || e.satisfies(b);
                let covered = merged.iter().any(|m| e.satisfies(m));
                assert_eq!(either, covered);
            }
        }
    }
}

#[test]
fn release_refined_by_a_named_level() {
    // merging `release` with a named level asks for the named level alone
    let merged = EnvSpec::release().and(&EnvSpec::opt_level("3"));
    assert!(EnvSpec::opt_level("3").satisfies(&merged));
    assert!(!EnvSpec::opt_level("3").satisfies(&EnvSpec::release()));
}

#[test]
fn conflict_reports_name_the_field() {
    assert_eq!(
        (rustc("1.80") & rustc("1.90")).environment_conflict(),
        Some("EnvSpec::and conflict on field `rustc`".to_string())
    );
    assert_eq!(
        (target("x86_64-unknown-linux-gnu") & target("wasm32-unknown-unknown") & basic_blocks.len().eq(1))
            .environment_conflict(),
        Some("EnvSpec::and conflict on field `target`".to_string())
    );
    assert_eq!(
        (debug & opt3()).environment_conflict(),
        Some("EnvSpec::and conflict on field `opt_level`: Debug vs OptLevel(\"3\")".to_string())
    );
    // the optimization level is merged before the toolchain
    assert_eq!(
        ((rustc("1") & opt0()) & (rustc("2") & opt3())).environment_conflict(),
        Some("EnvSpec::and conflict on field `opt_level`: OptLevel(\"0\") vs OptLevel(\"3\")".to_string())
    );
    // a conflict inside a side is met before the merge of the two sides
    assert_eq!(
        ((rustc("1") | opt0()) & (target("a") & target("b"))).environment_conflict(),
        Some("EnvSpec::and conflict on field `target`".to_string())
    );
    assert_eq!((rustc("1.90") & target("x86_64-unknown-linux-gnu")).environment_conflict(), None);
    assert_eq!((Not(rustc("1.80") & rustc("1.90")) | basic_blocks.len().eq(1)).environment_conflict(),
        Some("EnvSpec::and conflict on field `rustc`".to_string()));
}

#[test]
fn unavailable_environments_report() {
    let failures = vec![
        (EnvSpec::default_env(), "build failed\n  error: x\n".to_string()),
        (EnvSpec::rustc("99.99"), "toolchain 99.99 is not available".to_string()),
    ];
    assert_eq!(
        ir_assert::assertion::unavailable_message(&failures),
        "ir-assert: none of the environments are available\n\
         \n  [default]\n    build failed\n      error: x\n\
         \n  [rustc(\"99.99\")]\n    toolchain 99.99 is not available\n"
    );
    assert_eq!(
        ir_assert::assertion::unavailable_message(&Vec::new()),
        "ir-assert: none of the environments are available\n"
    );
}

#[test]
fn conflict_report_escapes_levels_as_debug_does() {
    let odd: &'static str = "a\"b\\c\t\n\r\0\u{1}\u{1b}\u{7f}é";
    assert_eq!(
        (EnvSpec::opt_level(odd) & EnvSpec::opt_level("3")).environment_conflict(),
        Some(format!(
            "EnvSpec::and conflict on field `opt_level`: {:?} vs {:?}",
            OptLevel::OptLevel(odd),
            OptLevel::OptLevel("3")
        ))
    );
}
