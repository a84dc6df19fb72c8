use ir_assert::invocation::{
    asm_tag, check_invocation, container_name, crate_name_of, debug_assertions_active,
    is_test_build,
};
use ir_assert::text::collapse_whitespace;

fn args(list: &[&str]) -> Vec<String> {
    list.iter().map(|s| s.to_string()).collect()
}

#[test]
fn debug_assertions_default_on() {
    assert!(debug_assertions_active(&args(&["rustc", "--crate-name", "foo", "src/lib.rs"])));
}

#[test]
fn debug_assertions_follow_opt_level() {
    assert!(!debug_assertions_active(&args(&["rustc", "-C", "opt-level=3"])));
    assert!(debug_assertions_active(&args(&["rustc", "-C", "opt-level=0"])));
    assert!(!debug_assertions_active(&args(&["rustc", "-Copt-level=s"])));
    assert!(debug_assertions_active(&args(&["rustc", "-Copt-level=0"])));
}

#[test]
fn debug_assertions_explicit_flag_wins() {
    assert!(debug_assertions_active(&args(&[
        "rustc",
        "-C",
        "opt-level=2",
        "-C",
        "debug-assertions=yes"
    ])));
    assert!(debug_assertions_active(&args(&["-C", "opt-level=3", "-Cdebug-assertions=1"])));
    assert!(!debug_assertions_active(&args(&["-Cdebug-assertions=no", "-C", "opt-level=0"])));
    assert!(!debug_assertions_active(&args(&["-C", "debug-assertions=off"])));
}

#[test]
fn debug_assertions_split_flag_before_joined_flag() {
    assert!(!debug_assertions_active(&args(&["-Copt-level=0", "-C", "opt-level=3"])));
    // A trailing `-C` with nothing after it is no flag.
    assert!(debug_assertions_active(&args(&["opt-level=3", "-C"])));
}

#[test]
fn test_build_detection() {
    assert!(is_test_build(&args(&["rustc", "--test", "--crate-name", "basic"])));
    assert!(!is_test_build(&args(&["rustc", "--crate-name", "basic", "--tests"])));
    assert!(!is_test_build(&args(&[])));
}

#[test]
fn crate_name_detection() {
    assert_eq!(crate_name_of(&args(&["rustc", "--crate-name", "basic", "--test"])), "basic");
    assert_eq!(crate_name_of(&args(&["rustc", "--crate-name", "a", "--crate-name", "b"])), "a");
    assert_eq!(crate_name_of(&args(&["rustc", "src/lib.rs"])), "unknown");
    assert_eq!(crate_name_of(&args(&["rustc", "--crate-name"])), "unknown");
}

#[test]
fn generated_names() {
    assert_eq!(container_name(42), "ir_assert_container_42");
    assert_eq!(container_name(0), "ir_assert_container_0");
    assert_eq!(container_name(u64::MAX), format!("ir_assert_container_{}", u64::MAX));
    assert_eq!(asm_tag(7), "/* ir_assert 7 {0} */");
    assert_eq!(asm_tag(1234567890123), "/* ir_assert 1234567890123 {0} */");
}

#[test]
fn whitespace_collapsing() {
    assert_eq!(collapse_whitespace("  a \n\t b   c "), "a b c");
    assert_eq!(collapse_whitespace("basic_blocks . len ( ) . eq ( 1 )"), "basic_blocks . len ( ) . eq ( 1 )");
    assert_eq!(collapse_whitespace(""), "");
    assert_eq!(collapse_whitespace(" \n\t "), "");
    assert_eq!(collapse_whitespace("x\u{3000}y\u{a0}z"), "x y z");
    assert_eq!(collapse_whitespace("héllo\r\nwörld"), "héllo wörld");
}

#[test]
fn invocation_arguments() {
    assert_eq!(check_invocation(0, false, true, false), Err("ir-assert: expected crate path".to_string()));
    assert_eq!(
        check_invocation(1, false, true, false),
        Err("ir-assert: expected predicate expression".to_string())
    );
    assert_eq!(
        check_invocation(2, true, true, false),
        Err("ir-assert: expected at least one target function/closure after the predicate".to_string())
    );
    assert_eq!(check_invocation(3, true, false, false), Ok(()));
    assert_eq!(check_invocation(4, false, false, false), Ok(()));
    assert_eq!(
        check_invocation(4, true, false, false),
        Err("debug_assert_ir! does not support multiple targets when debug_assertions is disabled".to_string())
    );
    assert_eq!(check_invocation(4, true, true, false), Ok(()));
    assert_eq!(check_invocation(4, true, false, true), Ok(()));
}
