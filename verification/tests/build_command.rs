use ir_assert::command::{cargo_rustc_args_for, ir_build_command_for, toolchain_probe_args, BuildContext};
use ir_assert::env::EnvSpec;
use ir_assert::locate::{deps_dir_parts, is_ll_file, ll_file_prefix, pick_ll_file};

fn ctx(is_test: bool) -> BuildContext {
    BuildContext {
        cargo: "/usr/bin/cargo".to_string(),
        rustup: "rustup".to_string(),
        manifest_dir: "/work/crate".to_string(),
        crate_name: "basic".to_string(),
        is_test,
    }
}

fn strs(v: &[&str]) -> Vec<String> {
    v.iter().map(|s| s.to_string()).collect()
}

const EMIT: [&str; 9] = [
    "--",
    "--emit=llvm-ir",
    "-C",
    "strip=debuginfo",
    "-C",
    "codegen-units=1",
    "-C",
    "linker=true",
    "-Zcrate-attr=feature(asm_experimental_arch)",
];

#[test]
fn default_env_command() {
    let (program, args) = ir_build_command_for(&ctx(true), &EnvSpec::default_env(), "/t/ir", "true");
    assert_eq!(program, "/usr/bin/cargo");
    let mut expected = strs(&[
        "rustc",
        "--manifest-path",
        "/work/crate/Cargo.toml",
        "--test",
        "basic",
        "--release",
        "--target-dir",
        "/t/ir",
    ]);
    expected.extend(strs(&EMIT));
    assert_eq!(args, expected);
}

#[test]
fn toolchain_target_and_level_command() {
    let env = EnvSpec::rustc("1.86").and(&EnvSpec::target_opt_level("wasm32-unknown-unknown", "z"));
    let (program, args) = ir_build_command_for(&ctx(false), &env, "/t/ir-rustc_1.86-optz", "true");
    assert_eq!(program, "rustup");
    let mut expected = strs(&[
        "run",
        "1.86",
        "cargo",
        "rustc",
        "--manifest-path",
        "/work/crate/Cargo.toml",
        "--lib",
        "--release",
        "--target",
        "wasm32-unknown-unknown",
        "--target-dir",
        "/t/ir-rustc_1.86-optz",
        "--config",
        "profile.release.opt-level=z",
    ]);
    expected.extend(strs(&EMIT));
    assert_eq!(args, expected);
}

#[test]
fn debug_build_has_no_release_flag() {
    let args = cargo_rustc_args_for(&ctx(true), &EnvSpec::debug(), "/t/ir-debug", "C:\\noop.bat");
    assert!(!args.iter().any(|a| a == "--release"));
    assert_eq!(args.last().unwrap(), "-Zcrate-attr=feature(asm_experimental_arch)");
    assert!(args.iter().any(|a| a == "linker=C:\\noop.bat"));
}

#[test]
fn toolchain_probe() {
    assert_eq!(toolchain_probe_args("1.86"), strs(&["run", "1.86", "cargo", "--version"]));
}

#[test]
fn deps_directories() {
    assert_eq!(deps_dir_parts(&EnvSpec::default_env()), strs(&["release", "deps"]));
    assert_eq!(deps_dir_parts(&EnvSpec::debug()), strs(&["debug", "deps"]));
    assert_eq!(
        deps_dir_parts(&EnvSpec::target("wasm32-unknown-unknown")),
        strs(&["wasm32-unknown-unknown", "release", "deps"])
    );
}

#[test]
fn ll_extension() {
    assert!(is_ll_file("basic-0123abcd.ll"));
    assert!(is_ll_file("a.b.ll"));
    assert!(is_ll_file("..ll"));
    assert!(!is_ll_file(".ll"));
    assert!(!is_ll_file("basic.ll.d"));
    assert!(!is_ll_file("basic.lll"));
    assert!(!is_ll_file("basic"));
    assert!(!is_ll_file("basic.l"));
}

#[test]
fn ll_prefix_of_crate() {
    assert_eq!(ll_file_prefix("my-crate"), "my_crate-");
    assert_eq!(ll_file_prefix("basic"), "basic-");
    assert_eq!(ll_file_prefix(""), "-");
}

#[test]
fn picking_the_ir_file() {
    let names = strs(&["other-1.ll", "basic-1.ll", "basic-1.d", "basic-2.ll", "basic-3.ll"]);
    let mtimes = vec![50, 10, 99, 30, 30];
    // newest prefixed file, first of equal times
    assert_eq!(pick_ll_file(&names, &mtimes, "basic-"), Some(3));
    // no prefixed file: newest IR file of all
    assert_eq!(pick_ll_file(&names, &mtimes, "zzz-"), Some(0));
    // no IR file at all
    assert_eq!(pick_ll_file(&strs(&["a.d", "b.rlib"]), &vec![1, 2], "a-"), None);
    assert_eq!(pick_ll_file(&Vec::new(), &Vec::new(), "a-"), None);
}
