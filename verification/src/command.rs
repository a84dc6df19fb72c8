//! The command lines that build a crate's LLVM IR for one environment and
//! that check a toolchain is installed.
use vstd::prelude::*;

use crate::env::{EnvSpec, EnvView, OptLevel, OptView};
use crate::ir::strings_view;

verus! {

broadcast use vstd::string::group_string_axioms;

/// What the caller passes to every build of one assertion.
pub struct BuildContext {
    /// The `cargo` of the default toolchain.
    pub cargo: String,
    /// The `rustup` that runs other toolchains.
    pub rustup: String,
    /// The directory of the crate's `Cargo.toml`.
    pub manifest_dir: String,
    /// The crate (or test) being compiled.
    pub crate_name: String,
    /// Whether it is compiled as a test harness.
    pub is_test: bool,
}

/// `rustc --manifest-path <manifest_dir>/Cargo.toml`
pub open spec fn manifest_args(manifest_dir: Seq<char>) -> Seq<Seq<char>> {
    seq!["rustc"@, "--manifest-path"@, manifest_dir + "/Cargo.toml"@]
}

/// The test harness `crate_name`, or the library.
pub open spec fn unit_args(is_test: bool, crate_name: Seq<char>) -> Seq<Seq<char>> {
    if is_test {
        seq!["--test"@, crate_name]
    } else {
        seq!["--lib"@]
    }
}

/// The release profile, unless `e` asks for a debug build.
pub open spec fn profile_args(e: EnvView) -> Seq<Seq<char>> {
    if e.opt is Debug {
        seq![]
    } else {
        seq!["--release"@]
    }
}

/// The target triple of `e`, when it names one.
pub open spec fn target_args(e: EnvView) -> Seq<Seq<char>> {
    match e.target {
        Some(t) => seq!["--target"@, t],
        None => seq![],
    }
}

/// The optimization level of `e`, when it names one.
pub open spec fn opt_args(e: EnvView) -> Seq<Seq<char>> {
    match e.opt {
        OptView::Level(l) => seq!["--config"@, "profile.release.opt-level="@ + l],
        _ => seq![],
    }
}

/// The compiler flags: emit the IR, one codegen unit, no debug info, and
/// `linker` in place of the linker.
pub open spec fn emit_args(linker: Seq<char>) -> Seq<Seq<char>> {
    seq![
        "--"@,
        "--emit=llvm-ir"@,
        "-C"@,
        "strip=debuginfo"@,
        "-C"@,
        "codegen-units=1"@,
        "-C"@,
        "linker="@ + linker,
        "-Zcrate-attr=feature(asm_experimental_arch)"@,
    ]
}

/// The arguments of `cargo rustc` that emit the IR for `e`, into
/// `target_dir`, with `linker` as the (no-op) linker.
pub open spec fn cargo_rustc_args(
    manifest_dir: Seq<char>,
    crate_name: Seq<char>,
    is_test: bool,
    e: EnvView,
    target_dir: Seq<char>,
    linker: Seq<char>,
) -> Seq<Seq<char>> {
    manifest_args(manifest_dir) + unit_args(is_test, crate_name) + profile_args(e) + target_args(e)
        + seq!["--target-dir"@, target_dir] + opt_args(e) + emit_args(linker)
}

/// The program and arguments that build the IR for `e`: the default
/// toolchain's `cargo` when `e` names no toolchain, else `rustup run` with
/// the named one.
pub open spec fn ir_build_command(
    cargo: Seq<char>,
    rustup: Seq<char>,
    manifest_dir: Seq<char>,
    crate_name: Seq<char>,
    is_test: bool,
    e: EnvView,
    target_dir: Seq<char>,
    linker: Seq<char>,
) -> (Seq<char>, Seq<Seq<char>>) {
    let args = cargo_rustc_args(manifest_dir, crate_name, is_test, e, target_dir, linker);
    match e.rustc {
        Some(v) => (rustup, seq!["run"@, v, "cargo"@] + args),
        None => (cargo, args),
    }
}

/// The arguments to `rustup` that ask the toolchain `version` for its cargo's version.
pub open spec fn toolchain_probe(version: Seq<char>) -> Seq<Seq<char>> {
    seq!["run"@, version, "cargo"@, "--version"@]
}

fn push_str(v: &mut Vec<String>, s: &str)
    ensures
        strings_view(final(v)@) == strings_view(old(v)@).push(s@),
{
    v.push(String::from_str(s));
    assert(strings_view(v@) =~= strings_view(old(v)@).push(s@));
}

fn push_joined(v: &mut Vec<String>, a: &str, b: &str)
    ensures
        strings_view(final(v)@) == strings_view(old(v)@).push(a@ + b@),
{
    let mut s = String::from_str(a);
    s.append(b);
    v.push(s);
    assert(strings_view(v@) =~= strings_view(old(v)@).push(a@ + b@));
}

fn push_piece(v: &mut Vec<String>, piece: Vec<String>)
    ensures
        strings_view(final(v)@) == strings_view(old(v)@) + strings_view(piece@),
{
    let mut piece = piece;
    let ghost pv = piece@;
    v.append(&mut piece);
    assert(strings_view(v@) =~= strings_view(old(v)@) + strings_view(pv));
}

fn manifest_piece(manifest_dir: &str) -> (v: Vec<String>)
    ensures
        strings_view(v@) == manifest_args(manifest_dir@),
{
    let mut v: Vec<String> = Vec::new();
    push_str(&mut v, "rustc");
    push_str(&mut v, "--manifest-path");
    push_joined(&mut v, manifest_dir, "/Cargo.toml");
    assert(strings_view(v@) =~= manifest_args(manifest_dir@));
    v
}

fn unit_piece(is_test: bool, crate_name: &str) -> (v: Vec<String>)
    ensures
        strings_view(v@) == unit_args(is_test, crate_name@),
{
    let mut v: Vec<String> = Vec::new();
    if is_test {
        push_str(&mut v, "--test");
        push_str(&mut v, crate_name);
    } else {
        push_str(&mut v, "--lib");
    }
    assert(strings_view(v@) =~= unit_args(is_test, crate_name@));
    v
}

fn env_pieces(env: &EnvSpec) -> (r: (Vec<String>, Vec<String>, Vec<String>))
    ensures
        strings_view(r.0@) == profile_args(env@),
        strings_view(r.1@) == target_args(env@),
        strings_view(r.2@) == opt_args(env@),
{
    let mut p: Vec<String> = Vec::new();
    match env.opt_level {
        OptLevel::Debug => {},
        _ => {
            push_str(&mut p, "--release");
        },
    }
    assert(strings_view(p@) =~= profile_args(env@));
    let mut t: Vec<String> = Vec::new();
    if let Some(triple) = env.target {
        push_str(&mut t, "--target");
        push_str(&mut t, triple);
    }
    assert(strings_view(t@) =~= target_args(env@));
    let mut o: Vec<String> = Vec::new();
    if let OptLevel::OptLevel(level) = env.opt_level {
        push_str(&mut o, "--config");
        push_joined(&mut o, "profile.release.opt-level=", level);
    }
    assert(strings_view(o@) =~= opt_args(env@));
    (p, t, o)
}

fn emit_piece(linker: &str) -> (v: Vec<String>)
    ensures
        strings_view(v@) == emit_args(linker@),
{
    let mut v: Vec<String> = Vec::new();
    push_str(&mut v, "--");
    push_str(&mut v, "--emit=llvm-ir");
    push_str(&mut v, "-C");
    push_str(&mut v, "strip=debuginfo");
    push_str(&mut v, "-C");
    push_str(&mut v, "codegen-units=1");
    push_str(&mut v, "-C");
    push_joined(&mut v, "linker=", linker);
    push_str(&mut v, "-Zcrate-attr=feature(asm_experimental_arch)");
    assert(strings_view(v@) =~= emit_args(linker@));
    v
}

/// The arguments of `cargo rustc` for `ctx`'s crate, `env`, `target_dir`
/// and `linker`.
pub fn cargo_rustc_args_for(ctx: &BuildContext, env: &EnvSpec, target_dir: &str, linker: &str) -> (v:
    Vec<String>)
    ensures
        strings_view(v@) == cargo_rustc_args(
            ctx.manifest_dir@,
            ctx.crate_name@,
            ctx.is_test,
            env@,
            target_dir@,
            linker@,
        ),
{
    let mut v = manifest_piece(ctx.manifest_dir.as_str());
    push_piece(&mut v, unit_piece(ctx.is_test, ctx.crate_name.as_str()));
    let (p, t, o) = env_pieces(env);
    push_piece(&mut v, p);
    push_piece(&mut v, t);
    let mut d: Vec<String> = Vec::new();
    push_str(&mut d, "--target-dir");
    push_str(&mut d, target_dir);
    assert(strings_view(d@) =~= seq!["--target-dir"@, target_dir@]);
    push_piece(&mut v, d);
    push_piece(&mut v, o);
    push_piece(&mut v, emit_piece(linker));
    v
}

/// The command that builds the IR of `ctx`'s crate for `env` into
/// `target_dir`, linking with `linker`.
pub fn ir_build_command_for(ctx: &BuildContext, env: &EnvSpec, target_dir: &str, linker: &str) -> (r: (
    String,
    Vec<String>,
))
    ensures
        (r.0@, strings_view(r.1@)) == ir_build_command(
            ctx.cargo@,
            ctx.rustup@,
            ctx.manifest_dir@,
            ctx.crate_name@,
            ctx.is_test,
            env@,
            target_dir@,
            linker@,
        ),
{
    let mut args = cargo_rustc_args_for(ctx, env, target_dir, linker);
    match env.rustc {
        Some(version) => {
            let mut v: Vec<String> = Vec::new();
            push_str(&mut v, "run");
            push_str(&mut v, version);
            push_str(&mut v, "cargo");
            let ghost pre = v@;
            let ghost rest = args@;
            v.append(&mut args);
            assert(strings_view(v@) =~= strings_view(pre) + strings_view(rest));
            assert(strings_view(pre) =~= seq!["run"@, version@, "cargo"@]);
            (ctx.rustup.clone(), v)
        },
        None => (ctx.cargo.clone(), args),
    }
}

/// The arguments to `rustup` that check the toolchain `version` is installed.
pub fn toolchain_probe_args(version: &str) -> (v: Vec<String>)
    ensures
        strings_view(v@) == toolchain_probe(version@),
{
    let mut v: Vec<String> = Vec::new();
    push_str(&mut v, "run");
    push_str(&mut v, version);
    push_str(&mut v, "cargo");
    push_str(&mut v, "--version");
    assert(strings_view(v@) =~= toolchain_probe(version@));
    v
}

/// The release profile is asked for exactly when the environment does not
/// ask for a debug build: for any other optimization level (none, release or
/// a named level) the argument after the crate selection is `--release`, and
/// the arguments of a debug build are those of the release build of the same
/// toolchain and target with that `--release` left out.
pub proof fn law_release_profile(
    manifest_dir: Seq<char>,
    crate_name: Seq<char>,
    is_test: bool,
    e: EnvView,
    target_dir: Seq<char>,
    linker: Seq<char>,
)
    ensures
        ({
            let p: int = if is_test { 5 } else { 4 };
            let args = cargo_rustc_args(manifest_dir, crate_name, is_test, e, target_dir, linker);
            let release = EnvView { rustc: e.rustc, target: e.target, opt: OptView::Release };
            &&& !(e.opt is Debug) ==> p < args.len() && args[p] == "--release"@
            &&& e.opt is Debug ==> args == cargo_rustc_args(
                manifest_dir,
                crate_name,
                is_test,
                release,
                target_dir,
                linker,
            ).remove(p)
        }),
{
    let p: int = if is_test { 5 } else { 4 };
    let head = manifest_args(manifest_dir) + unit_args(is_test, crate_name);
    assert(head.len() == p);
    let args = cargo_rustc_args(manifest_dir, crate_name, is_test, e, target_dir, linker);
    let tail = target_args(e) + seq!["--target-dir"@, target_dir] + opt_args(e) + emit_args(linker);
    assert(args =~= head + profile_args(e) + tail);
    if !(e.opt is Debug) {
        assert(args[p] == profile_args(e)[0]);
    } else {
        let release = EnvView { rustc: e.rustc, target: e.target, opt: OptView::Release };
        let rargs = cargo_rustc_args(manifest_dir, crate_name, is_test, release, target_dir, linker);
        assert(opt_args(release) =~= opt_args(e));
        assert(target_args(release) =~= target_args(e));
        assert(rargs =~= head + seq!["--release"@] + tail);
        assert(args =~= rargs.remove(p));
    }
}

} // verus!
