//! Predicate DSL: function-level IR properties, block-level predicates,
//! environment predicates and their logical composition.
pub mod combinators;
pub mod debug;
pub mod dsl;
pub mod no_panic;
pub mod ops;

use vstd::prelude::*;

use crate::env::{EnvSpec, EnvView, OptView};
pub use debug::debug;
pub use dsl::{BasicBlocks, Property, PropertyAccess};
pub use no_panic::{no_panic, NoPanic};

verus! {

broadcast use vstd::string::group_string_axioms;

/// Function-level/basic-block entry point: `basic_blocks.len().eq(1)`,
/// `basic_blocks.at(0).calls().len().eq(0)`, `basic_blocks.all(|bb| ...)`.
#[allow(non_upper_case_globals)]
pub const basic_blocks: BasicBlocks = BasicBlocks;

/// Function-level call count: `calls.len()`.
#[allow(non_upper_case_globals)]
pub const calls: PropertyAccess = PropertyAccess::Calls;

/// Function-level instruction count: `instructions.len()`.
#[allow(non_upper_case_globals)]
pub const instructions: PropertyAccess = PropertyAccess::Instructions;

/// Function-level alloca count: `allocas.len()`.
#[allow(non_upper_case_globals)]
pub const allocas: PropertyAccess = PropertyAccess::Allocas;

/// Function-level branch/switch count: `branches.len()`.
#[allow(non_upper_case_globals)]
pub const branches: PropertyAccess = PropertyAccess::Branches;

/// Function-level phi-node count: `phi_nodes.len()`.
#[allow(non_upper_case_globals)]
pub const phi_nodes: PropertyAccess = PropertyAccess::PhiNodes;

/// The environment with no requirement: the host target, the default
/// toolchain, the release profile.
pub fn target_default() -> (r: EnvSpec)
    ensures
        r@ == crate::env::default_view(),
{
    EnvSpec::default_env()
}

/// Returns a predicate that selects a specific rustc toolchain version.
/// When combined with IR predicates, the IR will be generated using that toolchain.
pub fn rustc(version: &'static str) -> (r: EnvSpec)
    ensures
        r@ == (EnvView { rustc: Some(version@), target: None, opt: OptView::Any }),
{
    EnvSpec::rustc(version)
}

/// Returns a predicate that selects a specific target triple.
/// When combined with IR predicates, the IR will be generated for that target.
pub fn target(triple: &'static str) -> (r: EnvSpec)
    ensures
        r@ == (EnvView { rustc: None, target: Some(triple@), opt: OptView::Any }),
{
    EnvSpec::target(triple)
}

fn opt_level(level: &'static str) -> (r: EnvSpec)
    ensures
        r@ == (EnvView { rustc: None, target: None, opt: OptView::Level(level@) }),
{
    EnvSpec::opt_level(level)
}

/// Select the `wasm32-unknown-unknown` target environment.
pub fn target_wasm32_unknown_unknown() -> (r: EnvSpec)
    ensures
        r@ == (EnvView { rustc: None, target: Some("wasm32-unknown-unknown"@), opt: OptView::Any }),
{
    target("wasm32-unknown-unknown")
}

/// Select the `x86_64-unknown-linux-gnu` target environment.
pub fn target_x86_64_unknown_linux_gnu() -> (r: EnvSpec)
    ensures
        r@ == (EnvView { rustc: None, target: Some("x86_64-unknown-linux-gnu"@), opt: OptView::Any }),
{
    target("x86_64-unknown-linux-gnu")
}

/// Select the `x86_64-apple-darwin` target environment.
pub fn target_x86_64_apple_darwin() -> (r: EnvSpec)
    ensures
        r@ == (EnvView { rustc: None, target: Some("x86_64-apple-darwin"@), opt: OptView::Any }),
{
    target("x86_64-apple-darwin")
}

/// Select the `aarch64-apple-darwin` target environment.
pub fn target_aarch64_apple_darwin() -> (r: EnvSpec)
    ensures
        r@ == (EnvView { rustc: None, target: Some("aarch64-apple-darwin"@), opt: OptView::Any }),
{
    target("aarch64-apple-darwin")
}

/// Select the `aarch64-unknown-linux-gnu` target environment.
pub fn target_aarch64_unknown_linux_gnu() -> (r: EnvSpec)
    ensures
        r@ == (EnvView { rustc: None, target: Some("aarch64-unknown-linux-gnu"@), opt: OptView::Any }),
{
    target("aarch64-unknown-linux-gnu")
}

/// Select the `x86_64-pc-windows-msvc` target environment.
pub fn target_x86_64_pc_windows_msvc() -> (r: EnvSpec)
    ensures
        r@ == (EnvView { rustc: None, target: Some("x86_64-pc-windows-msvc"@), opt: OptView::Any }),
{
    target("x86_64-pc-windows-msvc")
}

/// Select the `aarch64-pc-windows-msvc` target environment.
pub fn target_aarch64_pc_windows_msvc() -> (r: EnvSpec)
    ensures
        r@ == (EnvView { rustc: None, target: Some("aarch64-pc-windows-msvc"@), opt: OptView::Any }),
{
    target("aarch64-pc-windows-msvc")
}

/// Select optimization level `0`.
pub fn opt0() -> (r: EnvSpec)
    ensures
        r@ == (EnvView { rustc: None, target: None, opt: OptView::Level("0"@) }),
{
    opt_level("0")
}

/// Select optimization level `1`.
pub fn opt1() -> (r: EnvSpec)
    ensures
        r@ == (EnvView { rustc: None, target: None, opt: OptView::Level("1"@) }),
{
    opt_level("1")
}

/// Select optimization level `2`.
pub fn opt2() -> (r: EnvSpec)
    ensures
        r@ == (EnvView { rustc: None, target: None, opt: OptView::Level("2"@) }),
{
    opt_level("2")
}

/// Select optimization level `3`.
pub fn opt3() -> (r: EnvSpec)
    ensures
        r@ == (EnvView { rustc: None, target: None, opt: OptView::Level("3"@) }),
{
    opt_level("3")
}

/// Select optimization level `s`.
pub fn opt_s() -> (r: EnvSpec)
    ensures
        r@ == (EnvView { rustc: None, target: None, opt: OptView::Level("s"@) }),
{
    opt_level("s")
}

/// Select optimization level `z`.
pub fn opt_z() -> (r: EnvSpec)
    ensures
        r@ == (EnvView { rustc: None, target: None, opt: OptView::Level("z"@) }),
{
    opt_level("z")
}

} // verus!
