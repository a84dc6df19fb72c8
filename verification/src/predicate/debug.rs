//! The `debug` predicate: the IR was built in debug mode.
use vstd::prelude::*;

use crate::env::{env_text, envs_view, EnvSpec, EnvView, OptLevel, OptView};
use crate::ir::FunctionView;
use crate::{res_view, FunctionIr, Predicate};

verus! {

broadcast use vstd::string::group_string_axioms;

/// Environment predicate that builds IR in debug mode (without `--release`).
///
/// In debug mode, `debug_assert!` is present, integer overflow panics, etc.
pub struct Debug;

#[allow(non_upper_case_globals)]
pub const debug: Debug = Debug;

impl Predicate for Debug {
    open spec fn ready(&self) -> bool {
        true
    }

    open spec fn evaluable(&self, fn_name: Seq<char>, functions: Seq<FunctionView>, env: EnvView) -> bool {
        true
    }

    open spec fn outcome(&self, fn_name: Seq<char>, functions: Seq<FunctionView>, env: EnvView) -> Result<
        (),
        Seq<char>,
    > {
        if env.opt is Debug {
            Ok(())
        } else {
            Err("expected debug build, got "@ + env_text(env))
        }
    }

    fn evaluate(&self, fn_name: &str, functions: &Vec<FunctionIr>, env: &EnvSpec) -> (r: Result<
        (),
        String,
    >) {
        if let OptLevel::Debug = env.opt_level {
            Ok(())
        } else {
            let mut s = String::from_str("expected debug build, got ");
            let e = env.text();
            s.append(e.as_str());
            Err(s)
        }
    }

    fn can_evaluate(&self, fn_name: &str, functions: &Vec<FunctionIr>, env: &EnvSpec) -> (b: bool) {
        true
    }

    open spec fn refusal(&self, fn_name: Seq<char>, functions: Seq<FunctionView>, env: EnvView) -> Seq<char> {
        seq![]
    }

    fn refusal_message(&self, fn_name: &str, functions: &Vec<FunctionIr>, env: &EnvSpec) -> (m: String) {
        String::new()
    }

    open spec fn conflict(&self) -> Option<Seq<char>> {
        None
    }

    fn environment_conflict(&self) -> (r: Option<String>) {
        None
    }

    open spec fn collectable(&self) -> bool {
        true
    }

    open spec fn environments(&self) -> Seq<EnvView> {
        seq![EnvView { rustc: None, target: None, opt: OptView::Debug }]
    }

    fn environments_compatible(&self) -> (b: bool) {
        true
    }

    fn collect_environments(&self, envs: &mut Vec<EnvSpec>) {
        let ghost before = envs_view(envs@);
        envs.push(EnvSpec::debug());
        assert(envs_view(envs@) =~= before + self.environments());
    }

    open spec fn text(&self) -> Seq<char> {
        "debug"@
    }

    fn to_string(&self) -> (s: String) {
        String::from_str("debug")
    }
}

} // verus!
