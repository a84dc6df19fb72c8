//! IR-level assertions: read the LLVM IR that the compiler emits for a
//! function and check properties of it (number of basic blocks, calls,
//! instructions, allocas, branches, phi nodes, reachability of panics),
//! optionally per build environment.
use vstd::prelude::*;

pub mod locate;
pub mod assertion;
pub mod command;
pub mod invocation;
pub mod env;
pub mod ir;
pub mod predicate;
pub mod text;

pub use env::{EnvSpec, EnvView, OptLevel};
pub use ir::{BasicBlockIr, FunctionIr, FunctionView};

use env::envs_view;
use ir::functions_view;

verus! {

/// A check's result as plain values.
pub open spec fn res_view(r: Result<(), String>) -> Result<(), Seq<char>> {
    match r {
        Ok(()) => Ok(()),
        Err(e) => Err(e@),
    }
}

/// Trait for all predicate types that can be evaluated against a function's IR.
pub trait Predicate {
    /// Every closure in the predicate can be called on the block reference
    /// and always builds the same block predicate.
    spec fn ready(&self) -> bool;

    /// `evaluate` can run to completion on these inputs.
    spec fn evaluable(&self, fn_name: Seq<char>, functions: Seq<FunctionView>, env: EnvView) -> bool;

    /// What `evaluate` returns: `Ok` when the predicate holds, else the reason.
    spec fn outcome(&self, fn_name: Seq<char>, functions: Seq<FunctionView>, env: EnvView) -> Result<
        (),
        Seq<char>,
    >;

    /// Evaluate the predicate against a function's IR, in the environment
    /// that built it. `functions` maps names to functions; a name found more
    /// than once means its last entry.
    fn evaluate(&self, fn_name: &str, functions: &Vec<FunctionIr>, env: &EnvSpec) -> (r: Result<
        (),
        String,
    >)
        requires
            self.ready(),
            self.evaluable(fn_name@, functions_view(functions@), env@),
        ensures
            res_view(r) == self.outcome(fn_name@, functions_view(functions@), env@),
    ;

    /// Whether `evaluate` can run to completion on these inputs.
    fn can_evaluate(&self, fn_name: &str, functions: &Vec<FunctionIr>, env: &EnvSpec) -> (b: bool)
        requires
            self.ready(),
        ensures
            b == self.evaluable(fn_name@, functions_view(functions@), env@),
    ;

    /// What the evaluation reports instead of an outcome on inputs on which it
    /// cannot run (where `evaluable` fails).
    spec fn refusal(&self, fn_name: Seq<char>, functions: Seq<FunctionView>, env: EnvView) -> Seq<char>;

    /// What the evaluation reports instead of an outcome on inputs on which it
    /// cannot run.
    fn refusal_message(&self, fn_name: &str, functions: &Vec<FunctionIr>, env: &EnvSpec) -> (m: String)
        requires
            self.ready(),
        ensures
            m@ == self.refusal(fn_name@, functions_view(functions@), env@),
    ;

    /// `collect_environments` can run to completion.
    spec fn collectable(&self) -> bool;

    /// The report of the first conflict that collecting the environments
    /// meets, in the order the merges happen; `None` when there is none.
    spec fn conflict(&self) -> Option<Seq<char>>;

    /// The report of the first conflict that collecting the environments
    /// would meet; `None` exactly when they can be collected.
    fn environment_conflict(&self) -> (r: Option<String>)
        ensures
            r matches Some(m) ==> self.conflict() == Some(m@),
            r is None ==> self.conflict() is None,
            (r is None) == self.collectable(),
    ;

    /// The environments that the predicate asks for.
    spec fn environments(&self) -> Seq<EnvView>;

    /// Whether `collect_environments` can run (no two environments that must
    /// be merged conflict).
    fn environments_compatible(&self) -> (b: bool)
        ensures
            b == self.collectable(),
    ;

    /// Collect all environment specifications referenced by this predicate tree.
    fn collect_environments(&self, envs: &mut Vec<EnvSpec>)
        requires
            self.collectable(),
        ensures
            envs_view(final(envs)@) == envs_view(old(envs)@) + self.environments(),
    ;

    /// How the predicate is written.
    spec fn text(&self) -> Seq<char>;

    /// How the predicate is written.
    fn to_string(&self) -> (s: String)
        ensures
            s@ == self.text(),
    ;
}

} // verus!
