//! Comparisons, block predicates, and the logical and structural predicate
//! combinators.
use vstd::prelude::*;

pub use super::dsl::Property;
use super::dsl::{prop_name, BlockRef};
use crate::env::{default_view, envs_view, env_and, env_conflict, env_or, EnvSpec, EnvView};
use crate::ir::{block_at, block_prop, functions_view, prop_total, BlockView, FunctionIr, FunctionView};
use crate::text::{dec, decimal, indent, push_decimal, push_indented};
use crate::{res_view, Predicate};

verus! {

broadcast use vstd::string::group_string_axioms;

#[derive(Debug, Clone, Copy)]
pub enum CmpOp {
    Eq(usize),
    Ne(usize),
    Lt(usize),
    Le(usize),
    Gt(usize),
    Ge(usize),
}

/// The bound that the comparison compares against.
pub open spec fn op_bound(op: CmpOp) -> usize {
    match op {
        CmpOp::Eq(n) => n,
        CmpOp::Ne(n) => n,
        CmpOp::Lt(n) => n,
        CmpOp::Le(n) => n,
        CmpOp::Gt(n) => n,
        CmpOp::Ge(n) => n,
    }
}

/// The comparison holds of `actual`.
pub open spec fn op_holds(op: CmpOp, actual: usize) -> bool {
    match op {
        CmpOp::Eq(n) => actual == n,
        CmpOp::Ne(n) => actual != n,
        CmpOp::Lt(n) => actual < n,
        CmpOp::Le(n) => actual <= n,
        CmpOp::Gt(n) => actual > n,
        CmpOp::Ge(n) => actual >= n,
    }
}

pub open spec fn op_sym(op: CmpOp) -> Seq<char> {
    match op {
        CmpOp::Eq(_) => "=="@,
        CmpOp::Ne(_) => "!="@,
        CmpOp::Lt(_) => "<"@,
        CmpOp::Le(_) => "<="@,
        CmpOp::Gt(_) => ">"@,
        CmpOp::Ge(_) => ">="@,
    }
}

/// How a comparison is written: `eq(3)`, `le(10)`, ...
pub open spec fn op_text(op: CmpOp) -> Seq<char> {
    let name = match op {
        CmpOp::Eq(_) => "eq("@,
        CmpOp::Ne(_) => "ne("@,
        CmpOp::Lt(_) => "lt("@,
        CmpOp::Le(_) => "le("@,
        CmpOp::Gt(_) => "gt("@,
        CmpOp::Ge(_) => "ge("@,
    };
    name + dec(op_bound(op)) + ")"@
}

/// The result of checking `actual` against `op` for the property `name`.
pub open spec fn check_outcome(op: CmpOp, actual: usize, name: Seq<char>) -> Result<(), Seq<char>> {
    if op_holds(op, actual) {
        Ok(())
    } else {
        Err(name + ": expected "@ + op_sym(op) + " "@ + dec(op_bound(op)) + ", got "@ + dec(actual))
    }
}

impl CmpOp {
    pub fn check(&self, actual: usize, prop_name: &str) -> (r: Result<(), String>)
        ensures
            res_view(r) == check_outcome(*self, actual, prop_name@),
    {
        let (pass, sym, n) = match *self {
            CmpOp::Eq(n) => (actual == n, "==", n),
            CmpOp::Ne(n) => (actual != n, "!=", n),
            CmpOp::Lt(n) => (actual < n, "<", n),
            CmpOp::Le(n) => (actual <= n, "<=", n),
            CmpOp::Gt(n) => (actual > n, ">", n),
            CmpOp::Ge(n) => (actual >= n, ">=", n),
        };
        if pass {
            Ok(())
        } else {
            let mut s = String::new();
            s.append(prop_name);
            s.append(": expected ");
            s.append(sym);
            s.append(" ");
            push_decimal(&mut s, n);
            s.append(", got ");
            push_decimal(&mut s, actual);
            Err(s)
        }
    }

    /// How the comparison is written: `eq(3)`, `le(10)`, ...
    pub fn to_string(&self) -> (s: String)
        ensures
            s@ == op_text(*self),
    {
        let mut s = String::new();
        let n = match *self {
            CmpOp::Eq(n) => {
                s.append("eq(");
                n
            },
            CmpOp::Ne(n) => {
                s.append("ne(");
                n
            },
            CmpOp::Lt(n) => {
                s.append("lt(");
                n
            },
            CmpOp::Le(n) => {
                s.append("le(");
                n
            },
            CmpOp::Gt(n) => {
                s.append("gt(");
                n
            },
            CmpOp::Ge(n) => {
                s.append("ge(");
                n
            },
        };
        push_decimal(&mut s, n);
        s.append(")");
        s
    }
}

// ---------------------------------------------------------------------------
// Looking functions up by name
// ---------------------------------------------------------------------------

/// The function called `name`; where several are, the last one.
pub open spec fn lookup(fns: Seq<FunctionView>, name: Seq<char>) -> Option<FunctionView>
    decreases fns.len(),
{
    if fns.len() == 0 {
        None
    } else if fns.last().name == name {
        Some(fns.last())
    } else {
        lookup(fns.drop_last(), name)
    }
}

/// Index of the function called `name`; where several are, the last one.
pub fn find_function(fn_name: &str, functions: &Vec<FunctionIr>) -> (r: Option<usize>)
    ensures
        r matches Some(i) ==> i < functions@.len() && lookup(functions_view(functions@), fn_name@)
            == Some(functions@[i as int]@),
        r is None ==> lookup(functions_view(functions@), fn_name@) is None,
{
    let ghost fv = functions_view(functions@);
    let mut j = functions.len();
    assert(fv.take(j as int) =~= fv);
    while j > 0
        invariant
            j <= functions@.len(),
            fv == functions_view(functions@),
            lookup(fv, fn_name@) == lookup(fv.take(j as int), fn_name@),
        decreases j,
    {
        assert(fv.take(j as int).drop_last() =~= fv.take(j - 1));
        if crate::text::str_eq(functions[j - 1].name.as_str(), fn_name) {
            return Some(j - 1);
        }
        j -= 1;
    }
    None
}

/// The function called `fn_name`, which must be present.
pub fn get_ir<'a>(fn_name: &str, functions: &'a Vec<FunctionIr>) -> (r: &'a FunctionIr)
    requires
        lookup(functions_view(functions@), fn_name@) is Some,
    ensures
        lookup(functions_view(functions@), fn_name@) == Some(r@),
{
    match find_function(fn_name, functions) {
        Some(i) => &functions[i],
        None => {
            assert(false);
            &functions[0]
        },
    }
}

// ---------------------------------------------------------------------------
// Shared result combinators
// ---------------------------------------------------------------------------

/// Both results must hold; the failures are listed one per line.
pub open spec fn merge_outcome(l: Result<(), Seq<char>>, r: Result<(), Seq<char>>) -> Result<
    (),
    Seq<char>,
> {
    match (l, r) {
        (Ok(()), Ok(())) => Ok(()),
        (Err(e), Ok(())) => Err(e),
        (Ok(()), Err(e)) => Err(e),
        (Err(e1), Err(e2)) => Err(e1 + "\n"@ + e2),
    }
}

/// The first result, or when it failed, the second; both failures reported.
pub open spec fn or_outcome(l: Result<(), Seq<char>>, r: Result<(), Seq<char>>) -> Result<
    (),
    Seq<char>,
> {
    match (l, r) {
        (Ok(()), _) => Ok(()),
        (Err(_), Ok(())) => Ok(()),
        (Err(e1), Err(e2)) => Err(
            "none of the alternatives succeeded:\n  "@ + indent(e1) + "\n  "@ + indent(e2),
        ),
    }
}

/// Success turned into failure and back.
pub open spec fn negate_outcome(r: Result<(), Seq<char>>) -> Result<(), Seq<char>> {
    match r {
        Err(_) => Ok(()),
        Ok(()) => Err("expected predicate to fail, but it succeeded"@),
    }
}

pub fn merge_results(l: Result<(), String>, r: Result<(), String>) -> (out: Result<(), String>)
    ensures
        res_view(out) == merge_outcome(res_view(l), res_view(r)),
{
    match (l, r) {
        (Ok(()), Ok(())) => Ok(()),
        (Err(e), Ok(())) => Err(e),
        (Ok(()), Err(e)) => Err(e),
        (Err(e1), Err(e2)) => {
            let mut s = e1;
            s.append("\n");
            s.append(e2.as_str());
            Err(s)
        },
    }
}

/// Combine the first result with the second, which the caller computes only
/// when the first failed.
pub fn or_results(l: Result<(), String>, r: Result<(), String>) -> (out: Result<(), String>)
    ensures
        res_view(out) == or_outcome(res_view(l), res_view(r)),
{
    match l {
        Ok(()) => Ok(()),
        Err(e1) => match r {
            Ok(()) => Ok(()),
            Err(e2) => {
                let mut s = String::new();
                s.append("none of the alternatives succeeded:\n  ");
                push_indented(&mut s, &e1);
                s.append("\n  ");
                push_indented(&mut s, &e2);
                Err(s)
            },
        },
    }
}

pub fn negate_result(r: Result<(), String>) -> (out: Result<(), String>)
    ensures
        res_view(out) == negate_outcome(res_view(r)),
{
    if r.is_err() {
        Ok(())
    } else {
        Err(String::from_str("expected predicate to fail, but it succeeded"))
    }
}

// ---------------------------------------------------------------------------
// Block predicates
// ---------------------------------------------------------------------------

pub enum BlockPred {
    Cmp { property: Property, op: CmpOp },
    And(Box<BlockPred>, Box<BlockPred>),
    Or(Box<BlockPred>, Box<BlockPred>),
    Not(Box<BlockPred>),
}

/// Every comparison in the predicate reads a block-level property.
pub open spec fn block_pred_wf(p: BlockPred) -> bool
    decreases p,
{
    match p {
        BlockPred::Cmp { property, .. } => property != Property::BasicBlocksLen,
        BlockPred::And(l, r) => block_pred_wf(*l) && block_pred_wf(*r),
        BlockPred::Or(l, r) => block_pred_wf(*l) && block_pred_wf(*r),
        BlockPred::Not(q) => block_pred_wf(*q),
    }
}

/// What the predicate gives on one block.
pub open spec fn block_outcome(p: BlockPred, b: BlockView) -> Result<(), Seq<char>>
    decreases p,
{
    match p {
        BlockPred::Cmp { property, op } => check_outcome(
            op,
            block_prop(b, property) as usize,
            prop_name(property),
        ),
        BlockPred::And(l, r) => merge_outcome(block_outcome(*l, b), block_outcome(*r, b)),
        BlockPred::Or(l, r) => or_outcome(block_outcome(*l, b), block_outcome(*r, b)),
        BlockPred::Not(q) => negate_outcome(block_outcome(*q, b)),
    }
}

impl BlockPred {
    /// Every comparison in the predicate reads a block-level property.
    pub fn well_formed(&self) -> (b: bool)
        ensures
            b == block_pred_wf(*self),
        decreases self,
    {
        match self {
            BlockPred::Cmp { property, .. } => match property {
                Property::BasicBlocksLen => false,
                _ => true,
            },
            BlockPred::And(l, r) => l.well_formed() && r.well_formed(),
            BlockPred::Or(l, r) => l.well_formed() && r.well_formed(),
            BlockPred::Not(q) => q.well_formed(),
        }
    }

    pub fn evaluate_block(&self, f: &FunctionIr, block_idx: usize) -> (r: Result<(), String>)
        requires
            block_pred_wf(*self),
            block_idx < f@.blocks.len(),
        ensures
            res_view(r) == block_outcome(*self, block_at(f@, block_idx)),
        decreases self,
    {
        match self {
            BlockPred::Cmp { property, op } => op.check(
                f.compute_block_property(block_idx, *property),
                property.name(),
            ),
            BlockPred::And(l, r) => merge_results(
                l.evaluate_block(f, block_idx),
                r.evaluate_block(f, block_idx),
            ),
            BlockPred::Or(l, r) => {
                let first = l.evaluate_block(f, block_idx);
                if first.is_ok() {
                    return Ok(());
                }
                or_results(first, r.evaluate_block(f, block_idx))
            },
            BlockPred::Not(p) => negate_result(p.evaluate_block(f, block_idx)),
        }
    }
}

// ---------------------------------------------------------------------------
// Discrete predicate types
// ---------------------------------------------------------------------------

/// The function that the predicate is evaluated on.
pub open spec fn target_fn(fn_name: Seq<char>, functions: Seq<FunctionView>) -> FunctionView {
    lookup(functions, fn_name).unwrap()
}

/// What the evaluation reports for a function missing from the map.
pub open spec fn missing_function(name: Seq<char>) -> Seq<char> {
    "function '"@ + name + "' not found in environment IR map"@
}

pub fn missing_function_message(name: &str) -> (m: String)
    ensures
        m@ == missing_function(name@),
{
    let mut m = String::from_str("function '");
    m.append(name);
    m.append("' not found in environment IR map");
    m
}

/// What the evaluation reports for a block index past the last block.
pub open spec fn index_out_of_bounds(len: nat, index: nat) -> Seq<char> {
    "index out of bounds: the len is "@ + decimal(len) + " but the index is "@ + decimal(index)
}

/// What the evaluation reports for a block predicate on the function-level
/// property `basic_blocks`.
pub open spec fn not_block_level() -> Seq<char> {
    "internal error: entered unreachable code: BasicBlocksLen is not a block-level property"@
}

/// What the evaluation reports when a sum of counts overflows.
pub open spec fn add_overflow() -> Seq<char> {
    "attempt to add with overflow"@
}

/// Single property comparison predicate.
pub struct Cmp {
    pub property: Property,
    pub op: CmpOp,
}

impl Predicate for Cmp {
    open spec fn ready(&self) -> bool {
        true
    }

    open spec fn evaluable(&self, fn_name: Seq<char>, functions: Seq<FunctionView>, env: EnvView) -> bool {
        &&& lookup(functions, fn_name) is Some
        &&& prop_total(target_fn(fn_name, functions), self.property) <= usize::MAX
    }

    open spec fn outcome(&self, fn_name: Seq<char>, functions: Seq<FunctionView>, env: EnvView) -> Result<
        (),
        Seq<char>,
    > {
        check_outcome(
            self.op,
            prop_total(target_fn(fn_name, functions), self.property) as usize,
            prop_name(self.property),
        )
    }

    fn evaluate(&self, fn_name: &str, functions: &Vec<FunctionIr>, env: &EnvSpec) -> (r: Result<
        (),
        String,
    >) {
        let ir = get_ir(fn_name, functions);
        self.op.check(ir.compute_property(self.property), self.property.name())
    }

    fn can_evaluate(&self, fn_name: &str, functions: &Vec<FunctionIr>, env: &EnvSpec) -> (b: bool) {
        match find_function(fn_name, functions) {
            Some(i) => functions[i].property_fits(self.property),
            None => false,
        }
    }

    open spec fn refusal(&self, fn_name: Seq<char>, functions: Seq<FunctionView>, env: EnvView) -> Seq<char> {
        if lookup(functions, fn_name) is None {
            missing_function(fn_name)
        } else {
            add_overflow()
        }
    }

    fn refusal_message(&self, fn_name: &str, functions: &Vec<FunctionIr>, env: &EnvSpec) -> (m: String) {
        match find_function(fn_name, functions) {
            None => missing_function_message(fn_name),
            Some(_) => String::from_str("attempt to add with overflow"),
        }
    }

    open spec fn conflict(&self) -> Option<Seq<char>> {
        None
    }

    fn environment_conflict(&self) -> (r: Option<String>) {
        None
    }

    open spec fn collectable(&self) -> bool {
        true
    }

    open spec fn environments(&self) -> Seq<EnvView> {
        seq![default_view()]
    }

    fn environments_compatible(&self) -> (b: bool) {
        true
    }

    fn collect_environments(&self, envs: &mut Vec<EnvSpec>) {
        let ghost before = envs_view(envs@);
        let d = EnvSpec::default_env();
        envs.push(d);
        assert(envs_view(envs@) =~= before + seq![default_view()]);
    }

    open spec fn text(&self) -> Seq<char> {
        prop_name(self.property) + "."@ + op_text(self.op)
    }

    fn to_string(&self) -> (s: String) {
        let mut s = String::from_str(self.property.name());
        s.append(".");
        let o = self.op.to_string();
        s.append(o.as_str());
        s
    }
}

/// Logical AND combinator.
pub struct And<L, R>(pub L, pub R);

impl<L: Predicate, R: Predicate> Predicate for And<L, R> {
    open spec fn ready(&self) -> bool {
        self.0.ready() && self.1.ready()
    }

    open spec fn evaluable(&self, fn_name: Seq<char>, functions: Seq<FunctionView>, env: EnvView) -> bool {
        &&& self.0.evaluable(fn_name, functions, env)
        &&& self.1.evaluable(fn_name, functions, env)
    }

    open spec fn outcome(&self, fn_name: Seq<char>, functions: Seq<FunctionView>, env: EnvView) -> Result<
        (),
        Seq<char>,
    > {
        merge_outcome(
            self.0.outcome(fn_name, functions, env),
            self.1.outcome(fn_name, functions, env),
        )
    }

    fn evaluate(&self, fn_name: &str, functions: &Vec<FunctionIr>, env: &EnvSpec) -> (r: Result<
        (),
        String,
    >) {
        merge_results(
            self.0.evaluate(fn_name, functions, env),
            self.1.evaluate(fn_name, functions, env),
        )
    }

    fn can_evaluate(&self, fn_name: &str, functions: &Vec<FunctionIr>, env: &EnvSpec) -> (b: bool) {
        self.0.can_evaluate(fn_name, functions, env) && self.1.can_evaluate(fn_name, functions, env)
    }

    open spec fn refusal(&self, fn_name: Seq<char>, functions: Seq<FunctionView>, env: EnvView) -> Seq<char> {
        if !self.0.evaluable(fn_name, functions, env) {
            self.0.refusal(fn_name, functions, env)
        } else {
            self.1.refusal(fn_name, functions, env)
        }
    }

    fn refusal_message(&self, fn_name: &str, functions: &Vec<FunctionIr>, env: &EnvSpec) -> (m: String) {
        if !self.0.can_evaluate(fn_name, functions, env) {
            self.0.refusal_message(fn_name, functions, env)
        } else {
            self.1.refusal_message(fn_name, functions, env)
        }
    }

    open spec fn conflict(&self) -> Option<Seq<char>> {
        match self.0.conflict() {
            Some(m) => Some(m),
            None => match self.1.conflict() {
                Some(m) => Some(m),
                None => crate::env::cross_conflict(self.0.environments(), self.1.environments(), 0),
            },
        }
    }

    fn environment_conflict(&self) -> (r: Option<String>) {
        match self.0.environment_conflict() {
            Some(m) => return Some(m),
            None => {},
        }
        match self.1.environment_conflict() {
            Some(m) => return Some(m),
            None => {},
        }
        let mut lhs: Vec<EnvSpec> = Vec::new();
        let mut rhs: Vec<EnvSpec> = Vec::new();
        self.0.collect_environments(&mut lhs);
        self.1.collect_environments(&mut rhs);
        assert(envs_view(lhs@) =~= self.0.environments());
        assert(envs_view(rhs@) =~= self.1.environments());
        proof {
            crate::env::lemma_cross_conflict_compatible(self.0.environments(), self.1.environments());
        }
        crate::env::first_conflict(&lhs, &rhs)
    }

    open spec fn collectable(&self) -> bool {
        &&& self.0.collectable()
        &&& self.1.collectable()
        &&& crate::env::cross_compatible(self.0.environments(), self.1.environments())
    }

    open spec fn environments(&self) -> Seq<EnvView> {
        crate::env::cross_and(self.0.environments(), self.1.environments())
    }

    fn environments_compatible(&self) -> (b: bool) {
        if !self.0.environments_compatible() || !self.1.environments_compatible() {
            return false;
        }
        let mut lhs: Vec<EnvSpec> = Vec::new();
        let mut rhs: Vec<EnvSpec> = Vec::new();
        self.0.collect_environments(&mut lhs);
        self.1.collect_environments(&mut rhs);
        assert(envs_view(lhs@) =~= self.0.environments());
        assert(envs_view(rhs@) =~= self.1.environments());
        crate::env::all_compatible(&lhs, &rhs)
    }

    fn collect_environments(&self, envs: &mut Vec<EnvSpec>) {
        let mut lhs: Vec<EnvSpec> = Vec::new();
        let mut rhs: Vec<EnvSpec> = Vec::new();
        self.0.collect_environments(&mut lhs);
        self.1.collect_environments(&mut rhs);
        assert(envs_view(lhs@) =~= self.0.environments());
        assert(envs_view(rhs@) =~= self.1.environments());
        crate::env::push_cross_and(&lhs, &rhs, envs);
    }

    open spec fn text(&self) -> Seq<char> {
        "("@ + self.0.text() + " && "@ + self.1.text() + ")"@
    }

    fn to_string(&self) -> (s: String) {
        let mut s = String::from_str("(");
        let l = self.0.to_string();
        s.append(l.as_str());
        s.append(" && ");
        let r = self.1.to_string();
        s.append(r.as_str());
        s.append(")");
        s
    }
}

/// Logical OR combinator.
pub struct Or<L, R>(pub L, pub R);

impl<L: Predicate, R: Predicate> Predicate for Or<L, R> {
    open spec fn ready(&self) -> bool {
        self.0.ready() && self.1.ready()
    }

    open spec fn evaluable(&self, fn_name: Seq<char>, functions: Seq<FunctionView>, env: EnvView) -> bool {
        &&& self.0.evaluable(fn_name, functions, env)
        &&& (self.0.outcome(fn_name, functions, env) is Err ==> self.1.evaluable(
            fn_name,
            functions,
            env,
        ))
    }

    open spec fn outcome(&self, fn_name: Seq<char>, functions: Seq<FunctionView>, env: EnvView) -> Result<
        (),
        Seq<char>,
    > {
        or_outcome(self.0.outcome(fn_name, functions, env), self.1.outcome(fn_name, functions, env))
    }

    fn evaluate(&self, fn_name: &str, functions: &Vec<FunctionIr>, env: &EnvSpec) -> (r: Result<
        (),
        String,
    >) {
        let first = self.0.evaluate(fn_name, functions, env);
        if first.is_ok() {
            return Ok(());
        }
        or_results(first, self.1.evaluate(fn_name, functions, env))
    }

    fn can_evaluate(&self, fn_name: &str, functions: &Vec<FunctionIr>, env: &EnvSpec) -> (b: bool) {
        if !self.0.can_evaluate(fn_name, functions, env) {
            return false;
        }
        self.0.evaluate(fn_name, functions, env).is_ok() || self.1.can_evaluate(fn_name, functions, env)
    }

    open spec fn refusal(&self, fn_name: Seq<char>, functions: Seq<FunctionView>, env: EnvView) -> Seq<char> {
        if !self.0.evaluable(fn_name, functions, env) {
            self.0.refusal(fn_name, functions, env)
        } else {
            self.1.refusal(fn_name, functions, env)
        }
    }

    fn refusal_message(&self, fn_name: &str, functions: &Vec<FunctionIr>, env: &EnvSpec) -> (m: String) {
        if !self.0.can_evaluate(fn_name, functions, env) {
            self.0.refusal_message(fn_name, functions, env)
        } else {
            self.1.refusal_message(fn_name, functions, env)
        }
    }

    open spec fn conflict(&self) -> Option<Seq<char>> {
        match self.0.conflict() {
            Some(m) => Some(m),
            None => self.1.conflict(),
        }
    }

    fn environment_conflict(&self) -> (r: Option<String>) {
        match self.0.environment_conflict() {
            Some(m) => Some(m),
            None => self.1.environment_conflict(),
        }
    }

    open spec fn collectable(&self) -> bool {
        &&& self.0.collectable()
        &&& self.1.collectable()
    }

    open spec fn environments(&self) -> Seq<EnvView> {
        crate::env::or_environments(self.0.environments(), self.1.environments())
    }

    fn environments_compatible(&self) -> (b: bool) {
        self.0.environments_compatible() && self.1.environments_compatible()
    }

    fn collect_environments(&self, envs: &mut Vec<EnvSpec>) {
        let mut lhs: Vec<EnvSpec> = Vec::new();
        let mut rhs: Vec<EnvSpec> = Vec::new();
        self.0.collect_environments(&mut lhs);
        self.1.collect_environments(&mut rhs);
        assert(envs_view(lhs@) =~= self.0.environments());
        assert(envs_view(rhs@) =~= self.1.environments());
        if lhs.len() == 0 {
            crate::env::extend_envs(envs, &rhs);
        } else if rhs.len() == 0 {
            crate::env::extend_envs(envs, &lhs);
        } else {
            let mut merged: Vec<EnvSpec> = Vec::new();
            assert(envs_view(merged@) =~= Seq::<EnvView>::empty());
            crate::env::union_all_exec(&mut merged, &lhs);
            crate::env::union_all_exec(&mut merged, &rhs);
            crate::env::extend_envs(envs, &merged);
        }
    }

    open spec fn text(&self) -> Seq<char> {
        "("@ + self.0.text() + " || "@ + self.1.text() + ")"@
    }

    fn to_string(&self) -> (s: String) {
        let mut s = String::from_str("(");
        let l = self.0.to_string();
        s.append(l.as_str());
        s.append(" || ");
        let r = self.1.to_string();
        s.append(r.as_str());
        s.append(")");
        s
    }
}

/// Logical NOT combinator.
pub struct Not<P>(pub P);

impl<P: Predicate> Predicate for Not<P> {
    open spec fn ready(&self) -> bool {
        self.0.ready()
    }

    open spec fn evaluable(&self, fn_name: Seq<char>, functions: Seq<FunctionView>, env: EnvView) -> bool {
        self.0.evaluable(fn_name, functions, env)
    }

    open spec fn outcome(&self, fn_name: Seq<char>, functions: Seq<FunctionView>, env: EnvView) -> Result<
        (),
        Seq<char>,
    > {
        negate_outcome(self.0.outcome(fn_name, functions, env))
    }

    fn evaluate(&self, fn_name: &str, functions: &Vec<FunctionIr>, env: &EnvSpec) -> (r: Result<
        (),
        String,
    >) {
        negate_result(self.0.evaluate(fn_name, functions, env))
    }

    fn can_evaluate(&self, fn_name: &str, functions: &Vec<FunctionIr>, env: &EnvSpec) -> (b: bool) {
        self.0.can_evaluate(fn_name, functions, env)
    }

    open spec fn refusal(&self, fn_name: Seq<char>, functions: Seq<FunctionView>, env: EnvView) -> Seq<char> {
        self.0.refusal(fn_name, functions, env)
    }

    fn refusal_message(&self, fn_name: &str, functions: &Vec<FunctionIr>, env: &EnvSpec) -> (m: String) {
        self.0.refusal_message(fn_name, functions, env)
    }

    open spec fn conflict(&self) -> Option<Seq<char>> {
        self.0.conflict()
    }

    fn environment_conflict(&self) -> (r: Option<String>) {
        self.0.environment_conflict()
    }

    open spec fn collectable(&self) -> bool {
        self.0.collectable()
    }

    open spec fn environments(&self) -> Seq<EnvView> {
        self.0.environments()
    }

    fn environments_compatible(&self) -> (b: bool) {
        self.0.environments_compatible()
    }

    fn collect_environments(&self, envs: &mut Vec<EnvSpec>) {
        self.0.collect_environments(envs);
    }

    open spec fn text(&self) -> Seq<char> {
        "!("@ + self.0.text() + ")"@
    }

    fn to_string(&self) -> (s: String) {
        let mut s = String::from_str("!(");
        let p = self.0.to_string();
        s.append(p.as_str());
        s.append(")");
        s
    }
}

/// The first block, at or after `i`, on which `p` fails.
pub open spec fn first_failing(p: BlockPred, blocks: Seq<BlockView>, i: int) -> Option<int>
    decreases blocks.len() - i,
{
    if i < 0 || i >= blocks.len() {
        None
    } else if block_outcome(p, blocks[i]) is Err {
        Some(i)
    } else {
        first_failing(p, blocks, i + 1)
    }
}

/// Some block satisfies `p`.
pub open spec fn some_block_ok(p: BlockPred, blocks: Seq<BlockView>) -> bool {
    exists|i: int| 0 <= i < blocks.len() && block_outcome(p, #[trigger] blocks[i]) is Ok
}

/// What `basic_blocks.all(..)` / `basic_blocks.any(..)` gives on `blocks`.
pub open spec fn quantifier_outcome(require_all: bool, p: BlockPred, blocks: Seq<BlockView>) -> Result<
    (),
    Seq<char>,
> {
    if require_all {
        match first_failing(p, blocks, 0) {
            None => Ok(()),
            Some(i) => Err("basic_blocks.all(): failed at block "@ + decimal(i as nat)),
        }
    } else if some_block_ok(p, blocks) {
        Ok(())
    } else {
        Err("basic_blocks.any(): no block satisfied the predicate"@)
    }
}

/// The block predicate that `f` builds from the block reference.
pub open spec fn built_pred<F: Fn(BlockRef) -> BlockPred>(f: F) -> BlockPred {
    choose|p: BlockPred| f.ensures((BlockRef::spec_new(),), p)
}

/// `f` can be called on the block reference, and every call builds the same
/// block predicate.
pub open spec fn builds_one<F: Fn(BlockRef) -> BlockPred>(f: F) -> bool {
    &&& f.requires((BlockRef::spec_new(),))
    &&& forall|p: BlockPred, q: BlockPred|
        f.ensures((BlockRef::spec_new(),), p) && f.ensures((BlockRef::spec_new(),), q) ==> p == q
}

/// Calls `f` on a fresh block reference.
fn build_pred<F: Fn(BlockRef) -> BlockPred>(f: &F) -> (p: BlockPred)
    requires
        builds_one(*f),
    ensures
        p == built_pred(*f),
{
    let b = BlockRef::new();
    let p = f(b);
    assert(f.ensures((BlockRef::spec_new(),), built_pred(*f)));
    p
}

/// Block quantifier predicate (all/any): `f` builds the block predicate
/// that every block (all) or some block (any) must satisfy; it is called
/// once per block examined.
pub struct Quantifier<F> {
    pub require_all: bool,
    pub f: F,
}

impl<F: Fn(BlockRef) -> BlockPred> Predicate for Quantifier<F> {
    open spec fn ready(&self) -> bool {
        builds_one(self.f)
    }

    open spec fn evaluable(&self, fn_name: Seq<char>, functions: Seq<FunctionView>, env: EnvView) -> bool {
        &&& lookup(functions, fn_name) is Some
        &&& target_fn(fn_name, functions).blocks.len() > 0 ==> block_pred_wf(built_pred(self.f))
    }

    open spec fn outcome(&self, fn_name: Seq<char>, functions: Seq<FunctionView>, env: EnvView) -> Result<
        (),
        Seq<char>,
    > {
        quantifier_outcome(self.require_all, built_pred(self.f), target_fn(fn_name, functions).blocks)
    }

    fn evaluate(&self, fn_name: &str, functions: &Vec<FunctionIr>, env: &EnvSpec) -> (r: Result<
        (),
        String,
    >) {
        let ir = get_ir(fn_name, functions);
        let ghost blocks = ir@.blocks;
        let ghost pred = built_pred(self.f);
        assert(target_fn(fn_name@, functions_view(functions@)).blocks == blocks);
        let mut i: usize = 0;
        while i < ir.blocks.len()
            invariant
                blocks == ir@.blocks,
                target_fn(fn_name@, functions_view(functions@)).blocks == blocks,
                i <= blocks.len(),
                builds_one(self.f),
                pred == built_pred(self.f),
                blocks.len() > 0 ==> block_pred_wf(pred),
                self.require_all ==> first_failing(pred, blocks, 0) == first_failing(
                    pred,
                    blocks,
                    i as int,
                ),
                !self.require_all ==> forall|j: int|
                    0 <= j < i ==> block_outcome(pred, #[trigger] blocks[j]) is Err,
            decreases blocks.len() - i,
        {
            let p = build_pred(&self.f);
            let res = p.evaluate_block(ir, i);
            let ok = res.is_ok();
            assert(block_at(ir@, i) == blocks[i as int]);
            assert(ok == (block_outcome(pred, blocks[i as int]) is Ok));
            if self.require_all && !ok {
                let mut s = String::from_str("basic_blocks.all(): failed at block ");
                push_decimal(&mut s, i);
                assert(first_failing(pred, blocks, i as int) == Some(i as int));
                return Err(s);
            }
            if !self.require_all && ok {
                assert(block_outcome(pred, blocks[i as int]) is Ok);
                return Ok(());
            }
            i += 1;
        }
        if self.require_all {
            Ok(())
        } else {
            Err(String::from_str("basic_blocks.any(): no block satisfied the predicate"))
        }
    }

    fn can_evaluate(&self, fn_name: &str, functions: &Vec<FunctionIr>, env: &EnvSpec) -> (b: bool) {
        match find_function(fn_name, functions) {
            None => false,
            Some(k) => {
                if functions[k].blocks.len() == 0 {
                    true
                } else {
                    build_pred(&self.f).well_formed()
                }
            },
        }
    }

    open spec fn refusal(&self, fn_name: Seq<char>, functions: Seq<FunctionView>, env: EnvView) -> Seq<char> {
        if lookup(functions, fn_name) is None {
            missing_function(fn_name)
        } else {
            not_block_level()
        }
    }

    fn refusal_message(&self, fn_name: &str, functions: &Vec<FunctionIr>, env: &EnvSpec) -> (m: String) {
        match find_function(fn_name, functions) {
            None => missing_function_message(fn_name),
            Some(_) => String::from_str(
                "internal error: entered unreachable code: BasicBlocksLen is not a block-level property",
            ),
        }
    }

    open spec fn conflict(&self) -> Option<Seq<char>> {
        None
    }

    fn environment_conflict(&self) -> (r: Option<String>) {
        None
    }

    open spec fn collectable(&self) -> bool {
        true
    }

    open spec fn environments(&self) -> Seq<EnvView> {
        seq![default_view()]
    }

    fn environments_compatible(&self) -> (b: bool) {
        true
    }

    fn collect_environments(&self, envs: &mut Vec<EnvSpec>) {
        let ghost before = envs_view(envs@);
        let d = EnvSpec::default_env();
        envs.push(d);
        assert(envs_view(envs@) =~= before + seq![default_view()]);
    }

    open spec fn text(&self) -> Seq<char> {
        if self.require_all {
            "basic_blocks.all(|bb| ...)"@
        } else {
            "basic_blocks.any(|bb| ...)"@
        }
    }

    fn to_string(&self) -> (s: String) {
        if self.require_all {
            String::from_str("basic_blocks.all(|bb| ...)")
        } else {
            String::from_str("basic_blocks.any(|bb| ...)")
        }
    }
}

/// What `basic_blocks.at(index)` gives on `f`.
pub open spec fn at_outcome(index: usize, p: BlockPred, f: FunctionView) -> Result<(), Seq<char>> {
    match block_outcome(p, block_at(f, index)) {
        Ok(()) => Ok(()),
        Err(e) => Err("basic_blocks["@ + dec(index) + "]:\n  "@ + indent(e)),
    }
}

/// Indexed block access predicate.
pub struct At {
    pub index: usize,
    pub pred: BlockPred,
}

impl Predicate for At {
    open spec fn ready(&self) -> bool {
        true
    }

    open spec fn evaluable(&self, fn_name: Seq<char>, functions: Seq<FunctionView>, env: EnvView) -> bool {
        &&& lookup(functions, fn_name) is Some
        &&& self.index < target_fn(fn_name, functions).blocks.len()
        &&& block_pred_wf(self.pred)
    }

    open spec fn outcome(&self, fn_name: Seq<char>, functions: Seq<FunctionView>, env: EnvView) -> Result<
        (),
        Seq<char>,
    > {
        at_outcome(self.index, self.pred, target_fn(fn_name, functions))
    }

    fn evaluate(&self, fn_name: &str, functions: &Vec<FunctionIr>, env: &EnvSpec) -> (r: Result<
        (),
        String,
    >) {
        let ir = get_ir(fn_name, functions);
        match self.pred.evaluate_block(ir, self.index) {
            Ok(()) => Ok(()),
            Err(e) => {
                let mut s = String::from_str("basic_blocks[");
                push_decimal(&mut s, self.index);
                s.append("]:\n  ");
                push_indented(&mut s, &e);
                Err(s)
            },
        }
    }

    fn can_evaluate(&self, fn_name: &str, functions: &Vec<FunctionIr>, env: &EnvSpec) -> (b: bool) {
        match find_function(fn_name, functions) {
            Some(i) => self.index < functions[i].blocks.len() && self.pred.well_formed(),
            None => false,
        }
    }

    open spec fn refusal(&self, fn_name: Seq<char>, functions: Seq<FunctionView>, env: EnvView) -> Seq<char> {
        match lookup(functions, fn_name) {
            None => missing_function(fn_name),
            Some(f) => if self.index >= f.blocks.len() {
                index_out_of_bounds(f.blocks.len(), self.index as nat)
            } else {
                not_block_level()
            },
        }
    }

    fn refusal_message(&self, fn_name: &str, functions: &Vec<FunctionIr>, env: &EnvSpec) -> (m: String) {
        match find_function(fn_name, functions) {
            None => missing_function_message(fn_name),
            Some(k) => {
                let n = functions[k].blocks.len();
                if self.index >= n {
                    let mut m = String::from_str("index out of bounds: the len is ");
                    push_decimal(&mut m, n);
                    m.append(" but the index is ");
                    push_decimal(&mut m, self.index);
                    m
                } else {
                    String::from_str(
                        "internal error: entered unreachable code: BasicBlocksLen is not a block-level property",
                    )
                }
            },
        }
    }

    open spec fn conflict(&self) -> Option<Seq<char>> {
        None
    }

    fn environment_conflict(&self) -> (r: Option<String>) {
        None
    }

    open spec fn collectable(&self) -> bool {
        true
    }

    open spec fn environments(&self) -> Seq<EnvView> {
        seq![default_view()]
    }

    fn environments_compatible(&self) -> (b: bool) {
        true
    }

    fn collect_environments(&self, envs: &mut Vec<EnvSpec>) {
        let ghost before = envs_view(envs@);
        let d = EnvSpec::default_env();
        envs.push(d);
        assert(envs_view(envs@) =~= before + seq![default_view()]);
    }

    open spec fn text(&self) -> Seq<char> {
        "basic_blocks.at("@ + dec(self.index) + ").<prop>().len().<cmp>()"@
    }

    fn to_string(&self) -> (s: String) {
        let mut s = String::from_str("basic_blocks.at(");
        push_decimal(&mut s, self.index);
        s.append(").<prop>().len().<cmp>()");
        s
    }
}

// ---------------------------------------------------------------------------
// Laws of the combinators
// ---------------------------------------------------------------------------

/// `p & q` holds exactly when both `p` and `q` hold.
pub proof fn law_and_holds<L: Predicate, R: Predicate>(
    p: And<L, R>,
    fn_name: Seq<char>,
    functions: Seq<FunctionView>,
    env: EnvView,
)
    ensures
        (p.outcome(fn_name, functions, env) is Ok) == (p.0.outcome(fn_name, functions, env) is Ok
            && p.1.outcome(fn_name, functions, env) is Ok),
{
}

/// `p | q` holds exactly when `p` or `q` holds.
pub proof fn law_or_holds<L: Predicate, R: Predicate>(
    p: Or<L, R>,
    fn_name: Seq<char>,
    functions: Seq<FunctionView>,
    env: EnvView,
)
    ensures
        (p.outcome(fn_name, functions, env) is Ok) == (p.0.outcome(fn_name, functions, env) is Ok
            || p.1.outcome(fn_name, functions, env) is Ok),
{
}

/// `!p` holds exactly when `p` fails, and `!!p` holds exactly when `p` holds.
pub proof fn law_not_holds<P: Predicate>(
    p: Not<P>,
    fn_name: Seq<char>,
    functions: Seq<FunctionView>,
    env: EnvView,
)
    ensures
        (p.outcome(fn_name, functions, env) is Ok) == (p.0.outcome(fn_name, functions, env) is Err),
        (Not(p).outcome(fn_name, functions, env) is Ok) == (p.0.outcome(fn_name, functions, env) is Ok),
{
}

/// A comparison holds exactly when the property's value stands in the
/// relation to the bound.
pub proof fn law_comparison_holds(c: Cmp, fn_name: Seq<char>, functions: Seq<FunctionView>, env: EnvView)
    requires
        c.evaluable(fn_name, functions, env),
    ensures
        (c.outcome(fn_name, functions, env) is Ok) == op_holds(
            c.op,
            prop_total(target_fn(fn_name, functions), c.property) as usize,
        ),
{
}

/// A chained comparison such as `basic_blocks.len().ge(2).le(4)` holds
/// exactly when the value lies in the range.
pub proof fn law_chained_range(
    property: Property,
    lo: usize,
    hi: usize,
    fn_name: Seq<char>,
    functions: Seq<FunctionView>,
    env: EnvView,
)
    requires
        (Cmp { property, op: CmpOp::Ge(lo) }).evaluable(fn_name, functions, env),
    ensures
        ({
            let p = And(Cmp { property, op: CmpOp::Ge(lo) }, Cmp { property, op: CmpOp::Le(hi) });
            let v = prop_total(target_fn(fn_name, functions), property);
            (p.outcome(fn_name, functions, env) is Ok) == (lo <= v && v <= hi)
        }),
{
}

pub proof fn lemma_first_failing(p: BlockPred, blocks: Seq<BlockView>, i: int)
    requires
        0 <= i,
    ensures
        first_failing(p, blocks, i) is None <==> forall|j: int|
            i <= j < blocks.len() ==> block_outcome(p, #[trigger] blocks[j]) is Ok,
    decreases blocks.len() - i,
{
    if i < blocks.len() {
        lemma_first_failing(p, blocks, i + 1);
    }
}

/// `basic_blocks.all(f)` holds exactly when every block satisfies the block
/// predicate, and `basic_blocks.any(f)` exactly when some block does.
pub proof fn law_quantifiers(p: BlockPred, blocks: Seq<BlockView>)
    ensures
        (quantifier_outcome(true, p, blocks) is Ok) == (forall|j: int|
            0 <= j < blocks.len() ==> block_outcome(p, #[trigger] blocks[j]) is Ok),
        (quantifier_outcome(false, p, blocks) is Ok) == (exists|j: int|
            0 <= j < blocks.len() && block_outcome(p, #[trigger] blocks[j]) is Ok),
{
    lemma_first_failing(p, blocks, 0);
}

/// `basic_blocks.any(f)` holds exactly when `basic_blocks.all(!f)` fails.
pub proof fn law_any_not_all_not(p: BlockPred, blocks: Seq<BlockView>)
    ensures
        (quantifier_outcome(false, p, blocks) is Ok) == (quantifier_outcome(
            true,
            BlockPred::Not(Box::new(p)),
            blocks,
        ) is Err),
{
    law_quantifiers(p, blocks);
    law_quantifiers(BlockPred::Not(Box::new(p)), blocks);
    if quantifier_outcome(false, p, blocks) is Ok {
        let j = choose|j: int| 0 <= j < blocks.len() && block_outcome(p, #[trigger] blocks[j]) is Ok;
        assert(block_outcome(BlockPred::Not(Box::new(p)), blocks[j]) is Err);
    }
}

/// `basic_blocks.at(i)....` holds exactly when block `i` satisfies the block
/// predicate.
pub proof fn law_at_holds(a: At, fn_name: Seq<char>, functions: Seq<FunctionView>, env: EnvView)
    ensures
        (a.outcome(fn_name, functions, env) is Ok) == (block_outcome(
            a.pred,
            block_at(target_fn(fn_name, functions), a.index),
        ) is Ok),
{
}

// ---------------------------------------------------------------------------
// Chained comparisons
// ---------------------------------------------------------------------------

impl BlockPred {
    /// The comparison `op` on the same property, and-ed to this one.
    fn chain_cmp(self, op: CmpOp) -> (r: BlockPred)
        requires
            self is Cmp,
        ensures
            r == BlockPred::And(Box::new(self), Box::new(BlockPred::Cmp { property: self->property, op })),
    {
        match &self {
            BlockPred::Cmp { property, .. } => {
                let property = *property;
                BlockPred::And(Box::new(self), Box::new(BlockPred::Cmp { property, op }))
            },
            _ => {
                assert(false);
                self
            },
        }
    }

    pub fn eq(self, n: usize) -> (r: BlockPred)
        requires
            self is Cmp,
        ensures
            r == BlockPred::And(Box::new(self), Box::new(BlockPred::Cmp { property: self->property, op: CmpOp::Eq(n) })),
    {
        self.chain_cmp(CmpOp::Eq(n))
    }

    pub fn ne(self, n: usize) -> (r: BlockPred)
        requires
            self is Cmp,
        ensures
            r == BlockPred::And(Box::new(self), Box::new(BlockPred::Cmp { property: self->property, op: CmpOp::Ne(n) })),
    {
        self.chain_cmp(CmpOp::Ne(n))
    }

    pub fn lt(self, n: usize) -> (r: BlockPred)
        requires
            self is Cmp,
        ensures
            r == BlockPred::And(Box::new(self), Box::new(BlockPred::Cmp { property: self->property, op: CmpOp::Lt(n) })),
    {
        self.chain_cmp(CmpOp::Lt(n))
    }

    pub fn le(self, n: usize) -> (r: BlockPred)
        requires
            self is Cmp,
        ensures
            r == BlockPred::And(Box::new(self), Box::new(BlockPred::Cmp { property: self->property, op: CmpOp::Le(n) })),
    {
        self.chain_cmp(CmpOp::Le(n))
    }

    pub fn gt(self, n: usize) -> (r: BlockPred)
        requires
            self is Cmp,
        ensures
            r == BlockPred::And(Box::new(self), Box::new(BlockPred::Cmp { property: self->property, op: CmpOp::Gt(n) })),
    {
        self.chain_cmp(CmpOp::Gt(n))
    }

    pub fn ge(self, n: usize) -> (r: BlockPred)
        requires
            self is Cmp,
        ensures
            r == BlockPred::And(Box::new(self), Box::new(BlockPred::Cmp { property: self->property, op: CmpOp::Ge(n) })),
    {
        self.chain_cmp(CmpOp::Ge(n))
    }
}

impl Cmp {
    pub fn eq(self, n: usize) -> (r: And<Cmp, Cmp>)
        ensures
            r == And(self, Cmp { property: self.property, op: CmpOp::Eq(n) }),
    {
        let prop = self.property;
        And(self, Cmp { property: prop, op: CmpOp::Eq(n) })
    }

    pub fn ne(self, n: usize) -> (r: And<Cmp, Cmp>)
        ensures
            r == And(self, Cmp { property: self.property, op: CmpOp::Ne(n) }),
    {
        let prop = self.property;
        And(self, Cmp { property: prop, op: CmpOp::Ne(n) })
    }

    pub fn lt(self, n: usize) -> (r: And<Cmp, Cmp>)
        ensures
            r == And(self, Cmp { property: self.property, op: CmpOp::Lt(n) }),
    {
        let prop = self.property;
        And(self, Cmp { property: prop, op: CmpOp::Lt(n) })
    }

    pub fn le(self, n: usize) -> (r: And<Cmp, Cmp>)
        ensures
            r == And(self, Cmp { property: self.property, op: CmpOp::Le(n) }),
    {
        let prop = self.property;
        And(self, Cmp { property: prop, op: CmpOp::Le(n) })
    }

    pub fn gt(self, n: usize) -> (r: And<Cmp, Cmp>)
        ensures
            r == And(self, Cmp { property: self.property, op: CmpOp::Gt(n) }),
    {
        let prop = self.property;
        And(self, Cmp { property: prop, op: CmpOp::Gt(n) })
    }

    pub fn ge(self, n: usize) -> (r: And<Cmp, Cmp>)
        ensures
            r == And(self, Cmp { property: self.property, op: CmpOp::Ge(n) }),
    {
        let prop = self.property;
        And(self, Cmp { property: prop, op: CmpOp::Ge(n) })
    }
}

impl<L: Predicate> And<L, Cmp> {
    pub fn eq(self, n: usize) -> (r: And<And<L, Cmp>, Cmp>)
        ensures
            r == And(self, Cmp { property: self.1.property, op: CmpOp::Eq(n) }),
    {
        let prop = self.1.property;
        And(self, Cmp { property: prop, op: CmpOp::Eq(n) })
    }

    pub fn ne(self, n: usize) -> (r: And<And<L, Cmp>, Cmp>)
        ensures
            r == And(self, Cmp { property: self.1.property, op: CmpOp::Ne(n) }),
    {
        let prop = self.1.property;
        And(self, Cmp { property: prop, op: CmpOp::Ne(n) })
    }

    pub fn lt(self, n: usize) -> (r: And<And<L, Cmp>, Cmp>)
        ensures
            r == And(self, Cmp { property: self.1.property, op: CmpOp::Lt(n) }),
    {
        let prop = self.1.property;
        And(self, Cmp { property: prop, op: CmpOp::Lt(n) })
    }

    pub fn le(self, n: usize) -> (r: And<And<L, Cmp>, Cmp>)
        ensures
            r == And(self, Cmp { property: self.1.property, op: CmpOp::Le(n) }),
    {
        let prop = self.1.property;
        And(self, Cmp { property: prop, op: CmpOp::Le(n) })
    }

    pub fn gt(self, n: usize) -> (r: And<And<L, Cmp>, Cmp>)
        ensures
            r == And(self, Cmp { property: self.1.property, op: CmpOp::Gt(n) }),
    {
        let prop = self.1.property;
        And(self, Cmp { property: prop, op: CmpOp::Gt(n) })
    }

    pub fn ge(self, n: usize) -> (r: And<And<L, Cmp>, Cmp>)
        ensures
            r == And(self, Cmp { property: self.1.property, op: CmpOp::Ge(n) }),
    {
        let prop = self.1.property;
        And(self, Cmp { property: prop, op: CmpOp::Ge(n) })
    }
}

impl At {
    fn extract_block_cmp_info(&self) -> (r: (usize, Property))
        requires
            self.pred is Cmp,
        ensures
            r == (self.index, self.pred->property),
    {
        match &self.pred {
            BlockPred::Cmp { property, .. } => (self.index, *property),
            _ => {
                assert(false);
                (self.index, Property::CallsLen)
            },
        }
    }

    pub fn eq(self, n: usize) -> (r: And<At, At>)
        requires
            self.pred is Cmp,
        ensures
            r == And(self, At { index: self.index, pred: BlockPred::Cmp { property: self.pred->property, op: CmpOp::Eq(n) } }),
    {
        let (index, property) = self.extract_block_cmp_info();
        And(self, At { index, pred: BlockPred::Cmp { property, op: CmpOp::Eq(n) } })
    }

    pub fn ne(self, n: usize) -> (r: And<At, At>)
        requires
            self.pred is Cmp,
        ensures
            r == And(self, At { index: self.index, pred: BlockPred::Cmp { property: self.pred->property, op: CmpOp::Ne(n) } }),
    {
        let (index, property) = self.extract_block_cmp_info();
        And(self, At { index, pred: BlockPred::Cmp { property, op: CmpOp::Ne(n) } })
    }

    pub fn lt(self, n: usize) -> (r: And<At, At>)
        requires
            self.pred is Cmp,
        ensures
            r == And(self, At { index: self.index, pred: BlockPred::Cmp { property: self.pred->property, op: CmpOp::Lt(n) } }),
    {
        let (index, property) = self.extract_block_cmp_info();
        And(self, At { index, pred: BlockPred::Cmp { property, op: CmpOp::Lt(n) } })
    }

    pub fn le(self, n: usize) -> (r: And<At, At>)
        requires
            self.pred is Cmp,
        ensures
            r == And(self, At { index: self.index, pred: BlockPred::Cmp { property: self.pred->property, op: CmpOp::Le(n) } }),
    {
        let (index, property) = self.extract_block_cmp_info();
        And(self, At { index, pred: BlockPred::Cmp { property, op: CmpOp::Le(n) } })
    }

    pub fn gt(self, n: usize) -> (r: And<At, At>)
        requires
            self.pred is Cmp,
        ensures
            r == And(self, At { index: self.index, pred: BlockPred::Cmp { property: self.pred->property, op: CmpOp::Gt(n) } }),
    {
        let (index, property) = self.extract_block_cmp_info();
        And(self, At { index, pred: BlockPred::Cmp { property, op: CmpOp::Gt(n) } })
    }

    pub fn ge(self, n: usize) -> (r: And<At, At>)
        requires
            self.pred is Cmp,
        ensures
            r == And(self, At { index: self.index, pred: BlockPred::Cmp { property: self.pred->property, op: CmpOp::Ge(n) } }),
    {
        let (index, property) = self.extract_block_cmp_info();
        And(self, At { index, pred: BlockPred::Cmp { property, op: CmpOp::Ge(n) } })
    }
}

impl<L: Predicate> And<L, At> {
    pub fn eq(self, n: usize) -> (r: And<And<L, At>, At>)
        requires
            self.1.pred is Cmp,
        ensures
            r == And(self, At { index: self.1.index, pred: BlockPred::Cmp { property: self.1.pred->property, op: CmpOp::Eq(n) } }),
    {
        let (index, property) = self.1.extract_block_cmp_info();
        And(self, At { index, pred: BlockPred::Cmp { property, op: CmpOp::Eq(n) } })
    }

    pub fn ne(self, n: usize) -> (r: And<And<L, At>, At>)
        requires
            self.1.pred is Cmp,
        ensures
            r == And(self, At { index: self.1.index, pred: BlockPred::Cmp { property: self.1.pred->property, op: CmpOp::Ne(n) } }),
    {
        let (index, property) = self.1.extract_block_cmp_info();
        And(self, At { index, pred: BlockPred::Cmp { property, op: CmpOp::Ne(n) } })
    }

    pub fn lt(self, n: usize) -> (r: And<And<L, At>, At>)
        requires
            self.1.pred is Cmp,
        ensures
            r == And(self, At { index: self.1.index, pred: BlockPred::Cmp { property: self.1.pred->property, op: CmpOp::Lt(n) } }),
    {
        let (index, property) = self.1.extract_block_cmp_info();
        And(self, At { index, pred: BlockPred::Cmp { property, op: CmpOp::Lt(n) } })
    }

    pub fn le(self, n: usize) -> (r: And<And<L, At>, At>)
        requires
            self.1.pred is Cmp,
        ensures
            r == And(self, At { index: self.1.index, pred: BlockPred::Cmp { property: self.1.pred->property, op: CmpOp::Le(n) } }),
    {
        let (index, property) = self.1.extract_block_cmp_info();
        And(self, At { index, pred: BlockPred::Cmp { property, op: CmpOp::Le(n) } })
    }

    pub fn gt(self, n: usize) -> (r: And<And<L, At>, At>)
        requires
            self.1.pred is Cmp,
        ensures
            r == And(self, At { index: self.1.index, pred: BlockPred::Cmp { property: self.1.pred->property, op: CmpOp::Gt(n) } }),
    {
        let (index, property) = self.1.extract_block_cmp_info();
        And(self, At { index, pred: BlockPred::Cmp { property, op: CmpOp::Gt(n) } })
    }

    pub fn ge(self, n: usize) -> (r: And<And<L, At>, At>)
        requires
            self.1.pred is Cmp,
        ensures
            r == And(self, At { index: self.1.index, pred: BlockPred::Cmp { property: self.1.pred->property, op: CmpOp::Ge(n) } }),
    {
        let (index, property) = self.1.extract_block_cmp_info();
        And(self, At { index, pred: BlockPred::Cmp { property, op: CmpOp::Ge(n) } })
    }
}

// --- `&`, `|` and `!` on block predicates ---

impl std::ops::BitAnd for BlockPred {
    type Output = BlockPred;

    fn bitand(self, rhs: BlockPred) -> BlockPred {
        BlockPred::And(Box::new(self), Box::new(rhs))
    }
}

impl vstd::std_specs::ops::BitAndSpecImpl for BlockPred {
    open spec fn obeys_bitand_spec() -> bool {
        true
    }

    open spec fn bitand_req(self, rhs: BlockPred) -> bool {
        true
    }

    open spec fn bitand_spec(self, rhs: BlockPred) -> BlockPred {
        BlockPred::And(Box::new(self), Box::new(rhs))
    }
}

impl std::ops::BitOr for BlockPred {
    type Output = BlockPred;

    fn bitor(self, rhs: BlockPred) -> BlockPred {
        BlockPred::Or(Box::new(self), Box::new(rhs))
    }
}

impl vstd::std_specs::ops::BitOrSpecImpl for BlockPred {
    open spec fn obeys_bitor_spec() -> bool {
        true
    }

    open spec fn bitor_req(self, rhs: BlockPred) -> bool {
        true
    }

    open spec fn bitor_spec(self, rhs: BlockPred) -> BlockPred {
        BlockPred::Or(Box::new(self), Box::new(rhs))
    }
}

/// Each comparison on a function-level count holds exactly when the count
/// stands in its relation to the bound: `eq(n)` when it equals `n`, `ne(n)`
/// when it differs from `n`, `lt`, `le`, `gt` and `ge` by `<`, `<=`, `>`
/// and `>=`.
pub proof fn law_comparison_relations(
    property: Property,
    n: usize,
    fn_name: Seq<char>,
    functions: Seq<FunctionView>,
    env: EnvView,
)
    requires
        lookup(functions, fn_name) is Some,
        prop_total(target_fn(fn_name, functions), property) <= usize::MAX,
    ensures
        ({
            let v = prop_total(target_fn(fn_name, functions), property);
            &&& ((Cmp { property, op: CmpOp::Eq(n) }).outcome(fn_name, functions, env) is Ok) == (v
                == n)
            &&& ((Cmp { property, op: CmpOp::Ne(n) }).outcome(fn_name, functions, env) is Ok) == (v
                != n)
            &&& ((Cmp { property, op: CmpOp::Lt(n) }).outcome(fn_name, functions, env) is Ok) == (v
                < n)
            &&& ((Cmp { property, op: CmpOp::Le(n) }).outcome(fn_name, functions, env) is Ok) == (v
                <= n)
            &&& ((Cmp { property, op: CmpOp::Gt(n) }).outcome(fn_name, functions, env) is Ok) == (v
                > n)
            &&& ((Cmp { property, op: CmpOp::Ge(n) }).outcome(fn_name, functions, env) is Ok) == (v
                >= n)
        }),
{
}

/// Each comparison on a block's count holds exactly when the count stands
/// in its relation to the bound, as for the function-level counts.
pub proof fn law_block_comparison_relations(property: Property, n: usize, b: BlockView)
    requires
        block_prop(b, property) <= usize::MAX,
    ensures
        ({
            let v = block_prop(b, property);
            &&& (block_outcome(BlockPred::Cmp { property, op: CmpOp::Eq(n) }, b) is Ok) == (v == n)
            &&& (block_outcome(BlockPred::Cmp { property, op: CmpOp::Ne(n) }, b) is Ok) == (v != n)
            &&& (block_outcome(BlockPred::Cmp { property, op: CmpOp::Lt(n) }, b) is Ok) == (v < n)
            &&& (block_outcome(BlockPred::Cmp { property, op: CmpOp::Le(n) }, b) is Ok) == (v <= n)
            &&& (block_outcome(BlockPred::Cmp { property, op: CmpOp::Gt(n) }, b) is Ok) == (v > n)
            &&& (block_outcome(BlockPred::Cmp { property, op: CmpOp::Ge(n) }, b) is Ok) == (v >= n)
        }),
{
}

} // verus!
