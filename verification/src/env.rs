//! Build environments (toolchain, target, optimization level) and how they
//! combine under `&` and `|`.
use vstd::prelude::*;

use crate::ir::FunctionView;
use crate::text::{chars_of, str_eq};
use crate::{res_view, FunctionIr, Predicate};

verus! {

broadcast use vstd::string::group_string_axioms;

/// Optimization level for IR generation.
#[derive(Clone, Copy, Debug, Hash)]
pub enum OptLevel {
    /// No preference — merges with any other variant.
    Any,
    /// Build without `--release` (debug profile).
    Debug,
    /// Build with `--release` (default opt-level).
    Release,
    /// Build with `--release -C opt-level=X`.
    OptLevel(&'static str),
}

/// An optimization level as plain values.
pub enum OptView {
    Any,
    Debug,
    Release,
    Level(Seq<char>),
}

impl View for OptLevel {
    type V = OptView;

    open spec fn view(&self) -> OptView {
        match *self {
            OptLevel::Any => OptView::Any,
            OptLevel::Debug => OptView::Debug,
            OptLevel::Release => OptView::Release,
            OptLevel::OptLevel(l) => OptView::Level(l@),
        }
    }
}

/// Specifies an environment (toolchain + target + opt level) for IR generation.
#[derive(Clone, Copy, Debug, Hash)]
pub struct EnvSpec {
    pub rustc: Option<&'static str>,
    pub target: Option<&'static str>,
    pub opt_level: OptLevel,
}

/// An environment as plain values.
pub struct EnvView {
    pub rustc: Option<Seq<char>>,
    pub target: Option<Seq<char>>,
    pub opt: OptView,
}

pub open spec fn str_opt_view(o: Option<&'static str>) -> Option<Seq<char>> {
    match o {
        Some(s) => Some(s@),
        None => None,
    }
}

impl View for EnvSpec {
    type V = EnvView;

    open spec fn view(&self) -> EnvView {
        EnvView {
            rustc: str_opt_view(self.rustc),
            target: str_opt_view(self.target),
            opt: self.opt_level@,
        }
    }
}

pub open spec fn envs_view(v: Seq<EnvSpec>) -> Seq<EnvView> {
    v.map_values(|e: EnvSpec| e@)
}

fn opt_str_eq(a: Option<&'static str>, b: Option<&'static str>) -> (r: bool)
    ensures
        r == (str_opt_view(a) == str_opt_view(b)),
{
    match (a, b) {
        (Some(x), Some(y)) => str_eq(x, y),
        (None, None) => true,
        _ => false,
    }
}

impl OptLevel {
    /// Same level, comparing level names by their text.
    pub fn same_as(&self, other: &OptLevel) -> (r: bool)
        ensures
            r == (self@ == other@),
    {
        match (self, other) {
            (OptLevel::Any, OptLevel::Any) => true,
            (OptLevel::Debug, OptLevel::Debug) => true,
            (OptLevel::Release, OptLevel::Release) => true,
            (OptLevel::OptLevel(x), OptLevel::OptLevel(y)) => str_eq(x, y),
            _ => false,
        }
    }
}

impl PartialEq for OptLevel {
    fn eq(&self, other: &OptLevel) -> (r: bool) {
        self.same_as(other)
    }
}

impl vstd::std_specs::cmp::PartialEqSpecImpl for OptLevel {
    open spec fn obeys_eq_spec() -> bool {
        true
    }

    open spec fn eq_spec(&self, other: &OptLevel) -> bool {
        self@ == other@
    }
}

impl Eq for OptLevel {

}

impl PartialEq for EnvSpec {
    fn eq(&self, other: &EnvSpec) -> (r: bool) {
        self.same_as(other)
    }
}

impl vstd::std_specs::cmp::PartialEqSpecImpl for EnvSpec {
    open spec fn obeys_eq_spec() -> bool {
        true
    }

    open spec fn eq_spec(&self, other: &EnvSpec) -> bool {
        self@ == other@
    }
}

impl Eq for EnvSpec {

}

// ---------------------------------------------------------------------------
// Matching, merging and rendering, as plain values
// ---------------------------------------------------------------------------

/// A required field value (`Some`) is met by the environment's value.
pub open spec fn field_ok(req: Option<Seq<char>>, actual: Option<Seq<char>>) -> bool {
    match req {
        Some(v) => actual == Some(v),
        None => true,
    }
}

/// Environment `env` satisfies the requirements of `spec`.
pub open spec fn env_matches(spec: EnvView, env: EnvView) -> bool {
    &&& field_ok(spec.rustc, env.rustc)
    &&& field_ok(spec.target, env.target)
    &&& (spec.opt is Any || env.opt == spec.opt)
}

/// Two required field values disagree.
pub open spec fn field_conflict(l: Option<Seq<char>>, r: Option<Seq<char>>) -> bool {
    l is Some && r is Some && l != r
}

/// Two optimization levels that `and` cannot merge.
pub open spec fn opt_conflict(l: OptView, r: OptView) -> bool {
    match (l, r) {
        (OptView::Any, _) => false,
        (_, OptView::Any) => false,
        (OptView::Debug, OptView::Debug) => false,
        (OptView::Release, OptView::Release) => false,
        (OptView::Release, OptView::Level(_)) => false,
        (OptView::Level(_), OptView::Release) => false,
        (OptView::Level(x), OptView::Level(y)) => x != y,
        _ => true,
    }
}

/// `and` cannot merge the two environments.
pub open spec fn env_conflict(a: EnvView, b: EnvView) -> bool {
    field_conflict(a.rustc, b.rustc) || field_conflict(a.target, b.target) || opt_conflict(
        a.opt,
        b.opt,
    )
}

pub open spec fn merge_field(l: Option<Seq<char>>, r: Option<Seq<char>>) -> Option<Seq<char>> {
    match l {
        Some(v) => Some(v),
        None => r,
    }
}

/// The merged optimization level of two levels that do not conflict: `Any`
/// yields to the other side, a named level refines `Release`.
pub open spec fn merge_opt(l: OptView, r: OptView) -> OptView {
    match (l, r) {
        (OptView::Any, o) => o,
        (o, OptView::Any) => o,
        (OptView::Release, OptView::Level(x)) => OptView::Level(x),
        (OptView::Level(x), _) => OptView::Level(x),
        (o, _) => o,
    }
}

/// The logical-AND merge of two environments.
pub open spec fn env_and(a: EnvView, b: EnvView) -> EnvView {
    EnvView {
        rustc: merge_field(a.rustc, b.rustc),
        target: merge_field(a.target, b.target),
        opt: merge_opt(a.opt, b.opt),
    }
}

/// `l` is at least as general as `r`: every environment that `r` accepts,
/// `l` accepts too.
pub open spec fn subsumes(l: EnvView, r: EnvView) -> bool {
    &&& (l.rustc matches Some(v) ==> r.rustc == Some(v))
    &&& (l.target matches Some(v) ==> r.target == Some(v))
    &&& (l.opt is Any || l.opt == r.opt)
}

/// The logical-OR merge of two environments: one of them when it subsumes
/// the other, else both.
pub open spec fn env_or(a: EnvView, b: EnvView) -> Seq<EnvView> {
    if a == b {
        seq![a]
    } else if subsumes(a, b) {
        seq![a]
    } else if subsumes(b, a) {
        seq![b]
    } else {
        seq![a, b]
    }
}

/// The text of an optimization level, or `None` when there is no preference.
pub open spec fn opt_text(o: OptView) -> Option<Seq<char>> {
    match o {
        OptView::Any => None,
        OptView::Debug => Some("debug"@),
        OptView::Release => Some("release"@),
        OptView::Level(l) => Some("opt_level(\""@ + l + "\")"@),
    }
}

pub open spec fn rustc_text(v: Seq<char>) -> Seq<char> {
    "rustc(\""@ + v + "\")"@
}

pub open spec fn target_text(t: Seq<char>) -> Seq<char> {
    "target(\""@ + t + "\")"@
}

/// How an environment is written in messages.
pub open spec fn env_text(e: EnvView) -> Seq<char> {
    match (e.rustc, e.target, opt_text(e.opt)) {
        (None, None, None) => "default"@,
        (Some(v), None, None) => rustc_text(v),
        (None, Some(t), None) => target_text(t),
        (Some(v), Some(t), None) => rustc_text(v) + " && "@ + target_text(t),
        (None, None, Some(o)) => o,
        (Some(v), None, Some(o)) => rustc_text(v) + " && "@ + o,
        (None, Some(t), Some(o)) => target_text(t) + " && "@ + o,
        (Some(v), Some(t), Some(o)) => rustc_text(v) + " && "@ + target_text(t) + " && "@ + o,
    }
}

/// The environment with no requirement.
pub open spec fn default_view() -> EnvView {
    EnvView { rustc: None, target: None, opt: OptView::Any }
}

impl EnvSpec {
    /// The environment with no requirement.
    pub fn default_env() -> (r: Self)
        ensures
            r@ == default_view(),
    {
        Self { rustc: None, target: None, opt_level: OptLevel::Any }
    }

    pub fn rustc(version: &'static str) -> (r: Self)
        ensures
            r@ == (EnvView { rustc: Some(version@), target: None, opt: OptView::Any }),
    {
        Self { rustc: Some(version), target: None, opt_level: OptLevel::Any }
    }

    pub fn target(target: &'static str) -> (r: Self)
        ensures
            r@ == (EnvView { rustc: None, target: Some(target@), opt: OptView::Any }),
    {
        Self { rustc: None, target: Some(target), opt_level: OptLevel::Any }
    }

    pub fn rustc_target(version: &'static str, target: &'static str) -> (r: Self)
        ensures
            r@ == (EnvView { rustc: Some(version@), target: Some(target@), opt: OptView::Any }),
    {
        Self { rustc: Some(version), target: Some(target), opt_level: OptLevel::Any }
    }

    pub fn opt_level(level: &'static str) -> (r: Self)
        ensures
            r@ == (EnvView { rustc: None, target: None, opt: OptView::Level(level@) }),
    {
        Self { rustc: None, target: None, opt_level: OptLevel::OptLevel(level) }
    }

    pub fn target_opt_level(target: &'static str, level: &'static str) -> (r: Self)
        ensures
            r@ == (EnvView { rustc: None, target: Some(target@), opt: OptView::Level(level@) }),
    {
        Self { rustc: None, target: Some(target), opt_level: OptLevel::OptLevel(level) }
    }

    pub fn debug() -> (r: Self)
        ensures
            r@ == (EnvView { rustc: None, target: None, opt: OptView::Debug }),
    {
        Self { rustc: None, target: None, opt_level: OptLevel::Debug }
    }

    pub fn release() -> (r: Self)
        ensures
            r@ == (EnvView { rustc: None, target: None, opt: OptView::Release }),
    {
        Self { rustc: None, target: None, opt_level: OptLevel::Release }
    }

    /// Decompose this `EnvSpec` into `(version, target, opt_level)` components.
    pub fn decompose(&self) -> (r: (Option<&str>, Option<&str>, &OptLevel))
        ensures
            r.0 == self.rustc,
            r.1 == self.target,
            *r.2 == self.opt_level,
    {
        (self.rustc, self.target, &self.opt_level)
    }

    /// Same requirements, comparing names by their text.
    pub fn same_as(&self, other: &EnvSpec) -> (r: bool)
        ensures
            r == (self@ == other@),
    {
        opt_str_eq(self.rustc, other.rustc) && opt_str_eq(self.target, other.target)
            && self.opt_level.same_as(&other.opt_level)
    }

    /// `and` would find the two environments in conflict.
    pub fn conflicts_with(&self, rhs: &Self) -> (r: bool)
        ensures
            r == env_conflict(self@, rhs@),
    {
        let rustc_conflict = self.rustc.is_some() && rhs.rustc.is_some() && !opt_str_eq(
            self.rustc,
            rhs.rustc,
        );
        let target_conflict = self.target.is_some() && rhs.target.is_some() && !opt_str_eq(
            self.target,
            rhs.target,
        );
        let opt_conflict = match (&self.opt_level, &rhs.opt_level) {
            (OptLevel::Any, _) => false,
            (_, OptLevel::Any) => false,
            (OptLevel::Debug, OptLevel::Debug) => false,
            (OptLevel::Release, OptLevel::Release) => false,
            (OptLevel::Release, OptLevel::OptLevel(_)) => false,
            (OptLevel::OptLevel(_), OptLevel::Release) => false,
            (OptLevel::OptLevel(x), OptLevel::OptLevel(y)) => !str_eq(x, y),
            _ => true,
        };
        rustc_conflict || target_conflict || opt_conflict
    }

    /// Merge two environment specs with logical-AND semantics.
    ///
    /// The two must not conflict (see `conflicts_with`).
    pub fn and(&self, rhs: &Self) -> (r: Self)
        requires
            !env_conflict(self@, rhs@),
        ensures
            r@ == env_and(self@, rhs@),
    {
        let opt_level = match (&self.opt_level, &rhs.opt_level) {
            (OptLevel::Any, other) => *other,
            (other, OptLevel::Any) => *other,
            (OptLevel::Release, OptLevel::OptLevel(x)) => OptLevel::OptLevel(x),
            (OptLevel::OptLevel(x), _) => OptLevel::OptLevel(x),
            (other, _) => *other,
        };
        let rustc = match self.rustc {
            Some(v) => Some(v),
            None => rhs.rustc,
        };
        let target = match self.target {
            Some(v) => Some(v),
            None => rhs.target,
        };
        Self { rustc, target, opt_level }
    }

    fn subsumes_exec(&self, rhs: &Self) -> (r: bool)
        ensures
            r == subsumes(self@, rhs@),
    {
        let rustc_ok = match self.rustc {
            Some(v) => opt_str_eq(rhs.rustc, Some(v)),
            None => true,
        };
        let target_ok = match self.target {
            Some(v) => opt_str_eq(rhs.target, Some(v)),
            None => true,
        };
        let opt_ok = match self.opt_level {
            OptLevel::Any => true,
            _ => self.opt_level.same_as(&rhs.opt_level),
        };
        rustc_ok && target_ok && opt_ok
    }

    /// Merge two environment specs with logical-OR semantics.
    ///
    /// Returns a minimized union as one or two specs.
    pub fn or(&self, rhs: &Self) -> (r: Vec<Self>)
        ensures
            envs_view(r@) == env_or(self@, rhs@),
    {
        let r = if self.same_as(rhs) {
            vec![*self]
        } else if self.subsumes_exec(rhs) {
            vec![*self]
        } else if rhs.subsumes_exec(self) {
            vec![*rhs]
        } else {
            vec![*self, *rhs]
        };
        assert(envs_view(r@) =~= env_or(self@, rhs@));
        r
    }

    /// This environment satisfies the requirements of `spec`.
    pub fn satisfies(&self, spec: &EnvSpec) -> (r: bool)
        ensures
            r == env_matches(spec@, self@),
    {
        let rustc_ok = match spec.rustc {
            Some(v) => opt_str_eq(self.rustc, Some(v)),
            None => true,
        };
        let target_ok = match spec.target {
            Some(t) => opt_str_eq(self.target, Some(t)),
            None => true,
        };
        let opt_ok = match spec.opt_level {
            OptLevel::Any => true,
            _ => self.opt_level.same_as(&spec.opt_level),
        };
        rustc_ok && target_ok && opt_ok
    }

    /// How this environment is written in messages.
    pub fn text(&self) -> (s: String)
        ensures
            s@ == env_text(self@),
    {
        let mut s = String::new();
        let mut any = false;
        if let Some(v) = self.rustc {
            s.append("rustc(\"");
            s.append(v);
            s.append("\")");
            any = true;
        }
        if let Some(t) = self.target {
            if any {
                s.append(" && ");
            }
            s.append("target(\"");
            s.append(t);
            s.append("\")");
            any = true;
        }
        match self.opt_level {
            OptLevel::Any => {},
            OptLevel::Debug => {
                if any {
                    s.append(" && ");
                }
                s.append("debug");
                any = true;
            },
            OptLevel::Release => {
                if any {
                    s.append(" && ");
                }
                s.append("release");
                any = true;
            },
            OptLevel::OptLevel(l) => {
                if any {
                    s.append(" && ");
                }
                s.append("opt_level(\"");
                s.append(l);
                s.append("\")");
                any = true;
            },
        }
        if !any {
            s.append("default");
        }
        assert(s@ =~= env_text(self@));
        s
    }
}

// ---------------------------------------------------------------------------
// Laws of `and` and `or`
// ---------------------------------------------------------------------------

/// Merging two environments with `and` does not depend on their order, and
/// neither does whether they conflict.
pub proof fn law_and_commutes(a: EnvView, b: EnvView)
    ensures
        env_conflict(a, b) == env_conflict(b, a),
        !env_conflict(a, b) ==> env_and(a, b) == env_and(b, a),
{
}

/// Merging an environment with itself changes nothing.
pub proof fn law_and_idempotent(a: EnvView)
    ensures
        !env_conflict(a, a),
        env_and(a, a) == a,
{
}

/// The environment `with no requirement` is the unit of `and`.
pub proof fn law_and_default(a: EnvView)
    ensures
        !env_conflict(default_view(), a),
        env_and(default_view(), a) == a,
        env_and(a, default_view()) == a,
{
}

/// A build environment that meets both requirements meets their `and`;
/// conversely, one that meets the `and` meets both, except where a named
/// optimization level refines `release` (the merge then asks for the named
/// level alone).
pub proof fn law_and_matches(a: EnvView, b: EnvView, e: EnvView)
    requires
        !env_conflict(a, b),
    ensures
        env_matches(a, e) && env_matches(b, e) ==> env_matches(env_and(a, b), e),
        !(a.opt is Release && b.opt is Level) && !(a.opt is Level && b.opt is Release) ==> (
        env_matches(env_and(a, b), e) ==> env_matches(a, e) && env_matches(b, e)),
{
}

/// Some environment of the list meets the requirements of `e`.
pub open spec fn covers(envs: Seq<EnvView>, e: EnvView) -> bool {
    exists|i: int| 0 <= i < envs.len() && env_matches(#[trigger] envs[i], e)
}

/// `or` keeps exactly the build environments that meet either requirement.
pub proof fn law_or_union(a: EnvView, b: EnvView, e: EnvView)
    ensures
        covers(env_or(a, b), e) == (env_matches(a, e) || env_matches(b, e)),
        1 <= env_or(a, b).len() <= 2,
{
    let r = env_or(a, b);
    if env_matches(a, e) || env_matches(b, e) {
        if r.len() == 2 {
            if env_matches(a, e) {
                assert(env_matches(r[0], e));
            } else {
                assert(env_matches(r[1], e));
            }
        } else {
            assert(env_matches(r[0], e));
        }
    }
}

// ---------------------------------------------------------------------------
// Lists of environments
// ---------------------------------------------------------------------------

/// Every pairwise `and` of an environment of `ls` with one of `rs`, in order.
pub open spec fn cross_and(ls: Seq<EnvView>, rs: Seq<EnvView>) -> Seq<EnvView>
    decreases ls.len(),
{
    if ls.len() == 0 {
        seq![]
    } else {
        cross_and(ls.drop_last(), rs) + rs.map_values(|r: EnvView| env_and(ls.last(), r))
    }
}

/// No environment of `ls` conflicts with one of `rs`.
pub open spec fn cross_compatible(ls: Seq<EnvView>, rs: Seq<EnvView>) -> bool {
    forall|i: int, j: int|
        0 <= i < ls.len() && 0 <= j < rs.len() ==> !env_conflict(#[trigger] ls[i], #[trigger] rs[j])
}

/// The `or` of each environment of `ps` with `x`, concatenated.
pub open spec fn or_all(ps: Seq<EnvView>, x: EnvView) -> Seq<EnvView>
    decreases ps.len(),
{
    if ps.len() == 0 {
        seq![]
    } else {
        or_all(ps.drop_last(), x) + env_or(ps.last(), x)
    }
}

/// The candidates left after merging `cand` with the first `k` entries of `acc`.
pub open spec fn pending_after(acc: Seq<EnvView>, cand: EnvView, k: nat) -> Seq<EnvView>
    decreases k,
{
    if k == 0 {
        seq![cand]
    } else {
        or_all(pending_after(acc, cand, (k - 1) as nat), acc[k - 1])
    }
}

/// `acc` with each entry of `ps` appended unless already present.
pub open spec fn push_new(acc: Seq<EnvView>, ps: Seq<EnvView>) -> Seq<EnvView>
    decreases ps.len(),
{
    if ps.len() == 0 {
        acc
    } else {
        let a = push_new(acc, ps.drop_last());
        if a.contains(ps.last()) {
            a
        } else {
            a.push(ps.last())
        }
    }
}

/// Add `cand` to the union `acc`, merging it with each entry.
pub open spec fn insert_union(acc: Seq<EnvView>, cand: EnvView) -> Seq<EnvView> {
    push_new(acc, pending_after(acc, cand, acc.len()))
}

/// Add each of `cands` in turn to the union `acc`.
pub open spec fn union_all(acc: Seq<EnvView>, cands: Seq<EnvView>) -> Seq<EnvView>
    decreases cands.len(),
{
    if cands.len() == 0 {
        acc
    } else {
        insert_union(union_all(acc, cands.drop_last()), cands.last())
    }
}

/// The environments of an `|` of two predicates.
pub open spec fn or_environments(lhs: Seq<EnvView>, rhs: Seq<EnvView>) -> Seq<EnvView> {
    if lhs.len() == 0 {
        rhs
    } else if rhs.len() == 0 {
        lhs
    } else {
        union_all(union_all(seq![], lhs), rhs)
    }
}

/// Append the `and` of every environment of `lhs` with every one of `rhs`.
pub fn push_cross_and(lhs: &Vec<EnvSpec>, rhs: &Vec<EnvSpec>, envs: &mut Vec<EnvSpec>)
    requires
        cross_compatible(envs_view(lhs@), envs_view(rhs@)),
    ensures
        envs_view(final(envs)@) == envs_view(old(envs)@) + cross_and(envs_view(lhs@), envs_view(rhs@)),
{
    let ghost lv = envs_view(lhs@);
    let ghost rv = envs_view(rhs@);
    let ghost start = envs_view(envs@);
    let mut i: usize = 0;
    assert(lv.take(0) =~= Seq::<EnvView>::empty());
    assert(start + Seq::<EnvView>::empty() =~= start);
    while i < lhs.len()
        invariant
            i <= lhs@.len(),
            lv == envs_view(lhs@),
            rv == envs_view(rhs@),
            cross_compatible(lv, rv),
            envs_view(envs@) == start + cross_and(lv.take(i as int), rv),
        decreases lhs@.len() - i,
    {
        let ghost before = envs_view(envs@);
        let mut j: usize = 0;
        while j < rhs.len()
            invariant
                i < lhs@.len(),
                j <= rhs@.len(),
                lv == envs_view(lhs@),
                rv == envs_view(rhs@),
                cross_compatible(lv, rv),
                envs_view(envs@) == before + rv.take(j as int).map_values(
                    |r: EnvView| env_and(lv[i as int], r),
                ),
            decreases rhs@.len() - j,
        {
            assert(!env_conflict(lv[i as int], rv[j as int]));
            let m = lhs[i].and(&rhs[j]);
            let ghost prev = envs_view(envs@);
            envs.push(m);
            assert(envs_view(envs@) =~= prev.push(m@));
            assert(rv.take(j + 1).map_values(|r: EnvView| env_and(lv[i as int], r)) =~= rv.take(
                j as int,
            ).map_values(|r: EnvView| env_and(lv[i as int], r)).push(env_and(lv[i as int], rv[j as int])));
            j += 1;
        }
        assert(rv.take(j as int) =~= rv);
        assert(lv.take(i + 1).drop_last() =~= lv.take(i as int));
        assert(lv.take(i + 1).last() == lv[i as int]);
        i += 1;
    }
    assert(lv.take(i as int) =~= lv);
}

fn contains_env(acc: &Vec<EnvSpec>, e: &EnvSpec) -> (b: bool)
    ensures
        b == envs_view(acc@).contains(e@),
{
    let mut i: usize = 0;
    while i < acc.len()
        invariant
            i <= acc@.len(),
            forall|k: int| 0 <= k < i ==> envs_view(acc@)[k] != e@,
        decreases acc@.len() - i,
    {
        if acc[i].same_as(e) {
            assert(envs_view(acc@)[i as int] == e@);
            return true;
        }
        i += 1;
    }
    false
}

/// Append to `out` the `or` of each environment of `ps` with `x`.
fn push_or_all(ps: &Vec<EnvSpec>, x: &EnvSpec) -> (out: Vec<EnvSpec>)
    ensures
        envs_view(out@) == or_all(envs_view(ps@), x@),
{
    let ghost pv = envs_view(ps@);
    let mut out: Vec<EnvSpec> = Vec::new();
    let mut i: usize = 0;
    assert(envs_view(out@) =~= or_all(pv.take(0), x@));
    while i < ps.len()
        invariant
            i <= ps@.len(),
            pv == envs_view(ps@),
            envs_view(out@) == or_all(pv.take(i as int), x@),
        decreases ps@.len() - i,
    {
        let merged = ps[i].or(x);
        let ghost prev = envs_view(out@);
        let mut k: usize = 0;
        while k < merged.len()
            invariant
                k <= merged@.len(),
                envs_view(out@) == prev + envs_view(merged@).take(k as int),
            decreases merged@.len() - k,
        {
            let ghost before = envs_view(out@);
            out.push(merged[k]);
            assert(envs_view(out@) =~= before.push(merged@[k as int]@));
            assert(envs_view(merged@).take(k + 1) =~= envs_view(merged@).take(k as int).push(
                merged@[k as int]@,
            ));
            k += 1;
        }
        assert(envs_view(merged@).take(k as int) =~= envs_view(merged@));
        assert(pv.take(i + 1).drop_last() =~= pv.take(i as int));
        i += 1;
        assert(envs_view(out@) =~= or_all(pv.take(i as int), x@));
    }
    assert(pv.take(i as int) =~= pv);
    out
}

/// Append each environment of `ps` to `acc` unless already present.
pub fn append_new(acc: &mut Vec<EnvSpec>, ps: &Vec<EnvSpec>)
    ensures
        envs_view(final(acc)@) == push_new(envs_view(old(acc)@), envs_view(ps@)),
{
    let ghost av = envs_view(acc@);
    let ghost pv = envs_view(ps@);
    let mut i: usize = 0;
    assert(pv.take(0) =~= Seq::<EnvView>::empty());
    while i < ps.len()
        invariant
            i <= ps@.len(),
            pv == envs_view(ps@),
            envs_view(acc@) == push_new(av, pv.take(i as int)),
        decreases ps@.len() - i,
    {
        assert(pv.take(i + 1).drop_last() =~= pv.take(i as int));
        let p = ps[i];
        if !contains_env(acc, &p) {
            let ghost prev = envs_view(acc@);
            acc.push(p);
            assert(envs_view(acc@) =~= prev.push(p@));
        }
        i += 1;
    }
    assert(pv.take(i as int) =~= pv);
}

/// Add `candidate` to the union `acc`.
pub fn insert_union_exec(acc: &mut Vec<EnvSpec>, candidate: EnvSpec)
    ensures
        envs_view(final(acc)@) == insert_union(envs_view(old(acc)@), candidate@),
{
    let ghost av = envs_view(acc@);
    let mut pending: Vec<EnvSpec> = vec![candidate];
    assert(envs_view(pending@) =~= pending_after(av, candidate@, 0));
    let mut k: usize = 0;
    while k < acc.len()
        invariant
            k <= acc@.len(),
            av == envs_view(acc@),
            envs_view(pending@) == pending_after(av, candidate@, k as nat),
        decreases acc@.len() - k,
    {
        pending = push_or_all(&pending, &acc[k]);
        k += 1;
    }
    append_new(acc, &pending);
}

/// Add each environment of `cands` in turn to the union `acc`.
pub fn union_all_exec(acc: &mut Vec<EnvSpec>, cands: &Vec<EnvSpec>)
    ensures
        envs_view(final(acc)@) == union_all(envs_view(old(acc)@), envs_view(cands@)),
{
    let ghost start = envs_view(acc@);
    let ghost cv = envs_view(cands@);
    let mut i: usize = 0;
    assert(cv.take(0) =~= Seq::<EnvView>::empty());
    while i < cands.len()
        invariant
            i <= cands@.len(),
            cv == envs_view(cands@),
            envs_view(acc@) == union_all(start, cv.take(i as int)),
        decreases cands@.len() - i,
    {
        assert(cv.take(i + 1).drop_last() =~= cv.take(i as int));
        insert_union_exec(acc, cands[i]);
        i += 1;
    }
    assert(cv.take(i as int) =~= cv);
}

// ---------------------------------------------------------------------------
// Laws of the lists
// ---------------------------------------------------------------------------

pub proof fn lemma_covers_concat(a: Seq<EnvView>, b: Seq<EnvView>, e: EnvView)
    ensures
        covers(a + b, e) == (covers(a, e) || covers(b, e)),
{
    if covers(a, e) {
        let i = choose|i: int| 0 <= i < a.len() && env_matches(#[trigger] a[i], e);
        assert((a + b)[i] == a[i]);
    }
    if covers(b, e) {
        let i = choose|i: int| 0 <= i < b.len() && env_matches(#[trigger] b[i], e);
        assert((a + b)[a.len() + i] == b[i]);
    }
    if covers(a + b, e) {
        let i = choose|i: int| 0 <= i < (a + b).len() && env_matches(#[trigger] (a + b)[i], e);
        if i < a.len() {
            assert(a[i] == (a + b)[i]);
        } else {
            assert(b[i - a.len()] == (a + b)[i]);
        }
    }
}

pub proof fn lemma_covers_push(a: Seq<EnvView>, x: EnvView, e: EnvView)
    ensures
        covers(a.push(x), e) == (covers(a, e) || env_matches(x, e)),
{
    lemma_covers_concat(a, seq![x], e);
    assert(a.push(x) =~= a + seq![x]);
    if env_matches(x, e) {
        assert(seq![x][0] == x);
    }
}

pub proof fn lemma_or_all(ps: Seq<EnvView>, x: EnvView, e: EnvView)
    requires
        ps.len() > 0,
    ensures
        or_all(ps, x).len() > 0,
        covers(or_all(ps, x), e) == (covers(ps, e) || env_matches(x, e)),
    decreases ps.len(),
{
    let rest = ps.drop_last();
    law_or_union(ps.last(), x, e);
    lemma_covers_concat(or_all(rest, x), env_or(ps.last(), x), e);
    lemma_covers_push(rest, ps.last(), e);
    assert(rest.push(ps.last()) =~= ps);
    if rest.len() > 0 {
        lemma_or_all(rest, x, e);
    } else {
        assert(or_all(rest, x) =~= Seq::<EnvView>::empty());
    }
}

pub proof fn lemma_pending(acc: Seq<EnvView>, cand: EnvView, k: nat, e: EnvView)
    requires
        k <= acc.len(),
    ensures
        pending_after(acc, cand, k).len() > 0,
        covers(pending_after(acc, cand, k), e) == (env_matches(cand, e) || covers(
            acc.take(k as int),
            e,
        )),
    decreases k,
{
    if k == 0 {
        if env_matches(cand, e) {
            assert(seq![cand][0] == cand);
        }
        assert(acc.take(0) =~= Seq::<EnvView>::empty());
    } else {
        let j = (k - 1) as nat;
        lemma_pending(acc, cand, j, e);
        lemma_or_all(pending_after(acc, cand, j), acc[j as int], e);
        lemma_covers_push(acc.take(j as int), acc[j as int], e);
        assert(acc.take(j as int).push(acc[j as int]) =~= acc.take(k as int));
    }
}

pub proof fn lemma_push_new(acc: Seq<EnvView>, ps: Seq<EnvView>, e: EnvView)
    ensures
        covers(push_new(acc, ps), e) == (covers(acc, e) || covers(ps, e)),
        forall|x: EnvView| #[trigger] push_new(acc, ps).contains(x) <==> acc.contains(x) || ps.contains(x),
    decreases ps.len(),
{
    if ps.len() == 0 {
    } else {
        let rest = ps.drop_last();
        let a = push_new(acc, rest);
        lemma_push_new(acc, rest, e);
        lemma_covers_push(rest, ps.last(), e);
        assert(rest.push(ps.last()) =~= ps);
        if a.contains(ps.last()) {
            if env_matches(ps.last(), e) {
                let i = choose|i: int| 0 <= i < a.len() && a[i] == ps.last();
                assert(env_matches(a[i], e));
            }
        } else {
            lemma_covers_push(a, ps.last(), e);
        }
        assert forall|x: EnvView| #[trigger] push_new(acc, ps).contains(x) <==> acc.contains(x)
            || ps.contains(x) by {
            if ps.contains(x) && !rest.contains(x) {
                let i = choose|i: int| 0 <= i < ps.len() && ps[i] == x;
                if i < rest.len() {
                    assert(rest[i] == x);
                }
            }
            if rest.contains(x) {
                let i = choose|i: int| 0 <= i < rest.len() && rest[i] == x;
                assert(ps[i] == x);
            }
            if push_new(acc, ps).contains(x) && !a.contains(x) {
                let i = choose|i: int| 0 <= i < a.len() + 1 && a.push(ps.last())[i] == x;
                assert(ps[ps.len() - 1] == x);
            }
            if a.contains(x) && !a.contains(ps.last()) {
                let i = choose|i: int| 0 <= i < a.len() && a[i] == x;
                assert(a.push(ps.last())[i] == x);
            }
            if ps.last() == x && !a.contains(x) {
                assert(a.push(ps.last())[a.len() as int] == x);
            }
        }
    }
}

pub proof fn lemma_insert_union(acc: Seq<EnvView>, cand: EnvView, e: EnvView)
    ensures
        covers(insert_union(acc, cand), e) == (covers(acc, e) || env_matches(cand, e)),
{
    lemma_pending(acc, cand, acc.len(), e);
    lemma_push_new(acc, pending_after(acc, cand, acc.len()), e);
    assert(acc.take(acc.len() as int) =~= acc);
}

pub proof fn lemma_union_all(acc: Seq<EnvView>, cands: Seq<EnvView>, e: EnvView)
    ensures
        covers(union_all(acc, cands), e) == (covers(acc, e) || covers(cands, e)),
    decreases cands.len(),
{
    if cands.len() > 0 {
        let rest = cands.drop_last();
        lemma_union_all(acc, rest, e);
        lemma_insert_union(union_all(acc, rest), cands.last(), e);
        lemma_covers_push(rest, cands.last(), e);
        assert(rest.push(cands.last()) =~= cands);
    }
}

/// The environments collected for `p | q` cover exactly the build
/// environments that those of `p` or those of `q` cover: merging them into a
/// smaller union loses no environment and adds none.
pub proof fn law_or_environments_union(lhs: Seq<EnvView>, rhs: Seq<EnvView>, e: EnvView)
    ensures
        covers(or_environments(lhs, rhs), e) == (covers(lhs, e) || covers(rhs, e)),
{
    if lhs.len() > 0 && rhs.len() > 0 {
        lemma_union_all(seq![], lhs, e);
        lemma_union_all(union_all(seq![], lhs), rhs, e);
    }
}

/// The environments collected for `p & q` are the pairwise merges: the
/// `(i, j)`-th entry merges the `i`-th environment of `p` with the `j`-th of `q`.
pub proof fn law_and_environments(lhs: Seq<EnvView>, rhs: Seq<EnvView>, i: int, j: int)
    requires
        0 <= i < lhs.len(),
        0 <= j < rhs.len(),
    ensures
        cross_and(lhs, rhs).len() == lhs.len() * rhs.len(),
        cross_and(lhs, rhs)[i * rhs.len() + j] == env_and(lhs[i], rhs[j]),
    decreases lhs.len(),
{
    lemma_cross_len(lhs, rhs);
    let rest = lhs.drop_last();
    lemma_cross_len(rest, rhs);
    assert(rest.len() * rhs.len() + rhs.len() == lhs.len() * rhs.len()) by (nonlinear_arith)
        requires
            rest.len() + 1 == lhs.len(),
    ;
    if i < rest.len() {
        law_and_environments(rest, rhs, i, j);
        assert(i * rhs.len() + j < rest.len() * rhs.len()) by (nonlinear_arith)
            requires
                i < rest.len(),
                j < rhs.len(),
                0 <= j,
        ;
    } else {
        assert(i * rhs.len() + j - rest.len() * rhs.len() == j) by (nonlinear_arith)
            requires
                i == rest.len(),
        ;
    }
}

pub proof fn lemma_cross_len(lhs: Seq<EnvView>, rhs: Seq<EnvView>)
    ensures
        cross_and(lhs, rhs).len() == lhs.len() * rhs.len(),
    decreases lhs.len(),
{
    if lhs.len() > 0 {
        lemma_cross_len(lhs.drop_last(), rhs);
        assert(lhs.drop_last().len() * rhs.len() + rhs.len() == lhs.len() * rhs.len()) by (
        nonlinear_arith)
            requires
                lhs.drop_last().len() + 1 == lhs.len(),
        ;
    }
}

/// No environment occurs twice.
pub open spec fn no_dups(s: Seq<EnvView>) -> bool {
    forall|i: int, j: int| 0 <= i < j < s.len() ==> s[i] != s[j]
}

/// Dropping repeated environments keeps every environment once: the result
/// holds the same environments and none twice.
pub proof fn law_dedup(envs: Seq<EnvView>)
    ensures
        no_dups(push_new(seq![], envs)),
        forall|x: EnvView| #[trigger] push_new(seq![], envs).contains(x) <==> envs.contains(x),
{
    lemma_push_new_no_dups(seq![], envs);
    lemma_push_new(seq![], envs, default_view());
}

pub proof fn lemma_push_new_no_dups(acc: Seq<EnvView>, ps: Seq<EnvView>)
    requires
        no_dups(acc),
    ensures
        no_dups(push_new(acc, ps)),
    decreases ps.len(),
{
    if ps.len() > 0 {
        lemma_push_new_no_dups(acc, ps.drop_last());
        let a = push_new(acc, ps.drop_last());
        if !a.contains(ps.last()) {
            assert forall|i: int, j: int| 0 <= i < j < a.push(ps.last()).len() implies a.push(
                ps.last(),
            )[i] != a.push(ps.last())[j] by {
                if j == a.len() {
                    assert(a[i] != ps.last());
                }
            }
        }
    }
}

/// Append every environment of `src` to `dst`.
pub fn extend_envs(dst: &mut Vec<EnvSpec>, src: &Vec<EnvSpec>)
    ensures
        envs_view(final(dst)@) == envs_view(old(dst)@) + envs_view(src@),
{
    let ghost start = envs_view(dst@);
    let mut i: usize = 0;
    while i < src.len()
        invariant
            i <= src@.len(),
            envs_view(dst@) == start + envs_view(src@).take(i as int),
        decreases src@.len() - i,
    {
        let ghost before = envs_view(dst@);
        dst.push(src[i]);
        assert(envs_view(dst@) =~= before.push(src@[i as int]@));
        assert(envs_view(src@).take(i + 1) =~= envs_view(src@).take(i as int).push(src@[i as int]@));
        i += 1;
    }
    assert(envs_view(src@).take(i as int) =~= envs_view(src@));
}

/// No environment of `lhs` conflicts with one of `rhs`.
pub fn all_compatible(lhs: &Vec<EnvSpec>, rhs: &Vec<EnvSpec>) -> (b: bool)
    ensures
        b == cross_compatible(envs_view(lhs@), envs_view(rhs@)),
{
    let mut i: usize = 0;
    while i < lhs.len()
        invariant
            i <= lhs@.len(),
            forall|a: int, c: int|
                0 <= a < i && 0 <= c < rhs@.len() ==> !env_conflict(
                    #[trigger] envs_view(lhs@)[a],
                    #[trigger] envs_view(rhs@)[c],
                ),
        decreases lhs@.len() - i,
    {
        let mut j: usize = 0;
        while j < rhs.len()
            invariant
                i < lhs@.len(),
                j <= rhs@.len(),
                forall|a: int, c: int|
                    0 <= a < i && 0 <= c < rhs@.len() ==> !env_conflict(
                        #[trigger] envs_view(lhs@)[a],
                        #[trigger] envs_view(rhs@)[c],
                    ),
                forall|c: int|
                    0 <= c < j ==> !env_conflict(envs_view(lhs@)[i as int], #[trigger] envs_view(rhs@)[c]),
            decreases rhs@.len() - j,
        {
            if lhs[i].conflicts_with(&rhs[j]) {
                assert(env_conflict(envs_view(lhs@)[i as int], envs_view(rhs@)[j as int]));
                return false;
            }
            j += 1;
        }
        i += 1;
    }
    true
}

// ---------------------------------------------------------------------------
// An environment as a predicate
// ---------------------------------------------------------------------------

/// What an environment requirement gives in the environment `env`.
pub open spec fn env_outcome(spec: EnvView, env: EnvView) -> Result<(), Seq<char>> {
    if env_matches(spec, env) {
        Ok(())
    } else {
        Err("environment mismatch: expected "@ + env_text(spec) + ", got "@ + env_text(env))
    }
}

impl Predicate for EnvSpec {
    open spec fn ready(&self) -> bool {
        true
    }

    open spec fn evaluable(&self, fn_name: Seq<char>, functions: Seq<FunctionView>, env: EnvView) -> bool {
        true
    }

    open spec fn outcome(&self, fn_name: Seq<char>, functions: Seq<FunctionView>, env: EnvView) -> Result<
        (),
        Seq<char>,
    > {
        env_outcome(self@, env)
    }

    fn evaluate(&self, fn_name: &str, functions: &Vec<FunctionIr>, env: &EnvSpec) -> (r: Result<
        (),
        String,
    >) {
        if env.satisfies(self) {
            Ok(())
        } else {
            let mut s = String::from_str("environment mismatch: expected ");
            let expected = self.text();
            s.append(expected.as_str());
            s.append(", got ");
            let got = env.text();
            s.append(got.as_str());
            Err(s)
        }
    }

    fn can_evaluate(&self, fn_name: &str, functions: &Vec<FunctionIr>, env: &EnvSpec) -> (b: bool) {
        true
    }

    open spec fn refusal(&self, fn_name: Seq<char>, functions: Seq<FunctionView>, env: EnvView) -> Seq<char> {
        seq![]
    }

    fn refusal_message(&self, fn_name: &str, functions: &Vec<FunctionIr>, env: &EnvSpec) -> (m: String) {
        String::new()
    }

    open spec fn conflict(&self) -> Option<Seq<char>> {
        None
    }

    fn environment_conflict(&self) -> (r: Option<String>) {
        None
    }

    open spec fn collectable(&self) -> bool {
        true
    }

    open spec fn environments(&self) -> Seq<EnvView> {
        seq![self@]
    }

    fn environments_compatible(&self) -> (b: bool) {
        true
    }

    fn collect_environments(&self, envs: &mut Vec<EnvSpec>) {
        let ghost before = envs_view(envs@);
        envs.push(*self);
        assert(envs_view(envs@) =~= before + seq![self@]);
    }

    open spec fn text(&self) -> Seq<char> {
        env_text(self@)
    }

    fn to_string(&self) -> (s: String) {
        self.text()
    }
}

// ---------------------------------------------------------------------------
// The report of a conflict
// ---------------------------------------------------------------------------

/// A hexadecimal digit, lower case.
pub open spec fn hex_digit(d: nat) -> char {
    if d < 10 {
        ((48 + d) as u8) as char
    } else {
        ((87 + d) as u8) as char
    }
}

/// How `{:?}` writes the character `c` inside a string: `\t`, `\r`, `\n`,
/// `\0`, `\\` and `\"` by a backslash escape, the other ASCII control
/// characters as `\u{..}` in hexadecimal, everything else as it is.
pub open spec fn debug_char(c: char) -> Seq<char> {
    let n = c as u32;
    if c == '\t' {
        seq!['\\', 't']
    } else if c == '\r' {
        seq!['\\', 'r']
    } else if c == '\n' {
        seq!['\\', 'n']
    } else if n == 0 {
        seq!['\\', '0']
    } else if c == '\\' || c == '"' {
        seq!['\\', c]
    } else if n < 0x20 || n == 0x7f {
        seq!['\\', 'u', '{'] + (if n < 16 {
            seq![hex_digit(n as nat)]
        } else {
            seq![hex_digit((n / 16) as nat), hex_digit((n % 16) as nat)]
        }) + seq!['}']
    } else {
        seq![c]
    }
}

/// `s` as `{:?}` writes it between the quotes, for its ASCII characters.
pub open spec fn debug_escape(s: Seq<char>) -> Seq<char>
    decreases s.len(),
{
    if s.len() == 0 {
        seq![]
    } else {
        debug_escape(s.drop_last()) + debug_char(s.last())
    }
}

/// How an optimization level is written in a conflict report.
pub open spec fn opt_debug(o: OptView) -> Seq<char> {
    match o {
        OptView::Any => "Any"@,
        OptView::Debug => "Debug"@,
        OptView::Release => "Release"@,
        OptView::Level(l) => "OptLevel(\""@ + debug_escape(l) + "\")"@,
    }
}

/// The report of merging `a` with `b` under `and`: the optimization level is
/// merged first, then the toolchain, then the target, and the first field
/// that conflicts is named. `None` when they merge.
pub open spec fn and_conflict_message(a: EnvView, b: EnvView) -> Option<Seq<char>> {
    if opt_conflict(a.opt, b.opt) {
        Some(
            "EnvSpec::and conflict on field `opt_level`: "@ + opt_debug(a.opt) + " vs "@ + opt_debug(
                b.opt,
            ),
        )
    } else if field_conflict(a.rustc, b.rustc) {
        Some("EnvSpec::and conflict on field `rustc`"@)
    } else if field_conflict(a.target, b.target) {
        Some("EnvSpec::and conflict on field `target`"@)
    } else {
        None
    }
}

/// The first conflict of merging `a` with `rs[j..]`, in order.
pub open spec fn row_conflict(a: EnvView, rs: Seq<EnvView>, j: int) -> Option<Seq<char>>
    decreases rs.len() - j,
{
    if j < 0 || j >= rs.len() {
        None
    } else {
        match and_conflict_message(a, rs[j]) {
            Some(m) => Some(m),
            None => row_conflict(a, rs, j + 1),
        }
    }
}

/// The first conflict of merging each of `ls[i..]` with each of `rs`, in the
/// order `and` merges them (the left side outer).
pub open spec fn cross_conflict(ls: Seq<EnvView>, rs: Seq<EnvView>, i: int) -> Option<Seq<char>>
    decreases ls.len() - i,
{
    if i < 0 || i >= ls.len() {
        None
    } else {
        match row_conflict(ls[i], rs, 0) {
            Some(m) => Some(m),
            None => cross_conflict(ls, rs, i + 1),
        }
    }
}

pub proof fn lemma_row_conflict(a: EnvView, rs: Seq<EnvView>, j: int)
    requires
        0 <= j,
    ensures
        (row_conflict(a, rs, j) is None) == (forall|k: int|
            j <= k < rs.len() ==> !env_conflict(a, #[trigger] rs[k])),
    decreases rs.len() - j,
{
    if j < rs.len() {
        lemma_row_conflict(a, rs, j + 1);
        if row_conflict(a, rs, j) is None {
            assert forall|k: int| j <= k < rs.len() implies !env_conflict(a, #[trigger] rs[k]) by {
                if k > j {
                }
            }
        }
    }
}

pub proof fn lemma_cross_conflict(ls: Seq<EnvView>, rs: Seq<EnvView>, i: int)
    requires
        0 <= i,
    ensures
        (cross_conflict(ls, rs, i) is None) == (forall|p: int, k: int|
            i <= p < ls.len() && 0 <= k < rs.len() ==> !env_conflict(
                #[trigger] ls[p],
                #[trigger] rs[k],
            )),
    decreases ls.len() - i,
{
    if i < ls.len() {
        lemma_cross_conflict(ls, rs, i + 1);
        lemma_row_conflict(ls[i], rs, 0);
        if cross_conflict(ls, rs, i) is None {
            assert forall|p: int, k: int|
                i <= p < ls.len() && 0 <= k < rs.len() implies !env_conflict(
                #[trigger] ls[p],
                #[trigger] rs[k],
            ) by {
                if p > i {
                }
            }
        } else if row_conflict(ls[i], rs, 0) is None {
        } else {
            let k = choose|k: int| 0 <= k < rs.len() && env_conflict(ls[i], #[trigger] rs[k]);
            assert(env_conflict(ls[i], rs[k]));
        }
    }
}

/// The first conflict among the merges of `ls` with `rs` is none exactly when
/// no two of them conflict.
pub proof fn lemma_cross_conflict_compatible(ls: Seq<EnvView>, rs: Seq<EnvView>)
    ensures
        (cross_conflict(ls, rs, 0) is None) == cross_compatible(ls, rs),
{
    lemma_cross_conflict(ls, rs, 0);
}

fn push_hex_digit(s: &mut String, d: u32)
    requires
        d < 16,
    ensures
        final(s)@ == old(s)@.push(hex_digit(d as nat)),
{
    if d < 10 {
        s.push(((48 + d) as u8) as char);
    } else {
        s.push(((87 + d) as u8) as char);
    }
}

fn push_debug_char(s: &mut String, c: char)
    ensures
        final(s)@ == old(s)@ + debug_char(c),
{
    let n = c as u32;
    if c == '\t' {
        s.push('\\');
        s.push('t');
    } else if c == '\r' {
        s.push('\\');
        s.push('r');
    } else if c == '\n' {
        s.push('\\');
        s.push('n');
    } else if n == 0 {
        s.push('\\');
        s.push('0');
    } else if c == '\\' || c == '"' {
        s.push('\\');
        s.push(c);
    } else if n < 0x20 || n == 0x7f {
        s.push('\\');
        s.push('u');
        s.push('{');
        if n < 16 {
            push_hex_digit(s, n);
        } else {
            push_hex_digit(s, n / 16);
            push_hex_digit(s, n % 16);
        }
        s.push('}');
    } else {
        s.push(c);
    }
    assert(s@ =~= old(s)@ + debug_char(c));
}

fn push_escaped(s: &mut String, l: &str)
    ensures
        final(s)@ == old(s)@ + debug_escape(l@),
{
    let v = chars_of(l);
    let mut i: usize = 0;
    while i < v.len()
        invariant
            i <= v@.len(),
            v@ == l@,
            s@ == old(s)@ + debug_escape(v@.take(i as int)),
        decreases v@.len() - i,
    {
        assert(v@.take(i + 1).drop_last() == v@.take(i as int));
        push_debug_char(s, v[i]);
        i += 1;
    }
    assert(v@.take(v@.len() as int) == v@);
}

fn push_opt_debug(s: &mut String, o: &OptLevel)
    ensures
        final(s)@ == old(s)@ + opt_debug(o@),
{
    match o {
        OptLevel::Any => s.append("Any"),
        OptLevel::Debug => s.append("Debug"),
        OptLevel::Release => s.append("Release"),
        OptLevel::OptLevel(l) => {
            s.append("OptLevel(\"");
            push_escaped(s, l);
            s.append("\")");
        },
    }
}

/// The report of merging `a` with `b` under `and`, when they conflict.
pub fn and_conflict(a: &EnvSpec, b: &EnvSpec) -> (r: Option<String>)
    ensures
        r matches Some(m) ==> and_conflict_message(a@, b@) == Some(m@),
        r is None ==> and_conflict_message(a@, b@) is None,
{
    let opt_conflict = match (&a.opt_level, &b.opt_level) {
        (OptLevel::Any, _) => false,
        (_, OptLevel::Any) => false,
        (OptLevel::Debug, OptLevel::Debug) => false,
        (OptLevel::Release, OptLevel::Release) => false,
        (OptLevel::Release, OptLevel::OptLevel(_)) => false,
        (OptLevel::OptLevel(_), OptLevel::Release) => false,
        (OptLevel::OptLevel(x), OptLevel::OptLevel(y)) => !str_eq(x, y),
        _ => true,
    };
    if opt_conflict {
        let mut s = String::from_str("EnvSpec::and conflict on field `opt_level`: ");
        push_opt_debug(&mut s, &a.opt_level);
        s.append(" vs ");
        push_opt_debug(&mut s, &b.opt_level);
        return Some(s);
    }
    if a.rustc.is_some() && b.rustc.is_some() && !opt_str_eq(a.rustc, b.rustc) {
        return Some(String::from_str("EnvSpec::and conflict on field `rustc`"));
    }
    if a.target.is_some() && b.target.is_some() && !opt_str_eq(a.target, b.target) {
        return Some(String::from_str("EnvSpec::and conflict on field `target`"));
    }
    None
}

/// The report of the first conflict among the merges of each of `lhs` with
/// each of `rhs`, the left side outer.
pub fn first_conflict(lhs: &Vec<EnvSpec>, rhs: &Vec<EnvSpec>) -> (r: Option<String>)
    ensures
        r matches Some(m) ==> cross_conflict(envs_view(lhs@), envs_view(rhs@), 0) == Some(m@),
        r is None ==> cross_conflict(envs_view(lhs@), envs_view(rhs@), 0) is None,
{
    let ghost lv = envs_view(lhs@);
    let ghost rv = envs_view(rhs@);
    let mut i: usize = 0;
    while i < lhs.len()
        invariant
            lv == envs_view(lhs@),
            rv == envs_view(rhs@),
            i <= lhs@.len(),
            cross_conflict(lv, rv, 0) == cross_conflict(lv, rv, i as int),
        decreases lhs@.len() - i,
    {
        let mut j: usize = 0;
        while j < rhs.len()
            invariant
                lv == envs_view(lhs@),
                rv == envs_view(rhs@),
                i < lhs@.len(),
                j <= rhs@.len(),
                row_conflict(lv[i as int], rv, 0) == row_conflict(lv[i as int], rv, j as int),
                cross_conflict(lv, rv, 0) == cross_conflict(lv, rv, i as int),
            decreases rhs@.len() - j,
        {
            match and_conflict(&lhs[i], &rhs[j]) {
                Some(m) => {
                    assert(lhs@[i as int]@ == lv[i as int]);
                    assert(rhs@[j as int]@ == rv[j as int]);
                    assert(row_conflict(lv[i as int], rv, j as int) == Some(m@));
                    assert(cross_conflict(lv, rv, i as int) == Some(m@));
                    return Some(m);
                },
                None => {
                    assert(lhs@[i as int]@ == lv[i as int]);
                    assert(rhs@[j as int]@ == rv[j as int]);
                },
            }
            j += 1;
        }
        i += 1;
    }
    None
}

} // verus!
