//! A lightweight reader for textual LLVM IR: function definitions, their
//! basic blocks, and per-block counts of instructions, calls, allocas,
//! branches and phi nodes.
use vstd::prelude::*;

use crate::predicate::dsl::Property;
use crate::text::{
    lemma_rfind_below, rfind, rfind_below, rfind_char, starts_with_at,
    lines, lines_at, lines_of, starts_with_char,
    chars_of, contains, contains_str, find_char, find_from, lemma_find_from, occurs_at, occurs_at_exec,
    starts_with, starts_with_str, string_of, sub_chars, trim, trim_chars,
};

verus! {

broadcast use vstd::string::group_string_axioms;

/// Represents a parsed basic block with instruction counts.
#[derive(Debug, Clone)]
pub struct BasicBlockIr {
    pub calls: Vec<String>,
    pub instructions: usize,
    pub allocas: usize,
    pub branches: usize,
    pub phi_nodes: usize,
}

/// Lightweight parsed representation of a function's IR.
#[derive(Debug, Clone)]
pub struct FunctionIr {
    pub name: String,
    pub blocks: Vec<BasicBlockIr>,
    pub raw: String,
}

/// What a basic block holds, as plain values.
pub struct BlockView {
    pub calls: Seq<Seq<char>>,
    pub instructions: nat,
    pub allocas: nat,
    pub branches: nat,
    pub phi_nodes: nat,
}

/// What a function holds, as plain values.
pub struct FunctionView {
    pub name: Seq<char>,
    pub blocks: Seq<BlockView>,
    pub raw: Seq<char>,
}

pub open spec fn strings_view(v: Seq<String>) -> Seq<Seq<char>> {
    v.map_values(|s: String| s@)
}

impl View for BasicBlockIr {
    type V = BlockView;

    open spec fn view(&self) -> BlockView {
        BlockView {
            calls: strings_view(self.calls@),
            instructions: self.instructions as nat,
            allocas: self.allocas as nat,
            branches: self.branches as nat,
            phi_nodes: self.phi_nodes as nat,
        }
    }
}

pub open spec fn blocks_view(v: Seq<BasicBlockIr>) -> Seq<BlockView> {
    v.map_values(|b: BasicBlockIr| b@)
}

impl View for FunctionIr {
    type V = FunctionView;

    open spec fn view(&self) -> FunctionView {
        FunctionView { name: self.name@, blocks: blocks_view(self.blocks@), raw: self.raw@ }
    }
}

/// Block `i` of `f`.
pub open spec fn block_at(f: FunctionView, i: usize) -> BlockView {
    f.blocks[i as int]
}

pub open spec fn functions_view(v: Seq<FunctionIr>) -> Seq<FunctionView> {
    v.map_values(|f: FunctionIr| f@)
}

// ---------------------------------------------------------------------------
// Properties
// ---------------------------------------------------------------------------

/// The count that a block-level property reads from one block.
pub open spec fn block_prop(b: BlockView, p: Property) -> nat {
    match p {
        Property::BasicBlocksLen => 0,
        Property::CallsLen => b.calls.len(),
        Property::InstructionsLen => b.instructions,
        Property::AllocasLen => b.allocas,
        Property::BranchesLen => b.branches,
        Property::PhiNodesLen => b.phi_nodes,
    }
}

/// Sum of a block-level property over `blocks`.
pub open spec fn sum_prop(blocks: Seq<BlockView>, p: Property) -> nat
    decreases blocks.len(),
{
    if blocks.len() == 0 {
        0
    } else {
        sum_prop(blocks.drop_last(), p) + block_prop(blocks.last(), p)
    }
}

/// The function-level value of a property: the number of blocks, or the sum
/// of the per-block counts.
pub open spec fn prop_total(f: FunctionView, p: Property) -> nat {
    match p {
        Property::BasicBlocksLen => f.blocks.len(),
        _ => sum_prop(f.blocks, p),
    }
}

/// Every function-level total fits in a `usize`.
pub open spec fn totals_fit(f: FunctionView) -> bool {
    &&& prop_total(f, Property::BasicBlocksLen) <= usize::MAX
    &&& prop_total(f, Property::CallsLen) <= usize::MAX
    &&& prop_total(f, Property::InstructionsLen) <= usize::MAX
    &&& prop_total(f, Property::AllocasLen) <= usize::MAX
    &&& prop_total(f, Property::BranchesLen) <= usize::MAX
    &&& prop_total(f, Property::PhiNodesLen) <= usize::MAX
}

pub proof fn lemma_sum_prop_prefix(blocks: Seq<BlockView>, p: Property, i: int)
    requires
        0 <= i <= blocks.len(),
    ensures
        sum_prop(blocks.take(i), p) <= sum_prop(blocks, p),
    decreases blocks.len() - i,
{
    if i < blocks.len() {
        lemma_sum_prop_prefix(blocks, p, i + 1);
        assert(blocks.take(i + 1).drop_last() =~= blocks.take(i));
    } else {
        assert(blocks.take(i) =~= blocks);
    }
}

impl BasicBlockIr {
    pub open spec fn spec_property(&self, p: Property) -> nat {
        block_prop(self@, p)
    }

    fn property(&self, p: Property) -> (r: usize)
        requires
            p != Property::BasicBlocksLen,
        ensures
            r == block_prop(self@, p),
    {
        match p {
            Property::BasicBlocksLen => 0,
            Property::CallsLen => self.calls.len(),
            Property::InstructionsLen => self.instructions,
            Property::AllocasLen => self.allocas,
            Property::BranchesLen => self.branches,
            Property::PhiNodesLen => self.phi_nodes,
        }
    }
}

impl FunctionIr {
    /// The function-level value of `prop`.
    pub fn compute_property(&self, prop: Property) -> (r: usize)
        requires
            prop_total(self@, prop) <= usize::MAX,
        ensures
            r == prop_total(self@, prop),
    {
        if let Property::BasicBlocksLen = prop {
            return self.blocks.len();
        }
        let mut sum: usize = 0;
        let mut i: usize = 0;
        while i < self.blocks.len()
            invariant
                prop != Property::BasicBlocksLen,
                i <= self.blocks@.len(),
                sum == sum_prop(blocks_view(self.blocks@).take(i as int), prop),
                sum_prop(blocks_view(self.blocks@), prop) <= usize::MAX,
            decreases self.blocks@.len() - i,
        {
            let ghost bv = blocks_view(self.blocks@);
            proof {
                lemma_sum_prop_prefix(bv, prop, i + 1);
                assert(bv.take(i + 1).drop_last() =~= bv.take(i as int));
            }
            sum = sum + self.blocks[i].property(prop);
            i += 1;
        }
        assert(blocks_view(self.blocks@).take(i as int) =~= blocks_view(self.blocks@));
        sum
    }

    /// The function-level value of `prop` fits in a `usize`.
    pub fn property_fits(&self, prop: Property) -> (b: bool)
        ensures
            b == (prop_total(self@, prop) <= usize::MAX),
    {
        if let Property::BasicBlocksLen = prop {
            let _n = self.blocks.len();
            return true;
        }
        let mut sum: usize = 0;
        let mut i: usize = 0;
        while i < self.blocks.len()
            invariant
                prop != Property::BasicBlocksLen,
                i <= self.blocks@.len(),
                sum == sum_prop(blocks_view(self.blocks@).take(i as int), prop),
            decreases self.blocks@.len() - i,
        {
            let ghost bv = blocks_view(self.blocks@);
            proof {
                lemma_sum_prop_prefix(bv, prop, i + 1);
                assert(bv.take(i + 1).drop_last() =~= bv.take(i as int));
            }
            match sum.checked_add(self.blocks[i].property(prop)) {
                Some(next) => {
                    sum = next;
                },
                None => {
                    return false;
                },
            }
            i += 1;
        }
        assert(blocks_view(self.blocks@).take(i as int) =~= blocks_view(self.blocks@));
        true
    }

    /// The value of `prop` in block `block_idx`.
    pub fn compute_block_property(&self, block_idx: usize, prop: Property) -> (r: usize)
        requires
            block_idx < self.blocks@.len(),
            prop != Property::BasicBlocksLen,
        ensures
            r == block_prop(block_at(self@, block_idx), prop),
    {
        self.blocks[block_idx].property(prop)
    }
}

// ---------------------------------------------------------------------------
// Instruction classification
// ---------------------------------------------------------------------------

pub open spec fn is_ascii_alnum(c: char) -> bool {
    ('a' <= c && c <= 'z') || ('A' <= c && c <= 'Z') || ('0' <= c && c <= '9')
}

/// First index at or after `i` where keyword `kw` starts and is not preceded by
/// an ASCII letter or digit.
pub open spec fn keyword_from(s: Seq<char>, kw: Seq<char>, i: int) -> Option<int>
    decreases s.len() + 1 - i,
{
    if i < 0 || i + kw.len() > s.len() {
        None
    } else if occurs_at(s, kw, i) && (i == 0 || !is_ascii_alnum(s[i - 1])) {
        Some(i)
    } else {
        keyword_from(s, kw, i + 1)
    }
}

/// Position of the `call` or `invoke` keyword of an instruction.
pub open spec fn call_keyword(line: Seq<char>) -> Option<int> {
    match keyword_from(line, "call "@, 0) {
        Some(i) => Some(i),
        None => keyword_from(line, "invoke "@, 0),
    }
}

/// A character that ends an unquoted callee name.
pub open spec fn is_name_end(c: char) -> bool {
    c == '(' || c == ' ' || c == ',' || c == ')'
}

/// First index at or after `i` holding a name-ending character.
pub open spec fn name_end_from(s: Seq<char>, i: int) -> Option<int>
    decreases s.len() - i,
{
    if i < 0 || i >= s.len() {
        None
    } else if is_name_end(s[i]) {
        Some(i)
    } else {
        name_end_from(s, i + 1)
    }
}

/// The name after the `@` that starts `s[0]`: quoted names run to the next
/// `"`, others to the first of `( ,)` or to the end.
pub open spec fn symbol_after_at(aa: Seq<char>) -> Option<Seq<char>> {
    if aa.len() > 0 && aa[0] == '"' {
        let st = aa.subrange(1, aa.len() as int);
        match find_from(st, '"', 0) {
            Some(e) => Some(st.take(e)),
            None => None,
        }
    } else {
        let e = match name_end_from(aa, 0) {
            Some(e) => e,
            None => aa.len() as int,
        };
        Some(aa.take(e))
    }
}

/// The value at `p` (an `@` global or a `%` local, plain or quoted) is
/// followed directly by `(`: it is the callee, and the argument list follows.
pub open spec fn followed_by_args(a: Seq<char>, p: int) -> bool {
    if p < a.len() - 1 && a[p + 1] == '"' {
        match find_from(a, '"', p + 2) {
            Some(q) => q + 1 < a.len() && a[q + 1] == '(',
            None => false,
        }
    } else {
        match name_end_from(a, p + 1) {
            Some(k) => a[k] == '(',
            None => false,
        }
    }
}

/// Index of the first value at or after `i` that is followed by an argument
/// list: the called value of the instruction `a`.
pub open spec fn callee_from(a: Seq<char>, i: int) -> Option<int>
    decreases a.len() - i,
{
    if i < 0 || i >= a.len() {
        None
    } else if (a[i] == '@' || a[i] == '%') && followed_by_args(a, i) {
        Some(i)
    } else {
        callee_from(a, i + 1)
    }
}

/// The callee of a call or invoke instruction, when it is a real (non-asm,
/// non-intrinsic) call of a named function: the `@` global directly
/// followed by the argument list, `None` when that value is a `%` local (an
/// indirect call); with no value directly followed by an argument list (a
/// constant-expression callee such as `bitcast (ptr @f to ptr)`), the first
/// `@` global after the keyword.
pub open spec fn call_target(line: Seq<char>) -> Option<Seq<char>> {
    match call_keyword(line) {
        None => None,
        Some(idx) => {
            let a = line.subrange(idx, line.len() as int);
            if contains(a, "asm "@) || contains(a, "asm\""@) {
                None
            } else if contains(a, "@llvm."@) {
                None
            } else {
                match callee_from(a, 0) {
                    Some(at) => if a[at] == '@' {
                        symbol_after_at(a.subrange(at + 1, a.len() as int))
                    } else {
                        None
                    },
                    None => match find_from(a, '@', 0) {
                        Some(at) => symbol_after_at(a.subrange(at + 1, a.len() as int)),
                        None => None,
                    },
                }
            }
        },
    }
}

pub open spec fn is_alloca(line: Seq<char>) -> bool {
    contains(line, " alloca "@)
}

pub open spec fn is_branch(line: Seq<char>) -> bool {
    starts_with(trim(line), "br "@) || starts_with(trim(line), "switch "@)
}

pub open spec fn is_phi(line: Seq<char>) -> bool {
    contains(line, " phi "@)
}

fn is_ascii_alphanumeric(c: char) -> (b: bool)
    ensures
        b == is_ascii_alnum(c),
{
    ('a' <= c && c <= 'z') || ('A' <= c && c <= 'Z') || ('0' <= c && c <= '9')
}

fn keyword_position(line: &Vec<char>, kw: &str) -> (r: Option<usize>)
    ensures
        r matches Some(k) ==> keyword_from(line@, kw@, 0) == Some(k as int),
        r is None ==> keyword_from(line@, kw@, 0) is None,
{
    let k = chars_of(kw);
    if k.len() > line.len() {
        return None;
    }
    let last = line.len() - k.len();
    let mut i: usize = 0;
    while i <= last
        invariant
            last + k@.len() == line@.len(),
            k@ == kw@,
            keyword_from(line@, k@, 0) == keyword_from(line@, k@, i as int),
        decreases last + 1 - i,
    {
        if occurs_at_exec(line, &k, i) && (i == 0 || !is_ascii_alphanumeric(line[i - 1])) {
            return Some(i);
        }
        if i == last {
            assert(keyword_from(line@, k@, i + 1) is None);
            return None;
        }
        i += 1;
    }
    None
}

/// Find the position of the `call` keyword in an instruction line.
fn find_call_keyword(line: &Vec<char>) -> (r: Option<usize>)
    ensures
        r matches Some(k) ==> call_keyword(line@) == Some(k as int),
        r is None ==> call_keyword(line@) is None,
{
    match keyword_position(line, "call ") {
        Some(i) => Some(i),
        None => keyword_position(line, "invoke "),
    }
}

fn name_end(s: &Vec<char>, from: usize) -> (r: Option<usize>)
    ensures
        r matches Some(k) ==> name_end_from(s@, from as int) == Some(k as int),
        r is None ==> name_end_from(s@, from as int) is None,
{
    let mut i: usize = from;
    while i < s.len()
        invariant
            from <= i,
            name_end_from(s@, from as int) == name_end_from(s@, i as int),
        decreases s@.len() - i,
    {
        let c = s[i];
        if c == '(' || c == ' ' || c == ',' || c == ')' {
            return Some(i);
        }
        i += 1;
    }
    None
}

fn is_followed_by_args(a: &Vec<char>, p: usize) -> (b: bool)
    requires
        p < a@.len(),
    ensures
        b == followed_by_args(a@, p as int),
{
    if p < a.len() - 1 && a[p + 1] == '"' {
        match find_char(a, '"', p + 2) {
            Some(q) => {
                proof {
                    lemma_find_from(a@, '"', p + 2);
                }
                q + 1 < a.len() && a[q + 1] == '('
            },
            None => false,
        }
    } else {
        match name_end(a, p + 1) {
            Some(k) => {
                proof {
                    lemma_name_end(a@, p + 1);
                }
                a[k] == '('
            },
            None => false,
        }
    }
}

fn find_callee(a: &Vec<char>) -> (r: Option<usize>)
    ensures
        r matches Some(k) ==> callee_from(a@, 0) == Some(k as int) && k < a@.len(),
        r is None ==> callee_from(a@, 0) is None,
{
    let mut i: usize = 0;
    while i < a.len()
        invariant
            callee_from(a@, 0) == callee_from(a@, i as int),
        decreases a@.len() - i,
    {
        if (a[i] == '@' || a[i] == '%') && is_followed_by_args(a, i) {
            return Some(i);
        }
        i += 1;
    }
    None
}

/// Extract the call target name from a call/invoke instruction, if it is a
/// real (non-asm, non-intrinsic) call of a named function; `None` for an
/// indirect call through a `%` local (see `call_target`).
pub fn extract_call_target(line: &Vec<char>) -> (r: Option<String>)
    ensures
        r matches Some(s) ==> call_target(line@) == Some(s@),
        r is None ==> call_target(line@) is None,
{
    let call_idx = match find_call_keyword(line) {
        Some(i) => i,
        None => return None,
    };
    proof {
        assert(keyword_from(line@, "call "@, 0) is Some ==> call_keyword(line@) is Some);
        lemma_keyword_bounds(line@, "call "@, 0);
        lemma_keyword_bounds(line@, "invoke "@, 0);
    }
    let after_call = sub_chars(line, call_idx, line.len());
    if contains_str(&after_call, "asm ") || contains_str(&after_call, "asm\"") {
        return None;
    }
    if contains_str(&after_call, "@llvm.") {
        return None;
    }
    let at_pos = match find_callee(&after_call) {
        Some(p) => {
            if after_call[p] != '@' {
                return None;
            }
            p
        },
        None => match find_char(&after_call, '@', 0) {
            Some(p) => {
                proof {
                    lemma_find_from(after_call@, '@', 0);
                }
                p
            },
            None => return None,
        },
    };
    let after_at = sub_chars(&after_call, at_pos + 1, after_call.len());
    if after_at.len() > 0 && after_at[0] == '"' {
        let stripped = sub_chars(&after_at, 1, after_at.len());
        match find_char(&stripped, '"', 0) {
            Some(end) => {
                proof {
                    lemma_find_from(stripped@, '"', 0);
                }
                let name = sub_chars(&stripped, 0, end);
                Some(string_of(&name))
            },
            None => None,
        }
    } else {
        let end = match name_end(&after_at, 0) {
            Some(e) => {
                proof {
                    lemma_name_end(after_at@, 0);
                }
                e
            },
            None => after_at.len(),
        };
        let name = sub_chars(&after_at, 0, end);
        Some(string_of(&name))
    }
}

pub proof fn lemma_keyword_bounds(s: Seq<char>, kw: Seq<char>, i: int)
    requires
        0 <= i,
    ensures
        keyword_from(s, kw, i) matches Some(k) ==> i <= k && k + kw.len() <= s.len(),
    decreases s.len() + 1 - i,
{
    if i + kw.len() <= s.len() && !(occurs_at(s, kw, i) && (i == 0 || !is_ascii_alnum(s[i - 1]))) {
        lemma_keyword_bounds(s, kw, i + 1);
    }
}

pub proof fn lemma_name_end(s: Seq<char>, i: int)
    requires
        0 <= i,
    ensures
        name_end_from(s, i) matches Some(k) ==> i <= k < s.len(),
    decreases s.len() - i,
{
    if i < s.len() && !is_name_end(s[i]) {
        lemma_name_end(s, i + 1);
    }
}

fn is_alloca_instruction(line: &Vec<char>) -> (b: bool)
    ensures
        b == is_alloca(line@),
{
    contains_str(line, " alloca ")
}

fn is_branch_instruction(line: &Vec<char>) -> (b: bool)
    ensures
        b == is_branch(line@),
{
    let trimmed = trim_chars(line);
    starts_with_str(&trimmed, "br ") || starts_with_str(&trimmed, "switch ")
}

fn is_phi_instruction(line: &Vec<char>) -> (b: bool)
    ensures
        b == is_phi(line@),
{
    contains_str(line, " phi ")
}

// ---------------------------------------------------------------------------
// Function bodies
// ---------------------------------------------------------------------------

pub open spec fn empty_block() -> BlockView {
    BlockView { calls: seq![], instructions: 0, allocas: 0, branches: 0, phi_nodes: 0 }
}

/// The line starts with a space or a tab.
pub open spec fn is_indented(line: Seq<char>) -> bool {
    line.len() > 0 && (line[0] == ' ' || line[0] == '\t')
}

/// The part of a trimmed line before any `;` comment, trimmed again.
pub open spec fn before_comment(trimmed: Seq<char>) -> Seq<char> {
    match find_from(trimmed, ';', 0) {
        Some(k) => trim(trimmed.take(k)),
        None => trimmed,
    }
}

/// A basic block label: an unindented line whose text before any comment
/// ends with `:` and holds no `=`.
pub open spec fn is_label(line: Seq<char>) -> bool {
    let b = before_comment(trim(line));
    &&& !is_indented(line)
    &&& b.len() > 0
    &&& b.last() == ':'
    &&& find_from(b, '=', 0) is None
}

/// The block after counting one instruction line.
pub open spec fn count_instruction(b: BlockView, trimmed: Seq<char>) -> BlockView {
    BlockView {
        calls: match call_target(trimmed) {
            Some(c) => b.calls.push(c),
            None => b.calls,
        },
        instructions: b.instructions + 1,
        allocas: b.allocas + if is_alloca(trimmed) {
            1nat
        } else {
            0nat
        },
        branches: b.branches + if is_branch(trimmed) {
            1nat
        } else {
            0nat
        },
        phi_nodes: b.phi_nodes + if is_phi(trimmed) {
            1nat
        } else {
            0nat
        },
    }
}

/// The blocks closed so far and the block being filled.
pub struct BodyState {
    pub blocks: Seq<BlockView>,
    pub current: Option<BlockView>,
}

pub open spec fn close_block(blocks: Seq<BlockView>, current: Option<BlockView>) -> Seq<BlockView> {
    match current {
        Some(b) => blocks.push(b),
        None => blocks,
    }
}

/// One line of a function body: blank and comment lines are skipped, a
/// label starts a new block, other lines join the current block (opening one
/// if there is none) and count as instructions when indented.
pub open spec fn body_step(st: BodyState, line: Seq<char>) -> BodyState {
    let t = trim(line);
    if t.len() == 0 || t[0] == ';' {
        st
    } else if is_label(line) {
        BodyState { blocks: close_block(st.blocks, st.current), current: Some(empty_block()) }
    } else {
        let cur = match st.current {
            Some(b) => b,
            None => empty_block(),
        };
        if is_indented(line) {
            BodyState { blocks: st.blocks, current: Some(count_instruction(cur, t)) }
        } else {
            BodyState { blocks: st.blocks, current: Some(cur) }
        }
    }
}

pub open spec fn body_fold(ls: Seq<Seq<char>>) -> BodyState
    decreases ls.len(),
{
    if ls.len() == 0 {
        BodyState { blocks: seq![], current: None }
    } else {
        body_step(body_fold(ls.drop_last()), ls.last())
    }
}

/// The blocks of a function body.
pub open spec fn body_blocks(body: Seq<char>) -> Seq<BlockView> {
    let st = body_fold(lines(body));
    close_block(st.blocks, st.current)
}

/// The function that `parse_function_body` reads from `body`.
pub open spec fn parse_body(name: Seq<char>, body: Seq<char>, raw: Seq<char>) -> FunctionView {
    FunctionView { name, blocks: body_blocks(body), raw }
}

pub open spec fn opt_view(o: Option<BasicBlockIr>) -> Option<BlockView> {
    match o {
        Some(b) => Some(b@),
        None => None,
    }
}

/// Every count of a block is bounded by its instructions: calls, allocas,
/// branches and phi nodes are instructions.
pub open spec fn counts_within_instructions(b: BlockView) -> bool {
    &&& b.calls.len() <= b.instructions
    &&& b.allocas <= b.instructions
    &&& b.branches <= b.instructions
    &&& b.phi_nodes <= b.instructions
}

pub open spec fn all_within(blocks: Seq<BlockView>) -> bool {
    forall|i: int| 0 <= i < blocks.len() ==> counts_within_instructions(#[trigger] blocks[i])
}

pub proof fn lemma_fold_within(ls: Seq<Seq<char>>)
    ensures
        all_within(body_fold(ls).blocks),
        body_fold(ls).current matches Some(b) ==> counts_within_instructions(b),
    decreases ls.len(),
{
    if ls.len() > 0 {
        lemma_fold_within(ls.drop_last());
        let st = body_fold(ls.drop_last());
        let closed = close_block(st.blocks, st.current);
        assert(all_within(closed)) by {
            assert forall|i: int| 0 <= i < closed.len() implies counts_within_instructions(
                #[trigger] closed[i],
            ) by {
                if i < st.blocks.len() {
                    assert(closed[i] == st.blocks[i]);
                }
            }
        }
    }
}

/// In every block that `parse_function_body` reads, the calls, allocas,
/// branches and phi nodes are each at most the instructions.
pub proof fn law_counts_within_instructions(body: Seq<char>)
    ensures
        all_within(body_blocks(body)),
{
    lemma_fold_within(lines(body));
    let st = body_fold(lines(body));
    let blocks = body_blocks(body);
    assert forall|i: int| 0 <= i < blocks.len() implies counts_within_instructions(
        #[trigger] blocks[i],
    ) by {
        if i < st.blocks.len() {
            assert(blocks[i] == st.blocks[i]);
        }
    }
}

fn new_block() -> (b: BasicBlockIr)
    ensures
        b@ == empty_block(),
{
    let b = BasicBlockIr {
        calls: Vec::new(),
        instructions: 0,
        allocas: 0,
        branches: 0,
        phi_nodes: 0,
    };
    assert(strings_view(b.calls@) =~= Seq::<Seq<char>>::empty());
    b
}

/// Every property total of `blocks` plus the open block is at most `k`.
pub open spec fn bounded_by(blocks: Seq<BlockView>, current: Option<BlockView>, k: nat) -> bool {
    let all = close_block(blocks, current);
    &&& all.len() <= k + 1
    &&& sum_prop(all, Property::CallsLen) <= k
    &&& sum_prop(all, Property::InstructionsLen) <= k
    &&& sum_prop(all, Property::AllocasLen) <= k
    &&& sum_prop(all, Property::BranchesLen) <= k
    &&& sum_prop(all, Property::PhiNodesLen) <= k
}

pub proof fn lemma_sum_push(s: Seq<BlockView>, b: BlockView, p: Property)
    ensures
        sum_prop(s.push(b), p) == sum_prop(s, p) + block_prop(b, p),
{
    assert(s.push(b).drop_last() =~= s);
}

/// Counting one more instruction keeps every total within one more line.
pub proof fn lemma_bound_step(
    blocks: Seq<BlockView>,
    current: Option<BlockView>,
    k: nat,
    next: BlockView,
)
    requires
        bounded_by(blocks, current, k),
        ({
            let cur = match current {
                Some(b) => b,
                None => empty_block(),
            };
            &&& block_prop(next, Property::CallsLen) <= block_prop(cur, Property::CallsLen) + 1
            &&& block_prop(next, Property::InstructionsLen) <= block_prop(cur, Property::InstructionsLen) + 1
            &&& block_prop(next, Property::AllocasLen) <= block_prop(cur, Property::AllocasLen) + 1
            &&& block_prop(next, Property::BranchesLen) <= block_prop(cur, Property::BranchesLen) + 1
            &&& block_prop(next, Property::PhiNodesLen) <= block_prop(cur, Property::PhiNodesLen) + 1
        }),
    ensures
        bounded_by(blocks, Some(next), k + 1),
{
    lemma_sum_push(blocks, next, Property::CallsLen);
    lemma_sum_push(blocks, next, Property::InstructionsLen);
    lemma_sum_push(blocks, next, Property::AllocasLen);
    lemma_sum_push(blocks, next, Property::BranchesLen);
    lemma_sum_push(blocks, next, Property::PhiNodesLen);
    match current {
        Some(c) => {
            lemma_sum_push(blocks, c, Property::CallsLen);
            lemma_sum_push(blocks, c, Property::InstructionsLen);
            lemma_sum_push(blocks, c, Property::AllocasLen);
            lemma_sum_push(blocks, c, Property::BranchesLen);
            lemma_sum_push(blocks, c, Property::PhiNodesLen);
        },
        None => {},
    }
}

/// Closing the open block and opening an empty one keeps every total.
pub proof fn lemma_bound_label(blocks: Seq<BlockView>, current: Option<BlockView>, k: nat)
    requires
        bounded_by(blocks, current, k),
    ensures
        bounded_by(close_block(blocks, current), Some(empty_block()), k + 1),
{
    let all = close_block(blocks, current);
    lemma_sum_push(all, empty_block(), Property::CallsLen);
    lemma_sum_push(all, empty_block(), Property::InstructionsLen);
    lemma_sum_push(all, empty_block(), Property::AllocasLen);
    lemma_sum_push(all, empty_block(), Property::BranchesLen);
    lemma_sum_push(all, empty_block(), Property::PhiNodesLen);
}

pub proof fn lemma_lines_len(s: Seq<char>, start: int)
    requires
        0 <= start,
    ensures
        start <= s.len() ==> lines_at(s, start).len() <= s.len() - start,
        start > s.len() ==> lines_at(s, start).len() == 0,
    decreases s.len() - start,
{
    if start < s.len() {
        lemma_find_from(s, '\n', start);
        match find_from(s, '\n', start) {
            Some(k) => {
                lemma_lines_len(s, k + 1);
            },
            None => {},
        }
    }
}

/// Add one instruction line to block `b`.
fn count_into(b: &mut BasicBlockIr, trimmed: &Vec<char>)
    requires
        old(b).instructions < usize::MAX,
        old(b).allocas < usize::MAX,
        old(b).branches < usize::MAX,
        old(b).phi_nodes < usize::MAX,
    ensures
        final(b)@ == count_instruction(old(b)@, trimmed@),
{
    b.instructions += 1;
    if let Some(callee) = extract_call_target(trimmed) {
        let ghost before = b.calls@;
        b.calls.push(callee);
        assert(strings_view(b.calls@) =~= strings_view(before).push(callee@));
    }
    if is_alloca_instruction(trimmed) {
        b.allocas += 1;
    }
    if is_branch_instruction(trimmed) {
        b.branches += 1;
    }
    if is_phi_instruction(trimmed) {
        b.phi_nodes += 1;
    }
}

/// Parse a function body text into a FunctionIr.
/// The input is the text between `define ... {` and the closing `}`.
pub fn parse_function_body(name: &str, body: &str, raw: &str) -> (f: FunctionIr)
    ensures
        f@ == parse_body(name@, body@, raw@),
        totals_fit(f@),
{
    let body_chars = chars_of(body);
    parse_body_chars(&chars_of(name), &body_chars, &chars_of(raw))
}

pub fn parse_body_chars(name: &Vec<char>, body: &Vec<char>, raw: &Vec<char>) -> (f: FunctionIr)
    ensures
        f@ == parse_body(name@, body@, raw@),
        totals_fit(f@),
{
    let ls = lines_of(body);
    proof {
        lemma_lines_len(body@, 0);
    }
    let ghost lv = lines(body@);
    let mut blocks: Vec<BasicBlockIr> = Vec::new();
    let mut current: Option<BasicBlockIr> = None;
    let mut k: usize = 0;
    assert(blocks_view(blocks@) =~= Seq::<BlockView>::empty());
    assert(lv.take(0) =~= Seq::<Seq<char>>::empty());
    while k < ls.len()
        invariant
            ls@.len() == lv.len(),
            lv == lines(body@),
            lv.len() <= body@.len(),
            forall|j: int| 0 <= j < ls@.len() ==> #[trigger] ls@[j]@ == lv[j],
            k <= ls@.len(),
            body_fold(lv.take(k as int)) == (BodyState {
                blocks: blocks_view(blocks@),
                current: opt_view(current),
            }),
            bounded_by(
                blocks_view(blocks@),
                opt_view(current),
                k as nat,
            ),
        decreases ls@.len() - k,
    {
        let ghost bv = blocks_view(blocks@);
        assert(lv.take(k + 1).drop_last() =~= lv.take(k as int));
        let line = &ls[k];
        let trimmed = trim_chars(line);
        let ghost cv = opt_view(current);
        if trimmed.len() == 0 || trimmed[0] == ';' {
            proof {
                lemma_bound_step(bv, cv, k as nat, match cv { Some(c) => c, None => empty_block() });
            }
            k += 1;
            continue;
        }
        if !starts_with_char(line, ' ') && !starts_with_char(line, '\t') {
            let b = match find_char(&trimmed, ';', 0) {
                Some(semi) => {
                    proof {
                        lemma_find_from(trimmed@, ';', 0);
                    }
                    trim_chars(&sub_chars(&trimmed, 0, semi))
                },
                None => trimmed.clone(),
            };
            if b.len() > 0 && b[b.len() - 1] == ':' && find_char(&b, '=', 0).is_none() {
                match current {
                    Some(c) => {
                        blocks.push(c);
                        assert(blocks_view(blocks@) =~= bv.push(c@));
                    },
                    None => {},
                }
                current = Some(new_block());
                proof {
                    lemma_bound_label(bv, cv, k as nat);
                }
                k += 1;
                continue;
            }
        }
        let mut cur = match current {
            Some(c) => c,
            None => new_block(),
        };
        proof {
            lemma_bound_step(bv, cv, k as nat, match cv { Some(c) => c, None => empty_block() });
        }
        if starts_with_char(line, ' ') || starts_with_char(line, '\t') {
            count_into(&mut cur, &trimmed);
            proof {
                lemma_bound_step(bv, cv, k as nat, cur@);
            }
        }
        current = Some(cur);
        k += 1;
    }
    assert(lv.take(k as int) =~= lv);
    match current {
        Some(c) => {
            let ghost bv = blocks_view(blocks@);
            blocks.push(c);
            assert(blocks_view(blocks@) =~= bv.push(c@));
        },
        None => {},
    }
    let _nblocks = blocks.len();
    FunctionIr { name: string_of(name), blocks, raw: string_of(raw) }
}

// ---------------------------------------------------------------------------
// Whole files
// ---------------------------------------------------------------------------

/// First `'\n'` at or after `j` that is directly followed by `}`; the result
/// is the index of that `}`.
pub open spec fn closing_brace_from(c: Seq<char>, j: int) -> Option<int>
    decreases c.len() - j,
{
    if j < 0 || j >= c.len() {
        None
    } else if c[j] == '\n' && j + 1 < c.len() && c[j + 1] == '}' {
        Some(j + 1)
    } else {
        closing_brace_from(c, j + 1)
    }
}

pub proof fn lemma_closing_brace(c: Seq<char>, j: int)
    requires
        0 <= j,
    ensures
        closing_brace_from(c, j) matches Some(e) ==> j < e < c.len() && c[e] == '}',
    decreases c.len() - j,
{
    if j < c.len() && !(c[j] == '\n' && j + 1 < c.len() && c[j + 1] == '}') {
        lemma_closing_brace(c, j + 1);
    }
}

/// The function whose `define` line starts at `i`, and the index just past
/// its closing `}`.
pub open spec fn define_at(c: Seq<char>, i: int) -> Option<(FunctionView, int)> {
    let line_end = match find_from(c, '\n', i) {
        Some(n) => n,
        None => c.len() as int,
    };
    let line = c.subrange(i, line_end);
    match find_from(line, '@', 0) {
        None => None,
        Some(ns) => {
            let abs = i + ns + 1;
            match find_from(c, '(', abs) {
                None => None,
                Some(pp) => match rfind(line, '{') {
                    None => None,
                    Some(bo) => {
                        let body_start = i + bo + 1;
                        match closing_brace_from(c, body_start) {
                            None => None,
                            Some(be) => Some(
                                (
                                    parse_body(
                                        c.subrange(abs, pp),
                                        c.subrange(body_start, be),
                                        c.subrange(i, be + 1),
                                    ),
                                    be + 1,
                                ),
                            ),
                        }
                    },
                },
            }
        },
    }
}

/// A `define` keyword starts a line at `i`.
pub open spec fn define_starts(c: Seq<char>, i: int) -> bool {
    &&& (i == 0 || c[i - 1] == '\n')
    &&& occurs_at(c, "define "@, i)
}

/// The functions defined in `c[i..]`, scanning line by line.
pub open spec fn scan_functions(c: Seq<char>, i: int) -> Seq<FunctionView>
    decreases c.len() - i,
{
    if i < 0 || i >= c.len() {
        seq![]
    } else {
        let here = if define_starts(c, i) {
            define_at(c, i)
        } else {
            None
        };
        match here {
            Some((f, next)) => if i < next <= c.len() {
                seq![f] + scan_functions(c, next)
            } else {
                seq![]
            },
            None => match find_from(c, '\n', i) {
                Some(nl) => if i <= nl < c.len() {
                    scan_functions(c, nl + 1)
                } else {
                    seq![]
                },
                None => seq![],
            },
        }
    }
}

/// The functions defined in an LLVM IR file.
pub open spec fn parse_ir(content: Seq<char>) -> Seq<FunctionView> {
    scan_functions(content, 0)
}

pub proof fn lemma_define_at(c: Seq<char>, i: int)
    requires
        0 <= i < c.len(),
    ensures
        define_at(c, i) matches Some((f, next)) ==> i < next <= c.len(),
{
    lemma_find_from(c, '\n', i);
    let line_end = match find_from(c, '\n', i) {
        Some(n) => n,
        None => c.len() as int,
    };
    let line = c.subrange(i, line_end);
    lemma_find_from(line, '@', 0);
    lemma_rfind_below(line, '{', line.len() as int);
    match rfind(line, '{') {
        Some(bo) => {
            lemma_closing_brace(c, i + bo + 1);
        },
        None => {},
    }
}

/// Find the closing `}` that matches the opening brace.
/// For LLVM IR, function bodies end with `}` at the start of a line.
fn find_closing_brace(content: &Vec<char>, start: usize) -> (r: Option<usize>)
    ensures
        r matches Some(e) ==> closing_brace_from(content@, start as int) == Some(e as int),
        r is None ==> closing_brace_from(content@, start as int) is None,
{
    let mut j = start;
    while j < content.len()
        invariant
            start <= j,
            closing_brace_from(content@, start as int) == closing_brace_from(content@, j as int),
        decreases content@.len() - j,
    {
        if content[j] == '\n' && j + 1 < content.len() && content[j + 1] == '}' {
            return Some(j + 1);
        }
        j += 1;
    }
    None
}

fn parse_define(c: &Vec<char>, i: usize) -> (r: Option<(FunctionIr, usize)>)
    requires
        i < c@.len(),
    ensures
        r matches Some((f, next)) ==> define_at(c@, i as int) == Some((f@, next as int)) && totals_fit(f@),
        r is None ==> define_at(c@, i as int) is None,
{
    let clen = c.len();
    proof {
        lemma_find_from(c@, '\n', i as int);
    }
    let line_end = match find_char(c, '\n', i) {
        Some(n) => n,
        None => c.len(),
    };
    let line = sub_chars(c, i, line_end);
    let name_start = match find_char(&line, '@', 0) {
        Some(k) => k,
        None => return None,
    };
    proof {
        lemma_find_from(line@, '@', 0);
    }
    let abs_name_start = i + name_start + 1;
    let paren = match find_char(c, '(', abs_name_start) {
        Some(p) => p,
        None => return None,
    };
    proof {
        lemma_find_from(c@, '(', abs_name_start as int);
        lemma_rfind_below(line@, '{', line@.len() as int);
    }
    let brace = match rfind_char(&line, '{') {
        Some(b) => b,
        None => return None,
    };
    let body_start = i + brace + 1;
    let body_end = match find_closing_brace(c, body_start) {
        Some(e) => e,
        None => return None,
    };
    proof {
        lemma_closing_brace(c@, body_start as int);
    }
    let name = sub_chars(c, abs_name_start, paren);
    let body = sub_chars(c, body_start, body_end);
    let raw = sub_chars(c, i, body_end + 1);
    let f = parse_body_chars(&name, &body, &raw);
    Some((f, body_end + 1))
}

/// Parse all function definitions from an LLVM IR file.
pub fn parse_ir_functions(content: &str) -> (r: Vec<FunctionIr>)
    ensures
        functions_view(r@) == parse_ir(content@),
        forall|k: int| 0 <= k < r@.len() ==> totals_fit(#[trigger] r@[k]@),
{
    let c = chars_of(content);
    let mut functions: Vec<FunctionIr> = Vec::new();
    let mut i: usize = 0;
    let len = c.len();
    assert(functions_view(functions@) =~= Seq::<FunctionView>::empty());
    while i < len
        invariant
            len == c@.len(),
            c@ == content@,
            parse_ir(c@) == functions_view(functions@) + scan_functions(c@, i as int),
            forall|k: int| 0 <= k < functions@.len() ==> totals_fit(#[trigger] functions@[k]@),
        decreases len - i,
    {
        let ghost fv = functions_view(functions@);
        if (i == 0 || c[i - 1] == '\n') && starts_with_at(&c, "define ", i) {
            proof {
                lemma_define_at(c@, i as int);
            }
            match parse_define(&c, i) {
                Some((f, next)) => {
                    functions.push(f);
                    assert(functions_view(functions@) =~= fv.push(f@));
                    assert(fv.push(f@) + scan_functions(c@, next as int) =~= fv + (seq![f@]
                        + scan_functions(c@, next as int)));
                    i = next;
                    continue;
                },
                None => {},
            }
        }
        proof {
            lemma_find_from(c@, '\n', i as int);
        }
        match find_char(&c, '\n', i) {
            Some(nl) => {
                i = nl + 1;
            },
            None => {
                assert(scan_functions(c@, i as int) =~= Seq::<FunctionView>::empty());
                assert(scan_functions(c@, len as int) =~= Seq::<FunctionView>::empty());
                i = len;
            },
        }
    }
    assert(scan_functions(c@, i as int) =~= Seq::<FunctionView>::empty());
    assert(functions_view(functions@) + Seq::<FunctionView>::empty() =~= functions_view(
        functions@,
    ));
    functions
}

pub proof fn lemma_closing_brace_exists(c: Seq<char>, j: int, k: int)
    requires
        0 <= j <= k,
        k + 1 < c.len(),
        c[k] == '\n',
        c[k + 1] == '}',
    ensures
        closing_brace_from(c, j) is Some,
    decreases k - j,
{
    if j < k && !(c[j] == '\n' && j + 1 < c.len() && c[j + 1] == '}') {
        lemma_closing_brace_exists(c, j + 1, k);
    }
}

/// A `define` line names its function by the first `@` on it: for a line
/// `define <ret> @name(<args>) <attrs> {` whose return type holds no `@`
/// and whose name holds no `@` or `(`, followed by a body and a closing
/// `}` line, the first function read is called `name`, whatever `@`
/// symbols follow the argument list.
pub proof fn law_define_line_names_function(
    c: Seq<char>,
    pre: Seq<char>,
    name: Seq<char>,
    post: Seq<char>,
    body: Seq<char>,
    rest: Seq<char>,
)
    requires
        c == pre + seq!['@'] + name + seq!['('] + post + seq!['\n'] + body + seq!['\n', '}'] + rest,
        occurs_at(c, "define "@, 0),
        !pre.contains('@'),
        !pre.contains('\n'),
        !name.contains('@'),
        !name.contains('('),
        !name.contains('\n'),
        !post.contains('\n'),
        post.contains('{'),
    ensures
        parse_ir(c).len() > 0,
        parse_ir(c)[0].name == name,
{
    let at = pre.len() as int;
    let op = at + 1 + name.len();
    let nl = op + 1 + post.len();
    assert(c[at] == '@');
    assert(c[op] == '(');
    assert(c[nl] == '\n');
    assert forall|m: int| 0 <= m < nl implies c[m] != '\n' by {
        if m < at {
            assert(c[m] == pre[m]);
        } else if m > at && m < op {
            assert(c[m] == name[m - at - 1]);
        } else if m > op {
            assert(c[m] == post[m - op - 1]);
        }
    }
    lemma_find_from(c, '\n', 0);
    assert(find_from(c, '\n', 0) == Some(nl));
    let line = c.subrange(0, nl);
    assert forall|m: int| 0 <= m < at implies line[m] != '@' by {
        assert(line[m] == pre[m]);
    }
    assert(line[at] == '@');
    lemma_find_from(line, '@', 0);
    assert(find_from(line, '@', 0) == Some(at));
    assert forall|m: int| at + 1 <= m < op implies c[m] != '(' by {
        assert(c[m] == name[m - at - 1]);
    }
    lemma_find_from(c, '(', at + 1);
    assert(find_from(c, '(', at + 1) == Some(op));
    assert(c.subrange(at + 1, op) =~= name);
    let q = choose|q: int| 0 <= q < post.len() && post[q] == '{';
    assert(line[op + 1 + q] == '{');
    lemma_rfind_below(line, '{', line.len() as int);
    assert(rfind(line, '{') is Some) by {
        if rfind(line, '{') is None {
            lemma_rfind_none(line, '{', line.len() as int, op + 1 + q);
        }
    }
    let bo = rfind(line, '{').unwrap();
    let close = nl + 1 + body.len();
    assert(c[close] == '\n');
    assert(c[close + 1] == '}');
    lemma_closing_brace_exists(c, bo + 1, close);
    lemma_define_at(c, 0);
    assert(define_starts(c, 0));
}

pub proof fn lemma_rfind_none(s: Seq<char>, ch: char, j: int, k: int)
    requires
        0 <= k < j <= s.len(),
        s[k] == ch,
    ensures
        rfind_below(s, ch, j) is Some,
    decreases j,
{
    if s[j - 1] != ch {
        lemma_rfind_none(s, ch, j - 1, k);
    }
}

} // verus!
