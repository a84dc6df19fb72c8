use ir_assert::ir::{extract_call_target, parse_function_body, parse_ir_functions};
use ir_assert::locate::{env_target_suffix, find_referenced_functions};
use ir_assert::predicate::dsl::Property;
use ir_assert::text::chars_of;
use ir_assert::EnvSpec;

const MODULE: &str = "; ModuleID = 'demo'
source_filename = \"demo\"

define i32 @add(i32 %a, i32 %b) unnamed_addr #0 {
start:
  %_0 = add i32 %b, %a
  ret i32 %_0
}

; Function Attrs: nounwind
define void @looping(i32 %n) unnamed_addr {
start:
  %x = alloca [4 x i8], align 4
  br label %bb1

bb1:                                              ; preds = %bb1, %start
  %i = phi i32 [ 0, %start ], [ %next, %bb1 ]
  %next = add i32 %i, 1
  call void @llvm.memcpy.p0.p0.i64(ptr %x, ptr %x, i64 4, i1 false)
  call void @helper(i32 %i)
  %c = icmp ult i32 %next, %n
  br i1 %c, label %bb1, label %bb2

bb2:
  tail call void @_ZN4core9panicking5panic17h1E(ptr @alloc)
  ret void
}

define { i32, i32 } @pair(i32 %a) {
  %r = insertvalue { i32, i32 } poison, i32 %a, 0
  ret { i32, i32 } %r
}

declare void @helper(i32)
";

fn names(v: &[ir_assert::FunctionIr]) -> Vec<String> {
    v.iter().map(|f| f.name.clone()).collect()
}

#[test]
fn parses_every_defined_function() {
    let fns = parse_ir_functions(MODULE);
    assert_eq!(names(&fns), vec!["add", "looping", "pair"]);
}

#[test]
fn single_block_function_counts() {
    let fns = parse_ir_functions(MODULE);
    let add = &fns[0];
    assert_eq!(add.blocks.len(), 1);
    assert_eq!(add.blocks[0].instructions, 2);
    assert!(add.blocks[0].calls.is_empty());
    assert_eq!(add.compute_property(Property::BasicBlocksLen), 1);
    assert_eq!(add.compute_property(Property::InstructionsLen), 2);
    assert_eq!(add.compute_property(Property::CallsLen), 0);
    assert!(add.raw.starts_with("define i32 @add("));
    assert!(add.raw.ends_with("}"));
}

#[test]
fn multi_block_function_counts() {
    let fns = parse_ir_functions(MODULE);
    let f = &fns[1];
    assert_eq!(f.blocks.len(), 3);
    let b0 = &f.blocks[0];
    assert_eq!((b0.instructions, b0.allocas, b0.branches, b0.phi_nodes), (2, 1, 1, 0));
    let b1 = &f.blocks[1];
    assert_eq!((b1.instructions, b1.allocas, b1.branches, b1.phi_nodes), (6, 0, 1, 1));
    // the llvm intrinsic is not a call; the plain call is
    assert_eq!(b1.calls, vec!["helper".to_string()]);
    let b2 = &f.blocks[2];
    assert_eq!(b2.calls, vec!["_ZN4core9panicking5panic17h1E".to_string()]);
    assert_eq!(f.compute_property(Property::InstructionsLen), 10);
    assert_eq!(f.compute_property(Property::CallsLen), 2);
    assert_eq!(f.compute_property(Property::BranchesLen), 2);
    assert_eq!(f.compute_property(Property::PhiNodesLen), 1);
    assert_eq!(f.compute_property(Property::AllocasLen), 1);
    assert_eq!(f.compute_block_property(1, Property::CallsLen), 1);
}

#[test]
fn struct_return_type_uses_last_brace() {
    let fns = parse_ir_functions(MODULE);
    let f = &fns[2];
    assert_eq!(f.name, "pair");
    assert_eq!(f.blocks.len(), 1);
    assert_eq!(f.blocks[0].instructions, 2);
}

#[test]
fn body_without_label_opens_a_block() {
    let f = parse_function_body("f", "\n  ret void\n", "raw");
    assert_eq!(f.name, "f");
    assert_eq!(f.raw, "raw");
    assert_eq!(f.blocks.len(), 1);
    assert_eq!(f.blocks[0].instructions, 1);
}

#[test]
fn empty_body_has_no_blocks() {
    let f = parse_function_body("g", "\n; only a comment\n\n", "");
    assert!(f.blocks.is_empty());
}

#[test]
fn labels_with_comments_and_quotes() {
    let body = "\nstart:\n  br label %\"a b\"\n\n\"a b\":   ; preds = %start\n  ret void\n";
    let f = parse_function_body("h", body, "");
    assert_eq!(f.blocks.len(), 2);
    assert_eq!(f.blocks[0].branches, 1);
    assert_eq!(f.blocks[1].instructions, 1);
}

#[test]
fn unindented_assignment_is_not_a_label() {
    // a line with '=' before the colon is no label and counts as nothing
    let f = parse_function_body("h", "\nx = y:\n  ret void\n", "");
    assert_eq!(f.blocks.len(), 1);
    assert_eq!(f.blocks[0].instructions, 1);
}

#[test]
fn crlf_line_endings() {
    let f = parse_function_body("h", "\r\nstart:\r\n  ret void\r\n", "");
    assert_eq!(f.blocks.len(), 1);
    assert_eq!(f.blocks[0].instructions, 1);
}

#[test]
fn switch_counts_as_branch() {
    let f = parse_function_body("s", "\nstart:\n  switch i32 %x, label %d [\n    i32 0, label %a\n  ]\n", "");
    assert_eq!(f.blocks[0].branches, 1);
    assert_eq!(f.blocks[0].instructions, 3);
}

fn target(line: &str) -> Option<String> {
    extract_call_target(&chars_of(line))
}

#[test]
fn call_targets() {
    assert_eq!(target("%r = call i32 @foo(i32 1)"), Some("foo".to_string()));
    assert_eq!(target("tail call void @bar(), !dbg !7"), Some("bar".to_string()));
    assert_eq!(target("call void @\"quoted name\"(i32 1)"), Some("quoted name".to_string()));
    assert_eq!(target("invoke void @may_unwind() to label %ok unwind label %bad"), Some("may_unwind".to_string()));
    assert_eq!(target("call void @llvm.assume(i1 true)"), None);
    assert_eq!(target("call void asm sideeffect \"nop\", \"\"()"), None);
    assert_eq!(target("call void %fnptr(i32 1)"), None);
    assert_eq!(target("%x = add i32 1, 2"), None);
    // no value directly followed by arguments: the first global after the keyword
    assert_eq!(target("call void @end"), Some("end".to_string()));
    assert_eq!(
        target("call void bitcast (ptr @f to ptr)(i32 1, ptr @g)"),
        Some("f".to_string())
    );
}

#[test]
fn indirect_calls_have_no_target() {
    assert_eq!(target("call void %fp(ptr @G)"), None);
    assert_eq!(target("%r = call i32 %\"fn ptr\"(ptr @G, i32 2)"), None);
    assert_eq!(target("invoke void %3(ptr @payload) to label %ok unwind label %bad"), None);
}

#[test]
fn callee_is_the_value_before_the_arguments() {
    assert_eq!(
        target("%r = call i32 (ptr, ...) @printf(ptr @fmt, i32 1)"),
        Some("printf".to_string())
    );
    assert_eq!(target("%s = call %T @make_t(ptr @seed)"), Some("make_t".to_string()));
    assert_eq!(target("call %\"struct.S\" @\"q f\"(ptr @g)"), Some("q f".to_string()));
    assert_eq!(target("call { i64, i64 } @pair(i64 %a)"), Some("pair".to_string()));
}

#[test]
fn call_keyword_needs_a_word_boundary() {
    assert_eq!(target("nocall void @foo()"), None);
    assert_eq!(target("nocall x, call void @foo()"), Some("foo".to_string()));
}

#[test]
fn referenced_functions_of_a_container() {
    let module = "define void @ir_assert_container_7() {
start:
  call void asm sideeffect \"/* ir_assert 7 $0 */\", \"r\"(i64 ptrtoint (ptr @target_one to i64))
  ; a comment @ignored
  call void asm sideeffect \"\", \"r\"(i64 ptrtoint (ptr @\"quoted target\" to i64)), !srcloc @llvm.x
  ret void
}
";
    let fns = parse_ir_functions(module);
    let refs = find_referenced_functions(&fns[0]);
    assert_eq!(refs, vec!["target_one".to_string(), "quoted target".to_string()]);
}

#[test]
fn target_dir_suffixes() {
    assert_eq!(env_target_suffix(&EnvSpec::default_env()), "");
    assert_eq!(env_target_suffix(&EnvSpec::opt_level("2")), "-opt2");
    assert_eq!(env_target_suffix(&EnvSpec::rustc("1.86")), "-rustc_1.86");
    assert_eq!(env_target_suffix(&EnvSpec::rustc("1.86").and(&EnvSpec::opt_level("2"))), "-rustc_1.86-opt2");
    assert_eq!(env_target_suffix(&EnvSpec::debug()), "-debug");
    assert_eq!(env_target_suffix(&EnvSpec::release()), "");
    assert_eq!(env_target_suffix(&EnvSpec::target("wasm32-unknown-unknown")), "");
}
