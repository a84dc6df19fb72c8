//! What the assertion macros decide from the compiler invocation they run
//! in: whether `debug_assertions` is on, which crate is compiled and whether
//! as a test, the container function's name, and whether the macro's
//! arguments are acceptable.
use vstd::prelude::*;

use crate::ir::strings_view;
use crate::res_view;
use crate::text::{
    chars_of, decimal, occurs_at, push_decimal_u64, starts_with, starts_with_str, str_eq, string_of,
    sub_chars,
};

verus! {

broadcast use vstd::string::group_string_axioms;

// ---------------------------------------------------------------------------
// Codegen flags (`-C key=value`)
// ---------------------------------------------------------------------------

/// The value of the first flag given as two arguments, `-C` then `<key><value>`,
/// looking at argument pairs from `i` on.
pub open spec fn split_flag_from(args: Seq<Seq<char>>, key: Seq<char>, i: int) -> Option<Seq<char>>
    decreases args.len() - i,
{
    if i < 0 || i + 1 >= args.len() {
        None
    } else if args[i] == "-C"@ && starts_with(args[i + 1], key) {
        Some(args[i + 1].skip(key.len() as int))
    } else {
        split_flag_from(args, key, i + 1)
    }
}

/// The value of the first flag given as one argument, `-C<key><value>`,
/// looking at arguments from `i` on.
pub open spec fn joined_flag_from(args: Seq<Seq<char>>, key: Seq<char>, i: int) -> Option<
    Seq<char>,
>
    decreases args.len() - i,
{
    if i < 0 || i >= args.len() {
        None
    } else if starts_with(args[i], "-C"@ + key) {
        Some(args[i].skip(("-C"@ + key).len() as int))
    } else {
        joined_flag_from(args, key, i + 1)
    }
}

/// The value of the codegen flag `key` on the command line: a flag written
/// as two arguments wins over one written as one.
pub open spec fn codegen_flag(args: Seq<Seq<char>>, key: Seq<char>) -> Option<Seq<char>> {
    match split_flag_from(args, key, 0) {
        Some(v) => Some(v),
        None => joined_flag_from(args, key, 0),
    }
}

/// `debug_assertions` is on: as `-C debug-assertions=` says when it is
/// given (`yes` or `1` turn it on), else exactly when the optimization level
/// is 0, which it is when none is given.
pub open spec fn debug_assertions_on(args: Seq<Seq<char>>) -> bool {
    match codegen_flag(args, "debug-assertions="@) {
        Some(v) => v == "yes"@ || v == "1"@,
        None => match codegen_flag(args, "opt-level="@) {
            None => true,
            Some(v) => v == "0"@,
        },
    }
}

fn codegen_flag_value(args: &Vec<String>, key: &str) -> (r: Option<String>)
    ensures
        r matches Some(v) ==> codegen_flag(strings_view(args@), key@) == Some(v@),
        r is None ==> codegen_flag(strings_view(args@), key@) is None,
{
    let ghost av = strings_view(args@);
    let kv = chars_of(key);
    let mut i: usize = 0;
    while args.len() > 0 && i < args.len() - 1
        invariant
            av == strings_view(args@),
            kv@ == key@,
            i <= args@.len(),
            split_flag_from(av, key@, 0) == split_flag_from(av, key@, i as int),
        decreases args@.len() - i,
    {
        if str_eq(args[i].as_str(), "-C") {
            let next = chars_of(args[i + 1].as_str());
            if starts_with_str(&next, key) {
                let v = sub_chars(&next, kv.len(), next.len());
                assert(v@ == next@.skip(key@.len() as int));
                return Some(string_of(&v));
            }
        }
        i += 1;
    }
    let mut joined = String::from_str("-C");
    joined.append(key);
    let jv = chars_of(joined.as_str());
    let mut j: usize = 0;
    while j < args.len()
        invariant
            av == strings_view(args@),
            jv@ == "-C"@ + key@,
            joined@ == jv@,
            split_flag_from(av, key@, 0) is None,
            j <= args@.len(),
            joined_flag_from(av, key@, 0) == joined_flag_from(av, key@, j as int),
        decreases args@.len() - j,
    {
        let a = chars_of(args[j].as_str());
        assert(av[j as int] == a@);
        assert(joined@ == jv@);
        if starts_with_str(&a, joined.as_str()) {
            assert(occurs_at(a@, jv@, 0));
            let v = sub_chars(&a, jv.len(), a.len());
            assert(v@ == a@.skip(jv@.len() as int));
            return Some(string_of(&v));
        }
        j += 1;
    }
    None
}

/// Whether `debug_assertions` is on for the compilation whose command line
/// is `args`.
pub fn debug_assertions_active(args: &Vec<String>) -> (b: bool)
    ensures
        b == debug_assertions_on(strings_view(args@)),
{
    match codegen_flag_value(args, "debug-assertions=") {
        Some(v) => str_eq(v.as_str(), "yes") || str_eq(v.as_str(), "1"),
        None => match codegen_flag_value(args, "opt-level=") {
            None => true,
            Some(v) => str_eq(v.as_str(), "0"),
        },
    }
}

// ---------------------------------------------------------------------------
// The compiled crate
// ---------------------------------------------------------------------------

/// The crate is compiled as a test harness: `--test` is one of the arguments.
pub open spec fn test_build(args: Seq<Seq<char>>) -> bool {
    exists|i: int| 0 <= i < args.len() && args[i] == "--test"@
}

/// Index of the first argument equal to `x`, at or after `i`.
pub open spec fn position_from(args: Seq<Seq<char>>, x: Seq<char>, i: int) -> Option<int>
    decreases args.len() - i,
{
    if i < 0 || i >= args.len() {
        None
    } else if args[i] == x {
        Some(i)
    } else {
        position_from(args, x, i + 1)
    }
}

/// The argument after the first `--crate-name`, or `unknown` when there is none.
pub open spec fn crate_name(args: Seq<Seq<char>>) -> Seq<char> {
    match position_from(args, "--crate-name"@, 0) {
        Some(i) => if i + 1 < args.len() {
            args[i + 1]
        } else {
            "unknown"@
        },
        None => "unknown"@,
    }
}

/// Whether the command line `args` compiles a test harness.
pub fn is_test_build(args: &Vec<String>) -> (b: bool)
    ensures
        b == test_build(strings_view(args@)),
{
    let ghost av = strings_view(args@);
    let mut i: usize = 0;
    while i < args.len()
        invariant
            av == strings_view(args@),
            i <= args@.len(),
            forall|k: int| 0 <= k < i ==> av[k] != "--test"@,
        decreases args@.len() - i,
    {
        if str_eq(args[i].as_str(), "--test") {
            assert(av[i as int] == "--test"@);
            return true;
        }
        i += 1;
    }
    false
}

/// The name of the crate that the command line `args` compiles.
pub fn crate_name_of(args: &Vec<String>) -> (s: String)
    ensures
        s@ == crate_name(strings_view(args@)),
{
    let ghost av = strings_view(args@);
    let mut i: usize = 0;
    while i < args.len()
        invariant
            av == strings_view(args@),
            i <= args@.len(),
            position_from(av, "--crate-name"@, 0) == position_from(av, "--crate-name"@, i as int),
        decreases args@.len() - i,
    {
        if str_eq(args[i].as_str(), "--crate-name") {
            if i + 1 < args.len() {
                return args[i + 1].clone();
            }
            return String::from_str("unknown");
        }
        i += 1;
    }
    String::from_str("unknown")
}

// ---------------------------------------------------------------------------
// Names in the generated code
// ---------------------------------------------------------------------------

/// The name of the container function of the invocation whose hash is `hash`.
pub open spec fn container_symbol(hash: u64) -> Seq<char> {
    "ir_assert_container_"@ + decimal(hash as nat)
}

/// The template of the inline assembly that pins a target in the container.
pub open spec fn pin_template(hash: u64) -> Seq<char> {
    "/* ir_assert "@ + decimal(hash as nat) + " {0} */"@
}

pub fn container_name(hash: u64) -> (s: String)
    ensures
        s@ == container_symbol(hash),
{
    let mut s = String::from_str("ir_assert_container_");
    push_decimal_u64(&mut s, hash);
    s
}

pub fn asm_tag(hash: u64) -> (s: String)
    ensures
        s@ == pin_template(hash),
{
    let mut s = String::from_str("/* ir_assert ");
    push_decimal_u64(&mut s, hash);
    s.append(" {0} */");
    s
}

// ---------------------------------------------------------------------------
// The macro's arguments
// ---------------------------------------------------------------------------

/// What the macros answer to `n_exprs` comma-separated arguments (the crate
/// path, the predicate, then the targets), for `debug_assert_ir!` when
/// `debug_only`: `Ok` to expand, or the compile error.
pub open spec fn invocation_verdict(
    n_exprs: nat,
    debug_only: bool,
    debug_active: bool,
    ir_generation: bool,
) -> Result<(), Seq<char>> {
    if n_exprs == 0 {
        Err("ir-assert: expected crate path"@)
    } else if n_exprs == 1 {
        Err("ir-assert: expected predicate expression"@)
    } else if n_exprs == 2 {
        Err("ir-assert: expected at least one target function/closure after the predicate"@)
    } else if debug_only && n_exprs > 3 && !debug_active && !ir_generation {
        Err("debug_assert_ir! does not support multiple targets when debug_assertions is disabled"@)
    } else {
        Ok(())
    }
}

/// Whether the macros expand an invocation with `n_exprs` arguments; for
/// `debug_assert_ir!` (`debug_only`) with several targets, only while
/// `debug_assertions` is on or while the IR itself is being generated.
pub fn check_invocation(
    n_exprs: usize,
    debug_only: bool,
    debug_active: bool,
    ir_generation: bool,
) -> (r: Result<(), String>)
    ensures
        res_view(r) == invocation_verdict(n_exprs as nat, debug_only, debug_active, ir_generation),
{
    if n_exprs == 0 {
        Err(String::from_str("ir-assert: expected crate path"))
    } else if n_exprs == 1 {
        Err(String::from_str("ir-assert: expected predicate expression"))
    } else if n_exprs == 2 {
        Err(
            String::from_str(
                "ir-assert: expected at least one target function/closure after the predicate",
            ),
        )
    } else if debug_only && n_exprs > 3 && !debug_active && !ir_generation {
        Err(
            String::from_str(
                "debug_assert_ir! does not support multiple targets when debug_assertions is disabled",
            ),
        )
    } else {
        Ok(())
    }
}

} // verus!
