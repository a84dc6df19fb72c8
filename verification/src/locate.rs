//! Finding things in builds: the functions that an assertion's container
//! function refers to, the per-environment build directories, and the IR
//! file among a build's outputs.
use vstd::prelude::*;

use crate::env::{EnvSpec, EnvView, OptLevel, OptView};
use crate::ir::FunctionIr;
use crate::text::{
    chars_of, find_char, lemma_rfind_below, rfind, rfind_char, find_from, lemma_find_from, lines, lines_of, push_chars, starts_with,
    starts_with_str, string_of, sub_chars, trim, trim_chars,
};

verus! {

broadcast use vstd::string::group_string_axioms;

/// A character that ends an unquoted symbol reference.
pub open spec fn is_ref_end(c: char) -> bool {
    c == '(' || c == ' ' || c == ',' || c == ')' || c == '\n'
}

/// First index at or after `i` holding a reference-ending character.
pub open spec fn ref_end_from(s: Seq<char>, i: int) -> Option<int>
    decreases s.len() - i,
{
    if i < 0 || i >= s.len() {
        None
    } else if is_ref_end(s[i]) {
        Some(i)
    } else {
        ref_end_from(s, i + 1)
    }
}

/// The symbol named right after the `@` at index `j` of `t`: up to the next
/// `"` when quoted (none when unterminated), else up to the first of
/// `( ,)` or a newline.
pub open spec fn symbol_at(t: Seq<char>, j: int) -> Option<Seq<char>> {
    let after = t.subrange(j + 1, t.len() as int);
    if after.len() > 0 && after[0] == '"' {
        let st = after.subrange(1, after.len() as int);
        match find_from(st, '"', 0) {
            Some(e) => Some(st.take(e)),
            None => None,
        }
    } else {
        let e = match ref_end_from(after, 0) {
            Some(e) => e,
            None => after.len() as int,
        };
        Some(after.take(e))
    }
}

/// A symbol that counts as a referenced target: not empty, not an LLVM
/// intrinsic, not a container itself.
pub open spec fn is_target_ref(name: Seq<char>) -> bool {
    name.len() > 0 && !starts_with(name, "llvm."@) && !starts_with(name, "ir_assert_container_"@)
}

/// The target symbols referenced in `t` at or after index `j`.
pub open spec fn refs_from(t: Seq<char>, j: int) -> Seq<Seq<char>>
    decreases t.len() - j,
{
    if j < 0 || j >= t.len() {
        seq![]
    } else if t[j] != '@' {
        refs_from(t, j + 1)
    } else {
        match symbol_at(t, j) {
            Some(name) => if is_target_ref(name) {
                seq![name] + refs_from(t, j + 1)
            } else {
                refs_from(t, j + 1)
            },
            None => refs_from(t, j + 1),
        }
    }
}

/// The target symbols referenced in one line of the container's body.
pub open spec fn line_refs(line: Seq<char>) -> Seq<Seq<char>> {
    let t = trim(line);
    if t.len() == 0 || t[0] == ';' || t == seq!['}'] {
        seq![]
    } else {
        refs_from(t, 0)
    }
}

pub open spec fn lines_refs(ls: Seq<Seq<char>>) -> Seq<Seq<char>>
    decreases ls.len(),
{
    if ls.len() == 0 {
        seq![]
    } else {
        lines_refs(ls.drop_last()) + line_refs(ls.last())
    }
}

/// The functions that a container function refers to, in order: every
/// `@symbol` of its body after the `define` line.
pub open spec fn referenced(raw: Seq<char>) -> Seq<Seq<char>> {
    let ls = lines(raw);
    if ls.len() == 0 {
        seq![]
    } else {
        lines_refs(ls.subrange(1, ls.len() as int))
    }
}

fn ref_end(s: &Vec<char>) -> (r: Option<usize>)
    ensures
        r matches Some(k) ==> ref_end_from(s@, 0) == Some(k as int),
        r is None ==> ref_end_from(s@, 0) is None,
{
    let mut i: usize = 0;
    while i < s.len()
        invariant
            ref_end_from(s@, 0) == ref_end_from(s@, i as int),
        decreases s@.len() - i,
    {
        let c = s[i];
        if c == '(' || c == ' ' || c == ',' || c == ')' || c == '\n' {
            return Some(i);
        }
        i += 1;
    }
    None
}

pub proof fn lemma_ref_end(s: Seq<char>, i: int)
    requires
        0 <= i,
    ensures
        ref_end_from(s, i) matches Some(k) ==> i <= k < s.len(),
    decreases s.len() - i,
{
    if i < s.len() && !is_ref_end(s[i]) {
        lemma_ref_end(s, i + 1);
    }
}

fn symbol_at_exec(t: &Vec<char>, j: usize) -> (r: Option<Vec<char>>)
    requires
        j < t@.len(),
    ensures
        r matches Some(n) ==> symbol_at(t@, j as int) == Some(n@),
        r is None ==> symbol_at(t@, j as int) is None,
{
    let tlen = t.len();
    let after = sub_chars(t, j + 1, tlen);
    if after.len() > 0 && after[0] == '"' {
        let st = sub_chars(&after, 1, after.len());
        match find_char(&st, '"', 0) {
            Some(e) => {
                proof {
                    lemma_find_from(st@, '"', 0);
                }
                Some(sub_chars(&st, 0, e))
            },
            None => None,
        }
    } else {
        let e = match ref_end(&after) {
            Some(e) => {
                proof {
                    lemma_ref_end(after@, 0);
                }
                e
            },
            None => after.len(),
        };
        Some(sub_chars(&after, 0, e))
    }
}

fn push_line_refs(t: &Vec<char>, refs: &mut Vec<String>)
    ensures
        crate::ir::strings_view(final(refs)@) == crate::ir::strings_view(old(refs)@) + refs_from(
            t@,
            0,
        ),
{
    let ghost start = crate::ir::strings_view(refs@);
    let ghost acc: Seq<Seq<char>> = seq![];
    let mut j: usize = 0;
    assert(start + acc =~= start);
    while j < t.len()
        invariant
            j <= t@.len(),
            crate::ir::strings_view(refs@) == start + acc,
            refs_from(t@, 0) == acc + refs_from(t@, j as int),
        decreases t@.len() - j,
    {
        if t[j] == '@' {
            match symbol_at_exec(t, j) {
                Some(name) => {
                    let keep = name.len() > 0 && !starts_with_str(&name, "llvm.")
                        && !starts_with_str(&name, "ir_assert_container_");
                    if keep {
                        let s = string_of(&name);
                        let ghost prev = crate::ir::strings_view(refs@);
                        refs.push(s);
                        proof {
                            assert(crate::ir::strings_view(refs@) =~= prev.push(name@));
                            assert(acc + refs_from(t@, j as int) =~= acc.push(name@) + refs_from(
                                t@,
                                j + 1,
                            ));
                            acc = acc.push(name@);
                        }
                    }
                },
                None => {},
            }
        }
        j += 1;
    }
    assert(refs_from(t@, j as int) =~= Seq::<Seq<char>>::empty());
    assert(acc + Seq::<Seq<char>>::empty() =~= acc);
}

/// Find function references within a container function's IR.
/// The container uses inline asm with `ptrtoint (ptr @symbol to i64)` patterns
/// to reference the target functions; every `@symbol` of its body after the
/// `define` line counts, but LLVM intrinsics and containers.
pub fn find_referenced_functions(container: &FunctionIr) -> (refs: Vec<String>)
    ensures
        crate::ir::strings_view(refs@) == referenced(container.raw@),
{
    let raw = chars_of(container.raw.as_str());
    let ls = lines_of(&raw);
    let ghost lv = lines(raw@);
    let mut refs: Vec<String> = Vec::new();
    if ls.len() == 0 {
        assert(crate::ir::strings_view(refs@) =~= Seq::<Seq<char>>::empty());
        return refs;
    }
    let mut k: usize = 1;
    assert(lv.subrange(1, 1) =~= Seq::<Seq<char>>::empty());
    assert(crate::ir::strings_view(refs@) =~= Seq::<Seq<char>>::empty());
    while k < ls.len()
        invariant
            1 <= k <= ls@.len(),
            ls@.len() == lv.len(),
            lv == lines(raw@),
            raw@ == container.raw@,
            forall|i: int| 0 <= i < ls@.len() ==> #[trigger] ls@[i]@ == lv[i],
            crate::ir::strings_view(refs@) == lines_refs(lv.subrange(1, k as int)),
        decreases ls@.len() - k,
    {
        let trimmed = trim_chars(&ls[k]);
        assert(lv.subrange(1, k + 1).drop_last() =~= lv.subrange(1, k as int));
        if trimmed.len() == 0 || trimmed[0] == ';' || (trimmed.len() == 1 && trimmed[0] == '}') {
            proof {
                if trimmed@.len() == 1 && trimmed@[0] == '}' {
                    assert(trimmed@ =~= seq!['}']);
                }
            }
        } else {
            proof {
                if trimmed@ == seq!['}'] {
                    assert(trimmed@.len() == 1);
                }
            }
            push_line_refs(&trimmed, &mut refs);
        }
        k += 1;
    }
    refs
}

/// The directory suffix that keeps builds for different toolchains and
/// optimization levels apart (targets are kept apart by cargo itself).
pub open spec fn target_dir_suffix(e: EnvView) -> Seq<char> {
    let r = match e.rustc {
        Some(v) => "-rustc_"@ + v,
        None => seq![],
    };
    r + match e.opt {
        OptView::Any => seq![],
        OptView::Release => seq![],
        OptView::Debug => "-debug"@,
        OptView::Level(l) => "-opt"@ + l,
    }
}

/// The suffix appended to the base target directory for `env`.
pub fn env_target_suffix(env: &EnvSpec) -> (s: String)
    ensures
        s@ == target_dir_suffix(env@),
{
    let mut s = String::new();
    if let Some(version) = env.rustc {
        s.append("-rustc_");
        s.append(version);
    }
    match env.opt_level {
        OptLevel::Any => {},
        OptLevel::Release => {},
        OptLevel::Debug => {
            s.append("-debug");
        },
        OptLevel::OptLevel(level) => {
            s.append("-opt");
            s.append(level);
        },
    }
    assert(s@ =~= target_dir_suffix(env@));
    s
}

// ---------------------------------------------------------------------------
// The IR file among the build outputs
// ---------------------------------------------------------------------------

/// The file name's extension is `ll`: it has a `.` after its first character,
/// and the last one is followed by `ll` (`Path::extension`).
pub open spec fn ll_file(name: Seq<char>) -> bool {
    match rfind(name, '.') {
        Some(k) => k > 0 && name.skip(k + 1) == seq!['l', 'l'],
        None => false,
    }
}

/// The prefix of the IR file of the crate `crate_name`: its name with `_` for
/// every `-`, then `-`.
pub open spec fn ll_prefix(crate_name: Seq<char>) -> Seq<char> {
    crate_name.map_values(|c: char| if c == '-' { '_' } else { c }).push('-')
}

/// File `i` is an IR file, and starts with `prefix` when `need_prefix`.
pub open spec fn ll_candidate(names: Seq<Seq<char>>, prefix: Seq<char>, need_prefix: bool, i: int) -> bool {
    ll_file(names[i]) && (need_prefix ==> starts_with(names[i], prefix))
}

/// Among the first `n` files, `i` is the first candidate of the latest
/// modification time.
pub open spec fn first_newest(
    names: Seq<Seq<char>>,
    mtimes: Seq<u64>,
    prefix: Seq<char>,
    need_prefix: bool,
    i: int,
    n: int,
) -> bool {
    &&& 0 <= i < n
    &&& ll_candidate(names, prefix, need_prefix, i)
    &&& forall|j: int|
        0 <= j < n && ll_candidate(names, prefix, need_prefix, j) ==> mtimes[j] <= mtimes[i]
    &&& forall|j: int| 0 <= j < i && ll_candidate(names, prefix, need_prefix, j) ==> mtimes[j] < mtimes[i]
}

/// Some file among the first `n` is a candidate.
pub open spec fn some_candidate(names: Seq<Seq<char>>, prefix: Seq<char>, need_prefix: bool, n: int) -> bool {
    exists|j: int| 0 <= j < n && ll_candidate(names, prefix, need_prefix, j)
}

/// Whether the file name `name` has the extension `ll`.
pub fn is_ll_file(name: &str) -> (b: bool)
    ensures
        b == ll_file(name@),
{
    let cs = chars_of(name);
    match rfind_char(&cs, '.') {
        Some(k) => {
            proof {
                lemma_rfind_below(cs@, '.', cs@.len() as int);
            }
            let b = k > 0 && cs.len() - k == 3 && cs[k + 1] == 'l' && cs[k + 2] == 'l';
            proof {
                if b {
                    assert(cs@.skip(k + 1) =~= seq!['l', 'l']);
                } else if k > 0 && cs@.skip(k + 1) == seq!['l', 'l'] {
                    assert(cs@.skip(k + 1).len() == 2);
                    assert(cs@.skip(k + 1)[0] == cs@[k + 1]);
                    assert(cs@.skip(k + 1)[1] == cs@[k + 2]);
                }
            }
            b
        },
        None => false,
    }
}

/// The prefix of the IR file's name for the crate `crate_name`.
pub fn ll_file_prefix(crate_name: &str) -> (s: String)
    ensures
        s@ == ll_prefix(crate_name@),
{
    let cs = chars_of(crate_name);
    let mut s = String::new();
    let mut i: usize = 0;
    while i < cs.len()
        invariant
            cs@ == crate_name@,
            i <= cs@.len(),
            s@ == cs@.take(i as int).map_values(|c: char| if c == '-' { '_' } else { c }),
        decreases cs@.len() - i,
    {
        if cs[i] == '-' {
            s.push('_');
        } else {
            s.push(cs[i]);
        }
        i += 1;
        assert(cs@.take(i as int).map_values(|c: char| if c == '-' { '_' } else { c })
            =~= cs@.take(i - 1).map_values(|c: char| if c == '-' { '_' } else { c }).push(
            if cs@[i - 1] == '-' { '_' } else { cs@[i - 1] },
        ));
    }
    assert(cs@.take(cs@.len() as int) =~= cs@);
    s.push('-');
    s
}

/// Which of the files `names` (modified at `mtimes`) holds the crate's IR:
/// the newest IR file whose name starts with `prefix`, else the newest IR
/// file; of equally new ones the first. `None` when there is no IR file.
pub fn pick_ll_file(names: &Vec<String>, mtimes: &Vec<u64>, prefix: &str) -> (r: Option<usize>)
    requires
        names@.len() == mtimes@.len(),
    ensures
        ({
            let nv = crate::ir::strings_view(names@);
            let n = names@.len() as int;
            &&& r is None <==> !some_candidate(nv, prefix@, false, n)
            &&& r matches Some(i) ==> if some_candidate(nv, prefix@, true, n) {
                first_newest(nv, mtimes@, prefix@, true, i as int, n)
            } else {
                first_newest(nv, mtimes@, prefix@, false, i as int, n)
            }
        }),
{
    let ghost nv = crate::ir::strings_view(names@);
    let mut best_prefixed: Option<usize> = None;
    let mut best_any: Option<usize> = None;
    let mut i: usize = 0;
    while i < names.len()
        invariant
            nv == crate::ir::strings_view(names@),
            names@.len() == mtimes@.len(),
            i <= names@.len(),
            best_prefixed is None <==> !some_candidate(nv, prefix@, true, i as int),
            best_prefixed matches Some(k) ==> first_newest(nv, mtimes@, prefix@, true, k as int, i as int),
            best_any is None <==> !some_candidate(nv, prefix@, false, i as int),
            best_any matches Some(k) ==> first_newest(nv, mtimes@, prefix@, false, k as int, i as int),
        decreases names@.len() - i,
    {
        let name = names[i].as_str();
        assert(nv[i as int] == name@);
        if is_ll_file(name) {
            let t = mtimes[i];
            let newer_any = match best_any {
                Some(k) => t > mtimes[k],
                None => true,
            };
            if newer_any {
                best_any = Some(i);
            }
            let cs = chars_of(name);
            if starts_with_str(&cs, prefix) {
                let newer = match best_prefixed {
                    Some(k) => t > mtimes[k],
                    None => true,
                };
                if newer {
                    best_prefixed = Some(i);
                }
            }
        }
        proof {
            let m = i + 1;
            assert(some_candidate(nv, prefix@, true, m as int) == (some_candidate(nv, prefix@, true, i as int) || ll_candidate(nv, prefix@, true, i as int)));
            assert(some_candidate(nv, prefix@, false, m as int) == (some_candidate(nv, prefix@, false, i as int) || ll_candidate(nv, prefix@, false, i as int)));
        }
        i += 1;
    }
    proof {
        let n = names@.len() as int;
        if some_candidate(nv, prefix@, true, n) {
            let j = choose|j: int| 0 <= j < n && ll_candidate(nv, prefix@, true, j);
            assert(ll_candidate(nv, prefix@, false, j));
        }
    }
    if best_prefixed.is_some() {
        best_prefixed
    } else {
        best_any
    }
}

/// The path, below the build's target directory, of the directory that
/// receives the IR: `[<triple>/]<debug|release>/deps`.
pub open spec fn deps_dir(e: EnvView) -> Seq<Seq<char>> {
    (match e.target {
        Some(t) => seq![t],
        None => seq![],
    }) + seq![if e.opt is Debug { "debug"@ } else { "release"@ }, "deps"@]
}

/// The components of the directory that receives the IR of `env`'s build.
pub fn deps_dir_parts(env: &EnvSpec) -> (v: Vec<String>)
    ensures
        crate::ir::strings_view(v@) == deps_dir(env@),
{
    let mut v: Vec<String> = Vec::new();
    if let Some(t) = env.target {
        v.push(String::from_str(t));
    }
    match env.opt_level {
        OptLevel::Debug => v.push(String::from_str("debug")),
        _ => v.push(String::from_str("release")),
    }
    v.push(String::from_str("deps"));
    assert(crate::ir::strings_view(v@) =~= deps_dir(env@));
    v
}

} // verus!
