//! Character-level text primitives over `Seq<char>`: searching, trimming,
//! splitting into lines, decimal rendering and string building.
use vstd::prelude::*;

verus! {

broadcast use vstd::string::group_string_axioms;

/// `String::push` appends one character to the end of the string.
pub assume_specification[ String::push ](s: &mut String, ch: char)
    ensures
        final(s)@ == old(s)@.push(ch),
;

/// Whether the two strings hold the same characters.
pub fn str_eq(a: &str, b: &str) -> (r: bool)
    ensures
        r == (a@ == b@),
{
    let x = chars_of(a);
    let y = chars_of(b);
    if x.len() != y.len() {
        return false;
    }
    let mut i: usize = 0;
    while i < x.len()
        invariant
            x@ == a@,
            y@ == b@,
            x@.len() == y@.len(),
            i <= x@.len(),
            forall|k: int| 0 <= k < i ==> x@[k] == y@[k],
        decreases x@.len() - i,
    {
        if x[i] != y[i] {
            return false;
        }
        i += 1;
    }
    assert(x@ =~= y@);
    true
}

// ---------------------------------------------------------------------------
// Conversions
// ---------------------------------------------------------------------------

/// The characters of `s`, in order.
pub fn chars_of(s: &str) -> (v: Vec<char>)
    ensures
        v@ == s@,
{
    let mut v: Vec<char> = Vec::new();
    for c in it: s.chars()
        invariant
            v@ == it.seq().take(it.index() as int),
    {
        v.push(c);
    }
    v
}

/// Appends the characters of `v` to `s`.
pub fn push_chars(s: &mut String, v: &Vec<char>)
    ensures
        final(s)@ == old(s)@ + v@,
{
    let mut i: usize = 0;
    while i < v.len()
        invariant
            i <= v@.len(),
            s@ == old(s)@ + v@.take(i as int),
        decreases v@.len() - i,
    {
        s.push(v[i]);
        i += 1;
        assert(v@.take(i as int) == v@.take(i - 1).push(v@[i - 1]));
    }
    assert(v@.take(v@.len() as int) == v@);
}

/// The string made of the characters of `v`.
pub fn string_of(v: &Vec<char>) -> (s: String)
    ensures
        s@ == v@,
{
    let mut s = String::new();
    push_chars(&mut s, v);
    s
}

/// The characters `s[from..to]`.
pub fn sub_chars(s: &Vec<char>, from: usize, to: usize) -> (r: Vec<char>)
    requires
        from <= to <= s@.len(),
    ensures
        r@ == s@.subrange(from as int, to as int),
{
    let mut r: Vec<char> = Vec::new();
    let mut i = from;
    while i < to
        invariant
            from <= i <= to <= s@.len(),
            r@ == s@.subrange(from as int, i as int),
        decreases to - i,
    {
        r.push(s[i]);
        i += 1;
        assert(s@.subrange(from as int, i as int) == s@.subrange(from as int, i - 1).push(
            s@[i - 1],
        ));
    }
    r
}

// ---------------------------------------------------------------------------
// Whitespace
// ---------------------------------------------------------------------------

/// Unicode `White_Space`, the set that `char::is_whitespace` tests.
pub open spec fn is_ws(c: char) -> bool {
    let n = c as u32;
    ||| 0x09 <= n <= 0x0d
    ||| n == 0x20
    ||| n == 0x85
    ||| n == 0xa0
    ||| n == 0x1680
    ||| 0x2000 <= n <= 0x200a
    ||| n == 0x2028
    ||| n == 0x2029
    ||| n == 0x202f
    ||| n == 0x205f
    ||| n == 0x3000
}

pub fn is_whitespace(c: char) -> (b: bool)
    ensures
        b == is_ws(c),
{
    let n = c as u32;
    (0x09 <= n && n <= 0x0d) || n == 0x20 || n == 0x85 || n == 0xa0 || n == 0x1680 || (0x2000
        <= n && n <= 0x200a) || n == 0x2028 || n == 0x2029 || n == 0x202f || n == 0x205f || n
        == 0x3000
}

/// Index of the first non-whitespace character at or after `i`.
pub open spec fn lead(s: Seq<char>, i: int) -> int
    decreases s.len() - i,
{
    if 0 <= i < s.len() && is_ws(s[i]) {
        lead(s, i + 1)
    } else {
        i
    }
}

/// End of `s[lo..j]` once trailing whitespace is removed.
pub open spec fn trail(s: Seq<char>, lo: int, j: int) -> int
    decreases j - lo,
{
    if lo < j && j <= s.len() && is_ws(s[j - 1]) {
        trail(s, lo, j - 1)
    } else {
        j
    }
}

/// `s` without leading and trailing whitespace (`str::trim`).
pub open spec fn trim(s: Seq<char>) -> Seq<char> {
    s.subrange(lead(s, 0), trail(s, lead(s, 0), s.len() as int))
}

pub proof fn lemma_lead_bounds(s: Seq<char>, i: int)
    requires
        0 <= i <= s.len(),
    ensures
        i <= lead(s, i) <= s.len(),
    decreases s.len() - i,
{
    if 0 <= i < s.len() && is_ws(s[i]) {
        lemma_lead_bounds(s, i + 1);
    }
}

pub proof fn lemma_trail_bounds(s: Seq<char>, lo: int, j: int)
    requires
        0 <= lo <= j <= s.len(),
    ensures
        lo <= trail(s, lo, j) <= j,
    decreases j - lo,
{
    if lo < j && is_ws(s[j - 1]) {
        lemma_trail_bounds(s, lo, j - 1);
    }
}

pub fn trim_chars(s: &Vec<char>) -> (r: Vec<char>)
    ensures
        r@ == trim(s@),
{
    let mut i: usize = 0;
    while i < s.len() && is_whitespace(s[i])
        invariant
            0 <= i <= s@.len(),
            lead(s@, 0) == lead(s@, i as int),
        decreases s@.len() - i,
    {
        i += 1;
    }
    let mut j: usize = s.len();
    while j > i && is_whitespace(s[j - 1])
        invariant
            i <= j <= s@.len(),
            lead(s@, 0) == i,
            trail(s@, i as int, s@.len() as int) == trail(s@, i as int, j as int),
        decreases j - i,
    {
        j -= 1;
    }
    sub_chars(s, i, j)
}

// ---------------------------------------------------------------------------
// Searching
// ---------------------------------------------------------------------------

/// First index at or after `i` holding `c`.
pub open spec fn find_from(s: Seq<char>, c: char, i: int) -> Option<int>
    decreases s.len() - i,
{
    if i < 0 || i >= s.len() {
        None
    } else if s[i] == c {
        Some(i)
    } else {
        find_from(s, c, i + 1)
    }
}

pub proof fn lemma_find_from(s: Seq<char>, c: char, i: int)
    requires
        0 <= i,
    ensures
        find_from(s, c, i) matches Some(k) ==> i <= k < s.len() && s[k] == c && forall|m: int|
            i <= m < k ==> s[m] != c,
        find_from(s, c, i) is None ==> forall|m: int| i <= m < s.len() ==> s[m] != c,
    decreases s.len() - i,
{
    if i < s.len() && s[i] != c {
        lemma_find_from(s, c, i + 1);
    }
}

pub fn find_char(s: &Vec<char>, c: char, from: usize) -> (r: Option<usize>)
    ensures
        r matches Some(k) ==> find_from(s@, c, from as int) == Some(k as int),
        r is None ==> find_from(s@, c, from as int) is None,
{
    let mut i = from;
    while i < s.len()
        invariant
            from <= i,
            find_from(s@, c, from as int) == find_from(s@, c, i as int),
        decreases s@.len() - i,
    {
        if s[i] == c {
            return Some(i);
        }
        i += 1;
    }
    None
}

/// Last index below `j` holding `c`.
pub open spec fn rfind_below(s: Seq<char>, c: char, j: int) -> Option<int>
    decreases j,
{
    if j <= 0 || j > s.len() {
        None
    } else if s[j - 1] == c {
        Some(j - 1)
    } else {
        rfind_below(s, c, j - 1)
    }
}

/// Last index of `c` in `s` (`str::rfind`).
pub open spec fn rfind(s: Seq<char>, c: char) -> Option<int> {
    rfind_below(s, c, s.len() as int)
}

pub proof fn lemma_rfind_below(s: Seq<char>, c: char, j: int)
    requires
        j <= s.len(),
    ensures
        rfind_below(s, c, j) matches Some(k) ==> 0 <= k < j && s[k] == c,
    decreases j,
{
    if 0 < j && s[j - 1] != c {
        lemma_rfind_below(s, c, j - 1);
    }
}

pub fn rfind_char(s: &Vec<char>, c: char) -> (r: Option<usize>)
    ensures
        r matches Some(k) ==> rfind(s@, c) == Some(k as int),
        r is None ==> rfind(s@, c) is None,
{
    let mut j = s.len();
    while j > 0
        invariant
            j <= s@.len(),
            rfind(s@, c) == rfind_below(s@, c, j as int),
        decreases j,
    {
        if s[j - 1] == c {
            return Some(j - 1);
        }
        j -= 1;
    }
    None
}

/// `p` occurs in `s` starting at index `i`.
pub open spec fn occurs_at(s: Seq<char>, p: Seq<char>, i: int) -> bool {
    0 <= i && i + p.len() <= s.len() && s.subrange(i, i + p.len()) == p
}

pub fn occurs_at_exec(s: &Vec<char>, p: &Vec<char>, i: usize) -> (b: bool)
    ensures
        b == occurs_at(s@, p@, i as int),
{
    if p.len() > s.len() || i > s.len() - p.len() {
        return false;
    }
    let slen = s.len();
    let mut k: usize = 0;
    while k < p.len()
        invariant
            slen == s@.len(),
            k <= p@.len(),
            i + p@.len() <= s@.len(),
            forall|m: int| 0 <= m < k ==> s@[i + m] == p@[m],
        decreases p@.len() - k,
    {
        assert(i + k < s@.len());
        if s[i + k] != p[k] {
            assert(s@.subrange(i as int, i + p@.len())[k as int] != p@[k as int]);
            return false;
        }
        k += 1;
    }
    assert(s@.subrange(i as int, i + p@.len()) =~= p@);
    true
}

/// First index at or after `i` where `p` occurs.
pub open spec fn find_pat_from(s: Seq<char>, p: Seq<char>, i: int) -> Option<int>
    decreases s.len() + 1 - i,
{
    if i < 0 || i + p.len() > s.len() {
        None
    } else if occurs_at(s, p, i) {
        Some(i)
    } else {
        find_pat_from(s, p, i + 1)
    }
}

/// `p` occurs somewhere in `s` (`str::contains`).
pub open spec fn contains(s: Seq<char>, p: Seq<char>) -> bool {
    find_pat_from(s, p, 0) is Some
}

pub proof fn lemma_find_pat_from(s: Seq<char>, p: Seq<char>, i: int)
    requires
        0 <= i,
    ensures
        find_pat_from(s, p, i) matches Some(k) ==> i <= k && occurs_at(s, p, k) && forall|m: int|
            i <= m < k ==> !occurs_at(s, p, m),
        find_pat_from(s, p, i) is None ==> forall|m: int| i <= m ==> !occurs_at(s, p, m),
    decreases s.len() + 1 - i,
{
    if i + p.len() <= s.len() && !occurs_at(s, p, i) {
        lemma_find_pat_from(s, p, i + 1);
    }
}

pub fn find_pat(s: &Vec<char>, p: &Vec<char>, from: usize) -> (r: Option<usize>)
    ensures
        r matches Some(k) ==> find_pat_from(s@, p@, from as int) == Some(k as int),
        r is None ==> find_pat_from(s@, p@, from as int) is None,
{
    if p.len() > s.len() {
        return None;
    }
    let last = s.len() - p.len();
    let mut i = from;
    while i <= last
        invariant
            from <= i,
            last + p@.len() == s@.len(),
            find_pat_from(s@, p@, from as int) == find_pat_from(s@, p@, i as int),
        decreases last + 1 - i,
    {
        if occurs_at_exec(s, p, i) {
            return Some(i);
        }
        if i == last {
            assert(find_pat_from(s@, p@, i + 1) is None);
            return None;
        }
        i += 1;
    }
    None
}

pub fn contains_pat(s: &Vec<char>, p: &Vec<char>) -> (b: bool)
    ensures
        b == contains(s@, p@),
{
    find_pat(s, p, 0).is_some()
}

pub fn contains_str(s: &Vec<char>, p: &str) -> (b: bool)
    ensures
        b == contains(s@, p@),
{
    let pv = chars_of(p);
    contains_pat(s, &pv)
}

/// `s` begins with `p` (`str::starts_with`).
pub open spec fn starts_with(s: Seq<char>, p: Seq<char>) -> bool {
    occurs_at(s, p, 0)
}

/// `s` ends with `p` (`str::ends_with`).
pub open spec fn ends_with(s: Seq<char>, p: Seq<char>) -> bool {
    occurs_at(s, p, s.len() - p.len())
}

pub fn starts_with_str(s: &Vec<char>, p: &str) -> (b: bool)
    ensures
        b == starts_with(s@, p@),
{
    let pv = chars_of(p);
    occurs_at_exec(s, &pv, 0)
}

pub fn starts_with_at(s: &Vec<char>, p: &str, i: usize) -> (b: bool)
    ensures
        b == occurs_at(s@, p@, i as int),
{
    let pv = chars_of(p);
    occurs_at_exec(s, &pv, i)
}

pub fn starts_with_char(s: &Vec<char>, c: char) -> (b: bool)
    ensures
        b == (s@.len() > 0 && s@[0] == c),
{
    s.len() > 0 && s[0] == c
}

// ---------------------------------------------------------------------------
// Lines
// ---------------------------------------------------------------------------

/// A line without the `'\r'` of a `"\r\n"` terminator.
pub open spec fn strip_cr(l: Seq<char>) -> Seq<char> {
    if l.len() > 0 && l.last() == '\r' {
        l.drop_last()
    } else {
        l
    }
}

/// The lines of `s[start..]`, as `str::lines` yields them: split at `'\n'`,
/// a `'\r'` before the `'\n'` dropped, no empty line after a final `'\n'`.
pub open spec fn lines_at(s: Seq<char>, start: int) -> Seq<Seq<char>>
    decreases s.len() - start,
{
    if start < 0 || start >= s.len() {
        seq![]
    } else {
        match find_from(s, '\n', start) {
            None => seq![s.subrange(start, s.len() as int)],
            Some(k) => {
                if start <= k < s.len() {
                    seq![strip_cr(s.subrange(start, k))] + lines_at(s, k + 1)
                } else {
                    seq![]
                }
            },
        }
    }
}

/// The lines of `s` (`str::lines`).
pub open spec fn lines(s: Seq<char>) -> Seq<Seq<char>> {
    lines_at(s, 0)
}

pub fn strip_cr_exec(l: Vec<char>) -> (r: Vec<char>)
    ensures
        r@ == strip_cr(l@),
{
    let mut l = l;
    if l.len() > 0 && l[l.len() - 1] == '\r' {
        l.pop();
    }
    l
}

pub fn lines_of(s: &Vec<char>) -> (r: Vec<Vec<char>>)
    ensures
        r@.len() == lines(s@).len(),
        forall|k: int| 0 <= k < r@.len() ==> #[trigger] r@[k]@ == lines(s@)[k],
{
    let mut out: Vec<Vec<char>> = Vec::new();
    let ghost done: Seq<Seq<char>> = seq![];
    let mut start: usize = 0;
    while start < s.len()
        invariant
            start <= s@.len(),
            done.len() == out@.len(),
            forall|k: int| 0 <= k < out@.len() ==> #[trigger] out@[k]@ == done[k],
            lines(s@) == done + lines_at(s@, start as int),
        decreases s@.len() - start,
    {
        proof {
            lemma_find_from(s@, '\n', start as int);
        }
        match find_char(s, '\n', start) {
            None => {
                let piece = sub_chars(s, start, s.len());
                proof {
                    assert(lines_at(s@, start as int) == seq![piece@]);
                    assert(lines_at(s@, s@.len() as int) == Seq::<Seq<char>>::empty());
                    done = done.push(piece@);
                    assert(lines(s@) == done + lines_at(s@, s@.len() as int));
                }
                out.push(piece);
                start = s.len();
            },
            Some(k) => {
                let piece = strip_cr_exec(sub_chars(s, start, k));
                proof {
                    assert(lines_at(s@, start as int) == seq![piece@] + lines_at(s@, k + 1));
                    assert(lines(s@) == done.push(piece@) + lines_at(s@, k + 1));
                    done = done.push(piece@);
                }
                out.push(piece);
                start = k + 1;
            },
        }
    }
    assert(lines_at(s@, start as int) == Seq::<Seq<char>>::empty());
    assert(done + Seq::<Seq<char>>::empty() == done);
    out
}

// ---------------------------------------------------------------------------
// Rendering
// ---------------------------------------------------------------------------

pub open spec fn digit(d: nat) -> char {
    ((48 + d) as u8) as char
}

/// Decimal rendering of `n`, as `format!("{}", n)` writes it.
pub open spec fn decimal(n: nat) -> Seq<char>
    decreases n,
{
    if n < 10 {
        seq![digit(n)]
    } else {
        decimal(n / 10).push(digit(n % 10))
    }
}

pub fn push_decimal(s: &mut String, n: usize)
    ensures
        final(s)@ == old(s)@ + decimal(n as nat),
{
    push_decimal_u64(s, n as u64);
}

pub fn push_decimal_u64(s: &mut String, n: u64)
    ensures
        final(s)@ == old(s)@ + decimal(n as nat),
    decreases n,
{
    if n >= 10 {
        push_decimal_u64(s, n / 10);
    }
    let d: u8 = (n % 10) as u8;
    s.push((48u8 + d) as char);
    assert(old(s)@ + decimal(n as nat) == (old(s)@ + decimal(n as nat / 10)).push(digit(n as nat % 10)) || n < 10);
}

/// Decimal rendering of a `usize`.
pub open spec fn dec(n: usize) -> Seq<char> {
    decimal(n as nat)
}

/// `parts` joined with `sep` between consecutive parts.
pub open spec fn join(parts: Seq<Seq<char>>, sep: Seq<char>) -> Seq<char>
    decreases parts.len(),
{
    if parts.len() == 0 {
        seq![]
    } else if parts.len() == 1 {
        parts[0]
    } else {
        join(parts.drop_last(), sep) + sep + parts.last()
    }
}

/// `s` with every `'\n'` replaced by `rep`.
pub open spec fn replace_nl(s: Seq<char>, rep: Seq<char>) -> Seq<char>
    decreases s.len(),
{
    if s.len() == 0 {
        seq![]
    } else if s.last() == '\n' {
        replace_nl(s.drop_last(), rep) + rep
    } else {
        replace_nl(s.drop_last(), rep).push(s.last())
    }
}

/// `s` with every `'\n'` replaced by `"\n  "`.
pub open spec fn indent(s: Seq<char>) -> Seq<char> {
    replace_nl(s, "\n  "@)
}

/// Appends `e` to `s`, with every `'\n'` of `e` replaced by `rep`.
pub fn push_replacing_nl(s: &mut String, e: &String, rep: &str)
    ensures
        final(s)@ == old(s)@ + replace_nl(e@, rep@),
{
    let v = chars_of(e.as_str());
    let mut i: usize = 0;
    while i < v.len()
        invariant
            i <= v@.len(),
            v@ == e@,
            s@ == old(s)@ + replace_nl(v@.take(i as int), rep@),
        decreases v@.len() - i,
    {
        assert(v@.take(i + 1).drop_last() == v@.take(i as int));
        if v[i] == '\n' {
            s.append(rep);
        } else {
            s.push(v[i]);
        }
        i += 1;
    }
    assert(v@.take(v@.len() as int) == v@);
}

/// Appends `e` to `s`, indented: every `'\n'` of `e` becomes `"\n  "`.
pub fn push_indented(s: &mut String, e: &String)
    ensures
        final(s)@ == old(s)@ + indent(e@),
{
    push_replacing_nl(s, e, "\n  ");
}

// ---------------------------------------------------------------------------
// Words
// ---------------------------------------------------------------------------

/// End of the run of non-whitespace characters that starts at `i`.
pub open spec fn word_end(s: Seq<char>, i: int) -> int
    decreases s.len() - i,
{
    if 0 <= i < s.len() && !is_ws(s[i]) {
        word_end(s, i + 1)
    } else {
        i
    }
}

pub proof fn lemma_word_end_bounds(s: Seq<char>, i: int)
    requires
        0 <= i <= s.len(),
    ensures
        i <= word_end(s, i) <= s.len(),
        forall|k: int| i <= k < word_end(s, i) ==> !is_ws(#[trigger] s[k]),
    decreases s.len() - i,
{
    if 0 <= i < s.len() && !is_ws(s[i]) {
        lemma_word_end_bounds(s, i + 1);
    }
}

/// The whitespace-separated words of `s[i..]` (`str::split_whitespace`).
pub open spec fn words_from(s: Seq<char>, i: int) -> Seq<Seq<char>>
    decreases s.len() - i,
{
    if 0 <= i <= s.len() {
        let k = lead(s, i);
        proof {
            lemma_lead_bounds(s, i);
        }
        if k < s.len() {
            let e = word_end(s, k);
            proof {
                lemma_word_end_bounds(s, k);
            }
            if e > k {
                seq![s.subrange(k, e)] + words_from(s, e)
            } else {
                seq![]
            }
        } else {
            seq![]
        }
    } else {
        seq![]
    }
}

/// The words of `s` joined with single spaces.
pub open spec fn collapse(s: Seq<char>) -> Seq<char> {
    join(words_from(s, 0), " "@)
}

pub proof fn lemma_join_prepend(w: Seq<char>, ws: Seq<Seq<char>>, sep: Seq<char>)
    ensures
        join(seq![w] + ws, sep) == if ws.len() == 0 {
            w
        } else {
            w + sep + join(ws, sep)
        },
    decreases ws.len(),
{
    if ws.len() > 0 {
        assert((seq![w] + ws).drop_last() =~= seq![w] + ws.drop_last());
        assert((seq![w] + ws).last() == ws.last());
        lemma_join_prepend(w, ws.drop_last(), sep);
        if ws.len() == 1 {
            assert(seq![w] + ws.drop_last() =~= seq![w]);
        } else {
            assert(w + sep + join(ws.drop_last(), sep) + sep + ws.last() =~= w + sep + (join(
                ws.drop_last(),
                sep,
            ) + sep + ws.last()));
        }
    } else {
        assert(seq![w] + ws =~= seq![w]);
    }
}

/// The words of `s` joined with single spaces
/// (`s.split_whitespace().collect::<Vec<_>>().join(" ")`).
pub fn collapse_whitespace(s: &str) -> (r: String)
    ensures
        r@ == collapse(s@),
{
    let cs = chars_of(s);
    let n = cs.len();
    let mut out = String::new();
    let mut started = false;
    let mut i: usize = 0;
    while i < n
        invariant
            cs@ == s@,
            n == cs@.len(),
            i <= n,
            started == (out@.len() > 0),
            collapse(s@) == if started {
                out@ + if words_from(s@, i as int).len() == 0 {
                    seq![]
                } else {
                    " "@ + join(words_from(s@, i as int), " "@)
                }
            } else {
                join(words_from(s@, i as int), " "@)
            },
        decreases n - i,
    {
        let ghost i0 = i as int;
        while i < n && is_whitespace(cs[i])
            invariant
                cs@ == s@,
                n == cs@.len(),
                i0 <= i <= n,
                lead(s@, i0) == lead(s@, i as int),
            decreases n - i,
        {
            i += 1;
        }
        if i < n {
            let k = i;
            proof {
                lemma_lead_bounds(s@, i0);
                lemma_word_end_bounds(s@, k as int);
                reveal_strlit(" ");
            }
            let ghost before = out@;
            if started {
                out.push(' ');
            }
            let ghost mid = out@;
            while i < n && !is_whitespace(cs[i])
                invariant
                    cs@ == s@,
                    n == cs@.len(),
                    k <= i <= n,
                    word_end(s@, k as int) == word_end(s@, i as int),
                    out@ == mid + s@.subrange(k as int, i as int),
                decreases n - i,
            {
                out.push(cs[i]);
                i += 1;
                assert(s@.subrange(k as int, i as int) =~= s@.subrange(k as int, i - 1).push(
                    s@[i - 1],
                ));
            }
            let ghost w = s@.subrange(k as int, i as int);
            let ghost rest = words_from(s@, i as int);
            assert(words_from(s@, i0) == seq![w] + rest);
            proof {
                lemma_join_prepend(w, rest, " "@);
            }
            started = true;
        } else {
            assert(words_from(s@, i0) =~= Seq::<Seq<char>>::empty());
            assert(words_from(s@, i as int) =~= Seq::<Seq<char>>::empty());
        }
    }
    assert(words_from(s@, n as int) =~= Seq::<Seq<char>>::empty());
    out
}

} // verus!
