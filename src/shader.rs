use vstd::prelude::*;
use vstd::string::StrSliceExecFns;

verus! {

// ---------------------------------------------------------------------------
// Directive grammar. Words are ASCII letters, digits and '_'; blanks are ASCII
// whitespace. A line's directive is read from the line with surrounding blanks
// trimmed:
//   #define NAME VALUE   (at the start)     #define NAME   (at the start)
//   #ifdef NAME  #elseif NAME  #else  #endif  #include <NAME>   (anywhere)
// Names and values are maximal runs of word characters.
// ---------------------------------------------------------------------------

pub open spec fn is_word_char(c: char) -> bool {
    ('a' <= c && c <= 'z') || ('A' <= c && c <= 'Z') || ('0' <= c && c <= '9') || c == '_'
}

pub open spec fn is_blank(c: char) -> bool {
    c == ' ' || c == '\t' || c == '\n' || c == '\r' || c == '\x0B' || c == '\x0C'
}

pub open spec fn in_class(c: char, word: bool) -> bool {
    if word {
        is_word_char(c)
    } else {
        is_blank(c)
    }
}

/// The end of the run of `word`-class (else blank) characters starting at `i`, before `hi`.
pub open spec fn run_end(s: Seq<char>, i: int, hi: int, word: bool) -> int
    decreases hi - i,
{
    if 0 <= i < hi && i < s.len() && in_class(s[i], word) {
        run_end(s, i + 1, hi, word)
    } else {
        i
    }
}

/// The end of `s[..j]` with trailing blanks at or after `lo` dropped.
pub open spec fn trim_back(s: Seq<char>, j: int, lo: int) -> int
    decreases j,
{
    if j > lo && j > 0 && j <= s.len() && is_blank(s[j - 1]) {
        trim_back(s, j - 1, lo)
    } else {
        j
    }
}

pub open spec fn trim_lo(s: Seq<char>) -> int {
    run_end(s, 0, s.len() as int, false)
}

pub open spec fn trim_hi(s: Seq<char>) -> int {
    trim_back(s, s.len() as int, trim_lo(s))
}

/// `kw` occurs at `p`, ending at or before `hi`.
pub open spec fn kw_at(s: Seq<char>, p: int, hi: int, kw: Seq<char>) -> bool {
    0 <= p && p + kw.len() <= hi && hi <= s.len() && s.subrange(p, p + kw.len()) == kw
}

/// `kw`, blanks, then a word, at `p`: the word's bounds.
pub open spec fn kw_name(s: Seq<char>, p: int, hi: int, kw: Seq<char>) -> Option<(int, int)> {
    if kw_at(s, p, hi, kw) {
        let a = p + kw.len();
        let b = run_end(s, a, hi, false);
        let c = run_end(s, b, hi, true);
        if b > a && c > b {
            Some((b, c))
        } else {
            None
        }
    } else {
        None
    }
}

/// The leftmost `kw_name` match at or after `p`.
pub open spec fn first_kw_name(s: Seq<char>, p: int, hi: int, kw: Seq<char>) -> Option<(int, int)>
    decreases hi - p,
{
    if p < 0 || p >= hi {
        None
    } else if kw_name(s, p, hi, kw).is_some() {
        kw_name(s, p, hi, kw)
    } else {
        first_kw_name(s, p + 1, hi, kw)
    }
}

/// `kw` occurs at or after `p`.
pub open spec fn has_kw(s: Seq<char>, p: int, hi: int, kw: Seq<char>) -> bool
    decreases hi - p,
{
    if p < 0 || p >= hi {
        false
    } else {
        kw_at(s, p, hi, kw) || has_kw(s, p + 1, hi, kw)
    }
}

/// `#include`, blanks, `<`, a word, `>` at `p`: the word's bounds.
pub open spec fn include_at(s: Seq<char>, p: int, hi: int) -> Option<(int, int)> {
    if kw_at(s, p, hi, include_kw()) {
        let a = p + include_kw().len();
        let b = run_end(s, a, hi, false);
        if b > a && b < hi && s[b] == '<' {
            let c = run_end(s, b + 1, hi, true);
            if c > b + 1 && c < hi && s[c] == '>' {
                Some((b + 1, c))
            } else {
                None
            }
        } else {
            None
        }
    } else {
        None
    }
}

pub open spec fn first_include(s: Seq<char>, p: int, hi: int) -> Option<(int, int)>
    decreases hi - p,
{
    if p < 0 || p >= hi {
        None
    } else if include_at(s, p, hi).is_some() {
        include_at(s, p, hi)
    } else {
        first_include(s, p + 1, hi)
    }
}

pub open spec fn define_kw() -> Seq<char> {
    seq!['#', 'd', 'e', 'f', 'i', 'n', 'e']
}

pub open spec fn ifdef_kw() -> Seq<char> {
    seq!['#', 'i', 'f', 'd', 'e', 'f']
}

pub open spec fn elseif_kw() -> Seq<char> {
    seq!['#', 'e', 'l', 's', 'e', 'i', 'f']
}

pub open spec fn else_kw() -> Seq<char> {
    seq!['#', 'e', 'l', 's', 'e']
}

pub open spec fn endif_kw() -> Seq<char> {
    seq!['#', 'e', 'n', 'd', 'i', 'f']
}

pub open spec fn include_kw() -> Seq<char> {
    seq!['#', 'i', 'n', 'c', 'l', 'u', 'd', 'e']
}

/// What a line does. Bounds are positions in the line.
#[derive(Debug, Clone, Copy, PartialEq, Eq, Structural)]
pub enum Directive {
    DefineValue(usize, usize, usize, usize),
    Define(usize, usize),
    Ifdef(usize, usize),
    Elseif(usize, usize),
    Else,
    Endif,
    Include(usize, usize),
    Text,
}

/// The directive of line `s`, trying the forms in the order listed above.
pub open spec fn classify(s: Seq<char>) -> Directive {
    let lo = trim_lo(s);
    let hi = trim_hi(s);
    let def = kw_name(s, lo, hi, define_kw());
    if def.is_some() && run_end(s, def.unwrap().1, hi, false) > def.unwrap().1 && run_end(
        s,
        run_end(s, def.unwrap().1, hi, false),
        hi,
        true,
    ) > run_end(s, def.unwrap().1, hi, false) {
        let d = run_end(s, def.unwrap().1, hi, false);
        Directive::DefineValue(
            def.unwrap().0 as usize,
            def.unwrap().1 as usize,
            d as usize,
            run_end(s, d, hi, true) as usize,
        )
    } else if def.is_some() {
        Directive::Define(def.unwrap().0 as usize, def.unwrap().1 as usize)
    } else if first_kw_name(s, lo, hi, ifdef_kw()).is_some() {
        Directive::Ifdef(first_kw_name(s, lo, hi, ifdef_kw()).unwrap().0 as usize, first_kw_name(s, lo, hi, ifdef_kw()).unwrap().1 as usize)
    } else if first_kw_name(s, lo, hi, elseif_kw()).is_some() {
        Directive::Elseif(first_kw_name(s, lo, hi, elseif_kw()).unwrap().0 as usize, first_kw_name(s, lo, hi, elseif_kw()).unwrap().1 as usize)
    } else if has_kw(s, lo, hi, else_kw()) {
        Directive::Else
    } else if has_kw(s, lo, hi, endif_kw()) {
        Directive::Endif
    } else if first_include(s, lo, hi).is_some() {
        Directive::Include(first_include(s, lo, hi).unwrap().0 as usize, first_include(s, lo, hi).unwrap().1 as usize)
    } else {
        Directive::Text
    }
}

fn run_end_exec(s: &Vec<char>, i: usize, hi: usize, word: bool) -> (r: usize)
    requires
        i <= hi <= s.len(),
    ensures
        r == run_end(s@, i as int, hi as int, word),
        i <= r <= hi,
{
    let mut j = i;
    while j < hi && in_class_exec(s[j], word)
        invariant
            i <= j <= hi,
            hi <= s.len(),
            run_end(s@, j as int, hi as int, word) == run_end(s@, i as int, hi as int, word),
        decreases hi - j,
    {
        j = j + 1;
    }
    j
}

fn in_class_exec(c: char, word: bool) -> (r: bool)
    ensures
        r == in_class(c, word),
{
    if word {
        is_word(c)
    } else {
        is_blank_exec(c)
    }
}

fn is_word(c: char) -> (r: bool)
    ensures
        r == is_word_char(c),
{
    ('a' <= c && c <= 'z') || ('A' <= c && c <= 'Z') || ('0' <= c && c <= '9') || c == '_'
}

fn is_blank_exec(c: char) -> (r: bool)
    ensures
        r == is_blank(c),
{
    c == ' ' || c == '\t' || c == '\n' || c == '\r' || c == '\x0B' || c == '\x0C'
}

fn trim_bounds(s: &Vec<char>) -> (r: (usize, usize))
    ensures
        r.0 == trim_lo(s@),
        r.1 == trim_hi(s@),
        r.0 <= r.1 <= s.len(),
{
    let lo = run_end_exec(s, 0, s.len(), false);
    let mut j = s.len();
    while j > lo && is_blank_exec(s[j - 1])
        invariant
            lo <= j <= s.len(),
            trim_back(s@, j as int, lo as int) == trim_back(s@, s.len() as int, lo as int),
        decreases j,
    {
        j = j - 1;
    }
    (lo, j)
}

fn kw_at_exec(s: &Vec<char>, p: usize, hi: usize, kw: &Vec<char>) -> (r: bool)
    requires
        hi <= s.len(),
    ensures
        r == kw_at(s@, p as int, hi as int, kw@),
{
    if p > hi || kw.len() > hi - p {
        return false;
    }
    let mut k: usize = 0;
    while k < kw.len()
        invariant
            p + kw.len() <= hi <= s.len(),
            k <= kw.len(),
            forall|t: int| 0 <= t < k ==> s@[p + t] == kw@[t],
        decreases kw.len() - k,
    {
        if s[p + k] != kw[k] {
            proof {
                assert(s@.subrange(p as int, p + kw.len())[k as int] != kw@[k as int]);
            }
            return false;
        }
        k = k + 1;
    }
    proof {
        assert(s@.subrange(p as int, p + kw.len()) =~= kw@);
    }
    true
}

fn kw_name_exec(s: &Vec<char>, p: usize, hi: usize, kw: &Vec<char>) -> (r: Option<(usize, usize)>)
    requires
        hi <= s.len(),
    ensures
        match r {
            Some((b, c)) => kw_name(s@, p as int, hi as int, kw@) == Some((b as int, c as int)) && b < c <= hi,
            None => kw_name(s@, p as int, hi as int, kw@) is None,
        },
{
    if !kw_at_exec(s, p, hi, kw) {
        return None;
    }
    let a = p + kw.len();
    let b = run_end_exec(s, a, hi, false);
    let c = run_end_exec(s, b, hi, true);
    if b > a && c > b {
        Some((b, c))
    } else {
        None
    }
}

fn first_kw_name_exec(s: &Vec<char>, lo: usize, hi: usize, kw: &Vec<char>) -> (r: Option<(usize, usize)>)
    requires
        lo <= hi <= s.len(),
    ensures
        match r {
            Some((b, c)) => first_kw_name(s@, lo as int, hi as int, kw@) == Some((b as int, c as int)) && b < c <= hi,
            None => first_kw_name(s@, lo as int, hi as int, kw@) is None,
        },
{
    let mut p = lo;
    while p < hi
        invariant
            lo <= p <= hi,
            hi <= s.len(),
            first_kw_name(s@, p as int, hi as int, kw@) == first_kw_name(s@, lo as int, hi as int, kw@),
        decreases hi - p,
    {
        match kw_name_exec(s, p, hi, kw) {
            Some(m) => return Some(m),
            None => {},
        }
        p = p + 1;
    }
    None
}

fn has_kw_exec(s: &Vec<char>, lo: usize, hi: usize, kw: &Vec<char>) -> (r: bool)
    requires
        lo <= hi <= s.len(),
    ensures
        r == has_kw(s@, lo as int, hi as int, kw@),
{
    let mut p = lo;
    while p < hi
        invariant
            lo <= p <= hi,
            hi <= s.len(),
            has_kw(s@, p as int, hi as int, kw@) == has_kw(s@, lo as int, hi as int, kw@),
        decreases hi - p,
    {
        if kw_at_exec(s, p, hi, kw) {
            return true;
        }
        p = p + 1;
    }
    false
}

fn include_at_exec(s: &Vec<char>, p: usize, hi: usize, kw: &Vec<char>) -> (r: Option<(usize, usize)>)
    requires
        hi <= s.len(),
        kw@ == include_kw(),
    ensures
        match r {
            Some((b, c)) => include_at(s@, p as int, hi as int) == Some((b as int, c as int)) && b < c <= hi,
            None => include_at(s@, p as int, hi as int) is None,
        },
{
    if !kw_at_exec(s, p, hi, kw) {
        return None;
    }
    let a = p + kw.len();
    let b = run_end_exec(s, a, hi, false);
    if b > a && b < hi && s[b] == '<' {
        let c = run_end_exec(s, b + 1, hi, true);
        if c > b + 1 && c < hi && s[c] == '>' {
            return Some((b + 1, c));
        }
    }
    None
}

fn first_include_exec(s: &Vec<char>, lo: usize, hi: usize, kw: &Vec<char>) -> (r: Option<(usize, usize)>)
    requires
        lo <= hi <= s.len(),
        kw@ == include_kw(),
    ensures
        match r {
            Some((b, c)) => first_include(s@, lo as int, hi as int) == Some((b as int, c as int)) && b < c <= hi,
            None => first_include(s@, lo as int, hi as int) is None,
        },
{
    let mut p = lo;
    while p < hi
        invariant
            lo <= p <= hi,
            hi <= s.len(),
            kw@ == include_kw(),
            first_include(s@, p as int, hi as int) == first_include(s@, lo as int, hi as int),
        decreases hi - p,
    {
        match include_at_exec(s, p, hi, kw) {
            Some(m) => return Some(m),
            None => {},
        }
        p = p + 1;
    }
    None
}

/// Reads the directive of a line.
pub fn classify_line(s: &Vec<char>) -> (r: Directive)
    ensures
        r == classify(s@),
        bounds_ok(r, s@.len()),
{
    let (lo, hi) = trim_bounds(s);
    let define: Vec<char> = vec!['#', 'd', 'e', 'f', 'i', 'n', 'e'];
    let ifdef: Vec<char> = vec!['#', 'i', 'f', 'd', 'e', 'f'];
    let elseif: Vec<char> = vec!['#', 'e', 'l', 's', 'e', 'i', 'f'];
    let else_: Vec<char> = vec!['#', 'e', 'l', 's', 'e'];
    let endif: Vec<char> = vec!['#', 'e', 'n', 'd', 'i', 'f'];
    let incl_kw: Vec<char> = vec!['#', 'i', 'n', 'c', 'l', 'u', 'd', 'e'];
    proof {
        assert(define@ =~= define_kw());
        assert(ifdef@ =~= ifdef_kw());
        assert(elseif@ =~= elseif_kw());
        assert(else_@ =~= else_kw());
        assert(endif@ =~= endif_kw());
        assert(incl_kw@ =~= include_kw());
    }
    match kw_name_exec(s, lo, hi, &define) {
        Some((b, c)) => {
            let d = run_end_exec(s, c, hi, false);
            let e = run_end_exec(s, d, hi, true);
            if d > c && e > d {
                return Directive::DefineValue(b, c, d, e);
            }
            return Directive::Define(b, c);
        },
        None => {},
    }
    match first_kw_name_exec(s, lo, hi, &ifdef) {
        Some((b, c)) => return Directive::Ifdef(b, c),
        None => {},
    }
    match first_kw_name_exec(s, lo, hi, &elseif) {
        Some((b, c)) => return Directive::Elseif(b, c),
        None => {},
    }
    if has_kw_exec(s, lo, hi, &else_) {
        return Directive::Else;
    }
    if has_kw_exec(s, lo, hi, &endif) {
        return Directive::Endif;
    }
    match first_include_exec(s, lo, hi, &incl_kw) {
        Some((b, c)) => Directive::Include(b, c),
        None => Directive::Text,
    }
}


// ---------------------------------------------------------------------------
// Preprocessing. `#define` records a name (with "true" when no value is given);
// `#ifdef` opens a block that is active when its name is defined; `#elseif`
// activates the block if no earlier branch matched and its name is defined;
// `#else` activates it if no branch matched; `#endif` closes it. A text line
// is kept when every open block is active. `#include <NAME>` is replaced by
// the library entry NAME, preprocessed with a copy of the current defines.
// Directive lines produce no output.
// ---------------------------------------------------------------------------

/// Recorded defines, oldest first: (name, value).
pub type DefineList = Seq<(Seq<char>, Seq<char>)>;

/// Open conditional blocks, outermost first: (name, is_active, has_matched).
pub type BlockStack = Seq<(Seq<char>, bool, bool)>;

/// Library entries that `#include` can name, oldest first: (name, source).
pub type Library = Seq<(Seq<char>, Seq<char>)>;

/// Why preprocessing failed.
#[derive(Debug, Clone, Copy, PartialEq, Eq, Structural)]
pub enum ShaderError {
    /// An `#include` names no library entry; carries the line index given.
    UnknownInclude(usize),
    /// Includes nest deeper than the library has entries (an include cycle).
    IncludeTooDeep,
}

pub open spec fn is_defined(defs: DefineList, n: Seq<char>) -> bool {
    exists|i: int| 0 <= i < defs.len() && defs[i].0 == n
}

/// The newest library entry named `n`.
pub open spec fn lib_find(lib: Library, n: Seq<char>) -> Option<Seq<char>>
    decreases lib.len(),
{
    if lib.len() == 0 {
        None
    } else if lib.last().0 == n {
        Some(lib.last().1)
    } else {
        lib_find(lib.drop_last(), n)
    }
}

pub open spec fn all_active(stack: BlockStack) -> bool {
    forall|i: int| 0 <= i < stack.len() ==> #[trigger] stack[i].1
}

pub open spec fn true_value() -> Seq<char> {
    seq!['t', 'r', 'u', 'e']
}

/// The effect of a line whose directive is not an include.
pub open spec fn apply(defs: DefineList, stack: BlockStack, line: Seq<char>, d: Directive) -> (DefineList, BlockStack, Option<Seq<char>>) {
    match d {
        Directive::DefineValue(b, c, e, f) => (
            defs.push((line.subrange(b as int, c as int), line.subrange(e as int, f as int))),
            stack,
            None,
        ),
        Directive::Define(b, c) => (defs.push((line.subrange(b as int, c as int), true_value())), stack, None),
        Directive::Ifdef(b, c) => {
            let on = is_defined(defs, line.subrange(b as int, c as int));
            (defs, stack.push((line.subrange(b as int, c as int), on, on)), None)
        },
        Directive::Elseif(b, c) => {
            if stack.len() == 0 {
                (defs, stack, None)
            } else {
                let top = stack.last();
                let new_top = if !top.2 {
                    let on = is_defined(defs, line.subrange(b as int, c as int));
                    (top.0, on, on)
                } else {
                    (top.0, false, true)
                };
                (defs, stack.update(stack.len() - 1, new_top), None)
            }
        },
        Directive::Else => {
            if stack.len() == 0 {
                (defs, stack, None)
            } else {
                let top = stack.last();
                (defs, stack.update(stack.len() - 1, (top.0, !top.2, true)), None)
            }
        },
        Directive::Endif => (defs, if stack.len() > 0 { stack.drop_last() } else { stack }, None),
        Directive::Text => (defs, stack, if all_active(stack) { Some(line) } else { None }),
        Directive::Include(_, _) => (defs, stack, None),
    }
}

/// `s` cut at each '\n' (n newlines give n + 1 lines).
pub open spec fn split_lines(s: Seq<char>) -> Seq<Seq<char>>
    decreases s.len(),
{
    if s.len() == 0 {
        seq![Seq::empty()]
    } else {
        let r = split_lines(s.drop_last());
        if s.last() == '\n' {
            r.push(Seq::empty())
        } else {
            r.update(r.len() - 1, r.last().push(s.last()))
        }
    }
}

/// `ls` joined with '\n' between consecutive lines.
pub open spec fn join_lines(ls: Seq<Seq<char>>) -> Seq<char>
    decreases ls.len(),
{
    if ls.len() == 0 {
        Seq::empty()
    } else if ls.len() == 1 {
        ls[0]
    } else {
        join_lines(ls.drop_last()) + seq!['\n'] + ls.last()
    }
}

/// Preprocesses `lines` in order; the kept output pieces.
pub open spec fn process(lib: Library, fuel: nat, defs: DefineList, stack: BlockStack, lines: Seq<Seq<char>>, index: usize) -> Result<(DefineList, BlockStack, Seq<Seq<char>>), ShaderError>
    decreases fuel, lines.len(),
{
    if lines.len() == 0 {
        Ok((defs, stack, Seq::empty()))
    } else {
        match process(lib, fuel, defs, stack, lines.drop_last(), index) {
            Err(e) => Err(e),
            Ok((d1, s1, out)) => match step(lib, fuel, d1, s1, lines.last(), index) {
                Err(e) => Err(e),
                Ok((d2, s2, o)) => Ok((d2, s2, if o is Some { out.push(o.unwrap()) } else { out })),
            },
        }
    }
}

/// The effect of one line, expanding an include.
pub open spec fn step(lib: Library, fuel: nat, defs: DefineList, stack: BlockStack, line: Seq<char>, index: usize) -> Result<(DefineList, BlockStack, Option<Seq<char>>), ShaderError>
    decreases fuel, 0nat,
{
    match classify(line) {
        Directive::Include(b, c) => match lib_find(lib, line.subrange(b as int, c as int)) {
            None => Err(ShaderError::UnknownInclude(index)),
            Some(src) => if fuel == 0 {
                Err(ShaderError::IncludeTooDeep)
            } else {
                match process(lib, (fuel - 1) as nat, defs, Seq::empty(), split_lines(src), index) {
                    Err(e) => Err(e),
                    Ok((_, _, out)) => Ok((defs, stack, Some(join_lines(out)))),
                }
            },
        },
        d => Ok(apply(defs, stack, line, d)),
    }
}

/// Preprocesses a whole text: the kept lines joined with '\n'.
pub open spec fn preprocess(lib: Library, fuel: nat, defs: DefineList, stack: BlockStack, text: Seq<char>) -> Result<(DefineList, BlockStack, Seq<char>), ShaderError> {
    match process(lib, fuel, defs, stack, split_lines(text), 0) {
        Err(e) => Err(e),
        Ok((d, s, out)) => Ok((d, s, join_lines(out))),
    }
}

/// An open conditional block.
pub struct IfdefState {
    pub name: Vec<char>,
    pub is_active: bool,
    pub has_matched: bool,
}

pub open spec fn pair_view(p: (Vec<char>, Vec<char>)) -> (Seq<char>, Seq<char>) {
    (p.0@, p.1@)
}

pub open spec fn block_view(b: IfdefState) -> (Seq<char>, bool, bool) {
    (b.name@, b.is_active, b.has_matched)
}

pub open spec fn pairs_view(v: Seq<(Vec<char>, Vec<char>)>) -> Seq<(Seq<char>, Seq<char>)> {
    v.map_values(|p: (Vec<char>, Vec<char>)| pair_view(p))
}

pub open spec fn blocks_view(v: Seq<IfdefState>) -> BlockStack {
    v.map_values(|b: IfdefState| block_view(b))
}

fn copy_chars(v: &Vec<char>) -> (r: Vec<char>)
    ensures
        r@ == v@,
{
    let mut out: Vec<char> = Vec::new();
    let mut i: usize = 0;
    while i < v.len()
        invariant
            i <= v.len(),
            out@ == v@.take(i as int),
        decreases v.len() - i,
    {
        out.push(v[i]);
        i = i + 1;
        assert(out@ =~= v@.take(i as int));
    }
    assert(v@.take(v.len() as int) =~= v@);
    out
}

fn copy_chars_range(v: &Vec<char>, lo: usize, hi: usize) -> (r: Vec<char>)
    requires
        lo <= hi <= v.len(),
    ensures
        r@ == v@.subrange(lo as int, hi as int),
{
    let mut out: Vec<char> = Vec::new();
    let mut i: usize = lo;
    while i < hi
        invariant
            lo <= i <= hi <= v.len(),
            out@ == v@.subrange(lo as int, i as int),
        decreases hi - i,
    {
        out.push(v[i]);
        i = i + 1;
        assert(out@ =~= v@.subrange(lo as int, i as int));
    }
    out
}

fn copy_defines(defs: &Vec<(Vec<char>, Vec<char>)>) -> (r: Vec<(Vec<char>, Vec<char>)>)
    ensures
        pairs_view(r@) == pairs_view(defs@),
{
    let mut out: Vec<(Vec<char>, Vec<char>)> = Vec::new();
    let mut i: usize = 0;
    while i < defs.len()
        invariant
            i <= defs.len(),
            out.len() == i,
            forall|j: int| 0 <= j < i ==> pair_view(#[trigger] out@[j]) == pair_view(defs@[j]),
        decreases defs.len() - i,
    {
        out.push((copy_chars(&defs[i].0), copy_chars(&defs[i].1)));
        i = i + 1;
    }
    assert(pairs_view(out@) =~= pairs_view(defs@));
    out
}

fn defined_exec(defs: &Vec<(Vec<char>, Vec<char>)>, name: &Vec<char>) -> (r: bool)
    ensures
        r == is_defined(pairs_view(defs@), name@),
{
    let mut i: usize = 0;
    while i < defs.len()
        invariant
            i <= defs.len(),
            forall|j: int| 0 <= j < i ==> defs@[j].0@ != name@,
        decreases defs.len() - i,
    {
        if chars_eq(&defs[i].0, name) {
            proof {
                assert(pairs_view(defs@)[i as int].0 == name@);
            }
            return true;
        }
        i = i + 1;
    }
    proof {
        assert forall|j: int| 0 <= j < defs.len() implies pairs_view(defs@)[j].0 != name@ by {
            assert(defs@[j].0@ != name@);
        }
    }
    false
}

fn chars_eq(a: &Vec<char>, b: &Vec<char>) -> (r: bool)
    ensures
        r == (a@ == b@),
{
    if a.len() != b.len() {
        return false;
    }
    let mut i: usize = 0;
    while i < a.len()
        invariant
            a.len() == b.len(),
            i <= a.len(),
            forall|j: int| 0 <= j < i ==> a@[j] == b@[j],
        decreases a.len() - i,
    {
        if a[i] != b[i] {
            return false;
        }
        i = i + 1;
    }
    assert(a@ =~= b@);
    true
}

fn lib_find_exec(lib: &Vec<(Vec<char>, Vec<char>)>, name: &Vec<char>) -> (r: Option<usize>)
    ensures
        match r {
            Some(i) => i < lib.len() && lib_find(pairs_view(lib@), name@) == Some(lib@[i as int].1@),
            None => lib_find(pairs_view(lib@), name@) is None,
        },
{
    let mut i: usize = lib.len();
    proof {
        assert(pairs_view(lib@).take(lib.len() as int) =~= pairs_view(lib@));
    }
    while i > 0
        invariant
            i <= lib.len(),
            lib_find(pairs_view(lib@), name@) == lib_find(pairs_view(lib@).take(i as int), name@),
        decreases i,
    {
        proof {
            let t = pairs_view(lib@).take(i as int);
            assert(t.drop_last() =~= pairs_view(lib@).take(i - 1));
            assert(t.last() == pairs_view(lib@)[i - 1]);
        }
        if chars_eq(&lib[i - 1].0, name) {
            return Some(i - 1);
        }
        i = i - 1;
    }
    None
}

fn blocks_all_active(stack: &Vec<IfdefState>) -> (r: bool)
    ensures
        r == all_active(blocks_view(stack@)),
{
    let mut i: usize = 0;
    while i < stack.len()
        invariant
            i <= stack.len(),
            forall|j: int| 0 <= j < i ==> (#[trigger] stack@[j]).is_active,
        decreases stack.len() - i,
    {
        if !stack[i].is_active {
            proof {
                assert(!blocks_view(stack@)[i as int].1);
            }
            return false;
        }
        i = i + 1;
    }
    proof {
        assert forall|j: int| 0 <= j < blocks_view(stack@).len() implies #[trigger] blocks_view(stack@)[j].1 by {
            assert(stack@[j].is_active);
        }
    }
    true
}

fn apply_exec(defs: &mut Vec<(Vec<char>, Vec<char>)>, stack: &mut Vec<IfdefState>, line: &Vec<char>, d: Directive) -> (r: Option<Vec<char>>)
    requires
        !(d is Include),
        d == classify(line@),
        bounds_ok(d, line@.len()),
    ensures
        (pairs_view(final(defs)@), blocks_view(final(stack)@), match r {
            Some(v) => Some(v@),
            None => None,
        }) == apply(pairs_view(old(defs)@), blocks_view(old(stack)@), line@, d),
{
    match d {
        Directive::DefineValue(b, c, e, f) => {
            let name = copy_chars_range(line, b, c);
            let value = copy_chars_range(line, e, f);
            defs.push((name, value));
            proof {
                assert(pairs_view(defs@) =~= pairs_view(old(defs)@).push((line@.subrange(b as int, c as int), line@.subrange(e as int, f as int))));
            }
            None
        },
        Directive::Define(b, c) => {
            let name = copy_chars_range(line, b, c);
            let value: Vec<char> = vec!['t', 'r', 'u', 'e'];
            defs.push((name, value));
            proof {
                assert(value@ =~= true_value());
                assert(pairs_view(defs@) =~= pairs_view(old(defs)@).push((line@.subrange(b as int, c as int), true_value())));
            }
            None
        },
        Directive::Ifdef(b, c) => {
            let name = copy_chars_range(line, b, c);
            let on = defined_exec(defs, &name);
            stack.push(IfdefState { name, is_active: on, has_matched: on });
            proof {
                assert(blocks_view(stack@) =~= blocks_view(old(stack)@).push((line@.subrange(b as int, c as int), on, on)));
            }
            None
        },
        Directive::Elseif(b, c) => {
            let n = stack.len();
            if n > 0 {
                let name = copy_chars_range(line, b, c);
                let on = defined_exec(defs, &name);
                let top = &mut stack[n - 1];
                if !top.has_matched {
                    top.is_active = on;
                    if on {
                        top.has_matched = true;
                    }
                } else {
                    top.is_active = false;
                }
                proof {
                    let ov = blocks_view(old(stack)@);
                    let t = ov.last();
                    let nt = if !t.2 { (t.0, on, on) } else { (t.0, false, true) };
                    assert(blocks_view(stack@) =~= ov.update(ov.len() - 1, nt));
                }
            }
            None
        },
        Directive::Else => {
            let n = stack.len();
            if n > 0 {
                let top = &mut stack[n - 1];
                top.is_active = !top.has_matched;
                if top.is_active {
                    top.has_matched = true;
                }
                proof {
                    let ov = blocks_view(old(stack)@);
                    let t = ov.last();
                    assert(blocks_view(stack@) =~= ov.update(ov.len() - 1, (t.0, !t.2, true)));
                }
            }
            None
        },
        Directive::Endif => {
            if stack.len() != 0 {
                stack.pop();
                proof {
                    assert(blocks_view(stack@) =~= blocks_view(old(stack)@).drop_last());
                }
            }
            None
        },
        Directive::Text => {
            if blocks_all_active(stack) {
                Some(copy_chars(line))
            } else {
                None
            }
        },
        Directive::Include(_, _) => None,
    }
}

/// The bounds `d` reports lie within a line of length `len`, in order.
pub open spec fn bounds_ok(d: Directive, len: nat) -> bool {
    match d {
        Directive::DefineValue(b, c, e, f) => b <= c <= e <= f <= len,
        Directive::Define(b, c) => b <= c <= len,
        Directive::Ifdef(b, c) => b <= c <= len,
        Directive::Elseif(b, c) => b <= c <= len,
        Directive::Include(b, c) => b <= c <= len,
        _ => true,
    }
}


pub open spec fn opt_view(o: Option<Vec<char>>) -> Option<Seq<char>> {
    match o {
        Some(v) => Some(v@),
        None => None,
    }
}

pub open spec fn lines_view(v: Seq<Vec<char>>) -> Seq<Seq<char>> {
    v.map_values(|l: Vec<char>| l@)
}

/// Once a prefix of the lines fails, the whole fails the same way.
proof fn lemma_process_err(lib: Library, fuel: nat, defs: DefineList, stack: BlockStack, lines: Seq<Seq<char>>, k: int, index: usize)
    requires
        0 <= k <= lines.len(),
        process(lib, fuel, defs, stack, lines.take(k), index) is Err,
    ensures
        process(lib, fuel, defs, stack, lines, index) == process(lib, fuel, defs, stack, lines.take(k), index),
    decreases lines.len() - k,
{
    if k < lines.len() {
        assert(lines.take(k + 1).drop_last() =~= lines.take(k));
        lemma_process_err(lib, fuel, defs, stack, lines, k + 1, index);
    } else {
        assert(lines.take(k) =~= lines);
    }
}

fn split_text(text: &Vec<char>) -> (r: Vec<Vec<char>>)
    ensures
        lines_view(r@) == split_lines(text@),
{
    let mut lines: Vec<Vec<char>> = Vec::new();
    let mut cur: Vec<char> = Vec::new();
    let mut i: usize = 0;
    proof {
        assert(text@.take(0) =~= Seq::<char>::empty());
        assert(lines_view(lines@).push(cur@) =~= split_lines(text@.take(0)));
    }
    while i < text.len()
        invariant
            i <= text.len(),
            lines_view(lines@).push(cur@) == split_lines(text@.take(i as int)),
        decreases text.len() - i,
    {
        let c = text[i];
        proof {
            let t = text@.take(i as int + 1);
            assert(t.drop_last() =~= text@.take(i as int));
            assert(t.last() == c);
        }
        if c == '\n' {
            let done = cur;
            lines.push(done);
            cur = Vec::new();
            proof {
                assert(lines_view(lines@).push(cur@) =~= split_lines(text@.take(i as int)).push(Seq::empty()));
            }
        } else {
            let ghost before = cur@;
            cur.push(c);
            proof {
                let sl = split_lines(text@.take(i as int));
                assert(lines_view(lines@).push(cur@) =~= sl.update(sl.len() - 1, sl.last().push(c)));
            }
        }
        i = i + 1;
    }
    lines.push(cur);
    proof {
        assert(text@.take(text.len() as int) =~= text@);
        assert(lines_view(lines@) =~= split_lines(text@));
    }
    lines
}

fn append_chars(out: &mut Vec<char>, piece: &Vec<char>)
    ensures
        final(out)@ == old(out)@ + piece@,
{
    let mut i: usize = 0;
    while i < piece.len()
        invariant
            i <= piece.len(),
            out@ == old(out)@ + piece@.take(i as int),
        decreases piece.len() - i,
    {
        out.push(piece[i]);
        i = i + 1;
        assert(out@ =~= old(out)@ + piece@.take(i as int));
    }
    assert(piece@.take(piece.len() as int) =~= piece@);
}

/// One line, expanding an include with a copy of the defines.
fn step_line(
    lib: &Vec<(Vec<char>, Vec<char>)>,
    fuel: usize,
    defs: &mut Vec<(Vec<char>, Vec<char>)>,
    stack: &mut Vec<IfdefState>,
    line: &Vec<char>,
    index: usize,
) -> (r: Result<Option<Vec<char>>, ShaderError>)
    ensures
        match step(pairs_view(lib@), fuel as nat, pairs_view(old(defs)@), blocks_view(old(stack)@), line@, index) {
            Ok((d, s, o)) => r is Ok && pairs_view(final(defs)@) == d && blocks_view(final(stack)@) == s
                && opt_view(r.unwrap()) == o,
            Err(e) => r == Err::<Option<Vec<char>>, ShaderError>(e),
        },
    decreases fuel, 0nat,
{
    let d = classify_line(line);
    match d {
        Directive::Include(b, c) => {
            let name = copy_chars_range(line, b, c);
            match lib_find_exec(lib, &name) {
                None => Err(ShaderError::UnknownInclude(index)),
                Some(k) => {
                    if fuel == 0 {
                        return Err(ShaderError::IncludeTooDeep);
                    }
                    let mut sub_defs = copy_defines(defs);
                    let mut sub_stack: Vec<IfdefState> = Vec::new();
                    proof {
                        assert(blocks_view(sub_stack@) =~= Seq::<(Seq<char>, bool, bool)>::empty());
                    }
                    match process_text(lib, fuel - 1, &mut sub_defs, &mut sub_stack, &lib[k].1, index) {
                        Err(e) => Err(e),
                        Ok(text) => Ok(Some(text)),
                    }
                },
            }
        },
        _ => Ok(apply_exec(defs, stack, line, d)),
    }
}

/// Preprocesses `text` line by line: the kept pieces joined with '\n'.
fn process_text(
    lib: &Vec<(Vec<char>, Vec<char>)>,
    fuel: usize,
    defs: &mut Vec<(Vec<char>, Vec<char>)>,
    stack: &mut Vec<IfdefState>,
    text: &Vec<char>,
    index: usize,
) -> (r: Result<Vec<char>, ShaderError>)
    ensures
        match process(pairs_view(lib@), fuel as nat, pairs_view(old(defs)@), blocks_view(old(stack)@), split_lines(text@), index) {
            Ok((d, s, out)) => r is Ok && pairs_view(final(defs)@) == d && blocks_view(final(stack)@) == s
                && r.unwrap()@ == join_lines(out),
            Err(e) => r == Err::<Vec<char>, ShaderError>(e),
        },
    decreases fuel, 1nat,
{
    let lines = split_text(text);
    let ghost ls = split_lines(text@);
    let ghost l = pairs_view(lib@);
    let ghost d0 = pairs_view(defs@);
    let ghost s0 = blocks_view(stack@);
    let ghost mut outs: Seq<Seq<char>> = Seq::empty();
    let mut out: Vec<char> = Vec::new();
    let mut any = false;
    let mut i: usize = 0;
    proof {
        assert(ls.take(0) =~= Seq::<Seq<char>>::empty());
    }
    while i < lines.len()
        invariant
            i <= lines.len(),
            lines_view(lines@) == ls,
            ls == split_lines(text@),
            l == pairs_view(lib@),
            d0 == pairs_view(old(defs)@),
            s0 == blocks_view(old(stack)@),
            process(l, fuel as nat, d0, s0, ls.take(i as int), index) == Ok::<(DefineList, BlockStack, Seq<Seq<char>>), ShaderError>(
                (pairs_view(defs@), blocks_view(stack@), outs),
            ),
            out@ == join_lines(outs),
            any == (outs.len() > 0),
        decreases lines.len() - i,
    {
        proof {
            let t = ls.take(i as int + 1);
            assert(t.drop_last() =~= ls.take(i as int));
            assert(t.last() == lines@[i as int]@);
        }
        let ghost dv = pairs_view(defs@);
        let ghost sv = blocks_view(stack@);
        match step_line(lib, fuel, defs, stack, &lines[i], index) {
            Err(e) => {
                proof {
                    assert(step(l, fuel as nat, dv, sv, ls[i as int], index) == Err::<(DefineList, BlockStack, Option<Seq<char>>), ShaderError>(e));
                    assert(process(l, fuel as nat, d0, s0, ls.take(i as int + 1), index) == Err::<(DefineList, BlockStack, Seq<Seq<char>>), ShaderError>(e));
                    lemma_process_err(l, fuel as nat, d0, s0, ls, i as int + 1, index);
                }
                return Err(e);
            },
            Ok(o) => {
                match o {
                    Some(piece) => {
                        if any {
                            out.push('\n');
                        }
                        append_chars(&mut out, &piece);
                        proof {
                            let no = outs.push(piece@);
                            if outs.len() > 0 {
                                assert(no.drop_last() =~= outs);
                                assert(out@ =~= join_lines(outs) + seq!['\n'] + piece@);
                            } else {
                                assert(out@ =~= piece@);
                            }
                            outs = no;
                        }
                        any = true;
                    },
                    None => {},
                }
            },
        }
        i = i + 1;
    }
    proof {
        assert(ls.take(lines.len() as int) =~= ls);
    }
    Ok(out)
}

fn chars_of(s: &str) -> (r: Vec<char>)
    ensures
        r@ == s@,
{
    let n = s.unicode_len();
    let mut out: Vec<char> = Vec::new();
    let mut i: usize = 0;
    while i < n
        invariant
            n == s@.len(),
            i <= n,
            out@ == s@.take(i as int),
        decreases n - i,
    {
        out.push(s.get_char(i));
        i = i + 1;
        assert(out@ =~= s@.take(i as int));
    }
    assert(s@.take(n as int) =~= s@);
    out
}

/// Relies on std's `FromIterator<&char> for String`: the string holds exactly
/// the given characters, in order.
#[verifier::external_body]
fn string_from_chars(v: &Vec<char>) -> (r: String)
    ensures
        r@ == v@,
{
    v.iter().collect()
}

/// A `#define / #ifdef / #elseif / #else / #endif / #include` preprocessor for
/// shader source, with a library of includable sources.
pub struct ShaderParser {
    defines: Vec<(Vec<char>, Vec<char>)>,
    ifdef_stack: Vec<IfdefState>,
    library: Vec<(Vec<char>, Vec<char>)>,
}

impl ShaderParser {
    pub closed spec fn defines_view(&self) -> DefineList {
        pairs_view(self.defines@)
    }

    pub closed spec fn blocks(&self) -> BlockStack {
        blocks_view(self.ifdef_stack@)
    }

    pub closed spec fn library_view(&self) -> Library {
        pairs_view(self.library@)
    }

    pub fn new() -> (r: ShaderParser)
        ensures
            r.defines_view() == Seq::<(Seq<char>, Seq<char>)>::empty(),
            r.blocks() == Seq::<(Seq<char>, bool, bool)>::empty(),
            r.library_view() == Seq::<(Seq<char>, Seq<char>)>::empty(),
    {
        let r = ShaderParser { defines: Vec::new(), ifdef_stack: Vec::new(), library: Vec::new() };
        proof {
            assert(r.defines_view() =~= Seq::<(Seq<char>, Seq<char>)>::empty());
            assert(r.blocks() =~= Seq::<(Seq<char>, bool, bool)>::empty());
            assert(r.library_view() =~= Seq::<(Seq<char>, Seq<char>)>::empty());
        }
        r
    }

    /// Makes `source` includable as `#include <name>`; a later entry with the
    /// same name takes precedence.
    pub fn add_library_entry(&mut self, name: &str, source: &str)
        ensures
            final(self).library_view() == old(self).library_view().push((name@, source@)),
            final(self).defines_view() == old(self).defines_view(),
            final(self).blocks() == old(self).blocks(),
    {
        let entry = (chars_of(name), chars_of(source));
        self.library.push(entry);
        proof {
            assert(final(self).library_view() =~= old(self).library_view().push((name@, source@)));
        }
    }

    /// Whether `name` has been defined.
    pub fn is_defined(&self, name: &str) -> (r: bool)
        ensures
            r == is_defined(self.defines_view(), name@),
    {
        let n = chars_of(name);
        defined_exec(&self.defines, &n)
    }

    /// Preprocesses `shader`; includes may nest as deep as the library is long.
    pub fn parse_shader(&mut self, shader: &str) -> (r: Result<String, ShaderError>)
        ensures
            final(self).library_view() == old(self).library_view(),
            match preprocess(old(self).library_view(), old(self).library_view().len(), old(self).defines_view(), old(self).blocks(), shader@) {
                Ok((d, s, out)) => r is Ok && r.unwrap()@ == out && final(self).defines_view() == d && final(self).blocks() == s,
                Err(e) => r == Err::<String, ShaderError>(e),
            },
    {
        let text = chars_of(shader);
        let fuel = self.library.len();
        match process_text(&self.library, fuel, &mut self.defines, &mut self.ifdef_stack, &text, 0) {
            Ok(out) => Ok(string_from_chars(&out)),
            Err(e) => Err(e),
        }
    }

    /// Handles one line: `Ok(Some(text))` for output, `Ok(None)` for a
    /// directive or a line inside an inactive block.
    pub fn handle_line(&mut self, line: &str, line_index: usize) -> (r: Result<Option<String>, ShaderError>)
        ensures
            final(self).library_view() == old(self).library_view(),
            match step(old(self).library_view(), old(self).library_view().len(), old(self).defines_view(), old(self).blocks(), line@, line_index) {
                Ok((d, s, o)) => r is Ok && final(self).defines_view() == d && final(self).blocks() == s && match r.unwrap() {
                    Some(t) => o == Some(t@),
                    None => o is None,
                },
                Err(e) => r == Err::<Option<String>, ShaderError>(e),
            },
    {
        let text = chars_of(line);
        let fuel = self.library.len();
        match step_line(&self.library, fuel, &mut self.defines, &mut self.ifdef_stack, &text, line_index) {
            Ok(Some(out)) => Ok(Some(string_from_chars(&out))),
            Ok(None) => Ok(None),
            Err(e) => Err(e),
        }
    }
}

} // verus!
