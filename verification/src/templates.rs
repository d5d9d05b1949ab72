//! The purpose-built template engine used for the lobby page and for
//! `game.html`: `{% include %}`, `{% set %}` (dropped), nested
//! `{% if %}…{% else %}…{% end %}` and `{{ expr }}` substitution.
//!
//! Each pass is specified by a spec function over character sequences;
//! the executable passes are proved equal to them.

use vstd::prelude::*;

use crate::table::Table;
use crate::text::{
    chars_of, contains_seq, find_chars, find_from, lemma_find_from, lemma_find_from_first,
    lemma_find_from_shift, lemma_not_occurs_at, occurs_at, occurs_at_exec,
    push_all, push_range, slice_of, string_of, trim, trimmed_slice,
};

verus! {

/// `{% include `
pub open spec fn p_include() -> Seq<char> {
    seq!['{', '%', ' ', 'i', 'n', 'c', 'l', 'u', 'd', 'e', ' ']
}

/// `%}`
pub open spec fn p_tag_close() -> Seq<char> {
    seq!['%', '}']
}

/// `{% set `
pub open spec fn p_set() -> Seq<char> {
    seq!['{', '%', ' ', 's', 'e', 't', ' ']
}

/// `{% if `
pub open spec fn p_if() -> Seq<char> {
    seq!['{', '%', ' ', 'i', 'f', ' ']
}

/// `{% else %}`
pub open spec fn p_else() -> Seq<char> {
    seq!['{', '%', ' ', 'e', 'l', 's', 'e', ' ', '%', '}']
}

/// `{% end %}`
pub open spec fn p_end() -> Seq<char> {
    seq!['{', '%', ' ', 'e', 'n', 'd', ' ', '%', '}']
}

/// `{{`
pub open spec fn p_expr_open() -> Seq<char> {
    seq!['{', '{']
}

/// `}}`
pub open spec fn p_expr_close() -> Seq<char> {
    seq!['}', '}']
}

/// `static_url("`
pub open spec fn p_static_url() -> Seq<char> {
    seq!['s', 't', 'a', 't', 'i', 'c', '_', 'u', 'r', 'l', '(', '"']
}

/// `")`
pub open spec fn p_call_end() -> Seq<char> {
    seq!['"', ')']
}

/// `/static/`
pub open spec fn p_static_dir() -> Seq<char> {
    seq!['/', 's', 't', 'a', 't', 'i', 'c', '/']
}

/// `getattr(config, "`
pub open spec fn p_getattr() -> Seq<char> {
    seq!['g', 'e', 't', 'a', 't', 't', 'r', '(', 'c', 'o', 'n', 'f', 'i', 'g', ',', ' ', '"']
}

fn pat_include() -> (r: Vec<char>)
    ensures
        r@ == p_include(),
{
    let r = vec!['{', '%', ' ', 'i', 'n', 'c', 'l', 'u', 'd', 'e', ' '];
    assert(r@ =~= p_include());
    r
}

fn pat_tag_close() -> (r: Vec<char>)
    ensures
        r@ == p_tag_close(),
{
    let r = vec!['%', '}'];
    assert(r@ =~= p_tag_close());
    r
}

fn pat_set() -> (r: Vec<char>)
    ensures
        r@ == p_set(),
{
    let r = vec!['{', '%', ' ', 's', 'e', 't', ' '];
    assert(r@ =~= p_set());
    r
}

fn pat_if() -> (r: Vec<char>)
    ensures
        r@ == p_if(),
{
    let r = vec!['{', '%', ' ', 'i', 'f', ' '];
    assert(r@ =~= p_if());
    r
}

fn pat_else() -> (r: Vec<char>)
    ensures
        r@ == p_else(),
{
    let r = vec!['{', '%', ' ', 'e', 'l', 's', 'e', ' ', '%', '}'];
    assert(r@ =~= p_else());
    r
}

fn pat_end() -> (r: Vec<char>)
    ensures
        r@ == p_end(),
{
    let r = vec!['{', '%', ' ', 'e', 'n', 'd', ' ', '%', '}'];
    assert(r@ =~= p_end());
    r
}

fn pat_expr_open() -> (r: Vec<char>)
    ensures
        r@ == p_expr_open(),
{
    let r = vec!['{', '{'];
    assert(r@ =~= p_expr_open());
    r
}

fn pat_expr_close() -> (r: Vec<char>)
    ensures
        r@ == p_expr_close(),
{
    let r = vec!['}', '}'];
    assert(r@ =~= p_expr_close());
    r
}

fn pat_static_url() -> (r: Vec<char>)
    ensures
        r@ == p_static_url(),
{
    let r = vec!['s', 't', 'a', 't', 'i', 'c', '_', 'u', 'r', 'l', '(', '"'];
    assert(r@ =~= p_static_url());
    r
}

fn pat_call_end() -> (r: Vec<char>)
    ensures
        r@ == p_call_end(),
{
    let r = vec!['"', ')'];
    assert(r@ =~= p_call_end());
    r
}

fn pat_static_dir() -> (r: Vec<char>)
    ensures
        r@ == p_static_dir(),
{
    let r = vec!['/', 's', 't', 'a', 't', 'i', 'c', '/'];
    assert(r@ =~= p_static_dir());
    r
}

fn pat_getattr() -> (r: Vec<char>)
    ensures
        r@ == p_getattr(),
{
    let r = vec!['g', 'e', 't', 'a', 't', 't', 'r', '(', 'c', 'o', 'n', 'f', 'i', 'g', ',', ' ', '"'];
    assert(r@ =~= p_getattr());
    r
}

} // verus!

verus! {

/// How deep `{% include %}` may nest before rendering gives up (a template
/// that includes itself would otherwise never finish).
pub const MAX_INCLUDE_DEPTH: usize = 16;

/// Why rendering failed (spec-level view of [`TemplateError`]).
pub enum TemplateFault {
    UnterminatedIfTag,
    UnterminatedIfBlock,
    NotFound(Seq<char>),
    IncludeTooDeep,
}

/// Why rendering failed.
#[derive(Debug, Clone, PartialEq, Eq)]
pub enum TemplateError {
    /// `{% if ` without a closing `%}`.
    UnterminatedIfTag,
    /// `{% if … %}` without a matching `{% end %}`.
    UnterminatedIfBlock,
    /// An included (or requested) template is not in the library.
    NotFound(String),
    /// Includes nest deeper than [`MAX_INCLUDE_DEPTH`].
    IncludeTooDeep,
}

impl View for TemplateError {
    type V = TemplateFault;

    open spec fn view(&self) -> TemplateFault {
        match self {
            TemplateError::UnterminatedIfTag => TemplateFault::UnterminatedIfTag,
            TemplateError::UnterminatedIfBlock => TemplateFault::UnterminatedIfBlock,
            TemplateError::NotFound(n) => TemplateFault::NotFound(n@),
            TemplateError::IncludeTooDeep => TemplateFault::IncludeTooDeep,
        }
    }
}

/// Spec view of an exec rendering result.
pub open spec fn rview(r: Result<Vec<char>, TemplateError>) -> Result<Seq<char>, TemplateFault> {
    match r {
        Ok(v) => Ok(v@),
        Err(e) => Err(e@),
    }
}

/// Spec view of a rendering result as a `String`.
pub open spec fn sview(r: Result<String, TemplateError>) -> Result<Seq<char>, TemplateFault> {
    match r {
        Ok(v) => Ok(v@),
        Err(e) => Err(e@),
    }
}

/// `out` followed by whatever `r` produced (errors pass through).
pub open spec fn prepend(out: Seq<char>, r: Result<Seq<char>, TemplateFault>) -> Result<
    Seq<char>,
    TemplateFault,
> {
    match r {
        Ok(x) => Ok(out + x),
        Err(e) => Err(e),
    }
}

/// Values the template may refer to: booleans for `{% if %}` and strings
/// for `{{ name }}`.
#[derive(Debug)]
pub struct TemplateContext {
    bools: Table<bool>,
    strings: Table<String>,
}

impl TemplateContext {
    pub closed spec fn bool_view(&self) -> Map<Seq<char>, bool> {
        self.bools@
    }

    pub closed spec fn string_view(&self) -> Map<Seq<char>, Seq<char>> {
        Map::new(|k: Seq<char>| self.strings@.contains_key(k), |k: Seq<char>| self.strings@[k]@)
    }

    /// The boolean named `k` (absent names are false).
    pub open spec fn flag(&self, k: Seq<char>) -> bool {
        if self.bool_view().contains_key(k) {
            self.bool_view()[k]
        } else {
            false
        }
    }

    /// The string named `k` (absent names are empty).
    pub open spec fn text_of(&self, k: Seq<char>) -> Seq<char> {
        if self.string_view().contains_key(k) {
            self.string_view()[k]
        } else {
            Seq::empty()
        }
    }

    pub fn new() -> (r: Self)
        ensures
            r.bool_view() == Map::<Seq<char>, bool>::empty(),
            r.string_view() == Map::<Seq<char>, Seq<char>>::empty(),
    {
        let r = TemplateContext { bools: Table::new(), strings: Table::new() };
        assert(r.string_view() =~= Map::<Seq<char>, Seq<char>>::empty());
        r
    }

    /// Sets the boolean `key`.
    pub fn with_bool(self, key: &str, value: bool) -> (r: Self)
        ensures
            r.bool_view() == self.bool_view().insert(key@, value),
            r.string_view() == self.string_view(),
    {
        let TemplateContext { mut bools, strings } = self;
        bools.insert(String::from_str(key), value);
        TemplateContext { bools, strings }
    }

    /// Sets the string `key`.
    pub fn with_string(self, key: &str, value: &str) -> (r: Self)
        ensures
            r.bool_view() == self.bool_view(),
            r.string_view() == self.string_view().insert(key@, value@),
    {
        let TemplateContext { bools, mut strings } = self;
        let ghost old_strings = strings@;
        let v = String::from_str(value);
        strings.insert(String::from_str(key), v);
        let r = TemplateContext { bools, strings };
        assert(r.string_view() =~= self.string_view().insert(key@, value@));
        r
    }

    fn get_flag(&self, name: &Vec<char>) -> (r: bool)
        ensures
            r == self.flag(name@),
    {
        let k = string_of(name);
        match self.bools.get(&k) {
            Some(b) => *b,
            None => false,
        }
    }

    fn get_text(&self, name: &Vec<char>) -> (r: Vec<char>)
        ensures
            r@ == self.text_of(name@),
    {
        let k = string_of(name);
        match self.strings.get(&k) {
            Some(v) => chars_of(v.as_str()),
            None => Vec::new(),
        }
    }
}

impl Default for TemplateContext {
    fn default() -> (r: Self)
        ensures
            r.bool_view() == Map::<Seq<char>, bool>::empty(),
            r.string_view() == Map::<Seq<char>, Seq<char>>::empty(),
    {
        TemplateContext::new()
    }
}

/// The templates that `{% include %}` (and [`render_embedded`]) can name,
/// by file name.
#[derive(Debug)]
pub struct TemplateLibrary {
    sources: Table<String>,
}

impl TemplateLibrary {
    pub closed spec fn source_view(&self) -> Map<Seq<char>, Seq<char>> {
        Map::new(|k: Seq<char>| self.sources@.contains_key(k), |k: Seq<char>| self.sources@[k]@)
    }

    pub fn new() -> (r: Self)
        ensures
            r.source_view() == Map::<Seq<char>, Seq<char>>::empty(),
    {
        let r = TemplateLibrary { sources: Table::new() };
        assert(r.source_view() =~= Map::<Seq<char>, Seq<char>>::empty());
        r
    }

    /// Adds (or replaces) the template `name`.
    pub fn insert(&mut self, name: &str, source: &str)
        ensures
            final(self).source_view() == old(self).source_view().insert(name@, source@),
    {
        self.sources.insert(String::from_str(name), String::from_str(source));
        assert(self.source_view() =~= old(self).source_view().insert(name@, source@));
    }

    fn lookup(&self, name: &Vec<char>) -> (r: Option<Vec<char>>)
        ensures
            match r {
                Some(v) => self.source_view().contains_key(name@) && v@ == self.source_view()[name@],
                None => !self.source_view().contains_key(name@),
            },
    {
        let k = string_of(name);
        match self.sources.get(&k) {
            Some(v) => Some(chars_of(v.as_str())),
            None => None,
        }
    }
}

} // verus!

verus! {

/// `s[pos..]` with every `{% set … %}` tag removed (an unterminated tag and
/// everything after it is kept).
pub open spec fn strip_spec(s: Seq<char>, pos: int) -> Seq<char>
    decreases s.len() - pos,
    when 0 <= pos <= s.len()
{
    match find_from(s, p_set(), pos) {
        None => s.subrange(pos, s.len() as int),
        Some(start) => match find_from(s, p_tag_close(), start) {
            None => s.subrange(pos, s.len() as int),
            Some(e) => {
                proof {
                    lemma_find_from(s, p_set(), pos);
                    lemma_find_from(s, p_tag_close(), start);
                }
                s.subrange(pos, start) + strip_spec(s, e + 2)
            },
        },
    }
}

/// Where the `{% if %}` block whose body starts at `idx` ends, given `depth`
/// open blocks: `(end_tag_start, after_end_tag)`.
pub open spec fn extract_spec(s: Seq<char>, idx: int, depth: int) -> Option<(int, int)>
    decreases s.len() - idx,
    when 0 <= idx <= s.len()
{
    let ni = find_from(s, p_if(), idx);
    let ne = find_from(s, p_end(), idx);
    if ne is None {
        None
    } else if ni is Some && ni->0 < ne->0 {
        proof {
            lemma_find_from(s, p_if(), idx);
        }
        extract_spec(s, ni->0 + 6, depth + 1)
    } else if depth <= 1 {
        Some((ne->0, ne->0 + 9))
    } else {
        proof {
            lemma_find_from(s, p_end(), idx);
        }
        extract_spec(s, ne->0 + 9, depth - 1)
    }
}

/// Where a block body splits on an `{% else %}` at nesting depth zero,
/// scanning from `idx` with `depth` nested blocks open. At depth zero an
/// `{% else %}` before the next `{% if` splits the body, and an `{% end %}`
/// before the next `{% if` ends the search; inside nested blocks, whichever
/// of the next `{% if` and `{% end %}` comes first opens or closes one, so
/// nested `{% if %}…{% end %}` pairs (and their own `{% else %}`) are
/// skipped.
pub open spec fn split_spec(b: Seq<char>, idx: int, depth: int) -> Option<int>
    decreases b.len() - idx,
    when 0 <= idx <= b.len()
{
    if idx >= b.len() {
        None
    } else {
        let ni = find_from(b, p_if(), idx);
        let ep = find_from(b, p_else(), idx);
        let np = find_from(b, p_end(), idx);
        if depth == 0 {
            if ep is Some && (ni is None || ep->0 < ni->0) {
                ep
            } else if ni is None {
                None
            } else if np is Some && np->0 < ni->0 {
                None
            } else {
                proof {
                    lemma_find_from(b, p_if(), idx);
                }
                split_spec(b, ni->0 + 6, depth + 1)
            }
        } else if np is Some && (ni is None || np->0 < ni->0) {
            proof {
                lemma_find_from(b, p_end(), idx);
            }
            split_spec(b, np->0 + 9, depth - 1)
        } else if ni is Some {
            proof {
                lemma_find_from(b, p_if(), idx);
            }
            split_spec(b, ni->0 + 6, depth + 1)
        } else {
            None
        }
    }
}

/// The part of a block body that is kept when its condition is `cond`.
pub open spec fn branch_spec(body: Seq<char>, cond: bool) -> Seq<char> {
    match split_spec(body, 0, 0) {
        Some(sp) => if cond {
            body.subrange(0, sp)
        } else {
            body.subrange(sp + 10, body.len() as int)
        },
        None => if cond {
            body
        } else {
            Seq::empty()
        },
    }
}

/// The name an `{% if %}` condition tests: `x` in
/// `getattr(config, "x", …)`, otherwise the whole expression.
pub open spec fn condition_name(expr: Seq<char>) -> Seq<char> {
    if occurs_at(expr, p_getattr(), 0) {
        let rest = expr.subrange(17, expr.len() as int);
        match find_from(rest, seq!['"'], 0) {
            Some(q) => rest.subrange(0, q),
            None => rest,
        }
    } else {
        expr
    }
}

/// The value of a `{{ expr }}`: `static_url("p")` becomes `/static/p`,
/// a name becomes its string (empty if unset).
pub open spec fn expression_value(expr: Seq<char>, ctx: TemplateContext) -> Seq<char> {
    if expr.len() >= 14 && occurs_at(expr, p_static_url(), 0) && occurs_at(
        expr,
        p_call_end(),
        expr.len() - 2,
    ) {
        p_static_dir() + expr.subrange(12, expr.len() - 2)
    } else {
        ctx.text_of(expr)
    }
}

/// `s[pos..]` with every `{{ expr }}` replaced by its value (an unclosed
/// `{{` and everything after it is kept).
pub open spec fn subst_spec(s: Seq<char>, pos: int, ctx: TemplateContext) -> Seq<char>
    decreases s.len() - pos,
    when 0 <= pos <= s.len()
{
    match find_from(s, p_expr_open(), pos) {
        None => s.subrange(pos, s.len() as int),
        Some(st) => match find_from(s, p_expr_close(), st) {
            None => s.subrange(pos, s.len() as int),
            Some(e) => {
                proof {
                    lemma_find_from(s, p_expr_open(), pos);
                    lemma_find_from(s, p_expr_close(), st);
                }
                s.subrange(pos, st) + expression_value(trim(s.subrange(st + 2, e)), ctx)
                    + subst_spec(s, e + 2, ctx)
            },
        },
    }
}

} // verus!

verus! {

pub proof fn lemma_extract_range(s: Seq<char>, idx: int, depth: int)
    requires
        0 <= idx <= s.len(),
    ensures
        extract_spec(s, idx, depth) matches Some((be, after)) ==> idx <= be && after == be + 9
            && after <= s.len(),
    decreases s.len() - idx,
{
    let ni = find_from(s, p_if(), idx);
    let ne = find_from(s, p_end(), idx);
    lemma_find_from(s, p_if(), idx);
    lemma_find_from(s, p_end(), idx);
    if ne is None {
    } else if ni is Some && ni->0 < ne->0 {
        lemma_extract_range(s, ni->0 + 6, depth + 1);
    } else if depth <= 1 {
    } else {
        lemma_extract_range(s, ne->0 + 9, depth - 1);
    }
}

pub proof fn lemma_split_range(b: Seq<char>, idx: int, depth: int)
    requires
        0 <= idx <= b.len(),
    ensures
        split_spec(b, idx, depth) matches Some(sp) ==> idx <= sp && sp + 10 <= b.len(),
    decreases b.len() - idx,
{
    if idx < b.len() {
        let ni = find_from(b, p_if(), idx);
        let ep = find_from(b, p_else(), idx);
        let np = find_from(b, p_end(), idx);
        lemma_find_from(b, p_if(), idx);
        lemma_find_from(b, p_else(), idx);
        lemma_find_from(b, p_end(), idx);
        if depth == 0 {
            if ep is Some && (ni is None || ep->0 < ni->0) {
            } else if ni is None {
            } else if np is Some && np->0 < ni->0 {
            } else {
                lemma_split_range(b, ni->0 + 6, depth + 1);
            }
        } else if np is Some && (ni is None || np->0 < ni->0) {
            lemma_split_range(b, np->0 + 9, depth - 1);
        } else if ni is Some {
            lemma_split_range(b, ni->0 + 6, depth + 1);
        }
    }
}

pub proof fn lemma_branch_len(body: Seq<char>, cond: bool)
    ensures
        branch_spec(body, cond).len() <= body.len(),
{
    lemma_split_range(body, 0, 0);
}

/// `s[pos..]` with every `{% if c %}…[{% else %}…]{% end %}` block replaced
/// by the kept branch (itself evaluated the same way).
pub open spec fn cond_spec(s: Seq<char>, pos: int, ctx: TemplateContext) -> Result<
    Seq<char>,
    TemplateFault,
>
    decreases s.len(), s.len() - pos,
    when 0 <= pos <= s.len()
{
    match find_from(s, p_if(), pos) {
        None => Ok(s.subrange(pos, s.len() as int)),
        Some(i0) => match find_from(s, p_tag_close(), i0) {
            None => Err(TemplateFault::UnterminatedIfTag),
            Some(e) => {
                let cond = ctx.flag(condition_name(trim(s.subrange(i0 + 6, e))));
                match extract_spec(s, e + 2, 1) {
                    None => Err(TemplateFault::UnterminatedIfBlock),
                    Some((be, after)) => {
                        proof {
                            lemma_find_from(s, p_if(), pos);
                            lemma_find_from(s, p_tag_close(), i0);
                            lemma_extract_range(s, e + 2, 1);
                            lemma_branch_len(s.subrange(e + 2, be), cond);
                        }
                        let chosen = branch_spec(s.subrange(e + 2, be), cond);
                        match cond_spec(chosen, 0, ctx) {
                            Err(x) => Err(x),
                            Ok(c) => match cond_spec(s, after, ctx) {
                                Err(x) => Err(x),
                                Ok(r) => Ok(s.subrange(pos, i0) + c + r),
                            },
                        }
                    },
                }
            },
        },
    }
}

} // verus!

verus! {

/// Renders `src`: includes are expanded (each included template rendered
/// in full, at most `fuel` levels deep), then `{% set %}` tags dropped,
/// conditionals evaluated and expressions substituted.
pub open spec fn render_spec(
    src: Seq<char>,
    ctx: TemplateContext,
    lib: TemplateLibrary,
    fuel: nat,
) -> Result<Seq<char>, TemplateFault>
    decreases fuel, src.len(), 1nat,
{
    match expand_spec(src, 0, ctx, lib, fuel) {
        Err(x) => Err(x),
        Ok(e) => {
            let stripped = strip_spec(e, 0);
            match cond_spec(stripped, 0, ctx) {
                Err(x) => Err(x),
                Ok(c) => Ok(subst_spec(c, 0, ctx)),
            }
        },
    }
}

/// `s[pos..]` with each `{% include name %}` replaced by the rendering of
/// the library's template `name`.
pub open spec fn expand_spec(
    s: Seq<char>,
    pos: int,
    ctx: TemplateContext,
    lib: TemplateLibrary,
    fuel: nat,
) -> Result<Seq<char>, TemplateFault>
    decreases fuel, s.len() - pos, 0nat,
    when 0 <= pos <= s.len()
{
    match find_from(s, p_include(), pos) {
        None => Ok(s.subrange(pos, s.len() as int)),
        Some(start) => match find_from(s, p_tag_close(), start) {
            None => Ok(s.subrange(pos, s.len() as int)),
            Some(e) => {
                let name = trim(s.subrange(start + 11, e));
                if fuel == 0 {
                    Err(TemplateFault::IncludeTooDeep)
                } else if !lib.source_view().contains_key(name) {
                    Err(TemplateFault::NotFound(name))
                } else {
                    match render_spec(lib.source_view()[name], ctx, lib, (fuel - 1) as nat) {
                        Err(x) => Err(x),
                        Ok(inc) => {
                            proof {
                                lemma_find_from(s, p_include(), pos);
                                lemma_find_from(s, p_tag_close(), start);
                            }
                            match expand_spec(s, e + 2, ctx, lib, fuel) {
                                Err(x) => Err(x),
                                Ok(r) => Ok(s.subrange(pos, start) + inc + r),
                            }
                        },
                    }
                }
            },
        },
    }
}

} // verus!

verus! {

/// A pattern that starts with `{` is not found in text without `{`.
proof fn lemma_no_brace_no_tag(s: Seq<char>, p: Seq<char>, pos: int)
    requires
        0 <= pos,
        p.len() > 0,
        p[0] == '{',
        forall|i: int| 0 <= i < s.len() ==> s[i] != '{',
    ensures
        find_from(s, p, pos) is None,
{
    lemma_find_from(s, p, pos);
    if find_from(s, p, pos) is Some {
        let i = find_from(s, p, pos)->0;
        assert(s.subrange(i, i + p.len())[0] == s[i]);
    }
}

/// Substituting past a prefix is substituting the rest.
proof fn lemma_subst_shift(pre: Seq<char>, b: Seq<char>, j: int, ctx: TemplateContext)
    requires
        0 <= j <= b.len(),
    ensures
        subst_spec(pre + b, pre.len() + j, ctx) == subst_spec(b, j, ctx),
    decreases b.len() - j,
{
    let s = pre + b;
    let n = pre.len();
    lemma_find_from_shift(pre, b, p_expr_open(), j);
    lemma_find_from(b, p_expr_open(), j);
    match find_from(b, p_expr_open(), j) {
        None => {
            assert(s.subrange(n + j, s.len() as int) =~= b.subrange(j, b.len() as int));
        },
        Some(st) => {
            lemma_find_from_shift(pre, b, p_expr_close(), st);
            lemma_find_from(b, p_expr_close(), st);
            match find_from(b, p_expr_close(), st) {
                None => {
                    assert(s.subrange(n + j, s.len() as int) =~= b.subrange(j, b.len() as int));
                },
                Some(e) => {
                    assert(s.subrange(n + j, n + st) =~= b.subrange(j, st));
                    assert(s.subrange(n + st + 2, n + e) =~= b.subrange(st + 2, e));
                    lemma_subst_shift(pre, b, e + 2, ctx);
                    assert(n + e + 2 == n + (e + 2));
                },
            }
        },
    }
}

/// Every closed `{{ expr }}` is replaced by its value, and the text after it
/// is substituted in turn: for `a {{x}} b`, where `a` holds no `{{` (nor
/// ends with `{`) and `x` holds no `}}` (nor ends with `}`), the result is
/// `a`, the value of `x` trimmed, then `b` substituted.
pub proof fn lemma_each_expression_replaced(
    a: Seq<char>,
    x: Seq<char>,
    b: Seq<char>,
    ctx: TemplateContext,
)
    requires
        !contains_seq(a, p_expr_open()),
        !(a.len() > 0 && a.last() == '{'),
        !contains_seq(x, p_expr_close()),
        !(x.len() > 0 && x.last() == '}'),
    ensures
        subst_spec(a + p_expr_open() + x + p_expr_close() + b, 0, ctx) == a + expression_value(
            trim(x),
            ctx,
        ) + subst_spec(b, 0, ctx),
{
    let pre = a + p_expr_open() + x + p_expr_close();
    let s = pre + b;
    let na = a.len() as int;
    let nx = x.len() as int;
    lemma_find_from(a, p_expr_open(), 0);
    lemma_find_from(x, p_expr_close(), 0);
    // The first `{{` is the one after `a`.
    assert(s.subrange(na, na + 2) =~= p_expr_open());
    assert forall|k: int| 0 <= k < na implies !occurs_at(s, p_expr_open(), k) by {
        if k + 1 < na {
            if occurs_at(s, p_expr_open(), k) {
                assert(a.subrange(k, k + 2) =~= s.subrange(k, k + 2));
                assert(occurs_at(a, p_expr_open(), k));
            }
        } else {
            assert(s[k] == a.last());
            lemma_not_occurs_at(s, p_expr_open(), k);
        }
    }
    lemma_find_from_first(s, p_expr_open(), 0, na);
    // The first `}}` after it closes `x`.
    let e = na + 2 + nx;
    assert(s.subrange(e, e + 2) =~= p_expr_close());
    assert forall|k: int| na <= k < e implies !occurs_at(s, p_expr_close(), k) by {
        if k < na + 2 {
            assert(s[k] == '{');
            lemma_not_occurs_at(s, p_expr_close(), k);
        } else if k + 1 < e {
            if occurs_at(s, p_expr_close(), k) {
                assert(x.subrange(k - na - 2, k - na) =~= s.subrange(k, k + 2));
                assert(occurs_at(x, p_expr_close(), k - na - 2));
            }
        } else {
            assert(s[k] == x.last());
            lemma_not_occurs_at(s, p_expr_close(), k);
        }
    }
    lemma_find_from_first(s, p_expr_close(), na, e);
    assert(s.subrange(0, na) =~= a);
    assert(s.subrange(na + 2, e) =~= x);
    assert(pre.len() == e + 2);
    lemma_subst_shift(pre, b, 0, ctx);
    assert(pre.len() + 0 == e + 2);
}

/// A pattern that starts with `{%` is not found in text without `{%`.
proof fn lemma_no_tag_open(s: Seq<char>, p: Seq<char>, pos: int)
    requires
        0 <= pos,
        p.len() >= 2,
        p[0] == '{',
        p[1] == '%',
        !contains_seq(s, seq!['{', '%']),
    ensures
        find_from(s, p, pos) is None,
{
    lemma_find_from(s, p, pos);
    lemma_find_from(s, seq!['{', '%'], 0);
    if find_from(s, p, pos) is Some {
        let i = find_from(s, p, pos)->0;
        assert(s.subrange(i, i + p.len())[0] == '{');
        assert(s.subrange(i, i + p.len())[1] == '%');
        assert(s.subrange(i, i + 2) =~= seq!['{', '%']);
        assert(occurs_at(s, seq!['{', '%'], i));
    }
}

/// A template without `{%` tags renders as its expressions substituted,
/// whatever the library: `{{ a }} {{ b }}` renders to the value of `a`, a
/// space, and the value of `b` (see [`lemma_each_expression_replaced`]).
pub proof fn lemma_tagless_renders_substituted(
    src: Seq<char>,
    ctx: TemplateContext,
    lib: TemplateLibrary,
    fuel: nat,
)
    requires
        !contains_seq(src, seq!['{', '%']),
    ensures
        render_spec(src, ctx, lib, fuel) == Ok::<Seq<char>, TemplateFault>(subst_spec(src, 0, ctx)),
{
    lemma_no_tag_open(src, p_include(), 0);
    lemma_no_tag_open(src, p_set(), 0);
    lemma_no_tag_open(src, p_if(), 0);
    assert(src.subrange(0, src.len() as int) =~= src);
}

/// A template without `{` has no tags and renders as itself, whatever the
/// context and library.
pub proof fn lemma_plain_text_renders_unchanged(
    src: Seq<char>,
    ctx: TemplateContext,
    lib: TemplateLibrary,
    fuel: nat,
)
    requires
        forall|i: int| 0 <= i < src.len() ==> src[i] != '{',
    ensures
        render_spec(src, ctx, lib, fuel) == Ok::<Seq<char>, TemplateFault>(src),
{
    lemma_no_brace_no_tag(src, p_include(), 0);
    lemma_no_brace_no_tag(src, p_set(), 0);
    lemma_no_brace_no_tag(src, p_if(), 0);
    lemma_no_brace_no_tag(src, p_expr_open(), 0);
    assert(src.subrange(0, src.len() as int) =~= src);
}

} // verus!

verus! {

fn strip_set_tags(s: &Vec<char>) -> (r: Vec<char>)
    ensures
        r@ == strip_spec(s@, 0),
{
    let pset = pat_set();
    let pclose = pat_tag_close();
    let mut out: Vec<char> = Vec::new();
    let mut pos: usize = 0;
    loop
        invariant
            pos <= s@.len(),
            pset@ == p_set(),
            pclose@ == p_tag_close(),
            strip_spec(s@, 0) == out@ + strip_spec(s@, pos as int),
        decreases s@.len() - pos,
    {
        proof {
            lemma_find_from(s@, p_set(), pos as int);
        }
        match find_chars(s, &pset, pos) {
            None => {
                push_range(&mut out, s, pos, s.len());
                return out;
            },
            Some(start) => {
                proof {
                    lemma_find_from(s@, p_tag_close(), start as int);
                }
                match find_chars(s, &pclose, start) {
                    None => {
                        push_range(&mut out, s, pos, s.len());
                        return out;
                    },
                    Some(e) => {
                        let ghost old_out = out@;
                        push_range(&mut out, s, pos, start);
                        assert(strip_spec(s@, 0) == out@ + strip_spec(s@, e + 2)) by {
                            assert(old_out + (s@.subrange(pos as int, start as int) + strip_spec(
                                s@,
                                e + 2,
                            )) =~= out@ + strip_spec(s@, e + 2));
                        }
                        assert(p_tag_close().len() == 2 && p_expr_close().len() == 2);
                        assert(e + 2 <= s.len());
                        pos = e + 2;
                    },
                }
            },
        }
    }
}

fn condition_name_exec(expr: &Vec<char>) -> (r: Vec<char>)
    ensures
        r@ == condition_name(expr@),
{
    let pg = pat_getattr();
    if occurs_at_exec(expr, &pg, 0) {
        let rest = slice_of(expr, 17, expr.len());
        let quote = vec!['"'];
        assert(quote@ =~= seq!['"']);
        match find_chars(&rest, &quote, 0) {
            Some(q) => {
                proof {
                    lemma_find_from(rest@, seq!['"'], 0);
                }
                slice_of(&rest, 0, q)
            },
            None => rest,
        }
    } else {
        slice_of(expr, 0, expr.len())
    }
}

fn expression_value_exec(expr: &Vec<char>, ctx: &TemplateContext) -> (r: Vec<char>)
    ensures
        r@ == expression_value(expr@, *ctx),
{
    let pu = pat_static_url();
    let pe = pat_call_end();
    if expr.len() >= 14 && occurs_at_exec(expr, &pu, 0) && occurs_at_exec(expr, &pe, expr.len() - 2) {
        let mut out = pat_static_dir();
        push_range(&mut out, expr, 12, expr.len() - 2);
        out
    } else {
        ctx.get_text(expr)
    }
}

fn substitute_expressions(s: &Vec<char>, ctx: &TemplateContext) -> (r: Vec<char>)
    ensures
        r@ == subst_spec(s@, 0, *ctx),
{
    let po = pat_expr_open();
    let pc = pat_expr_close();
    let mut out: Vec<char> = Vec::new();
    let mut pos: usize = 0;
    loop
        invariant
            pos <= s@.len(),
            po@ == p_expr_open(),
            pc@ == p_expr_close(),
            subst_spec(s@, 0, *ctx) == out@ + subst_spec(s@, pos as int, *ctx),
        decreases s@.len() - pos,
    {
        proof {
            lemma_find_from(s@, p_expr_open(), pos as int);
        }
        match find_chars(s, &po, pos) {
            None => {
                push_range(&mut out, s, pos, s.len());
                return out;
            },
            Some(st) => {
                proof {
                    lemma_find_from(s@, p_expr_close(), st as int);
                }
                match find_chars(s, &pc, st) {
                    None => {
                        push_range(&mut out, s, pos, s.len());
                        return out;
                    },
                    Some(e) => {
                        proof {
                            lemma_not_occurs_at(s@, p_expr_close(), st as int);
                            if st + 1 < s@.len() {
                                assert(s@.subrange(st as int, st + 2)[1] == '{');
                                lemma_not_occurs_at(s@, p_expr_close(), st + 1);
                            }
                        }
                        let ghost old_out = out@;
                        push_range(&mut out, s, pos, st);
                        let expr = trimmed_slice(s, st + 2, e);
                        let val = expression_value_exec(&expr, ctx);
                        push_all(&mut out, &val);
                        assert(subst_spec(s@, 0, *ctx) == out@ + subst_spec(s@, e + 2, *ctx)) by {
                            assert(old_out + (s@.subrange(pos as int, st as int) + val@
                                + subst_spec(s@, e + 2, *ctx)) =~= out@ + subst_spec(
                                s@,
                                e + 2,
                                *ctx,
                            ));
                        }
                        assert(p_tag_close().len() == 2 && p_expr_close().len() == 2);
                        assert(e + 2 <= s.len());
                        pos = e + 2;
                    },
                }
            },
        }
    }
}

} // verus!

verus! {

fn extract_block(s: &Vec<char>, start: usize) -> (r: Option<(usize, usize)>)
    requires
        start <= s@.len(),
    ensures
        match r {
            Some((be, after)) => extract_spec(s@, start as int, 1) == Some((be as int, after as int)),
            None => extract_spec(s@, start as int, 1) is None,
        },
{
    let pif = pat_if();
    let pend = pat_end();
    let mut depth: usize = 1;
    let mut idx: usize = start;
    loop
        invariant
            idx <= s@.len(),
            1 <= depth <= idx + 1,
            pif@ == p_if(),
            pend@ == p_end(),
            extract_spec(s@, start as int, 1) == extract_spec(s@, idx as int, depth as int),
        decreases s@.len() - idx,
    {
        proof {
            lemma_find_from(s@, p_if(), idx as int);
            lemma_find_from(s@, p_end(), idx as int);
        }
        let ni = find_chars(s, &pif, idx);
        let ne = find_chars(s, &pend, idx);
        match ne {
            None => {
                return None;
            },
            Some(e) => {
                assert(e + 9 <= s.len());
                match ni {
                    Some(i) => {
                        if i < e {
                            assert(i + 6 <= s.len());
                            depth = depth + 1;
                            idx = i + 6;
                            continue ;
                        }
                    },
                    None => {},
                }
                if depth <= 1 {
                    return Some((e, e + 9));
                }
                depth = depth - 1;
                idx = e + 9;
            },
        }
    }
}

fn split_else(b: &Vec<char>) -> (r: Option<usize>)
    ensures
        match r {
            Some(sp) => split_spec(b@, 0, 0) == Some(sp as int),
            None => split_spec(b@, 0, 0) is None,
        },
{
    let pif = pat_if();
    let pelse = pat_else();
    let pend = pat_end();
    let mut depth: usize = 0;
    let mut idx: usize = 0;
    while idx < b.len()
        invariant
            idx <= b@.len(),
            depth <= idx,
            pif@ == p_if(),
            pelse@ == p_else(),
            pend@ == p_end(),
            split_spec(b@, 0, 0) == split_spec(b@, idx as int, depth as int),
        decreases b@.len() - idx,
    {
        proof {
            lemma_find_from(b@, p_if(), idx as int);
            lemma_find_from(b@, p_else(), idx as int);
            lemma_find_from(b@, p_end(), idx as int);
        }
        let ni = find_chars(b, &pif, idx);
        let np = find_chars(b, &pend, idx);
        if depth == 0 {
            let ep = find_chars(b, &pelse, idx);
            let else_first = match ep {
                Some(e) => match ni {
                    Some(ip) => e < ip,
                    None => true,
                },
                None => false,
            };
            if else_first {
                return ep;
            }
            match ni {
                None => {
                    return None;
                },
                Some(ip) => {
                    let end_first = match np {
                        Some(n) => n < ip,
                        None => false,
                    };
                    if end_first {
                        return None;
                    }
                    assert(ip + 6 <= b.len());
                    depth = 1;
                    idx = ip + 6;
                },
            }
        } else {
            let end_first = match np {
                Some(n) => match ni {
                    Some(ip) => n < ip,
                    None => true,
                },
                None => false,
            };
            if end_first {
                let n = np.unwrap();
                assert(n + 9 <= b.len());
                depth = depth - 1;
                idx = n + 9;
            } else {
                match ni {
                    None => {
                        return None;
                    },
                    Some(ip) => {
                        assert(ip + 6 <= b.len());
                        depth = depth + 1;
                        idx = ip + 6;
                    },
                }
            }
        }
    }
    None
}

#[verifier::rlimit(60)]
#[verifier::spinoff_prover]
fn eval_conditionals(s: &Vec<char>, ctx: &TemplateContext) -> (r: Result<Vec<char>, TemplateError>)
    ensures
        rview(r) == cond_spec(s@, 0, *ctx),
    decreases s@.len(),
{
    let pif = pat_if();
    let pclose = pat_tag_close();
    let mut out: Vec<char> = Vec::new();
    let mut pos: usize = 0;
    loop
        invariant
            pos <= s@.len(),
            pif@ == p_if(),
            pclose@ == p_tag_close(),
            cond_spec(s@, 0, *ctx) == prepend(out@, cond_spec(s@, pos as int, *ctx)),
        decreases s@.len() - pos,
    {
        proof {
            lemma_find_from(s@, p_if(), pos as int);
        }
        match find_chars(s, &pif, pos) {
            None => {
                push_range(&mut out, s, pos, s.len());
                return Ok(out);
            },
            Some(i0) => {
                proof {
                    lemma_find_from(s@, p_tag_close(), i0 as int);
                }
                let ghost old_out = out@;
                push_range(&mut out, s, pos, i0);
                match find_chars(s, &pclose, i0) {
                    None => {
                        return Err(TemplateError::UnterminatedIfTag);
                    },
                    Some(e) => {
                        proof {
                            let t = s@.subrange(i0 as int, i0 + 6);
                            assert forall|k: int| i0 <= k < i0 + 6 implies !occurs_at(
                                s@,
                                p_tag_close(),
                                k,
                            ) by {
                                assert(t[k - i0] == p_if()[k - i0]);
                                if k + 1 < i0 + 6 {
                                    assert(t[k + 1 - i0] == p_if()[k + 1 - i0]);
                                }
                                lemma_not_occurs_at(s@, p_tag_close(), k);
                            }
                        }
                        assert(e + 2 <= s.len());
                        let te = e + 2;
                        let cexpr = trimmed_slice(s, i0 + 6, e);
                        let name = condition_name_exec(&cexpr);
                        let cond = ctx.get_flag(&name);
                        proof {
                            lemma_extract_range(s@, te as int, 1);
                        }
                        match extract_block(s, te) {
                            None => {
                                return Err(TemplateError::UnterminatedIfBlock);
                            },
                            Some((be, after)) => {
                                let body = slice_of(s, te, be);
                                proof {
                                    lemma_split_range(body@, 0, 0);
                                    lemma_branch_len(body@, cond);
                                }
                                let chosen = match split_else(&body) {
                                    Some(sp) => if cond {
                                        slice_of(&body, 0, sp)
                                    } else {
                                        slice_of(&body, sp + 10, body.len())
                                    },
                                    None => if cond {
                                        body
                                    } else {
                                        Vec::new()
                                    },
                                };
                                assert(chosen@ =~= branch_spec(s@.subrange(te as int, be as int), cond));
                                match eval_conditionals(&chosen, ctx) {
                                    Err(x) => {
                                        return Err(x);
                                    },
                                    Ok(c) => {
                                        let ghost mid = out@;
                                        push_all(&mut out, &c);
                                        assert(cond_spec(s@, 0, *ctx) == prepend(
                                            out@,
                                            cond_spec(s@, after as int, *ctx),
                                        )) by {
                                            match cond_spec(s@, after as int, *ctx) {
                                                Ok(rr) => {
                                                    assert(old_out + (s@.subrange(
                                                        pos as int,
                                                        i0 as int,
                                                    ) + c@ + rr) =~= out@ + rr);
                                                },
                                                Err(_) => {},
                                            }
                                        }
                                        pos = after;
                                    },
                                }
                            },
                        }
                    },
                }
            },
        }
    }
}

} // verus!

verus! {

fn render_chars(s: &Vec<char>, ctx: &TemplateContext, lib: &TemplateLibrary, fuel: usize) -> (r:
    Result<Vec<char>, TemplateError>)
    ensures
        rview(r) == render_spec(s@, *ctx, *lib, fuel as nat),
    decreases fuel, s@.len(), 1nat,
{
    match expand_includes(s, ctx, lib, fuel) {
        Err(x) => Err(x),
        Ok(e) => {
            let stripped = strip_set_tags(&e);
            match eval_conditionals(&stripped, ctx) {
                Err(x) => Err(x),
                Ok(c) => Ok(substitute_expressions(&c, ctx)),
            }
        },
    }
}

#[verifier::rlimit(60)]
#[verifier::spinoff_prover]
fn expand_includes(s: &Vec<char>, ctx: &TemplateContext, lib: &TemplateLibrary, fuel: usize) -> (r:
    Result<Vec<char>, TemplateError>)
    ensures
        rview(r) == expand_spec(s@, 0, *ctx, *lib, fuel as nat),
    decreases fuel, s@.len(), 0nat,
{
    let pinc = pat_include();
    let pclose = pat_tag_close();
    let mut out: Vec<char> = Vec::new();
    let mut pos: usize = 0;
    loop
        invariant
            pos <= s@.len(),
            pinc@ == p_include(),
            pclose@ == p_tag_close(),
            expand_spec(s@, 0, *ctx, *lib, fuel as nat) == prepend(
                out@,
                expand_spec(s@, pos as int, *ctx, *lib, fuel as nat),
            ),
        decreases s@.len() - pos,
    {
        proof {
            lemma_find_from(s@, p_include(), pos as int);
        }
        match find_chars(s, &pinc, pos) {
            None => {
                push_range(&mut out, s, pos, s.len());
                return Ok(out);
            },
            Some(start) => {
                proof {
                    lemma_find_from(s@, p_tag_close(), start as int);
                }
                match find_chars(s, &pclose, start) {
                    None => {
                        push_range(&mut out, s, pos, s.len());
                        return Ok(out);
                    },
                    Some(e) => {
                        proof {
                            let t = s@.subrange(start as int, start + 11);
                            assert forall|k: int| start <= k < start + 11 implies !occurs_at(
                                s@,
                                p_tag_close(),
                                k,
                            ) by {
                                assert(t[k - start] == p_include()[k - start]);
                                if k + 1 < start + 11 {
                                    assert(t[k + 1 - start] == p_include()[k + 1 - start]);
                                }
                                lemma_not_occurs_at(s@, p_tag_close(), k);
                            }
                        }
                        assert(e + 2 <= s.len());
                        let name = trimmed_slice(s, start + 11, e);
                        if fuel == 0 {
                            return Err(TemplateError::IncludeTooDeep);
                        }
                        match lib.lookup(&name) {
                            None => {
                                return Err(TemplateError::NotFound(string_of(&name)));
                            },
                            Some(t) => {
                                match render_chars(&t, ctx, lib, fuel - 1) {
                                    Err(x) => {
                                        return Err(x);
                                    },
                                    Ok(inc) => {
                                        let ghost old_out = out@;
                                        push_range(&mut out, s, pos, start);
                                        push_all(&mut out, &inc);
                                        assert(expand_spec(s@, 0, *ctx, *lib, fuel as nat) == prepend(
                                            out@,
                                            expand_spec(s@, e + 2, *ctx, *lib, fuel as nat),
                                        )) by {
                                            match expand_spec(s@, e + 2, *ctx, *lib, fuel as nat) {
                                                Ok(rr) => {
                                                    assert(old_out + (s@.subrange(
                                                        pos as int,
                                                        start as int,
                                                    ) + inc@ + rr) =~= out@ + rr);
                                                },
                                                Err(_) => {},
                                            }
                                        }
                                        pos = e + 2;
                                    },
                                }
                            },
                        }
                    },
                }
            },
        }
    }
}

/// Renders `source`, resolving `{% include name %}` against `lib`.
pub fn render_str(source: &str, lib: &TemplateLibrary, ctx: &TemplateContext) -> (r: Result<
    String,
    TemplateError,
>)
    ensures
        sview(r) == render_spec(source@, *ctx, *lib, MAX_INCLUDE_DEPTH as nat),
{
    let s = chars_of(source);
    match render_chars(&s, ctx, lib, MAX_INCLUDE_DEPTH) {
        Ok(v) => Ok(string_of(&v)),
        Err(x) => Err(x),
    }
}

/// Renders the library's template `name` (the lobby page's own templates
/// are compiled into the server and handed over as a library).
pub fn render_embedded(name: &str, lib: &TemplateLibrary, ctx: &TemplateContext) -> (r: Result<
    String,
    TemplateError,
>)
    ensures
        !lib.source_view().contains_key(name@) ==> sview(r) == Err::<Seq<char>, TemplateFault>(
            TemplateFault::NotFound(name@),
        ),
        lib.source_view().contains_key(name@) ==> sview(r) == render_spec(
            lib.source_view()[name@],
            *ctx,
            *lib,
            MAX_INCLUDE_DEPTH as nat,
        ),
{
    let n = chars_of(name);
    match lib.lookup(&n) {
        None => Err(TemplateError::NotFound(String::from_str(name))),
        Some(t) => match render_chars(&t, ctx, lib, MAX_INCLUDE_DEPTH) {
            Ok(v) => Ok(string_of(&v)),
            Err(x) => Err(x),
        },
    }
}

} // verus!
