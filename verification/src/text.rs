//! Character-sequence helpers shared by the parsers in this crate.

use vstd::prelude::*;

verus! {

/// `pat` occurs in `s` starting at index `i`.
pub open spec fn occurs_at(s: Seq<char>, pat: Seq<char>, i: int) -> bool {
    0 <= i && i + pat.len() <= s.len() && s.subrange(i, i + pat.len()) == pat
}

/// The first index at or after `from` where `pat` occurs in `s`.
pub open spec fn find_from(s: Seq<char>, pat: Seq<char>, from: int) -> Option<int>
    decreases s.len() + 1 - from,
{
    if from < 0 || from + pat.len() > s.len() {
        None
    } else if occurs_at(s, pat, from) {
        Some(from)
    } else {
        find_from(s, pat, from + 1)
    }
}

/// Exec counterpart of `find_from`.
pub fn find_chars(s: &Vec<char>, pat: &[char], from: usize) -> (r: Option<usize>)
    requires
        from <= s@.len(),
    ensures
        r matches Some(i) ==> find_from(s@, pat@, from as int) == Some(i as int),
        r is None ==> find_from(s@, pat@, from as int) is None,
{
    let mut i = from;
    while pat.len() <= s.len() - i
        invariant
            from <= i <= s@.len(),
            find_from(s@, pat@, from as int) == find_from(s@, pat@, i as int),
        decreases s.len() - i,
    {
        let mut j: usize = 0;
        let mut ok = true;
        while j < pat.len()
            invariant
                i + pat@.len() <= s@.len(),
                i + pat.len() <= s.len(),
                j <= pat@.len(),
                ok <==> (forall|k: int| 0 <= k < j ==> s@[i + k] == pat@[k]),
            decreases pat.len() - j,
        {
            if s[i + j] != pat[j] {
                ok = false;
            }
            j = j + 1;
        }
        if ok {
            assert(s@.subrange(i as int, i + pat@.len()) =~= pat@);
            return Some(i);
        }
        assert(!occurs_at(s@, pat@, i as int)) by {
            if occurs_at(s@, pat@, i as int) {
                assert forall|k: int| 0 <= k < pat@.len() implies s@[i + k] == pat@[k] by {
                    assert(s@.subrange(i as int, i + pat@.len())[k] == pat@[k]);
                }
            }
        }
        i = i + 1;
    }
    None
}

} // verus!

verus! {

/// The characters of `s`, in order.
pub fn chars_of(s: &str) -> (v: Vec<char>)
    ensures
        v@ == s@,
{
    let mut v: Vec<char> = Vec::new();
    for c in it: s.chars()
        invariant
            v@ == it.seq().take(it.index() as int),
            it.seq() == s@,
    {
        v.push(c);
    }
    v
}

} // verus!

verus! {

/// Collects characters into a `String` (std `FromIterator<char>`): the
/// result holds exactly the given characters, in order.
#[verifier::external_body]
pub(crate) fn string_of(v: &Vec<char>) -> (s: String)
    ensures
        s@ == v@,
{
    v.iter().collect()
}

/// Appends `s[lo..hi]` to `out`.
pub fn push_range(out: &mut Vec<char>, s: &Vec<char>, lo: usize, hi: usize)
    requires
        lo <= hi <= s@.len(),
    ensures
        final(out)@ == old(out)@ + s@.subrange(lo as int, hi as int),
{
    let mut i = lo;
    while i < hi
        invariant
            lo <= i <= hi <= s@.len(),
            out@ == old(out)@ + s@.subrange(lo as int, i as int),
        decreases hi - i,
    {
        out.push(s[i]);
        assert(s@.subrange(lo as int, i + 1) =~= s@.subrange(lo as int, i as int).push(s@[i as int]));
        i = i + 1;
    }
}

/// Appends all of `s` to `out`.
pub fn push_all(out: &mut Vec<char>, s: &Vec<char>)
    ensures
        final(out)@ == old(out)@ + s@,
{
    push_range(out, s, 0, s.len());
    assert(s@.subrange(0, s@.len() as int) =~= s@);
}

/// A copy of `s[lo..hi]`.
pub fn slice_of(s: &Vec<char>, lo: usize, hi: usize) -> (r: Vec<char>)
    requires
        lo <= hi <= s@.len(),
    ensures
        r@ == s@.subrange(lo as int, hi as int),
{
    let mut r: Vec<char> = Vec::new();
    push_range(&mut r, s, lo, hi);
    assert(Seq::<char>::empty() + s@.subrange(lo as int, hi as int) =~= s@.subrange(lo as int, hi as int));
    r
}

/// Element-wise equality of two character vectors.
pub fn chars_eq(a: &Vec<char>, b: &Vec<char>) -> (r: bool)
    ensures
        r == (a@ == b@),
{
    if a.len() != b.len() {
        return false;
    }
    let mut i: usize = 0;
    while i < a.len()
        invariant
            a@.len() == b@.len(),
            i <= a@.len(),
            forall|k: int| 0 <= k < i ==> a@[k] == b@[k],
        decreases a.len() - i,
    {
        if a[i] != b[i] {
            return false;
        }
        i = i + 1;
    }
    assert(a@ =~= b@);
    true
}

/// Whether `pat` occurs in `s` at `i` (exec counterpart of `occurs_at`).
pub fn occurs_at_exec(s: &Vec<char>, pat: &[char], i: usize) -> (r: bool)
    ensures
        r == occurs_at(s@, pat@, i as int),
{
    if i > s.len() || pat.len() > s.len() - i {
        return false;
    }
    let mut j: usize = 0;
    while j < pat.len()
        invariant
            i + pat@.len() <= s@.len(),
            i + pat.len() <= s.len(),
            j <= pat@.len(),
            forall|k: int| 0 <= k < j ==> s@[i + k] == pat@[k],
        decreases pat.len() - j,
    {
        if s[i + j] != pat[j] {
            assert(s@.subrange(i as int, i + pat@.len())[j as int] != pat@[j as int]);
            return false;
        }
        j = j + 1;
    }
    assert(s@.subrange(i as int, i + pat@.len()) =~= pat@);
    true
}

/// Unicode `White_Space`, as `char::is_whitespace` classifies it.
pub open spec fn is_ws(c: char) -> bool {
    let u = c as u32;
    (0x09 <= u <= 0x0d) || u == 0x20 || u == 0x85 || u == 0xa0 || u == 0x1680
        || (0x2000 <= u <= 0x200a) || u == 0x2028 || u == 0x2029 || u == 0x202f
        || u == 0x205f || u == 0x3000
}

pub fn is_ws_exec(c: char) -> (r: bool)
    ensures
        r == is_ws(c),
{
    let u = c as u32;
    (0x09 <= u && u <= 0x0d) || u == 0x20 || u == 0x85 || u == 0xa0 || u == 0x1680
        || (0x2000 <= u && u <= 0x200a) || u == 0x2028 || u == 0x2029 || u == 0x202f
        || u == 0x205f || u == 0x3000
}

/// `s` without leading whitespace.
pub open spec fn trim_start(s: Seq<char>) -> Seq<char>
    decreases s.len(),
{
    if s.len() > 0 && is_ws(s[0]) {
        trim_start(s.drop_first())
    } else {
        s
    }
}

/// `s` without trailing whitespace.
pub open spec fn trim_end(s: Seq<char>) -> Seq<char>
    decreases s.len(),
{
    if s.len() > 0 && is_ws(s.last()) {
        trim_end(s.drop_last())
    } else {
        s
    }
}

/// `s` without leading or trailing whitespace (`str::trim`).
pub open spec fn trim(s: Seq<char>) -> Seq<char> {
    trim_end(trim_start(s))
}

/// A trimmed copy of `s[lo..hi]`.
pub fn trimmed_slice(s: &Vec<char>, lo: usize, hi: usize) -> (r: Vec<char>)
    requires
        lo <= hi <= s@.len(),
    ensures
        r@ == trim(s@.subrange(lo as int, hi as int)),
{
    let ghost w = s@.subrange(lo as int, hi as int);
    let mut a = lo;
    while a < hi && is_ws_exec(s[a])
        invariant
            lo <= a <= hi <= s@.len(),
            trim_start(w) == trim_start(s@.subrange(a as int, hi as int)),
        decreases hi - a,
    {
        assert(s@.subrange(a as int, hi as int).drop_first() =~= s@.subrange(a + 1, hi as int));
        a = a + 1;
    }
    assert(trim_start(w) == s@.subrange(a as int, hi as int));
    let mut b = hi;
    while b > a && is_ws_exec(s[b - 1])
        invariant
            lo <= a <= b <= hi <= s@.len(),
            trim(w) == trim_end(s@.subrange(a as int, b as int)),
        decreases b - a,
    {
        assert(s@.subrange(a as int, b as int).drop_last() =~= s@.subrange(a as int, b - 1));
        b = b - 1;
    }
    slice_of(s, a, b)
}

} // verus!

verus! {

/// What `find_from` returns: the least occurrence at or after `from`.
pub proof fn lemma_find_from(s: Seq<char>, pat: Seq<char>, from: int)
    requires
        0 <= from,
    ensures
        find_from(s, pat, from) matches Some(i) ==> {
            &&& from <= i
            &&& i + pat.len() <= s.len()
            &&& occurs_at(s, pat, i)
            &&& forall|k: int| from <= k < i ==> !occurs_at(s, pat, k)
        },
        find_from(s, pat, from) is None ==> forall|k: int|
            from <= k ==> !#[trigger] occurs_at(s, pat, k),
    decreases s.len() + 1 - from,
{
    if from < 0 || from + pat.len() > s.len() {
    } else if occurs_at(s, pat, from) {
    } else {
        lemma_find_from(s, pat, from + 1);
    }
}

/// An occurrence with none before it (from `from` on) is what `find_from`
/// finds.
pub proof fn lemma_find_from_first(s: Seq<char>, pat: Seq<char>, from: int, i: int)
    requires
        0 <= from <= i,
        occurs_at(s, pat, i),
        forall|k: int| from <= k < i ==> !occurs_at(s, pat, k),
    ensures
        find_from(s, pat, from) == Some(i),
    decreases i - from,
{
    if from < i {
        assert(!occurs_at(s, pat, from));
        lemma_find_from_first(s, pat, from + 1, i);
    }
}

/// Searching past a prefix finds what searching the rest finds, shifted by
/// the prefix.
pub proof fn lemma_find_from_shift(pre: Seq<char>, b: Seq<char>, pat: Seq<char>, j: int)
    requires
        0 <= j,
    ensures
        find_from(pre + b, pat, pre.len() + j) == match find_from(b, pat, j) {
            Some(i) => Some(i + pre.len()),
            None => None::<int>,
        },
    decreases b.len() + 1 - j,
{
    let s = pre + b;
    if j + pat.len() > b.len() {
    } else {
        assert(s.subrange(pre.len() + j, pre.len() + j + pat.len()) =~= b.subrange(j, j + pat.len()));
        if !occurs_at(b, pat, j) {
            lemma_find_from_shift(pre, b, pat, j + 1);
            assert(pre.len() + j + 1 == pre.len() + (j + 1));
        }
    }
}

/// A match cannot start where the text differs from the pattern's first or
/// second character.
pub proof fn lemma_not_occurs_at(s: Seq<char>, pat: Seq<char>, k: int)
    requires
        pat.len() >= 2,
        0 <= k,
        k + 1 < s.len(),
        s[k] != pat[0] || s[k + 1] != pat[1],
    ensures
        !occurs_at(s, pat, k),
{
    if occurs_at(s, pat, k) {
        assert(s.subrange(k, k + pat.len())[0] == pat[0]);
        assert(s.subrange(k, k + pat.len())[1] == pat[1]);
    }
}

} // verus!

verus! {

/// `pat` occurs somewhere in `s`.
pub open spec fn contains_seq(s: Seq<char>, pat: Seq<char>) -> bool {
    find_from(s, pat, 0) is Some
}

/// `s[pos..]` with every non-overlapping occurrence of `pat`, left to right,
/// replaced by `rep` (`str::replace`).
pub open spec fn replace_from(s: Seq<char>, pat: Seq<char>, rep: Seq<char>, pos: int) -> Seq<char>
    decreases s.len() - pos,
    when 0 <= pos <= s.len() && pat.len() > 0
{
    match find_from(s, pat, pos) {
        None => s.subrange(pos, s.len() as int),
        Some(i) => {
            proof {
                lemma_find_from(s, pat, pos);
            }
            s.subrange(pos, i) + rep + replace_from(s, pat, rep, i + pat.len())
        },
    }
}

pub open spec fn replace_all(s: Seq<char>, pat: Seq<char>, rep: Seq<char>) -> Seq<char> {
    replace_from(s, pat, rep, 0)
}

/// `s` has `a` immediately followed by `b` somewhere.
pub open spec fn has_pair(s: Seq<char>, a: char, b: char) -> bool {
    exists|k: int| 0 <= k && k + 1 < s.len() && s[k] == a && #[trigger] s[k + 1] == b
}

/// `s` holds no `c`.
pub open spec fn lacks_char(s: Seq<char>, c: char) -> bool {
    forall|k: int| 0 <= k < s.len() ==> s[k] != c
}

/// A two-character pattern occurs exactly where its two characters stand
/// side by side.
pub proof fn lemma_contains_pair(s: Seq<char>, a: char, b: char)
    ensures
        contains_seq(s, seq![a, b]) <==> has_pair(s, a, b),
{
    let pat = seq![a, b];
    lemma_find_from(s, pat, 0);
    if contains_seq(s, pat) {
        let i = find_from(s, pat, 0)->0;
        assert(s.subrange(i, i + 2)[0] == a);
        assert(s.subrange(i, i + 2)[1] == b);
        assert(s[i] == a && s[i + 1] == b);
    }
    if has_pair(s, a, b) {
        let k = choose|k: int| 0 <= k && k + 1 < s.len() && s[k] == a && #[trigger] s[k + 1] == b;
        assert(s.subrange(k, k + 2) =~= pat);
        assert(occurs_at(s, pat, k));
    }
}

/// Where a pair stands in a concatenation: in one part, or across the
/// seam.
pub proof fn lemma_pair_concat(x: Seq<char>, y: Seq<char>, a: char, b: char)
    ensures
        has_pair(x + y, a, b) <==> (has_pair(x, a, b) || has_pair(y, a, b) || (x.len() > 0
            && y.len() > 0 && x.last() == a && y[0] == b)),
{
    let z = x + y;
    if has_pair(z, a, b) {
        let k = choose|k: int| 0 <= k && k + 1 < z.len() && z[k] == a && #[trigger] z[k + 1] == b;
        if k + 1 < x.len() {
            assert(x[k] == a && x[k + 1] == b);
        } else if k + 1 == x.len() {
        } else {
            assert(y[k - x.len()] == a && y[k - x.len() + 1] == b);
        }
    }
    if has_pair(x, a, b) {
        let k = choose|k: int| 0 <= k && k + 1 < x.len() && x[k] == a && #[trigger] x[k + 1] == b;
        assert(z[k] == a && z[k + 1] == b);
    }
    if has_pair(y, a, b) {
        let k = choose|k: int| 0 <= k && k + 1 < y.len() && y[k] == a && #[trigger] y[k + 1] == b;
        assert(z[k + x.len()] == a && z[k + x.len() + 1] == b);
    }
    if x.len() > 0 && y.len() > 0 && x.last() == a && y[0] == b {
        assert(z[x.len() - 1] == a && z[x.len() - 1 + 1] == b);
    }
}

/// Replacing `%c` by text without `%`, in text without `%%`, neither makes
/// nor removes a `%b` for another letter `b`.
pub proof fn lemma_replace_keeps_pairs(s: Seq<char>, c: char, w: Seq<char>, pos: int, b: char)
    requires
        0 <= pos <= s.len(),
        b != c,
        c != '%',
        lacks_char(w, '%'),
        !has_pair(s, '%', '%'),
    ensures
        has_pair(replace_from(s, seq!['%', c], w, pos), '%', b) <==> has_pair(
            s.subrange(pos, s.len() as int),
            '%',
            b,
        ),
    decreases s.len() - pos,
{
    let pat = seq!['%', c];
    lemma_find_from(s, pat, pos);
    match find_from(s, pat, pos) {
        None => {},
        Some(i) => {
            lemma_replace_keeps_pairs(s, c, w, i + 2, b);
            assert(s.subrange(i, i + 2)[0] == '%');
            assert(s.subrange(i, i + 2)[1] == c);
            assert(s[i] == '%' && s[i + 1] == c);
            let a = s.subrange(pos, i);
            let r2 = replace_from(s, pat, w, i + 2);
            let t = s.subrange(i + 2, s.len() as int);
            assert(replace_from(s, pat, w, pos) == a + w + r2);
            if a.len() > 0 {
                assert(a.last() == s[i - 1]);
                if s[i - 1] == '%' {
                    assert(s[i - 1] == '%' && s[i - 1 + 1] == '%');
                }
                assert(a.last() != '%');
            }
            lemma_pair_concat(a, w, '%', b);
            if w.len() > 0 {
                assert(w[0] != '%');
                assert(w.last() != '%');
            }
            assert(!has_pair(w, '%', b)) by {
                if has_pair(w, '%', b) {
                    let k = choose|k: int| 0 <= k && k + 1 < w.len() && w[k] == '%' && #[trigger] w[k + 1] == b;
                    assert(w[k] != '%');
                }
            }
            lemma_pair_concat(a + w, r2, '%', b);
            if (a + w).len() > 0 {
                assert((a + w).last() != '%') by {
                    if w.len() > 0 {
                        assert((a + w).last() == w.last());
                    } else {
                        assert((a + w).last() == a.last());
                    }
                }
            }
            assert(s.subrange(pos, s.len() as int) =~= a + pat + t);
            lemma_pair_concat(a, pat, '%', b);
            lemma_pair_concat(a + pat, t, '%', b);
            assert(!has_pair(pat, '%', b)) by {
                if has_pair(pat, '%', b) {
                    let k = choose|k: int| 0 <= k && k + 1 < pat.len() && pat[k] == '%' && #[trigger] pat[k + 1] == b;
                    assert(k == 0);
                }
            }
            assert((a + pat).last() == c);
        },
    }
}

pub fn contains_chars(s: &Vec<char>, pat: &[char]) -> (r: bool)
    ensures
        r == contains_seq(s@, pat@),
{
    find_chars(s, pat, 0).is_some()
}

pub fn replace_chars(s: &Vec<char>, pat: &Vec<char>, rep: &Vec<char>) -> (r: Vec<char>)
    requires
        pat@.len() > 0,
    ensures
        r@ == replace_all(s@, pat@, rep@),
{
    let mut out: Vec<char> = Vec::new();
    let mut pos: usize = 0;
    loop
        invariant
            pos <= s@.len(),
            pat@.len() > 0,
            replace_all(s@, pat@, rep@) == out@ + replace_from(s@, pat@, rep@, pos as int),
        decreases s@.len() - pos,
    {
        proof {
            lemma_find_from(s@, pat@, pos as int);
        }
        match find_chars(s, pat.as_slice(), pos) {
            None => {
                push_range(&mut out, s, pos, s.len());
                return out;
            },
            Some(i) => {
                let ghost old_out = out@;
                push_range(&mut out, s, pos, i);
                push_all(&mut out, rep);
                assert(i + pat.len() <= s.len());
                assert(old_out + (s@.subrange(pos as int, i as int) + rep@ + replace_from(
                    s@,
                    pat@,
                    rep@,
                    i + pat@.len(),
                )) =~= out@ + replace_from(s@, pat@, rep@, i + pat@.len()));
                pos = i + pat.len();
            },
        }
    }
}

/// Characters from `s`.
pub fn string_chars(s: &String) -> (v: Vec<char>)
    ensures
        v@ == s@,
{
    chars_of(s.as_str())
}

/// Whether two strings hold the same characters.
pub fn same_text(a: &str, b: &str) -> (r: bool)
    ensures
        r == (a@ == b@),
{
    let x = chars_of(a);
    let y = chars_of(b);
    chars_eq(&x, &y)
}

} // verus!
