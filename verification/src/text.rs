//! Character-sequence helpers shared by every protocol module: the views of
//! `str::trim`, `str::split`, decimal printing and decimal parsing that the
//! protocols are specified with, and executable versions proved against them.

use vstd::prelude::*;

verus! {

// ---------------------------------------------------------------------------
// Conversions
// ---------------------------------------------------------------------------

/// Collects the characters of `s` into a vector.
pub fn chars_of(s: &str) -> (v: Vec<char>)
    ensures
        v@ == s@,
{
    let mut v: Vec<char> = Vec::new();
    for c in iter: s.chars()
        invariant
            v@ == iter.seq().take(iter.index() as int),
            iter.seq() == s@,
    {
        v.push(c);
    }
    v
}

/// Builds a `String` holding exactly the characters of `v`
/// (`FromIterator<&char> for String`, documented to append each item in order).
#[verifier::external_body]
pub(crate) fn string_of(v: &[char]) -> (s: String)
    ensures
        s@ == v@,
{
    v.iter().collect()
}

/// Appends the characters of `s` to `out`.
pub fn push_str(out: &mut Vec<char>, s: &str)
    ensures
        final(out)@ == old(out)@ + s@,
{
    let v = chars_of(s);
    push_chars(out, &v);
}

/// Appends the characters of `v` to `out`.
pub fn push_chars(out: &mut Vec<char>, v: &Vec<char>)
    ensures
        final(out)@ == old(out)@ + v@,
{
    let ghost start = out@;
    let mut i: usize = 0;
    while i < v.len()
        invariant
            i <= v.len(),
            out@ == start + v@.take(i as int),
        decreases v.len() - i,
    {
        out.push(v[i]);
        i += 1;
        assert(v@.take(i as int) =~= v@.take(i - 1) + seq![v@[i - 1]]);
    }
    assert(v@.take(v.len() as int) =~= v@);
}

/// The characters `v[from..to]`.
pub fn sub_chars(v: &Vec<char>, from: usize, to: usize) -> (r: Vec<char>)
    requires
        from <= to <= v.len(),
    ensures
        r@ == v@.subrange(from as int, to as int),
{
    let mut r: Vec<char> = Vec::new();
    let mut i = from;
    while i < to
        invariant
            from <= i <= to <= v.len(),
            r@ == v@.subrange(from as int, i as int),
        decreases to - i,
    {
        r.push(v[i]);
        i += 1;
        assert(r@ =~= v@.subrange(from as int, i as int));
    }
    r
}

/// Whether two character vectors hold the same characters.
pub fn eq_chars(a: &Vec<char>, b: &Vec<char>) -> (r: bool)
    ensures
        r == (a@ == b@),
{
    if a.len() != b.len() {
        return false;
    }
    let mut i: usize = 0;
    while i < a.len()
        invariant
            a.len() == b.len(),
            i <= a.len(),
            forall|j: int| 0 <= j < i ==> a@[j] == b@[j],
        decreases a.len() - i,
    {
        if a[i] != b[i] {
            return false;
        }
        i += 1;
    }
    assert(a@ =~= b@);
    true
}

/// Whether the characters of `a` equal those of the string `s`.
pub fn eq_str(a: &Vec<char>, s: &str) -> (r: bool)
    ensures
        r == (a@ == s@),
{
    let b = chars_of(s);
    eq_chars(a, &b)
}

// ---------------------------------------------------------------------------
// Prefixes and suffixes
// ---------------------------------------------------------------------------

/// `s` begins with `p`.
pub open spec fn has_prefix(s: Seq<char>, p: Seq<char>) -> bool {
    p.len() <= s.len() && s.take(p.len() as int) == p
}

/// `s` ends with `p`.
pub open spec fn has_suffix(s: Seq<char>, p: Seq<char>) -> bool {
    p.len() <= s.len() && s.skip(s.len() - p.len()) == p
}

/// Executable `str::starts_with`.
pub fn starts_with(v: &Vec<char>, p: &str) -> (r: bool)
    ensures
        r == has_prefix(v@, p@),
{
    let pv = chars_of(p);
    if pv.len() > v.len() {
        return false;
    }
    let mut i: usize = 0;
    while i < pv.len()
        invariant
            pv@ == p@,
            pv.len() <= v.len(),
            i <= pv.len(),
            forall|j: int| 0 <= j < i ==> v@[j] == pv@[j],
        decreases pv.len() - i,
    {
        if v[i] != pv[i] {
            assert(v@.take(pv.len() as int)[i as int] != pv@[i as int]);
            return false;
        }
        i += 1;
    }
    assert(v@.take(pv.len() as int) =~= pv@);
    true
}

/// Executable `str::ends_with`.
pub fn ends_with(v: &Vec<char>, p: &str) -> (r: bool)
    ensures
        r == has_suffix(v@, p@),
{
    let pv = chars_of(p);
    if pv.len() > v.len() {
        return false;
    }
    let off = v.len() - pv.len();
    let mut i: usize = 0;
    while i < pv.len()
        invariant
            pv@ == p@,
            pv.len() <= v.len(),
            off == v.len() - pv.len(),
            i <= pv.len(),
            forall|j: int| 0 <= j < i ==> v@[off + j] == pv@[j],
        decreases pv.len() - i,
    {
        if v[off + i] != pv[i] {
            assert(v@.skip(off as int)[i as int] != pv@[i as int]);
            return false;
        }
        i += 1;
    }
    assert(v@.skip(off as int) =~= pv@);
    true
}

/// `str::trim_start_matches` with a string pattern: strips `p` from the front
/// as many times as it occurs there.
pub open spec fn strip_prefixes(s: Seq<char>, p: Seq<char>) -> Seq<char>
    decreases s.len(),
{
    if p.len() > 0 && has_prefix(s, p) {
        strip_prefixes(s.skip(p.len() as int), p)
    } else {
        s
    }
}

/// `str::trim_end_matches` with a string pattern: strips `p` from the back
/// as many times as it occurs there.
pub open spec fn strip_suffixes(s: Seq<char>, p: Seq<char>) -> Seq<char>
    decreases s.len(),
{
    if p.len() > 0 && has_suffix(s, p) {
        strip_suffixes(s.take(s.len() - p.len()), p)
    } else {
        s
    }
}

/// `str::trim_start_matches` with a predicate: drops every leading character
/// satisfying `f`.
pub open spec fn drop_leading(s: Seq<char>, f: spec_fn(char) -> bool) -> Seq<char>
    decreases s.len(),
{
    if s.len() > 0 && f(s[0]) {
        drop_leading(s.drop_first(), f)
    } else {
        s
    }
}

/// `str::trim_end_matches` with a predicate: drops every trailing character
/// satisfying `f`.
pub open spec fn drop_trailing(s: Seq<char>, f: spec_fn(char) -> bool) -> Seq<char>
    decreases s.len(),
{
    if s.len() > 0 && f(s.last()) {
        drop_trailing(s.drop_last(), f)
    } else {
        s
    }
}

/// The characters that `char::is_whitespace` accepts (Unicode `White_Space`).
pub open spec fn is_ws(c: char) -> bool {
    let u = c as u32;
    ||| 0x09 <= u <= 0x0D
    ||| u == 0x20
    ||| u == 0x85
    ||| u == 0xA0
    ||| u == 0x1680
    ||| 0x2000 <= u <= 0x200A
    ||| u == 0x2028
    ||| u == 0x2029
    ||| u == 0x202F
    ||| u == 0x205F
    ||| u == 0x3000
}

/// `str::trim`: no leading and no trailing white space.
pub open spec fn trim(s: Seq<char>) -> Seq<char> {
    drop_trailing(drop_leading(s, |c: char| is_ws(c)), |c: char| is_ws(c))
}

/// Executable `char::is_whitespace`.
pub fn is_whitespace(c: char) -> (r: bool)
    ensures
        r == is_ws(c),
{
    let u = c as u32;
    (0x09 <= u && u <= 0x0D) || u == 0x20 || u == 0x85 || u == 0xA0 || u == 0x1680 || (0x2000
        <= u && u <= 0x200A) || u == 0x2028 || u == 0x2029 || u == 0x202F || u == 0x205F || u
        == 0x3000
}

proof fn lemma_drop_leading_skip(s: Seq<char>, f: spec_fn(char) -> bool, i: int)
    requires
        0 <= i < s.len(),
        f(s[i]),
    ensures
        drop_leading(s.skip(i), f) == drop_leading(s.skip(i + 1), f),
{
    assert(s.skip(i).drop_first() =~= s.skip(i + 1));
}

proof fn lemma_drop_trailing_take(s: Seq<char>, f: spec_fn(char) -> bool, j: int)
    requires
        0 < j <= s.len(),
        f(s[j - 1]),
    ensures
        drop_trailing(s.take(j), f) == drop_trailing(s.take(j - 1), f),
{
    assert(s.take(j).drop_last() =~= s.take(j - 1));
}

/// Index of the first character of `v` not satisfying `is_ws`, or `v.len()`.
fn leading_ws_end(v: &Vec<char>) -> (i: usize)
    ensures
        i <= v.len(),
        drop_leading(v@, |c: char| is_ws(c)) == v@.skip(i as int),
        i < v.len() ==> !is_ws(v@[i as int]),
{
    let ghost f = |c: char| is_ws(c);
    let mut i: usize = 0;
    assert(v@.skip(0) =~= v@);
    while i < v.len() && is_whitespace(v[i])
        invariant
            i <= v.len(),
            f == (|x: char| is_ws(x)),
            drop_leading(v@, f) == drop_leading(v@.skip(i as int), f),
        decreases v.len() - i,
    {
        proof {
            lemma_drop_leading_skip(v@, f, i as int);
        }
        i += 1;
    }
    assert(v@.skip(i as int).len() == 0 || !f(v@.skip(i as int)[0]));
    i
}

/// Executable `str::trim` on characters.
pub fn trim_chars(v: &Vec<char>) -> (r: Vec<char>)
    ensures
        r@ == trim(v@),
{
    let ghost f = |c: char| is_ws(c);
    let i = leading_ws_end(v);
    let lead = sub_chars(v, i, v.len());
    let mut j: usize = lead.len();
    assert(lead@.take(j as int) =~= lead@);
    while j > 0 && is_whitespace(lead[j - 1])
        invariant
            j <= lead.len(),
            f == (|x: char| is_ws(x)),
            drop_trailing(lead@, f) == drop_trailing(lead@.take(j as int), f),
        decreases j,
    {
        proof {
            lemma_drop_trailing_take(lead@, f, j as int);
        }
        j -= 1;
    }
    assert(lead@.take(j as int).len() == 0 || !f(lead@.take(j as int).last()));
    sub_chars(&lead, 0, j)
}

/// Executable `str::trim`.
pub fn trim_str(s: &str) -> (r: String)
    ensures
        r@ == trim(s@),
{
    let v = chars_of(s);
    let t = trim_chars(&v);
    string_of(t.as_slice())
}

/// Executable `str::trim_start_matches(c)` for a single character.
pub fn trim_start_char(v: &Vec<char>, c: char) -> (r: Vec<char>)
    ensures
        r@ == drop_leading(v@, |x: char| x == c),
{
    let ghost f = |x: char| x == c;
    let mut i: usize = 0;
    assert(v@.skip(0) =~= v@);
    while i < v.len() && v[i] == c
        invariant
            i <= v.len(),
            f == (|x: char| x == c),
            drop_leading(v@, f) == drop_leading(v@.skip(i as int), f),
        decreases v.len() - i,
    {
        proof {
            lemma_drop_leading_skip(v@, f, i as int);
        }
        i += 1;
    }
    assert(v@.skip(i as int) =~= v@.subrange(i as int, v.len() as int));
    sub_chars(v, i, v.len())
}

/// Executable `str::trim_end_matches(c)` for a single character.
pub fn trim_end_char(v: &Vec<char>, c: char) -> (r: Vec<char>)
    ensures
        r@ == drop_trailing(v@, |x: char| x == c),
{
    let ghost f = |x: char| x == c;
    let mut j: usize = v.len();
    assert(v@.take(j as int) =~= v@);
    while j > 0 && v[j - 1] == c
        invariant
            j <= v.len(),
            f == (|x: char| x == c),
            drop_trailing(v@, f) == drop_trailing(v@.take(j as int), f),
        decreases j,
    {
        proof {
            lemma_drop_trailing_take(v@, f, j as int);
        }
        j -= 1;
    }
    assert(v@.take(j as int) =~= v@.subrange(0, j as int));
    sub_chars(v, 0, j)
}

/// Executable `str::trim_matches(c)` for a single character (both ends).
pub fn trim_char(v: &Vec<char>, c: char) -> (r: Vec<char>)
    ensures
        r@ == drop_trailing(drop_leading(v@, |x: char| x == c), |x: char| x == c),
{
    let a = trim_start_char(v, c);
    trim_end_char(&a, c)
}

/// Executable `str::trim_start_matches(p)` for a string pattern.
pub fn trim_start_str(v: &Vec<char>, p: &str) -> (r: Vec<char>)
    ensures
        r@ == strip_prefixes(v@, p@),
{
    let pv = chars_of(p);
    let mut cur = sub_chars(v, 0, v.len());
    assert(cur@ =~= v@);
    if pv.len() == 0 {
        return cur;
    }
    while starts_with(&cur, p)
        invariant
            pv@ == p@,
            pv.len() > 0,
            strip_prefixes(v@, p@) == strip_prefixes(cur@, p@),
        decreases cur.len(),
    {
        cur = sub_chars(&cur, pv.len(), cur.len());
    }
    cur
}

/// Executable `str::trim_end_matches(p)` for a string pattern.
pub fn trim_end_str(v: &Vec<char>, p: &str) -> (r: Vec<char>)
    ensures
        r@ == strip_suffixes(v@, p@),
{
    let pv = chars_of(p);
    let mut cur = sub_chars(v, 0, v.len());
    assert(cur@ =~= v@);
    if pv.len() == 0 {
        return cur;
    }
    while ends_with(&cur, p)
        invariant
            pv@ == p@,
            pv.len() > 0,
            strip_suffixes(v@, p@) == strip_suffixes(cur@, p@),
        decreases cur.len(),
    {
        cur = sub_chars(&cur, 0, cur.len() - pv.len());
    }
    cur
}

// ---------------------------------------------------------------------------
// Splitting
// ---------------------------------------------------------------------------

/// `str::split(c)`: the pieces of `s` between occurrences of `c`, read left to
/// right; there is always at least one piece.
pub open spec fn split_on(s: Seq<char>, c: char) -> Seq<Seq<char>>
    decreases s.len(),
{
    if s.len() == 0 {
        seq![Seq::<char>::empty()]
    } else {
        let init = split_on(s.drop_last(), c);
        if s.last() == c {
            init.push(Seq::<char>::empty())
        } else {
            init.update(init.len() - 1, init.last().push(s.last()))
        }
    }
}

pub proof fn lemma_split_on_nonempty(s: Seq<char>, c: char)
    ensures
        split_on(s, c).len() >= 1,
    decreases s.len(),
{
    if s.len() > 0 {
        lemma_split_on_nonempty(s.drop_last(), c);
    }
}

/// A sequence without `c` splits into itself alone.
pub proof fn lemma_split_on_no_sep(s: Seq<char>, c: char)
    requires
        !s.contains(c),
    ensures
        split_on(s, c) == seq![s],
    decreases s.len(),
{
    if s.len() > 0 {
        assert(!s.drop_last().contains(c)) by {
            if s.drop_last().contains(c) {
                let k = choose|k: int| 0 <= k < s.drop_last().len() && s.drop_last()[k] == c;
                assert(s[k] == c);
            }
        }
        lemma_split_on_no_sep(s.drop_last(), c);
        assert(s.last() != c) by {
            assert(s[s.len() - 1] == s.last());
        }
        assert(s.drop_last().push(s.last()) =~= s);
        assert(split_on(s, c) =~= seq![s]);
    } else {
        assert(s =~= Seq::<char>::empty());
    }
}

/// Splitting `a`, `c`, `b` splits `a` and `b` and joins the two lists.
pub proof fn lemma_split_on_concat(a: Seq<char>, c: char, b: Seq<char>)
    ensures
        split_on(a + seq![c] + b, c) == split_on(a, c) + split_on(b, c),
    decreases b.len(),
{
    lemma_split_on_nonempty(a, c);
    lemma_split_on_nonempty(b, c);
    if b.len() == 0 {
        assert((a + seq![c] + b).drop_last() =~= a);
        assert(split_on(b, c) =~= seq![Seq::<char>::empty()]);
        assert(split_on(a + seq![c] + b, c) =~= split_on(a, c) + split_on(b, c));
    } else {
        let s = a + seq![c] + b;
        assert(s.drop_last() =~= a + seq![c] + b.drop_last());
        lemma_split_on_concat(a, c, b.drop_last());
        lemma_split_on_nonempty(b.drop_last(), c);
        assert(s.last() == b.last());
        assert(split_on(s, c) =~= split_on(a, c) + split_on(b, c));
    }
}

/// Executable `str::split(c)`.
pub fn split_chars(v: &Vec<char>, c: char) -> (r: Vec<Vec<char>>)
    ensures
        r.len() == split_on(v@, c).len(),
        forall|i: int| 0 <= i < r.len() ==> #[trigger] r[i]@ == split_on(v@, c)[i],
{
    let mut pieces: Vec<Vec<char>> = Vec::new();
    let mut cur: Vec<char> = Vec::new();
    let mut i: usize = 0;
    assert(v@.take(0) =~= Seq::<char>::empty());
    while i < v.len()
        invariant
            i <= v.len(),
            pieces.len() + 1 == split_on(v@.take(i as int), c).len(),
            forall|j: int|
                0 <= j < pieces.len() ==> #[trigger] pieces[j]@ == split_on(
                    v@.take(i as int),
                    c,
                )[j],
            cur@ == split_on(v@.take(i as int), c).last(),
        decreases v.len() - i,
    {
        let ghost before = v@.take(i as int);
        proof {
            lemma_split_on_nonempty(before, c);
            assert(v@.take(i + 1).drop_last() =~= before);
        }
        if v[i] == c {
            pieces.push(cur);
            cur = Vec::new();
        } else {
            cur.push(v[i]);
        }
        i += 1;
    }
    assert(v@.take(v.len() as int) =~= v@);
    proof {
        lemma_split_on_nonempty(v@, c);
    }
    pieces.push(cur);
    pieces
}

/// `k` is the index of the first `c` in `s`.
pub open spec fn is_first(s: Seq<char>, c: char, k: int) -> bool {
    &&& 0 <= k < s.len()
    &&& s[k] == c
    &&& forall|j: int| 0 <= j < k ==> s[j] != c
}

/// `str::splitn(2, c)`: the text before the first `c`, and the text after it
/// when there is one.
pub open spec fn split_once(s: Seq<char>, c: char) -> (Seq<char>, Option<Seq<char>>) {
    if exists|k: int| is_first(s, c, k) {
        let k = choose|k: int| is_first(s, c, k);
        (s.take(k), Some(s.skip(k + 1)))
    } else {
        (s, None)
    }
}

/// Splitting `w c rest` at its first `c`, where `w` holds no `c`, gives
/// `w` and `rest`, whatever `rest` holds.
pub proof fn lemma_split_once_at(w: Seq<char>, c: char, rest: Seq<char>)
    requires
        !w.contains(c),
    ensures
        split_once(w + seq![c] + rest, c) == (w, Some(rest)),
{
    let s = w + seq![c] + rest;
    let n = w.len() as int;
    assert(is_first(s, c, n)) by {
        assert forall|j: int| 0 <= j < n implies s[j] != c by {
            assert(s[j] == w[j]);
        }
    }
    let k = choose|k: int| is_first(s, c, k);
    if k < n {
        assert(s[k] == w[k]);
    }
    assert(k == n);
    assert(s.take(n) =~= w);
    assert(s.skip(n + 1) =~= rest);
}

/// Text that holds no `c` does not split at `c`.
pub proof fn lemma_split_once_none(w: Seq<char>, c: char)
    requires
        !w.contains(c),
    ensures
        split_once(w, c) == (w, None::<Seq<char>>),
{
    assert(!exists|k: int| is_first(w, c, k)) by {
        assert forall|k: int| !is_first(w, c, k) by {
            if 0 <= k < w.len() && w[k] == c {
                assert(w.contains(c));
            }
        }
    }
}

/// Executable `str::splitn(2, c)`.
pub fn split_once_chars(v: &Vec<char>, c: char) -> (r: (Vec<char>, Option<Vec<char>>))
    ensures
        r.0@ == split_once(v@, c).0,
        r.1 is Some == split_once(v@, c).1 is Some,
        r.1 matches Some(rest) ==> rest@ == split_once(v@, c).1.unwrap(),
{
    let mut i: usize = 0;
    while i < v.len() && v[i] != c
        invariant
            i <= v.len(),
            forall|j: int| 0 <= j < i ==> v@[j] != c,
        decreases v.len() - i,
    {
        i += 1;
    }
    if i < v.len() {
        assert(is_first(v@, c, i as int));
        assert(forall|k: int| is_first(v@, c, k) ==> k == i);
        let head = sub_chars(v, 0, i);
        let rest = sub_chars(v, i + 1, v.len());
        assert(head@ =~= v@.take(i as int));
        assert(rest@ =~= v@.skip(i + 1));
        (head, Some(rest))
    } else {
        assert(!exists|k: int| is_first(v@, c, k));
        (sub_chars(v, 0, v.len()), None)
    }
}

/// `p` occurs in `s` at index `k`.
pub open spec fn occurs_at(s: Seq<char>, p: Seq<char>, k: int) -> bool {
    0 <= k && k + p.len() <= s.len() && s.subrange(k, k + p.len()) == p
}

/// `k` is the index of the first occurrence of `p` in `s`.
pub open spec fn is_first_occurrence(s: Seq<char>, p: Seq<char>, k: int) -> bool {
    &&& occurs_at(s, p, k)
    &&& forall|j: int| 0 <= j < k ==> !occurs_at(s, p, j)
}

/// `str::splitn(2, p)` for a non-empty string pattern: the text before the
/// first occurrence of `p`, and the text after it when there is one.
pub open spec fn split_once_str(s: Seq<char>, p: Seq<char>) -> (Seq<char>, Option<Seq<char>>) {
    if exists|k: int| is_first_occurrence(s, p, k) {
        let k = choose|k: int| is_first_occurrence(s, p, k);
        (s.take(k), Some(s.skip(k + p.len())))
    } else {
        (s, None)
    }
}

/// Whether `p` occurs in `v` at index `k`.
fn matches_at(v: &Vec<char>, p: &Vec<char>, k: usize) -> (r: bool)
    requires
        k + p.len() <= v.len(),
    ensures
        r == occurs_at(v@, p@, k as int),
{
    let mut i: usize = 0;
    while i < p.len()
        invariant
            k + p.len() <= v.len(),
            i <= p.len(),
            forall|j: int| 0 <= j < i ==> v@[k + j] == p@[j],
        decreases p.len() - i,
    {
        if v[k + i] != p[i] {
            assert(v@.subrange(k as int, k + p.len())[i as int] != p@[i as int]);
            return false;
        }
        i += 1;
    }
    assert(v@.subrange(k as int, k + p.len()) =~= p@);
    true
}

/// Executable `str::find` for a non-empty string pattern.
pub fn find_str(v: &Vec<char>, p: &Vec<char>) -> (r: Option<usize>)
    requires
        p.len() > 0,
    ensures
        r matches Some(k) ==> is_first_occurrence(v@, p@, k as int),
        r is None ==> forall|k: int| !occurs_at(v@, p@, k),
{
    if p.len() > v.len() {
        return None;
    }
    let last = v.len() - p.len();
    let mut i: usize = 0;
    while i <= last
        invariant
            0 < p.len() <= v.len(),
            last == v.len() - p.len(),
            i <= last + 1,
            forall|j: int| 0 <= j < i ==> !occurs_at(v@, p@, j),
        decreases last + 1 - i,
    {
        if matches_at(v, p, i) {
            return Some(i);
        }
        i += 1;
    }
    None
}

/// Executable `str::splitn(2, p)` for a non-empty string pattern.
pub fn split_once_str_chars(v: &Vec<char>, p: &str) -> (r: (Vec<char>, Option<Vec<char>>))
    requires
        p@.len() > 0,
    ensures
        r.0@ == split_once_str(v@, p@).0,
        r.1 is Some == split_once_str(v@, p@).1 is Some,
        r.1 matches Some(rest) ==> rest@ == split_once_str(v@, p@).1.unwrap(),
        r.1 is Some <==> exists|k: int| occurs_at(v@, p@, k),
{
    let pv = chars_of(p);
    match find_str(v, &pv) {
        Some(k) => {
            let ghost kk = k as int;
            assert(pv@ == p@);
            assert(occurs_at(v@, pv@, kk));
            assert(k + pv.len() <= v.len());
            assert(is_first_occurrence(v@, p@, kk));
            assert forall|m: int| is_first_occurrence(v@, p@, m) implies m == kk by {
                if m < kk {
                    assert(!occurs_at(v@, p@, m));
                } else if m > kk {
                    assert(!occurs_at(v@, p@, kk));
                }
            }
            let head = sub_chars(v, 0, k);
            let rest = sub_chars(v, k + pv.len(), v.len());
            assert(head@ =~= v@.take(kk));
            assert(rest@ =~= v@.skip(kk + p@.len()));
            (head, Some(rest))
        },
        None => {
            assert(!exists|k: int| is_first_occurrence(v@, p@, k));
            (sub_chars(v, 0, v.len()), None)
        },
    }
}

// ---------------------------------------------------------------------------
// Decimal numbers
// ---------------------------------------------------------------------------

/// The character of decimal digit `d`.
pub open spec fn digit(d: nat) -> char {
    (d + 48) as char
}

/// Decimal text of `n`, as `u64`'s `Display` prints it.
pub open spec fn dec(n: nat) -> Seq<char>
    decreases n,
{
    if n < 10 {
        seq![digit(n)]
    } else {
        dec(n / 10).push(digit(n % 10))
    }
}

/// A character of `'0'..='9'`.
pub open spec fn is_digit(c: char) -> bool {
    48 <= c as u32 <= 57
}

/// Every character is a decimal digit.
pub open spec fn all_digits(s: Seq<char>) -> bool {
    forall|i: int| 0 <= i < s.len() ==> is_digit(#[trigger] s[i])
}

/// The number that the decimal digits `s` denote.
pub open spec fn digits_value(s: Seq<char>) -> nat
    decreases s.len(),
{
    if s.len() == 0 {
        0
    } else {
        digits_value(s.drop_last()) * 10 + ((s.last() as u32 - 48) as nat)
    }
}

/// `str::parse` for an unsigned integer type whose largest value is `max`:
/// an optional `+`, then one or more decimal digits denoting at most `max`.
pub open spec fn parse_uint(s: Seq<char>, max: nat) -> Option<nat> {
    let d = if s.len() > 0 && s[0] == '+' {
        s.drop_first()
    } else {
        s
    };
    if d.len() > 0 && all_digits(d) && digits_value(d) <= max {
        Some(digits_value(d))
    } else {
        None
    }
}

/// The character of decimal digit `d`.
pub fn digit_char(d: u64) -> (c: char)
    requires
        d < 10,
    ensures
        c == digit(d as nat),
{
    match d {
        0 => '0',
        1 => '1',
        2 => '2',
        3 => '3',
        4 => '4',
        5 => '5',
        6 => '6',
        7 => '7',
        8 => '8',
        _ => '9',
    }
}

/// Appends the decimal text of `n` to `out`.
pub fn push_dec(out: &mut Vec<char>, n: u64)
    ensures
        final(out)@ == old(out)@ + dec(n as nat),
    decreases n,
{
    if n >= 10 {
        push_dec(out, n / 10);
        out.push(digit_char(n % 10));
        assert(dec(n as nat) == dec((n / 10) as nat).push(digit((n % 10) as nat)));
    } else {
        out.push(digit_char(n));
    }
}

/// Decimal text of `n`.
pub fn dec_chars(n: u64) -> (r: Vec<char>)
    ensures
        r@ == dec(n as nat),
{
    let mut r: Vec<char> = Vec::new();
    push_dec(&mut r, n);
    assert(r@ =~= dec(n as nat));
    r
}

proof fn lemma_digits_value_monotone(s: Seq<char>, i: int, j: int)
    requires
        0 <= i <= j <= s.len(),
        all_digits(s),
    ensures
        digits_value(s.take(i)) <= digits_value(s.take(j)),
    decreases j - i,
{
    if i < j {
        lemma_digits_value_monotone(s, i, j - 1);
        assert(s.take(j).drop_last() =~= s.take(j - 1));
        assert(is_digit(s[j - 1]));
        assert(digits_value(s.take(j - 1)) <= digits_value(s.take(j - 1)) * 10) by (nonlinear_arith);
    }
}

/// Executable `str::parse` of an unsigned integer whose largest value is `max`.
pub fn parse_uint_chars(v: &Vec<char>, max: u64) -> (r: Option<u64>)
    requires
        max >= 9,
    ensures
        match parse_uint(v@, max as nat) {
            Some(n) => r == Some(n as u64),
            None => r is None,
        },
{
    let start: usize = if v.len() > 0 && v[0] == '+' {
        1
    } else {
        0
    };
    let ghost d = if v@.len() > 0 && v@[0] == '+' {
        v@.drop_first()
    } else {
        v@
    };
    assert(d =~= v@.skip(start as int));
    if start >= v.len() {
        return None;
    }
    let mut acc: u64 = 0;
    let mut i: usize = start;
    assert(d.take(0) =~= Seq::<char>::empty());
    while i < v.len()
        invariant
            start <= i <= v.len(),
            d == v@.skip(start as int),
            d == (if v@.len() > 0 && v@[0] == '+' {
                v@.drop_first()
            } else {
                v@
            }),
            max >= 9,
            all_digits(d.take(i - start)),
            acc as nat == digits_value(d.take(i - start)),
            acc <= max,
        decreases v.len() - i,
    {
        let c = v[i];
        assert(d[i - start] == c);
        let u = c as u32;
        if !(48 <= u && u <= 57) {
            assert(!is_digit(d[i - start]));
            assert(!all_digits(d));
            return None;
        }
        let dg = (u - 48) as u64;
        assert(d.take(i - start + 1).drop_last() =~= d.take(i - start));
        if acc > (max - dg) / 10 {
            assert(acc * 10 + dg > max) by (nonlinear_arith)
                requires
                    acc > (max - dg) / 10,
                    dg <= 9,
                    max >= 9,
            ;
            assert(digits_value(d.take(i - start + 1)) > max);
            assert(all_digits(d.take(i - start + 1)));
            proof {
                if all_digits(d) {
                    lemma_digits_value_monotone(d, i - start + 1, d.len() as int);
                    assert(d.take(d.len() as int) =~= d);
                }
            }
            return None;
        }
        assert(acc * 10 + dg <= max) by (nonlinear_arith)
            requires
                acc <= (max - dg) / 10,
                dg <= 9,
                max >= 9,
        ;
        acc = acc * 10 + dg;
        i += 1;
    }
    assert(d.take(v.len() - start) =~= d);
    Some(acc)
}

/// Decimal text is read back as the number it prints.
pub proof fn lemma_parse_dec(n: nat, max: nat)
    requires
        n <= max,
    ensures
        parse_uint(dec(n), max) == Some(n),
{
    lemma_dec_digits(n);
    assert(dec(n)[0] != '+') by {
        assert(is_digit(dec(n)[0]));
    }
}

proof fn lemma_digit(d: nat)
    requires
        d < 10,
    ensures
        digit(d) as u32 == d + 48,
        is_digit(digit(d)),
{
}

/// The text is all ASCII.
pub open spec fn is_ascii_text(s: Seq<char>) -> bool {
    forall|i: int| 0 <= i < s.len() ==> (s[i] as u32) < 128
}

/// Why text does not read as an unsigned number (`ParseIntError`'s kind).
#[derive(PartialEq, Eq, Structural, Clone, Copy, Debug)]
pub enum IntError {
    /// The text is empty.
    Empty,
    /// The text holds something other than an optional `+` and digits.
    InvalidDigit,
    /// The number is too large for the type.
    PosOverflow,
}

/// The kind of error reading `s` as an unsigned number gives, when it
/// gives one.
pub open spec fn int_error(s: Seq<char>) -> IntError {
    let d = if s.len() > 0 && s[0] == '+' {
        s.drop_first()
    } else {
        s
    };
    if s.len() == 0 {
        IntError::Empty
    } else if d.len() > 0 && all_digits(d) {
        IntError::PosOverflow
    } else {
        IntError::InvalidDigit
    }
}

/// The message of an `IntError`, as `ParseIntError` displays it.
pub open spec fn int_error_text(e: IntError) -> Seq<char> {
    match e {
        IntError::Empty => "cannot parse integer from empty string"@,
        IntError::InvalidDigit => "invalid digit found in string"@,
        IntError::PosOverflow => "number too large to fit in target type"@,
    }
}

impl IntError {
    /// The error's message.
    pub fn message(&self) -> (r: String)
        ensures
            r@ == int_error_text(*self),
    {
        match self {
            IntError::Empty => string_of(chars_of("cannot parse integer from empty string").as_slice()),
            IntError::InvalidDigit => string_of(chars_of("invalid digit found in string").as_slice()),
            IntError::PosOverflow => string_of(
                chars_of("number too large to fit in target type").as_slice(),
            ),
        }
    }
}

/// Executable `int_error`.
pub fn int_error_of(v: &Vec<char>) -> (r: IntError)
    ensures
        r == int_error(v@),
{
    if v.len() == 0 {
        return IntError::Empty;
    }
    let start: usize = if v[0] == '+' {
        1
    } else {
        0
    };
    let ghost d = if v@[0] == '+' {
        v@.drop_first()
    } else {
        v@
    };
    assert(d =~= v@.skip(start as int));
    if start == v.len() {
        return IntError::InvalidDigit;
    }
    let mut i = start;
    while i < v.len()
        invariant
            v.len() > 0,
            start == (if v@[0] == '+' {
                1usize
            } else {
                0usize
            }),
            start <= i <= v.len(),
            d == v@.skip(start as int),
            forall|j: int| start <= j < i ==> is_digit(v@[j]),
        decreases v.len() - i,
    {
        let u = v[i] as u32;
        if !(48 <= u && u <= 57) {
            assert(d[i - start] == v@[i as int]);
            assert(!is_digit(d[i - start]));
            assert(!all_digits(d));
            return IntError::InvalidDigit;
        }
        i += 1;
    }
    assert(all_digits(d)) by {
        assert forall|j: int| 0 <= j < d.len() implies is_digit(#[trigger] d[j]) by {
            assert(d[j] == v@[j + start]);
        }
    }
    IntError::PosOverflow
}

/// Decimal text is made of digits, and reads as the number.
pub proof fn lemma_dec_digits(n: nat)
    ensures
        dec(n).len() > 0,
        all_digits(dec(n)),
        digits_value(dec(n)) == n,
    decreases n,
{
    lemma_digit(n % 10);
    if n >= 10 {
        lemma_dec_digits(n / 10);
        let s = dec(n);
        assert(s.drop_last() =~= dec(n / 10));
        assert(s.last() == digit(n % 10));
        assert(n == (n / 10) * 10 + n % 10) by (nonlinear_arith);
        assert(all_digits(s)) by {
            assert forall|i: int| 0 <= i < s.len() implies is_digit(#[trigger] s[i]) by {
                if i < s.len() - 1 {
                    assert(s[i] == dec(n / 10)[i]);
                }
            }
        }
    } else {
        assert(dec(n).drop_last() =~= Seq::<char>::empty());
        assert(digits_value(Seq::<char>::empty()) == 0);
    }
}

} // verus!
