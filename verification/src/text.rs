//! Character-level string helpers shared by the policy code.
//!
//! Strings are reasoned about through their `Seq<char>` views. The helpers
//! here copy a string into a `Vec<char>` once and then work on indices.
use vstd::prelude::*;

verus! {

/// `String::push`: claimed to append the one character `c` to `s`, as the
/// standard library documents.
#[verifier::external_body]
pub(crate) fn push_char(s: &mut String, c: char)
    ensures
        final(s)@ == old(s)@.push(c),
{
    s.push(c);
}

/// The characters of `s`, in order.
pub fn chars_of(s: &str) -> (out: Vec<char>)
    ensures
        out@ == s@,
{
    let mut out: Vec<char> = Vec::new();
    for c in it: s.chars()
        invariant
            out@ == it.seq().take(it.index() as int),
    {
        out.push(c);
    }
    out
}

/// The string made of `v[lo..hi]`.
pub fn string_of(v: &Vec<char>, lo: usize, hi: usize) -> (out: String)
    requires
        lo <= hi <= v.len(),
    ensures
        out@ == v@.subrange(lo as int, hi as int),
{
    let mut out = String::new();
    let mut i = lo;
    while i < hi
        invariant
            lo <= i <= hi <= v.len(),
            out@ == v@.subrange(lo as int, i as int),
        decreases hi - i,
    {
        push_char(&mut out, v[i]);
        assert(v@.subrange(lo as int, i + 1) == v@.subrange(lo as int, i as int).push(v@[i as int]));
        i += 1;
    }
    out
}

/// A copy of `s` as an owned string.
pub fn owned(s: &str) -> (out: String)
    ensures
        out@ == s@,
{
    let v = chars_of(s);
    let out = string_of(&v, 0, v.len());
    assert(v@.subrange(0, v.len() as int) == v@);
    out
}

/// Append `t` to `s`.
pub fn append_str(s: &mut String, t: &str)
    ensures
        final(s)@ == old(s)@ + t@,
{
    let v = chars_of(t);
    let mut i: usize = 0;
    while i < v.len()
        invariant
            i <= v.len(),
            v@ == t@,
            s@ == old(s)@ + v@.take(i as int),
        decreases v.len() - i,
    {
        push_char(s, v[i]);
        assert(v@.take(i + 1) == v@.take(i as int).push(v@[i as int]));
        i += 1;
    }
    assert(v@.take(v.len() as int) == v@);
}

/// Unicode `White_Space`, the property that `char::is_whitespace` and
/// `str::trim` go by.
pub open spec fn is_ws(c: char) -> bool {
    let u = c as u32;
    ||| 0x09 <= u <= 0x0D
    ||| u == 0x20
    ||| u == 0x85
    ||| u == 0xA0
    ||| u == 0x1680
    ||| 0x2000 <= u <= 0x200A
    ||| u == 0x2028
    ||| u == 0x2029
    ||| u == 0x202F
    ||| u == 0x205F
    ||| u == 0x3000
}

pub fn is_ws_exec(c: char) -> (b: bool)
    ensures
        b == is_ws(c),
{
    let u = c as u32;
    (0x09 <= u && u <= 0x0D) || u == 0x20 || u == 0x85 || u == 0xA0 || u == 0x1680 || (0x2000 <= u
        && u <= 0x200A) || u == 0x2028 || u == 0x2029 || u == 0x202F || u == 0x205F || u == 0x3000
}

/// `s` without its leading white space.
pub open spec fn trim_start(s: Seq<char>) -> Seq<char>
    decreases s.len(),
{
    if s.len() > 0 && is_ws(s[0]) {
        trim_start(s.drop_first())
    } else {
        s
    }
}

/// `s` without its trailing white space.
pub open spec fn trim_end(s: Seq<char>) -> Seq<char>
    decreases s.len(),
{
    if s.len() > 0 && is_ws(s.last()) {
        trim_end(s.drop_last())
    } else {
        s
    }
}

/// What `str::trim` leaves of `s`.
pub open spec fn trim(s: Seq<char>) -> Seq<char> {
    trim_end(trim_start(s))
}

proof fn lemma_trim_start_at(s: Seq<char>, i: int)
    requires
        0 <= i <= s.len(),
        forall|k: int| 0 <= k < i ==> is_ws(#[trigger] s[k]),
        i == s.len() || !is_ws(s[i]),
    ensures
        trim_start(s) == s.subrange(i, s.len() as int),
    decreases i,
{
    if i == 0 {
        assert(s.subrange(0, s.len() as int) == s);
    } else {
        let t = s.drop_first();
        assert forall|k: int| 0 <= k < i - 1 implies is_ws(#[trigger] t[k]) by {
            assert(t[k] == s[k + 1]);
        }
        if i - 1 < t.len() {
            assert(t[i - 1] == s[i]);
        }
        lemma_trim_start_at(t, i - 1);
        assert(t.subrange(i - 1, t.len() as int) == s.subrange(i, s.len() as int));
    }
}

proof fn lemma_trim_end_at(s: Seq<char>, j: int)
    requires
        0 <= j <= s.len(),
        forall|k: int| j <= k < s.len() ==> is_ws(#[trigger] s[k]),
        j == 0 || !is_ws(s[j - 1]),
    ensures
        trim_end(s) == s.subrange(0, j),
    decreases s.len() - j,
{
    if j == s.len() {
        assert(s.subrange(0, j) == s);
    } else {
        let t = s.drop_last();
        assert forall|k: int| j <= k < t.len() implies is_ws(#[trigger] t[k]) by {
            assert(t[k] == s[k]);
        }
        if j > 0 {
            assert(t[j - 1] == s[j - 1]);
        }
        lemma_trim_end_at(t, j);
        assert(t.subrange(0, j) == s.subrange(0, j));
    }
}

/// The bounds `[lo, hi)` of `trim(v)` inside `v`.
pub fn trim_bounds(v: &Vec<char>) -> (r: (usize, usize))
    ensures
        r.0 <= r.1 <= v.len(),
        v@.subrange(r.0 as int, r.1 as int) == trim(v@),
{
    let mut lo: usize = 0;
    while lo < v.len() && is_ws_exec(v[lo])
        invariant
            lo <= v.len(),
            forall|k: int| 0 <= k < lo ==> is_ws(#[trigger] v@[k]),
        decreases v.len() - lo,
    {
        lo += 1;
    }
    proof {
        lemma_trim_start_at(v@, lo as int);
    }
    let mut hi: usize = v.len();
    while hi > lo && is_ws_exec(v[hi - 1])
        invariant
            lo <= hi <= v.len(),
            forall|k: int| hi <= k < v.len() ==> is_ws(#[trigger] v@[k]),
        decreases hi,
    {
        hi -= 1;
    }
    proof {
        let t = v@.subrange(lo as int, v.len() as int);
        assert forall|k: int| hi - lo <= k < t.len() implies is_ws(#[trigger] t[k]) by {
            assert(t[k] == v@[k + lo]);
        }
        if hi > lo {
            assert(t[hi - lo - 1] == v@[hi - 1]);
        }
        lemma_trim_end_at(t, hi - lo);
        assert(t.subrange(0, hi - lo) == v@.subrange(lo as int, hi as int));
    }
    (lo, hi)
}

/// `str::trim`, as an owned string.
pub fn trimmed(s: &str) -> (out: String)
    ensures
        out@ == trim(s@),
{
    let v = chars_of(s);
    let (lo, hi) = trim_bounds(&v);
    string_of(&v, lo, hi)
}

/// `str::starts_with` for a string pattern.
pub fn starts_with(s: &str, p: &str) -> (b: bool)
    ensures
        b == p@.is_prefix_of(s@),
{
    let sv = chars_of(s);
    let pv = chars_of(p);
    if pv.len() > sv.len() {
        return false;
    }
    let mut i: usize = 0;
    while i < pv.len()
        invariant
            i <= pv.len() <= sv.len(),
            sv@ == s@,
            pv@ == p@,
            forall|k: int| 0 <= k < i ==> pv@[k] == sv@[k],
        decreases pv.len() - i,
    {
        if pv[i] != sv[i] {
            return false;
        }
        i += 1;
    }
    true
}

/// `str == str`.
pub fn str_eq(a: &str, b: &str) -> (r: bool)
    ensures
        r == (a@ == b@),
{
    let av = chars_of(a);
    let bv = chars_of(b);
    if av.len() != bv.len() {
        return false;
    }
    let mut i: usize = 0;
    while i < av.len()
        invariant
            i <= av.len() == bv.len(),
            av@ == a@,
            bv@ == b@,
            forall|k: int| 0 <= k < i ==> av@[k] == bv@[k],
        decreases av.len() - i,
    {
        if av[i] != bv[i] {
            return false;
        }
        i += 1;
    }
    assert(av@ =~= bv@);
    true
}


/// `char::to_ascii_lowercase`.
pub open spec fn ascii_lower(c: char) -> int {
    if 'A' <= c <= 'Z' {
        (c as u32) + 32
    } else {
        c as u32 as int
    }
}

/// `str::eq_ignore_ascii_case`: equal after lowering ASCII letters.
pub open spec fn eq_ignore_ascii_case(a: Seq<char>, b: Seq<char>) -> bool {
    &&& a.len() == b.len()
    &&& forall|i: int| 0 <= i < a.len() ==> ascii_lower(#[trigger] a[i]) == ascii_lower(b[i])
}

fn ascii_lower_exec(c: char) -> (u: u32)
    ensures
        u == ascii_lower(c),
{
    if 'A' <= c && c <= 'Z' {
        (c as u32) + 32
    } else {
        c as u32
    }
}

pub fn eq_ignore_ascii_case_exec(a: &str, b: &str) -> (r: bool)
    ensures
        r == eq_ignore_ascii_case(a@, b@),
{
    let av = chars_of(a);
    let bv = chars_of(b);
    if av.len() != bv.len() {
        return false;
    }
    let mut i: usize = 0;
    while i < av.len()
        invariant
            i <= av.len() == bv.len(),
            av@ == a@,
            bv@ == b@,
            forall|k: int| 0 <= k < i ==> ascii_lower(#[trigger] av@[k]) == ascii_lower(bv@[k]),
        decreases av.len() - i,
    {
        if ascii_lower_exec(av[i]) != ascii_lower_exec(bv[i]) {
            return false;
        }
        i += 1;
    }
    true
}

/// The first piece of `s` when split on `"__"`: what
/// `s.split("__").next()` yields.
pub open spec fn first_segment(s: Seq<char>) -> Seq<char>
    decreases s.len(),
{
    if s.len() < 2 {
        s
    } else if s[0] == '_' && s[1] == '_' {
        Seq::empty()
    } else {
        seq![s[0]] + first_segment(s.drop_first())
    }
}

/// A `"__"` starts at index `k` of `s`.
pub open spec fn double_underscore_at(s: Seq<char>, k: int) -> bool {
    0 <= k && k + 1 < s.len() && s[k] == '_' && s[k + 1] == '_'
}

proof fn lemma_first_segment_at(s: Seq<char>, i: int)
    requires
        0 <= i <= s.len(),
        forall|k: int| 0 <= k < i ==> !#[trigger] double_underscore_at(s, k),
        i == s.len() || double_underscore_at(s, i),
    ensures
        first_segment(s) == s.take(i),
    decreases i,
{
    if s.len() < 2 {
        assert(s.take(i) == s);
    } else if i == 0 {
        assert(s.take(0) == Seq::<char>::empty());
    } else {
        let t = s.drop_first();
        assert(!double_underscore_at(s, 0));
        assert forall|k: int| 0 <= k < i - 1 implies !#[trigger] double_underscore_at(t, k) by {
            assert(!double_underscore_at(s, k + 1));
        }
        if i < s.len() {
            assert(double_underscore_at(s, i));
            assert(double_underscore_at(t, i - 1));
        }
        lemma_first_segment_at(t, i - 1);
        assert(seq![s[0]] + t.take(i - 1) == s.take(i));
    }
}

/// The end of the first `"__"`-separated piece of `v`.
pub fn first_segment_end(v: &Vec<char>) -> (e: usize)
    ensures
        e <= v.len(),
        v@.take(e as int) == first_segment(v@),
{
    let mut i: usize = 0;
    while i < v.len() && !(i + 1 < v.len() && v[i] == '_' && v[i + 1] == '_')
        invariant
            i <= v.len(),
            forall|k: int| 0 <= k < i ==> !#[trigger] double_underscore_at(v@, k),
        decreases v.len() - i,
    {
        i += 1;
    }
    proof {
        lemma_first_segment_at(v@, i as int);
    }
    i
}

/// The decimal digit for `d`.
pub open spec fn digit(d: nat) -> char {
    if d == 0 {
        '0'
    } else if d == 1 {
        '1'
    } else if d == 2 {
        '2'
    } else if d == 3 {
        '3'
    } else if d == 4 {
        '4'
    } else if d == 5 {
        '5'
    } else if d == 6 {
        '6'
    } else if d == 7 {
        '7'
    } else if d == 8 {
        '8'
    } else {
        '9'
    }
}

/// The decimal text of `n`, as `Display` writes an unsigned integer.
pub open spec fn decimal(n: nat) -> Seq<char>
    decreases n,
{
    if n < 10 {
        seq![digit(n)]
    } else {
        decimal(n / 10).push(digit(n % 10))
    }
}

fn digit_exec(d: usize) -> (c: char)
    requires
        d < 10,
    ensures
        c == digit(d as nat),
{
    if d == 0 {
        '0'
    } else if d == 1 {
        '1'
    } else if d == 2 {
        '2'
    } else if d == 3 {
        '3'
    } else if d == 4 {
        '4'
    } else if d == 5 {
        '5'
    } else if d == 6 {
        '6'
    } else if d == 7 {
        '7'
    } else if d == 8 {
        '8'
    } else {
        '9'
    }
}

/// Append the decimal text of `n` to `s`.
pub fn push_decimal(s: &mut String, n: usize)
    ensures
        final(s)@ == old(s)@ + decimal(n as nat),
    decreases n,
{
    if n >= 10 {
        push_decimal(s, n / 10);
    }
    push_char(s, digit_exec(n % 10));
    proof {
        if n >= 10 {
            assert(decimal(n as nat) == decimal((n / 10) as nat).push(digit((n % 10) as nat)));
        }
    }
}

/// Strict lexicographic order on characters by code point. For UTF-8 text
/// this is the order `str`'s `Ord` gives, which compares the bytes.
pub open spec fn lex_lt(a: Seq<char>, b: Seq<char>) -> bool
    decreases a.len(),
{
    if a.len() == 0 {
        b.len() > 0
    } else if b.len() == 0 {
        false
    } else if a[0] != b[0] {
        a[0] < b[0]
    } else {
        lex_lt(a.drop_first(), b.drop_first())
    }
}

pub proof fn lemma_lex_irreflexive(a: Seq<char>)
    ensures
        !lex_lt(a, a),
    decreases a.len(),
{
    if a.len() > 0 {
        lemma_lex_irreflexive(a.drop_first());
    }
}

pub proof fn lemma_lex_transitive(a: Seq<char>, b: Seq<char>, c: Seq<char>)
    requires
        lex_lt(a, b),
        lex_lt(b, c),
    ensures
        lex_lt(a, c),
    decreases a.len(),
{
    if a.len() > 0 && b.len() > 0 && c.len() > 0 && a[0] == b[0] && b[0] == c[0] {
        lemma_lex_transitive(a.drop_first(), b.drop_first(), c.drop_first());
    }
}

pub proof fn lemma_lex_total(a: Seq<char>, b: Seq<char>)
    requires
        a != b,
    ensures
        lex_lt(a, b) || lex_lt(b, a),
    decreases a.len(),
{
    if a.len() > 0 && b.len() > 0 {
        if a[0] == b[0] {
            if a.drop_first() == b.drop_first() {
                assert(a =~= b) by {
                    assert(a.drop_first().len() == b.drop_first().len());
                    assert forall|k: int| 0 <= k < a.len() implies a[k] == b[k] by {
                        if k > 0 {
                            assert(a[k] == a.drop_first()[k - 1]);
                            assert(b[k] == b.drop_first()[k - 1]);
                        }
                    }
                }
            } else {
                lemma_lex_total(a.drop_first(), b.drop_first());
            }
        }
    } else if a.len() == 0 && b.len() == 0 {
        assert(a =~= b);
    }
}

pub proof fn lemma_lex_asymmetric(a: Seq<char>, b: Seq<char>)
    requires
        lex_lt(a, b),
    ensures
        !lex_lt(b, a),
{
    if lex_lt(b, a) {
        lemma_lex_transitive(a, b, a);
        lemma_lex_irreflexive(a);
    }
}

/// `lex_lt` on two character vectors.
pub fn lex_lt_exec(a: &Vec<char>, b: &Vec<char>) -> (r: bool)
    ensures
        r == lex_lt(a@, b@),
{
    let mut i: usize = 0;
    assert(a@.skip(0) == a@ && b@.skip(0) == b@);
    while i < a.len() && i < b.len() && a[i] == b[i]
        invariant
            i <= a.len(),
            i <= b.len(),
            lex_lt(a@, b@) == lex_lt(a@.skip(i as int), b@.skip(i as int)),
        decreases a.len() - i,
    {
        proof {
            let sa = a@.skip(i as int);
            let sb = b@.skip(i as int);
            assert(sa.drop_first() == a@.skip(i + 1));
            assert(sb.drop_first() == b@.skip(i + 1));
        }
        i += 1;
    }
    if i == a.len() {
        i < b.len()
    } else if i == b.len() {
        false
    } else {
        proof {
            assert(a@.skip(i as int)[0] == a@[i as int]);
            assert(b@.skip(i as int)[0] == b@[i as int]);
        }
        a[i] < b[i]
    }
}

/// `s` is strictly increasing in `lex_lt`.
pub open spec fn strictly_sorted(s: Seq<Seq<char>>) -> bool {
    forall|i: int, j: int| 0 <= i < j < s.len() ==> lex_lt(#[trigger] s[i], #[trigger] s[j])
}


/// A string made only of white space trims to nothing.
pub proof fn lemma_trim_all_white_space(s: Seq<char>)
    requires
        forall|i: int| 0 <= i < s.len() ==> is_ws(#[trigger] s[i]),
    ensures
        trim(s).len() == 0,
    decreases s.len(),
{
    if s.len() > 0 {
        let t = s.drop_first();
        assert forall|i: int| 0 <= i < t.len() implies is_ws(#[trigger] t[i]) by {
            assert(t[i] == s[i + 1]);
        }
        lemma_trim_all_white_space(t);
        assert(is_ws(s[0]));
        assert(trim_start(s) == trim_start(t));
    } else {
        assert(trim_start(s) == s);
    }
}

/// The first `"__"`-separated piece of `s` is the text of `s` before the
/// first place where two underscores stand side by side, and the whole of
/// `s` when no two do: it is a prefix of `s`, no `"__"` starts inside it,
/// and it ends either at the end of `s` or right before a `"__"`.
pub proof fn law_first_segment(s: Seq<char>)
    ensures
        first_segment(s).is_prefix_of(s),
        forall|k: int|
            0 <= k < first_segment(s).len() && k + 1 < s.len() ==> !(s[k] == '_' && #[trigger] s[k
                + 1] == '_'),
        first_segment(s).len() == s.len() || (first_segment(s).len() + 1 < s.len() && s[first_segment(
            s,
        ).len() as int] == '_' && s[first_segment(s).len() + 1int] == '_'),
        (forall|k: int| 0 <= k && k + 1 < s.len() ==> !(s[k] == '_' && #[trigger] s[k + 1] == '_'))
            ==> first_segment(s) == s,
    decreases s.len(),
{
    if s.len() < 2 {
    } else if s[0] == '_' && s[1] == '_' {
    } else {
        let t = s.drop_first();
        law_first_segment(t);
        let f = first_segment(t);
        assert(first_segment(s) == seq![s[0]] + f);
        assert forall|k: int| 0 <= k < f.len() + 1 implies (seq![s[0]] + f)[k] == s[k] by {
            if k > 0 {
                assert(f[k - 1] == t[k - 1]);
            }
        }
        assert forall|k: int| 0 <= k < f.len() + 1 && k + 1 < s.len() implies !(s[k] == '_' && #[trigger] s[k + 1] == '_') by {
            if k > 0 {
                assert(t[k - 1] == s[k] && t[k] == s[k + 1]);
            }
        }
        if f.len() < t.len() {
            assert(t[f.len() as int] == s[f.len() + 1int]);
            assert(t[f.len() + 1int] == s[f.len() + 2int]);
        }
        if forall|k: int| 0 <= k && k + 1 < s.len() ==> !(s[k] == '_' && #[trigger] s[k + 1] == '_') {
            assert forall|k: int| 0 <= k && k + 1 < t.len() implies !(t[k] == '_' && #[trigger] t[k + 1] == '_') by {
                assert(t[k] == s[k + 1] && t[k + 1] == s[k + 2]);
            }
            assert(seq![s[0]] + t =~= s);
        }
    }
}


} // verus!
