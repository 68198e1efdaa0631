//! Character-level text model shared by the catalog modules.
//!
//! Wire labels are matched after trimming Unicode white space (as `str::trim`
//! does) and folding ASCII case (as `to_ascii_lowercase` / `to_ascii_uppercase`
//! do). The spec functions here say what those operations are on `Seq<char>`.

use vstd::prelude::*;

verus! {

/// Unicode `White_Space` (what `char::is_whitespace` tests).
pub open spec fn is_ws(c: char) -> bool {
    c == '\t' || c == '\n' || c == '\u{0B}' || c == '\u{0C}' || c == '\r' || c == ' '
    || c == '\u{85}' || c == '\u{A0}' || c == '\u{1680}' || ('\u{2000}' <= c && c <= '\u{200A}')
    || c == '\u{2028}' || c == '\u{2029}' || c == '\u{202F}' || c == '\u{205F}' || c == '\u{3000}'
}

pub open spec fn lower_char(c: char) -> char {
    if 'A' <= c && c <= 'Z' { ((c as u32) + 32) as char } else { c }
}

pub open spec fn upper_char(c: char) -> char {
    if 'a' <= c && c <= 'z' { ((c as u32) - 32) as char } else { c }
}

pub open spec fn is_ascii_lower(c: char) -> bool {
    'a' <= c && c <= 'z'
}

pub open spec fn is_ascii_digit(c: char) -> bool {
    '0' <= c && c <= '9'
}

/// ASCII case folding to lower case, char by char.
pub open spec fn lower(s: Seq<char>) -> Seq<char> {
    s.map_values(|c: char| lower_char(c))
}

/// ASCII case folding to upper case, char by char.
pub open spec fn upper(s: Seq<char>) -> Seq<char> {
    s.map_values(|c: char| upper_char(c))
}

/// `s` without its leading white space.
pub open spec fn trim_start(s: Seq<char>) -> Seq<char>
    decreases s.len(),
{
    if s.len() > 0 && is_ws(s[0]) {
        trim_start(s.drop_first())
    } else {
        s
    }
}

/// `s` without its trailing white space.
pub open spec fn trim_end(s: Seq<char>) -> Seq<char>
    decreases s.len(),
{
    if s.len() > 0 && is_ws(s.last()) {
        trim_end(s.drop_last())
    } else {
        s
    }
}

/// What `str::trim` keeps of `s`.
pub open spec fn trimmed(s: Seq<char>) -> Seq<char> {
    trim_end(trim_start(s))
}

/// Trimmed, then ASCII-lowercased: the key most wire labels are matched on.
pub open spec fn norm_lower(s: Seq<char>) -> Seq<char> {
    lower(trimmed(s))
}

/// Trimmed, then ASCII-uppercased.
pub open spec fn norm_upper(s: Seq<char>) -> Seq<char> {
    upper(trimmed(s))
}

pub open spec fn is_blank(s: Seq<char>) -> bool {
    trimmed(s).len() == 0
}

pub open spec fn starts_with(s: Seq<char>, p: Seq<char>) -> bool {
    p.len() <= s.len() && s.subrange(0, p.len() as int) == p
}

pub open spec fn ends_with(s: Seq<char>, p: Seq<char>) -> bool {
    p.len() <= s.len() && s.subrange(s.len() - p.len(), s.len() as int) == p
}

pub open spec fn occurs_at(s: Seq<char>, p: Seq<char>, i: int) -> bool {
    0 <= i && i + p.len() <= s.len() && s.subrange(i, i + p.len()) == p
}

/// `p` occurs somewhere in `s` (what `str::contains` tests for a string pattern).
pub open spec fn contains(s: Seq<char>, p: Seq<char>) -> bool {
    exists|i: int| occurs_at(s, p, i)
}

/// Strict lexicographic order on code points (the order of `String`'s `Ord`).
pub open spec fn lex_lt(a: Seq<char>, b: Seq<char>) -> bool
    decreases a.len(),
{
    if a.len() == 0 {
        b.len() > 0
    } else if b.len() == 0 {
        false
    } else if a[0] != b[0] {
        a[0] < b[0]
    } else {
        lex_lt(a.drop_first(), b.drop_first())
    }
}

pub proof fn lemma_lex_lt_irreflexive(a: Seq<char>)
    ensures
        !lex_lt(a, a),
    decreases a.len(),
{
    if a.len() > 0 {
        lemma_lex_lt_irreflexive(a.drop_first());
    }
}

pub proof fn lemma_lex_lt_transitive(a: Seq<char>, b: Seq<char>, c: Seq<char>)
    requires
        lex_lt(a, b),
        lex_lt(b, c),
    ensures
        lex_lt(a, c),
    decreases a.len(),
{
    if a.len() > 0 && b.len() > 0 && c.len() > 0 {
        if a[0] == b[0] && b[0] == c[0] {
            lemma_lex_lt_transitive(a.drop_first(), b.drop_first(), c.drop_first());
        }
    }
}

pub proof fn lemma_lex_lt_total(a: Seq<char>, b: Seq<char>)
    ensures
        lex_lt(a, b) || lex_lt(b, a) || a == b,
    decreases a.len(),
{
    if a.len() > 0 && b.len() > 0 {
        if a[0] == b[0] {
            lemma_lex_lt_total(a.drop_first(), b.drop_first());
            if a.drop_first() == b.drop_first() {
                assert(a =~= seq![a[0]] + a.drop_first());
                assert(b =~= seq![b[0]] + b.drop_first());
            }
        }
    } else if a.len() == 0 && b.len() == 0 {
        assert(a =~= b);
    }
}

pub proof fn lemma_lex_lt_asymmetric(a: Seq<char>, b: Seq<char>)
    requires
        lex_lt(a, b),
    ensures
        !lex_lt(b, a),
{
    if lex_lt(b, a) {
        lemma_lex_lt_transitive(a, b, a);
        lemma_lex_lt_irreflexive(a);
    }
}

/// `String::push` appends one char.
#[verifier::external_body]
fn push_char(s: &mut String, c: char)
    ensures
        final(s)@ == old(s)@.push(c),
{
    s.push(c);
}

pub fn is_ws_exec(c: char) -> (r: bool)
    ensures
        r == is_ws(c),
{
    c == '\t' || c == '\n' || c == '\u{0B}' || c == '\u{0C}' || c == '\r' || c == ' '
    || c == '\u{85}' || c == '\u{A0}' || c == '\u{1680}' || (c >= '\u{2000}' && c <= '\u{200A}')
    || c == '\u{2028}' || c == '\u{2029}' || c == '\u{202F}' || c == '\u{205F}' || c == '\u{3000}'
}

pub fn lower_char_exec(c: char) -> (r: char)
    ensures
        r == lower_char(c),
{
    if c >= 'A' && c <= 'Z' {
        ((c as u8) + 32u8) as char
    } else {
        c
    }
}

pub fn upper_char_exec(c: char) -> (r: char)
    ensures
        r == upper_char(c),
{
    if c >= 'a' && c <= 'z' {
        ((c as u8) - 32u8) as char
    } else {
        c
    }
}

/// The characters of `s`, in order.
pub fn chars_of(s: &str) -> (out: Vec<char>)
    ensures
        out@ == s@,
{
    let mut out: Vec<char> = Vec::new();
    for c in it: s.chars()
        invariant
            out@ == it.seq().take(it.index() as int),
    {
        out.push(c);
    }
    out
}

/// An owned string holding exactly the chars of `v`.
pub fn string_from(v: &Vec<char>) -> (out: String)
    ensures
        out@ == v@,
{
    let mut out = String::new();
    let n = v.len();
    let mut i: usize = 0;
    while i < n
        invariant
            n == v.len(),
            i <= n,
            out@ == v@.take(i as int),
        decreases n - i,
    {
        push_char(&mut out, v[i]);
        assert(v@.take(i as int).push(v@[i as int]) =~= v@.take(i + 1));
        i = i + 1;
    }
    assert(v@.take(n as int) =~= v@);
    out
}

/// Owned copy of a string slice.
pub fn owned(s: &str) -> (out: String)
    ensures
        out@ == s@,
{
    s.to_owned()
}

/// The chars of `v` between `lo` and `hi`.
pub fn slice_chars(v: &Vec<char>, lo: usize, hi: usize) -> (out: Vec<char>)
    requires
        lo <= hi <= v.len(),
    ensures
        out@ == v@.subrange(lo as int, hi as int),
{
    let mut out: Vec<char> = Vec::new();
    let mut i = lo;
    while i < hi
        invariant
            lo <= i <= hi,
            hi <= v.len(),
            out@ == v@.subrange(lo as int, i as int),
        decreases hi - i,
    {
        out.push(v[i]);
        assert(v@.subrange(lo as int, i as int).push(v@[i as int]) =~= v@.subrange(
            lo as int,
            i + 1,
        ));
        i = i + 1;
    }
    out
}

/// `v` without leading or trailing white space.
pub fn trim_chars(v: &Vec<char>) -> (out: Vec<char>)
    ensures
        out@ == trimmed(v@),
{
    let n = v.len();
    let mut lo: usize = 0;
    assert(v@.subrange(0, n as int) =~= v@);
    while lo < n && is_ws_exec(v[lo])
        invariant
            lo <= n,
            n == v.len(),
            trim_start(v@) == trim_start(v@.subrange(lo as int, n as int)),
        decreases n - lo,
    {
        assert(v@.subrange(lo as int, n as int).drop_first() =~= v@.subrange(lo + 1, n as int));
        lo = lo + 1;
    }
    assert(trim_start(v@) == v@.subrange(lo as int, n as int));
    let mut hi: usize = n;
    while hi > lo && is_ws_exec(v[hi - 1])
        invariant
            lo <= hi <= n,
            n == v.len(),
            trim_end(v@.subrange(lo as int, n as int)) == trim_end(
                v@.subrange(lo as int, hi as int),
            ),
        decreases hi,
    {
        assert(v@.subrange(lo as int, hi as int).drop_last() =~= v@.subrange(
            lo as int,
            hi - 1,
        ));
        hi = hi - 1;
    }
    assert(trim_end(v@.subrange(lo as int, hi as int)) == v@.subrange(lo as int, hi as int));
    slice_chars(v, lo, hi)
}

/// ASCII lower-case folding of `v`.
pub fn lower_chars(v: &Vec<char>) -> (out: Vec<char>)
    ensures
        out@ == lower(v@),
{
    let mut out: Vec<char> = Vec::new();
    let n = v.len();
    let mut i: usize = 0;
    while i < n
        invariant
            n == v.len(),
            i <= n,
            out@ == lower(v@.take(i as int)),
        decreases n - i,
    {
        out.push(lower_char_exec(v[i]));
        assert(lower(v@.take(i + 1)) =~= lower(v@.take(i as int)).push(lower_char(v@[i as int])));
        i = i + 1;
    }
    assert(v@.take(n as int) =~= v@);
    out
}

/// ASCII upper-case folding of `v`.
pub fn upper_chars(v: &Vec<char>) -> (out: Vec<char>)
    ensures
        out@ == upper(v@),
{
    let mut out: Vec<char> = Vec::new();
    let n = v.len();
    let mut i: usize = 0;
    while i < n
        invariant
            n == v.len(),
            i <= n,
            out@ == upper(v@.take(i as int)),
        decreases n - i,
    {
        out.push(upper_char_exec(v[i]));
        assert(upper(v@.take(i + 1)) =~= upper(v@.take(i as int)).push(upper_char(v@[i as int])));
        i = i + 1;
    }
    assert(v@.take(n as int) =~= v@);
    out
}

/// Trimmed, ASCII-lowercased chars of `raw`.
pub fn norm_lower_of(raw: &str) -> (out: Vec<char>)
    ensures
        out@ == norm_lower(raw@),
{
    let v = chars_of(raw);
    let t = trim_chars(&v);
    lower_chars(&t)
}

/// Trimmed, ASCII-uppercased chars of `raw`.
pub fn norm_upper_of(raw: &str) -> (out: Vec<char>)
    ensures
        out@ == norm_upper(raw@),
{
    let v = chars_of(raw);
    let t = trim_chars(&v);
    upper_chars(&t)
}

/// Trimmed chars of `raw`.
pub fn trimmed_of(raw: &str) -> (out: Vec<char>)
    ensures
        out@ == trimmed(raw@),
{
    let v = chars_of(raw);
    trim_chars(&v)
}

/// Whether `a` and `b` hold the same chars.
pub fn same_chars(a: &Vec<char>, b: &Vec<char>) -> (r: bool)
    ensures
        r == (a@ == b@),
{
    if a.len() != b.len() {
        return false;
    }
    let n = a.len();
    let mut i: usize = 0;
    while i < n
        invariant
            n == a.len(),
            n == b.len(),
            i <= n,
            forall|j: int| 0 <= j < i ==> a@[j] == b@[j],
        decreases n - i,
    {
        if a[i] != b[i] {
            return false;
        }
        i = i + 1;
    }
    assert(a@ =~= b@);
    true
}

/// Whether `v` holds exactly the chars of `lit`.
pub fn eq_lit(v: &Vec<char>, lit: &str) -> (r: bool)
    ensures
        r == (v@ == lit@),
{
    let l = chars_of(lit);
    same_chars(v, &l)
}

/// Whether `p` occurs in `s` at index `i`.
pub fn occurs_at_exec(s: &Vec<char>, p: &Vec<char>, i: usize) -> (r: bool)
    ensures
        r == occurs_at(s@, p@, i as int),
{
    if i > s.len() || p.len() > s.len() - i {
        return false;
    }
    let n = p.len();
    let mut j: usize = 0;
    while j < n
        invariant
            n == p.len(),
            i + n <= s.len(),
            j <= n,
            forall|k: int| 0 <= k < j ==> s@[i + k] == p@[k],
        decreases n - j,
    {
        if s[i + j] != p[j] {
            assert(s@.subrange(i as int, i + n)[j as int] != p@[j as int]);
            return false;
        }
        j = j + 1;
    }
    assert(s@.subrange(i as int, i + n) =~= p@);
    true
}

/// Whether `s` starts with `p`.
pub fn starts_with_exec(s: &Vec<char>, p: &Vec<char>) -> (r: bool)
    ensures
        r == starts_with(s@, p@),
{
    occurs_at_exec(s, p, 0)
}

/// Whether `s` ends with `p`.
pub fn ends_with_exec(s: &Vec<char>, p: &Vec<char>) -> (r: bool)
    ensures
        r == ends_with(s@, p@),
{
    if p.len() > s.len() {
        return false;
    }
    occurs_at_exec(s, p, s.len() - p.len())
}

/// Whether `p` occurs anywhere in `s`.
pub fn contains_exec(s: &Vec<char>, p: &Vec<char>) -> (r: bool)
    ensures
        r == contains(s@, p@),
{
    if p.len() > s.len() {
        assert forall|i: int| !occurs_at(s@, p@, i) by {}
        return false;
    }
    let last = s.len() - p.len();
    let mut i: usize = 0;
    loop
        invariant
            last == s.len() - p.len(),
            p.len() <= s.len(),
            i <= last,
            forall|k: int| 0 <= k < i ==> !occurs_at(s@, p@, k),
        ensures
            forall|k: int| 0 <= k <= last ==> !occurs_at(s@, p@, k),
        decreases last - i,
    {
        if occurs_at_exec(s, p, i) {
            return true;
        }
        if i == last {
            break;
        }
        i = i + 1;
    }
    assert forall|k: int| !occurs_at(s@, p@, k) by {
        if 0 <= k <= last {
        }
    }
    false
}

/// Whether `a` sorts strictly before `b`.
pub fn lex_lt_exec(a: &Vec<char>, b: &Vec<char>) -> (r: bool)
    ensures
        r == lex_lt(a@, b@),
{
    let mut i: usize = 0;
    assert(a@.skip(0) =~= a@);
    assert(b@.skip(0) =~= b@);
    while i < a.len() && i < b.len() && a[i] == b[i]
        invariant
            i <= a.len(),
            i <= b.len(),
            lex_lt(a@, b@) == lex_lt(a@.skip(i as int), b@.skip(i as int)),
        decreases a.len() - i,
    {
        assert(a@.skip(i as int).drop_first() =~= a@.skip(i + 1));
        assert(b@.skip(i as int).drop_first() =~= b@.skip(i + 1));
        i = i + 1;
    }
    if i == a.len() {
        i < b.len()
    } else if i == b.len() {
        false
    } else {
        a[i] < b[i]
    }
}

} // verus!

verus! {

/// The char sequences of a list of labels.
pub open spec fn views(labels: Seq<&str>) -> Seq<Seq<char>> {
    labels.map_values(|s: &str| s@)
}

/// Whether `k` equals one of `labels`.
pub fn key_in(k: &Vec<char>, labels: &[&str]) -> (r: bool)
    ensures
        r == views(labels@).contains(k@),
{
    let n = labels.len();
    let mut i: usize = 0;
    while i < n
        invariant
            n == labels@.len(),
            i <= n,
            forall|j: int| 0 <= j < i ==> labels@[j]@ != k@,
        decreases n - i,
    {
        if eq_lit(k, labels[i]) {
            assert(views(labels@)[i as int] == k@);
            return true;
        }
        i = i + 1;
    }
    assert(!views(labels@).contains(k@)) by {
        if views(labels@).contains(k@) {
            let j = choose|j: int| 0 <= j < views(labels@).len() && views(labels@)[j] == k@;
            assert(labels@[j]@ == k@);
        }
    }
    false
}

} // verus!

verus! {

/// A label with no surrounding white space and no ASCII upper case is its own
/// normalized key.
pub proof fn lemma_norm_lower_plain(s: Seq<char>)
    requires
        s.len() > 0 ==> !is_ws(s[0]) && !is_ws(s.last()),
        forall|i: int| 0 <= i < s.len() ==> !('A' <= #[trigger] s[i] && s[i] <= 'Z'),
    ensures
        norm_lower(s) == s,
{
    assert(trim_start(s) == s);
    assert(trim_end(s) == s);
    assert(lower(s) =~= s);
}

/// A label with no surrounding white space and no ASCII lower case is its own
/// upper-case key.
pub proof fn lemma_norm_upper_plain(s: Seq<char>)
    requires
        s.len() > 0 ==> !is_ws(s[0]) && !is_ws(s.last()),
        forall|i: int| 0 <= i < s.len() ==> !('a' <= #[trigger] s[i] && s[i] <= 'z'),
    ensures
        norm_upper(s) == s,
{
    assert(trim_start(s) == s);
    assert(trim_end(s) == s);
    assert(upper(s) =~= s);
}

/// A label with no surrounding white space is its own trimmed form.
pub proof fn lemma_trimmed_plain(s: Seq<char>)
    requires
        s.len() > 0 ==> !is_ws(s[0]) && !is_ws(s.last()),
    ensures
        trimmed(s) == s,
{
    assert(trim_start(s) == s);
    assert(trim_end(s) == s);
}

} // verus!

verus! {

pub proof fn lemma_push_contains<A>(s: Seq<A>, a: A, x: A)
    ensures
        s.push(a).contains(x) <==> (s.contains(x) || x == a),
{
    if s.push(a).contains(x) {
        let j = choose|j: int| 0 <= j < s.push(a).len() && #[trigger] s.push(a)[j] == x;
        if j < s.len() {
            assert(s[j] == x);
        }
    }
    if s.contains(x) {
        let j = choose|j: int| 0 <= j < s.len() && #[trigger] s[j] == x;
        assert(s.push(a)[j] == x);
    }
    if x == a {
        assert(s.push(a)[s.len() as int] == x);
    }
}

/// Strictly increasing in lexicographic order (so also free of duplicates).
pub open spec fn strictly_sorted(s: Seq<Seq<char>>) -> bool {
    forall|i: int, j: int| 0 <= i < j < s.len() ==> lex_lt(#[trigger] s[i], #[trigger] s[j])
}

/// The char sequences of a list of owned strings.
pub open spec fn string_views(v: Seq<String>) -> Seq<Seq<char>> {
    v.map_values(|s: String| s@)
}

/// The chars of each string in `v`.
pub fn chars_of_all(v: &Vec<String>) -> (out: Vec<Vec<char>>)
    ensures
        out@.len() == v@.len(),
        forall|i: int| 0 <= i < v@.len() ==> (#[trigger] out@[i])@ == v@[i]@,
{
    let mut out: Vec<Vec<char>> = Vec::new();
    let n = v.len();
    let mut i: usize = 0;
    while i < n
        invariant
            n == v.len(),
            i <= n,
            out@.len() == i,
            forall|j: int| 0 <= j < i ==> (#[trigger] out@[j])@ == v@[j]@,
        decreases n - i,
    {
        out.push(chars_of(v[i].as_str()));
        i = i + 1;
    }
    out
}

/// Owned strings holding the chars of each entry of `v`.
pub fn strings_of_all(v: &Vec<Vec<char>>) -> (out: Vec<String>)
    ensures
        out@.len() == v@.len(),
        forall|i: int| 0 <= i < v@.len() ==> (#[trigger] out@[i])@ == v@[i]@,
{
    let mut out: Vec<String> = Vec::new();
    let n = v.len();
    let mut i: usize = 0;
    while i < n
        invariant
            n == v.len(),
            i <= n,
            out@.len() == i,
            forall|j: int| 0 <= j < i ==> (#[trigger] out@[j])@ == v@[j]@,
        decreases n - i,
    {
        out.push(string_from(&v[i]));
        i = i + 1;
    }
    out
}

/// The views of a vector of char vectors.
pub open spec fn char_views(v: Seq<Vec<char>>) -> Seq<Seq<char>> {
    v.map_values(|c: Vec<char>| c@)
}

/// Insert `c` into the strictly sorted `out`, unless it is already there.
fn insert_sorted(out: &mut Vec<Vec<char>>, c: Vec<char>)
    requires
        strictly_sorted(char_views(old(out)@)),
    ensures
        strictly_sorted(char_views(final(out)@)),
        forall|x: Seq<char>| #[trigger] char_views(final(out)@).contains(x) <==> (char_views(
            old(out)@,
        ).contains(x) || x == c@),
{
    let ghost old_views = char_views(out@);
    let n = out.len();
    let mut p: usize = 0;
    while p < n && lex_lt_exec(&out[p], &c)
        invariant
            n == out.len(),
            p <= n,
            out@ == old(out)@,
            strictly_sorted(char_views(out@)),
            forall|j: int| 0 <= j < p ==> lex_lt(#[trigger] out@[j]@, c@),
        decreases n - p,
    {
        p = p + 1;
    }
    if p < n && same_chars(&out[p], &c) {
        assert(char_views(out@)[p as int] == c@);
        return;
    }
    proof {
        if p < n {
            lemma_lex_lt_total(out@[p as int]@, c@);
            assert(lex_lt(c@, out@[p as int]@));
            assert forall|j: int| p <= j < n implies lex_lt(c@, #[trigger] out@[j]@) by {
                if j > p {
                    assert(lex_lt(char_views(out@)[p as int], char_views(out@)[j]));
                    lemma_lex_lt_transitive(c@, out@[p as int]@, out@[j]@);
                }
            }
        }
    }
    let ghost cv = c@;
    out.insert(p, c);
    proof {
        let v = char_views(out@);
        assert(v.len() == n + 1);
        assert forall|j: int| 0 <= j < v.len() implies #[trigger] v[j] == (if j < p {
            old_views[j]
        } else if j == p {
            cv
        } else {
            old_views[j - 1]
        }) by {}
        assert forall|i: int, j: int| 0 <= i < j < v.len() implies lex_lt(
            #[trigger] v[i],
            #[trigger] v[j],
        ) by {
            if j < p {
                assert(lex_lt(old_views[i], old_views[j]));
            } else if j == p {
                assert(lex_lt(old(out)@[i]@, cv));
            } else if i < p {
                assert(lex_lt(old_views[i], cv));
                assert(lex_lt(cv, old_views[j - 1]));
                lemma_lex_lt_transitive(old_views[i], cv, old_views[j - 1]);
            } else if i == p {
                assert(lex_lt(cv, old(out)@[j - 1]@));
            } else {
                assert(lex_lt(old_views[i - 1], old_views[j - 1]));
            }
        }
        assert forall|x: Seq<char>| #[trigger] v.contains(x) <==> (old_views.contains(x) || x
            == cv) by {
            if v.contains(x) {
                let j = choose|j: int| 0 <= j < v.len() && v[j] == x;
                if j < p {
                    assert(old_views[j] == x);
                } else if j > p {
                    assert(old_views[j - 1] == x);
                }
            }
            if old_views.contains(x) {
                let j = choose|j: int| 0 <= j < old_views.len() && old_views[j] == x;
                if j < p {
                    assert(v[j] == x);
                } else {
                    assert(v[j + 1] == x);
                }
            }
            if x == cv {
                assert(v[p as int] == x);
            }
        }
    }
}

/// The distinct entries of `items`, in strictly increasing lexicographic order.
pub fn sort_unique(items: Vec<Vec<char>>) -> (out: Vec<Vec<char>>)
    ensures
        strictly_sorted(char_views(out@)),
        forall|x: Seq<char>| #[trigger] char_views(out@).contains(x) <==> char_views(
            items@,
        ).contains(x),
{
    let mut out: Vec<Vec<char>> = Vec::new();
    let n = items.len();
    let mut i: usize = 0;
    let ghost all = char_views(items@);
    while i < n
        invariant
            n == items.len(),
            i <= n,
            all == char_views(items@),
            strictly_sorted(char_views(out@)),
            forall|x: Seq<char>| #[trigger] char_views(out@).contains(x) <==> all.take(
                i as int,
            ).contains(x),
        decreases n - i,
    {
        let c = slice_chars(&items[i], 0, items[i].len());
        assert(items[i as int]@.subrange(0, items[i as int]@.len() as int) =~= items[i as int]@);
        insert_sorted(&mut out, c);
        proof {
            assert(all.take(i + 1) =~= all.take(i as int).push(all[i as int]));
            assert forall|x: Seq<char>| all.take(i + 1).contains(x) <==> (all.take(
                i as int,
            ).contains(x) || x == all[i as int]) by {
                lemma_push_contains(all.take(i as int), all[i as int], x);
            }
            assert forall|x: Seq<char>| #[trigger] char_views(out@).contains(x) <==> all.take(
                i + 1,
            ).contains(x) by {
                lemma_push_contains(all.take(i as int), all[i as int], x);
            }
        }
        i = i + 1;
    }
    assert(all.take(n as int) =~= all);
    out
}

} // verus!

verus! {

/// Append the chars of `s` to `out`.
pub fn push_str_chars(out: &mut Vec<char>, s: &str)
    ensures
        final(out)@ == old(out)@ + s@,
{
    let mut v = chars_of(s);
    out.append(&mut v);
}

/// Append the chars of `v` to `out`.
pub fn push_chars(out: &mut Vec<char>, v: &Vec<char>)
    ensures
        final(out)@ == old(out)@ + v@,
{
    let mut w = slice_chars(v, 0, v.len());
    assert(v@.subrange(0, v@.len() as int) =~= v@);
    out.append(&mut w);
}

/// `a` + `b` + `c` as an owned string.
pub fn join3(a: &str, b: &Vec<char>, c: &str) -> (out: String)
    ensures
        out@ == a@ + b@ + c@,
{
    let mut v: Vec<char> = Vec::new();
    push_str_chars(&mut v, a);
    push_chars(&mut v, b);
    push_str_chars(&mut v, c);
    assert(v@ =~= a@ + b@ + c@);
    string_from(&v)
}

/// Whether one of `items` is `s`.
pub fn key_in_strings(items: &Vec<String>, s: &str) -> (r: bool)
    ensures
        r == string_views(items@).contains(s@),
{
    let k = chars_of(s);
    let n = items.len();
    let mut i: usize = 0;
    while i < n
        invariant
            n == items@.len(),
            i <= n,
            k@ == s@,
            forall|j: int| 0 <= j < i ==> (#[trigger] items@[j])@ != s@,
        decreases n - i,
    {
        let c = chars_of(items[i].as_str());
        if same_chars(&c, &k) {
            assert(string_views(items@)[i as int] == s@);
            return true;
        }
        i = i + 1;
    }
    assert forall|j: int| 0 <= j < string_views(items@).len() implies string_views(items@)[j] != s@ by {
        assert(items@[j]@ != s@);
    }
    false
}

} // verus!
