//! Stable ordering of catalog rows by their id, as `sort_by(|a, b| a.id.cmp(&b.id))`
//! orders them.

use vstd::prelude::*;
use vstd::seq_lib::group_to_multiset_ensures;

use crate::feature_registry::FeatureDescriptor;
use crate::text::{chars_of, lemma_lex_lt_asymmetric, lemma_lex_lt_total, lemma_lex_lt_transitive, lex_lt, lex_lt_exec};
use crate::types::{field_views, DomainDescriptor, FieldDescriptor, FieldView};

verus! {

/// A row ordered by an id string.
pub trait IdKeyed {
    spec fn id_key(&self) -> Seq<char>;

    fn id_chars(&self) -> (r: Vec<char>)
        ensures
            r@ == self.id_key(),
    ;
}

impl IdKeyed for String {
    open spec fn id_key(&self) -> Seq<char> {
        self@
    }

    fn id_chars(&self) -> (r: Vec<char>) {
        chars_of(self.as_str())
    }
}

impl IdKeyed for FieldDescriptor {
    open spec fn id_key(&self) -> Seq<char> {
        self.id@
    }

    fn id_chars(&self) -> (r: Vec<char>) {
        chars_of(self.id.as_str())
    }
}

impl IdKeyed for DomainDescriptor {
    open spec fn id_key(&self) -> Seq<char> {
        self.id@
    }

    fn id_chars(&self) -> (r: Vec<char>) {
        chars_of(self.id.as_str())
    }
}

impl IdKeyed for FeatureDescriptor {
    open spec fn id_key(&self) -> Seq<char> {
        self.id@
    }

    fn id_chars(&self) -> (r: Vec<char>) {
        chars_of(self.id.as_str())
    }
}

/// Rows in non-decreasing id order.
pub open spec fn sorted_by_id<T: IdKeyed>(s: Seq<T>) -> bool {
    forall|i: int, j: int| 0 <= i < j < s.len() ==> !lex_lt(#[trigger] s[j].id_key(), #[trigger] s[i].id_key())
}

/// Non-strict lexicographic order is transitive.
pub proof fn lemma_lex_le_transitive(a: Seq<char>, b: Seq<char>, c: Seq<char>)
    requires
        !lex_lt(b, a),
        !lex_lt(c, b),
    ensures
        !lex_lt(c, a),
{
    lemma_lex_lt_total(a, b);
    lemma_lex_lt_total(b, c);
    if lex_lt(c, a) {
        if a == b {
            assert(lex_lt(c, b));
        } else if b == c {
            assert(lex_lt(b, a));
        } else {
            lemma_lex_lt_transitive(a, b, c);
            lemma_lex_lt_asymmetric(a, c);
        }
    }
}

/// The predicate "has id `k`".
pub open spec fn has_id<T: IdKeyed>(k: Seq<char>) -> spec_fn(T) -> bool {
    |x: T| x.id_key() == k
}

/// The rows of `s` whose id is `k`, in their order in `s`.
pub open spec fn rows_with_id<T: IdKeyed>(s: Seq<T>, k: Seq<char>) -> Seq<T> {
    s.filter(has_id::<T>(k))
}

/// The field views of `s` whose id is `k`, in their order in `s`.
pub open spec fn views_with_id(s: Seq<FieldView>, k: Seq<char>) -> Seq<FieldView> {
    s.filter(|f: FieldView| f.id == k)
}

/// Picking a field id's rows commutes with viewing the rows.
pub proof fn lemma_views_with_id(s: Seq<FieldDescriptor>, k: Seq<char>)
    ensures
        field_views(rows_with_id(s, k)) == views_with_id(field_views(s), k),
    decreases s.len(),
{
    reveal(Seq::filter);
    if s.len() == 0 {
        assert(field_views(rows_with_id(s, k)) =~= views_with_id(field_views(s), k));
    } else {
        lemma_views_with_id(s.drop_last(), k);
        assert(field_views(s).drop_last() =~= field_views(s.drop_last()));
        assert(field_views(s).last() == s.last()@);
        if s.last().id@ == k {
            assert(field_views(rows_with_id(s, k)) =~= field_views(rows_with_id(s.drop_last(), k)).push(
                s.last()@,
            ));
        } else {
            assert(field_views(rows_with_id(s, k)) =~= field_views(rows_with_id(s.drop_last(), k)));
        }
    }
}

/// Rows that all have ids below `k` hold no row with id `k`.
proof fn lemma_no_rows_with_id<T: IdKeyed>(s: Seq<T>, k: Seq<char>)
    requires
        forall|i: int| 0 <= i < s.len() ==> lex_lt(#[trigger] s[i].id_key(), k),
    ensures
        rows_with_id(s, k) == Seq::<T>::empty(),
{
    let f = has_id::<T>(k);
    assert(s.all(|y: T| !f(y))) by {
        assert forall|i: int| 0 <= i < s.len() implies !f(#[trigger] s[i]) by {
            crate::text::lemma_lex_lt_irreflexive(k);
        }
    }
    s.lemma_all_neg_filter_empty(f);
    assert(rows_with_id(s, k) =~= Seq::<T>::empty());
}

/// Inserting `x` in front of every row whose id is not below its own keeps,
/// for each id, the order of that id's rows, with `x` first among its equals.
proof fn lemma_insert_keeps_id_order<T: IdKeyed>(r: Seq<T>, p: int, x: T, rest: Seq<T>, k: Seq<char>)
    requires
        0 <= p <= r.len(),
        forall|i: int| 0 <= i < p ==> lex_lt(#[trigger] r[i].id_key(), x.id_key()),
        rows_with_id(r, k) == rows_with_id(rest, k),
    ensures
        rows_with_id(r.insert(p, x), k) == rows_with_id(seq![x] + rest, k),
{
    let f = has_id::<T>(k);
    let a = r.take(p);
    let b = r.skip(p);
    assert(r.insert(p, x) =~= a + (seq![x] + b));
    assert(r =~= a + b);
    Seq::filter_distributes_over_add(a, seq![x] + b, f);
    Seq::filter_distributes_over_add(a, b, f);
    b.lemma_filter_prepend(x, f);
    rest.lemma_filter_prepend(x, f);
    if x.id_key() == k {
        assert forall|i: int| 0 <= i < a.len() implies lex_lt(#[trigger] a[i].id_key(), k) by {
            assert(a[i] == r[i]);
        }
        lemma_no_rows_with_id(a, k);
        assert(rows_with_id(r.insert(p, x), k) =~= rows_with_id(seq![x] + rest, k));
    } else {
        assert(rows_with_id(r.insert(p, x), k) =~= rows_with_id(seq![x] + rest, k));
    }
}

/// Index of the first row of the sorted `r` whose id is not below `key`.
fn insertion_point<T: IdKeyed>(r: &Vec<T>, key: &Vec<char>) -> (p: usize)
    requires
        sorted_by_id(r@),
    ensures
        p <= r@.len(),
        forall|i: int| 0 <= i < p ==> lex_lt(#[trigger] r@[i].id_key(), key@),
        forall|i: int| p <= i < r@.len() ==> !lex_lt(#[trigger] r@[i].id_key(), key@),
{
    let n = r.len();
    let mut p: usize = 0;
    while p < n
        invariant
            n == r@.len(),
            p <= n,
            sorted_by_id(r@),
            forall|i: int| 0 <= i < p ==> lex_lt(#[trigger] r@[i].id_key(), key@),
        decreases n - p,
    {
        let k = r[p].id_chars();
        if !lex_lt_exec(&k, key) {
            assert forall|i: int| p <= i < r@.len() implies !lex_lt(#[trigger] r@[i].id_key(), key@) by {
                if i > p {
                    assert(!lex_lt(r@[i].id_key(), r@[p as int].id_key()));
                    lemma_lex_le_transitive(key@, r@[p as int].id_key(), r@[i].id_key());
                }
            }
            return p;
        }
        p = p + 1;
    }
    p
}

/// Stable sort by id: the result is ordered by id and holds the same rows,
/// and rows with equal ids keep their relative order.
pub fn sort_by_id<T: IdKeyed>(v: Vec<T>) -> (r: Vec<T>)
    ensures
        sorted_by_id(r@),
        r@.to_multiset() == v@.to_multiset(),
        forall|k: Seq<char>| #[trigger] rows_with_id(r@, k) == rows_with_id(v@, k),
{
    broadcast use group_to_multiset_ensures;
    broadcast use vstd::multiset::group_multiset_axioms;

    let ghost all = v@.to_multiset();
    let ghost orig = v@;
    let mut v = v;
    let mut r: Vec<T> = Vec::new();
    assert(r@.to_multiset() =~= vstd::multiset::Multiset::<T>::empty());
    proof {
        assert forall|k: Seq<char>| #[trigger] rows_with_id(r@, k) == rows_with_id(
            orig.skip(v@.len() as int),
            k,
        ) by {
            assert(orig.skip(v@.len() as int) =~= r@);
        }
    }
    while v.len() > 0
        invariant
            sorted_by_id(r@),
            r@.to_multiset().add(v@.to_multiset()) == all,
            v@.len() <= orig.len(),
            v@ == orig.take(v@.len() as int),
            forall|k: Seq<char>| #[trigger] rows_with_id(r@, k) == rows_with_id(
                orig.skip(v@.len() as int),
                k,
            ),
        decreases v@.len(),
    {
        let ghost before_v = v@;
        let x = v.pop().unwrap();
        assert(before_v =~= v@.push(x));
        let key = x.id_chars();
        let p = insertion_point(&r, &key);
        let ghost before_r = r@;
        r.insert(p, x);
        proof {
            vstd::seq_lib::to_multiset_insert(before_r, p as int, x);
            vstd::seq_lib::to_multiset_build(v@, x);
            let m = before_v.len() as int;
            assert(x == orig[m - 1]);
            assert(v@ =~= orig.take(m - 1));
            assert(orig.skip(m - 1) =~= seq![x] + orig.skip(m));
            assert forall|k: Seq<char>| #[trigger] rows_with_id(r@, k) == rows_with_id(
                orig.skip(v@.len() as int),
                k,
            ) by {
                lemma_insert_keeps_id_order(before_r, p as int, x, orig.skip(m), k);
            }
        }
        assert(r@.to_multiset().add(v@.to_multiset()) =~= before_r.to_multiset().add(
            before_v.to_multiset(),
        ));
        assert forall|i: int, j: int| 0 <= i < j < r@.len() implies !lex_lt(
            #[trigger] r@[j].id_key(),
            #[trigger] r@[i].id_key(),
        ) by {
            if j < p {
                assert(r@[i] == before_r[i] && r@[j] == before_r[j]);
            } else if j == p {
                assert(r@[i] == before_r[i]);
                lemma_lex_lt_asymmetric(before_r[i].id_key(), key@);
            } else if i == p {
                assert(r@[j] == before_r[j - 1]);
            } else if i < p {
                assert(r@[i] == before_r[i] && r@[j] == before_r[j - 1]);
            } else {
                assert(r@[i] == before_r[i - 1] && r@[j] == before_r[j - 1]);
            }
        }
    }
    assert(v@.to_multiset() =~= vstd::multiset::Multiset::<T>::empty());
    assert(r@.to_multiset().add(v@.to_multiset()) =~= r@.to_multiset());
    assert(orig.skip(0) =~= orig);
    r
}

/// Rows that are a permutation of each other keep that relation under any
/// projection.
pub proof fn lemma_permutation_maps<A, B>(a: Seq<A>, b: Seq<A>, f: spec_fn(A) -> B)
    requires
        a.to_multiset() == b.to_multiset(),
    ensures
        a.map_values(f).to_multiset() == b.map_values(f).to_multiset(),
    decreases a.len(),
{
    broadcast use group_to_multiset_ensures;
    broadcast use vstd::multiset::group_multiset_axioms;

    if a.len() == 0 {
        vstd::seq_lib::to_multiset_len(a);
        vstd::seq_lib::to_multiset_len(b);
        assert(b.len() == 0);
        assert(a.map_values(f) =~= b.map_values(f));
    } else {
        let x = a.last();
        assert(a =~= a.drop_last().push(x));
        assert(b.to_multiset().count(x) > 0);
        assert(b.contains(x));
        let j = choose|j: int| 0 <= j < b.len() && b[j] == x;
        let b2 = b.remove(j);
        assert(b2.to_multiset() =~= b.to_multiset().remove(x));
        assert(a.drop_last().to_multiset() =~= a.to_multiset().remove(x));
        lemma_permutation_maps(a.drop_last(), b2, f);
        assert(a.map_values(f) =~= a.drop_last().map_values(f).push(f(x)));
        assert(b.map_values(f).remove(j) =~= b2.map_values(f));
        assert(b.map_values(f)[j] == f(x));
        assert(b.map_values(f).to_multiset().count(f(x)) > 0);
        assert(b2.map_values(f).to_multiset() =~= b.map_values(f).to_multiset().remove(f(x)));
        assert(a.map_values(f).to_multiset() =~= a.drop_last().map_values(f).to_multiset().insert(
            f(x),
        ));
        assert(b.map_values(f).to_multiset() =~= b2.map_values(f).to_multiset().insert(f(x)));
    }
}

/// What holds of every row holds of every row of a permutation of them.
pub proof fn lemma_permutation_all<A>(a: Seq<A>, b: Seq<A>, p: spec_fn(A) -> bool)
    requires
        a.to_multiset() == b.to_multiset(),
        forall|i: int| 0 <= i < b.len() ==> p(#[trigger] b[i]),
    ensures
        forall|i: int| 0 <= i < a.len() ==> p(#[trigger] a[i]),
{
    broadcast use group_to_multiset_ensures;

    assert forall|i: int| 0 <= i < a.len() implies p(#[trigger] a[i]) by {
        assert(a.contains(a[i]));
        assert(a.to_multiset().count(a[i]) > 0);
        assert(b.contains(a[i]));
    }
}

proof fn lemma_count_at_most_one<A>(b: Seq<A>, x: A)
    requires
        b.no_duplicates(),
    ensures
        b.to_multiset().count(x) <= 1,
{
    broadcast use group_to_multiset_ensures;
    broadcast use vstd::multiset::group_multiset_axioms;

    if b.to_multiset().count(x) > 0 {
        assert(b.contains(x));
        let p = choose|p: int| 0 <= p < b.len() && b[p] == x;
        let c = b.remove(p);
        assert(!c.contains(x)) by {
            if c.contains(x) {
                let q = choose|q: int| 0 <= q < c.len() && c[q] == x;
                if q < p {
                    assert(b[q] == x);
                } else {
                    assert(b[q + 1] == x);
                }
            }
        }
        assert(c.to_multiset() == b.to_multiset().remove(x));
        assert(c.to_multiset().count(x) == 0);
    }
}

/// A permutation of rows without repeats has no repeats.
pub proof fn lemma_permutation_no_duplicates<A>(a: Seq<A>, b: Seq<A>)
    requires
        a.to_multiset() == b.to_multiset(),
        b.no_duplicates(),
    ensures
        a.no_duplicates(),
{
    broadcast use group_to_multiset_ensures;
    broadcast use vstd::multiset::group_multiset_axioms;

    assert forall|i: int, j: int| 0 <= i < a.len() && 0 <= j < a.len() && i != j implies a[i]
        != a[j] by {
        if a[i] == a[j] {
            let x = a[i];
            lemma_count_at_most_one(b, x);
            let c = a.remove(j);
            assert(c.to_multiset() == a.to_multiset().remove(x));
            if i < j {
                assert(c[i] == x);
            } else {
                assert(c[i - 1] == x);
            }
            assert(c.contains(x));
            assert(c.to_multiset().count(x) > 0);
        }
    }
}

} // verus!
