//! Ordering of text keys the way `str`'s `Ord` orders them, and a stable
//! sort of records by such a key.
use vstd::prelude::*;

use crate::models::{LocalModel, LocalModelFile};
use crate::text::chars_of;

verus! {

/// `a < b` in the order of `str`: character by character, a proper prefix
/// first. (UTF-8 keeps the order of code points, so this is also the byte
/// order.)
pub open spec fn text_lt(a: Seq<char>, b: Seq<char>) -> bool
    decreases a.len(),
{
    if a.len() == 0 {
        b.len() > 0
    } else if b.len() == 0 {
        false
    } else if a[0] != b[0] {
        a[0] < b[0]
    } else {
        text_lt(a.drop_first(), b.drop_first())
    }
}

pub proof fn lemma_text_lt_asymmetric(a: Seq<char>, b: Seq<char>)
    ensures
        !(text_lt(a, b) && text_lt(b, a)),
        !text_lt(a, a),
    decreases a.len(),
{
    if a.len() > 0 && b.len() > 0 && a[0] == b[0] {
        lemma_text_lt_asymmetric(a.drop_first(), b.drop_first());
    }
    if a.len() > 0 {
        lemma_text_lt_asymmetric(a.drop_first(), a.drop_first());
    }
}

pub proof fn lemma_text_lt_transitive(a: Seq<char>, b: Seq<char>, c: Seq<char>)
    requires
        text_lt(a, b),
        text_lt(b, c),
    ensures
        text_lt(a, c),
    decreases a.len(),
{
    if a.len() > 0 && b.len() > 0 && c.len() > 0 && a[0] == b[0] && b[0] == c[0] {
        lemma_text_lt_transitive(a.drop_first(), b.drop_first(), c.drop_first());
    }
}

pub proof fn lemma_text_lt_total(a: Seq<char>, b: Seq<char>)
    ensures
        text_lt(a, b) || text_lt(b, a) || a == b,
    decreases a.len(),
{
    if a.len() > 0 && b.len() > 0 && a[0] == b[0] {
        lemma_text_lt_total(a.drop_first(), b.drop_first());
        if a.drop_first() == b.drop_first() {
            assert(a =~= seq![a[0]] + a.drop_first());
            assert(b =~= seq![b[0]] + b.drop_first());
        }
    } else if a.len() == 0 && b.len() == 0 {
        assert(a =~= b);
    }
}

/// `a <= b` in the order of `str`.
pub open spec fn text_le(a: Seq<char>, b: Seq<char>) -> bool {
    !text_lt(b, a)
}

pub proof fn lemma_text_le_transitive(a: Seq<char>, b: Seq<char>, c: Seq<char>)
    requires
        text_le(a, b),
        text_le(b, c),
    ensures
        text_le(a, c),
{
    lemma_text_lt_total(a, b);
    lemma_text_lt_total(b, c);
    if text_lt(c, a) {
        if text_lt(a, b) {
            lemma_text_lt_transitive(c, a, b);
        } else if text_lt(b, c) {
            lemma_text_lt_transitive(b, c, a);
        }
    }
}

/// `a < b` for two strings, as `str`'s `Ord` decides it.
pub fn text_less(a: &str, b: &str) -> (r: bool)
    ensures
        r == text_lt(a@, b@),
{
    let x = chars_of(a);
    let y = chars_of(b);
    let mut i: usize = 0;
    assert(x@.skip(0) =~= x@);
    assert(y@.skip(0) =~= y@);
    while i < x.len() && i < y.len()
        invariant
            0 <= i <= x@.len(),
            i <= y@.len(),
            x@ == a@,
            y@ == b@,
            text_lt(x@, y@) == text_lt(x@.skip(i as int), y@.skip(i as int)),
        decreases x.len() - i,
    {
        let c = x[i];
        let d = y[i];
        assert(x@.skip(i as int)[0] == c);
        assert(y@.skip(i as int)[0] == d);
        if c != d {
            return c < d;
        }
        assert(x@.skip(i as int).drop_first() =~= x@.skip(i + 1));
        assert(y@.skip(i as int).drop_first() =~= y@.skip(i + 1));
        i += 1;
    }
    i < y.len()
}

/// Which text field records are ordered by.
#[derive(Clone, Copy, Debug, PartialEq, Eq, Structural)]
pub enum SortField {
    Id,
    DisplayName,
    Path,
}

/// A record that has text fields to be ordered by.
pub trait SortKeyed {
    spec fn key_view(&self, field: SortField) -> Seq<char>;

    fn key_text(&self, field: SortField) -> (r: &str)
        ensures
            r@ == self.key_view(field),
    ;
}

impl SortKeyed for LocalModel {
    open spec fn key_view(&self, field: SortField) -> Seq<char> {
        match field {
            SortField::Id => self.id@,
            _ => self.display_name@,
        }
    }

    fn key_text(&self, field: SortField) -> (r: &str) {
        match field {
            SortField::Id => self.id.as_str(),
            _ => self.display_name.as_str(),
        }
    }
}

impl SortKeyed for LocalModelFile {
    open spec fn key_view(&self, field: SortField) -> Seq<char> {
        match field {
            SortField::Path => self.path@,
            _ => self.name@,
        }
    }

    fn key_text(&self, field: SortField) -> (r: &str) {
        match field {
            SortField::Path => self.path.as_str(),
            _ => self.name.as_str(),
        }
    }
}

/// Every record's key is at most the keys of the records after it.
pub open spec fn sorted_by<T: SortKeyed>(s: Seq<T>, field: SortField) -> bool {
    forall|i: int, j: int|
        0 <= i < j < s.len() ==> text_le(#[trigger] s[i].key_view(field), #[trigger] s[j].key_view(field))
}

/// `x` put into `t` after the records whose keys come before its key.
pub open spec fn insert_by<T: SortKeyed>(t: Seq<T>, x: T, field: SortField) -> Seq<T>
    decreases t.len(),
{
    if t.len() == 0 {
        seq![x]
    } else if text_lt(t[0].key_view(field), x.key_view(field)) {
        seq![t[0]] + insert_by(t.drop_first(), x, field)
    } else {
        seq![x] + t
    }
}

/// The records ordered by the field, records with equal keys in their
/// order: each record is put in front of the later records with keys that
/// do not come before its own.
pub open spec fn stable_sorted<T: SortKeyed>(s: Seq<T>, field: SortField) -> Seq<T>
    decreases s.len(),
{
    if s.len() == 0 {
        Seq::empty()
    } else {
        insert_by(stable_sorted(s.drop_first(), field), s[0], field)
    }
}

proof fn lemma_insert_by_at<T: SortKeyed>(t: Seq<T>, x: T, field: SortField, p: int)
    requires
        0 <= p <= t.len(),
        forall|i: int| 0 <= i < p ==> text_lt(#[trigger] t[i].key_view(field), x.key_view(field)),
        p == t.len() || !text_lt(t[p].key_view(field), x.key_view(field)),
    ensures
        insert_by(t, x, field) == t.insert(p, x),
    decreases p,
{
    if p == 0 {
        assert(seq![x] + t =~= t.insert(0, x));
    } else {
        assert(text_lt(t[0].key_view(field), x.key_view(field)));
        let u = t.drop_first();
        assert forall|i: int| 0 <= i < p - 1 implies text_lt(#[trigger] u[i].key_view(field), x.key_view(field)) by {
            assert(u[i] == t[i + 1]);
        }
        if p < t.len() {
            assert(u[p - 1] == t[p]);
        }
        lemma_insert_by_at(u, x, field, p - 1);
        assert(seq![t[0]] + u.insert(p - 1, x) =~= t.insert(p, x));
    }
}

/// Sorts records by a text field, keeping records with equal keys in their
/// order (`slice::sort_by` on `str::cmp`).
pub fn sort_by_field<T: SortKeyed>(v: Vec<T>, field: SortField) -> (r: Vec<T>)
    ensures
        r@ == stable_sorted(v@, field),
        r@.to_multiset() == v@.to_multiset(),
        r@.len() == v@.len(),
        sorted_by(r@, field),
{
    broadcast use vstd::seq_lib::group_to_multiset_ensures;

    let ghost orig = v@;
    let mut rest = v;
    let mut out: Vec<T> = Vec::new();
    while rest.len() > 0
        invariant
            out@.to_multiset().add(rest@.to_multiset()) == orig.to_multiset(),
            out@.len() + rest@.len() == orig.len(),
            sorted_by(out@, field),
            rest@ == orig.take(rest@.len() as int),
            out@ == stable_sorted(orig.skip(rest@.len() as int), field),
        decreases rest.len(),
    {
        let ghost before_rest = rest@;
        let x = rest.pop().unwrap();
        assert(before_rest == rest@.push(x));
        let ghost k = rest@.len() as int;
        assert(orig[k] == x);
        assert(orig.skip(k).drop_first() =~= orig.skip(k + 1));
        assert(orig.skip(k)[0] == x);
        assert(rest@ =~= orig.take(k));
        let xk = x.key_text(field);
        let mut p: usize = 0;
        while p < out.len() && text_less(out[p].key_text(field), xk)
            invariant
                0 <= p <= out@.len(),
                xk@ == x.key_view(field),
                forall|i: int| 0 <= i < p ==> text_lt(#[trigger] out@[i].key_view(field), x.key_view(field)),
            decreases out.len() - p,
        {
            p += 1;
        }
        let ghost before = out@;
        proof {
            assert forall|j: int| p <= j < before.len() implies text_le(x.key_view(field), #[trigger] before[j].key_view(field)) by {
                if j > p {
                    assert(text_le(before[p as int].key_view(field), before[j].key_view(field)));
                } else {
                    lemma_text_lt_asymmetric(before[j].key_view(field), before[j].key_view(field));
                }
                lemma_text_le_transitive(x.key_view(field), before[p as int].key_view(field), before[j].key_view(field));
            }
            assert forall|i: int| 0 <= i < p implies text_le(#[trigger] before[i].key_view(field), x.key_view(field)) by {
                lemma_text_lt_asymmetric(before[i].key_view(field), x.key_view(field));
            }
        }
        proof {
            lemma_insert_by_at(before, x, field, p as int);
        }
        out.insert(p, x);
        assert(out@ == before.insert(p as int, x));
        assert(sorted_by(out@, field)) by {
            assert forall|i: int, j: int| 0 <= i < j < out@.len() implies text_le(
                #[trigger] out@[i].key_view(field),
                #[trigger] out@[j].key_view(field),
            ) by {
                if i < p && j < p {
                    assert(text_le(before[i].key_view(field), before[j].key_view(field)));
                } else if i < p && j == p {
                } else if i < p && j > p {
                    assert(text_le(before[i].key_view(field), before[p as int].key_view(field)));
                    assert(text_le(x.key_view(field), before[j - 1].key_view(field)));
                    lemma_text_le_transitive(before[i].key_view(field), x.key_view(field), before[j - 1].key_view(field));
                } else if i == p {
                    assert(text_le(x.key_view(field), before[j - 1].key_view(field)));
                } else {
                    assert(text_le(before[i - 1].key_view(field), before[j - 1].key_view(field)));
                }
            }
        }
        proof {
            vstd::seq_lib::to_multiset_insert(before, p as int, x);
        }
        assert(out@.to_multiset() == before.to_multiset().insert(x));
        proof {
            vstd::seq_lib::to_multiset_build(rest@, x);
        }
        assert(before_rest.to_multiset() == rest@.to_multiset().insert(x));
        assert(out@.to_multiset().add(rest@.to_multiset()) =~= before.to_multiset().add(before_rest.to_multiset()));
    }
    assert(orig.skip(0) =~= orig);
    out
}

} // verus!
