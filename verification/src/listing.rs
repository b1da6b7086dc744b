//! The ADR listing: entries ordered by date, one line per entry.

use vstd::prelude::*;
use crate::text::chars_of;

verus! {

/// One listed ADR: its date (the sort key), title and status.
#[derive(Debug)]
pub struct ListEntry {
    pub date: String,
    pub title: String,
    pub status: String,
}

/// `a[i..]` is at most `b[i..]` in the lexicographic order of code points
/// (the order of `String`).
pub open spec fn text_le_from(a: Seq<char>, b: Seq<char>, i: int) -> bool
    decreases a.len() - i,
{
    if i < 0 || i >= a.len() {
        true
    } else if i >= b.len() {
        false
    } else if (a[i] as u32) < (b[i] as u32) {
        true
    } else if (a[i] as u32) > (b[i] as u32) {
        false
    } else {
        text_le_from(a, b, i + 1)
    }
}

/// `a` is at most `b` in the lexicographic order of code points.
pub open spec fn text_le(a: Seq<char>, b: Seq<char>) -> bool {
    text_le_from(a, b, 0)
}

proof fn lemma_text_le_refl(a: Seq<char>, i: int)
    requires
        0 <= i,
    ensures
        text_le_from(a, a, i),
    decreases a.len() - i,
{
    if i < a.len() {
        lemma_text_le_refl(a, i + 1);
    }
}

proof fn lemma_text_le_total(a: Seq<char>, b: Seq<char>, i: int)
    requires
        0 <= i,
    ensures
        text_le_from(a, b, i) || text_le_from(b, a, i),
    decreases a.len() - i,
{
    if i < a.len() && i < b.len() && a[i] as u32 == b[i] as u32 {
        lemma_text_le_total(a, b, i + 1);
    }
}

proof fn lemma_text_le_trans(a: Seq<char>, b: Seq<char>, c: Seq<char>, i: int)
    requires
        0 <= i,
        text_le_from(a, b, i),
        text_le_from(b, c, i),
    ensures
        text_le_from(a, c, i),
    decreases a.len() - i,
{
    if i < a.len() && i < b.len() && i < c.len() && a[i] as u32 == b[i] as u32 && b[i] as u32
        == c[i] as u32 {
        lemma_text_le_trans(a, b, c, i + 1);
    }
}

/// Whether `a <= b` in the order of `String`.
pub fn text_le_exec(a: &str, b: &str) -> (r: bool)
    ensures
        r == text_le(a@, b@),
{
    let x = chars_of(a);
    let y = chars_of(b);
    let mut i: usize = 0;
    while i < x.len()
        invariant
            i <= x@.len(),
            x@ == a@,
            y@ == b@,
            text_le_from(x@, y@, i as int) == text_le_from(x@, y@, 0),
        decreases x.len() - i,
    {
        if i >= y.len() {
            return false;
        }
        if (x[i] as u32) < (y[i] as u32) {
            return true;
        }
        if (x[i] as u32) > (y[i] as u32) {
            return false;
        }
        i = i + 1;
    }
    true
}

/// The entries are in order of date.
pub open spec fn sorted_by_date(es: Seq<ListEntry>) -> bool {
    forall|i: int, j: int| 0 <= i < j < es.len() ==> text_le(#[trigger] es[i].date@, #[trigger] es[j].date@)
}

/// The entries dated `d`, in their order.
pub open spec fn dated(es: Seq<ListEntry>, d: Seq<char>) -> Seq<ListEntry> {
    es.filter(|e: ListEntry| e.date@ == d)
}

/// Orders entries by date. The sort is stable: entries of the same date keep
/// their relative order, so the result is the one sequence that is ordered by
/// date and has, for every date, the same entries of that date in the same
/// order as the input.
pub fn sort_by_date(entries: Vec<ListEntry>) -> (r: Vec<ListEntry>)
    ensures
        sorted_by_date(r@),
        forall|d: Seq<char>| #[trigger] dated(r@, d) == dated(entries@, d),
{
    let ghost orig = entries@;
    let mut rest = entries;
    let mut r: Vec<ListEntry> = Vec::new();
    assert(orig.skip(orig.len() as int) =~= Seq::<ListEntry>::empty());
    while rest.len() > 0
        invariant
            rest@ == orig.take(rest@.len() as int),
            rest@.len() <= orig.len(),
            sorted_by_date(r@),
            forall|d: Seq<char>| #[trigger] dated(r@, d) == dated(orig.skip(rest@.len() as int), d),
        decreases rest.len(),
    {
        let ghost m = rest@.len();
        let x = rest.pop().unwrap();
        assert(x == orig[m - 1]);
        let mut p: usize = 0;
        while p < r.len() && !text_le_exec(x.date.as_str(), r[p].date.as_str())
            invariant
                p <= r@.len(),
                forall|j: int| 0 <= j < p ==> !text_le(x.date@, #[trigger] r@[j].date@),
            decreases r.len() - p,
        {
            p = p + 1;
        }
        let ghost old_r = r@;
        r.insert(p, x);
        proof {
            assert(r@ == old_r.take(p as int) + seq![x] + old_r.skip(p as int));
            assert forall|i: int, j: int| 0 <= i < j < r@.len() implies text_le(
                #[trigger] r@[i].date@,
                #[trigger] r@[j].date@,
            ) by {
                if i < p && j == p {
                    lemma_text_le_total(x.date@, old_r[i].date@, 0);
                } else if i < p && j > p {
                    lemma_text_le_total(x.date@, old_r[i].date@, 0);
                    assert(text_le(x.date@, old_r[p as int].date@));
                    assert(text_le(old_r[p as int].date@, old_r[j - 1].date@) || p == j - 1);
                    lemma_text_le_trans(old_r[i].date@, x.date@, old_r[p as int].date@, 0);
                    if p < j - 1 {
                        lemma_text_le_trans(old_r[i].date@, old_r[p as int].date@, old_r[j - 1].date@, 0);
                    }
                } else if i == p {
                    assert(text_le(x.date@, old_r[p as int].date@));
                    if p < j - 1 {
                        lemma_text_le_trans(x.date@, old_r[p as int].date@, old_r[j - 1].date@, 0);
                    }
                } else if i > p {
                    assert(r@[i] == old_r[i - 1] && r@[j] == old_r[j - 1]);
                }
            }
            assert(orig.skip(m - 1) =~= seq![x] + orig.skip(m as int));
            assert forall|d: Seq<char>| #[trigger] dated(r@, d) == dated(orig.skip(rest@.len() as int), d) by {
                let pred = |e: ListEntry| e.date@ == d;
                let pre = old_r.take(p as int);
                let post = old_r.skip(p as int);
                assert(old_r == pre + post);
                Seq::filter_distributes_over_add(pre, post, pred);
                Seq::filter_distributes_over_add(pre + seq![x], post, pred);
                Seq::filter_distributes_over_add(pre, seq![x], pred);
                Seq::filter_distributes_over_add(seq![x], orig.skip(m as int), pred);
                Seq::filter_distributes_over_add(seq![x], post, pred);
                if x.date@ == d {
                    assert forall|j: int| 0 <= j < pre.len() implies !pred(#[trigger] pre[j]) by {
                        lemma_text_le_refl(x.date@, 0);
                    }
                    pre.lemma_all_neg_filter_empty(pred);
                    reveal_with_fuel(Seq::<_>::filter, 2);
                    assert(seq![x].drop_last() =~= Seq::<ListEntry>::empty());
                    assert(seq![x].filter(pred) =~= seq![x]);
                } else {
                    reveal_with_fuel(Seq::<_>::filter, 2);
                    assert(seq![x].drop_last() =~= Seq::<ListEntry>::empty());
                    assert(seq![x].filter(pred) =~= Seq::<ListEntry>::empty());
                }
                assert(dated(old_r, d) == dated(orig.skip(m as int), d));
                assert(r@ == (pre + seq![x]) + post);
                assert(dated(r@, d) == pre.filter(pred) + seq![x].filter(pred) + post.filter(pred));
                assert(dated(old_r, d) == pre.filter(pred) + post.filter(pred));
                assert(dated(orig.skip(m - 1), d) == seq![x].filter(pred) + dated(orig.skip(m as int), d));
                assert(rest@.len() == m - 1);
                if x.date@ == d {
                    assert(pre.filter(pred) =~= Seq::<ListEntry>::empty());
                }
                assert(dated(r@, d) =~= dated(orig.skip(rest@.len() as int), d));
            }
        }
    }
    assert(orig.skip(0) =~= orig);
    r
}

/// The listing line of an entry: its title, a tab, and its status in brackets.
pub open spec fn listing_line_of(e: ListEntry) -> Seq<char> {
    e.title@ + "\t["@ + e.status@ + "]"@
}

/// Formats the listing line of an entry.
pub fn listing_line(e: &ListEntry) -> (r: String)
    ensures
        r@ == listing_line_of(*e),
{
    let mut s = String::from_str(e.title.as_str());
    s.append("\t[");
    s.append(e.status.as_str());
    s.append("]");
    s
}

} // verus!
