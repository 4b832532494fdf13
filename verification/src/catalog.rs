//! The catalogue in its canonical form: one entry per course identifier,
//! in the order of the identifiers.

use vstd::prelude::*;
use crate::course::{Course, CourseIdView, CourseView, id_lt};
use crate::text::{Rank, lemma_lt_from_transitive, lemma_lt_from_trichotomy};

verus! {

/// The views of a list of courses.
pub open spec fn course_views(s: Seq<Course>) -> Seq<CourseView> {
    s.map_values(|c: Course| c@)
}

/// The first position at or after `from` whose course does not come
/// before `id`.
pub open spec fn lower_bound(s: Seq<CourseView>, id: CourseIdView, from: int) -> int
    decreases s.len() - from,
{
    if from < 0 || from >= s.len() || !id_lt(s[from].id, id) {
        from
    } else {
        lower_bound(s, id, from + 1)
    }
}

/// `s` with `c` put at its place in the order of the identifiers, unless
/// the course at that place has the identifier of `c` already: then `s`.
pub open spec fn insert_course(s: Seq<CourseView>, c: CourseView) -> Seq<CourseView> {
    let p = lower_bound(s, c.id, 0);
    if p < s.len() && s[p].id == c.id {
        s
    } else {
        s.insert(p, c)
    }
}

/// The canonical form of a catalogue: its entries taken one by one, each
/// put at its place unless its identifier is there already.
pub open spec fn canonical(cat: Seq<CourseView>) -> Seq<CourseView>
    decreases cat.len(),
{
    if cat.len() == 0 {
        Seq::empty()
    } else {
        insert_course(canonical(cat.drop_last()), cat.last())
    }
}

/// Whether the identifiers of `s` strictly increase.
pub open spec fn strictly_sorted(s: Seq<CourseView>) -> bool {
    forall|i: int, j: int| 0 <= i < j < s.len() ==> id_lt(#[trigger] s[i].id, #[trigger] s[j].id)
}

/// Whether `cat[i]` is the first entry of `cat` with its identifier.
pub open spec fn first_with_id(cat: Seq<CourseView>, i: int) -> bool {
    &&& 0 <= i < cat.len()
    &&& forall|j: int| 0 <= j < i ==> (#[trigger] cat[j]).id != cat[i].id
}

/// The order of identifiers is transitive.
pub proof fn lemma_id_lt_transitive(a: CourseIdView, b: CourseIdView, c: CourseIdView)
    requires
        id_lt(a, b),
        id_lt(b, c),
    ensures
        id_lt(a, c),
{
    if a.subject != b.subject && b.subject != c.subject {
        lemma_lt_from_transitive(a.subject, b.subject, c.subject, 0);
    }
}

/// Of two identifiers one comes first, or they are the same; never both.
pub proof fn lemma_id_lt_trichotomy(a: CourseIdView, b: CourseIdView)
    ensures
        id_lt(a, b) || id_lt(b, a) || a == b,
        !(id_lt(a, b) && id_lt(b, a)),
        !id_lt(a, a),
{
    lemma_lt_from_trichotomy(a.subject, b.subject, 0);
    lemma_lt_from_trichotomy(a.subject, a.subject, 0);
}

/// Where `lower_bound` lands: everything before it comes before `id`, and
/// the course there does not.
pub proof fn lemma_lower_bound(s: Seq<CourseView>, id: CourseIdView, from: int)
    requires
        0 <= from <= s.len(),
    ensures
        from <= lower_bound(s, id, from) <= s.len(),
        forall|k: int| from <= k < lower_bound(s, id, from) ==> id_lt((#[trigger] s[k]).id, id),
        lower_bound(s, id, from) < s.len() ==> !id_lt(s[lower_bound(s, id, from)].id, id),
    decreases s.len() - from,
{
    if from < s.len() && id_lt(s[from].id, id) {
        lemma_lower_bound(s, id, from + 1);
    }
}

/// Whether some course of `s` has the identifier `id`.
pub open spec fn has_id(s: Seq<CourseView>, id: CourseIdView) -> bool {
    exists|k: int| 0 <= k < s.len() && (#[trigger] s[k]).id == id
}

/// In a sorted list, a course with the identifier `id` stands at the place
/// that `lower_bound` gives, or nowhere.
pub proof fn lemma_lower_bound_finds(s: Seq<CourseView>, id: CourseIdView)
    requires
        strictly_sorted(s),
    ensures
        has_id(s, id) <==> lower_bound(s, id, 0) < s.len() && s[lower_bound(s, id, 0)].id == id,
        forall|k: int| lower_bound(s, id, 0) <= k < s.len() && s[k].id != id ==> id_lt(id, s[k].id),
{
    let p = lower_bound(s, id, 0);
    lemma_lower_bound(s, id, 0);
    lemma_id_lt_trichotomy(id, id);
    assert forall|k: int| p <= k < s.len() && s[k].id != id implies id_lt(id, s[k].id) by {
        lemma_id_lt_trichotomy(s[p].id, id);
        lemma_id_lt_trichotomy(s[k].id, id);
        if k > p {
            assert(id_lt(s[p].id, s[k].id));
            if s[p].id == id {
            } else {
                lemma_id_lt_transitive(id, s[p].id, s[k].id);
            }
        }
    }
    if has_id(s, id) {
        let k = choose|k: int| 0 <= k < s.len() && s[k].id == id;
        if k < p {
            assert(id_lt(s[k].id, id));
        } else if k > p {
            assert(id_lt(s[p].id, s[k].id));
            lemma_id_lt_trichotomy(s[p].id, id);
        }
    }
}

/// Putting a course into a sorted list keeps the list sorted.
pub proof fn lemma_insert_course_sorted(s: Seq<CourseView>, c: CourseView)
    requires
        strictly_sorted(s),
    ensures
        strictly_sorted(insert_course(s, c)),
        has_id(insert_course(s, c), c.id),
{
    let p = lower_bound(s, c.id, 0);
    let r = insert_course(s, c);
    lemma_lower_bound(s, c.id, 0);
    lemma_lower_bound_finds(s, c.id);
    if p < s.len() && s[p].id == c.id {
        assert(r[p].id == c.id);
    } else {
        assert forall|i: int, j: int| 0 <= i < j < r.len() implies id_lt(
            #[trigger] r[i].id,
            #[trigger] r[j].id,
        ) by {
            if j < p {
                assert(r[i] == s[i] && r[j] == s[j]);
            } else if j == p {
                assert(r[i] == s[i]);
            } else if i < p {
                assert(r[i] == s[i] && r[j] == s[j - 1]);
                lemma_id_lt_transitive(s[i].id, c.id, s[j - 1].id);
            } else if i == p {
                assert(r[j] == s[j - 1]);
            } else {
                assert(r[i] == s[i - 1] && r[j] == s[j - 1]);
            }
        }
        assert(r[p] == c);
    }
}

/// The canonical form is sorted.
pub proof fn lemma_canonical_sorted(cat: Seq<CourseView>)
    ensures
        strictly_sorted(canonical(cat)),
    decreases cat.len(),
{
    if cat.len() > 0 {
        lemma_canonical_sorted(cat.drop_last());
        lemma_insert_course_sorted(canonical(cat.drop_last()), cat.last());
    }
}

/// The canonical form holds an entry for each identifier of the catalogue.
pub proof fn lemma_canonical_complete(cat: Seq<CourseView>, i: int)
    requires
        0 <= i < cat.len(),
    ensures
        has_id(canonical(cat), cat[i].id),
    decreases cat.len(),
{
    let head = cat.drop_last();
    let prev = canonical(head);
    let c = cat.last();
    let out = canonical(cat);
    lemma_canonical_sorted(head);
    lemma_insert_course_sorted(prev, c);
    if i < head.len() {
        lemma_canonical_complete(head, i);
        assert(head[i] == cat[i]);
        let k = choose|k: int| 0 <= k < prev.len() && prev[k].id == cat[i].id;
        let p = lower_bound(prev, c.id, 0);
        lemma_lower_bound(prev, c.id, 0);
        if out == prev {
            assert(out[k].id == cat[i].id);
        } else if k < p {
            assert(out[k] == prev[k]);
        } else {
            assert(out[k + 1] == prev[k]);
        }
    }
}

/// Each entry of the canonical form is the first entry that the catalogue
/// lists with its identifier.
pub proof fn lemma_canonical_first(cat: Seq<CourseView>, m: int)
    requires
        0 <= m < canonical(cat).len(),
    ensures
        exists|i: int| first_with_id(cat, i) && cat[i] == canonical(cat)[m],
    decreases cat.len(),
{
    let out = canonical(cat);
    if cat.len() > 0 {
        let head = cat.drop_last();
        let prev = canonical(head);
        let c = cat.last();
        let p = lower_bound(prev, c.id, 0);
        lemma_canonical_sorted(head);
        lemma_lower_bound(prev, c.id, 0);
        lemma_lower_bound_finds(prev, c.id);
        if out != prev && m == p {
            let i = cat.len() - 1;
            assert(out[m] == c);
            assert forall|j: int| 0 <= j < i implies (#[trigger] cat[j]).id != cat[i].id by {
                lemma_canonical_complete(head, j);
                assert(head[j] == cat[j]);
            }
            assert(first_with_id(cat, i));
        } else {
            let k = if out == prev {
                m
            } else if m < p {
                m
            } else {
                m - 1
            };
            assert(prev[k] == out[m]);
            lemma_canonical_first(head, k);
            let i = choose|i: int| first_with_id(head, i) && head[i] == prev[k];
            assert forall|j: int| 0 <= j < i implies (#[trigger] cat[j]).id != cat[i].id by {
                assert(head[j] == cat[j]);
            }
            assert(cat[i] == head[i]);
            assert(first_with_id(cat, i));
        }
    }
}

/// Whether `s` holds the entry `c`.
pub open spec fn holds(s: Seq<CourseView>, c: CourseView) -> bool {
    exists|k: int| 0 <= k < s.len() && #[trigger] s[k] == c
}

/// Whether no two entries of `s` have one identifier.
pub open spec fn distinct_ids(s: Seq<CourseView>) -> bool {
    forall|i: int, j: int|
        0 <= i < s.len() && 0 <= j < s.len() && (#[trigger] s[i]).id == (#[trigger] s[j]).id ==> i
            == j
}

/// Two sorted lists that hold the same entries are the same list.
pub proof fn lemma_sorted_equal(a: Seq<CourseView>, b: Seq<CourseView>)
    requires
        strictly_sorted(a),
        strictly_sorted(b),
        forall|i: int| 0 <= i < a.len() ==> holds(b, #[trigger] a[i]),
        forall|j: int| 0 <= j < b.len() ==> holds(a, #[trigger] b[j]),
    ensures
        a == b,
    decreases a.len(),
{
    if a.len() == 0 {
        if b.len() > 0 {
            assert(holds(a, b[0]));
        }
        assert(a =~= b);
    } else {
        let x = a.last();
        assert(holds(b, a[a.len() - 1]));
        let j = choose|j: int| 0 <= j < b.len() && b[j] == x;
        if j < b.len() - 1 {
            let y = b[b.len() - 1];
            assert(id_lt(b[j].id, y.id));
            assert(holds(a, y));
            let i = choose|i: int| 0 <= i < a.len() && a[i] == y;
            lemma_id_lt_trichotomy(x.id, y.id);
            if i < a.len() - 1 {
                assert(id_lt(a[i].id, a[a.len() - 1].id));
            }
        }
        let a0 = a.drop_last();
        let b0 = b.drop_last();
        assert forall|i: int| 0 <= i < a0.len() implies holds(b0, #[trigger] a0[i]) by {
            assert(a0[i] == a[i]);
            assert(holds(b, a[i]));
            let k = choose|k: int| 0 <= k < b.len() && b[k] == a[i];
            assert(id_lt(a[i].id, a[a.len() - 1].id));
            lemma_id_lt_trichotomy(a[i].id, x.id);
            assert(b0[k] == a0[i]);
        }
        assert forall|k: int| 0 <= k < b0.len() implies holds(a0, #[trigger] b0[k]) by {
            assert(b0[k] == b[k]);
            assert(holds(a, b[k]));
            let i = choose|i: int| 0 <= i < a.len() && a[i] == b[k];
            assert(id_lt(b[k].id, b[b.len() - 1].id));
            lemma_id_lt_trichotomy(b[k].id, x.id);
            assert(a0[i] == b0[k]);
        }
        lemma_sorted_equal(a0, b0);
        assert(a =~= a0.push(x));
        assert(b =~= b0.push(x));
    }
}

/// The canonical form does not depend on the order in which a catalogue
/// lists its courses: two catalogues that hold the same entries, the
/// first without two entries of one identifier, have one canonical form.
pub proof fn lemma_canonical_order_independent(a: Seq<CourseView>, b: Seq<CourseView>)
    requires
        distinct_ids(a),
        forall|i: int| 0 <= i < a.len() ==> holds(b, #[trigger] a[i]),
        forall|j: int| 0 <= j < b.len() ==> holds(a, #[trigger] b[j]),
    ensures
        canonical(a) == canonical(b),
{
    let ca = canonical(a);
    let cb = canonical(b);
    lemma_canonical_sorted(a);
    lemma_canonical_sorted(b);
    assert forall|m: int| 0 <= m < ca.len() implies holds(cb, #[trigger] ca[m]) by {
        lemma_canonical_first(a, m);
        let i = choose|i: int| first_with_id(a, i) && a[i] == ca[m];
        assert(holds(b, a[i]));
        let j0 = choose|j: int| 0 <= j < b.len() && b[j] == a[i];
        lemma_canonical_complete(b, j0);
        let k = choose|k: int| 0 <= k < cb.len() && cb[k].id == b[j0].id;
        lemma_canonical_first(b, k);
        let j = choose|j: int| first_with_id(b, j) && b[j] == cb[k];
        assert(holds(a, b[j]));
        let i2 = choose|i2: int| 0 <= i2 < a.len() && a[i2] == b[j];
        assert(a[i2].id == a[i].id);
        assert(cb[k] == ca[m]);
    }
    assert forall|k: int| 0 <= k < cb.len() implies holds(ca, #[trigger] cb[k]) by {
        lemma_canonical_first(b, k);
        let j = choose|j: int| first_with_id(b, j) && b[j] == cb[k];
        assert(holds(a, b[j]));
        let i2 = choose|i2: int| 0 <= i2 < a.len() && a[i2] == b[j];
        lemma_canonical_complete(a, i2);
        let m = choose|m: int| 0 <= m < ca.len() && ca[m].id == a[i2].id;
        lemma_canonical_first(a, m);
        let i = choose|i: int| first_with_id(a, i) && a[i] == ca[m];
        assert(a[i].id == a[i2].id);
        assert(ca[m] == cb[k]);
    }
    lemma_sorted_equal(ca, cb);
}

/// Sorts a catalogue by identifier and drops every entry whose identifier
/// an earlier entry has.
pub fn sort_dedup(catalog: Vec<Course>) -> (out: Vec<Course>)
    ensures
        course_views(out@) == canonical(course_views(catalog@)),
{
    let ghost all = course_views(catalog@);
    let mut out: Vec<Course> = Vec::new();
    let mut rest = catalog;
    let n = rest.len();
    let mut done: usize = 0;
    // The entries are taken from the back of the reversed list, that is,
    // in the order in which the catalogue lists them.
    reverse(&mut rest);
    assert(course_views(out@) =~= canonical(all.take(0)));
    while done < n
        invariant
            n == all.len(),
            done <= n,
            rest.len() == n - done,
            forall|k: int| 0 <= k < rest.len() ==> (#[trigger] rest@[k])@ == all[n - 1 - k],
            course_views(out@) == canonical(all.take(done as int)),
        decreases n - done,
    {
        let course = rest.pop().unwrap();
        assert(course@ == all[done as int]);
        let ghost before = course_views(out@);
        let mut p: usize = 0;
        while p < out.len() && out[p].id.compare(&course.id) == Rank::Less
            invariant
                p <= out.len(),
                before == course_views(out@),
                lower_bound(before, course@.id, 0) == lower_bound(before, course@.id, p as int),
            decreases out.len() - p,
        {
            p += 1;
        }
        if p < out.len() && out[p].id == course.id {
        } else {
            out.insert(p, course);
            assert(course_views(out@) =~= before.insert(p as int, course@));
        }
        assert(all.take(done + 1).drop_last() =~= all.take(done as int));
        done += 1;
    }
    assert(all.take(n as int) =~= all);
    out
}

/// Reverses a list in place.
fn reverse(list: &mut Vec<Course>)
    ensures
        final(list).len() == old(list).len(),
        forall|k: int|
            0 <= k < old(list).len() ==> (#[trigger] final(list)@[k]) == old(list)@[old(list).len()
                - 1 - k],
{
    let mut out: Vec<Course> = Vec::new();
    let ghost start = list@;
    while list.len() > 0
        invariant
            out.len() + list.len() == start.len(),
            list@ == start.take(list.len() as int),
            forall|k: int|
                0 <= k < out.len() ==> (#[trigger] out@[k]) == start[start.len() - 1 - k],
        decreases list.len(),
    {
        let c = list.pop().unwrap();
        out.push(c);
    }
    *list = out;
}

} // verus!
