//! Requirement expressions: what a requirement sentence asks for, as a
//! tree of conjunctions and alternatives over courses.

use vstd::prelude::*;
use vstd::string::*;
use crate::text::{decimal_digits, push_decimal};

verus! {

/// A course as a requirement sentence names it.
#[derive(Debug, PartialEq, Eq)]
pub struct Course {
    pub topic: String,
    pub number: u64,
}

/// What a `Course` stands for.
pub struct CourseView {
    pub topic: Seq<char>,
    pub number: nat,
}

impl View for Course {
    type V = CourseView;

    open spec fn view(&self) -> CourseView {
        CourseView { topic: self.topic@, number: self.number as nat }
    }
}

/// A requirement: all of its members, any of its members, one course, or
/// nothing. `Expr::all` and `Expr::any` build the lists, and never give a
/// list with fewer than two members nor one with an empty member.
#[derive(PartialEq, Eq)]
pub enum Expr {
    All(Vec<Expr>),
    Any(Vec<Expr>),
    Course(Course),
    Empty,
}

/// What an `Expr` stands for.
pub enum ExprView {
    All(Seq<ExprView>),
    Any(Seq<ExprView>),
    Course(CourseView),
    Empty,
}

/// The views of a list of expressions.
pub open spec fn expr_views(list: Seq<Expr>) -> Seq<ExprView>
    decreases list,
{
    Seq::new(
        list.len(),
        |i: int|
            if 0 <= i < list.len() {
                list[i].view()
            } else {
                ExprView::Empty
            },
    )
}

impl View for Expr {
    type V = ExprView;

    open spec fn view(&self) -> ExprView
        decreases self,
    {
        match self {
            Expr::All(list) => ExprView::All(expr_views(list@)),
            Expr::Any(list) => ExprView::Any(expr_views(list@)),
            Expr::Course(course) => ExprView::Course(course@),
            Expr::Empty => ExprView::Empty,
        }
    }
}

impl Clone for Course {
    fn clone(&self) -> (r: Self)
        ensures
            r@ == self@,
    {
        Course { topic: self.topic.clone(), number: self.number }
    }
}

/// Copies a list of expressions.
fn clone_exprs(list: &Vec<Expr>) -> (r: Vec<Expr>)
    ensures
        expr_views(r@) == expr_views(list@),
    decreases list,
{
    let mut out: Vec<Expr> = Vec::new();
    let mut i: usize = 0;
    while i < list.len()
        invariant
            i <= list.len(),
            out.len() == i,
            forall|j: int| 0 <= j < i ==> out@[j]@ == list@[j]@,
        decreases list.len() - i,
    {
        let item = list[i].clone();
        out.push(item);
        i += 1;
    }
    assert(expr_views(out@) =~= expr_views(list@));
    out
}

impl Clone for Expr {
    fn clone(&self) -> (r: Self)
        ensures
            r@ == self@,
        decreases self,
    {
        match self {
            Expr::All(list) => Expr::All(clone_exprs(list)),
            Expr::Any(list) => Expr::Any(clone_exprs(list)),
            Expr::Course(course) => Expr::Course(course.clone()),
            Expr::Empty => Expr::Empty,
        }
    }
}

/// The members of `list` that are not empty, in order.
pub open spec fn without_empty(list: Seq<ExprView>) -> Seq<ExprView>
    decreases list.len(),
{
    if list.len() == 0 {
        Seq::empty()
    } else if list.last() == ExprView::Empty {
        without_empty(list.drop_last())
    } else {
        without_empty(list.drop_last()).push(list.last())
    }
}

/// The conjunction of a list: of its members that are not empty, nothing
/// where there is none, the member itself where there is one, and else
/// the list of them.
pub open spec fn all_of(list: Seq<ExprView>) -> ExprView {
    let kept = without_empty(list);
    if kept.len() == 0 {
        ExprView::Empty
    } else if kept.len() == 1 {
        kept[0]
    } else {
        ExprView::All(kept)
    }
}

/// The alternatives of a list, made as `all_of` makes a conjunction.
pub open spec fn any_of(list: Seq<ExprView>) -> ExprView {
    let kept = without_empty(list);
    if kept.len() == 0 {
        ExprView::Empty
    } else if kept.len() == 1 {
        kept[0]
    } else {
        ExprView::Any(kept)
    }
}

/// Whether no list in `e` has fewer than two members or an empty member.
pub open spec fn normal(e: ExprView) -> bool
    decreases e,
{
    match e {
        ExprView::All(list) => list.len() >= 2 && forall|i: int|
            0 <= i < list.len() ==> (#[trigger] list[i]) != ExprView::Empty && normal(list[i]),
        ExprView::Any(list) => list.len() >= 2 && forall|i: int|
            0 <= i < list.len() ==> (#[trigger] list[i]) != ExprView::Empty && normal(list[i]),
        _ => true,
    }
}

/// What `without_empty` keeps: members of the list, none of them empty.
pub proof fn lemma_without_empty(list: Seq<ExprView>, k: int)
    requires
        0 <= k < without_empty(list).len(),
    ensures
        without_empty(list)[k] != ExprView::Empty,
        exists|j: int| 0 <= j < list.len() && list[j] == without_empty(list)[k],
    decreases list.len(),
{
    let head = list.drop_last();
    if list.last() == ExprView::Empty || k < without_empty(head).len() {
        lemma_without_empty(head, k);
        let j = choose|j: int| 0 <= j < head.len() && head[j] == without_empty(head)[k];
        assert(list[j] == head[j]);
    } else {
        assert(list[list.len() - 1] == without_empty(list)[k]);
    }
}

/// A list without an empty member is kept whole.
pub proof fn lemma_without_empty_keeps(list: Seq<ExprView>)
    requires
        forall|i: int| 0 <= i < list.len() ==> (#[trigger] list[i]) != ExprView::Empty,
    ensures
        without_empty(list) == list,
    decreases list.len(),
{
    if list.len() > 0 {
        let head = list.drop_last();
        assert forall|i: int| 0 <= i < head.len() implies (#[trigger] head[i])
            != ExprView::Empty by {
            assert(head[i] == list[i]);
        }
        lemma_without_empty_keeps(head);
        assert(head.push(list.last()) =~= list);
    } else {
        assert(list =~= Seq::<ExprView>::empty());
    }
}

/// The conjunction of no member is nothing, that of one member is the
/// member, and an empty member beside another adds nothing; the same
/// holds of alternatives. So a list that `all_of` or `any_of` made is
/// made again as it is.
pub proof fn lemma_degenerate_lists(x: ExprView)
    ensures
        all_of(Seq::empty()) == ExprView::Empty,
        any_of(Seq::empty()) == ExprView::Empty,
        all_of(seq![x]) == x,
        any_of(seq![x]) == x,
        all_of(seq![ExprView::Empty, x]) == x,
        any_of(seq![ExprView::Empty, x]) == x,
        all_of(seq![x, ExprView::Empty]) == x,
        any_of(seq![x, ExprView::Empty]) == x,
        all_of(seq![all_of(seq![x])]) == all_of(seq![x]),
        any_of(seq![any_of(seq![x])]) == any_of(seq![x]),
{
    let e = ExprView::Empty;
    assert(seq![x].drop_last() =~= Seq::<ExprView>::empty());
    assert(seq![e, x].drop_last() =~= seq![e]);
    assert(seq![e].drop_last() =~= Seq::<ExprView>::empty());
    assert(seq![x, e].drop_last() =~= seq![x]);
    assert(without_empty(Seq::<ExprView>::empty()) =~= Seq::<ExprView>::empty());
    if x == e {
        assert(without_empty(seq![x]) =~= Seq::<ExprView>::empty());
        assert(without_empty(seq![e, x]) =~= Seq::<ExprView>::empty());
        assert(without_empty(seq![x, e]) =~= Seq::<ExprView>::empty());
    } else {
        assert(without_empty(seq![x]) =~= seq![x]);
        assert(without_empty(seq![e]) =~= Seq::<ExprView>::empty());
        assert(without_empty(seq![e, x]) =~= seq![x]);
        assert(without_empty(seq![x, e]) =~= seq![x]);
    }
}

/// Of members that hold no list with fewer than two members and no empty
/// member, `all_of` and `any_of` make an expression that holds none.
pub proof fn lemma_lists_normal(list: Seq<ExprView>)
    requires
        forall|i: int| 0 <= i < list.len() ==> normal(#[trigger] list[i]),
    ensures
        normal(all_of(list)),
        normal(any_of(list)),
{
    let kept = without_empty(list);
    assert forall|k: int| 0 <= k < kept.len() implies (#[trigger] kept[k]) != ExprView::Empty
        && normal(kept[k]) by {
        lemma_without_empty(list, k);
        let j = choose|j: int| 0 <= j < list.len() && list[j] == kept[k];
        assert(normal(list[j]));
    }
}

/// Takes the empty members out of a list.
fn drop_empty(list: Vec<Expr>) -> (kept: Vec<Expr>)
    ensures
        expr_views(kept@) == without_empty(expr_views(list@)),
{
    let ghost views = expr_views(list@);
    let mut kept: Vec<Expr> = Vec::new();
    assert(expr_views(kept@) =~= without_empty(views.take(0)));
    for e in it: list.into_iter()
        invariant
            it.seq() == list@,
            views == expr_views(list@),
            expr_views(kept@) == without_empty(views.take(it.index() as int)),
    {
        let ghost i = it.index() as int;
        let ghost before = expr_views(kept@);
        let ghost next = views.take(i + 1);
        assert(next.drop_last() =~= views.take(i));
        assert(next.last() == e@);
        assert(without_empty(next) == if e@ != ExprView::Empty {
            without_empty(next.drop_last()).push(next.last())
        } else {
            without_empty(next.drop_last())
        });
        match e {
            Expr::Empty => {},
            other => {
                assert(other@ != ExprView::Empty);
                kept.push(other);
                assert(expr_views(kept@) =~= before.push(views[i]));
            },
        }
    }
    assert(views.take(views.len() as int) =~= views);
    kept
}

impl Expr {
    /// The conjunction of `list`.
    pub fn all(list: Vec<Expr>) -> (r: Expr)
        ensures
            r@ == all_of(expr_views(list@)),
    {
        let mut kept = drop_empty(list);
        if kept.len() == 0 {
            Expr::Empty
        } else if kept.len() == 1 {
            let only = kept.pop().unwrap();
            only
        } else {
            Expr::All(kept)
        }
    }

    /// The alternatives of `list`.
    pub fn any(list: Vec<Expr>) -> (r: Expr)
        ensures
            r@ == any_of(expr_views(list@)),
    {
        let mut kept = drop_empty(list);
        if kept.len() == 0 {
            Expr::Empty
        } else if kept.len() == 1 {
            let only = kept.pop().unwrap();
            only
        } else {
            Expr::Any(kept)
        }
    }

    /// The expression that an optional expression stands for: nothing,
    /// where there is none.
    pub fn from_option(value: Option<Expr>) -> (r: Expr)
        ensures
            value matches Some(e) ==> r == e,
            value is None ==> r == Expr::Empty,
    {
        match value {
            Some(expr) => expr,
            None => Expr::Empty,
        }
    }
}

/// The text of an expression: `()` for nothing, `(TOPIC NUMBER)` for a
/// course, and `(all ..)` or `(any ..)` with the texts of the members,
/// each behind a space.
pub open spec fn expr_text(e: ExprView) -> Seq<char>
    decreases e, 1int,
{
    match e {
        ExprView::All(list) => "(all"@ + exprs_text(list, 0) + seq![')'],
        ExprView::Any(list) => "(any"@ + exprs_text(list, 0) + seq![')'],
        ExprView::Course(c) => seq!['('] + c.topic + seq![' '] + decimal_digits(c.number) + seq![
            ')',
        ],
        ExprView::Empty => seq!['(', ')'],
    }
}

/// The texts of the members of `list` from `from` on, each behind a space.
pub open spec fn exprs_text(list: Seq<ExprView>, from: int) -> Seq<char>
    decreases list, list.len() - from,
{
    if from < 0 || from >= list.len() {
        Seq::empty()
    } else {
        seq![' '] + expr_text(list[from]) + exprs_text(list, from + 1)
    }
}

/// Appends the texts of the members of `list`.
fn push_exprs_text(out: &mut String, list: &Vec<Expr>)
    ensures
        final(out)@ == old(out)@ + exprs_text(expr_views(list@), 0),
    decreases list, list.len(),
{
    let ghost views = expr_views(list@);
    let mut i: usize = 0;
    assert(out@ + exprs_text(views, 0) =~= old(out)@ + exprs_text(views, 0));
    while i < list.len()
        invariant
            i <= list.len(),
            views == expr_views(list@),
            out@ + exprs_text(views, i as int) == old(out)@ + exprs_text(views, 0),
        decreases list.len() - i,
    {
        let ghost before = out@;
        out.append(" ");
        proof {
            reveal_strlit(" ");
        }
        push_expr_text(out, &list[i]);
        assert(views[i as int] == list@[i as int]@);
        assert(out@ + exprs_text(views, i + 1) =~= before + exprs_text(views, i as int));
        i += 1;
    }
    assert(out@ + exprs_text(views, i as int) =~= out@);
}

/// Appends the text of `e`.
fn push_expr_text(out: &mut String, e: &Expr)
    ensures
        final(out)@ == old(out)@ + expr_text(e@),
    decreases e, 1int,
{
    proof {
        reveal_strlit("(");
        reveal_strlit(")");
        reveal_strlit(" ");
    }
    match e {
        Expr::All(list) => {
            out.append("(all");
            push_exprs_text(out, list);
            out.append(")");
        },
        Expr::Any(list) => {
            out.append("(any");
            push_exprs_text(out, list);
            out.append(")");
        },
        Expr::Course(course) => {
            out.append("(");
            out.append(course.topic.as_str());
            out.append(" ");
            push_decimal(out, course.number);
            out.append(")");
        },
        Expr::Empty => {
            out.append("(");
            out.append(")");
        },
    }
    assert(out@ =~= old(out)@ + expr_text(e@));
}

impl Expr {
    /// The expression as text.
    pub fn to_string(&self) -> (r: String)
        ensures
            r@ == expr_text(self@),
    {
        let mut out = String::new();
        push_expr_text(&mut out, self);
        assert(out@ =~= expr_text(self@));
        out
    }
}

} // verus!
