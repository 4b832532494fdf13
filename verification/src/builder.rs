//! The values that a derivation builds: each word of the text and each
//! action leaves a value on a stack, and an action takes the values of the
//! symbols of its production from the top.

use vstd::prelude::*;
use crate::actions;
use crate::actions::courses_of;
use crate::expr::{
    Course,
    CourseView,
    Expr,
    ExprView,
    all_of,
    any_of,
    expr_views,
    lemma_lists_normal,
    normal,
};
use crate::grammar::Action;

verus! {

/// A value on the stack.
pub enum Value {
    /// The value of a word without content.
    Unit,
    Number(u64),
    Topic(String),
    Numbers(Vec<u64>),
    /// A topic and the numbers that share it.
    Head(String, Vec<u64>),
    Course(Course),
    Expr(Expr),
    Exprs(Vec<Expr>),
}

/// What a `Value` stands for.
pub enum ValueView {
    Unit,
    Number(u64),
    Topic(Seq<char>),
    Numbers(Seq<u64>),
    Head(Seq<char>, Seq<u64>),
    Course(CourseView),
    Expr(ExprView),
    Exprs(Seq<ExprView>),
}

impl View for Value {
    type V = ValueView;

    open spec fn view(&self) -> ValueView {
        match self {
            Value::Unit => ValueView::Unit,
            Value::Number(n) => ValueView::Number(*n),
            Value::Topic(t) => ValueView::Topic(t@),
            Value::Numbers(list) => ValueView::Numbers(list@),
            Value::Head(t, list) => ValueView::Head(t@, list@),
            Value::Course(c) => ValueView::Course(c@),
            Value::Expr(e) => ValueView::Expr(e@),
            Value::Exprs(list) => ValueView::Exprs(expr_views(list@)),
        }
    }
}

/// The views of a stack of values.
pub open spec fn value_views(stack: Seq<Value>) -> Seq<ValueView> {
    stack.map_values(|v: Value| v@)
}

/// Puts a value on the stack.
pub fn put(stack: &mut Vec<Value>, value: Value)
    ensures
        value_views(final(stack)@) == value_views(old(stack)@).push(value@),
{
    stack.push(value);
    assert(value_views(stack@) =~= value_views(old(stack)@).push(value@));
}

/// Takes the value on top of the stack.
fn take(stack: &mut Vec<Value>) -> (r: Option<Value>)
    ensures
        r is Some == (old(stack).len() > 0),
        r matches Some(v) ==> v@ == value_views(old(stack)@).last() && value_views(final(stack)@)
            == value_views(old(stack)@).drop_last(),
{
    let r = stack.pop();
    if r.is_some() {
        assert(value_views(stack@) =~= value_views(old(stack)@).drop_last());
    }
    r
}

fn take_unit(stack: &mut Vec<Value>) -> (ok: bool)
    ensures
        ok == (old(stack).len() > 0 && value_views(old(stack)@).last() is Unit),
        ok ==> value_views(final(stack)@) == value_views(old(stack)@).drop_last(),
{
    match take(stack) {
        Some(Value::Unit) => true,
        _ => false,
    }
}

fn take_number(stack: &mut Vec<Value>) -> (r: Option<u64>)
    ensures
        r is Some == (old(stack).len() > 0 && value_views(old(stack)@).last() is Number),
        r matches Some(v) ==> ValueView::Number(v) == value_views(old(stack)@).last()
            && value_views(final(stack)@) == value_views(old(stack)@).drop_last(),
{
    match take(stack) {
        Some(Value::Number(v)) => Some(v),
        _ => None,
    }
}

fn take_topic(stack: &mut Vec<Value>) -> (r: Option<String>)
    ensures
        r is Some == (old(stack).len() > 0 && value_views(old(stack)@).last() is Topic),
        r matches Some(v) ==> ValueView::Topic(v@) == value_views(old(stack)@).last()
            && value_views(final(stack)@) == value_views(old(stack)@).drop_last(),
{
    match take(stack) {
        Some(Value::Topic(v)) => Some(v),
        _ => None,
    }
}

fn take_numbers(stack: &mut Vec<Value>) -> (r: Option<Vec<u64>>)
    ensures
        r is Some == (old(stack).len() > 0 && value_views(old(stack)@).last() is Numbers),
        r matches Some(v) ==> ValueView::Numbers(v@) == value_views(old(stack)@).last()
            && value_views(final(stack)@) == value_views(old(stack)@).drop_last(),
{
    match take(stack) {
        Some(Value::Numbers(v)) => Some(v),
        _ => None,
    }
}

fn take_head(stack: &mut Vec<Value>) -> (r: Option<(String, Vec<u64>)>)
    ensures
        r is Some == (old(stack).len() > 0 && value_views(old(stack)@).last() is Head),
        r matches Some(v) ==> ValueView::Head(v.0@, v.1@) == value_views(old(stack)@).last()
            && value_views(final(stack)@) == value_views(old(stack)@).drop_last(),
{
    match take(stack) {
        Some(Value::Head(t, list)) => Some((t, list)),
        _ => None,
    }
}

fn take_course(stack: &mut Vec<Value>) -> (r: Option<Course>)
    ensures
        r is Some == (old(stack).len() > 0 && value_views(old(stack)@).last() is Course),
        r matches Some(v) ==> ValueView::Course(v@) == value_views(old(stack)@).last()
            && value_views(final(stack)@) == value_views(old(stack)@).drop_last(),
{
    match take(stack) {
        Some(Value::Course(v)) => Some(v),
        _ => None,
    }
}

fn take_expr(stack: &mut Vec<Value>) -> (r: Option<Expr>)
    ensures
        r is Some == (old(stack).len() > 0 && value_views(old(stack)@).last() is Expr),
        r matches Some(v) ==> ValueView::Expr(v@) == value_views(old(stack)@).last()
            && value_views(final(stack)@) == value_views(old(stack)@).drop_last(),
{
    match take(stack) {
        Some(Value::Expr(v)) => Some(v),
        _ => None,
    }
}

fn take_exprs(stack: &mut Vec<Value>) -> (r: Option<Vec<Expr>>)
    ensures
        r is Some == (old(stack).len() > 0 && value_views(old(stack)@).last() is Exprs),
        r matches Some(v) ==> ValueView::Exprs(expr_views(v@)) == value_views(old(stack)@).last()
            && value_views(final(stack)@) == value_views(old(stack)@).drop_last(),
{
    match take(stack) {
        Some(Value::Exprs(v)) => Some(v),
        _ => None,
    }
}

/// What an action does with the values on top of the stack.
#[derive(Clone, Copy, Debug, PartialEq, Eq, Structural)]
pub enum Shape {
    /// An expression stays as it is.
    IdExpr,
    /// A list of expressions stays as it is.
    IdExprs,
    /// A list of numbers stays as it is.
    IdNumbers,
    /// A number stays as it is.
    IdNumber,
    /// An expression and a word: the expression.
    ExprUnit,
    /// A word and an expression: the expression.
    UnitExpr,
    /// A word and a number: the number.
    UnitNumber,
    /// Nothing: a word without content.
    Unit0,
    /// A word: a word.
    Unit1,
    /// Two words: a word.
    Unit2,
    /// Nothing: the empty list of expressions.
    NoExprs,
    /// Nothing: the empty list of numbers.
    NoNumbers,
    /// Nothing: the empty expression.
    Empty0,
    /// A word: the empty expression.
    Empty1,
    /// A list and an expression: the list with the expression at its end.
    PushExpr,
    /// Numbers and a number: the numbers with the number at their end.
    PushNumber,
    /// An expression: the list of it.
    OneExpr,
    /// A number: the list of it.
    OneNumber,
    /// An expression and a list: the list with the expression at its head.
    ConsExpr,
    /// A course: the expression of it.
    CourseExpr,
    /// A topic and a number: the course.
    MakeCourse,
    /// A topic, a number and more numbers: the topic with all the numbers.
    MakeHead,
    /// A topic, a number and more numbers: any of these courses.
    SlashList,
    /// A word, a list, a word and an expression: all of the list and the expression.
    AllList,
    /// A word, a list, a word and an expression: any of the list and the expression.
    AnyList,
    /// A word, a topic with numbers, a word and a number: all of these courses.
    AllShared,
    /// A word, a topic with numbers, a word and a number: any of these courses.
    AnyShared,
    /// A word and a topic with numbers: any of these courses.
    AnyHead,
    /// A word, a topic with numbers and two words: any of these courses.
    AnyHeadAlt,
    /// A word, an expression, a word and an expression: any of the two.
    Either,
    /// An expression, a list and an expression: all of them.
    TopList,
}

/// The shape of each action.
pub open spec fn shape_of(action: Action) -> Shape {
    match action {
        Action::TopLevelAny1 => Shape::IdExpr,
        Action::TopLevelTopLevelSemicolonList => Shape::IdExpr,
        Action::TopLevelTopLevelCommaList => Shape::IdExpr,
        Action::TopLevelNone => Shape::Empty1,
        Action::TopLevelSemicolonListC1 => Shape::TopList,
        Action::TopLevelSemicolonListElement0TopLevelSemicolonListElement1 => Shape::IdExprs,
        Action::TopLevelSemicolonListElement0Empty => Shape::NoExprs,
        Action::TopLevelSemicolonListLastElementOptTopLevelSemicolonListLastElement => {
            Shape::IdExpr
        },
        Action::TopLevelSemicolonListElement1TopLevelSemicolonListElement => Shape::OneExpr,
        Action::TopLevelSemicolonListElement1C1 => Shape::PushExpr,
        Action::TopLevelSemicolonListElementAny1 => Shape::IdExpr,
        Action::TopLevelSemicolonListLastElementOptEmpty => Shape::Empty0,
        Action::TopLevelSemicolonListLastElementC1 => Shape::UnitExpr,
        Action::TopLevelCommaListC1 => Shape::TopList,
        Action::TopLevelCommaListElement0TopLevelCommaListElement1 => Shape::IdExprs,
        Action::TopLevelCommaListElement0Empty => Shape::NoExprs,
        Action::TopLevelCommaListLastElementOptTopLevelCommaListLastElement => Shape::IdExpr,
        Action::TopLevelCommaListElement1TopLevelCommaListElement => Shape::OneExpr,
        Action::TopLevelCommaListElement1C1 => Shape::PushExpr,
        Action::TopLevelCommaListElementAny1 => Shape::IdExpr,
        Action::TopLevelCommaListLastElementOptEmpty => Shape::Empty0,
        Action::TopLevelCommaListLastElementC1 => Shape::UnitExpr,
        Action::Any1Any2 => Shape::IdExpr,
        Action::Any1AllCoursesSharedTopic => Shape::IdExpr,
        Action::Any1AllCourses => Shape::IdExpr,
        Action::Any1C3 => Shape::ExprUnit,
        Action::Any1C4 => Shape::ExprUnit,
        Action::Any2AnyCoursesSharedTopic => Shape::IdExpr,
        Action::Any2AnyCourses => Shape::IdExpr,
        Action::Any2Any3 => Shape::IdExpr,
        Action::Any2C3 => Shape::ExprUnit,
        Action::Any2C4 => Shape::ExprUnit,
        Action::Any3EitherCourse => Shape::IdExpr,
        Action::Any3Course => Shape::CourseExpr,
        Action::Any3CoursesSharedTopicSlashList => Shape::IdExpr,
        Action::Any3AnyCoursesSharedTopicNoCommas => Shape::IdExpr,
        Action::Any3Alternative => Shape::Empty1,
        Action::Any3C6 => Shape::UnitExpr,
        Action::Any3likeAny3 => Shape::IdExpr,
        Action::Any3likeEnOrAlternativeOption => Shape::Empty1,
        Action::EitherCourseC1 => Shape::Either,
        Action::CourseC1 => Shape::MakeCourse,
        Action::AllCoursesC1 => Shape::AllList,
        Action::AllCoursesSharedTopicC1 => Shape::AllShared,
        Action::AnyCoursesC1 => Shape::AnyList,
        Action::AnyCoursesSharedTopicC1 => Shape::AnyShared,
        Action::AnyCoursesSharedTopicC3 => Shape::AnyHeadAlt,
        Action::AnyCoursesSharedTopicC2 => Shape::AnyHead,
        Action::OneOfOptOneOf => Shape::Unit1,
        Action::AnyCoursesSharedTopicNoCommasC1 => Shape::AnyHead,
        Action::OneOfOptEmpty => Shape::Unit0,
        Action::CoursesSharedTopicHeadElement0CoursesSharedTopicHeadElement1 => Shape::IdNumbers,
        Action::CoursesSharedTopicHeadC1 => Shape::MakeHead,
        Action::CommaSeparatedCourses2C1 => Shape::ConsExpr,
        Action::CommaSeparatedCoursesElement20CommaSeparatedCoursesElement21 => Shape::IdExprs,
        Action::CommaSeparatedCoursesElement20Empty => Shape::NoExprs,
        Action::CommaSeparatedCoursesElement21CommaSeparatedCoursesElement2 => Shape::OneExpr,
        Action::CommaSeparatedCoursesElement21C1 => Shape::PushExpr,
        Action::CommaSeparatedCoursesElement2C1 => Shape::UnitExpr,
        Action::CommaSeparatedCourses3C1 => Shape::ConsExpr,
        Action::CommaSeparatedCoursesElement30CommaSeparatedCoursesElement31 => Shape::IdExprs,
        Action::CommaSeparatedCoursesElement30Empty => Shape::NoExprs,
        Action::CommaSeparatedCoursesElement31CommaSeparatedCoursesElement3 => Shape::OneExpr,
        Action::CommaSeparatedCoursesElement31C1 => Shape::PushExpr,
        Action::CommaSeparatedCoursesElement3C1 => Shape::UnitExpr,
        Action::CoursesSharedTopicHeadElement0Empty => Shape::NoNumbers,
        Action::CoursesSharedTopicHeadElement1CoursesSharedTopicHeadElement => Shape::OneNumber,
        Action::CoursesSharedTopicHeadElement1C1 => Shape::PushNumber,
        Action::CoursesSharedTopicHeadElementC1 => Shape::UnitNumber,
        Action::CoursesSharedTopicSlashListC1 => Shape::SlashList,
        Action::CoursesSharedTopicSlashListElement1CoursesSharedTopicSlashListElement => {
            Shape::OneNumber
        },
        Action::CoursesSharedTopicSlashListElement1C1 => Shape::PushNumber,
        Action::CoursesSharedTopicSlashListElementC1 => Shape::IdNumber,
        Action::CommaOptAndC1 => Shape::Unit2,
        Action::CommaOptOrC1 => Shape::Unit2,
        Action::CommaOrSemicolonOptCommaOrSemicolon => Shape::Unit1,
        Action::CommaOrSemicolonOptEmpty => Shape::Unit0,
        Action::CommaOrSemicolonComma => Shape::Unit0,
        Action::CommaOrSemicolonSemicolon => Shape::Unit0,
        Action::AndEtAnd => Shape::Unit1,
        Action::AndEtAndOr => Shape::Unit1,
        Action::AndEtEt => Shape::Unit1,
        Action::OrOuOr => Shape::Unit1,
        Action::OrOuOu => Shape::Unit1,
        Action::BothOptBoth => Shape::Unit1,
        Action::BothOptEmpty => Shape::Unit0,
        Action::EitherOptEither => Shape::Unit1,
        Action::EitherOptEmpty => Shape::Unit0,
        Action::OrAlternativeC1 => Shape::Unit2,
        Action::OrAlternativeC2 => Shape::Unit2,
        Action::UnlessAlternativeC1 => Shape::Unit2,
    }
}

/// The stack after an action of the given shape has run: the values that
/// it takes are gone from the top, and its result stands in their place.
/// `None` where the values on top are not of the kinds that it takes.
pub open spec fn apply(shape: Shape, stack: Seq<ValueView>) -> Option<Seq<ValueView>> {
    let n = stack.len() as int;
    match shape {
        Shape::IdExpr => {
            if n >= 1 && stack[n - 1] is Expr {
                let a0 = stack[n - 1]->Expr_0;
                Some(stack.take(n - 1).push(ValueView::Expr(a0)))
            } else {
                None
            }
        },
        Shape::IdExprs => {
            if n >= 1 && stack[n - 1] is Exprs {
                let a0 = stack[n - 1]->Exprs_0;
                Some(stack.take(n - 1).push(ValueView::Exprs(a0)))
            } else {
                None
            }
        },
        Shape::IdNumbers => {
            if n >= 1 && stack[n - 1] is Numbers {
                let a0 = stack[n - 1]->Numbers_0;
                Some(stack.take(n - 1).push(ValueView::Numbers(a0)))
            } else {
                None
            }
        },
        Shape::IdNumber => {
            if n >= 1 && stack[n - 1] is Number {
                let a0 = stack[n - 1]->Number_0;
                Some(stack.take(n - 1).push(ValueView::Number(a0)))
            } else {
                None
            }
        },
        Shape::ExprUnit => {
            if n >= 2 && stack[n - 2] is Expr && stack[n - 1] is Unit {
                let a0 = stack[n - 2]->Expr_0;
                Some(stack.take(n - 2).push(ValueView::Expr(a0)))
            } else {
                None
            }
        },
        Shape::UnitExpr => {
            if n >= 2 && stack[n - 2] is Unit && stack[n - 1] is Expr {
                let a1 = stack[n - 1]->Expr_0;
                Some(stack.take(n - 2).push(ValueView::Expr(a1)))
            } else {
                None
            }
        },
        Shape::UnitNumber => {
            if n >= 2 && stack[n - 2] is Unit && stack[n - 1] is Number {
                let a1 = stack[n - 1]->Number_0;
                Some(stack.take(n - 2).push(ValueView::Number(a1)))
            } else {
                None
            }
        },
        Shape::Unit0 => {
            Some(stack.take(n - 0).push(ValueView::Unit))
        },
        Shape::Unit1 => {
            if n >= 1 && stack[n - 1] is Unit {
                Some(stack.take(n - 1).push(ValueView::Unit))
            } else {
                None
            }
        },
        Shape::Unit2 => {
            if n >= 2 && stack[n - 2] is Unit && stack[n - 1] is Unit {
                Some(stack.take(n - 2).push(ValueView::Unit))
            } else {
                None
            }
        },
        Shape::NoExprs => {
            Some(stack.take(n - 0).push(ValueView::Exprs(Seq::empty())))
        },
        Shape::NoNumbers => {
            Some(stack.take(n - 0).push(ValueView::Numbers(Seq::empty())))
        },
        Shape::Empty0 => {
            Some(stack.take(n - 0).push(ValueView::Expr(ExprView::Empty)))
        },
        Shape::Empty1 => {
            if n >= 1 && stack[n - 1] is Unit {
                Some(stack.take(n - 1).push(ValueView::Expr(ExprView::Empty)))
            } else {
                None
            }
        },
        Shape::PushExpr => {
            if n >= 2 && stack[n - 2] is Exprs && stack[n - 1] is Expr {
                let a0 = stack[n - 2]->Exprs_0;
                let a1 = stack[n - 1]->Expr_0;
                Some(stack.take(n - 2).push(ValueView::Exprs(a0.push(a1))))
            } else {
                None
            }
        },
        Shape::PushNumber => {
            if n >= 2 && stack[n - 2] is Numbers && stack[n - 1] is Number {
                let a0 = stack[n - 2]->Numbers_0;
                let a1 = stack[n - 1]->Number_0;
                Some(stack.take(n - 2).push(ValueView::Numbers(a0.push(a1))))
            } else {
                None
            }
        },
        Shape::OneExpr => {
            if n >= 1 && stack[n - 1] is Expr {
                let a0 = stack[n - 1]->Expr_0;
                Some(stack.take(n - 1).push(ValueView::Exprs(seq![a0])))
            } else {
                None
            }
        },
        Shape::OneNumber => {
            if n >= 1 && stack[n - 1] is Number {
                let a0 = stack[n - 1]->Number_0;
                Some(stack.take(n - 1).push(ValueView::Numbers(seq![a0])))
            } else {
                None
            }
        },
        Shape::ConsExpr => {
            if n >= 2 && stack[n - 2] is Expr && stack[n - 1] is Exprs {
                let a0 = stack[n - 2]->Expr_0;
                let a1 = stack[n - 1]->Exprs_0;
                Some(stack.take(n - 2).push(ValueView::Exprs(seq![a0] + a1)))
            } else {
                None
            }
        },
        Shape::CourseExpr => {
            if n >= 1 && stack[n - 1] is Course {
                let a0 = stack[n - 1]->Course_0;
                Some(stack.take(n - 1).push(ValueView::Expr(ExprView::Course(a0))))
            } else {
                None
            }
        },
        Shape::MakeCourse => {
            if n >= 2 && stack[n - 2] is Topic && stack[n - 1] is Number {
                let a0 = stack[n - 2]->Topic_0;
                let a1 = stack[n - 1]->Number_0;
                Some(
                    stack.take(n - 2).push(
                        ValueView::Course(CourseView { topic: a0, number: a1 as nat }),
                    ),
                )
            } else {
                None
            }
        },
        Shape::MakeHead => {
            if n >= 3
                && stack[n - 3] is Topic
                && stack[n - 2] is Number
                && stack[n - 1] is Numbers {
                let a0 = stack[n - 3]->Topic_0;
                let a1 = stack[n - 2]->Number_0;
                let a2 = stack[n - 1]->Numbers_0;
                let h = (a0, seq![a1] + a2);
                Some(stack.take(n - 3).push(ValueView::Head(h.0, h.1)))
            } else {
                None
            }
        },
        Shape::SlashList => {
            if n >= 3
                && stack[n - 3] is Topic
                && stack[n - 2] is Number
                && stack[n - 1] is Numbers {
                let a0 = stack[n - 3]->Topic_0;
                let a1 = stack[n - 2]->Number_0;
                let a2 = stack[n - 1]->Numbers_0;
                Some(stack.take(n - 3).push(ValueView::Expr(any_of(courses_of(a0, seq![a1] + a2)))))
            } else {
                None
            }
        },
        Shape::AllList => {
            if n >= 4
                && stack[n - 4] is Unit
                && stack[n - 3] is Exprs
                && stack[n - 2] is Unit
                && stack[n - 1] is Expr {
                let a1 = stack[n - 3]->Exprs_0;
                let a3 = stack[n - 1]->Expr_0;
                Some(stack.take(n - 4).push(ValueView::Expr(all_of(a1.push(a3)))))
            } else {
                None
            }
        },
        Shape::AnyList => {
            if n >= 4
                && stack[n - 4] is Unit
                && stack[n - 3] is Exprs
                && stack[n - 2] is Unit
                && stack[n - 1] is Expr {
                let a1 = stack[n - 3]->Exprs_0;
                let a3 = stack[n - 1]->Expr_0;
                Some(stack.take(n - 4).push(ValueView::Expr(any_of(a1.push(a3)))))
            } else {
                None
            }
        },
        Shape::AllShared => {
            if n >= 4
                && stack[n - 4] is Unit
                && stack[n - 3] is Head
                && stack[n - 2] is Unit
                && stack[n - 1] is Number {
                let a1 = (stack[n - 3]->Head_0, stack[n - 3]->Head_1);
                let a3 = stack[n - 1]->Number_0;
                Some(
                    stack.take(n - 4).push(
                        ValueView::Expr(all_of(courses_of(a1.0, a1.1.push(a3)))),
                    ),
                )
            } else {
                None
            }
        },
        Shape::AnyShared => {
            if n >= 4
                && stack[n - 4] is Unit
                && stack[n - 3] is Head
                && stack[n - 2] is Unit
                && stack[n - 1] is Number {
                let a1 = (stack[n - 3]->Head_0, stack[n - 3]->Head_1);
                let a3 = stack[n - 1]->Number_0;
                Some(
                    stack.take(n - 4).push(
                        ValueView::Expr(any_of(courses_of(a1.0, a1.1.push(a3)))),
                    ),
                )
            } else {
                None
            }
        },
        Shape::AnyHead => {
            if n >= 2 && stack[n - 2] is Unit && stack[n - 1] is Head {
                let a1 = (stack[n - 1]->Head_0, stack[n - 1]->Head_1);
                Some(stack.take(n - 2).push(ValueView::Expr(any_of(courses_of(a1.0, a1.1)))))
            } else {
                None
            }
        },
        Shape::AnyHeadAlt => {
            if n >= 4
                && stack[n - 4] is Unit
                && stack[n - 3] is Head
                && stack[n - 2] is Unit
                && stack[n - 1] is Unit {
                let a1 = (stack[n - 3]->Head_0, stack[n - 3]->Head_1);
                Some(stack.take(n - 4).push(ValueView::Expr(any_of(courses_of(a1.0, a1.1)))))
            } else {
                None
            }
        },
        Shape::Either => {
            if n >= 4
                && stack[n - 4] is Unit
                && stack[n - 3] is Expr
                && stack[n - 2] is Unit
                && stack[n - 1] is Expr {
                let a1 = stack[n - 3]->Expr_0;
                let a3 = stack[n - 1]->Expr_0;
                Some(stack.take(n - 4).push(ValueView::Expr(any_of(seq![a1, a3]))))
            } else {
                None
            }
        },
        Shape::TopList => {
            if n >= 3 && stack[n - 3] is Expr && stack[n - 2] is Exprs && stack[n - 1] is Expr {
                let a0 = stack[n - 3]->Expr_0;
                let a1 = stack[n - 2]->Exprs_0;
                let a2 = stack[n - 1]->Expr_0;
                Some(stack.take(n - 3).push(ValueView::Expr(all_of((seq![a0] + a1).push(a2)))))
            } else {
                None
            }
        },
    }
}

/// Runs an action on the stack of values. The result says whether the
/// values on top were of the kinds that the action takes.
pub fn run_action(action: Action, stack: &mut Vec<Value>) -> (ok: bool)
    ensures
        match apply(shape_of(action), value_views(old(stack)@)) {
            Some(after) => ok && value_views(final(stack)@) == after,
            None => !ok,
        },
{
    let ghost before = value_views(stack@);
    match action {
        Action::TopLevelAny1 => {
            let a0 = match take_expr(stack) {
                Some(v) => v,
                None => {
                    return false;
                },
            };
            let r = actions::top_level_any1(a0);
            put(stack, Value::Expr(r));
            assert(value_views(stack@) =~= apply(shape_of(action), before).unwrap());
            true
        },
        Action::TopLevelTopLevelSemicolonList => {
            let a0 = match take_expr(stack) {
                Some(v) => v,
                None => {
                    return false;
                },
            };
            let r = actions::top_level_top_level_semicolon_list(a0);
            put(stack, Value::Expr(r));
            assert(value_views(stack@) =~= apply(shape_of(action), before).unwrap());
            true
        },
        Action::TopLevelTopLevelCommaList => {
            let a0 = match take_expr(stack) {
                Some(v) => v,
                None => {
                    return false;
                },
            };
            let r = actions::top_level_top_level_comma_list(a0);
            put(stack, Value::Expr(r));
            assert(value_views(stack@) =~= apply(shape_of(action), before).unwrap());
            true
        },
        Action::TopLevelNone => {
            if !take_unit(stack) {
                return false;
            }
            let r = actions::top_level_none(());
            put(stack, Value::Expr(r));
            assert(value_views(stack@) =~= apply(shape_of(action), before).unwrap());
            true
        },
        Action::TopLevelSemicolonListC1 => {
            let a2 = match take_expr(stack) {
                Some(v) => v,
                None => {
                    return false;
                },
            };
            let a1 = match take_exprs(stack) {
                Some(v) => v,
                None => {
                    return false;
                },
            };
            let a0 = match take_expr(stack) {
                Some(v) => v,
                None => {
                    return false;
                },
            };
            let r = actions::top_level_semicolon_list_c1(a0, a1, a2);
            put(stack, Value::Expr(r));
            assert(value_views(stack@) =~= apply(shape_of(action), before).unwrap());
            true
        },
        Action::TopLevelSemicolonListElement0TopLevelSemicolonListElement1 => {
            let a0 = match take_exprs(stack) {
                Some(v) => v,
                None => {
                    return false;
                },
            };
            let r = actions::top_level_semicolon_list_element0_top_level_semicolon_list_element1(a0);
            put(stack, Value::Exprs(r));
            assert(value_views(stack@) =~= apply(shape_of(action), before).unwrap());
            true
        },
        Action::TopLevelSemicolonListElement0Empty => {
            let r = actions::top_level_semicolon_list_element0_empty();
            assert(expr_views(r@) =~= Seq::<ExprView>::empty());
            put(stack, Value::Exprs(r));
            assert(value_views(stack@) =~= apply(shape_of(action), before).unwrap());
            true
        },
        Action::TopLevelSemicolonListLastElementOptTopLevelSemicolonListLastElement => {
            let a0 = match take_expr(stack) {
                Some(v) => v,
                None => {
                    return false;
                },
            };
            let r = actions::top_level_semicolon_list_last_element_opt_top_level_semicolon_list_last_element(a0);
            put(stack, Value::Expr(r));
            assert(value_views(stack@) =~= apply(shape_of(action), before).unwrap());
            true
        },
        Action::TopLevelSemicolonListElement1TopLevelSemicolonListElement => {
            let a0 = match take_expr(stack) {
                Some(v) => v,
                None => {
                    return false;
                },
            };
            let r = actions::top_level_semicolon_list_element1_top_level_semicolon_list_element(a0);
            assert(expr_views(r@) =~= seq![a0@]);
            put(stack, Value::Exprs(r));
            assert(value_views(stack@) =~= apply(shape_of(action), before).unwrap());
            true
        },
        Action::TopLevelSemicolonListElement1C1 => {
            let a1 = match take_expr(stack) {
                Some(v) => v,
                None => {
                    return false;
                },
            };
            let a0 = match take_exprs(stack) {
                Some(v) => v,
                None => {
                    return false;
                },
            };
            let r = actions::top_level_semicolon_list_element1_c1(a0, a1);
            assert(expr_views(r@) =~= expr_views(a0@).push(a1@));
            put(stack, Value::Exprs(r));
            assert(value_views(stack@) =~= apply(shape_of(action), before).unwrap());
            true
        },
        Action::TopLevelSemicolonListElementAny1 => {
            let a0 = match take_expr(stack) {
                Some(v) => v,
                None => {
                    return false;
                },
            };
            let r = actions::top_level_semicolon_list_element_any1(a0);
            put(stack, Value::Expr(r));
            assert(value_views(stack@) =~= apply(shape_of(action), before).unwrap());
            true
        },
        Action::TopLevelSemicolonListLastElementOptEmpty => {
            let r = actions::top_level_semicolon_list_last_element_opt_empty();
            put(stack, Value::Expr(r));
            assert(value_views(stack@) =~= apply(shape_of(action), before).unwrap());
            true
        },
        Action::TopLevelSemicolonListLastElementC1 => {
            let a1 = match take_expr(stack) {
                Some(v) => v,
                None => {
                    return false;
                },
            };
            if !take_unit(stack) {
                return false;
            }
            let r = actions::top_level_semicolon_list_last_element_c1((), a1);
            put(stack, Value::Expr(r));
            assert(value_views(stack@) =~= apply(shape_of(action), before).unwrap());
            true
        },
        Action::TopLevelCommaListC1 => {
            let a2 = match take_expr(stack) {
                Some(v) => v,
                None => {
                    return false;
                },
            };
            let a1 = match take_exprs(stack) {
                Some(v) => v,
                None => {
                    return false;
                },
            };
            let a0 = match take_expr(stack) {
                Some(v) => v,
                None => {
                    return false;
                },
            };
            let r = actions::top_level_comma_list_c1(a0, a1, a2);
            put(stack, Value::Expr(r));
            assert(value_views(stack@) =~= apply(shape_of(action), before).unwrap());
            true
        },
        Action::TopLevelCommaListElement0TopLevelCommaListElement1 => {
            let a0 = match take_exprs(stack) {
                Some(v) => v,
                None => {
                    return false;
                },
            };
            let r = actions::top_level_comma_list_element0_top_level_comma_list_element1(a0);
            put(stack, Value::Exprs(r));
            assert(value_views(stack@) =~= apply(shape_of(action), before).unwrap());
            true
        },
        Action::TopLevelCommaListElement0Empty => {
            let r = actions::top_level_comma_list_element0_empty();
            assert(expr_views(r@) =~= Seq::<ExprView>::empty());
            put(stack, Value::Exprs(r));
            assert(value_views(stack@) =~= apply(shape_of(action), before).unwrap());
            true
        },
        Action::TopLevelCommaListLastElementOptTopLevelCommaListLastElement => {
            let a0 = match take_expr(stack) {
                Some(v) => v,
                None => {
                    return false;
                },
            };
            let r = actions::top_level_comma_list_last_element_opt_top_level_comma_list_last_element(a0);
            put(stack, Value::Expr(r));
            assert(value_views(stack@) =~= apply(shape_of(action), before).unwrap());
            true
        },
        Action::TopLevelCommaListElement1TopLevelCommaListElement => {
            let a0 = match take_expr(stack) {
                Some(v) => v,
                None => {
                    return false;
                },
            };
            let r = actions::top_level_comma_list_element1_top_level_comma_list_element(a0);
            assert(expr_views(r@) =~= seq![a0@]);
            put(stack, Value::Exprs(r));
            assert(value_views(stack@) =~= apply(shape_of(action), before).unwrap());
            true
        },
        Action::TopLevelCommaListElement1C1 => {
            let a1 = match take_expr(stack) {
                Some(v) => v,
                None => {
                    return false;
                },
            };
            let a0 = match take_exprs(stack) {
                Some(v) => v,
                None => {
                    return false;
                },
            };
            let r = actions::top_level_comma_list_element1_c1(a0, a1);
            assert(expr_views(r@) =~= expr_views(a0@).push(a1@));
            put(stack, Value::Exprs(r));
            assert(value_views(stack@) =~= apply(shape_of(action), before).unwrap());
            true
        },
        Action::TopLevelCommaListElementAny1 => {
            let a0 = match take_expr(stack) {
                Some(v) => v,
                None => {
                    return false;
                },
            };
            let r = actions::top_level_comma_list_element_any1(a0);
            put(stack, Value::Expr(r));
            assert(value_views(stack@) =~= apply(shape_of(action), before).unwrap());
            true
        },
        Action::TopLevelCommaListLastElementOptEmpty => {
            let r = actions::top_level_comma_list_last_element_opt_empty();
            put(stack, Value::Expr(r));
            assert(value_views(stack@) =~= apply(shape_of(action), before).unwrap());
            true
        },
        Action::TopLevelCommaListLastElementC1 => {
            let a1 = match take_expr(stack) {
                Some(v) => v,
                None => {
                    return false;
                },
            };
            if !take_unit(stack) {
                return false;
            }
            let r = actions::top_level_comma_list_last_element_c1((), a1);
            put(stack, Value::Expr(r));
            assert(value_views(stack@) =~= apply(shape_of(action), before).unwrap());
            true
        },
        Action::Any1Any2 => {
            let a0 = match take_expr(stack) {
                Some(v) => v,
                None => {
                    return false;
                },
            };
            let r = actions::any1_any2(a0);
            put(stack, Value::Expr(r));
            assert(value_views(stack@) =~= apply(shape_of(action), before).unwrap());
            true
        },
        Action::Any1AllCoursesSharedTopic => {
            let a0 = match take_expr(stack) {
                Some(v) => v,
                None => {
                    return false;
                },
            };
            let r = actions::any1_all_courses_shared_topic(a0);
            put(stack, Value::Expr(r));
            assert(value_views(stack@) =~= apply(shape_of(action), before).unwrap());
            true
        },
        Action::Any1AllCourses => {
            let a0 = match take_expr(stack) {
                Some(v) => v,
                None => {
                    return false;
                },
            };
            let r = actions::any1_all_courses(a0);
            put(stack, Value::Expr(r));
            assert(value_views(stack@) =~= apply(shape_of(action), before).unwrap());
            true
        },
        Action::Any1C3 => {
            if !take_unit(stack) {
                return false;
            }
            let a0 = match take_expr(stack) {
                Some(v) => v,
                None => {
                    return false;
                },
            };
            let r = actions::any1_c3(a0, ());
            put(stack, Value::Expr(r));
            assert(value_views(stack@) =~= apply(shape_of(action), before).unwrap());
            true
        },
        Action::Any1C4 => {
            if !take_unit(stack) {
                return false;
            }
            let a0 = match take_expr(stack) {
                Some(v) => v,
                None => {
                    return false;
                },
            };
            let r = actions::any1_c4(a0, ());
            put(stack, Value::Expr(r));
            assert(value_views(stack@) =~= apply(shape_of(action), before).unwrap());
            true
        },
        Action::Any2AnyCoursesSharedTopic => {
            let a0 = match take_expr(stack) {
                Some(v) => v,
                None => {
                    return false;
                },
            };
            let r = actions::any2_any_courses_shared_topic(a0);
            put(stack, Value::Expr(r));
            assert(value_views(stack@) =~= apply(shape_of(action), before).unwrap());
            true
        },
        Action::Any2AnyCourses => {
            let a0 = match take_expr(stack) {
                Some(v) => v,
                None => {
                    return false;
                },
            };
            let r = actions::any2_any_courses(a0);
            put(stack, Value::Expr(r));
            assert(value_views(stack@) =~= apply(shape_of(action), before).unwrap());
            true
        },
        Action::Any2Any3 => {
            let a0 = match take_expr(stack) {
                Some(v) => v,
                None => {
                    return false;
                },
            };
            let r = actions::any2_any3(a0);
            put(stack, Value::Expr(r));
            assert(value_views(stack@) =~= apply(shape_of(action), before).unwrap());
            true
        },
        Action::Any2C3 => {
            if !take_unit(stack) {
                return false;
            }
            let a0 = match take_expr(stack) {
                Some(v) => v,
                None => {
                    return false;
                },
            };
            let r = actions::any2_c3(a0, ());
            put(stack, Value::Expr(r));
            assert(value_views(stack@) =~= apply(shape_of(action), before).unwrap());
            true
        },
        Action::Any2C4 => {
            if !take_unit(stack) {
                return false;
            }
            let a0 = match take_expr(stack) {
                Some(v) => v,
                None => {
                    return false;
                },
            };
            let r = actions::any2_c4(a0, ());
            put(stack, Value::Expr(r));
            assert(value_views(stack@) =~= apply(shape_of(action), before).unwrap());
            true
        },
        Action::Any3EitherCourse => {
            let a0 = match take_expr(stack) {
                Some(v) => v,
                None => {
                    return false;
                },
            };
            let r = actions::any3_either_course(a0);
            put(stack, Value::Expr(r));
            assert(value_views(stack@) =~= apply(shape_of(action), before).unwrap());
            true
        },
        Action::Any3Course => {
            let a0 = match take_course(stack) {
                Some(v) => v,
                None => {
                    return false;
                },
            };
            let r = actions::any3_course(a0);
            put(stack, Value::Expr(r));
            assert(value_views(stack@) =~= apply(shape_of(action), before).unwrap());
            true
        },
        Action::Any3CoursesSharedTopicSlashList => {
            let a0 = match take_expr(stack) {
                Some(v) => v,
                None => {
                    return false;
                },
            };
            let r = actions::any3_courses_shared_topic_slash_list(a0);
            put(stack, Value::Expr(r));
            assert(value_views(stack@) =~= apply(shape_of(action), before).unwrap());
            true
        },
        Action::Any3AnyCoursesSharedTopicNoCommas => {
            let a0 = match take_expr(stack) {
                Some(v) => v,
                None => {
                    return false;
                },
            };
            let r = actions::any3_any_courses_shared_topic_no_commas(a0);
            put(stack, Value::Expr(r));
            assert(value_views(stack@) =~= apply(shape_of(action), before).unwrap());
            true
        },
        Action::Any3Alternative => {
            if !take_unit(stack) {
                return false;
            }
            let r = actions::any3_alternative(());
            put(stack, Value::Expr(r));
            assert(value_views(stack@) =~= apply(shape_of(action), before).unwrap());
            true
        },
        Action::Any3C6 => {
            let a1 = match take_expr(stack) {
                Some(v) => v,
                None => {
                    return false;
                },
            };
            if !take_unit(stack) {
                return false;
            }
            let r = actions::any3_c6((), a1);
            put(stack, Value::Expr(r));
            assert(value_views(stack@) =~= apply(shape_of(action), before).unwrap());
            true
        },
        Action::Any3likeAny3 => {
            let a0 = match take_expr(stack) {
                Some(v) => v,
                None => {
                    return false;
                },
            };
            let r = actions::any3like_any3(a0);
            put(stack, Value::Expr(r));
            assert(value_views(stack@) =~= apply(shape_of(action), before).unwrap());
            true
        },
        Action::Any3likeEnOrAlternativeOption => {
            if !take_unit(stack) {
                return false;
            }
            let r = actions::any3like_en_or_alternative_option(());
            put(stack, Value::Expr(r));
            assert(value_views(stack@) =~= apply(shape_of(action), before).unwrap());
            true
        },
        Action::EitherCourseC1 => {
            let a3 = match take_expr(stack) {
                Some(v) => v,
                None => {
                    return false;
                },
            };
            if !take_unit(stack) {
                return false;
            }
            let a1 = match take_expr(stack) {
                Some(v) => v,
                None => {
                    return false;
                },
            };
            if !take_unit(stack) {
                return false;
            }
            let r = actions::either_course_c1((), a1, (), a3);
            put(stack, Value::Expr(r));
            assert(value_views(stack@) =~= apply(shape_of(action), before).unwrap());
            true
        },
        Action::CourseC1 => {
            let a1 = match take_number(stack) {
                Some(v) => v,
                None => {
                    return false;
                },
            };
            let a0 = match take_topic(stack) {
                Some(v) => v,
                None => {
                    return false;
                },
            };
            let r = actions::course_c1(a0, a1);
            put(stack, Value::Course(r));
            assert(value_views(stack@) =~= apply(shape_of(action), before).unwrap());
            true
        },
        Action::AllCoursesC1 => {
            let a3 = match take_expr(stack) {
                Some(v) => v,
                None => {
                    return false;
                },
            };
            if !take_unit(stack) {
                return false;
            }
            let a1 = match take_exprs(stack) {
                Some(v) => v,
                None => {
                    return false;
                },
            };
            if !take_unit(stack) {
                return false;
            }
            let r = actions::all_courses_c1((), a1, (), a3);
            put(stack, Value::Expr(r));
            assert(value_views(stack@) =~= apply(shape_of(action), before).unwrap());
            true
        },
        Action::AllCoursesSharedTopicC1 => {
            let a3 = match take_number(stack) {
                Some(v) => v,
                None => {
                    return false;
                },
            };
            if !take_unit(stack) {
                return false;
            }
            let a1 = match take_head(stack) {
                Some(v) => v,
                None => {
                    return false;
                },
            };
            if !take_unit(stack) {
                return false;
            }
            let r = actions::all_courses_shared_topic_c1((), a1, (), a3);
            put(stack, Value::Expr(r));
            assert(value_views(stack@) =~= apply(shape_of(action), before).unwrap());
            true
        },
        Action::AnyCoursesC1 => {
            let a3 = match take_expr(stack) {
                Some(v) => v,
                None => {
                    return false;
                },
            };
            if !take_unit(stack) {
                return false;
            }
            let a1 = match take_exprs(stack) {
                Some(v) => v,
                None => {
                    return false;
                },
            };
            if !take_unit(stack) {
                return false;
            }
            let r = actions::any_courses_c1((), a1, (), a3);
            put(stack, Value::Expr(r));
            assert(value_views(stack@) =~= apply(shape_of(action), before).unwrap());
            true
        },
        Action::AnyCoursesSharedTopicC1 => {
            let a3 = match take_number(stack) {
                Some(v) => v,
                None => {
                    return false;
                },
            };
            if !take_unit(stack) {
                return false;
            }
            let a1 = match take_head(stack) {
                Some(v) => v,
                None => {
                    return false;
                },
            };
            if !take_unit(stack) {
                return false;
            }
            let r = actions::any_courses_shared_topic_c1((), a1, (), a3);
            put(stack, Value::Expr(r));
            assert(value_views(stack@) =~= apply(shape_of(action), before).unwrap());
            true
        },
        Action::AnyCoursesSharedTopicC3 => {
            if !take_unit(stack) {
                return false;
            }
            if !take_unit(stack) {
                return false;
            }
            let a1 = match take_head(stack) {
                Some(v) => v,
                None => {
                    return false;
                },
            };
            if !take_unit(stack) {
                return false;
            }
            let r = actions::any_courses_shared_topic_c3((), a1, (), ());
            put(stack, Value::Expr(r));
            assert(value_views(stack@) =~= apply(shape_of(action), before).unwrap());
            true
        },
        Action::AnyCoursesSharedTopicC2 => {
            let a1 = match take_head(stack) {
                Some(v) => v,
                None => {
                    return false;
                },
            };
            if !take_unit(stack) {
                return false;
            }
            let r = actions::any_courses_shared_topic_c2((), a1);
            put(stack, Value::Expr(r));
            assert(value_views(stack@) =~= apply(shape_of(action), before).unwrap());
            true
        },
        Action::OneOfOptOneOf => {
            if !take_unit(stack) {
                return false;
            }
            actions::one_of_opt_one_of(());
            put(stack, Value::Unit);
            assert(value_views(stack@) =~= apply(shape_of(action), before).unwrap());
            true
        },
        Action::AnyCoursesSharedTopicNoCommasC1 => {
            let a1 = match take_head(stack) {
                Some(v) => v,
                None => {
                    return false;
                },
            };
            if !take_unit(stack) {
                return false;
            }
            let r = actions::any_courses_shared_topic_no_commas_c1((), a1);
            put(stack, Value::Expr(r));
            assert(value_views(stack@) =~= apply(shape_of(action), before).unwrap());
            true
        },
        Action::OneOfOptEmpty => {
            actions::one_of_opt_empty();
            put(stack, Value::Unit);
            assert(value_views(stack@) =~= apply(shape_of(action), before).unwrap());
            true
        },
        Action::CoursesSharedTopicHeadElement0CoursesSharedTopicHeadElement1 => {
            let a0 = match take_numbers(stack) {
                Some(v) => v,
                None => {
                    return false;
                },
            };
            let r = actions::courses_shared_topic_head_element0_courses_shared_topic_head_element1(a0);
            put(stack, Value::Numbers(r));
            assert(value_views(stack@) =~= apply(shape_of(action), before).unwrap());
            true
        },
        Action::CoursesSharedTopicHeadC1 => {
            let a2 = match take_numbers(stack) {
                Some(v) => v,
                None => {
                    return false;
                },
            };
            let a1 = match take_number(stack) {
                Some(v) => v,
                None => {
                    return false;
                },
            };
            let a0 = match take_topic(stack) {
                Some(v) => v,
                None => {
                    return false;
                },
            };
            let r = actions::courses_shared_topic_head_c1(a0, a1, a2);
            put(stack, Value::Head(r.0, r.1));
            assert(value_views(stack@) =~= apply(shape_of(action), before).unwrap());
            true
        },
        Action::CommaSeparatedCourses2C1 => {
            let a1 = match take_exprs(stack) {
                Some(v) => v,
                None => {
                    return false;
                },
            };
            let a0 = match take_expr(stack) {
                Some(v) => v,
                None => {
                    return false;
                },
            };
            let r = actions::comma_separated_courses2_c1(a0, a1);
            assert(expr_views(r@) =~= seq![a0@] + expr_views(a1@));
            put(stack, Value::Exprs(r));
            assert(value_views(stack@) =~= apply(shape_of(action), before).unwrap());
            true
        },
        Action::CommaSeparatedCoursesElement20CommaSeparatedCoursesElement21 => {
            let a0 = match take_exprs(stack) {
                Some(v) => v,
                None => {
                    return false;
                },
            };
            let r = actions::comma_separated_courses_element20_comma_separated_courses_element21(a0);
            put(stack, Value::Exprs(r));
            assert(value_views(stack@) =~= apply(shape_of(action), before).unwrap());
            true
        },
        Action::CommaSeparatedCoursesElement20Empty => {
            let r = actions::comma_separated_courses_element20_empty();
            assert(expr_views(r@) =~= Seq::<ExprView>::empty());
            put(stack, Value::Exprs(r));
            assert(value_views(stack@) =~= apply(shape_of(action), before).unwrap());
            true
        },
        Action::CommaSeparatedCoursesElement21CommaSeparatedCoursesElement2 => {
            let a0 = match take_expr(stack) {
                Some(v) => v,
                None => {
                    return false;
                },
            };
            let r = actions::comma_separated_courses_element21_comma_separated_courses_element2(a0);
            assert(expr_views(r@) =~= seq![a0@]);
            put(stack, Value::Exprs(r));
            assert(value_views(stack@) =~= apply(shape_of(action), before).unwrap());
            true
        },
        Action::CommaSeparatedCoursesElement21C1 => {
            let a1 = match take_expr(stack) {
                Some(v) => v,
                None => {
                    return false;
                },
            };
            let a0 = match take_exprs(stack) {
                Some(v) => v,
                None => {
                    return false;
                },
            };
            let r = actions::comma_separated_courses_element21_c1(a0, a1);
            assert(expr_views(r@) =~= expr_views(a0@).push(a1@));
            put(stack, Value::Exprs(r));
            assert(value_views(stack@) =~= apply(shape_of(action), before).unwrap());
            true
        },
        Action::CommaSeparatedCoursesElement2C1 => {
            let a1 = match take_expr(stack) {
                Some(v) => v,
                None => {
                    return false;
                },
            };
            if !take_unit(stack) {
                return false;
            }
            let r = actions::comma_separated_courses_element2_c1((), a1);
            put(stack, Value::Expr(r));
            assert(value_views(stack@) =~= apply(shape_of(action), before).unwrap());
            true
        },
        Action::CommaSeparatedCourses3C1 => {
            let a1 = match take_exprs(stack) {
                Some(v) => v,
                None => {
                    return false;
                },
            };
            let a0 = match take_expr(stack) {
                Some(v) => v,
                None => {
                    return false;
                },
            };
            let r = actions::comma_separated_courses3_c1(a0, a1);
            assert(expr_views(r@) =~= seq![a0@] + expr_views(a1@));
            put(stack, Value::Exprs(r));
            assert(value_views(stack@) =~= apply(shape_of(action), before).unwrap());
            true
        },
        Action::CommaSeparatedCoursesElement30CommaSeparatedCoursesElement31 => {
            let a0 = match take_exprs(stack) {
                Some(v) => v,
                None => {
                    return false;
                },
            };
            let r = actions::comma_separated_courses_element30_comma_separated_courses_element31(a0);
            put(stack, Value::Exprs(r));
            assert(value_views(stack@) =~= apply(shape_of(action), before).unwrap());
            true
        },
        Action::CommaSeparatedCoursesElement30Empty => {
            let r = actions::comma_separated_courses_element30_empty();
            assert(expr_views(r@) =~= Seq::<ExprView>::empty());
            put(stack, Value::Exprs(r));
            assert(value_views(stack@) =~= apply(shape_of(action), before).unwrap());
            true
        },
        Action::CommaSeparatedCoursesElement31CommaSeparatedCoursesElement3 => {
            let a0 = match take_expr(stack) {
                Some(v) => v,
                None => {
                    return false;
                },
            };
            let r = actions::comma_separated_courses_element31_comma_separated_courses_element3(a0);
            assert(expr_views(r@) =~= seq![a0@]);
            put(stack, Value::Exprs(r));
            assert(value_views(stack@) =~= apply(shape_of(action), before).unwrap());
            true
        },
        Action::CommaSeparatedCoursesElement31C1 => {
            let a1 = match take_expr(stack) {
                Some(v) => v,
                None => {
                    return false;
                },
            };
            let a0 = match take_exprs(stack) {
                Some(v) => v,
                None => {
                    return false;
                },
            };
            let r = actions::comma_separated_courses_element31_c1(a0, a1);
            assert(expr_views(r@) =~= expr_views(a0@).push(a1@));
            put(stack, Value::Exprs(r));
            assert(value_views(stack@) =~= apply(shape_of(action), before).unwrap());
            true
        },
        Action::CommaSeparatedCoursesElement3C1 => {
            let a1 = match take_expr(stack) {
                Some(v) => v,
                None => {
                    return false;
                },
            };
            if !take_unit(stack) {
                return false;
            }
            let r = actions::comma_separated_courses_element3_c1((), a1);
            put(stack, Value::Expr(r));
            assert(value_views(stack@) =~= apply(shape_of(action), before).unwrap());
            true
        },
        Action::CoursesSharedTopicHeadElement0Empty => {
            let r = actions::courses_shared_topic_head_element0_empty();
            put(stack, Value::Numbers(r));
            assert(value_views(stack@) =~= apply(shape_of(action), before).unwrap());
            true
        },
        Action::CoursesSharedTopicHeadElement1CoursesSharedTopicHeadElement => {
            let a0 = match take_number(stack) {
                Some(v) => v,
                None => {
                    return false;
                },
            };
            let r = actions::courses_shared_topic_head_element1_courses_shared_topic_head_element(a0);
            put(stack, Value::Numbers(r));
            assert(value_views(stack@) =~= apply(shape_of(action), before).unwrap());
            true
        },
        Action::CoursesSharedTopicHeadElement1C1 => {
            let a1 = match take_number(stack) {
                Some(v) => v,
                None => {
                    return false;
                },
            };
            let a0 = match take_numbers(stack) {
                Some(v) => v,
                None => {
                    return false;
                },
            };
            let r = actions::courses_shared_topic_head_element1_c1(a0, a1);
            put(stack, Value::Numbers(r));
            assert(value_views(stack@) =~= apply(shape_of(action), before).unwrap());
            true
        },
        Action::CoursesSharedTopicHeadElementC1 => {
            let a1 = match take_number(stack) {
                Some(v) => v,
                None => {
                    return false;
                },
            };
            if !take_unit(stack) {
                return false;
            }
            let r = actions::courses_shared_topic_head_element_c1((), a1);
            put(stack, Value::Number(r));
            assert(value_views(stack@) =~= apply(shape_of(action), before).unwrap());
            true
        },
        Action::CoursesSharedTopicSlashListC1 => {
            let a2 = match take_numbers(stack) {
                Some(v) => v,
                None => {
                    return false;
                },
            };
            let a1 = match take_number(stack) {
                Some(v) => v,
                None => {
                    return false;
                },
            };
            let a0 = match take_topic(stack) {
                Some(v) => v,
                None => {
                    return false;
                },
            };
            let r = actions::courses_shared_topic_slash_list_c1(a0, a1, a2);
            put(stack, Value::Expr(r));
            assert(value_views(stack@) =~= apply(shape_of(action), before).unwrap());
            true
        },
        Action::CoursesSharedTopicSlashListElement1CoursesSharedTopicSlashListElement => {
            let a0 = match take_number(stack) {
                Some(v) => v,
                None => {
                    return false;
                },
            };
            let r = actions::courses_shared_topic_slash_list_element1_courses_shared_topic_slash_list_element(a0);
            put(stack, Value::Numbers(r));
            assert(value_views(stack@) =~= apply(shape_of(action), before).unwrap());
            true
        },
        Action::CoursesSharedTopicSlashListElement1C1 => {
            let a1 = match take_number(stack) {
                Some(v) => v,
                None => {
                    return false;
                },
            };
            let a0 = match take_numbers(stack) {
                Some(v) => v,
                None => {
                    return false;
                },
            };
            let r = actions::courses_shared_topic_slash_list_element1_c1(a0, a1);
            put(stack, Value::Numbers(r));
            assert(value_views(stack@) =~= apply(shape_of(action), before).unwrap());
            true
        },
        Action::CoursesSharedTopicSlashListElementC1 => {
            let a0 = match take_number(stack) {
                Some(v) => v,
                None => {
                    return false;
                },
            };
            let r = actions::courses_shared_topic_slash_list_element_c1(a0);
            put(stack, Value::Number(r));
            assert(value_views(stack@) =~= apply(shape_of(action), before).unwrap());
            true
        },
        Action::CommaOptAndC1 => {
            if !take_unit(stack) {
                return false;
            }
            if !take_unit(stack) {
                return false;
            }
            actions::comma_opt_and_c1((), ());
            put(stack, Value::Unit);
            assert(value_views(stack@) =~= apply(shape_of(action), before).unwrap());
            true
        },
        Action::CommaOptOrC1 => {
            if !take_unit(stack) {
                return false;
            }
            if !take_unit(stack) {
                return false;
            }
            actions::comma_opt_or_c1((), ());
            put(stack, Value::Unit);
            assert(value_views(stack@) =~= apply(shape_of(action), before).unwrap());
            true
        },
        Action::CommaOrSemicolonOptCommaOrSemicolon => {
            if !take_unit(stack) {
                return false;
            }
            actions::comma_or_semicolon_opt_comma_or_semicolon(());
            put(stack, Value::Unit);
            assert(value_views(stack@) =~= apply(shape_of(action), before).unwrap());
            true
        },
        Action::CommaOrSemicolonOptEmpty => {
            actions::comma_or_semicolon_opt_empty();
            put(stack, Value::Unit);
            assert(value_views(stack@) =~= apply(shape_of(action), before).unwrap());
            true
        },
        Action::CommaOrSemicolonComma => {
            actions::comma_or_semicolon_comma();
            put(stack, Value::Unit);
            assert(value_views(stack@) =~= apply(shape_of(action), before).unwrap());
            true
        },
        Action::CommaOrSemicolonSemicolon => {
            actions::comma_or_semicolon_semicolon();
            put(stack, Value::Unit);
            assert(value_views(stack@) =~= apply(shape_of(action), before).unwrap());
            true
        },
        Action::AndEtAnd => {
            if !take_unit(stack) {
                return false;
            }
            actions::and_et_and(());
            put(stack, Value::Unit);
            assert(value_views(stack@) =~= apply(shape_of(action), before).unwrap());
            true
        },
        Action::AndEtAndOr => {
            if !take_unit(stack) {
                return false;
            }
            actions::and_et_and_or(());
            put(stack, Value::Unit);
            assert(value_views(stack@) =~= apply(shape_of(action), before).unwrap());
            true
        },
        Action::AndEtEt => {
            if !take_unit(stack) {
                return false;
            }
            actions::and_et_et(());
            put(stack, Value::Unit);
            assert(value_views(stack@) =~= apply(shape_of(action), before).unwrap());
            true
        },
        Action::OrOuOr => {
            if !take_unit(stack) {
                return false;
            }
            actions::or_ou_or(());
            put(stack, Value::Unit);
            assert(value_views(stack@) =~= apply(shape_of(action), before).unwrap());
            true
        },
        Action::OrOuOu => {
            if !take_unit(stack) {
                return false;
            }
            actions::or_ou_ou(());
            put(stack, Value::Unit);
            assert(value_views(stack@) =~= apply(shape_of(action), before).unwrap());
            true
        },
        Action::BothOptBoth => {
            if !take_unit(stack) {
                return false;
            }
            actions::both_opt_both(());
            put(stack, Value::Unit);
            assert(value_views(stack@) =~= apply(shape_of(action), before).unwrap());
            true
        },
        Action::BothOptEmpty => {
            actions::both_opt_empty();
            put(stack, Value::Unit);
            assert(value_views(stack@) =~= apply(shape_of(action), before).unwrap());
            true
        },
        Action::EitherOptEither => {
            if !take_unit(stack) {
                return false;
            }
            actions::either_opt_either(());
            put(stack, Value::Unit);
            assert(value_views(stack@) =~= apply(shape_of(action), before).unwrap());
            true
        },
        Action::EitherOptEmpty => {
            actions::either_opt_empty();
            put(stack, Value::Unit);
            assert(value_views(stack@) =~= apply(shape_of(action), before).unwrap());
            true
        },
        Action::OrAlternativeC1 => {
            if !take_unit(stack) {
                return false;
            }
            if !take_unit(stack) {
                return false;
            }
            actions::or_alternative_c1((), ());
            put(stack, Value::Unit);
            assert(value_views(stack@) =~= apply(shape_of(action), before).unwrap());
            true
        },
        Action::OrAlternativeC2 => {
            if !take_unit(stack) {
                return false;
            }
            if !take_unit(stack) {
                return false;
            }
            actions::or_alternative_c2((), ());
            put(stack, Value::Unit);
            assert(value_views(stack@) =~= apply(shape_of(action), before).unwrap());
            true
        },
        Action::UnlessAlternativeC1 => {
            if !take_unit(stack) {
                return false;
            }
            if !take_unit(stack) {
                return false;
            }
            actions::unless_alternative_c1((), ());
            put(stack, Value::Unit);
            assert(value_views(stack@) =~= apply(shape_of(action), before).unwrap());
            true
        },
    }
}

/// Whether every expression that a value holds is normal.
pub open spec fn value_normal(value: ValueView) -> bool {
    match value {
        ValueView::Expr(e) => normal(e),
        ValueView::Exprs(list) => forall|i: int| 0 <= i < list.len() ==> normal(#[trigger] list[i]),
        _ => true,
    }
}

/// Whether every value of a stack is normal.
pub open spec fn stack_normal(stack: Seq<ValueView>) -> bool {
    forall|i: int| 0 <= i < stack.len() ==> value_normal(#[trigger] stack[i])
}

/// The courses of one topic are normal.
pub proof fn lemma_courses_normal(topic: Seq<char>, numbers: Seq<u64>)
    ensures
        normal(all_of(courses_of(topic, numbers))),
        normal(any_of(courses_of(topic, numbers))),
{
    let list = courses_of(topic, numbers);
    assert forall|i: int| 0 <= i < list.len() implies normal(#[trigger] list[i]) by {}
    lemma_lists_normal(list);
}

/// An action leaves a stack of normal values normal.
pub proof fn lemma_apply_normal(shape: Shape, stack: Seq<ValueView>)
    requires
        stack_normal(stack),
        apply(shape, stack) is Some,
    ensures
        stack_normal(apply(shape, stack).unwrap()),
{
    let n = stack.len() as int;
    let after = apply(shape, stack).unwrap();
    let top = after.last();
    assert forall|i: int| 0 <= i < after.len() - 1 implies value_normal(#[trigger] after[i]) by {
        assert(after[i] == stack[i]);
    }
    match shape {
        Shape::IdExpr | Shape::IdExprs => {
            assert(top == stack[n - 1]);
        },
        Shape::ExprUnit => {
            assert(value_normal(stack[n - 2]));
        },
        Shape::UnitExpr => {
            assert(value_normal(stack[n - 1]));
        },
        Shape::PushExpr => {
            assert(value_normal(stack[n - 2]));
            assert(value_normal(stack[n - 1]));
        },
        Shape::OneExpr => {
            assert(value_normal(stack[n - 1]));
        },
        Shape::ConsExpr => {
            assert(value_normal(stack[n - 2]));
            assert(value_normal(stack[n - 1]));
            let list = seq![stack[n - 2]->Expr_0] + stack[n - 1]->Exprs_0;
            assert forall|i: int| 0 <= i < list.len() implies normal(#[trigger] list[i]) by {
                if i > 0 {
                    assert(list[i] == stack[n - 1]->Exprs_0[i - 1]);
                }
            }
        },
        Shape::SlashList => {
            lemma_courses_normal(
                stack[n - 3]->Topic_0,
                seq![stack[n - 2]->Number_0] + stack[n - 1]->Numbers_0,
            );
        },
        Shape::AllList | Shape::AnyList => {
            assert(value_normal(stack[n - 3]));
            assert(value_normal(stack[n - 1]));
            let list = stack[n - 3]->Exprs_0.push(stack[n - 1]->Expr_0);
            assert forall|i: int| 0 <= i < list.len() implies normal(#[trigger] list[i]) by {
                if i < list.len() - 1 {
                    assert(list[i] == stack[n - 3]->Exprs_0[i]);
                }
            }
            lemma_lists_normal(list);
        },
        Shape::AllShared | Shape::AnyShared => {
            lemma_courses_normal(
                stack[n - 3]->Head_0,
                stack[n - 3]->Head_1.push(stack[n - 1]->Number_0),
            );
        },
        Shape::AnyHead => {
            lemma_courses_normal(stack[n - 1]->Head_0, stack[n - 1]->Head_1);
        },
        Shape::AnyHeadAlt => {
            lemma_courses_normal(stack[n - 3]->Head_0, stack[n - 3]->Head_1);
        },
        Shape::Either => {
            assert(value_normal(stack[n - 3]));
            assert(value_normal(stack[n - 1]));
            lemma_lists_normal(seq![stack[n - 3]->Expr_0, stack[n - 1]->Expr_0]);
        },
        Shape::TopList => {
            assert(value_normal(stack[n - 3]));
            assert(value_normal(stack[n - 2]));
            assert(value_normal(stack[n - 1]));
            let list = (seq![stack[n - 3]->Expr_0] + stack[n - 2]->Exprs_0).push(
                stack[n - 1]->Expr_0,
            );
            assert forall|i: int| 0 <= i < list.len() implies normal(#[trigger] list[i]) by {
                if 0 < i < list.len() - 1 {
                    assert(list[i] == stack[n - 2]->Exprs_0[i - 1]);
                }
            }
            lemma_lists_normal(list);
        },
        _ => {},
    }
}

} // verus!
