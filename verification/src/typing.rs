//! The kinds of the values that a derivation builds. Every production of
//! the grammar leaves on the stack what its rule leaves, whatever the
//! words of the sentence are; so the steps of a derivation always build
//! an expression.

use vstd::prelude::*;
use crate::builder::{Shape, ValueView, apply};
use crate::grammar::{NonTerminal, Symbol, alternatives};
use crate::lexer::TokenKind;

verus! {

/// The kind of a value.
#[derive(Clone, Copy, Debug, PartialEq, Eq, Structural)]
pub enum Kind {
    Unit,
    Number,
    Topic,
    Numbers,
    Head,
    Course,
    Expr,
    Exprs,
}

/// The kind of a value.
pub open spec fn kind_of(value: ValueView) -> Kind {
    match value {
        ValueView::Unit => Kind::Unit,
        ValueView::Number(_) => Kind::Number,
        ValueView::Topic(_) => Kind::Topic,
        ValueView::Numbers(_) => Kind::Numbers,
        ValueView::Head(_, _) => Kind::Head,
        ValueView::Course(_) => Kind::Course,
        ValueView::Expr(_) => Kind::Expr,
        ValueView::Exprs(_) => Kind::Exprs,
    }
}

/// The kinds of the values of a stack.
pub open spec fn kinds(stack: Seq<ValueView>) -> Seq<Kind> {
    stack.map_values(|v: ValueView| kind_of(v))
}

/// The kind of the value that a word leaves, if it leaves one.
pub open spec fn word_kind(kind: TokenKind) -> Option<Kind> {
    match kind {
        TokenKind::Topic => Some(Kind::Topic),
        TokenKind::Number => Some(Kind::Number),
        TokenKind::Comma | TokenKind::Semicolon | TokenKind::Slash => None,
        _ => Some(Kind::Unit),
    }
}

/// The kinds on the stack after an action of the given shape: the kinds
/// that it takes are gone from the top, and that of its result stands in
/// their place. `None` where the kinds on top are not those that it takes.
pub open spec fn shape_kinds(shape: Shape, types: Seq<Kind>) -> Option<Seq<Kind>> {
    let n = types.len() as int;
    match shape {
        Shape::IdExpr => {
            if n >= 1
                && types[n - 1] == Kind::Expr
            {
                Some(types.take(n - 1).push(Kind::Expr))
            } else {
                None
            }
        },
        Shape::IdExprs => {
            if n >= 1
                && types[n - 1] == Kind::Exprs
            {
                Some(types.take(n - 1).push(Kind::Exprs))
            } else {
                None
            }
        },
        Shape::IdNumbers => {
            if n >= 1
                && types[n - 1] == Kind::Numbers
            {
                Some(types.take(n - 1).push(Kind::Numbers))
            } else {
                None
            }
        },
        Shape::IdNumber => {
            if n >= 1
                && types[n - 1] == Kind::Number
            {
                Some(types.take(n - 1).push(Kind::Number))
            } else {
                None
            }
        },
        Shape::ExprUnit => {
            if n >= 2
                && types[n - 2] == Kind::Expr
                && types[n - 1] == Kind::Unit
            {
                Some(types.take(n - 2).push(Kind::Expr))
            } else {
                None
            }
        },
        Shape::UnitExpr => {
            if n >= 2
                && types[n - 2] == Kind::Unit
                && types[n - 1] == Kind::Expr
            {
                Some(types.take(n - 2).push(Kind::Expr))
            } else {
                None
            }
        },
        Shape::UnitNumber => {
            if n >= 2
                && types[n - 2] == Kind::Unit
                && types[n - 1] == Kind::Number
            {
                Some(types.take(n - 2).push(Kind::Number))
            } else {
                None
            }
        },
        Shape::Unit0 => {
            Some(types.push(Kind::Unit))
        },
        Shape::Unit1 => {
            if n >= 1
                && types[n - 1] == Kind::Unit
            {
                Some(types.take(n - 1).push(Kind::Unit))
            } else {
                None
            }
        },
        Shape::Unit2 => {
            if n >= 2
                && types[n - 2] == Kind::Unit
                && types[n - 1] == Kind::Unit
            {
                Some(types.take(n - 2).push(Kind::Unit))
            } else {
                None
            }
        },
        Shape::NoExprs => {
            Some(types.push(Kind::Exprs))
        },
        Shape::NoNumbers => {
            Some(types.push(Kind::Numbers))
        },
        Shape::Empty0 => {
            Some(types.push(Kind::Expr))
        },
        Shape::Empty1 => {
            if n >= 1
                && types[n - 1] == Kind::Unit
            {
                Some(types.take(n - 1).push(Kind::Expr))
            } else {
                None
            }
        },
        Shape::PushExpr => {
            if n >= 2
                && types[n - 2] == Kind::Exprs
                && types[n - 1] == Kind::Expr
            {
                Some(types.take(n - 2).push(Kind::Exprs))
            } else {
                None
            }
        },
        Shape::PushNumber => {
            if n >= 2
                && types[n - 2] == Kind::Numbers
                && types[n - 1] == Kind::Number
            {
                Some(types.take(n - 2).push(Kind::Numbers))
            } else {
                None
            }
        },
        Shape::OneExpr => {
            if n >= 1
                && types[n - 1] == Kind::Expr
            {
                Some(types.take(n - 1).push(Kind::Exprs))
            } else {
                None
            }
        },
        Shape::OneNumber => {
            if n >= 1
                && types[n - 1] == Kind::Number
            {
                Some(types.take(n - 1).push(Kind::Numbers))
            } else {
                None
            }
        },
        Shape::ConsExpr => {
            if n >= 2
                && types[n - 2] == Kind::Expr
                && types[n - 1] == Kind::Exprs
            {
                Some(types.take(n - 2).push(Kind::Exprs))
            } else {
                None
            }
        },
        Shape::CourseExpr => {
            if n >= 1
                && types[n - 1] == Kind::Course
            {
                Some(types.take(n - 1).push(Kind::Expr))
            } else {
                None
            }
        },
        Shape::MakeCourse => {
            if n >= 2
                && types[n - 2] == Kind::Topic
                && types[n - 1] == Kind::Number
            {
                Some(types.take(n - 2).push(Kind::Course))
            } else {
                None
            }
        },
        Shape::MakeHead => {
            if n >= 3
                && types[n - 3] == Kind::Topic
                && types[n - 2] == Kind::Number
                && types[n - 1] == Kind::Numbers
            {
                Some(types.take(n - 3).push(Kind::Head))
            } else {
                None
            }
        },
        Shape::SlashList => {
            if n >= 3
                && types[n - 3] == Kind::Topic
                && types[n - 2] == Kind::Number
                && types[n - 1] == Kind::Numbers
            {
                Some(types.take(n - 3).push(Kind::Expr))
            } else {
                None
            }
        },
        Shape::AllList => {
            if n >= 4
                && types[n - 4] == Kind::Unit
                && types[n - 3] == Kind::Exprs
                && types[n - 2] == Kind::Unit
                && types[n - 1] == Kind::Expr
            {
                Some(types.take(n - 4).push(Kind::Expr))
            } else {
                None
            }
        },
        Shape::AnyList => {
            if n >= 4
                && types[n - 4] == Kind::Unit
                && types[n - 3] == Kind::Exprs
                && types[n - 2] == Kind::Unit
                && types[n - 1] == Kind::Expr
            {
                Some(types.take(n - 4).push(Kind::Expr))
            } else {
                None
            }
        },
        Shape::AllShared => {
            if n >= 4
                && types[n - 4] == Kind::Unit
                && types[n - 3] == Kind::Head
                && types[n - 2] == Kind::Unit
                && types[n - 1] == Kind::Number
            {
                Some(types.take(n - 4).push(Kind::Expr))
            } else {
                None
            }
        },
        Shape::AnyShared => {
            if n >= 4
                && types[n - 4] == Kind::Unit
                && types[n - 3] == Kind::Head
                && types[n - 2] == Kind::Unit
                && types[n - 1] == Kind::Number
            {
                Some(types.take(n - 4).push(Kind::Expr))
            } else {
                None
            }
        },
        Shape::AnyHead => {
            if n >= 2
                && types[n - 2] == Kind::Unit
                && types[n - 1] == Kind::Head
            {
                Some(types.take(n - 2).push(Kind::Expr))
            } else {
                None
            }
        },
        Shape::AnyHeadAlt => {
            if n >= 4
                && types[n - 4] == Kind::Unit
                && types[n - 3] == Kind::Head
                && types[n - 2] == Kind::Unit
                && types[n - 1] == Kind::Unit
            {
                Some(types.take(n - 4).push(Kind::Expr))
            } else {
                None
            }
        },
        Shape::Either => {
            if n >= 4
                && types[n - 4] == Kind::Unit
                && types[n - 3] == Kind::Expr
                && types[n - 2] == Kind::Unit
                && types[n - 1] == Kind::Expr
            {
                Some(types.take(n - 4).push(Kind::Expr))
            } else {
                None
            }
        },
        Shape::TopList => {
            if n >= 3
                && types[n - 3] == Kind::Expr
                && types[n - 2] == Kind::Exprs
                && types[n - 1] == Kind::Expr
            {
                Some(types.take(n - 3).push(Kind::Expr))
            } else {
                None
            }
        },
    }
}

/// The kinds on the stack after a rule is derived: most rules leave one
/// value; one that goes on with a list takes the list and leaves it
/// longer; the rest of a list at the top level leaves its members and
/// its last member.
pub open spec fn rule_kinds(rule: NonTerminal, types: Seq<Kind>) -> Option<Seq<Kind>> {
    let n = types.len() as int;
    match rule {
        NonTerminal::TopLevel
        | NonTerminal::TopLevelSemicolonList
        | NonTerminal::SemicolonListElement
        | NonTerminal::SemicolonListLastOpt
        | NonTerminal::SemicolonListLast
        | NonTerminal::TopLevelCommaList
        | NonTerminal::CommaListElement
        | NonTerminal::CommaListLastOpt
        | NonTerminal::CommaListLast
        | NonTerminal::Any1
        | NonTerminal::Any1Kind
        | NonTerminal::Any2
        | NonTerminal::Any2Kind
        | NonTerminal::Any2Last
        | NonTerminal::Any2LastKind
        | NonTerminal::Any3
        | NonTerminal::Any3Plain
        | NonTerminal::Any3Like
        | NonTerminal::EitherCourse
        | NonTerminal::AllCourses
        | NonTerminal::AllCoursesSharedTopic
        | NonTerminal::AnyCourses
        | NonTerminal::AnyCoursesSharedTopic
        | NonTerminal::AnyCoursesSharedTopicShort
        | NonTerminal::AnyCoursesSharedTopicNoCommas
        | NonTerminal::Element2
        | NonTerminal::Element3
        | NonTerminal::CoursesSharedTopicSlashList => {
            Some(types.push(Kind::Expr))
        },
        NonTerminal::SemicolonListRest | NonTerminal::CommaListRest => {
            Some(types.push(Kind::Exprs).push(Kind::Expr))
        },
        NonTerminal::SemicolonListElements
        | NonTerminal::CommaListElements
        | NonTerminal::CommaSeparatedCourses2
        | NonTerminal::Elements2Opt
        | NonTerminal::Elements2
        | NonTerminal::CommaSeparatedCourses3
        | NonTerminal::Elements3Opt
        | NonTerminal::Elements3 => {
            Some(types.push(Kind::Exprs))
        },
        NonTerminal::SemicolonListMore
        | NonTerminal::CommaListMore
        | NonTerminal::Elements2More
        | NonTerminal::Elements3More => {
            if n >= 1 && types[n - 1] == Kind::Exprs {
                Some(types)
            } else {
                None
            }
        },
        NonTerminal::Any1Tail | NonTerminal::Any2Tail => {
            if n >= 1 && types[n - 1] == Kind::Expr {
                Some(types)
            } else {
                None
            }
        },
        NonTerminal::Course => {
            Some(types.push(Kind::Course))
        },
        NonTerminal::CoursesSharedTopicHeadLong | NonTerminal::CoursesSharedTopicHead => {
            Some(types.push(Kind::Head))
        },
        NonTerminal::HeadElementsOpt | NonTerminal::HeadElements | NonTerminal::SlashElements => {
            Some(types.push(Kind::Numbers))
        },
        NonTerminal::HeadElementsMore | NonTerminal::SlashElementsMore => {
            if n >= 1 && types[n - 1] == Kind::Numbers {
                Some(types)
            } else {
                None
            }
        },
        NonTerminal::HeadElement | NonTerminal::SlashElement => {
            Some(types.push(Kind::Number))
        },
        NonTerminal::CommaOptAnd
        | NonTerminal::CommaOptOr
        | NonTerminal::CommaOrSemicolonOpt
        | NonTerminal::CommaOrSemicolon
        | NonTerminal::AndEt
        | NonTerminal::OrOu
        | NonTerminal::BothOpt
        | NonTerminal::EitherOpt
        | NonTerminal::OneOfOpt
        | NonTerminal::OneOf
        | NonTerminal::OrAlternative
        | NonTerminal::UnlessAlternative => {
            Some(types.push(Kind::Unit))
        },
    }
}

/// The kinds on the stack after one symbol.
pub open spec fn step_kinds(symbol: Symbol, types: Seq<Kind>) -> Option<Seq<Kind>> {
    match symbol {
        Symbol::Word(kind) => match word_kind(kind) {
            Some(k) => Some(types.push(k)),
            None => Some(types),
        },
        Symbol::Run(action) => shape_kinds(crate::builder::shape_of(action), types),
        Symbol::Rule(rule) => rule_kinds(rule, types),
    }
}

/// The kinds on the stack after the symbols of a production from
/// position `i` on.
pub open spec fn run_from(symbols: Seq<Symbol>, i: int, types: Seq<Kind>) -> Option<Seq<Kind>>
    decreases symbols.len() - i,
{
    if i < 0 || i >= symbols.len() {
        Some(types)
    } else {
        match step_kinds(symbols[i], types) {
            None => None,
            Some(after) => run_from(symbols, i + 1, after),
        }
    }
}

/// The kinds on the stack after the symbols of a stack of symbols, the
/// next symbol last.
pub open spec fn run_goal(goal: Seq<Symbol>, types: Seq<Kind>) -> Option<Seq<Kind>>
    decreases goal.len(),
{
    if goal.len() == 0 {
        Some(types)
    } else {
        match step_kinds(goal.last(), types) {
            None => None,
            Some(after) => run_goal(goal.drop_last(), after),
        }
    }
}

proof fn lemma_typed_top_level(k: int, types: Seq<Kind>)
    requires
        0 <= k < alternatives(NonTerminal::TopLevel).len(),
        rule_kinds(NonTerminal::TopLevel, types) is Some,
    ensures
        run_from(alternatives(NonTerminal::TopLevel)[k], 0, types) == rule_kinds(
            NonTerminal::TopLevel,
            types,
        ),
{
    reveal_with_fuel(run_from, 3);
}

proof fn lemma_typed_top_level_semicolon_list(k: int, types: Seq<Kind>)
    requires
        0 <= k < alternatives(NonTerminal::TopLevelSemicolonList).len(),
        rule_kinds(NonTerminal::TopLevelSemicolonList, types) is Some,
    ensures
        run_from(alternatives(NonTerminal::TopLevelSemicolonList)[k], 0, types) == rule_kinds(
            NonTerminal::TopLevelSemicolonList,
            types,
        ),
{
    reveal_with_fuel(run_from, 5);
}

proof fn lemma_typed_semicolon_list_rest(k: int, types: Seq<Kind>)
    requires
        0 <= k < alternatives(NonTerminal::SemicolonListRest).len(),
        rule_kinds(NonTerminal::SemicolonListRest, types) is Some,
    ensures
        run_from(alternatives(NonTerminal::SemicolonListRest)[k], 0, types) == rule_kinds(
            NonTerminal::SemicolonListRest,
            types,
        ),
{
    reveal_with_fuel(run_from, 4);
}

proof fn lemma_typed_semicolon_list_elements(k: int, types: Seq<Kind>)
    requires
        0 <= k < alternatives(NonTerminal::SemicolonListElements).len(),
        rule_kinds(NonTerminal::SemicolonListElements, types) is Some,
    ensures
        run_from(alternatives(NonTerminal::SemicolonListElements)[k], 0, types) == rule_kinds(
            NonTerminal::SemicolonListElements,
            types,
        ),
{
    reveal_with_fuel(run_from, 4);
}

proof fn lemma_typed_semicolon_list_more(k: int, types: Seq<Kind>)
    requires
        0 <= k < alternatives(NonTerminal::SemicolonListMore).len(),
        rule_kinds(NonTerminal::SemicolonListMore, types) is Some,
    ensures
        run_from(alternatives(NonTerminal::SemicolonListMore)[k], 0, types) == rule_kinds(
            NonTerminal::SemicolonListMore,
            types,
        ),
{
    reveal_with_fuel(run_from, 5);
}

proof fn lemma_typed_semicolon_list_element(k: int, types: Seq<Kind>)
    requires
        0 <= k < alternatives(NonTerminal::SemicolonListElement).len(),
        rule_kinds(NonTerminal::SemicolonListElement, types) is Some,
    ensures
        run_from(alternatives(NonTerminal::SemicolonListElement)[k], 0, types) == rule_kinds(
            NonTerminal::SemicolonListElement,
            types,
        ),
{
    reveal_with_fuel(run_from, 3);
}

proof fn lemma_typed_semicolon_list_last_opt(k: int, types: Seq<Kind>)
    requires
        0 <= k < alternatives(NonTerminal::SemicolonListLastOpt).len(),
        rule_kinds(NonTerminal::SemicolonListLastOpt, types) is Some,
    ensures
        run_from(alternatives(NonTerminal::SemicolonListLastOpt)[k], 0, types) == rule_kinds(
            NonTerminal::SemicolonListLastOpt,
            types,
        ),
{
    reveal_with_fuel(run_from, 3);
}

proof fn lemma_typed_semicolon_list_last(k: int, types: Seq<Kind>)
    requires
        0 <= k < alternatives(NonTerminal::SemicolonListLast).len(),
        rule_kinds(NonTerminal::SemicolonListLast, types) is Some,
    ensures
        run_from(alternatives(NonTerminal::SemicolonListLast)[k], 0, types) == rule_kinds(
            NonTerminal::SemicolonListLast,
            types,
        ),
{
    reveal_with_fuel(run_from, 4);
}

proof fn lemma_typed_top_level_comma_list(k: int, types: Seq<Kind>)
    requires
        0 <= k < alternatives(NonTerminal::TopLevelCommaList).len(),
        rule_kinds(NonTerminal::TopLevelCommaList, types) is Some,
    ensures
        run_from(alternatives(NonTerminal::TopLevelCommaList)[k], 0, types) == rule_kinds(
            NonTerminal::TopLevelCommaList,
            types,
        ),
{
    reveal_with_fuel(run_from, 5);
}

proof fn lemma_typed_comma_list_rest(k: int, types: Seq<Kind>)
    requires
        0 <= k < alternatives(NonTerminal::CommaListRest).len(),
        rule_kinds(NonTerminal::CommaListRest, types) is Some,
    ensures
        run_from(alternatives(NonTerminal::CommaListRest)[k], 0, types) == rule_kinds(
            NonTerminal::CommaListRest,
            types,
        ),
{
    reveal_with_fuel(run_from, 4);
}

proof fn lemma_typed_comma_list_elements(k: int, types: Seq<Kind>)
    requires
        0 <= k < alternatives(NonTerminal::CommaListElements).len(),
        rule_kinds(NonTerminal::CommaListElements, types) is Some,
    ensures
        run_from(alternatives(NonTerminal::CommaListElements)[k], 0, types) == rule_kinds(
            NonTerminal::CommaListElements,
            types,
        ),
{
    reveal_with_fuel(run_from, 4);
}

proof fn lemma_typed_comma_list_more(k: int, types: Seq<Kind>)
    requires
        0 <= k < alternatives(NonTerminal::CommaListMore).len(),
        rule_kinds(NonTerminal::CommaListMore, types) is Some,
    ensures
        run_from(alternatives(NonTerminal::CommaListMore)[k], 0, types) == rule_kinds(
            NonTerminal::CommaListMore,
            types,
        ),
{
    reveal_with_fuel(run_from, 5);
}

proof fn lemma_typed_comma_list_element(k: int, types: Seq<Kind>)
    requires
        0 <= k < alternatives(NonTerminal::CommaListElement).len(),
        rule_kinds(NonTerminal::CommaListElement, types) is Some,
    ensures
        run_from(alternatives(NonTerminal::CommaListElement)[k], 0, types) == rule_kinds(
            NonTerminal::CommaListElement,
            types,
        ),
{
    reveal_with_fuel(run_from, 3);
}

proof fn lemma_typed_comma_list_last_opt(k: int, types: Seq<Kind>)
    requires
        0 <= k < alternatives(NonTerminal::CommaListLastOpt).len(),
        rule_kinds(NonTerminal::CommaListLastOpt, types) is Some,
    ensures
        run_from(alternatives(NonTerminal::CommaListLastOpt)[k], 0, types) == rule_kinds(
            NonTerminal::CommaListLastOpt,
            types,
        ),
{
    reveal_with_fuel(run_from, 3);
}

proof fn lemma_typed_comma_list_last(k: int, types: Seq<Kind>)
    requires
        0 <= k < alternatives(NonTerminal::CommaListLast).len(),
        rule_kinds(NonTerminal::CommaListLast, types) is Some,
    ensures
        run_from(alternatives(NonTerminal::CommaListLast)[k], 0, types) == rule_kinds(
            NonTerminal::CommaListLast,
            types,
        ),
{
    reveal_with_fuel(run_from, 4);
}

proof fn lemma_typed_any1(k: int, types: Seq<Kind>)
    requires
        0 <= k < alternatives(NonTerminal::Any1).len(),
        rule_kinds(NonTerminal::Any1, types) is Some,
    ensures
        run_from(alternatives(NonTerminal::Any1)[k], 0, types) == rule_kinds(
            NonTerminal::Any1,
            types,
        ),
{
    reveal_with_fuel(run_from, 3);
}

proof fn lemma_typed_any1_kind(k: int, types: Seq<Kind>)
    requires
        0 <= k < alternatives(NonTerminal::Any1Kind).len(),
        rule_kinds(NonTerminal::Any1Kind, types) is Some,
    ensures
        run_from(alternatives(NonTerminal::Any1Kind)[k], 0, types) == rule_kinds(
            NonTerminal::Any1Kind,
            types,
        ),
{
    reveal_with_fuel(run_from, 3);
}

proof fn lemma_typed_any1_tail(k: int, types: Seq<Kind>)
    requires
        0 <= k < alternatives(NonTerminal::Any1Tail).len(),
        rule_kinds(NonTerminal::Any1Tail, types) is Some,
    ensures
        run_from(alternatives(NonTerminal::Any1Tail)[k], 0, types) == rule_kinds(
            NonTerminal::Any1Tail,
            types,
        ),
{
    reveal_with_fuel(run_from, 3);
}

proof fn lemma_typed_any2(k: int, types: Seq<Kind>)
    requires
        0 <= k < alternatives(NonTerminal::Any2).len(),
        rule_kinds(NonTerminal::Any2, types) is Some,
    ensures
        run_from(alternatives(NonTerminal::Any2)[k], 0, types) == rule_kinds(
            NonTerminal::Any2,
            types,
        ),
{
    reveal_with_fuel(run_from, 3);
}

proof fn lemma_typed_any2_kind(k: int, types: Seq<Kind>)
    requires
        0 <= k < alternatives(NonTerminal::Any2Kind).len(),
        rule_kinds(NonTerminal::Any2Kind, types) is Some,
    ensures
        run_from(alternatives(NonTerminal::Any2Kind)[k], 0, types) == rule_kinds(
            NonTerminal::Any2Kind,
            types,
        ),
{
    reveal_with_fuel(run_from, 3);
}

proof fn lemma_typed_any2_last(k: int, types: Seq<Kind>)
    requires
        0 <= k < alternatives(NonTerminal::Any2Last).len(),
        rule_kinds(NonTerminal::Any2Last, types) is Some,
    ensures
        run_from(alternatives(NonTerminal::Any2Last)[k], 0, types) == rule_kinds(
            NonTerminal::Any2Last,
            types,
        ),
{
    reveal_with_fuel(run_from, 3);
}

proof fn lemma_typed_any2_last_kind(k: int, types: Seq<Kind>)
    requires
        0 <= k < alternatives(NonTerminal::Any2LastKind).len(),
        rule_kinds(NonTerminal::Any2LastKind, types) is Some,
    ensures
        run_from(alternatives(NonTerminal::Any2LastKind)[k], 0, types) == rule_kinds(
            NonTerminal::Any2LastKind,
            types,
        ),
{
    reveal_with_fuel(run_from, 3);
}

proof fn lemma_typed_any2_tail(k: int, types: Seq<Kind>)
    requires
        0 <= k < alternatives(NonTerminal::Any2Tail).len(),
        rule_kinds(NonTerminal::Any2Tail, types) is Some,
    ensures
        run_from(alternatives(NonTerminal::Any2Tail)[k], 0, types) == rule_kinds(
            NonTerminal::Any2Tail,
            types,
        ),
{
    reveal_with_fuel(run_from, 3);
}

proof fn lemma_typed_any3(k: int, types: Seq<Kind>)
    requires
        0 <= k < alternatives(NonTerminal::Any3).len(),
        rule_kinds(NonTerminal::Any3, types) is Some,
    ensures
        run_from(alternatives(NonTerminal::Any3)[k], 0, types) == rule_kinds(
            NonTerminal::Any3,
            types,
        ),
{
    reveal_with_fuel(run_from, 3);
}

proof fn lemma_typed_any3_plain(k: int, types: Seq<Kind>)
    requires
        0 <= k < alternatives(NonTerminal::Any3Plain).len(),
        rule_kinds(NonTerminal::Any3Plain, types) is Some,
    ensures
        run_from(alternatives(NonTerminal::Any3Plain)[k], 0, types) == rule_kinds(
            NonTerminal::Any3Plain,
            types,
        ),
{
    reveal_with_fuel(run_from, 4);
}

proof fn lemma_typed_any3_like(k: int, types: Seq<Kind>)
    requires
        0 <= k < alternatives(NonTerminal::Any3Like).len(),
        rule_kinds(NonTerminal::Any3Like, types) is Some,
    ensures
        run_from(alternatives(NonTerminal::Any3Like)[k], 0, types) == rule_kinds(
            NonTerminal::Any3Like,
            types,
        ),
{
    reveal_with_fuel(run_from, 3);
}

proof fn lemma_typed_either_course(k: int, types: Seq<Kind>)
    requires
        0 <= k < alternatives(NonTerminal::EitherCourse).len(),
        rule_kinds(NonTerminal::EitherCourse, types) is Some,
    ensures
        run_from(alternatives(NonTerminal::EitherCourse)[k], 0, types) == rule_kinds(
            NonTerminal::EitherCourse,
            types,
        ),
{
    reveal_with_fuel(run_from, 6);
}

proof fn lemma_typed_course(k: int, types: Seq<Kind>)
    requires
        0 <= k < alternatives(NonTerminal::Course).len(),
        rule_kinds(NonTerminal::Course, types) is Some,
    ensures
        run_from(alternatives(NonTerminal::Course)[k], 0, types) == rule_kinds(
            NonTerminal::Course,
            types,
        ),
{
    reveal_with_fuel(run_from, 4);
}

proof fn lemma_typed_all_courses(k: int, types: Seq<Kind>)
    requires
        0 <= k < alternatives(NonTerminal::AllCourses).len(),
        rule_kinds(NonTerminal::AllCourses, types) is Some,
    ensures
        run_from(alternatives(NonTerminal::AllCourses)[k], 0, types) == rule_kinds(
            NonTerminal::AllCourses,
            types,
        ),
{
    reveal_with_fuel(run_from, 6);
}

proof fn lemma_typed_all_courses_shared_topic(k: int, types: Seq<Kind>)
    requires
        0 <= k < alternatives(NonTerminal::AllCoursesSharedTopic).len(),
        rule_kinds(NonTerminal::AllCoursesSharedTopic, types) is Some,
    ensures
        run_from(alternatives(NonTerminal::AllCoursesSharedTopic)[k], 0, types) == rule_kinds(
            NonTerminal::AllCoursesSharedTopic,
            types,
        ),
{
    reveal_with_fuel(run_from, 6);
}

proof fn lemma_typed_any_courses(k: int, types: Seq<Kind>)
    requires
        0 <= k < alternatives(NonTerminal::AnyCourses).len(),
        rule_kinds(NonTerminal::AnyCourses, types) is Some,
    ensures
        run_from(alternatives(NonTerminal::AnyCourses)[k], 0, types) == rule_kinds(
            NonTerminal::AnyCourses,
            types,
        ),
{
    reveal_with_fuel(run_from, 6);
}

proof fn lemma_typed_any_courses_shared_topic(k: int, types: Seq<Kind>)
    requires
        0 <= k < alternatives(NonTerminal::AnyCoursesSharedTopic).len(),
        rule_kinds(NonTerminal::AnyCoursesSharedTopic, types) is Some,
    ensures
        run_from(alternatives(NonTerminal::AnyCoursesSharedTopic)[k], 0, types) == rule_kinds(
            NonTerminal::AnyCoursesSharedTopic,
            types,
        ),
{
    reveal_with_fuel(run_from, 6);
}

proof fn lemma_typed_any_courses_shared_topic_short(k: int, types: Seq<Kind>)
    requires
        0 <= k < alternatives(NonTerminal::AnyCoursesSharedTopicShort).len(),
        rule_kinds(NonTerminal::AnyCoursesSharedTopicShort, types) is Some,
    ensures
        run_from(alternatives(NonTerminal::AnyCoursesSharedTopicShort)[k], 0, types) == rule_kinds(
            NonTerminal::AnyCoursesSharedTopicShort,
            types,
        ),
{
    reveal_with_fuel(run_from, 4);
}

proof fn lemma_typed_any_courses_shared_topic_no_commas(k: int, types: Seq<Kind>)
    requires
        0 <= k < alternatives(NonTerminal::AnyCoursesSharedTopicNoCommas).len(),
        rule_kinds(NonTerminal::AnyCoursesSharedTopicNoCommas, types) is Some,
    ensures
        run_from(alternatives(NonTerminal::AnyCoursesSharedTopicNoCommas)[k], 0, types) == rule_kinds(
            NonTerminal::AnyCoursesSharedTopicNoCommas,
            types,
        ),
{
    reveal_with_fuel(run_from, 5);
}

proof fn lemma_typed_courses_shared_topic_head_long(k: int, types: Seq<Kind>)
    requires
        0 <= k < alternatives(NonTerminal::CoursesSharedTopicHeadLong).len(),
        rule_kinds(NonTerminal::CoursesSharedTopicHeadLong, types) is Some,
    ensures
        run_from(alternatives(NonTerminal::CoursesSharedTopicHeadLong)[k], 0, types) == rule_kinds(
            NonTerminal::CoursesSharedTopicHeadLong,
            types,
        ),
{
    reveal_with_fuel(run_from, 6);
}

proof fn lemma_typed_comma_separated_courses2(k: int, types: Seq<Kind>)
    requires
        0 <= k < alternatives(NonTerminal::CommaSeparatedCourses2).len(),
        rule_kinds(NonTerminal::CommaSeparatedCourses2, types) is Some,
    ensures
        run_from(alternatives(NonTerminal::CommaSeparatedCourses2)[k], 0, types) == rule_kinds(
            NonTerminal::CommaSeparatedCourses2,
            types,
        ),
{
    reveal_with_fuel(run_from, 4);
}

proof fn lemma_typed_elements2_opt(k: int, types: Seq<Kind>)
    requires
        0 <= k < alternatives(NonTerminal::Elements2Opt).len(),
        rule_kinds(NonTerminal::Elements2Opt, types) is Some,
    ensures
        run_from(alternatives(NonTerminal::Elements2Opt)[k], 0, types) == rule_kinds(
            NonTerminal::Elements2Opt,
            types,
        ),
{
    reveal_with_fuel(run_from, 3);
}

proof fn lemma_typed_elements2(k: int, types: Seq<Kind>)
    requires
        0 <= k < alternatives(NonTerminal::Elements2).len(),
        rule_kinds(NonTerminal::Elements2, types) is Some,
    ensures
        run_from(alternatives(NonTerminal::Elements2)[k], 0, types) == rule_kinds(
            NonTerminal::Elements2,
            types,
        ),
{
    reveal_with_fuel(run_from, 4);
}

proof fn lemma_typed_elements2_more(k: int, types: Seq<Kind>)
    requires
        0 <= k < alternatives(NonTerminal::Elements2More).len(),
        rule_kinds(NonTerminal::Elements2More, types) is Some,
    ensures
        run_from(alternatives(NonTerminal::Elements2More)[k], 0, types) == rule_kinds(
            NonTerminal::Elements2More,
            types,
        ),
{
    reveal_with_fuel(run_from, 4);
}

proof fn lemma_typed_element2(k: int, types: Seq<Kind>)
    requires
        0 <= k < alternatives(NonTerminal::Element2).len(),
        rule_kinds(NonTerminal::Element2, types) is Some,
    ensures
        run_from(alternatives(NonTerminal::Element2)[k], 0, types) == rule_kinds(
            NonTerminal::Element2,
            types,
        ),
{
    reveal_with_fuel(run_from, 4);
}

proof fn lemma_typed_comma_separated_courses3(k: int, types: Seq<Kind>)
    requires
        0 <= k < alternatives(NonTerminal::CommaSeparatedCourses3).len(),
        rule_kinds(NonTerminal::CommaSeparatedCourses3, types) is Some,
    ensures
        run_from(alternatives(NonTerminal::CommaSeparatedCourses3)[k], 0, types) == rule_kinds(
            NonTerminal::CommaSeparatedCourses3,
            types,
        ),
{
    reveal_with_fuel(run_from, 4);
}

proof fn lemma_typed_elements3_opt(k: int, types: Seq<Kind>)
    requires
        0 <= k < alternatives(NonTerminal::Elements3Opt).len(),
        rule_kinds(NonTerminal::Elements3Opt, types) is Some,
    ensures
        run_from(alternatives(NonTerminal::Elements3Opt)[k], 0, types) == rule_kinds(
            NonTerminal::Elements3Opt,
            types,
        ),
{
    reveal_with_fuel(run_from, 3);
}

proof fn lemma_typed_elements3(k: int, types: Seq<Kind>)
    requires
        0 <= k < alternatives(NonTerminal::Elements3).len(),
        rule_kinds(NonTerminal::Elements3, types) is Some,
    ensures
        run_from(alternatives(NonTerminal::Elements3)[k], 0, types) == rule_kinds(
            NonTerminal::Elements3,
            types,
        ),
{
    reveal_with_fuel(run_from, 4);
}

proof fn lemma_typed_elements3_more(k: int, types: Seq<Kind>)
    requires
        0 <= k < alternatives(NonTerminal::Elements3More).len(),
        rule_kinds(NonTerminal::Elements3More, types) is Some,
    ensures
        run_from(alternatives(NonTerminal::Elements3More)[k], 0, types) == rule_kinds(
            NonTerminal::Elements3More,
            types,
        ),
{
    reveal_with_fuel(run_from, 4);
}

proof fn lemma_typed_element3(k: int, types: Seq<Kind>)
    requires
        0 <= k < alternatives(NonTerminal::Element3).len(),
        rule_kinds(NonTerminal::Element3, types) is Some,
    ensures
        run_from(alternatives(NonTerminal::Element3)[k], 0, types) == rule_kinds(
            NonTerminal::Element3,
            types,
        ),
{
    reveal_with_fuel(run_from, 4);
}

proof fn lemma_typed_courses_shared_topic_head(k: int, types: Seq<Kind>)
    requires
        0 <= k < alternatives(NonTerminal::CoursesSharedTopicHead).len(),
        rule_kinds(NonTerminal::CoursesSharedTopicHead, types) is Some,
    ensures
        run_from(alternatives(NonTerminal::CoursesSharedTopicHead)[k], 0, types) == rule_kinds(
            NonTerminal::CoursesSharedTopicHead,
            types,
        ),
{
    reveal_with_fuel(run_from, 5);
}

proof fn lemma_typed_head_elements_opt(k: int, types: Seq<Kind>)
    requires
        0 <= k < alternatives(NonTerminal::HeadElementsOpt).len(),
        rule_kinds(NonTerminal::HeadElementsOpt, types) is Some,
    ensures
        run_from(alternatives(NonTerminal::HeadElementsOpt)[k], 0, types) == rule_kinds(
            NonTerminal::HeadElementsOpt,
            types,
        ),
{
    reveal_with_fuel(run_from, 3);
}

proof fn lemma_typed_head_elements(k: int, types: Seq<Kind>)
    requires
        0 <= k < alternatives(NonTerminal::HeadElements).len(),
        rule_kinds(NonTerminal::HeadElements, types) is Some,
    ensures
        run_from(alternatives(NonTerminal::HeadElements)[k], 0, types) == rule_kinds(
            NonTerminal::HeadElements,
            types,
        ),
{
    reveal_with_fuel(run_from, 4);
}

proof fn lemma_typed_head_elements_more(k: int, types: Seq<Kind>)
    requires
        0 <= k < alternatives(NonTerminal::HeadElementsMore).len(),
        rule_kinds(NonTerminal::HeadElementsMore, types) is Some,
    ensures
        run_from(alternatives(NonTerminal::HeadElementsMore)[k], 0, types) == rule_kinds(
            NonTerminal::HeadElementsMore,
            types,
        ),
{
    reveal_with_fuel(run_from, 4);
}

proof fn lemma_typed_head_element(k: int, types: Seq<Kind>)
    requires
        0 <= k < alternatives(NonTerminal::HeadElement).len(),
        rule_kinds(NonTerminal::HeadElement, types) is Some,
    ensures
        run_from(alternatives(NonTerminal::HeadElement)[k], 0, types) == rule_kinds(
            NonTerminal::HeadElement,
            types,
        ),
{
    reveal_with_fuel(run_from, 4);
}

proof fn lemma_typed_courses_shared_topic_slash_list(k: int, types: Seq<Kind>)
    requires
        0 <= k < alternatives(NonTerminal::CoursesSharedTopicSlashList).len(),
        rule_kinds(NonTerminal::CoursesSharedTopicSlashList, types) is Some,
    ensures
        run_from(alternatives(NonTerminal::CoursesSharedTopicSlashList)[k], 0, types) == rule_kinds(
            NonTerminal::CoursesSharedTopicSlashList,
            types,
        ),
{
    reveal_with_fuel(run_from, 5);
}

proof fn lemma_typed_slash_elements(k: int, types: Seq<Kind>)
    requires
        0 <= k < alternatives(NonTerminal::SlashElements).len(),
        rule_kinds(NonTerminal::SlashElements, types) is Some,
    ensures
        run_from(alternatives(NonTerminal::SlashElements)[k], 0, types) == rule_kinds(
            NonTerminal::SlashElements,
            types,
        ),
{
    reveal_with_fuel(run_from, 4);
}

proof fn lemma_typed_slash_elements_more(k: int, types: Seq<Kind>)
    requires
        0 <= k < alternatives(NonTerminal::SlashElementsMore).len(),
        rule_kinds(NonTerminal::SlashElementsMore, types) is Some,
    ensures
        run_from(alternatives(NonTerminal::SlashElementsMore)[k], 0, types) == rule_kinds(
            NonTerminal::SlashElementsMore,
            types,
        ),
{
    reveal_with_fuel(run_from, 4);
}

proof fn lemma_typed_slash_element(k: int, types: Seq<Kind>)
    requires
        0 <= k < alternatives(NonTerminal::SlashElement).len(),
        rule_kinds(NonTerminal::SlashElement, types) is Some,
    ensures
        run_from(alternatives(NonTerminal::SlashElement)[k], 0, types) == rule_kinds(
            NonTerminal::SlashElement,
            types,
        ),
{
    reveal_with_fuel(run_from, 4);
}

proof fn lemma_typed_comma_opt_and(k: int, types: Seq<Kind>)
    requires
        0 <= k < alternatives(NonTerminal::CommaOptAnd).len(),
        rule_kinds(NonTerminal::CommaOptAnd, types) is Some,
    ensures
        run_from(alternatives(NonTerminal::CommaOptAnd)[k], 0, types) == rule_kinds(
            NonTerminal::CommaOptAnd,
            types,
        ),
{
    reveal_with_fuel(run_from, 4);
}

proof fn lemma_typed_comma_opt_or(k: int, types: Seq<Kind>)
    requires
        0 <= k < alternatives(NonTerminal::CommaOptOr).len(),
        rule_kinds(NonTerminal::CommaOptOr, types) is Some,
    ensures
        run_from(alternatives(NonTerminal::CommaOptOr)[k], 0, types) == rule_kinds(
            NonTerminal::CommaOptOr,
            types,
        ),
{
    reveal_with_fuel(run_from, 4);
}

proof fn lemma_typed_comma_or_semicolon_opt(k: int, types: Seq<Kind>)
    requires
        0 <= k < alternatives(NonTerminal::CommaOrSemicolonOpt).len(),
        rule_kinds(NonTerminal::CommaOrSemicolonOpt, types) is Some,
    ensures
        run_from(alternatives(NonTerminal::CommaOrSemicolonOpt)[k], 0, types) == rule_kinds(
            NonTerminal::CommaOrSemicolonOpt,
            types,
        ),
{
    reveal_with_fuel(run_from, 3);
}

proof fn lemma_typed_comma_or_semicolon(k: int, types: Seq<Kind>)
    requires
        0 <= k < alternatives(NonTerminal::CommaOrSemicolon).len(),
        rule_kinds(NonTerminal::CommaOrSemicolon, types) is Some,
    ensures
        run_from(alternatives(NonTerminal::CommaOrSemicolon)[k], 0, types) == rule_kinds(
            NonTerminal::CommaOrSemicolon,
            types,
        ),
{
    reveal_with_fuel(run_from, 3);
}

proof fn lemma_typed_and_et(k: int, types: Seq<Kind>)
    requires
        0 <= k < alternatives(NonTerminal::AndEt).len(),
        rule_kinds(NonTerminal::AndEt, types) is Some,
    ensures
        run_from(alternatives(NonTerminal::AndEt)[k], 0, types) == rule_kinds(
            NonTerminal::AndEt,
            types,
        ),
{
    reveal_with_fuel(run_from, 3);
}

proof fn lemma_typed_or_ou(k: int, types: Seq<Kind>)
    requires
        0 <= k < alternatives(NonTerminal::OrOu).len(),
        rule_kinds(NonTerminal::OrOu, types) is Some,
    ensures
        run_from(alternatives(NonTerminal::OrOu)[k], 0, types) == rule_kinds(
            NonTerminal::OrOu,
            types,
        ),
{
    reveal_with_fuel(run_from, 3);
}

proof fn lemma_typed_both_opt(k: int, types: Seq<Kind>)
    requires
        0 <= k < alternatives(NonTerminal::BothOpt).len(),
        rule_kinds(NonTerminal::BothOpt, types) is Some,
    ensures
        run_from(alternatives(NonTerminal::BothOpt)[k], 0, types) == rule_kinds(
            NonTerminal::BothOpt,
            types,
        ),
{
    reveal_with_fuel(run_from, 3);
}

proof fn lemma_typed_either_opt(k: int, types: Seq<Kind>)
    requires
        0 <= k < alternatives(NonTerminal::EitherOpt).len(),
        rule_kinds(NonTerminal::EitherOpt, types) is Some,
    ensures
        run_from(alternatives(NonTerminal::EitherOpt)[k], 0, types) == rule_kinds(
            NonTerminal::EitherOpt,
            types,
        ),
{
    reveal_with_fuel(run_from, 3);
}

proof fn lemma_typed_one_of_opt(k: int, types: Seq<Kind>)
    requires
        0 <= k < alternatives(NonTerminal::OneOfOpt).len(),
        rule_kinds(NonTerminal::OneOfOpt, types) is Some,
    ensures
        run_from(alternatives(NonTerminal::OneOfOpt)[k], 0, types) == rule_kinds(
            NonTerminal::OneOfOpt,
            types,
        ),
{
    reveal_with_fuel(run_from, 3);
}

proof fn lemma_typed_one_of(k: int, types: Seq<Kind>)
    requires
        0 <= k < alternatives(NonTerminal::OneOf).len(),
        rule_kinds(NonTerminal::OneOf, types) is Some,
    ensures
        run_from(alternatives(NonTerminal::OneOf)[k], 0, types) == rule_kinds(
            NonTerminal::OneOf,
            types,
        ),
{
    reveal_with_fuel(run_from, 2);
}

proof fn lemma_typed_or_alternative(k: int, types: Seq<Kind>)
    requires
        0 <= k < alternatives(NonTerminal::OrAlternative).len(),
        rule_kinds(NonTerminal::OrAlternative, types) is Some,
    ensures
        run_from(alternatives(NonTerminal::OrAlternative)[k], 0, types) == rule_kinds(
            NonTerminal::OrAlternative,
            types,
        ),
{
    reveal_with_fuel(run_from, 4);
}

proof fn lemma_typed_unless_alternative(k: int, types: Seq<Kind>)
    requires
        0 <= k < alternatives(NonTerminal::UnlessAlternative).len(),
        rule_kinds(NonTerminal::UnlessAlternative, types) is Some,
    ensures
        run_from(alternatives(NonTerminal::UnlessAlternative)[k], 0, types) == rule_kinds(
            NonTerminal::UnlessAlternative,
            types,
        ),
{
    reveal_with_fuel(run_from, 4);
}

/// Every production of the grammar leaves on the stack what its rule
/// leaves.
pub proof fn lemma_production_typed(rule: NonTerminal, k: int, types: Seq<Kind>)
    requires
        0 <= k < alternatives(rule).len(),
        rule_kinds(rule, types) is Some,
    ensures
        run_from(alternatives(rule)[k], 0, types) == rule_kinds(rule, types),
{
    match rule {
        NonTerminal::TopLevel => lemma_typed_top_level(k, types),
        NonTerminal::TopLevelSemicolonList => lemma_typed_top_level_semicolon_list(k, types),
        NonTerminal::SemicolonListRest => lemma_typed_semicolon_list_rest(k, types),
        NonTerminal::SemicolonListElements => lemma_typed_semicolon_list_elements(k, types),
        NonTerminal::SemicolonListMore => lemma_typed_semicolon_list_more(k, types),
        NonTerminal::SemicolonListElement => lemma_typed_semicolon_list_element(k, types),
        NonTerminal::SemicolonListLastOpt => lemma_typed_semicolon_list_last_opt(k, types),
        NonTerminal::SemicolonListLast => lemma_typed_semicolon_list_last(k, types),
        NonTerminal::TopLevelCommaList => lemma_typed_top_level_comma_list(k, types),
        NonTerminal::CommaListRest => lemma_typed_comma_list_rest(k, types),
        NonTerminal::CommaListElements => lemma_typed_comma_list_elements(k, types),
        NonTerminal::CommaListMore => lemma_typed_comma_list_more(k, types),
        NonTerminal::CommaListElement => lemma_typed_comma_list_element(k, types),
        NonTerminal::CommaListLastOpt => lemma_typed_comma_list_last_opt(k, types),
        NonTerminal::CommaListLast => lemma_typed_comma_list_last(k, types),
        NonTerminal::Any1 => lemma_typed_any1(k, types),
        NonTerminal::Any1Kind => lemma_typed_any1_kind(k, types),
        NonTerminal::Any1Tail => lemma_typed_any1_tail(k, types),
        NonTerminal::Any2 => lemma_typed_any2(k, types),
        NonTerminal::Any2Kind => lemma_typed_any2_kind(k, types),
        NonTerminal::Any2Last => lemma_typed_any2_last(k, types),
        NonTerminal::Any2LastKind => lemma_typed_any2_last_kind(k, types),
        NonTerminal::Any2Tail => lemma_typed_any2_tail(k, types),
        NonTerminal::Any3 => lemma_typed_any3(k, types),
        NonTerminal::Any3Plain => lemma_typed_any3_plain(k, types),
        NonTerminal::Any3Like => lemma_typed_any3_like(k, types),
        NonTerminal::EitherCourse => lemma_typed_either_course(k, types),
        NonTerminal::Course => lemma_typed_course(k, types),
        NonTerminal::AllCourses => lemma_typed_all_courses(k, types),
        NonTerminal::AllCoursesSharedTopic => lemma_typed_all_courses_shared_topic(k, types),
        NonTerminal::AnyCourses => lemma_typed_any_courses(k, types),
        NonTerminal::AnyCoursesSharedTopic => lemma_typed_any_courses_shared_topic(k, types),
        NonTerminal::AnyCoursesSharedTopicShort => lemma_typed_any_courses_shared_topic_short(k, types),
        NonTerminal::AnyCoursesSharedTopicNoCommas => lemma_typed_any_courses_shared_topic_no_commas(k, types),
        NonTerminal::CoursesSharedTopicHeadLong => lemma_typed_courses_shared_topic_head_long(k, types),
        NonTerminal::CommaSeparatedCourses2 => lemma_typed_comma_separated_courses2(k, types),
        NonTerminal::Elements2Opt => lemma_typed_elements2_opt(k, types),
        NonTerminal::Elements2 => lemma_typed_elements2(k, types),
        NonTerminal::Elements2More => lemma_typed_elements2_more(k, types),
        NonTerminal::Element2 => lemma_typed_element2(k, types),
        NonTerminal::CommaSeparatedCourses3 => lemma_typed_comma_separated_courses3(k, types),
        NonTerminal::Elements3Opt => lemma_typed_elements3_opt(k, types),
        NonTerminal::Elements3 => lemma_typed_elements3(k, types),
        NonTerminal::Elements3More => lemma_typed_elements3_more(k, types),
        NonTerminal::Element3 => lemma_typed_element3(k, types),
        NonTerminal::CoursesSharedTopicHead => lemma_typed_courses_shared_topic_head(k, types),
        NonTerminal::HeadElementsOpt => lemma_typed_head_elements_opt(k, types),
        NonTerminal::HeadElements => lemma_typed_head_elements(k, types),
        NonTerminal::HeadElementsMore => lemma_typed_head_elements_more(k, types),
        NonTerminal::HeadElement => lemma_typed_head_element(k, types),
        NonTerminal::CoursesSharedTopicSlashList => lemma_typed_courses_shared_topic_slash_list(k, types),
        NonTerminal::SlashElements => lemma_typed_slash_elements(k, types),
        NonTerminal::SlashElementsMore => lemma_typed_slash_elements_more(k, types),
        NonTerminal::SlashElement => lemma_typed_slash_element(k, types),
        NonTerminal::CommaOptAnd => lemma_typed_comma_opt_and(k, types),
        NonTerminal::CommaOptOr => lemma_typed_comma_opt_or(k, types),
        NonTerminal::CommaOrSemicolonOpt => lemma_typed_comma_or_semicolon_opt(k, types),
        NonTerminal::CommaOrSemicolon => lemma_typed_comma_or_semicolon(k, types),
        NonTerminal::AndEt => lemma_typed_and_et(k, types),
        NonTerminal::OrOu => lemma_typed_or_ou(k, types),
        NonTerminal::BothOpt => lemma_typed_both_opt(k, types),
        NonTerminal::EitherOpt => lemma_typed_either_opt(k, types),
        NonTerminal::OneOfOpt => lemma_typed_one_of_opt(k, types),
        NonTerminal::OneOf => lemma_typed_one_of(k, types),
        NonTerminal::OrAlternative => lemma_typed_or_alternative(k, types),
        NonTerminal::UnlessAlternative => lemma_typed_unless_alternative(k, types),
    }
}

/// An action runs on a stack of values where it runs on their kinds, and
/// leaves values of the kinds that it leaves there.
pub proof fn lemma_apply_kinds(shape: Shape, stack: Seq<ValueView>)
    ensures
        apply(shape, stack) is Some <==> shape_kinds(shape, kinds(stack)) is Some,
        apply(shape, stack) matches Some(after) ==> kinds(after) == shape_kinds(
            shape,
            kinds(stack),
        ).unwrap(),
{
    let n = stack.len() as int;
    let types = kinds(stack);
    assert forall|i: int| 0 <= i < n implies #[trigger] types[i] == kind_of(stack[i]) by {}
    if let Some(after) = apply(shape, stack) {
        assert(kinds(after) =~= shape_kinds(shape, types).unwrap());
    }
}

/// The symbols of a production on top of a stack of symbols leave what
/// the production leaves, and then what the stack below leaves.
pub proof fn lemma_run_goal_production(
    rest: Seq<Symbol>,
    symbols: Seq<Symbol>,
    i: int,
    types: Seq<Kind>,
)
    requires
        0 <= i <= symbols.len(),
    ensures
        run_goal(rest + symbols.skip(i).reverse(), types) == match run_from(symbols, i, types) {
            Some(after) => run_goal(rest, after),
            None => None,
        },
    decreases symbols.len() - i,
{
    let goal = rest + symbols.skip(i).reverse();
    if i == symbols.len() {
        assert(goal =~= rest);
    } else {
        assert(goal.last() == symbols[i]);
        assert(goal.drop_last() =~= rest + symbols.skip(i + 1).reverse());
        if let Some(after) = step_kinds(symbols[i], types) {
            lemma_run_goal_production(rest, symbols, i + 1, after);
        }
    }
}

} // verus!
