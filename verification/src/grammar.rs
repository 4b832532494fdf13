//! The grammar of requirement sentences: its symbols and its productions.
//!
//! A production lists words of the text, other rules, and actions. An
//! action stands where the values of the symbols before it are complete:
//! it takes them and leaves one value in their place. The productions of a
//! rule are tried in the order in which they stand here. In the comments,
//! `TOPIC` and `NUMBER` stand for a topic and a number, `CONSENT` for the
//! consent of an instructor or a department, `GRADE` for the words that
//! ask for a minimum grade, and a word between quotes for itself.

use vstd::prelude::*;
use crate::lexer::TokenKind;

verus! {

/// The rules of the grammar.
#[derive(Clone, Copy, Debug, PartialEq, Eq, Structural)]
pub enum NonTerminal {
    TopLevel,
    TopLevelSemicolonList,
    SemicolonListRest,
    SemicolonListElements,
    SemicolonListMore,
    SemicolonListElement,
    SemicolonListLastOpt,
    SemicolonListLast,
    TopLevelCommaList,
    CommaListRest,
    CommaListElements,
    CommaListMore,
    CommaListElement,
    CommaListLastOpt,
    CommaListLast,
    Any1,
    Any1Kind,
    Any1Tail,
    Any2,
    Any2Kind,
    Any2Last,
    Any2LastKind,
    Any2Tail,
    Any3,
    Any3Plain,
    Any3Like,
    EitherCourse,
    Course,
    AllCourses,
    AllCoursesSharedTopic,
    AnyCourses,
    AnyCoursesSharedTopic,
    AnyCoursesSharedTopicShort,
    AnyCoursesSharedTopicNoCommas,
    CoursesSharedTopicHeadLong,
    CommaSeparatedCourses2,
    Elements2Opt,
    Elements2,
    Elements2More,
    Element2,
    CommaSeparatedCourses3,
    Elements3Opt,
    Elements3,
    Elements3More,
    Element3,
    CoursesSharedTopicHead,
    HeadElementsOpt,
    HeadElements,
    HeadElementsMore,
    HeadElement,
    CoursesSharedTopicSlashList,
    SlashElements,
    SlashElementsMore,
    SlashElement,
    CommaOptAnd,
    CommaOptOr,
    CommaOrSemicolonOpt,
    CommaOrSemicolon,
    AndEt,
    OrOu,
    BothOpt,
    EitherOpt,
    OneOfOpt,
    OneOf,
    OrAlternative,
    UnlessAlternative,
}

/// The actions of the grammar, each named after the function in
/// `crate::actions` that it runs.
#[derive(Clone, Copy, Debug, PartialEq, Eq, Structural)]
pub enum Action {
    TopLevelAny1,
    TopLevelTopLevelSemicolonList,
    TopLevelTopLevelCommaList,
    TopLevelNone,
    TopLevelSemicolonListC1,
    TopLevelSemicolonListElement0TopLevelSemicolonListElement1,
    TopLevelSemicolonListElement0Empty,
    TopLevelSemicolonListLastElementOptTopLevelSemicolonListLastElement,
    TopLevelSemicolonListElement1TopLevelSemicolonListElement,
    TopLevelSemicolonListElement1C1,
    TopLevelSemicolonListElementAny1,
    TopLevelSemicolonListLastElementOptEmpty,
    TopLevelSemicolonListLastElementC1,
    TopLevelCommaListC1,
    TopLevelCommaListElement0TopLevelCommaListElement1,
    TopLevelCommaListElement0Empty,
    TopLevelCommaListLastElementOptTopLevelCommaListLastElement,
    TopLevelCommaListElement1TopLevelCommaListElement,
    TopLevelCommaListElement1C1,
    TopLevelCommaListElementAny1,
    TopLevelCommaListLastElementOptEmpty,
    TopLevelCommaListLastElementC1,
    Any1Any2,
    Any1AllCoursesSharedTopic,
    Any1AllCourses,
    Any1C3,
    Any1C4,
    Any2AnyCoursesSharedTopic,
    Any2AnyCourses,
    Any2Any3,
    Any2C3,
    Any2C4,
    Any3EitherCourse,
    Any3Course,
    Any3CoursesSharedTopicSlashList,
    Any3AnyCoursesSharedTopicNoCommas,
    Any3Alternative,
    Any3C6,
    Any3likeAny3,
    Any3likeEnOrAlternativeOption,
    EitherCourseC1,
    CourseC1,
    AllCoursesC1,
    AllCoursesSharedTopicC1,
    AnyCoursesC1,
    AnyCoursesSharedTopicC1,
    AnyCoursesSharedTopicC3,
    AnyCoursesSharedTopicC2,
    OneOfOptOneOf,
    AnyCoursesSharedTopicNoCommasC1,
    OneOfOptEmpty,
    CoursesSharedTopicHeadElement0CoursesSharedTopicHeadElement1,
    CoursesSharedTopicHeadC1,
    CommaSeparatedCourses2C1,
    CommaSeparatedCoursesElement20CommaSeparatedCoursesElement21,
    CommaSeparatedCoursesElement20Empty,
    CommaSeparatedCoursesElement21CommaSeparatedCoursesElement2,
    CommaSeparatedCoursesElement21C1,
    CommaSeparatedCoursesElement2C1,
    CommaSeparatedCourses3C1,
    CommaSeparatedCoursesElement30CommaSeparatedCoursesElement31,
    CommaSeparatedCoursesElement30Empty,
    CommaSeparatedCoursesElement31CommaSeparatedCoursesElement3,
    CommaSeparatedCoursesElement31C1,
    CommaSeparatedCoursesElement3C1,
    CoursesSharedTopicHeadElement0Empty,
    CoursesSharedTopicHeadElement1CoursesSharedTopicHeadElement,
    CoursesSharedTopicHeadElement1C1,
    CoursesSharedTopicHeadElementC1,
    CoursesSharedTopicSlashListC1,
    CoursesSharedTopicSlashListElement1CoursesSharedTopicSlashListElement,
    CoursesSharedTopicSlashListElement1C1,
    CoursesSharedTopicSlashListElementC1,
    CommaOptAndC1,
    CommaOptOrC1,
    CommaOrSemicolonOptCommaOrSemicolon,
    CommaOrSemicolonOptEmpty,
    CommaOrSemicolonComma,
    CommaOrSemicolonSemicolon,
    AndEtAnd,
    AndEtAndOr,
    AndEtEt,
    OrOuOr,
    OrOuOu,
    BothOptBoth,
    BothOptEmpty,
    EitherOptEither,
    EitherOptEmpty,
    OrAlternativeC1,
    OrAlternativeC2,
    UnlessAlternativeC1,
}

/// A symbol of a production.
#[derive(Clone, Copy, Debug, PartialEq, Eq, Structural)]
pub enum Symbol {
    /// A word of the text, of the given kind.
    Word(TokenKind),
    /// A rule, to be replaced by one of its productions.
    Rule(NonTerminal),
    /// An action, to be run on the values gathered so far.
    Run(Action),
}

/// The productions of a rule, in the order in which they are tried.
pub open spec fn alternatives(rule: NonTerminal) -> Seq<Seq<Symbol>> {
    match rule {
        NonTerminal::TopLevel => seq![
            // Any1
            seq![Symbol::Rule(NonTerminal::Any1), Symbol::Run(Action::TopLevelAny1)],
            // TopLevelSemicolonList
            seq![
                Symbol::Rule(NonTerminal::TopLevelSemicolonList),
                Symbol::Run(Action::TopLevelTopLevelSemicolonList),
            ],
            // TopLevelCommaList
            seq![
                Symbol::Rule(NonTerminal::TopLevelCommaList),
                Symbol::Run(Action::TopLevelTopLevelCommaList),
            ],
            // "none"
            seq![Symbol::Word(TokenKind::Nothing), Symbol::Run(Action::TopLevelNone)],
        ],
        NonTerminal::TopLevelSemicolonList => seq![
            // Any1 ";" SemicolonListRest
            seq![
                Symbol::Rule(NonTerminal::Any1),
                Symbol::Word(TokenKind::Semicolon),
                Symbol::Rule(NonTerminal::SemicolonListRest),
                Symbol::Run(Action::TopLevelSemicolonListC1),
            ],
        ],
        NonTerminal::SemicolonListRest => seq![
            // SemicolonListElements SemicolonListLastOpt
            seq![
                Symbol::Rule(NonTerminal::SemicolonListElements),
                Symbol::Run(Action::TopLevelSemicolonListElement0TopLevelSemicolonListElement1),
                Symbol::Rule(NonTerminal::SemicolonListLastOpt),
            ],
            // SemicolonListLast
            seq![
                Symbol::Run(Action::TopLevelSemicolonListElement0Empty),
                Symbol::Rule(NonTerminal::SemicolonListLast),
                Symbol::Run(Action::TopLevelSemicolonListLastElementOptTopLevelSemicolonListLastElement),
            ],
        ],
        NonTerminal::SemicolonListElements => seq![
            // SemicolonListElement SemicolonListMore
            seq![
                Symbol::Rule(NonTerminal::SemicolonListElement),
                Symbol::Run(Action::TopLevelSemicolonListElement1TopLevelSemicolonListElement),
                Symbol::Rule(NonTerminal::SemicolonListMore),
            ],
        ],
        NonTerminal::SemicolonListMore => seq![
            // ";" SemicolonListElement SemicolonListMore
            seq![
                Symbol::Word(TokenKind::Semicolon),
                Symbol::Rule(NonTerminal::SemicolonListElement),
                Symbol::Run(Action::TopLevelSemicolonListElement1C1),
                Symbol::Rule(NonTerminal::SemicolonListMore),
            ],
            // (empty)
            Seq::empty(),
        ],
        NonTerminal::SemicolonListElement => seq![
            // Any1
            seq![
                Symbol::Rule(NonTerminal::Any1),
                Symbol::Run(Action::TopLevelSemicolonListElementAny1),
            ],
        ],
        NonTerminal::SemicolonListLastOpt => seq![
            // SemicolonListLast
            seq![
                Symbol::Rule(NonTerminal::SemicolonListLast),
                Symbol::Run(Action::TopLevelSemicolonListLastElementOptTopLevelSemicolonListLastElement),
            ],
            // (empty)
            seq![Symbol::Run(Action::TopLevelSemicolonListLastElementOptEmpty)],
        ],
        NonTerminal::SemicolonListLast => seq![
            // CommaOptAnd Any1
            seq![
                Symbol::Rule(NonTerminal::CommaOptAnd),
                Symbol::Rule(NonTerminal::Any1),
                Symbol::Run(Action::TopLevelSemicolonListLastElementC1),
            ],
        ],
        NonTerminal::TopLevelCommaList => seq![
            // Any1 "," CommaListRest
            seq![
                Symbol::Rule(NonTerminal::Any1),
                Symbol::Word(TokenKind::Comma),
                Symbol::Rule(NonTerminal::CommaListRest),
                Symbol::Run(Action::TopLevelCommaListC1),
            ],
        ],
        NonTerminal::CommaListRest => seq![
            // CommaListElements CommaListLastOpt
            seq![
                Symbol::Rule(NonTerminal::CommaListElements),
                Symbol::Run(Action::TopLevelCommaListElement0TopLevelCommaListElement1),
                Symbol::Rule(NonTerminal::CommaListLastOpt),
            ],
            // CommaListLast
            seq![
                Symbol::Run(Action::TopLevelCommaListElement0Empty),
                Symbol::Rule(NonTerminal::CommaListLast),
                Symbol::Run(Action::TopLevelCommaListLastElementOptTopLevelCommaListLastElement),
            ],
        ],
        NonTerminal::CommaListElements => seq![
            // CommaListElement CommaListMore
            seq![
                Symbol::Rule(NonTerminal::CommaListElement),
                Symbol::Run(Action::TopLevelCommaListElement1TopLevelCommaListElement),
                Symbol::Rule(NonTerminal::CommaListMore),
            ],
        ],
        NonTerminal::CommaListMore => seq![
            // "," CommaListElement CommaListMore
            seq![
                Symbol::Word(TokenKind::Comma),
                Symbol::Rule(NonTerminal::CommaListElement),
                Symbol::Run(Action::TopLevelCommaListElement1C1),
                Symbol::Rule(NonTerminal::CommaListMore),
            ],
            // (empty)
            Seq::empty(),
        ],
        NonTerminal::CommaListElement => seq![
            // Any1
            seq![
                Symbol::Rule(NonTerminal::Any1),
                Symbol::Run(Action::TopLevelCommaListElementAny1),
            ],
        ],
        NonTerminal::CommaListLastOpt => seq![
            // CommaListLast
            seq![
                Symbol::Rule(NonTerminal::CommaListLast),
                Symbol::Run(Action::TopLevelCommaListLastElementOptTopLevelCommaListLastElement),
            ],
            // (empty)
            seq![Symbol::Run(Action::TopLevelCommaListLastElementOptEmpty)],
        ],
        NonTerminal::CommaListLast => seq![
            // CommaOptAnd Any1
            seq![
                Symbol::Rule(NonTerminal::CommaOptAnd),
                Symbol::Rule(NonTerminal::Any1),
                Symbol::Run(Action::TopLevelCommaListLastElementC1),
            ],
        ],
        NonTerminal::Any1 => seq![
            // Any1Kind Any1Tail
            seq![Symbol::Rule(NonTerminal::Any1Kind), Symbol::Rule(NonTerminal::Any1Tail)],
        ],
        NonTerminal::Any1Kind => seq![
            // Any2
            seq![Symbol::Rule(NonTerminal::Any2), Symbol::Run(Action::Any1Any2)],
            // AllCoursesSharedTopic
            seq![
                Symbol::Rule(NonTerminal::AllCoursesSharedTopic),
                Symbol::Run(Action::Any1AllCoursesSharedTopic),
            ],
            // AllCourses
            seq![Symbol::Rule(NonTerminal::AllCourses), Symbol::Run(Action::Any1AllCourses)],
        ],
        NonTerminal::Any1Tail => seq![
            // OrAlternative
            seq![Symbol::Rule(NonTerminal::OrAlternative), Symbol::Run(Action::Any1C3)],
            // UnlessAlternative
            seq![Symbol::Rule(NonTerminal::UnlessAlternative), Symbol::Run(Action::Any1C4)],
            // (empty)
            Seq::empty(),
        ],
        NonTerminal::Any2 => seq![
            // Any2Kind Any2Tail
            seq![Symbol::Rule(NonTerminal::Any2Kind), Symbol::Rule(NonTerminal::Any2Tail)],
        ],
        NonTerminal::Any2Kind => seq![
            // AnyCoursesSharedTopic
            seq![
                Symbol::Rule(NonTerminal::AnyCoursesSharedTopic),
                Symbol::Run(Action::Any2AnyCoursesSharedTopic),
            ],
            // AnyCourses
            seq![Symbol::Rule(NonTerminal::AnyCourses), Symbol::Run(Action::Any2AnyCourses)],
            // AnyCoursesSharedTopicShort
            seq![
                Symbol::Rule(NonTerminal::AnyCoursesSharedTopicShort),
                Symbol::Run(Action::Any2AnyCoursesSharedTopic),
            ],
            // Any3
            seq![Symbol::Rule(NonTerminal::Any3), Symbol::Run(Action::Any2Any3)],
        ],
        NonTerminal::Any2Last => seq![
            // Any2LastKind Any2Tail
            seq![Symbol::Rule(NonTerminal::Any2LastKind), Symbol::Rule(NonTerminal::Any2Tail)],
        ],
        NonTerminal::Any2LastKind => seq![
            // AnyCoursesSharedTopic
            seq![
                Symbol::Rule(NonTerminal::AnyCoursesSharedTopic),
                Symbol::Run(Action::Any2AnyCoursesSharedTopic),
            ],
            // AnyCoursesSharedTopicShort
            seq![
                Symbol::Rule(NonTerminal::AnyCoursesSharedTopicShort),
                Symbol::Run(Action::Any2AnyCoursesSharedTopic),
            ],
            // AnyCourses
            seq![Symbol::Rule(NonTerminal::AnyCourses), Symbol::Run(Action::Any2AnyCourses)],
            // Any3
            seq![Symbol::Rule(NonTerminal::Any3), Symbol::Run(Action::Any2Any3)],
        ],
        NonTerminal::Any2Tail => seq![
            // OrAlternative
            seq![Symbol::Rule(NonTerminal::OrAlternative), Symbol::Run(Action::Any2C3)],
            // UnlessAlternative
            seq![Symbol::Rule(NonTerminal::UnlessAlternative), Symbol::Run(Action::Any2C4)],
            // (empty)
            Seq::empty(),
        ],
        NonTerminal::Any3 => seq![
            // EitherCourse
            seq![Symbol::Rule(NonTerminal::EitherCourse), Symbol::Run(Action::Any3EitherCourse)],
            // Any3Plain
            seq![Symbol::Rule(NonTerminal::Any3Plain)],
        ],
        NonTerminal::Any3Plain => seq![
            // Course
            seq![Symbol::Rule(NonTerminal::Course), Symbol::Run(Action::Any3Course)],
            // CoursesSharedTopicSlashList
            seq![
                Symbol::Rule(NonTerminal::CoursesSharedTopicSlashList),
                Symbol::Run(Action::Any3CoursesSharedTopicSlashList),
            ],
            // AnyCoursesSharedTopicNoCommas
            seq![
                Symbol::Rule(NonTerminal::AnyCoursesSharedTopicNoCommas),
                Symbol::Run(Action::Any3AnyCoursesSharedTopicNoCommas),
            ],
            // CONSENT
            seq![Symbol::Word(TokenKind::Alternative), Symbol::Run(Action::Any3Alternative)],
            // GRADE Any2
            seq![
                Symbol::Word(TokenKind::MinimumGrade),
                Symbol::Rule(NonTerminal::Any2),
                Symbol::Run(Action::Any3C6),
            ],
        ],
        NonTerminal::Any3Like => seq![
            // Any3
            seq![Symbol::Rule(NonTerminal::Any3), Symbol::Run(Action::Any3likeAny3)],
            // "equivalent"
            seq![
                Symbol::Word(TokenKind::Equivalent),
                Symbol::Run(Action::Any3likeEnOrAlternativeOption),
            ],
            // CONSENT
            seq![
                Symbol::Word(TokenKind::Alternative),
                Symbol::Run(Action::Any3likeEnOrAlternativeOption),
            ],
        ],
        NonTerminal::EitherCourse => seq![
            // EitherOpt Any3Plain OrOu Any3
            seq![
                Symbol::Rule(NonTerminal::EitherOpt),
                Symbol::Rule(NonTerminal::Any3Plain),
                Symbol::Rule(NonTerminal::OrOu),
                Symbol::Rule(NonTerminal::Any3),
                Symbol::Run(Action::EitherCourseC1),
            ],
        ],
        NonTerminal::Course => seq![
            // TOPIC NUMBER
            seq![
                Symbol::Word(TokenKind::Topic),
                Symbol::Word(TokenKind::Number),
                Symbol::Run(Action::CourseC1),
            ],
        ],
        NonTerminal::AllCourses => seq![
            // BothOpt CommaSeparatedCourses2 CommaOptAnd Any2Last
            seq![
                Symbol::Rule(NonTerminal::BothOpt),
                Symbol::Rule(NonTerminal::CommaSeparatedCourses2),
                Symbol::Rule(NonTerminal::CommaOptAnd),
                Symbol::Rule(NonTerminal::Any2Last),
                Symbol::Run(Action::AllCoursesC1),
            ],
        ],
        NonTerminal::AllCoursesSharedTopic => seq![
            // BothOpt CoursesSharedTopicHead CommaOptAnd NUMBER
            seq![
                Symbol::Rule(NonTerminal::BothOpt),
                Symbol::Rule(NonTerminal::CoursesSharedTopicHead),
                Symbol::Rule(NonTerminal::CommaOptAnd),
                Symbol::Word(TokenKind::Number),
                Symbol::Run(Action::AllCoursesSharedTopicC1),
            ],
        ],
        NonTerminal::AnyCourses => seq![
            // OneOfOpt CommaSeparatedCourses3 CommaOptOr Any3Like
            seq![
                Symbol::Rule(NonTerminal::OneOfOpt),
                Symbol::Rule(NonTerminal::CommaSeparatedCourses3),
                Symbol::Rule(NonTerminal::CommaOptOr),
                Symbol::Rule(NonTerminal::Any3Like),
                Symbol::Run(Action::AnyCoursesC1),
            ],
        ],
        NonTerminal::AnyCoursesSharedTopic => seq![
            // OneOfOpt CoursesSharedTopicHead CommaOptOr NUMBER
            seq![
                Symbol::Rule(NonTerminal::OneOfOpt),
                Symbol::Rule(NonTerminal::CoursesSharedTopicHead),
                Symbol::Rule(NonTerminal::CommaOptOr),
                Symbol::Word(TokenKind::Number),
                Symbol::Run(Action::AnyCoursesSharedTopicC1),
            ],
            // OneOfOpt CoursesSharedTopicHead CommaOptOr CONSENT
            seq![
                Symbol::Rule(NonTerminal::OneOfOpt),
                Symbol::Rule(NonTerminal::CoursesSharedTopicHead),
                Symbol::Rule(NonTerminal::CommaOptOr),
                Symbol::Word(TokenKind::Alternative),
                Symbol::Run(Action::AnyCoursesSharedTopicC3),
            ],
        ],
        NonTerminal::AnyCoursesSharedTopicShort => seq![
            // OneOf CoursesSharedTopicHead
            seq![
                Symbol::Rule(NonTerminal::OneOf),
                Symbol::Rule(NonTerminal::CoursesSharedTopicHead),
                Symbol::Run(Action::AnyCoursesSharedTopicC2),
            ],
        ],
        NonTerminal::AnyCoursesSharedTopicNoCommas => seq![
            // OneOf CoursesSharedTopicHead
            seq![
                Symbol::Rule(NonTerminal::OneOf),
                Symbol::Run(Action::OneOfOptOneOf),
                Symbol::Rule(NonTerminal::CoursesSharedTopicHead),
                Symbol::Run(Action::AnyCoursesSharedTopicNoCommasC1),
            ],
            // CoursesSharedTopicHeadLong
            seq![
                Symbol::Run(Action::OneOfOptEmpty),
                Symbol::Rule(NonTerminal::CoursesSharedTopicHeadLong),
                Symbol::Run(Action::AnyCoursesSharedTopicNoCommasC1),
            ],
        ],
        NonTerminal::CoursesSharedTopicHeadLong => seq![
            // TOPIC NUMBER HeadElements
            seq![
                Symbol::Word(TokenKind::Topic),
                Symbol::Word(TokenKind::Number),
                Symbol::Rule(NonTerminal::HeadElements),
                Symbol::Run(Action::CoursesSharedTopicHeadElement0CoursesSharedTopicHeadElement1),
                Symbol::Run(Action::CoursesSharedTopicHeadC1),
            ],
        ],
        NonTerminal::CommaSeparatedCourses2 => seq![
            // Any2 Elements2Opt
            seq![
                Symbol::Rule(NonTerminal::Any2),
                Symbol::Rule(NonTerminal::Elements2Opt),
                Symbol::Run(Action::CommaSeparatedCourses2C1),
            ],
        ],
        NonTerminal::Elements2Opt => seq![
            // Elements2
            seq![
                Symbol::Rule(NonTerminal::Elements2),
                Symbol::Run(Action::CommaSeparatedCoursesElement20CommaSeparatedCoursesElement21),
            ],
            // (empty)
            seq![Symbol::Run(Action::CommaSeparatedCoursesElement20Empty)],
        ],
        NonTerminal::Elements2 => seq![
            // Element2 Elements2More
            seq![
                Symbol::Rule(NonTerminal::Element2),
                Symbol::Run(Action::CommaSeparatedCoursesElement21CommaSeparatedCoursesElement2),
                Symbol::Rule(NonTerminal::Elements2More),
            ],
        ],
        NonTerminal::Elements2More => seq![
            // Element2 Elements2More
            seq![
                Symbol::Rule(NonTerminal::Element2),
                Symbol::Run(Action::CommaSeparatedCoursesElement21C1),
                Symbol::Rule(NonTerminal::Elements2More),
            ],
            // (empty)
            Seq::empty(),
        ],
        NonTerminal::Element2 => seq![
            // CommaOrSemicolon Any2
            seq![
                Symbol::Rule(NonTerminal::CommaOrSemicolon),
                Symbol::Rule(NonTerminal::Any2),
                Symbol::Run(Action::CommaSeparatedCoursesElement2C1),
            ],
        ],
        NonTerminal::CommaSeparatedCourses3 => seq![
            // Any3 Elements3Opt
            seq![
                Symbol::Rule(NonTerminal::Any3),
                Symbol::Rule(NonTerminal::Elements3Opt),
                Symbol::Run(Action::CommaSeparatedCourses3C1),
            ],
        ],
        NonTerminal::Elements3Opt => seq![
            // Elements3
            seq![
                Symbol::Rule(NonTerminal::Elements3),
                Symbol::Run(Action::CommaSeparatedCoursesElement30CommaSeparatedCoursesElement31),
            ],
            // (empty)
            seq![Symbol::Run(Action::CommaSeparatedCoursesElement30Empty)],
        ],
        NonTerminal::Elements3 => seq![
            // Element3 Elements3More
            seq![
                Symbol::Rule(NonTerminal::Element3),
                Symbol::Run(Action::CommaSeparatedCoursesElement31CommaSeparatedCoursesElement3),
                Symbol::Rule(NonTerminal::Elements3More),
            ],
        ],
        NonTerminal::Elements3More => seq![
            // Element3 Elements3More
            seq![
                Symbol::Rule(NonTerminal::Element3),
                Symbol::Run(Action::CommaSeparatedCoursesElement31C1),
                Symbol::Rule(NonTerminal::Elements3More),
            ],
            // (empty)
            Seq::empty(),
        ],
        NonTerminal::Element3 => seq![
            // CommaOrSemicolon Any3
            seq![
                Symbol::Rule(NonTerminal::CommaOrSemicolon),
                Symbol::Rule(NonTerminal::Any3),
                Symbol::Run(Action::CommaSeparatedCoursesElement3C1),
            ],
        ],
        NonTerminal::CoursesSharedTopicHead => seq![
            // TOPIC NUMBER HeadElementsOpt
            seq![
                Symbol::Word(TokenKind::Topic),
                Symbol::Word(TokenKind::Number),
                Symbol::Rule(NonTerminal::HeadElementsOpt),
                Symbol::Run(Action::CoursesSharedTopicHeadC1),
            ],
        ],
        NonTerminal::HeadElementsOpt => seq![
            // HeadElements
            seq![
                Symbol::Rule(NonTerminal::HeadElements),
                Symbol::Run(Action::CoursesSharedTopicHeadElement0CoursesSharedTopicHeadElement1),
            ],
            // (empty)
            seq![Symbol::Run(Action::CoursesSharedTopicHeadElement0Empty)],
        ],
        NonTerminal::HeadElements => seq![
            // HeadElement HeadElementsMore
            seq![
                Symbol::Rule(NonTerminal::HeadElement),
                Symbol::Run(Action::CoursesSharedTopicHeadElement1CoursesSharedTopicHeadElement),
                Symbol::Rule(NonTerminal::HeadElementsMore),
            ],
        ],
        NonTerminal::HeadElementsMore => seq![
            // HeadElement HeadElementsMore
            seq![
                Symbol::Rule(NonTerminal::HeadElement),
                Symbol::Run(Action::CoursesSharedTopicHeadElement1C1),
                Symbol::Rule(NonTerminal::HeadElementsMore),
            ],
            // (empty)
            Seq::empty(),
        ],
        NonTerminal::HeadElement => seq![
            // CommaOrSemicolon NUMBER
            seq![
                Symbol::Rule(NonTerminal::CommaOrSemicolon),
                Symbol::Word(TokenKind::Number),
                Symbol::Run(Action::CoursesSharedTopicHeadElementC1),
            ],
        ],
        NonTerminal::CoursesSharedTopicSlashList => seq![
            // TOPIC NUMBER SlashElements
            seq![
                Symbol::Word(TokenKind::Topic),
                Symbol::Word(TokenKind::Number),
                Symbol::Rule(NonTerminal::SlashElements),
                Symbol::Run(Action::CoursesSharedTopicSlashListC1),
            ],
        ],
        NonTerminal::SlashElements => seq![
            // SlashElement SlashElementsMore
            seq![
                Symbol::Rule(NonTerminal::SlashElement),
                Symbol::Run(Action::CoursesSharedTopicSlashListElement1CoursesSharedTopicSlashListElement),
                Symbol::Rule(NonTerminal::SlashElementsMore),
            ],
        ],
        NonTerminal::SlashElementsMore => seq![
            // SlashElement SlashElementsMore
            seq![
                Symbol::Rule(NonTerminal::SlashElement),
                Symbol::Run(Action::CoursesSharedTopicSlashListElement1C1),
                Symbol::Rule(NonTerminal::SlashElementsMore),
            ],
            // (empty)
            Seq::empty(),
        ],
        NonTerminal::SlashElement => seq![
            // "/" NUMBER
            seq![
                Symbol::Word(TokenKind::Slash),
                Symbol::Word(TokenKind::Number),
                Symbol::Run(Action::CoursesSharedTopicSlashListElementC1),
            ],
        ],
        NonTerminal::CommaOptAnd => seq![
            // CommaOrSemicolonOpt AndEt
            seq![
                Symbol::Rule(NonTerminal::CommaOrSemicolonOpt),
                Symbol::Rule(NonTerminal::AndEt),
                Symbol::Run(Action::CommaOptAndC1),
            ],
        ],
        NonTerminal::CommaOptOr => seq![
            // CommaOrSemicolonOpt OrOu
            seq![
                Symbol::Rule(NonTerminal::CommaOrSemicolonOpt),
                Symbol::Rule(NonTerminal::OrOu),
                Symbol::Run(Action::CommaOptOrC1),
            ],
        ],
        NonTerminal::CommaOrSemicolonOpt => seq![
            // CommaOrSemicolon
            seq![
                Symbol::Rule(NonTerminal::CommaOrSemicolon),
                Symbol::Run(Action::CommaOrSemicolonOptCommaOrSemicolon),
            ],
            // (empty)
            seq![Symbol::Run(Action::CommaOrSemicolonOptEmpty)],
        ],
        NonTerminal::CommaOrSemicolon => seq![
            // ","
            seq![Symbol::Word(TokenKind::Comma), Symbol::Run(Action::CommaOrSemicolonComma)],
            // ";"
            seq![
                Symbol::Word(TokenKind::Semicolon),
                Symbol::Run(Action::CommaOrSemicolonSemicolon),
            ],
        ],
        NonTerminal::AndEt => seq![
            // "and"
            seq![Symbol::Word(TokenKind::And), Symbol::Run(Action::AndEtAnd)],
            // "and/or"
            seq![Symbol::Word(TokenKind::AndOr), Symbol::Run(Action::AndEtAndOr)],
            // "et"
            seq![Symbol::Word(TokenKind::Et), Symbol::Run(Action::AndEtEt)],
        ],
        NonTerminal::OrOu => seq![
            // "or"
            seq![Symbol::Word(TokenKind::Or), Symbol::Run(Action::OrOuOr)],
            // "ou"
            seq![Symbol::Word(TokenKind::Ou), Symbol::Run(Action::OrOuOu)],
        ],
        NonTerminal::BothOpt => seq![
            // "both"
            seq![Symbol::Word(TokenKind::Both), Symbol::Run(Action::BothOptBoth)],
            // (empty)
            seq![Symbol::Run(Action::BothOptEmpty)],
        ],
        NonTerminal::EitherOpt => seq![
            // "either"
            seq![Symbol::Word(TokenKind::Either), Symbol::Run(Action::EitherOptEither)],
            // (empty)
            seq![Symbol::Run(Action::EitherOptEmpty)],
        ],
        NonTerminal::OneOfOpt => seq![
            // OneOf
            seq![Symbol::Rule(NonTerminal::OneOf), Symbol::Run(Action::OneOfOptOneOf)],
            // (empty)
            seq![Symbol::Run(Action::OneOfOptEmpty)],
        ],
        NonTerminal::OneOf => seq![
            // "one of"
            seq![Symbol::Word(TokenKind::OneOf)],
        ],
        NonTerminal::OrAlternative => seq![
            // "or" "equivalent"
            seq![
                Symbol::Word(TokenKind::Or),
                Symbol::Word(TokenKind::Equivalent),
                Symbol::Run(Action::OrAlternativeC1),
            ],
            // "or" CONSENT
            seq![
                Symbol::Word(TokenKind::Or),
                Symbol::Word(TokenKind::Alternative),
                Symbol::Run(Action::OrAlternativeC1),
            ],
            // "ou" "equivalent"
            seq![
                Symbol::Word(TokenKind::Ou),
                Symbol::Word(TokenKind::Equivalent),
                Symbol::Run(Action::OrAlternativeC2),
            ],
        ],
        NonTerminal::UnlessAlternative => seq![
            // "unless" CONSENT
            seq![
                Symbol::Word(TokenKind::Unless),
                Symbol::Word(TokenKind::Alternative),
                Symbol::Run(Action::UnlessAlternativeC1),
            ],
        ],
    }
}

/// The number of productions of a rule.
pub fn alternative_count(rule: NonTerminal) -> (n: usize)
    ensures
        n == alternatives(rule).len(),
{
    match rule {
        NonTerminal::TopLevel => 4,
        NonTerminal::TopLevelSemicolonList => 1,
        NonTerminal::SemicolonListRest => 2,
        NonTerminal::SemicolonListElements => 1,
        NonTerminal::SemicolonListMore => 2,
        NonTerminal::SemicolonListElement => 1,
        NonTerminal::SemicolonListLastOpt => 2,
        NonTerminal::SemicolonListLast => 1,
        NonTerminal::TopLevelCommaList => 1,
        NonTerminal::CommaListRest => 2,
        NonTerminal::CommaListElements => 1,
        NonTerminal::CommaListMore => 2,
        NonTerminal::CommaListElement => 1,
        NonTerminal::CommaListLastOpt => 2,
        NonTerminal::CommaListLast => 1,
        NonTerminal::Any1 => 1,
        NonTerminal::Any1Kind => 3,
        NonTerminal::Any1Tail => 3,
        NonTerminal::Any2 => 1,
        NonTerminal::Any2Kind => 4,
        NonTerminal::Any2Last => 1,
        NonTerminal::Any2LastKind => 4,
        NonTerminal::Any2Tail => 3,
        NonTerminal::Any3 => 2,
        NonTerminal::Any3Plain => 5,
        NonTerminal::Any3Like => 3,
        NonTerminal::EitherCourse => 1,
        NonTerminal::Course => 1,
        NonTerminal::AllCourses => 1,
        NonTerminal::AllCoursesSharedTopic => 1,
        NonTerminal::AnyCourses => 1,
        NonTerminal::AnyCoursesSharedTopic => 2,
        NonTerminal::AnyCoursesSharedTopicShort => 1,
        NonTerminal::AnyCoursesSharedTopicNoCommas => 2,
        NonTerminal::CoursesSharedTopicHeadLong => 1,
        NonTerminal::CommaSeparatedCourses2 => 1,
        NonTerminal::Elements2Opt => 2,
        NonTerminal::Elements2 => 1,
        NonTerminal::Elements2More => 2,
        NonTerminal::Element2 => 1,
        NonTerminal::CommaSeparatedCourses3 => 1,
        NonTerminal::Elements3Opt => 2,
        NonTerminal::Elements3 => 1,
        NonTerminal::Elements3More => 2,
        NonTerminal::Element3 => 1,
        NonTerminal::CoursesSharedTopicHead => 1,
        NonTerminal::HeadElementsOpt => 2,
        NonTerminal::HeadElements => 1,
        NonTerminal::HeadElementsMore => 2,
        NonTerminal::HeadElement => 1,
        NonTerminal::CoursesSharedTopicSlashList => 1,
        NonTerminal::SlashElements => 1,
        NonTerminal::SlashElementsMore => 2,
        NonTerminal::SlashElement => 1,
        NonTerminal::CommaOptAnd => 1,
        NonTerminal::CommaOptOr => 1,
        NonTerminal::CommaOrSemicolonOpt => 2,
        NonTerminal::CommaOrSemicolon => 2,
        NonTerminal::AndEt => 3,
        NonTerminal::OrOu => 2,
        NonTerminal::BothOpt => 2,
        NonTerminal::EitherOpt => 2,
        NonTerminal::OneOfOpt => 2,
        NonTerminal::OneOf => 1,
        NonTerminal::OrAlternative => 3,
        NonTerminal::UnlessAlternative => 1,
    }
}

/// Puts the symbols of the production `k` of `rule` on the stack, the
/// first of them on top.
pub fn push_alternative(stack: &mut Vec<Symbol>, rule: NonTerminal, k: usize)
    requires
        k < alternatives(rule).len(),
    ensures
        final(stack)@ == old(stack)@ + alternatives(rule)[k as int].reverse(),
{
    let symbols = production(rule, k);
    let mut i = symbols.len();
    assert(stack@ + symbols@.skip(i as int).reverse() =~= stack@);
    while i > 0
        invariant
            i <= symbols.len(),
            symbols@ == alternatives(rule)[k as int],
            stack@ == old(stack)@ + symbols@.skip(i as int).reverse(),
        decreases i,
    {
        i -= 1;
        stack.push(symbols[i]);
        assert(symbols@.skip(i as int).reverse() =~= symbols@.skip(i + 1).reverse().push(
            symbols@[i as int],
        ));
    }
    assert(symbols@.skip(0) =~= symbols@);
}

/// The symbols of the production `k` of `rule`.
pub fn production(rule: NonTerminal, k: usize) -> (symbols: Vec<Symbol>)
    requires
        k < alternatives(rule).len(),
    ensures
        symbols@ == alternatives(rule)[k as int],
{
    match rule {
        NonTerminal::TopLevel => produce_top_level(k),
        NonTerminal::TopLevelSemicolonList => produce_top_level_semicolon_list(k),
        NonTerminal::SemicolonListRest => produce_semicolon_list_rest(k),
        NonTerminal::SemicolonListElements => produce_semicolon_list_elements(k),
        NonTerminal::SemicolonListMore => produce_semicolon_list_more(k),
        NonTerminal::SemicolonListElement => produce_semicolon_list_element(k),
        NonTerminal::SemicolonListLastOpt => produce_semicolon_list_last_opt(k),
        NonTerminal::SemicolonListLast => produce_semicolon_list_last(k),
        NonTerminal::TopLevelCommaList => produce_top_level_comma_list(k),
        NonTerminal::CommaListRest => produce_comma_list_rest(k),
        NonTerminal::CommaListElements => produce_comma_list_elements(k),
        NonTerminal::CommaListMore => produce_comma_list_more(k),
        NonTerminal::CommaListElement => produce_comma_list_element(k),
        NonTerminal::CommaListLastOpt => produce_comma_list_last_opt(k),
        NonTerminal::CommaListLast => produce_comma_list_last(k),
        NonTerminal::Any1 => produce_any1(k),
        NonTerminal::Any1Kind => produce_any1_kind(k),
        NonTerminal::Any1Tail => produce_any1_tail(k),
        NonTerminal::Any2 => produce_any2(k),
        NonTerminal::Any2Kind => produce_any2_kind(k),
        NonTerminal::Any2Last => produce_any2_last(k),
        NonTerminal::Any2LastKind => produce_any2_last_kind(k),
        NonTerminal::Any2Tail => produce_any2_tail(k),
        NonTerminal::Any3 => produce_any3(k),
        NonTerminal::Any3Plain => produce_any3_plain(k),
        NonTerminal::Any3Like => produce_any3_like(k),
        NonTerminal::EitherCourse => produce_either_course(k),
        NonTerminal::Course => produce_course(k),
        NonTerminal::AllCourses => produce_all_courses(k),
        NonTerminal::AllCoursesSharedTopic => produce_all_courses_shared_topic(k),
        NonTerminal::AnyCourses => produce_any_courses(k),
        NonTerminal::AnyCoursesSharedTopic => produce_any_courses_shared_topic(k),
        NonTerminal::AnyCoursesSharedTopicShort => produce_any_courses_shared_topic_short(k),
        NonTerminal::AnyCoursesSharedTopicNoCommas => produce_any_courses_shared_topic_no_commas(k),
        NonTerminal::CoursesSharedTopicHeadLong => produce_courses_shared_topic_head_long(k),
        NonTerminal::CommaSeparatedCourses2 => produce_comma_separated_courses2(k),
        NonTerminal::Elements2Opt => produce_elements2_opt(k),
        NonTerminal::Elements2 => produce_elements2(k),
        NonTerminal::Elements2More => produce_elements2_more(k),
        NonTerminal::Element2 => produce_element2(k),
        NonTerminal::CommaSeparatedCourses3 => produce_comma_separated_courses3(k),
        NonTerminal::Elements3Opt => produce_elements3_opt(k),
        NonTerminal::Elements3 => produce_elements3(k),
        NonTerminal::Elements3More => produce_elements3_more(k),
        NonTerminal::Element3 => produce_element3(k),
        NonTerminal::CoursesSharedTopicHead => produce_courses_shared_topic_head(k),
        NonTerminal::HeadElementsOpt => produce_head_elements_opt(k),
        NonTerminal::HeadElements => produce_head_elements(k),
        NonTerminal::HeadElementsMore => produce_head_elements_more(k),
        NonTerminal::HeadElement => produce_head_element(k),
        NonTerminal::CoursesSharedTopicSlashList => produce_courses_shared_topic_slash_list(k),
        NonTerminal::SlashElements => produce_slash_elements(k),
        NonTerminal::SlashElementsMore => produce_slash_elements_more(k),
        NonTerminal::SlashElement => produce_slash_element(k),
        NonTerminal::CommaOptAnd => produce_comma_opt_and(k),
        NonTerminal::CommaOptOr => produce_comma_opt_or(k),
        NonTerminal::CommaOrSemicolonOpt => produce_comma_or_semicolon_opt(k),
        NonTerminal::CommaOrSemicolon => produce_comma_or_semicolon(k),
        NonTerminal::AndEt => produce_and_et(k),
        NonTerminal::OrOu => produce_or_ou(k),
        NonTerminal::BothOpt => produce_both_opt(k),
        NonTerminal::EitherOpt => produce_either_opt(k),
        NonTerminal::OneOfOpt => produce_one_of_opt(k),
        NonTerminal::OneOf => produce_one_of(k),
        NonTerminal::OrAlternative => produce_or_alternative(k),
        NonTerminal::UnlessAlternative => produce_unless_alternative(k),
    }
}

fn produce_top_level(k: usize) -> (symbols: Vec<Symbol>)
    requires
        k < alternatives(NonTerminal::TopLevel).len(),
    ensures
        symbols@ == alternatives(NonTerminal::TopLevel)[k as int],
{
    let mut symbols: Vec<Symbol> = Vec::new();
    if k == 0 {
        symbols.push(Symbol::Rule(NonTerminal::Any1));
        symbols.push(Symbol::Run(Action::TopLevelAny1));
    } else if k == 1 {
        symbols.push(Symbol::Rule(NonTerminal::TopLevelSemicolonList));
        symbols.push(Symbol::Run(Action::TopLevelTopLevelSemicolonList));
    } else if k == 2 {
        symbols.push(Symbol::Rule(NonTerminal::TopLevelCommaList));
        symbols.push(Symbol::Run(Action::TopLevelTopLevelCommaList));
    } else {
        symbols.push(Symbol::Word(TokenKind::Nothing));
        symbols.push(Symbol::Run(Action::TopLevelNone));
    }
    assert(symbols@ =~= alternatives(NonTerminal::TopLevel)[k as int]);
    symbols
}

fn produce_top_level_semicolon_list(k: usize) -> (symbols: Vec<Symbol>)
    requires
        k < alternatives(NonTerminal::TopLevelSemicolonList).len(),
    ensures
        symbols@ == alternatives(NonTerminal::TopLevelSemicolonList)[k as int],
{
    let mut symbols: Vec<Symbol> = Vec::new();
    symbols.push(Symbol::Rule(NonTerminal::Any1));
    symbols.push(Symbol::Word(TokenKind::Semicolon));
    symbols.push(Symbol::Rule(NonTerminal::SemicolonListRest));
    symbols.push(Symbol::Run(Action::TopLevelSemicolonListC1));
    assert(symbols@ =~= alternatives(NonTerminal::TopLevelSemicolonList)[k as int]);
    symbols
}

fn produce_semicolon_list_rest(k: usize) -> (symbols: Vec<Symbol>)
    requires
        k < alternatives(NonTerminal::SemicolonListRest).len(),
    ensures
        symbols@ == alternatives(NonTerminal::SemicolonListRest)[k as int],
{
    let mut symbols: Vec<Symbol> = Vec::new();
    if k == 0 {
        symbols.push(Symbol::Rule(NonTerminal::SemicolonListElements));
        symbols.push(
            Symbol::Run(Action::TopLevelSemicolonListElement0TopLevelSemicolonListElement1),
        );
        symbols.push(Symbol::Rule(NonTerminal::SemicolonListLastOpt));
    } else {
        symbols.push(Symbol::Run(Action::TopLevelSemicolonListElement0Empty));
        symbols.push(Symbol::Rule(NonTerminal::SemicolonListLast));
        symbols.push(
            Symbol::Run(Action::TopLevelSemicolonListLastElementOptTopLevelSemicolonListLastElement),
        );
    }
    assert(symbols@ =~= alternatives(NonTerminal::SemicolonListRest)[k as int]);
    symbols
}

fn produce_semicolon_list_elements(k: usize) -> (symbols: Vec<Symbol>)
    requires
        k < alternatives(NonTerminal::SemicolonListElements).len(),
    ensures
        symbols@ == alternatives(NonTerminal::SemicolonListElements)[k as int],
{
    let mut symbols: Vec<Symbol> = Vec::new();
    symbols.push(Symbol::Rule(NonTerminal::SemicolonListElement));
    symbols.push(Symbol::Run(Action::TopLevelSemicolonListElement1TopLevelSemicolonListElement));
    symbols.push(Symbol::Rule(NonTerminal::SemicolonListMore));
    assert(symbols@ =~= alternatives(NonTerminal::SemicolonListElements)[k as int]);
    symbols
}

fn produce_semicolon_list_more(k: usize) -> (symbols: Vec<Symbol>)
    requires
        k < alternatives(NonTerminal::SemicolonListMore).len(),
    ensures
        symbols@ == alternatives(NonTerminal::SemicolonListMore)[k as int],
{
    let mut symbols: Vec<Symbol> = Vec::new();
    if k == 0 {
        symbols.push(Symbol::Word(TokenKind::Semicolon));
        symbols.push(Symbol::Rule(NonTerminal::SemicolonListElement));
        symbols.push(Symbol::Run(Action::TopLevelSemicolonListElement1C1));
        symbols.push(Symbol::Rule(NonTerminal::SemicolonListMore));
    } else {
    }
    assert(symbols@ =~= alternatives(NonTerminal::SemicolonListMore)[k as int]);
    symbols
}

fn produce_semicolon_list_element(k: usize) -> (symbols: Vec<Symbol>)
    requires
        k < alternatives(NonTerminal::SemicolonListElement).len(),
    ensures
        symbols@ == alternatives(NonTerminal::SemicolonListElement)[k as int],
{
    let mut symbols: Vec<Symbol> = Vec::new();
    symbols.push(Symbol::Rule(NonTerminal::Any1));
    symbols.push(Symbol::Run(Action::TopLevelSemicolonListElementAny1));
    assert(symbols@ =~= alternatives(NonTerminal::SemicolonListElement)[k as int]);
    symbols
}

fn produce_semicolon_list_last_opt(k: usize) -> (symbols: Vec<Symbol>)
    requires
        k < alternatives(NonTerminal::SemicolonListLastOpt).len(),
    ensures
        symbols@ == alternatives(NonTerminal::SemicolonListLastOpt)[k as int],
{
    let mut symbols: Vec<Symbol> = Vec::new();
    if k == 0 {
        symbols.push(Symbol::Rule(NonTerminal::SemicolonListLast));
        symbols.push(
            Symbol::Run(Action::TopLevelSemicolonListLastElementOptTopLevelSemicolonListLastElement),
        );
    } else {
        symbols.push(Symbol::Run(Action::TopLevelSemicolonListLastElementOptEmpty));
    }
    assert(symbols@ =~= alternatives(NonTerminal::SemicolonListLastOpt)[k as int]);
    symbols
}

fn produce_semicolon_list_last(k: usize) -> (symbols: Vec<Symbol>)
    requires
        k < alternatives(NonTerminal::SemicolonListLast).len(),
    ensures
        symbols@ == alternatives(NonTerminal::SemicolonListLast)[k as int],
{
    let mut symbols: Vec<Symbol> = Vec::new();
    symbols.push(Symbol::Rule(NonTerminal::CommaOptAnd));
    symbols.push(Symbol::Rule(NonTerminal::Any1));
    symbols.push(Symbol::Run(Action::TopLevelSemicolonListLastElementC1));
    assert(symbols@ =~= alternatives(NonTerminal::SemicolonListLast)[k as int]);
    symbols
}

fn produce_top_level_comma_list(k: usize) -> (symbols: Vec<Symbol>)
    requires
        k < alternatives(NonTerminal::TopLevelCommaList).len(),
    ensures
        symbols@ == alternatives(NonTerminal::TopLevelCommaList)[k as int],
{
    let mut symbols: Vec<Symbol> = Vec::new();
    symbols.push(Symbol::Rule(NonTerminal::Any1));
    symbols.push(Symbol::Word(TokenKind::Comma));
    symbols.push(Symbol::Rule(NonTerminal::CommaListRest));
    symbols.push(Symbol::Run(Action::TopLevelCommaListC1));
    assert(symbols@ =~= alternatives(NonTerminal::TopLevelCommaList)[k as int]);
    symbols
}

fn produce_comma_list_rest(k: usize) -> (symbols: Vec<Symbol>)
    requires
        k < alternatives(NonTerminal::CommaListRest).len(),
    ensures
        symbols@ == alternatives(NonTerminal::CommaListRest)[k as int],
{
    let mut symbols: Vec<Symbol> = Vec::new();
    if k == 0 {
        symbols.push(Symbol::Rule(NonTerminal::CommaListElements));
        symbols.push(Symbol::Run(Action::TopLevelCommaListElement0TopLevelCommaListElement1));
        symbols.push(Symbol::Rule(NonTerminal::CommaListLastOpt));
    } else {
        symbols.push(Symbol::Run(Action::TopLevelCommaListElement0Empty));
        symbols.push(Symbol::Rule(NonTerminal::CommaListLast));
        symbols.push(
            Symbol::Run(Action::TopLevelCommaListLastElementOptTopLevelCommaListLastElement),
        );
    }
    assert(symbols@ =~= alternatives(NonTerminal::CommaListRest)[k as int]);
    symbols
}

fn produce_comma_list_elements(k: usize) -> (symbols: Vec<Symbol>)
    requires
        k < alternatives(NonTerminal::CommaListElements).len(),
    ensures
        symbols@ == alternatives(NonTerminal::CommaListElements)[k as int],
{
    let mut symbols: Vec<Symbol> = Vec::new();
    symbols.push(Symbol::Rule(NonTerminal::CommaListElement));
    symbols.push(Symbol::Run(Action::TopLevelCommaListElement1TopLevelCommaListElement));
    symbols.push(Symbol::Rule(NonTerminal::CommaListMore));
    assert(symbols@ =~= alternatives(NonTerminal::CommaListElements)[k as int]);
    symbols
}

fn produce_comma_list_more(k: usize) -> (symbols: Vec<Symbol>)
    requires
        k < alternatives(NonTerminal::CommaListMore).len(),
    ensures
        symbols@ == alternatives(NonTerminal::CommaListMore)[k as int],
{
    let mut symbols: Vec<Symbol> = Vec::new();
    if k == 0 {
        symbols.push(Symbol::Word(TokenKind::Comma));
        symbols.push(Symbol::Rule(NonTerminal::CommaListElement));
        symbols.push(Symbol::Run(Action::TopLevelCommaListElement1C1));
        symbols.push(Symbol::Rule(NonTerminal::CommaListMore));
    } else {
    }
    assert(symbols@ =~= alternatives(NonTerminal::CommaListMore)[k as int]);
    symbols
}

fn produce_comma_list_element(k: usize) -> (symbols: Vec<Symbol>)
    requires
        k < alternatives(NonTerminal::CommaListElement).len(),
    ensures
        symbols@ == alternatives(NonTerminal::CommaListElement)[k as int],
{
    let mut symbols: Vec<Symbol> = Vec::new();
    symbols.push(Symbol::Rule(NonTerminal::Any1));
    symbols.push(Symbol::Run(Action::TopLevelCommaListElementAny1));
    assert(symbols@ =~= alternatives(NonTerminal::CommaListElement)[k as int]);
    symbols
}

fn produce_comma_list_last_opt(k: usize) -> (symbols: Vec<Symbol>)
    requires
        k < alternatives(NonTerminal::CommaListLastOpt).len(),
    ensures
        symbols@ == alternatives(NonTerminal::CommaListLastOpt)[k as int],
{
    let mut symbols: Vec<Symbol> = Vec::new();
    if k == 0 {
        symbols.push(Symbol::Rule(NonTerminal::CommaListLast));
        symbols.push(
            Symbol::Run(Action::TopLevelCommaListLastElementOptTopLevelCommaListLastElement),
        );
    } else {
        symbols.push(Symbol::Run(Action::TopLevelCommaListLastElementOptEmpty));
    }
    assert(symbols@ =~= alternatives(NonTerminal::CommaListLastOpt)[k as int]);
    symbols
}

fn produce_comma_list_last(k: usize) -> (symbols: Vec<Symbol>)
    requires
        k < alternatives(NonTerminal::CommaListLast).len(),
    ensures
        symbols@ == alternatives(NonTerminal::CommaListLast)[k as int],
{
    let mut symbols: Vec<Symbol> = Vec::new();
    symbols.push(Symbol::Rule(NonTerminal::CommaOptAnd));
    symbols.push(Symbol::Rule(NonTerminal::Any1));
    symbols.push(Symbol::Run(Action::TopLevelCommaListLastElementC1));
    assert(symbols@ =~= alternatives(NonTerminal::CommaListLast)[k as int]);
    symbols
}

fn produce_any1(k: usize) -> (symbols: Vec<Symbol>)
    requires
        k < alternatives(NonTerminal::Any1).len(),
    ensures
        symbols@ == alternatives(NonTerminal::Any1)[k as int],
{
    let mut symbols: Vec<Symbol> = Vec::new();
    symbols.push(Symbol::Rule(NonTerminal::Any1Kind));
    symbols.push(Symbol::Rule(NonTerminal::Any1Tail));
    assert(symbols@ =~= alternatives(NonTerminal::Any1)[k as int]);
    symbols
}

fn produce_any1_kind(k: usize) -> (symbols: Vec<Symbol>)
    requires
        k < alternatives(NonTerminal::Any1Kind).len(),
    ensures
        symbols@ == alternatives(NonTerminal::Any1Kind)[k as int],
{
    let mut symbols: Vec<Symbol> = Vec::new();
    if k == 0 {
        symbols.push(Symbol::Rule(NonTerminal::Any2));
        symbols.push(Symbol::Run(Action::Any1Any2));
    } else if k == 1 {
        symbols.push(Symbol::Rule(NonTerminal::AllCoursesSharedTopic));
        symbols.push(Symbol::Run(Action::Any1AllCoursesSharedTopic));
    } else {
        symbols.push(Symbol::Rule(NonTerminal::AllCourses));
        symbols.push(Symbol::Run(Action::Any1AllCourses));
    }
    assert(symbols@ =~= alternatives(NonTerminal::Any1Kind)[k as int]);
    symbols
}

fn produce_any1_tail(k: usize) -> (symbols: Vec<Symbol>)
    requires
        k < alternatives(NonTerminal::Any1Tail).len(),
    ensures
        symbols@ == alternatives(NonTerminal::Any1Tail)[k as int],
{
    let mut symbols: Vec<Symbol> = Vec::new();
    if k == 0 {
        symbols.push(Symbol::Rule(NonTerminal::OrAlternative));
        symbols.push(Symbol::Run(Action::Any1C3));
    } else if k == 1 {
        symbols.push(Symbol::Rule(NonTerminal::UnlessAlternative));
        symbols.push(Symbol::Run(Action::Any1C4));
    } else {
    }
    assert(symbols@ =~= alternatives(NonTerminal::Any1Tail)[k as int]);
    symbols
}

fn produce_any2(k: usize) -> (symbols: Vec<Symbol>)
    requires
        k < alternatives(NonTerminal::Any2).len(),
    ensures
        symbols@ == alternatives(NonTerminal::Any2)[k as int],
{
    let mut symbols: Vec<Symbol> = Vec::new();
    symbols.push(Symbol::Rule(NonTerminal::Any2Kind));
    symbols.push(Symbol::Rule(NonTerminal::Any2Tail));
    assert(symbols@ =~= alternatives(NonTerminal::Any2)[k as int]);
    symbols
}

fn produce_any2_kind(k: usize) -> (symbols: Vec<Symbol>)
    requires
        k < alternatives(NonTerminal::Any2Kind).len(),
    ensures
        symbols@ == alternatives(NonTerminal::Any2Kind)[k as int],
{
    let mut symbols: Vec<Symbol> = Vec::new();
    if k == 0 {
        symbols.push(Symbol::Rule(NonTerminal::AnyCoursesSharedTopic));
        symbols.push(Symbol::Run(Action::Any2AnyCoursesSharedTopic));
    } else if k == 1 {
        symbols.push(Symbol::Rule(NonTerminal::AnyCourses));
        symbols.push(Symbol::Run(Action::Any2AnyCourses));
    } else if k == 2 {
        symbols.push(Symbol::Rule(NonTerminal::AnyCoursesSharedTopicShort));
        symbols.push(Symbol::Run(Action::Any2AnyCoursesSharedTopic));
    } else {
        symbols.push(Symbol::Rule(NonTerminal::Any3));
        symbols.push(Symbol::Run(Action::Any2Any3));
    }
    assert(symbols@ =~= alternatives(NonTerminal::Any2Kind)[k as int]);
    symbols
}

fn produce_any2_last(k: usize) -> (symbols: Vec<Symbol>)
    requires
        k < alternatives(NonTerminal::Any2Last).len(),
    ensures
        symbols@ == alternatives(NonTerminal::Any2Last)[k as int],
{
    let mut symbols: Vec<Symbol> = Vec::new();
    symbols.push(Symbol::Rule(NonTerminal::Any2LastKind));
    symbols.push(Symbol::Rule(NonTerminal::Any2Tail));
    assert(symbols@ =~= alternatives(NonTerminal::Any2Last)[k as int]);
    symbols
}

fn produce_any2_last_kind(k: usize) -> (symbols: Vec<Symbol>)
    requires
        k < alternatives(NonTerminal::Any2LastKind).len(),
    ensures
        symbols@ == alternatives(NonTerminal::Any2LastKind)[k as int],
{
    let mut symbols: Vec<Symbol> = Vec::new();
    if k == 0 {
        symbols.push(Symbol::Rule(NonTerminal::AnyCoursesSharedTopic));
        symbols.push(Symbol::Run(Action::Any2AnyCoursesSharedTopic));
    } else if k == 1 {
        symbols.push(Symbol::Rule(NonTerminal::AnyCoursesSharedTopicShort));
        symbols.push(Symbol::Run(Action::Any2AnyCoursesSharedTopic));
    } else if k == 2 {
        symbols.push(Symbol::Rule(NonTerminal::AnyCourses));
        symbols.push(Symbol::Run(Action::Any2AnyCourses));
    } else {
        symbols.push(Symbol::Rule(NonTerminal::Any3));
        symbols.push(Symbol::Run(Action::Any2Any3));
    }
    assert(symbols@ =~= alternatives(NonTerminal::Any2LastKind)[k as int]);
    symbols
}

fn produce_any2_tail(k: usize) -> (symbols: Vec<Symbol>)
    requires
        k < alternatives(NonTerminal::Any2Tail).len(),
    ensures
        symbols@ == alternatives(NonTerminal::Any2Tail)[k as int],
{
    let mut symbols: Vec<Symbol> = Vec::new();
    if k == 0 {
        symbols.push(Symbol::Rule(NonTerminal::OrAlternative));
        symbols.push(Symbol::Run(Action::Any2C3));
    } else if k == 1 {
        symbols.push(Symbol::Rule(NonTerminal::UnlessAlternative));
        symbols.push(Symbol::Run(Action::Any2C4));
    } else {
    }
    assert(symbols@ =~= alternatives(NonTerminal::Any2Tail)[k as int]);
    symbols
}

fn produce_any3(k: usize) -> (symbols: Vec<Symbol>)
    requires
        k < alternatives(NonTerminal::Any3).len(),
    ensures
        symbols@ == alternatives(NonTerminal::Any3)[k as int],
{
    let mut symbols: Vec<Symbol> = Vec::new();
    if k == 0 {
        symbols.push(Symbol::Rule(NonTerminal::EitherCourse));
        symbols.push(Symbol::Run(Action::Any3EitherCourse));
    } else {
        symbols.push(Symbol::Rule(NonTerminal::Any3Plain));
    }
    assert(symbols@ =~= alternatives(NonTerminal::Any3)[k as int]);
    symbols
}

fn produce_any3_plain(k: usize) -> (symbols: Vec<Symbol>)
    requires
        k < alternatives(NonTerminal::Any3Plain).len(),
    ensures
        symbols@ == alternatives(NonTerminal::Any3Plain)[k as int],
{
    let mut symbols: Vec<Symbol> = Vec::new();
    if k == 0 {
        symbols.push(Symbol::Rule(NonTerminal::Course));
        symbols.push(Symbol::Run(Action::Any3Course));
    } else if k == 1 {
        symbols.push(Symbol::Rule(NonTerminal::CoursesSharedTopicSlashList));
        symbols.push(Symbol::Run(Action::Any3CoursesSharedTopicSlashList));
    } else if k == 2 {
        symbols.push(Symbol::Rule(NonTerminal::AnyCoursesSharedTopicNoCommas));
        symbols.push(Symbol::Run(Action::Any3AnyCoursesSharedTopicNoCommas));
    } else if k == 3 {
        symbols.push(Symbol::Word(TokenKind::Alternative));
        symbols.push(Symbol::Run(Action::Any3Alternative));
    } else {
        symbols.push(Symbol::Word(TokenKind::MinimumGrade));
        symbols.push(Symbol::Rule(NonTerminal::Any2));
        symbols.push(Symbol::Run(Action::Any3C6));
    }
    assert(symbols@ =~= alternatives(NonTerminal::Any3Plain)[k as int]);
    symbols
}

fn produce_any3_like(k: usize) -> (symbols: Vec<Symbol>)
    requires
        k < alternatives(NonTerminal::Any3Like).len(),
    ensures
        symbols@ == alternatives(NonTerminal::Any3Like)[k as int],
{
    let mut symbols: Vec<Symbol> = Vec::new();
    if k == 0 {
        symbols.push(Symbol::Rule(NonTerminal::Any3));
        symbols.push(Symbol::Run(Action::Any3likeAny3));
    } else if k == 1 {
        symbols.push(Symbol::Word(TokenKind::Equivalent));
        symbols.push(Symbol::Run(Action::Any3likeEnOrAlternativeOption));
    } else {
        symbols.push(Symbol::Word(TokenKind::Alternative));
        symbols.push(Symbol::Run(Action::Any3likeEnOrAlternativeOption));
    }
    assert(symbols@ =~= alternatives(NonTerminal::Any3Like)[k as int]);
    symbols
}

fn produce_either_course(k: usize) -> (symbols: Vec<Symbol>)
    requires
        k < alternatives(NonTerminal::EitherCourse).len(),
    ensures
        symbols@ == alternatives(NonTerminal::EitherCourse)[k as int],
{
    let mut symbols: Vec<Symbol> = Vec::new();
    symbols.push(Symbol::Rule(NonTerminal::EitherOpt));
    symbols.push(Symbol::Rule(NonTerminal::Any3Plain));
    symbols.push(Symbol::Rule(NonTerminal::OrOu));
    symbols.push(Symbol::Rule(NonTerminal::Any3));
    symbols.push(Symbol::Run(Action::EitherCourseC1));
    assert(symbols@ =~= alternatives(NonTerminal::EitherCourse)[k as int]);
    symbols
}

fn produce_course(k: usize) -> (symbols: Vec<Symbol>)
    requires
        k < alternatives(NonTerminal::Course).len(),
    ensures
        symbols@ == alternatives(NonTerminal::Course)[k as int],
{
    let mut symbols: Vec<Symbol> = Vec::new();
    symbols.push(Symbol::Word(TokenKind::Topic));
    symbols.push(Symbol::Word(TokenKind::Number));
    symbols.push(Symbol::Run(Action::CourseC1));
    assert(symbols@ =~= alternatives(NonTerminal::Course)[k as int]);
    symbols
}

fn produce_all_courses(k: usize) -> (symbols: Vec<Symbol>)
    requires
        k < alternatives(NonTerminal::AllCourses).len(),
    ensures
        symbols@ == alternatives(NonTerminal::AllCourses)[k as int],
{
    let mut symbols: Vec<Symbol> = Vec::new();
    symbols.push(Symbol::Rule(NonTerminal::BothOpt));
    symbols.push(Symbol::Rule(NonTerminal::CommaSeparatedCourses2));
    symbols.push(Symbol::Rule(NonTerminal::CommaOptAnd));
    symbols.push(Symbol::Rule(NonTerminal::Any2Last));
    symbols.push(Symbol::Run(Action::AllCoursesC1));
    assert(symbols@ =~= alternatives(NonTerminal::AllCourses)[k as int]);
    symbols
}

fn produce_all_courses_shared_topic(k: usize) -> (symbols: Vec<Symbol>)
    requires
        k < alternatives(NonTerminal::AllCoursesSharedTopic).len(),
    ensures
        symbols@ == alternatives(NonTerminal::AllCoursesSharedTopic)[k as int],
{
    let mut symbols: Vec<Symbol> = Vec::new();
    symbols.push(Symbol::Rule(NonTerminal::BothOpt));
    symbols.push(Symbol::Rule(NonTerminal::CoursesSharedTopicHead));
    symbols.push(Symbol::Rule(NonTerminal::CommaOptAnd));
    symbols.push(Symbol::Word(TokenKind::Number));
    symbols.push(Symbol::Run(Action::AllCoursesSharedTopicC1));
    assert(symbols@ =~= alternatives(NonTerminal::AllCoursesSharedTopic)[k as int]);
    symbols
}

fn produce_any_courses(k: usize) -> (symbols: Vec<Symbol>)
    requires
        k < alternatives(NonTerminal::AnyCourses).len(),
    ensures
        symbols@ == alternatives(NonTerminal::AnyCourses)[k as int],
{
    let mut symbols: Vec<Symbol> = Vec::new();
    symbols.push(Symbol::Rule(NonTerminal::OneOfOpt));
    symbols.push(Symbol::Rule(NonTerminal::CommaSeparatedCourses3));
    symbols.push(Symbol::Rule(NonTerminal::CommaOptOr));
    symbols.push(Symbol::Rule(NonTerminal::Any3Like));
    symbols.push(Symbol::Run(Action::AnyCoursesC1));
    assert(symbols@ =~= alternatives(NonTerminal::AnyCourses)[k as int]);
    symbols
}

fn produce_any_courses_shared_topic(k: usize) -> (symbols: Vec<Symbol>)
    requires
        k < alternatives(NonTerminal::AnyCoursesSharedTopic).len(),
    ensures
        symbols@ == alternatives(NonTerminal::AnyCoursesSharedTopic)[k as int],
{
    let mut symbols: Vec<Symbol> = Vec::new();
    if k == 0 {
        symbols.push(Symbol::Rule(NonTerminal::OneOfOpt));
        symbols.push(Symbol::Rule(NonTerminal::CoursesSharedTopicHead));
        symbols.push(Symbol::Rule(NonTerminal::CommaOptOr));
        symbols.push(Symbol::Word(TokenKind::Number));
        symbols.push(Symbol::Run(Action::AnyCoursesSharedTopicC1));
    } else {
        symbols.push(Symbol::Rule(NonTerminal::OneOfOpt));
        symbols.push(Symbol::Rule(NonTerminal::CoursesSharedTopicHead));
        symbols.push(Symbol::Rule(NonTerminal::CommaOptOr));
        symbols.push(Symbol::Word(TokenKind::Alternative));
        symbols.push(Symbol::Run(Action::AnyCoursesSharedTopicC3));
    }
    assert(symbols@ =~= alternatives(NonTerminal::AnyCoursesSharedTopic)[k as int]);
    symbols
}

fn produce_any_courses_shared_topic_short(k: usize) -> (symbols: Vec<Symbol>)
    requires
        k < alternatives(NonTerminal::AnyCoursesSharedTopicShort).len(),
    ensures
        symbols@ == alternatives(NonTerminal::AnyCoursesSharedTopicShort)[k as int],
{
    let mut symbols: Vec<Symbol> = Vec::new();
    symbols.push(Symbol::Rule(NonTerminal::OneOf));
    symbols.push(Symbol::Rule(NonTerminal::CoursesSharedTopicHead));
    symbols.push(Symbol::Run(Action::AnyCoursesSharedTopicC2));
    assert(symbols@ =~= alternatives(NonTerminal::AnyCoursesSharedTopicShort)[k as int]);
    symbols
}

fn produce_any_courses_shared_topic_no_commas(k: usize) -> (symbols: Vec<Symbol>)
    requires
        k < alternatives(NonTerminal::AnyCoursesSharedTopicNoCommas).len(),
    ensures
        symbols@ == alternatives(NonTerminal::AnyCoursesSharedTopicNoCommas)[k as int],
{
    let mut symbols: Vec<Symbol> = Vec::new();
    if k == 0 {
        symbols.push(Symbol::Rule(NonTerminal::OneOf));
        symbols.push(Symbol::Run(Action::OneOfOptOneOf));
        symbols.push(Symbol::Rule(NonTerminal::CoursesSharedTopicHead));
        symbols.push(Symbol::Run(Action::AnyCoursesSharedTopicNoCommasC1));
    } else {
        symbols.push(Symbol::Run(Action::OneOfOptEmpty));
        symbols.push(Symbol::Rule(NonTerminal::CoursesSharedTopicHeadLong));
        symbols.push(Symbol::Run(Action::AnyCoursesSharedTopicNoCommasC1));
    }
    assert(symbols@ =~= alternatives(NonTerminal::AnyCoursesSharedTopicNoCommas)[k as int]);
    symbols
}

fn produce_courses_shared_topic_head_long(k: usize) -> (symbols: Vec<Symbol>)
    requires
        k < alternatives(NonTerminal::CoursesSharedTopicHeadLong).len(),
    ensures
        symbols@ == alternatives(NonTerminal::CoursesSharedTopicHeadLong)[k as int],
{
    let mut symbols: Vec<Symbol> = Vec::new();
    symbols.push(Symbol::Word(TokenKind::Topic));
    symbols.push(Symbol::Word(TokenKind::Number));
    symbols.push(Symbol::Rule(NonTerminal::HeadElements));
    symbols.push(Symbol::Run(Action::CoursesSharedTopicHeadElement0CoursesSharedTopicHeadElement1));
    symbols.push(Symbol::Run(Action::CoursesSharedTopicHeadC1));
    assert(symbols@ =~= alternatives(NonTerminal::CoursesSharedTopicHeadLong)[k as int]);
    symbols
}

fn produce_comma_separated_courses2(k: usize) -> (symbols: Vec<Symbol>)
    requires
        k < alternatives(NonTerminal::CommaSeparatedCourses2).len(),
    ensures
        symbols@ == alternatives(NonTerminal::CommaSeparatedCourses2)[k as int],
{
    let mut symbols: Vec<Symbol> = Vec::new();
    symbols.push(Symbol::Rule(NonTerminal::Any2));
    symbols.push(Symbol::Rule(NonTerminal::Elements2Opt));
    symbols.push(Symbol::Run(Action::CommaSeparatedCourses2C1));
    assert(symbols@ =~= alternatives(NonTerminal::CommaSeparatedCourses2)[k as int]);
    symbols
}

fn produce_elements2_opt(k: usize) -> (symbols: Vec<Symbol>)
    requires
        k < alternatives(NonTerminal::Elements2Opt).len(),
    ensures
        symbols@ == alternatives(NonTerminal::Elements2Opt)[k as int],
{
    let mut symbols: Vec<Symbol> = Vec::new();
    if k == 0 {
        symbols.push(Symbol::Rule(NonTerminal::Elements2));
        symbols.push(
            Symbol::Run(Action::CommaSeparatedCoursesElement20CommaSeparatedCoursesElement21),
        );
    } else {
        symbols.push(Symbol::Run(Action::CommaSeparatedCoursesElement20Empty));
    }
    assert(symbols@ =~= alternatives(NonTerminal::Elements2Opt)[k as int]);
    symbols
}

fn produce_elements2(k: usize) -> (symbols: Vec<Symbol>)
    requires
        k < alternatives(NonTerminal::Elements2).len(),
    ensures
        symbols@ == alternatives(NonTerminal::Elements2)[k as int],
{
    let mut symbols: Vec<Symbol> = Vec::new();
    symbols.push(Symbol::Rule(NonTerminal::Element2));
    symbols.push(Symbol::Run(Action::CommaSeparatedCoursesElement21CommaSeparatedCoursesElement2));
    symbols.push(Symbol::Rule(NonTerminal::Elements2More));
    assert(symbols@ =~= alternatives(NonTerminal::Elements2)[k as int]);
    symbols
}

fn produce_elements2_more(k: usize) -> (symbols: Vec<Symbol>)
    requires
        k < alternatives(NonTerminal::Elements2More).len(),
    ensures
        symbols@ == alternatives(NonTerminal::Elements2More)[k as int],
{
    let mut symbols: Vec<Symbol> = Vec::new();
    if k == 0 {
        symbols.push(Symbol::Rule(NonTerminal::Element2));
        symbols.push(Symbol::Run(Action::CommaSeparatedCoursesElement21C1));
        symbols.push(Symbol::Rule(NonTerminal::Elements2More));
    } else {
    }
    assert(symbols@ =~= alternatives(NonTerminal::Elements2More)[k as int]);
    symbols
}

fn produce_element2(k: usize) -> (symbols: Vec<Symbol>)
    requires
        k < alternatives(NonTerminal::Element2).len(),
    ensures
        symbols@ == alternatives(NonTerminal::Element2)[k as int],
{
    let mut symbols: Vec<Symbol> = Vec::new();
    symbols.push(Symbol::Rule(NonTerminal::CommaOrSemicolon));
    symbols.push(Symbol::Rule(NonTerminal::Any2));
    symbols.push(Symbol::Run(Action::CommaSeparatedCoursesElement2C1));
    assert(symbols@ =~= alternatives(NonTerminal::Element2)[k as int]);
    symbols
}

fn produce_comma_separated_courses3(k: usize) -> (symbols: Vec<Symbol>)
    requires
        k < alternatives(NonTerminal::CommaSeparatedCourses3).len(),
    ensures
        symbols@ == alternatives(NonTerminal::CommaSeparatedCourses3)[k as int],
{
    let mut symbols: Vec<Symbol> = Vec::new();
    symbols.push(Symbol::Rule(NonTerminal::Any3));
    symbols.push(Symbol::Rule(NonTerminal::Elements3Opt));
    symbols.push(Symbol::Run(Action::CommaSeparatedCourses3C1));
    assert(symbols@ =~= alternatives(NonTerminal::CommaSeparatedCourses3)[k as int]);
    symbols
}

fn produce_elements3_opt(k: usize) -> (symbols: Vec<Symbol>)
    requires
        k < alternatives(NonTerminal::Elements3Opt).len(),
    ensures
        symbols@ == alternatives(NonTerminal::Elements3Opt)[k as int],
{
    let mut symbols: Vec<Symbol> = Vec::new();
    if k == 0 {
        symbols.push(Symbol::Rule(NonTerminal::Elements3));
        symbols.push(
            Symbol::Run(Action::CommaSeparatedCoursesElement30CommaSeparatedCoursesElement31),
        );
    } else {
        symbols.push(Symbol::Run(Action::CommaSeparatedCoursesElement30Empty));
    }
    assert(symbols@ =~= alternatives(NonTerminal::Elements3Opt)[k as int]);
    symbols
}

fn produce_elements3(k: usize) -> (symbols: Vec<Symbol>)
    requires
        k < alternatives(NonTerminal::Elements3).len(),
    ensures
        symbols@ == alternatives(NonTerminal::Elements3)[k as int],
{
    let mut symbols: Vec<Symbol> = Vec::new();
    symbols.push(Symbol::Rule(NonTerminal::Element3));
    symbols.push(Symbol::Run(Action::CommaSeparatedCoursesElement31CommaSeparatedCoursesElement3));
    symbols.push(Symbol::Rule(NonTerminal::Elements3More));
    assert(symbols@ =~= alternatives(NonTerminal::Elements3)[k as int]);
    symbols
}

fn produce_elements3_more(k: usize) -> (symbols: Vec<Symbol>)
    requires
        k < alternatives(NonTerminal::Elements3More).len(),
    ensures
        symbols@ == alternatives(NonTerminal::Elements3More)[k as int],
{
    let mut symbols: Vec<Symbol> = Vec::new();
    if k == 0 {
        symbols.push(Symbol::Rule(NonTerminal::Element3));
        symbols.push(Symbol::Run(Action::CommaSeparatedCoursesElement31C1));
        symbols.push(Symbol::Rule(NonTerminal::Elements3More));
    } else {
    }
    assert(symbols@ =~= alternatives(NonTerminal::Elements3More)[k as int]);
    symbols
}

fn produce_element3(k: usize) -> (symbols: Vec<Symbol>)
    requires
        k < alternatives(NonTerminal::Element3).len(),
    ensures
        symbols@ == alternatives(NonTerminal::Element3)[k as int],
{
    let mut symbols: Vec<Symbol> = Vec::new();
    symbols.push(Symbol::Rule(NonTerminal::CommaOrSemicolon));
    symbols.push(Symbol::Rule(NonTerminal::Any3));
    symbols.push(Symbol::Run(Action::CommaSeparatedCoursesElement3C1));
    assert(symbols@ =~= alternatives(NonTerminal::Element3)[k as int]);
    symbols
}

fn produce_courses_shared_topic_head(k: usize) -> (symbols: Vec<Symbol>)
    requires
        k < alternatives(NonTerminal::CoursesSharedTopicHead).len(),
    ensures
        symbols@ == alternatives(NonTerminal::CoursesSharedTopicHead)[k as int],
{
    let mut symbols: Vec<Symbol> = Vec::new();
    symbols.push(Symbol::Word(TokenKind::Topic));
    symbols.push(Symbol::Word(TokenKind::Number));
    symbols.push(Symbol::Rule(NonTerminal::HeadElementsOpt));
    symbols.push(Symbol::Run(Action::CoursesSharedTopicHeadC1));
    assert(symbols@ =~= alternatives(NonTerminal::CoursesSharedTopicHead)[k as int]);
    symbols
}

fn produce_head_elements_opt(k: usize) -> (symbols: Vec<Symbol>)
    requires
        k < alternatives(NonTerminal::HeadElementsOpt).len(),
    ensures
        symbols@ == alternatives(NonTerminal::HeadElementsOpt)[k as int],
{
    let mut symbols: Vec<Symbol> = Vec::new();
    if k == 0 {
        symbols.push(Symbol::Rule(NonTerminal::HeadElements));
        symbols.push(
            Symbol::Run(Action::CoursesSharedTopicHeadElement0CoursesSharedTopicHeadElement1),
        );
    } else {
        symbols.push(Symbol::Run(Action::CoursesSharedTopicHeadElement0Empty));
    }
    assert(symbols@ =~= alternatives(NonTerminal::HeadElementsOpt)[k as int]);
    symbols
}

fn produce_head_elements(k: usize) -> (symbols: Vec<Symbol>)
    requires
        k < alternatives(NonTerminal::HeadElements).len(),
    ensures
        symbols@ == alternatives(NonTerminal::HeadElements)[k as int],
{
    let mut symbols: Vec<Symbol> = Vec::new();
    symbols.push(Symbol::Rule(NonTerminal::HeadElement));
    symbols.push(Symbol::Run(Action::CoursesSharedTopicHeadElement1CoursesSharedTopicHeadElement));
    symbols.push(Symbol::Rule(NonTerminal::HeadElementsMore));
    assert(symbols@ =~= alternatives(NonTerminal::HeadElements)[k as int]);
    symbols
}

fn produce_head_elements_more(k: usize) -> (symbols: Vec<Symbol>)
    requires
        k < alternatives(NonTerminal::HeadElementsMore).len(),
    ensures
        symbols@ == alternatives(NonTerminal::HeadElementsMore)[k as int],
{
    let mut symbols: Vec<Symbol> = Vec::new();
    if k == 0 {
        symbols.push(Symbol::Rule(NonTerminal::HeadElement));
        symbols.push(Symbol::Run(Action::CoursesSharedTopicHeadElement1C1));
        symbols.push(Symbol::Rule(NonTerminal::HeadElementsMore));
    } else {
    }
    assert(symbols@ =~= alternatives(NonTerminal::HeadElementsMore)[k as int]);
    symbols
}

fn produce_head_element(k: usize) -> (symbols: Vec<Symbol>)
    requires
        k < alternatives(NonTerminal::HeadElement).len(),
    ensures
        symbols@ == alternatives(NonTerminal::HeadElement)[k as int],
{
    let mut symbols: Vec<Symbol> = Vec::new();
    symbols.push(Symbol::Rule(NonTerminal::CommaOrSemicolon));
    symbols.push(Symbol::Word(TokenKind::Number));
    symbols.push(Symbol::Run(Action::CoursesSharedTopicHeadElementC1));
    assert(symbols@ =~= alternatives(NonTerminal::HeadElement)[k as int]);
    symbols
}

fn produce_courses_shared_topic_slash_list(k: usize) -> (symbols: Vec<Symbol>)
    requires
        k < alternatives(NonTerminal::CoursesSharedTopicSlashList).len(),
    ensures
        symbols@ == alternatives(NonTerminal::CoursesSharedTopicSlashList)[k as int],
{
    let mut symbols: Vec<Symbol> = Vec::new();
    symbols.push(Symbol::Word(TokenKind::Topic));
    symbols.push(Symbol::Word(TokenKind::Number));
    symbols.push(Symbol::Rule(NonTerminal::SlashElements));
    symbols.push(Symbol::Run(Action::CoursesSharedTopicSlashListC1));
    assert(symbols@ =~= alternatives(NonTerminal::CoursesSharedTopicSlashList)[k as int]);
    symbols
}

fn produce_slash_elements(k: usize) -> (symbols: Vec<Symbol>)
    requires
        k < alternatives(NonTerminal::SlashElements).len(),
    ensures
        symbols@ == alternatives(NonTerminal::SlashElements)[k as int],
{
    let mut symbols: Vec<Symbol> = Vec::new();
    symbols.push(Symbol::Rule(NonTerminal::SlashElement));
    symbols.push(
        Symbol::Run(Action::CoursesSharedTopicSlashListElement1CoursesSharedTopicSlashListElement),
    );
    symbols.push(Symbol::Rule(NonTerminal::SlashElementsMore));
    assert(symbols@ =~= alternatives(NonTerminal::SlashElements)[k as int]);
    symbols
}

fn produce_slash_elements_more(k: usize) -> (symbols: Vec<Symbol>)
    requires
        k < alternatives(NonTerminal::SlashElementsMore).len(),
    ensures
        symbols@ == alternatives(NonTerminal::SlashElementsMore)[k as int],
{
    let mut symbols: Vec<Symbol> = Vec::new();
    if k == 0 {
        symbols.push(Symbol::Rule(NonTerminal::SlashElement));
        symbols.push(Symbol::Run(Action::CoursesSharedTopicSlashListElement1C1));
        symbols.push(Symbol::Rule(NonTerminal::SlashElementsMore));
    } else {
    }
    assert(symbols@ =~= alternatives(NonTerminal::SlashElementsMore)[k as int]);
    symbols
}

fn produce_slash_element(k: usize) -> (symbols: Vec<Symbol>)
    requires
        k < alternatives(NonTerminal::SlashElement).len(),
    ensures
        symbols@ == alternatives(NonTerminal::SlashElement)[k as int],
{
    let mut symbols: Vec<Symbol> = Vec::new();
    symbols.push(Symbol::Word(TokenKind::Slash));
    symbols.push(Symbol::Word(TokenKind::Number));
    symbols.push(Symbol::Run(Action::CoursesSharedTopicSlashListElementC1));
    assert(symbols@ =~= alternatives(NonTerminal::SlashElement)[k as int]);
    symbols
}

fn produce_comma_opt_and(k: usize) -> (symbols: Vec<Symbol>)
    requires
        k < alternatives(NonTerminal::CommaOptAnd).len(),
    ensures
        symbols@ == alternatives(NonTerminal::CommaOptAnd)[k as int],
{
    let mut symbols: Vec<Symbol> = Vec::new();
    symbols.push(Symbol::Rule(NonTerminal::CommaOrSemicolonOpt));
    symbols.push(Symbol::Rule(NonTerminal::AndEt));
    symbols.push(Symbol::Run(Action::CommaOptAndC1));
    assert(symbols@ =~= alternatives(NonTerminal::CommaOptAnd)[k as int]);
    symbols
}

fn produce_comma_opt_or(k: usize) -> (symbols: Vec<Symbol>)
    requires
        k < alternatives(NonTerminal::CommaOptOr).len(),
    ensures
        symbols@ == alternatives(NonTerminal::CommaOptOr)[k as int],
{
    let mut symbols: Vec<Symbol> = Vec::new();
    symbols.push(Symbol::Rule(NonTerminal::CommaOrSemicolonOpt));
    symbols.push(Symbol::Rule(NonTerminal::OrOu));
    symbols.push(Symbol::Run(Action::CommaOptOrC1));
    assert(symbols@ =~= alternatives(NonTerminal::CommaOptOr)[k as int]);
    symbols
}

fn produce_comma_or_semicolon_opt(k: usize) -> (symbols: Vec<Symbol>)
    requires
        k < alternatives(NonTerminal::CommaOrSemicolonOpt).len(),
    ensures
        symbols@ == alternatives(NonTerminal::CommaOrSemicolonOpt)[k as int],
{
    let mut symbols: Vec<Symbol> = Vec::new();
    if k == 0 {
        symbols.push(Symbol::Rule(NonTerminal::CommaOrSemicolon));
        symbols.push(Symbol::Run(Action::CommaOrSemicolonOptCommaOrSemicolon));
    } else {
        symbols.push(Symbol::Run(Action::CommaOrSemicolonOptEmpty));
    }
    assert(symbols@ =~= alternatives(NonTerminal::CommaOrSemicolonOpt)[k as int]);
    symbols
}

fn produce_comma_or_semicolon(k: usize) -> (symbols: Vec<Symbol>)
    requires
        k < alternatives(NonTerminal::CommaOrSemicolon).len(),
    ensures
        symbols@ == alternatives(NonTerminal::CommaOrSemicolon)[k as int],
{
    let mut symbols: Vec<Symbol> = Vec::new();
    if k == 0 {
        symbols.push(Symbol::Word(TokenKind::Comma));
        symbols.push(Symbol::Run(Action::CommaOrSemicolonComma));
    } else {
        symbols.push(Symbol::Word(TokenKind::Semicolon));
        symbols.push(Symbol::Run(Action::CommaOrSemicolonSemicolon));
    }
    assert(symbols@ =~= alternatives(NonTerminal::CommaOrSemicolon)[k as int]);
    symbols
}

fn produce_and_et(k: usize) -> (symbols: Vec<Symbol>)
    requires
        k < alternatives(NonTerminal::AndEt).len(),
    ensures
        symbols@ == alternatives(NonTerminal::AndEt)[k as int],
{
    let mut symbols: Vec<Symbol> = Vec::new();
    if k == 0 {
        symbols.push(Symbol::Word(TokenKind::And));
        symbols.push(Symbol::Run(Action::AndEtAnd));
    } else if k == 1 {
        symbols.push(Symbol::Word(TokenKind::AndOr));
        symbols.push(Symbol::Run(Action::AndEtAndOr));
    } else {
        symbols.push(Symbol::Word(TokenKind::Et));
        symbols.push(Symbol::Run(Action::AndEtEt));
    }
    assert(symbols@ =~= alternatives(NonTerminal::AndEt)[k as int]);
    symbols
}

fn produce_or_ou(k: usize) -> (symbols: Vec<Symbol>)
    requires
        k < alternatives(NonTerminal::OrOu).len(),
    ensures
        symbols@ == alternatives(NonTerminal::OrOu)[k as int],
{
    let mut symbols: Vec<Symbol> = Vec::new();
    if k == 0 {
        symbols.push(Symbol::Word(TokenKind::Or));
        symbols.push(Symbol::Run(Action::OrOuOr));
    } else {
        symbols.push(Symbol::Word(TokenKind::Ou));
        symbols.push(Symbol::Run(Action::OrOuOu));
    }
    assert(symbols@ =~= alternatives(NonTerminal::OrOu)[k as int]);
    symbols
}

fn produce_both_opt(k: usize) -> (symbols: Vec<Symbol>)
    requires
        k < alternatives(NonTerminal::BothOpt).len(),
    ensures
        symbols@ == alternatives(NonTerminal::BothOpt)[k as int],
{
    let mut symbols: Vec<Symbol> = Vec::new();
    if k == 0 {
        symbols.push(Symbol::Word(TokenKind::Both));
        symbols.push(Symbol::Run(Action::BothOptBoth));
    } else {
        symbols.push(Symbol::Run(Action::BothOptEmpty));
    }
    assert(symbols@ =~= alternatives(NonTerminal::BothOpt)[k as int]);
    symbols
}

fn produce_either_opt(k: usize) -> (symbols: Vec<Symbol>)
    requires
        k < alternatives(NonTerminal::EitherOpt).len(),
    ensures
        symbols@ == alternatives(NonTerminal::EitherOpt)[k as int],
{
    let mut symbols: Vec<Symbol> = Vec::new();
    if k == 0 {
        symbols.push(Symbol::Word(TokenKind::Either));
        symbols.push(Symbol::Run(Action::EitherOptEither));
    } else {
        symbols.push(Symbol::Run(Action::EitherOptEmpty));
    }
    assert(symbols@ =~= alternatives(NonTerminal::EitherOpt)[k as int]);
    symbols
}

fn produce_one_of_opt(k: usize) -> (symbols: Vec<Symbol>)
    requires
        k < alternatives(NonTerminal::OneOfOpt).len(),
    ensures
        symbols@ == alternatives(NonTerminal::OneOfOpt)[k as int],
{
    let mut symbols: Vec<Symbol> = Vec::new();
    if k == 0 {
        symbols.push(Symbol::Rule(NonTerminal::OneOf));
        symbols.push(Symbol::Run(Action::OneOfOptOneOf));
    } else {
        symbols.push(Symbol::Run(Action::OneOfOptEmpty));
    }
    assert(symbols@ =~= alternatives(NonTerminal::OneOfOpt)[k as int]);
    symbols
}

fn produce_one_of(k: usize) -> (symbols: Vec<Symbol>)
    requires
        k < alternatives(NonTerminal::OneOf).len(),
    ensures
        symbols@ == alternatives(NonTerminal::OneOf)[k as int],
{
    let mut symbols: Vec<Symbol> = Vec::new();
    symbols.push(Symbol::Word(TokenKind::OneOf));
    assert(symbols@ =~= alternatives(NonTerminal::OneOf)[k as int]);
    symbols
}

fn produce_or_alternative(k: usize) -> (symbols: Vec<Symbol>)
    requires
        k < alternatives(NonTerminal::OrAlternative).len(),
    ensures
        symbols@ == alternatives(NonTerminal::OrAlternative)[k as int],
{
    let mut symbols: Vec<Symbol> = Vec::new();
    if k == 0 {
        symbols.push(Symbol::Word(TokenKind::Or));
        symbols.push(Symbol::Word(TokenKind::Equivalent));
        symbols.push(Symbol::Run(Action::OrAlternativeC1));
    } else if k == 1 {
        symbols.push(Symbol::Word(TokenKind::Or));
        symbols.push(Symbol::Word(TokenKind::Alternative));
        symbols.push(Symbol::Run(Action::OrAlternativeC1));
    } else {
        symbols.push(Symbol::Word(TokenKind::Ou));
        symbols.push(Symbol::Word(TokenKind::Equivalent));
        symbols.push(Symbol::Run(Action::OrAlternativeC2));
    }
    assert(symbols@ =~= alternatives(NonTerminal::OrAlternative)[k as int]);
    symbols
}

fn produce_unless_alternative(k: usize) -> (symbols: Vec<Symbol>)
    requires
        k < alternatives(NonTerminal::UnlessAlternative).len(),
    ensures
        symbols@ == alternatives(NonTerminal::UnlessAlternative)[k as int],
{
    let mut symbols: Vec<Symbol> = Vec::new();
    symbols.push(Symbol::Word(TokenKind::Unless));
    symbols.push(Symbol::Word(TokenKind::Alternative));
    symbols.push(Symbol::Run(Action::UnlessAlternativeC1));
    assert(symbols@ =~= alternatives(NonTerminal::UnlessAlternative)[k as int]);
    symbols
}

} // verus!
