//! The actions of the grammar: what each production makes of the values
//! of its symbols. A word without content (a comma, `and`, `one of`) has
//! the value `()`.

use vstd::prelude::*;
use crate::expr::{Course, CourseView, Expr, ExprView, all_of, any_of, expr_views};

verus! {

/// The courses of one topic with the given numbers, in order.
pub open spec fn courses_of(topic: Seq<char>, numbers: Seq<u64>) -> Seq<ExprView> {
    Seq::new(
        numbers.len(),
        |i: int| ExprView::Course(CourseView { topic, number: numbers[i] as nat }),
    )
}

/// The courses of one topic with the given numbers, in order.
pub fn shared_topic_courses(topic: &String, numbers: &Vec<u64>) -> (r: Vec<Expr>)
    ensures
        expr_views(r@) == courses_of(topic@, numbers@),
{
    let mut list: Vec<Expr> = Vec::new();
    let mut i: usize = 0;
    while i < numbers.len()
        invariant
            i <= numbers.len(),
            list.len() == i,
            forall|j: int|
                0 <= j < i ==> (#[trigger] list@[j])@ == ExprView::Course(
                    CourseView { topic: topic@, number: numbers@[j] as nat },
                ),
        decreases numbers.len() - i,
    {
        list.push(Expr::Course(Course { topic: topic.clone(), number: numbers[i] }));
        i += 1;
    }
    assert(expr_views(list@) =~= courses_of(topic@, numbers@));
    list
}

/// `AllCourses: BothOpt CommaSeparatedCourses2 CommaOptAnd Any2Last`.
/// All of the list and of the expression behind the conjunction.
pub fn all_courses_c1(_both: (), list: Vec<Expr>, _and: (), expr: Expr) -> (r: Expr)
    ensures
        r@ == all_of(expr_views(list@).push(expr@)),
{
    let mut items = list;
    items.push(expr);
    assert(expr_views(items@) =~= expr_views(list@).push(expr@));
    Expr::all(items)
}

/// `AllCoursesSharedTopic: BothOpt CoursesSharedTopicHead CommaOptAnd NUMBER`.
/// All of the courses of one topic.
pub fn all_courses_shared_topic_c1(
    _both: (),
    head: (String,
    Vec<u64>),
    _and: (),
    number: u64,
) -> (r: Expr)
    ensures
        r@ == all_of(courses_of(head.0@, head.1@.push(number))),
{
    let (topic, mut numbers) = head;
    numbers.push(number);
    Expr::all(shared_topic_courses(&topic, &numbers))
}

/// `AndEt: "and"`. Nothing to keep.
pub fn and_et_and(_word: ()) {
}

/// `AndEt: "and/or"`. Nothing to keep.
pub fn and_et_and_or(_word: ()) {
}

/// `AndEt: "et"`. Nothing to keep.
pub fn and_et_et(_word: ()) {
}

/// `Any1Kind: AllCourses`. The expression, as it is.
pub fn any1_all_courses(expr: Expr) -> (r: Expr)
    ensures
        r == expr,
{
    expr
}

/// `Any1Kind: AllCoursesSharedTopic`. The expression, as it is.
pub fn any1_all_courses_shared_topic(expr: Expr) -> (r: Expr)
    ensures
        r == expr,
{
    expr
}

/// `Any1Kind: Any2`. The expression, as it is.
pub fn any1_any2(expr: Expr) -> (r: Expr)
    ensures
        r == expr,
{
    expr
}

/// `Any1Tail: OrAlternative`. The expression: the alternative behind it adds nothing.
pub fn any1_c3(expr: Expr, _alternative: ()) -> (r: Expr)
    ensures
        r == expr,
{
    expr
}

/// `Any1Tail: UnlessAlternative`. The expression: the alternative behind it adds nothing.
pub fn any1_c4(expr: Expr, _alternative: ()) -> (r: Expr)
    ensures
        r == expr,
{
    expr
}

/// `Any2Kind: Any3`. The expression, as it is.
pub fn any2_any3(expr: Expr) -> (r: Expr)
    ensures
        r == expr,
{
    expr
}

/// `Any2Kind: AnyCourses`. The expression, as it is.
pub fn any2_any_courses(expr: Expr) -> (r: Expr)
    ensures
        r == expr,
{
    expr
}

/// `Any2Kind: AnyCoursesSharedTopic`. The expression, as it is.
pub fn any2_any_courses_shared_topic(expr: Expr) -> (r: Expr)
    ensures
        r == expr,
{
    expr
}

/// `Any2Tail: OrAlternative`. The expression: the alternative behind it adds nothing.
pub fn any2_c3(expr: Expr, _alternative: ()) -> (r: Expr)
    ensures
        r == expr,
{
    expr
}

/// `Any2Tail: UnlessAlternative`. The expression: the alternative behind it adds nothing.
pub fn any2_c4(expr: Expr, _alternative: ()) -> (r: Expr)
    ensures
        r == expr,
{
    expr
}

/// `Any3Plain: CONSENT`. Nothing is required.
pub fn any3_alternative(_word: ()) -> (r: Expr)
    ensures
        r == Expr::Empty,
{
    Expr::Empty
}

/// `Any3Plain: AnyCoursesSharedTopicNoCommas`. The expression, as it is.
pub fn any3_any_courses_shared_topic_no_commas(expr: Expr) -> (r: Expr)
    ensures
        r == expr,
{
    expr
}

/// `Any3Plain: GRADE Any2`. The expression: what stands before it adds nothing.
pub fn any3_c6(_lead: (), expr: Expr) -> (r: Expr)
    ensures
        r == expr,
{
    expr
}

/// `Any3Plain: Course`. The requirement of one course.
pub fn any3_course(course: Course) -> (r: Expr)
    ensures
        r == Expr::Course(course),
{
    Expr::Course(course)
}

/// `Any3Plain: CoursesSharedTopicSlashList`. The expression, as it is.
pub fn any3_courses_shared_topic_slash_list(expr: Expr) -> (r: Expr)
    ensures
        r == expr,
{
    expr
}

/// `Any3: EitherCourse`. The expression, as it is.
pub fn any3_either_course(expr: Expr) -> (r: Expr)
    ensures
        r == expr,
{
    expr
}

/// `Any3Like: Any3`. The expression, as it is.
pub fn any3like_any3(expr: Expr) -> (r: Expr)
    ensures
        r == expr,
{
    expr
}

/// `Any3Like: "equivalent"`. Nothing is required.
pub fn any3like_en_or_alternative_option(_word: ()) -> (r: Expr)
    ensures
        r == Expr::Empty,
{
    Expr::Empty
}

/// `AnyCourses: OneOfOpt CommaSeparatedCourses3 CommaOptOr Any3Like`.
/// Any of the list and of the expression behind the disjunction.
pub fn any_courses_c1(_one_of: (), list: Vec<Expr>, _or: (), expr: Expr) -> (r: Expr)
    ensures
        r@ == any_of(expr_views(list@).push(expr@)),
{
    let mut items = list;
    items.push(expr);
    assert(expr_views(items@) =~= expr_views(list@).push(expr@));
    Expr::any(items)
}

/// `AnyCoursesSharedTopic: OneOfOpt CoursesSharedTopicHead CommaOptOr NUMBER`.
/// Any of the courses of one topic.
pub fn any_courses_shared_topic_c1(
    _one_of: (),
    head: (String,
    Vec<u64>),
    _or: (),
    number: u64,
) -> (r: Expr)
    ensures
        r@ == any_of(courses_of(head.0@, head.1@.push(number))),
{
    let (topic, mut numbers) = head;
    numbers.push(number);
    Expr::any(shared_topic_courses(&topic, &numbers))
}

/// `AnyCoursesSharedTopicShort: OneOf CoursesSharedTopicHead`. Any of the courses of one topic.
pub fn any_courses_shared_topic_c2(_one_of: (), head: (String, Vec<u64>)) -> (r: Expr)
    ensures
        r@ == any_of(courses_of(head.0@, head.1@)),
{
    let (topic, numbers) = head;
    Expr::any(shared_topic_courses(&topic, &numbers))
}

/// `AnyCoursesSharedTopic: OneOfOpt CoursesSharedTopicHead CommaOptOr CONSENT`.
/// Any of the courses of one topic: the alternative behind them adds nothing.
pub fn any_courses_shared_topic_c3(
    _one_of: (),
    head: (String,
    Vec<u64>),
    _or: (),
    _alternative: (),
) -> (r: Expr)
    ensures
        r@ == any_of(courses_of(head.0@, head.1@)),
{
    let (topic, numbers) = head;
    Expr::any(shared_topic_courses(&topic, &numbers))
}

/// `AnyCoursesSharedTopicNoCommas: OneOf CoursesSharedTopicHead`. Any of the courses of one topic.
pub fn any_courses_shared_topic_no_commas_c1(_one_of: (), head: (String, Vec<u64>)) -> (r: Expr)
    ensures
        r@ == any_of(courses_of(head.0@, head.1@)),
{
    let (topic, numbers) = head;
    Expr::any(shared_topic_courses(&topic, &numbers))
}

/// `BothOpt: "both"`. Nothing to keep.
pub fn both_opt_both(_word: ()) {
}

/// `BothOpt: (empty)`. Nothing to keep.
pub fn both_opt_empty() {
}

/// `CommaOptAnd: CommaOrSemicolonOpt AndEt`. Nothing to keep.
pub fn comma_opt_and_c1(_first: (), _second: ()) {
}

/// `CommaOptOr: CommaOrSemicolonOpt OrOu`. Nothing to keep.
pub fn comma_opt_or_c1(_first: (), _second: ()) {
}

/// `CommaOrSemicolon: ","`. Nothing to keep.
pub fn comma_or_semicolon_comma() {
}

/// `CommaOrSemicolonOpt: CommaOrSemicolon`. Nothing to keep.
pub fn comma_or_semicolon_opt_comma_or_semicolon(_word: ()) {
}

/// `CommaOrSemicolonOpt: (empty)`. Nothing to keep.
pub fn comma_or_semicolon_opt_empty() {
}

/// `CommaOrSemicolon: ";"`. Nothing to keep.
pub fn comma_or_semicolon_semicolon() {
}

/// `CommaSeparatedCourses2: Any2 Elements2Opt`. The list with the expression before it.
pub fn comma_separated_courses2_c1(expr: Expr, list: Vec<Expr>) -> (r: Vec<Expr>)
    ensures
        r@ == seq![expr] + list@,
{
    let mut items = list;
    items.insert(0, expr);
    assert(items@ =~= seq![expr] + list@);
    items
}

/// `CommaSeparatedCourses3: Any3 Elements3Opt`. The list with the expression before it.
pub fn comma_separated_courses3_c1(expr: Expr, list: Vec<Expr>) -> (r: Vec<Expr>)
    ensures
        r@ == seq![expr] + list@,
{
    let mut items = list;
    items.insert(0, expr);
    assert(items@ =~= seq![expr] + list@);
    items
}

/// `Elements2Opt: Elements2`. The list, as it is.
pub fn comma_separated_courses_element20_comma_separated_courses_element21(
    list: Vec<Expr>,
) -> (r: Vec<Expr>)
    ensures
        r == list,
{
    list
}

/// `Elements2Opt: (empty)`. The empty list.
pub fn comma_separated_courses_element20_empty() -> (r: Vec<Expr>)
    ensures
        r@ == Seq::<Expr>::empty(),
{
    Vec::new()
}

/// `Elements2More: Element2 Elements2More`. The list with the expression behind it.
pub fn comma_separated_courses_element21_c1(list: Vec<Expr>, expr: Expr) -> (r: Vec<Expr>)
    ensures
        r@ == list@.push(expr),
{
    let mut items = list;
    items.push(expr);
    items
}

/// `Elements2: Element2 Elements2More`. The list of this one expression.
pub fn comma_separated_courses_element21_comma_separated_courses_element2(
    expr: Expr,
) -> (r: Vec<Expr>)
    ensures
        r@ == seq![expr],
{
    let mut list: Vec<Expr> = Vec::new();
    list.push(expr);
    list
}

/// `Element2: CommaOrSemicolon Any2`. The expression: what stands before it adds nothing.
pub fn comma_separated_courses_element2_c1(_lead: (), expr: Expr) -> (r: Expr)
    ensures
        r == expr,
{
    expr
}

/// `Elements3Opt: Elements3`. The list, as it is.
pub fn comma_separated_courses_element30_comma_separated_courses_element31(
    list: Vec<Expr>,
) -> (r: Vec<Expr>)
    ensures
        r == list,
{
    list
}

/// `Elements3Opt: (empty)`. The empty list.
pub fn comma_separated_courses_element30_empty() -> (r: Vec<Expr>)
    ensures
        r@ == Seq::<Expr>::empty(),
{
    Vec::new()
}

/// `Elements3More: Element3 Elements3More`. The list with the expression behind it.
pub fn comma_separated_courses_element31_c1(list: Vec<Expr>, expr: Expr) -> (r: Vec<Expr>)
    ensures
        r@ == list@.push(expr),
{
    let mut items = list;
    items.push(expr);
    items
}

/// `Elements3: Element3 Elements3More`. The list of this one expression.
pub fn comma_separated_courses_element31_comma_separated_courses_element3(
    expr: Expr,
) -> (r: Vec<Expr>)
    ensures
        r@ == seq![expr],
{
    let mut list: Vec<Expr> = Vec::new();
    list.push(expr);
    list
}

/// `Element3: CommaOrSemicolon Any3`. The expression: what stands before it adds nothing.
pub fn comma_separated_courses_element3_c1(_lead: (), expr: Expr) -> (r: Expr)
    ensures
        r == expr,
{
    expr
}

/// `Course: TOPIC NUMBER`. The course of a topic and a number.
pub fn course_c1(topic: String, number: u64) -> (r: Course)
    ensures
        r.topic == topic,
        r.number == number,
{
    Course { topic, number }
}

/// `CoursesSharedTopicHeadLong: TOPIC NUMBER HeadElements`. A topic and the numbers that share it.
pub fn courses_shared_topic_head_c1(
    topic: String,
    number: u64,
    numbers: Vec<u64>,
) -> (r: (String, Vec<u64>))
    ensures
        r.0 == topic,
        r.1@ == seq![number] + numbers@,
{
    let mut all = numbers;
    all.insert(0, number);
    assert(all@ =~= seq![number] + numbers@);
    (topic, all)
}

/// `CoursesSharedTopicHeadLong: TOPIC NUMBER HeadElements`. The numbers, as they are.
pub fn courses_shared_topic_head_element0_courses_shared_topic_head_element1(
    numbers: Vec<u64>,
) -> (r: Vec<u64>)
    ensures
        r == numbers,
{
    numbers
}

/// `HeadElementsOpt: (empty)`. No numbers.
pub fn courses_shared_topic_head_element0_empty() -> (r: Vec<u64>)
    ensures
        r@ == Seq::<u64>::empty(),
{
    Vec::new()
}

/// `HeadElementsMore: HeadElement HeadElementsMore`. The numbers with one more behind them.
pub fn courses_shared_topic_head_element1_c1(numbers: Vec<u64>, number: u64) -> (r: Vec<u64>)
    ensures
        r@ == numbers@.push(number),
{
    let mut all = numbers;
    all.push(number);
    all
}

/// `HeadElements: HeadElement HeadElementsMore`. The list of this one number.
pub fn courses_shared_topic_head_element1_courses_shared_topic_head_element(
    number: u64,
) -> (r: Vec<u64>)
    ensures
        r@ == seq![number],
{
    let mut numbers: Vec<u64> = Vec::new();
    numbers.push(number);
    numbers
}

/// `HeadElement: CommaOrSemicolon NUMBER`. The number behind the separator.
pub fn courses_shared_topic_head_element_c1(_separator: (), number: u64) -> (r: u64)
    ensures
        r == number,
{
    number
}

/// `CoursesSharedTopicSlashList: TOPIC NUMBER SlashElements`.
/// Any of the courses of one topic whose numbers stand between slashes.
pub fn courses_shared_topic_slash_list_c1(
    topic: String,
    number: u64,
    numbers: Vec<u64>,
) -> (r: Expr)
    ensures
        r@ == any_of(courses_of(topic@, seq![number] + numbers@)),
{
    let mut all = numbers;
    all.insert(0, number);
    assert(all@ =~= seq![number] + numbers@);
    Expr::any(shared_topic_courses(&topic, &all))
}

/// `SlashElementsMore: SlashElement SlashElementsMore`. The numbers with one more behind them.
pub fn courses_shared_topic_slash_list_element1_c1(numbers: Vec<u64>, number: u64) -> (r: Vec<u64>)
    ensures
        r@ == numbers@.push(number),
{
    let mut all = numbers;
    all.push(number);
    all
}

/// `SlashElements: SlashElement SlashElementsMore`. The list of this one number.
pub fn courses_shared_topic_slash_list_element1_courses_shared_topic_slash_list_element(
    number: u64,
) -> (r: Vec<u64>)
    ensures
        r@ == seq![number],
{
    let mut numbers: Vec<u64> = Vec::new();
    numbers.push(number);
    numbers
}

/// `SlashElement: "/" NUMBER`. The number, as it is.
pub fn courses_shared_topic_slash_list_element_c1(number: u64) -> (r: u64)
    ensures
        r == number,
{
    number
}

/// `EitherCourse: EitherOpt Any3Plain OrOu Any3`. Either of two expressions.
pub fn either_course_c1(_either: (), lhs: Expr, _or: (), rhs: Expr) -> (r: Expr)
    ensures
        r@ == any_of(seq![lhs@, rhs@]),
{
    let mut list: Vec<Expr> = Vec::new();
    list.push(lhs);
    list.push(rhs);
    assert(expr_views(list@) =~= seq![lhs@, rhs@]);
    Expr::any(list)
}

/// `EitherOpt: "either"`. Nothing to keep.
pub fn either_opt_either(_word: ()) {
}

/// `EitherOpt: (empty)`. Nothing to keep.
pub fn either_opt_empty() {
}

/// `AnyCoursesSharedTopicNoCommas: CoursesSharedTopicHeadLong`. Nothing to keep.
pub fn one_of_opt_empty() {
}

/// `AnyCoursesSharedTopicNoCommas: OneOf CoursesSharedTopicHead`. Nothing to keep.
pub fn one_of_opt_one_of(_word: ()) {
}

/// `OrAlternative: "or" "equivalent"`. Nothing to keep.
pub fn or_alternative_c1(_first: (), _second: ()) {
}

/// `OrAlternative: "ou" "equivalent"`. Nothing to keep.
pub fn or_alternative_c2(_first: (), _second: ()) {
}

/// `OrOu: "or"`. Nothing to keep.
pub fn or_ou_or(_word: ()) {
}

/// `OrOu: "ou"`. Nothing to keep.
pub fn or_ou_ou(_word: ()) {
}

/// `TopLevel: Any1`. The expression, as it is.
pub fn top_level_any1(expr: Expr) -> (r: Expr)
    ensures
        r == expr,
{
    expr
}

/// `TopLevelCommaList: Any1 "," CommaListRest`. All of the members of a list at the top level.
pub fn top_level_comma_list_c1(before: Expr, list: Vec<Expr>, after: Expr) -> (r: Expr)
    ensures
        r@ == all_of((seq![before@] + expr_views(list@)).push(after@)),
{
    let mut items = list;
    items.insert(0, before);
    items.push(after);
    assert(expr_views(items@) =~= (seq![before@] + expr_views(list@)).push(after@));
    Expr::all(items)
}

/// `CommaListRest: CommaListLast`. The empty list.
pub fn top_level_comma_list_element0_empty() -> (r: Vec<Expr>)
    ensures
        r@ == Seq::<Expr>::empty(),
{
    Vec::new()
}

/// `CommaListRest: CommaListElements CommaListLastOpt`. The list, as it is.
pub fn top_level_comma_list_element0_top_level_comma_list_element1(
    list: Vec<Expr>,
) -> (r: Vec<Expr>)
    ensures
        r == list,
{
    list
}

/// `CommaListMore: "," CommaListElement CommaListMore`. The list with the expression behind it.
pub fn top_level_comma_list_element1_c1(list: Vec<Expr>, expr: Expr) -> (r: Vec<Expr>)
    ensures
        r@ == list@.push(expr),
{
    let mut items = list;
    items.push(expr);
    items
}

/// `CommaListElements: CommaListElement CommaListMore`. The list of this one expression.
pub fn top_level_comma_list_element1_top_level_comma_list_element(expr: Expr) -> (r: Vec<Expr>)
    ensures
        r@ == seq![expr],
{
    let mut list: Vec<Expr> = Vec::new();
    list.push(expr);
    list
}

/// `CommaListElement: Any1`. The expression, as it is.
pub fn top_level_comma_list_element_any1(expr: Expr) -> (r: Expr)
    ensures
        r == expr,
{
    expr
}

/// `CommaListLast: CommaOptAnd Any1`. The expression: what stands before it adds nothing.
pub fn top_level_comma_list_last_element_c1(_lead: (), expr: Expr) -> (r: Expr)
    ensures
        r == expr,
{
    expr
}

/// `CommaListLastOpt: (empty)`. Nothing is required.
pub fn top_level_comma_list_last_element_opt_empty() -> (r: Expr)
    ensures
        r == Expr::Empty,
{
    Expr::Empty
}

/// `CommaListRest: CommaListLast`. The expression, as it is.
pub fn top_level_comma_list_last_element_opt_top_level_comma_list_last_element(
    expr: Expr,
) -> (r: Expr)
    ensures
        r == expr,
{
    expr
}

/// `TopLevel: "none"`. Nothing is required.
pub fn top_level_none(_word: ()) -> (r: Expr)
    ensures
        r == Expr::Empty,
{
    Expr::Empty
}

/// `TopLevelSemicolonList: Any1 ";" SemicolonListRest`.
/// All of the members of a list at the top level.
pub fn top_level_semicolon_list_c1(before: Expr, list: Vec<Expr>, after: Expr) -> (r: Expr)
    ensures
        r@ == all_of((seq![before@] + expr_views(list@)).push(after@)),
{
    let mut items = list;
    items.insert(0, before);
    items.push(after);
    assert(expr_views(items@) =~= (seq![before@] + expr_views(list@)).push(after@));
    Expr::all(items)
}

/// `SemicolonListRest: SemicolonListLast`. The empty list.
pub fn top_level_semicolon_list_element0_empty() -> (r: Vec<Expr>)
    ensures
        r@ == Seq::<Expr>::empty(),
{
    Vec::new()
}

/// `SemicolonListRest: SemicolonListElements SemicolonListLastOpt`. The list, as it is.
pub fn top_level_semicolon_list_element0_top_level_semicolon_list_element1(
    list: Vec<Expr>,
) -> (r: Vec<Expr>)
    ensures
        r == list,
{
    list
}

/// `SemicolonListMore: ";" SemicolonListElement SemicolonListMore`.
/// The list with the expression behind it.
pub fn top_level_semicolon_list_element1_c1(list: Vec<Expr>, expr: Expr) -> (r: Vec<Expr>)
    ensures
        r@ == list@.push(expr),
{
    let mut items = list;
    items.push(expr);
    items
}

/// `SemicolonListElements: SemicolonListElement SemicolonListMore`.
/// The list of this one expression.
pub fn top_level_semicolon_list_element1_top_level_semicolon_list_element(
    expr: Expr,
) -> (r: Vec<Expr>)
    ensures
        r@ == seq![expr],
{
    let mut list: Vec<Expr> = Vec::new();
    list.push(expr);
    list
}

/// `SemicolonListElement: Any1`. The expression, as it is.
pub fn top_level_semicolon_list_element_any1(expr: Expr) -> (r: Expr)
    ensures
        r == expr,
{
    expr
}

/// `SemicolonListLast: CommaOptAnd Any1`. The expression: what stands before it adds nothing.
pub fn top_level_semicolon_list_last_element_c1(_lead: (), expr: Expr) -> (r: Expr)
    ensures
        r == expr,
{
    expr
}

/// `SemicolonListLastOpt: (empty)`. Nothing is required.
pub fn top_level_semicolon_list_last_element_opt_empty() -> (r: Expr)
    ensures
        r == Expr::Empty,
{
    Expr::Empty
}

/// `SemicolonListRest: SemicolonListLast`. The expression, as it is.
pub fn top_level_semicolon_list_last_element_opt_top_level_semicolon_list_last_element(
    expr: Expr,
) -> (r: Expr)
    ensures
        r == expr,
{
    expr
}

/// `TopLevel: TopLevelCommaList`. The expression, as it is.
pub fn top_level_top_level_comma_list(expr: Expr) -> (r: Expr)
    ensures
        r == expr,
{
    expr
}

/// `TopLevel: TopLevelSemicolonList`. The expression, as it is.
pub fn top_level_top_level_semicolon_list(expr: Expr) -> (r: Expr)
    ensures
        r == expr,
{
    expr
}

/// `UnlessAlternative: "unless" CONSENT`. Nothing to keep.
pub fn unless_alternative_c1(_first: (), _second: ()) {
}

} // verus!
