//! The catalogue's data: course identifiers, requirement trees, courses,
//! and the nodes and relations of the dependency graph.

use vstd::prelude::*;
use vstd::string::*;
use vstd::std_specs::cmp::PartialEqSpecImpl;
use crate::text::{
    Rank,
    all_digits,
    chars_of,
    compare_str,
    decimal_digits,
    decimal_value,
    lemma_decimal_digits_value,
    lemma_prefix_value,
    push_decimal,
    scan_space,
    scan_word,
    seq_lt,
    space_end,
    spec_is_digit,
    spec_is_whitespace,
    str_uppercase,
    to_uppercase,
    word_end,
};

verus! {

/// Identifies a course: a subject and a class number.
#[derive(Debug)]
pub struct CourseId {
    pub subject_id: String,
    pub class_id: u16,
}

/// What a `CourseId` stands for.
pub struct CourseIdView {
    pub subject: Seq<char>,
    pub class: int,
}

impl View for CourseId {
    type V = CourseIdView;

    open spec fn view(&self) -> CourseIdView {
        CourseIdView { subject: self.subject_id@, class: self.class_id as int }
    }
}

/// The order of course identifiers: by subject first, then by class, so
/// that the courses of one subject sort next to each other.
pub open spec fn id_lt(a: CourseIdView, b: CourseIdView) -> bool {
    seq_lt(a.subject, b.subject) || (a.subject == b.subject && a.class < b.class)
}

impl Clone for CourseId {
    fn clone(&self) -> (r: Self)
        ensures
            r@ == self@,
    {
        CourseId { subject_id: self.subject_id.clone(), class_id: self.class_id }
    }
}

impl PartialEq for CourseId {
    fn eq(&self, other: &Self) -> (r: bool) {
        self.subject_id == other.subject_id && self.class_id == other.class_id
    }
}

impl PartialEqSpecImpl for CourseId {
    open spec fn obeys_eq_spec() -> bool {
        true
    }

    open spec fn eq_spec(&self, other: &Self) -> bool {
        self@ == other@
    }
}

impl Eq for CourseId {

}

impl CourseId {
    /// Compares two identifiers in the order `id_lt`.
    pub fn compare(&self, other: &CourseId) -> (r: Rank)
        ensures
            r == Rank::Less <==> id_lt(self@, other@),
            r == Rank::Equal <==> self@ == other@,
            r == Rank::Greater <==> id_lt(other@, self@),
    {
        match compare_str(self.subject_id.as_str(), other.subject_id.as_str()) {
            Rank::Less => Rank::Less,
            Rank::Greater => Rank::Greater,
            Rank::Equal => {
                if self.class_id < other.class_id {
                    Rank::Less
                } else if self.class_id > other.class_id {
                    Rank::Greater
                } else {
                    Rank::Equal
                }
            },
        }
    }
}

/// Why a text is no course identifier.
#[derive(Clone, Copy, Debug, PartialEq, Eq, Structural)]
pub enum CourseIdError {
    /// The text holds no word.
    MissingSubject,
    /// The text holds one word only.
    MissingClass,
    /// The second word is no number that a `u16` holds.
    InvalidClass,
    /// The class is not at least 100 and less than 1000.
    OutOfRange,
}

/// The digits of a class number as written: behind a `+`, or bare.
pub open spec fn class_digits(word: Seq<char>) -> Seq<char> {
    if word.len() > 0 && word[0] == '+' {
        word.subrange(1, word.len() as int)
    } else {
        word
    }
}

/// The class that a word denotes.
pub open spec fn class_number(word: Seq<char>) -> Result<int, CourseIdError> {
    let digits = class_digits(word);
    if digits.len() == 0 || !all_digits(digits) || decimal_value(digits) > u16::MAX {
        Err(CourseIdError::InvalidClass)
    } else if !(100 <= decimal_value(digits) < 1000) {
        Err(CourseIdError::OutOfRange)
    } else {
        Ok(decimal_value(digits) as int)
    }
}

/// The identifier that a text denotes: its first word in upper case is
/// the subject, its second word the class; what follows is not read.
pub open spec fn parse_course_id(text: Seq<char>) -> Result<CourseIdView, CourseIdError> {
    let subject_start = space_end(text, 0);
    let subject_end = word_end(text, subject_start);
    let class_start = space_end(text, subject_end);
    let class_end = word_end(text, class_start);
    if subject_start >= text.len() {
        Err(CourseIdError::MissingSubject)
    } else if class_start >= text.len() {
        Err(CourseIdError::MissingClass)
    } else {
        match class_number(text.subrange(class_start, class_end)) {
            Err(e) => Err(e),
            Ok(class) => Ok(
                CourseIdView {
                    subject: str_uppercase(text.subrange(subject_start, subject_end)),
                    class,
                },
            ),
        }
    }
}

/// The text of an identifier: the subject, a space, the class.
pub open spec fn course_id_text(id: CourseIdView) -> Seq<char> {
    id.subject + seq![' '] + decimal_digits(id.class as nat)
}

/// The class that the word of `text` between `from` and `to` denotes.
fn scan_class(text: &Vec<char>, from: usize, to: usize) -> (r: Result<u16, CourseIdError>)
    requires
        from <= to <= text.len(),
    ensures
        match class_number(text@.subrange(from as int, to as int)) {
            Ok(n) => r == Ok::<u16, CourseIdError>(n as u16) && n <= u16::MAX,
            Err(e) => r == Err::<u16, CourseIdError>(e),
        },
{
    let ghost word = text@.subrange(from as int, to as int);
    let start = if from < to && text[from] == '+' {
        from + 1
    } else {
        from
    };
    let ghost digits = class_digits(word);
    assert(digits =~= text@.subrange(start as int, to as int));
    if start == to {
        return Err(CourseIdError::InvalidClass);
    }
    let mut value: u32 = 0;
    let mut i = start;
    assert(digits.take(0) =~= Seq::<char>::empty());
    while i < to
        invariant
            start <= i <= to <= text.len(),
            start < to,
            digits == text@.subrange(start as int, to as int),
            digits == class_digits(text@.subrange(from as int, to as int)),
            all_digits(digits.take(i - start)),
            value == decimal_value(digits.take(i - start)),
            value <= u16::MAX,
        decreases to - i,
    {
        let c = text[i];
        let ghost k = i - start;
        assert(digits[k] == c);
        if !('0' <= c && c <= '9') {
            assert(!all_digits(digits));
            return Err(CourseIdError::InvalidClass);
        }
        let d = (c as u8 - '0' as u8) as u32;
        assert(digits.take(k + 1).drop_last() =~= digits.take(k));
        assert(digits.take(k + 1).last() == c);
        proof {
            lemma_prefix_value(digits, k + 1);
        }
        value = value * 10 + d;
        if value > 0xffff {
            return Err(CourseIdError::InvalidClass);
        }
        i += 1;
    }
    assert(digits.take(digits.len() as int) =~= digits);
    if value < 100 || value >= 1000 {
        Err(CourseIdError::OutOfRange)
    } else {
        Ok(value as u16)
    }
}

impl CourseId {
    /// Reads an identifier from a text such as `cmput 174`.
    pub fn from_str(value: &str) -> (r: Result<CourseId, CourseIdError>)
        ensures
            match parse_course_id(value@) {
                Ok(id) => r matches Ok(found) && found@ == id,
                Err(e) => r matches Err(err) && err == e,
            },
    {
        let text = chars_of(value);
        let subject_start = scan_space(&text, 0);
        if subject_start >= text.len() {
            return Err(CourseIdError::MissingSubject);
        }
        let subject_end = scan_word(&text, subject_start);
        let class_start = scan_space(&text, subject_end);
        if class_start >= text.len() {
            return Err(CourseIdError::MissingClass);
        }
        let class_end = scan_word(&text, class_start);
        let class_id = match scan_class(&text, class_start, class_end) {
            Ok(n) => n,
            Err(e) => {
                return Err(e);
            },
        };
        let subject_id = to_uppercase(value.substring_char(subject_start, subject_end));
        Ok(CourseId { subject_id, class_id })
    }

    /// The identifier as text: the subject, a space, the class.
    pub fn to_string(&self) -> (r: String)
        ensures
            r@ == course_id_text(self@),
    {
        let mut out = self.subject_id.clone();
        out.append(" ");
        proof {
            reveal_strlit(" ");
        }
        push_decimal(&mut out, self.class_id as u64);
        assert(out@ =~= course_id_text(self@));
        out
    }
}

/// White space ends at once before a character that is none, and a word
/// made of such characters runs to the next white space.
proof fn lemma_word_in_text(text: Seq<char>, from: int, to: int)
    requires
        0 <= from <= to <= text.len(),
        forall|k: int| from <= k < to ==> !spec_is_whitespace(#[trigger] text[k]),
        to < text.len() ==> spec_is_whitespace(text[to]),
    ensures
        word_end(text, from) == to,
        from < to ==> space_end(text, from) == from,
    decreases to - from,
{
    if from < to {
        lemma_word_in_text(text, from + 1, to);
    }
}

/// A text made of a subject without white space, one space, and the
/// digits of a class from 100 to 999 reads as that subject in upper case
/// and that class, and the identifier writes as the subject in upper
/// case, a space, and the same digits.
pub proof fn lemma_course_id_round_trip(subject: Seq<char>, class: nat)
    requires
        subject.len() > 0,
        forall|k: int| 0 <= k < subject.len() ==> !spec_is_whitespace(#[trigger] subject[k]),
        100 <= class < 1000,
    ensures
        parse_course_id(subject + seq![' '] + decimal_digits(class)) == Ok::<
            CourseIdView,
            CourseIdError,
        >(CourseIdView { subject: str_uppercase(subject), class: class as int }),
        course_id_text(CourseIdView { subject: str_uppercase(subject), class: class as int })
            == str_uppercase(subject) + seq![' '] + decimal_digits(class),
{
    let digits = decimal_digits(class);
    let text = subject + seq![' '] + digits;
    let n = subject.len() as int;
    lemma_decimal_digits_value(class);
    assert forall|k: int| 0 <= k < digits.len() implies !spec_is_whitespace(#[trigger] digits[k]) by {
        assert(spec_is_digit(digits[k]));
    }
    assert forall|k: int| 0 <= k < n implies !spec_is_whitespace(#[trigger] text[k]) by {
        assert(text[k] == subject[k]);
    }
    assert(text[n] == ' ');
    assert forall|k: int| n + 1 <= k < text.len() implies !spec_is_whitespace(#[trigger] text[k]) by {
        assert(text[k] == digits[k - n - 1]);
    }
    lemma_word_in_text(text, 0, n);
    lemma_word_in_text(text, n + 1, text.len() as int);
    assert(space_end(text, n) == n + 1) by {
        assert(space_end(text, n + 1) == n + 1);
    }
    assert(text.subrange(0, n) =~= subject);
    assert(text.subrange(n + 1, text.len() as int) =~= digits);
    assert(class_digits(digits) == digits) by {
        assert(spec_is_digit(digits[0]));
    }
}

/// An identifier is read back from the text that is written of it, where
/// its subject is one word that upper-casing leaves as it is and its
/// class is from 100 to 999.
pub proof fn lemma_course_id_read_back(id: CourseIdView)
    requires
        id.subject.len() > 0,
        forall|k: int| 0 <= k < id.subject.len() ==> !spec_is_whitespace(#[trigger] id.subject[k]),
        100 <= id.class < 1000,
    ensures
        str_uppercase(id.subject) == id.subject ==> parse_course_id(course_id_text(id)) == Ok::<
            CourseIdView,
            CourseIdError,
        >(id),
{
    lemma_course_id_round_trip(id.subject, id.class as nat);
}

/// A requirement tree as the catalogue records it.
#[derive(Debug)]
pub enum Requirement {
    And(Vec<Requirement>),
    Or(Vec<Requirement>),
    Prereq(CourseId),
    Coreq(CourseId),
}

/// What a `Requirement` stands for.
pub enum RequirementView {
    And(Seq<RequirementView>),
    Or(Seq<RequirementView>),
    Prereq(CourseIdView),
    Coreq(CourseIdView),
}

/// The views of a list of requirements.
pub open spec fn requirement_views(list: Seq<Requirement>) -> Seq<RequirementView>
    decreases list,
{
    Seq::new(
        list.len(),
        |i: int|
            if 0 <= i < list.len() {
                list[i].view()
            } else {
                RequirementView::And(Seq::empty())
            },
    )
}

impl View for Requirement {
    type V = RequirementView;

    open spec fn view(&self) -> RequirementView
        decreases self,
    {
        match self {
            Requirement::And(list) => RequirementView::And(requirement_views(list@)),
            Requirement::Or(list) => RequirementView::Or(requirement_views(list@)),
            Requirement::Prereq(id) => RequirementView::Prereq(id@),
            Requirement::Coreq(id) => RequirementView::Coreq(id@),
        }
    }
}

/// Copies a list of requirements.
fn clone_requirements(list: &Vec<Requirement>) -> (r: Vec<Requirement>)
    ensures
        requirement_views(r@) == requirement_views(list@),
    decreases list,
{
    let mut out: Vec<Requirement> = Vec::new();
    let mut i: usize = 0;
    while i < list.len()
        invariant
            i <= list.len(),
            out.len() == i,
            forall|j: int| 0 <= j < i ==> out@[j]@ == list@[j]@,
        decreases list.len() - i,
    {
        let item = list[i].clone();
        out.push(item);
        i += 1;
    }
    assert(requirement_views(out@) =~= requirement_views(list@));
    out
}

impl Clone for Requirement {
    fn clone(&self) -> (r: Self)
        ensures
            r@ == self@,
        decreases self,
    {
        match self {
            Requirement::And(list) => Requirement::And(clone_requirements(list)),
            Requirement::Or(list) => Requirement::Or(clone_requirements(list)),
            Requirement::Prereq(id) => Requirement::Prereq(id.clone()),
            Requirement::Coreq(id) => Requirement::Coreq(id.clone()),
        }
    }
}

/// How one course relates to a course that it requires.
#[derive(Clone, Copy, Debug, PartialEq, Eq, Structural)]
pub enum Relation {
    Prereq,
    Coreq,
}

impl Requirement {
    /// Whether this requirement names a single course.
    pub open spec fn is_leaf(&self) -> bool {
        self is Prereq || self is Coreq
    }

    /// The course that a leaf requirement names.
    pub fn unwrap(&self) -> (r: CourseId)
        requires
            self.is_leaf(),
        ensures
            self matches Requirement::Prereq(id) ==> r@ == id@,
            self matches Requirement::Coreq(id) ==> r@ == id@,
    {
        match self {
            Requirement::Prereq(id) => id.clone(),
            Requirement::Coreq(id) => id.clone(),
            _ => {
                proof {
                    assert(false);
                }
                CourseId { subject_id: String::new(), class_id: 0 }
            },
        }
    }
}

impl Relation {
    /// The relation that a leaf requirement states; `Err` for a group.
    pub fn try_from(value: &Requirement) -> (r: Result<Relation, ()>)
        ensures
            value is Prereq ==> r == Ok::<Relation, ()>(Relation::Prereq),
            value is Coreq ==> r == Ok::<Relation, ()>(Relation::Coreq),
            !value.is_leaf() ==> r is Err,
    {
        match value {
            Requirement::Prereq(_) => Ok(Relation::Prereq),
            Requirement::Coreq(_) => Ok(Relation::Coreq),
            _ => Err(()),
        }
    }

    /// The relation's name.
    pub fn to_string(&self) -> (r: String)
        ensures
            *self == Relation::Prereq ==> r@ == "Prereq"@,
            *self == Relation::Coreq ==> r@ == "Coreq"@,
    {
        match self {
            Relation::Prereq => "Prereq".to_owned(),
            Relation::Coreq => "Coreq".to_owned(),
        }
    }
}

/// One course of the catalogue.
#[derive(Debug)]
pub struct Course {
    pub id: CourseId,
    pub name: String,
    pub description: String,
    pub requirements: Option<Requirement>,
}

/// What a `Course` stands for.
pub struct CourseView {
    pub id: CourseIdView,
    pub name: Seq<char>,
    pub description: Seq<char>,
    pub requirements: Option<RequirementView>,
}

impl View for Course {
    type V = CourseView;

    open spec fn view(&self) -> CourseView {
        CourseView {
            id: self.id@,
            name: self.name@,
            description: self.description@,
            requirements: match self.requirements {
                Some(r) => Some(r@),
                None => None,
            },
        }
    }
}

impl Clone for Course {
    fn clone(&self) -> (r: Self)
        ensures
            r@ == self@,
    {
        Course {
            id: self.id.clone(),
            name: self.name.clone(),
            description: self.description.clone(),
            requirements: match &self.requirements {
                Some(r) => Some(r.clone()),
                None => None,
            },
        }
    }
}

impl PartialEq for Course {
    fn eq(&self, other: &Self) -> (r: bool) {
        self.id == other.id
    }
}

impl PartialEqSpecImpl for Course {
    open spec fn obeys_eq_spec() -> bool {
        true
    }

    open spec fn eq_spec(&self, other: &Self) -> bool {
        self.id@ == other.id@
    }
}

impl Eq for Course {

}

impl Course {
    /// A course without a name or a description.
    pub fn new(subject_id: &str, class_id: u16, requirements: Option<Requirement>) -> (r: Course)
        ensures
            r.id@ == (CourseIdView { subject: subject_id@, class: class_id as int }),
            r.name@ == Seq::<char>::empty(),
            r.description@ == Seq::<char>::empty(),
            r.requirements == requirements,
    {
        let id = CourseId { subject_id: subject_id.to_owned(), class_id };
        Course { id, name: String::new(), description: String::new(), requirements }
    }
}

/// How two courses, or two sets of courses, must be ordered.
#[derive(Clone, Copy, Debug, PartialEq, Eq, Structural)]
pub enum Dependency {
    Together,
    Before,
    After,
    Independent,
}

/// What a node of the graph is: a course, or the marker of a group of
/// alternatives.
#[derive(Debug)]
pub enum NodeType {
    Course(Course),
    Or,
}

/// What a `NodeType` stands for.
pub enum NodeTypeView {
    Course(CourseView),
    Or,
}

impl View for NodeType {
    type V = NodeTypeView;

    open spec fn view(&self) -> NodeTypeView {
        match self {
            NodeType::Course(c) => NodeTypeView::Course(c@),
            NodeType::Or => NodeTypeView::Or,
        }
    }
}

/// A node of the graph, with the weight that the scheduler gives it.
#[derive(Debug)]
pub struct Node {
    pub ntype: NodeType,
    pub val: u16,
}

/// What a `Node` stands for.
pub struct NodeView {
    pub ntype: NodeTypeView,
    pub val: int,
}

impl View for Node {
    type V = NodeView;

    open spec fn view(&self) -> NodeView {
        NodeView { ntype: self.ntype@, val: self.val as int }
    }
}

impl NodeView {
    /// Whether the node is the course `id`.
    pub open spec fn has_id(&self, id: CourseIdView) -> bool {
        self.ntype matches NodeTypeView::Course(c) && c.id == id
    }
}

impl Node {
    /// Whether the node is the course `id`.
    pub fn has_id(&self, id: &CourseId) -> (r: bool)
        ensures
            r == self@.has_id(id@),
    {
        match &self.ntype {
            NodeType::Course(course) => course.id == *id,
            _ => false,
        }
    }

    /// The node as text: the identifier of its course, or `OR` for a
    /// marker of alternatives.
    pub fn to_string(&self) -> (r: String)
        ensures
            self@.ntype matches NodeTypeView::Course(c) ==> r@ == course_id_text(c.id),
            self@.ntype is Or ==> r@ == "OR"@,
    {
        match &self.ntype {
            NodeType::Or => "OR".to_owned(),
            NodeType::Course(c) => c.id.to_string(),
        }
    }

    /// The node of a course, with weight zero.
    pub fn from_course(value: Course) -> (r: Node)
        ensures
            r.ntype == NodeType::Course(value),
            r.val == 0,
    {
        Node { ntype: NodeType::Course(value), val: 0 }
    }

    /// A node of the given type, with weight zero.
    pub fn from_type(ntype: NodeType) -> (r: Node)
        ensures
            r.ntype == ntype,
            r.val == 0,
    {
        Node { ntype, val: 0 }
    }
}

} // verus!
