use finescale::course::{Course, CourseId, CourseIdError, Node, NodeType, Relation, Requirement};
use finescale::text::Rank;

fn id(subject: &str, class: u16) -> CourseId {
    CourseId { subject_id: subject.to_string(), class_id: class }
}

#[test]
fn course_id_reads_subject_and_class() {
    assert_eq!(CourseId::from_str("CMPUT 174"), Ok(id("CMPUT", 174)));
    assert_eq!(CourseId::from_str("  cmput \t 174  and more"), Ok(id("CMPUT", 174)));
    assert_eq!(CourseId::from_str("math +0100"), Ok(id("MATH", 100)));
    assert_eq!(CourseId::from_str("math 999"), Ok(id("MATH", 999)));
    assert_eq!(CourseId::from_str("é 100"), Ok(id("É", 100)));
}

#[test]
fn course_id_errors() {
    assert_eq!(CourseId::from_str(""), Err(CourseIdError::MissingSubject));
    assert_eq!(CourseId::from_str("   "), Err(CourseIdError::MissingSubject));
    assert_eq!(CourseId::from_str("CMPUT"), Err(CourseIdError::MissingClass));
    assert_eq!(CourseId::from_str("CMPUT  "), Err(CourseIdError::MissingClass));
    assert_eq!(CourseId::from_str("CMPUT 17x"), Err(CourseIdError::InvalidClass));
    assert_eq!(CourseId::from_str("CMPUT +"), Err(CourseIdError::InvalidClass));
    assert_eq!(CourseId::from_str("CMPUT -174"), Err(CourseIdError::InvalidClass));
    assert_eq!(CourseId::from_str("CMPUT 65536"), Err(CourseIdError::InvalidClass));
    assert_eq!(CourseId::from_str("CMPUT 99"), Err(CourseIdError::OutOfRange));
    assert_eq!(CourseId::from_str("CMPUT 1000"), Err(CourseIdError::OutOfRange));
    assert_eq!(CourseId::from_str("CMPUT 65535"), Err(CourseIdError::OutOfRange));
}

#[test]
fn course_id_round_trip() {
    for text in ["CMPUT 174", "MATH 100", "EN 998", "x 500"] {
        let parsed = CourseId::from_str(text).unwrap();
        assert_eq!(parsed.to_string(), text.to_uppercase());
        assert_eq!(CourseId::from_str(&parsed.to_string()), Ok(parsed));
    }
    assert_eq!(id("STAT", 151).to_string(), "STAT 151");
}

#[test]
fn course_ids_order_by_subject_then_class() {
    assert_eq!(id("CMPUT", 300).compare(&id("MATH", 100)), Rank::Less);
    assert_eq!(id("MATH", 100).compare(&id("CMPUT", 300)), Rank::Greater);
    assert_eq!(id("MATH", 100).compare(&id("MATH", 101)), Rank::Less);
    assert_eq!(id("MATH", 100).compare(&id("MATH", 100)), Rank::Equal);
    assert_eq!(id("MA", 900).compare(&id("MATH", 100)), Rank::Less);
    assert_eq!(id("MATH", 100).compare(&id("MA", 900)), Rank::Greater);
    assert!(id("MATH", 100) == id("MATH", 100));
    assert!(id("MATH", 100) != id("MATH", 101));
}

#[test]
fn courses_are_equal_by_id() {
    let mut a = Course::new("CMPUT", 174, None);
    let b = Course::new("CMPUT", 174, Some(Requirement::Prereq(id("MATH", 100))));
    a.name = "Introduction".to_string();
    assert!(a == b);
    assert!(a != Course::new("CMPUT", 175, None));
    assert_eq!(a.id, id("CMPUT", 174));
    assert_eq!(b.clone().requirements.unwrap().unwrap(), id("MATH", 100));
}

#[test]
fn requirement_leaves() {
    let leaf = Requirement::Coreq(id("MATH", 100));
    assert_eq!(leaf.unwrap(), id("MATH", 100));
    assert_eq!(Relation::try_from(&leaf), Ok(Relation::Coreq));
    assert_eq!(Relation::try_from(&Requirement::Prereq(id("MATH", 100))), Ok(Relation::Prereq));
    assert_eq!(Relation::try_from(&Requirement::And(vec![])), Err(()));
    assert_eq!(Relation::Prereq.to_string(), "Prereq");
    assert_eq!(Relation::Coreq.to_string(), "Coreq");
}

#[test]
fn nodes_start_without_weight() {
    let node = Node::from_course(Course::new("CMPUT", 174, None));
    assert_eq!(node.val, 0);
    assert!(node.has_id(&id("CMPUT", 174)));
    assert!(!node.has_id(&id("CMPUT", 175)));
    let marker = Node::from_type(NodeType::Or);
    assert_eq!(marker.val, 0);
    assert!(!marker.has_id(&id("CMPUT", 174)));
}
