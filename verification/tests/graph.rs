use finescale::course::{Course, CourseId, Dependency, NodeType, Relation, Requirement};
use finescale::course_graph::{BuildError, CourseGraph};
use finescale::course_set::CourseSet;
use finescale::scheduler::ScheduleError;
use petgraph::graph::NodeIndex;
use petgraph::visit::EdgeRef;

fn id(subject: &str, class: u16) -> CourseId {
    CourseId { subject_id: subject.to_string(), class_id: class }
}

fn prereq(subject: &str, class: u16) -> Requirement {
    Requirement::Prereq(id(subject, class))
}

fn coreq(subject: &str, class: u16) -> Requirement {
    Requirement::Coreq(id(subject, class))
}

fn cmput_small_catalog() -> Vec<Course> {
    vec![
        Course::new("CMPUT", 101, None),
        Course::new(
            "CMPUT",
            102,
            Some(Requirement::And(vec![prereq("CMPUT", 101), prereq("MATH", 112)])),
        ),
        Course::new("MATH", 111, None),
        Course::new("MATH", 112, Some(prereq("MATH", 111))),
    ]
}

fn assert_in_db(db: &CourseGraph, id: &CourseId) -> NodeIndex {
    let Some(course_idx) = db.index_of(id) else {
        panic!("{} not in the Database", id.to_string());
    };
    NodeIndex::new(course_idx)
}

fn edges(db: &CourseGraph) -> Vec<(usize, usize, Relation)> {
    db.courses
        .edge_references()
        .map(|e| (e.source().index(), e.target().index(), *e.weight()))
        .collect()
}

fn weights(db: &CourseGraph) -> Vec<u16> {
    db.courses.node_weights().map(|n| n.val).collect()
}

fn members(sets: &[CourseSet]) -> Vec<Vec<usize>> {
    sets.iter().map(|s| s.inner.as_slice().to_vec()).collect()
}

#[test]
fn cmput_small() {
    let db = match CourseGraph::new(cmput_small_catalog()) {
        Ok(db) => db,
        Err(err) => panic!("Faild to build CourseDatabase {:?}", err),
    };

    let cmput_101_id = id("CMPUT", 101);
    let math_112_id = id("MATH", 112);

    let cmput_101 = assert_in_db(&db, &cmput_101_id);
    let cmput_102 = assert_in_db(&db, &id("CMPUT", 102));
    let _math_111 = assert_in_db(&db, &id("MATH", 111));
    let _math_112 = assert_in_db(&db, &math_112_id);

    assert_eq!(
        db.courses.edges(cmput_101).count(),
        0,
        "CMPUT 101 was parsed as having dependencies when it has none"
    );
    let mut desired = vec![cmput_101_id, math_112_id];

    for edge in db.courses.edges(cmput_102) {
        assert_eq!(
            *edge.weight(),
            Relation::Prereq,
            "All dependencies of CMPUT 102 should be prereqs"
        );
        assert_eq!(
            edge.source(),
            cmput_102,
            "There is something wrong with petgraph or the test"
        );
        let Some((idx, _cid)) = desired
            .iter()
            .enumerate()
            .find(|cid| db.courses[edge.target()].has_id(cid.1))
        else {
            panic!("There was an unexpected dependency on CMPUT 102");
        };
        desired.remove(idx);
    }

    assert!(desired.is_empty(), "CMPUT 101 had dependencies missing");
}

#[test]
fn nodes_come_in_the_order_of_the_identifiers() {
    let mut catalog = cmput_small_catalog();
    catalog.reverse();
    let db = CourseGraph::new(catalog).unwrap();
    assert_eq!(db.node_count(), 4);
    assert_eq!(db.index_of(&id("CMPUT", 101)), Some(0));
    assert_eq!(db.index_of(&id("CMPUT", 102)), Some(1));
    assert_eq!(db.index_of(&id("MATH", 111)), Some(2));
    assert_eq!(db.index_of(&id("MATH", 112)), Some(3));
    assert_eq!(db.index_of(&id("MATH", 113)), None);
    assert_eq!(
        edges(&db),
        vec![(1, 0, Relation::Prereq), (1, 3, Relation::Prereq), (3, 2, Relation::Prereq)]
    );
    assert_eq!(weights(&db), vec![0, 0, 0, 0]);
    assert!(db.node(1).has_id(&id("CMPUT", 102)));
}

#[test]
fn forward_reference_gives_one_edge_in_either_order() {
    let a = || Course::new("AAA", 100, None);
    let b = || Course::new("BBB", 100, Some(prereq("AAA", 100)));
    let b_first = CourseGraph::new(vec![b(), a()]).unwrap();
    let a_first = CourseGraph::new(vec![a(), b()]).unwrap();
    assert_eq!(edges(&b_first), vec![(1, 0, Relation::Prereq)]);
    assert_eq!(edges(&a_first), vec![(1, 0, Relation::Prereq)]);

    // The course that requires sorts first: its edge waits for the target.
    let early = Course::new("AAA", 100, Some(coreq("BBB", 100)));
    let late = Course::new("BBB", 100, None);
    let db = CourseGraph::new(vec![late, early]).unwrap();
    assert_eq!(edges(&db), vec![(0, 1, Relation::Coreq)]);
}

#[test]
fn later_duplicates_are_dropped() {
    let first = Course::new("AAA", 100, None);
    let mut second = Course::new("AAA", 100, Some(prereq("ZZZ", 100)));
    second.name = "second".to_string();
    let db = CourseGraph::new(vec![first, second]).unwrap();
    assert_eq!(db.node_count(), 1);
    assert_eq!(edges(&db), vec![]);
    match &db.node(0).ntype {
        NodeType::Course(c) => assert_eq!(c.name, ""),
        NodeType::Or => panic!("a course was expected"),
    }
}

#[test]
fn unknown_course_is_reported() {
    let catalog = vec![
        Course::new("AAA", 100, Some(Requirement::And(vec![prereq("AAA", 200), prereq("QQQ", 100)]))),
        Course::new("AAA", 200, Some(prereq("RRR", 100))),
    ];
    match CourseGraph::new(catalog) {
        Err(BuildError::UnknownCourse(missing)) => assert_eq!(missing, id("QQQ", 100)),
        other => panic!("expected an unknown course, got {:?}", other.map(|g| edges(&g))),
    }
    assert!(CourseGraph::new(vec![]).is_ok());
}

#[test]
fn alternatives_get_a_marker_node() {
    let catalog = vec![
        Course::new("AAA", 100, None),
        Course::new("AAA", 200, None),
        Course::new(
            "CCC",
            300,
            Some(Requirement::Or(vec![prereq("AAA", 100), coreq("AAA", 200)])),
        ),
    ];
    let db = CourseGraph::new(catalog).unwrap();
    assert_eq!(db.node_count(), 4);
    assert!(matches!(db.node(3).ntype, NodeType::Or));
    assert_eq!(db.node(3).to_string(), "OR");
    assert_eq!(db.node(2).to_string(), "CCC 300");
    assert_eq!(
        edges(&db),
        vec![(2, 3, Relation::Prereq), (3, 0, Relation::Prereq), (3, 1, Relation::Coreq)]
    );
}

#[test]
fn count_dependents_hands_weights_down() {
    let mut db = CourseGraph::new(cmput_small_catalog()).unwrap();
    assert_eq!(db.count_dependents(&[1]), Ok(()));
    assert_eq!(weights(&db), vec![1, 1, 1, 1]);
    // Weights add up over calls, and a shared requirement gains from each chain.
    assert_eq!(db.count_dependents(&[3, 1]), Ok(()));
    assert_eq!(weights(&db), vec![3, 2, 7, 4]);
    assert_eq!(edges(&db).len(), 3);
}

fn or_catalog() -> Vec<Course> {
    vec![
        Course::new("AAA", 100, None),
        Course::new("AAA", 200, None),
        Course::new(
            "CCC",
            300,
            Some(Requirement::Or(vec![prereq("AAA", 100), prereq("AAA", 200)])),
        ),
        Course::new("DDD", 100, Some(prereq("AAA", 100))),
        Course::new("DDD", 200, Some(prereq("AAA", 100))),
    ]
}

#[test]
fn or_collapse_follows_the_heaviest_alternative() {
    let mut db = CourseGraph::new(or_catalog()).unwrap();
    assert_eq!(db.count_dependents(&[2, 4, 5]), Ok(()));
    assert_eq!(weights(&db), vec![3, 1, 1, 1, 1, 1]);
    let sets = db.build_sets(&[2], 5).unwrap();
    assert_eq!(members(&sets), vec![vec![2], vec![0]]);
}

#[test]
fn or_without_weights_adds_nothing() {
    let db = CourseGraph::new(or_catalog()).unwrap();
    let sets = db.build_sets(&[2], 5).unwrap();
    assert_eq!(members(&sets), vec![vec![2], vec![]]);
}

#[test]
fn capacity_one_gives_three_sets() {
    let catalog = vec![
        Course::new("AAA", 100, None),
        Course::new("AAA", 200, None),
        Course::new(
            "AAA",
            300,
            Some(Requirement::And(vec![prereq("AAA", 100), prereq("AAA", 200)])),
        ),
    ];
    let mut db = CourseGraph::new(catalog).unwrap();
    db.count_dependents(&[2]).unwrap();
    let sets = db.build_sets(&[2], 1).unwrap();
    assert!(sets.len() >= 3);
    assert!(sets.iter().all(|s| s.len() <= 1));
    assert_eq!(members(&sets), vec![vec![2], vec![1], vec![0]]);
}

#[test]
fn build_sets_puts_prerequisites_deeper_and_corequisites_beside() {
    let mut db = CourseGraph::new(cmput_small_catalog()).unwrap();
    db.count_dependents(&[1]).unwrap();
    let sets = db.build_sets(&[1], 5).unwrap();
    assert_eq!(members(&sets), vec![vec![1], vec![3, 0], vec![2]]);

    let catalog = vec![
        Course::new("AAA", 100, None),
        Course::new("AAA", 200, Some(coreq("AAA", 100))),
    ];
    let db = CourseGraph::new(catalog).unwrap();
    let sets = db.build_sets(&[1], 5).unwrap();
    assert_eq!(members(&sets), vec![vec![1, 0]]);
    assert_eq!(members(&db.build_sets(&[], 5).unwrap()), Vec::<Vec<usize>>::new());
}

#[test]
fn schedule_weighs_and_builds() {
    let mut db = CourseGraph::new(cmput_small_catalog()).unwrap();
    let sets = db.schedule(&vec![id("CMPUT", 102), id("NOPE", 100)], 5).unwrap();
    assert_eq!(members(&sets), vec![vec![1], vec![3, 0], vec![2]]);
    assert_eq!(weights(&db), vec![1, 1, 1, 1]);
}

fn cyclic() -> CourseGraph {
    CourseGraph::new(vec![
        Course::new("AAA", 100, Some(prereq("AAA", 200))),
        Course::new("AAA", 200, Some(prereq("AAA", 100))),
    ])
    .unwrap()
}

#[test]
fn a_cycle_is_an_error_and_leaves_the_weights() {
    let mut db = cyclic();
    assert_eq!(db.count_dependents(&[0]), Err(ScheduleError::CyclicRequirements));
    assert_eq!(weights(&db), vec![0, 0]);
    assert!(matches!(db.build_sets(&[0], 5), Err(ScheduleError::CyclicRequirements)));
}

#[test]
fn a_weight_above_the_limit_is_an_error() {
    let mut db = CourseGraph::new(vec![Course::new("AAA", 100, None)]).unwrap();
    let many = vec![0usize; 65535];
    assert_eq!(db.count_dependents(&many), Ok(()));
    assert_eq!(weights(&db), vec![65535]);
    assert_eq!(db.count_dependents(&[0]), Err(ScheduleError::WeightOverflow));
    assert_eq!(weights(&db), vec![65535]);
}

#[test]
fn a_set_takes_ten_courses() {
    let mut catalog = Vec::new();
    let mut reqs = Vec::new();
    for class in 100..111 {
        catalog.push(Course::new("AAA", class, None));
        reqs.push(coreq("AAA", class));
    }
    catalog.push(Course::new("CCC", 100, Some(Requirement::And(reqs.clone()))));
    let db = CourseGraph::new(catalog.clone()).unwrap();
    assert!(matches!(db.build_sets(&[11], 20), Err(ScheduleError::SetFull)));
    // With room for nine or fewer in a set, the courses move on to new sets.
    let sets = db.build_sets(&[11], 9).unwrap();
    assert_eq!(
        members(&sets),
        vec![vec![11, 10, 9, 8, 7, 6, 5, 4, 3], vec![2, 1, 0]]
    );
}

#[test]
fn course_dependency_follows_the_edges() {
    let db = CourseGraph::new(cmput_small_catalog()).unwrap();
    assert_eq!(db.course_dependency(1, 2), Dependency::After);
    assert_eq!(db.course_dependency(2, 1), Dependency::Before);
    assert_eq!(db.course_dependency(0, 2), Dependency::Independent);
    assert_eq!(db.course_dependency(1, 1), Dependency::Independent);

    // The weights say which way to look first, and change no answer.
    let mut weighed = CourseGraph::new(cmput_small_catalog()).unwrap();
    weighed.count_dependents(&[3]).unwrap();
    assert_eq!(weights(&weighed), vec![0, 0, 1, 1]);
    assert_eq!(weighed.course_dependency(1, 3), Dependency::After);
    assert_eq!(weighed.course_dependency(3, 1), Dependency::Before);
    assert_eq!(weighed.course_dependency(2, 1), Dependency::Before);
    assert_eq!(weighed.course_dependency(1, 2), Dependency::After);
    // On a cycle the walk ends all the same.
    assert_eq!(cyclic().course_dependency(0, 1), Dependency::After);
}

#[test]
fn weights_do_not_overrule_the_edges() {
    // CMPUT 102 requires CMPUT 101, and is given the greater weight.
    let mut db = CourseGraph::new(cmput_small_catalog()).unwrap();
    db.courses[NodeIndex::new(1)].val = 5;
    db.courses[NodeIndex::new(0)].val = 2;
    assert_eq!(db.course_dependency(1, 0), Dependency::After);
    assert_eq!(db.course_dependency(0, 1), Dependency::Before);
    assert_eq!(db.course_dependency(1, 2), Dependency::After);
    assert_eq!(db.course_dependency(2, 1), Dependency::Before);
    assert_eq!(db.course_dependency(0, 2), Dependency::Independent);
    let mut lhs = set_of(&[1]);
    let mut rhs = set_of(&[0]);
    assert!(!db.swap_course(&mut lhs, 0, &mut rhs, 0));
    assert!(!db.swap_course(&mut rhs, 0, &mut lhs, 0));
    assert_eq!((lhs.inner.as_slice(), rhs.inner.as_slice()), (&[1][..], &[0][..]));
    // Two courses that do not reach each other swap, whatever their weights.
    let mut rhs = set_of(&[2]);
    let mut lhs = set_of(&[0]);
    assert!(db.swap_course(&mut lhs, 0, &mut rhs, 0));
    assert_eq!((lhs.inner.as_slice(), rhs.inner.as_slice()), (&[2][..], &[0][..]));
}

fn set_of(nodes: &[usize]) -> CourseSet {
    let mut set = CourseSet::default();
    for node in nodes {
        assert!(set.push(*node));
    }
    set
}

#[test]
fn set_dependency_and_swaps() {
    let db = CourseGraph::new(cmput_small_catalog()).unwrap();
    assert_eq!(db.set_dependency(&set_of(&[1]), &set_of(&[0, 2])), Dependency::After);
    assert_eq!(db.set_dependency(&set_of(&[0, 2]), &set_of(&[1])), Dependency::Before);
    assert_eq!(db.set_dependency(&set_of(&[0]), &set_of(&[2])), Dependency::Independent);

    let mut sets = vec![set_of(&[1]), set_of(&[0]), set_of(&[2])];
    assert!(!db.swap_set(&mut sets, 0, 1));
    assert_eq!(members(&sets), vec![vec![1], vec![0], vec![2]]);
    assert!(db.swap_set(&mut sets, 1, 2));
    assert_eq!(members(&sets), vec![vec![1], vec![2], vec![0]]);

    let mut lhs = set_of(&[1, 0]);
    let mut rhs = set_of(&[3, 2]);
    assert!(!db.swap_course(&mut lhs, 0, &mut rhs, 1));
    assert_eq!((lhs.inner.as_slice(), rhs.inner.as_slice()), (&[1, 0][..], &[3, 2][..]));
    assert!(db.swap_course(&mut lhs, 1, &mut rhs, 1));
    assert_eq!((lhs.inner.as_slice(), rhs.inner.as_slice()), (&[1, 2][..], &[3, 0][..]));
}

#[test]
fn course_set_holds_ten() {
    let mut set = CourseSet::default();
    assert_eq!(set.len(), 0);
    for node in 0..10 {
        assert!(set.push(node + 5));
    }
    assert!(!set.push(99));
    assert_eq!(set.len(), 10);
    assert_eq!(set.get(3), 8);
    assert!(set.contains(14));
    assert!(!set.contains(99));
    set.set(3, 77);
    assert_eq!(set.get(3), 77);
    assert_eq!(set.get(4), 9);
}
