use finescale::extractor::{
    extract_requirement_strings, select_match, take_match, ByteSpan, Clause, Found,
    RequirementExtractor, RequirementKind, Taken,
};

fn extract(s: &str) -> Vec<(RequirementKind, &str)> {
    extract_requirement_strings(s).expect("the patterns compile")
}

fn check_no_requirements(s: &str) {
    let results = extract(s);
    assert_eq!(results, []);
}

fn check_requirement(s: &str, requirement_kind: RequirementKind, output: &str) {
    let results = extract(s);
    let &[(result_kind, result_text)] = results.as_slice() else {
        panic!("Wanted one requirement: {results:?}, {s:?}")
    };
    assert_eq!(result_kind, requirement_kind, "{result_kind:?}");
    assert_eq!(result_text, output);
}

fn check_prereq(s: &str, output: &str) {
    check_requirement(s, RequirementKind::Prerequisite, output);
}

fn check_coreq(s: &str, output: &str) {
    check_requirement(s, RequirementKind::Corequisite, output);
}

fn check_requirements(s: &str, output: &[(RequirementKind, &str)]) {
    assert_eq!(extract(s), output);
}

#[test]
fn extract_no_prerequisite() {
    check_no_requirements("sciences. No prerequisite. May");
    check_no_requirements("and has no prerequisites. This");
    check_no_requirements("Asia. No Prerequisites. Taught");
}

#[test]
fn extract_normal_prerequisites() {
    check_prereq("system. Prerequisites: Math 30 or 31. Note:", "Math 30 or 31");
}

#[test]
fn extract_prerequisite_with_period_separator() {
    check_prereq("included. Prerequisite. Mathematics 30-1. Note:", "Mathematics 30-1");
}

#[test]
fn extract_prerequisite_with_semicolon_separator() {
    check_prereq(
        "practices. Prerequisites; EASIA 101 and 3 units in EASIA at a senior level, or \
         consent of Department.",
        "EASIA 101 and 3 units in EASIA at a senior level, or consent of Department",
    );
}

#[test]
fn extract_prerequisite_without_separator() {
    check_prereq(
        "Prerequisite MATH 227, or both MATH 225 and 228",
        "MATH 227, or both MATH 225 and 228",
    );
}

#[test]
fn extract_prerequisite_with_space_before_colon_separator() {
    check_prereq(
        "Préalable(s) : un cours de niveau 200 en biologie (ZOOL 250 et IMIN ou IMINE 200 \
         recommandés).",
        "un cours de niveau 200 en biologie (ZOOL 250 et IMIN ou IMINE 200 recommandés)",
    );
}

#[test]
fn extract_prerequisite_with_rare_french_name() {
    check_prereq(
        "comptables. Prérequis: ADMI 311, 322 ou ACCTG 311, 322. Ce",
        "ADMI 311, 322 ou ACCTG 311, 322",
    );
}

#[test]
fn extract_corequisite_with_sentence_following() {
    check_coreq("Pre- or co-requisites: ECON 101 and 102.", "ECON 101 and 102");
    check_coreq(
        "statements. Pre- or co-requisites: ECON 101 and 102. Students may not receive credit \
         for both ACCTG 211 and ACCTG 311.",
        "ECON 101 and 102",
    );
}

#[test]
fn extract_prerequisite_with_extra_whitespace() {
    check_prereq("Prerequisite:   LAW 524", "LAW 524");
}

#[test]
fn extract_prerequisite_with_space_before_conditional_french_plural_marking() {
    check_prereq("Préalable (s) : PSYCE 239 ou équivalent.", "PSYCE 239 ou équivalent");
}

#[test]
fn extract_corequisite_with_prerequisite_or_corequisite_wording() {
    check_coreq("Prerequisite or corequisite: A Calculus IV course.", "A Calculus IV course");
    check_coreq("Prerequisite or Corequisite: ECON 481 and 482.", "ECON 481 and 482");
    check_coreq(
        "Prerequisites or corequisites: DES 493 and consent of Department.",
        "DES 493 and consent of Department",
    );
    check_coreq(
        "Corequisite or prerequisite: Music 121 or 125, or 124, or consent of Department. ",
        "or prerequisite: Music 121 or 125, or 124, or consent of Department",
    );
    check_coreq(
        "Pour les étudiants du BEd/Ad : Préalable ou concomitant : EDU S 101. ",
        "EDU S 101",
    );
}

#[test]
fn extract_sentence_end_lack_of_prerequisites() {
    check_no_requirements(
        "Note: Consult the Department of Psychology's website for the specific topic(s) \
         offered each year and any additional prerequisites. [Faculty of Arts]",
    );
}

#[test]
fn extract_requirements_with_extra_information_surrounding() {
    check_requirements(
        "Prerequisites: Mathematics 30-1 and Physics 30. Mathematics 31 is strongly \
         recommended. Corequisites: MATH 117 or 144. Note: MATH 113 or 114 is not acceptable \
         as a co-requisite but may be used as a pre-requisite in place of MATH 117 or 144. \
         Note: Credit may be obtained for only one of PHYS 124, 144, EN PH 131 or SCI 100. ",
        &[
            (RequirementKind::Prerequisite, "Mathematics 30-1 and Physics 30"),
            (RequirementKind::Corequisite, "MATH 117 or 144"),
        ],
    );
    check_coreq(
        " Corequisite: MATH 118 or 146. Note: MATH 115 is not acceptable as a co-requisite \
         but may be used as a pre-requisite in place of MATH 118 or 146. Note: Credit may be \
         obtained for only one of PHYS 126, 130, 146 or SCI 100. Note: To proceed to PHYS 146 \
         after taking PHYS 124, it is strongly recommended that a minimum grade of B- be \
         achieved in PHYS 124.",
        "MATH 118 or 146",
    );
    check_requirements(
        "Prerequisite: PHYS 124 (see Note following) or 144. Corequisite: MATH 118 or 146. \
         Note: MATH 115 is not acceptable as a co-requisite but may be used as a \
         pre-requisite in place of MATH 118 or 146. Note: Credit may be obtained for only one \
         of PHYS 126, 130, 146 or SCI 100. Note: To proceed to PHYS 146 after taking PHYS \
         124, it is strongly recommended that a minimum grade of B- be achieved in PHYS 124. ",
        &[
            (RequirementKind::Prerequisite, "PHYS 124 (see Note following) or 144"),
            (RequirementKind::Corequisite, "MATH 118 or 146"),
        ],
    );
}

#[test]
fn fixme_extract_prerequisite_with_internal_punctuation_trees() {
    check_prereq(
        "Prerequisite: AUEAP 145 or EAP 145 or equivalent (i.e., other L2/ESL students who \
         were not required to take the Bridging Program).",
        "AUEAP 145 or EAP 145 or equivalent (i",
    );
}

#[test]
fn fixme_extract_negative_requirement() {
    check_no_requirements("Not open to students with C LIT 100.");
    check_no_requirements(
        "Note: Credit cannot be obtained for more than one of ENGG 310, ENGG 401, ENG M 310, \
         or ENG M 401.",
    );
}

#[test]
fn extraction_tie_break_takes_both_clauses_in_order() {
    let extractor = RequirementExtractor::new().expect("the patterns compile");
    let found = extractor.extract(
        "Prerequisite: PHYS 124 (see Note following) or 144. Corequisite: MATH 118 or 146.",
    );
    assert_eq!(
        found,
        vec![
            (RequirementKind::Prerequisite, "PHYS 124 (see Note following) or 144"),
            (RequirementKind::Corequisite, "MATH 118 or 146"),
        ]
    );
}

#[test]
fn negation_yields_no_spans() {
    let extractor = RequirementExtractor::new().expect("the patterns compile");
    assert!(extractor.extract("sciences. No prerequisite. May").is_empty());
}

fn found(start: usize, end: usize, kind_len: usize, data: (usize, usize)) -> Option<Found> {
    Some(Found {
        start,
        end,
        kind_len: Some(kind_len),
        data: Some(ByteSpan { start: data.0, end: data.1 }),
    })
}

#[test]
fn the_earliest_match_is_taken() {
    let matches = vec![found(20, 40, 11, (33, 39)), found(0, 19, 12, (14, 18)), None];
    assert_eq!(select_match(&matches), Some(1));
    assert_eq!(
        take_match(&matches, 50),
        Some(Taken {
            advance: 19,
            clause: Some(Clause {
                kind: RequirementKind::Prerequisite,
                span: ByteSpan { start: 14, end: 18 },
            }),
        })
    );
    assert_eq!(select_match(&vec![None, None, None]), None);
    assert_eq!(take_match(&vec![None, None, None], 50), None);
}

#[test]
fn ties_go_to_the_longer_key_word_and_then_to_the_rank() {
    // Both begin at the same place: the longer key word wins, whatever its rank.
    let matches = vec![found(3, 30, 12, (20, 29)), found(3, 35, 28, (32, 34)), None];
    assert_eq!(select_match(&matches), Some(1));
    let matches = vec![found(3, 30, 28, (20, 29)), found(3, 35, 12, (32, 34)), None];
    assert_eq!(select_match(&matches), Some(0));
    // The same place and the same length: the pattern of the higher rank wins.
    let matches = vec![found(3, 30, 12, (20, 29)), found(3, 35, 12, (32, 34)), found(3, 9, 12, (4, 5))];
    assert_eq!(select_match(&matches), Some(0));
    assert_eq!(
        take_match(&matches, 40).unwrap().clause.unwrap().kind,
        RequirementKind::Corequisite
    );
    let matches = vec![None, found(3, 35, 12, (32, 34)), found(3, 9, 12, (4, 5))];
    assert_eq!(select_match(&matches), Some(1));
}

#[test]
fn a_negation_moves_on_without_a_clause() {
    let negation = Some(Found { start: 10, end: 25, kind_len: Some(12), data: None });
    let matches = vec![None, found(30, 50, 12, (44, 49)), negation];
    assert_eq!(select_match(&matches), Some(2));
    assert_eq!(take_match(&matches, 60), Some(Taken { advance: 25, clause: None }));
}

#[test]
fn a_match_that_does_not_move_on_ends_the_search() {
    let empty = Some(Found { start: 0, end: 0, kind_len: Some(0), data: None });
    assert_eq!(take_match(&vec![empty, None, None], 10), None);
    assert_eq!(take_match(&vec![found(0, 11, 12, (5, 10)), None, None], 10), None);
    assert!(take_match(&vec![found(0, 10, 12, (5, 10)), None, None], 10).is_some());
}

#[test]
fn a_negation_in_mid_sentence_is_no_sentence() {
    // Only a sentence that begins with the words is a negation.
    assert_eq!(extract("It has no prerequisite at all. Corequisite: MATH 100."), vec![(
        RequirementKind::Corequisite,
        "MATH 100"
    )]);
    check_no_requirements("It has no prerequisite prerequisite: MATH 100.");
}
