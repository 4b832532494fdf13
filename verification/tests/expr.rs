use finescale::actions;
use finescale::expr::{Course, Expr};
use finescale::extractor::RequirementExtractor;
use finescale::json::{course_json, CourseMeta};
use finescale::parser::{parse, ParseError};

fn course(topic: &str, number: u64) -> Expr {
    Expr::Course(Course { topic: topic.to_string(), number })
}

#[test]
fn lists_of_none_and_of_one_collapse() {
    let x = course("CMPUT", 174);
    assert!(Expr::all(vec![]) == Expr::Empty);
    assert!(Expr::any(vec![]) == Expr::Empty);
    assert!(Expr::all(vec![x.clone()]) == x);
    assert!(Expr::any(vec![Expr::Empty, x.clone()]) == x);
    assert!(Expr::all(vec![Expr::Empty, Expr::Empty]) == Expr::Empty);
    let y = course("CMPUT", 175);
    assert!(
        Expr::all(vec![Expr::Empty, x.clone(), Expr::Empty, y.clone()])
            == Expr::All(vec![x.clone(), y.clone()])
    );
    assert!(Expr::any(vec![y.clone(), x.clone()]) == Expr::Any(vec![y.clone(), x.clone()]));
    assert!(Expr::from_option(None) == Expr::Empty);
    assert!(Expr::from_option(Some(x.clone())) == x);
}

#[test]
fn expressions_print() {
    assert_eq!(Expr::Empty.to_string(), "()");
    assert_eq!(course("EN PH", 131).to_string(), "(EN PH 131)");
    let nested = Expr::All(vec![
        Expr::Any(vec![course("CMPUT", 174), course("CMPUT", 274)]),
        course("MATH", 100),
    ]);
    assert_eq!(nested.to_string(), "(all (any (CMPUT 174) (CMPUT 274)) (MATH 100))");
    assert_eq!(course("X", 0).to_string(), "(X 0)");
    assert_eq!(course("X", u64::MAX).to_string(), "(X 18446744073709551615)");
}

#[test]
fn expressions_write_json() {
    assert_eq!(Expr::Empty.to_json(), "{}");
    assert_eq!(
        course("CMPUT", 174).to_json(),
        r#"{"course":{"topic":"CMPUT","number":"174"}}"#
    );
    let nested = Expr::All(vec![
        Expr::Any(vec![course("CMPUT", 174), course("CMPUT", 274)]),
        Expr::Empty,
    ]);
    assert_eq!(
        nested.to_json(),
        r#"{"all":[{"any":[{"course":{"topic":"CMPUT","number":"174"}},{"course":{"topic":"CMPUT","number":"274"}}]},{}]}"#
    );
    assert_eq!(
        course("A\"B\\C\n\u{1}é", 7).to_json(),
        "{\"course\":{\"topic\":\"A\\\"B\\\\C\\n\\u0001é\",\"number\":\"7\"}}"
    );
}

#[test]
fn grammar_examples() {
    assert_eq!(parse("CMPUT 174 or 274").unwrap().to_string(), "(any (CMPUT 174) (CMPUT 274))");
    assert_eq!(
        parse("ECON 101 and ECON 102").unwrap().to_string(),
        "(all (ECON 101) (ECON 102))"
    );
    assert_eq!(
        parse("ACCTG 614 or 610, FIN 501 or 503").unwrap().to_string(),
        "(all (any (ACCTG 614) (ACCTG 610)) (any (FIN 501) (FIN 503)))"
    );
    assert!(
        parse("CMPUT 174 or 274").unwrap()
            == Expr::Any(vec![course("CMPUT", 174), course("CMPUT", 274)])
    );
}

#[test]
fn fillers_add_nothing() {
    assert_eq!(parse("none").unwrap().to_string(), "()");
    assert_eq!(parse("consent of the Department").unwrap().to_string(), "()");
    assert_eq!(
        parse("PHYS 124 (see Note following) or 144").unwrap().to_string(),
        "(any (PHYS 124) (PHYS 144))"
    );
    assert_eq!(
        parse("either CMPUT 174 or CMPUT 175").unwrap().to_string(),
        "(any (CMPUT 174) (CMPUT 175))"
    );
    assert_eq!(
        parse("both CMPUT 174 and/or 175").unwrap().to_string(),
        "(all (CMPUT 174) (CMPUT 175))"
    );
    assert_eq!(
        parse("CMPUT 174 et CMPUT 175 ou equivalent").unwrap().to_string(),
        "(all (CMPUT 174) (CMPUT 175))"
    );
    assert_eq!(
        parse("CMPUT 174 unless consent of instructor").unwrap().to_string(),
        "(CMPUT 174)"
    );
    assert_eq!(parse("MATH 0100").unwrap().to_string(), "(MATH 100)");
}

#[test]
fn parse_errors() {
    assert_eq!(parse("Math 30 or 31").err(), Some(ParseError::UnexpectedText(0)));
    assert_eq!(parse("CMPUT 174 plus").err(), Some(ParseError::UnexpectedText(10)));
    assert_eq!(parse("CMPUT 174 (and").err(), Some(ParseError::UnexpectedText(10)));
    assert_eq!(parse("é").err(), Some(ParseError::UnexpectedText(0)));
    assert_eq!(
        parse("CMPUT 12345678901234567890").err(),
        Some(ParseError::NumberTooLong(6))
    );
    assert_eq!(
        parse("CMPUT 9999999999999999999").unwrap().to_string(),
        "(CMPUT 9999999999999999999)"
    );
    assert_eq!(parse("").err(), Some(ParseError::NoDerivation));
    assert_eq!(parse("CMPUT 174,").err(), Some(ParseError::NoDerivation));
    assert_eq!(parse("201 or 275").err(), Some(ParseError::NoDerivation));
    let long = "CMPUT 100 or MATH 101, STAT 102 or CMPUT 103, MATH 104 or STAT 105, \
                CMPUT 106 or MATH 107, STAT 108 or CMPUT 109, MATH 110 or STAT 111, \
                CMPUT 112 or MATH 113, STAT 114 or CMPUT 115, MATH 116 or STAT 117, \
                CMPUT 118 or MATH 119 and";
    assert_eq!(parse(long).err(), Some(ParseError::TooComplex));
}

#[test]
fn actions_build_expressions() {
    let head = actions::courses_shared_topic_head_c1("MATH".to_string(), 100, vec![114, 117]);
    assert_eq!(head, ("MATH".to_string(), vec![100, 114, 117]));
    assert_eq!(
        actions::any_courses_shared_topic_c1((), head.clone(), (), 134).to_string(),
        "(any (MATH 100) (MATH 114) (MATH 117) (MATH 134))"
    );
    assert_eq!(
        actions::all_courses_shared_topic_c1((), head, (), 134).to_string(),
        "(all (MATH 100) (MATH 114) (MATH 117) (MATH 134))"
    );
    assert_eq!(
        actions::courses_shared_topic_slash_list_c1("PHYS".to_string(), 124, vec![144]).to_string(),
        "(any (PHYS 124) (PHYS 144))"
    );
    let a = course("A", 1);
    let b = course("B", 2);
    let c = course("C", 3);
    assert_eq!(
        actions::top_level_comma_list_c1(a.clone(), vec![b.clone()], c.clone()).to_string(),
        "(all (A 1) (B 2) (C 3))"
    );
    assert_eq!(
        actions::all_courses_c1((), vec![a.clone(), b.clone()], (), Expr::Empty).to_string(),
        "(all (A 1) (B 2))"
    );
    assert_eq!(
        actions::any_courses_c1((), vec![a.clone()], (), c.clone()).to_string(),
        "(any (A 1) (C 3))"
    );
    assert_eq!(
        actions::either_course_c1((), b.clone(), (), a.clone()).to_string(),
        "(any (B 2) (A 1))"
    );
    assert!(actions::comma_separated_courses2_c1(a.clone(), vec![b.clone()]) == vec![a.clone(), b.clone()]);
    assert!(actions::top_level_comma_list_element1_c1(vec![a.clone()], b.clone()) == vec![a.clone(), b.clone()]);
    assert!(actions::any3_alternative(()) == Expr::Empty);
    assert!(actions::any3_c6((), a.clone()) == a);
    assert!(actions::any1_c3(b.clone(), ()) == b);
    assert_eq!(actions::any3_course(actions::course_c1("C".to_string(), 3)).to_string(), "(C 3)");
    assert_eq!(actions::courses_shared_topic_head_element1_c1(vec![1], 2), vec![1, 2]);
}

#[test]
fn descriptions_give_prerequisites_and_corequisites() {
    let extractor = RequirementExtractor::new().unwrap();
    let (prereqs, coreqs) = extractor.extract_parsed_requirements(
        "Prerequisite: PHYS 124 (see Note following) or 144. Corequisite: MATH 118 or 146. \
         Note: Credit may be obtained for only one of PHYS 126, 130, 146 or SCI 100.",
    );
    assert_eq!(prereqs.to_string(), "(any (PHYS 124) (PHYS 144))");
    assert_eq!(coreqs.to_string(), "(any (MATH 118) (MATH 146))");

    // A clause that the grammar does not take is passed over.
    let (prereqs, coreqs) = extractor.extract_parsed_requirements(
        "Prerequisites: Mathematics 30-1 and Physics 30. Corequisites: MATH 117 or 144. \
         Prerequisite: CMPUT 174. Prerequisite: CMPUT 175.",
    );
    assert_eq!(prereqs.to_string(), "(all (CMPUT 174) (CMPUT 175))");
    assert_eq!(coreqs.to_string(), "(any (MATH 117) (MATH 144))");

    let (prereqs, coreqs) = extractor.extract_parsed_requirements("sciences. No prerequisite. May");
    assert!(prereqs == Expr::Empty && coreqs == Expr::Empty);
}

fn meta() -> CourseMeta {
    CourseMeta {
        faculty: "Science".to_string(),
        subject: "CMPUT".to_string(),
        catalog: "174".to_string(),
        course: "001234".to_string(),
        coursetitle: "Introduction to \"Computing\"".to_string(),
        credits: "3".to_string(),
        career: "UGRD".to_string(),
        term: "1850".to_string(),
        sections: "4".to_string(),
        sections_online: "0".to_string(),
    }
}

#[test]
fn course_records_write_json() {
    let prereqs = Expr::Any(vec![course("MATH", 100), course("MATH", 114)]);
    assert_eq!(
        course_json(&meta(), Some("Prerequisite: MATH 100 or 114."), &prereqs, &Expr::Empty),
        "{\"meta\":{\"faculty\":\"Science\",\"subject\":\"CMPUT\",\"catalog\":\"174\",\
         \"course\":\"001234\",\"coursetitle\":\"Introduction to \\\"Computing\\\"\",\
         \"credits\":\"3\",\"career\":\"UGRD\",\"term\":\"1850\",\"sections\":\"4\",\
         \"sections_online\":\"0\"},\"desc\":\"Prerequisite: MATH 100 or 114.\",\
         \"prereqs\":{\"any\":[{\"course\":{\"topic\":\"MATH\",\"number\":\"100\"}},\
         {\"course\":{\"topic\":\"MATH\",\"number\":\"114\"}}]},\"coreqs\":{}}"
    );
    let none = course_json(&meta(), None, &Expr::Empty, &Expr::Empty);
    assert!(none.ends_with("\"sections_online\":\"0\"},\"desc\":null,\"prereqs\":{},\"coreqs\":{}}"));
}
