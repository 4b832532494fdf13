use finescale::scraper::{
    tokens_of, Lexer, LogicalOperator, OneOf, Parser, RequirementType, RequirementTypes,
    Requirements, Token,
};

fn collect(input: &str) -> Vec<Token> {
    let mut lexer = Lexer::from(input);
    let mut tokens = Vec::new();
    while let Some(token) = lexer.next() {
        tokens.push(token);
    }
    tokens
}

fn department(code: &str) -> Token {
    Token::Department(code.to_string())
}

fn prerequisite() -> RequirementTypes {
    RequirementTypes { prerequisite: true, corequisite: false }
}

fn corequisite() -> RequirementTypes {
    RequirementTypes { prerequisite: false, corequisite: true }
}

fn one_of(courses: &[&str], reqtype: RequirementTypes) -> OneOf {
    OneOf { requirement: courses.iter().map(|c| c.to_string()).collect(), reqtype }
}

#[test]
fn test_lex_delimiters() {
    let expected = vec![
        Token::Delimiter(':'),
        Token::Delimiter(';'),
        Token::Delimiter('.'),
        Token::Delimiter(','),
    ];
    assert_eq!(collect(": {}{}[];  +sdfas.d,"), expected);
}

#[test]
fn test_lex_realistic() {
    let input = "Animal behavior from an ethological perspective, with
emphasis on the mechanisms underlying a variety of behaviors. The material is
intended to complement that of ZOOL 371. Prerequisite or corequisite: ZOOL 241
or 242 or PHYSL 210, or 212 or 214. Offered in alternate years.";
    let expected = vec![
        Token::Delimiter(','),
        Token::Delimiter('.'),
        department("ZOOL"),
        Token::Number(371),
        Token::Delimiter('.'),
        Token::Type(RequirementType::Prerequisite),
        Token::Logical(LogicalOperator::Or),
        Token::Type(RequirementType::Corequisite),
        Token::Delimiter(':'),
        department("ZOOL"),
        Token::Number(241),
        Token::Logical(LogicalOperator::Or),
        Token::Number(242),
        Token::Logical(LogicalOperator::Or),
        department("PHYSL"),
        Token::Number(210),
        Token::Delimiter(','),
        Token::Logical(LogicalOperator::Or),
        Token::Number(212),
        Token::Logical(LogicalOperator::Or),
        Token::Number(214),
        Token::Delimiter('.'),
        Token::Delimiter('.'),
    ];
    assert_eq!(collect(input), expected);
    assert_eq!(tokens_of(input), expected);
}

#[test]
fn test_parse_either_prerequisite_or_corequisite() {
    let input = "Animal behavior from an ethological perspective, with emphasis on the \
                 mechanisms underlying a variety of behaviors. The material is intended to \
                 complement that of ZOOL 371. Prerequisite or corequisite: ZOOL 241 or 242 or \
                 PHYSL 210, or 212 or 214. Offered in alternate years.";
    let expected = Requirements::from(vec![one_of(
        &["ZOOL241", "ZOOL242", "PHYSL210", "PHYSL212", "PHYSL214"],
        RequirementTypes { prerequisite: true, corequisite: true },
    )]);
    assert_eq!(Parser::from(input).parse(), expected);
}

#[test]
fn test_parse_no_requirements() {
    let input = "No prerequisites or corequisites.";
    let expected = Requirements::default();
    assert_eq!(Parser::from(input).parse(), expected);
}

#[test]
fn test_parse_highschool_courses() {
    let input = "Review of numbers, inequalities, functions, analytic geometry; limits, \
                 continuity; derivatives and applications, Taylor polynomials; log, exp, and \
                 inverse trig functions. Integration, fundamental theorem of calculus \
                 substitution, trapezoidal and Simpson's rules. Prerequisites: Mathematics \
                 30-1 and Mathematics 31. Notes: (1) Credit can be obtained in at most one of \
                 MATH 100, 113, 114, 117, 134, 144, 154, or SCI 100. (2) Students in all \
                 sections of this course will write a common final examination. (3) \
                 Restricted to Engineering students. Non-Engineering students who take this \
                 course will receive *3.0.";
    let expected = Requirements { inner: vec![] };
    assert_eq!(Parser::from(input).parse(), expected);
}

#[test]
fn test_parse_semicolon() {
    let input = "Prerequisites: CMPUT 174; CMPUT 203.";
    let expected = Requirements::from(vec![
        one_of(&["CMPUT174"], prerequisite()),
        one_of(&["CMPUT203"], prerequisite()),
    ]);
    assert_eq!(Parser::from(input).parse(), expected);
}

#[test]
fn test_parse_multiple_dependencies() {
    let input = "Introduction to the basics of evaluation, including the foundations, \
                 approaches, steps, strategies, and ethical considerations of evaluation. \
                 Prerequisites: CMPUT 174 or 274; one of MATH 100, 114, 117, 134, 144, or \
                 154. Corequisites: CMPUT 175 or 275; CMPUT 272; MATH 125 or 127; one of STAT \
                 141, 151, 235, or 265, or SCI 151.";
    let expected = Requirements::from(vec![
        one_of(&["CMPUT174", "CMPUT274"], prerequisite()),
        one_of(&["MATH100", "MATH114", "MATH117", "MATH134", "MATH144", "MATH154"], prerequisite()),
        one_of(&["CMPUT175", "CMPUT275"], corequisite()),
        one_of(&["CMPUT272"], corequisite()),
        one_of(&["MATH125", "MATH127"], corequisite()),
        one_of(&["STAT141", "STAT151", "STAT235", "STAT265", "SCI151"], corequisite()),
    ]);
    assert_eq!(Parser::from(input).parse(), expected);
}

#[test]
fn words_are_told_apart() {
    assert_eq!(
        collect("And or Or and AND OR Prerequisites COREQUISITE corequisites prerequisite"),
        vec![
            Token::Logical(LogicalOperator::And),
            Token::Logical(LogicalOperator::Or),
            Token::Logical(LogicalOperator::Or),
            Token::Logical(LogicalOperator::And),
            department("AND"),
            department("OR"),
            Token::Type(RequirementType::Prerequisite),
            Token::Type(RequirementType::Corequisite),
            Token::Type(RequirementType::Corequisite),
            Token::Type(RequirementType::Prerequisite),
        ]
    );
    // A code has two to six capitals; other words are passed over.
    assert_eq!(collect("A AB ABCDEF ABCDEFG Ab é"), vec![department("AB"), department("ABCDEF")]);
    // A number too great for a machine word is passed over.
    assert_eq!(
        collect("007 99999999999999999999999999 12"),
        vec![Token::Number(7), Token::Number(12)]
    );
    assert_eq!(collect(""), vec![]);
}

#[test]
fn kinds_stay_until_a_sentence_is_read_to_its_end() {
    // The first sentence names a kind and breaks off; the kind stays for the next.
    let input = "Corequisite, Prerequisite: CMPUT 174.";
    let expected = Requirements::from(vec![one_of(
        &["CMPUT174"],
        RequirementTypes { prerequisite: true, corequisite: true },
    )]);
    assert_eq!(Parser::from(input).parse(), expected);
    // A list that the text ends before its full stop gives nothing.
    assert_eq!(Parser::from("Prerequisite: CMPUT 174").parse(), Requirements::default());
    // `and` closes a group as `;` does.
    assert_eq!(
        Parser::from("Prerequisite: CMPUT 174 and MATH 100, 101.").parse(),
        Requirements::from(vec![
            one_of(&["CMPUT174"], prerequisite()),
            one_of(&["MATH100", "MATH101"], prerequisite()),
        ])
    );
    assert_eq!(RequirementTypes::none().with(RequirementType::Corequisite), corequisite());
}
