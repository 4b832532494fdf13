//! A reader of requirement sentences by their words alone: it knows the
//! words for prerequisites and corequisites, `and` and `or`, department
//! codes, numbers and four delimiters, and passes over everything else.
//! A sentence that names its kind and lists courses gives groups of
//! courses, of which one of each group is required.

use vstd::prelude::*;
use vstd::string::*;
use crate::lexer::{
    digit,
    digits_end,
    is_letter,
    is_upper,
    lower,
    phrase_end,
    scan_digits,
    scan_phrase,
    upper,
};
use crate::text::{
    all_digits,
    chars_of,
    decimal_digits,
    decimal_value,
    is_whitespace,
    lemma_prefix_value,
    push_decimal,
    spec_is_digit,
};

verus! {

/// What a sentence of requirements states.
#[derive(Clone, Copy, Debug, PartialEq, Eq, Structural)]
pub enum RequirementType {
    Prerequisite,
    Corequisite,
}

/// The kinds that a sentence names: either, both or none.
#[derive(Clone, Copy, Debug, PartialEq, Eq, Structural)]
pub struct RequirementTypes {
    pub prerequisite: bool,
    pub corequisite: bool,
}

impl RequirementTypes {
    /// No kind.
    pub open spec fn spec_none() -> RequirementTypes {
        RequirementTypes { prerequisite: false, corequisite: false }
    }

    /// These kinds and `kind`.
    pub open spec fn spec_with(self, kind: RequirementType) -> RequirementTypes {
        match kind {
            RequirementType::Prerequisite => RequirementTypes { prerequisite: true, ..self },
            RequirementType::Corequisite => RequirementTypes { corequisite: true, ..self },
        }
    }

    /// No kind.
    pub fn none() -> (r: RequirementTypes)
        ensures
            r == Self::spec_none(),
    {
        RequirementTypes { prerequisite: false, corequisite: false }
    }

    /// These kinds and `kind`.
    pub fn with(self, kind: RequirementType) -> (r: RequirementTypes)
        ensures
            r == self.spec_with(kind),
    {
        match kind {
            RequirementType::Prerequisite => RequirementTypes {
                prerequisite: true,
                corequisite: self.corequisite,
            },
            RequirementType::Corequisite => RequirementTypes {
                prerequisite: self.prerequisite,
                corequisite: true,
            },
        }
    }
}

/// A word that joins courses.
#[derive(Clone, Copy, Debug, PartialEq, Eq, Structural)]
pub enum LogicalOperator {
    And,
    Or,
}

/// A word of a sentence.
#[derive(Debug, PartialEq)]
pub enum Token {
    Type(RequirementType),
    /// One of `:`, `,`, `.` and `;`.
    Delimiter(char),
    Logical(LogicalOperator),
    /// Two to six upper-case letters.
    Department(String),
    Number(usize),
}

/// What a `Token` stands for.
pub enum TokenView {
    Type(RequirementType),
    Delimiter(char),
    Logical(LogicalOperator),
    Department(Seq<char>),
    Number(usize),
}

impl View for Token {
    type V = TokenView;

    open spec fn view(&self) -> TokenView {
        match self {
            Token::Type(kind) => TokenView::Type(*kind),
            Token::Delimiter(c) => TokenView::Delimiter(*c),
            Token::Logical(op) => TokenView::Logical(*op),
            Token::Department(code) => TokenView::Department(code@),
            Token::Number(n) => TokenView::Number(*n),
        }
    }
}

/// The views of a list of tokens.
pub open spec fn token_views(tokens: Seq<Token>) -> Seq<TokenView> {
    tokens.map_values(|t: Token| t@)
}

/// Whether `c` is one of the four delimiters.
pub open spec fn is_delimiter(c: char) -> bool {
    c == ':' || c == ',' || c == '.' || c == ';'
}

/// The end of the run of letters that begins at `pos`.
pub open spec fn letters_end(text: Seq<char>, pos: int) -> int
    decreases text.len() - pos,
{
    if 0 <= pos < text.len() && is_letter(text[pos]) {
        letters_end(text, pos + 1)
    } else {
        pos
    }
}

/// Whether every character of `word` is an upper-case letter.
pub open spec fn all_upper(word: Seq<char>) -> bool {
    forall|i: int| 0 <= i < word.len() ==> is_upper(#[trigger] word[i])
}

/// What the word of letters between `pos` and `end` is: `and` and `or`,
/// also with a capital; a word that begins with `prerequisite` or
/// `corequisite`, in any case; a department code of two to six capitals;
/// or nothing that the reader knows.
pub open spec fn classify(text: Seq<char>, pos: int, end: int) -> Option<TokenView> {
    let word = text.subrange(pos, end);
    if word == "and"@ || word == "And"@ {
        Some(TokenView::Logical(LogicalOperator::And))
    } else if word == "or"@ || word == "Or"@ {
        Some(TokenView::Logical(LogicalOperator::Or))
    } else if phrase_end(text, pos, "prerequisite"@, 0, false) is Some {
        Some(TokenView::Type(RequirementType::Prerequisite))
    } else if phrase_end(text, pos, "corequisite"@, 0, false) is Some {
        Some(TokenView::Type(RequirementType::Corequisite))
    } else if 2 <= word.len() <= 6 && all_upper(word) {
        Some(TokenView::Department(word))
    } else {
        None
    }
}

/// The number that a run of digits denotes, where a `usize` holds it.
pub open spec fn usize_value(word: Seq<char>) -> Option<usize> {
    if word.len() > 0 && all_digits(word) && decimal_value(word) <= usize::MAX {
        Some(decimal_value(word) as usize)
    } else {
        None
    }
}

/// The next token at or after `pos`, and where the text goes on behind
/// it. White space, words that the reader does not know, numbers too
/// great for a `usize` and every other character are passed over.
pub open spec fn next_token(text: Seq<char>, pos: int) -> Option<(TokenView, int)>
    decreases text.len() - pos,
{
    if pos < 0 || pos >= text.len() {
        None
    } else if is_delimiter(text[pos]) {
        Some((TokenView::Delimiter(text[pos]), pos + 1))
    } else if is_letter(text[pos]) {
        let end = letters_end(text, pos);
        if pos < end <= text.len() {
            match classify(text, pos, end) {
                Some(token) => Some((token, end)),
                None => next_token(text, end),
            }
        } else {
            None
        }
    } else if spec_is_digit(text[pos]) {
        let end = digits_end(text, pos);
        if pos < end <= text.len() {
            match usize_value(text.subrange(pos, end)) {
                Some(n) => Some((TokenView::Number(n), end)),
                None => next_token(text, end),
            }
        } else {
            None
        }
    } else {
        next_token(text, pos + 1)
    }
}

/// The tokens of the text from `pos` on.
pub open spec fn tokens_from(text: Seq<char>, pos: int) -> Seq<TokenView>
    decreases text.len() - pos,
{
    match next_token(text, pos) {
        Some((token, end)) => if pos < end <= text.len() {
            seq![token] + tokens_from(text, end)
        } else {
            Seq::empty()
        },
        None => Seq::empty(),
    }
}

/// The next token lies behind `pos`, in the text.
pub proof fn lemma_next_token_moves(text: Seq<char>, pos: int)
    requires
        0 <= pos,
    ensures
        next_token(text, pos) matches Some((_, end)) ==> pos < end <= text.len(),
    decreases text.len() - pos,
{
    if pos < text.len() {
        if is_delimiter(text[pos]) {
        } else if is_letter(text[pos]) {
            let end = letters_end(text, pos);
            if pos < end <= text.len() && classify(text, pos, end) is None {
                lemma_next_token_moves(text, end);
            }
        } else if spec_is_digit(text[pos]) {
            let end = digits_end(text, pos);
            if pos < end <= text.len() && usize_value(text.subrange(pos, end)) is None {
                lemma_next_token_moves(text, end);
            }
        } else {
            lemma_next_token_moves(text, pos + 1);
        }
    }
}

/// Passes over the letters that begin at `pos`.
fn scan_letters(text: &Vec<char>, pos: usize) -> (end: usize)
    requires
        pos <= text.len(),
    ensures
        end == letters_end(text@, pos as int),
        pos <= end <= text.len(),
        pos < text.len() && is_letter(text@[pos as int]) ==> end > pos,
{
    let mut i = pos;
    while i < text.len() && (upper(text[i]) || lower(text[i]))
        invariant
            pos <= i <= text.len(),
            letters_end(text@, pos as int) == letters_end(text@, i as int),
            pos < text.len() && is_letter(text@[pos as int]) && i == pos ==> is_letter(
                text@[i as int],
            ),
        decreases text.len() - i,
    {
        i += 1;
    }
    i
}

/// Whether the characters of `text` between `from` and `to` are those of
/// `word`.
fn word_is(text: &Vec<char>, from: usize, to: usize, word: &str) -> (r: bool)
    requires
        from <= to <= text.len(),
    ensures
        r == (text@.subrange(from as int, to as int) == word@),
{
    let n = word.unicode_len();
    let ghost part = text@.subrange(from as int, to as int);
    if to - from != n {
        return false;
    }
    let mut i: usize = 0;
    while i < n
        invariant
            n == word@.len(),
            n == to - from,
            from <= to <= text.len(),
            part == text@.subrange(from as int, to as int),
            i <= n,
            forall|j: int| 0 <= j < i ==> part[j] == word@[j],
        decreases n - i,
    {
        assert(part[i as int] == text@[from + i]);
        if text[from + i] != word.get_char(i) {
            return false;
        }
        i += 1;
    }
    assert(part =~= word@);
    true
}

/// Whether the characters of `text` between `from` and `to` are capitals.
fn capitals(text: &Vec<char>, from: usize, to: usize) -> (r: bool)
    requires
        from <= to <= text.len(),
    ensures
        r == all_upper(text@.subrange(from as int, to as int)),
{
    let ghost part = text@.subrange(from as int, to as int);
    let mut i = from;
    while i < to
        invariant
            from <= i <= to <= text.len(),
            part == text@.subrange(from as int, to as int),
            forall|j: int| 0 <= j < i - from ==> is_upper(#[trigger] part[j]),
        decreases to - i,
    {
        assert(part[i - from] == text@[i as int]);
        if !upper(text[i]) {
            return false;
        }
        i += 1;
    }
    true
}

/// The number that the digits of `text` between `from` and `to` denote.
fn scan_usize(text: &Vec<char>, from: usize, to: usize) -> (r: Option<usize>)
    requires
        from <= to <= text.len(),
    ensures
        r == usize_value(text@.subrange(from as int, to as int)),
{
    let ghost word = text@.subrange(from as int, to as int);
    if from == to {
        return None;
    }
    let mut value: usize = 0;
    let mut i = from;
    assert(word.take(0) =~= Seq::<char>::empty());
    while i < to
        invariant
            from <= i <= to <= text.len(),
            word == text@.subrange(from as int, to as int),
            all_digits(word.take(i - from)),
            value == decimal_value(word.take(i - from)),
        decreases to - i,
    {
        let c = text[i];
        let ghost k = i - from;
        assert(word[k] == c);
        if !digit(c) {
            assert(!all_digits(word));
            return None;
        }
        let d = (c as u8 - '0' as u8) as usize;
        assert(word.take(k + 1).drop_last() =~= word.take(k));
        assert(word.take(k + 1).last() == c);
        proof {
            lemma_prefix_value(word, k + 1);
        }
        if value > (usize::MAX - d) / 10 {
            return None;
        }
        value = value * 10 + d;
        i += 1;
    }
    assert(word.take(word.len() as int) =~= word);
    Some(value)
}

/// Splits a text into tokens, one at each call of `next`.
pub struct Lexer<'a> {
    source: &'a str,
    chars: Vec<char>,
    pos: usize,
}

impl<'a> Lexer<'a> {
    /// The characters are those of the source, and the place lies in them.
    #[verifier::type_invariant]
    pub closed spec fn well_formed(&self) -> bool {
        self.chars@ == self.source@ && self.pos <= self.chars.len()
    }

    /// The text that is read.
    pub closed spec fn text(&self) -> Seq<char> {
        self.source@
    }

    /// How far the text is read, in characters.
    pub closed spec fn place(&self) -> int {
        self.pos as int
    }

    /// A lexer at the start of `source`.
    pub fn from(source: &'a str) -> (r: Lexer<'a>)
        ensures
            r.text() == source@,
            r.place() == 0,
    {
        Lexer { source, chars: chars_of(source), pos: 0 }
    }

    /// The token of the word of letters between `begin` and `end`.
    fn word_token(&self, begin: usize, end: usize) -> (r: Option<Token>)
        requires
            begin <= end <= self.text().len(),
        ensures
            match classify(self.text(), begin as int, end as int) {
                Some(token) => r matches Some(t) && t@ == token,
                None => r is None,
            },
    {
        proof {
            use_type_invariant(self);
        }
        let text = &self.chars;
        if word_is(text, begin, end, "and") || word_is(text, begin, end, "And") {
            Some(Token::Logical(LogicalOperator::And))
        } else if word_is(text, begin, end, "or") || word_is(text, begin, end, "Or") {
            Some(Token::Logical(LogicalOperator::Or))
        } else if scan_phrase(text, begin, "prerequisite", false).is_some() {
            Some(Token::Type(RequirementType::Prerequisite))
        } else if scan_phrase(text, begin, "corequisite", false).is_some() {
            Some(Token::Type(RequirementType::Corequisite))
        } else if 2 <= end - begin && end - begin <= 6 && capitals(text, begin, end) {
            Some(Token::Department(self.source.substring_char(begin, end).to_owned()))
        } else {
            None
        }
    }

    /// The next token, and `None` at the end of the text.
    pub fn next(&mut self) -> (r: Option<Token>)
        ensures
            final(self).text() == old(self).text(),
            match next_token(old(self).text(), old(self).place()) {
                Some((token, end)) => r matches Some(t) && t@ == token && final(self).place()
                    == end,
                None => r is None && final(self).place() == old(self).text().len(),
            },
    {
        proof {
            use_type_invariant(&*self);
        }
        let ghost text = self.chars@;
        let ghost start = self.pos as int;
        loop
            invariant
                text == self.chars@,
                self.chars@ == self.source@,
                self.source@ == old(self).source@,
                start == old(self).pos,
                self.pos <= self.chars.len(),
                next_token(text, start) == next_token(text, self.pos as int),
            decreases self.chars.len() - self.pos,
        {
            if self.pos >= self.chars.len() {
                return None;
            }
            let begin = self.pos;
            let ch = self.chars[begin];
            if is_whitespace(ch) {
                assert(!is_letter(ch) && !spec_is_digit(ch));
                self.pos = begin + 1;
            } else if ch == ':' || ch == ',' || ch == '.' || ch == ';' {
                self.pos = begin + 1;
                return Some(Token::Delimiter(ch));
            } else if upper(ch) || lower(ch) {
                let end = scan_letters(&self.chars, begin);
                self.pos = end;
                match self.word_token(begin, end) {
                    Some(token) => {
                        return Some(token);
                    },
                    None => {},
                }
            } else if digit(ch) {
                let end = scan_digits(&self.chars, begin);
                self.pos = end;
                match scan_usize(&self.chars, begin, end) {
                    Some(n) => {
                        return Some(Token::Number(n));
                    },
                    None => {},
                }
            } else {
                self.pos = begin + 1;
            }
        }
    }
}

/// The tokens of a text.
pub fn tokens_of(text: &str) -> (r: Vec<Token>)
    ensures
        token_views(r@) == tokens_from(text@, 0),
{
    let mut lexer = Lexer::from(text);
    let mut tokens: Vec<Token> = Vec::new();
    let ghost len = text@.len();
    proof {
        assert(token_views(tokens@) + tokens_from(text@, 0) =~= tokens_from(text@, 0));
    }
    loop
        invariant
            lexer.text() == text@,
            len == text@.len(),
            0 <= lexer.place() <= len,
            tokens_from(text@, 0) == token_views(tokens@) + tokens_from(text@, lexer.place()),
        decreases len - lexer.place(),
    {
        let ghost before = token_views(tokens@);
        let ghost at = lexer.place();
        proof {
            lemma_next_token_moves(text@, at);
        }
        match lexer.next() {
            None => {
                assert(before + Seq::<TokenView>::empty() =~= before);
                return tokens;
            },
            Some(token) => {
                tokens.push(token);
                assert(token_views(tokens@) =~= before.push(token@));
                assert(token_views(tokens@) + tokens_from(text@, lexer.place()) =~= before + (
                seq![token@] + tokens_from(text@, lexer.place())));
            },
        }
    }
}

/// A group of courses of which one is required, and the kinds of the
/// sentence that lists it.
#[derive(Debug, PartialEq)]
pub struct OneOf {
    pub requirement: Vec<String>,
    pub reqtype: RequirementTypes,
}

/// What a `OneOf` stands for.
pub struct OneOfView {
    pub requirement: Seq<Seq<char>>,
    pub reqtype: RequirementTypes,
}

/// The views of a list of course names.
pub open spec fn name_views(names: Seq<String>) -> Seq<Seq<char>> {
    names.map_values(|n: String| n@)
}

impl View for OneOf {
    type V = OneOfView;

    open spec fn view(&self) -> OneOfView {
        OneOfView { requirement: name_views(self.requirement@), reqtype: self.reqtype }
    }
}

/// The views of a list of groups.
pub open spec fn group_views(groups: Seq<OneOf>) -> Seq<OneOfView> {
    groups.map_values(|g: OneOf| g@)
}

/// The groups that a text requires.
#[derive(Debug, PartialEq)]
pub struct Requirements {
    pub inner: Vec<OneOf>,
}

impl View for Requirements {
    type V = Seq<OneOfView>;

    open spec fn view(&self) -> Seq<OneOfView> {
        group_views(self.inner@)
    }
}

impl Default for Requirements {
    fn default() -> (r: Self)
        ensures
            r@ == Seq::<OneOfView>::empty(),
    {
        let r = Requirements { inner: Vec::new() };
        assert(r@ =~= Seq::<OneOfView>::empty());
        r
    }
}

impl Requirements {
    /// The requirements of the given groups.
    pub fn from(requirements: Vec<OneOf>) -> (r: Requirements)
        ensures
            r.inner == requirements,
    {
        Requirements { inner: requirements }
    }
}

/// Where a parser stands: the tokens and how many are read, the kinds
/// named so far, whether the tokens have run out, and the groups found.
pub struct ParserView {
    pub tokens: Seq<TokenView>,
    pub at: int,
    pub kinds: RequirementTypes,
    pub eof: bool,
    pub groups: Seq<OneOfView>,
}

/// The parser before it has read a token.
pub open spec fn start_of(tokens: Seq<TokenView>) -> ParserView {
    ParserView {
        tokens,
        at: 0,
        kinds: RequirementTypes::spec_none(),
        eof: false,
        groups: Seq::empty(),
    }
}

/// What is left to do: the tokens not yet read, and one more until the
/// end has been seen.
pub open spec fn left(s: ParserView) -> int {
    s.tokens.len() - s.at + if s.eof {
        0int
    } else {
        1int
    }
}

/// Reads a token: the next, or none at the end, which is then seen.
pub open spec fn advance(s: ParserView) -> (Option<TokenView>, ParserView) {
    if 0 <= s.at < s.tokens.len() {
        (Some(s.tokens[s.at]), ParserView { at: s.at + 1, eof: false, ..s })
    } else {
        (None, ParserView { eof: true, ..s })
    }
}

/// Reads a token that must name a kind, and notes the kind.
pub open spec fn read_kind(s: ParserView) -> (bool, ParserView) {
    let (token, s1) = advance(s);
    match token {
        Some(TokenView::Type(kind)) => (true, ParserView { kinds: s1.kinds.spec_with(kind), ..s1 }),
        _ => (false, s1),
    }
}

/// Reads the head of a sentence: a kind, and then a colon, or `or` and a
/// second kind.
pub open spec fn read_head(s: ParserView) -> (bool, ParserView) {
    let (ok, s1) = read_kind(s);
    if !ok {
        (false, s1)
    } else {
        let (token, s2) = advance(s1);
        match token {
            Some(TokenView::Logical(LogicalOperator::Or)) => read_kind(s2),
            Some(TokenView::Delimiter(c)) => (c == ':', s2),
            _ => (false, s2),
        }
    }
}

/// The name of a course: the department code and the number behind it.
pub open spec fn course_name(code: Seq<char>, number: usize) -> Seq<char> {
    code + decimal_digits(number as nat)
}

/// A group without a course.
pub open spec fn empty_group(kinds: RequirementTypes) -> OneOfView {
    OneOfView { requirement: Seq::empty(), reqtype: kinds }
}

/// Reads the courses of a sentence. Until a department is named, all but
/// a department and a full stop is passed over, and a full stop ends the
/// list without a result. From then on a number names a course of the
/// department last named; `;` and `and` close the group and open the
/// next; `,` and `or` are passed over; a full stop closes the group and
/// ends the list; and any other token, or the end of the text, ends the
/// list without a result, the group that is open being lost.
pub open spec fn read_courses(s: ParserView, department: Option<Seq<char>>, group: OneOfView) -> (
    bool,
    ParserView,
)
    decreases s.tokens.len() - s.at,
{
    let (token, s1) = advance(s);
    match token {
        None => (false, s1),
        Some(token) => match department {
            None => match token {
                TokenView::Department(code) => read_courses(s1, Some(code), group),
                TokenView::Delimiter(c) => if c == '.' {
                    (false, s1)
                } else {
                    read_courses(s1, None, group)
                },
                _ => read_courses(s1, None, group),
            },
            Some(code) => match token {
                TokenView::Department(next) => read_courses(s1, Some(next), group),
                TokenView::Number(n) => read_courses(
                    s1,
                    department,
                    OneOfView {
                        requirement: group.requirement.push(course_name(code, n)),
                        reqtype: group.reqtype,
                    },
                ),
                TokenView::Logical(LogicalOperator::And) => read_courses(
                    ParserView { groups: s1.groups.push(group), ..s1 },
                    department,
                    empty_group(s1.kinds),
                ),
                TokenView::Logical(LogicalOperator::Or) => read_courses(s1, department, group),
                TokenView::Delimiter(c) => if c == ';' {
                    read_courses(
                        ParserView { groups: s1.groups.push(group), ..s1 },
                        department,
                        empty_group(s1.kinds),
                    )
                } else if c == ',' {
                    read_courses(s1, department, group)
                } else if c == '.' {
                    (true, ParserView { groups: s1.groups.push(group), ..s1 })
                } else {
                    (false, s1)
                },
                TokenView::Type(_) => (false, s1),
            },
        },
    }
}

/// Reads one sentence: its head and its courses. Only a sentence that is
/// read to its full stop forgets the kinds that were named.
pub open spec fn read_sentence(s: ParserView) -> ParserView {
    let (ok, s1) = read_head(s);
    if !ok {
        s1
    } else {
        let (done, s2) = read_courses(s1, None, empty_group(s1.kinds));
        if done {
            ParserView { kinds: RequirementTypes::spec_none(), ..s2 }
        } else {
            s2
        }
    }
}

/// Reads sentence after sentence until the end of the text has been
/// seen, and gives the groups found.
pub open spec fn read_all(s: ParserView) -> Seq<OneOfView>
    decreases left(s),
{
    if !s.eof && 0 <= left(read_sentence(s)) < left(s) {
        read_all(read_sentence(s))
    } else {
        s.groups
    }
}

/// Reading courses never leaves more to do.
pub proof fn lemma_read_courses_left(s: ParserView, department: Option<Seq<char>>, group: OneOfView)
    requires
        0 <= s.at <= s.tokens.len(),
    ensures
        left(read_courses(s, department, group).1) <= left(s),
        0 <= read_courses(s, department, group).1.at <= s.tokens.len(),
        read_courses(s, department, group).1.tokens == s.tokens,
    decreases s.tokens.len() - s.at,
{
    let (token, s1) = advance(s);
    if let Some(token) = token {
        match department {
            None => match token {
                TokenView::Department(code) => lemma_read_courses_left(s1, Some(code), group),
                TokenView::Delimiter(c) => if c != '.' {
                    lemma_read_courses_left(s1, None, group)
                },
                _ => lemma_read_courses_left(s1, None, group),
            },
            Some(code) => match token {
                TokenView::Department(next) => lemma_read_courses_left(s1, Some(next), group),
                TokenView::Number(n) => lemma_read_courses_left(
                    s1,
                    department,
                    OneOfView {
                        requirement: group.requirement.push(course_name(code, n)),
                        reqtype: group.reqtype,
                    },
                ),
                TokenView::Logical(LogicalOperator::And) => lemma_read_courses_left(
                    ParserView { groups: s1.groups.push(group), ..s1 },
                    department,
                    empty_group(s1.kinds),
                ),
                TokenView::Logical(LogicalOperator::Or) => lemma_read_courses_left(
                    s1,
                    department,
                    group,
                ),
                TokenView::Delimiter(c) => if c == ';' {
                    lemma_read_courses_left(
                        ParserView { groups: s1.groups.push(group), ..s1 },
                        department,
                        empty_group(s1.kinds),
                    )
                } else if c == ',' {
                    lemma_read_courses_left(s1, department, group)
                },
                TokenView::Type(_) => {},
            },
        }
    }
}

/// A sentence is never read without a step forward, until the end of the
/// text has been seen: so `read_all` reads every sentence.
pub proof fn lemma_read_sentence_left(s: ParserView)
    requires
        0 <= s.at <= s.tokens.len(),
        !s.eof,
    ensures
        left(read_sentence(s)) < left(s),
        0 <= read_sentence(s).at <= s.tokens.len(),
        read_sentence(s).tokens == s.tokens,
{
    let (ok, s1) = read_head(s);
    if ok {
        lemma_read_courses_left(s1, None, empty_group(s1.kinds));
    }
}

/// What a parser has done so far.
struct Reading {
    at: usize,
    kinds: RequirementTypes,
    eof: bool,
    groups: Vec<OneOf>,
}

impl Reading {
    /// Where the parser stands in `tokens`.
    spec fn state(&self, tokens: Seq<Token>) -> ParserView {
        ParserView {
            tokens: token_views(tokens),
            at: self.at as int,
            kinds: self.kinds,
            eof: self.eof,
            groups: group_views(self.groups@),
        }
    }

    /// Whether the next token is there, and reads it; at the end, notes
    /// that the end has been seen.
    fn step(&mut self, tokens: &Vec<Token>) -> (r: Option<usize>)
        requires
            old(self).at <= tokens.len(),
        ensures
            final(self).at <= tokens.len(),
            final(self).state(tokens@) == advance(old(self).state(tokens@)).1,
            match advance(old(self).state(tokens@)).0 {
                Some(token) => r matches Some(i) && i < tokens.len() && tokens@[i as int]@ == token,
                None => r is None,
            },
    {
        if self.at < tokens.len() {
            let i = self.at;
            self.at = i + 1;
            self.eof = false;
            Some(i)
        } else {
            self.eof = true;
            None
        }
    }

    /// Puts the group among those found.
    fn close_group(&mut self, group: OneOf, Ghost(tokens): Ghost<Seq<Token>>)
        ensures
            final(self).at == old(self).at,
            final(self).state(tokens) == (ParserView {
                groups: old(self).state(tokens).groups.push(group@),
                ..old(self).state(tokens)
            }),
    {
        let ghost before = group_views(self.groups@);
        self.groups.push(group);
        assert(group_views(self.groups@) =~= before.push(group@));
    }

    fn requirement_type(&mut self, tokens: &Vec<Token>) -> (ok: bool)
        requires
            old(self).at <= tokens.len(),
        ensures
            final(self).at <= tokens.len(),
            (ok, final(self).state(tokens@)) == read_kind(old(self).state(tokens@)),
    {
        match self.step(tokens) {
            Some(i) => match &tokens[i] {
                Token::Type(kind) => {
                    self.kinds = self.kinds.with(*kind);
                    true
                },
                _ => false,
            },
            None => false,
        }
    }

    fn type_decl(&mut self, tokens: &Vec<Token>) -> (ok: bool)
        requires
            old(self).at <= tokens.len(),
        ensures
            final(self).at <= tokens.len(),
            (ok, final(self).state(tokens@)) == read_head(old(self).state(tokens@)),
    {
        if !self.requirement_type(tokens) {
            return false;
        }
        match self.step(tokens) {
            Some(i) => match &tokens[i] {
                Token::Logical(LogicalOperator::Or) => self.requirement_type(tokens),
                Token::Delimiter(c) => *c == ':',
                _ => false,
            },
            None => false,
        }
    }

    fn course_list(&mut self, tokens: &Vec<Token>) -> (ok: bool)
        requires
            old(self).at <= tokens.len(),
        ensures
            final(self).at <= tokens.len(),
            (ok, final(self).state(tokens@)) == read_courses(
                old(self).state(tokens@),
                None,
                empty_group(old(self).kinds),
            ),
    {
        let ghost start = self.state(tokens@);
        let mut department: Option<String> = None;
        let mut group = OneOf { requirement: Vec::new(), reqtype: self.kinds };
        assert(group@ == empty_group(start.kinds)) by {
            assert(name_views(group.requirement@) =~= Seq::<Seq<char>>::empty());
        }
        loop
            invariant
                self.at <= tokens.len(),
                start == old(self).state(tokens@),
                read_courses(start, None, empty_group(start.kinds)) == read_courses(
                    self.state(tokens@),
                    match department {
                        Some(code) => Some(code@),
                        None => None,
                    },
                    group@,
                ),
            decreases tokens.len() - self.at,
        {
            let ghost before = self.state(tokens@);
            let ghost names = name_views(group.requirement@);
            let i = match self.step(tokens) {
                Some(i) => i,
                None => {
                    return false;
                },
            };
            match &department {
                None => match &tokens[i] {
                    Token::Department(code) => {
                        department = Some(code.clone());
                    },
                    Token::Delimiter(c) => {
                        if *c == '.' {
                            return false;
                        }
                    },
                    _ => {},
                },
                Some(current) => match &tokens[i] {
                    Token::Department(code) => {
                        department = Some(code.clone());
                    },
                    Token::Number(n) => {
                        let mut name = current.clone();
                        push_decimal(&mut name, *n as u64);
                        group.requirement.push(name);
                        assert(name_views(group.requirement@) =~= names.push(
                            course_name(current@, *n),
                        ));
                    },
                    Token::Logical(LogicalOperator::And) => {
                        let next = OneOf { requirement: Vec::new(), reqtype: self.kinds };
                        assert(next@ == empty_group(before.kinds)) by {
                            assert(name_views(next.requirement@) =~= Seq::<Seq<char>>::empty());
                        }
                        self.close_group(group, Ghost(tokens@));
                        group = next;
                    },
                    Token::Logical(LogicalOperator::Or) => {},
                    Token::Delimiter(c) => {
                        if *c == ';' {
                            let next = OneOf { requirement: Vec::new(), reqtype: self.kinds };
                            assert(next@ == empty_group(before.kinds)) by {
                                assert(name_views(next.requirement@) =~= Seq::<
                                    Seq<char>,
                                >::empty());
                            }
                            self.close_group(group, Ghost(tokens@));
                            group = next;
                        } else if *c == ',' {
                        } else if *c == '.' {
                            self.close_group(group, Ghost(tokens@));
                            return true;
                        } else {
                            return false;
                        }
                    },
                    Token::Type(_) => {
                        return false;
                    },
                },
            }
        }
    }

    fn try_parse(&mut self, tokens: &Vec<Token>)
        requires
            old(self).at <= tokens.len(),
        ensures
            final(self).at <= tokens.len(),
            final(self).state(tokens@) == read_sentence(old(self).state(tokens@)),
    {
        if !self.type_decl(tokens) {
            return ;
        }
        if !self.course_list(tokens) {
            return ;
        }
        self.kinds = RequirementTypes::none();
    }
}

/// Reads the requirements of a text, sentence by sentence.
pub struct Parser {
    tokens: Vec<Token>,
    reading: Reading,
}

impl Parser {
    /// No more tokens are read than there are.
    #[verifier::type_invariant]
    pub closed spec fn well_formed(&self) -> bool {
        self.reading.at <= self.tokens.len()
    }

    /// Where the parser stands.
    pub closed spec fn state(&self) -> ParserView {
        self.reading.state(self.tokens@)
    }

    /// A parser at the start of `text`.
    pub fn from(text: &str) -> (r: Parser)
        ensures
            r.state() == start_of(tokens_from(text@, 0)),
    {
        let reading = Reading {
            at: 0,
            kinds: RequirementTypes::none(),
            eof: false,
            groups: Vec::new(),
        };
        assert(group_views(reading.groups@) =~= Seq::<OneOfView>::empty());
        Parser { tokens: tokens_of(text), reading }
    }

    /// The groups of courses that the text requires: those of its
    /// sentences that name a kind, list courses and end in a full stop.
    pub fn parse(self) -> (r: Requirements)
        ensures
            r@ == read_all(self.state()),
    {
        proof {
            use_type_invariant(&self);
        }
        let Parser { tokens, reading } = self;
        let mut reading = reading;
        while !reading.eof
            invariant
                reading.at <= tokens.len(),
                read_all(self.state()) == read_all(reading.state(tokens@)),
            decreases left(reading.state(tokens@)),
        {
            proof {
                lemma_read_sentence_left(reading.state(tokens@));
            }
            reading.try_parse(&tokens);
        }
        Requirements { inner: reading.groups }
    }
}

} // verus!
