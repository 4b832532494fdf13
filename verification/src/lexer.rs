//! The words of a requirement sentence: course topics, numbers,
//! punctuation and the key phrases of the grammar.

use vstd::prelude::*;
use vstd::string::*;
use crate::text::{
    all_digits,
    is_whitespace,
    scan_space,
    space_end,
    spec_is_digit,
    spec_is_whitespace,
};

verus! {

/// The kind of a word.
#[derive(Clone, Copy, Debug, PartialEq, Eq, Structural)]
pub enum TokenKind {
    /// Upper-case words, one space between them: `CMPUT`, `EN PH`.
    Topic,
    /// ASCII digits.
    Number,
    Comma,
    Semicolon,
    Slash,
    /// `and`
    And,
    /// `and/or`
    AndOr,
    /// `et`
    Et,
    /// `or`
    Or,
    /// `ou`
    Ou,
    /// `both`
    Both,
    /// `either`
    Either,
    /// `one of`, `any of`
    OneOf,
    /// `none`
    Nothing,
    /// `unless`
    Unless,
    /// `consent of the instructor`, `consent of the department`, each
    /// with or without `the`
    Alternative,
    /// `equivalent`
    Equivalent,
    /// `a minimum grade of`, a grade from `A` to `D` with or without a
    /// sign, and `in`
    MinimumGrade,
}

/// A word of the text: its kind, and where it stands, in characters.
#[derive(Clone, Copy, Debug, PartialEq, Eq, Structural)]
pub struct Token {
    pub kind: TokenKind,
    pub start: usize,
    pub end: usize,
}

/// Why a text has no words.
#[derive(Clone, Copy, Debug, PartialEq, Eq, Structural)]
pub enum LexError {
    /// No word begins at this character.
    UnexpectedText(usize),
    /// The number that begins at this character has more than nineteen
    /// digits.
    NumberTooLong(usize),
}

/// The most digits that a number may have.
pub const MAX_DIGITS: usize = 19;

pub open spec fn is_upper(c: char) -> bool {
    'A' <= c <= 'Z'
}

pub open spec fn is_lower(c: char) -> bool {
    'a' <= c <= 'z'
}

pub open spec fn is_letter(c: char) -> bool {
    is_upper(c) || is_lower(c)
}

/// `c` in lower case, where it is an upper-case ASCII letter.
pub open spec fn to_lower(c: char) -> char {
    if is_upper(c) {
        ((c as u8) + 32) as char
    } else {
        c
    }
}

/// The end of the run of upper-case letters that begins at `pos`.
pub open spec fn upper_end(text: Seq<char>, pos: int) -> int
    decreases text.len() - pos,
{
    if 0 <= pos < text.len() && is_upper(text[pos]) {
        upper_end(text, pos + 1)
    } else {
        pos
    }
}

/// The end of the run of digits that begins at `pos`.
pub open spec fn digits_end(text: Seq<char>, pos: int) -> int
    decreases text.len() - pos,
{
    if 0 <= pos < text.len() && spec_is_digit(text[pos]) {
        digits_end(text, pos + 1)
    } else {
        pos
    }
}

/// Whether an upper-case word may end at `end`: not where a lower-case
/// letter follows.
pub open spec fn word_stops(text: Seq<char>, end: int) -> bool {
    !(0 <= end < text.len() && is_lower(text[end]))
}

/// The end of a topic of which the words up to `end` are read: each
/// further word stands behind one space.
pub open spec fn topic_extend(text: Seq<char>, end: int) -> int
    decreases text.len() - end,
{
    if 0 <= end && end + 1 < text.len() && text[end] == ' ' && is_upper(text[end + 1]) {
        let next = upper_end(text, end + 1);
        if end < next <= text.len() && word_stops(text, next) {
            topic_extend(text, next)
        } else {
            end
        }
    } else {
        end
    }
}

/// The end of the topic that begins at `pos`, if one does.
pub open spec fn topic_end(text: Seq<char>, pos: int) -> Option<int> {
    if 0 <= pos < text.len() && is_upper(text[pos]) && word_stops(text, upper_end(text, pos)) {
        Some(topic_extend(text, upper_end(text, pos)))
    } else {
        None
    }
}

/// Where the text from `pos` on has read the phrase from `k` on: letters
/// compare without regard to case, and a space of the phrase stands for
/// any white space. A `bounded` phrase does not end before a letter.
pub open spec fn phrase_end(text: Seq<char>, pos: int, phrase: Seq<char>, k: int, bounded: bool)
    -> Option<int>
    decreases phrase.len() - k,
{
    if k < 0 || k >= phrase.len() {
        if bounded && 0 <= pos < text.len() && is_letter(text[pos]) {
            None
        } else {
            Some(pos)
        }
    } else if !(0 <= pos < text.len()) {
        None
    } else if phrase[k] == ' ' {
        if spec_is_whitespace(text[pos]) {
            phrase_end(text, space_end(text, pos), phrase, k + 1, bounded)
        } else {
            None
        }
    } else if to_lower(text[pos]) == phrase[k] {
        phrase_end(text, pos + 1, phrase, k + 1, bounded)
    } else {
        None
    }
}

/// Where `a minimum grade of C- in` and its like ends, if it begins at
/// `pos`.
pub open spec fn minimum_grade_end(text: Seq<char>, pos: int) -> Option<int> {
    match phrase_end(text, pos, "a minimum grade of "@, 0, false) {
        None => None,
        Some(g) => if 0 <= g < text.len() && 'A' <= text[g] <= 'D' {
            let s = if g + 1 < text.len() && (text[g + 1] == '+' || text[g + 1] == '-') {
                g + 2
            } else {
                g + 1
            };
            phrase_end(text, s, " in"@, 0, true)
        } else {
            None
        },
    }
}

/// The key phrase that begins at `pos`, and where it ends.
pub open spec fn keyword_at(text: Seq<char>, pos: int) -> Option<(TokenKind, int)> {
    if let Some(e) = phrase_end(text, pos, "and/or"@, 0, true) {
        Some((TokenKind::AndOr, e))
    } else if let Some(e) = phrase_end(text, pos, "and"@, 0, true) {
        Some((TokenKind::And, e))
    } else if let Some(e) = phrase_end(text, pos, "et"@, 0, true) {
        Some((TokenKind::Et, e))
    } else if let Some(e) = phrase_end(text, pos, "or"@, 0, true) {
        Some((TokenKind::Or, e))
    } else if let Some(e) = phrase_end(text, pos, "ou"@, 0, true) {
        Some((TokenKind::Ou, e))
    } else if let Some(e) = phrase_end(text, pos, "both"@, 0, true) {
        Some((TokenKind::Both, e))
    } else if let Some(e) = phrase_end(text, pos, "either"@, 0, true) {
        Some((TokenKind::Either, e))
    } else if let Some(e) = phrase_end(text, pos, "one of"@, 0, true) {
        Some((TokenKind::OneOf, e))
    } else if let Some(e) = phrase_end(text, pos, "any of"@, 0, true) {
        Some((TokenKind::OneOf, e))
    } else if let Some(e) = phrase_end(text, pos, "none"@, 0, true) {
        Some((TokenKind::Nothing, e))
    } else if let Some(e) = phrase_end(text, pos, "unless"@, 0, true) {
        Some((TokenKind::Unless, e))
    } else if let Some(e) = phrase_end(text, pos, "consent of the instructor"@, 0, true) {
        Some((TokenKind::Alternative, e))
    } else if let Some(e) = phrase_end(text, pos, "consent of instructor"@, 0, true) {
        Some((TokenKind::Alternative, e))
    } else if let Some(e) = phrase_end(text, pos, "consent of the department"@, 0, true) {
        Some((TokenKind::Alternative, e))
    } else if let Some(e) = phrase_end(text, pos, "consent of department"@, 0, true) {
        Some((TokenKind::Alternative, e))
    } else if let Some(e) = phrase_end(text, pos, "equivalent"@, 0, true) {
        Some((TokenKind::Equivalent, e))
    } else if let Some(e) = minimum_grade_end(text, pos) {
        Some((TokenKind::MinimumGrade, e))
    } else {
        None
    }
}

/// The word that begins at `pos`, which is no white space: its kind and
/// its end.
pub open spec fn token_at(text: Seq<char>, pos: int) -> Result<(TokenKind, int), LexError> {
    let c = text[pos];
    if c == ',' {
        Ok((TokenKind::Comma, pos + 1))
    } else if c == ';' {
        Ok((TokenKind::Semicolon, pos + 1))
    } else if c == '/' {
        Ok((TokenKind::Slash, pos + 1))
    } else if spec_is_digit(c) {
        if digits_end(text, pos) - pos > MAX_DIGITS {
            Err(LexError::NumberTooLong(pos as usize))
        } else {
            Ok((TokenKind::Number, digits_end(text, pos)))
        }
    } else if let Some(e) = topic_end(text, pos) {
        Ok((TokenKind::Topic, e))
    } else if let Some(found) = keyword_at(text, pos) {
        Ok(found)
    } else {
        Err(LexError::UnexpectedText(pos as usize))
    }
}

/// The position of the first `)` at or after `pos`.
pub open spec fn close_paren(text: Seq<char>, pos: int) -> Option<int>
    decreases text.len() - pos,
{
    if pos < 0 || pos >= text.len() {
        None
    } else if text[pos] == ')' {
        Some(pos)
    } else {
        close_paren(text, pos + 1)
    }
}

/// The words of the text from `pos` on. White space separates words, and
/// what stands between `(` and the next `)` is passed over.
pub open spec fn lex_from(text: Seq<char>, pos: int) -> Result<Seq<Token>, LexError>
    decreases text.len() - pos,
{
    if pos < 0 || pos >= text.len() {
        Ok(Seq::empty())
    } else if spec_is_whitespace(text[pos]) {
        lex_from(text, pos + 1)
    } else if text[pos] == '(' {
        match close_paren(text, pos + 1) {
            None => Err(LexError::UnexpectedText(pos as usize)),
            Some(j) => if pos < j < text.len() {
                lex_from(text, j + 1)
            } else {
                Err(LexError::UnexpectedText(pos as usize))
            },
        }
    } else {
        match token_at(text, pos) {
            Err(e) => Err(e),
            Ok((kind, end)) => if end <= pos || end > text.len() {
                Err(LexError::UnexpectedText(pos as usize))
            } else {
                match lex_from(text, end) {
                    Err(e) => Err(e),
                    Ok(rest) => Ok(
                        seq![Token { kind, start: pos as usize, end: end as usize }] + rest,
                    ),
                }
            },
        }
    }
}

/// The words of a text.
pub open spec fn spec_lex(text: Seq<char>) -> Result<Seq<Token>, LexError> {
    lex_from(text, 0)
}

pub(crate) fn upper(c: char) -> (r: bool)
    ensures
        r == is_upper(c),
{
    'A' <= c && c <= 'Z'
}

pub(crate) fn lower(c: char) -> (r: bool)
    ensures
        r == is_lower(c),
{
    'a' <= c && c <= 'z'
}

pub(crate) fn digit(c: char) -> (r: bool)
    ensures
        r == spec_is_digit(c),
{
    '0' <= c && c <= '9'
}

fn lower_case(c: char) -> (r: char)
    ensures
        r == to_lower(c),
{
    if upper(c) {
        ((c as u8) + 32) as char
    } else {
        c
    }
}

fn scan_upper(text: &Vec<char>, pos: usize) -> (end: usize)
    requires
        pos <= text.len(),
    ensures
        end == upper_end(text@, pos as int),
        pos <= end <= text.len(),
        pos < text.len() && is_upper(text@[pos as int]) ==> end > pos,
{
    let mut i = pos;
    while i < text.len() && upper(text[i])
        invariant
            pos <= i <= text.len(),
            upper_end(text@, pos as int) == upper_end(text@, i as int),
            pos < text.len() && is_upper(text@[pos as int]) && i == pos ==> is_upper(
                text@[i as int],
            ),
        decreases text.len() - i,
    {
        i += 1;
    }
    i
}

pub(crate) fn scan_digits(text: &Vec<char>, pos: usize) -> (end: usize)
    requires
        pos <= text.len(),
    ensures
        end == digits_end(text@, pos as int),
        pos <= end <= text.len(),
        pos < text.len() && spec_is_digit(text@[pos as int]) ==> end > pos,
{
    let mut i = pos;
    while i < text.len() && digit(text[i])
        invariant
            pos <= i <= text.len(),
            digits_end(text@, pos as int) == digits_end(text@, i as int),
            pos < text.len() && spec_is_digit(text@[pos as int]) && i == pos ==> spec_is_digit(
                text@[i as int],
            ),
        decreases text.len() - i,
    {
        i += 1;
    }
    i
}

fn stops(text: &Vec<char>, end: usize) -> (r: bool)
    ensures
        r == word_stops(text@, end as int),
{
    !(end < text.len() && lower(text[end]))
}

fn scan_topic(text: &Vec<char>, pos: usize) -> (r: Option<usize>)
    requires
        pos < text.len(),
    ensures
        r matches Some(e) ==> topic_end(text@, pos as int) == Some(e as int) && pos < e
            <= text.len(),
        r is None ==> topic_end(text@, pos as int) is None,
{
    if !upper(text[pos]) {
        return None;
    }
    let first = scan_upper(text, pos);
    if !stops(text, first) {
        return None;
    }
    let mut end = first;
    loop
        invariant
            pos < end <= text.len(),
            pos < text.len(),
            is_upper(text@[pos as int]),
            first == upper_end(text@, pos as int),
            word_stops(text@, first as int),
            topic_extend(text@, first as int) == topic_extend(text@, end as int),
        decreases text.len() - end,
    {
        if end < text.len() - 1 && text[end] == ' ' && upper(text[end + 1]) {
            let next = scan_upper(text, end + 1);
            if stops(text, next) {
                end = next;
            } else {
                return Some(end);
            }
        } else {
            return Some(end);
        }
    }
}

pub(crate) fn scan_phrase(text: &Vec<char>, pos: usize, phrase: &str, bounded: bool) -> (r: Option<usize>)
    requires
        pos <= text.len(),
    ensures
        r matches Some(e) ==> phrase_end(text@, pos as int, phrase@, 0, bounded) == Some(e as int)
            && pos <= e <= text.len(),
        r is None ==> phrase_end(text@, pos as int, phrase@, 0, bounded) is None,
{
    let n = phrase.unicode_len();
    let mut at = pos;
    let mut k: usize = 0;
    while k < n
        invariant
            n == phrase@.len(),
            k <= n,
            pos <= at <= text.len(),
            phrase_end(text@, pos as int, phrase@, 0, bounded) == phrase_end(
                text@,
                at as int,
                phrase@,
                k as int,
                bounded,
            ),
        decreases n - k,
    {
        if at >= text.len() {
            return None;
        }
        let want = phrase.get_char(k);
        if want == ' ' {
            if !is_whitespace(text[at]) {
                return None;
            }
            at = scan_space(text, at);
        } else {
            if lower_case(text[at]) != want {
                return None;
            }
            at += 1;
        }
        k += 1;
    }
    if bounded && at < text.len() && (upper(text[at]) || lower(text[at])) {
        None
    } else {
        Some(at)
    }
}

fn scan_minimum_grade(text: &Vec<char>, pos: usize) -> (r: Option<usize>)
    requires
        pos <= text.len(),
    ensures
        r matches Some(e) ==> minimum_grade_end(text@, pos as int) == Some(e as int) && pos <= e
            <= text.len(),
        r is None ==> minimum_grade_end(text@, pos as int) is None,
{
    match scan_phrase(text, pos, "a minimum grade of ", false) {
        None => None,
        Some(g) => {
            if g < text.len() && 'A' <= text[g] && text[g] <= 'D' {
                let s = if g + 1 < text.len() && (text[g + 1] == '+' || text[g + 1] == '-') {
                    g + 2
                } else {
                    g + 1
                };
                scan_phrase(text, s, " in", true)
            } else {
                None
            }
        },
    }
}

fn scan_keyword(text: &Vec<char>, pos: usize) -> (r: Option<(TokenKind, usize)>)
    requires
        pos <= text.len(),
    ensures
        r matches Some(found) ==> keyword_at(text@, pos as int) == Some((found.0, found.1 as int))
            && pos <= found.1 <= text.len(),
        r is None ==> keyword_at(text@, pos as int) is None,
{
    if let Some(e) = scan_phrase(text, pos, "and/or", true) {
        Some((TokenKind::AndOr, e))
    } else if let Some(e) = scan_phrase(text, pos, "and", true) {
        Some((TokenKind::And, e))
    } else if let Some(e) = scan_phrase(text, pos, "et", true) {
        Some((TokenKind::Et, e))
    } else if let Some(e) = scan_phrase(text, pos, "or", true) {
        Some((TokenKind::Or, e))
    } else if let Some(e) = scan_phrase(text, pos, "ou", true) {
        Some((TokenKind::Ou, e))
    } else if let Some(e) = scan_phrase(text, pos, "both", true) {
        Some((TokenKind::Both, e))
    } else if let Some(e) = scan_phrase(text, pos, "either", true) {
        Some((TokenKind::Either, e))
    } else if let Some(e) = scan_phrase(text, pos, "one of", true) {
        Some((TokenKind::OneOf, e))
    } else if let Some(e) = scan_phrase(text, pos, "any of", true) {
        Some((TokenKind::OneOf, e))
    } else if let Some(e) = scan_phrase(text, pos, "none", true) {
        Some((TokenKind::Nothing, e))
    } else if let Some(e) = scan_phrase(text, pos, "unless", true) {
        Some((TokenKind::Unless, e))
    } else if let Some(e) = scan_phrase(text, pos, "consent of the instructor", true) {
        Some((TokenKind::Alternative, e))
    } else if let Some(e) = scan_phrase(text, pos, "consent of instructor", true) {
        Some((TokenKind::Alternative, e))
    } else if let Some(e) = scan_phrase(text, pos, "consent of the department", true) {
        Some((TokenKind::Alternative, e))
    } else if let Some(e) = scan_phrase(text, pos, "consent of department", true) {
        Some((TokenKind::Alternative, e))
    } else if let Some(e) = scan_phrase(text, pos, "equivalent", true) {
        Some((TokenKind::Equivalent, e))
    } else if let Some(e) = scan_minimum_grade(text, pos) {
        Some((TokenKind::MinimumGrade, e))
    } else {
        None
    }
}

fn scan_token(text: &Vec<char>, pos: usize) -> (r: Result<(TokenKind, usize), LexError>)
    requires
        pos < text.len(),
    ensures
        match token_at(text@, pos as int) {
            Ok((kind, end)) => r == Ok::<(TokenKind, usize), LexError>((kind, end as usize)) && pos
                <= end <= text.len(),
            Err(e) => r == Err::<(TokenKind, usize), LexError>(e),
        },
{
    let c = text[pos];
    if c == ',' {
        Ok((TokenKind::Comma, pos + 1))
    } else if c == ';' {
        Ok((TokenKind::Semicolon, pos + 1))
    } else if c == '/' {
        Ok((TokenKind::Slash, pos + 1))
    } else if digit(c) {
        let end = scan_digits(text, pos);
        if end - pos > MAX_DIGITS {
            Err(LexError::NumberTooLong(pos))
        } else {
            Ok((TokenKind::Number, end))
        }
    } else if let Some(e) = scan_topic(text, pos) {
        Ok((TokenKind::Topic, e))
    } else if let Some(found) = scan_keyword(text, pos) {
        Ok(found)
    } else {
        Err(LexError::UnexpectedText(pos))
    }
}

fn find_close(text: &Vec<char>, pos: usize) -> (r: Option<usize>)
    requires
        pos <= text.len(),
    ensures
        r matches Some(j) ==> close_paren(text@, pos as int) == Some(j as int) && pos <= j
            < text.len(),
        r is None ==> close_paren(text@, pos as int) is None,
{
    let mut i = pos;
    while i < text.len()
        invariant
            pos <= i <= text.len(),
            close_paren(text@, pos as int) == close_paren(text@, i as int),
        decreases text.len() - i,
    {
        if text[i] == ')' {
            return Some(i);
        }
        i += 1;
    }
    None
}

/// What `lex_from` gives behind the words `done`.
pub open spec fn lex_after(done: Seq<Token>, rest: Result<Seq<Token>, LexError>) -> Result<
    Seq<Token>,
    LexError,
> {
    match rest {
        Ok(more) => Ok(done + more),
        Err(e) => Err(e),
    }
}

/// Splits a text into its words.
pub fn lex(text: &Vec<char>) -> (r: Result<Vec<Token>, LexError>)
    ensures
        match spec_lex(text@) {
            Ok(tokens) => r matches Ok(v) && v@ == tokens,
            Err(e) => r == Err::<Vec<Token>, LexError>(e),
        },
{
    let mut out: Vec<Token> = Vec::new();
    let mut pos: usize = 0;
    assert(lex_after(out@, lex_from(text@, 0)) == lex_from(text@, 0)) by {
        if let Ok(more) = lex_from(text@, 0) {
            assert(out@ + more =~= more);
        }
    }
    while pos < text.len()
        invariant
            pos <= text.len(),
            spec_lex(text@) == lex_after(out@, lex_from(text@, pos as int)),
        decreases text.len() - pos,
    {
        if is_whitespace(text[pos]) {
            pos += 1;
        } else if text[pos] == '(' {
            match find_close(text, pos + 1) {
                None => {
                    return Err(LexError::UnexpectedText(pos));
                },
                Some(j) => {
                    pos = j + 1;
                },
            }
        } else {
            match scan_token(text, pos) {
                Err(e) => {
                    return Err(e);
                },
                Ok((kind, end)) => {
                    if end <= pos {
                        return Err(LexError::UnexpectedText(pos));
                    }
                    let ghost before = out@;
                    let token = Token { kind, start: pos, end };
                    out.push(token);
                    proof {
                        if let Ok(more) = lex_from(text@, end as int) {
                            assert(before + (seq![token] + more) =~= out@ + more);
                        }
                    }
                    pos = end;
                },
            }
        }
    }
    assert(out@ + Seq::<Token>::empty() =~= out@);
    Ok(out)
}

/// Whether a word lies in the text, and holds digits only, and no more
/// than a number may have, where it is a number.
pub open spec fn token_ok(text: Seq<char>, token: Token) -> bool {
    &&& token.start < token.end <= text.len()
    &&& token.kind == TokenKind::Number ==> token.end - token.start <= MAX_DIGITS && all_digits(
        text.subrange(token.start as int, token.end as int),
    )
}

/// Whether every word of a list is as `token_ok` says.
pub open spec fn tokens_ok(text: Seq<char>, tokens: Seq<Token>) -> bool {
    forall|i: int| 0 <= i < tokens.len() ==> token_ok(text, #[trigger] tokens[i])
}

/// The run of digits that begins at `pos` holds digits only, and ends in
/// the text.
pub proof fn lemma_digits_run(text: Seq<char>, pos: int)
    requires
        0 <= pos <= text.len(),
    ensures
        pos <= digits_end(text, pos) <= text.len(),
        all_digits(text.subrange(pos, digits_end(text, pos))),
    decreases text.len() - pos,
{
    let end = digits_end(text, pos);
    if pos < text.len() && spec_is_digit(text[pos]) {
        lemma_digits_run(text, pos + 1);
        let run = text.subrange(pos, end);
        let rest = text.subrange(pos + 1, end);
        assert forall|i: int| 0 <= i < run.len() implies spec_is_digit(#[trigger] run[i]) by {
            if i > 0 {
                assert(run[i] == rest[i - 1]);
            }
        }
    }
}

/// The words of a text lie in the text, and its numbers are numbers.
pub proof fn lemma_lex_tokens(text: Seq<char>, pos: int)
    requires
        0 <= pos,
        text.len() <= usize::MAX,
    ensures
        lex_from(text, pos) matches Ok(tokens) ==> tokens_ok(text, tokens),
    decreases text.len() - pos,
{
    if pos < text.len() {
        if spec_is_whitespace(text[pos]) {
            lemma_lex_tokens(text, pos + 1);
        } else if text[pos] == '(' {
            if let Some(j) = close_paren(text, pos + 1) {
                if pos < j < text.len() {
                    lemma_lex_tokens(text, j + 1);
                }
            }
        } else if let Ok((kind, end)) = token_at(text, pos) {
            if pos < end <= text.len() {
                lemma_lex_tokens(text, end);
                if let Ok(rest) = lex_from(text, end) {
                    let token = Token { kind, start: pos as usize, end: end as usize };
                    let tokens = seq![token] + rest;
                    if kind == TokenKind::Number {
                        lemma_digits_run(text, pos);
                    }
                    assert(token_ok(text, token));
                    assert forall|i: int| 0 <= i < tokens.len() implies token_ok(
                        text,
                        #[trigger] tokens[i],
                    ) by {
                        if i > 0 {
                            assert(tokens[i] == rest[i - 1]);
                        }
                    }
                }
            }
        }
    }
}

} // verus!
