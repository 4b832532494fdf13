//! Finds the requirement clauses of a course description: the sentences
//! that begin with a word for prerequisites or corequisites.
//!
//! The sentences are found by regular expressions, which the `regex`
//! crate matches. What a match is is not stated here: it has a name,
//! `regex_captures`, and the contracts of this file say which matches are
//! taken and what is made of them.

use vstd::prelude::*;
use vstd::string::*;
use vstd::utf8::*;
use regex::Regex;
use crate::expr::{Expr, ExprView, all_of};
use crate::parser::{parse, spec_parse};

verus! {

#[verifier::external_type_specification]
#[verifier::external_body]
pub struct ExRegex(Regex);

#[verifier::external_type_specification]
#[verifier::external_body]
pub struct ExRegexError(regex::Error);

/// Whether a clause states prerequisites or corequisites.
#[derive(Clone, Copy, Debug, PartialEq, Eq, Structural)]
pub enum RequirementKind {
    Prerequisite,
    Corequisite,
}

/// A part of a text, by the byte offsets of its first byte and of the
/// byte behind its last.
#[derive(Clone, Copy, Debug, PartialEq, Eq, Structural)]
pub struct ByteSpan {
    pub start: usize,
    pub end: usize,
}

/// Where a pattern matches: the first and last byte offsets of the whole
/// match, the length of the group that holds the key word, and the
/// offsets of the group that holds the clause.
#[derive(Clone, Copy, Debug, PartialEq, Eq, Structural)]
pub struct Found {
    pub start: usize,
    pub end: usize,
    pub kind_len: Option<usize>,
    pub data: Option<ByteSpan>,
}

/// The pattern that a regular expression was compiled from.
pub uninterp spec fn regex_pattern(re: Regex) -> Seq<char>;

/// Whether `Regex::new` compiles `pattern`: whether the pattern is well
/// formed, and its compiled form no larger than the crate allows.
pub uninterp spec fn regex_accepts(pattern: Seq<char>) -> bool;

/// The leftmost match of `pattern` in `haystack`, with the groups named
/// `kind` and `data`; `None` where the pattern does not match.
pub uninterp spec fn regex_captures(
    pattern: Seq<char>,
    haystack: Seq<char>,
    kind: Seq<char>,
    data: Seq<char>,
) -> Option<Found>;

/// Whether the offsets of `found` lie in `bytes`, in order, each between
/// two characters.
pub open spec fn found_in(found: Found, bytes: Seq<u8>) -> bool {
    &&& found.start <= found.end <= bytes.len()
    &&& is_char_boundary(bytes, found.start as int)
    &&& is_char_boundary(bytes, found.end as int)
    &&& found.data matches Some(span) ==> {
        &&& span.start <= span.end <= bytes.len()
        &&& is_char_boundary(bytes, span.start as int)
        &&& is_char_boundary(bytes, span.end as int)
    }
}

/// `Regex::new`: compiles a pattern, or refuses it. Which of the two
/// depends on the pattern alone; the result remembers the pattern.
#[verifier::external_body]
fn compile(pattern: &str) -> (r: Result<Regex, regex::Error>)
    ensures
        r is Ok == regex_accepts(pattern@),
        r matches Ok(re) ==> regex_pattern(re) == pattern@,
{
    Regex::new(pattern)
}

/// `Regex::captures`: the leftmost match of the expression in `haystack`,
/// as the offsets of the whole match and of the groups named `kind` and
/// `data`. Offsets count bytes, lie in the haystack, and never split a
/// character.
#[verifier::external_body]
fn captures(re: &Regex, haystack: &str, kind: &str, data: &str) -> (r: Option<Found>)
    ensures
        r == regex_captures(regex_pattern(*re), haystack@, kind@, data@),
        r matches Some(found) ==> found_in(found, haystack.spec_bytes()),
{
    re.captures(haystack).map(
        |caps|
            Found {
                start: caps.get(0).map_or(0, |m| m.start()),
                end: caps.get(0).map_or(0, |m| m.end()),
                kind_len: caps.name(kind).map(|m| m.len()),
                data: caps.name(data).map(|m| ByteSpan { start: m.start(), end: m.end() }),
            },
    )
}

/// A sentence that states corequisites, in English or French, also as
/// "prerequisite or corequisite".
pub const COREQUISITE_PATTERN: &'static str = r"(?x)(?i)
        (^|\.|:)\s*
        (?<kind>(pre-(and/or)? \s or \s | pre-?requisite((\(s\)) | s)? \s or \s)?co-?requisite((\(s\)) | s)?
            | (préalable (\s? (\(s\)) | s)? \s ou \s)?concomitant(\s? (\(s\)) | s)?)
        \s?
        (:|;|.)?
        \s+
        (?<data>[^.]*)?
        (\.|$)
    ";

/// A sentence that states prerequisites, in English or French.
pub const PREREQUISITE_PATTERN: &'static str = r"(?x)(?i)
        (^|\.|:)\s*
        (?<kind>(pre-?requisite ((\(s\)) | s)?
            | préalable (\s? (\(s\)) | s)?)
            | prérequis)
        \s?
        (:|;|.)?
        \s+
        (?<data>[^.]*?)
        (\.|$)
    ";

/// A sentence that begins with the words "no prerequisite", which state
/// none.
pub const NO_PREREQUISITE_PATTERN: &'static str = r"(?x)(?i)
        (^|\.|:)\s*
        no \s (?<kind>pre-?requisite) ((\(s\)) | s)?
    ";

/// Whether the `regex` crate compiles each of the three patterns.
pub open spec fn patterns_accepted() -> bool {
    &&& regex_accepts(COREQUISITE_PATTERN@)
    &&& regex_accepts(PREREQUISITE_PATTERN@)
    &&& regex_accepts(NO_PREREQUISITE_PATTERN@)
}

/// The characters of `text` that its bytes from `from` up to `to` hold.
pub open spec fn text_between(text: Seq<char>, from: int, to: int) -> Seq<char> {
    decode_utf8(encode_utf8(text).subrange(from, to))
}

/// What the three patterns find in `haystack`, in the order of their
/// rank: corequisites, prerequisites, no prerequisite.
pub open spec fn candidates(haystack: Seq<char>) -> Seq<Option<Found>> {
    seq![
        regex_captures(COREQUISITE_PATTERN@, haystack, "kind"@, "data"@),
        regex_captures(PREREQUISITE_PATTERN@, haystack, "kind"@, "data"@),
        regex_captures(NO_PREREQUISITE_PATTERN@, haystack, "kind"@, "data"@),
    ]
}

/// The length of the key word of a match.
pub open spec fn key_len(found: Found) -> int {
    match found.kind_len {
        Some(n) => n as int,
        None => 0,
    }
}

/// Whether the match `a` of the pattern `i` is to be taken before the
/// match `b` of the pattern `j`: it begins earlier; or where both begin,
/// its key word is longer; or it is as long, and its pattern ranks first.
pub open spec fn comes_before(a: Found, i: int, b: Found, j: int) -> bool {
    a.start < b.start || (a.start == b.start && (key_len(a) > key_len(b) || (key_len(a) == key_len(
        b,
    ) && i <= j)))
}

/// Whether the pattern `w` has a match that is to be taken before every
/// other.
pub open spec fn is_first(found: Seq<Option<Found>>, w: int) -> bool {
    &&& 0 <= w < found.len()
    &&& found[w] is Some
    &&& forall|j: int|
        0 <= j < found.len() && (#[trigger] found[j]) is Some ==> comes_before(
            found[w].unwrap(),
            w,
            found[j].unwrap(),
            j,
        )
}

/// The pattern whose match is to be taken, of those from `i` on and of
/// `best`.
pub open spec fn best_from(found: Seq<Option<Found>>, i: int, best: Option<int>) -> Option<int>
    decreases found.len() - i,
{
    if i < 0 || i >= found.len() {
        best
    } else {
        match (found[i], best) {
            (None, _) => best_from(found, i + 1, best),
            (Some(_), None) => best_from(found, i + 1, Some(i)),
            (Some(f), Some(b)) => if 0 <= b < found.len() && found[b] is Some && comes_before(
                found[b].unwrap(),
                b,
                f,
                i,
            ) {
                best_from(found, i + 1, best)
            } else {
                best_from(found, i + 1, Some(i))
            },
        }
    }
}

/// Picks the match to take: the one that begins first; of those, the one
/// with the longest key word; of those, the one of the pattern that
/// ranks first.
pub fn select_match(found: &Vec<Option<Found>>) -> (r: Option<usize>)
    ensures
        r matches Some(w) ==> is_first(found@, w as int) && best_from(found@, 0, None) == Some(
            w as int,
        ),
        r is None ==> best_from(found@, 0, None) is None && forall|j: int|
            0 <= j < found@.len() ==> found@[j] is None,
{
    let mut best: Option<usize> = None;
    let mut i: usize = 0;
    while i < found.len()
        invariant
            i <= found.len(),
            best matches Some(b) ==> b < i && found@[b as int] is Some && forall|j: int|
                0 <= j < i && (#[trigger] found@[j]) is Some ==> comes_before(
                    found@[b as int].unwrap(),
                    b as int,
                    found@[j].unwrap(),
                    j,
                ),
            best is None ==> forall|j: int| 0 <= j < i ==> found@[j] is None,
            best_from(found@, 0, None) == best_from(
                found@,
                i as int,
                match best {
                    Some(b) => Some(b as int),
                    None => None,
                },
            ),
        decreases found.len() - i,
    {
        match (&found[i], best) {
            (None, _) => {},
            (Some(_), None) => {
                best = Some(i);
            },
            (Some(f), Some(b)) => {
                let g = found[b].unwrap();
                let f_len = match f.kind_len {
                    Some(n) => n,
                    None => 0,
                };
                let g_len = match g.kind_len {
                    Some(n) => n,
                    None => 0,
                };
                if g.start < f.start || (g.start == f.start && g_len >= f_len) {
                } else {
                    best = Some(i);
                }
            },
        }
        i += 1;
    }
    best
}

/// What the pattern of rank `which` states.
pub open spec fn kind_of(which: int) -> Option<RequirementKind> {
    if which == 0 {
        Some(RequirementKind::Corequisite)
    } else if which == 1 {
        Some(RequirementKind::Prerequisite)
    } else {
        None
    }
}

/// A clause in the rest of a text: its kind, and where it stands.
#[derive(Clone, Copy, Debug, PartialEq, Eq, Structural)]
pub struct Clause {
    pub kind: RequirementKind,
    pub span: ByteSpan,
}

/// What is made of the matches in the rest of a text: how far the search
/// moves on, and the clause that is found, if one is.
#[derive(Clone, Copy, Debug, PartialEq, Eq, Structural)]
pub struct Taken {
    pub advance: usize,
    pub clause: Option<Clause>,
}

/// What is made of the matches `found` in a rest of `rest_len` bytes. The
/// match to take is picked as `best_from` says. It gives its clause,
/// unless it is a match of the words "no prerequisite"; and the search
/// moves on behind the whole of the match. Nothing is taken where no
/// pattern matches, nor where the match is empty at the start of the rest
/// or ends behind it.
pub open spec fn take(found: Seq<Option<Found>>, rest_len: int) -> Option<Taken> {
    match best_from(found, 0, None) {
        None => None,
        Some(w) => if 0 <= w < found.len() && found[w] is Some {
            let m = found[w].unwrap();
            if m.end == 0 || m.end > rest_len {
                None
            } else {
                Some(
                    Taken {
                        advance: m.end,
                        clause: match (kind_of(w), m.data) {
                            (Some(kind), Some(span)) => Some(Clause { kind, span }),
                            _ => None,
                        },
                    },
                )
            }
        } else {
            None
        },
    }
}

/// Decides what to make of the matches of the three patterns in a rest of
/// `rest_len` bytes.
pub fn take_match(found: &Vec<Option<Found>>, rest_len: usize) -> (r: Option<Taken>)
    ensures
        r == take(found@, rest_len as int),
{
    let which = match select_match(found) {
        Some(which) => which,
        None => {
            return None;
        },
    };
    let m = found[which].unwrap();
    if m.end == 0 || m.end > rest_len {
        return None;
    }
    let kind = if which == 0 {
        Some(RequirementKind::Corequisite)
    } else if which == 1 {
        Some(RequirementKind::Prerequisite)
    } else {
        None
    };
    let clause = match (kind, m.data) {
        (Some(kind), Some(span)) => Some(Clause { kind, span }),
        _ => None,
    };
    Some(Taken { advance: m.end, clause })
}

/// The clause that is taken at the byte offset `at`, with its text.
pub open spec fn clause_at(text: Seq<char>, at: int, taken: Taken) -> Seq<
    (RequirementKind, Seq<char>),
> {
    match taken.clause {
        Some(c) => seq![(c.kind, text_between(text, at + c.span.start, at + c.span.end))],
        None => Seq::empty(),
    }
}

/// The clauses of `text` from the byte offset `at` on. The patterns are
/// matched against the rest of the text as if it were a text of its own;
/// the match to take gives its clause, and the search goes on behind the
/// whole of that match. It ends where nothing is taken.
pub open spec fn extract_from(text: Seq<char>, at: int) -> Seq<(RequirementKind, Seq<char>)>
    decreases encode_utf8(text).len() - at,
{
    let len = encode_utf8(text).len() as int;
    if at < 0 || at > len {
        Seq::empty()
    } else {
        match take(candidates(text_between(text, at, len)), len - at) {
            None => Seq::empty(),
            Some(taken) => if taken.advance > 0 {
                clause_at(text, at, taken) + extract_from(text, at + taken.advance)
            } else {
                Seq::empty()
            },
        }
    }
}

/// The clauses of a list, their texts as characters.
pub open spec fn clause_views(list: Seq<(RequirementKind, &str)>) -> Seq<
    (RequirementKind, Seq<char>),
> {
    list.map_values(|c: (RequirementKind, &str)| (c.0, c.1@))
}

/// A place between two characters of a part of a text lies between two
/// characters of the text, and the other way round.
proof fn lemma_boundary_within(bytes: Seq<u8>, from: int, to: int, k: int)
    requires
        valid_utf8(bytes),
        0 <= from <= to <= bytes.len(),
        valid_utf8(bytes.subrange(from, to)),
        0 <= k <= to - from,
        is_char_boundary(bytes, to),
    ensures
        is_char_boundary(bytes.subrange(from, to), k) <==> is_char_boundary(bytes, from + k),
{
    let part = bytes.subrange(from, to);
    if k == to - from {
        is_char_boundary_start_end_of_seq(part);
    } else {
        is_char_boundary_iff_not_is_continuation_byte(part, k);
        is_char_boundary_iff_not_is_continuation_byte(bytes, from + k);
        assert(part[k] == bytes[from + k]);
    }
}

/// The part of `s` between two byte offsets.
fn byte_slice<'a>(s: &'a str, from: usize, to: usize) -> (r: &'a str)
    requires
        from <= to <= s.spec_bytes().len(),
        is_char_boundary(s.spec_bytes(), from as int),
        is_char_boundary(s.spec_bytes(), to as int),
    ensures
        r.spec_bytes() == s.spec_bytes().subrange(from as int, to as int),
        r@ == text_between(s@, from as int, to as int),
{
    let ghost bytes = s.spec_bytes();
    proof {
        encode_utf8_valid_utf8(s@);
    }
    let (head, _) = s.split_at(to);
    proof {
        encode_utf8_valid_utf8(head@);
        assert(bytes.subrange(0, to as int) == head.spec_bytes());
        lemma_boundary_within(bytes, 0, to as int, from as int);
    }
    let (_, r) = head.split_at(from);
    proof {
        assert(r.spec_bytes() =~= bytes.subrange(from as int, to as int));
        encode_utf8_decode_utf8(r@);
    }
    r
}

/// The patterns for requirement clauses, compiled once.
pub struct RequirementExtractor {
    corequisite: Regex,
    prerequisite: Regex,
    negation: Regex,
}

impl RequirementExtractor {
    /// Each expression was compiled from its pattern.
    #[verifier::type_invariant]
    pub closed spec fn compiled(&self) -> bool {
        &&& regex_pattern(self.corequisite) == COREQUISITE_PATTERN@
        &&& regex_pattern(self.prerequisite) == PREREQUISITE_PATTERN@
        &&& regex_pattern(self.negation) == NO_PREREQUISITE_PATTERN@
    }

    /// Compiles the three patterns, and holds the expressions that they
    /// give; `None` where the `regex` crate refuses one of them.
    pub fn new() -> (r: Option<RequirementExtractor>)
        ensures
            r is Some == patterns_accepted(),
            r matches Some(extractor) ==> extractor.compiled(),
    {
        let corequisite = match compile(COREQUISITE_PATTERN) {
            Ok(re) => re,
            Err(_) => {
                return None;
            },
        };
        let prerequisite = match compile(PREREQUISITE_PATTERN) {
            Ok(re) => re,
            Err(_) => {
                return None;
            },
        };
        let negation = match compile(NO_PREREQUISITE_PATTERN) {
            Ok(re) => re,
            Err(_) => {
                return None;
            },
        };
        Some(RequirementExtractor { corequisite, prerequisite, negation })
    }

    /// What the three patterns find in `haystack`.
    fn find_all(&self, haystack: &str) -> (found: Vec<Option<Found>>)
        ensures
            found@ == candidates(haystack@),
            forall|j: int|
                0 <= j < found@.len() && (#[trigger] found@[j]) is Some ==> found_in(
                    found@[j].unwrap(),
                    haystack.spec_bytes(),
                ),
    {
        proof {
            use_type_invariant(self);
        }
        let mut found: Vec<Option<Found>> = Vec::new();
        found.push(captures(&self.corequisite, haystack, "kind", "data"));
        found.push(captures(&self.prerequisite, haystack, "kind", "data"));
        found.push(captures(&self.negation, haystack, "kind", "data"));
        assert(found@ =~= candidates(haystack@));
        found
    }

    /// The requirement clauses of a course description, in the order in
    /// which they stand, each with its kind.
    pub fn extract<'a>(&self, s: &'a str) -> (r: Vec<(RequirementKind, &'a str)>)
        ensures
            clause_views(r@) == extract_from(s@, 0),
    {
        let ghost bytes = s.spec_bytes();
        let len = s.as_bytes().len();
        let mut results: Vec<(RequirementKind, &'a str)> = Vec::new();
        let mut i: usize = 0;
        proof {
            encode_utf8_valid_utf8(s@);
            is_char_boundary_start_end_of_seq(bytes);
            assert(clause_views(results@) + extract_from(s@, 0) =~= extract_from(s@, 0));
        }
        loop
            invariant
                bytes == s.spec_bytes(),
                valid_utf8(bytes),
                len == bytes.len(),
                i <= len,
                is_char_boundary(bytes, i as int),
                is_char_boundary(bytes, len as int),
                extract_from(s@, 0) == clause_views(results@) + extract_from(s@, i as int),
            decreases len - i,
        {
            let rest = byte_slice(s, i, len);
            let found = self.find_all(rest);
            let taken = match take_match(&found, len - i) {
                Some(taken) => taken,
                None => {
                    assert(clause_views(results@) + Seq::<(RequirementKind, Seq<char>)>::empty()
                        =~= clause_views(results@));
                    return results;
                },
            };
            let ghost before = clause_views(results@);
            let ghost which = best_from(found@, 0, None).unwrap();
            proof {
                encode_utf8_valid_utf8(rest@);
                assert(found_in(found@[which].unwrap(), rest.spec_bytes()));
                lemma_boundary_within(bytes, i as int, len as int, taken.advance as int);
            }
            match taken.clause {
                Some(c) => {
                    let text = byte_slice(rest, c.span.start, c.span.end);
                    proof {
                        assert(rest.spec_bytes().subrange(c.span.start as int, c.span.end as int)
                            =~= bytes.subrange(i + c.span.start, i + c.span.end));
                        encode_utf8_decode_utf8(text@);
                    }
                    results.push((c.kind, text));
                    assert(clause_views(results@) =~= before + clause_at(s@, i as int, taken));
                },
                None => {
                    assert(before + clause_at(s@, i as int, taken) =~= before);
                },
            }
            assert(clause_views(results@) + extract_from(s@, i + taken.advance) =~= before + (
            clause_at(s@, i as int, taken) + extract_from(s@, i + taken.advance)));
            i = i + taken.advance;
        }
    }
}

/// The requirement clauses of a course description, in the order in
/// which they stand, each with its kind; `None` where the `regex` crate
/// refuses one of the three patterns.
pub fn extract_requirement_strings(s: &str) -> (r: Option<Vec<(RequirementKind, &str)>>)
    ensures
        r is Some == patterns_accepted(),
        r matches Some(list) ==> clause_views(list@) == extract_from(s@, 0),
{
    match RequirementExtractor::new() {
        Some(extractor) => Some(extractor.extract(s)),
        None => None,
    }
}

/// The requirements that the clauses from `i` on add to those gathered
/// so far: a clause that parses is joined to the prerequisites or to the
/// corequisites, by its kind; one that does not parse adds nothing.
pub open spec fn gather(
    clauses: Seq<(RequirementKind, Seq<char>)>,
    i: int,
    prereqs: ExprView,
    coreqs: ExprView,
) -> (ExprView, ExprView)
    decreases clauses.len() - i,
{
    if i < 0 || i >= clauses.len() {
        (prereqs, coreqs)
    } else {
        match spec_parse(clauses[i].1) {
            Err(_) => gather(clauses, i + 1, prereqs, coreqs),
            Ok(e) => match clauses[i].0 {
                RequirementKind::Prerequisite => gather(
                    clauses,
                    i + 1,
                    all_of(seq![prereqs, e]),
                    coreqs,
                ),
                RequirementKind::Corequisite => gather(
                    clauses,
                    i + 1,
                    prereqs,
                    all_of(seq![coreqs, e]),
                ),
            },
        }
    }
}

/// Joins `e` to what is required already.
fn join(so_far: Expr, e: Expr) -> (r: Expr)
    ensures
        r@ == all_of(seq![so_far@, e@]),
{
    let mut list: Vec<Expr> = Vec::new();
    list.push(so_far);
    list.push(e);
    assert(crate::expr::expr_views(list@) =~= seq![so_far@, e@]);
    Expr::all(list)
}

impl RequirementExtractor {
    /// The prerequisites and the corequisites that a course description
    /// states: the clauses of the description, each parsed, and those of
    /// one kind joined. A clause that does not parse is passed over.
    pub fn extract_parsed_requirements(&self, description: &str) -> (r: (Expr, Expr))
        ensures
            (r.0@, r.1@) == gather(
                extract_from(description@, 0),
                0,
                ExprView::Empty,
                ExprView::Empty,
            ),
    {
        let clauses = self.extract(description);
        let ghost views = clause_views(clauses@);
        let mut prereqs = Expr::Empty;
        let mut coreqs = Expr::Empty;
        let mut i: usize = 0;
        while i < clauses.len()
            invariant
                i <= clauses.len(),
                views == clause_views(clauses@),
                gather(views, 0, ExprView::Empty, ExprView::Empty) == gather(
                    views,
                    i as int,
                    prereqs@,
                    coreqs@,
                ),
            decreases clauses.len() - i,
        {
            let (kind, text) = clauses[i];
            assert(views[i as int] == (kind, text@));
            match parse(text) {
                Err(_) => {},
                Ok(e) => match kind {
                    RequirementKind::Prerequisite => {
                        prereqs = join(prereqs, e);
                    },
                    RequirementKind::Corequisite => {
                        coreqs = join(coreqs, e);
                    },
                },
            }
            i += 1;
        }
        (prereqs, coreqs)
    }
}

} // verus!
