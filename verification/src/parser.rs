//! The parser of requirement sentences: the search for a derivation, and
//! the expression that the derivation builds.
//!
//! Where a sentence has several derivations, the parser takes the first
//! in this order: the leftmost rule is replaced first, and by the first of
//! its productions with which the whole sentence can still be derived.
//! The search tries the productions in that order and goes back where one
//! leads nowhere; a budget of steps bounds it. `lemma_search_decides`,
//! `lemma_found_choices` and `lemma_found_first` show that it finds just
//! that derivation, `lemma_search_budget` that the budget changes nothing
//! of what is found, and `lemma_derivation_builds` that every derivation
//! builds an expression.

use vstd::prelude::*;
use vstd::string::*;
use crate::builder::{
    Value,
    ValueView,
    apply,
    lemma_apply_normal,
    put,
    run_action,
    shape_of,
    stack_normal,
    value_views,
};
use crate::expr::{Expr, ExprView, normal};
use crate::grammar::{
    Action,
    NonTerminal,
    Symbol,
    alternative_count,
    alternatives,
    push_alternative,
};
use crate::lexer::{
    LexError,
    Token,
    TokenKind,
    lemma_lex_tokens,
    lex,
    spec_lex,
    token_ok,
    tokens_ok,
};
use crate::typing::{
    Kind,
    kinds,
    lemma_apply_kinds,
    lemma_production_typed,
    lemma_run_goal_production,
    rule_kinds,
    run_goal,
    step_kinds,
};
use crate::text::{
    all_digits,
    chars_of,
    decimal_value,
    lemma_nineteen_digits_fit,
    lemma_prefix_value,
};

verus! {

/// A step of a derivation.
#[derive(Clone, Copy, Debug, PartialEq, Eq, Structural)]
pub enum Step {
    /// The next word of the text is read.
    Shift,
    /// An action runs.
    Apply(Action),
}

/// How a search ended.
#[derive(Clone, Copy, Debug, PartialEq, Eq, Structural)]
pub enum Search {
    Found,
    NotFound,
    /// The search took more steps than it may.
    Exhausted,
}

/// How a search ended, and the steps of the derivation that it found.
pub enum Outcome {
    Found(Seq<Step>),
    NotFound,
    Exhausted,
}

/// Why a sentence gives no expression.
#[derive(Clone, Copy, Debug, PartialEq, Eq, Structural)]
pub enum ParseError {
    /// No word of the grammar begins at this character.
    UnexpectedText(usize),
    /// The number that begins at this character has too many digits.
    NumberTooLong(usize),
    /// The grammar does not derive the sentence.
    NoDerivation,
    /// The search for a derivation took more steps than it may.
    TooComplex,
}

/// The most steps that a search may take.
pub const SEARCH_BUDGET: u64 = 2_000_000;

/// `outcome` with `step` before the steps that were found.
pub open spec fn after_step(step: Step, outcome: Outcome) -> Outcome {
    match outcome {
        Outcome::Found(steps) => Outcome::Found(seq![step] + steps),
        other => other,
    }
}

/// Searches for a derivation of the words from `pos` on from the symbols
/// of `stack`, the next symbol on top, that is, last. Each call takes one
/// from the budget; the result holds what is left of it.
pub open spec fn search(tokens: Seq<Token>, stack: Seq<Symbol>, pos: int, budget: nat) -> (
    Outcome,
    nat,
)
    decreases budget, 0int, 0int,
{
    if budget == 0 {
        (Outcome::Exhausted, 0)
    } else if stack.len() == 0 {
        if pos == tokens.len() {
            (Outcome::Found(Seq::empty()), (budget - 1) as nat)
        } else {
            (Outcome::NotFound, (budget - 1) as nat)
        }
    } else {
        let rest = stack.drop_last();
        match stack.last() {
            Symbol::Run(action) => {
                let (outcome, left) = search(tokens, rest, pos, (budget - 1) as nat);
                (after_step(Step::Apply(action), outcome), left)
            },
            Symbol::Word(kind) => {
                if 0 <= pos < tokens.len() && tokens[pos].kind == kind {
                    let (outcome, left) = search(tokens, rest, pos + 1, (budget - 1) as nat);
                    (after_step(Step::Shift, outcome), left)
                } else {
                    (Outcome::NotFound, (budget - 1) as nat)
                }
            },
            Symbol::Rule(rule) => search_rule(tokens, rest, pos, rule, 0, (budget - 1) as nat),
        }
    }
}

/// Tries the productions of `rule` from the one at `k` on, each in place
/// of the rule on top of `rest`, and takes the first with which a
/// derivation is found.
pub open spec fn search_rule(
    tokens: Seq<Token>,
    rest: Seq<Symbol>,
    pos: int,
    rule: NonTerminal,
    k: int,
    budget: nat,
) -> (Outcome, nat)
    decreases budget, 1int, alternatives(rule).len() - k,
{
    if k < 0 || k >= alternatives(rule).len() {
        (Outcome::NotFound, budget)
    } else {
        let (outcome, left) = search(tokens, rest + alternatives(rule)[k].reverse(), pos, budget);
        match outcome {
            Outcome::NotFound => if left <= budget {
                search_rule(tokens, rest, pos, rule, k + 1, left)
            } else {
                (Outcome::Exhausted, 0)
            },
            other => (other, left),
        }
    }
}

/// The number that the digits `s` denote, where they are digits and the
/// number fits.
pub open spec fn number_value(s: Seq<char>) -> Option<u64> {
    if s.len() > 0 && all_digits(s) && decimal_value(s) <= u64::MAX {
        Some(decimal_value(s) as u64)
    } else {
        None
    }
}

/// The stack after the word `token` is read: a topic leaves its text, a
/// number its value, a comma, a semicolon and a slash nothing, and every
/// other word the value of a word without content.
pub open spec fn shift(text: Seq<char>, token: Token, stack: Seq<ValueView>) -> Option<
    Seq<ValueView>,
> {
    if !(token.start <= token.end <= text.len()) {
        None
    } else {
        let word = text.subrange(token.start as int, token.end as int);
        match token.kind {
            TokenKind::Topic => Some(stack.push(ValueView::Topic(word))),
            TokenKind::Number => match number_value(word) {
                Some(n) => Some(stack.push(ValueView::Number(n))),
                None => None,
            },
            TokenKind::Comma | TokenKind::Semicolon | TokenKind::Slash => Some(stack),
            _ => Some(stack.push(ValueView::Unit)),
        }
    }
}

/// The stack of values after the steps from `i` on have run; `next` is
/// the word that the next shift reads.
pub open spec fn evaluate(
    text: Seq<char>,
    tokens: Seq<Token>,
    steps: Seq<Step>,
    i: int,
    next: int,
    stack: Seq<ValueView>,
) -> Option<Seq<ValueView>>
    decreases steps.len() - i,
{
    if i < 0 || i >= steps.len() {
        Some(stack)
    } else {
        match steps[i] {
            Step::Shift => if 0 <= next < tokens.len() {
                match shift(text, tokens[next], stack) {
                    None => None,
                    Some(after) => evaluate(text, tokens, steps, i + 1, next + 1, after),
                }
            } else {
                None
            },
            Step::Apply(action) => match apply(shape_of(action), stack) {
                None => None,
                Some(after) => evaluate(text, tokens, steps, i + 1, next, after),
            },
        }
    }
}

/// The symbols from which a sentence is derived: the top rule.
pub open spec fn start() -> Seq<Symbol> {
    seq![Symbol::Rule(NonTerminal::TopLevel)]
}

/// The expression that the steps of a derivation build: the one value
/// that they leave.
pub open spec fn built(text: Seq<char>, tokens: Seq<Token>, steps: Seq<Step>) -> Option<ExprView> {
    match evaluate(text, tokens, steps, 0, 0, Seq::empty()) {
        Some(stack) => if stack.len() == 1 && stack[0] is Expr {
            Some(stack[0]->Expr_0)
        } else {
            None
        },
        None => None,
    }
}

/// The expression of a sentence: that which the first derivation of its
/// words builds. (Every derivation builds one: `lemma_derivation_builds`.)
pub open spec fn spec_parse(text: Seq<char>) -> Result<ExprView, ParseError> {
    match spec_lex(text) {
        Err(LexError::UnexpectedText(at)) => Err(ParseError::UnexpectedText(at)),
        Err(LexError::NumberTooLong(at)) => Err(ParseError::NumberTooLong(at)),
        Ok(tokens) => match search(tokens, start(), 0, SEARCH_BUDGET as nat).0 {
            Outcome::Exhausted => Err(ParseError::TooComplex),
            Outcome::NotFound => Err(ParseError::NoDerivation),
            Outcome::Found(steps) => match built(text, tokens, steps) {
                Some(e) => Ok(e),
                None => Err(ParseError::NoDerivation),
            },
        },
    }
}

/// The steps of a derivation leave a stack of normal values normal.
pub proof fn lemma_evaluate_normal(
    text: Seq<char>,
    tokens: Seq<Token>,
    steps: Seq<Step>,
    i: int,
    next: int,
    stack: Seq<ValueView>,
)
    requires
        stack_normal(stack),
        evaluate(text, tokens, steps, i, next, stack) is Some,
    ensures
        stack_normal(evaluate(text, tokens, steps, i, next, stack).unwrap()),
    decreases steps.len() - i,
{
    if 0 <= i < steps.len() {
        match steps[i] {
            Step::Shift => {
                let after = shift(text, tokens[next], stack).unwrap();
                assert forall|k: int| 0 <= k < after.len() implies crate::builder::value_normal(
                    #[trigger] after[k],
                ) by {
                    if k < stack.len() {
                        assert(after[k] == stack[k]);
                    }
                }
                lemma_evaluate_normal(text, tokens, steps, i + 1, next + 1, after);
            },
            Step::Apply(action) => {
                lemma_apply_normal(shape_of(action), stack);
                lemma_evaluate_normal(
                    text,
                    tokens,
                    steps,
                    i + 1,
                    next,
                    apply(shape_of(action), stack).unwrap(),
                );
            },
        }
    }
}

/// The expression of a sentence holds no list with fewer than two members
/// and no list with an empty member.
pub proof fn lemma_parse_normal(text: Seq<char>)
    ensures
        spec_parse(text) matches Ok(e) ==> normal(e),
{
    if let Ok(tokens) = spec_lex(text) {
        if let Outcome::Found(steps) = search(tokens, start(), 0, SEARCH_BUDGET as nat).0 {
            if evaluate(text, tokens, steps, 0, 0, Seq::empty()) is Some {
                lemma_evaluate_normal(text, tokens, steps, 0, 0, Seq::empty());
                let stack = evaluate(text, tokens, steps, 0, 0, Seq::empty()).unwrap();
                if stack.len() == 1 {
                    assert(crate::builder::value_normal(stack[0]));
                }
            }
        }
    }
}

/// Whether the productions `choices`, taken one after the other for the
/// rule that is on top at that time, derive the words from `pos` on from
/// the symbols of `goal`.
pub open spec fn replay(tokens: Seq<Token>, goal: Seq<Symbol>, pos: int, choices: Seq<int>) -> bool
    decreases choices.len(), goal.len(),
{
    if goal.len() == 0 {
        pos == tokens.len() && choices.len() == 0
    } else {
        let rest = goal.drop_last();
        match goal.last() {
            Symbol::Run(_) => replay(tokens, rest, pos, choices),
            Symbol::Word(kind) => 0 <= pos < tokens.len() && tokens[pos].kind == kind && replay(
                tokens,
                rest,
                pos + 1,
                choices,
            ),
            Symbol::Rule(rule) => choices.len() > 0 && 0 <= choices[0] < alternatives(rule).len()
                && replay(
                tokens,
                rest + alternatives(rule)[choices[0]].reverse(),
                pos,
                choices.drop_first(),
            ),
        }
    }
}

/// Whether the grammar derives the words from `pos` on from the symbols
/// of `goal`: whether some choice of productions does.
pub open spec fn derives(tokens: Seq<Token>, goal: Seq<Symbol>, pos: int) -> bool {
    exists|choices: Seq<int>| replay(tokens, goal, pos, choices)
}

/// What the search finds is a derivation.
pub proof fn lemma_search_sound(tokens: Seq<Token>, goal: Seq<Symbol>, pos: int, budget: nat) -> (choices:
    Seq<int>)
    requires
        search(tokens, goal, pos, budget).0 is Found,
    ensures
        replay(tokens, goal, pos, choices),
    decreases budget, 0int, 0int,
{
    if goal.len() == 0 {
        Seq::empty()
    } else {
        let rest = goal.drop_last();
        match goal.last() {
            Symbol::Run(_) => lemma_search_sound(tokens, rest, pos, (budget - 1) as nat),
            Symbol::Word(_) => lemma_search_sound(tokens, rest, pos + 1, (budget - 1) as nat),
            Symbol::Rule(rule) => {
                assert(rest.push(Symbol::Rule(rule)) =~= goal);
                lemma_search_rule_sound(tokens, rest, pos, rule, 0, (budget - 1) as nat)
            },
        }
    }
}

/// `lemma_search_sound`, for the productions of a rule.
pub proof fn lemma_search_rule_sound(
    tokens: Seq<Token>,
    rest: Seq<Symbol>,
    pos: int,
    rule: NonTerminal,
    k: int,
    budget: nat,
) -> (choices: Seq<int>)
    requires
        0 <= k,
        search_rule(tokens, rest, pos, rule, k, budget).0 is Found,
    ensures
        replay(tokens, rest.push(Symbol::Rule(rule)), pos, choices),
    decreases budget, 1int, alternatives(rule).len() - k,
{
    let goal = rest.push(Symbol::Rule(rule));
    assert(goal.drop_last() =~= rest);
    let next = rest + alternatives(rule)[k].reverse();
    let (outcome, left) = search(tokens, next, pos, budget);
    if outcome is Found {
        let tail = lemma_search_sound(tokens, next, pos, budget);
        let choices = seq![k] + tail;
        assert(choices.drop_first() =~= tail);
        choices
    } else {
        lemma_search_rule_sound(tokens, rest, pos, rule, k + 1, left)
    }
}

/// Where the search finds nothing, and has not run out of its budget,
/// there is no derivation.
pub proof fn lemma_search_complete(
    tokens: Seq<Token>,
    goal: Seq<Symbol>,
    pos: int,
    budget: nat,
    choices: Seq<int>,
)
    requires
        search(tokens, goal, pos, budget).0 is NotFound,
    ensures
        !replay(tokens, goal, pos, choices),
    decreases budget, 0int, 0int,
{
    if goal.len() > 0 {
        let rest = goal.drop_last();
        match goal.last() {
            Symbol::Run(_) => {
                lemma_search_complete(tokens, rest, pos, (budget - 1) as nat, choices);
            },
            Symbol::Word(kind) => {
                if 0 <= pos < tokens.len() && tokens[pos].kind == kind {
                    lemma_search_complete(tokens, rest, pos + 1, (budget - 1) as nat, choices);
                }
            },
            Symbol::Rule(rule) => {
                if choices.len() > 0 && 0 <= choices[0] < alternatives(rule).len() {
                    lemma_search_rule_complete(
                        tokens,
                        rest,
                        pos,
                        rule,
                        0,
                        (budget - 1) as nat,
                        choices[0],
                        choices.drop_first(),
                    );
                }
            },
        }
    }
}

/// `lemma_search_complete`, for the production `chosen` of a rule, which
/// is among those that are tried from `k` on.
pub proof fn lemma_search_rule_complete(
    tokens: Seq<Token>,
    rest: Seq<Symbol>,
    pos: int,
    rule: NonTerminal,
    k: int,
    budget: nat,
    chosen: int,
    choices: Seq<int>,
)
    requires
        0 <= k <= chosen < alternatives(rule).len(),
        search_rule(tokens, rest, pos, rule, k, budget).0 is NotFound,
    ensures
        !replay(tokens, rest + alternatives(rule)[chosen].reverse(), pos, choices),
    decreases budget, 1int, alternatives(rule).len() - k,
{
    let next = rest + alternatives(rule)[k].reverse();
    let (outcome, left) = search(tokens, next, pos, budget);
    if k == chosen {
        lemma_search_complete(tokens, next, pos, budget, choices);
    } else {
        lemma_search_rule_complete(tokens, rest, pos, rule, k + 1, left, chosen, choices);
    }
}

/// The search decides whether the grammar derives a sentence, unless it
/// runs out of its budget: it finds a derivation only where there is
/// one, and finds none only where there is none.
pub proof fn lemma_search_decides(tokens: Seq<Token>, goal: Seq<Symbol>, pos: int, budget: nat)
    ensures
        search(tokens, goal, pos, budget).0 is Found ==> derives(tokens, goal, pos),
        search(tokens, goal, pos, budget).0 is NotFound ==> !derives(tokens, goal, pos),
{
    if search(tokens, goal, pos, budget).0 is Found {
        let choices = lemma_search_sound(tokens, goal, pos, budget);
    }
    if search(tokens, goal, pos, budget).0 is NotFound {
        assert forall|choices: Seq<int>| !replay(tokens, goal, pos, choices) by {
            lemma_search_complete(tokens, goal, pos, budget, choices);
        }
    }
}

/// The steps of the derivation that the productions `choices` give.
pub open spec fn trace(tokens: Seq<Token>, goal: Seq<Symbol>, pos: int, choices: Seq<int>) -> Seq<
    Step,
>
    decreases choices.len(), goal.len(),
{
    if goal.len() == 0 {
        Seq::empty()
    } else {
        let rest = goal.drop_last();
        match goal.last() {
            Symbol::Run(action) => seq![Step::Apply(action)] + trace(tokens, rest, pos, choices),
            Symbol::Word(_) => seq![Step::Shift] + trace(tokens, rest, pos + 1, choices),
            Symbol::Rule(rule) => if choices.len() > 0 && 0 <= choices[0] < alternatives(
                rule,
            ).len() {
                trace(
                    tokens,
                    rest + alternatives(rule)[choices[0]].reverse(),
                    pos,
                    choices.drop_first(),
                )
            } else {
                Seq::empty()
            },
        }
    }
}

/// Whether the choices `a` come before the choices `b`, or are the same:
/// where they part, `a` takes the earlier production.
pub open spec fn comes_first(a: Seq<int>, b: Seq<int>) -> bool
    decreases a.len(),
{
    if a.len() == 0 {
        true
    } else if b.len() == 0 {
        false
    } else if a[0] != b[0] {
        a[0] < b[0]
    } else {
        comes_first(a.drop_first(), b.drop_first())
    }
}

/// The productions of the derivation that the search finds.
pub open spec fn found_choices(tokens: Seq<Token>, goal: Seq<Symbol>, pos: int, budget: nat) -> Seq<
    int,
>
    decreases budget, 0int, 0int,
{
    if budget == 0 || goal.len() == 0 {
        Seq::empty()
    } else {
        let rest = goal.drop_last();
        match goal.last() {
            Symbol::Run(_) => found_choices(tokens, rest, pos, (budget - 1) as nat),
            Symbol::Word(_) => found_choices(tokens, rest, pos + 1, (budget - 1) as nat),
            Symbol::Rule(rule) => rule_choices(tokens, rest, pos, rule, 0, (budget - 1) as nat),
        }
    }
}

/// `found_choices`, for the productions of a rule from `k` on.
pub open spec fn rule_choices(
    tokens: Seq<Token>,
    rest: Seq<Symbol>,
    pos: int,
    rule: NonTerminal,
    k: int,
    budget: nat,
) -> Seq<int>
    decreases budget, 1int, alternatives(rule).len() - k,
{
    if k < 0 || k >= alternatives(rule).len() {
        Seq::empty()
    } else {
        let next = rest + alternatives(rule)[k].reverse();
        let (outcome, left) = search(tokens, next, pos, budget);
        match outcome {
            Outcome::Found(_) => seq![k] + found_choices(tokens, next, pos, budget),
            Outcome::NotFound => if left <= budget {
                rule_choices(tokens, rest, pos, rule, k + 1, left)
            } else {
                Seq::empty()
            },
            Outcome::Exhausted => Seq::empty(),
        }
    }
}

/// The productions of the derivation that the search finds derive the
/// sentence, and give the steps that the search gives.
pub proof fn lemma_found_choices(tokens: Seq<Token>, goal: Seq<Symbol>, pos: int, budget: nat)
    requires
        search(tokens, goal, pos, budget).0 is Found,
    ensures
        replay(tokens, goal, pos, found_choices(tokens, goal, pos, budget)),
        trace(tokens, goal, pos, found_choices(tokens, goal, pos, budget)) == search(
            tokens,
            goal,
            pos,
            budget,
        ).0->Found_0,
    decreases budget, 0int, 0int,
{
    if goal.len() > 0 {
        let rest = goal.drop_last();
        match goal.last() {
            Symbol::Run(_) => {
                lemma_found_choices(tokens, rest, pos, (budget - 1) as nat);
            },
            Symbol::Word(_) => {
                lemma_found_choices(tokens, rest, pos + 1, (budget - 1) as nat);
            },
            Symbol::Rule(rule) => {
                assert(rest.push(Symbol::Rule(rule)) =~= goal);
                lemma_rule_choices(tokens, rest, pos, rule, 0, (budget - 1) as nat);
            },
        }
    }
}

/// `lemma_found_choices`, for the productions of a rule.
pub proof fn lemma_rule_choices(
    tokens: Seq<Token>,
    rest: Seq<Symbol>,
    pos: int,
    rule: NonTerminal,
    k: int,
    budget: nat,
)
    requires
        0 <= k,
        search_rule(tokens, rest, pos, rule, k, budget).0 is Found,
    ensures
        replay(
            tokens,
            rest.push(Symbol::Rule(rule)),
            pos,
            rule_choices(tokens, rest, pos, rule, k, budget),
        ),
        trace(
            tokens,
            rest.push(Symbol::Rule(rule)),
            pos,
            rule_choices(tokens, rest, pos, rule, k, budget),
        ) == search_rule(tokens, rest, pos, rule, k, budget).0->Found_0,
    decreases budget, 1int, alternatives(rule).len() - k,
{
    let goal = rest.push(Symbol::Rule(rule));
    assert(goal.drop_last() =~= rest);
    let next = rest + alternatives(rule)[k].reverse();
    let (outcome, left) = search(tokens, next, pos, budget);
    if outcome is Found {
        lemma_found_choices(tokens, next, pos, budget);
        let tail = found_choices(tokens, next, pos, budget);
        assert((seq![k] + tail).drop_first() =~= tail);
    } else {
        lemma_rule_choices(tokens, rest, pos, rule, k + 1, left);
    }
}

/// The derivation that the search finds comes before every other
/// derivation of the sentence.
pub proof fn lemma_found_first(
    tokens: Seq<Token>,
    goal: Seq<Symbol>,
    pos: int,
    budget: nat,
    other: Seq<int>,
)
    requires
        search(tokens, goal, pos, budget).0 is Found,
        replay(tokens, goal, pos, other),
    ensures
        comes_first(found_choices(tokens, goal, pos, budget), other),
    decreases budget, 0int, 0int,
{
    if goal.len() > 0 {
        let rest = goal.drop_last();
        match goal.last() {
            Symbol::Run(_) => {
                lemma_found_first(tokens, rest, pos, (budget - 1) as nat, other);
            },
            Symbol::Word(_) => {
                lemma_found_first(tokens, rest, pos + 1, (budget - 1) as nat, other);
            },
            Symbol::Rule(rule) => {
                lemma_rule_first(
                    tokens,
                    rest,
                    pos,
                    rule,
                    0,
                    (budget - 1) as nat,
                    other[0],
                    other.drop_first(),
                );
                assert(seq![other[0]] + other.drop_first() =~= other);
            },
        }
    }
}

/// `lemma_found_first`, for a derivation that takes the production
/// `chosen` of a rule, which is among those that are tried from `k` on.
pub proof fn lemma_rule_first(
    tokens: Seq<Token>,
    rest: Seq<Symbol>,
    pos: int,
    rule: NonTerminal,
    k: int,
    budget: nat,
    chosen: int,
    other: Seq<int>,
)
    requires
        0 <= k <= chosen < alternatives(rule).len(),
        search_rule(tokens, rest, pos, rule, k, budget).0 is Found,
        replay(tokens, rest + alternatives(rule)[chosen].reverse(), pos, other),
    ensures
        comes_first(rule_choices(tokens, rest, pos, rule, k, budget), seq![chosen] + other),
    decreases budget, 1int, alternatives(rule).len() - k,
{
    let next = rest + alternatives(rule)[k].reverse();
    let (outcome, left) = search(tokens, next, pos, budget);
    let whole = seq![chosen] + other;
    assert(whole.drop_first() =~= other);
    if outcome is Found {
        let tail = found_choices(tokens, next, pos, budget);
        assert((seq![k] + tail).drop_first() =~= tail);
        if k == chosen {
            lemma_found_first(tokens, next, pos, budget, other);
        }
    } else {
        if k == chosen {
            lemma_search_complete(tokens, next, pos, budget, other);
        } else {
            lemma_rule_first(tokens, rest, pos, rule, k + 1, left, chosen, other);
        }
    }
}

/// The number of words that the steps read.
pub open spec fn shifts(steps: Seq<Step>) -> nat
    decreases steps.len(),
{
    if steps.len() == 0 {
        0
    } else if steps.last() == Step::Shift {
        shifts(steps.drop_last()) + 1
    } else {
        shifts(steps.drop_last())
    }
}

/// A step before the others adds its own word to those that are read.
proof fn lemma_shifts_first(step: Step, steps: Seq<Step>)
    ensures
        shifts(seq![step] + steps) == shifts(steps) + if step == Step::Shift {
            1nat
        } else {
            0nat
        },
    decreases steps.len(),
{
    let all = seq![step] + steps;
    if steps.len() == 0 {
        assert(all.drop_last() =~= Seq::<Step>::empty());
        assert(all.last() == step);
        assert(shifts(all.drop_last()) == 0);
    } else {
        assert(all.drop_last() =~= seq![step] + steps.drop_last());
        assert(all.last() == steps.last());
        lemma_shifts_first(step, steps.drop_last());
    }
}

/// A derivation that is found reads every word from `pos` on, and a
/// search never takes more than its budget.
pub proof fn lemma_search_reads_all(tokens: Seq<Token>, stack: Seq<Symbol>, pos: int, budget: nat)
    requires
        0 <= pos <= tokens.len(),
    ensures
        search(tokens, stack, pos, budget).0 matches Outcome::Found(steps) ==> shifts(steps)
            == tokens.len() - pos,
        search(tokens, stack, pos, budget).1 <= budget,
    decreases budget, 0int, 0int,
{
    if budget > 0 && stack.len() > 0 {
        let rest = stack.drop_last();
        match stack.last() {
            Symbol::Run(action) => {
                lemma_search_reads_all(tokens, rest, pos, (budget - 1) as nat);
                if let Outcome::Found(steps) = search(tokens, rest, pos, (budget - 1) as nat).0 {
                    lemma_shifts_first(Step::Apply(action), steps);
                }
            },
            Symbol::Word(kind) => {
                if pos < tokens.len() && tokens[pos].kind == kind {
                    lemma_search_reads_all(tokens, rest, pos + 1, (budget - 1) as nat);
                    if let Outcome::Found(steps) = search(
                        tokens,
                        rest,
                        pos + 1,
                        (budget - 1) as nat,
                    ).0 {
                        lemma_shifts_first(Step::Shift, steps);
                    }
                }
            },
            Symbol::Rule(rule) => {
                lemma_search_rule_reads_all(tokens, rest, pos, rule, 0, (budget - 1) as nat);
            },
        }
    }
}

/// `lemma_search_reads_all`, for the productions of a rule.
pub proof fn lemma_search_rule_reads_all(
    tokens: Seq<Token>,
    rest: Seq<Symbol>,
    pos: int,
    rule: NonTerminal,
    k: int,
    budget: nat,
)
    requires
        0 <= pos <= tokens.len(),
    ensures
        search_rule(tokens, rest, pos, rule, k, budget).0 matches Outcome::Found(steps) ==> shifts(
            steps,
        ) == tokens.len() - pos,
        search_rule(tokens, rest, pos, rule, k, budget).1 <= budget,
    decreases budget, 1int, alternatives(rule).len() - k,
{
    if 0 <= k < alternatives(rule).len() {
        let next = rest + alternatives(rule)[k].reverse();
        lemma_search_reads_all(tokens, next, pos, budget);
        let (outcome, left) = search(tokens, next, pos, budget);
        if outcome is NotFound {
            lemma_search_rule_reads_all(tokens, rest, pos, rule, k + 1, left);
        }
    }
}

/// What a search finds, or that it finds nothing, does not depend on its
/// budget: a greater budget gives the same, and leaves as much more.
pub proof fn lemma_search_budget(
    tokens: Seq<Token>,
    stack: Seq<Symbol>,
    pos: int,
    budget: nat,
    more: nat,
)
    requires
        !(search(tokens, stack, pos, budget).0 is Exhausted),
    ensures
        search(tokens, stack, pos, budget + more) == (
            search(tokens, stack, pos, budget).0,
            search(tokens, stack, pos, budget).1 + more,
        ),
    decreases budget, 0int, 0int,
{
    if budget > 0 && stack.len() > 0 {
        let rest = stack.drop_last();
        match stack.last() {
            Symbol::Run(action) => {
                lemma_search_budget(tokens, rest, pos, (budget - 1) as nat, more);
            },
            Symbol::Word(kind) => {
                if 0 <= pos < tokens.len() && tokens[pos].kind == kind {
                    lemma_search_budget(tokens, rest, pos + 1, (budget - 1) as nat, more);
                }
            },
            Symbol::Rule(rule) => {
                lemma_search_rule_budget(tokens, rest, pos, rule, 0, (budget - 1) as nat, more);
            },
        }
    }
}

/// `lemma_search_budget`, for the productions of a rule.
pub proof fn lemma_search_rule_budget(
    tokens: Seq<Token>,
    rest: Seq<Symbol>,
    pos: int,
    rule: NonTerminal,
    k: int,
    budget: nat,
    more: nat,
)
    requires
        !(search_rule(tokens, rest, pos, rule, k, budget).0 is Exhausted),
    ensures
        search_rule(tokens, rest, pos, rule, k, budget + more) == (
            search_rule(tokens, rest, pos, rule, k, budget).0,
            search_rule(tokens, rest, pos, rule, k, budget).1 + more,
        ),
    decreases budget, 1int, alternatives(rule).len() - k,
{
    if 0 <= k < alternatives(rule).len() {
        let next = rest + alternatives(rule)[k].reverse();
        let (outcome, left) = search(tokens, next, pos, budget);
        lemma_search_budget(tokens, next, pos, budget, more);
        if outcome is NotFound && left <= budget {
            lemma_search_rule_budget(tokens, rest, pos, rule, k + 1, left, more);
        }
    }
}

/// A word of a text leaves a value of its kind.
proof fn lemma_shift_kinds(text: Seq<char>, token: Token, stack: Seq<ValueView>)
    requires
        token_ok(text, token),
    ensures
        shift(text, token, stack) is Some,
        Some(kinds(shift(text, token, stack).unwrap())) == step_kinds(
            Symbol::Word(token.kind),
            kinds(stack),
        ),
{
    let word = text.subrange(token.start as int, token.end as int);
    if token.kind == TokenKind::Number {
        lemma_nineteen_digits_fit(word);
    }
    let after = shift(text, token, stack).unwrap();
    assert(kinds(after) =~= step_kinds(Symbol::Word(token.kind), kinds(stack)).unwrap());
}

/// The steps behind a first step run as they run alone.
proof fn lemma_evaluate_rest(
    text: Seq<char>,
    tokens: Seq<Token>,
    step: Step,
    rest: Seq<Step>,
    i: int,
    next: int,
    stack: Seq<ValueView>,
)
    requires
        0 <= i,
    ensures
        evaluate(text, tokens, seq![step] + rest, i + 1, next, stack) == evaluate(
            text,
            tokens,
            rest,
            i,
            next,
            stack,
        ),
    decreases rest.len() - i,
{
    let all = seq![step] + rest;
    if i < rest.len() {
        assert(all[i + 1] == rest[i]);
        match rest[i] {
            Step::Shift => {
                if 0 <= next < tokens.len() {
                    if let Some(after) = shift(text, tokens[next], stack) {
                        lemma_evaluate_rest(text, tokens, step, rest, i + 1, next + 1, after);
                    }
                }
            },
            Step::Apply(action) => {
                if let Some(after) = apply(shape_of(action), stack) {
                    lemma_evaluate_rest(text, tokens, step, rest, i + 1, next, after);
                }
            },
        }
    }
}

/// The steps of a derivation that is found run on a stack of values of
/// the kinds that the symbols take, and leave the kinds that the symbols
/// leave.
proof fn lemma_search_typed(
    text: Seq<char>,
    tokens: Seq<Token>,
    goal: Seq<Symbol>,
    pos: int,
    budget: nat,
    stack: Seq<ValueView>,
)
    requires
        0 <= pos <= tokens.len(),
        tokens_ok(text, tokens),
        run_goal(goal, kinds(stack)) is Some,
        search(tokens, goal, pos, budget).0 is Found,
    ensures
        evaluate(text, tokens, search(tokens, goal, pos, budget).0->Found_0, 0, pos, stack) is Some,
        Some(
            kinds(
                evaluate(
                    text,
                    tokens,
                    search(tokens, goal, pos, budget).0->Found_0,
                    0,
                    pos,
                    stack,
                ).unwrap(),
            ),
        ) == run_goal(goal, kinds(stack)),
    decreases budget, 0int, 0int,
{
    if goal.len() > 0 {
        let rest = goal.drop_last();
        match goal.last() {
            Symbol::Run(action) => {
                let steps = search(tokens, rest, pos, (budget - 1) as nat).0->Found_0;
                lemma_apply_kinds(shape_of(action), stack);
                let after = apply(shape_of(action), stack).unwrap();
                lemma_search_typed(text, tokens, rest, pos, (budget - 1) as nat, after);
                lemma_evaluate_rest(text, tokens, Step::Apply(action), steps, 0, pos, after);
                let all = seq![Step::Apply(action)] + steps;
                assert(all[0] == Step::Apply(action));
                assert(search(tokens, goal, pos, budget).0 == Outcome::Found(all));
            },
            Symbol::Word(kind) => {
                let steps = search(tokens, rest, pos + 1, (budget - 1) as nat).0->Found_0;
                lemma_shift_kinds(text, tokens[pos], stack);
                let after = shift(text, tokens[pos], stack).unwrap();
                lemma_search_typed(text, tokens, rest, pos + 1, (budget - 1) as nat, after);
                lemma_evaluate_rest(text, tokens, Step::Shift, steps, 0, pos + 1, after);
                let all = seq![Step::Shift] + steps;
                assert(all[0] == Step::Shift);
                assert(search(tokens, goal, pos, budget).0 == Outcome::Found(all));
            },
            Symbol::Rule(rule) => {
                assert(rest.push(Symbol::Rule(rule)) =~= goal);
                lemma_search_rule_typed(text, tokens, rest, pos, rule, 0, (budget - 1) as nat, stack);
            },
        }
    }
}

/// `lemma_search_typed`, for the productions of a rule.
proof fn lemma_search_rule_typed(
    text: Seq<char>,
    tokens: Seq<Token>,
    rest: Seq<Symbol>,
    pos: int,
    rule: NonTerminal,
    k: int,
    budget: nat,
    stack: Seq<ValueView>,
)
    requires
        0 <= pos <= tokens.len(),
        0 <= k,
        tokens_ok(text, tokens),
        run_goal(rest.push(Symbol::Rule(rule)), kinds(stack)) is Some,
        search_rule(tokens, rest, pos, rule, k, budget).0 is Found,
    ensures
        evaluate(
            text,
            tokens,
            search_rule(tokens, rest, pos, rule, k, budget).0->Found_0,
            0,
            pos,
            stack,
        ) is Some,
        Some(
            kinds(
                evaluate(
                    text,
                    tokens,
                    search_rule(tokens, rest, pos, rule, k, budget).0->Found_0,
                    0,
                    pos,
                    stack,
                ).unwrap(),
            ),
        ) == run_goal(rest.push(Symbol::Rule(rule)), kinds(stack)),
    decreases budget, 1int, alternatives(rule).len() - k,
{
    let goal = rest.push(Symbol::Rule(rule));
    let types = kinds(stack);
    assert(goal.drop_last() =~= rest);
    if k < alternatives(rule).len() {
        let symbols = alternatives(rule)[k];
        let next = rest + symbols.reverse();
        let (outcome, left) = search(tokens, next, pos, budget);
        if outcome is Found {
            lemma_production_typed(rule, k, types);
            lemma_run_goal_production(rest, symbols, 0, types);
            assert(symbols.skip(0) =~= symbols);
            lemma_search_typed(text, tokens, next, pos, budget, stack);
        } else if outcome is NotFound && left <= budget {
            lemma_search_rule_typed(text, tokens, rest, pos, rule, k + 1, left, stack);
        }
    }
}

/// Every derivation that the search finds builds an expression: a
/// sentence that a machine holds has none only where the search finds
/// none.
pub proof fn lemma_derivation_builds(text: Seq<char>)
    requires
        text.len() <= usize::MAX,
    ensures
        spec_lex(text) matches Ok(tokens) ==> (search(
            tokens,
            start(),
            0,
            SEARCH_BUDGET as nat,
        ).0 matches Outcome::Found(steps) ==> built(text, tokens, steps) is Some),
        spec_parse(text) == Err::<ExprView, ParseError>(ParseError::NoDerivation)
            <==> spec_lex(text) is Ok && search(
            spec_lex(text)->Ok_0,
            start(),
            0,
            SEARCH_BUDGET as nat,
        ).0 is NotFound,
{
    if let Ok(tokens) = spec_lex(text) {
        lemma_lex_tokens(text, 0);
        if search(tokens, start(), 0, SEARCH_BUDGET as nat).0 is Found {
            let empty = Seq::<ValueView>::empty();
            assert(kinds(empty) =~= Seq::<Kind>::empty());
            assert(start().drop_last() =~= Seq::<Symbol>::empty());
            assert(run_goal(start(), kinds(empty)) == Some(seq![Kind::Expr])) by {
                assert(rule_kinds(NonTerminal::TopLevel, kinds(empty)) == Some(
                    kinds(empty).push(Kind::Expr),
                ));
                assert(kinds(empty).push(Kind::Expr) =~= seq![Kind::Expr]);
                assert(run_goal(Seq::<Symbol>::empty(), seq![Kind::Expr]) == Some(
                    seq![Kind::Expr],
                ));
            }
            lemma_search_typed(text, tokens, start(), 0, SEARCH_BUDGET as nat, empty);
            let steps = search(tokens, start(), 0, SEARCH_BUDGET as nat).0->Found_0;
            let stack = evaluate(text, tokens, steps, 0, 0, empty).unwrap();
            assert(kinds(stack) == seq![Kind::Expr]);
            assert(kinds(stack).len() == 1);
            assert(kinds(stack)[0] == crate::typing::kind_of(stack[0]));
        }
    }
}

fn copy_symbols(symbols: &Vec<Symbol>) -> (r: Vec<Symbol>)
    ensures
        r@ == symbols@,
{
    let mut out: Vec<Symbol> = Vec::new();
    let mut i: usize = 0;
    while i < symbols.len()
        invariant
            i <= symbols.len(),
            out@ == symbols@.take(i as int),
        decreases symbols.len() - i,
    {
        out.push(symbols[i]);
        assert(out@ =~= symbols@.take(i + 1));
        i += 1;
    }
    assert(symbols@.take(symbols.len() as int) =~= symbols@);
    out
}

/// Searches for a derivation, and writes its steps behind `trace`.
fn search_from(
    tokens: &Vec<Token>,
    stack: Vec<Symbol>,
    pos: usize,
    budget: &mut u64,
    trace: &mut Vec<Step>,
) -> (found: Search)
    requires
        pos <= tokens.len(),
    ensures
        match search(tokens@, stack@, pos as int, *old(budget) as nat) {
            (Outcome::Found(steps), left) => found == Search::Found && final(trace)@ == old(trace)@
                + steps && *final(budget) == left,
            (Outcome::NotFound, left) => found == Search::NotFound && final(trace)@ == old(trace)@
                && *final(budget) == left,
            (Outcome::Exhausted, _) => found == Search::Exhausted,
        },
        *final(budget) <= *old(budget),
    decreases *old(budget), 0int, 0int,
{
    if *budget == 0 {
        return Search::Exhausted;
    }
    *budget -= 1;
    let mut symbols = stack;
    let ghost whole = symbols@;
    let top = match symbols.pop() {
        None => {
            assert(old(trace)@ + Seq::<Step>::empty() =~= old(trace)@);
            return if pos == tokens.len() {
                Search::Found
            } else {
                Search::NotFound
            };
        },
        Some(top) => top,
    };
    assert(symbols@ == whole.drop_last());
    match top {
        Symbol::Run(action) => {
            trace.push(Step::Apply(action));
            let found = search_from(tokens, symbols, pos, budget, trace);
            proof {
                if let (Outcome::Found(steps), _) = search(
                    tokens@,
                    whole.drop_last(),
                    pos as int,
                    (*old(budget) - 1) as nat,
                ) {
                    assert(old(trace)@.push(Step::Apply(action)) + steps =~= old(trace)@ + (
                    seq![Step::Apply(action)] + steps));
                }
            }
            if found == Search::NotFound {
                trace.pop();
                assert(trace@ =~= old(trace)@);
            }
            found
        },
        Symbol::Word(kind) => {
            if pos < tokens.len() && tokens[pos].kind == kind {
                trace.push(Step::Shift);
                let found = search_from(tokens, symbols, pos + 1, budget, trace);
                proof {
                    if let (Outcome::Found(steps), _) = search(
                        tokens@,
                        whole.drop_last(),
                        pos + 1,
                        (*old(budget) - 1) as nat,
                    ) {
                        assert(old(trace)@.push(Step::Shift) + steps =~= old(trace)@ + (
                        seq![Step::Shift] + steps));
                    }
                }
                if found == Search::NotFound {
                    trace.pop();
                    assert(trace@ =~= old(trace)@);
                }
                found
            } else {
                Search::NotFound
            }
        },
        Symbol::Rule(rule) => {
            let count = alternative_count(rule);
            let ghost rest = symbols@;
            let ghost first = *budget as nat;
            let mut k: usize = 0;
            while k < count
                invariant
                    k <= count,
                    count == alternatives(rule).len(),
                    pos <= tokens.len(),
                    symbols@ == rest,
                    stack@ == whole,
                    *old(budget) > 0,
                    trace@ == old(trace)@,
                    *budget < *old(budget),
                    search_rule(tokens@, rest, pos as int, rule, 0, first) == search_rule(
                        tokens@,
                        rest,
                        pos as int,
                        rule,
                        k as int,
                        *budget as nat,
                    ),
                    first == (*old(budget) - 1) as nat,
                    rest == whole.drop_last(),
                    whole.len() > 0,
                    whole.last() == Symbol::Rule(rule),
                decreases count - k,
            {
                let before = *budget;
                let mut next = copy_symbols(&symbols);
                push_alternative(&mut next, rule, k);
                match search_from(tokens, next, pos, budget, trace) {
                    Search::NotFound => {
                        if *budget > before {
                            return Search::Exhausted;
                        }
                    },
                    other => {
                        return other;
                    },
                }
                k += 1;
            }
            Search::NotFound
        },
    }
}

/// The number that the word `token` of `text` denotes.
pub fn number(text: &Vec<char>, token: &Token) -> (r: Option<u64>)
    requires
        token.start <= token.end <= text.len(),
    ensures
        r == number_value(text@.subrange(token.start as int, token.end as int)),
{
    let ghost word = text@.subrange(token.start as int, token.end as int);
    if token.start == token.end {
        return None;
    }
    let mut value: u64 = 0;
    let mut i = token.start;
    assert(word.take(0) =~= Seq::<char>::empty());
    while i < token.end
        invariant
            token.start <= i <= token.end <= text.len(),
            word == text@.subrange(token.start as int, token.end as int),
            all_digits(word.take(i - token.start)),
            value == decimal_value(word.take(i - token.start)),
        decreases token.end - i,
    {
        let c = text[i];
        let ghost k = i - token.start;
        assert(word[k] == c);
        if !('0' <= c && c <= '9') {
            assert(!all_digits(word));
            return None;
        }
        let d = (c as u8 - '0' as u8) as u64;
        assert(word.take(k + 1).drop_last() =~= word.take(k));
        assert(word.take(k + 1).last() == c);
        proof {
            lemma_prefix_value(word, k + 1);
        }
        if value > (u64::MAX - d) / 10 {
            return None;
        }
        value = value * 10 + d;
        i += 1;
    }
    assert(word.take(word.len() as int) =~= word);
    Some(value)
}

/// The text of the word `token` of `text`.
pub fn topic(text: &str, token: &Token) -> (r: String)
    requires
        token.start <= token.end <= text@.len(),
    ensures
        r@ == text@.subrange(token.start as int, token.end as int),
{
    text.substring_char(token.start, token.end).to_owned()
}

/// Reads the word `token` and leaves its value on the stack.
fn shift_word(text: &str, chars: &Vec<char>, token: &Token, stack: &mut Vec<Value>) -> (ok: bool)
    requires
        chars@ == text@,
    ensures
        match shift(text@, *token, value_views(old(stack)@)) {
            Some(after) => ok && value_views(final(stack)@) == after,
            None => !ok,
        },
{
    if !(token.start <= token.end && token.end <= chars.len()) {
        return false;
    }
    match token.kind {
        TokenKind::Topic => {
            put(stack, Value::Topic(topic(text, token)));
            true
        },
        TokenKind::Number => match number(chars, token) {
            Some(n) => {
                put(stack, Value::Number(n));
                true
            },
            None => false,
        },
        TokenKind::Comma | TokenKind::Semicolon | TokenKind::Slash => true,
        _ => {
            put(stack, Value::Unit);
            true
        },
    }
}

/// Runs the steps of a derivation, and gives the expression that is left.
fn build(text: &str, chars: &Vec<char>, tokens: &Vec<Token>, steps: &Vec<Step>) -> (r: Option<Expr>)
    requires
        chars@ == text@,
    ensures
        match built(text@, tokens@, steps@) {
            Some(e) => r matches Some(expr) && expr@ == e,
            None => r is None,
        },
{
    let mut stack: Vec<Value> = Vec::new();
    let mut next: usize = 0;
    let mut i: usize = 0;
    assert(value_views(stack@) =~= Seq::<ValueView>::empty());
    while i < steps.len()
        invariant
            i <= steps.len(),
            next <= tokens.len(),
            chars@ == text@,
            evaluate(text@, tokens@, steps@, 0, 0, Seq::empty()) == evaluate(
                text@,
                tokens@,
                steps@,
                i as int,
                next as int,
                value_views(stack@),
            ),
        decreases steps.len() - i,
    {
        match steps[i] {
            Step::Shift => {
                if next >= tokens.len() {
                    return None;
                }
                if !shift_word(text, chars, &tokens[next], &mut stack) {
                    return None;
                }
                next += 1;
            },
            Step::Apply(action) => {
                if !run_action(action, &mut stack) {
                    return None;
                }
            },
        }
        i += 1;
    }
    if stack.len() != 1 {
        return None;
    }
    assert(value_views(stack@)[0] == stack@[0]@);
    match stack.pop() {
        Some(Value::Expr(e)) => Some(e),
        _ => None,
    }
}

/// Parses a requirement sentence.
pub fn parse(span: &str) -> (r: Result<Expr, ParseError>)
    ensures
        match spec_parse(span@) {
            Ok(e) => r matches Ok(expr) && expr@ == e,
            Err(e) => r matches Err(err) && err == e,
        },
{
    let chars = chars_of(span);
    let tokens = match lex(&chars) {
        Ok(tokens) => tokens,
        Err(LexError::UnexpectedText(at)) => {
            return Err(ParseError::UnexpectedText(at));
        },
        Err(LexError::NumberTooLong(at)) => {
            return Err(ParseError::NumberTooLong(at));
        },
    };
    let mut stack: Vec<Symbol> = Vec::new();
    stack.push(Symbol::Rule(NonTerminal::TopLevel));
    assert(stack@ =~= start());
    let mut budget = SEARCH_BUDGET;
    let mut steps: Vec<Step> = Vec::new();
    match search_from(&tokens, stack, 0, &mut budget, &mut steps) {
        Search::Exhausted => Err(ParseError::TooComplex),
        Search::NotFound => Err(ParseError::NoDerivation),
        Search::Found => {
            proof {
                if let (Outcome::Found(found), _) = search(
                    tokens@,
                    start(),
                    0,
                    SEARCH_BUDGET as nat,
                ) {
                    assert(Seq::<Step>::empty() + found =~= found);
                }
            }
            match build(span, &chars, &tokens, &steps) {
                Some(e) => Ok(e),
                None => Err(ParseError::NoDerivation),
            }
        },
    }
}

} // verus!
