//! The grammar, as functions from the text and a place in it to what stands
//! there. Places are offsets counted in characters.
//!
//! ```text
//! program    := rib_expr (spaces ';' rib_expr)* spaces
//! rib_expr   := spaces (literal | let_binding | worker_function_invoke | call | identifier)
//! literal    := '"' (any character but '"')* '"'
//! let_binding:= "let" spaces identifier spaces (':' spaces name spaces)? '=' rib_expr
//! worker_function_invoke := identifier spaces '.' rib_expr
//! call       := identifier spaces ('[' spaces name spaces ']' spaces)? '(' spaces
//!               (')' | rib_expr spaces (',' rib_expr spaces)* ')')
//! identifier := name, but not "let"
//! name       := letter (letter | digit | '-' | '_')*
//! ```
//!
//! A word decides which production reads it: `let` starts a binding, a word
//! with `.` after it an invocation on a worker, a word with `(` or `[` after
//! it a call, any other word is an identifier. Once chosen, a production's
//! failure is the failure of the expression.

use vstd::prelude::*;
use crate::chars::{
    keyword_let, lemma_name_end, lemma_spaces_end, name_end, name_start, quote_at, spaces_end,
};
use crate::error::RibParseError;
use crate::tree::{span_of, CallKind, Tree};

verus! {

/// What stands at a place: a tree and the place after it, or a failure and
/// the place where it was found.
pub enum Outcome {
    Parsed { tree: Tree, end: int },
    Failed { error: RibParseError, position: int },
}

/// What a list of expressions comes to.
pub enum ListOutcome {
    Parsed { trees: Seq<Tree>, end: int },
    Failed { error: RibParseError, position: int },
}

/// What an optional type in brackets, or after a colon, comes to.
pub enum TagOutcome {
    Parsed { tag: Option<Seq<char>>, end: int },
    Failed { error: RibParseError, position: int },
}

/// The place `p` is in the text and holds `c`.
pub open spec fn holds(s: Seq<char>, p: int, c: char) -> bool {
    0 <= p < s.len() && s[p] == c
}

/// A name starts at `p`.
pub open spec fn starts_name(s: Seq<char>, p: int) -> bool {
    0 <= p < s.len() && name_start(s[p])
}

/// The word at `p`: the longest run of name characters from there.
pub open spec fn word(s: Seq<char>, p: int) -> Seq<char> {
    s.subrange(p, name_end(s, p))
}

/// An identifier starts at `p`: a word that is not reserved.
pub open spec fn starts_identifier(s: Seq<char>, p: int) -> bool {
    starts_name(s, p) && word(s, p) != keyword_let()
}

/// The production `identifier`.
pub open spec fn identifier(s: Seq<char>, p: int) -> Outcome {
    if starts_identifier(s, p) {
        Outcome::Parsed {
            tree: Tree::Identifier {
                name: word(s, p),
                scope: None,
                span: span_of(p, name_end(s, p)),
            },
            end: name_end(s, p),
        }
    } else {
        Outcome::Failed { error: RibParseError::ExpectedIdentifier, position: p }
    }
}

/// The production `literal`. A literal that is never closed fails where it
/// was opened.
pub open spec fn literal(s: Seq<char>, p: int) -> Outcome {
    if holds(s, p, '"') {
        let q = quote_at(s, p + 1);
        if q < s.len() {
            Outcome::Parsed {
                tree: Tree::Literal { value: s.subrange(p + 1, q), span: span_of(p, q + 1) },
                end: q + 1,
            }
        } else {
            Outcome::Failed { error: RibParseError::UnterminatedLiteral, position: p }
        }
    } else {
        Outcome::Failed { error: RibParseError::ExpectedExpression, position: p }
    }
}

/// The optional type parameter of a call, `[name]`, and the spaces after it.
pub open spec fn type_parameter(s: Seq<char>, p: int) -> TagOutcome {
    if holds(s, p, '[') {
        let a = spaces_end(s, p + 1);
        if starts_name(s, a) {
            let b = spaces_end(s, name_end(s, a));
            if holds(s, b, ']') {
                TagOutcome::Parsed { tag: Some(word(s, a)), end: spaces_end(s, b + 1) }
            } else {
                TagOutcome::Failed { error: RibParseError::UnexpectedToken, position: b }
            }
        } else {
            TagOutcome::Failed { error: RibParseError::ExpectedIdentifier, position: a }
        }
    } else {
        TagOutcome::Parsed { tag: None, end: p }
    }
}

/// The optional type annotation of a binding, `: name`, and the spaces
/// after it.
pub open spec fn type_annotation(s: Seq<char>, p: int) -> TagOutcome {
    if holds(s, p, ':') {
        let a = spaces_end(s, p + 1);
        if starts_name(s, a) {
            TagOutcome::Parsed { tag: Some(word(s, a)), end: spaces_end(s, name_end(s, a)) }
        } else {
            TagOutcome::Failed { error: RibParseError::ExpectedIdentifier, position: a }
        }
    } else {
        TagOutcome::Parsed { tag: None, end: p }
    }
}

/// What a worker and the call read right of its `.` become: the invocation
/// of the call's function on the worker. Both the invocation and the worker
/// in it take the call's span. Anything but a call of a function by name
/// gives nothing.
pub open spec fn worker_invocation(worker: Tree, call: Tree) -> Option<Tree> {
    match call {
        Tree::Call {
            call_type: CallKind::Function { function_name, .. },
            type_parameter,
            args,
            span,
        } => Some(
            Tree::InvokeWorkerFunction {
                worker: Box::new(worker.with_span(span)),
                function_name,
                type_parameter,
                args,
                span,
            },
        ),
        _ => None,
    }
}

/// The production `rib_expr`: any expression, after the spaces before it.
pub open spec fn rib_expr(s: Seq<char>, p: int) -> Outcome
    decreases s.len() - p, 2int,
{
    let start = spaces_end(s, p);
    if holds(s, start, '"') {
        literal(s, start)
    } else if !starts_name(s, start) {
        Outcome::Failed { error: RibParseError::ExpectedExpression, position: start }
    } else {
        proof {
            lemma_spaces_end(s, p);
        }
        let next = spaces_end(s, name_end(s, start));
        if word(s, start) == keyword_let() {
            let_binding(s, start)
        } else if holds(s, next, '.') {
            worker_function_invoke(s, start)
        } else if holds(s, next, '(') || holds(s, next, '[') {
            call(s, start)
        } else {
            identifier(s, start)
        }
    }
}

/// The production `let_binding`.
pub open spec fn let_binding(s: Seq<char>, p: int) -> Outcome
    decreases s.len() - p, 1int,
{
    if !(starts_name(s, p) && word(s, p) == keyword_let()) {
        Outcome::Failed { error: RibParseError::ExpectedExpression, position: p }
    } else {
        let a = spaces_end(s, name_end(s, p));
        if !starts_identifier(s, a) {
            Outcome::Failed { error: RibParseError::ExpectedIdentifier, position: a }
        } else {
            match type_annotation(s, spaces_end(s, name_end(s, a))) {
                TagOutcome::Failed { error, position } => Outcome::Failed { error, position },
                TagOutcome::Parsed { tag, end: b } => {
                    if !holds(s, b, '=') {
                        Outcome::Failed { error: RibParseError::UnexpectedToken, position: b }
                    } else {
                        proof {
                            lemma_name_end(s, p);
                            lemma_spaces_end(s, name_end(s, p));
                            lemma_name_end(s, a);
                            lemma_spaces_end(s, name_end(s, a));
                            lemma_type_annotation(s, spaces_end(s, name_end(s, a)));
                        }
                        match rib_expr(s, b + 1) {
                            Outcome::Failed { error, position } => Outcome::Failed {
                                error,
                                position,
                            },
                            Outcome::Parsed { tree, end } => Outcome::Parsed {
                                tree: Tree::LetBinding {
                                    name: word(s, a),
                                    type_annotation: tag,
                                    bound: Box::new(tree),
                                    span: span_of(p, end),
                                },
                                end,
                            },
                        }
                    }
                },
            }
        }
    }
}

/// The production `worker_function_invoke`: an identifier, a `.`, and an
/// expression that must come out as a call of a function by name. Every
/// failure in it is reported as an invalid function call; where the
/// expression right of the `.` was read and is no such call, the failure is
/// placed where the production started.
pub open spec fn worker_function_invoke(s: Seq<char>, p: int) -> Outcome
    decreases s.len() - p, 1int,
{
    match identifier(s, p) {
        Outcome::Failed { position, .. } => Outcome::Failed {
            error: RibParseError::InvalidFunctionCall,
            position,
        },
        Outcome::Parsed { tree: worker, end } => {
            let dot = spaces_end(s, end);
            if !holds(s, dot, '.') {
                Outcome::Failed { error: RibParseError::InvalidFunctionCall, position: dot }
            } else {
                proof {
                    lemma_name_end(s, p);
                    lemma_spaces_end(s, end);
                }
                match rib_expr(s, dot + 1) {
                    Outcome::Failed { position, .. } => Outcome::Failed {
                        error: RibParseError::InvalidFunctionCall,
                        position,
                    },
                    Outcome::Parsed { tree: call, end } => match worker_invocation(worker, call) {
                        Some(tree) => Outcome::Parsed { tree, end },
                        None => Outcome::Failed {
                            error: RibParseError::InvalidFunctionCall,
                            position: p,
                        },
                    },
                }
            }
        },
    }
}

/// The production `call`.
pub open spec fn call(s: Seq<char>, p: int) -> Outcome
    decreases s.len() - p, 1int,
{
    if !starts_identifier(s, p) {
        Outcome::Failed { error: RibParseError::ExpectedIdentifier, position: p }
    } else {
        match type_parameter(s, spaces_end(s, name_end(s, p))) {
            TagOutcome::Failed { error, position } => Outcome::Failed { error, position },
            TagOutcome::Parsed { tag, end: open } => {
                if !holds(s, open, '(') {
                    Outcome::Failed { error: RibParseError::UnexpectedToken, position: open }
                } else {
                    let first = spaces_end(s, open + 1);
                    let call_type = CallKind::Function { function_name: word(s, p), worker: None };
                    if holds(s, first, ')') {
                        Outcome::Parsed {
                            tree: Tree::Call {
                                call_type,
                                type_parameter: tag,
                                args: Seq::empty(),
                                span: span_of(p, first + 1),
                            },
                            end: first + 1,
                        }
                    } else {
                        proof {
                            lemma_name_end(s, p);
                            lemma_spaces_end(s, name_end(s, p));
                            lemma_type_parameter(s, spaces_end(s, name_end(s, p)));
                            lemma_spaces_end(s, open + 1);
                        }
                        match arguments(s, first, Seq::empty()) {
                            ListOutcome::Failed { error, position } => Outcome::Failed {
                                error,
                                position,
                            },
                            ListOutcome::Parsed { trees, end } => Outcome::Parsed {
                                tree: Tree::Call {
                                    call_type,
                                    type_parameter: tag,
                                    args: trees,
                                    span: span_of(p, end),
                                },
                                end,
                            },
                        }
                    }
                }
            },
        }
    }
}

/// The arguments of a call from `p` on, up to and with the closing bracket,
/// added to those read before, `before`. That the next argument is looked
/// for only after `p` is what makes the definition end; it takes nothing
/// away, since what was read ends after `p`.
pub open spec fn arguments(s: Seq<char>, p: int, before: Seq<Tree>) -> ListOutcome
    decreases s.len() - p, 3int,
{
    match rib_expr(s, p) {
        Outcome::Failed { error, position } => ListOutcome::Failed { error, position },
        Outcome::Parsed { tree, end } => {
            let next = spaces_end(s, end);
            if holds(s, next, ',') && p <= next {
                arguments(s, next + 1, before.push(tree))
            } else if holds(s, next, ')') {
                ListOutcome::Parsed { trees: before.push(tree), end: next + 1 }
            } else {
                ListOutcome::Failed { error: RibParseError::UnexpectedToken, position: next }
            }
        },
    }
}

/// The statements of a program from `p` on, added to those read before,
/// `before`. The place given with them is where the last one ends. As with
/// arguments, the next statement is looked for only after `p`.
pub open spec fn statements(s: Seq<char>, p: int, before: Seq<Tree>) -> ListOutcome
    decreases s.len() - p,
{
    match rib_expr(s, p) {
        Outcome::Failed { error, position } => ListOutcome::Failed { error, position },
        Outcome::Parsed { tree, end } => {
            let next = spaces_end(s, end);
            if holds(s, next, ';') && p <= next {
                statements(s, next + 1, before.push(tree))
            } else if next >= s.len() {
                ListOutcome::Parsed { trees: before.push(tree), end }
            } else {
                ListOutcome::Failed { error: RibParseError::UnexpectedToken, position: next }
            }
        },
    }
}

/// A whole program: one expression stands for itself, several make a block
/// that spans from the first to the last.
pub open spec fn program(s: Seq<char>) -> Outcome {
    match statements(s, 0, Seq::empty()) {
        ListOutcome::Failed { error, position } => Outcome::Failed { error, position },
        ListOutcome::Parsed { trees, end } => {
            if trees.len() == 1 {
                Outcome::Parsed { tree: trees[0], end: s.len() as int }
            } else {
                Outcome::Parsed {
                    tree: Tree::Block { statements: trees, span: span_of(spaces_end(s, 0), end) },
                    end: s.len() as int,
                }
            }
        },
    }
}

/// A type parameter ends no earlier than it starts.
pub proof fn lemma_type_parameter(s: Seq<char>, p: int)
    ensures
        type_parameter(s, p) matches TagOutcome::Parsed { end, .. } ==> p <= end && (p <= s.len()
            ==> end <= s.len()),
{
    if holds(s, p, '[') {
        let a = spaces_end(s, p + 1);
        lemma_spaces_end(s, p + 1);
        lemma_name_end(s, a);
        let b = spaces_end(s, name_end(s, a));
        lemma_spaces_end(s, name_end(s, a));
        lemma_spaces_end(s, b + 1);
    }
}

/// A type annotation ends no earlier than it starts.
pub proof fn lemma_type_annotation(s: Seq<char>, p: int)
    ensures
        type_annotation(s, p) matches TagOutcome::Parsed { end, .. } ==> p <= end && (p <= s.len()
            ==> end <= s.len()),
{
    if holds(s, p, ':') {
        let a = spaces_end(s, p + 1);
        lemma_spaces_end(s, p + 1);
        lemma_name_end(s, a);
        lemma_spaces_end(s, name_end(s, a));
    }
}

} // verus!
