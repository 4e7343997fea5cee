//! The parser: for each production of the grammar a function that reads it
//! from the text at a given place, proved to give what the grammar says
//! stands there.

use vstd::prelude::*;
use crate::chars::{
    find_quote, is_name_start, keyword_let, lemma_name_end, lemma_quote_at, skip_name,
    skip_spaces,
};
use crate::error::{ParseFailure, RibParseError};
use crate::expr::{
    lemma_views_push, type_name_view, type_parameter_view, views, CallType,
    DynamicParsedFunctionName, Expr, GenericTypeParameter, TypeName,
};
use crate::grammar;
use crate::grammar::{ListOutcome, Outcome, TagOutcome};
use crate::laws::{lemma_worker_function_invoke_read, theorem_program_read};
use crate::span::SourceSpan;
use crate::text::{chars_of, text_of};
use crate::tree::{CallKind, Tree};

verus! {

/// What the result of reading one expression says in the grammar's terms.
pub open spec fn outcome(r: Result<(Expr, usize), ParseFailure>) -> Outcome {
    match r {
        Ok((e, end)) => Outcome::Parsed { tree: e@, end: end as int },
        Err(f) => Outcome::Failed { error: f.error, position: f.position as int },
    }
}

/// What the result of reading a list of expressions says in the grammar's
/// terms.
pub open spec fn list_outcome(r: Result<(Vec<Expr>, usize), ParseFailure>) -> ListOutcome {
    match r {
        Ok((es, end)) => ListOutcome::Parsed { trees: views(es@), end: end as int },
        Err(f) => ListOutcome::Failed { error: f.error, position: f.position as int },
    }
}

/// What the result of reading a whole program says in the grammar's terms.
pub open spec fn program_outcome(r: Result<Expr, ParseFailure>, len: nat) -> Outcome {
    match r {
        Ok(e) => Outcome::Parsed { tree: e@, end: len as int },
        Err(f) => Outcome::Failed { error: f.error, position: f.position as int },
    }
}

/// What was read ends after `pos` and inside the text.
pub open spec fn advances<T>(r: Result<(T, usize), ParseFailure>, pos: usize, len: nat) -> bool {
    r matches Ok((_, end)) ==> pos < end <= len
}

/// Tells whether the place `pos` is in the text and holds `c`.
fn holds(text: &[char], pos: usize, c: char) -> (r: bool)
    ensures
        r == grammar::holds(text@, pos as int, c),
        r ==> pos < usize::MAX,
{
    pos < text.len() && text[pos] == c
}

/// Tells whether a name starts at `pos`.
fn starts_name(text: &[char], pos: usize) -> (r: bool)
    ensures
        r == grammar::starts_name(text@, pos as int),
        r ==> pos < usize::MAX,
{
    pos < text.len() && is_name_start(text[pos])
}

/// Tells whether the text from `from` up to `to` is the word `let`.
fn is_let(text: &[char], from: usize, to: usize) -> (r: bool)
    requires
        from <= to <= text@.len(),
    ensures
        r == (text@.subrange(from as int, to as int) == keyword_let()),
{
    let ghost w = text@.subrange(from as int, to as int);
    proof {
        assert(keyword_let().len() == 3);
        assert(keyword_let()[0] == 'l' && keyword_let()[1] == 'e' && keyword_let()[2] == 't');
    }
    if to - from == 3 {
        let r = text[from] == 'l' && text[from + 1] == 'e' && text[from + 2] == 't';
        proof {
            assert(w[0] == text@[from as int]);
            assert(w[1] == text@[from + 1]);
            assert(w[2] == text@[from + 2]);
            if r {
                assert(w =~= keyword_let());
            }
        }
        r
    } else {
        false
    }
}

/// The failure `error` at `position`.
fn fail<T>(error: RibParseError, position: usize) -> (r: Result<T, ParseFailure>)
    ensures
        r == Err::<T, ParseFailure>(ParseFailure { error, position }),
{
    Err(ParseFailure { error, position })
}

/// Reads an identifier at `pos`.
pub fn identifier(text: &[char], pos: usize) -> (r: Result<(Expr, usize), ParseFailure>)
    ensures
        outcome(r) == grammar::identifier(text@, pos as int),
        advances(r, pos, text@.len()),
{
    if starts_name(text, pos) {
        let end = skip_name(text, pos);
        proof {
            lemma_name_end(text@, pos as int);
        }
        if is_let(text, pos, end) {
            fail(RibParseError::ExpectedIdentifier, pos)
        } else {
            let name = text_of(text, pos, end);
            Ok((Expr::Identifier { name, scope: None, source_span: SourceSpan::new(pos, end) }, end))
        }
    } else {
        fail(RibParseError::ExpectedIdentifier, pos)
    }
}

/// Reads a string literal at `pos`.
pub fn literal(text: &[char], pos: usize) -> (r: Result<(Expr, usize), ParseFailure>)
    ensures
        outcome(r) == grammar::literal(text@, pos as int),
        advances(r, pos, text@.len()),
{
    if holds(text, pos, '"') {
        let close = find_quote(text, pos + 1);
        proof {
            lemma_quote_at(text@, pos + 1);
        }
        if close < text.len() {
            let value = text_of(text, pos + 1, close);
            Ok((Expr::Literal { value, source_span: SourceSpan::new(pos, close + 1) }, close + 1))
        } else {
            fail(RibParseError::UnterminatedLiteral, pos)
        }
    } else {
        fail(RibParseError::ExpectedExpression, pos)
    }
}

/// Reads the type parameter of a call at `pos`, where there is one, and the
/// spaces after it.
pub fn type_parameter(text: &[char], pos: usize) -> (r: Result<
    (Option<GenericTypeParameter>, usize),
    ParseFailure,
>)
    ensures
        match r {
            Ok((tag, end)) => grammar::type_parameter(text@, pos as int) == (TagOutcome::Parsed {
                tag: type_parameter_view(tag),
                end: end as int,
            }),
            Err(f) => grammar::type_parameter(text@, pos as int) == (TagOutcome::Failed {
                error: f.error,
                position: f.position as int,
            }),
        },
{
    if holds(text, pos, '[') {
        let a = skip_spaces(text, pos + 1);
        if starts_name(text, a) {
            let name_end = skip_name(text, a);
            let b = skip_spaces(text, name_end);
            proof {
                lemma_name_end(text@, a as int);
            }
            if holds(text, b, ']') {
                let value = text_of(text, a, name_end);
                Ok((Some(GenericTypeParameter { value }), skip_spaces(text, b + 1)))
            } else {
                fail(RibParseError::UnexpectedToken, b)
            }
        } else {
            fail(RibParseError::ExpectedIdentifier, a)
        }
    } else {
        Ok((None, pos))
    }
}

/// Reads the type annotation of a binding at `pos`, where there is one, and
/// the spaces after it.
pub fn type_annotation(text: &[char], pos: usize) -> (r: Result<
    (Option<TypeName>, usize),
    ParseFailure,
>)
    ensures
        match r {
            Ok((tag, end)) => grammar::type_annotation(text@, pos as int) == (TagOutcome::Parsed {
                tag: type_name_view(tag),
                end: end as int,
            }),
            Err(f) => grammar::type_annotation(text@, pos as int) == (TagOutcome::Failed {
                error: f.error,
                position: f.position as int,
            }),
        },
{
    if holds(text, pos, ':') {
        let a = skip_spaces(text, pos + 1);
        if starts_name(text, a) {
            let name_end = skip_name(text, a);
            proof {
                lemma_name_end(text@, a as int);
            }
            let value = text_of(text, a, name_end);
            Ok((Some(TypeName { value }), skip_spaces(text, name_end)))
        } else {
            fail(RibParseError::ExpectedIdentifier, a)
        }
    } else {
        Ok((None, pos))
    }
}

/// Turns a worker and the call read right of its `.` into the invocation of
/// the call's function on that worker. The invocation and the worker in it
/// take the call's span. Anything but a call of a function by name is
/// refused as an invalid function call.
pub fn invoke_from_call(worker_variable: Expr, call: Expr) -> (r: Result<Expr, RibParseError>)
    ensures
        match r {
            Ok(e) => grammar::worker_invocation(worker_variable@, call@) == Some(e@),
            Err(error) => error == RibParseError::InvalidFunctionCall && grammar::worker_invocation(
                worker_variable@,
                call@,
            ) is None,
        },
{
    match call {
        Expr::Call { call_type, generic_type_parameter, args, source_span } => {
            let ghost kind = call_type.kind();
            match call_type {
                CallType::Function { function_name, worker: _ } => {
                    assert(kind is Function && kind->function_name == function_name@);
                    let function_name = function_name.to_string();
                    let worker_variable_with_source_span = worker_variable.with_source_span(
                        source_span,
                    );
                    Ok(
                        Expr::invoke_worker_function(
                            worker_variable_with_source_span,
                            function_name,
                            generic_type_parameter,
                            args,
                        ).with_source_span(source_span),
                    )
                },
                _ => {
                    assert(!(kind is Function));
                    Err(RibParseError::InvalidFunctionCall)
                },
            }
        },
        _ => Err(RibParseError::InvalidFunctionCall),
    }
}

/// Reads any expression at `pos`, after the spaces before it.
pub fn rib_expr(text: &[char], pos: usize) -> (r: Result<(Expr, usize), ParseFailure>)
    ensures
        outcome(r) == grammar::rib_expr(text@, pos as int),
        advances(r, pos, text@.len()),
    decreases text@.len() - pos, 2int,
{
    let start = skip_spaces(text, pos);
    if holds(text, start, '"') {
        literal(text, start)
    } else if !starts_name(text, start) {
        fail(RibParseError::ExpectedExpression, start)
    } else {
        let word_end = skip_name(text, start);
        let next = skip_spaces(text, word_end);
        proof {
            lemma_name_end(text@, start as int);
        }
        if is_let(text, start, word_end) {
            let_binding(text, start)
        } else if holds(text, next, '.') {
            worker_function_invoke(text, start)
        } else if holds(text, next, '(') || holds(text, next, '[') {
            call(text, start)
        } else {
            identifier(text, start)
        }
    }
}

/// Reads the binding of a name at `pos`.
pub fn let_binding(text: &[char], pos: usize) -> (r: Result<(Expr, usize), ParseFailure>)
    ensures
        outcome(r) == grammar::let_binding(text@, pos as int),
        advances(r, pos, text@.len()),
    decreases text@.len() - pos, 1int,
{
    if !starts_name(text, pos) {
        return fail(RibParseError::ExpectedExpression, pos);
    }
    let keyword_end = skip_name(text, pos);
    proof {
        lemma_name_end(text@, pos as int);
    }
    if !is_let(text, pos, keyword_end) {
        return fail(RibParseError::ExpectedExpression, pos);
    }
    let a = skip_spaces(text, keyword_end);
    if !starts_name(text, a) {
        return fail(RibParseError::ExpectedIdentifier, a);
    }
    let name_end = skip_name(text, a);
    proof {
        lemma_name_end(text@, a as int);
    }
    if is_let(text, a, name_end) {
        return fail(RibParseError::ExpectedIdentifier, a);
    }
    let after_name = skip_spaces(text, name_end);
    proof {
        grammar::lemma_type_annotation(text@, after_name as int);
    }
    match type_annotation(text, after_name) {
        Err(f) => Err(f),
        Ok((annotation, b)) => {
            if !holds(text, b, '=') {
                return fail(RibParseError::UnexpectedToken, b);
            }
            match rib_expr(text, b + 1) {
                Err(f) => Err(f),
                Ok((bound, end)) => {
                    let name = text_of(text, a, name_end);
                    Ok(
                        (
                            Expr::LetBinding {
                                name,
                                type_annotation: annotation,
                                expr: Box::new(bound),
                                source_span: SourceSpan::new(pos, end),
                            },
                            end,
                        ),
                    )
                },
            }
        },
    }
}

/// Reads the invocation of a function on a worker at `pos`: an identifier,
/// a `.`, and an expression that must come out as a call of a function by
/// name.
pub fn worker_function_invoke(text: &[char], pos: usize) -> (r: Result<
    (Expr, usize),
    ParseFailure,
>)
    ensures
        outcome(r) == grammar::worker_function_invoke(text@, pos as int),
        advances(r, pos, text@.len()),
        r matches Err(f) ==> f.error == RibParseError::InvalidFunctionCall,
        r matches Ok((e, _)) ==> (e@ matches Tree::InvokeWorkerFunction { worker, span, .. }
            && worker.span() == span),
    decreases text@.len() - pos, 1int,
{
    proof {
        lemma_worker_function_invoke_read(text@, pos as int);
    }
    match identifier(text, pos) {
        Err(f) => fail(RibParseError::InvalidFunctionCall, f.position),
        Ok((worker_variable, end)) => {
            let dot = skip_spaces(text, end);
            if !holds(text, dot, '.') {
                return fail(RibParseError::InvalidFunctionCall, dot);
            }
            match rib_expr(text, dot + 1) {
                Err(f) => fail(RibParseError::InvalidFunctionCall, f.position),
                Ok((call, end)) => match invoke_from_call(worker_variable, call) {
                    Ok(e) => Ok((e, end)),
                    Err(error) => fail(error, pos),
                },
            }
        },
    }
}

/// Reads the call of a function at `pos`.
pub fn call(text: &[char], pos: usize) -> (r: Result<(Expr, usize), ParseFailure>)
    ensures
        outcome(r) == grammar::call(text@, pos as int),
        advances(r, pos, text@.len()),
    decreases text@.len() - pos, 1int,
{
    if !starts_name(text, pos) {
        return fail(RibParseError::ExpectedIdentifier, pos);
    }
    let name_end = skip_name(text, pos);
    proof {
        lemma_name_end(text@, pos as int);
    }
    if is_let(text, pos, name_end) {
        return fail(RibParseError::ExpectedIdentifier, pos);
    }
    let after_name = skip_spaces(text, name_end);
    proof {
        grammar::lemma_type_parameter(text@, after_name as int);
    }
    match type_parameter(text, after_name) {
        Err(f) => Err(f),
        Ok((generic_type_parameter, open)) => {
            if !holds(text, open, '(') {
                return fail(RibParseError::UnexpectedToken, open);
            }
            let first = skip_spaces(text, open + 1);
            let function_name = DynamicParsedFunctionName::from_identifier(
                text_of(text, pos, name_end),
            );
            let call_type = CallType::Function { function_name, worker: None };
            assert(call_type@ == (CallKind::Function {
                function_name: grammar::word(text@, pos as int),
                worker: None,
            }));
            if holds(text, first, ')') {
                let args: Vec<Expr> = Vec::new();
                assert(views(args@) =~= Seq::<Tree>::empty());
                Ok(
                    (
                        Expr::Call {
                            call_type,
                            generic_type_parameter,
                            args,
                            source_span: SourceSpan::new(pos, first + 1),
                        },
                        first + 1,
                    ),
                )
            } else {
                let before: Vec<Expr> = Vec::new();
                assert(views(before@) =~= Seq::<Tree>::empty());
                match arguments(text, first, before) {
                    Err(f) => Err(f),
                    Ok((args, end)) => Ok(
                        (
                            Expr::Call {
                                call_type,
                                generic_type_parameter,
                                args,
                                source_span: SourceSpan::new(pos, end),
                            },
                            end,
                        ),
                    ),
                }
            }
        },
    }
}

/// Reads the arguments of a call from `pos` on, up to and with the closing
/// bracket, and adds them to those read before.
pub fn arguments(text: &[char], pos: usize, before: Vec<Expr>) -> (r: Result<
    (Vec<Expr>, usize),
    ParseFailure,
>)
    ensures
        list_outcome(r) == grammar::arguments(text@, pos as int, views(before@)),
        advances(r, pos, text@.len()),
    decreases text@.len() - pos, 3int,
{
    match rib_expr(text, pos) {
        Err(f) => Err(f),
        Ok((e, end)) => {
            let next = skip_spaces(text, end);
            proof {
                lemma_views_push(before@, e);
            }
            let mut all = before;
            all.push(e);
            if holds(text, next, ',') {
                arguments(text, next + 1, all)
            } else if holds(text, next, ')') {
                Ok((all, next + 1))
            } else {
                fail(RibParseError::UnexpectedToken, next)
            }
        },
    }
}

/// Reads the statements of a program from `pos` on and adds them to those
/// read before. The place given with them is where the last one ends.
pub fn statements(text: &[char], pos: usize, before: Vec<Expr>) -> (r: Result<
    (Vec<Expr>, usize),
    ParseFailure,
>)
    ensures
        list_outcome(r) == grammar::statements(text@, pos as int, views(before@)),
        r matches Ok((es, end)) ==> es@.len() > before@.len() && pos < end <= text@.len(),
    decreases text@.len() - pos,
{
    match rib_expr(text, pos) {
        Err(f) => Err(f),
        Ok((e, end)) => {
            let next = skip_spaces(text, end);
            proof {
                lemma_views_push(before@, e);
            }
            let mut all = before;
            all.push(e);
            if holds(text, next, ';') {
                statements(text, next + 1, all)
            } else if next >= text.len() {
                Ok((all, end))
            } else {
                fail(RibParseError::UnexpectedToken, next)
            }
        },
    }
}

/// Reads a whole program: one expression stands for itself, several make a
/// block.
pub fn program(text: &[char]) -> (r: Result<Expr, ParseFailure>)
    ensures
        program_outcome(r, text@.len()) == grammar::program(text@),
        r matches Ok(e) ==> e@.is_program() && e@.workers_span_invocations() && e@.spans_within(
            text@.len() as int,
        ),
{
    let _length = text.len();
    proof {
        theorem_program_read(text@);
    }
    let before: Vec<Expr> = Vec::new();
    assert(views(before@) =~= Seq::<Tree>::empty());
    match statements(text, 0, before) {
        Err(f) => Err(f),
        Ok((mut exprs, end)) => {
            if exprs.len() == 1 {
                let ghost trees = views(exprs@);
                let only = exprs.pop();
                match only {
                    Some(e) => {
                        assert(e@ == trees[0]);
                        Ok(e)
                    },
                    None => fail(RibParseError::ExpectedExpression, 0),
                }
            } else {
                let start = skip_spaces(text, 0);
                Ok(Expr::Block { exprs, source_span: SourceSpan::new(start, end) })
            }
        },
    }
}

impl Expr {
    /// Reads a whole program from `text`.
    pub fn from_text(text: &str) -> (r: Result<Expr, ParseFailure>)
        ensures
            program_outcome(r, text@.len()) == grammar::program(text@),
            r matches Ok(e) ==> e@.is_program() && e@.workers_span_invocations()
                && e@.spans_within(text@.len() as int),
    {
        let chars = chars_of(text);
        program(chars.as_slice())
    }
}

} // verus!
