//! What holds of the grammar, whatever the text.

use vstd::prelude::*;
use crate::chars::{
    is_name, keyword_let, lemma_name_end, lemma_quote_at, lemma_spaces_end, name_end, quote_at,
    spaces_end,
};
use crate::error::RibParseError;
use crate::grammar::{
    arguments, call, holds, identifier, lemma_type_annotation, lemma_type_parameter, let_binding,
    literal, program, rib_expr, starts_identifier, starts_name, statements, type_annotation,
    type_parameter, word, worker_function_invoke, worker_invocation, ListOutcome, Outcome,
    TagOutcome,
};
use crate::printer::tag_is_name;
use crate::tree::Tree;

verus! {

/// What `p` and `end` are to each other when something was read between
/// them in a text of `len` characters.
pub open spec fn read_between(p: int, end: int, len: int) -> bool {
    0 <= p < end <= len
}

/// The word at a place where a name starts is a name.
proof fn lemma_word_is_name(s: Seq<char>, p: int)
    requires
        starts_name(s, p),
    ensures
        is_name(word(s, p)),
        read_between(p, name_end(s, p), s.len() as int),
{
    lemma_name_end(s, p);
}

/// What `identifier` reads is an identifier that spans what was read.
proof fn lemma_identifier_read(s: Seq<char>, p: int)
    ensures
        identifier(s, p) matches Outcome::Parsed { tree, end } ==> {
            &&& read_between(p, end, s.len() as int)
            &&& tree.is_expression()
            &&& tree is Identifier
            &&& tree.workers_span_invocations()
            &&& s.len() <= usize::MAX ==> tree.spans_within(s.len() as int)
        },
{
    if starts_identifier(s, p) {
        lemma_word_is_name(s, p);
    }
}

/// What `literal` reads is a literal without a double quote in it that
/// spans what was read.
proof fn lemma_literal_read(s: Seq<char>, p: int)
    ensures
        literal(s, p) matches Outcome::Parsed { tree, end } ==> {
            &&& read_between(p, end, s.len() as int)
            &&& tree.is_expression()
            &&& tree.workers_span_invocations()
            &&& s.len() <= usize::MAX ==> tree.spans_within(s.len() as int)
        },
{
    if holds(s, p, '"') {
        lemma_quote_at(s, p + 1);
        let q = quote_at(s, p + 1);
        if q < s.len() {
            let value = s.subrange(p + 1, q);
            assert forall|i: int| 0 <= i < value.len() implies #[trigger] value[i] != '"' by {
                assert(value[i] == s[p + 1 + i]);
            }
        }
    }
}

/// A type parameter that was read is a name.
proof fn lemma_type_parameter_read(s: Seq<char>, p: int)
    ensures
        type_parameter(s, p) matches TagOutcome::Parsed { tag, end } ==> tag_is_name(tag),
{
    if holds(s, p, '[') {
        let a = spaces_end(s, p + 1);
        if starts_name(s, a) {
            lemma_word_is_name(s, a);
        }
    }
}

/// A type annotation that was read is a name.
proof fn lemma_type_annotation_read(s: Seq<char>, p: int)
    ensures
        type_annotation(s, p) matches TagOutcome::Parsed { tag, end } ==> tag_is_name(tag),
{
    if holds(s, p, ':') {
        let a = spaces_end(s, p + 1);
        if starts_name(s, a) {
            lemma_word_is_name(s, a);
        }
    }
}

/// What holds of a tree that an expression's production read at `p` in a
/// text of `len` characters: something was read, it is an expression, the
/// workers in it span their invocations, and where a machine can hold the
/// text its nodes span parts of it.
pub open spec fn well_read(o: Outcome, p: int, len: int) -> bool {
    o matches Outcome::Parsed { tree, end } ==> {
        &&& read_between(p, end, len)
        &&& tree.is_expression()
        &&& tree.workers_span_invocations()
        &&& len <= usize::MAX ==> tree.spans_within(len)
    }
}

/// The same of each tree of a list.
pub open spec fn all_well_read(trees: Seq<Tree>, len: int) -> bool {
    forall|i: int|
        0 <= i < trees.len() ==> {
            &&& (#[trigger] trees[i]).is_expression()
            &&& trees[i].workers_span_invocations()
            &&& len <= usize::MAX ==> trees[i].spans_within(len)
        }
}

/// What `rib_expr` reads is an expression that starts after the spaces and
/// ends in the text, with spans in the text.
pub proof fn lemma_rib_expr_read(s: Seq<char>, p: int)
    ensures
        well_read(rib_expr(s, p), p, s.len() as int),
        rib_expr(s, p) matches Outcome::Parsed { end, .. } ==> spaces_end(s, p) < end,
    decreases s.len() - p, 2int,
{
    let start = spaces_end(s, p);
    lemma_spaces_end(s, p);
    if holds(s, start, '"') {
        lemma_literal_read(s, start);
    } else if starts_name(s, start) {
        let next = spaces_end(s, name_end(s, start));
        if word(s, start) == keyword_let() {
            lemma_let_binding_read(s, start);
        } else if holds(s, next, '.') {
            lemma_worker_function_invoke_read(s, start);
        } else if holds(s, next, '(') || holds(s, next, '[') {
            lemma_call_read(s, start);
        } else {
            lemma_identifier_read(s, start);
        }
    }
}

/// What `let_binding` reads is a binding of an identifier to an expression.
proof fn lemma_let_binding_read(s: Seq<char>, p: int)
    ensures
        well_read(let_binding(s, p), p, s.len() as int),
    decreases s.len() - p, 1int,
{
    if starts_name(s, p) && word(s, p) == keyword_let() {
        lemma_name_end(s, p);
        let a = spaces_end(s, name_end(s, p));
        lemma_spaces_end(s, name_end(s, p));
        if starts_identifier(s, a) {
            lemma_word_is_name(s, a);
            let c = spaces_end(s, name_end(s, a));
            lemma_spaces_end(s, name_end(s, a));
            lemma_type_annotation(s, c);
            lemma_type_annotation_read(s, c);
            match type_annotation(s, c) {
                TagOutcome::Parsed { tag, end: b } => {
                    if holds(s, b, '=') {
                        lemma_rib_expr_read(s, b + 1);
                    }
                },
                _ => {},
            }
        }
    }
}

/// What `worker_function_invoke` reads is the invocation of a function on
/// an identifier. It spans the call right of the `.`, and so does the
/// worker in it.
pub proof fn lemma_worker_function_invoke_read(s: Seq<char>, p: int)
    ensures
        well_read(worker_function_invoke(s, p), p, s.len() as int),
        worker_function_invoke(s, p) matches Outcome::Parsed { tree, .. } ==> (tree matches Tree::InvokeWorkerFunction {
            worker,
            span,
            ..
        } && worker.span() == span),
        worker_function_invoke(s, p) matches Outcome::Failed { error, .. } ==> error
            == RibParseError::InvalidFunctionCall,
    decreases s.len() - p, 1int,
{
    lemma_identifier_read(s, p);
    match identifier(s, p) {
        Outcome::Parsed { tree: worker, end } => {
            let dot = spaces_end(s, end);
            lemma_spaces_end(s, end);
            if holds(s, dot, '.') {
                lemma_rib_expr_read(s, dot + 1);
                match rib_expr(s, dot + 1) {
                    Outcome::Parsed { tree: call, end } => {
                        match worker_invocation(worker, call) {
                            Some(tree) => {
                                let len = s.len() as int;
                                let moved = worker.with_span(call.span());
                                assert(moved is Identifier);
                                assert(call.is_expression());
                                assert(tree.is_expression());
                                assert(call.workers_span_invocations());
                                assert(moved.workers_span_invocations());
                                assert(tree.workers_span_invocations());
                                if len <= usize::MAX {
                                    assert(call.spans_within(len));
                                    assert(moved.spans_within(len));
                                    assert(tree.spans_within(len));
                                }
                            },
                            None => {},
                        }
                    },
                    _ => {},
                }
            }
        },
        _ => {},
    }
}

/// What `call` reads is the call of a function by name with expressions as
/// arguments.
proof fn lemma_call_read(s: Seq<char>, p: int)
    ensures
        well_read(call(s, p), p, s.len() as int),
    decreases s.len() - p, 1int,
{
    if starts_identifier(s, p) {
        lemma_word_is_name(s, p);
        let c = spaces_end(s, name_end(s, p));
        lemma_spaces_end(s, name_end(s, p));
        lemma_type_parameter(s, c);
        lemma_type_parameter_read(s, c);
        match type_parameter(s, c) {
            TagOutcome::Parsed { tag, end: open } => {
                if holds(s, open, '(') {
                    let first = spaces_end(s, open + 1);
                    lemma_spaces_end(s, open + 1);
                    if !holds(s, first, ')') {
                        lemma_arguments_read(s, first, Seq::empty());
                    }
                }
            },
            _ => {},
        }
    }
}

/// What `arguments` reads are expressions, one more at least than were read
/// before.
proof fn lemma_arguments_read(s: Seq<char>, p: int, before: Seq<Tree>)
    requires
        all_well_read(before, s.len() as int),
    ensures
        arguments(s, p, before) matches ListOutcome::Parsed { trees, end } ==> {
            &&& read_between(p, end, s.len() as int)
            &&& trees.len() > before.len()
            &&& all_well_read(trees, s.len() as int)
        },
    decreases s.len() - p, 3int,
{
    lemma_rib_expr_read(s, p);
    match rib_expr(s, p) {
        Outcome::Parsed { tree, end } => {
            let next = spaces_end(s, end);
            lemma_spaces_end(s, end);
            if holds(s, next, ',') && p <= next {
                lemma_arguments_read(s, next + 1, before.push(tree));
            }
        },
        _ => {},
    }
}

/// What `statements` reads are expressions, one more at least than were
/// read before, and the last of them ends after the first one starts.
proof fn lemma_statements_read(s: Seq<char>, p: int, before: Seq<Tree>)
    requires
        all_well_read(before, s.len() as int),
    ensures
        statements(s, p, before) matches ListOutcome::Parsed { trees, end } ==> {
            &&& read_between(p, end, s.len() as int)
            &&& spaces_end(s, p) < end
            &&& trees.len() > before.len()
            &&& all_well_read(trees, s.len() as int)
        },
    decreases s.len() - p,
{
    lemma_rib_expr_read(s, p);
    match rib_expr(s, p) {
        Outcome::Parsed { tree, end } => {
            let next = spaces_end(s, end);
            lemma_spaces_end(s, end);
            if holds(s, next, ';') && p <= next {
                lemma_statements_read(s, next + 1, before.push(tree));
            }
        },
        _ => {},
    }
}

/// What `program` reads is a program: one expression, or a block of two or
/// more. Where a machine can hold the text, every node of it spans at
/// least one character of the text, and the worker of every invocation
/// spans what the invocation spans.
pub proof fn theorem_program_read(s: Seq<char>)
    ensures
        program(s) matches Outcome::Parsed { tree, .. } ==> {
            &&& tree.is_program()
            &&& tree.workers_span_invocations()
            &&& s.len() <= usize::MAX ==> tree.spans_within(s.len() as int)
        },
{
    lemma_statements_read(s, 0, Seq::empty());
    lemma_spaces_end(s, 0);
}

/// Right of a worker's `.` only the call of a function by name is taken:
/// where an identifier and a `.` stand at `p` and what follows is no
/// expression, or an expression that is no such call (a literal, an
/// identifier, another invocation), `rib_expr` fails there with an invalid
/// function call, and so does the program that starts with them.
pub proof fn theorem_worker_needs_call(s: Seq<char>, p: int)
    requires
        starts_identifier(s, p),
        holds(s, spaces_end(s, name_end(s, p)), '.'),
        !(rib_expr(s, spaces_end(s, name_end(s, p)) + 1) matches Outcome::Parsed { tree, .. }
            && tree matches Tree::Call { call_type, .. } && call_type is Function),
    ensures
        rib_expr(s, p) matches Outcome::Failed { error, .. } && error
            == RibParseError::InvalidFunctionCall,
        p == spaces_end(s, 0) ==> (program(s) matches Outcome::Failed { error, .. } && error
            == RibParseError::InvalidFunctionCall),
{
    lemma_spaces_end(s, p);
    lemma_spaces_end(s, 0);
    assert(rib_expr(s, p) == worker_function_invoke(s, p));
    assert(rib_expr(s, 0) == rib_expr(s, spaces_end(s, 0)));
}

} // verus!
