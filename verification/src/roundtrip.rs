//! The parser reads back what the printer writes.

use vstd::prelude::*;
use crate::chars::{
    is_identifier, is_name, keyword_let, lemma_spaces_end, name_char, name_end, name_start,
    quote_at, spaces_end, white_space,
};
use crate::error::RibParseError;
use crate::grammar::{
    arguments, call, holds, identifier, let_binding, literal, program, rib_expr, starts_name,
    statements, type_annotation, type_parameter, word, worker_function_invoke,
    worker_invocation, ListOutcome, Outcome, TagOutcome,
};
use crate::laws::{lemma_rib_expr_read, theorem_program_read};
use crate::printer::{
    call_text, comma, joined, semicolon, tag_is_name, texts, type_annotation_text,
    type_parameter_text,
};
use crate::tree::{erased_all, no_span, CallKind, Tree};

verus! {

/// The text `s` holds `x` from the place `p` on.
pub open spec fn has_at(s: Seq<char>, p: int, x: Seq<char>) -> bool {
    &&& 0 <= p
    &&& p + x.len() <= s.len()
    &&& s.subrange(p, p + x.len()) == x
}

/// The place `e` is the end of the text, or holds what an expression can
/// be followed by: `,`, `)` or `;`.
pub open spec fn closes(s: Seq<char>, e: int) -> bool {
    e == s.len() || holds(s, e, ',') || holds(s, e, ')') || holds(s, e, ';')
}

/// A text holds two texts in a row exactly when it holds the first and,
/// right after it, the second.
proof fn lemma_has_at_split(s: Seq<char>, p: int, a: Seq<char>, b: Seq<char>)
    ensures
        has_at(s, p, a + b) <==> has_at(s, p, a) && has_at(s, p + a.len(), b),
{
    if has_at(s, p, a + b) {
        assert(s.subrange(p, p + a.len()) =~= a) by {
            assert forall|i: int| 0 <= i < a.len() implies s.subrange(p, p + a.len())[i]
                == a[i] by {
                assert(s.subrange(p, p + (a + b).len())[i] == (a + b)[i]);
            }
        }
        assert(s.subrange(p + a.len(), p + a.len() + b.len()) =~= b) by {
            assert forall|i: int| 0 <= i < b.len() implies s.subrange(
                p + a.len(),
                p + a.len() + b.len(),
            )[i] == b[i] by {
                assert(s.subrange(p, p + (a + b).len())[a.len() + i] == (a + b)[a.len() + i]);
            }
        }
    }
    if has_at(s, p, a) && has_at(s, p + a.len(), b) {
        assert(s.subrange(p, p + (a + b).len()) =~= a + b) by {
            assert forall|i: int| 0 <= i < (a + b).len() implies s.subrange(
                p,
                p + (a + b).len(),
            )[i] == (a + b)[i] by {
                if i < a.len() {
                    assert(s.subrange(p, p + a.len())[i] == a[i]);
                } else {
                    assert(s.subrange(p + a.len(), p + a.len() + b.len())[i - a.len()] == b[i
                        - a.len()]);
                }
            }
        }
    }
}

/// What a text holds at a place, it holds character by character.
proof fn lemma_has_at_index(s: Seq<char>, p: int, x: Seq<char>, i: int)
    requires
        has_at(s, p, x),
        0 <= i < x.len(),
    ensures
        s[p + i] == x[i],
{
    assert(s.subrange(p, p + x.len())[i] == x[i]);
}

/// A run of name characters that something else ends is where `name_end`
/// stops.
proof fn lemma_name_run(s: Seq<char>, p: int, e: int)
    requires
        0 <= p <= e <= s.len(),
        forall|i: int| p <= i < e ==> name_char(#[trigger] s[i]),
        e == s.len() || !name_char(s[e]),
    ensures
        name_end(s, p) == e,
    decreases e - p,
{
    if p < e {
        lemma_name_run(s, p + 1, e);
    }
}

/// A run without a double quote that a double quote ends is where
/// `quote_at` stops.
proof fn lemma_quote_run(s: Seq<char>, p: int, e: int)
    requires
        0 <= p <= e < s.len(),
        forall|i: int| p <= i < e ==> #[trigger] s[i] != '"',
        s[e] == '"',
    ensures
        quote_at(s, p) == e,
    decreases e - p,
{
    if p < e {
        lemma_quote_run(s, p + 1, e);
    }
}

/// One space before something that is no white space is skipped, and no
/// more.
proof fn lemma_one_space(s: Seq<char>, p: int)
    requires
        holds(s, p, ' '),
        p + 1 == s.len() || !white_space(s[p + 1]),
    ensures
        spaces_end(s, p) == p + 1,
{
    assert(spaces_end(s, p) == spaces_end(s, p + 1));
}

/// One line feed before something that is no white space is skipped, and
/// no more.
proof fn lemma_one_line_feed(s: Seq<char>, p: int)
    requires
        holds(s, p, '\n'),
        p + 1 == s.len() || !white_space(s[p + 1]),
    ensures
        spaces_end(s, p) == p + 1,
{
    assert(spaces_end(s, p) == spaces_end(s, p + 1));
}

/// Where the text holds a name and no name character after it, the word
/// there is that name.
proof fn lemma_reads_name(s: Seq<char>, p: int, w: Seq<char>)
    requires
        has_at(s, p, w),
        is_name(w),
        p + w.len() == s.len() || !name_char(s[p + w.len()]),
    ensures
        starts_name(s, p),
        name_end(s, p) == p + w.len(),
        word(s, p) == w,
{
    assert forall|i: int| p <= i < p + w.len() implies name_char(#[trigger] s[i]) by {
        lemma_has_at_index(s, p, w, i - p);
    }
    lemma_has_at_index(s, p, w, 0);
    lemma_name_run(s, p, p + w.len());
}

/// `rib_expr` reads from where the spaces end.
proof fn lemma_rib_expr_skips(s: Seq<char>, p: int)
    ensures
        rib_expr(s, p) == rib_expr(s, spaces_end(s, p)),
{
    lemma_spaces_end(s, p);
}

/// `arguments` reads from where the spaces end.
proof fn lemma_arguments_skips(s: Seq<char>, p: int, before: Seq<Tree>)
    ensures
        arguments(s, p, before) == arguments(s, spaces_end(s, p), before),
{
    lemma_spaces_end(s, p);
    lemma_rib_expr_skips(s, p);
    lemma_rib_expr_read(s, p);
    match rib_expr(s, p) {
        Outcome::Parsed { tree, end } => {
            lemma_spaces_end(s, end);
        },
        _ => {},
    }
}

/// `statements` reads from where the spaces end.
proof fn lemma_statements_skips(s: Seq<char>, p: int, before: Seq<Tree>)
    ensures
        statements(s, p, before) == statements(s, spaces_end(s, p), before),
{
    lemma_spaces_end(s, p);
    lemma_rib_expr_skips(s, p);
    lemma_rib_expr_read(s, p);
    match rib_expr(s, p) {
        Outcome::Parsed { tree, end } => {
            lemma_spaces_end(s, end);
        },
        _ => {},
    }
}

/// The text of an expression starts with a letter or a double quote.
proof fn lemma_text_starts(t: Tree)
    requires
        t.is_expression(),
    ensures
        t.text().len() > 0,
        name_start(t.text()[0]) || t.text()[0] == '"',
{
    match t {
        Tree::Call { call_type, type_parameter, args, .. } => {
            let callee = call_type->function_name;
            assert(t.text() == call_text(callee, type_parameter, texts(args)));
            assert(t.text()[0] == callee[0]);
        },
        Tree::InvokeWorkerFunction { worker, function_name, type_parameter, args, .. } => {
            match *worker {
                Tree::Identifier { name, .. } => {
                    assert(worker.text() == name);
                    assert(t.text()[0] == name[0]);
                },
                _ => {},
            }
        },
        _ => {},
    }
}

/// Every tree of the list is an expression.
pub open spec fn all_expressions(trees: Seq<Tree>) -> bool {
    forall|i: int| 0 <= i < trees.len() ==> (#[trigger] trees[i]).is_expression()
}

/// Two lists hold the same syntax, tree by tree.
pub open spec fn same_syntax(a: Seq<Tree>, b: Seq<Tree>) -> bool {
    &&& a.len() == b.len()
    &&& forall|i: int| 0 <= i < a.len() ==> (#[trigger] a[i]).erased() == b[i].erased()
}

/// The outcome is a tree with the syntax of `t` that ends at `end`.
pub open spec fn read_back(o: Outcome, t: Tree, end: int) -> bool {
    o matches Outcome::Parsed { tree, end: e } && e == end && tree.erased() == t.erased()
}

/// The outcome is the call of the function `function_name`, with the type
/// parameter `tag` and arguments with the syntax of `args`, that ends at
/// `end`.
pub open spec fn call_read_back(
    o: Outcome,
    function_name: Seq<char>,
    tag: Option<Seq<char>>,
    args: Seq<Tree>,
    end: int,
) -> bool {
    &&& o matches Outcome::Parsed { tree, end: e }
    &&& e == end
    &&& tree matches Tree::Call { call_type, type_parameter, args: trees, .. }
    &&& call_type == (CallKind::Function { function_name, worker: None })
    &&& type_parameter == tag
    &&& same_syntax(trees, args)
}

/// The type parameter of a call is read back as it was written.
proof fn lemma_type_parameter_reads_back(s: Seq<char>, p: int, tag: Option<Seq<char>>)
    requires
        tag_is_name(tag),
        has_at(s, p, type_parameter_text(tag) + seq!['(']),
    ensures
        type_parameter(s, p) == (TagOutcome::Parsed {
            tag,
            end: p + type_parameter_text(tag).len(),
        }),
        holds(s, p + type_parameter_text(tag).len(), '('),
        !name_char(s[p]),
        !white_space(s[p]),
        !holds(s, p, '.'),
        holds(s, p, '(') || holds(s, p, '['),
{
    let text = type_parameter_text(tag);
    lemma_has_at_split(s, p, text, seq!['(']);
    lemma_has_at_index(s, p + text.len(), seq!['('], 0);
    match tag {
        Some(t) => {
            lemma_has_at_split(s, p, seq!['['] + t, seq![']']);
            lemma_has_at_split(s, p, seq!['['], t);
            lemma_has_at_index(s, p, seq!['['], 0);
            lemma_has_at_index(s, p + 1 + t.len(), seq![']'], 0);
            lemma_has_at_index(s, p + 1, t, 0);
            lemma_reads_name(s, p + 1, t);
        },
        None => {},
    }
}

/// The type annotation of a binding is read back as it was written.
proof fn lemma_type_annotation_reads_back(s: Seq<char>, p: int, tag: Option<Seq<char>>)
    requires
        tag_is_name(tag),
        has_at(s, p, type_annotation_text(tag) + seq![' ', '=', ' ']),
    ensures
        type_annotation(s, spaces_end(s, p)) == (TagOutcome::Parsed {
            tag,
            end: p + type_annotation_text(tag).len() + 1,
        }),
        holds(s, p + type_annotation_text(tag).len() + 1, '='),
        holds(s, p + type_annotation_text(tag).len() + 2, ' '),
        !name_char(s[p]),
{
    let text = type_annotation_text(tag);
    let equals = seq![' ', '=', ' '];
    lemma_has_at_split(s, p, text, equals);
    lemma_has_at_index(s, p + text.len(), equals, 0);
    lemma_has_at_index(s, p + text.len(), equals, 1);
    lemma_has_at_index(s, p + text.len(), equals, 2);
    match tag {
        Some(t) => {
            lemma_has_at_split(s, p, seq![':', ' '], t);
            lemma_has_at_index(s, p, seq![':', ' '], 0);
            lemma_has_at_index(s, p, seq![':', ' '], 1);
            lemma_has_at_index(s, p + 2, t, 0);
            lemma_one_space(s, p + 1);
            lemma_reads_name(s, p + 2, t);
            lemma_one_space(s, p + 2 + t.len());
        },
        None => {
            lemma_one_space(s, p);
        },
    }
}

/// An identifier is read back as it was written.
proof fn lemma_identifier_reads_back(s: Seq<char>, p: int, t: Tree)
    requires
        t is Identifier,
        t.is_expression(),
        has_at(s, p, t.text()),
        closes(s, p + t.text().len()),
    ensures
        read_back(rib_expr(s, p), t, p + t.text().len()),
{
    match t {
        Tree::Identifier { name, .. } => {
            lemma_has_at_index(s, p, name, 0);
            lemma_reads_name(s, p, name);
            assert(rib_expr(s, p) == identifier(s, p));
        },
        _ => {},
    }
}

/// A literal is read back as it was written.
proof fn lemma_literal_reads_back(s: Seq<char>, p: int, t: Tree)
    requires
        t is Literal,
        t.is_expression(),
        has_at(s, p, t.text()),
    ensures
        read_back(rib_expr(s, p), t, p + t.text().len()),
{
    match t {
        Tree::Literal { value, .. } => {
            let quote = seq!['"'];
            lemma_has_at_split(s, p, quote + value, quote);
            lemma_has_at_split(s, p, quote, value);
            lemma_has_at_index(s, p, quote, 0);
            lemma_has_at_index(s, p + 1 + value.len(), quote, 0);
            assert forall|i: int| p + 1 <= i < p + 1 + value.len() implies #[trigger] s[i]
                != '"' by {
                lemma_has_at_index(s, p + 1, value, i - (p + 1));
            }
            lemma_quote_run(s, p + 1, p + 1 + value.len());
            assert(rib_expr(s, p) == literal(s, p));
        },
        _ => {},
    }
}

/// A binding is read back as it was written.
proof fn lemma_let_binding_reads_back(s: Seq<char>, p: int, t: Tree)
    requires
        t is LetBinding,
        t.is_expression(),
        has_at(s, p, t.text()),
        closes(s, p + t.text().len()),
    ensures
        read_back(rib_expr(s, p), t, p + t.text().len()),
    decreases t, 0int,
{
    match t {
        Tree::LetBinding { name, type_annotation: tag, bound, .. } => {
            let keyword = seq!['l', 'e', 't', ' '];
            let annotation = type_annotation_text(tag);
            let equals = seq![' ', '=', ' '];
            lemma_has_at_split(s, p, keyword + name + annotation + equals, bound.text());
            lemma_has_at_split(s, p, keyword + name + annotation, equals);
            lemma_has_at_split(s, p, keyword + name, annotation);
            lemma_has_at_split(s, p, keyword, name);
            assert(keyword =~= keyword_let() + seq![' ']);
            lemma_has_at_split(s, p, keyword_let(), seq![' ']);
            lemma_has_at_index(s, p + 3, seq![' '], 0);
            lemma_has_at_index(s, p, keyword_let(), 0);
            lemma_reads_name(s, p, keyword_let());
            let a = p + 4;
            lemma_has_at_index(s, a, name, 0);
            lemma_one_space(s, p + 3);
            let c = a + name.len();
            lemma_has_at_split(s, c, annotation, equals);
            lemma_type_annotation_reads_back(s, c, tag);
            lemma_reads_name(s, a, name);
            let b = c + annotation.len() + 1;
            lemma_text_starts(*bound);
            lemma_has_at_index(s, b + 2, bound.text(), 0);
            lemma_one_space(s, b + 1);
            lemma_rib_expr_skips(s, b + 1);
            lemma_expression_reads_back(s, b + 2, *bound);
            assert(rib_expr(s, p) == let_binding(s, p));
        },
        _ => {},
    }
}

/// An invocation on a worker is read back as it was written.
proof fn lemma_invocation_reads_back(s: Seq<char>, p: int, t: Tree)
    requires
        t is InvokeWorkerFunction,
        t.is_expression(),
        has_at(s, p, t.text()),
    ensures
        read_back(rib_expr(s, p), t, p + t.text().len()),
    decreases t, 0int,
{
    match t {
        Tree::InvokeWorkerFunction { worker, function_name, type_parameter: tag, args, .. } => {
            match *worker {
                Tree::Identifier { name, scope, span } => {
                    let written = call_text(function_name, tag, texts(args));
                    assert(worker.text() == name);
                    assert(t.text() == name + seq!['.'] + written);
                    lemma_has_at_split(s, p, name + seq!['.'], written);
                    lemma_has_at_split(s, p, name, seq!['.']);
                    let dot = p + name.len();
                    lemma_has_at_index(s, dot, seq!['.'], 0);
                    lemma_has_at_index(s, p, name, 0);
                    lemma_reads_name(s, p, name);
                    assert(rib_expr(s, p) == worker_function_invoke(s, p));
                    lemma_call_reads_back(s, dot + 1, function_name, tag, args);
                    match rib_expr(s, dot + 1) {
                        Outcome::Parsed { tree: called, .. } => {
                            lemma_same_syntax_erased(called->Call_args, args);
                            let read = identifier(s, p)->tree;
                            let moved = read.with_span(called.span());
                            assert(moved.erased() == worker.erased());
                            let invocation = worker_invocation(read, called)->0;
                            assert(invocation.erased() == t.erased());
                        },
                        _ => {},
                    }
                },
                _ => {},
            }
        },
        _ => {},
    }
}

/// An expression is read back as it was written: where the text holds
/// what the printer writes for `t` and goes on with nothing that could
/// belong to it, `rib_expr` reads a tree with the syntax of `t` and stops
/// where the text of `t` ends.
pub proof fn lemma_expression_reads_back(s: Seq<char>, p: int, t: Tree)
    requires
        t.is_expression(),
        has_at(s, p, t.text()),
        closes(s, p + t.text().len()),
    ensures
        read_back(rib_expr(s, p), t, p + t.text().len()),
    decreases t, 1int,
{
    match t {
        Tree::Identifier { .. } => {
            lemma_identifier_reads_back(s, p, t);
        },
        Tree::Literal { .. } => {
            lemma_literal_reads_back(s, p, t);
        },
        Tree::LetBinding { .. } => {
            lemma_let_binding_reads_back(s, p, t);
        },
        Tree::Block { .. } => {},
        Tree::Call { call_type, type_parameter: tag, args, .. } => {
            let function_name = call_type->function_name;
            assert(call_type == (CallKind::Function { function_name, worker: None }));
            assert(t.text() == call_text(function_name, tag, texts(args)));
            lemma_call_reads_back(s, p, function_name, tag, args);
            match rib_expr(s, p) {
                Outcome::Parsed { tree, .. } => {
                    lemma_same_syntax_erased(tree->Call_args, args);
                    assert(tree.erased() == t.erased());
                },
                _ => {},
            }
        },
        Tree::InvokeWorkerFunction { .. } => {
            lemma_invocation_reads_back(s, p, t);
        },
    }
}

/// Lists with the same syntax have the same erasures.
proof fn lemma_same_syntax_erased(a: Seq<Tree>, b: Seq<Tree>)
    requires
        same_syntax(a, b),
    ensures
        erased_all(a) == erased_all(b),
{
    assert(erased_all(a) =~= erased_all(b));
}

/// A call is read back as it was written.
proof fn lemma_call_reads_back(
    s: Seq<char>,
    p: int,
    function_name: Seq<char>,
    tag: Option<Seq<char>>,
    args: Seq<Tree>,
)
    requires
        is_identifier(function_name),
        tag_is_name(tag),
        all_expressions(args),
        has_at(s, p, call_text(function_name, tag, texts(args))),
    ensures
        call_read_back(
            rib_expr(s, p),
            function_name,
            tag,
            args,
            p + call_text(function_name, tag, texts(args)).len(),
        ),
    decreases args, args.len() + 1,
{
    let parameter = type_parameter_text(tag);
    let list = joined(texts(args), comma(), 0);
    let open = seq!['('];
    let close = seq![')'];
    lemma_has_at_split(s, p, function_name + parameter + open + list, close);
    lemma_has_at_split(s, p, function_name + parameter + open, list);
    lemma_has_at_split(s, p, function_name + parameter, open);
    lemma_has_at_split(s, p, function_name, parameter);
    let c = p + function_name.len();
    lemma_has_at_split(s, c, parameter, open);
    lemma_type_parameter_reads_back(s, c, tag);
    lemma_has_at_index(s, p, function_name, 0);
    lemma_reads_name(s, p, function_name);
    let first = c + parameter.len() + 1;
    lemma_has_at_index(s, first + list.len(), close, 0);
    assert(rib_expr(s, p) == call(s, p));
    if args.len() == 0 {
        assert(list.len() == 0);
        assert(same_syntax(Seq::<Tree>::empty(), args));
    } else {
        assert(texts(args)[0] == args[0].text());
        lemma_text_starts(args[0]);
        lemma_joined_starts(texts(args), comma(), 0);
        lemma_has_at_index(s, first, list, 0);
        lemma_has_at_split(s, first, list, close);
        lemma_arguments_read_back(s, first, args, 0, Seq::empty());
    }
}

/// What is joined starts with its first part.
proof fn lemma_joined_starts(parts: Seq<Seq<char>>, separator: Seq<char>, from: int)
    requires
        0 <= from < parts.len(),
        parts[from].len() > 0,
    ensures
        joined(parts, separator, from).len() > 0,
        joined(parts, separator, from)[0] == parts[from][0],
{
}

/// The arguments of a call are read back as they were written, from the
/// one at `i` on.
proof fn lemma_arguments_read_back(
    s: Seq<char>,
    p: int,
    args: Seq<Tree>,
    i: int,
    before: Seq<Tree>,
)
    requires
        0 <= i < args.len(),
        all_expressions(args),
        has_at(s, p, joined(texts(args), comma(), i) + seq![')']),
        before.len() == i,
        forall|j: int| 0 <= j < i ==> (#[trigger] before[j]).erased() == args[j].erased(),
    ensures
        arguments(s, p, before) matches ListOutcome::Parsed { trees, end } && end == p + joined(
            texts(args),
            comma(),
            i,
        ).len() + 1 && same_syntax(trees, args),
    decreases args, args.len() - i,
{
    let parts = texts(args);
    let close = seq![')'];
    let rest = joined(parts, comma(), i);
    assert(parts[i] == args[i].text());
    lemma_has_at_split(s, p, rest, close);
    let e = p + parts[i].len();
    if i == args.len() - 1 {
        lemma_has_at_index(s, e, close, 0);
        lemma_expression_reads_back(s, p, args[i]);
    } else {
        let more = joined(parts, comma(), i + 1);
        lemma_has_at_split(s, p, parts[i] + comma(), more);
        lemma_has_at_split(s, p, parts[i], comma());
        lemma_has_at_index(s, e, comma(), 0);
        lemma_has_at_index(s, e, comma(), 1);
        lemma_expression_reads_back(s, p, args[i]);
        let tree = rib_expr(s, p)->tree;
        assert(parts[i + 1] == args[i + 1].text());
        lemma_text_starts(args[i + 1]);
        lemma_joined_starts(parts, comma(), i + 1);
        lemma_has_at_index(s, e + 2, more, 0);
        lemma_one_space(s, e + 1);
        lemma_arguments_skips(s, e + 1, before.push(tree));
        lemma_has_at_split(s, e + 2, more, close);
        lemma_arguments_read_back(s, e + 2, args, i + 1, before.push(tree));
    }
}

/// The statements of a program are read back as they were written, from
/// the one at `i` on.
proof fn lemma_statements_read_back(
    s: Seq<char>,
    p: int,
    trees: Seq<Tree>,
    i: int,
    before: Seq<Tree>,
)
    requires
        0 <= i < trees.len(),
        all_expressions(trees),
        has_at(s, p, joined(texts(trees), semicolon(), i)),
        p + joined(texts(trees), semicolon(), i).len() == s.len(),
        before.len() == i,
        forall|j: int| 0 <= j < i ==> (#[trigger] before[j]).erased() == trees[j].erased(),
    ensures
        statements(s, p, before) matches ListOutcome::Parsed { trees: read, end } && end
            == s.len() && same_syntax(read, trees),
    decreases trees.len() - i,
{
    let parts = texts(trees);
    assert(parts[i] == trees[i].text());
    let e = p + parts[i].len();
    if i == trees.len() - 1 {
        lemma_expression_reads_back(s, p, trees[i]);
    } else {
        let more = joined(parts, semicolon(), i + 1);
        lemma_has_at_split(s, p, parts[i] + semicolon(), more);
        lemma_has_at_split(s, p, parts[i], semicolon());
        lemma_has_at_index(s, e, semicolon(), 0);
        lemma_has_at_index(s, e, semicolon(), 1);
        lemma_expression_reads_back(s, p, trees[i]);
        let tree = rib_expr(s, p)->tree;
        assert(parts[i + 1] == trees[i + 1].text());
        lemma_text_starts(trees[i + 1]);
        lemma_joined_starts(parts, semicolon(), i + 1);
        lemma_has_at_index(s, e + 2, more, 0);
        lemma_one_line_feed(s, e + 1);
        lemma_statements_skips(s, e + 1, before.push(tree));
        lemma_statements_read_back(s, e + 2, trees, i + 1, before.push(tree));
    }
}

/// A program is read back as it was written: reading what the printer
/// writes for a program gives a tree with the same syntax.
pub proof fn theorem_program_reads_back(t: Tree)
    requires
        t.is_program(),
    ensures
        read_back(program(t.text()), t, t.text().len() as int),
{
    let s = t.text();
    match t {
        Tree::Block { statements: trees, .. } => {
            assert(s.subrange(0, s.len() as int) =~= s);
            lemma_statements_read_back(s, 0, trees, 0, Seq::empty());
            match statements(s, 0, Seq::empty()) {
                ListOutcome::Parsed { trees: read, .. } => {
                    lemma_same_syntax_erased(read, trees);
                },
                _ => {},
            }
        },
        _ => {
            assert(s.subrange(0, s.len() as int) =~= s);
            lemma_expression_reads_back(s, 0, t);
            lemma_spaces_end(s, s.len() as int);
        },
    }
}

/// What was read is read again from its own text: where a text is a
/// program, the text that the printer writes for its tree is a program
/// with the same syntax.
pub proof fn theorem_reading_is_idempotent(s: Seq<char>)
    requires
        program(s) is Parsed,
    ensures
        read_back(
            program(program(s)->tree.text()),
            program(s)->tree,
            program(s)->tree.text().len() as int,
        ),
{
    theorem_program_read(s);
    theorem_program_reads_back(program(s)->tree);
}

/// The text of the invocation of `function_name` on the worker `worker`.
pub open spec fn invocation_text(
    worker: Seq<char>,
    function_name: Seq<char>,
    tag: Option<Seq<char>>,
    args: Seq<Tree>,
) -> Seq<char> {
    worker + seq!['.'] + call_text(function_name, tag, texts(args))
}

/// An invocation is read as it is written: for every identifier `worker`,
/// every function name, type parameter and list of expressions, the text
/// `worker.function_name[tag](args)`, and without `[tag]` where there is
/// none, is read as the invocation of that function on the identifier
/// `worker`, with that type parameter and with arguments of the same
/// syntax, in the same order. The worker in it spans what the invocation
/// spans.
pub proof fn theorem_invocation_reads_back(
    worker: Seq<char>,
    function_name: Seq<char>,
    tag: Option<Seq<char>>,
    args: Seq<Tree>,
)
    requires
        is_identifier(worker),
        is_identifier(function_name),
        tag_is_name(tag),
        all_expressions(args),
    ensures
        program(invocation_text(worker, function_name, tag, args)) matches Outcome::Parsed {
            tree,
            ..
        } && {
            &&& tree matches Tree::InvokeWorkerFunction {
                worker: read_worker,
                function_name: read_name,
                type_parameter,
                args: read_args,
                span,
            }
            &&& *read_worker matches Tree::Identifier { name, scope, span: worker_span }
            &&& name == worker
            &&& scope is None
            &&& worker_span == span
            &&& read_name == function_name
            &&& type_parameter == tag
            &&& same_syntax(read_args, args)
        },
{
    let t = Tree::InvokeWorkerFunction {
        worker: Box::new(Tree::Identifier { name: worker, scope: None, span: no_span() }),
        function_name,
        type_parameter: tag,
        args,
        span: no_span(),
    };
    let s = invocation_text(worker, function_name, tag, args);
    let written = Tree::Identifier { name: worker, scope: None, span: no_span() };
    assert(written.text() == worker);
    assert(written.erased() == written);
    assert(t.text() == s);
    theorem_program_reads_back(t);
    theorem_program_read(s);
    let tree = program(s)->tree;
    assert(tree.erased() == t.erased());
    match tree {
        Tree::InvokeWorkerFunction { worker: read_worker, args: read_args, .. } => {
            assert(read_worker.erased() == (Tree::Identifier {
                name: worker,
                scope: None,
                span: no_span(),
            }));
            assert(erased_all(read_args) == erased_all(args));
            assert forall|i: int| 0 <= i < read_args.len() implies (#[trigger] read_args[i]).erased()
                == args[i].erased() by {
                assert(erased_all(read_args)[i] == erased_all(args)[i]);
            }
        },
        _ => {},
    }
}

/// What is written right of a worker's `.` must be a call: for every
/// identifier `worker` and every expression `t` that is no call (a
/// literal, an identifier, a binding, another invocation), the text
/// `worker.t` is no program. Reading it fails with an invalid function
/// call at its start.
pub proof fn theorem_refuses_what_is_no_call(worker: Seq<char>, t: Tree)
    requires
        is_identifier(worker),
        t.is_expression(),
        !(t is Call),
    ensures
        program(worker + seq!['.'] + t.text()) == (Outcome::Failed {
            error: RibParseError::InvalidFunctionCall,
            position: 0,
        }),
{
    let s = worker + seq!['.'] + t.text();
    let dot = worker.len() as int;
    assert(s.subrange(0, s.len() as int) =~= s);
    lemma_has_at_split(s, 0, worker + seq!['.'], t.text());
    lemma_has_at_split(s, 0, worker, seq!['.']);
    lemma_has_at_index(s, dot, seq!['.'], 0);
    lemma_has_at_index(s, 0, worker, 0);
    lemma_reads_name(s, 0, worker);
    lemma_expression_reads_back(s, dot + 1, t);
    assert(rib_expr(s, 0) == worker_function_invoke(s, 0));
    let read = rib_expr(s, dot + 1)->tree;
    assert(read.erased() == t.erased());
    assert(!(read is Call));
}

} // verus!
