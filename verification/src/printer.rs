//! The text of a tree: what the printer writes and the parser reads back.

use vstd::prelude::*;
use crate::chars::{is_identifier, is_name};
use crate::expr::{
    type_name_view, type_parameter_view, views, CallType, Expr, GenericTypeParameter,
};
use crate::grammar::program;
use crate::roundtrip::{read_back, theorem_program_reads_back};
use crate::text::push_text;
use crate::tree::{CallKind, Tree};

verus! {

/// The parts from `from` on, with `separator` between each two.
pub open spec fn joined(parts: Seq<Seq<char>>, separator: Seq<char>, from: int) -> Seq<char>
    decreases parts.len() - from,
{
    if from < 0 || from >= parts.len() {
        Seq::empty()
    } else if from == parts.len() - 1 {
        parts[from]
    } else {
        parts[from] + separator + joined(parts, separator, from + 1)
    }
}

/// What stands between two arguments.
pub open spec fn comma() -> Seq<char> {
    seq![',', ' ']
}

/// What stands between two statements.
pub open spec fn semicolon() -> Seq<char> {
    seq![';', '\n']
}

/// The type parameter of a call as it is written.
pub open spec fn type_parameter_text(tag: Option<Seq<char>>) -> Seq<char> {
    match tag {
        Some(t) => seq!['['] + t + seq![']'],
        None => Seq::empty(),
    }
}

/// The type annotation of a binding as it is written.
pub open spec fn type_annotation_text(tag: Option<Seq<char>>) -> Seq<char> {
    match tag {
        Some(t) => seq![':', ' '] + t,
        None => Seq::empty(),
    }
}

/// A call as it is written: what is called, the type parameter, and the
/// arguments in round brackets.
pub open spec fn call_text(callee: Seq<char>, tag: Option<Seq<char>>, args: Seq<Seq<char>>) -> Seq<
    char,
> {
    callee + type_parameter_text(tag) + seq!['('] + joined(args, comma(), 0) + seq![')']
}

/// The texts of a sequence of trees, one for one.
pub open spec fn texts(trees: Seq<Tree>) -> Seq<Seq<char>>
    decreases trees,
{
    Seq::new(
        trees.len(),
        |i: int|
            if 0 <= i < trees.len() {
                trees[i].text()
            } else {
                arbitrary()
            },
    )
}

/// A tag, where there is one, is a name.
pub open spec fn tag_is_name(tag: Option<Seq<char>>) -> bool {
    tag matches Some(t) ==> is_name(t)
}

impl Tree {
    /// The tree as it is written.
    pub open spec fn text(self) -> Seq<char>
        decreases self,
    {
        match self {
            Tree::Identifier { name, .. } => name,
            Tree::Literal { value, .. } => seq!['"'] + value + seq!['"'],
            Tree::LetBinding { name, type_annotation, bound, .. } => seq!['l', 'e', 't', ' '] + name
                + type_annotation_text(type_annotation) + seq![' ', '=', ' '] + bound.text(),
            Tree::Block { statements, .. } => joined(texts(statements), semicolon(), 0),
            Tree::Call { call_type, type_parameter, args, .. } => call_text(
                match call_type {
                    CallKind::Function { function_name, worker: Some(w) } => w.text() + seq!['.']
                        + function_name,
                    CallKind::Function { function_name, worker: None } => function_name,
                    CallKind::VariantConstructor(name) => name,
                    CallKind::EnumConstructor(name) => name,
                },
                type_parameter,
                texts(args),
            ),
            Tree::InvokeWorkerFunction { worker, function_name, type_parameter, args, .. } => {
                worker.text() + seq!['.'] + call_text(function_name, type_parameter, texts(args))
            },
        }
    }

    /// The tree is one that `rib_expr` can read: its names are names, its
    /// literals hold no double quote, its calls call functions by name and
    /// are bound to no worker, its workers are identifiers, and no block
    /// stands in it.
    pub open spec fn is_expression(self) -> bool
        decreases self,
    {
        match self {
            Tree::Identifier { name, scope, .. } => is_identifier(name) && scope is None,
            Tree::Literal { value, .. } => forall|i: int|
                0 <= i < value.len() ==> #[trigger] value[i] != '"',
            Tree::LetBinding { name, type_annotation, bound, .. } => {
                &&& is_identifier(name)
                &&& tag_is_name(type_annotation)
                &&& bound.is_expression()
            },
            Tree::Block { .. } => false,
            Tree::Call { call_type, type_parameter, args, .. } => {
                &&& call_type matches CallKind::Function { function_name, worker }
                &&& worker is None
                &&& is_identifier(function_name)
                &&& tag_is_name(type_parameter)
                &&& forall|i: int| 0 <= i < args.len() ==> (#[trigger] args[i]).is_expression()
            },
            Tree::InvokeWorkerFunction { worker, function_name, type_parameter, args, .. } => {
                &&& *worker matches Tree::Identifier { name, scope, .. }
                &&& is_identifier(name)
                &&& scope is None
                &&& is_identifier(function_name)
                &&& tag_is_name(type_parameter)
                &&& forall|i: int| 0 <= i < args.len() ==> (#[trigger] args[i]).is_expression()
            },
        }
    }

    /// The tree is one that a whole program can come to: an expression, or
    /// a block of two or more.
    pub open spec fn is_program(self) -> bool {
        match self {
            Tree::Block { statements, .. } => {
                &&& statements.len() >= 2
                &&& forall|i: int|
                    0 <= i < statements.len() ==> (#[trigger] statements[i]).is_expression()
            },
            _ => self.is_expression(),
        }
    }

    /// The worker of every invocation in the tree spans what the invocation
    /// spans.
    pub open spec fn workers_span_invocations(self) -> bool
        decreases self,
    {
        match self {
            Tree::Identifier { .. } => true,
            Tree::Literal { .. } => true,
            Tree::LetBinding { bound, .. } => bound.workers_span_invocations(),
            Tree::Block { statements, .. } => forall|i: int|
                0 <= i < statements.len() ==> (#[trigger] statements[i]).workers_span_invocations(),
            Tree::Call { call_type, args, .. } => {
                &&& call_type matches CallKind::Function { worker: Some(w), .. }
                    ==> w.workers_span_invocations()
                &&& forall|i: int|
                    0 <= i < args.len() ==> (#[trigger] args[i]).workers_span_invocations()
            },
            Tree::InvokeWorkerFunction { worker, args, span, .. } => {
                &&& worker.span() == span
                &&& worker.workers_span_invocations()
                &&& forall|i: int|
                    0 <= i < args.len() ==> (#[trigger] args[i]).workers_span_invocations()
            },
        }
    }

    /// Every node of the tree spans at least one character of a text of
    /// `len` characters.
    pub open spec fn spans_within(self, len: int) -> bool
        decreases self,
    {
        &&& self.span().start < self.span().end <= len
        &&& match self {
            Tree::Identifier { .. } => true,
            Tree::Literal { .. } => true,
            Tree::LetBinding { bound, .. } => bound.spans_within(len),
            Tree::Block { statements, .. } => forall|i: int|
                0 <= i < statements.len() ==> (#[trigger] statements[i]).spans_within(len),
            Tree::Call { call_type, args, .. } => {
                &&& call_type matches CallKind::Function { worker: Some(w), .. } ==> w.spans_within(
                    len,
                )
                &&& forall|i: int| 0 <= i < args.len() ==> (#[trigger] args[i]).spans_within(len)
            },
            Tree::InvokeWorkerFunction { worker, args, .. } => {
                &&& worker.spans_within(len)
                &&& forall|i: int| 0 <= i < args.len() ==> (#[trigger] args[i]).spans_within(len)
            },
        }
    }
}

/// What stands between two items of a list: a comma and a space between
/// arguments, a semicolon and a line feed between statements.
pub open spec fn separator(arguments: bool) -> Seq<char> {
    if arguments {
        comma()
    } else {
        semicolon()
    }
}

/// The text of each node is the text of its tree.
proof fn lemma_texts_of_views(items: Seq<Expr>, i: int)
    requires
        0 <= i < items.len(),
    ensures
        texts(views(items))[i] == items[i]@.text(),
{
}

/// What is joined from `from` on is the part at `from` and, where more
/// follow, the separator and what is joined from the next on.
proof fn lemma_joined_unfold(parts: Seq<Seq<char>>, separator: Seq<char>, from: int)
    requires
        0 <= from < parts.len(),
    ensures
        joined(parts, separator, from) == if from == parts.len() - 1 {
            parts[from]
        } else {
            parts[from] + separator + joined(parts, separator, from + 1)
        },
{
}

/// Writes the items from `from` on after what `out` holds, with commas
/// between them where `arguments` is set and semicolons where it is not.
fn write_list(items: &Vec<Expr>, from: usize, arguments: bool, out: &mut String)
    requires
        from <= items@.len(),
    ensures
        final(out)@ == old(out)@ + joined(texts(views(items@)), separator(arguments), from as int),
    decreases items, items@.len() - from,
{
    if from < items.len() {
        let ghost parts = texts(views(items@));
        let ghost start = out@;
        proof {
            lemma_texts_of_views(items@, from as int);
            lemma_joined_unfold(parts, separator(arguments), from as int);
        }
        write_text(&items[from], out);
        if from + 1 < items.len() {
            if arguments {
                out.push(',');
                out.push(' ');
            } else {
                out.push(';');
                out.push('\n');
            }
            assert(out@ =~= start + parts[from as int] + separator(arguments));
            write_list(items, from + 1, arguments, out);
            assert(out@ =~= start + (parts[from as int] + separator(arguments) + joined(
                parts,
                separator(arguments),
                from + 1,
            )));
        }
    } else {
        assert(out@ =~= out@ + Seq::<char>::empty());
    }
}

/// Writes the type parameter and the arguments of a call after what `out`
/// holds, which ends with what is called.
fn write_call(
    generic_type_parameter: &Option<GenericTypeParameter>,
    args: &Vec<Expr>,
    out: &mut String,
    Ghost(callee): Ghost<Seq<char>>,
    Ghost(start): Ghost<Seq<char>>,
)
    requires
        old(out)@ == start + callee,
    ensures
        final(out)@ == start + call_text(
            callee,
            type_parameter_view(*generic_type_parameter),
            texts(views(args@)),
        ),
    decreases args, args@.len() + 1,
{
    match generic_type_parameter {
        Some(t) => {
            out.push('[');
            push_text(out, &t.value);
            out.push(']');
        },
        None => {},
    }
    let ghost tag = type_parameter_text(type_parameter_view(*generic_type_parameter));
    assert(out@ =~= start + (callee + tag));
    out.push('(');
    write_list(args, 0, true, out);
    out.push(')');
    assert(out@ =~= start + (callee + tag + seq!['('] + joined(texts(views(args@)), comma(), 0)
        + seq![')']));
}

/// Writes the text of `e` after what `out` holds.
fn write_text(e: &Expr, out: &mut String)
    ensures
        final(out)@ == old(out)@ + e@.text(),
    decreases e, 0int,
{
    let ghost start = out@;
    match e {
        Expr::Identifier { name, .. } => {
            push_text(out, name);
        },
        Expr::Literal { value, .. } => {
            out.push('"');
            push_text(out, value);
            out.push('"');
            assert(out@ =~= start + (seq!['"'] + value@ + seq!['"']));
        },
        Expr::LetBinding { name, type_annotation, expr, .. } => {
            out.push('l');
            out.push('e');
            out.push('t');
            out.push(' ');
            push_text(out, name);
            match type_annotation {
                Some(t) => {
                    out.push(':');
                    out.push(' ');
                    push_text(out, &t.value);
                },
                None => {},
            }
            let ghost tag = type_annotation_text(type_name_view(*type_annotation));
            assert(out@ =~= start + (seq!['l', 'e', 't', ' '] + name@ + tag));
            out.push(' ');
            out.push('=');
            out.push(' ');
            write_text(expr, out);
            assert(out@ =~= start + (seq!['l', 'e', 't', ' '] + name@ + tag + seq![' ', '=', ' ']
                + expr@.text()));
        },
        Expr::Block { exprs, .. } => {
            write_list(exprs, 0, false, out);
        },
        Expr::Call { call_type, generic_type_parameter, args, .. } => {
            let ghost callee;
            match call_type {
                CallType::Function { function_name, worker: Some(w) } => {
                    write_text(w, out);
                    out.push('.');
                    let name = function_name.to_string();
                    push_text(out, &name);
                    proof {
                        callee = w@.text() + seq!['.'] + function_name@;
                    }
                },
                CallType::Function { function_name, worker: None } => {
                    let name = function_name.to_string();
                    push_text(out, &name);
                    proof {
                        callee = function_name@;
                    }
                },
                CallType::VariantConstructor(name) => {
                    push_text(out, name);
                    proof {
                        callee = name@;
                    }
                },
                CallType::EnumConstructor(name) => {
                    push_text(out, name);
                    proof {
                        callee = name@;
                    }
                },
            }
            assert(out@ =~= start + callee);
            write_call(generic_type_parameter, args, out, Ghost(callee), Ghost(start));
            assert(callee == match call_type.kind() {
                CallKind::Function { function_name, worker: Some(w) } => w.text() + seq!['.']
                    + function_name,
                CallKind::Function { function_name, worker: None } => function_name,
                CallKind::VariantConstructor(name) => name,
                CallKind::EnumConstructor(name) => name,
            });
        },
        Expr::InvokeWorkerFunction { worker, function_name, generic_type_parameter, args, .. } => {
            write_text(worker, out);
            out.push('.');
            let ghost before = out@;
            push_text(out, function_name);
            write_call(generic_type_parameter, args, out, Ghost(function_name@), Ghost(before));
            assert(out@ =~= start + (worker@.text() + seq!['.'] + call_text(
                function_name@,
                type_parameter_view(*generic_type_parameter),
                texts(views(args@)),
            )));
        },
    }
}

impl Expr {
    /// The tree as it is written. `from_text` reads a program back from it
    /// with the same syntax.
    pub fn to_text(&self) -> (r: String)
        ensures
            r@ == self@.text(),
            self@.is_program() ==> read_back(program(r@), self@, r@.len() as int),
    {
        let mut out = String::new();
        write_text(self, &mut out);
        assert(out@ =~= self@.text());
        proof {
            if self@.is_program() {
                theorem_program_reads_back(self@);
            }
        }
        out
    }
}

} // verus!
