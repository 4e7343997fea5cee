//! The syntax tree that the parser builds and later stages consume.

use vstd::prelude::*;
use vstd::string::*;
use crate::chars::{is_identifier, is_name_start, keyword_let, lemma_name_end, skip_name};
use crate::text::chars_of;
use crate::span::SourceSpan;
use crate::tree::{no_span, CallKind, Tree, VariableScope};

verus! {

/// The type tag written in square brackets after a function's name.
#[derive(Clone, Debug, PartialEq, Eq)]
pub struct GenericTypeParameter {
    pub value: String,
}

/// The type written after a bound name.
#[derive(Clone, Debug, PartialEq, Eq)]
pub struct TypeName {
    pub value: String,
}

/// The name of a function, checked when it was made.
#[derive(Debug, PartialEq, Eq)]
pub struct DynamicParsedFunctionName {
    name: String,
}

impl View for DynamicParsedFunctionName {
    type V = Seq<char>;

    closed spec fn view(&self) -> Seq<char> {
        self.name@
    }
}

/// What kind of thing a call calls.
#[derive(Debug, PartialEq, Eq)]
pub enum CallType {
    Function { function_name: DynamicParsedFunctionName, worker: Option<Box<Expr>> },
    VariantConstructor(String),
    EnumConstructor(String),
}

/// A node of the syntax tree with all that is below it. Two trees are equal
/// when they hold the same syntax: `==` does not look at source spans.
#[derive(Debug, PartialEq, Eq)]
pub enum Expr {
    Identifier { name: String, scope: Option<VariableScope>, source_span: SourceSpan },
    Literal { value: String, source_span: SourceSpan },
    LetBinding {
        name: String,
        type_annotation: Option<TypeName>,
        expr: Box<Expr>,
        source_span: SourceSpan,
    },
    Block { exprs: Vec<Expr>, source_span: SourceSpan },
    Call {
        call_type: CallType,
        generic_type_parameter: Option<GenericTypeParameter>,
        args: Vec<Expr>,
        source_span: SourceSpan,
    },
    InvokeWorkerFunction {
        worker: Box<Expr>,
        function_name: String,
        generic_type_parameter: Option<GenericTypeParameter>,
        args: Vec<Expr>,
        source_span: SourceSpan,
    },
}

/// The type tag as characters, where there is one.
pub open spec fn type_parameter_view(t: Option<GenericTypeParameter>) -> Option<Seq<char>> {
    match t {
        Some(p) => Some(p.value@),
        None => None,
    }
}

/// The type annotation as characters, where there is one.
pub open spec fn type_name_view(t: Option<TypeName>) -> Option<Seq<char>> {
    match t {
        Some(p) => Some(p.value@),
        None => None,
    }
}

/// The tree of the worker that a call is bound to, where there is one.
pub open spec fn worker_view(worker: Option<Expr>) -> Option<Box<Tree>> {
    match worker {
        Some(w) => Some(Box::new(w.tree())),
        None => None,
    }
}

/// The trees of a sequence of nodes, one for one.
pub open spec fn views(v: Seq<Expr>) -> Seq<Tree>
    decreases v,
{
    Seq::new(
        v.len(),
        |i: int|
            if 0 <= i < v.len() {
                v[i].tree()
            } else {
                arbitrary()
            },
    )
}

impl CallType {
    /// The call type as a mathematical value.
    pub open spec fn kind(&self) -> CallKind
        decreases self,
    {
        match self {
            CallType::Function { function_name, worker } => CallKind::Function {
                function_name: function_name@,
                worker: match worker {
                    Some(w) => Some(Box::new(w.tree())),
                    None => None,
                },
            },
            CallType::VariantConstructor(name) => CallKind::VariantConstructor(name@),
            CallType::EnumConstructor(name) => CallKind::EnumConstructor(name@),
        }
    }
}

impl Expr {
    /// The tree that this node and all below it stand for.
    pub open spec fn tree(&self) -> Tree
        decreases self,
    {
        match self {
            Expr::Identifier { name, scope, source_span } => Tree::Identifier {
                name: name@,
                scope: *scope,
                span: *source_span,
            },
            Expr::Literal { value, source_span } => Tree::Literal {
                value: value@,
                span: *source_span,
            },
            Expr::LetBinding { name, type_annotation, expr, source_span } => Tree::LetBinding {
                name: name@,
                type_annotation: type_name_view(*type_annotation),
                bound: Box::new(expr.tree()),
                span: *source_span,
            },
            Expr::Block { exprs, source_span } => Tree::Block {
                statements: views(exprs@),
                span: *source_span,
            },
            Expr::Call { call_type, generic_type_parameter, args, source_span } => Tree::Call {
                call_type: call_type.kind(),
                type_parameter: type_parameter_view(*generic_type_parameter),
                args: views(args@),
                span: *source_span,
            },
            Expr::InvokeWorkerFunction {
                worker,
                function_name,
                generic_type_parameter,
                args,
                source_span,
            } => Tree::InvokeWorkerFunction {
                worker: Box::new(worker.tree()),
                function_name: function_name@,
                type_parameter: type_parameter_view(*generic_type_parameter),
                args: views(args@),
                span: *source_span,
            },
        }
    }
}

impl View for CallType {
    type V = CallKind;

    open spec fn view(&self) -> CallKind {
        self.kind()
    }
}

impl View for Expr {
    type V = Tree;

    open spec fn view(&self) -> Tree {
        self.tree()
    }
}

/// The message that rejects a text as a function name.
pub open spec fn function_name_failure_text() -> Seq<char> {
    "invalid function name"@
}

impl DynamicParsedFunctionName {
    #[verifier::type_invariant]
    spec fn valid(self) -> bool {
        is_identifier(self.name@)
    }

    /// The function name that `name` spells. It is one exactly when it is
    /// an identifier.
    pub fn parse(name: &str) -> (r: Result<Self, String>)
        ensures
            r is Ok <==> is_identifier(name@),
            r matches Ok(f) ==> f@ == name@,
            r matches Err(message) ==> message@ == function_name_failure_text(),
    {
        let cs = chars_of(name);
        let text = cs.as_slice();
        proof {
            lemma_name_end(text@, 0);
        }
        let n = text.len();
        let named = n > 0 && is_name_start(text[0]) && skip_name(text, 0) == n;
        let reserved = n == 3 && text[0] == 'l' && text[1] == 'e' && text[2] == 't';
        proof {
            if reserved {
                assert(text@ =~= keyword_let());
            }
            if named && !reserved {
                assert(keyword_let().len() == 3);
                assert(keyword_let()[0] == 'l' && keyword_let()[1] == 'e' && keyword_let()[2]
                    == 't');
                assert(is_identifier(text@));
            }
        }
        if named && !reserved {
            Ok(DynamicParsedFunctionName { name: String::from_str(name) })
        } else {
            Err(String::from_str("invalid function name"))
        }
    }

    /// The function name that the identifier `name` spells.
    pub(crate) fn from_identifier(name: String) -> (r: Self)
        requires
            is_identifier(name@),
        ensures
            r@ == name@,
    {
        DynamicParsedFunctionName { name }
    }

    /// The name as text.
    pub fn to_string(&self) -> (r: String)
        ensures
            r@ == self@,
    {
        self.name.clone()
    }
}

impl Clone for DynamicParsedFunctionName {
    fn clone(&self) -> (r: Self)
        ensures
            r@ == self@,
    {
        proof {
            use_type_invariant(self);
        }
        DynamicParsedFunctionName { name: self.name.clone() }
    }
}

/// A copy of the type parameter, where there is one.
fn copy_type_parameter(tag: &Option<GenericTypeParameter>) -> (r: Option<GenericTypeParameter>)
    ensures
        type_parameter_view(r) == type_parameter_view(*tag),
{
    match tag {
        Some(t) => Some(GenericTypeParameter { value: t.value.clone() }),
        None => None,
    }
}

/// A copy of the type annotation, where there is one.
fn copy_type_name(tag: &Option<TypeName>) -> (r: Option<TypeName>)
    ensures
        type_name_view(r) == type_name_view(*tag),
{
    match tag {
        Some(t) => Some(TypeName { value: t.value.clone() }),
        None => None,
    }
}

/// Copies of the items from `from` on, added to the copies of those before.
fn copy_list(items: &Vec<Expr>, from: usize, copies: Vec<Expr>) -> (r: Vec<Expr>)
    requires
        from <= items@.len(),
        copies@.len() == from,
        forall|j: int| 0 <= j < from ==> (#[trigger] copies@[j])@ == items@[j]@,
    ensures
        views(r@) == views(items@),
    decreases items, items@.len() - from,
{
    if from < items.len() {
        let copy = copy_expr(&items[from]);
        let mut copies = copies;
        copies.push(copy);
        copy_list(items, from + 1, copies)
    } else {
        assert(views(copies@) =~= views(items@));
        copies
    }
}

/// A copy of the call type.
fn copy_call_type(call_type: &CallType) -> (r: CallType)
    ensures
        r@ == call_type@,
    decreases call_type, 0int,
{
    match call_type {
        CallType::Function { function_name, worker } => {
            let worker_copy = match worker {
                Some(w) => Some(Box::new(copy_expr(w))),
                None => None,
            };
            CallType::Function { function_name: function_name.clone(), worker: worker_copy }
        },
        CallType::VariantConstructor(name) => CallType::VariantConstructor(name.clone()),
        CallType::EnumConstructor(name) => CallType::EnumConstructor(name.clone()),
    }
}

/// A copy of the node and of all below it.
fn copy_expr(e: &Expr) -> (r: Expr)
    ensures
        r@ == e@,
    decreases e, 0int,
{
    match e {
        Expr::Identifier { name, scope, source_span } => Expr::Identifier {
            name: name.clone(),
            scope: *scope,
            source_span: *source_span,
        },
        Expr::Literal { value, source_span } => Expr::Literal {
            value: value.clone(),
            source_span: *source_span,
        },
        Expr::LetBinding { name, type_annotation, expr, source_span } => Expr::LetBinding {
            name: name.clone(),
            type_annotation: copy_type_name(type_annotation),
            expr: Box::new(copy_expr(expr)),
            source_span: *source_span,
        },
        Expr::Block { exprs, source_span } => Expr::Block {
            exprs: copy_list(exprs, 0, Vec::new()),
            source_span: *source_span,
        },
        Expr::Call { call_type, generic_type_parameter, args, source_span } => Expr::Call {
            call_type: copy_call_type(call_type),
            generic_type_parameter: copy_type_parameter(generic_type_parameter),
            args: copy_list(args, 0, Vec::new()),
            source_span: *source_span,
        },
        Expr::InvokeWorkerFunction {
            worker,
            function_name,
            generic_type_parameter,
            args,
            source_span,
        } => Expr::InvokeWorkerFunction {
            worker: Box::new(copy_expr(worker)),
            function_name: function_name.clone(),
            generic_type_parameter: copy_type_parameter(generic_type_parameter),
            args: copy_list(args, 0, Vec::new()),
            source_span: *source_span,
        },
    }
}

impl Clone for CallType {
    /// The copy stands for the same call type.
    fn clone(&self) -> (r: Self)
        ensures
            r@ == self@,
    {
        copy_call_type(self)
    }
}

impl Clone for Expr {
    /// The copy stands for the same tree, spans and all.
    fn clone(&self) -> (r: Self)
        ensures
            r@ == self@,
    {
        copy_expr(self)
    }
}

impl Expr {
    /// An identifier with the given scope that was not read from a text.
    pub fn identifier_global(name: &str, scope: Option<VariableScope>) -> (r: Expr)
        ensures
            r@ == (Tree::Identifier { name: name@, scope, span: no_span() }),
    {
        Expr::Identifier { name: String::from_str(name), scope, source_span: SourceSpan::default() }
    }

    /// A string literal that was not read from a text.
    pub fn literal(value: &str) -> (r: Expr)
        ensures
            r@ == (Tree::Literal { value: value@, span: no_span() }),
    {
        Expr::Literal { value: String::from_str(value), source_span: SourceSpan::default() }
    }

    /// The binding of `name` to `expr`.
    pub fn let_binding(name: &str, expr: Expr, type_annotation: Option<TypeName>) -> (r: Expr)
        ensures
            r@ == (Tree::LetBinding {
                name: name@,
                type_annotation: type_name_view(type_annotation),
                bound: Box::new(expr@),
                span: no_span(),
            }),
    {
        Expr::LetBinding {
            name: String::from_str(name),
            type_annotation,
            expr: Box::new(expr),
            source_span: SourceSpan::default(),
        }
    }

    /// The block of the given expressions, in their order.
    pub fn expr_block(exprs: Vec<Expr>) -> (r: Expr)
        ensures
            r@ == (Tree::Block { statements: views(exprs@), span: no_span() }),
    {
        Expr::Block { exprs, source_span: SourceSpan::default() }
    }

    /// The call of the function `function_name`, bound to `worker` where one
    /// is given, with the given arguments.
    pub fn call_worker_function(
        function_name: DynamicParsedFunctionName,
        generic_type_parameter: Option<GenericTypeParameter>,
        worker: Option<Expr>,
        args: Vec<Expr>,
    ) -> (r: Expr)
        ensures
            r@ == (Tree::Call {
                call_type: CallKind::Function {
                    function_name: function_name@,
                    worker: worker_view(worker),
                },
                type_parameter: type_parameter_view(generic_type_parameter),
                args: views(args@),
                span: no_span(),
            }),
    {
        let ghost kind = CallKind::Function {
            function_name: function_name@,
            worker: worker_view(worker),
        };
        let worker = match worker {
            Some(w) => Some(Box::new(w)),
            None => None,
        };
        let call_type = CallType::Function { function_name, worker };
        assert(call_type.kind() == kind);
        Expr::Call { call_type, generic_type_parameter, args, source_span: SourceSpan::default() }
    }

    /// The invocation of the function `function_name` on `worker`.
    pub fn invoke_worker_function(
        worker: Expr,
        function_name: String,
        generic_type_parameter: Option<GenericTypeParameter>,
        args: Vec<Expr>,
    ) -> (r: Expr)
        ensures
            r@ == (Tree::InvokeWorkerFunction {
                worker: Box::new(worker@),
                function_name: function_name@,
                type_parameter: type_parameter_view(generic_type_parameter),
                args: views(args@),
                span: no_span(),
            }),
    {
        Expr::InvokeWorkerFunction {
            worker: Box::new(worker),
            function_name,
            generic_type_parameter,
            args,
            source_span: SourceSpan::default(),
        }
    }

    /// The span of this node.
    pub fn source_span(&self) -> (r: SourceSpan)
        ensures
            r == self@.span(),
    {
        match self {
            Expr::Identifier { source_span, .. } => *source_span,
            Expr::Literal { source_span, .. } => *source_span,
            Expr::LetBinding { source_span, .. } => *source_span,
            Expr::Block { source_span, .. } => *source_span,
            Expr::Call { source_span, .. } => *source_span,
            Expr::InvokeWorkerFunction { source_span, .. } => *source_span,
        }
    }

    /// This node with the span `source_span`; what is below it stays as it
    /// is.
    pub fn with_source_span(self, source_span: SourceSpan) -> (r: Expr)
        ensures
            r@ == self@.with_span(source_span),
    {
        match self {
            Expr::Identifier { name, scope, .. } => Expr::Identifier { name, scope, source_span },
            Expr::Literal { value, .. } => Expr::Literal { value, source_span },
            Expr::LetBinding { name, type_annotation, expr, .. } => Expr::LetBinding {
                name,
                type_annotation,
                expr,
                source_span,
            },
            Expr::Block { exprs, .. } => Expr::Block { exprs, source_span },
            Expr::Call { call_type, generic_type_parameter, args, .. } => Expr::Call {
                call_type,
                generic_type_parameter,
                args,
                source_span,
            },
            Expr::InvokeWorkerFunction {
                worker,
                function_name,
                generic_type_parameter,
                args,
                ..
            } => Expr::InvokeWorkerFunction {
                worker,
                function_name,
                generic_type_parameter,
                args,
                source_span,
            },
        }
    }
}

/// Adding a node at the end adds its tree at the end.
pub proof fn lemma_views_push(v: Seq<Expr>, e: Expr)
    ensures
        views(v.push(e)) == views(v).push(e@),
{
    assert(views(v.push(e)) =~= views(v).push(e@));
}

} // verus!
