//! The syntax tree as a mathematical value. The grammar, the printer and the
//! laws that relate them speak of these trees; `Expr` is what the program
//! holds, and its view is a `Tree`.

use vstd::prelude::*;
use crate::span::SourceSpan;

verus! {

/// How a variable was bound, once that is known.
#[derive(Clone, Copy, Debug, PartialEq, Eq, Structural)]
pub enum VariableScope {
    Global,
    Local,
}

/// What kind of thing a call calls.
pub enum CallKind {
    /// A function by its name; `worker` where the call is already bound to
    /// a worker.
    Function { function_name: Seq<char>, worker: Option<Box<Tree>> },
    /// The constructor of a variant case.
    VariantConstructor(Seq<char>),
    /// The constructor of an enum case.
    EnumConstructor(Seq<char>),
}

/// A node of the syntax tree with all that is below it.
pub enum Tree {
    Identifier { name: Seq<char>, scope: Option<VariableScope>, span: SourceSpan },
    Literal { value: Seq<char>, span: SourceSpan },
    LetBinding {
        name: Seq<char>,
        type_annotation: Option<Seq<char>>,
        bound: Box<Tree>,
        span: SourceSpan,
    },
    Block { statements: Seq<Tree>, span: SourceSpan },
    Call {
        call_type: CallKind,
        type_parameter: Option<Seq<char>>,
        args: Seq<Tree>,
        span: SourceSpan,
    },
    InvokeWorkerFunction {
        worker: Box<Tree>,
        function_name: Seq<char>,
        type_parameter: Option<Seq<char>>,
        args: Seq<Tree>,
        span: SourceSpan,
    },
}

/// The span of a node that was built and not read.
pub open spec fn no_span() -> SourceSpan {
    SourceSpan { start: 0, end: 0 }
}

/// The span between two offsets.
pub open spec fn span_of(start: int, end: int) -> SourceSpan {
    SourceSpan { start: start as usize, end: end as usize }
}

/// The trees of a list without their spans, one for one.
pub open spec fn erased_all(trees: Seq<Tree>) -> Seq<Tree>
    decreases trees,
{
    Seq::new(
        trees.len(),
        |i: int|
            if 0 <= i < trees.len() {
                trees[i].erased()
            } else {
                arbitrary()
            },
    )
}

impl Tree {
    /// The span of this node.
    pub open spec fn span(self) -> SourceSpan {
        match self {
            Tree::Identifier { span, .. } => span,
            Tree::Literal { span, .. } => span,
            Tree::LetBinding { span, .. } => span,
            Tree::Block { span, .. } => span,
            Tree::Call { span, .. } => span,
            Tree::InvokeWorkerFunction { span, .. } => span,
        }
    }

    /// This node with another span; what is below it stays as it is.
    pub open spec fn with_span(self, new_span: SourceSpan) -> Tree {
        match self {
            Tree::Identifier { name, scope, .. } => Tree::Identifier { name, scope, span: new_span },
            Tree::Literal { value, .. } => Tree::Literal { value, span: new_span },
            Tree::LetBinding { name, type_annotation, bound, .. } => Tree::LetBinding {
                name,
                type_annotation,
                bound,
                span: new_span,
            },
            Tree::Block { statements, .. } => Tree::Block { statements, span: new_span },
            Tree::Call { call_type, type_parameter, args, .. } => Tree::Call {
                call_type,
                type_parameter,
                args,
                span: new_span,
            },
            Tree::InvokeWorkerFunction {
                worker,
                function_name,
                type_parameter,
                args,
                ..
            } => Tree::InvokeWorkerFunction {
                worker,
                function_name,
                type_parameter,
                args,
                span: new_span,
            },
        }
    }

    /// The tree without its spans: two trees hold the same syntax exactly
    /// when their erasures are equal.
    pub open spec fn erased(self) -> Tree
        decreases self,
    {
        match self {
            Tree::Identifier { name, scope, .. } => Tree::Identifier { name, scope, span: no_span() },
            Tree::Literal { value, .. } => Tree::Literal { value, span: no_span() },
            Tree::LetBinding { name, type_annotation, bound, .. } => Tree::LetBinding {
                name,
                type_annotation,
                bound: Box::new(bound.erased()),
                span: no_span(),
            },
            Tree::Block { statements, .. } => Tree::Block {
                statements: erased_all(statements),
                span: no_span(),
            },
            Tree::Call { call_type, type_parameter, args, .. } => Tree::Call {
                call_type: match call_type {
                    CallKind::Function { function_name, worker: Some(w) } => CallKind::Function {
                        function_name,
                        worker: Some(Box::new(w.erased())),
                    },
                    other => other,
                },
                type_parameter,
                args: erased_all(args),
                span: no_span(),
            },
            Tree::InvokeWorkerFunction { worker, function_name, type_parameter, args, .. } => {
                Tree::InvokeWorkerFunction {
                    worker: Box::new(worker.erased()),
                    function_name,
                    type_parameter,
                    args: erased_all(args),
                    span: no_span(),
                }
            },
        }
    }
}

} // verus!
