//! The program tree that the pass rewrites, and its mathematical view.
//!
//! Only the node kinds that the pass tells apart have a variant of their own.
//! Every other construct of a program (statements, declarations, operators,
//! literals that are not strings, ...) is an [`Expr::Other`] node that lists its
//! sub-nodes in the order in which a traversal reaches them.

use vstd::prelude::*;

verus! {

/// A node of the program tree.
#[derive(Debug, PartialEq, Eq)]
pub enum Expr {
    /// A named reference, compared by its symbol.
    Ident(String),
    /// A string literal and the text it holds.
    Str(String),
    /// An invocation `callee(args)`.
    Call(CallExpr),
    /// A member access `obj.prop`.
    Member { obj: Box<Expr>, prop: String },
    /// Any other construct, with its sub-nodes in visiting order.
    Other(Vec<Expr>),
}

/// What stands in front of the argument list of a call.
#[derive(Debug, PartialEq, Eq)]
pub enum Callee {
    /// An ordinary expression.
    Expr(Box<Expr>),
    /// The keyword `super`.
    Super,
    /// The keyword `import`.
    Import,
}

/// One slot of an argument list: an expression, possibly spread (`...expr`).
#[derive(Debug, PartialEq, Eq)]
pub struct ExprOrSpread {
    pub spread: bool,
    pub expr: Expr,
}

/// A call: its callee and its arguments in source order.
#[derive(Debug, PartialEq, Eq)]
pub struct CallExpr {
    pub callee: Callee,
    pub args: Vec<ExprOrSpread>,
}

/// One source unit: its top-level nodes in source order.
#[derive(Debug, PartialEq, Eq)]
pub struct Program {
    pub body: Vec<Expr>,
}

/// The kind of a node, without its contents.
#[derive(Debug, Clone, Copy, PartialEq, Eq, Structural)]
pub enum ExprKind {
    Ident,
    Str,
    Call,
    Member,
    Other,
}

/// The mathematical value of an [`Expr`].
pub enum ExprView {
    Ident(Seq<char>),
    Str(Seq<char>),
    Call(CallView),
    Member { obj: Box<ExprView>, prop: Seq<char> },
    Other(Seq<ExprView>),
}

/// The mathematical value of a [`Callee`].
pub enum CalleeView {
    Expr(Box<ExprView>),
    Super,
    Import,
}

/// The mathematical value of an [`ExprOrSpread`].
pub struct ArgView {
    pub spread: bool,
    pub expr: ExprView,
}

/// The mathematical value of a [`CallExpr`].
pub struct CallView {
    pub callee: CalleeView,
    pub args: Seq<ArgView>,
}

/// The mathematical value of a node.
pub open spec fn expr_view(e: Expr) -> ExprView
    decreases e,
{
    match e {
        Expr::Ident(sym) => ExprView::Ident(sym@),
        Expr::Str(value) => ExprView::Str(value@),
        Expr::Call(call) => ExprView::Call(
            CallView {
                callee: match call.callee {
                    Callee::Expr(inner) => CalleeView::Expr(Box::new(expr_view(*inner))),
                    Callee::Super => CalleeView::Super,
                    Callee::Import => CalleeView::Import,
                },
                args: args_view(call.args),
            },
        ),
        Expr::Member { obj, prop } => ExprView::Member {
            obj: Box::new(expr_view(*obj)),
            prop: prop@,
        },
        Expr::Other(children) => ExprView::Other(exprs_view(children)),
    }
}

/// The mathematical value of a list of nodes.
pub open spec fn exprs_view(nodes: Vec<Expr>) -> Seq<ExprView>
    decreases nodes,
{
    Seq::new(
        nodes.len() as nat,
        |i: int|
            if 0 <= i < nodes.len() {
                expr_view(nodes[i])
            } else {
                arbitrary()
            },
    )
}

/// The mathematical value of an argument list.
pub open spec fn args_view(args: Vec<ExprOrSpread>) -> Seq<ArgView>
    decreases args,
{
    Seq::new(
        args.len() as nat,
        |i: int|
            ArgView {
                spread: args[i].spread,
                expr: if 0 <= i < args.len() {
                    expr_view(args[i].expr)
                } else {
                    arbitrary()
                },
            },
    )
}

/// The mathematical value of a callee.
pub open spec fn callee_view(callee: Callee) -> CalleeView {
    match callee {
        Callee::Expr(inner) => CalleeView::Expr(Box::new(expr_view(*inner))),
        Callee::Super => CalleeView::Super,
        Callee::Import => CalleeView::Import,
    }
}

/// The mathematical value of one argument slot.
pub open spec fn arg_view(arg: ExprOrSpread) -> ArgView {
    ArgView { spread: arg.spread, expr: expr_view(arg.expr) }
}

/// The mathematical value of a call.
pub open spec fn call_view(call: CallExpr) -> CallView {
    CallView { callee: callee_view(call.callee), args: args_view(call.args) }
}

impl View for Expr {
    type V = ExprView;

    open spec fn view(&self) -> ExprView {
        expr_view(*self)
    }
}

impl View for Callee {
    type V = CalleeView;

    open spec fn view(&self) -> CalleeView {
        callee_view(*self)
    }
}

impl View for ExprOrSpread {
    type V = ArgView;

    open spec fn view(&self) -> ArgView {
        arg_view(*self)
    }
}

impl View for CallExpr {
    type V = CallView;

    open spec fn view(&self) -> CallView {
        call_view(*self)
    }
}

impl View for Program {
    type V = Seq<ExprView>;

    open spec fn view(&self) -> Seq<ExprView> {
        exprs_view(self.body)
    }
}

/// The kind of a node of the mathematical tree.
pub open spec fn kind_of(e: ExprView) -> ExprKind {
    match e {
        ExprView::Ident(_) => ExprKind::Ident,
        ExprView::Str(_) => ExprKind::Str,
        ExprView::Call(_) => ExprKind::Call,
        ExprView::Member { .. } => ExprKind::Member,
        ExprView::Other(_) => ExprKind::Other,
    }
}

impl Expr {
    /// The kind of this node.
    pub fn kind(&self) -> (r: ExprKind)
        ensures
            r == kind_of(self@),
    {
        match self {
            Expr::Ident(_) => ExprKind::Ident,
            Expr::Str(_) => ExprKind::Str,
            Expr::Call(_) => ExprKind::Call,
            Expr::Member { .. } => ExprKind::Member,
            Expr::Other(_) => ExprKind::Other,
        }
    }
}

impl ExprKind {
    /// The name of the kind as it reads in a message.
    pub open spec fn name(self) -> Seq<char> {
        match self {
            ExprKind::Ident => "an identifier"@,
            ExprKind::Str => "a string literal"@,
            ExprKind::Call => "a call"@,
            ExprKind::Member => "a member access"@,
            ExprKind::Other => "another expression"@,
        }
    }

    /// The name of the kind as it reads in a message.
    pub fn describe(&self) -> (r: &'static str)
        ensures
            r@ == self.name(),
    {
        match self {
            ExprKind::Ident => "an identifier",
            ExprKind::Str => "a string literal",
            ExprKind::Call => "a call",
            ExprKind::Member => "a member access",
            ExprKind::Other => "another expression",
        }
    }
}

} // verus!
