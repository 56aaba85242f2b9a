//! What the pass does, stated over the mathematical tree.
//!
//! The walk visits the callee and the arguments of a call, the object of a
//! member access and the sub-nodes of any other construct, each before the
//! node itself. One flag travels along: a callee that is the bare marker
//! identifier raises it, and the next call that the walk leaves takes it down
//! and is rewritten, whether or not it is the call that raised it.

use vstd::prelude::*;
use crate::ast::ArgView;
use crate::ast::CallView;
use crate::ast::CalleeView;
use crate::ast::ExprView;
use crate::ast::kind_of;
use crate::error::TransformErrorView;
use crate::files::FileSystem;
use crate::files::LookupView;
use crate::files::joined;
use crate::files::lookup_in;

verus! {

/// The name of the marker function.
pub const MARKER: &'static str = "includeBytes";

/// The object on which the runtime decoding function lives.
pub const RUNTIME_OBJECT: &'static str = "env";

/// The name of the runtime decoding function.
pub const RUNTIME_METHOD: &'static str = "latin1_string_to_uint8array";

/// Whether a callee is the bare marker identifier.
pub open spec fn is_marker(callee: CalleeView) -> bool {
    match callee {
        CalleeView::Expr(inner) => match *inner {
            ExprView::Ident(sym) => sym == MARKER@,
            _ => false,
        },
        _ => false,
    }
}

/// The callee that a rewritten call gets: a reference to the runtime decoding
/// function.
pub open spec fn runtime_callee() -> CalleeView {
    CalleeView::Expr(
        Box::new(
            ExprView::Member {
                obj: Box::new(ExprView::Ident(RUNTIME_OBJECT@)),
                prop: RUNTIME_METHOD@,
            },
        ),
    )
}

/// The path that rewriting `call` reads: there is one when the call has a
/// string literal as its first argument and a working directory is known.
pub open spec fn wanted_path(call: CallView, cwd: Option<Seq<char>>) -> Option<Seq<char>> {
    if call.args.len() > 0 && call.args[0].expr is Str && cwd is Some {
        Some(joined(cwd->0, call.args[0].expr->Str_0))
    } else {
        None
    }
}

/// The rewrite of one call, given what was found at the path it reads.
pub open spec fn substituted(call: CallView, cwd: Option<Seq<char>>, found: LookupView) -> Result<
    CallView,
    TransformErrorView,
> {
    if call.args.len() == 0 {
        Err(TransformErrorView::MissingArgument)
    } else if !(call.args[0].expr is Str) {
        Err(TransformErrorView::InvalidArgumentType { found: kind_of(call.args[0].expr) })
    } else if cwd is None {
        Err(TransformErrorView::MissingCwd)
    } else {
        let path = joined(cwd->0, call.args[0].expr->Str_0);
        match found {
            LookupView::Missing => Err(TransformErrorView::FileNotFound { path }),
            LookupView::Unreadable => Err(TransformErrorView::ReadFailure { path }),
            LookupView::Text(text) => Ok(
                CallView {
                    callee: runtime_callee(),
                    args: call.args.update(
                        0,
                        ArgView { spread: call.args[0].spread, expr: ExprView::Str(text) },
                    ),
                },
            ),
        }
    }
}

/// What the file system `fs` holds at the path that rewriting `call` reads.
pub open spec fn found_for(call: CallView, cwd: Option<Seq<char>>, fs: FileSystem) -> LookupView {
    match wanted_path(call, cwd) {
        Some(path) => lookup_in(fs, path),
        None => LookupView::Missing,
    }
}

/// The rewrite of one call against the file system `fs`.
pub open spec fn rewritten(call: CallView, cwd: Option<Seq<char>>, fs: FileSystem) -> Result<
    CallView,
    TransformErrorView,
> {
    substituted(call, cwd, found_for(call, cwd, fs))
}

/// The walk of a callee: the bare marker identifier raises the flag, and the
/// expression that the callee holds is walked like any other node.
pub open spec fn walk_callee(
    callee: CalleeView,
    pending: bool,
    cwd: Option<Seq<char>>,
    fs: FileSystem,
) -> Result<(CalleeView, bool), TransformErrorView>
    decreases callee, 0nat,
{
    match callee {
        CalleeView::Expr(inner) => match walk_expr(
            *inner,
            pending || is_marker(callee),
            cwd,
            fs,
        ) {
            Ok((walked, flag)) => Ok((CalleeView::Expr(Box::new(walked)), flag)),
            Err(err) => Err(err),
        },
        CalleeView::Super => Ok((callee, pending)),
        CalleeView::Import => Ok((callee, pending)),
    }
}

/// The descent below one node: the node with its sub-nodes walked, and the
/// flag after them. Of a call the callee comes first, then the arguments.
pub open spec fn walk_children(
    e: ExprView,
    pending: bool,
    cwd: Option<Seq<char>>,
    fs: FileSystem,
) -> Result<(ExprView, bool), TransformErrorView>
    decreases e, 0nat,
{
    match e {
        ExprView::Ident(_) => Ok((e, pending)),
        ExprView::Str(_) => Ok((e, pending)),
        ExprView::Member { obj, prop } => match walk_expr(*obj, pending, cwd, fs) {
            Ok((walked, flag)) => Ok((ExprView::Member { obj: Box::new(walked), prop }, flag)),
            Err(err) => Err(err),
        },
        ExprView::Other(children) => match walk_exprs(
            children,
            children.len(),
            pending,
            cwd,
            fs,
        ) {
            Ok((walked, flag)) => Ok((ExprView::Other(walked), flag)),
            Err(err) => Err(err),
        },
        ExprView::Call(call) => match walk_callee(call.callee, pending, cwd, fs) {
            Ok((callee, raised)) => match walk_args(
                call.args,
                call.args.len(),
                raised,
                cwd,
                fs,
            ) {
                Ok((args, flag)) => Ok((ExprView::Call(CallView { callee, args }), flag)),
                Err(err) => Err(err),
            },
            Err(err) => Err(err),
        },
    }
}

/// What leaving a node does, its sub-nodes walked: a call met with the flag
/// up is rewritten and takes the flag down; anything else stays.
pub open spec fn leave_expr(
    e: ExprView,
    pending: bool,
    cwd: Option<Seq<char>>,
    fs: FileSystem,
) -> Result<(ExprView, bool), TransformErrorView> {
    if pending && e is Call {
        match rewritten(e->Call_0, cwd, fs) {
            Ok(done) => Ok((ExprView::Call(done), false)),
            Err(err) => Err(err),
        }
    } else {
        Ok((e, pending))
    }
}

/// The walk of one node: the node and the flag after it, or the first failure.
pub open spec fn walk_expr(
    e: ExprView,
    pending: bool,
    cwd: Option<Seq<char>>,
    fs: FileSystem,
) -> Result<(ExprView, bool), TransformErrorView>
    decreases e, 1nat,
{
    match walk_children(e, pending, cwd, fs) {
        Ok((visited, flag)) => leave_expr(visited, flag, cwd, fs),
        Err(err) => Err(err),
    }
}

/// The walk of the first `n` nodes of a list, from left to right.
pub open spec fn walk_exprs(
    nodes: Seq<ExprView>,
    n: nat,
    pending: bool,
    cwd: Option<Seq<char>>,
    fs: FileSystem,
) -> Result<(Seq<ExprView>, bool), TransformErrorView>
    decreases nodes, n,
{
    if n == 0 || n > nodes.len() {
        Ok((Seq::empty(), pending))
    } else {
        match walk_exprs(nodes, (n - 1) as nat, pending, cwd, fs) {
            Ok((done, flag)) => match walk_expr(nodes[n - 1], flag, cwd, fs) {
                Ok((walked, after)) => Ok((done.push(walked), after)),
                Err(err) => Err(err),
            },
            Err(err) => Err(err),
        }
    }
}

/// The walk of the first `n` slots of an argument list, from left to right.
pub open spec fn walk_args(
    args: Seq<ArgView>,
    n: nat,
    pending: bool,
    cwd: Option<Seq<char>>,
    fs: FileSystem,
) -> Result<(Seq<ArgView>, bool), TransformErrorView>
    decreases args, n,
{
    if n == 0 || n > args.len() {
        Ok((Seq::empty(), pending))
    } else {
        match walk_args(args, (n - 1) as nat, pending, cwd, fs) {
            Ok((done, flag)) => match walk_expr(args[n - 1].expr, flag, cwd, fs) {
                Ok((walked, after)) => Ok(
                    (done.push(ArgView { spread: args[n - 1].spread, expr: walked }), after),
                ),
                Err(err) => Err(err),
            },
            Err(err) => Err(err),
        }
    }
}

/// The transform of a whole program: the walk of its body with the flag down
/// at the start.
pub open spec fn transformed(body: Seq<ExprView>, cwd: Option<Seq<char>>, fs: FileSystem) -> Result<
    Seq<ExprView>,
    TransformErrorView,
> {
    match walk_exprs(body, body.len(), false, cwd, fs) {
        Ok((walked, _)) => Ok(walked),
        Err(err) => Err(err),
    }
}

/// The node as a walk leaves it, also where the walk is abandoned at its
/// first failure: what was rewritten before the failure stays rewritten, the
/// call whose rewrite failed and everything after it are as they were.
pub open spec fn left_expr(
    e: ExprView,
    pending: bool,
    cwd: Option<Seq<char>>,
    fs: FileSystem,
) -> ExprView
    decreases e, 1nat,
{
    match walk_children(e, pending, cwd, fs) {
        Ok((visited, flag)) => match leave_expr(visited, flag, cwd, fs) {
            Ok((done, _)) => done,
            Err(_) => visited,
        },
        Err(_) => left_children(e, pending, cwd, fs),
    }
}

/// The node as the descent below it leaves it, also where the descent is
/// abandoned.
pub open spec fn left_children(
    e: ExprView,
    pending: bool,
    cwd: Option<Seq<char>>,
    fs: FileSystem,
) -> ExprView
    decreases e, 0nat,
{
    match e {
        ExprView::Ident(_) => e,
        ExprView::Str(_) => e,
        ExprView::Member { obj, prop } => ExprView::Member {
            obj: Box::new(left_expr(*obj, pending, cwd, fs)),
            prop,
        },
        ExprView::Other(children) => ExprView::Other(left_exprs(children, pending, cwd, fs)),
        ExprView::Call(call) => match walk_callee(call.callee, pending, cwd, fs) {
            Ok((callee, raised)) => ExprView::Call(
                CallView { callee, args: left_args(call.args, raised, cwd, fs) },
            ),
            Err(_) => ExprView::Call(
                CallView { callee: left_callee(call.callee, pending, cwd, fs), args: call.args },
            ),
        },
    }
}

/// The callee as its walk leaves it, also where the walk is abandoned.
pub open spec fn left_callee(
    callee: CalleeView,
    pending: bool,
    cwd: Option<Seq<char>>,
    fs: FileSystem,
) -> CalleeView
    decreases callee, 0nat,
{
    match callee {
        CalleeView::Expr(inner) => CalleeView::Expr(
            Box::new(left_expr(*inner, pending || is_marker(callee), cwd, fs)),
        ),
        CalleeView::Super => callee,
        CalleeView::Import => callee,
    }
}

/// The nodes of a list as their walk leaves them, also where the walk is
/// abandoned: a node that the walk did not reach is as it was.
pub open spec fn left_exprs(
    nodes: Seq<ExprView>,
    pending: bool,
    cwd: Option<Seq<char>>,
    fs: FileSystem,
) -> Seq<ExprView>
    decreases nodes, 0nat,
{
    Seq::new(
        nodes.len(),
        |i: int|
            if 0 <= i < nodes.len() {
                match walk_exprs(nodes, i as nat, pending, cwd, fs) {
                    Ok((_, flag)) => left_expr(nodes[i], flag, cwd, fs),
                    Err(_) => nodes[i],
                }
            } else {
                arbitrary()
            },
    )
}

/// The arguments of a call as their walk leaves them, also where the walk is
/// abandoned.
pub open spec fn left_args(
    args: Seq<ArgView>,
    pending: bool,
    cwd: Option<Seq<char>>,
    fs: FileSystem,
) -> Seq<ArgView>
    decreases args, 0nat,
{
    Seq::new(
        args.len(),
        |i: int|
            if 0 <= i < args.len() {
                match walk_args(args, i as nat, pending, cwd, fs) {
                    Ok((_, flag)) => ArgView {
                        spread: args[i].spread,
                        expr: left_expr(args[i].expr, flag, cwd, fs),
                    },
                    Err(_) => args[i],
                }
            } else {
                arbitrary()
            },
    )
}

/// A walk that ends leaves the node that it returns.
pub proof fn lemma_left_is_walked(
    e: ExprView,
    pending: bool,
    cwd: Option<Seq<char>>,
    fs: FileSystem,
)
    requires
        walk_expr(e, pending, cwd, fs) is Ok,
    ensures
        left_expr(e, pending, cwd, fs) == walk_expr(e, pending, cwd, fs)->Ok_0.0,
{
}

/// A failure among the first `k` nodes is the failure of every longer prefix.
pub proof fn lemma_walk_exprs_fails(
    nodes: Seq<ExprView>,
    k: nat,
    n: nat,
    pending: bool,
    cwd: Option<Seq<char>>,
    fs: FileSystem,
)
    requires
        k <= n <= nodes.len(),
        walk_exprs(nodes, k, pending, cwd, fs) is Err,
    ensures
        walk_exprs(nodes, n, pending, cwd, fs) == walk_exprs(nodes, k, pending, cwd, fs),
    decreases n,
{
    if k < n {
        lemma_walk_exprs_fails(nodes, k, (n - 1) as nat, pending, cwd, fs);
    }
}

/// A failure among the first `k` arguments is the failure of every longer
/// prefix.
pub proof fn lemma_walk_args_fails(
    args: Seq<ArgView>,
    k: nat,
    n: nat,
    pending: bool,
    cwd: Option<Seq<char>>,
    fs: FileSystem,
)
    requires
        k <= n <= args.len(),
        walk_args(args, k, pending, cwd, fs) is Err,
    ensures
        walk_args(args, n, pending, cwd, fs) == walk_args(args, k, pending, cwd, fs),
    decreases n,
{
    if k < n {
        lemma_walk_args_fails(args, k, (n - 1) as nat, pending, cwd, fs);
    }
}

} // verus!
