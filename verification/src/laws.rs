//! What holds of the pass on every program.

use vstd::prelude::*;
use crate::ast::ArgView;
use crate::ast::CallView;
use crate::ast::CalleeView;
use crate::ast::ExprView;
use crate::ast::kind_of;
use crate::error::TransformErrorView;
use crate::files::FileSystem;
use crate::files::LookupView;
use crate::files::joined;
use crate::files::lookup_in;
use crate::rewrite::MARKER;
use crate::rewrite::is_marker;
use crate::rewrite::left_expr;
use crate::rewrite::rewritten;
use crate::rewrite::runtime_callee;
use crate::rewrite::transformed;
use crate::rewrite::walk_args;
use crate::rewrite::walk_callee;
use crate::rewrite::walk_children;
use crate::rewrite::walk_expr;
use crate::rewrite::walk_exprs;

verus! {

/// Whether an identifier with the marker's name occurs anywhere in a node,
/// callees included.
pub open spec fn mentions_marker(e: ExprView) -> bool
    decreases e,
{
    match e {
        ExprView::Ident(sym) => sym == MARKER@,
        ExprView::Str(_) => false,
        ExprView::Member { obj, .. } => mentions_marker(*obj),
        ExprView::Other(children) => exists|i: int|
            0 <= i < children.len() && mentions_marker(#[trigger] children[i]),
        ExprView::Call(call) => {
            ||| match call.callee {
                CalleeView::Expr(inner) => mentions_marker(*inner),
                _ => false,
            }
            ||| exists|i: int|
                0 <= i < call.args.len() && mentions_marker((#[trigger] call.args[i]).expr)
        },
    }
}

/// Whether no call in a node has the marker as its callee.
pub open spec fn quiet(e: ExprView) -> bool
    decreases e,
{
    match e {
        ExprView::Ident(_) => true,
        ExprView::Str(_) => true,
        ExprView::Member { obj, .. } => quiet(*obj),
        ExprView::Other(children) => forall|i: int|
            0 <= i < children.len() ==> quiet(#[trigger] children[i]),
        ExprView::Call(call) => {
            &&& !is_marker(call.callee)
            &&& match call.callee {
                CalleeView::Expr(inner) => quiet(*inner),
                _ => true,
            }
            &&& forall|i: int| 0 <= i < call.args.len() ==> quiet((#[trigger] call.args[i]).expr)
        },
    }
}

/// A node without the marker's name holds no marker call.
pub proof fn lemma_unmentioned_is_quiet(e: ExprView)
    requires
        !mentions_marker(e),
    ensures
        quiet(e),
    decreases e,
{
    match e {
        ExprView::Ident(_) => {},
        ExprView::Str(_) => {},
        ExprView::Member { obj, .. } => {
            lemma_unmentioned_is_quiet(*obj);
        },
        ExprView::Other(children) => {
            assert forall|i: int| 0 <= i < children.len() implies quiet(#[trigger] children[i]) by {
                lemma_unmentioned_is_quiet(children[i]);
            }
        },
        ExprView::Call(call) => {
            match call.callee {
                CalleeView::Expr(inner) => {
                    assert(!mentions_marker(*inner));
                    lemma_unmentioned_is_quiet(*inner);
                },
                _ => {},
            }
            assert forall|i: int| 0 <= i < call.args.len() implies quiet(
                (#[trigger] call.args[i]).expr,
            ) by {
                lemma_unmentioned_is_quiet(call.args[i].expr);
            }
        },
    }
}

/// The walk leaves a node without marker calls as it is, and the flag down.
pub proof fn lemma_quiet_unchanged(e: ExprView, cwd: Option<Seq<char>>, fs: FileSystem)
    requires
        quiet(e),
    ensures
        walk_expr(e, false, cwd, fs) == Ok::<(ExprView, bool), TransformErrorView>(
            (e, false),
        ),
    decreases e, 0nat,
{
    match e {
        ExprView::Ident(_) => {},
        ExprView::Str(_) => {},
        ExprView::Member { obj, .. } => {
            lemma_quiet_unchanged(*obj, cwd, fs);
        },
        ExprView::Other(children) => {
            lemma_quiet_exprs_unchanged(children, children.len(), cwd, fs);
            assert(children.take(children.len() as int) =~= children);
        },
        ExprView::Call(call) => {
            match call.callee {
                CalleeView::Expr(inner) => {
                    lemma_quiet_unchanged(*inner, cwd, fs);
                },
                _ => {},
            }
            assert(walk_callee(call.callee, false, cwd, fs) == Ok::<
                (CalleeView, bool),
                TransformErrorView,
            >((call.callee, false)));
            lemma_quiet_args_unchanged(call.args, call.args.len(), cwd, fs);
            assert(call.args.take(call.args.len() as int) =~= call.args);
        },
    }
    assert(walk_children(e, false, cwd, fs) == Ok::<
        (ExprView, bool),
        TransformErrorView,
    >((e, false)));
}

/// The walk leaves a list of nodes without marker calls as it is.
pub proof fn lemma_quiet_exprs_unchanged(
    nodes: Seq<ExprView>,
    n: nat,
    cwd: Option<Seq<char>>,
    fs: FileSystem,
)
    requires
        n <= nodes.len(),
        forall|i: int| 0 <= i < n ==> quiet(#[trigger] nodes[i]),
    ensures
        walk_exprs(nodes, n, false, cwd, fs) == Ok::<
            (Seq<ExprView>, bool),
            TransformErrorView,
        >((nodes.take(n as int), false)),
    decreases nodes, n,
{
    if n > 0 {
        lemma_quiet_exprs_unchanged(nodes, (n - 1) as nat, cwd, fs);
        lemma_quiet_unchanged(nodes[n - 1], cwd, fs);
        assert(nodes.take(n - 1).push(nodes[n - 1]) =~= nodes.take(n as int));
    } else {
        assert(nodes.take(0) =~= Seq::empty());
    }
}

/// The walk leaves arguments without marker calls as they are.
pub proof fn lemma_quiet_args_unchanged(
    args: Seq<ArgView>,
    n: nat,
    cwd: Option<Seq<char>>,
    fs: FileSystem,
)
    requires
        n <= args.len(),
        forall|i: int| 0 <= i < n ==> quiet((#[trigger] args[i]).expr),
    ensures
        walk_args(args, n, false, cwd, fs) == Ok::<
            (Seq<ArgView>, bool),
            TransformErrorView,
        >((args.take(n as int), false)),
    decreases args, n,
{
    if n > 0 {
        lemma_quiet_args_unchanged(args, (n - 1) as nat, cwd, fs);
        lemma_quiet_unchanged(args[n - 1].expr, cwd, fs);
        assert(args.take(n - 1).push(args[n - 1]) =~= args.take(n as int));
    } else {
        assert(args.take(0) =~= Seq::empty());
    }
}

/// A program in which no identifier has the marker's name comes back as it
/// went in, whatever the build context and the files.
pub proof fn law_unmarked_program_unchanged(
    body: Seq<ExprView>,
    cwd: Option<Seq<char>>,
    fs: FileSystem,
)
    requires
        forall|i: int| 0 <= i < body.len() ==> !mentions_marker(#[trigger] body[i]),
    ensures
        transformed(body, cwd, fs) == Ok::<Seq<ExprView>, TransformErrorView>(body),
{
    assert forall|i: int| 0 <= i < body.len() implies quiet(#[trigger] body[i]) by {
        lemma_unmentioned_is_quiet(body[i]);
    }
    lemma_quiet_exprs_unchanged(body, body.len(), cwd, fs);
    assert(body.take(body.len() as int) =~= body);
}

/// Whether a node holds no call at all.
pub open spec fn call_free(e: ExprView) -> bool
    decreases e,
{
    match e {
        ExprView::Ident(_) => true,
        ExprView::Str(_) => true,
        ExprView::Member { obj, .. } => call_free(*obj),
        ExprView::Other(children) => forall|i: int|
            0 <= i < children.len() ==> call_free(#[trigger] children[i]),
        ExprView::Call(_) => false,
    }
}

/// Whether every marker call in a node stands alone: no call is among its
/// arguments.
pub open spec fn plain(e: ExprView) -> bool
    decreases e,
{
    match e {
        ExprView::Ident(_) => true,
        ExprView::Str(_) => true,
        ExprView::Member { obj, .. } => plain(*obj),
        ExprView::Other(children) => forall|i: int|
            0 <= i < children.len() ==> plain(#[trigger] children[i]),
        ExprView::Call(call) => if is_marker(call.callee) {
            forall|i: int| 0 <= i < call.args.len() ==> call_free((#[trigger] call.args[i]).expr)
        } else {
            &&& match call.callee {
                CalleeView::Expr(inner) => plain(*inner),
                _ => true,
            }
            &&& forall|i: int| 0 <= i < call.args.len() ==> plain((#[trigger] call.args[i]).expr)
        },
    }
}

/// Whether every marker call in a node can be rewritten: it names, by a
/// string literal, a file that can be read.
pub open spec fn ready(e: ExprView, cwd: Option<Seq<char>>, fs: FileSystem) -> bool
    decreases e,
{
    match e {
        ExprView::Ident(_) => true,
        ExprView::Str(_) => true,
        ExprView::Member { obj, .. } => ready(*obj, cwd, fs),
        ExprView::Other(children) => forall|i: int|
            0 <= i < children.len() ==> ready(#[trigger] children[i], cwd, fs),
        ExprView::Call(call) => if is_marker(call.callee) {
            rewritten(call, cwd, fs) is Ok
        } else {
            &&& match call.callee {
                CalleeView::Expr(inner) => ready(*inner, cwd, fs),
                _ => true,
            }
            &&& forall|i: int|
                0 <= i < call.args.len() ==> ready((#[trigger] call.args[i]).expr, cwd, fs)
        },
    }
}

/// A node with each marker call replaced by its rewrite, and everything else
/// kept.
pub open spec fn expanded(e: ExprView, cwd: Option<Seq<char>>, fs: FileSystem) -> ExprView
    decreases e,
{
    match e {
        ExprView::Ident(_) => e,
        ExprView::Str(_) => e,
        ExprView::Member { obj, prop } => ExprView::Member {
            obj: Box::new(expanded(*obj, cwd, fs)),
            prop,
        },
        ExprView::Other(children) => ExprView::Other(expanded_exprs(children, cwd, fs)),
        ExprView::Call(call) => if is_marker(call.callee) {
            match rewritten(call, cwd, fs) {
                Ok(done) => ExprView::Call(done),
                Err(_) => e,
            }
        } else {
            ExprView::Call(
                CallView {
                    callee: match call.callee {
                        CalleeView::Expr(inner) => CalleeView::Expr(
                            Box::new(expanded(*inner, cwd, fs)),
                        ),
                        other => other,
                    },
                    args: expanded_args(call.args, cwd, fs),
                },
            )
        },
    }
}

/// A list of nodes, each expanded.
pub open spec fn expanded_exprs(
    nodes: Seq<ExprView>,
    cwd: Option<Seq<char>>,
    fs: FileSystem,
) -> Seq<ExprView>
    decreases nodes,
{
    Seq::new(
        nodes.len(),
        |i: int|
            if 0 <= i < nodes.len() {
                expanded(nodes[i], cwd, fs)
            } else {
                arbitrary()
            },
    )
}

/// An argument list, each argument expanded.
pub open spec fn expanded_args(
    args: Seq<ArgView>,
    cwd: Option<Seq<char>>,
    fs: FileSystem,
) -> Seq<ArgView>
    decreases args,
{
    Seq::new(
        args.len(),
        |i: int|
            ArgView {
                spread: args[i].spread,
                expr: if 0 <= i < args.len() {
                    expanded(args[i].expr, cwd, fs)
                } else {
                    arbitrary()
                },
            },
    )
}

/// A node without calls holds no marker call, and its marker calls stand
/// alone.
pub proof fn lemma_call_free_is_quiet(e: ExprView)
    requires
        call_free(e),
    ensures
        quiet(e),
        plain(e),
    decreases e,
{
    match e {
        ExprView::Member { obj, .. } => {
            lemma_call_free_is_quiet(*obj);
        },
        ExprView::Other(children) => {
            assert forall|i: int| 0 <= i < children.len() implies quiet(#[trigger] children[i])
                && plain(children[i]) by {
                lemma_call_free_is_quiet(children[i]);
            }
        },
        _ => {},
    }
}

/// The walk leaves a node without calls as it is, and the flag as it was.
pub proof fn lemma_call_free_unchanged(
    e: ExprView,
    pending: bool,
    cwd: Option<Seq<char>>,
    fs: FileSystem,
)
    requires
        call_free(e),
    ensures
        walk_expr(e, pending, cwd, fs) == Ok::<(ExprView, bool), TransformErrorView>((e, pending)),
    decreases e, 0nat,
{
    match e {
        ExprView::Member { obj, .. } => {
            lemma_call_free_unchanged(*obj, pending, cwd, fs);
        },
        ExprView::Other(children) => {
            lemma_call_free_exprs_unchanged(children, children.len(), pending, cwd, fs);
            assert(children.take(children.len() as int) =~= children);
        },
        _ => {},
    }
    assert(walk_children(e, pending, cwd, fs) == Ok::<(ExprView, bool), TransformErrorView>(
        (e, pending),
    ));
}

/// The walk leaves a list of nodes without calls as it is.
pub proof fn lemma_call_free_exprs_unchanged(
    nodes: Seq<ExprView>,
    n: nat,
    pending: bool,
    cwd: Option<Seq<char>>,
    fs: FileSystem,
)
    requires
        n <= nodes.len(),
        forall|i: int| 0 <= i < n ==> call_free(#[trigger] nodes[i]),
    ensures
        walk_exprs(nodes, n, pending, cwd, fs) == Ok::<(Seq<ExprView>, bool), TransformErrorView>(
            (nodes.take(n as int), pending),
        ),
    decreases nodes, n,
{
    if n > 0 {
        lemma_call_free_exprs_unchanged(nodes, (n - 1) as nat, pending, cwd, fs);
        lemma_call_free_unchanged(nodes[n - 1], pending, cwd, fs);
        assert(nodes.take(n - 1).push(nodes[n - 1]) =~= nodes.take(n as int));
    } else {
        assert(nodes.take(0) =~= Seq::empty());
    }
}

/// The walk leaves arguments without calls as they are.
pub proof fn lemma_call_free_args_unchanged(
    args: Seq<ArgView>,
    n: nat,
    pending: bool,
    cwd: Option<Seq<char>>,
    fs: FileSystem,
)
    requires
        n <= args.len(),
        forall|i: int| 0 <= i < n ==> call_free((#[trigger] args[i]).expr),
    ensures
        walk_args(args, n, pending, cwd, fs) == Ok::<(Seq<ArgView>, bool), TransformErrorView>(
            (args.take(n as int), pending),
        ),
    decreases args, n,
{
    if n > 0 {
        lemma_call_free_args_unchanged(args, (n - 1) as nat, pending, cwd, fs);
        lemma_call_free_unchanged(args[n - 1].expr, pending, cwd, fs);
        assert(args.take(n - 1).push(args[n - 1]) =~= args.take(n as int));
    } else {
        assert(args.take(0) =~= Seq::empty());
    }
}

/// Where every marker call stands alone and can be rewritten, the walk
/// rewrites exactly the marker calls.
pub proof fn lemma_plain_expands(e: ExprView, cwd: Option<Seq<char>>, fs: FileSystem)
    requires
        plain(e),
        ready(e, cwd, fs),
    ensures
        walk_expr(e, false, cwd, fs) == Ok::<(ExprView, bool), TransformErrorView>(
            (expanded(e, cwd, fs), false),
        ),
    decreases e, 0nat,
{
    match e {
        ExprView::Ident(_) => {},
        ExprView::Str(_) => {},
        ExprView::Member { obj, .. } => {
            lemma_plain_expands(*obj, cwd, fs);
        },
        ExprView::Other(children) => {
            lemma_plain_exprs_expand(children, children.len(), cwd, fs);
            assert(expanded_exprs(children, cwd, fs).take(children.len() as int)
                =~= expanded_exprs(children, cwd, fs));
        },
        ExprView::Call(call) => {
            if is_marker(call.callee) {
                lemma_call_free_unchanged(*call.callee->Expr_0, true, cwd, fs);
                lemma_call_free_args_unchanged(call.args, call.args.len(), true, cwd, fs);
                assert(call.args.take(call.args.len() as int) =~= call.args);
                assert(walk_children(e, false, cwd, fs) == Ok::<
                    (ExprView, bool),
                    TransformErrorView,
                >((e, true)));
            } else {
                match call.callee {
                    CalleeView::Expr(inner) => {
                        lemma_plain_expands(*inner, cwd, fs);
                    },
                    _ => {},
                }
                lemma_plain_args_expand(call.args, call.args.len(), cwd, fs);
                assert(expanded_args(call.args, cwd, fs).take(call.args.len() as int)
                    =~= expanded_args(call.args, cwd, fs));
            }
        },
    }
}

/// The walk of a list of nodes whose marker calls stand alone and can be
/// rewritten.
pub proof fn lemma_plain_exprs_expand(
    nodes: Seq<ExprView>,
    n: nat,
    cwd: Option<Seq<char>>,
    fs: FileSystem,
)
    requires
        n <= nodes.len(),
        forall|i: int| 0 <= i < n ==> plain(#[trigger] nodes[i]) && ready(nodes[i], cwd, fs),
    ensures
        walk_exprs(nodes, n, false, cwd, fs) == Ok::<(Seq<ExprView>, bool), TransformErrorView>(
            (expanded_exprs(nodes, cwd, fs).take(n as int), false),
        ),
    decreases nodes, n,
{
    let all = expanded_exprs(nodes, cwd, fs);
    if n > 0 {
        lemma_plain_exprs_expand(nodes, (n - 1) as nat, cwd, fs);
        lemma_plain_expands(nodes[n - 1], cwd, fs);
        assert(all.take(n - 1).push(all[n - 1]) =~= all.take(n as int));
    } else {
        assert(all.take(0) =~= Seq::empty());
    }
}

/// The walk of arguments whose marker calls stand alone and can be rewritten.
pub proof fn lemma_plain_args_expand(
    args: Seq<ArgView>,
    n: nat,
    cwd: Option<Seq<char>>,
    fs: FileSystem,
)
    requires
        n <= args.len(),
        forall|i: int|
            0 <= i < n ==> plain((#[trigger] args[i]).expr) && ready(args[i].expr, cwd, fs),
    ensures
        walk_args(args, n, false, cwd, fs) == Ok::<(Seq<ArgView>, bool), TransformErrorView>(
            (expanded_args(args, cwd, fs).take(n as int), false),
        ),
    decreases args, n,
{
    let all = expanded_args(args, cwd, fs);
    if n > 0 {
        lemma_plain_args_expand(args, (n - 1) as nat, cwd, fs);
        lemma_plain_expands(args[n - 1].expr, cwd, fs);
        assert(all.take(n - 1).push(all[n - 1]) =~= all.take(n as int));
    } else {
        assert(all.take(0) =~= Seq::empty());
    }
}

/// Whatever the node, a walk that starts with the flag down ends with the
/// flag down: a marker callee is answered before its call is left.
pub proof fn lemma_flag_down(e: ExprView, cwd: Option<Seq<char>>, fs: FileSystem)
    ensures
        walk_expr(e, false, cwd, fs) matches Ok((_, flag)) ==> !flag,
    decreases e, 0nat,
{
    match e {
        ExprView::Member { obj, .. } => {
            lemma_flag_down(*obj, cwd, fs);
        },
        ExprView::Other(children) => {
            lemma_flag_down_exprs(children, children.len(), cwd, fs);
        },
        _ => {},
    }
}

/// A walk of a list of nodes that starts with the flag down ends with the
/// flag down.
pub proof fn lemma_flag_down_exprs(
    nodes: Seq<ExprView>,
    n: nat,
    cwd: Option<Seq<char>>,
    fs: FileSystem,
)
    requires
        n <= nodes.len(),
    ensures
        walk_exprs(nodes, n, false, cwd, fs) matches Ok((walked, flag)) ==> !flag && walked.len()
            == n,
    decreases nodes, n,
{
    if n > 0 {
        lemma_flag_down_exprs(nodes, (n - 1) as nat, cwd, fs);
        lemma_flag_down(nodes[n - 1], cwd, fs);
    }
}

/// Where every marker call stands alone, a walk that succeeds leaves no
/// marker call behind.
pub proof fn lemma_plain_leaves_quiet(e: ExprView, cwd: Option<Seq<char>>, fs: FileSystem)
    requires
        plain(e),
        walk_expr(e, false, cwd, fs) is Ok,
    ensures
        quiet(walk_expr(e, false, cwd, fs)->Ok_0.0),
        !walk_expr(e, false, cwd, fs)->Ok_0.1,
    decreases e, 0nat,
{
    lemma_flag_down(e, cwd, fs);
    match e {
        ExprView::Ident(_) => {},
        ExprView::Str(_) => {},
        ExprView::Member { obj, .. } => {
            lemma_plain_leaves_quiet(*obj, cwd, fs);
        },
        ExprView::Other(children) => {
            lemma_plain_exprs_leave_quiet(children, children.len(), cwd, fs);
        },
        ExprView::Call(call) => {
            if is_marker(call.callee) {
                lemma_call_free_unchanged(*call.callee->Expr_0, true, cwd, fs);
                lemma_call_free_args_unchanged(call.args, call.args.len(), true, cwd, fs);
                assert(call.args.take(call.args.len() as int) =~= call.args);
                assert(walk_children(e, false, cwd, fs) == Ok::<
                    (ExprView, bool),
                    TransformErrorView,
                >((e, true)));
                let done = rewritten(call, cwd, fs)->Ok_0;
                let target: ExprView = *runtime_callee()->Expr_0;
                assert(quiet(*target->obj));
                assert(quiet(target));
                assert forall|i: int| 0 <= i < done.args.len() implies quiet(
                    (#[trigger] done.args[i]).expr,
                ) by {
                    if i > 0 {
                        lemma_call_free_is_quiet(call.args[i].expr);
                    }
                }
            } else {
                match call.callee {
                    CalleeView::Expr(inner) => {
                        lemma_plain_leaves_quiet(*inner, cwd, fs);
                        let below = walk_children(*inner, false, cwd, fs);
                        assert(below is Ok && kind_of(below->Ok_0.0) == kind_of(*inner));
                        assert(!is_marker(walk_callee(call.callee, false, cwd, fs)->Ok_0.0));
                    },
                    _ => {},
                }
                lemma_plain_args_leave_quiet(call.args, call.args.len(), cwd, fs);
            }
        },
    }
}

/// A successful walk of a list of nodes whose marker calls stand alone leaves
/// no marker call behind.
pub proof fn lemma_plain_exprs_leave_quiet(
    nodes: Seq<ExprView>,
    n: nat,
    cwd: Option<Seq<char>>,
    fs: FileSystem,
)
    requires
        n <= nodes.len(),
        forall|i: int| 0 <= i < n ==> plain(#[trigger] nodes[i]),
        walk_exprs(nodes, n, false, cwd, fs) is Ok,
    ensures
        walk_exprs(nodes, n, false, cwd, fs)->Ok_0.0.len() == n,
        !walk_exprs(nodes, n, false, cwd, fs)->Ok_0.1,
        forall|i: int|
            0 <= i < n ==> quiet(#[trigger] walk_exprs(nodes, n, false, cwd, fs)->Ok_0.0[i]),
    decreases nodes, n,
{
    if n > 0 {
        lemma_plain_exprs_leave_quiet(nodes, (n - 1) as nat, cwd, fs);
        lemma_plain_leaves_quiet(nodes[n - 1], cwd, fs);
    }
}

/// A successful walk of arguments whose marker calls stand alone leaves no
/// marker call behind.
pub proof fn lemma_plain_args_leave_quiet(
    args: Seq<ArgView>,
    n: nat,
    cwd: Option<Seq<char>>,
    fs: FileSystem,
)
    requires
        n <= args.len(),
        forall|i: int| 0 <= i < n ==> plain((#[trigger] args[i]).expr),
        walk_args(args, n, false, cwd, fs) is Ok,
    ensures
        walk_args(args, n, false, cwd, fs)->Ok_0.0.len() == n,
        !walk_args(args, n, false, cwd, fs)->Ok_0.1,
        forall|i: int|
            0 <= i < n ==> quiet((#[trigger] walk_args(args, n, false, cwd, fs)->Ok_0.0[i]).expr),
    decreases args, n,
{
    if n > 0 {
        lemma_plain_args_leave_quiet(args, (n - 1) as nat, cwd, fs);
        lemma_plain_leaves_quiet(args[n - 1].expr, cwd, fs);
    }
}

/// The call `includeBytes("<path>")`.
pub open spec fn marker_call(path: Seq<char>) -> ExprView {
    ExprView::Call(
        CallView {
            callee: CalleeView::Expr(Box::new(ExprView::Ident(MARKER@))),
            args: seq![ArgView { spread: false, expr: ExprView::Str(path) }],
        },
    )
}

/// The call `env.latin1_string_to_uint8array("<text>")`.
pub open spec fn runtime_call(text: Seq<char>) -> ExprView {
    ExprView::Call(
        CallView {
            callee: runtime_callee(),
            args: seq![ArgView { spread: false, expr: ExprView::Str(text) }],
        },
    )
}

/// A marker call on the path of a readable file becomes the runtime call on
/// the text of that file.
pub proof fn law_marker_call_becomes_runtime_call(
    path: Seq<char>,
    text: Seq<char>,
    cwd: Seq<char>,
    fs: FileSystem,
)
    requires
        lookup_in(fs, joined(cwd, path)) == LookupView::Text(text),
    ensures
        walk_expr(marker_call(path), false, Some(cwd), fs) == Ok::<
            (ExprView, bool),
            TransformErrorView,
        >((runtime_call(text), false)),
{
    let call = marker_call(path)->Call_0;
    lemma_call_free_unchanged(ExprView::Ident(MARKER@), true, Some(cwd), fs);
    lemma_call_free_args_unchanged(call.args, 1, true, Some(cwd), fs);
    assert(call.args.take(1) =~= call.args);
    assert(walk_children(marker_call(path), false, Some(cwd), fs) == Ok::<
        (ExprView, bool),
        TransformErrorView,
    >((marker_call(path), true)));
    assert(call.args.update(0, ArgView { spread: false, expr: ExprView::Str(text) })
        =~= runtime_call(text)->Call_0.args);
}

/// In a program whose marker calls stand alone and name readable files, the
/// pass rewrites each marker call and keeps everything else.
pub proof fn law_marker_calls_expanded(body: Seq<ExprView>, cwd: Option<Seq<char>>, fs: FileSystem)
    requires
        forall|i: int| 0 <= i < body.len() ==> plain(#[trigger] body[i]) && ready(body[i], cwd, fs),
    ensures
        transformed(body, cwd, fs) == Ok::<Seq<ExprView>, TransformErrorView>(
            expanded_exprs(body, cwd, fs),
        ),
{
    lemma_plain_exprs_expand(body, body.len(), cwd, fs);
    assert(expanded_exprs(body, cwd, fs).take(body.len() as int) =~= expanded_exprs(
        body,
        cwd,
        fs,
    ));
}

/// Two marker calls that follow each other each get the text of the file
/// that they name themselves.
pub proof fn law_calls_in_sequence_keep_their_files(
    first: Seq<char>,
    second: Seq<char>,
    first_text: Seq<char>,
    second_text: Seq<char>,
    cwd: Seq<char>,
    fs: FileSystem,
)
    requires
        lookup_in(fs, joined(cwd, first)) == LookupView::Text(first_text),
        lookup_in(fs, joined(cwd, second)) == LookupView::Text(second_text),
    ensures
        transformed(seq![marker_call(first), marker_call(second)], Some(cwd), fs) == Ok::<
            Seq<ExprView>,
            TransformErrorView,
        >(seq![runtime_call(first_text), runtime_call(second_text)]),
{
    let body = seq![marker_call(first), marker_call(second)];
    law_marker_call_becomes_runtime_call(first, first_text, cwd, fs);
    law_marker_call_becomes_runtime_call(second, second_text, cwd, fs);
    reveal_with_fuel(walk_exprs, 3);
    assert(Seq::<ExprView>::empty().push(runtime_call(first_text)).push(
        runtime_call(second_text),
    ) =~= seq![runtime_call(first_text), runtime_call(second_text)]);
}

/// Running the pass on its own output changes nothing, provided that every
/// marker call of the input stands alone.
pub proof fn law_rerun_changes_nothing(body: Seq<ExprView>, cwd: Option<Seq<char>>, fs: FileSystem)
    requires
        forall|i: int| 0 <= i < body.len() ==> plain(#[trigger] body[i]),
        transformed(body, cwd, fs) is Ok,
    ensures
        transformed(transformed(body, cwd, fs)->Ok_0, cwd, fs) == transformed(body, cwd, fs),
{
    let out = transformed(body, cwd, fs)->Ok_0;
    lemma_plain_exprs_leave_quiet(body, body.len(), cwd, fs);
    lemma_quiet_exprs_unchanged(out, out.len(), cwd, fs);
    assert(out.take(out.len() as int) =~= out);
}

/// Whatever the program, a transform that succeeds has taken the flag down.
pub proof fn law_flag_down_at_the_end(body: Seq<ExprView>, cwd: Option<Seq<char>>, fs: FileSystem)
    ensures
        walk_exprs(body, body.len(), false, cwd, fs) matches Ok((_, flag)) ==> !flag,
{
    lemma_flag_down_exprs(body, body.len(), cwd, fs);
}

/// A call whose rewrite fails is not touched: where the descent below a node
/// ends and the rewrite of the node itself fails, the walk leaves the node as
/// the descent returned it.
pub proof fn law_failed_rewrite_leaves_the_node(
    e: ExprView,
    pending: bool,
    cwd: Option<Seq<char>>,
    fs: FileSystem,
)
    requires
        walk_children(e, pending, cwd, fs) is Ok,
        walk_expr(e, pending, cwd, fs) is Err,
    ensures
        left_expr(e, pending, cwd, fs) == walk_children(e, pending, cwd, fs)->Ok_0.0,
{
}

/// A marker call without arguments fails as a missing argument and stays as
/// it is, whatever the build context and the files.
pub proof fn law_marker_call_without_arguments(cwd: Option<Seq<char>>, fs: FileSystem)
    ensures
        walk_expr(bare_marker_call(), false, cwd, fs) == Err::<
            (ExprView, bool),
            TransformErrorView,
        >(TransformErrorView::MissingArgument),
        left_expr(bare_marker_call(), false, cwd, fs) == bare_marker_call(),
{
    lemma_call_free_unchanged(ExprView::Ident(MARKER@), true, cwd, fs);
    assert(walk_children(bare_marker_call(), false, cwd, fs) == Ok::<
        (ExprView, bool),
        TransformErrorView,
    >((bare_marker_call(), true)));
}

/// The call `includeBytes()`.
pub open spec fn bare_marker_call() -> ExprView {
    ExprView::Call(
        CallView {
            callee: CalleeView::Expr(Box::new(ExprView::Ident(MARKER@))),
            args: Seq::empty(),
        },
    )
}

} // verus!
