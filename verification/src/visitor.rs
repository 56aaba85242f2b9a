//! The pass on the executable tree: the visitor with its flag and its two
//! hooks, and the descent that drives them.

use vstd::prelude::*;
use vstd::string::StringExecFns;
use crate::ast::CallExpr;
use crate::ast::Callee;
use crate::ast::Expr;
use crate::ast::ExprOrSpread;
use crate::ast::ArgView;
use crate::ast::ExprView;
use crate::ast::args_view;
use crate::ast::exprs_view;
use crate::error::TransformError;
use crate::error::TransformErrorView;
use crate::files::Files;
use crate::files::Lookup;
use crate::files::contents_of;
use crate::files::join;
use crate::rewrite::MARKER;
use crate::rewrite::RUNTIME_METHOD;
use crate::rewrite::RUNTIME_OBJECT;
use crate::rewrite::is_marker;
use crate::rewrite::left_args;
use crate::rewrite::left_callee;
use crate::rewrite::left_children;
use crate::rewrite::left_expr;
use crate::rewrite::left_exprs;
use crate::rewrite::lemma_left_is_walked;
use crate::rewrite::runtime_callee;
use crate::rewrite::lemma_walk_args_fails;
use crate::rewrite::lemma_walk_exprs_fails;
use crate::rewrite::substituted;
use crate::rewrite::walk_args;
use crate::rewrite::walk_callee;
use crate::rewrite::walk_children;
use crate::rewrite::walk_expr;
use crate::rewrite::walk_exprs;
use crate::rewrite::wanted_path;

verus! {

/// The state of one pass over one program: the flag that a marker callee
/// raises, and the build context.
pub struct TransformVisitor {
    is_include_bytes: bool,
    cwd: Option<String>,
    filename: Option<String>,
}

impl TransformVisitor {
    /// Whether a marker callee was seen and no call has been rewritten since.
    pub closed spec fn pending(&self) -> bool {
        self.is_include_bytes
    }

    /// The working directory of the build, where one was supplied.
    pub closed spec fn cwd_view(&self) -> Option<Seq<char>> {
        self.cwd.deep_view()
    }

    /// The name of the source file, where one was supplied.
    pub closed spec fn filename_view(&self) -> Option<Seq<char>> {
        self.filename.deep_view()
    }

    /// Whether the two visitors work in the same build context.
    pub open spec fn same_context(&self, other: &TransformVisitor) -> bool {
        &&& self.cwd_view() == other.cwd_view()
        &&& self.filename_view() == other.filename_view()
    }

    /// A visitor for one program, with the flag down.
    pub fn new(filename: Option<String>, cwd: Option<String>) -> (r: Self)
        ensures
            !r.pending(),
            r.cwd_view() == cwd.deep_view(),
            r.filename_view() == filename.deep_view(),
    {
        Self { is_include_bytes: false, filename, cwd }
    }

    /// Whether a marker callee was seen and no call has been rewritten since.
    pub fn is_pending(&self) -> (r: bool)
        ensures
            r == self.pending(),
    {
        self.is_include_bytes
    }

    /// The working directory of the build, where one was supplied.
    pub fn cwd(&self) -> (r: &Option<String>)
        ensures
            r.deep_view() == self.cwd_view(),
    {
        &self.cwd
    }

    /// The name of the source file, where one was supplied.
    pub fn filename(&self) -> (r: &Option<String>)
        ensures
            r.deep_view() == self.filename_view(),
    {
        &self.filename
    }

    /// Looks at the callee of a call: raises the flag when the callee is the
    /// bare marker identifier.
    pub fn mark_callee(&mut self, callee: &Callee)
        ensures
            final(self).pending() == (old(self).pending() || is_marker(callee@)),
            final(self).same_context(old(self)),
    {
        match callee {
            Callee::Expr(inner) => match &**inner {
                Expr::Ident(sym) => {
                    let marker = String::from_str(MARKER);
                    if *sym == marker {
                        self.is_include_bytes = true;
                    }
                },
                _ => {},
            },
            _ => {},
        }
    }

    /// The hook for the callee of a call: raises the flag when the callee is
    /// the bare marker identifier, then walks the expression that the callee
    /// holds.
    pub fn visit_mut_callee(&mut self, callee: &mut Callee, files: &Files) -> (r: Result<
        (),
        TransformError,
    >)
        ensures
            final(self).same_context(old(self)),
            match walk_callee(old(callee)@, old(self).pending(), old(self).cwd_view(), files@) {
                Ok((c, flag)) => r is Ok && final(callee)@ == c && final(self).pending() == flag,
                Err(err) => r is Err && r->Err_0@ == err && !final(self).pending() && final(callee)@ == left_callee(
                    old(callee)@,
                    old(self).pending(),
                    old(self).cwd_view(),
                    files@,
                ),
            },
        decreases *old(callee), 0nat,
    {
        self.mark_callee(&*callee);
        match callee {
            Callee::Expr(inner) => self.visit_mut_expr(&mut **inner, files),
            _ => Ok(()),
        }
    }

    /// The path that rewriting `call` reads, where it gets as far as reading.
    pub fn wanted_path(&self, call: &CallExpr) -> (r: Option<String>)
        ensures
            r.deep_view() == wanted_path(call@, self.cwd_view()),
    {
        if call.args.len() == 0 {
            return None;
        }
        assert(call@.args[0].expr == call.args[0].expr@);
        match &call.args[0].expr {
            Expr::Str(value) => match &self.cwd {
                Some(cwd) => Some(join(cwd.as_str(), value.as_str())),
                None => None,
            },
            _ => None,
        }
    }

    /// Rewrites `call` into a call of the runtime decoding function on the
    /// text that was found at the path it names, and takes the flag down. On
    /// a failure the call stays as it was.
    pub fn substitute(&mut self, call: &mut CallExpr, found: Lookup) -> (r: Result<
        (),
        TransformError,
    >)
        ensures
            !final(self).pending(),
            final(self).same_context(old(self)),
            match substituted(old(call)@, old(self).cwd_view(), found@) {
                Ok(done) => r is Ok && final(call)@ == done,
                Err(err) => r is Err && r->Err_0@ == err && *final(call) == *old(call),
            },
    {
        self.is_include_bytes = false;
        if call.args.len() == 0 {
            return Err(TransformError::MissingArgument);
        }
        assert(call@.args[0].expr == call.args[0].expr@);
        let path = match &call.args[0].expr {
            Expr::Str(value) => match &self.cwd {
                Some(cwd) => join(cwd.as_str(), value.as_str()),
                None => {
                    return Err(TransformError::MissingCwd);
                },
            },
            other => {
                return Err(TransformError::InvalidArgumentType { found: other.kind() });
            },
        };
        let text = match contents_of(path, found) {
            Ok(text) => text,
            Err(err) => {
                return Err(err);
            },
        };
        let ghost before = call@;
        let ghost embedded = text@;
        let object = Expr::Ident(String::from_str(RUNTIME_OBJECT));
        assert(object@ == ExprView::Ident(RUNTIME_OBJECT@));
        let target = Expr::Member { obj: Box::new(object), prop: String::from_str(RUNTIME_METHOD) };
        assert(Callee::Expr(Box::new(target))@ == runtime_callee());
        call.callee = Callee::Expr(Box::new(target));
        call.args[0].expr = Expr::Str(text);
        proof {
            assert(call.args[0].expr@ == ExprView::Str(embedded));
            assert(call@.args =~= before.args.update(
                0,
                ArgView { spread: before.args[0].spread, expr: ExprView::Str(embedded) },
            ));
        }
        Ok(())
    }

    /// The hook for a node: walks what is below it, then rewrites it if it is
    /// a call and the flag is up. On a failure the flag is down, what was
    /// rewritten before stays rewritten, and the call whose rewrite failed is
    /// as the walk of its sub-nodes left it.
    pub fn visit_mut_expr(&mut self, n: &mut Expr, files: &Files) -> (r: Result<
        (),
        TransformError,
    >)
        ensures
            final(self).same_context(old(self)),
            match walk_expr(old(n)@, old(self).pending(), old(self).cwd_view(), files@) {
                Ok((node, flag)) => r is Ok && final(n)@ == node && final(self).pending() == flag,
                Err(err) => r is Err && r->Err_0@ == err && !final(self).pending() && final(n)@
                    == left_expr(old(n)@, old(self).pending(), old(self).cwd_view(), files@),
            },
        decreases *old(n), 1nat,
    {
        self.visit_mut_children(n, files)?;
        if !self.is_include_bytes {
            return Ok(());
        }
        match n {
            Expr::Call(call) => {
                let found = match self.wanted_path(call) {
                    Some(path) => files.lookup(path.as_str()),
                    None => Lookup::Missing,
                };
                self.substitute(call, found)
            },
            _ => Ok(()),
        }
    }

    /// The descent: walks the sub-nodes of `n` from left to right, of a call
    /// the callee first.
    pub fn visit_mut_children(&mut self, n: &mut Expr, files: &Files) -> (r: Result<
        (),
        TransformError,
    >)
        ensures
            final(self).same_context(old(self)),
            match walk_children(old(n)@, old(self).pending(), old(self).cwd_view(), files@) {
                Ok((node, flag)) => r is Ok && final(n)@ == node && final(self).pending() == flag,
                Err(err) => r is Err && r->Err_0@ == err && !final(self).pending() && final(n)@
                    == left_children(old(n)@, old(self).pending(), old(self).cwd_view(), files@),
            },
        decreases *old(n), 0nat,
    {
        match n {
            Expr::Ident(_) => Ok(()),
            Expr::Str(_) => Ok(()),
            Expr::Member { obj, .. } => self.visit_mut_expr(&mut **obj, files),
            Expr::Other(children) => self.visit_mut_exprs(children, files),
            Expr::Call(call) => {
                match self.visit_mut_callee(&mut call.callee, files) {
                    Ok(()) => {},
                    Err(err) => {
                        return Err(err);
                    },
                }
                self.visit_mut_args(&mut call.args, files)
            },
        }
    }

    /// Walks a list of nodes from left to right.
    pub fn visit_mut_exprs(&mut self, nodes: &mut Vec<Expr>, files: &Files) -> (r: Result<
        (),
        TransformError,
    >)
        ensures
            final(self).same_context(old(self)),
            match walk_exprs(
                exprs_view(*old(nodes)),
                old(nodes).len() as nat,
                old(self).pending(),
                old(self).cwd_view(),
                files@,
            ) {
                Ok((walked, flag)) => r is Ok && exprs_view(*final(nodes)) == walked && final(self).pending() == flag,
                Err(err) => r is Err && r->Err_0@ == err && !final(self).pending() && exprs_view(
                    *final(nodes),
                ) == left_exprs(
                    exprs_view(*old(nodes)),
                    old(self).pending(),
                    old(self).cwd_view(),
                    files@,
                ),
            },
        decreases *old(nodes), 0nat,
    {
        let ghost before = exprs_view(*nodes);
        let ghost left = left_exprs(before, self.pending(), self.cwd_view(), files@);
        let mut i: usize = 0;
        assert(before.take(0) =~= Seq::empty());
        while i < nodes.len()
            invariant
                i <= nodes.len(),
                nodes.len() == old(nodes).len(),
                before == exprs_view(*old(nodes)),
                left == left_exprs(before, old(self).pending(), old(self).cwd_view(), files@),
                forall|j: int| 0 <= j < i ==> (#[trigger] exprs_view(*nodes)[j]) == left[j],
                forall|j: int| i <= j < nodes.len() ==> nodes@[j] == old(nodes)@[j],
                self.same_context(old(self)),
                walk_exprs(before, i as nat, old(self).pending(), old(self).cwd_view(), files@)
                    == Ok::<(Seq<ExprView>, bool), TransformErrorView>(
                    (exprs_view(*nodes).take(i as int), self.pending()),
                ),
            decreases nodes.len() - i,
        {
            let ghost seen = exprs_view(*nodes);
            let ghost flag = self.pending();
            match self.visit_mut_expr(&mut nodes[i], files) {
                Ok(()) => {},
                Err(err) => {
                    proof {
                        lemma_walk_exprs_fails(
                            before,
                            (i + 1) as nat,
                            before.len(),
                            old(self).pending(),
                            old(self).cwd_view(),
                            files@,
                        );
                        assert forall|j: int| 0 <= j < before.len() implies exprs_view(*nodes)[j]
                            == left[j] by {
                            if j > i {
                                lemma_walk_exprs_fails(
                                    before,
                                    (i + 1) as nat,
                                    j as nat,
                                    old(self).pending(),
                                    old(self).cwd_view(),
                                    files@,
                                );
                            } else if j < i {
                                assert(exprs_view(*nodes)[j] == seen[j]);
                            }
                        }
                        assert(exprs_view(*nodes) =~= left);
                    }
                    return Err(err);
                },
            }
            proof {
                assert(exprs_view(*nodes).take(i + 1) =~= seen.take(i as int).push(nodes[i as int]@));
                lemma_left_is_walked(before[i as int], flag, old(self).cwd_view(), files@);
                assert forall|j: int| 0 <= j < i + 1 implies (#[trigger] exprs_view(*nodes)[j])
                    == left[j] by {
                    if j < i {
                        assert(exprs_view(*nodes)[j] == seen[j]);
                    }
                }
            }
            i = i + 1;
        }
        proof {
            assert(exprs_view(*nodes).take(i as int) =~= exprs_view(*nodes));
        }
        Ok(())
    }

    /// Walks the arguments of a call from left to right.
    pub fn visit_mut_args(&mut self, args: &mut Vec<ExprOrSpread>, files: &Files) -> (r: Result<
        (),
        TransformError,
    >)
        ensures
            final(self).same_context(old(self)),
            match walk_args(
                args_view(*old(args)),
                old(args).len() as nat,
                old(self).pending(),
                old(self).cwd_view(),
                files@,
            ) {
                Ok((walked, flag)) => r is Ok && args_view(*final(args)) == walked && final(self).pending() == flag,
                Err(err) => r is Err && r->Err_0@ == err && !final(self).pending() && args_view(
                    *final(args),
                ) == left_args(
                    args_view(*old(args)),
                    old(self).pending(),
                    old(self).cwd_view(),
                    files@,
                ),
            },
        decreases *old(args), 0nat,
    {
        let ghost before = args_view(*args);
        let ghost left = left_args(before, self.pending(), self.cwd_view(), files@);
        let mut i: usize = 0;
        assert(before.take(0) =~= Seq::empty());
        while i < args.len()
            invariant
                i <= args.len(),
                args.len() == old(args).len(),
                before == args_view(*old(args)),
                left == left_args(before, old(self).pending(), old(self).cwd_view(), files@),
                forall|j: int| 0 <= j < i ==> (#[trigger] args_view(*args)[j]) == left[j],
                forall|j: int| i <= j < args.len() ==> args@[j] == old(args)@[j],
                self.same_context(old(self)),
                walk_args(before, i as nat, old(self).pending(), old(self).cwd_view(), files@)
                    == Ok::<(Seq<ArgView>, bool), TransformErrorView>(
                    (args_view(*args).take(i as int), self.pending()),
                ),
            decreases args.len() - i,
        {
            let ghost seen = args_view(*args);
            let ghost flag = self.pending();
            match self.visit_mut_expr(&mut args[i].expr, files) {
                Ok(()) => {},
                Err(err) => {
                    proof {
                        lemma_walk_args_fails(
                            before,
                            (i + 1) as nat,
                            before.len(),
                            old(self).pending(),
                            old(self).cwd_view(),
                            files@,
                        );
                        assert forall|j: int| 0 <= j < before.len() implies args_view(*args)[j]
                            == left[j] by {
                            if j > i {
                                lemma_walk_args_fails(
                                    before,
                                    (i + 1) as nat,
                                    j as nat,
                                    old(self).pending(),
                                    old(self).cwd_view(),
                                    files@,
                                );
                            } else if j < i {
                                assert(args_view(*args)[j] == seen[j]);
                            }
                        }
                        assert(args_view(*args) =~= left);
                    }
                    return Err(err);
                },
            }
            proof {
                assert(args_view(*args).take(i + 1) =~= seen.take(i as int).push(args[i as int]@));
                lemma_left_is_walked(before[i as int].expr, flag, old(self).cwd_view(), files@);
                assert forall|j: int| 0 <= j < i + 1 implies (#[trigger] args_view(*args)[j])
                    == left[j] by {
                    if j < i {
                        assert(args_view(*args)[j] == seen[j]);
                    }
                }
            }
            i = i + 1;
        }
        proof {
            assert(args_view(*args).take(i as int) =~= args_view(*args));
        }
        Ok(())
    }
}

} // verus!
