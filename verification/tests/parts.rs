use bytes_inliner::ast::{CallExpr, Callee, Expr, ExprKind, ExprOrSpread};
use bytes_inliner::error::TransformError;
use bytes_inliner::files::{contents_of, join, resolve, Files, Lookup};
use bytes_inliner::rewrite::{MARKER, RUNTIME_METHOD, RUNTIME_OBJECT};
use bytes_inliner::visitor::TransformVisitor;

fn marker_callee() -> Callee {
    Callee::Expr(Box::new(Expr::Ident("includeBytes".to_string())))
}

fn call_of(args: Vec<Expr>) -> CallExpr {
    CallExpr {
        callee: marker_callee(),
        args: args.into_iter().map(|expr| ExprOrSpread { spread: false, expr }).collect(),
    }
}

#[test]
fn names_of_the_protocol() {
    assert_eq!(MARKER, "includeBytes");
    assert_eq!(RUNTIME_OBJECT, "env");
    assert_eq!(RUNTIME_METHOD, "latin1_string_to_uint8array");
}

#[test]
fn join_puts_one_separator_between() {
    assert_eq!(join("/repo", ".gitignore"), "/repo/.gitignore");
    assert_eq!(join("/repo/", ".gitignore"), "/repo/.gitignore");
    assert_eq!(join("/repo", "a/b.txt"), "/repo/a/b.txt");
    assert_eq!(join("rel", "x"), "rel/x");
}

#[test]
fn join_with_empty_parts() {
    assert_eq!(join("", "x"), "x");
    assert_eq!(join("/repo", ""), "/repo/");
    assert_eq!(join("", ""), "");
    assert_eq!(join("/", "x"), "/x");
}

#[test]
fn join_drops_leading_separators_of_the_path() {
    assert_eq!(join("/repo", "/etc/passwd"), "/repo/etc/passwd");
    assert_eq!(join("/repo", "///a"), "/repo/a");
    assert_eq!(join("", "/a"), "a");
    assert_eq!(join("/repo", "/"), "/repo/");
}

#[test]
fn join_counts_characters_not_bytes() {
    assert_eq!(join("/répo", "/älpha/β.txt"), "/répo/älpha/β.txt");
    assert_eq!(join("dir€", "é"), "dir€/é");
}

#[test]
fn contents_of_each_lookup() {
    assert_eq!(contents_of("/p".to_string(), Lookup::Text("T".to_string())), Ok("T".to_string()));
    assert_eq!(
        contents_of("/p".to_string(), Lookup::Missing),
        Err(TransformError::FileNotFound { path: "/p".to_string() })
    );
    assert_eq!(
        contents_of("/p".to_string(), Lookup::Unreadable),
        Err(TransformError::ReadFailure { path: "/p".to_string() })
    );
}

#[test]
fn snapshot_lookup_and_replacement() {
    let mut files = Files::new();
    assert_eq!(files.lookup("/a"), Lookup::Missing);
    files.insert("/a".to_string(), Lookup::Text("one".to_string()));
    files.insert("/b".to_string(), Lookup::Unreadable);
    assert_eq!(files.lookup("/a"), Lookup::Text("one".to_string()));
    assert_eq!(files.lookup("/b"), Lookup::Unreadable);
    assert_eq!(files.lookup("/c"), Lookup::Missing);
    files.insert("/a".to_string(), Lookup::Text("two".to_string()));
    assert_eq!(files.lookup("/a"), Lookup::Text("two".to_string()));
    files.insert("/a".to_string(), Lookup::Missing);
    assert_eq!(files.lookup("/a"), Lookup::Missing);
    assert_eq!(files.lookup("/b"), Lookup::Unreadable);
}

#[test]
fn resolve_reads_below_the_working_directory() {
    let mut files = Files::new();
    files.insert("/w/a.txt".to_string(), Lookup::Text("AAA".to_string()));
    files.insert("/w/bin".to_string(), Lookup::Unreadable);
    assert_eq!(resolve("a.txt", "/w", &files), Ok("AAA".to_string()));
    assert_eq!(resolve("/a.txt", "/w/", &files), Ok("AAA".to_string()));
    assert_eq!(
        resolve("a.txt", "/x", &files),
        Err(TransformError::FileNotFound { path: "/x/a.txt".to_string() })
    );
    assert_eq!(
        resolve("bin", "/w", &files),
        Err(TransformError::ReadFailure { path: "/w/bin".to_string() })
    );
}

#[test]
fn messages_name_the_condition_and_the_detail() {
    assert_eq!(
        TransformError::MissingArgument.message(),
        "includeBytes(): should have one argument"
    );
    assert_eq!(
        TransformError::InvalidArgumentType { found: ExprKind::Ident }.message(),
        "includeBytes(): should only have a string literal as an argument, found an identifier"
    );
    assert_eq!(
        TransformError::InvalidArgumentType { found: ExprKind::Call }.message(),
        "includeBytes(): should only have a string literal as an argument, found a call"
    );
    assert_eq!(
        TransformError::MissingCwd.message(),
        "includeBytes(): current working directory (cwd) is not set"
    );
    assert_eq!(
        TransformError::FileNotFound { path: "/w/x".to_string() }.message(),
        "includeBytes(): file does not exist: /w/x"
    );
    assert_eq!(
        TransformError::ReadFailure { path: "/w/x".to_string() }.message(),
        "includeBytes(): failed to read file: /w/x"
    );
}

#[test]
fn kinds_and_their_names() {
    assert_eq!(Expr::Ident("a".to_string()).kind(), ExprKind::Ident);
    assert_eq!(Expr::Str("a".to_string()).kind(), ExprKind::Str);
    assert_eq!(Expr::Call(call_of(vec![])).kind(), ExprKind::Call);
    assert_eq!(
        Expr::Member { obj: Box::new(Expr::Other(vec![])), prop: "p".to_string() }.kind(),
        ExprKind::Member
    );
    assert_eq!(Expr::Other(vec![]).kind(), ExprKind::Other);
    assert_eq!(ExprKind::Str.describe(), "a string literal");
    assert_eq!(ExprKind::Member.describe(), "a member access");
    assert_eq!(ExprKind::Other.describe(), "another expression");
}

#[test]
fn new_visitor_has_the_flag_down() {
    let v = TransformVisitor::new(Some("f.js".to_string()), Some("/w".to_string()));
    assert!(!v.is_pending());
    assert_eq!(v.cwd(), &Some("/w".to_string()));
    assert_eq!(v.filename(), &Some("f.js".to_string()));
    let v = TransformVisitor::new(None, None);
    assert!(!v.is_pending());
    assert_eq!(v.cwd(), &None);
    assert_eq!(v.filename(), &None);
}

#[test]
fn marker_callee_raises_the_flag() {
    let mut v = TransformVisitor::new(None, None);
    let other = Callee::Expr(Box::new(Expr::Ident("includeBytes2".to_string())));
    v.mark_callee(&other);
    assert!(!v.is_pending());
    let member = Callee::Expr(Box::new(Expr::Member {
        obj: Box::new(Expr::Ident("includeBytes".to_string())),
        prop: "includeBytes".to_string(),
    }));
    v.mark_callee(&member);
    assert!(!v.is_pending());
    v.mark_callee(&Callee::Super);
    v.mark_callee(&Callee::Import);
    assert!(!v.is_pending());
    v.mark_callee(&marker_callee());
    assert!(v.is_pending());
    // a callee that is not the marker leaves a raised flag up
    v.mark_callee(&other);
    assert!(v.is_pending());
}

#[test]
fn callee_hook_raises_the_flag_on_the_marker_only() {
    let files = Files::new();
    let mut v = TransformVisitor::new(None, None);
    let mut other = Callee::Expr(Box::new(Expr::Ident("includeBytes2".to_string())));
    assert_eq!(v.visit_mut_callee(&mut other, &files), Ok(()));
    assert!(!v.is_pending());
    assert_eq!(v.visit_mut_callee(&mut Callee::Super, &files), Ok(()));
    assert_eq!(v.visit_mut_callee(&mut Callee::Import, &files), Ok(()));
    assert!(!v.is_pending());
    let mut marker = marker_callee();
    assert_eq!(v.visit_mut_callee(&mut marker, &files), Ok(()));
    assert!(v.is_pending());
    assert_eq!(marker, marker_callee());
}

#[test]
fn callee_hook_walks_into_the_callee() {
    // the callee of includeBytes("a.txt")()
    let mut files = Files::new();
    files.insert("/w/a.txt".to_string(), Lookup::Text("hi".to_string()));
    let mut v = TransformVisitor::new(None, Some("/w".to_string()));
    let mut callee =
        Callee::Expr(Box::new(Expr::Call(call_of(vec![Expr::Str("a.txt".to_string())]))));
    assert_eq!(v.visit_mut_callee(&mut callee, &files), Ok(()));
    assert!(!v.is_pending());
    let expected = Callee::Expr(Box::new(Expr::Call(CallExpr {
        callee: Callee::Expr(Box::new(Expr::Member {
            obj: Box::new(Expr::Ident("env".to_string())),
            prop: "latin1_string_to_uint8array".to_string(),
        })),
        args: vec![ExprOrSpread { spread: false, expr: Expr::Str("hi".to_string()) }],
    })));
    assert_eq!(callee, expected);
}

#[test]
fn callee_hook_hands_on_a_failure_below() {
    let files = Files::new();
    let mut v = TransformVisitor::new(None, Some("/w".to_string()));
    let mut callee = Callee::Expr(Box::new(Expr::Call(call_of(vec![]))));
    assert_eq!(v.visit_mut_callee(&mut callee, &files), Err(TransformError::MissingArgument));
}

#[test]
fn failed_rewrite_leaves_the_node_and_takes_the_flag_down() {
    let files = Files::new();
    let mut v = TransformVisitor::new(None, Some("/w".to_string()));
    let mut node = Expr::Call(call_of(vec![]));
    assert_eq!(v.visit_mut_expr(&mut node, &files), Err(TransformError::MissingArgument));
    assert_eq!(node, Expr::Call(call_of(vec![])));
    assert!(!v.is_pending());
    let mut node = Expr::Call(call_of(vec![Expr::Str("gone".to_string()), Expr::Other(vec![])]));
    assert_eq!(
        v.visit_mut_expr(&mut node, &files),
        Err(TransformError::FileNotFound { path: "/w/gone".to_string() })
    );
    assert_eq!(
        node,
        Expr::Call(call_of(vec![Expr::Str("gone".to_string()), Expr::Other(vec![])]))
    );
    assert!(!v.is_pending());
}

#[test]
fn abandoned_walk_keeps_what_was_done_and_leaves_the_rest() {
    let mut files = Files::new();
    files.insert("/w/a".to_string(), Lookup::Text("AAA".to_string()));
    let mut v = TransformVisitor::new(None, Some("/w".to_string()));
    let mut nodes = vec![
        Expr::Call(call_of(vec![Expr::Str("a".to_string())])),
        Expr::Other(vec![Expr::Call(call_of(vec![]))]),
        Expr::Call(call_of(vec![Expr::Str("a".to_string())])),
    ];
    assert_eq!(v.visit_mut_exprs(&mut nodes, &files), Err(TransformError::MissingArgument));
    assert!(!v.is_pending());
    match &nodes[0] {
        Expr::Call(done) => assert_eq!(done.args[0].expr, Expr::Str("AAA".to_string())),
        other => panic!("not a call: {:?}", other),
    }
    assert_eq!(nodes[1], Expr::Other(vec![Expr::Call(call_of(vec![]))]));
    assert_eq!(nodes[2], Expr::Call(call_of(vec![Expr::Str("a".to_string())])));
}

#[test]
fn failure_in_an_argument_leaves_the_later_arguments() {
    let files = Files::new();
    let mut v = TransformVisitor::new(None, Some("/w".to_string()));
    let mut args = vec![
        ExprOrSpread { spread: false, expr: Expr::Call(call_of(vec![Expr::Ident("p".to_string())])) },
        ExprOrSpread { spread: true, expr: Expr::Call(call_of(vec![])) },
    ];
    assert_eq!(
        v.visit_mut_args(&mut args, &files),
        Err(TransformError::InvalidArgumentType { found: ExprKind::Ident })
    );
    assert!(!v.is_pending());
    assert_eq!(
        args,
        vec![
            ExprOrSpread {
                spread: false,
                expr: Expr::Call(call_of(vec![Expr::Ident("p".to_string())]))
            },
            ExprOrSpread { spread: true, expr: Expr::Call(call_of(vec![])) },
        ]
    );
}

#[test]
fn wanted_path_needs_literal_and_working_directory() {
    let v = TransformVisitor::new(None, Some("/w".to_string()));
    assert_eq!(
        v.wanted_path(&call_of(vec![Expr::Str("a/b".to_string())])),
        Some("/w/a/b".to_string())
    );
    assert_eq!(v.wanted_path(&call_of(vec![])), None);
    assert_eq!(v.wanted_path(&call_of(vec![Expr::Ident("a".to_string())])), None);
    let v = TransformVisitor::new(None, None);
    assert_eq!(v.wanted_path(&call_of(vec![Expr::Str("a/b".to_string())])), None);
}

#[test]
fn substitute_rewrites_callee_and_literal() {
    let mut v = TransformVisitor::new(None, Some("/w".to_string()));
    v.mark_callee(&marker_callee());
    let mut call = call_of(vec![Expr::Str("a".to_string()), Expr::Ident("k".to_string())]);
    assert_eq!(v.substitute(&mut call, Lookup::Text("TEXT".to_string())), Ok(()));
    assert!(!v.is_pending());
    assert_eq!(
        call.callee,
        Callee::Expr(Box::new(Expr::Member {
            obj: Box::new(Expr::Ident("env".to_string())),
            prop: "latin1_string_to_uint8array".to_string(),
        }))
    );
    assert_eq!(
        call.args,
        vec![
            ExprOrSpread { spread: false, expr: Expr::Str("TEXT".to_string()) },
            ExprOrSpread { spread: false, expr: Expr::Ident("k".to_string()) },
        ]
    );
}

#[test]
fn substitute_leaves_the_call_on_failure() {
    let cases: Vec<(Vec<Expr>, Option<&str>, Lookup, TransformError)> = vec![
        (vec![], Some("/w"), Lookup::Text("T".to_string()), TransformError::MissingArgument),
        (
            vec![Expr::Call(call_of(vec![]))],
            Some("/w"),
            Lookup::Text("T".to_string()),
            TransformError::InvalidArgumentType { found: ExprKind::Call },
        ),
        (
            vec![Expr::Str("a".to_string())],
            None,
            Lookup::Text("T".to_string()),
            TransformError::MissingCwd,
        ),
        (
            vec![Expr::Str("a".to_string())],
            Some("/w"),
            Lookup::Missing,
            TransformError::FileNotFound { path: "/w/a".to_string() },
        ),
        (
            vec![Expr::Str("a".to_string())],
            Some("/w"),
            Lookup::Unreadable,
            TransformError::ReadFailure { path: "/w/a".to_string() },
        ),
    ];
    for (args, cwd, found, expected) in cases {
        let mut v = TransformVisitor::new(None, cwd.map(|c| c.to_string()));
        v.mark_callee(&marker_callee());
        let before = format!("{:?}", call_of(args.iter().map(copy_of).collect()));
        let mut call = call_of(args);
        assert_eq!(v.substitute(&mut call, found), Err(expected));
        assert_eq!(format!("{:?}", call), before);
        assert!(!v.is_pending());
    }
}

fn copy_of(e: &Expr) -> Expr {
    match e {
        Expr::Ident(s) => Expr::Ident(s.clone()),
        Expr::Str(s) => Expr::Str(s.clone()),
        Expr::Call(c) => Expr::Call(CallExpr {
            callee: match &c.callee {
                Callee::Expr(inner) => Callee::Expr(Box::new(copy_of(inner))),
                Callee::Super => Callee::Super,
                Callee::Import => Callee::Import,
            },
            args: c
                .args
                .iter()
                .map(|a| ExprOrSpread { spread: a.spread, expr: copy_of(&a.expr) })
                .collect(),
        }),
        Expr::Member { obj, prop } => {
            Expr::Member { obj: Box::new(copy_of(obj)), prop: prop.clone() }
        }
        Expr::Other(children) => Expr::Other(children.iter().map(copy_of).collect()),
    }
}

#[test]
fn expr_hook_walks_then_rewrites() {
    let mut files = Files::new();
    files.insert("/w/a".to_string(), Lookup::Text("AAA".to_string()));
    let mut v = TransformVisitor::new(None, Some("/w".to_string()));
    let mut node = Expr::Other(vec![
        Expr::Call(call_of(vec![Expr::Str("a".to_string())])),
        Expr::Str("a".to_string()),
    ]);
    assert_eq!(v.visit_mut_expr(&mut node, &files), Ok(()));
    assert!(!v.is_pending());
    match node {
        Expr::Other(children) => {
            match &children[0] {
                Expr::Call(done) => {
                    assert_eq!(done.args[0].expr, Expr::Str("AAA".to_string()));
                }
                other => panic!("not a call: {:?}", other),
            }
            assert_eq!(children[1], Expr::Str("a".to_string()));
        }
        other => panic!("not a list: {:?}", other),
    }
}

#[test]
fn descent_raises_the_flag_and_leaves_the_call() {
    let files = Files::new();
    let mut v = TransformVisitor::new(None, Some("/w".to_string()));
    let mut node = Expr::Call(call_of(vec![Expr::Str("a".to_string())]));
    assert_eq!(v.visit_mut_children(&mut node, &files), Ok(()));
    assert!(v.is_pending());
    assert_eq!(node, Expr::Call(call_of(vec![Expr::Str("a".to_string())])));
}

#[test]
fn raised_flag_passes_nodes_that_are_not_calls() {
    let files = Files::new();
    let mut v = TransformVisitor::new(None, Some("/w".to_string()));
    v.mark_callee(&marker_callee());
    let mut nodes = vec![
        Expr::Str("a".to_string()),
        Expr::Member { obj: Box::new(Expr::Ident("o".to_string())), prop: "p".to_string() },
        Expr::Other(vec![Expr::Ident("x".to_string())]),
    ];
    assert_eq!(v.visit_mut_exprs(&mut nodes, &files), Ok(()));
    assert!(v.is_pending());
    let mut args = vec![ExprOrSpread { spread: true, expr: Expr::Ident("x".to_string()) }];
    assert_eq!(v.visit_mut_args(&mut args, &files), Ok(()));
    assert!(v.is_pending());
    assert_eq!(args, vec![ExprOrSpread { spread: true, expr: Expr::Ident("x".to_string()) }]);
}
