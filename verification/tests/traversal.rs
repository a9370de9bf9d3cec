use sins_lib::MethodNameRule;
use sins_lib::Report;
use sins_lib::RuleContext;
use sins_lib::RuleEngine;
use sins_lib::ast::Block;
use sins_lib::ast::Expr;
use sins_lib::ast::ExprCall;
use sins_lib::ast::ExprMethodCall;
use sins_lib::ast::ExprParen;
use sins_lib::ast::ExprPath;
use sins_lib::ast::ExprUnary;
use sins_lib::ast::Item;
use sins_lib::ast::ItemFn;
use sins_lib::ast::ItemMod;
use sins_lib::ast::Kind;
use sins_lib::ast::NodeHandle;
use sins_lib::ast::SourceFile;
use sins_lib::ast::Span;
use sins_lib::ast::Stmt;
use sins_lib::ast::UnOp;
use sins_lib::format_report;
use sins_lib::u64_to_dec;

fn span(line: u64, col: u64) -> Span {
    Span { line, col }
}

fn path(line: u64, col: u64, name: &str) -> Expr {
    Expr::Path(ExprPath { span: span(line, col), name: name.to_string() })
}

fn fn_item(line: u64, col: u64, name: &str, stmts: Vec<Stmt>) -> Item {
    Item::Fn(ItemFn {
        span: span(line, col),
        name: name.to_string(),
        args: Vec::new(),
        ret: None,
        body: Block { span: span(line, col + 10), stmts },
    })
}

fn name_rule(target: &str, message: &str) -> MethodNameRule {
    MethodNameRule::new(target.to_string(), message.to_string())
}

/// A tree with zero nodes of a hooked kind and one rule registered:
/// the traversal completes with zero reports and an empty ancestor stack.
#[test]
fn test_no_hooked_nodes() {
    let tree = SourceFile {
        span: span(1, 1),
        items: vec![Item::Mod(ItemMod {
            span: span(1, 1),
            name: "empty".to_string(),
            items: Vec::new(),
        })],
    };
    let mut rule_engine: RuleEngine<MethodNameRule> = RuleEngine::new();
    rule_engine.add_rule(name_rule("never", "unused"));
    rule_engine.apply_rules(&tree);
    assert_eq!(rule_engine.context.reports.len(), 0);
    assert!(rule_engine.context.ancestors.is_empty());
}

/// Two independently registered rules both hooking method calls: both fire
/// on the single such node, and the reports come in registration order.
/// Re-running on a fresh engine gives the same output.
#[test]
fn test_two_rules_registration_order() {
    let call = Expr::MethodCall(ExprMethodCall {
        span: span(3, 5),
        receiver: Box::new(path(3, 5, "value")),
        method: "frobnicate".to_string(),
        args: Vec::new(),
    });
    let tree = SourceFile {
        span: span(1, 1),
        items: vec![fn_item(2, 1, "go", vec![Stmt::Semi(call)])],
    };

    let run = |tree: &SourceFile| -> Vec<String> {
        let mut rule_engine: RuleEngine<MethodNameRule> = RuleEngine::new();
        rule_engine.add_rule(name_rule("frobnicate", "first rule saw it"));
        rule_engine.add_rule(name_rule("frobnicate", "second rule saw it"));
        rule_engine.apply_rules(tree);
        rule_engine.context.reports.iter().map(|r| r.message.clone()).collect()
    };

    let messages = run(&tree);
    assert_eq!(messages, vec!["first rule saw it".to_string(), "second rule saw it".to_string()]);
    let again = run(&tree);
    assert_eq!(messages, again);
}

/// A rule hooking only method calls still fires on one buried under layers
/// of unhooked kinds (call, parentheses, unary, nested block), with no hook
/// interest anywhere along the path.
#[test]
fn test_deeply_nested_hook_fires() {
    let deep_call = Expr::MethodCall(ExprMethodCall {
        span: span(5, 9),
        receiver: Box::new(path(5, 9, "inner")),
        method: "target".to_string(),
        args: Vec::new(),
    });
    let wrapped = Expr::Call(ExprCall {
        span: span(5, 3),
        func: Box::new(path(5, 3, "outer")),
        args: vec![Expr::Paren(ExprParen {
            span: span(5, 7),
            expr: Box::new(Expr::Unary(ExprUnary {
                span: span(5, 8),
                op: UnOp::Not,
                expr: Box::new(deep_call),
            })),
        })],
    });
    let tree = SourceFile {
        span: span(1, 1),
        items: vec![Item::Mod(ItemMod {
            span: span(2, 1),
            name: "wrapper".to_string(),
            items: vec![fn_item(4, 3, "f", vec![Stmt::Expr(wrapped)])],
        })],
    };

    let mut rule_engine: RuleEngine<MethodNameRule> = RuleEngine::new();
    rule_engine.add_rule(name_rule("target", "found it"));
    rule_engine.apply_rules(&tree);
    let reports = &rule_engine.context.reports;
    assert_eq!(reports.len(), 1);
    assert_eq!(reports[0].message, "found it");
    assert_eq!(reports[0].node.span, span(5, 9));
    assert!(rule_engine.context.ancestors.is_empty());
}

/// The sink keeps reports in emission order and touches nothing else.
#[test]
fn test_emit_report_collects_in_order() {
    let mut context = RuleContext::new();
    context.emit_report(Report {
        message: "one".to_string(),
        node: NodeHandle { kind: Kind::ExprBinary, span: span(1, 2) },
    });
    context.emit_report(Report {
        message: "two".to_string(),
        node: NodeHandle { kind: Kind::ExprMethodCall, span: span(3, 4) },
    });
    assert_eq!(context.reports.len(), 2);
    assert_eq!(context.reports[0].message, "one");
    assert_eq!(context.reports[1].message, "two");
    assert!(context.ancestors.is_empty());
}

/// The canonical textual form of a report.
#[test]
fn test_format_report() {
    let report = Report {
        message: "bad usage".to_string(),
        node: NodeHandle { kind: Kind::ExprMethodCall, span: span(12, 34) },
    };
    assert_eq!(format_report("foo.rs", &report), "[foo.rs:12:34] bad usage");
}

/// Decimal rendering of positions.
#[test]
fn test_u64_to_dec() {
    assert_eq!(u64_to_dec(0), "0");
    assert_eq!(u64_to_dec(7), "7");
    assert_eq!(u64_to_dec(907), "907");
    assert_eq!(u64_to_dec(u64::MAX), "18446744073709551615");
}
