use sins_lib::AbsurdExtremeComparisons;
use sins_lib::AnyLint;
use sins_lib::CountFns;
use sins_lib::MethodNameRule;
use sins_lib::RuleEngine;
use sins_lib::ast::BinOp;
use sins_lib::ast::Block;
use sins_lib::ast::Expr;
use sins_lib::ast::ExprBinary;
use sins_lib::ast::ExprLit;
use sins_lib::ast::ExprMethodCall;
use sins_lib::ast::ExprPath;
use sins_lib::ast::Item;
use sins_lib::ast::ItemConst;
use sins_lib::ast::ItemFn;
use sins_lib::ast::ItemMod;
use sins_lib::ast::Kind;
use sins_lib::ast::Lit;
use sins_lib::ast::Local;
use sins_lib::ast::SourceFile;
use sins_lib::ast::Span;
use sins_lib::ast::Stmt;
use sins_lib::ast::Ty;

fn span(line: u64, col: u64) -> Span {
    Span { line, col }
}

fn int_lit(line: u64, col: u64, value: u128) -> Expr {
    Expr::Lit(ExprLit { span: span(line, col), lit: Lit::Int(value) })
}

fn path(line: u64, col: u64, name: &str) -> Expr {
    Expr::Path(ExprPath { span: span(line, col), name: name.to_string() })
}

fn le_cmp(line: u64, col: u64, left: Expr, right: Expr) -> Expr {
    Expr::Binary(ExprBinary {
        span: span(line, col),
        op: BinOp::Le,
        left: Box::new(left),
        right: Box::new(right),
    })
}

fn ty(line: u64, col: u64, name: &str) -> Ty {
    Ty { span: span(line, col), name: name.to_string() }
}

fn fn_item(line: u64, col: u64, name: &str, stmts: Vec<Stmt>) -> Item {
    Item::Fn(ItemFn {
        span: span(line, col),
        name: name.to_string(),
        args: Vec::new(),
        ret: None,
        body: Block { span: span(line, col + 10), stmts },
    })
}

/// The tree of `fn main() { const Z: u32 = 0; let u: u32 = 42; u <= 0;
/// u <= Z; }`, with one zero-comparison rule registered: exactly the two
/// `<=` comparisons are flagged, each report pointing at its expression.
#[test]
fn test_absurd_extreme_comparisons() {
    let stmts = vec![
        Stmt::Item(Item::Const(ItemConst {
            span: span(3, 7),
            name: "Z".to_string(),
            ty: ty(3, 16, "u32"),
            value: int_lit(3, 22, 0),
        })),
        Stmt::Local(Local {
            span: span(4, 7),
            name: "u".to_string(),
            ty: Some(ty(4, 14, "u32")),
            init: Some(int_lit(4, 20, 42)),
        }),
        Stmt::Semi(le_cmp(5, 7, path(5, 7, "u"), int_lit(5, 12, 0))),
        Stmt::Semi(le_cmp(6, 7, path(6, 7, "u"), path(6, 12, "Z"))),
    ];
    let tree = SourceFile { span: span(1, 1), items: vec![fn_item(2, 5, "main", stmts)] };

    let mut rule_engine: RuleEngine<AbsurdExtremeComparisons> = RuleEngine::new();
    rule_engine.add_rule(AbsurdExtremeComparisons::new());
    rule_engine.apply_rules(&tree);

    let reports = &rule_engine.context.reports;
    assert_eq!(reports.len(), 2);
    assert_eq!(reports[0].node.kind, Kind::ExprBinary);
    assert_eq!(reports[0].node.span, span(5, 7));
    assert_eq!(reports[1].node.kind, Kind::ExprBinary);
    assert_eq!(reports[1].node.span, span(6, 7));
    assert_eq!(reports[0].message, "`<=` comparison of an unsigned value against zero");
    assert_eq!(reports[1].message, "`<=` comparison of an unsigned value against zero");
    assert!(rule_engine.context.ancestors.is_empty());
}

/// A rule that flags calls of `emit_report` fires on a tree holding one
/// such method call.
#[test]
fn ok() {
    let call = Expr::MethodCall(ExprMethodCall {
        span: span(2, 3),
        receiver: Box::new(path(2, 3, "context")),
        method: "emit_report".to_string(),
        args: vec![path(2, 25, "report")],
    });
    let tree = SourceFile {
        span: span(1, 1),
        items: vec![fn_item(1, 1, "run", vec![Stmt::Semi(call)])],
    };

    let mut rule_engine: RuleEngine<MethodNameRule> = RuleEngine::new();
    rule_engine.add_rule(MethodNameRule::new(
        "emit_report".to_string(),
        "bad usage".to_string(),
    ));
    rule_engine.apply_rules(&tree);

    let reports = &rule_engine.context.reports;
    assert_eq!(reports.len(), 1);
    assert_eq!(reports[0].message, "bad usage");
    assert_eq!(reports[0].node.kind, Kind::ExprMethodCall);
    assert_eq!(reports[0].node.span, span(2, 3));
}

/// A signed binding compared against zero is not flagged, nor is `<`, nor a
/// comparison with the literal on the left.
#[test]
fn test_no_report_without_unsigned_or_le() {
    let stmts = vec![
        Stmt::Local(Local {
            span: span(2, 3),
            name: "i".to_string(),
            ty: Some(ty(2, 10, "i32")),
            init: Some(int_lit(2, 16, 7)),
        }),
        Stmt::Semi(le_cmp(3, 3, path(3, 3, "i"), int_lit(3, 8, 0))),
        Stmt::Semi(le_cmp(4, 3, int_lit(4, 3, 0), path(4, 8, "i"))),
    ];
    let tree = SourceFile { span: span(1, 1), items: vec![fn_item(1, 1, "f", stmts)] };

    let mut rule_engine: RuleEngine<AbsurdExtremeComparisons> = RuleEngine::new();
    rule_engine.add_rule(AbsurdExtremeComparisons::new());
    rule_engine.apply_rules(&tree);
    assert_eq!(rule_engine.context.reports.len(), 0);
}

/// An unsigned binding compared with `<` against zero is not flagged; the
/// same binding with `<=` is.
#[test]
fn test_lt_not_flagged_le_flagged() {
    let lt = Expr::Binary(ExprBinary {
        span: span(3, 3),
        op: BinOp::Lt,
        left: Box::new(path(3, 3, "n")),
        right: Box::new(int_lit(3, 8, 0)),
    });
    let stmts = vec![
        Stmt::Local(Local {
            span: span(2, 3),
            name: "n".to_string(),
            ty: Some(Ty { span: span(2, 10), name: "u64".to_string() }),
            init: None,
        }),
        Stmt::Semi(lt),
        Stmt::Semi(le_cmp(4, 3, path(4, 3, "n"), int_lit(4, 8, 0))),
    ];
    let tree = SourceFile { span: span(1, 1), items: vec![fn_item(1, 1, "f", stmts)] };

    let mut rule_engine: RuleEngine<AbsurdExtremeComparisons> = RuleEngine::new();
    rule_engine.add_rule(AbsurdExtremeComparisons::new());
    rule_engine.apply_rules(&tree);
    let reports = &rule_engine.context.reports;
    assert_eq!(reports.len(), 1);
    assert_eq!(reports[0].node.span, span(4, 3));
}

/// A counting rule ends the traversal with a count equal to the number of
/// function items present, wherever they nest.
#[test]
fn test_count_fns_whole_tree() {
    let inner_fn = fn_item(3, 5, "inner", Vec::new());
    let outer = fn_item(2, 3, "outer", vec![Stmt::Item(inner_fn)]);
    let in_mod = Item::Mod(ItemMod {
        span: span(6, 1),
        name: "helpers".to_string(),
        items: vec![fn_item(7, 3, "third", Vec::new())],
    });
    let tree = SourceFile { span: span(1, 1), items: vec![outer, in_mod] };

    let mut rule_engine: RuleEngine<CountFns> = RuleEngine::new();
    rule_engine.add_rule(CountFns::new());
    rule_engine.apply_rules(&tree);
    assert_eq!(rule_engine.rules[0].count, 3);
    assert_eq!(rule_engine.context.reports.len(), 0);
}

/// Rules of different kinds registered together in one engine: the
/// zero-comparison rule, a counter and a method-name rule each do their own
/// work over one traversal, and reports keep registration order per node.
#[test]
fn test_mixed_rules_one_engine() {
    let call = Expr::MethodCall(ExprMethodCall {
        span: span(5, 3),
        receiver: Box::new(path(5, 3, "u")),
        method: "frob".to_string(),
        args: Vec::new(),
    });
    let stmts = vec![
        Stmt::Local(Local {
            span: span(3, 3),
            name: "u".to_string(),
            ty: Some(ty(3, 10, "u32")),
            init: None,
        }),
        Stmt::Semi(le_cmp(4, 3, path(4, 3, "u"), int_lit(4, 8, 0))),
        Stmt::Semi(call),
    ];
    let tree = SourceFile { span: span(1, 1), items: vec![fn_item(2, 1, "main", stmts)] };

    let mut rule_engine: RuleEngine<AnyLint> = RuleEngine::new();
    rule_engine.add_rule(AnyLint::ZeroCmp(AbsurdExtremeComparisons::new()));
    rule_engine.add_rule(AnyLint::Count(CountFns::new()));
    rule_engine.add_rule(AnyLint::Name(MethodNameRule::new(
        "frob".to_string(),
        "frob is deprecated".to_string(),
    )));
    rule_engine.apply_rules(&tree);

    let reports = &rule_engine.context.reports;
    assert_eq!(reports.len(), 2);
    assert_eq!(reports[0].message, "`<=` comparison of an unsigned value against zero");
    assert_eq!(reports[0].node.span, span(4, 3));
    assert_eq!(reports[1].message, "frob is deprecated");
    assert_eq!(reports[1].node.span, span(5, 3));
    match &rule_engine.rules[1] {
        AnyLint::Count(c) => assert_eq!(c.count, 1),
        _ => panic!("counting rule expected at index 1"),
    }
}
