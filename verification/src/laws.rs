//! Laws of the traversal, proved once and for all trees.
//!
//! `node_count_*` count the nodes of a subtree and `fns_in_*` its function
//! items. The `lemma_trace_props_*` family then establishes, for every tree:
//! the visit trace holds exactly one record per node (so one enter, and one
//! hook fan-out at hooked kinds, per traversal); every record's ancestor path
//! extends the path the subtree was entered under, and the subtree's own
//! record carries exactly that path, so at the moment a hook fires the stack
//! depth equals the node's nesting depth and the top of the stack is the
//! node's direct structural parent; records carry a hook payload exactly at
//! hooked kinds, whatever stands between them and the root. The fan lemmas
//! pin down registration order at one hook point.

use vstd::prelude::*;

use crate::ast::Block;
use crate::ast::Expr;
use crate::ast::FnArg;
use crate::ast::Item;
use crate::ast::Local;
use crate::ast::NodeHandle;
use crate::ast::SourceFile;
use crate::ast::Stmt;
use crate::ast::Ty;
use crate::ast::block_handle;
use crate::ast::expr_handle;
use crate::ast::file_handle;
use crate::ast::fn_arg_handle;
use crate::ast::item_handle;
use crate::ast::local_handle;
use crate::ast::ty_handle;
use crate::engine::fan;
use crate::engine::fan_from;
use crate::engine::trace_block;
use crate::engine::trace_expr;
use crate::engine::trace_exprs;
use crate::engine::trace_file;
use crate::engine::trace_fn_arg;
use crate::engine::trace_fn_args;
use crate::engine::trace_item;
use crate::engine::trace_items;
use crate::engine::trace_local;
use crate::engine::trace_opt_expr;
use crate::engine::trace_opt_ty;
use crate::engine::trace_stmt;
use crate::engine::trace_stmts;
use crate::engine::trace_ty;
use crate::report::ReportV;
use crate::rule::HookNode;
use crate::rule::Rule;
use crate::rule::VisitRec;
use crate::rule::is_hooked;

verus! {

/// The number of nodes of a type annotation.
pub open spec fn node_count_ty(t: Ty) -> nat {
    1
}

/// The number of nodes of an optional type annotation.
pub open spec fn node_count_opt_ty(t: Option<Ty>) -> nat {
    match t {
        Option::Some(ty) => node_count_ty(ty),
        Option::None => 0,
    }
}

/// The number of nodes of a function argument and its type.
pub open spec fn node_count_fn_arg(a: FnArg) -> nat {
    1 + node_count_ty(a.ty)
}

/// The number of nodes of a run of function arguments.
pub open spec fn node_count_fn_args(args: Seq<FnArg>) -> nat
    decreases args.len(),
{
    if args.len() == 0 {
        0
    } else {
        node_count_fn_arg(args[0]) + node_count_fn_args(args.drop_first())
    }
}

/// The number of nodes of an item and everything under it.
pub open spec fn node_count_item(item: Item) -> nat
    decreases item,
{
    match item {
        Item::Fn(f) => 1 + node_count_fn_args(f.args@) + node_count_opt_ty(f.ret)
            + node_count_block(f.body),
        Item::Const(c) => 1 + node_count_ty(c.ty) + node_count_expr(c.value),
        Item::Mod(m) => 1 + node_count_items(m.items@),
    }
}

/// The number of nodes of a run of items.
pub open spec fn node_count_items(items: Seq<Item>) -> nat
    decreases items,
{
    if items.len() == 0 {
        0
    } else {
        node_count_item(items[0]) + node_count_items(items.drop_first())
    }
}

/// The number of nodes of a block and its statements.
pub open spec fn node_count_block(b: Block) -> nat
    decreases b,
{
    1 + node_count_stmts(b.stmts@)
}

/// The number of nodes of a run of statements.
pub open spec fn node_count_stmts(stmts: Seq<Stmt>) -> nat
    decreases stmts,
{
    if stmts.len() == 0 {
        0
    } else {
        node_count_stmt(stmts[0]) + node_count_stmts(stmts.drop_first())
    }
}

/// The number of nodes of a statement.
pub open spec fn node_count_stmt(s: Stmt) -> nat
    decreases s,
{
    match s {
        Stmt::Local(l) => node_count_local(l),
        Stmt::Item(i) => node_count_item(i),
        Stmt::Expr(e) => node_count_expr(e),
        Stmt::Semi(e) => node_count_expr(e),
    }
}

/// The number of nodes of a `let` binding.
pub open spec fn node_count_local(l: Local) -> nat
    decreases l,
{
    1 + node_count_opt_ty(l.ty) + node_count_opt_expr(l.init)
}

/// The number of nodes of an optional expression.
pub open spec fn node_count_opt_expr(oe: Option<Expr>) -> nat
    decreases oe,
{
    match oe {
        Option::Some(e) => node_count_expr(e),
        Option::None => 0,
    }
}

/// The number of nodes of an expression and everything under it.
pub open spec fn node_count_expr(e: Expr) -> nat
    decreases e,
{
    match e {
        Expr::Binary(b) => 1 + node_count_expr(*b.left) + node_count_expr(*b.right),
        Expr::MethodCall(m) => 1 + node_count_expr(*m.receiver) + node_count_exprs(m.args@),
        Expr::Call(c) => 1 + node_count_expr(*c.func) + node_count_exprs(c.args@),
        Expr::Unary(u) => 1 + node_count_expr(*u.expr),
        Expr::Paren(p) => 1 + node_count_expr(*p.expr),
        Expr::Lit(_) => 1,
        Expr::Path(_) => 1,
        Expr::Block(eb) => 1 + node_count_block(eb.block),
    }
}

/// The number of nodes of a run of expressions.
pub open spec fn node_count_exprs(es: Seq<Expr>) -> nat
    decreases es,
{
    if es.len() == 0 {
        0
    } else {
        node_count_expr(es[0]) + node_count_exprs(es.drop_first())
    }
}

/// The number of nodes of a whole source file.
pub open spec fn node_count_file(f: SourceFile) -> nat {
    1 + node_count_items(f.items@)
}

/// The number of function items of an item and everything under it.
pub open spec fn fns_in_item(item: Item) -> nat
    decreases item,
{
    match item {
        Item::Fn(f) => 1 + fns_in_block(f.body),
        Item::Const(c) => fns_in_expr(c.value),
        Item::Mod(m) => fns_in_items(m.items@),
    }
}

/// The number of function items of a run of items.
pub open spec fn fns_in_items(items: Seq<Item>) -> nat
    decreases items,
{
    if items.len() == 0 {
        0
    } else {
        fns_in_item(items[0]) + fns_in_items(items.drop_first())
    }
}

/// The number of function items of a block.
pub open spec fn fns_in_block(b: Block) -> nat
    decreases b,
{
    fns_in_stmts(b.stmts@)
}

/// The number of function items of a run of statements.
pub open spec fn fns_in_stmts(stmts: Seq<Stmt>) -> nat
    decreases stmts,
{
    if stmts.len() == 0 {
        0
    } else {
        fns_in_stmt(stmts[0]) + fns_in_stmts(stmts.drop_first())
    }
}

/// The number of function items of a statement.
pub open spec fn fns_in_stmt(s: Stmt) -> nat
    decreases s,
{
    match s {
        Stmt::Local(l) => fns_in_opt_expr(l.init),
        Stmt::Item(i) => fns_in_item(i),
        Stmt::Expr(e) => fns_in_expr(e),
        Stmt::Semi(e) => fns_in_expr(e),
    }
}

/// The number of function items of an optional expression.
pub open spec fn fns_in_opt_expr(oe: Option<Expr>) -> nat
    decreases oe,
{
    match oe {
        Option::Some(e) => fns_in_expr(e),
        Option::None => 0,
    }
}

/// The number of function items of an expression.
pub open spec fn fns_in_expr(e: Expr) -> nat
    decreases e,
{
    match e {
        Expr::Binary(b) => fns_in_expr(*b.left) + fns_in_expr(*b.right),
        Expr::MethodCall(m) => fns_in_expr(*m.receiver) + fns_in_exprs(m.args@),
        Expr::Call(c) => fns_in_expr(*c.func) + fns_in_exprs(c.args@),
        Expr::Unary(u) => fns_in_expr(*u.expr),
        Expr::Paren(p) => fns_in_expr(*p.expr),
        Expr::Lit(_) => 0,
        Expr::Path(_) => 0,
        Expr::Block(eb) => fns_in_block(eb.block),
    }
}

/// The number of function items of a run of expressions.
pub open spec fn fns_in_exprs(es: Seq<Expr>) -> nat
    decreases es,
{
    if es.len() == 0 {
        0
    } else {
        fns_in_expr(es[0]) + fns_in_exprs(es.drop_first())
    }
}

/// The number of function items of a whole source file.
pub open spec fn fns_in_file(f: SourceFile) -> nat {
    fns_in_items(f.items@)
}

/// Whether this record is a function-item hook record.
pub open spec fn is_fn_hook(rec: VisitRec) -> bool {
    match rec.hook {
        Option::Some(HookNode::ItemFn(_)) => true,
        _ => false,
    }
}

/// The number of function-item hook records in a trace.
pub open spec fn fn_hook_count(tr: Seq<VisitRec>) -> nat
    decreases tr.len(),
{
    if tr.len() == 0 {
        0
    } else {
        (if is_fn_hook(tr[0]) {
            1nat
        } else {
            0nat
        }) + fn_hook_count(tr.drop_first())
    }
}

/// Function-item hook records add up over concatenation.
pub proof fn lemma_fn_hook_count_add(a: Seq<VisitRec>, b: Seq<VisitRec>)
    ensures
        fn_hook_count(a + b) == fn_hook_count(a) + fn_hook_count(b),
    decreases a.len(),
{
    if a.len() == 0 {
        assert(a + b =~= b);
    } else {
        assert((a + b)[0] == a[0]);
        assert((a + b).drop_first() =~= a.drop_first() + b);
        lemma_fn_hook_count_add(a.drop_first(), b);
    }
}

/// What holds of every record a subtree entered under `base` contributes:
/// its recorded path extends `base`, and it carries a hook payload exactly
/// when its node's kind is hooked.
pub open spec fn rec_wf(base: Seq<NodeHandle>, rec: VisitRec) -> bool {
    &&& rec.path.len() >= base.len()
    &&& rec.path.subrange(0, base.len() as int) == base
    &&& (rec.hook is Some <==> is_hooked(rec.node.kind))
}

/// A record well-formed under a longer path is well-formed under its prefix.
proof fn lemma_rec_wf_push(base: Seq<NodeHandle>, h: NodeHandle, rec: VisitRec)
    requires
        rec_wf(base.push(h), rec),
    ensures
        rec_wf(base, rec),
{
    let bl = base.len() as int;
    assert(rec.path.subrange(0, bl) =~= base) by {
        assert forall|j: int| 0 <= j < bl implies rec.path.subrange(0, bl)[j] == base[j] by {
            assert(rec.path.subrange(0, bl + 1)[j] == base.push(h)[j]);
        }
    }
}

/// Lifts the previous lemma over a whole trace.
proof fn lemma_wf_all_push(base: Seq<NodeHandle>, h: NodeHandle, tr: Seq<VisitRec>)
    requires
        forall|k: int| 0 <= k < tr.len() ==> rec_wf(base.push(h), #[trigger] tr[k]),
    ensures
        forall|k: int| 0 <= k < tr.len() ==> rec_wf(base, #[trigger] tr[k]),
{
    assert forall|k: int| 0 <= k < tr.len() implies rec_wf(base, #[trigger] tr[k]) by {
        lemma_rec_wf_push(base, h, tr[k]);
    }
}

/// Well-formedness of every record carries over concatenation.
proof fn lemma_wf_all_add(base: Seq<NodeHandle>, a: Seq<VisitRec>, b: Seq<VisitRec>)
    requires
        forall|k: int| 0 <= k < a.len() ==> rec_wf(base, #[trigger] a[k]),
        forall|k: int| 0 <= k < b.len() ==> rec_wf(base, #[trigger] b[k]),
    ensures
        forall|k: int| 0 <= k < (a + b).len() ==> rec_wf(base, #[trigger] (a + b)[k]),
{
    assert forall|k: int| 0 <= k < (a + b).len() implies rec_wf(base, #[trigger] (a + b)[k]) by {
        if k < a.len() {
            assert((a + b)[k] == a[k]);
        } else {
            assert((a + b)[k] == b[k - a.len()]);
        }
    }
}


/// Records well-formed under `base.push(h)` all lie strictly below `base`,
/// with `h` on the stack at position `base.len()`.
proof fn lemma_under_from_wf(base: Seq<NodeHandle>, h: NodeHandle, tr: Seq<VisitRec>)
    requires
        forall|k: int| 0 <= k < tr.len() ==> rec_wf(base.push(h), #[trigger] tr[k]),
    ensures
        forall|k: int| 0 <= k < tr.len() ==> (#[trigger] tr[k]).path.len() > base.len()
            && tr[k].path[base.len() as int] == h,
{
    assert forall|k: int| 0 <= k < tr.len() implies (#[trigger] tr[k]).path.len() > base.len()
        && tr[k].path[base.len() as int] == h by {
        assert(tr[k].path.subrange(0, base.len() as int + 1) == base.push(h));
        assert(tr[k].path.subrange(0, base.len() as int + 1)[base.len() as int] == tr[
            k
        ].path[base.len() as int]);
    }
}

/// A singleton trace: one record, counted once.
proof fn lemma_singleton(rec: VisitRec)
    ensures
        seq![rec].len() == 1,
        seq![rec][0] == rec,
        fn_hook_count(seq![rec]) == (if is_fn_hook(rec) {
            1nat
        } else {
            0nat
        }),
{
    assert(seq![rec].drop_first() =~= Seq::<VisitRec>::empty());
    assert(fn_hook_count(Seq::<VisitRec>::empty()) == 0);
}

/// Trace laws for a type annotation.
proof fn lemma_trace_props_ty(path: Seq<NodeHandle>, t: Ty)
    ensures
        trace_ty(path, t).len() == node_count_ty(t),
        forall|k: int| 0 <= k < trace_ty(path, t).len() ==> rec_wf(
            path,
            #[trigger] trace_ty(path, t)[k],
        ),
        fn_hook_count(trace_ty(path, t)) == 0,
        trace_ty(path, t)[0].node == ty_handle(t) && trace_ty(path, t)[0].path == path,
{
    let rec = VisitRec { node: ty_handle(t), path, hook: None };
    lemma_singleton(rec);
    assert(path.subrange(0, path.len() as int) =~= path);
    assert(rec_wf(path, rec));
}

/// Trace laws for an optional type annotation.
proof fn lemma_trace_props_opt_ty(path: Seq<NodeHandle>, t: Option<Ty>)
    ensures
        trace_opt_ty(path, t).len() == node_count_opt_ty(t),
        forall|k: int| 0 <= k < trace_opt_ty(path, t).len() ==> rec_wf(
            path,
            #[trigger] trace_opt_ty(path, t)[k],
        ),
        fn_hook_count(trace_opt_ty(path, t)) == 0,
{
    match t {
        Option::Some(ty) => {
            lemma_trace_props_ty(path, ty);
        },
        Option::None => {
            assert(fn_hook_count(Seq::<VisitRec>::empty()) == 0);
        },
    }
}

/// Trace laws for a function argument.
proof fn lemma_trace_props_fn_arg(path: Seq<NodeHandle>, a: FnArg)
    ensures
        trace_fn_arg(path, a).len() == node_count_fn_arg(a),
        forall|k: int| 0 <= k < trace_fn_arg(path, a).len() ==> rec_wf(
            path,
            #[trigger] trace_fn_arg(path, a)[k],
        ),
        fn_hook_count(trace_fn_arg(path, a)) == 0,
        trace_fn_arg(path, a)[0].node == fn_arg_handle(a) && trace_fn_arg(path, a)[0].path
            == path,
        forall|k: int| 1 <= k < trace_fn_arg(path, a).len() ==> (#[trigger] trace_fn_arg(path, a)[k]).path.len()
            > path.len() && trace_fn_arg(path, a)[k].path[path.len() as int] == fn_arg_handle(a),
{
    let h = fn_arg_handle(a);
    let rec = VisitRec { node: h, path, hook: Some(HookNode::FnArg(a)) };
    let child = trace_ty(path.push(h), a.ty);
    lemma_trace_props_ty(path.push(h), a.ty);
    lemma_wf_all_push(path, h, child);
    lemma_singleton(rec);
    assert(path.subrange(0, path.len() as int) =~= path);
    assert(rec_wf(path, rec));
    lemma_wf_all_add(path, seq![rec], child);
    lemma_fn_hook_count_add(seq![rec], child);
    assert((seq![rec] + child)[0] == rec);
    lemma_under_from_wf(path, h, child);
    assert forall|k: int| 1 <= k < trace_fn_arg(path, a).len() implies (#[trigger] trace_fn_arg(
        path,
        a,
    )[k]).path.len() > path.len() && trace_fn_arg(path, a)[k].path[path.len() as int]
        == fn_arg_handle(a) by {
        assert(trace_fn_arg(path, a)[k] == child[k - 1]);
    }
}

/// Trace laws for a run of function arguments.
proof fn lemma_trace_props_fn_args(path: Seq<NodeHandle>, args: Seq<FnArg>)
    ensures
        trace_fn_args(path, args).len() == node_count_fn_args(args),
        forall|k: int| 0 <= k < trace_fn_args(path, args).len() ==> rec_wf(
            path,
            #[trigger] trace_fn_args(path, args)[k],
        ),
        fn_hook_count(trace_fn_args(path, args)) == 0,
    decreases args.len(),
{
    if args.len() == 0 {
        assert(fn_hook_count(Seq::<VisitRec>::empty()) == 0);
    } else {
        lemma_trace_props_fn_arg(path, args[0]);
        lemma_trace_props_fn_args(path, args.drop_first());
        lemma_wf_all_add(path, trace_fn_arg(path, args[0]), trace_fn_args(path, args.drop_first()));
        lemma_fn_hook_count_add(trace_fn_arg(path, args[0]), trace_fn_args(path, args.drop_first()));
    }
}

/// Trace laws for an item.
proof fn lemma_trace_props_item(path: Seq<NodeHandle>, item: Item)
    ensures
        trace_item(path, item).len() == node_count_item(item),
        forall|k: int| 0 <= k < trace_item(path, item).len() ==> rec_wf(
            path,
            #[trigger] trace_item(path, item)[k],
        ),
        fn_hook_count(trace_item(path, item)) == fns_in_item(item),
        trace_item(path, item)[0].node == item_handle(item) && trace_item(path, item)[0].path
            == path,
        forall|k: int| 1 <= k < trace_item(path, item).len() ==> (#[trigger] trace_item(path, item)[
            k
        ]).path.len() > path.len() && trace_item(path, item)[k].path[path.len() as int] == item_handle(item),
    decreases item,
{
    assert(path.subrange(0, path.len() as int) =~= path);
    match item {
        Item::Fn(f) => {
            let h = item_handle(item);
            let rec = VisitRec { node: h, path, hook: Some(HookNode::ItemFn(f)) };
            let args_t = trace_fn_args(path.push(h), f.args@);
            let ret_t = trace_opt_ty(path.push(h), f.ret);
            let body_t = trace_block(path.push(h), f.body);
            lemma_trace_props_fn_args(path.push(h), f.args@);
            lemma_trace_props_opt_ty(path.push(h), f.ret);
            lemma_trace_props_block(path.push(h), f.body);
            lemma_wf_all_push(path, h, args_t);
            lemma_wf_all_push(path, h, ret_t);
            lemma_wf_all_push(path, h, body_t);
            lemma_singleton(rec);
            assert(rec_wf(path, rec));
            lemma_wf_all_add(path, seq![rec], args_t);
            lemma_wf_all_add(path, seq![rec] + args_t, ret_t);
            lemma_wf_all_add(path, (seq![rec] + args_t) + ret_t, body_t);
            lemma_fn_hook_count_add(seq![rec], args_t);
            lemma_fn_hook_count_add(seq![rec] + args_t, ret_t);
            lemma_fn_hook_count_add((seq![rec] + args_t) + ret_t, body_t);
            assert((((seq![rec] + args_t) + ret_t) + body_t)[0] == rec);
            lemma_wf_all_add(path.push(h), args_t, ret_t);
            lemma_wf_all_add(path.push(h), args_t + ret_t, body_t);
            lemma_under_from_wf(path, h, (args_t + ret_t) + body_t);
            assert(trace_item(path, item) =~= seq![rec] + ((args_t + ret_t) + body_t));
            assert forall|k: int| 1 <= k < trace_item(path, item).len() implies (#[trigger] trace_item(path, item)[
                k
            ]).path.len() > path.len() && trace_item(path, item)[k].path[path.len() as int] == item_handle(item) by {
                assert(trace_item(path, item)[k] == (seq![rec] + ((args_t + ret_t) + body_t))[k]);
                assert((seq![rec] + ((args_t + ret_t) + body_t))[k] == ((args_t + ret_t) + body_t)[k - 1]);
            }
        },
        Item::Const(c) => {
            let h = item_handle(item);
            let rec = VisitRec { node: h, path, hook: Some(HookNode::ItemConst(c)) };
            let ty_t = trace_ty(path.push(h), c.ty);
            let val_t = trace_expr(path.push(h), c.value);
            lemma_trace_props_ty(path.push(h), c.ty);
            lemma_trace_props_expr(path.push(h), c.value);
            lemma_wf_all_push(path, h, ty_t);
            lemma_wf_all_push(path, h, val_t);
            lemma_singleton(rec);
            assert(rec_wf(path, rec));
            lemma_wf_all_add(path, seq![rec], ty_t);
            lemma_wf_all_add(path, seq![rec] + ty_t, val_t);
            lemma_fn_hook_count_add(seq![rec], ty_t);
            lemma_fn_hook_count_add(seq![rec] + ty_t, val_t);
            assert(((seq![rec] + ty_t) + val_t)[0] == rec);
            lemma_wf_all_add(path.push(h), ty_t, val_t);
            lemma_under_from_wf(path, h, ty_t + val_t);
            assert(trace_item(path, item) =~= seq![rec] + (ty_t + val_t));
            assert forall|k: int| 1 <= k < trace_item(path, item).len() implies (#[trigger] trace_item(path, item)[
                k
            ]).path.len() > path.len() && trace_item(path, item)[k].path[path.len() as int] == item_handle(item) by {
                assert(trace_item(path, item)[k] == (seq![rec] + (ty_t + val_t))[k]);
                assert((seq![rec] + (ty_t + val_t))[k] == (ty_t + val_t)[k - 1]);
            }
        },
        Item::Mod(m) => {
            let h = item_handle(item);
            let rec = VisitRec { node: h, path, hook: None };
            let inner = trace_items(path.push(h), m.items@);
            lemma_trace_props_items(path.push(h), m.items@);
            lemma_wf_all_push(path, h, inner);
            lemma_singleton(rec);
            assert(rec_wf(path, rec));
            lemma_wf_all_add(path, seq![rec], inner);
            lemma_fn_hook_count_add(seq![rec], inner);
            assert((seq![rec] + inner)[0] == rec);
            lemma_under_from_wf(path, h, inner);
            assert(trace_item(path, item) =~= seq![rec] + (inner));
            assert forall|k: int| 1 <= k < trace_item(path, item).len() implies (#[trigger] trace_item(path, item)[
                k
            ]).path.len() > path.len() && trace_item(path, item)[k].path[path.len() as int] == item_handle(item) by {
                assert(trace_item(path, item)[k] == (seq![rec] + (inner))[k]);
                assert((seq![rec] + (inner))[k] == (inner)[k - 1]);
            }
        },
    }
}

/// Trace laws for a run of items.
proof fn lemma_trace_props_items(path: Seq<NodeHandle>, items: Seq<Item>)
    ensures
        trace_items(path, items).len() == node_count_items(items),
        forall|k: int| 0 <= k < trace_items(path, items).len() ==> rec_wf(
            path,
            #[trigger] trace_items(path, items)[k],
        ),
        fn_hook_count(trace_items(path, items)) == fns_in_items(items),
    decreases items,
{
    if items.len() == 0 {
        assert(fn_hook_count(Seq::<VisitRec>::empty()) == 0);
    } else {
        lemma_trace_props_item(path, items[0]);
        lemma_trace_props_items(path, items.drop_first());
        lemma_wf_all_add(path, trace_item(path, items[0]), trace_items(path, items.drop_first()));
        lemma_fn_hook_count_add(trace_item(path, items[0]), trace_items(path, items.drop_first()));
    }
}

/// Trace laws for a block.
proof fn lemma_trace_props_block(path: Seq<NodeHandle>, b: Block)
    ensures
        trace_block(path, b).len() == node_count_block(b),
        forall|k: int| 0 <= k < trace_block(path, b).len() ==> rec_wf(
            path,
            #[trigger] trace_block(path, b)[k],
        ),
        fn_hook_count(trace_block(path, b)) == fns_in_block(b),
        trace_block(path, b)[0].node == block_handle(b) && trace_block(path, b)[0].path == path,
        forall|k: int| 1 <= k < trace_block(path, b).len() ==> (#[trigger] trace_block(path, b)[
            k
        ]).path.len() > path.len() && trace_block(path, b)[k].path[path.len() as int] == block_handle(b),
    decreases b,
{
    let h = block_handle(b);
    let rec = VisitRec { node: h, path, hook: None };
    let inner = trace_stmts(path.push(h), b.stmts@);
    lemma_trace_props_stmts(path.push(h), b.stmts@);
    lemma_wf_all_push(path, h, inner);
    lemma_singleton(rec);
    assert(path.subrange(0, path.len() as int) =~= path);
    assert(rec_wf(path, rec));
    lemma_wf_all_add(path, seq![rec], inner);
    lemma_fn_hook_count_add(seq![rec], inner);
    assert((seq![rec] + inner)[0] == rec);
    lemma_under_from_wf(path, h, inner);
    assert forall|k: int| 1 <= k < trace_block(path, b).len() implies (#[trigger] trace_block(
        path,
        b,
    )[k]).path.len() > path.len() && trace_block(path, b)[k].path[path.len() as int]
        == block_handle(b) by {
        assert(trace_block(path, b)[k] == inner[k - 1]);
    }
}

/// Trace laws for a run of statements.
proof fn lemma_trace_props_stmts(path: Seq<NodeHandle>, stmts: Seq<Stmt>)
    ensures
        trace_stmts(path, stmts).len() == node_count_stmts(stmts),
        forall|k: int| 0 <= k < trace_stmts(path, stmts).len() ==> rec_wf(
            path,
            #[trigger] trace_stmts(path, stmts)[k],
        ),
        fn_hook_count(trace_stmts(path, stmts)) == fns_in_stmts(stmts),
    decreases stmts,
{
    if stmts.len() == 0 {
        assert(fn_hook_count(Seq::<VisitRec>::empty()) == 0);
    } else {
        lemma_trace_props_stmt(path, stmts[0]);
        lemma_trace_props_stmts(path, stmts.drop_first());
        lemma_wf_all_add(path, trace_stmt(path, stmts[0]), trace_stmts(path, stmts.drop_first()));
        lemma_fn_hook_count_add(trace_stmt(path, stmts[0]), trace_stmts(path, stmts.drop_first()));
    }
}

/// Trace laws for a statement.
proof fn lemma_trace_props_stmt(path: Seq<NodeHandle>, s: Stmt)
    ensures
        trace_stmt(path, s).len() == node_count_stmt(s),
        forall|k: int| 0 <= k < trace_stmt(path, s).len() ==> rec_wf(
            path,
            #[trigger] trace_stmt(path, s)[k],
        ),
        fn_hook_count(trace_stmt(path, s)) == fns_in_stmt(s),
    decreases s,
{
    match s {
        Stmt::Local(l) => {
            lemma_trace_props_local(path, l);
        },
        Stmt::Item(i) => {
            lemma_trace_props_item(path, i);
        },
        Stmt::Expr(e) => {
            lemma_trace_props_expr(path, e);
        },
        Stmt::Semi(e) => {
            lemma_trace_props_expr(path, e);
        },
    }
}

/// Trace laws for a `let` binding.
proof fn lemma_trace_props_local(path: Seq<NodeHandle>, l: Local)
    ensures
        trace_local(path, l).len() == node_count_local(l),
        forall|k: int| 0 <= k < trace_local(path, l).len() ==> rec_wf(
            path,
            #[trigger] trace_local(path, l)[k],
        ),
        fn_hook_count(trace_local(path, l)) == fns_in_opt_expr(l.init),
        trace_local(path, l)[0].node == local_handle(l) && trace_local(path, l)[0].path == path,
        forall|k: int| 1 <= k < trace_local(path, l).len() ==> (#[trigger] trace_local(path, l)[
            k
        ]).path.len() > path.len() && trace_local(path, l)[k].path[path.len() as int] == local_handle(l),
    decreases l,
{
    let h = local_handle(l);
    let rec = VisitRec { node: h, path, hook: Some(HookNode::Local(l)) };
    let ty_t = trace_opt_ty(path.push(h), l.ty);
    let init_t = trace_opt_expr(path.push(h), l.init);
    lemma_trace_props_opt_ty(path.push(h), l.ty);
    lemma_trace_props_opt_expr(path.push(h), l.init);
    lemma_wf_all_push(path, h, ty_t);
    lemma_wf_all_push(path, h, init_t);
    lemma_singleton(rec);
    assert(path.subrange(0, path.len() as int) =~= path);
    assert(rec_wf(path, rec));
    lemma_wf_all_add(path, seq![rec], ty_t);
    lemma_wf_all_add(path, seq![rec] + ty_t, init_t);
    lemma_fn_hook_count_add(seq![rec], ty_t);
    lemma_fn_hook_count_add(seq![rec] + ty_t, init_t);
    assert(((seq![rec] + ty_t) + init_t)[0] == rec);
    lemma_wf_all_add(path.push(h), ty_t, init_t);
    lemma_under_from_wf(path, h, ty_t + init_t);
    assert(trace_local(path, l) =~= seq![rec] + (ty_t + init_t));
    assert forall|k: int| 1 <= k < trace_local(path, l).len() implies (#[trigger] trace_local(
        path,
        l,
    )[k]).path.len() > path.len() && trace_local(path, l)[k].path[path.len() as int]
        == local_handle(l) by {
        assert(trace_local(path, l)[k] == (seq![rec] + (ty_t + init_t))[k]);
        assert((seq![rec] + (ty_t + init_t))[k] == (ty_t + init_t)[k - 1]);
    }
}

/// Trace laws for an optional expression.
proof fn lemma_trace_props_opt_expr(path: Seq<NodeHandle>, oe: Option<Expr>)
    ensures
        trace_opt_expr(path, oe).len() == node_count_opt_expr(oe),
        forall|k: int| 0 <= k < trace_opt_expr(path, oe).len() ==> rec_wf(
            path,
            #[trigger] trace_opt_expr(path, oe)[k],
        ),
        fn_hook_count(trace_opt_expr(path, oe)) == fns_in_opt_expr(oe),
    decreases oe,
{
    match oe {
        Option::Some(e) => {
            lemma_trace_props_expr(path, e);
        },
        Option::None => {
            assert(fn_hook_count(Seq::<VisitRec>::empty()) == 0);
        },
    }
}

/// Trace laws for an expression.
proof fn lemma_trace_props_expr(path: Seq<NodeHandle>, e: Expr)
    ensures
        trace_expr(path, e).len() == node_count_expr(e),
        forall|k: int| 0 <= k < trace_expr(path, e).len() ==> rec_wf(
            path,
            #[trigger] trace_expr(path, e)[k],
        ),
        fn_hook_count(trace_expr(path, e)) == fns_in_expr(e),
        trace_expr(path, e)[0].node == expr_handle(e) && trace_expr(path, e)[0].path == path,
        forall|k: int| 1 <= k < trace_expr(path, e).len() ==> (#[trigger] trace_expr(path, e)[
            k
        ]).path.len() > path.len() && trace_expr(path, e)[k].path[path.len() as int] == expr_handle(e),
    decreases e,
{
    let h = expr_handle(e);
    assert(path.subrange(0, path.len() as int) =~= path);
    match e {
        Expr::Binary(b) => {
            let rec = VisitRec { node: h, path, hook: Some(HookNode::Binary(b)) };
            let left_t = trace_expr(path.push(h), *b.left);
            let right_t = trace_expr(path.push(h), *b.right);
            lemma_trace_props_expr(path.push(h), *b.left);
            lemma_trace_props_expr(path.push(h), *b.right);
            lemma_wf_all_push(path, h, left_t);
            lemma_wf_all_push(path, h, right_t);
            lemma_singleton(rec);
            assert(rec_wf(path, rec));
            lemma_wf_all_add(path, seq![rec], left_t);
            lemma_wf_all_add(path, seq![rec] + left_t, right_t);
            lemma_fn_hook_count_add(seq![rec], left_t);
            lemma_fn_hook_count_add(seq![rec] + left_t, right_t);
            assert(((seq![rec] + left_t) + right_t)[0] == rec);
            lemma_wf_all_add(path.push(h), left_t, right_t);
            lemma_under_from_wf(path, h, left_t + right_t);
            assert(trace_expr(path, e) =~= seq![rec] + (left_t + right_t));
            assert forall|k: int| 1 <= k < trace_expr(path, e).len() implies (#[trigger] trace_expr(path, e)[
                k
            ]).path.len() > path.len() && trace_expr(path, e)[k].path[path.len() as int] == expr_handle(e) by {
                assert(trace_expr(path, e)[k] == (seq![rec] + (left_t + right_t))[k]);
                assert((seq![rec] + (left_t + right_t))[k] == (left_t + right_t)[k - 1]);
            }
        },
        Expr::MethodCall(m) => {
            let rec = VisitRec { node: h, path, hook: Some(HookNode::MethodCall(m)) };
            let recv_t = trace_expr(path.push(h), *m.receiver);
            let args_t = trace_exprs(path.push(h), m.args@);
            lemma_trace_props_expr(path.push(h), *m.receiver);
            lemma_trace_props_exprs(path.push(h), m.args@);
            lemma_wf_all_push(path, h, recv_t);
            lemma_wf_all_push(path, h, args_t);
            lemma_singleton(rec);
            assert(rec_wf(path, rec));
            lemma_wf_all_add(path, seq![rec], recv_t);
            lemma_wf_all_add(path, seq![rec] + recv_t, args_t);
            lemma_fn_hook_count_add(seq![rec], recv_t);
            lemma_fn_hook_count_add(seq![rec] + recv_t, args_t);
            assert(((seq![rec] + recv_t) + args_t)[0] == rec);
            lemma_wf_all_add(path.push(h), recv_t, args_t);
            lemma_under_from_wf(path, h, recv_t + args_t);
            assert(trace_expr(path, e) =~= seq![rec] + (recv_t + args_t));
            assert forall|k: int| 1 <= k < trace_expr(path, e).len() implies (#[trigger] trace_expr(path, e)[
                k
            ]).path.len() > path.len() && trace_expr(path, e)[k].path[path.len() as int] == expr_handle(e) by {
                assert(trace_expr(path, e)[k] == (seq![rec] + (recv_t + args_t))[k]);
                assert((seq![rec] + (recv_t + args_t))[k] == (recv_t + args_t)[k - 1]);
            }
        },
        Expr::Call(c) => {
            let rec = VisitRec { node: h, path, hook: None };
            let func_t = trace_expr(path.push(h), *c.func);
            let args_t = trace_exprs(path.push(h), c.args@);
            lemma_trace_props_expr(path.push(h), *c.func);
            lemma_trace_props_exprs(path.push(h), c.args@);
            lemma_wf_all_push(path, h, func_t);
            lemma_wf_all_push(path, h, args_t);
            lemma_singleton(rec);
            assert(rec_wf(path, rec));
            lemma_wf_all_add(path, seq![rec], func_t);
            lemma_wf_all_add(path, seq![rec] + func_t, args_t);
            lemma_fn_hook_count_add(seq![rec], func_t);
            lemma_fn_hook_count_add(seq![rec] + func_t, args_t);
            assert(((seq![rec] + func_t) + args_t)[0] == rec);
            lemma_wf_all_add(path.push(h), func_t, args_t);
            lemma_under_from_wf(path, h, func_t + args_t);
            assert(trace_expr(path, e) =~= seq![rec] + (func_t + args_t));
            assert forall|k: int| 1 <= k < trace_expr(path, e).len() implies (#[trigger] trace_expr(path, e)[
                k
            ]).path.len() > path.len() && trace_expr(path, e)[k].path[path.len() as int] == expr_handle(e) by {
                assert(trace_expr(path, e)[k] == (seq![rec] + (func_t + args_t))[k]);
                assert((seq![rec] + (func_t + args_t))[k] == (func_t + args_t)[k - 1]);
            }
        },
        Expr::Unary(u) => {
            let rec = VisitRec { node: h, path, hook: None };
            let inner = trace_expr(path.push(h), *u.expr);
            lemma_trace_props_expr(path.push(h), *u.expr);
            lemma_wf_all_push(path, h, inner);
            lemma_singleton(rec);
            assert(rec_wf(path, rec));
            lemma_wf_all_add(path, seq![rec], inner);
            lemma_fn_hook_count_add(seq![rec], inner);
            assert((seq![rec] + inner)[0] == rec);
            lemma_under_from_wf(path, h, inner);
            assert(trace_expr(path, e) =~= seq![rec] + (inner));
            assert forall|k: int| 1 <= k < trace_expr(path, e).len() implies (#[trigger] trace_expr(path, e)[
                k
            ]).path.len() > path.len() && trace_expr(path, e)[k].path[path.len() as int] == expr_handle(e) by {
                assert(trace_expr(path, e)[k] == (seq![rec] + (inner))[k]);
                assert((seq![rec] + (inner))[k] == (inner)[k - 1]);
            }
        },
        Expr::Paren(p) => {
            let rec = VisitRec { node: h, path, hook: None };
            let inner = trace_expr(path.push(h), *p.expr);
            lemma_trace_props_expr(path.push(h), *p.expr);
            lemma_wf_all_push(path, h, inner);
            lemma_singleton(rec);
            assert(rec_wf(path, rec));
            lemma_wf_all_add(path, seq![rec], inner);
            lemma_fn_hook_count_add(seq![rec], inner);
            assert((seq![rec] + inner)[0] == rec);
            lemma_under_from_wf(path, h, inner);
            assert(trace_expr(path, e) =~= seq![rec] + (inner));
            assert forall|k: int| 1 <= k < trace_expr(path, e).len() implies (#[trigger] trace_expr(path, e)[
                k
            ]).path.len() > path.len() && trace_expr(path, e)[k].path[path.len() as int] == expr_handle(e) by {
                assert(trace_expr(path, e)[k] == (seq![rec] + (inner))[k]);
                assert((seq![rec] + (inner))[k] == (inner)[k - 1]);
            }
        },
        Expr::Lit(_) => {
            let rec = VisitRec { node: h, path, hook: None };
            lemma_singleton(rec);
            assert(rec_wf(path, rec));
        },
        Expr::Path(_) => {
            let rec = VisitRec { node: h, path, hook: None };
            lemma_singleton(rec);
            assert(rec_wf(path, rec));
        },
        Expr::Block(eb) => {
            let rec = VisitRec { node: h, path, hook: None };
            let inner = trace_block(path.push(h), eb.block);
            lemma_trace_props_block(path.push(h), eb.block);
            lemma_wf_all_push(path, h, inner);
            lemma_singleton(rec);
            assert(rec_wf(path, rec));
            lemma_wf_all_add(path, seq![rec], inner);
            lemma_fn_hook_count_add(seq![rec], inner);
            assert((seq![rec] + inner)[0] == rec);
            lemma_under_from_wf(path, h, inner);
            assert(trace_expr(path, e) =~= seq![rec] + (inner));
            assert forall|k: int| 1 <= k < trace_expr(path, e).len() implies (#[trigger] trace_expr(path, e)[
                k
            ]).path.len() > path.len() && trace_expr(path, e)[k].path[path.len() as int] == expr_handle(e) by {
                assert(trace_expr(path, e)[k] == (seq![rec] + (inner))[k]);
                assert((seq![rec] + (inner))[k] == (inner)[k - 1]);
            }
        },
    }
}

/// Trace laws for a run of expressions.
proof fn lemma_trace_props_exprs(path: Seq<NodeHandle>, es: Seq<Expr>)
    ensures
        trace_exprs(path, es).len() == node_count_exprs(es),
        forall|k: int| 0 <= k < trace_exprs(path, es).len() ==> rec_wf(
            path,
            #[trigger] trace_exprs(path, es)[k],
        ),
        fn_hook_count(trace_exprs(path, es)) == fns_in_exprs(es),
    decreases es,
{
    if es.len() == 0 {
        assert(fn_hook_count(Seq::<VisitRec>::empty()) == 0);
    } else {
        lemma_trace_props_expr(path, es[0]);
        lemma_trace_props_exprs(path, es.drop_first());
        lemma_wf_all_add(path, trace_expr(path, es[0]), trace_exprs(path, es.drop_first()));
        lemma_fn_hook_count_add(trace_expr(path, es[0]), trace_exprs(path, es.drop_first()));
    }
}

/// Exactly-once visitation and the ancestor-path discipline, for every tree.
///
/// The visit trace of a file holds exactly one record per node of the tree;
/// since `apply_rules` produces exactly this trace and fans every hooked
/// record out to every registered rule once, every node is entered exactly
/// once and every hooked node gives each rule exactly one hook call. Every
/// record's path extends the path the traversal started under; the root's
/// record carries that starting path itself; and a record carries a hook
/// payload exactly when its node's kind is hooked, whatever kinds stand
/// between it and the root.
pub proof fn lemma_trace_props_file(path: Seq<NodeHandle>, f: SourceFile)
    ensures
        trace_file(path, f).len() == node_count_file(f),
        forall|k: int| 0 <= k < trace_file(path, f).len() ==> rec_wf(
            path,
            #[trigger] trace_file(path, f)[k],
        ),
        fn_hook_count(trace_file(path, f)) == fns_in_file(f),
        trace_file(path, f)[0].node == file_handle(f) && trace_file(path, f)[0].path == path,
        forall|k: int| 1 <= k < trace_file(path, f).len() ==> (#[trigger] trace_file(path, f)[
            k
        ]).path.len() > path.len() && trace_file(path, f)[k].path[path.len() as int] == file_handle(f),
{
    let h = file_handle(f);
    let rec = VisitRec { node: h, path, hook: None };
    let inner = trace_items(path.push(h), f.items@);
    lemma_trace_props_items(path.push(h), f.items@);
    lemma_wf_all_push(path, h, inner);
    lemma_singleton(rec);
    assert(path.subrange(0, path.len() as int) =~= path);
    assert(rec_wf(path, rec));
    lemma_wf_all_add(path, seq![rec], inner);
    lemma_fn_hook_count_add(seq![rec], inner);
    assert((seq![rec] + inner)[0] == rec);
    lemma_under_from_wf(path, h, inner);
    assert forall|k: int| 1 <= k < trace_file(path, f).len() implies (#[trigger] trace_file(
        path,
        f,
    )[k]).path.len() > path.len() && trace_file(path, f)[k].path[path.len() as int]
        == file_handle(f) by {
        assert(trace_file(path, f)[k] == inner[k - 1]);
    }
}

/// One hook point with a single registered rule: the rule steps once and its
/// reports are appended once.
pub proof fn lemma_fan_one<R: Rule>(
    vs: Seq<R::V>,
    reps: Seq<ReportV>,
    path: Seq<NodeHandle>,
    hn: HookNode,
)
    requires
        vs.len() == 1,
    ensures
        fan::<R>(vs, reps, path, hn) == (
            seq![R::step(vs[0], path, hn)],
            reps + R::emits(vs[0], path, hn),
        ),
{
    let vs1 = vs.update(0, R::step(vs[0], path, hn));
    assert(vs1 =~= seq![R::step(vs[0], path, hn)]);
    assert(fan_from::<R>(vs1, reps + R::emits(vs[0], path, hn), path, hn, 1) == (
        vs1,
        reps + R::emits(vs[0], path, hn),
    ));
}

/// Registration-order determinism at one hook point: with two rules
/// registered in that order, the first rule observes the node strictly
/// before the second — its state steps from the state it held before the
/// node, and every report it emits at the node stands before every report
/// the second rule emits there.
pub proof fn lemma_fan_two<R: Rule>(
    vs: Seq<R::V>,
    reps: Seq<ReportV>,
    path: Seq<NodeHandle>,
    hn: HookNode,
)
    requires
        vs.len() == 2,
    ensures
        fan::<R>(vs, reps, path, hn) == (
            seq![R::step(vs[0], path, hn), R::step(vs[1], path, hn)],
            (reps + R::emits(vs[0], path, hn)) + R::emits(vs[1], path, hn),
        ),
{
    reveal_with_fuel(fan_from, 4);
    let s0 = R::step(vs[0], path, hn);
    let e0 = R::emits(vs[0], path, hn);
    let vs1 = vs.update(0, s0);
    assert(vs1[1] == vs[1]);
    let s1 = R::step(vs1[1], path, hn);
    let e1 = R::emits(vs1[1], path, hn);
    let vs2 = vs1.update(1, s1);
    assert(vs2 =~= seq![s0, s1]);
    assert(fan_from::<R>(vs2, (reps + e0) + e1, path, hn, 2) == (vs2, (reps + e0) + e1));
}

} // verus!
