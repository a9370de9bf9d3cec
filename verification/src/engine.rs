//! The rule registry and the traversal/dispatch core.
//!
//! The mathematical model comes first: `trace_*` compute, from a tree and the
//! ancestor path it is reached under, the exact sequence of nodes a
//! depth-first pre-order walk enters, each paired with its ancestor path and,
//! for hooked kinds, the payload shown to the rules. `fan_from` folds one
//! hook call over the registered rules in registration order, and `run_rec`
//! folds a whole visit trace over rule states and emitted reports. The
//! executable walker then carries contracts stating that it produces exactly
//! that trace, exactly that fold, and restores the ancestor stack.

use vstd::prelude::*;

use crate::ast::Block;
use crate::ast::Expr;
use crate::ast::ExprBinary;
use crate::ast::ExprMethodCall;
use crate::ast::FnArg;
use crate::ast::ItemConst;
use crate::ast::ItemFn;
use crate::ast::Item;
use crate::ast::Kind;
use crate::ast::Local;
use crate::ast::NodeHandle;
use crate::ast::SourceFile;
use crate::ast::Stmt;
use crate::ast::Ty;
use crate::ast::block_handle;
use crate::ast::expr_handle;
use crate::ast::file_handle;
use crate::ast::fn_arg_handle;
use crate::ast::item_handle;
use crate::ast::local_handle;
use crate::ast::ty_handle;
use crate::context::RuleContext;
use crate::report::ReportV;
use crate::rule::HookNode;
use crate::rule::Rule;
use crate::rule::VisitRec;

verus! {

/// The visit trace of a type annotation: a leaf node.
pub open spec fn trace_ty(path: Seq<NodeHandle>, t: Ty) -> Seq<VisitRec> {
    seq![VisitRec { node: ty_handle(t), path, hook: None }]
}

/// The visit trace of an optional type annotation.
pub open spec fn trace_opt_ty(path: Seq<NodeHandle>, t: Option<Ty>) -> Seq<VisitRec> {
    match t {
        Option::Some(ty) => trace_ty(path, ty),
        Option::None => Seq::empty(),
    }
}

/// The visit trace of a function argument: the argument itself (hooked),
/// then its type under the argument's handle.
pub open spec fn trace_fn_arg(path: Seq<NodeHandle>, a: FnArg) -> Seq<VisitRec> {
    seq![VisitRec { node: fn_arg_handle(a), path, hook: Some(HookNode::FnArg(a)) }]
        + trace_ty(path.push(fn_arg_handle(a)), a.ty)
}

/// The visit trace of a run of function arguments, in source order.
pub open spec fn trace_fn_args(path: Seq<NodeHandle>, args: Seq<FnArg>) -> Seq<VisitRec>
    decreases args.len(),
{
    if args.len() == 0 {
        Seq::empty()
    } else {
        trace_fn_arg(path, args[0]) + trace_fn_args(path, args.drop_first())
    }
}

/// The visit trace of an item.
pub open spec fn trace_item(path: Seq<NodeHandle>, item: Item) -> Seq<VisitRec>
    decreases item,
{
    match item {
        Item::Fn(f) => {
            let h = item_handle(item);
            seq![VisitRec { node: h, path, hook: Some(HookNode::ItemFn(f)) }]
                + trace_fn_args(path.push(h), f.args@)
                + trace_opt_ty(path.push(h), f.ret)
                + trace_block(path.push(h), f.body)
        },
        Item::Const(c) => {
            let h = item_handle(item);
            seq![VisitRec { node: h, path, hook: Some(HookNode::ItemConst(c)) }]
                + trace_ty(path.push(h), c.ty)
                + trace_expr(path.push(h), c.value)
        },
        Item::Mod(m) => {
            let h = item_handle(item);
            seq![VisitRec { node: h, path, hook: None }]
                + trace_items(path.push(h), m.items@)
        },
    }
}

/// The visit trace of a run of items, in source order.
pub open spec fn trace_items(path: Seq<NodeHandle>, items: Seq<Item>) -> Seq<VisitRec>
    decreases items,
{
    if items.len() == 0 {
        Seq::empty()
    } else {
        trace_item(path, items[0]) + trace_items(path, items.drop_first())
    }
}

/// The visit trace of a block: the block node, then its statements under it.
pub open spec fn trace_block(path: Seq<NodeHandle>, b: Block) -> Seq<VisitRec>
    decreases b,
{
    seq![VisitRec { node: block_handle(b), path, hook: None }]
        + trace_stmts(path.push(block_handle(b)), b.stmts@)
}

/// The visit trace of a run of statements, in source order.
pub open spec fn trace_stmts(path: Seq<NodeHandle>, stmts: Seq<Stmt>) -> Seq<VisitRec>
    decreases stmts,
{
    if stmts.len() == 0 {
        Seq::empty()
    } else {
        trace_stmt(path, stmts[0]) + trace_stmts(path, stmts.drop_first())
    }
}

/// The visit trace of a statement. Statements are transparent wrappers: the
/// node entered is the local, item or expression inside.
pub open spec fn trace_stmt(path: Seq<NodeHandle>, s: Stmt) -> Seq<VisitRec>
    decreases s,
{
    match s {
        Stmt::Local(l) => trace_local(path, l),
        Stmt::Item(i) => trace_item(path, i),
        Stmt::Expr(e) => trace_expr(path, e),
        Stmt::Semi(e) => trace_expr(path, e),
    }
}

/// The visit trace of a `let` binding: the binding itself (hooked), then its
/// type annotation and initializer under the binding's handle.
pub open spec fn trace_local(path: Seq<NodeHandle>, l: Local) -> Seq<VisitRec>
    decreases l,
{
    seq![VisitRec { node: local_handle(l), path, hook: Some(HookNode::Local(l)) }]
        + trace_opt_ty(path.push(local_handle(l)), l.ty)
        + trace_opt_expr(path.push(local_handle(l)), l.init)
}

/// The visit trace of an optional expression.
pub open spec fn trace_opt_expr(path: Seq<NodeHandle>, oe: Option<Expr>) -> Seq<VisitRec>
    decreases oe,
{
    match oe {
        Option::Some(e) => trace_expr(path, e),
        Option::None => Seq::empty(),
    }
}

/// The visit trace of an expression: the expression node first, then every
/// syntactic child in source order under the expression's handle.
pub open spec fn trace_expr(path: Seq<NodeHandle>, e: Expr) -> Seq<VisitRec>
    decreases e,
{
    match e {
        Expr::Binary(b) => {
            let h = expr_handle(e);
            seq![VisitRec { node: h, path, hook: Some(HookNode::Binary(b)) }]
                + trace_expr(path.push(h), *b.left)
                + trace_expr(path.push(h), *b.right)
        },
        Expr::MethodCall(m) => {
            let h = expr_handle(e);
            seq![VisitRec { node: h, path, hook: Some(HookNode::MethodCall(m)) }]
                + trace_expr(path.push(h), *m.receiver)
                + trace_exprs(path.push(h), m.args@)
        },
        Expr::Call(c) => {
            let h = expr_handle(e);
            seq![VisitRec { node: h, path, hook: None }]
                + trace_expr(path.push(h), *c.func)
                + trace_exprs(path.push(h), c.args@)
        },
        Expr::Unary(u) => {
            let h = expr_handle(e);
            seq![VisitRec { node: h, path, hook: None }]
                + trace_expr(path.push(h), *u.expr)
        },
        Expr::Paren(p) => {
            let h = expr_handle(e);
            seq![VisitRec { node: h, path, hook: None }]
                + trace_expr(path.push(h), *p.expr)
        },
        Expr::Lit(_) => {
            seq![VisitRec { node: expr_handle(e), path, hook: None }]
        },
        Expr::Path(_) => {
            seq![VisitRec { node: expr_handle(e), path, hook: None }]
        },
        Expr::Block(eb) => {
            let h = expr_handle(e);
            seq![VisitRec { node: h, path, hook: None }]
                + trace_block(path.push(h), eb.block)
        },
    }
}

/// The visit trace of a run of expressions, in source order.
pub open spec fn trace_exprs(path: Seq<NodeHandle>, es: Seq<Expr>) -> Seq<VisitRec>
    decreases es,
{
    if es.len() == 0 {
        Seq::empty()
    } else {
        trace_expr(path, es[0]) + trace_exprs(path, es.drop_first())
    }
}

/// The visit trace of a whole source file: the root node, then every item
/// under it.
pub open spec fn trace_file(path: Seq<NodeHandle>, f: SourceFile) -> Seq<VisitRec> {
    seq![VisitRec { node: file_handle(f), path, hook: None }]
        + trace_items(path.push(file_handle(f)), f.items@)
}

/// One hook point fanned out over the rules with index `i` and above, in
/// index (that is, registration) order: each rule's state advances by its own
/// `step`, and its `emits` are appended to the report log, rule `i` first.
pub open spec fn fan_from<R: Rule>(
    vs: Seq<R::V>,
    reps: Seq<ReportV>,
    path: Seq<NodeHandle>,
    node: HookNode,
    i: int,
) -> (Seq<R::V>, Seq<ReportV>)
    decreases vs.len() - i,
{
    if i < 0 || i >= vs.len() {
        (vs, reps)
    } else {
        fan_from::<R>(
            vs.update(i, R::step(vs[i], path, node)),
            reps + R::emits(vs[i], path, node),
            path,
            node,
            i + 1,
        )
    }
}

/// One hook point fanned out over all rules, first registered first.
pub open spec fn fan<R: Rule>(
    vs: Seq<R::V>,
    reps: Seq<ReportV>,
    path: Seq<NodeHandle>,
    node: HookNode,
) -> (Seq<R::V>, Seq<ReportV>) {
    fan_from::<R>(vs, reps, path, node, 0)
}

/// A whole visit trace folded over the rule states and the report log:
/// hooked records fan out to every rule, unhooked records change nothing.
pub open spec fn run_rec<R: Rule>(
    vs: Seq<R::V>,
    reps: Seq<ReportV>,
    tr: Seq<VisitRec>,
) -> (Seq<R::V>, Seq<ReportV>)
    decreases tr.len(),
{
    if tr.len() == 0 {
        (vs, reps)
    } else {
        let st = match tr[0].hook {
            Option::Some(hn) => fan::<R>(vs, reps, tr[0].path, hn),
            Option::None => (vs, reps),
        };
        run_rec::<R>(st.0, st.1, tr.drop_first())
    }
}

/// Fanning out one hook neither adds nor drops rules.
pub proof fn lemma_fan_from_len<R: Rule>(
    vs: Seq<R::V>,
    reps: Seq<ReportV>,
    path: Seq<NodeHandle>,
    node: HookNode,
    i: int,
)
    ensures
        fan_from::<R>(vs, reps, path, node, i).0.len() == vs.len(),
    decreases vs.len() - i,
{
    if 0 <= i < vs.len() {
        lemma_fan_from_len::<R>(
            vs.update(i, R::step(vs[i], path, node)),
            reps + R::emits(vs[i], path, node),
            path,
            node,
            i + 1,
        );
    }
}

/// Running a trace neither adds nor drops rules.
pub proof fn lemma_run_rec_len<R: Rule>(vs: Seq<R::V>, reps: Seq<ReportV>, tr: Seq<VisitRec>)
    ensures
        run_rec::<R>(vs, reps, tr).0.len() == vs.len(),
    decreases tr.len(),
{
    if tr.len() > 0 {
        match tr[0].hook {
            Option::Some(hn) => {
                lemma_fan_from_len::<R>(vs, reps, tr[0].path, hn, 0);
                let st = fan::<R>(vs, reps, tr[0].path, hn);
                lemma_run_rec_len::<R>(st.0, st.1, tr.drop_first());
            },
            Option::None => {
                lemma_run_rec_len::<R>(vs, reps, tr.drop_first());
            },
        }
    }
}

/// Running a concatenated trace is running the first part, then the second.
pub proof fn lemma_run_rec_add<R: Rule>(
    vs: Seq<R::V>,
    reps: Seq<ReportV>,
    a: Seq<VisitRec>,
    b: Seq<VisitRec>,
)
    ensures
        run_rec::<R>(vs, reps, a + b) == ({
            let st = run_rec::<R>(vs, reps, a);
            run_rec::<R>(st.0, st.1, b)
        }),
    decreases a.len(),
{
    if a.len() == 0 {
        assert(a + b =~= b);
    } else {
        assert((a + b)[0] == a[0]);
        assert((a + b).drop_first() =~= a.drop_first() + b);
        match a[0].hook {
            Option::Some(hn) => {
                let st = fan::<R>(vs, reps, a[0].path, hn);
                lemma_run_rec_add::<R>(st.0, st.1, a.drop_first(), b);
            },
            Option::None => {
                lemma_run_rec_add::<R>(vs, reps, a.drop_first(), b);
            },
        }
    }
}

/// Running a one-record trace: a fan-out for a hooked record, nothing
/// otherwise.
pub proof fn lemma_run_rec_one<R: Rule>(vs: Seq<R::V>, reps: Seq<ReportV>, rec: VisitRec)
    ensures
        run_rec::<R>(vs, reps, seq![rec]) == match rec.hook {
            Option::Some(hn) => fan::<R>(vs, reps, rec.path, hn),
            Option::None => (vs, reps),
        },
{
    let tr = seq![rec];
    assert(tr.drop_first() =~= Seq::<VisitRec>::empty());
    match rec.hook {
        Option::Some(hn) => {
            let st = fan::<R>(vs, reps, rec.path, hn);
            assert(run_rec::<R>(st.0, st.1, tr.drop_first()) == st);
        },
        Option::None => {
            assert(run_rec::<R>(vs, reps, tr.drop_first()) == (vs, reps));
        },
    }
}

/// Pre-order visit of the element run `s.skip(i)`, split at its head.
proof fn lemma_trace_items_skip(path: Seq<NodeHandle>, items: Seq<Item>, i: int)
    requires
        0 <= i < items.len(),
    ensures
        trace_items(path, items.skip(i)) == trace_item(path, items[i]) + trace_items(
            path,
            items.skip(i + 1),
        ),
{
    assert(items.skip(i)[0] == items[i]);
    assert(items.skip(i).drop_first() =~= items.skip(i + 1));
}

/// Pre-order visit of the statement run `s.skip(i)`, split at its head.
proof fn lemma_trace_stmts_skip(path: Seq<NodeHandle>, stmts: Seq<Stmt>, i: int)
    requires
        0 <= i < stmts.len(),
    ensures
        trace_stmts(path, stmts.skip(i)) == trace_stmt(path, stmts[i]) + trace_stmts(
            path,
            stmts.skip(i + 1),
        ),
{
    assert(stmts.skip(i)[0] == stmts[i]);
    assert(stmts.skip(i).drop_first() =~= stmts.skip(i + 1));
}

/// Pre-order visit of the expression run `s.skip(i)`, split at its head.
proof fn lemma_trace_exprs_skip(path: Seq<NodeHandle>, es: Seq<Expr>, i: int)
    requires
        0 <= i < es.len(),
    ensures
        trace_exprs(path, es.skip(i)) == trace_expr(path, es[i]) + trace_exprs(
            path,
            es.skip(i + 1),
        ),
{
    assert(es.skip(i)[0] == es[i]);
    assert(es.skip(i).drop_first() =~= es.skip(i + 1));
}

/// Pre-order visit of the argument run `s.skip(i)`, split at its head.
proof fn lemma_trace_fn_args_skip(path: Seq<NodeHandle>, args: Seq<FnArg>, i: int)
    requires
        0 <= i < args.len(),
    ensures
        trace_fn_args(path, args.skip(i)) == trace_fn_arg(path, args[i]) + trace_fn_args(
            path,
            args.skip(i + 1),
        ),
{
    assert(args.skip(i)[0] == args[i]);
    assert(args.skip(i).drop_first() =~= args.skip(i + 1));
}

/// Owns the ordered rule registry and the shared context, and runs full
/// traversals. Rules are added before a traversal starts; one `apply_rules`
/// call walks one tree to completion.
pub struct RuleEngine<R: Rule> {
    pub rules: Vec<R>,
    pub context: RuleContext,
}

impl<R: Rule> RuleEngine<R> {
    /// The views of the registered rules' states, in registration order.
    pub open spec fn rule_views(&self) -> Seq<R::V> {
        self.rules@.map_values(|r: R| r@)
    }

    /// The views of the reports collected so far, in emission order.
    pub open spec fn report_vs(&self) -> Seq<ReportV> {
        crate::report::report_views(self.context.reports@)
    }

    /// An engine with no rules, an empty ancestor stack, no reports and an
    /// empty visit trace.
    pub fn new() -> (e: RuleEngine<R>)
        ensures
            e.rules@ == Seq::<R>::empty(),
            e.context.ancestors@ == Seq::<NodeHandle>::empty(),
            e.context.reports@.len() == 0,
            e.context.visits@ == Seq::<VisitRec>::empty(),
    {
        RuleEngine { rules: Vec::new(), context: RuleContext::new() }
    }

    /// Appends a rule to the registry. Valid only between traversals; the
    /// context is left untouched.
    pub fn add_rule(&mut self, rule: R)
        ensures
            final(self).rules@ == old(self).rules@.push(rule),
            final(self).context == old(self).context,
    {
        self.rules.push(rule);
    }

    /// Invokes every registered rule's function-item hook on `node`, in
    /// registration order.
    fn fan_item_fn(&mut self, node: &ItemFn)
        ensures
            final(self).context.ancestors@ == old(self).context.ancestors@,
            final(self).context.visits@ == old(self).context.visits@,
            final(self).rules@.len() == old(self).rules@.len(),
            (final(self).rule_views(), final(self).report_vs()) == fan::<R>(
                old(self).rule_views(),
                old(self).report_vs(),
                old(self).context.ancestors@,
                HookNode::ItemFn(*node),
            ),
    {
        let ghost hn = HookNode::ItemFn(*node);
        let ghost path = self.context.ancestors@;
        let ghost vis0 = self.context.visits@;
        let ghost vs0 = self.rule_views();
        let ghost reps0 = self.report_vs();
        let n = self.rules.len();
        let mut i: usize = 0;
        while i < n
            invariant
                i <= n,
                n == self.rules@.len(),
                self.context.ancestors@ == path,
                self.context.visits@ == vis0,
                hn == HookNode::ItemFn(*node),
                fan_from::<R>(vs0, reps0, path, hn, 0) == fan_from::<R>(
                    self.rule_views(),
                    self.report_vs(),
                    path,
                    hn,
                    i as int,
                ),
            decreases n - i,
        {
            let ghost rules_i = self.rules@;
            let ghost vs_i = self.rule_views();
            let ghost reps_i = self.report_vs();
            let mut r = self.rules.remove(i);
            let ghost r0 = r;
            r.apply_item_fn(&mut self.context, node);
            self.rules.insert(i, r);
            proof {
                assert(r0 == rules_i[i as int]);
                assert(vs_i[i as int] == rules_i[i as int]@);
                assert(r0@ == vs_i[i as int]);
                assert(r@ == R::step(vs_i[i as int], path, hn));
                assert(self.rules@ =~= rules_i.update(i as int, r));
                let vs_new = vs_i.update(i as int, R::step(vs_i[i as int], path, hn));
                assert forall|j: int| 0 <= j < vs_i.len() implies #[trigger] self.rule_views()[j]
                    == vs_new[j] by {
                    assert(self.rule_views()[j] == self.rules@[j]@);
                    assert(vs_i[j] == rules_i[j]@);
                    if j == i as int {
                        assert(self.rules@[j] == r);
                    } else {
                        assert(self.rules@[j] == rules_i[j]);
                    }
                }
                assert(self.rule_views() =~= vs_new);
                assert(self.report_vs() == reps_i + R::emits(vs_i[i as int], path, hn));
                assert(fan_from::<R>(vs_i, reps_i, path, hn, i as int) == fan_from::<R>(
                    self.rule_views(),
                    self.report_vs(),
                    path,
                    hn,
                    i as int + 1,
                ));
            }
            i = i + 1;
        }
        proof {
            assert(fan_from::<R>(self.rule_views(), self.report_vs(), path, hn, n as int)
                == (self.rule_views(), self.report_vs()));
        }
    }

    /// Invokes every registered rule's function-argument hook on `node`, in
    /// registration order.
    fn fan_fn_arg(&mut self, node: &FnArg)
        ensures
            final(self).context.ancestors@ == old(self).context.ancestors@,
            final(self).context.visits@ == old(self).context.visits@,
            final(self).rules@.len() == old(self).rules@.len(),
            (final(self).rule_views(), final(self).report_vs()) == fan::<R>(
                old(self).rule_views(),
                old(self).report_vs(),
                old(self).context.ancestors@,
                HookNode::FnArg(*node),
            ),
    {
        let ghost hn = HookNode::FnArg(*node);
        let ghost path = self.context.ancestors@;
        let ghost vis0 = self.context.visits@;
        let ghost vs0 = self.rule_views();
        let ghost reps0 = self.report_vs();
        let n = self.rules.len();
        let mut i: usize = 0;
        while i < n
            invariant
                i <= n,
                n == self.rules@.len(),
                self.context.ancestors@ == path,
                self.context.visits@ == vis0,
                hn == HookNode::FnArg(*node),
                fan_from::<R>(vs0, reps0, path, hn, 0) == fan_from::<R>(
                    self.rule_views(),
                    self.report_vs(),
                    path,
                    hn,
                    i as int,
                ),
            decreases n - i,
        {
            let ghost rules_i = self.rules@;
            let ghost vs_i = self.rule_views();
            let ghost reps_i = self.report_vs();
            let mut r = self.rules.remove(i);
            let ghost r0 = r;
            r.apply_fn_arg(&mut self.context, node);
            self.rules.insert(i, r);
            proof {
                assert(r0 == rules_i[i as int]);
                assert(vs_i[i as int] == rules_i[i as int]@);
                assert(r0@ == vs_i[i as int]);
                assert(r@ == R::step(vs_i[i as int], path, hn));
                assert(self.rules@ =~= rules_i.update(i as int, r));
                let vs_new = vs_i.update(i as int, R::step(vs_i[i as int], path, hn));
                assert forall|j: int| 0 <= j < vs_i.len() implies #[trigger] self.rule_views()[j]
                    == vs_new[j] by {
                    assert(self.rule_views()[j] == self.rules@[j]@);
                    assert(vs_i[j] == rules_i[j]@);
                    if j == i as int {
                        assert(self.rules@[j] == r);
                    } else {
                        assert(self.rules@[j] == rules_i[j]);
                    }
                }
                assert(self.rule_views() =~= vs_new);
                assert(self.report_vs() == reps_i + R::emits(vs_i[i as int], path, hn));
                assert(fan_from::<R>(vs_i, reps_i, path, hn, i as int) == fan_from::<R>(
                    self.rule_views(),
                    self.report_vs(),
                    path,
                    hn,
                    i as int + 1,
                ));
            }
            i = i + 1;
        }
        proof {
            assert(fan_from::<R>(self.rule_views(), self.report_vs(), path, hn, n as int)
                == (self.rule_views(), self.report_vs()));
        }
    }

    /// Invokes every registered rule's constant-item hook on `node`, in
    /// registration order.
    fn fan_item_const(&mut self, node: &ItemConst)
        ensures
            final(self).context.ancestors@ == old(self).context.ancestors@,
            final(self).context.visits@ == old(self).context.visits@,
            final(self).rules@.len() == old(self).rules@.len(),
            (final(self).rule_views(), final(self).report_vs()) == fan::<R>(
                old(self).rule_views(),
                old(self).report_vs(),
                old(self).context.ancestors@,
                HookNode::ItemConst(*node),
            ),
    {
        let ghost hn = HookNode::ItemConst(*node);
        let ghost path = self.context.ancestors@;
        let ghost vis0 = self.context.visits@;
        let ghost vs0 = self.rule_views();
        let ghost reps0 = self.report_vs();
        let n = self.rules.len();
        let mut i: usize = 0;
        while i < n
            invariant
                i <= n,
                n == self.rules@.len(),
                self.context.ancestors@ == path,
                self.context.visits@ == vis0,
                hn == HookNode::ItemConst(*node),
                fan_from::<R>(vs0, reps0, path, hn, 0) == fan_from::<R>(
                    self.rule_views(),
                    self.report_vs(),
                    path,
                    hn,
                    i as int,
                ),
            decreases n - i,
        {
            let ghost rules_i = self.rules@;
            let ghost vs_i = self.rule_views();
            let ghost reps_i = self.report_vs();
            let mut r = self.rules.remove(i);
            let ghost r0 = r;
            r.apply_item_const(&mut self.context, node);
            self.rules.insert(i, r);
            proof {
                assert(r0 == rules_i[i as int]);
                assert(vs_i[i as int] == rules_i[i as int]@);
                assert(r0@ == vs_i[i as int]);
                assert(r@ == R::step(vs_i[i as int], path, hn));
                assert(self.rules@ =~= rules_i.update(i as int, r));
                let vs_new = vs_i.update(i as int, R::step(vs_i[i as int], path, hn));
                assert forall|j: int| 0 <= j < vs_i.len() implies #[trigger] self.rule_views()[j]
                    == vs_new[j] by {
                    assert(self.rule_views()[j] == self.rules@[j]@);
                    assert(vs_i[j] == rules_i[j]@);
                    if j == i as int {
                        assert(self.rules@[j] == r);
                    } else {
                        assert(self.rules@[j] == rules_i[j]);
                    }
                }
                assert(self.rule_views() =~= vs_new);
                assert(self.report_vs() == reps_i + R::emits(vs_i[i as int], path, hn));
                assert(fan_from::<R>(vs_i, reps_i, path, hn, i as int) == fan_from::<R>(
                    self.rule_views(),
                    self.report_vs(),
                    path,
                    hn,
                    i as int + 1,
                ));
            }
            i = i + 1;
        }
        proof {
            assert(fan_from::<R>(self.rule_views(), self.report_vs(), path, hn, n as int)
                == (self.rule_views(), self.report_vs()));
        }
    }

    /// Invokes every registered rule's let-binding hook on `node`, in
    /// registration order.
    fn fan_local(&mut self, node: &Local)
        ensures
            final(self).context.ancestors@ == old(self).context.ancestors@,
            final(self).context.visits@ == old(self).context.visits@,
            final(self).rules@.len() == old(self).rules@.len(),
            (final(self).rule_views(), final(self).report_vs()) == fan::<R>(
                old(self).rule_views(),
                old(self).report_vs(),
                old(self).context.ancestors@,
                HookNode::Local(*node),
            ),
    {
        let ghost hn = HookNode::Local(*node);
        let ghost path = self.context.ancestors@;
        let ghost vis0 = self.context.visits@;
        let ghost vs0 = self.rule_views();
        let ghost reps0 = self.report_vs();
        let n = self.rules.len();
        let mut i: usize = 0;
        while i < n
            invariant
                i <= n,
                n == self.rules@.len(),
                self.context.ancestors@ == path,
                self.context.visits@ == vis0,
                hn == HookNode::Local(*node),
                fan_from::<R>(vs0, reps0, path, hn, 0) == fan_from::<R>(
                    self.rule_views(),
                    self.report_vs(),
                    path,
                    hn,
                    i as int,
                ),
            decreases n - i,
        {
            let ghost rules_i = self.rules@;
            let ghost vs_i = self.rule_views();
            let ghost reps_i = self.report_vs();
            let mut r = self.rules.remove(i);
            let ghost r0 = r;
            r.apply_local(&mut self.context, node);
            self.rules.insert(i, r);
            proof {
                assert(r0 == rules_i[i as int]);
                assert(vs_i[i as int] == rules_i[i as int]@);
                assert(r0@ == vs_i[i as int]);
                assert(r@ == R::step(vs_i[i as int], path, hn));
                assert(self.rules@ =~= rules_i.update(i as int, r));
                let vs_new = vs_i.update(i as int, R::step(vs_i[i as int], path, hn));
                assert forall|j: int| 0 <= j < vs_i.len() implies #[trigger] self.rule_views()[j]
                    == vs_new[j] by {
                    assert(self.rule_views()[j] == self.rules@[j]@);
                    assert(vs_i[j] == rules_i[j]@);
                    if j == i as int {
                        assert(self.rules@[j] == r);
                    } else {
                        assert(self.rules@[j] == rules_i[j]);
                    }
                }
                assert(self.rule_views() =~= vs_new);
                assert(self.report_vs() == reps_i + R::emits(vs_i[i as int], path, hn));
                assert(fan_from::<R>(vs_i, reps_i, path, hn, i as int) == fan_from::<R>(
                    self.rule_views(),
                    self.report_vs(),
                    path,
                    hn,
                    i as int + 1,
                ));
            }
            i = i + 1;
        }
        proof {
            assert(fan_from::<R>(self.rule_views(), self.report_vs(), path, hn, n as int)
                == (self.rule_views(), self.report_vs()));
        }
    }

    /// Invokes every registered rule's method-call hook on `node`, in
    /// registration order.
    fn fan_expr_method_call(&mut self, node: &ExprMethodCall)
        ensures
            final(self).context.ancestors@ == old(self).context.ancestors@,
            final(self).context.visits@ == old(self).context.visits@,
            final(self).rules@.len() == old(self).rules@.len(),
            (final(self).rule_views(), final(self).report_vs()) == fan::<R>(
                old(self).rule_views(),
                old(self).report_vs(),
                old(self).context.ancestors@,
                HookNode::MethodCall(*node),
            ),
    {
        let ghost hn = HookNode::MethodCall(*node);
        let ghost path = self.context.ancestors@;
        let ghost vis0 = self.context.visits@;
        let ghost vs0 = self.rule_views();
        let ghost reps0 = self.report_vs();
        let n = self.rules.len();
        let mut i: usize = 0;
        while i < n
            invariant
                i <= n,
                n == self.rules@.len(),
                self.context.ancestors@ == path,
                self.context.visits@ == vis0,
                hn == HookNode::MethodCall(*node),
                fan_from::<R>(vs0, reps0, path, hn, 0) == fan_from::<R>(
                    self.rule_views(),
                    self.report_vs(),
                    path,
                    hn,
                    i as int,
                ),
            decreases n - i,
        {
            let ghost rules_i = self.rules@;
            let ghost vs_i = self.rule_views();
            let ghost reps_i = self.report_vs();
            let mut r = self.rules.remove(i);
            let ghost r0 = r;
            r.apply_expr_method_call(&mut self.context, node);
            self.rules.insert(i, r);
            proof {
                assert(r0 == rules_i[i as int]);
                assert(vs_i[i as int] == rules_i[i as int]@);
                assert(r0@ == vs_i[i as int]);
                assert(r@ == R::step(vs_i[i as int], path, hn));
                assert(self.rules@ =~= rules_i.update(i as int, r));
                let vs_new = vs_i.update(i as int, R::step(vs_i[i as int], path, hn));
                assert forall|j: int| 0 <= j < vs_i.len() implies #[trigger] self.rule_views()[j]
                    == vs_new[j] by {
                    assert(self.rule_views()[j] == self.rules@[j]@);
                    assert(vs_i[j] == rules_i[j]@);
                    if j == i as int {
                        assert(self.rules@[j] == r);
                    } else {
                        assert(self.rules@[j] == rules_i[j]);
                    }
                }
                assert(self.rule_views() =~= vs_new);
                assert(self.report_vs() == reps_i + R::emits(vs_i[i as int], path, hn));
                assert(fan_from::<R>(vs_i, reps_i, path, hn, i as int) == fan_from::<R>(
                    self.rule_views(),
                    self.report_vs(),
                    path,
                    hn,
                    i as int + 1,
                ));
            }
            i = i + 1;
        }
        proof {
            assert(fan_from::<R>(self.rule_views(), self.report_vs(), path, hn, n as int)
                == (self.rule_views(), self.report_vs()));
        }
    }

    /// Invokes every registered rule's binary-expression hook on `node`, in
    /// registration order.
    fn fan_expr_binary(&mut self, node: &ExprBinary)
        ensures
            final(self).context.ancestors@ == old(self).context.ancestors@,
            final(self).context.visits@ == old(self).context.visits@,
            final(self).rules@.len() == old(self).rules@.len(),
            (final(self).rule_views(), final(self).report_vs()) == fan::<R>(
                old(self).rule_views(),
                old(self).report_vs(),
                old(self).context.ancestors@,
                HookNode::Binary(*node),
            ),
    {
        let ghost hn = HookNode::Binary(*node);
        let ghost path = self.context.ancestors@;
        let ghost vis0 = self.context.visits@;
        let ghost vs0 = self.rule_views();
        let ghost reps0 = self.report_vs();
        let n = self.rules.len();
        let mut i: usize = 0;
        while i < n
            invariant
                i <= n,
                n == self.rules@.len(),
                self.context.ancestors@ == path,
                self.context.visits@ == vis0,
                hn == HookNode::Binary(*node),
                fan_from::<R>(vs0, reps0, path, hn, 0) == fan_from::<R>(
                    self.rule_views(),
                    self.report_vs(),
                    path,
                    hn,
                    i as int,
                ),
            decreases n - i,
        {
            let ghost rules_i = self.rules@;
            let ghost vs_i = self.rule_views();
            let ghost reps_i = self.report_vs();
            let mut r = self.rules.remove(i);
            let ghost r0 = r;
            r.apply_expr_binary(&mut self.context, node);
            self.rules.insert(i, r);
            proof {
                assert(r0 == rules_i[i as int]);
                assert(vs_i[i as int] == rules_i[i as int]@);
                assert(r0@ == vs_i[i as int]);
                assert(r@ == R::step(vs_i[i as int], path, hn));
                assert(self.rules@ =~= rules_i.update(i as int, r));
                let vs_new = vs_i.update(i as int, R::step(vs_i[i as int], path, hn));
                assert forall|j: int| 0 <= j < vs_i.len() implies #[trigger] self.rule_views()[j]
                    == vs_new[j] by {
                    assert(self.rule_views()[j] == self.rules@[j]@);
                    assert(vs_i[j] == rules_i[j]@);
                    if j == i as int {
                        assert(self.rules@[j] == r);
                    } else {
                        assert(self.rules@[j] == rules_i[j]);
                    }
                }
                assert(self.rule_views() =~= vs_new);
                assert(self.report_vs() == reps_i + R::emits(vs_i[i as int], path, hn));
                assert(fan_from::<R>(vs_i, reps_i, path, hn, i as int) == fan_from::<R>(
                    self.rule_views(),
                    self.report_vs(),
                    path,
                    hn,
                    i as int + 1,
                ));
            }
            i = i + 1;
        }
        proof {
            assert(fan_from::<R>(self.rule_views(), self.report_vs(), path, hn, n as int)
                == (self.rule_views(), self.report_vs()));
        }
    }

    /// Enters a type annotation: a leaf, no children, no hooks.
    fn walk_ty(&mut self, t: &Ty)
        ensures
            final(self).context.ancestors@ == old(self).context.ancestors@,
            final(self).rules@.len() == old(self).rules@.len(),
            final(self).context.visits@ == old(self).context.visits@ + trace_ty(
                old(self).context.ancestors@,
                *t,
            ),
            (final(self).rule_views(), final(self).report_vs()) == run_rec::<R>(
                old(self).rule_views(),
                old(self).report_vs(),
                trace_ty(old(self).context.ancestors@, *t),
            ),
    {
        let ghost path = self.context.ancestors@;
        let ghost vs0 = self.rule_views();
        let ghost reps0 = self.report_vs();
        let ghost vis0 = self.context.visits@;
        let h = NodeHandle { kind: Kind::Ty, span: t.span };
        let ghost rec = VisitRec { node: h, path, hook: None };
        self.context.visits = Ghost(self.context.visits@.push(rec));
        proof {
            assert(vis0.push(rec) =~= vis0 + trace_ty(path, *t));
            lemma_run_rec_one::<R>(vs0, reps0, rec);
            assert(trace_ty(path, *t) =~= seq![rec]);
        }
    }

    /// Enters a function argument: hooks fire, then its type is visited
    /// under the argument's handle.
    fn walk_fn_arg(&mut self, a: &FnArg)
        ensures
            final(self).context.ancestors@ == old(self).context.ancestors@,
            final(self).rules@.len() == old(self).rules@.len(),
            final(self).context.visits@ == old(self).context.visits@ + trace_fn_arg(
                old(self).context.ancestors@,
                *a,
            ),
            (final(self).rule_views(), final(self).report_vs()) == run_rec::<R>(
                old(self).rule_views(),
                old(self).report_vs(),
                trace_fn_arg(old(self).context.ancestors@, *a),
            ),
    {
        let ghost path = self.context.ancestors@;
        let ghost vs0 = self.rule_views();
        let ghost reps0 = self.report_vs();
        let ghost vis0 = self.context.visits@;
        let h = NodeHandle { kind: Kind::FnArg, span: a.span };
        let ghost rec = VisitRec { node: h, path, hook: Some(HookNode::FnArg(*a)) };
        self.context.visits = Ghost(self.context.visits@.push(rec));
        self.fan_fn_arg(a);
        let ghost st1 = (self.rule_views(), self.report_vs());
        self.context.ancestors.push(h);
        self.walk_ty(&a.ty);
        let _ = self.context.ancestors.pop();
        proof {
            let child = trace_ty(path.push(h), a.ty);
            assert(path.push(h).subrange(0, path.len() as int) =~= path);
            lemma_run_rec_one::<R>(vs0, reps0, rec);
            lemma_run_rec_add::<R>(vs0, reps0, seq![rec], child);
            assert(trace_fn_arg(path, *a) == seq![rec] + child);
            assert(vis0.push(rec) + child =~= vis0 + (seq![rec] + child));
        }
    }

    /// Enters each function argument in source order.
    fn walk_fn_args(&mut self, args: &Vec<FnArg>)
        ensures
            final(self).context.ancestors@ == old(self).context.ancestors@,
            final(self).rules@.len() == old(self).rules@.len(),
            final(self).context.visits@ == old(self).context.visits@ + trace_fn_args(
                old(self).context.ancestors@,
                args@,
            ),
            (final(self).rule_views(), final(self).report_vs()) == run_rec::<R>(
                old(self).rule_views(),
                old(self).report_vs(),
                trace_fn_args(old(self).context.ancestors@, args@),
            ),
    {
        let ghost path = self.context.ancestors@;
        let ghost vs0 = self.rule_views();
        let ghost reps0 = self.report_vs();
        let ghost vis0 = self.context.visits@;
        let ghost nr = self.rules@.len();
        let n = args.len();
        let mut i: usize = 0;
        proof {
            assert(args@.skip(0) =~= args@);
        }
        while i < n
            invariant
                i <= n,
                n == args@.len(),
                self.context.ancestors@ == path,
                self.rules@.len() == nr,
                self.context.visits@ + trace_fn_args(path, args@.skip(i as int)) == vis0
                    + trace_fn_args(path, args@),
                run_rec::<R>(vs0, reps0, trace_fn_args(path, args@)) == run_rec::<R>(
                    self.rule_views(),
                    self.report_vs(),
                    trace_fn_args(path, args@.skip(i as int)),
                ),
            decreases n - i,
        {
            proof {
                lemma_trace_fn_args_skip(path, args@, i as int);
            }
            let ghost vs_i = self.rule_views();
            let ghost reps_i = self.report_vs();
            let ghost vis_i = self.context.visits@;
            self.walk_fn_arg(&args[i]);
            proof {
                let head = trace_fn_arg(path, args@[i as int]);
                let rest = trace_fn_args(path, args@.skip(i as int + 1));
                lemma_run_rec_add::<R>(vs_i, reps_i, head, rest);
                assert((vis_i + head) + rest =~= vis_i + (head + rest));
            }
            i = i + 1;
        }
        proof {
            assert(args@.skip(n as int) =~= Seq::<FnArg>::empty());
            assert(self.context.visits@ + trace_fn_args(path, args@.skip(n as int))
                =~= self.context.visits@);
        }
    }

    /// Enters an item: for functions and constants the hooks fire first,
    /// then every child is visited under the item's handle.
    fn walk_item(&mut self, item: &Item)
        ensures
            final(self).context.ancestors@ == old(self).context.ancestors@,
            final(self).rules@.len() == old(self).rules@.len(),
            final(self).context.visits@ == old(self).context.visits@ + trace_item(
                old(self).context.ancestors@,
                *item,
            ),
            (final(self).rule_views(), final(self).report_vs()) == run_rec::<R>(
                old(self).rule_views(),
                old(self).report_vs(),
                trace_item(old(self).context.ancestors@, *item),
            ),
        decreases item,
    {
        let ghost path = self.context.ancestors@;
        let ghost vs0 = self.rule_views();
        let ghost reps0 = self.report_vs();
        let ghost vis0 = self.context.visits@;
        match item {
            Item::Fn(f) => {
                let h = NodeHandle { kind: Kind::ItemFn, span: f.span };
                let ghost rec = VisitRec { node: h, path, hook: Some(HookNode::ItemFn(*f)) };
                self.context.visits = Ghost(self.context.visits@.push(rec));
                self.fan_item_fn(f);
                self.context.ancestors.push(h);
                self.walk_fn_args(&f.args);
                match &f.ret {
                    Some(t) => self.walk_ty(t),
                    None => (),
                }
                self.walk_block(&f.body);
                let _ = self.context.ancestors.pop();
                proof {
                    let args_t = trace_fn_args(path.push(h), f.args@);
                    let ret_t = trace_opt_ty(path.push(h), f.ret);
                    let body_t = trace_block(path.push(h), f.body);
                    assert(path.push(h).subrange(0, path.len() as int) =~= path);
                    lemma_run_rec_one::<R>(vs0, reps0, rec);
                    lemma_run_rec_add::<R>(vs0, reps0, seq![rec], args_t);
                    lemma_run_rec_add::<R>(vs0, reps0, seq![rec] + args_t, ret_t);
                    lemma_run_rec_add::<R>(vs0, reps0, (seq![rec] + args_t) + ret_t, body_t);
                    assert(trace_item(path, *item) == ((seq![rec] + args_t) + ret_t) + body_t);
                    assert(((vis0.push(rec) + args_t) + ret_t) + body_t =~= vis0 + (((
                    seq![rec] + args_t) + ret_t) + body_t));
                    if f.ret is None {
                        assert(self.context.visits@ =~= (vis0.push(rec) + args_t) + body_t);
                        assert((vis0.push(rec) + args_t) + ret_t =~= vis0.push(rec) + args_t);
                    }
                }
            },
            Item::Const(c) => {
                let h = NodeHandle { kind: Kind::ItemConst, span: c.span };
                let ghost rec = VisitRec { node: h, path, hook: Some(HookNode::ItemConst(*c)) };
                self.context.visits = Ghost(self.context.visits@.push(rec));
                self.fan_item_const(c);
                self.context.ancestors.push(h);
                self.walk_ty(&c.ty);
                self.walk_expr(&c.value);
                let _ = self.context.ancestors.pop();
                proof {
                    let ty_t = trace_ty(path.push(h), c.ty);
                    let val_t = trace_expr(path.push(h), c.value);
                    assert(path.push(h).subrange(0, path.len() as int) =~= path);
                    lemma_run_rec_one::<R>(vs0, reps0, rec);
                    lemma_run_rec_add::<R>(vs0, reps0, seq![rec], ty_t);
                    lemma_run_rec_add::<R>(vs0, reps0, seq![rec] + ty_t, val_t);
                    assert(trace_item(path, *item) == (seq![rec] + ty_t) + val_t);
                    assert((vis0.push(rec) + ty_t) + val_t =~= vis0 + ((seq![rec] + ty_t)
                        + val_t));
                }
            },
            Item::Mod(m) => {
                let h = NodeHandle { kind: Kind::ItemMod, span: m.span };
                let ghost rec = VisitRec { node: h, path, hook: None };
                self.context.visits = Ghost(self.context.visits@.push(rec));
                self.context.ancestors.push(h);
                self.walk_items(&m.items);
                let _ = self.context.ancestors.pop();
                proof {
                    let inner = trace_items(path.push(h), m.items@);
                    assert(path.push(h).subrange(0, path.len() as int) =~= path);
                    lemma_run_rec_one::<R>(vs0, reps0, rec);
                    lemma_run_rec_add::<R>(vs0, reps0, seq![rec], inner);
                    assert(trace_item(path, *item) == seq![rec] + inner);
                    assert(vis0.push(rec) + inner =~= vis0 + (seq![rec] + inner));
                }
            },
        }
    }

    /// Enters each item in source order.
    fn walk_items(&mut self, items: &Vec<Item>)
        ensures
            final(self).context.ancestors@ == old(self).context.ancestors@,
            final(self).rules@.len() == old(self).rules@.len(),
            final(self).context.visits@ == old(self).context.visits@ + trace_items(
                old(self).context.ancestors@,
                items@,
            ),
            (final(self).rule_views(), final(self).report_vs()) == run_rec::<R>(
                old(self).rule_views(),
                old(self).report_vs(),
                trace_items(old(self).context.ancestors@, items@),
            ),
        decreases items@,
    {
        let ghost path = self.context.ancestors@;
        let ghost vs0 = self.rule_views();
        let ghost reps0 = self.report_vs();
        let ghost vis0 = self.context.visits@;
        let ghost nr = self.rules@.len();
        let n = items.len();
        let mut i: usize = 0;
        proof {
            assert(items@.skip(0) =~= items@);
        }
        while i < n
            invariant
                i <= n,
                n == items@.len(),
                self.context.ancestors@ == path,
                self.rules@.len() == nr,
                self.context.visits@ + trace_items(path, items@.skip(i as int)) == vis0
                    + trace_items(path, items@),
                run_rec::<R>(vs0, reps0, trace_items(path, items@)) == run_rec::<R>(
                    self.rule_views(),
                    self.report_vs(),
                    trace_items(path, items@.skip(i as int)),
                ),
            decreases n - i,
        {
            proof {
                lemma_trace_items_skip(path, items@, i as int);
            }
            let ghost vs_i = self.rule_views();
            let ghost reps_i = self.report_vs();
            let ghost vis_i = self.context.visits@;
            self.walk_item(&items[i]);
            proof {
                let head = trace_item(path, items@[i as int]);
                let rest = trace_items(path, items@.skip(i as int + 1));
                lemma_run_rec_add::<R>(vs_i, reps_i, head, rest);
                assert((vis_i + head) + rest =~= vis_i + (head + rest));
            }
            i = i + 1;
        }
        proof {
            assert(items@.skip(n as int) =~= Seq::<Item>::empty());
            assert(self.context.visits@ + trace_items(path, items@.skip(n as int))
                =~= self.context.visits@);
        }
    }

    /// Enters a block, then each of its statements under the block's handle.
    fn walk_block(&mut self, b: &Block)
        ensures
            final(self).context.ancestors@ == old(self).context.ancestors@,
            final(self).rules@.len() == old(self).rules@.len(),
            final(self).context.visits@ == old(self).context.visits@ + trace_block(
                old(self).context.ancestors@,
                *b,
            ),
            (final(self).rule_views(), final(self).report_vs()) == run_rec::<R>(
                old(self).rule_views(),
                old(self).report_vs(),
                trace_block(old(self).context.ancestors@, *b),
            ),
        decreases b,
    {
        let ghost path = self.context.ancestors@;
        let ghost vs0 = self.rule_views();
        let ghost reps0 = self.report_vs();
        let ghost vis0 = self.context.visits@;
        let h = NodeHandle { kind: Kind::Block, span: b.span };
        let ghost rec = VisitRec { node: h, path, hook: None };
        self.context.visits = Ghost(self.context.visits@.push(rec));
        self.context.ancestors.push(h);
        self.walk_stmts(&b.stmts);
        let _ = self.context.ancestors.pop();
        proof {
            let inner = trace_stmts(path.push(h), b.stmts@);
            assert(path.push(h).subrange(0, path.len() as int) =~= path);
            lemma_run_rec_one::<R>(vs0, reps0, rec);
            lemma_run_rec_add::<R>(vs0, reps0, seq![rec], inner);
            assert(trace_block(path, *b) == seq![rec] + inner);
            assert(vis0.push(rec) + inner =~= vis0 + (seq![rec] + inner));
        }
    }

    /// Enters each statement in source order.
    fn walk_stmts(&mut self, stmts: &Vec<Stmt>)
        ensures
            final(self).context.ancestors@ == old(self).context.ancestors@,
            final(self).rules@.len() == old(self).rules@.len(),
            final(self).context.visits@ == old(self).context.visits@ + trace_stmts(
                old(self).context.ancestors@,
                stmts@,
            ),
            (final(self).rule_views(), final(self).report_vs()) == run_rec::<R>(
                old(self).rule_views(),
                old(self).report_vs(),
                trace_stmts(old(self).context.ancestors@, stmts@),
            ),
        decreases stmts@,
    {
        let ghost path = self.context.ancestors@;
        let ghost vs0 = self.rule_views();
        let ghost reps0 = self.report_vs();
        let ghost vis0 = self.context.visits@;
        let ghost nr = self.rules@.len();
        let n = stmts.len();
        let mut i: usize = 0;
        proof {
            assert(stmts@.skip(0) =~= stmts@);
        }
        while i < n
            invariant
                i <= n,
                n == stmts@.len(),
                self.context.ancestors@ == path,
                self.rules@.len() == nr,
                self.context.visits@ + trace_stmts(path, stmts@.skip(i as int)) == vis0
                    + trace_stmts(path, stmts@),
                run_rec::<R>(vs0, reps0, trace_stmts(path, stmts@)) == run_rec::<R>(
                    self.rule_views(),
                    self.report_vs(),
                    trace_stmts(path, stmts@.skip(i as int)),
                ),
            decreases n - i,
        {
            proof {
                lemma_trace_stmts_skip(path, stmts@, i as int);
            }
            let ghost vs_i = self.rule_views();
            let ghost reps_i = self.report_vs();
            let ghost vis_i = self.context.visits@;
            self.walk_stmt(&stmts[i]);
            proof {
                let head = trace_stmt(path, stmts@[i as int]);
                let rest = trace_stmts(path, stmts@.skip(i as int + 1));
                lemma_run_rec_add::<R>(vs_i, reps_i, head, rest);
                assert((vis_i + head) + rest =~= vis_i + (head + rest));
            }
            i = i + 1;
        }
        proof {
            assert(stmts@.skip(n as int) =~= Seq::<Stmt>::empty());
            assert(self.context.visits@ + trace_stmts(path, stmts@.skip(n as int))
                =~= self.context.visits@);
        }
    }

    /// Enters a statement: the local, item or expression it wraps.
    fn walk_stmt(&mut self, s: &Stmt)
        ensures
            final(self).context.ancestors@ == old(self).context.ancestors@,
            final(self).rules@.len() == old(self).rules@.len(),
            final(self).context.visits@ == old(self).context.visits@ + trace_stmt(
                old(self).context.ancestors@,
                *s,
            ),
            (final(self).rule_views(), final(self).report_vs()) == run_rec::<R>(
                old(self).rule_views(),
                old(self).report_vs(),
                trace_stmt(old(self).context.ancestors@, *s),
            ),
        decreases s,
    {
        let ghost path = self.context.ancestors@;
        let ghost vs0 = self.rule_views();
        let ghost reps0 = self.report_vs();
        let ghost vis0 = self.context.visits@;
        match s {
            Stmt::Local(l) => {
                let h = NodeHandle { kind: Kind::Local, span: l.span };
                let ghost rec = VisitRec { node: h, path, hook: Some(HookNode::Local(*l)) };
                self.context.visits = Ghost(self.context.visits@.push(rec));
                self.fan_local(l);
                self.context.ancestors.push(h);
                match &l.ty {
                    Some(t) => self.walk_ty(t),
                    None => (),
                }
                match &l.init {
                    Some(e) => self.walk_expr(e),
                    None => (),
                }
                let _ = self.context.ancestors.pop();
                proof {
                    let ty_t = trace_opt_ty(path.push(h), l.ty);
                    let init_t = trace_opt_expr(path.push(h), l.init);
                    assert(path.push(h).subrange(0, path.len() as int) =~= path);
                    lemma_run_rec_one::<R>(vs0, reps0, rec);
                    lemma_run_rec_add::<R>(vs0, reps0, seq![rec], ty_t);
                    lemma_run_rec_add::<R>(vs0, reps0, seq![rec] + ty_t, init_t);
                    assert(trace_stmt(path, *s) == (seq![rec] + ty_t) + init_t);
                    if l.ty is None {
                        assert(vis0.push(rec) + ty_t =~= vis0.push(rec));
                    }
                    if l.init is None {
                        assert((vis0.push(rec) + ty_t) + init_t =~= vis0.push(rec) + ty_t);
                    }
                    assert((vis0.push(rec) + ty_t) + init_t =~= vis0 + ((seq![rec] + ty_t)
                        + init_t));
                }
            },
            Stmt::Item(it) => {
                self.walk_item(it);
            },
            Stmt::Expr(e) => {
                self.walk_expr(e);
            },
            Stmt::Semi(e) => {
                self.walk_expr(e);
            },
        }
    }

    /// Enters an expression: at hooked kinds the hooks fire first, then every
    /// syntactic child is visited in source order under the expression's
    /// handle.
    fn walk_expr(&mut self, e: &Expr)
        ensures
            final(self).context.ancestors@ == old(self).context.ancestors@,
            final(self).rules@.len() == old(self).rules@.len(),
            final(self).context.visits@ == old(self).context.visits@ + trace_expr(
                old(self).context.ancestors@,
                *e,
            ),
            (final(self).rule_views(), final(self).report_vs()) == run_rec::<R>(
                old(self).rule_views(),
                old(self).report_vs(),
                trace_expr(old(self).context.ancestors@, *e),
            ),
        decreases e,
    {
        let ghost path = self.context.ancestors@;
        let ghost vs0 = self.rule_views();
        let ghost reps0 = self.report_vs();
        let ghost vis0 = self.context.visits@;
        match e {
            Expr::Binary(b) => {
                let h = NodeHandle { kind: Kind::ExprBinary, span: b.span };
                let ghost rec = VisitRec { node: h, path, hook: Some(HookNode::Binary(*b)) };
                self.context.visits = Ghost(self.context.visits@.push(rec));
                self.fan_expr_binary(b);
                self.context.ancestors.push(h);
                self.walk_expr(&b.left);
                self.walk_expr(&b.right);
                let _ = self.context.ancestors.pop();
                proof {
                    let left_t = trace_expr(path.push(h), *b.left);
                    let right_t = trace_expr(path.push(h), *b.right);
                    assert(path.push(h).subrange(0, path.len() as int) =~= path);
                    lemma_run_rec_one::<R>(vs0, reps0, rec);
                    lemma_run_rec_add::<R>(vs0, reps0, seq![rec], left_t);
                    lemma_run_rec_add::<R>(vs0, reps0, seq![rec] + left_t, right_t);
                    assert(trace_expr(path, *e) == (seq![rec] + left_t) + right_t);
                    assert((vis0.push(rec) + left_t) + right_t =~= vis0 + ((seq![rec] + left_t)
                        + right_t));
                }
            },
            Expr::MethodCall(m) => {
                let h = NodeHandle { kind: Kind::ExprMethodCall, span: m.span };
                let ghost rec = VisitRec { node: h, path, hook: Some(HookNode::MethodCall(*m)) };
                self.context.visits = Ghost(self.context.visits@.push(rec));
                self.fan_expr_method_call(m);
                self.context.ancestors.push(h);
                self.walk_expr(&m.receiver);
                self.walk_exprs(&m.args);
                let _ = self.context.ancestors.pop();
                proof {
                    let recv_t = trace_expr(path.push(h), *m.receiver);
                    let args_t = trace_exprs(path.push(h), m.args@);
                    assert(path.push(h).subrange(0, path.len() as int) =~= path);
                    lemma_run_rec_one::<R>(vs0, reps0, rec);
                    lemma_run_rec_add::<R>(vs0, reps0, seq![rec], recv_t);
                    lemma_run_rec_add::<R>(vs0, reps0, seq![rec] + recv_t, args_t);
                    assert(trace_expr(path, *e) == (seq![rec] + recv_t) + args_t);
                    assert((vis0.push(rec) + recv_t) + args_t =~= vis0 + ((seq![rec] + recv_t)
                        + args_t));
                }
            },
            Expr::Call(c) => {
                let h = NodeHandle { kind: Kind::ExprCall, span: c.span };
                let ghost rec = VisitRec { node: h, path, hook: None };
                self.context.visits = Ghost(self.context.visits@.push(rec));
                self.context.ancestors.push(h);
                self.walk_expr(&c.func);
                self.walk_exprs(&c.args);
                let _ = self.context.ancestors.pop();
                proof {
                    let func_t = trace_expr(path.push(h), *c.func);
                    let args_t = trace_exprs(path.push(h), c.args@);
                    assert(path.push(h).subrange(0, path.len() as int) =~= path);
                    lemma_run_rec_one::<R>(vs0, reps0, rec);
                    lemma_run_rec_add::<R>(vs0, reps0, seq![rec], func_t);
                    lemma_run_rec_add::<R>(vs0, reps0, seq![rec] + func_t, args_t);
                    assert(trace_expr(path, *e) == (seq![rec] + func_t) + args_t);
                    assert((vis0.push(rec) + func_t) + args_t =~= vis0 + ((seq![rec] + func_t)
                        + args_t));
                }
            },
            Expr::Unary(u) => {
                let h = NodeHandle { kind: Kind::ExprUnary, span: u.span };
                let ghost rec = VisitRec { node: h, path, hook: None };
                self.context.visits = Ghost(self.context.visits@.push(rec));
                self.context.ancestors.push(h);
                self.walk_expr(&u.expr);
                let _ = self.context.ancestors.pop();
                proof {
                    let inner = trace_expr(path.push(h), *u.expr);
                    assert(path.push(h).subrange(0, path.len() as int) =~= path);
                    lemma_run_rec_one::<R>(vs0, reps0, rec);
                    lemma_run_rec_add::<R>(vs0, reps0, seq![rec], inner);
                    assert(trace_expr(path, *e) == seq![rec] + inner);
                    assert(vis0.push(rec) + inner =~= vis0 + (seq![rec] + inner));
                }
            },
            Expr::Paren(p) => {
                let h = NodeHandle { kind: Kind::ExprParen, span: p.span };
                let ghost rec = VisitRec { node: h, path, hook: None };
                self.context.visits = Ghost(self.context.visits@.push(rec));
                self.context.ancestors.push(h);
                self.walk_expr(&p.expr);
                let _ = self.context.ancestors.pop();
                proof {
                    let inner = trace_expr(path.push(h), *p.expr);
                    assert(path.push(h).subrange(0, path.len() as int) =~= path);
                    lemma_run_rec_one::<R>(vs0, reps0, rec);
                    lemma_run_rec_add::<R>(vs0, reps0, seq![rec], inner);
                    assert(trace_expr(path, *e) == seq![rec] + inner);
                    assert(vis0.push(rec) + inner =~= vis0 + (seq![rec] + inner));
                }
            },
            Expr::Lit(l) => {
                let h = NodeHandle { kind: Kind::ExprLit, span: l.span };
                let ghost rec = VisitRec { node: h, path, hook: None };
                self.context.visits = Ghost(self.context.visits@.push(rec));
                proof {
                    lemma_run_rec_one::<R>(vs0, reps0, rec);
                    assert(trace_expr(path, *e) =~= seq![rec]);
                    assert(vis0.push(rec) =~= vis0 + seq![rec]);
                }
            },
            Expr::Path(p) => {
                let h = NodeHandle { kind: Kind::ExprPath, span: p.span };
                let ghost rec = VisitRec { node: h, path, hook: None };
                self.context.visits = Ghost(self.context.visits@.push(rec));
                proof {
                    lemma_run_rec_one::<R>(vs0, reps0, rec);
                    assert(trace_expr(path, *e) =~= seq![rec]);
                    assert(vis0.push(rec) =~= vis0 + seq![rec]);
                }
            },
            Expr::Block(eb) => {
                let h = NodeHandle { kind: Kind::ExprBlock, span: eb.span };
                let ghost rec = VisitRec { node: h, path, hook: None };
                self.context.visits = Ghost(self.context.visits@.push(rec));
                self.context.ancestors.push(h);
                self.walk_block(&eb.block);
                let _ = self.context.ancestors.pop();
                proof {
                    let inner = trace_block(path.push(h), eb.block);
                    assert(path.push(h).subrange(0, path.len() as int) =~= path);
                    lemma_run_rec_one::<R>(vs0, reps0, rec);
                    lemma_run_rec_add::<R>(vs0, reps0, seq![rec], inner);
                    assert(trace_expr(path, *e) == seq![rec] + inner);
                    assert(vis0.push(rec) + inner =~= vis0 + (seq![rec] + inner));
                }
            },
        }
    }

    /// Enters each expression in source order.
    fn walk_exprs(&mut self, es: &Vec<Expr>)
        ensures
            final(self).context.ancestors@ == old(self).context.ancestors@,
            final(self).rules@.len() == old(self).rules@.len(),
            final(self).context.visits@ == old(self).context.visits@ + trace_exprs(
                old(self).context.ancestors@,
                es@,
            ),
            (final(self).rule_views(), final(self).report_vs()) == run_rec::<R>(
                old(self).rule_views(),
                old(self).report_vs(),
                trace_exprs(old(self).context.ancestors@, es@),
            ),
        decreases es@,
    {
        let ghost path = self.context.ancestors@;
        let ghost vs0 = self.rule_views();
        let ghost reps0 = self.report_vs();
        let ghost vis0 = self.context.visits@;
        let ghost nr = self.rules@.len();
        let n = es.len();
        let mut i: usize = 0;
        proof {
            assert(es@.skip(0) =~= es@);
        }
        while i < n
            invariant
                i <= n,
                n == es@.len(),
                self.context.ancestors@ == path,
                self.rules@.len() == nr,
                self.context.visits@ + trace_exprs(path, es@.skip(i as int)) == vis0
                    + trace_exprs(path, es@),
                run_rec::<R>(vs0, reps0, trace_exprs(path, es@)) == run_rec::<R>(
                    self.rule_views(),
                    self.report_vs(),
                    trace_exprs(path, es@.skip(i as int)),
                ),
            decreases n - i,
        {
            proof {
                lemma_trace_exprs_skip(path, es@, i as int);
            }
            let ghost vs_i = self.rule_views();
            let ghost reps_i = self.report_vs();
            let ghost vis_i = self.context.visits@;
            self.walk_expr(&es[i]);
            proof {
                let head = trace_expr(path, es@[i as int]);
                let rest = trace_exprs(path, es@.skip(i as int + 1));
                lemma_run_rec_add::<R>(vs_i, reps_i, head, rest);
                assert((vis_i + head) + rest =~= vis_i + (head + rest));
            }
            i = i + 1;
        }
        proof {
            assert(es@.skip(n as int) =~= Seq::<Expr>::empty());
            assert(self.context.visits@ + trace_exprs(path, es@.skip(n as int))
                =~= self.context.visits@);
        }
    }

    /// Runs one full depth-first traversal of `syntax_tree`, fanning every
    /// hook point out to all registered rules in registration order. The
    /// visit trace grows by exactly the pre-order trace of the tree, the
    /// rule states and the report log advance by exactly the fold of that
    /// trace, and the ancestor stack is restored to its pre-call contents.
    pub fn apply_rules(&mut self, syntax_tree: &SourceFile)
        ensures
            final(self).context.ancestors@ == old(self).context.ancestors@,
            final(self).rules@.len() == old(self).rules@.len(),
            final(self).context.visits@ == old(self).context.visits@ + trace_file(
                old(self).context.ancestors@,
                *syntax_tree,
            ),
            (final(self).rule_views(), final(self).report_vs()) == run_rec::<R>(
                old(self).rule_views(),
                old(self).report_vs(),
                trace_file(old(self).context.ancestors@, *syntax_tree),
            ),
    {
        let ghost path = self.context.ancestors@;
        let ghost vs0 = self.rule_views();
        let ghost reps0 = self.report_vs();
        let ghost vis0 = self.context.visits@;
        let h = NodeHandle { kind: Kind::File, span: syntax_tree.span };
        let ghost rec = VisitRec { node: h, path, hook: None };
        self.context.visits = Ghost(self.context.visits@.push(rec));
        self.context.ancestors.push(h);
        self.walk_items(&syntax_tree.items);
        let _ = self.context.ancestors.pop();
        proof {
            let inner = trace_items(path.push(h), syntax_tree.items@);
            assert(path.push(h).subrange(0, path.len() as int) =~= path);
            lemma_run_rec_one::<R>(vs0, reps0, rec);
            lemma_run_rec_add::<R>(vs0, reps0, seq![rec], inner);
            assert(trace_file(path, *syntax_tree) == seq![rec] + inner);
            assert(vis0.push(rec) + inner =~= vis0 + (seq![rec] + inner));
        }
    }
}

} // verus!
