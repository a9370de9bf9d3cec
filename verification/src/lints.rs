//! Concrete lint rules.
//!
//! `AbsurdExtremeComparisons` flags `<=` comparisons of a known-unsigned
//! value against a literal or constant zero, learning which names are
//! unsigned locals and which are zero-valued constants as the traversal
//! shows them to it — a stateful rule whose verdict depends on more than one
//! node. `CountFns` counts function items. `MethodNameRule` flags method
//! calls by name. Each rule's behaviour is pinned down by its `step` and
//! `emits` spec functions, which its hooks are proved to follow.

use vstd::prelude::*;

use crate::ast::BinOp;
use crate::ast::Expr;
use crate::ast::ExprBinary;
use crate::ast::ExprMethodCall;
use crate::ast::FnArg;
use crate::ast::ItemConst;
use crate::ast::ItemFn;
use crate::ast::Kind;
use crate::ast::Lit;
use crate::ast::Local;
use crate::ast::NodeHandle;
use crate::ast::SourceFile;
use crate::context::RuleContext;
use crate::engine::run_rec;
use crate::engine::trace_file;
use crate::laws::fn_hook_count;
use crate::laws::fns_in_file;
use crate::laws::is_fn_hook;
use crate::laws::lemma_fan_one;
use crate::laws::lemma_trace_props_file;
use crate::report::Report;
use crate::report::ReportV;
use crate::report::report_views;
use crate::rule::HookNode;
use crate::rule::Rule;
use crate::rule::VisitRec;

verus! {

/// The views of a sequence of names, in order.
pub open spec fn name_views(s: Seq<String>) -> Seq<Seq<char>> {
    s.map_values(|n: String| n@)
}

/// Appending one name appends its view.
proof fn lemma_name_views_push(s: Seq<String>, x: String)
    ensures
        name_views(s.push(x)) == name_views(s).push(x@),
{
    assert(name_views(s.push(x)) =~= name_views(s).push(x@));
}

/// Whether `names` holds a name whose characters are `target`'s.
fn contains_str(names: &Vec<String>, target: &String) -> (r: bool)
    ensures
        r == name_views(names@).contains(target@),
{
    let n = names.len();
    let mut i: usize = 0;
    while i < n
        invariant
            i <= n,
            n == names@.len(),
            forall|j: int| 0 <= j < i ==> name_views(names@)[j] != target@,
        decreases n - i,
    {
        if names[i] == *target {
            proof {
                assert(name_views(names@)[i as int] == target@);
            }
            return true;
        }
        i = i + 1;
    }
    proof {
        if name_views(names@).contains(target@) {
            let j = choose|j: int|
                0 <= j < name_views(names@).len() && name_views(names@)[j] == target@;
            assert(false);
        }
    }
    false
}

/// The spelled-out names of the unsigned integer types.
pub open spec fn is_unsigned_name(name: Seq<char>) -> bool {
    ||| name == "u8"@
    ||| name == "u16"@
    ||| name == "u32"@
    ||| name == "u64"@
    ||| name == "u128"@
    ||| name == "usize"@
}

/// Whether `name` spells an unsigned integer type.
fn check_unsigned_name(name: &String) -> (r: bool)
    ensures
        r == is_unsigned_name(name@),
{
    *name == "u8".to_owned() || *name == "u16".to_owned() || *name == "u32".to_owned()
        || *name == "u64".to_owned() || *name == "u128".to_owned() || *name
        == "usize".to_owned()
}

/// Whether a `let` binding is annotated with an unsigned integer type.
pub open spec fn binds_unsigned(l: Local) -> bool {
    match l.ty {
        Option::Some(t) => is_unsigned_name(t.name@),
        Option::None => false,
    }
}

/// Whether an expression is the integer literal zero.
pub open spec fn is_zero_int_lit(e: Expr) -> bool {
    match e {
        Expr::Lit(el) => match el.lit {
            Lit::Int(v) => v == 0,
            _ => false,
        },
        _ => false,
    }
}

/// The state the zero-comparison rule accumulates: the names it has seen
/// bound with an unsigned type, and the names of constants it has seen
/// defined as literal zero, each in the order first seen.
pub struct AecView {
    pub unsigned_vars: Seq<Seq<char>>,
    pub zero_consts: Seq<Seq<char>>,
}

/// Whether an expression is a path naming a tracked unsigned binding.
pub open spec fn names_tracked_unsigned(v: AecView, e: Expr) -> bool {
    match e {
        Expr::Path(p) => v.unsigned_vars.contains(p.name@),
        _ => false,
    }
}

/// Whether an expression is zero-valued for this rule: the literal zero, or
/// a path naming a tracked zero constant.
pub open spec fn names_zero(v: AecView, e: Expr) -> bool {
    ||| is_zero_int_lit(e)
    ||| match e {
        Expr::Path(p) => v.zero_consts.contains(p.name@),
        _ => false,
    }
}

/// Whether the rule flags this binary expression: a `<=` comparison of a
/// tracked unsigned value against a literal or constant zero.
pub open spec fn aec_flags(v: AecView, b: ExprBinary) -> bool {
    &&& b.op == BinOp::Le
    &&& names_tracked_unsigned(v, *b.left)
    &&& names_zero(v, *b.right)
}

/// Flags `<=` comparisons of an unsigned value against zero, which are
/// either vacuous or better written as an equality test.
pub struct AbsurdExtremeComparisons {
    pub unsigned_vars: Vec<String>,
    pub zero_consts: Vec<String>,
}

impl View for AbsurdExtremeComparisons {
    type V = AecView;

    open spec fn view(&self) -> AecView {
        AecView {
            unsigned_vars: name_views(self.unsigned_vars@),
            zero_consts: name_views(self.zero_consts@),
        }
    }
}

impl AbsurdExtremeComparisons {
    /// A fresh rule that has seen no bindings and no constants.
    pub fn new() -> (r: AbsurdExtremeComparisons)
        ensures
            r@.unsigned_vars == Seq::<Seq<char>>::empty(),
            r@.zero_consts == Seq::<Seq<char>>::empty(),
    {
        let r = AbsurdExtremeComparisons { unsigned_vars: Vec::new(), zero_consts: Vec::new() };
        proof {
            assert(name_views(r.unsigned_vars@) =~= Seq::<Seq<char>>::empty());
            assert(name_views(r.zero_consts@) =~= Seq::<Seq<char>>::empty());
        }
        r
    }
}

impl Rule for AbsurdExtremeComparisons {
    open spec fn step(v: AecView, path: Seq<NodeHandle>, node: HookNode) -> AecView {
        match node {
            HookNode::Local(l) => if binds_unsigned(l) {
                AecView { unsigned_vars: v.unsigned_vars.push(l.name@), zero_consts: v.zero_consts }
            } else {
                v
            },
            HookNode::ItemConst(c) => if is_zero_int_lit(c.value) {
                AecView { unsigned_vars: v.unsigned_vars, zero_consts: v.zero_consts.push(c.name@) }
            } else {
                v
            },
            _ => v,
        }
    }

    open spec fn emits(v: AecView, path: Seq<NodeHandle>, node: HookNode) -> Seq<ReportV> {
        match node {
            HookNode::Binary(b) => if aec_flags(v, b) {
                seq![
                    ReportV {
                        message: "`<=` comparison of an unsigned value against zero"@,
                        node: NodeHandle { kind: Kind::ExprBinary, span: b.span },
                    },
                ]
            } else {
                Seq::empty()
            },
            _ => Seq::empty(),
        }
    }

    fn apply_item_fn(&mut self, context: &mut RuleContext, node: &ItemFn) {
        proof {
            assert(report_views(context.reports@) + Seq::<ReportV>::empty() =~= report_views(
                context.reports@,
            ));
        }
    }

    fn apply_fn_arg(&mut self, context: &mut RuleContext, node: &FnArg) {
        proof {
            assert(report_views(context.reports@) + Seq::<ReportV>::empty() =~= report_views(
                context.reports@,
            ));
        }
    }

    fn apply_item_const(&mut self, context: &mut RuleContext, node: &ItemConst) {
        let is_zero = match &node.value {
            Expr::Lit(el) => match &el.lit {
                Lit::Int(value) => *value == 0,
                _ => false,
            },
            _ => false,
        };
        if is_zero {
            proof {
                lemma_name_views_push(self.zero_consts@, node.name);
            }
            self.zero_consts.push(node.name.clone());
        }
        proof {
            assert(report_views(context.reports@) + Seq::<ReportV>::empty() =~= report_views(
                context.reports@,
            ));
        }
    }

    fn apply_local(&mut self, context: &mut RuleContext, node: &Local) {
        let tracked_ty = match &node.ty {
            Some(t) => check_unsigned_name(&t.name),
            None => false,
        };
        if tracked_ty {
            proof {
                lemma_name_views_push(self.unsigned_vars@, node.name);
            }
            self.unsigned_vars.push(node.name.clone());
        }
        proof {
            assert(report_views(context.reports@) + Seq::<ReportV>::empty() =~= report_views(
                context.reports@,
            ));
        }
    }

    fn apply_expr_method_call(&mut self, context: &mut RuleContext, node: &ExprMethodCall) {
        proof {
            assert(report_views(context.reports@) + Seq::<ReportV>::empty() =~= report_views(
                context.reports@,
            ));
        }
    }

    fn apply_expr_binary(&mut self, context: &mut RuleContext, node: &ExprBinary) {
        let mut fire = false;
        if node.op == BinOp::Le {
            let left_tracked = match &*node.left {
                Expr::Path(p) => contains_str(&self.unsigned_vars, &p.name),
                _ => false,
            };
            if left_tracked {
                fire = match &*node.right {
                    Expr::Lit(el) => match &el.lit {
                        Lit::Int(value) => *value == 0,
                        _ => false,
                    },
                    Expr::Path(p) => contains_str(&self.zero_consts, &p.name),
                    _ => false,
                };
            }
        }
        if fire {
            let report = Report {
                message: "`<=` comparison of an unsigned value against zero".to_owned(),
                node: NodeHandle { kind: Kind::ExprBinary, span: node.span },
            };
            let ghost pre = report_views(context.reports@);
            let ghost rv = report@;
            context.emit_report(report);
            proof {
                assert(pre.push(rv) =~= pre + seq![rv]);
            }
        } else {
            proof {
                assert(report_views(context.reports@) + Seq::<ReportV>::empty() =~= report_views(
                    context.reports@,
                ));
            }
        }
    }
}

/// Counts the function items a traversal shows it, saturating at the
/// largest representable count.
pub struct CountFns {
    pub count: u64,
}

impl View for CountFns {
    type V = u64;

    open spec fn view(&self) -> u64 {
        self.count
    }
}

impl CountFns {
    /// A fresh counter at zero.
    pub fn new() -> (r: CountFns)
        ensures
            r@ == 0u64,
    {
        CountFns { count: 0 }
    }
}

impl Rule for CountFns {
    open spec fn step(v: u64, path: Seq<NodeHandle>, node: HookNode) -> u64 {
        match node {
            HookNode::ItemFn(_) => if v < u64::MAX {
                (v + 1) as u64
            } else {
                v
            },
            _ => v,
        }
    }

    open spec fn emits(v: u64, path: Seq<NodeHandle>, node: HookNode) -> Seq<ReportV> {
        Seq::empty()
    }

    fn apply_item_fn(&mut self, context: &mut RuleContext, node: &ItemFn) {
        if self.count < u64::MAX {
            self.count = self.count + 1;
        }
        proof {
            assert(report_views(context.reports@) + Seq::<ReportV>::empty() =~= report_views(
                context.reports@,
            ));
        }
    }

    fn apply_fn_arg(&mut self, context: &mut RuleContext, node: &FnArg) {
        proof {
            assert(report_views(context.reports@) + Seq::<ReportV>::empty() =~= report_views(
                context.reports@,
            ));
        }
    }

    fn apply_item_const(&mut self, context: &mut RuleContext, node: &ItemConst) {
        proof {
            assert(report_views(context.reports@) + Seq::<ReportV>::empty() =~= report_views(
                context.reports@,
            ));
        }
    }

    fn apply_local(&mut self, context: &mut RuleContext, node: &Local) {
        proof {
            assert(report_views(context.reports@) + Seq::<ReportV>::empty() =~= report_views(
                context.reports@,
            ));
        }
    }

    fn apply_expr_method_call(&mut self, context: &mut RuleContext, node: &ExprMethodCall) {
        proof {
            assert(report_views(context.reports@) + Seq::<ReportV>::empty() =~= report_views(
                context.reports@,
            ));
        }
    }

    fn apply_expr_binary(&mut self, context: &mut RuleContext, node: &ExprBinary) {
        proof {
            assert(report_views(context.reports@) + Seq::<ReportV>::empty() =~= report_views(
                context.reports@,
            ));
        }
    }
}

/// The state of a method-name rule: the method name it looks for and the
/// message it emits.
pub struct MethodNameView {
    pub target: Seq<char>,
    pub message: Seq<char>,
}

/// Flags every method call whose method name equals a configured target.
pub struct MethodNameRule {
    pub target: String,
    pub message: String,
}

impl View for MethodNameRule {
    type V = MethodNameView;

    open spec fn view(&self) -> MethodNameView {
        MethodNameView { target: self.target@, message: self.message@ }
    }
}

impl MethodNameRule {
    /// A rule flagging calls of `target` with `message`.
    pub fn new(target: String, message: String) -> (r: MethodNameRule)
        ensures
            r@.target == target@,
            r@.message == message@,
    {
        MethodNameRule { target, message }
    }
}

impl Rule for MethodNameRule {
    open spec fn step(v: MethodNameView, path: Seq<NodeHandle>, node: HookNode) -> MethodNameView {
        v
    }

    open spec fn emits(v: MethodNameView, path: Seq<NodeHandle>, node: HookNode) -> Seq<ReportV> {
        match node {
            HookNode::MethodCall(m) => if m.method@ == v.target {
                seq![
                    ReportV {
                        message: v.message,
                        node: NodeHandle { kind: Kind::ExprMethodCall, span: m.span },
                    },
                ]
            } else {
                Seq::empty()
            },
            _ => Seq::empty(),
        }
    }

    fn apply_item_fn(&mut self, context: &mut RuleContext, node: &ItemFn) {
        proof {
            assert(report_views(context.reports@) + Seq::<ReportV>::empty() =~= report_views(
                context.reports@,
            ));
        }
    }

    fn apply_fn_arg(&mut self, context: &mut RuleContext, node: &FnArg) {
        proof {
            assert(report_views(context.reports@) + Seq::<ReportV>::empty() =~= report_views(
                context.reports@,
            ));
        }
    }

    fn apply_item_const(&mut self, context: &mut RuleContext, node: &ItemConst) {
        proof {
            assert(report_views(context.reports@) + Seq::<ReportV>::empty() =~= report_views(
                context.reports@,
            ));
        }
    }

    fn apply_local(&mut self, context: &mut RuleContext, node: &Local) {
        proof {
            assert(report_views(context.reports@) + Seq::<ReportV>::empty() =~= report_views(
                context.reports@,
            ));
        }
    }

    fn apply_expr_method_call(&mut self, context: &mut RuleContext, node: &ExprMethodCall) {
        if self.target == node.method {
            let report = Report {
                message: self.message.clone(),
                node: NodeHandle { kind: Kind::ExprMethodCall, span: node.span },
            };
            let ghost pre = report_views(context.reports@);
            let ghost rv = report@;
            context.emit_report(report);
            proof {
                assert(pre.push(rv) =~= pre + seq![rv]);
            }
        } else {
            proof {
                assert(report_views(context.reports@) + Seq::<ReportV>::empty() =~= report_views(
                    context.reports@,
                ));
            }
        }
    }

    fn apply_expr_binary(&mut self, context: &mut RuleContext, node: &ExprBinary) {
        proof {
            assert(report_views(context.reports@) + Seq::<ReportV>::empty() =~= report_views(
                context.reports@,
            ));
        }
    }
}

/// The state of a composite rule: the inner rule's state, by variant.
pub enum AnyLintView {
    ZeroCmp(AecView),
    Count(u64),
    Name(MethodNameView),
}

/// A closed set of the lint rules above, so rules of different kinds can be
/// registered together in one engine, each keeping its own state.
pub enum AnyLint {
    ZeroCmp(AbsurdExtremeComparisons),
    Count(CountFns),
    Name(MethodNameRule),
}

impl View for AnyLint {
    type V = AnyLintView;

    open spec fn view(&self) -> AnyLintView {
        match self {
            AnyLint::ZeroCmp(r) => AnyLintView::ZeroCmp(r@),
            AnyLint::Count(r) => AnyLintView::Count(r@),
            AnyLint::Name(r) => AnyLintView::Name(r@),
        }
    }
}

impl Rule for AnyLint {
    open spec fn step(v: AnyLintView, path: Seq<NodeHandle>, node: HookNode) -> AnyLintView {
        match v {
            AnyLintView::ZeroCmp(x) => AnyLintView::ZeroCmp(
                <AbsurdExtremeComparisons as Rule>::step(x, path, node),
            ),
            AnyLintView::Count(x) => AnyLintView::Count(<CountFns as Rule>::step(x, path, node)),
            AnyLintView::Name(x) => AnyLintView::Name(
                <MethodNameRule as Rule>::step(x, path, node),
            ),
        }
    }

    open spec fn emits(v: AnyLintView, path: Seq<NodeHandle>, node: HookNode) -> Seq<ReportV> {
        match v {
            AnyLintView::ZeroCmp(x) => <AbsurdExtremeComparisons as Rule>::emits(x, path, node),
            AnyLintView::Count(x) => <CountFns as Rule>::emits(x, path, node),
            AnyLintView::Name(x) => <MethodNameRule as Rule>::emits(x, path, node),
        }
    }

    fn apply_item_fn(&mut self, context: &mut RuleContext, node: &ItemFn) {
        match self {
            AnyLint::ZeroCmp(r) => r.apply_item_fn(context, node),
            AnyLint::Count(r) => r.apply_item_fn(context, node),
            AnyLint::Name(r) => r.apply_item_fn(context, node),
        }
    }

    fn apply_fn_arg(&mut self, context: &mut RuleContext, node: &FnArg) {
        match self {
            AnyLint::ZeroCmp(r) => r.apply_fn_arg(context, node),
            AnyLint::Count(r) => r.apply_fn_arg(context, node),
            AnyLint::Name(r) => r.apply_fn_arg(context, node),
        }
    }

    fn apply_item_const(&mut self, context: &mut RuleContext, node: &ItemConst) {
        match self {
            AnyLint::ZeroCmp(r) => r.apply_item_const(context, node),
            AnyLint::Count(r) => r.apply_item_const(context, node),
            AnyLint::Name(r) => r.apply_item_const(context, node),
        }
    }

    fn apply_local(&mut self, context: &mut RuleContext, node: &Local) {
        match self {
            AnyLint::ZeroCmp(r) => r.apply_local(context, node),
            AnyLint::Count(r) => r.apply_local(context, node),
            AnyLint::Name(r) => r.apply_local(context, node),
        }
    }

    fn apply_expr_method_call(&mut self, context: &mut RuleContext, node: &ExprMethodCall) {
        match self {
            AnyLint::ZeroCmp(r) => r.apply_expr_method_call(context, node),
            AnyLint::Count(r) => r.apply_expr_method_call(context, node),
            AnyLint::Name(r) => r.apply_expr_method_call(context, node),
        }
    }

    fn apply_expr_binary(&mut self, context: &mut RuleContext, node: &ExprBinary) {
        match self {
            AnyLint::ZeroCmp(r) => r.apply_expr_binary(context, node),
            AnyLint::Count(r) => r.apply_expr_binary(context, node),
            AnyLint::Name(r) => r.apply_expr_binary(context, node),
        }
    }
}

/// A single registered counting rule, run over any visit trace, ends with
/// its counter advanced by the number of function-item hook records — one
/// per function item entered — saturating at the largest count, and emits
/// nothing.
pub proof fn lemma_count_fns_runs(v: u64, reps: Seq<ReportV>, tr: Seq<VisitRec>)
    ensures
        run_rec::<CountFns>(seq![v], reps, tr) == (
            seq![
                if v + fn_hook_count(tr) <= u64::MAX {
                    (v + fn_hook_count(tr)) as u64
                } else {
                    u64::MAX
                },
            ],
            reps,
        ),
    decreases tr.len(),
{
    if tr.len() == 0 {
        assert(seq![v] =~= seq![
            if v + fn_hook_count(tr) <= u64::MAX {
                (v + fn_hook_count(tr)) as u64
            } else {
                u64::MAX
            },
        ]);
    } else {
        let rec = tr[0];
        match rec.hook {
            Option::Some(hn) => {
                lemma_fan_one::<CountFns>(seq![v], reps, rec.path, hn);
                let v1 = <CountFns as Rule>::step(v, rec.path, hn);
                assert(reps + <CountFns as Rule>::emits(v, rec.path, hn) =~= reps);
                assert(seq![v].update(0, v1) =~= seq![v1]);
                lemma_count_fns_runs(v1, reps, tr.drop_first());
            },
            Option::None => {
                lemma_count_fns_runs(v, reps, tr.drop_first());
            },
        }
    }
}

/// Scenario law: a counting rule run over a whole tree ends with a count
/// equal to the number of function items actually present (saturating at
/// the largest count).
pub proof fn lemma_count_fns_whole_tree(
    v: u64,
    reps: Seq<ReportV>,
    path: Seq<NodeHandle>,
    f: SourceFile,
)
    ensures
        run_rec::<CountFns>(seq![v], reps, trace_file(path, f)) == (
            seq![
                if v + fns_in_file(f) <= u64::MAX {
                    (v + fns_in_file(f)) as u64
                } else {
                    u64::MAX
                },
            ],
            reps,
        ),
{
    lemma_trace_props_file(path, f);
    lemma_count_fns_runs(v, reps, trace_file(path, f));
}

} // verus!
