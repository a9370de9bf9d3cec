//! The rule abstraction: a rule subscribes to the node kinds it cares about
//! through one hook method per hooked kind. Each rule describes its own
//! behaviour with two spec functions — `step`, the state its internal data
//! reaches after one hook call, and `emits`, the reports that call produces —
//! and every hook method is bound by contract to them.

use vstd::prelude::*;

use crate::ast::ExprBinary;
use crate::ast::ExprMethodCall;
use crate::ast::FnArg;
use crate::ast::ItemConst;
use crate::ast::ItemFn;
use crate::ast::Kind;
use crate::ast::Local;
use crate::ast::NodeHandle;
use crate::context::RuleContext;
use crate::report::ReportV;
use crate::report::report_views;

verus! {

/// One hook call's payload: the node a rule is shown, by hooked kind.
pub enum HookNode {
    ItemFn(ItemFn),
    FnArg(FnArg),
    ItemConst(ItemConst),
    Local(Local),
    MethodCall(ExprMethodCall),
    Binary(ExprBinary),
}

/// Whether the walker invokes rule hooks at nodes of this kind.
pub open spec fn is_hooked(k: Kind) -> bool {
    match k {
        Kind::ItemFn => true,
        Kind::FnArg => true,
        Kind::ItemConst => true,
        Kind::Local => true,
        Kind::ExprMethodCall => true,
        Kind::ExprBinary => true,
        _ => false,
    }
}

/// One record of the traversal's ghost visit trace: the node that was
/// entered, the ancestor path (root first) at that moment, and, when the
/// node's kind is hooked, the payload every registered rule was shown.
pub struct VisitRec {
    pub node: NodeHandle,
    pub path: Seq<NodeHandle>,
    pub hook: Option<HookNode>,
}

/// A pluggable analysis unit. A rule may keep internal state across one whole
/// traversal; the walker shows it every node of a hooked kind exactly once,
/// in depth-first pre-order, through the hook method for that kind. Hooks
/// read the current ancestor path from the context and may append reports to
/// it; they may not touch the ancestor stack or the visit trace.
pub trait Rule: View + Sized {
    /// The internal state this rule reaches when its hook fires on `node`
    /// with ancestor path `path`, starting from state `v`.
    spec fn step(v: Self::V, path: Seq<NodeHandle>, node: HookNode) -> Self::V;

    /// The reports this rule emits, in order, when its hook fires on `node`
    /// with ancestor path `path`, starting from state `v`.
    spec fn emits(v: Self::V, path: Seq<NodeHandle>, node: HookNode) -> Seq<ReportV>;

    /// Hook for a function item.
    fn apply_item_fn(&mut self, context: &mut RuleContext, node: &ItemFn)
        ensures
            final(self)@ == Self::step(
                old(self)@,
                old(context).ancestors@,
                HookNode::ItemFn(*node),
            ),
            report_views(final(context).reports@) == report_views(old(context).reports@)
                + Self::emits(old(self)@, old(context).ancestors@, HookNode::ItemFn(*node)),
            final(context).ancestors@ == old(context).ancestors@,
            final(context).visits@ == old(context).visits@,
    ;

    /// Hook for a function argument.
    fn apply_fn_arg(&mut self, context: &mut RuleContext, node: &FnArg)
        ensures
            final(self)@ == Self::step(
                old(self)@,
                old(context).ancestors@,
                HookNode::FnArg(*node),
            ),
            report_views(final(context).reports@) == report_views(old(context).reports@)
                + Self::emits(old(self)@, old(context).ancestors@, HookNode::FnArg(*node)),
            final(context).ancestors@ == old(context).ancestors@,
            final(context).visits@ == old(context).visits@,
    ;

    /// Hook for a constant item.
    fn apply_item_const(&mut self, context: &mut RuleContext, node: &ItemConst)
        ensures
            final(self)@ == Self::step(
                old(self)@,
                old(context).ancestors@,
                HookNode::ItemConst(*node),
            ),
            report_views(final(context).reports@) == report_views(old(context).reports@)
                + Self::emits(old(self)@, old(context).ancestors@, HookNode::ItemConst(*node)),
            final(context).ancestors@ == old(context).ancestors@,
            final(context).visits@ == old(context).visits@,
    ;

    /// Hook for a `let` binding.
    fn apply_local(&mut self, context: &mut RuleContext, node: &Local)
        ensures
            final(self)@ == Self::step(
                old(self)@,
                old(context).ancestors@,
                HookNode::Local(*node),
            ),
            report_views(final(context).reports@) == report_views(old(context).reports@)
                + Self::emits(old(self)@, old(context).ancestors@, HookNode::Local(*node)),
            final(context).ancestors@ == old(context).ancestors@,
            final(context).visits@ == old(context).visits@,
    ;

    /// Hook for a method-call expression.
    fn apply_expr_method_call(&mut self, context: &mut RuleContext, node: &ExprMethodCall)
        ensures
            final(self)@ == Self::step(
                old(self)@,
                old(context).ancestors@,
                HookNode::MethodCall(*node),
            ),
            report_views(final(context).reports@) == report_views(old(context).reports@)
                + Self::emits(old(self)@, old(context).ancestors@, HookNode::MethodCall(*node)),
            final(context).ancestors@ == old(context).ancestors@,
            final(context).visits@ == old(context).visits@,
    ;

    /// Hook for a binary expression.
    fn apply_expr_binary(&mut self, context: &mut RuleContext, node: &ExprBinary)
        ensures
            final(self)@ == Self::step(
                old(self)@,
                old(context).ancestors@,
                HookNode::Binary(*node),
            ),
            report_views(final(context).reports@) == report_views(old(context).reports@)
                + Self::emits(old(self)@, old(context).ancestors@, HookNode::Binary(*node)),
            final(context).ancestors@ == old(context).ancestors@,
            final(context).visits@ == old(context).visits@,
    ;
}

} // verus!
