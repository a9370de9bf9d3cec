//! The shared per-traversal context: the live ancestor stack, the collecting
//! report sink, and a ghost trace of every node the walker has entered.

use vstd::prelude::*;

use crate::ast::NodeHandle;
use crate::report::Report;
use crate::report::report_views;
use crate::rule::VisitRec;

verus! {

/// Bundles the ancestor stack and the diagnostic sink; handed to every rule
/// hook during one traversal. The walker alone pushes and pops `ancestors`,
/// in strict push-on-enter / pop-on-exit discipline around each descent.
/// Reports are collected in emission order for the caller to inspect.
pub struct RuleContext {
    pub ancestors: Vec<NodeHandle>,
    pub reports: Vec<Report>,
    pub visits: Ghost<Seq<VisitRec>>,
}

impl RuleContext {
    /// An empty context: no ancestors, no reports, nothing visited.
    pub fn new() -> (c: RuleContext)
        ensures
            c.ancestors@ == Seq::<NodeHandle>::empty(),
            c.reports@ == Seq::<Report>::empty(),
            c.visits@ == Seq::<VisitRec>::empty(),
    {
        RuleContext {
            ancestors: Vec::new(),
            reports: Vec::new(),
            visits: Ghost(Seq::empty()),
        }
    }

    /// Appends one report to the sink; everything else stays as it was.
    pub fn emit_report(&mut self, report: Report)
        ensures
            final(self).reports@ == old(self).reports@.push(report),
            report_views(final(self).reports@) == report_views(old(self).reports@).push(
                report@,
            ),
            final(self).ancestors@ == old(self).ancestors@,
            final(self).visits@ == old(self).visits@,
    {
        proof {
            crate::report::lemma_report_views_push(self.reports@, report);
        }
        self.reports.push(report);
    }
}

} // verus!
