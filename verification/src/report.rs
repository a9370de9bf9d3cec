//! Diagnostics: an immutable report value (message plus the handle of the
//! triggering node) and its mathematical view, used by every contract that
//! speaks about what a traversal emitted.

use vstd::prelude::*;

use crate::ast::NodeHandle;
use vstd::string::StringExecFns;

verus! {

/// The mathematical view of a report: the message as a character sequence
/// plus the handle of the node the report points at.
pub struct ReportV {
    pub message: Seq<char>,
    pub node: NodeHandle,
}

/// A diagnostic produced by a rule: a human-readable message and the handle
/// of the triggering node, from which the position is derived at report time.
pub struct Report {
    pub message: String,
    pub node: NodeHandle,
}

impl View for Report {
    type V = ReportV;

    open spec fn view(&self) -> ReportV {
        ReportV { message: self.message@, node: self.node }
    }
}

/// The views of a sequence of reports, in order.
pub open spec fn report_views(s: Seq<Report>) -> Seq<ReportV> {
    s.map_values(|r: Report| r@)
}

/// Appending one report appends its view.
pub proof fn lemma_report_views_push(s: Seq<Report>, r: Report)
    ensures
        report_views(s.push(r)) == report_views(s).push(r@),
{
    assert(report_views(s.push(r)) =~= report_views(s).push(r@));
}

/// The decimal digits of `n`, most significant first.
pub open spec fn dec_seq(n: nat) -> Seq<char>
    decreases n,
{
    if n < 10 {
        seq![dec_digit(n)]
    } else {
        dec_seq(n / 10).push(dec_digit(n % 10))
    }
}

/// The character for one decimal digit.
pub open spec fn dec_digit(d: nat) -> char {
    if d == 0 {
        '0'
    } else if d == 1 {
        '1'
    } else if d == 2 {
        '2'
    } else if d == 3 {
        '3'
    } else if d == 4 {
        '4'
    } else if d == 5 {
        '5'
    } else if d == 6 {
        '6'
    } else if d == 7 {
        '7'
    } else if d == 8 {
        '8'
    } else {
        '9'
    }
}

/// One decimal digit as text.
fn digit_str(d: u64) -> (r: &'static str)
    requires
        d < 10,
    ensures
        r@ == seq![dec_digit(d as nat)],
{
    proof {
        reveal_strlit("0");
        reveal_strlit("1");
        reveal_strlit("2");
        reveal_strlit("3");
        reveal_strlit("4");
        reveal_strlit("5");
        reveal_strlit("6");
        reveal_strlit("7");
        reveal_strlit("8");
        reveal_strlit("9");
    }
    match d {
        0 => "0",
        1 => "1",
        2 => "2",
        3 => "3",
        4 => "4",
        5 => "5",
        6 => "6",
        7 => "7",
        8 => "8",
        _ => "9",
    }
}

/// Renders `n` in decimal.
pub fn u64_to_dec(n: u64) -> (s: String)
    ensures
        s@ == dec_seq(n as nat),
    decreases n,
{
    let d = digit_str(n % 10);
    if n < 10 {
        d.to_owned()
    } else {
        let front = u64_to_dec(n / 10);
        let s = front.concat(d);
        proof {
            assert(dec_seq((n / 10) as nat).push(dec_digit((n % 10) as nat)) =~= dec_seq(
                (n / 10) as nat,
            ) + seq![dec_digit((n % 10) as nat)]);
        }
        s
    }
}

/// The canonical textual form of a report against a source name:
/// `[<source-name>:<line>:<column>] <message>`.
pub open spec fn rendered_report(source: Seq<char>, r: ReportV) -> Seq<char> {
    seq!['['] + source + seq![':'] + dec_seq(r.node.span.line as nat) + seq![':'] + dec_seq(
        r.node.span.col as nat,
    ) + seq![']', ' '] + r.message
}

/// Renders one report in the canonical `[<source-name>:<line>:<column>]
/// <message>` form, the position derived from the report's node handle at
/// report time.
pub fn format_report(source: &str, report: &Report) -> (s: String)
    ensures
        s@ == rendered_report(source@, report@),
{
    proof {
        reveal_strlit("[");
        reveal_strlit(":");
        reveal_strlit("] ");
    }
    let mut out = String::new();
    out.append("[");
    out.append(source);
    out.append(":");
    let line_s = u64_to_dec(report.node.span.line);
    out.append(line_s.as_str());
    out.append(":");
    let col_s = u64_to_dec(report.node.span.col);
    out.append(col_s.as_str());
    out.append("] ");
    out.append(report.message.as_str());
    proof {
        assert("["@ =~= seq!['[']);
        assert(":"@ =~= seq![':']);
        assert("] "@ =~= seq![']', ' ']);
        assert(Seq::<char>::empty() + seq!['['] =~= seq!['[']);
    }
    out
}

} // verus!
