//! A pluggable static-analysis engine: a verified depth-first walker over a
//! typed syntax tree that dispatches hook calls to registered lint rules in
//! registration order, tracks the ancestor path from the root to the node
//! being visited, and collects positioned diagnostic reports.

pub mod ast;
pub mod context;
pub mod engine;
pub mod laws;
pub mod lints;
pub mod report;
pub mod rule;

pub use crate::ast::BinOp;
pub use crate::ast::Block;
pub use crate::ast::Expr;
pub use crate::ast::ExprBinary;
pub use crate::ast::ExprBlock;
pub use crate::ast::ExprCall;
pub use crate::ast::ExprLit;
pub use crate::ast::ExprMethodCall;
pub use crate::ast::ExprParen;
pub use crate::ast::ExprPath;
pub use crate::ast::ExprUnary;
pub use crate::ast::FnArg;
pub use crate::ast::Item;
pub use crate::ast::ItemConst;
pub use crate::ast::ItemFn;
pub use crate::ast::ItemMod;
pub use crate::ast::Kind;
pub use crate::ast::Lit;
pub use crate::ast::Local;
pub use crate::ast::NodeHandle;
pub use crate::ast::SourceFile;
pub use crate::ast::Span;
pub use crate::ast::Stmt;
pub use crate::ast::Ty;
pub use crate::ast::UnOp;
pub use crate::context::RuleContext;
pub use crate::report::Report;
pub use crate::report::ReportV;
pub use crate::report::report_views;
pub use crate::rule::HookNode;
pub use crate::rule::Rule;
pub use crate::rule::VisitRec;
pub use crate::rule::is_hooked;
pub use crate::engine::RuleEngine;
pub use crate::lints::AbsurdExtremeComparisons;
pub use crate::lints::AnyLint;
pub use crate::lints::AnyLintView;
pub use crate::lints::CountFns;
pub use crate::lints::MethodNameRule;
pub use crate::report::format_report;
pub use crate::report::u64_to_dec;
