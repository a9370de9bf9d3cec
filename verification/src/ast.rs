//! The syntax tree that the engine walks: typed nodes, each carrying a
//! source span, plus the lightweight tagged handles (kind + span) that stand
//! on the ancestor stack and inside reports.

use vstd::prelude::*;

verus! {

/// A source position: 1-based line, 1-based column.
#[derive(Clone, Copy, PartialEq, Eq, Structural, Debug)]
pub struct Span {
    pub line: u64,
    pub col: u64,
}

/// The grammar category of a syntax-tree node.
#[derive(Clone, Copy, PartialEq, Eq, Structural, Debug)]
pub enum Kind {
    File,
    ItemFn,
    FnArg,
    ItemConst,
    ItemMod,
    Block,
    Local,
    ExprBinary,
    ExprMethodCall,
    ExprCall,
    ExprUnary,
    ExprParen,
    ExprLit,
    ExprPath,
    ExprBlock,
    Ty,
}

/// A non-owning reference to one node: its grammar kind tagged with its span.
/// Handles are what the ancestor stack stores and what reports point at.
#[derive(Clone, Copy, PartialEq, Eq, Structural, Debug)]
pub struct NodeHandle {
    pub kind: Kind,
    pub span: Span,
}

/// A binary operator.
#[derive(Clone, Copy, PartialEq, Eq, Structural, Debug)]
pub enum BinOp {
    Add,
    Sub,
    Mul,
    Div,
    Rem,
    And,
    Or,
    BitXor,
    BitAnd,
    BitOr,
    Shl,
    Shr,
    Eq,
    Ne,
    Lt,
    Le,
    Gt,
    Ge,
}

/// A unary operator.
#[derive(Clone, Copy, PartialEq, Eq, Structural, Debug)]
pub enum UnOp {
    Not,
    Neg,
    Deref,
}

/// A literal value.
pub enum Lit {
    Int(u128),
    Bool(bool),
    Str(String),
}

/// A type annotation, kept as the spelled-out path text.
pub struct Ty {
    pub span: Span,
    pub name: String,
}

/// One parsed source unit: the root of the tree.
pub struct SourceFile {
    pub span: Span,
    pub items: Vec<Item>,
}

/// A top-level (or module-level) item.
pub enum Item {
    Fn(ItemFn),
    Const(ItemConst),
    Mod(ItemMod),
}

/// A function item: signature before body, in source order.
pub struct ItemFn {
    pub span: Span,
    pub name: String,
    pub args: Vec<FnArg>,
    pub ret: Option<Ty>,
    pub body: Block,
}

/// One function argument: a name with its type.
pub struct FnArg {
    pub span: Span,
    pub name: String,
    pub ty: Ty,
}

/// A constant item with its initializer.
pub struct ItemConst {
    pub span: Span,
    pub name: String,
    pub ty: Ty,
    pub value: Expr,
}

/// A module holding nested items.
pub struct ItemMod {
    pub span: Span,
    pub name: String,
    pub items: Vec<Item>,
}

/// A block of statements.
pub struct Block {
    pub span: Span,
    pub stmts: Vec<Stmt>,
}

/// A statement.
pub enum Stmt {
    Local(Local),
    Item(Item),
    Expr(Expr),
    Semi(Expr),
}

/// A `let` binding, with an optional type annotation and initializer.
pub struct Local {
    pub span: Span,
    pub name: String,
    pub ty: Option<Ty>,
    pub init: Option<Expr>,
}

/// An expression.
pub enum Expr {
    Binary(ExprBinary),
    MethodCall(ExprMethodCall),
    Call(ExprCall),
    Unary(ExprUnary),
    Paren(ExprParen),
    Lit(ExprLit),
    Path(ExprPath),
    Block(ExprBlock),
}

/// A binary operation: left operand before right operand.
pub struct ExprBinary {
    pub span: Span,
    pub op: BinOp,
    pub left: Box<Expr>,
    pub right: Box<Expr>,
}

/// A method call: receiver before arguments.
pub struct ExprMethodCall {
    pub span: Span,
    pub receiver: Box<Expr>,
    pub method: String,
    pub args: Vec<Expr>,
}

/// A call expression: callee before arguments.
pub struct ExprCall {
    pub span: Span,
    pub func: Box<Expr>,
    pub args: Vec<Expr>,
}

/// A unary operation.
pub struct ExprUnary {
    pub span: Span,
    pub op: UnOp,
    pub expr: Box<Expr>,
}

/// A parenthesized expression.
pub struct ExprParen {
    pub span: Span,
    pub expr: Box<Expr>,
}

/// A literal expression.
pub struct ExprLit {
    pub span: Span,
    pub lit: Lit,
}

/// A path expression (a bare name).
pub struct ExprPath {
    pub span: Span,
    pub name: String,
}

/// A block used in expression position.
pub struct ExprBlock {
    pub span: Span,
    pub block: Block,
}

/// The handle of an item, read off its head struct.
pub open spec fn item_handle(item: Item) -> NodeHandle {
    match item {
        Item::Fn(f) => NodeHandle { kind: Kind::ItemFn, span: f.span },
        Item::Const(c) => NodeHandle { kind: Kind::ItemConst, span: c.span },
        Item::Mod(m) => NodeHandle { kind: Kind::ItemMod, span: m.span },
    }
}

/// The handle of an expression.
pub open spec fn expr_handle(e: Expr) -> NodeHandle {
    match e {
        Expr::Binary(b) => NodeHandle { kind: Kind::ExprBinary, span: b.span },
        Expr::MethodCall(m) => NodeHandle { kind: Kind::ExprMethodCall, span: m.span },
        Expr::Call(c) => NodeHandle { kind: Kind::ExprCall, span: c.span },
        Expr::Unary(u) => NodeHandle { kind: Kind::ExprUnary, span: u.span },
        Expr::Paren(p) => NodeHandle { kind: Kind::ExprParen, span: p.span },
        Expr::Lit(l) => NodeHandle { kind: Kind::ExprLit, span: l.span },
        Expr::Path(p) => NodeHandle { kind: Kind::ExprPath, span: p.span },
        Expr::Block(b) => NodeHandle { kind: Kind::ExprBlock, span: b.span },
    }
}

/// The handle of the file root.
pub open spec fn file_handle(f: SourceFile) -> NodeHandle {
    NodeHandle { kind: Kind::File, span: f.span }
}

/// The handle of a block.
pub open spec fn block_handle(b: Block) -> NodeHandle {
    NodeHandle { kind: Kind::Block, span: b.span }
}

/// The handle of a `let` binding.
pub open spec fn local_handle(l: Local) -> NodeHandle {
    NodeHandle { kind: Kind::Local, span: l.span }
}

/// The handle of a function argument.
pub open spec fn fn_arg_handle(a: FnArg) -> NodeHandle {
    NodeHandle { kind: Kind::FnArg, span: a.span }
}

/// The handle of a type annotation.
pub open spec fn ty_handle(t: Ty) -> NodeHandle {
    NodeHandle { kind: Kind::Ty, span: t.span }
}

impl Item {
    /// Computes this item's handle.
    pub fn handle(&self) -> (h: NodeHandle)
        ensures
            h == item_handle(*self),
    {
        match self {
            Item::Fn(f) => NodeHandle { kind: Kind::ItemFn, span: f.span },
            Item::Const(c) => NodeHandle { kind: Kind::ItemConst, span: c.span },
            Item::Mod(m) => NodeHandle { kind: Kind::ItemMod, span: m.span },
        }
    }
}

impl Expr {
    /// Computes this expression's handle.
    pub fn handle(&self) -> (h: NodeHandle)
        ensures
            h == expr_handle(*self),
    {
        match self {
            Expr::Binary(b) => NodeHandle { kind: Kind::ExprBinary, span: b.span },
            Expr::MethodCall(m) => NodeHandle { kind: Kind::ExprMethodCall, span: m.span },
            Expr::Call(c) => NodeHandle { kind: Kind::ExprCall, span: c.span },
            Expr::Unary(u) => NodeHandle { kind: Kind::ExprUnary, span: u.span },
            Expr::Paren(p) => NodeHandle { kind: Kind::ExprParen, span: p.span },
            Expr::Lit(l) => NodeHandle { kind: Kind::ExprLit, span: l.span },
            Expr::Path(p) => NodeHandle { kind: Kind::ExprPath, span: p.span },
            Expr::Block(b) => NodeHandle { kind: Kind::ExprBlock, span: b.span },
        }
    }
}

} // verus!
