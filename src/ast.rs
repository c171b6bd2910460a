//! The syntax tree produced by the parser, and its mathematical model.
//!
//! Every executable node borrows its text from the source buffer; `model()`
//! maps a node to a ghost value over `Seq<char>` on which the parser's
//! contracts are stated.
use vstd::prelude::*;

verus! {

broadcast use vstd::std_specs::vec::axiom_vec_decreases_to_view;

/// A name written in the source.
#[derive(Debug, Clone, Copy)]
pub struct Ident<'src>(pub &'src str);

/// Literal values, kept as uninterpreted source text.
#[derive(Debug, Clone, Copy)]
pub enum Literal<'src> {
    Int(&'src str),
    Uint(&'src str),
    Float(&'src str),
    Double(&'src str),
    Bool(bool),
    Char(&'src str),
    String(&'src str),
    Unit,
}

/// The types a declaration may name.
#[derive(Debug, Clone, Copy)]
pub enum Type<'src> {
    I8,
    U8,
    Bool,
    Char,
    I16,
    U16,
    I32,
    U32,
    F32,
    I64,
    U64,
    F64,
    Unit,
    Str,
    /// no annotation, or `_`: left to inference
    Inferred,
    /// any other name
    Ident(Ident<'src>),
}

/// Binary operators.
#[derive(Debug, Clone, Copy, PartialEq, Eq, Structural)]
pub enum BinOp {
    Add,
    Sub,
    Mul,
    Div,
    Mod,
    Power,
    Eq,
    NotEq,
    Less,
    LessEq,
    Greater,
    GreaterEq,
    And,
    Or,
    BitAnd,
    BitOr,
    BitXor,
    Shl,
    Shr,
}

/// Prefix operators.
#[derive(Debug, Clone, Copy, PartialEq, Eq, Structural)]
pub enum UnaryOp {
    Neg,
    Not,
    BitNot,
}

/// Plain and compound assignment operators.
#[derive(Debug, Clone, Copy, PartialEq, Eq, Structural)]
pub enum AssignOp {
    Assign,
    PlusEq,
    MinusEq,
    StarEq,
    SlashEq,
    PercentEq,
    AndEq,
    OrEq,
    XorEq,
    ShlEq,
    ShrEq,
}

/// The two families of infix operator.
#[derive(Debug, Clone, Copy, PartialEq, Eq, Structural)]
pub enum InfixKind {
    Binary(BinOp),
    Assign(AssignOp),
}

/// What may stand left of an assignment operator.
#[derive(Debug)]
pub enum LeftSide<'src> {
    Var(Ident<'src>),
    Field { obj: Box<Expr<'src>>, name: Ident<'src> },
    Subscript { obj: Box<Expr<'src>>, sub: Subscript<'src> },
}

/// The inside of `[...]`: one index, or a range with optional bounds.
#[derive(Debug)]
pub enum Subscript<'src> {
    Index(Box<Expr<'src>>),
    Range { start: Option<Box<Expr<'src>>>, end: Option<Box<Expr<'src>>> },
}

/// Expressions.
#[derive(Debug)]
pub enum Expr<'src> {
    Ident(Ident<'src>),
    Literal(Literal<'src>),
    Assign { op: AssignOp, lhs: LeftSide<'src>, rhs: Box<Expr<'src>> },
    Unary { op: UnaryOp, expr: Box<Expr<'src>> },
    Binary { op: BinOp, lhs: Box<Expr<'src>>, rhs: Box<Expr<'src>> },
    Call { func: Box<Expr<'src>>, args: Vec<Expr<'src>> },
    Method { receiver: Box<Expr<'src>>, method: Ident<'src>, args: Vec<Expr<'src>> },
    Field { obj: Box<Expr<'src>>, name: Ident<'src> },
    Index { obj: Box<Expr<'src>>, sub: Subscript<'src> },
    /// stands for a construct that could not be parsed; the parser itself
    /// reports such failures as diagnostics and never builds this node
    Unknown,
}

/// Statements. `Return` is reserved: the driver does not parse it yet.
#[derive(Debug)]
pub enum Stmt<'src> {
    Expr(Expr<'src>),
    Return(Option<Expr<'src>>),
    Break,
    Continue,
    VarDecl {
        name: Ident<'src>,
        typ: Type<'src>,
        init: Option<Expr<'src>>,
        mutable: bool,
        constant: bool,
        global: bool,
    },
}

// ---------------------------------------------------------------------------
// Mathematical model
// ---------------------------------------------------------------------------

pub enum LiteralModel {
    Int(Seq<char>),
    Uint(Seq<char>),
    Float(Seq<char>),
    Double(Seq<char>),
    Bool(bool),
    Char(Seq<char>),
    String(Seq<char>),
    Unit,
}

pub enum TypeModel {
    I8,
    U8,
    Bool,
    Char,
    I16,
    U16,
    I32,
    U32,
    F32,
    I64,
    U64,
    F64,
    Unit,
    Str,
    Inferred,
    Named(Seq<char>),
}

pub enum PlaceModel {
    Var(Seq<char>),
    Field { obj: Box<ExprModel>, name: Seq<char> },
    Subscript { obj: Box<ExprModel>, sub: SubscriptModel },
}

pub enum SubscriptModel {
    Index(Box<ExprModel>),
    Range { start: Option<Box<ExprModel>>, end: Option<Box<ExprModel>> },
}

pub enum ExprModel {
    Ident(Seq<char>),
    Literal(LiteralModel),
    Assign { op: AssignOp, lhs: PlaceModel, rhs: Box<ExprModel> },
    Unary { op: UnaryOp, expr: Box<ExprModel> },
    Binary { op: BinOp, lhs: Box<ExprModel>, rhs: Box<ExprModel> },
    Call { func: Box<ExprModel>, args: Seq<ExprModel> },
    Method { receiver: Box<ExprModel>, method: Seq<char>, args: Seq<ExprModel> },
    Field { obj: Box<ExprModel>, name: Seq<char> },
    Index { obj: Box<ExprModel>, sub: SubscriptModel },
    Unknown,
}

pub enum StmtModel {
    Expr(ExprModel),
    Return(Option<ExprModel>),
    Break,
    Continue,
    VarDecl {
        name: Seq<char>,
        typ: TypeModel,
        init: Option<ExprModel>,
        mutable: bool,
        constant: bool,
        global: bool,
    },
}

impl<'src> Literal<'src> {
    pub open spec fn model(self) -> LiteralModel {
        match self {
            Literal::Int(s) => LiteralModel::Int(s@),
            Literal::Uint(s) => LiteralModel::Uint(s@),
            Literal::Float(s) => LiteralModel::Float(s@),
            Literal::Double(s) => LiteralModel::Double(s@),
            Literal::Bool(b) => LiteralModel::Bool(b),
            Literal::Char(s) => LiteralModel::Char(s@),
            Literal::String(s) => LiteralModel::String(s@),
            Literal::Unit => LiteralModel::Unit,
        }
    }
}

impl<'src> Type<'src> {
    pub open spec fn model(self) -> TypeModel {
        match self {
            Type::I8 => TypeModel::I8,
            Type::U8 => TypeModel::U8,
            Type::Bool => TypeModel::Bool,
            Type::Char => TypeModel::Char,
            Type::I16 => TypeModel::I16,
            Type::U16 => TypeModel::U16,
            Type::I32 => TypeModel::I32,
            Type::U32 => TypeModel::U32,
            Type::F32 => TypeModel::F32,
            Type::I64 => TypeModel::I64,
            Type::U64 => TypeModel::U64,
            Type::F64 => TypeModel::F64,
            Type::Unit => TypeModel::Unit,
            Type::Str => TypeModel::Str,
            Type::Inferred => TypeModel::Inferred,
            Type::Ident(id) => TypeModel::Named(id.0@),
        }
    }
}

impl<'src> Expr<'src> {
    pub open spec fn model(self) -> ExprModel
        decreases self,
    {
        match self {
            Expr::Ident(id) => ExprModel::Ident(id.0@),
            Expr::Literal(l) => ExprModel::Literal(l.model()),
            Expr::Assign { op, lhs, rhs } => ExprModel::Assign {
                op,
                lhs: lhs.model(),
                rhs: Box::new(rhs.model()),
            },
            Expr::Unary { op, expr } => ExprModel::Unary { op, expr: Box::new(expr.model()) },
            Expr::Binary { op, lhs, rhs } => ExprModel::Binary {
                op,
                lhs: Box::new(lhs.model()),
                rhs: Box::new(rhs.model()),
            },
            Expr::Call { func, args } => ExprModel::Call {
                func: Box::new(func.model()),
                args: exprs_model(args@),
            },
            Expr::Method { receiver, method, args } => ExprModel::Method {
                receiver: Box::new(receiver.model()),
                method: method.0@,
                args: exprs_model(args@),
            },
            Expr::Field { obj, name } => ExprModel::Field { obj: Box::new(obj.model()), name: name.0@ },
            Expr::Index { obj, sub } => ExprModel::Index { obj: Box::new(obj.model()), sub: sub.model() },
            Expr::Unknown => ExprModel::Unknown,
        }
    }
}

/// The model of each expression of a sequence, in order.
pub open spec fn exprs_model<'src>(s: Seq<Expr<'src>>) -> Seq<ExprModel>
    decreases s,
{
    if s.len() == 0 {
        Seq::empty()
    } else {
        exprs_model(s.drop_last()).push(s.last().model())
    }
}

/// The model of a sequence grown by one expression.
pub proof fn lemma_exprs_model_push<'src>(s: Seq<Expr<'src>>, e: Expr<'src>)
    ensures
        exprs_model(s.push(e)) == exprs_model(s).push(e.model()),
        exprs_model(Seq::<Expr<'src>>::empty()) == Seq::<ExprModel>::empty(),
{
    assert(s.push(e).drop_last() =~= s);
}

impl<'src> LeftSide<'src> {
    pub open spec fn model(self) -> PlaceModel
        decreases self,
    {
        match self {
            LeftSide::Var(id) => PlaceModel::Var(id.0@),
            LeftSide::Field { obj, name } => PlaceModel::Field { obj: Box::new(obj.model()), name: name.0@ },
            LeftSide::Subscript { obj, sub } => PlaceModel::Subscript {
                obj: Box::new(obj.model()),
                sub: sub.model(),
            },
        }
    }
}

impl<'src> Subscript<'src> {
    pub open spec fn model(self) -> SubscriptModel
        decreases self,
    {
        match self {
            Subscript::Index(e) => SubscriptModel::Index(Box::new(e.model())),
            Subscript::Range { start, end } => SubscriptModel::Range {
                start: match start {
                    Some(e) => Some(Box::new(e.model())),
                    None => None,
                },
                end: match end {
                    Some(e) => Some(Box::new(e.model())),
                    None => None,
                },
            },
        }
    }
}

impl<'src> Stmt<'src> {
    pub open spec fn model(self) -> StmtModel {
        match self {
            Stmt::Expr(e) => StmtModel::Expr(e.model()),
            Stmt::Return(e) => StmtModel::Return(
                match e {
                    Some(x) => Some(x.model()),
                    None => None,
                },
            ),
            Stmt::Break => StmtModel::Break,
            Stmt::Continue => StmtModel::Continue,
            Stmt::VarDecl { name, typ, init, mutable, constant, global } => StmtModel::VarDecl {
                name: name.0@,
                typ: typ.model(),
                init: match init {
                    Some(x) => Some(x.model()),
                    None => None,
                },
                mutable,
                constant,
                global,
            },
        }
    }
}

/// The model of each statement of a sequence, in order.
pub open spec fn stmts_model<'src>(s: Seq<Stmt<'src>>) -> Seq<StmtModel> {
    s.map_values(|x: Stmt<'src>| x.model())
}

} // verus!
