use vstd::prelude::*;

verus! {

/// A unary operator of the source language.
#[derive(Debug, Clone, Copy, PartialEq, Eq, Structural)]
pub enum UnaryOp {
    /// Arithmetic negation.
    Neg,
    /// Logical not: one when the operand is zero, zero otherwise.
    Not,
}

/// A binary operator of the source language.
#[derive(Debug, Clone, Copy, PartialEq, Eq, Structural)]
pub enum BinaryOp {
    Add,
    Sub,
    Mul,
    Div,
    Mod,
    Lt,
    Gt,
    Le,
    Ge,
    Eq,
    Ne,
    And,
    Or,
}

/// An expression of the source language, as handed over by the parser.
#[derive(Debug)]
pub enum Exp {
    /// An integer literal.
    Num(i32),
    /// An identifier followed by zero or more index expressions.
    LVal(String, Vec<Exp>),
    /// A unary operation.
    Unary(UnaryOp, Box<Exp>),
    /// A binary operation.
    Binary(BinaryOp, Box<Exp>, Box<Exp>),
    /// A call of a named function with argument expressions.
    Call(String, Vec<Exp>),
}

/// An expression that must fold to a compile-time constant.
#[derive(Debug)]
pub struct ConstExp(pub Exp);

/// An initializer: a single expression or a brace-enclosed list.
#[derive(Debug)]
pub enum InitVal {
    /// A plain expression initializing a scalar.
    Single(Exp),
    /// A list initializing an array, element by element.
    List(Vec<InitVal>),
}

/// A constant definition: `const int id[dims] = init;`.
#[derive(Debug)]
pub struct ConstDef {
    pub id: String,
    pub dims: Vec<ConstExp>,
    pub init: InitVal,
}

/// A variable definition: `int id[dims]` with an optional initializer.
#[derive(Debug)]
pub struct VarDef {
    pub id: String,
    pub dims: Vec<ConstExp>,
    pub init: Option<InitVal>,
}

/// A declaration of one name, constant or variable.
#[derive(Debug)]
pub enum Decl {
    Const(ConstDef),
    Var(VarDef),
}

/// A statement of the source language.
#[derive(Debug)]
pub enum Stmt {
    /// Assignment to a possibly indexed identifier.
    Assign(String, Vec<Exp>, Exp),
    /// An expression statement, possibly empty.
    Exp(Option<Exp>),
    /// A braced block opening its own scope.
    Block(Block),
    /// A conditional with an optional else branch.
    If(Exp, Box<Stmt>, Option<Box<Stmt>>),
    /// A while loop.
    While(Exp, Box<Stmt>),
    /// Leaves the innermost loop.
    Break,
    /// Returns to the innermost loop's condition.
    Continue,
    /// Returns from the current function, with or without a value.
    Return(Option<Exp>),
}

/// A braced sequence of declarations and statements.
#[derive(Debug)]
pub struct Block {
    pub items: Vec<BlockItem>,
}

/// One item of a block.
#[derive(Debug)]
pub enum BlockItem {
    Decl(Decl),
    Stmt(Stmt),
}

/// A function parameter: a scalar integer.
#[derive(Debug)]
pub struct FuncParam {
    pub id: String,
}

/// A function definition.
#[derive(Debug)]
pub struct FuncDef {
    /// Whether the function was declared void.
    pub ret_void: bool,
    pub id: String,
    pub params: Vec<FuncParam>,
    pub body: Block,
}

/// One top-level item of a compile unit.
#[derive(Debug)]
pub enum GlobalItem {
    Decl(Decl),
    Func(FuncDef),
}

/// A fully parsed compile unit, handed over by the parser.
#[derive(Debug)]
pub struct CompUnit {
    pub items: Vec<GlobalItem>,
}

} // verus!
