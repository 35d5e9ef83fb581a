//! The syntax tree that the simulation code generator walks.
//!
//! Only the parts of the HDL front end's tree that the generator reads are
//! modelled here: expressions, declared types, parameters, ports, module
//! body items, statements, functions and the top-level items of a source
//! file, plus the resolver's table of global symbols.
use vstd::prelude::*;

verus! {

/// Byte range of a syntax node in the (concatenated) source text.
#[derive(Clone, Copy, Debug)]
pub struct Span {
    pub start: usize,
    pub end: usize,
}

/// A name as written in the source.
pub struct Ident {
    pub name: String,
}

/// Bit formats of float literals that were already rounded to their
/// context type.
#[derive(Clone, Copy, Debug, PartialEq, Eq, Structural)]
pub enum FloatLitFmt {
    Fp32,
    Bf16,
    E4m3,
    E5m2,
    E2m1,
    E2m3,
    E3m2,
}

/// Integer literals keep their value as a `u64`; a typed float literal keeps
/// the bit pattern of its target format.
pub enum LitKind {
    Dec(u64),
    Hex(u64),
    Bin(u64),
    Sized(u32, u64),
    TypedFloat(FloatLitFmt, u64),
}

#[derive(Clone, Copy, Debug, PartialEq, Eq, Structural)]
pub enum BinOp {
    Add,
    Sub,
    Mul,
    Div,
    Mod,
    AddWrap,
    SubWrap,
    MulWrap,
    Eq,
    Neq,
    Lt,
    Gt,
    Lte,
    Gte,
    And,
    Or,
    BitAnd,
    BitOr,
    BitXor,
    Shl,
    Shr,
    Implies,
    ImpliesNext,
}

#[derive(Clone, Copy, Debug, PartialEq, Eq, Structural)]
pub enum UnaryOp {
    Not,
    BitNot,
    Neg,
    RedAnd,
    RedOr,
    RedXor,
}

#[derive(Clone, Copy, Debug, PartialEq, Eq, Structural)]
pub enum ResetKind {
    Sync,
    Async,
}

#[derive(Clone, Copy, Debug, PartialEq, Eq, Structural)]
pub enum ResetLevel {
    High,
    Low,
}

/// A declared type.
pub enum TypeExpr {
    UInt(Box<Expr>),
    SInt(Box<Expr>),
    Bool,
    Bit,
    Clock(Ident),
    Reset(ResetKind, ResetLevel),
    Named(Ident),
    Vec(Box<TypeExpr>, Box<Expr>),
    FP32,
    BF16,
    FP8E4M3,
    FP8E5M2,
}

/// `name: value` inside a struct literal.
pub struct FieldInit {
    pub name: Ident,
    pub value: Expr,
}

pub enum Pattern {
    Wildcard,
    Ident(Ident),
    Literal(Expr),
    EnumVariant(Ident, Ident),
}

/// One arm of a `match` expression.
pub struct ExprMatchArm {
    pub pattern: Pattern,
    pub value: Expr,
}

pub enum InsideMember {
    Single(Expr),
    Range(Expr, Expr),
}

pub enum ExprKind {
    Literal(LitKind),
    Bool(bool),
    Ident(String),
    SynthIdent(String),
    Binary(BinOp, Box<Expr>, Box<Expr>),
    Unary(UnaryOp, Box<Expr>),
    Ternary(Box<Expr>, Box<Expr>, Box<Expr>),
    Index(Box<Expr>, Box<Expr>),
    BitSlice(Box<Expr>, Box<Expr>, Box<Expr>),
    /// `base[start +: width]` (`true`) or `base[start -: width]` (`false`).
    PartSelect(Box<Expr>, Box<Expr>, Box<Expr>, bool),
    FieldAccess(Box<Expr>, Ident),
    MethodCall(Box<Expr>, Ident, Vec<Expr>),
    Cast(Box<Expr>, Box<TypeExpr>),
    Concat(Vec<Expr>),
    Repeat(Box<Expr>, Box<Expr>),
    Clog2(Box<Expr>),
    Onehot(Box<Expr>),
    Signed(Box<Expr>),
    Unsigned(Box<Expr>),
    FunctionCall(String, Vec<Expr>),
    EnumVariant(Ident, Ident),
    StructLiteral(Ident, Vec<FieldInit>),
    ExprMatch(Box<Expr>, Vec<ExprMatchArm>),
    Inside(Box<Expr>, Vec<InsideMember>),
    /// `expr @ N`: a latency annotation, transparent to simulation.
    LatencyAt(Box<Expr>, u32),
    /// SVA `##N expr`.
    SvaNext(u32, Box<Expr>),
    Todo,
}

pub struct Expr {
    pub kind: ExprKind,
    pub span: Span,
}

pub enum ParamKind {
    Const,
    WidthConst(Expr, Expr),
    Logic(TypeExpr),
    EnumConst(String),
    Type,
}

pub struct ParamDecl {
    pub name: Ident,
    pub kind: ParamKind,
    pub default: Option<Expr>,
}

#[derive(Clone, Copy, Debug, PartialEq, Eq, Structural)]
pub enum Direction {
    In,
    Out,
}

/// How a register is reset.
pub enum RegReset {
    NoReset,
    /// Reset by the named port, whose type gives kind and level.
    Inherit(Ident, Expr),
    Explicit(Ident, ResetKind, ResetLevel, Expr),
}

/// Present on ports that are declared as registers (`port reg`).
pub struct PortRegInfo {
    pub reset: RegReset,
}

pub struct PortDecl {
    pub name: Ident,
    pub direction: Direction,
    pub ty: TypeExpr,
    pub reg_info: Option<PortRegInfo>,
}

pub struct RegDecl {
    pub name: Ident,
    pub ty: TypeExpr,
    pub reset: RegReset,
}

pub struct WireDecl {
    pub name: Ident,
    pub ty: TypeExpr,
}

pub struct LetBinding {
    pub name: Ident,
    pub ty: Option<TypeExpr>,
    pub value: Expr,
    /// `let {a, b} = expr;` binds each listed field.
    pub destructure_fields: Vec<Ident>,
}

pub struct PipeRegDecl {
    pub name: Ident,
    pub source: Ident,
    pub stages: u32,
}

#[derive(Clone, Copy, Debug, PartialEq, Eq, Structural)]
pub enum ConnectDir {
    Input,
    Output,
}

pub struct Connection {
    pub port_name: Ident,
    pub direction: ConnectDir,
    pub signal: Expr,
}

pub struct ParamAssign {
    pub name: Ident,
    pub value: Expr,
}

pub struct InstDecl {
    pub name: Ident,
    pub module_name: Ident,
    pub param_assigns: Vec<ParamAssign>,
    pub connections: Vec<Connection>,
}

pub struct Assign {
    pub target: Expr,
    pub value: Expr,
}

pub struct IfElse {
    pub cond: Expr,
    pub then_stmts: Vec<Stmt>,
    pub else_stmts: Vec<Stmt>,
}

pub struct MatchArm {
    pub pattern: Pattern,
    pub body: Vec<Stmt>,
}

pub struct MatchStmt {
    pub scrutinee: Expr,
    pub arms: Vec<MatchArm>,
}

pub enum ForRange {
    Range(Expr, Expr),
    ValueList(Vec<Expr>),
}

pub struct ForLoop {
    pub var: Ident,
    pub range: ForRange,
    pub body: Vec<Stmt>,
}

pub struct LogStmt {
    pub file: Option<String>,
    pub args: Vec<Expr>,
}

pub struct InitBlock {
    pub body: Vec<Stmt>,
}

pub enum Stmt {
    Assign(Assign),
    IfElse(IfElse),
    Match(MatchStmt),
    For(ForLoop),
    Log(LogStmt),
    Init(InitBlock),
    WaitUntil(Expr, u32),
    DoUntil { body: Vec<Stmt>, cond: Expr },
}

pub struct CombBlock {
    pub stmts: Vec<Stmt>,
}

pub struct RegBlock {
    pub stmts: Vec<Stmt>,
}

pub enum GenItem {
    Inst(InstDecl),
    Other,
}

pub struct GenFor {
    pub var: Ident,
    pub start: Expr,
    pub end: Expr,
    pub items: Vec<GenItem>,
}

pub enum GenerateDecl {
    For(GenFor),
    If(Expr, Vec<GenItem>),
}

pub struct FnLet {
    pub name: Ident,
    pub ty: Option<TypeExpr>,
    pub value: Expr,
}

pub struct FnIfElse {
    pub cond: Expr,
    pub then_body: Vec<FunctionBodyItem>,
    pub else_body: Vec<FunctionBodyItem>,
}

pub struct FnFor {
    pub var: Ident,
    pub range: ForRange,
    pub body: Vec<FunctionBodyItem>,
}

pub enum FunctionBodyItem {
    Let(FnLet),
    Return(Expr),
    IfElse(FnIfElse),
    For(FnFor),
    Assign(Assign),
}

pub struct FunctionArg {
    pub name: Ident,
    pub ty: TypeExpr,
}

pub struct FunctionDecl {
    pub name: Ident,
    pub args: Vec<FunctionArg>,
    pub ret_ty: TypeExpr,
    pub body: Vec<FunctionBodyItem>,
}

pub enum ModuleBodyItem {
    RegDecl(RegDecl),
    WireDecl(WireDecl),
    LetBinding(LetBinding),
    PipeRegDecl(PipeRegDecl),
    Inst(InstDecl),
    CombBlock(CombBlock),
    RegBlock(RegBlock),
    Generate(GenerateDecl),
    Function(FunctionDecl),
}

pub struct ModuleDecl {
    pub name: Ident,
    pub params: Vec<ParamDecl>,
    pub ports: Vec<PortDecl>,
    pub body: Vec<ModuleBodyItem>,
    pub is_interface: bool,
}

pub struct StructField {
    pub name: Ident,
    pub ty: TypeExpr,
}

pub struct StructDecl {
    pub name: Ident,
    pub fields: Vec<StructField>,
}

pub struct PackageDecl {
    pub name: Ident,
    pub params: Vec<ParamDecl>,
    pub functions: Vec<FunctionDecl>,
    pub structs: Vec<StructDecl>,
}

/// What every first-class construct other than a module shares.
pub struct ConstructCommon {
    pub name: Ident,
    pub params: Vec<ParamDecl>,
    pub ports: Vec<PortDecl>,
    pub is_interface: bool,
}

/// A group of request ports of an arbiter (`ports[N] req { ... }`).
pub struct PortArray {
    pub name: Ident,
    pub count_expr: Expr,
    pub signals: Vec<PortDecl>,
}

/// The `hook grant_select(...) = Fn(...)` binding of a custom-policy
/// arbiter: the hook's declared parameters and the arguments it passes.
pub struct ArbiterHook {
    pub params: Vec<FunctionArg>,
    pub fn_args: Vec<Ident>,
}

pub struct ArbiterDecl {
    pub name: Ident,
    pub params: Vec<ParamDecl>,
    pub ports: Vec<PortDecl>,
    pub port_arrays: Vec<PortArray>,
    pub hook: Option<ArbiterHook>,
    /// The current owner keeps the grant while it still requests.
    pub lock_hold: bool,
    pub is_interface: bool,
}

/// A stage of a pipeline construct.
pub struct StageDecl {
    pub name: Ident,
    pub body: Vec<ModuleBodyItem>,
}

/// How a clock gate holds its enable.
#[derive(Clone, Copy, Debug, PartialEq, Eq, Structural)]
pub enum ClkGateKind {
    /// The enable is latched while the clock is low.
    Latch,
    /// The clock is ANDed with the enable directly.
    And,
}

pub struct ClkGateDecl {
    pub name: Ident,
    pub params: Vec<ParamDecl>,
    pub ports: Vec<PortDecl>,
    pub kind: ClkGateKind,
    pub is_interface: bool,
}

pub enum Item {
    Module(ModuleDecl),
    Function(FunctionDecl),
    Package(PackageDecl),
    Struct(StructDecl),
    Fsm(ConstructCommon),
    Fifo(ConstructCommon),
    Ram(ConstructCommon),
    Cam(ConstructCommon),
    Counter(ConstructCommon),
    Arbiter(ArbiterDecl),
    Regfile(ConstructCommon),
    Pipeline(ConstructCommon),
    Linklist(ConstructCommon),
    Synchronizer(ConstructCommon),
    Clkgate(ClkGateDecl),
}

pub struct SourceFile {
    pub items: Vec<Item>,
}

/// Variants of an enum in declaration order, with explicit encodings
/// where the source gives one.
pub struct EnumInfo {
    pub variants: Vec<String>,
    pub values: Vec<Option<u64>>,
}

pub struct ModuleInfo {
    pub ports: Vec<PortDecl>,
    pub params: Vec<ParamDecl>,
}

pub enum Symbol {
    Enum(EnumInfo),
    Module(ModuleInfo),
    Other,
}

/// The resolver's global scope, in the order it was filled.
pub struct SymbolTable {
    pub globals: Vec<(String, Symbol)>,
}

} // verus!
