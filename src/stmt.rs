//! The statements that the parser produces, and their mathematical model.
use vstd::prelude::*;

verus! {

/// A validated label name, used as the target of a jump.
#[derive(Debug, Clone, PartialEq, Eq, Hash)]
pub struct Label {
    pub name: String,
}

impl Label {
    /// Wraps a name; callers check it with `is_valid_label` first.
    pub fn new(name: String) -> (r: Label)
        ensures
            r.name@ == name@,
    {
        Label { name }
    }
}

/// A reference to a register: read directly, or through one level of
/// indirection. Register indices are unsigned (`usize`).
#[derive(Debug, Clone, Copy, PartialEq, Eq, Structural, Hash)]
pub enum RegisterValue {
    Direct(usize),
    Indirect(usize),
}

/// The operand of an arithmetic or output instruction.
#[derive(Debug, Clone, Copy, PartialEq, Eq, Structural, Hash)]
pub enum Value {
    /// An immediate constant, a signed 64-bit literal.
    Pure(i64),
    Register(RegisterValue),
}

/// One classified source line; every variant carries its zero-based line number.
#[derive(Debug, Clone, PartialEq, Eq, Hash)]
pub enum Stmt {
    Label(String, usize),
    Load(Value, usize),
    Store(RegisterValue, usize),
    Add(Value, usize),
    Sub(Value, usize),
    Mul(Value, usize),
    Div(Value, usize),
    Input(RegisterValue, usize),
    Output(Value, usize),
    Jump(Label, usize),
    JumpIfZero(Label, usize),
    JumpGreaterThanZero(Label, usize),
    Halt(usize),
}

/// A statement with its texts seen as character sequences.
pub enum StmtModel {
    Label(Seq<char>, usize),
    Load(Value, usize),
    Store(RegisterValue, usize),
    Add(Value, usize),
    Sub(Value, usize),
    Mul(Value, usize),
    Div(Value, usize),
    Input(RegisterValue, usize),
    Output(Value, usize),
    Jump(Seq<char>, usize),
    JumpIfZero(Seq<char>, usize),
    JumpGreaterThanZero(Seq<char>, usize),
    Halt(usize),
}

impl View for Stmt {
    type V = StmtModel;

    open spec fn view(&self) -> StmtModel {
        match self {
            Stmt::Label(n, l) => StmtModel::Label(n@, *l),
            Stmt::Load(v, l) => StmtModel::Load(*v, *l),
            Stmt::Store(r, l) => StmtModel::Store(*r, *l),
            Stmt::Add(v, l) => StmtModel::Add(*v, *l),
            Stmt::Sub(v, l) => StmtModel::Sub(*v, *l),
            Stmt::Mul(v, l) => StmtModel::Mul(*v, *l),
            Stmt::Div(v, l) => StmtModel::Div(*v, *l),
            Stmt::Input(r, l) => StmtModel::Input(*r, *l),
            Stmt::Output(v, l) => StmtModel::Output(*v, *l),
            Stmt::Jump(t, l) => StmtModel::Jump(t.name@, *l),
            Stmt::JumpIfZero(t, l) => StmtModel::JumpIfZero(t.name@, *l),
            Stmt::JumpGreaterThanZero(t, l) => StmtModel::JumpGreaterThanZero(t.name@, *l),
            Stmt::Halt(l) => StmtModel::Halt(*l),
        }
    }
}

} // verus!
