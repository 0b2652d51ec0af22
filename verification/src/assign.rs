//! Rewriting of assignments to bit-field members.
//!
//! A store to a bit-field member cannot be a plain field assignment in the
//! target language: it must go through the member's synthesized setter.
//! [`convert_bitfield_assignment_op_with_rhs`] turns an assignment
//! operator, the member's name, and the already-translated operand
//! expressions into a single setter call whose argument encodes the
//! requested arithmetic.

use vstd::prelude::*;

verus! {

/// The non-assigning arithmetic operators a compound assignment desugars
/// to.
#[derive(Clone, Copy, Debug, PartialEq, Eq, Structural)]
pub enum ArithOp {
    Add,
    Sub,
    Mul,
    Div,
}

/// The assignment operators of the source language.
#[derive(Clone, Copy, Debug, PartialEq, Eq, Structural)]
pub enum AssignOp {
    Assign,
    AddAssign,
    SubAssign,
    MulAssign,
    DivAssign,
    RemAssign,
    ShlAssign,
    ShrAssign,
    BitAndAssign,
    BitOrAssign,
    BitXorAssign,
}

/// An already-translated target-language expression: either an opaque
/// expression handed in by the expression-translation collaborator, or an
/// arithmetic combination built here.
#[derive(Debug, PartialEq, Eq)]
pub enum BfExpr {
    Opaque { text: String },
    Binary { op: ArithOp, lhs: Box<BfExpr>, rhs: Box<BfExpr> },
}

/// A call of a synthesized setter: `<setter_name>(<arg>)` on the struct
/// value at hand.
#[derive(Debug, PartialEq, Eq)]
pub struct SetterCall {
    pub setter_name: String,
    pub arg: BfExpr,
}

/// The mathematical value of a [`SetterCall`].
#[verifier::ext_equal]
pub struct SetterCallV {
    pub setter_name: Seq<char>,
    pub arg: BfExpr,
}

impl View for SetterCall {
    type V = SetterCallV;

    open spec fn view(&self) -> SetterCallV {
        SetterCallV { setter_name: self.setter_name@, arg: self.arg }
    }
}

/// A structural copy of an expression.
pub fn copy_bf_expr(e: &BfExpr) -> (r: BfExpr)
    ensures
        r == *e,
    decreases *e,
{
    match e {
        BfExpr::Opaque { text } => BfExpr::Opaque { text: text.clone() },
        BfExpr::Binary { op, lhs, rhs } => BfExpr::Binary {
            op: *op,
            lhs: Box::new(copy_bf_expr(&**lhs)),
            rhs: Box::new(copy_bf_expr(&**rhs)),
        },
    }
}

/// The source spelling of an assignment operator.
pub open spec fn op_token(op: AssignOp) -> Seq<char> {
    match op {
        AssignOp::Assign => "="@,
        AssignOp::AddAssign => "+="@,
        AssignOp::SubAssign => "-="@,
        AssignOp::MulAssign => "*="@,
        AssignOp::DivAssign => "/="@,
        AssignOp::RemAssign => "%="@,
        AssignOp::ShlAssign => "<<="@,
        AssignOp::ShrAssign => ">>="@,
        AssignOp::BitAndAssign => "&="@,
        AssignOp::BitOrAssign => "|="@,
        AssignOp::BitXorAssign => "^="@,
    }
}

/// The source spelling of an assignment operator, for error reports.
pub fn op_token_str(op: AssignOp) -> (r: &'static str)
    ensures
        r@ == op_token(op),
{
    match op {
        AssignOp::Assign => "=",
        AssignOp::AddAssign => "+=",
        AssignOp::SubAssign => "-=",
        AssignOp::MulAssign => "*=",
        AssignOp::DivAssign => "/=",
        AssignOp::RemAssign => "%=",
        AssignOp::ShlAssign => "<<=",
        AssignOp::ShrAssign => ">>=",
        AssignOp::BitAndAssign => "&=",
        AssignOp::BitOrAssign => "|=",
        AssignOp::BitXorAssign => "^=",
    }
}

/// The arithmetic counterpart of a compound assignment operator, if the
/// operator is supported.
pub open spec fn desugared_op(op: AssignOp) -> Option<ArithOp> {
    match op {
        AssignOp::AddAssign => Some(ArithOp::Add),
        AssignOp::SubAssign => Some(ArithOp::Sub),
        AssignOp::MulAssign => Some(ArithOp::Mul),
        AssignOp::DivAssign => Some(ArithOp::Div),
        _ => None,
    }
}

/// Whether an assignment operator can be desugared at all.
pub open spec fn op_supported(op: AssignOp) -> bool {
    op == AssignOp::Assign || desugared_op(op) is Some
}

/// The name of the setter synthesized for a member.
pub open spec fn setter_name_of(name: Seq<char>) -> Seq<char> {
    "set_"@ + name
}

/// The setter name `set_<name>` as a fresh string.
pub fn render_setter_name(name: &str) -> (r: String)
    ensures
        r@ == setter_name_of(name@),
{
    let mut s = String::new();
    s.append("set_");
    s.append(name);
    s
}

/// Rewrites `<field> <op> <rhs>` on a bit-field member into one setter
/// call.
///
/// Plain `=` becomes `set_<field>(rhs)`, reading no prior value.  The
/// compound operators `+=`, `-=`, `*=` and `/=` become
/// `set_<field>(<op'>(lhs, rhs))`, where `op'` is the non-assigning
/// counterpart and `lhs` is the already-translated current value of the
/// member.  Every other operator is unsupported and reported by name.
pub fn convert_bitfield_assignment_op_with_rhs(
    op: AssignOp,
    field_name: &str,
    lhs: BfExpr,
    rhs: BfExpr,
) -> (r: Result<SetterCall, crate::error::LayoutError>)
    ensures
        (r is Ok <==> op_supported(op)),
        (r matches Ok(c) ==> c.setter_name@ == setter_name_of(field_name@)),
        (op == AssignOp::Assign ==> (r matches Ok(c) && c.arg == rhs)),
        (desugared_op(op) matches Some(a) ==> (r matches Ok(c) && (c.arg matches BfExpr::Binary {
            op: bop,
            lhs: bl,
            rhs: br,
        } && bop == a && *bl == lhs && *br == rhs))),
        (!op_supported(op) ==> r == Err::<SetterCall, crate::error::LayoutError>(
            crate::error::LayoutError::UnsupportedOperator { op },
        )),
{
    match op {
        AssignOp::Assign => Ok(SetterCall { setter_name: render_setter_name(field_name), arg: rhs }),
        AssignOp::AddAssign => Ok(
            SetterCall {
                setter_name: render_setter_name(field_name),
                arg: BfExpr::Binary { op: ArithOp::Add, lhs: Box::new(lhs), rhs: Box::new(rhs) },
            },
        ),
        AssignOp::SubAssign => Ok(
            SetterCall {
                setter_name: render_setter_name(field_name),
                arg: BfExpr::Binary { op: ArithOp::Sub, lhs: Box::new(lhs), rhs: Box::new(rhs) },
            },
        ),
        AssignOp::MulAssign => Ok(
            SetterCall {
                setter_name: render_setter_name(field_name),
                arg: BfExpr::Binary { op: ArithOp::Mul, lhs: Box::new(lhs), rhs: Box::new(rhs) },
            },
        ),
        AssignOp::DivAssign => Ok(
            SetterCall {
                setter_name: render_setter_name(field_name),
                arg: BfExpr::Binary { op: ArithOp::Div, lhs: Box::new(lhs), rhs: Box::new(rhs) },
            },
        ),
        _ => Err(crate::error::LayoutError::UnsupportedOperator { op }),
    }
}

} // verus!
