use bitfield_layout::assign::ArithOp;
use bitfield_layout::assign::AssignOp;
use bitfield_layout::assign::BfExpr;
use bitfield_layout::assign::SetterCall;
use bitfield_layout::assign::convert_bitfield_assignment_op_with_rhs;
use bitfield_layout::error::LayoutError;

fn opaque(text: &str) -> BfExpr {
    BfExpr::Opaque { text: text.to_string() }
}

fn binary(op: ArithOp, lhs: BfExpr, rhs: BfExpr) -> BfExpr {
    BfExpr::Binary { op, lhs: Box::new(lhs), rhs: Box::new(rhs) }
}

#[test]
fn add_assign_desugars_to_setter_of_sum() {
    let call =
        convert_bitfield_assignment_op_with_rhs(AssignOp::AddAssign, "x", opaque("x"), opaque("rhs"))
            .expect("supported operator");
    assert_eq!(
        call,
        SetterCall {
            setter_name: "set_x".to_string(),
            arg: binary(ArithOp::Add, opaque("x"), opaque("rhs")),
        }
    );
}

#[test]
fn plain_assign_ignores_prior_value() {
    let call =
        convert_bitfield_assignment_op_with_rhs(AssignOp::Assign, "x", opaque("x"), opaque("rhs"))
            .expect("supported operator");
    assert_eq!(
        call,
        SetterCall { setter_name: "set_x".to_string(), arg: opaque("rhs") }
    );
}

#[test]
fn other_arithmetic_ops_desugar() {
    let cases = [
        (AssignOp::SubAssign, ArithOp::Sub),
        (AssignOp::MulAssign, ArithOp::Mul),
        (AssignOp::DivAssign, ArithOp::Div),
    ];
    for (aop, bop) in cases {
        let call =
            convert_bitfield_assignment_op_with_rhs(aop, "f", opaque("f"), opaque("2"))
                .expect("supported operator");
        assert_eq!(
            call,
            SetterCall {
                setter_name: "set_f".to_string(),
                arg: binary(bop, opaque("f"), opaque("2")),
            }
        );
    }
}

#[test]
fn unsupported_operator_is_reported_by_name() {
    let err =
        convert_bitfield_assignment_op_with_rhs(AssignOp::RemAssign, "x", opaque("x"), opaque("2"))
            .expect_err("unsupported operator");
    assert_eq!(err, LayoutError::UnsupportedOperator { op: AssignOp::RemAssign });
    assert_eq!(err.message(), "unimplemented assignment operator: %=".to_string());
}

#[test]
fn every_unsupported_operator_errs() {
    let ops = [
        (AssignOp::RemAssign, "%="),
        (AssignOp::ShlAssign, "<<="),
        (AssignOp::ShrAssign, ">>="),
        (AssignOp::BitAndAssign, "&="),
        (AssignOp::BitOrAssign, "|="),
        (AssignOp::BitXorAssign, "^="),
    ];
    for (op, token) in ops {
        let err = convert_bitfield_assignment_op_with_rhs(op, "x", opaque("x"), opaque("2"))
            .expect_err("unsupported operator");
        assert_eq!(err, LayoutError::UnsupportedOperator { op });
        let expected = format!("unimplemented assignment operator: {}", token);
        assert_eq!(err.message(), expected);
    }
}
