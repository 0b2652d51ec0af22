use bitfield_layout::assign::BfExpr;
use bitfield_layout::assign::SetterCall;
use bitfield_layout::error::LayoutError;
use bitfield_layout::field::FieldDescriptor;
use bitfield_layout::init::FieldInit;
use bitfield_layout::init::InitValue;
use bitfield_layout::init::bitfield_zero_initializer;
use bitfield_layout::init::convert_bitfield_struct_literal;

fn fd(
    name: &str,
    ty: &str,
    bit_width: Option<u64>,
    bit_offset: u64,
    storage_unit_width: u64,
) -> FieldDescriptor {
    FieldDescriptor {
        name: name.to_string(),
        ty: ty.to_string(),
        bit_width,
        bit_offset,
        storage_unit_width,
    }
}

fn opaque(text: &str) -> BfExpr {
    BfExpr::Opaque { text: text.to_string() }
}

fn four_fields() -> Vec<FieldDescriptor> {
    vec![
        fd("a", "c_uint", Some(4), 0, 32),
        fd("b", "c_uint", Some(4), 4, 32),
        fd("c", "c_uchar", None, 8, 8),
        fd("d", "c_uchar", None, 16, 8),
    ]
}

#[test]
fn zero_initializer_zeroes_groups_and_padding() {
    let fields = vec![
        fd("a", "c_uint", Some(7), 0, 32),
        fd("c", "c_uchar", None, 24, 8),
    ];
    let init = bitfield_zero_initializer(&fields, 8);
    assert_eq!(
        init,
        vec![
            FieldInit { name: "a".to_string(), value: InitValue::ZeroBytes { len: 1 } },
            FieldInit { name: "_pad".to_string(), value: InitValue::ZeroBytes { len: 2 } },
            FieldInit {
                name: "c".to_string(),
                value: InitValue::ImplicitDefault { ty: "c_uchar".to_string() },
            },
            FieldInit { name: "_pad2".to_string(), value: InitValue::ZeroBytes { len: 4 } },
        ]
    );
}

#[test]
fn fewer_exprs_fall_back_to_defaults() {
    let fields = four_fields();
    let supplied = vec![opaque("7")];
    let plan = convert_bitfield_struct_literal("Foo".to_string(), 3, &supplied, &fields)
        .expect("arity is fine");
    assert_eq!(plan.name, "Foo".to_string());
    assert_eq!(
        plan.base,
        vec![
            FieldInit { name: "a_b".to_string(), value: InitValue::ZeroBytes { len: 1 } },
            FieldInit {
                name: "c".to_string(),
                value: InitValue::ImplicitDefault { ty: "c_uchar".to_string() },
            },
            FieldInit {
                name: "d".to_string(),
                value: InitValue::ImplicitDefault { ty: "c_uchar".to_string() },
            },
        ]
    );
    assert_eq!(
        plan.setters,
        vec![SetterCall { setter_name: "set_a".to_string(), arg: opaque("7") }]
    );
}

#[test]
fn supplied_regular_value_is_placed_directly() {
    let fields = four_fields();
    let supplied = vec![opaque("1"), opaque("2"), opaque("3")];
    let plan = convert_bitfield_struct_literal("Foo".to_string(), 3, &supplied, &fields)
        .expect("arity is fine");
    assert_eq!(
        plan.base,
        vec![
            FieldInit { name: "a_b".to_string(), value: InitValue::ZeroBytes { len: 1 } },
            FieldInit { name: "c".to_string(), value: InitValue::Given { expr: opaque("3") } },
            FieldInit {
                name: "d".to_string(),
                value: InitValue::ImplicitDefault { ty: "c_uchar".to_string() },
            },
        ]
    );
    assert_eq!(
        plan.setters,
        vec![
            SetterCall { setter_name: "set_a".to_string(), arg: opaque("1") },
            SetterCall { setter_name: "set_b".to_string(), arg: opaque("2") },
        ]
    );
}

#[test]
fn markers_are_skipped_when_pairing() {
    let fields = vec![
        fd("a", "c_uint", Some(4), 0, 32),
        fd("", "c_uint", Some(0), 4, 32),
        fd("c", "c_uchar", None, 8, 8),
    ];
    let supplied = vec![opaque("1"), opaque("2")];
    let plan = convert_bitfield_struct_literal("Foo".to_string(), 2, &supplied, &fields)
        .expect("arity is fine");
    assert_eq!(
        plan.setters,
        vec![SetterCall { setter_name: "set_a".to_string(), arg: opaque("1") }]
    );
    assert_eq!(
        plan.base,
        vec![
            FieldInit { name: "a".to_string(), value: InitValue::ZeroBytes { len: 1 } },
            FieldInit { name: "c".to_string(), value: InitValue::Given { expr: opaque("2") } },
        ]
    );
}

#[test]
fn excess_exprs_raise_arity_error() {
    let fields = four_fields();
    let supplied = vec![
        opaque("1"),
        opaque("2"),
        opaque("3"),
        opaque("4"),
        opaque("5"),
    ];
    let err = convert_bitfield_struct_literal("Foo".to_string(), 3, &supplied, &fields)
        .expect_err("one expression too many");
    assert_eq!(err, LayoutError::ExcessInitializers { supplied: 5, expected: 4 });
    assert_eq!(
        err.message(),
        "struct literal supplies more expressions than there are fields".to_string()
    );
}
