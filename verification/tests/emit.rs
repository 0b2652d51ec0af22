use bitfield_layout::emit::FieldDecl;
use bitfield_layout::emit::convert_bitfield_struct_decl;
use bitfield_layout::emit::emit;
use bitfield_layout::field::FieldClass;
use bitfield_layout::field::FieldDescriptor;
use bitfield_layout::field::PackedMember;

fn fd(
    name: &str,
    ty: &str,
    bit_width: Option<u64>,
    bit_offset: u64,
    storage_unit_width: u64,
) -> FieldDescriptor {
    FieldDescriptor {
        name: name.to_string(),
        ty: ty.to_string(),
        bit_width,
        bit_offset,
        storage_unit_width,
    }
}

fn pm(name: &str, ty: &str, bits: &str) -> PackedMember {
    PackedMember { name: name.to_string(), ty: ty.to_string(), bits: bits.to_string() }
}

#[test]
fn padding_fields_numbered_from_second() {
    let classes = vec![
        FieldClass::Padding { byte_size: 2 },
        FieldClass::Regular { name: "r".to_string(), ty: "c_int".to_string(), byte_size: 4 },
        FieldClass::Padding { byte_size: 3 },
        FieldClass::Padding { byte_size: 1 },
    ];
    let shape = emit("S".to_string(), None, 4, &classes);
    assert_eq!(
        shape.fields,
        vec![
            FieldDecl::PadArray { name: "_pad".to_string(), len: 2 },
            FieldDecl::Scalar { name: "r".to_string(), ty: "c_int".to_string() },
            FieldDecl::PadArray { name: "_pad2".to_string(), len: 3 },
            FieldDecl::PadArray { name: "_pad3".to_string(), len: 1 },
        ]
    );
}

#[test]
fn manual_alignment_wins() {
    let classes: Vec<FieldClass> = Vec::new();
    let shape = emit("S".to_string(), Some(16), 4, &classes);
    assert_eq!(shape.alignment, 16);
}

#[test]
fn platform_alignment_is_the_default() {
    let classes: Vec<FieldClass> = Vec::new();
    let shape = emit("S".to_string(), None, 4, &classes);
    assert_eq!(shape.alignment, 4);
    assert!(shape.bitfield_capable);
    assert!(shape.copyable);
    assert!(shape.trivially_duplicable);
}

#[test]
fn bitgroup_becomes_annotated_byte_array() {
    let fields = vec![
        fd("bf1", "c_char", Some(10), 0, 32),
        fd("bf2", "c_uchar", Some(6), 10, 32),
    ];
    let shape = convert_bitfield_struct_decl("Foo".to_string(), Some(2), 4, 4, &fields);
    assert_eq!(shape.name, "Foo".to_string());
    assert_eq!(shape.alignment, 2);
    assert_eq!(
        shape.fields,
        vec![
            FieldDecl::ByteArray {
                name: "bf1_bf2".to_string(),
                len: 2,
                packed: vec![pm("bf1", "c_char", "0..=9"), pm("bf2", "c_uchar", "10..=15")],
            },
            FieldDecl::PadArray { name: "_pad".to_string(), len: 1 },
        ]
    );
}
