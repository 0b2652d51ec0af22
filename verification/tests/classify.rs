use bitfield_layout::classify::classify;
use bitfield_layout::field::FieldClass;
use bitfield_layout::field::FieldDescriptor;
use bitfield_layout::field::PackedMember;

fn fd(
    name: &str,
    ty: &str,
    bit_width: Option<u64>,
    bit_offset: u64,
    storage_unit_width: u64,
) -> FieldDescriptor {
    FieldDescriptor {
        name: name.to_string(),
        ty: ty.to_string(),
        bit_width,
        bit_offset,
        storage_unit_width,
    }
}

fn pm(name: &str, ty: &str, bits: &str) -> PackedMember {
    PackedMember { name: name.to_string(), ty: ty.to_string(), bits: bits.to_string() }
}

fn total_bytes(classes: &[FieldClass]) -> u64 {
    classes
        .iter()
        .map(|c| match c {
            FieldClass::BitGroup { byte_size, .. } => *byte_size,
            FieldClass::Padding { byte_size } => *byte_size,
            FieldClass::Regular { byte_size, .. } => *byte_size,
        })
        .sum()
}

#[test]
fn two_adjacent_nibbles_merge() {
    let fields = vec![
        fd("a", "c_uint", Some(4), 0, 32),
        fd("b", "c_uint", Some(4), 4, 32),
    ];
    let classes = classify(&fields, 1);
    assert_eq!(
        classes,
        vec![FieldClass::BitGroup {
            start_bit: 0,
            name: "a_b".to_string(),
            byte_size: 1,
            members: vec![pm("a", "c_uint", "0..=3"), pm("b", "c_uint", "4..=7")],
        }]
    );
}

#[test]
fn gap_before_regular_pads() {
    let fields = vec![
        fd("a", "c_uint", Some(7), 0, 32),
        fd("c", "c_uchar", None, 24, 8),
    ];
    let classes = classify(&fields, 8);
    assert_eq!(
        classes,
        vec![
            FieldClass::BitGroup {
                start_bit: 0,
                name: "a".to_string(),
                byte_size: 1,
                members: vec![pm("a", "c_uint", "0..=6")],
            },
            FieldClass::Padding { byte_size: 2 },
            FieldClass::Regular {
                name: "c".to_string(),
                ty: "c_uchar".to_string(),
                byte_size: 1,
            },
            FieldClass::Padding { byte_size: 4 },
        ]
    );
}

#[test]
fn marker_splits_groups() {
    let fields = vec![
        fd("a", "c_uint", Some(4), 0, 32),
        fd("", "c_uint", Some(0), 4, 32),
        fd("b", "c_uint", Some(4), 4, 32),
    ];
    let classes = classify(&fields, 1);
    assert_eq!(
        classes,
        vec![
            FieldClass::BitGroup {
                start_bit: 0,
                name: "a".to_string(),
                byte_size: 1,
                members: vec![pm("a", "c_uint", "0..=3")],
            },
            FieldClass::BitGroup {
                start_bit: 4,
                name: "b".to_string(),
                byte_size: 0,
                members: vec![pm("b", "c_uint", "0..=3")],
            },
        ]
    );
}

#[test]
fn marker_alone_emits_nothing() {
    let fields = vec![fd("", "c_uint", Some(0), 0, 32)];
    let classes = classify(&fields, 4);
    assert_eq!(classes, vec![FieldClass::Padding { byte_size: 4 }]);
}

#[test]
fn classify_is_pure() {
    let fields = vec![
        fd("a", "c_uint", Some(7), 0, 32),
        fd("c", "c_uchar", None, 24, 8),
    ];
    let first = classify(&fields, 8);
    let second = classify(&fields, 8);
    assert_eq!(first, second);
}

#[test]
fn sizes_sum_to_struct_size() {
    let fields = vec![
        fd("a", "c_uint", Some(7), 0, 32),
        fd("c", "c_uchar", None, 24, 8),
    ];
    let classes = classify(&fields, 8);
    assert_eq!(total_bytes(&classes), 8);
}

#[test]
fn regular_after_flush_group_covers_exactly() {
    let fields = vec![
        fd("a", "c_uchar", Some(8), 0, 8),
        fd("c", "c_uchar", None, 8, 8),
    ];
    let classes = classify(&fields, 2);
    assert_eq!(
        classes,
        vec![
            FieldClass::BitGroup {
                start_bit: 0,
                name: "a".to_string(),
                byte_size: 1,
                members: vec![pm("a", "c_uchar", "0..=7")],
            },
            FieldClass::Regular {
                name: "c".to_string(),
                ty: "c_uchar".to_string(),
                byte_size: 1,
            },
        ]
    );
    assert_eq!(total_bytes(&classes), 2);
}

#[test]
fn one_byte_gap_before_regular_is_not_padded() {
    // The asymmetric gap rule: a regular member pads only a gap of more
    // than one byte, so a single skipped byte stays unclaimed.
    let fields = vec![
        fd("r1", "c_uchar", None, 0, 8),
        fd("r2", "c_uchar", None, 16, 8),
    ];
    let classes = classify(&fields, 3);
    assert_eq!(
        classes,
        vec![
            FieldClass::Regular {
                name: "r1".to_string(),
                ty: "c_uchar".to_string(),
                byte_size: 1,
            },
            FieldClass::Regular {
                name: "r2".to_string(),
                ty: "c_uchar".to_string(),
                byte_size: 1,
            },
        ]
    );
}

#[test]
fn any_positive_gap_before_bitfield_is_padded() {
    // The other side of the asymmetry: a bit-field pads every positive
    // byte gap.
    let fields = vec![fd("x", "c_uint", Some(4), 16, 32)];
    let classes = classify(&fields, 3);
    assert_eq!(
        classes,
        vec![
            FieldClass::Padding { byte_size: 2 },
            FieldClass::BitGroup {
                start_bit: 16,
                name: "x".to_string(),
                byte_size: 1,
                members: vec![pm("x", "c_uint", "0..=3")],
            },
        ]
    );
}

#[test]
fn shared_byte_counted_once() {
    // Three bit-fields packed in two bytes: the middle one straddles the
    // byte the first already touched.
    let fields = vec![
        fd("x", "c_uint", Some(6), 0, 32),
        fd("y", "c_uint", Some(6), 6, 32),
        fd("z", "c_uint", Some(4), 12, 32),
    ];
    let classes = classify(&fields, 2);
    assert_eq!(
        classes,
        vec![FieldClass::BitGroup {
            start_bit: 0,
            name: "x_y_z".to_string(),
            byte_size: 2,
            members: vec![
                pm("x", "c_uint", "0..=5"),
                pm("y", "c_uint", "6..=11"),
                pm("z", "c_uint", "12..=15"),
            ],
        }]
    );
    assert_eq!(total_bytes(&classes), 2);
}
