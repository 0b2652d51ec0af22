//! The input and output data of the field classifier.
//!
//! A [`FieldDescriptor`] is the ABI's description of one C struct member.
//! Classification turns an ordered list of descriptors into an ordered list
//! of [`FieldClass`] values covering the struct byte for byte: merged
//! bit-groups, explicit padding, and untouched regular members.

use vstd::prelude::*;

verus! {

/// One C struct member, as the target ABI describes it.
///
/// `bit_width` distinguishes the three kinds of members: `None` is a
/// regular (non-bit-field) member, `Some(0)` is a zero-width marker that
/// only closes an open bit-group, and `Some(n)` with `n > 0` is a genuine
/// bit-field of `n` bits.
#[derive(Debug)]
pub struct FieldDescriptor {
    /// The member's identifier.
    pub name: String,
    /// The name of the member's scalar type after type conversion; opaque
    /// to this crate.
    pub ty: String,
    /// Bit-field width, if the member is a bit-field.
    pub bit_width: Option<u64>,
    /// Absolute bit position of the member's first bit from the start of
    /// the struct.
    pub bit_offset: u64,
    /// Bit width of the storage unit the ABI assigns this member; used
    /// only to advance the byte cursor past a regular member.
    pub storage_unit_width: u64,
}

/// The mathematical value of a [`FieldDescriptor`].
#[verifier::ext_equal]
pub struct FieldDescV {
    pub name: Seq<char>,
    pub ty: Seq<char>,
    pub bit_width: Option<u64>,
    pub bit_offset: u64,
    pub storage_unit_width: u64,
}

impl View for FieldDescriptor {
    type V = FieldDescV;

    open spec fn view(&self) -> FieldDescV {
        FieldDescV {
            name: self.name@,
            ty: self.ty@,
            bit_width: self.bit_width,
            bit_offset: self.bit_offset,
            storage_unit_width: self.storage_unit_width,
        }
    }
}

/// One packed member of a bit-group: its name, its type name, and its
/// inclusive bit range relative to the group's first bit, rendered as
/// `"<start>..=<end>"`.
#[derive(Debug, PartialEq, Eq)]
pub struct PackedMember {
    pub name: String,
    pub ty: String,
    pub bits: String,
}

/// The mathematical value of a [`PackedMember`].
#[verifier::ext_equal]
pub struct PackedMemberV {
    pub name: Seq<char>,
    pub ty: Seq<char>,
    pub bits: Seq<char>,
}

impl View for PackedMember {
    type V = PackedMemberV;

    open spec fn view(&self) -> PackedMemberV {
        PackedMemberV { name: self.name@, ty: self.ty@, bits: self.bits@ }
    }
}

/// One element of a classified layout.
#[derive(Debug, PartialEq, Eq)]
pub enum FieldClass {
    /// One or more consecutive bit-fields sharing storage bytes.  `name`
    /// is the members' names joined by `_`, in merge order; `byte_size`
    /// counts each storage byte the group touches exactly once.
    BitGroup { start_bit: u64, name: String, byte_size: u64, members: Vec<PackedMember> },
    /// Bytes backing no member, inserted to preserve ABI offsets.
    Padding { byte_size: u64 },
    /// An untouched regular member.  `byte_size` is the byte width of its
    /// ABI storage unit.
    Regular { name: String, ty: String, byte_size: u64 },
}

/// The mathematical value of a [`FieldClass`].  Byte sizes are kept as
/// mathematical integers.
#[verifier::ext_equal]
pub enum FieldClassV {
    BitGroup { start_bit: u64, name: Seq<char>, byte_size: int, members: Seq<PackedMemberV> },
    Padding { byte_size: int },
    Regular { name: Seq<char>, ty: Seq<char>, byte_size: int },
}

impl View for FieldClass {
    type V = FieldClassV;

    open spec fn view(&self) -> FieldClassV {
        match self {
            FieldClass::BitGroup { start_bit, name, byte_size, members } => FieldClassV::BitGroup {
                start_bit: *start_bit,
                name: name@,
                byte_size: *byte_size as int,
                members: members@.map_values(|m: PackedMember| m@),
            },
            FieldClass::Padding { byte_size } => FieldClassV::Padding {
                byte_size: *byte_size as int,
            },
            FieldClass::Regular { name, ty, byte_size } => FieldClassV::Regular {
                name: name@,
                ty: ty@,
                byte_size: *byte_size as int,
            },
        }
    }
}

/// The mathematical values of a descriptor list.
pub open spec fn descs_view(s: Seq<FieldDescriptor>) -> Seq<FieldDescV> {
    s.map_values(|f: FieldDescriptor| f@)
}

/// The mathematical values of a classified layout.
pub open spec fn classes_view(s: Seq<FieldClass>) -> Seq<FieldClassV> {
    s.map_values(|c: FieldClass| c@)
}

/// The number of bytes a layout element occupies.
pub open spec fn class_size(c: FieldClassV) -> int {
    match c {
        FieldClassV::BitGroup { byte_size, .. } => byte_size,
        FieldClassV::Padding { byte_size } => byte_size,
        FieldClassV::Regular { byte_size, .. } => byte_size,
    }
}

/// The total byte size of a classified layout.
pub open spec fn sum_sizes(s: Seq<FieldClassV>) -> int
    decreases s.len(),
{
    if s.len() == 0 {
        0
    } else {
        sum_sizes(s.drop_last()) + class_size(s.last())
    }
}

/// Summing distributes over appending one element.
pub proof fn lemma_sum_sizes_push(s: Seq<FieldClassV>, c: FieldClassV)
    ensures
        sum_sizes(s.push(c)) == sum_sizes(s) + class_size(c),
{
    assert(s.push(c).drop_last() =~= s);
    assert(s.push(c).last() == c);
}

} // verus!
