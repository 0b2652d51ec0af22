//! The layout emitter: turns a classified layout into an abstract
//! struct-shape description for the code-emission collaborator.
//!
//! Bit-groups become fixed-size byte-array fields annotated with one
//! packed-member descriptor per merged bit-field; padding becomes
//! anonymous byte arrays named `_pad`, `_pad2`, `_pad3`, ...; regular
//! members pass through unchanged.  No source text is produced here.

use vstd::prelude::*;

use crate::classify::classify;
use crate::classify::spec_classify;
use crate::classify::wf_input;
use crate::field::FieldClass;
use crate::field::FieldClassV;
use crate::field::FieldDescriptor;
use crate::field::PackedMember;
use crate::field::PackedMemberV;
use crate::field::classes_view;
use crate::field::descs_view;
use crate::text::dec_str;
use crate::text::push_dec;

verus! {

/// One field declaration of the emitted struct shape.
#[derive(Debug, PartialEq, Eq)]
pub enum FieldDecl {
    /// A bit-group: a byte array of `len` bytes holding the packed
    /// members described by `packed`.
    ByteArray { name: String, len: u64, packed: Vec<PackedMember> },
    /// An anonymous padding byte array of `len` bytes.
    PadArray { name: String, len: u64 },
    /// A regular member, unchanged.
    Scalar { name: String, ty: String },
}

/// The mathematical value of a [`FieldDecl`].
#[verifier::ext_equal]
pub enum FieldDeclV {
    ByteArray { name: Seq<char>, len: int, packed: Seq<PackedMemberV> },
    PadArray { name: Seq<char>, len: int },
    Scalar { name: Seq<char>, ty: Seq<char> },
}

impl View for FieldDecl {
    type V = FieldDeclV;

    open spec fn view(&self) -> FieldDeclV {
        match self {
            FieldDecl::ByteArray { name, len, packed } => FieldDeclV::ByteArray {
                name: name@,
                len: *len as int,
                packed: packed@.map_values(|m: PackedMember| m@),
            },
            FieldDecl::PadArray { name, len } => FieldDeclV::PadArray {
                name: name@,
                len: *len as int,
            },
            FieldDecl::Scalar { name, ty } => FieldDeclV::Scalar { name: name@, ty: ty@ },
        }
    }
}

/// The abstract shape of the emitted struct: its field declarations and
/// its struct-level directives.
#[derive(Debug, PartialEq, Eq)]
pub struct StructShape {
    pub name: String,
    /// The alignment directive: the manual alignment when one was given,
    /// the platform alignment otherwise.
    pub alignment: u64,
    /// The struct carries synthesized bit-field accessors.
    pub bitfield_capable: bool,
    /// The struct is marked copyable.
    pub copyable: bool,
    /// The struct is marked trivially duplicable.
    pub trivially_duplicable: bool,
    pub fields: Vec<FieldDecl>,
}

/// The mathematical value of a [`StructShape`].
#[verifier::ext_equal]
pub struct StructShapeV {
    pub name: Seq<char>,
    pub alignment: u64,
    pub bitfield_capable: bool,
    pub copyable: bool,
    pub trivially_duplicable: bool,
    pub fields: Seq<FieldDeclV>,
}

impl View for StructShape {
    type V = StructShapeV;

    open spec fn view(&self) -> StructShapeV {
        StructShapeV {
            name: self.name@,
            alignment: self.alignment,
            bitfield_capable: self.bitfield_capable,
            copyable: self.copyable,
            trivially_duplicable: self.trivially_duplicable,
            fields: self.fields@.map_values(|d: FieldDecl| d@),
        }
    }
}

/// The name of the `n`-th padding field of a struct: `_pad` for the
/// first, `_pad2`, `_pad3`, ... for the following ones.
pub open spec fn pad_name(n: int) -> Seq<char> {
    if n == 0 {
        "_pad"@
    } else {
        "_pad"@ + dec_str((n + 1) as nat)
    }
}

/// The number of padding elements among the first `i` layout elements.
pub open spec fn num_pads(classes: Seq<FieldClassV>, i: int) -> int
    decreases i,
{
    if i <= 0 {
        0
    } else {
        num_pads(classes, i - 1) + if classes[i - 1] is Padding {
            1int
        } else {
            0int
        }
    }
}

/// The declaration a layout element maps to, given how many padding
/// elements came before it.
pub open spec fn decl_of(c: FieldClassV, pads_before: int) -> FieldDeclV {
    match c {
        FieldClassV::BitGroup { name, byte_size, members, .. } => FieldDeclV::ByteArray {
            name: name,
            len: byte_size,
            packed: members,
        },
        FieldClassV::Padding { byte_size } => FieldDeclV::PadArray {
            name: pad_name(pads_before),
            len: byte_size,
        },
        FieldClassV::Regular { name, ty, .. } => FieldDeclV::Scalar { name: name, ty: ty },
    }
}

/// The declarations of a whole classified layout, in order.
pub open spec fn emit_fields(classes: Seq<FieldClassV>) -> Seq<FieldDeclV> {
    Seq::new(classes.len(), |i: int| decl_of(classes[i], num_pads(classes, i)))
}

/// The struct shape emitted for a classified layout.
pub open spec fn shape_spec(
    name: Seq<char>,
    manual_alignment: Option<u64>,
    platform_alignment: u64,
    classes: Seq<FieldClassV>,
) -> StructShapeV {
    StructShapeV {
        name: name,
        alignment: match manual_alignment {
            Some(a) => a,
            None => platform_alignment,
        },
        bitfield_capable: true,
        copyable: true,
        trivially_duplicable: true,
        fields: emit_fields(classes),
    }
}

/// A field-for-field copy of a packed-member descriptor.
fn copy_member(m: &PackedMember) -> (r: PackedMember)
    ensures
        r == *m,
{
    PackedMember { name: m.name.clone(), ty: m.ty.clone(), bits: m.bits.clone() }
}

/// A field-for-field copy of a packed-member list.
fn copy_members(ms: &Vec<PackedMember>) -> (r: Vec<PackedMember>)
    ensures
        r@ == ms@,
{
    let mut r: Vec<PackedMember> = Vec::new();
    let mut i: usize = 0;
    while i < ms.len()
        invariant
            i <= ms@.len(),
            r@ == ms@.take(i as int),
        decreases ms@.len() - i,
    {
        r.push(copy_member(&ms[i]));
        proof {
            assert(ms@.take(i + 1) =~= ms@.take(i as int).push(ms@[i as int]));
        }
        i += 1;
    }
    proof {
        assert(ms@.take(ms@.len() as int) =~= ms@);
    }
    r
}

/// The padding field name for the `count`-th padding element.
pub fn render_pad_name(count: u64) -> (r: String)
    requires
        count < 0xffff_ffff_ffff_ffff,
    ensures
        r@ == pad_name(count as int),
{
    let mut s = String::new();
    s.append("_pad");
    if count != 0 {
        push_dec(&mut s, count + 1);
    }
    s
}

/// Emits the abstract struct shape for a classified layout.
///
/// Each layout element becomes one field declaration, in order; the
/// alignment directive is the manual alignment when one was given, the
/// platform alignment otherwise; the shape is marked bit-field-capable,
/// copyable, and trivially duplicable.
pub fn emit(
    name: String,
    manual_alignment: Option<u64>,
    platform_alignment: u64,
    classes: &Vec<FieldClass>,
) -> (r: StructShape)
    ensures
        r@ == shape_spec(name@, manual_alignment, platform_alignment, classes_view(classes@)),
{
    let ghost cv = classes_view(classes@);
    let mut fields: Vec<FieldDecl> = Vec::new();
    let mut padding_count: u64 = 0;
    let mut i: usize = 0;
    while i < classes.len()
        invariant
            i <= classes@.len(),
            cv == classes_view(classes@),
            fields@.len() == i,
            forall|j: int|
                0 <= j < i ==> (#[trigger] fields@[j])@ == decl_of(cv[j], num_pads(cv, j)),
            padding_count as int == num_pads(cv, i as int),
            padding_count <= i,
        decreases classes@.len() - i,
    {
        let decl = match &classes[i] {
            FieldClass::BitGroup { start_bit: _, name, byte_size, members } => FieldDecl::ByteArray {
                name: name.clone(),
                len: *byte_size,
                packed: copy_members(members),
            },
            FieldClass::Padding { byte_size } => {
                let pad = FieldDecl::PadArray {
                    name: render_pad_name(padding_count),
                    len: *byte_size,
                };
                padding_count += 1;
                pad
            },
            FieldClass::Regular { name, ty, byte_size: _ } => FieldDecl::Scalar {
                name: name.clone(),
                ty: ty.clone(),
            },
        };
        fields.push(decl);
        i += 1;
    }
    let r = StructShape {
        name,
        alignment: match manual_alignment {
            Some(a) => a,
            None => platform_alignment,
        },
        bitfield_capable: true,
        copyable: true,
        trivially_duplicable: true,
        fields,
    };
    proof {
        assert(r.fields@.map_values(|d: FieldDecl| d@) =~= emit_fields(cv));
    }
    r
}

/// Converts one bit-field struct declaration: classifies the descriptor
/// list and emits the struct shape for it.
pub fn convert_bitfield_struct_decl(
    name: String,
    manual_alignment: Option<u64>,
    platform_alignment: u64,
    platform_byte_size: u64,
    fields: &Vec<FieldDescriptor>,
) -> (r: StructShape)
    requires
        wf_input(descs_view(fields@), platform_byte_size),
    ensures
        r@ == shape_spec(
            name@,
            manual_alignment,
            platform_alignment,
            spec_classify(descs_view(fields@), platform_byte_size),
        ),
{
    let classes = classify(fields, platform_byte_size);
    emit(name, manual_alignment, platform_alignment, &classes)
}

} // verus!
