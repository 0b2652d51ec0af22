//! The initializer synthesizer: zero-valued instances and two-phase
//! literal-construction plans for bit-field structs.
//!
//! A zero initializer gives every bit-group and padding field a zero-filled
//! byte array and asks the implicit-default provider for each regular
//! member.  A literal initializer seeds bit-groups and padding with zero
//! arrays, pairs the supplied expressions positionally against the
//! descriptor list with zero-width markers removed, places regular values
//! in the base map, and turns bit-field values into an ordered list of
//! setter calls applied after the base value is built.

use vstd::prelude::*;

use crate::assign::BfExpr;
use crate::assign::SetterCall;
use crate::assign::SetterCallV;
use crate::assign::copy_bf_expr;
use crate::assign::render_setter_name;
use crate::assign::setter_name_of;
use crate::classify::classify;
use crate::classify::spec_classify;
use crate::classify::wf_input;
use crate::emit::num_pads;
use crate::emit::pad_name;
use crate::error::LayoutError;
use crate::field::FieldClass;
use crate::field::FieldClassV;
use crate::field::FieldDescV;
use crate::field::FieldDescriptor;
use crate::field::classes_view;
use crate::field::descs_view;

verus! {

/// The value a field receives in an initializer.
#[derive(Debug, PartialEq, Eq)]
pub enum InitValue {
    /// A zero-filled byte array of `len` bytes.
    ZeroBytes { len: u64 },
    /// The implicit-default provider's value for the type named `ty`.
    ImplicitDefault { ty: String },
    /// A supplied expression, placed directly.
    Given { expr: BfExpr },
}

/// The mathematical value of an [`InitValue`].
#[verifier::ext_equal]
pub enum InitValueV {
    ZeroBytes { len: int },
    ImplicitDefault { ty: Seq<char> },
    Given { expr: BfExpr },
}

impl View for InitValue {
    type V = InitValueV;

    open spec fn view(&self) -> InitValueV {
        match self {
            InitValue::ZeroBytes { len } => InitValueV::ZeroBytes { len: *len as int },
            InitValue::ImplicitDefault { ty } => InitValueV::ImplicitDefault { ty: ty@ },
            InitValue::Given { expr } => InitValueV::Given { expr: *expr },
        }
    }
}

/// One entry of a field-value map: a field name and its initial value.
#[derive(Debug, PartialEq, Eq)]
pub struct FieldInit {
    pub name: String,
    pub value: InitValue,
}

/// The mathematical value of a [`FieldInit`].
#[verifier::ext_equal]
pub struct FieldInitV {
    pub name: Seq<char>,
    pub value: InitValueV,
}

impl View for FieldInit {
    type V = FieldInitV;

    open spec fn view(&self) -> FieldInitV {
        FieldInitV { name: self.name@, value: self.value@ }
    }
}

/// The two-phase literal-construction plan: build the base value, then
/// apply the setter calls in order.
#[derive(Debug, PartialEq, Eq)]
pub struct LiteralInit {
    /// The struct's name.
    pub name: String,
    /// The base field-value map: zeroed bit-groups and padding, regular
    /// members set directly.
    pub base: Vec<FieldInit>,
    /// The setter calls for supplied bit-field values, in declaration
    /// order.
    pub setters: Vec<SetterCall>,
}

/// The zero-initializer entry of one layout element.
pub open spec fn zero_entry(c: FieldClassV, pads_before: int) -> FieldInitV {
    match c {
        FieldClassV::BitGroup { name, byte_size, .. } => FieldInitV {
            name: name,
            value: InitValueV::ZeroBytes { len: byte_size },
        },
        FieldClassV::Padding { byte_size } => FieldInitV {
            name: pad_name(pads_before),
            value: InitValueV::ZeroBytes { len: byte_size },
        },
        FieldClassV::Regular { name, ty, .. } => FieldInitV {
            name: name,
            value: InitValueV::ImplicitDefault { ty: ty },
        },
    }
}

/// The zero initializer of a whole classified layout, in order.
pub open spec fn zero_fields(classes: Seq<FieldClassV>) -> Seq<FieldInitV> {
    Seq::new(classes.len(), |i: int| zero_entry(classes[i], num_pads(classes, i)))
}

/// Zero-valued instance of a classified layout: zero byte arrays for
/// bit-groups and padding, the implicit default for regular members.
pub fn zero_initializer(classes: &Vec<FieldClass>) -> (r: Vec<FieldInit>)
    ensures
        r@.map_values(|x: FieldInit| x@) == zero_fields(classes_view(classes@)),
{
    let ghost cv = classes_view(classes@);
    let mut r: Vec<FieldInit> = Vec::new();
    let mut padding_count: u64 = 0;
    let mut i: usize = 0;
    while i < classes.len()
        invariant
            i <= classes@.len(),
            cv == classes_view(classes@),
            r@.len() == i,
            forall|j: int| 0 <= j < i ==> (#[trigger] r@[j])@ == zero_entry(cv[j], num_pads(cv, j)),
            padding_count as int == num_pads(cv, i as int),
            padding_count <= i,
        decreases classes@.len() - i,
    {
        let entry = match &classes[i] {
            FieldClass::BitGroup { name, byte_size, .. } => FieldInit {
                name: name.clone(),
                value: InitValue::ZeroBytes { len: *byte_size },
            },
            FieldClass::Padding { byte_size } => {
                let e = FieldInit {
                    name: crate::emit::render_pad_name(padding_count),
                    value: InitValue::ZeroBytes { len: *byte_size },
                };
                padding_count += 1;
                e
            },
            FieldClass::Regular { name, ty, .. } => FieldInit {
                name: name.clone(),
                value: InitValue::ImplicitDefault { ty: ty.clone() },
            },
        };
        r.push(entry);
        i += 1;
    }
    proof {
        assert(r@.map_values(|x: FieldInit| x@) =~= zero_fields(cv));
    }
    r
}

/// Zero-valued instance for a descriptor list: classification followed by
/// [`zero_initializer`].
pub fn bitfield_zero_initializer(fields: &Vec<FieldDescriptor>, platform_byte_size: u64) -> (r:
    Vec<FieldInit>)
    requires
        wf_input(descs_view(fields@), platform_byte_size),
    ensures
        r@.map_values(|x: FieldInit| x@) == zero_fields(
            spec_classify(descs_view(fields@), platform_byte_size),
        ),
{
    let classes = classify(fields, platform_byte_size);
    zero_initializer(&classes)
}

/// The base-map entries that seed a literal initializer: a zero byte
/// array for every bit-group and padding element, from `i` on.
pub open spec fn lit_zeros_from(classes: Seq<FieldClassV>, i: int) -> Seq<FieldInitV>
    decreases classes.len() - i,
{
    if i < 0 || i >= classes.len() {
        Seq::empty()
    } else {
        let rest = lit_zeros_from(classes, i + 1);
        match classes[i] {
            FieldClassV::BitGroup { name, byte_size, .. } => seq![
                FieldInitV { name: name, value: InitValueV::ZeroBytes { len: byte_size } },
            ] + rest,
            FieldClassV::Padding { byte_size } => seq![
                FieldInitV {
                    name: pad_name(num_pads(classes, i)),
                    value: InitValueV::ZeroBytes { len: byte_size },
                },
            ] + rest,
            FieldClassV::Regular { .. } => rest,
        }
    }
}

/// The zero seed of a whole classified layout.
pub open spec fn lit_zeros(classes: Seq<FieldClassV>) -> Seq<FieldInitV> {
    lit_zeros_from(classes, 0)
}

/// The number of descriptors among the first `i` that are not zero-width
/// markers: the positions supplied expressions are paired against.
pub open spec fn nonmarkers_before(fields: Seq<FieldDescV>, i: int) -> int
    decreases i,
{
    if i <= 0 {
        0
    } else {
        nonmarkers_before(fields, i - 1) + if fields[i - 1].bit_width == Some(0u64) {
            0int
        } else {
            1int
        }
    }
}

/// The number of descriptors that can be paired with a supplied
/// expression: all except zero-width markers.
pub open spec fn filtered_count(fields: Seq<FieldDescV>) -> int {
    nonmarkers_before(fields, fields.len() as int)
}

/// The paired part of a literal initializer, from descriptor `i` on with
/// `j` expression positions consumed: the regular-member base entries and
/// the bit-field setter calls, each in declaration order.
pub open spec fn lit_zip_from(
    fields: Seq<FieldDescV>,
    supplied: Seq<BfExpr>,
    i: int,
    j: int,
) -> (Seq<FieldInitV>, Seq<SetterCallV>)
    decreases fields.len() - i,
{
    if i < 0 || i >= fields.len() {
        (Seq::empty(), Seq::empty())
    } else {
        match fields[i].bit_width {
            Some(w) => if w == 0 {
                lit_zip_from(fields, supplied, i + 1, j)
            } else {
                let rest = lit_zip_from(fields, supplied, i + 1, j + 1);
                if 0 <= j < supplied.len() {
                    (
                        rest.0,
                        seq![
                            SetterCallV {
                                setter_name: setter_name_of(fields[i].name),
                                arg: supplied[j],
                            },
                        ] + rest.1,
                    )
                } else {
                    rest
                }
            },
            None => {
                let rest = lit_zip_from(fields, supplied, i + 1, j + 1);
                let v = if 0 <= j < supplied.len() {
                    InitValueV::Given { expr: supplied[j] }
                } else {
                    InitValueV::ImplicitDefault { ty: fields[i].ty }
                };
                (seq![FieldInitV { name: fields[i].name, value: v }] + rest.0, rest.1)
            },
        }
    }
}

/// Builds the two-phase literal-construction plan for a struct literal.
///
/// The base map seeds every bit-group and padding element with a zero
/// byte array.  Supplied expressions are paired positionally against the
/// descriptors with zero-width markers removed: a paired regular member
/// is placed in the base map, a paired bit-field becomes a setter call;
/// an unpaired regular member receives the implicit default, an unpaired
/// bit-field keeps the zero already in its group.  Supplying more
/// expressions than there are pairable descriptors is an arity violation
/// and fails fast.
pub fn convert_bitfield_struct_literal(
    name: String,
    platform_byte_size: u64,
    supplied: &Vec<BfExpr>,
    fields: &Vec<FieldDescriptor>,
) -> (r: Result<LiteralInit, LayoutError>)
    requires
        wf_input(descs_view(fields@), platform_byte_size),
    ensures
        (r is Ok <==> supplied@.len() <= filtered_count(descs_view(fields@))),
        (r matches Ok(li) ==> li.name@ == name@ && li.base@.map_values(|x: FieldInit| x@)
            == lit_zeros(spec_classify(descs_view(fields@), platform_byte_size)) + lit_zip_from(
            descs_view(fields@),
            supplied@,
            0,
            0,
        ).0 && li.setters@.map_values(|s: SetterCall| s@) == lit_zip_from(
            descs_view(fields@),
            supplied@,
            0,
            0,
        ).1),
        (supplied@.len() > filtered_count(descs_view(fields@)) ==> (r matches Err(e) && e == (
        LayoutError::ExcessInitializers {
            supplied: supplied@.len() as usize,
            expected: filtered_count(descs_view(fields@)) as usize,
        }))),
{
    let ghost fv = descs_view(fields@);
    let classes = classify(fields, platform_byte_size);
    let ghost cv = classes_view(classes@);
    let mut base: Vec<FieldInit> = Vec::new();
    let mut padding_count: u64 = 0;
    let mut i: usize = 0;
    // Seed bit-groups and padding with zero byte arrays.
    while i < classes.len()
        invariant
            i <= classes@.len(),
            cv == classes_view(classes@),
            base@.map_values(|x: FieldInit| x@) + lit_zeros_from(cv, i as int) == lit_zeros(cv),
            padding_count as int == num_pads(cv, i as int),
            padding_count <= i,
        decreases classes@.len() - i,
    {
        let ghost before = base@.map_values(|x: FieldInit| x@);
        match &classes[i] {
            FieldClass::BitGroup { name, byte_size, .. } => {
                base.push(
                    FieldInit { name: name.clone(), value: InitValue::ZeroBytes { len: *byte_size } },
                );
            },
            FieldClass::Padding { byte_size } => {
                base.push(
                    FieldInit {
                        name: crate::emit::render_pad_name(padding_count),
                        value: InitValue::ZeroBytes { len: *byte_size },
                    },
                );
                padding_count += 1;
            },
            FieldClass::Regular { .. } => {},
        }
        proof {
            assert(base@.map_values(|x: FieldInit| x@) + lit_zeros_from(cv, i + 1) =~= before
                + lit_zeros_from(cv, i as int));
        }
        i += 1;
    }
    // Pair supplied expressions against the descriptors, skipping
    // zero-width markers.
    let mut setters: Vec<SetterCall> = Vec::new();
    let mut j: usize = 0;
    let mut k: usize = 0;
    while k < fields.len()
        invariant
            k <= fields@.len(),
            fv == descs_view(fields@),
            j as int == nonmarkers_before(fv, k as int),
            j <= k,
            base@.map_values(|x: FieldInit| x@) + lit_zip_from(fv, supplied@, k as int, j as int).0
                == lit_zeros(cv) + lit_zip_from(fv, supplied@, 0, 0).0,
            setters@.map_values(|s: SetterCall| s@) + lit_zip_from(
                fv,
                supplied@,
                k as int,
                j as int,
            ).1 == lit_zip_from(fv, supplied@, 0, 0).1,
        decreases fields@.len() - k,
    {
        let ghost base_before = base@.map_values(|x: FieldInit| x@);
        let ghost setters_before = setters@.map_values(|s: SetterCall| s@);
        let ghost j0 = j as int;
        let f = &fields[k];
        match f.bit_width {
            Some(w) => {
                if w != 0 {
                    if j < supplied.len() {
                        setters.push(
                            SetterCall {
                                setter_name: render_setter_name(f.name.as_str()),
                                arg: copy_bf_expr(&supplied[j]),
                            },
                        );
                    }
                    j += 1;
                }
            },
            None => {
                let value = if j < supplied.len() {
                    InitValue::Given { expr: copy_bf_expr(&supplied[j]) }
                } else {
                    InitValue::ImplicitDefault { ty: f.ty.clone() }
                };
                base.push(FieldInit { name: f.name.clone(), value });
                j += 1;
            },
        }
        proof {
            assert(base@.map_values(|x: FieldInit| x@) + lit_zip_from(
                fv,
                supplied@,
                k + 1,
                nonmarkers_before(fv, k + 1),
            ).0 =~= base_before + lit_zip_from(fv, supplied@, k as int, j0).0);
            assert(setters@.map_values(|s: SetterCall| s@) + lit_zip_from(
                fv,
                supplied@,
                k + 1,
                nonmarkers_before(fv, k + 1),
            ).1 =~= setters_before + lit_zip_from(fv, supplied@, k as int, j0).1);
        }
        k += 1;
    }
    if supplied.len() > j {
        return Err(LayoutError::ExcessInitializers { supplied: supplied.len(), expected: j });
    }
    Ok(LiteralInit { name, base, setters })
}

} // verus!
