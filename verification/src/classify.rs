//! The field classifier: groups an ordered list of per-field ABI
//! descriptors into bit-groups, padding, and regular members.
//!
//! The classification is specified as a fold of [`classify_step`] over the
//! descriptor list, threading a single accumulator: the emitted layout so
//! far, the bit-group still open (if any), the byte cursor, and the set of
//! storage bytes already counted into some group.  [`classify`] is the
//! executable classifier, proved equal to the fold.

use vstd::prelude::*;

use crate::field::FieldClass;
use crate::field::FieldClassV;
use crate::field::FieldDescV;
use crate::field::FieldDescriptor;
use crate::field::PackedMember;
use crate::field::PackedMemberV;
use crate::field::classes_view;
use crate::field::descs_view;
use crate::text::range_str;
use crate::text::render_range;

verus! {

/// A bit-group still being merged: the accumulator of the fold.
#[verifier::ext_equal]
pub struct GroupAcc {
    pub start_bit: u64,
    pub name: Seq<char>,
    pub byte_size: int,
    pub members: Seq<PackedMemberV>,
}

/// The accumulator threaded through the classification fold.
#[verifier::ext_equal]
pub struct ClassifyState {
    /// Layout elements emitted so far, in order.
    pub out: Seq<FieldClassV>,
    /// The bit-group currently open, if any.
    pub open: Option<GroupAcc>,
    /// The byte cursor: where the next member is expected to start.
    pub cursor: int,
    /// Storage bytes already counted into some bit-group.
    pub seen: Set<int>,
}

/// The state before any descriptor is processed.
pub open spec fn init_state() -> ClassifyState {
    ClassifyState { out: Seq::empty(), open: None, cursor: 0, seen: Set::empty() }
}

/// Closes the open bit-group, if any, emitting it as a layout element.
pub open spec fn close_open(st: ClassifyState) -> ClassifyState {
    match st.open {
        Some(g) => ClassifyState {
            out: st.out.push(
                FieldClassV::BitGroup {
                    start_bit: g.start_bit,
                    name: g.name,
                    byte_size: g.byte_size,
                    members: g.members,
                },
            ),
            open: None,
            cursor: st.cursor,
            seen: st.seen,
        },
        None => st,
    }
}

/// Counts the storage bytes `lo..hi` (exclusive of `hi`) not yet in
/// `seen`, inserting them; returns the grown set and the count.
pub open spec fn absorb_bytes(seen: Set<int>, lo: int, hi: int) -> (Set<int>, int)
    decreases hi - lo,
{
    if lo >= hi {
        (seen, 0)
    } else {
        let p = absorb_bytes(seen, lo, hi - 1);
        if p.0.contains(hi - 1) {
            p
        } else {
            (p.0.insert(hi - 1), p.1 + 1)
        }
    }
}

/// The group a genuine bit-field opens or extends.
///
/// Opening records the field's absolute first bit as the group's
/// `start_bit` and gives the member the range `0..=width-1`; extending
/// appends `_<name>` to the group name and gives the member its range
/// relative to `start_bit`.
pub open spec fn grown_group(
    open: Option<GroupAcc>,
    f: FieldDescV,
    w: u64,
    cnt: int,
) -> GroupAcc {
    match open {
        None => GroupAcc {
            start_bit: f.bit_offset,
            name: f.name,
            byte_size: cnt,
            members: seq![
                PackedMemberV { name: f.name, ty: f.ty, bits: range_str(0, (w - 1) as nat) },
            ],
        },
        Some(g) => GroupAcc {
            start_bit: g.start_bit,
            name: g.name + seq!['_'] + f.name,
            byte_size: g.byte_size + cnt,
            members: g.members.push(
                PackedMemberV {
                    name: f.name,
                    ty: f.ty,
                    bits: range_str(
                        (f.bit_offset - g.start_bit) as nat,
                        (f.bit_offset - g.start_bit + w - 1) as nat,
                    ),
                },
            ),
        },
    }
}

/// Processes one descriptor.
///
/// A zero-width marker closes the open group and occupies nothing.  A
/// regular member closes the open group, pads a byte gap larger than one,
/// and advances the cursor past its storage unit.  A genuine bit-field
/// pads any positive byte gap, opens or extends the group, and advances
/// the cursor one past the byte holding its end.
pub open spec fn classify_step(st: ClassifyState, f: FieldDescV) -> ClassifyState {
    match f.bit_width {
        Some(w) => if w == 0 {
            close_open(st)
        } else {
            let o = f.bit_offset as int;
            let b = o / 8;
            let out1 = if b > st.cursor {
                st.out.push(FieldClassV::Padding { byte_size: b - st.cursor })
            } else {
                st.out
            };
            let p = absorb_bytes(st.seen, o / 8, (o + w - 1) / 8 + 1);
            ClassifyState {
                out: out1,
                open: Some(grown_group(st.open, f, w, p.1)),
                cursor: (o + w) / 8 + 1,
                seen: p.0,
            }
        },
        None => {
            let st1 = close_open(st);
            let b = f.bit_offset as int / 8;
            let diff = b - st1.cursor;
            let out1 = if diff > 1 {
                st1.out.push(FieldClassV::Padding { byte_size: diff })
            } else {
                st1.out
            };
            ClassifyState {
                out: out1.push(
                    FieldClassV::Regular {
                        name: f.name,
                        ty: f.ty,
                        byte_size: f.storage_unit_width as int / 8,
                    },
                ),
                open: None,
                cursor: (f.bit_offset + f.storage_unit_width) as int / 8,
                seen: st1.seen,
            }
        },
    }
}

/// The fold of [`classify_step`] over a descriptor list.
pub open spec fn classify_fold(fields: Seq<FieldDescV>) -> ClassifyState
    decreases fields.len(),
{
    if fields.len() == 0 {
        init_state()
    } else {
        classify_step(classify_fold(fields.drop_last()), fields.last())
    }
}

/// The classified layout of a descriptor list: the fold, the leftover
/// group closed, and trailing padding up to the struct's byte size.
pub open spec fn spec_classify(fields: Seq<FieldDescV>, platform_byte_size: u64) -> Seq<
    FieldClassV,
> {
    let st = close_open(classify_fold(fields));
    if platform_byte_size > st.cursor {
        st.out.push(FieldClassV::Padding { byte_size: platform_byte_size - st.cursor })
    } else {
        st.out
    }
}

/// A descriptor lies within a struct of `size` bytes.
pub open spec fn wf_field(f: FieldDescV, size: u64) -> bool {
    match f.bit_width {
        Some(w) => w == 0 || f.bit_offset + w <= 8 * size,
        None => f.bit_offset + f.storage_unit_width <= 8 * size,
    }
}

/// A well-formed classification request: the struct size leaves room for
/// bit arithmetic in a machine word, every descriptor lies within the
/// struct, and bit offsets are monotone in declaration order.
pub open spec fn wf_input(fields: Seq<FieldDescV>, size: u64) -> bool {
    &&& size <= 0x1fff_ffff_ffff_ffff
    &&& forall|i: int| 0 <= i < fields.len() ==> wf_field(#[trigger] fields[i], size)
    &&& forall|i: int, j: int|
        0 <= i <= j < fields.len() ==> (#[trigger] fields[i].bit_offset)
            <= (#[trigger] fields[j].bit_offset)
}

/// A zero-width marker always closes the open group — and only closes
/// it: it adds no layout element of its own and moves neither the cursor
/// nor the counted bytes.
pub proof fn lemma_marker_closes_group(st: ClassifyState, f: FieldDescV)
    requires
        f.bit_width == Some(0u64),
    ensures
        (classify_step(st, f).open is None),
        (st.open matches Some(g) ==> classify_step(st, f).out == st.out.push(
            FieldClassV::BitGroup {
                start_bit: g.start_bit,
                name: g.name,
                byte_size: g.byte_size,
                members: g.members,
            },
        )),
        (st.open is None ==> classify_step(st, f).out == st.out),
        classify_step(st, f).cursor == st.cursor,
        classify_step(st, f).seen == st.seen,
{
}

/// A regular member never merges into a bit-group: it leaves every
/// already-emitted element untouched, closes the open group with exactly
/// the members it had, and is itself emitted as a `Regular` element.
pub proof fn lemma_regular_never_merged(st: ClassifyState, f: FieldDescV)
    requires
        f.bit_width is None,
    ensures
        (classify_step(st, f).open is None),
        (classify_step(st, f).out.last() == FieldClassV::Regular {
            name: f.name,
            ty: f.ty,
            byte_size: f.storage_unit_width as int / 8,
        }),
        forall|k: int|
            0 <= k < st.out.len() ==> classify_step(st, f).out[k] == #[trigger] st.out[k],
        (st.open matches Some(g) ==> classify_step(st, f).out[st.out.len() as int]
            == FieldClassV::BitGroup {
            start_bit: g.start_bit,
            name: g.name,
            byte_size: g.byte_size,
            members: g.members,
        }),
{
}

/// A genuine bit-field never becomes a `Regular` element: it leaves every
/// already-emitted element untouched, appends at most padding, and joins
/// the open group — growing its member list by exactly itself — or opens
/// a fresh group with itself as the only member.
pub proof fn lemma_bitfield_never_regular(st: ClassifyState, f: FieldDescV, w: u64)
    requires
        f.bit_width == Some(w),
        w > 0,
    ensures
        (classify_step(st, f).open is Some),
        (forall|k: int|
            st.out.len() <= k < classify_step(st, f).out.len() ==> (classify_step(st, f).out[k]
                is Padding)),
        forall|k: int|
            0 <= k < st.out.len() ==> classify_step(st, f).out[k] == #[trigger] st.out[k],
        (st.open matches Some(g) ==> {
            let ms = classify_step(st, f).open->0.members;
            ms.drop_last() == g.members && ms.last().name == f.name && ms.last().ty == f.ty
        }),
        (st.open is None ==> {
            let ms = classify_step(st, f).open->0.members;
            ms.len() == 1 && ms[0].name == f.name && ms[0].ty == f.ty
        }),
{
    if st.open is Some {
        let g = st.open->0;
        let stp = classify_step(st, f);
        assert(stp.open->0.members.drop_last() =~= g.members);
    }
}

/// Classification is a pure function: identical descriptor values and
/// byte size always yield an identical layout.
pub proof fn lemma_classify_pure(
    fields1: Seq<FieldDescV>,
    fields2: Seq<FieldDescV>,
    size1: u64,
    size2: u64,
)
    requires
        fields1 == fields2,
        size1 == size2,
    ensures
        spec_classify(fields1, size1) == spec_classify(fields2, size2),
{
}

/// The open bit-group of the executable classifier.
pub struct OpenGroup {
    pub start_bit: u64,
    pub name: String,
    pub byte_size: u64,
    pub members: Vec<PackedMember>,
}

impl View for OpenGroup {
    type V = GroupAcc;

    open spec fn view(&self) -> GroupAcc {
        GroupAcc {
            start_bit: self.start_bit,
            name: self.name@,
            byte_size: self.byte_size as int,
            members: self.members@.map_values(|m: PackedMember| m@),
        }
    }
}

/// The set of byte positions a list of counted bytes holds.
pub open spec fn seen_set(s: Seq<u64>) -> Set<int> {
    Set::new(|b: int| exists|k: int| 0 <= k < s.len() && s[k] as int == b)
}

/// Appending a byte to the list inserts it into the set.
proof fn lemma_seen_push(s: Seq<u64>, b: u64)
    ensures
        seen_set(s.push(b)) == seen_set(s).insert(b as int),
{
    assert forall|x: int| #[trigger]
        seen_set(s.push(b)).contains(x) implies seen_set(s).insert(b as int).contains(x) by {
        let k = choose|k: int| 0 <= k < s.push(b).len() && s.push(b)[k] as int == x;
        if k < s.len() {
            assert(s[k] as int == x);
        }
    }
    assert forall|x: int| #[trigger]
        seen_set(s).insert(b as int).contains(x) implies seen_set(s.push(b)).contains(x) by {
        if x == b as int {
            assert(s.push(b)[s.len() as int] as int == x);
        } else {
            let k = choose|k: int| 0 <= k < s.len() && s[k] as int == x;
            assert(s.push(b)[k] as int == x);
        }
    }
    assert(seen_set(s.push(b)) =~= seen_set(s).insert(b as int));
}

/// Whether byte `b` was already counted into some group.
fn seen_contains(seen: &Vec<u64>, b: u64) -> (r: bool)
    ensures
        r == seen_set(seen@).contains(b as int),
{
    let mut k: usize = 0;
    while k < seen.len()
        invariant
            k <= seen@.len(),
            forall|j: int| 0 <= j < k ==> seen@[j] != b,
        decreases seen@.len() - k,
    {
        if seen[k] == b {
            return true;
        }
        k += 1;
    }
    false
}

/// Counts and records the not-yet-counted bytes among `lo..hi`.
fn absorb_range(seen: &mut Vec<u64>, lo: u64, hi: u64) -> (cnt: u64)
    requires
        lo <= hi,
    ensures
        seen_set(final(seen)@) == absorb_bytes(seen_set(old(seen)@), lo as int, hi as int).0,
        cnt as int == absorb_bytes(seen_set(old(seen)@), lo as int, hi as int).1,
        cnt as int <= final(seen)@.len() - old(seen)@.len(),
{
    let ghost s0 = seen_set(seen@);
    let ghost len0 = seen@.len();
    let mut b = lo;
    let mut cnt: u64 = 0;
    while b < hi
        invariant
            lo <= b <= hi,
            seen_set(seen@) == absorb_bytes(s0, lo as int, b as int).0,
            cnt as int == absorb_bytes(s0, lo as int, b as int).1,
            cnt as int <= seen@.len() - len0,
            cnt as int <= b - lo,
        decreases hi - b,
    {
        if !seen_contains(seen, b) {
            proof {
                lemma_seen_push(seen@, b);
            }
            seen.push(b);
            cnt = cnt + 1;
        }
        b = b + 1;
    }
    cnt
}

/// Taking one more descriptor folds one more step.
proof fn lemma_fold_unfold(fields: Seq<FieldDescV>, i: int)
    requires
        0 <= i < fields.len(),
    ensures
        classify_fold(fields.take(i + 1)) == classify_step(classify_fold(fields.take(i)), fields[i]),
{
    assert(fields.take(i + 1).drop_last() =~= fields.take(i));
    assert(fields.take(i + 1).last() == fields[i]);
}

/// Mapping a pushed layout element distributes over the view.
proof fn lemma_classes_view_push(s: Seq<FieldClass>, c: FieldClass)
    ensures
        classes_view(s.push(c)) == classes_view(s).push(c@),
{
    assert(classes_view(s.push(c)) =~= classes_view(s).push(c@));
}

/// Mapping a pushed packed member distributes over the view.
proof fn lemma_members_view_push(s: Seq<PackedMember>, m: PackedMember)
    ensures
        s.push(m).map_values(|x: PackedMember| x@) == s.map_values(|x: PackedMember| x@).push(m@),
{
    assert(s.push(m).map_values(|x: PackedMember| x@) =~= s.map_values(|x: PackedMember| x@).push(
        m@,
    ));
}

/// The view of the open group, if any.
pub open spec fn open_view(o: Option<OpenGroup>) -> Option<GroupAcc> {
    match o {
        Some(g) => Some(g@),
        None => None,
    }
}

/// Classifies an ordered descriptor list into the layout of a struct of
/// `platform_byte_size` bytes.
///
/// The result is exactly the fold [`spec_classify`]: classification is a
/// pure function of the descriptor list and the byte size.
pub fn classify(fields: &Vec<FieldDescriptor>, platform_byte_size: u64) -> (r: Vec<FieldClass>)
    requires
        wf_input(descs_view(fields@), platform_byte_size),
    ensures
        classes_view(r@) == spec_classify(descs_view(fields@), platform_byte_size),
{
    let ghost dv = descs_view(fields@);
    let mut out: Vec<FieldClass> = Vec::new();
    let mut open: Option<OpenGroup> = None;
    let mut next_byte_pos: u64 = 0;
    let mut seen: Vec<u64> = Vec::new();
    let mut i: usize = 0;
    proof {
        assert(dv.take(0) =~= Seq::<FieldDescV>::empty());
        assert(classes_view(out@) =~= Seq::<FieldClassV>::empty());
        assert(seen_set(seen@) =~= Set::<int>::empty());
    }
    while i < fields.len()
        invariant
            i <= fields@.len(),
            dv == descs_view(fields@),
            wf_input(dv, platform_byte_size),
            classes_view(out@) == classify_fold(dv.take(i as int)).out,
            open_view(open) == classify_fold(dv.take(i as int)).open,
            next_byte_pos as int == classify_fold(dv.take(i as int)).cursor,
            seen_set(seen@) == classify_fold(dv.take(i as int)).seen,
            open matches Some(g) ==> g.byte_size as int <= seen@.len(),
            open matches Some(g) ==> forall|k: int|
                i <= k < dv.len() ==> g.start_bit <= (#[trigger] dv[k]).bit_offset,
        decreases fields@.len() - i,
    {
        let ghost st = classify_fold(dv.take(i as int));
        let ghost f_v = dv[i as int];
        proof {
            lemma_fold_unfold(dv, i as int);
            assert(f_v == fields@[i as int]@);
        }
        let f = &fields[i];
        match f.bit_width {
            Some(w) => {
                if w == 0 {
                    // A zero-width marker: close the open group, emit
                    // nothing of its own.
                    let prev = open;
                    open = None;
                    if let Some(g) = prev {
                        proof {
                            lemma_classes_view_push(
                                out@,
                                FieldClass::BitGroup {
                                    start_bit: g.start_bit,
                                    name: g.name,
                                    byte_size: g.byte_size,
                                    members: g.members,
                                },
                            );
                        }
                        out.push(
                            FieldClass::BitGroup {
                                start_bit: g.start_bit,
                                name: g.name,
                                byte_size: g.byte_size,
                                members: g.members,
                            },
                        );
                        proof {
                            assert(classes_view(out@) == classify_step(st, f_v).out);
                        }
                    }
                } else {
                    // A genuine bit-field: pad any positive byte gap,
                    // open or extend the group, advance the cursor.
                    let b = f.bit_offset / 8;
                    if b > next_byte_pos {
                        let pad = FieldClass::Padding { byte_size: b - next_byte_pos };
                        proof {
                            lemma_classes_view_push(out@, pad);
                        }
                        out.push(pad);
                    }
                    let lo = f.bit_offset / 8;
                    let last = (f.bit_offset + w - 1) / 8;
                    let cnt = absorb_range(&mut seen, lo, last + 1);
                    // Reading the list's length reminds the prover that it,
                    // and with it the group's byte size, fits a machine word.
                    let _seen_len: usize = seen.len();
                    let prev = open;
                    match prev {
                        None => {
                            let bits = render_range(0, w - 1);
                            let members = vec![
                                PackedMember {
                                    name: f.name.clone(),
                                    ty: f.ty.clone(),
                                    bits,
                                },
                            ];
                            proof {
                                assert(members@.map_values(|m: PackedMember| m@) =~= seq![
                                    PackedMemberV {
                                        name: f_v.name,
                                        ty: f_v.ty,
                                        bits: range_str(0, (w - 1) as nat),
                                    },
                                ]);
                            }
                            open = Some(
                                OpenGroup {
                                    start_bit: f.bit_offset,
                                    name: f.name.clone(),
                                    byte_size: cnt,
                                    members,
                                },
                            );
                        },
                        Some(g) => {
                            let mut name = g.name;
                            proof {
                                reveal_strlit("_");
                                assert("_"@ =~= seq!['_']);
                            }
                            name.append("_");
                            name.append(f.name.as_str());
                            let bit_start = f.bit_offset - g.start_bit;
                            let bit_end = bit_start + w - 1;
                            let bits = render_range(bit_start, bit_end);
                            let mut members = g.members;
                            let member = PackedMember {
                                name: f.name.clone(),
                                ty: f.ty.clone(),
                                bits,
                            };
                            proof {
                                lemma_members_view_push(members@, member);
                            }
                            members.push(member);
                            open = Some(
                                OpenGroup {
                                    start_bit: g.start_bit,
                                    name,
                                    byte_size: g.byte_size + cnt,
                                    members,
                                },
                            );
                        },
                    }
                    next_byte_pos = (f.bit_offset + w) / 8 + 1;
                    proof {
                        assert(open_view(open) == classify_step(st, f_v).open);
                    }
                }
            },
            None => {
                // A regular member: close the open group, pad a gap of
                // more than one byte, emit the member unchanged.
                let prev = open;
                open = None;
                if let Some(g) = prev {
                    let cls = FieldClass::BitGroup {
                        start_bit: g.start_bit,
                        name: g.name,
                        byte_size: g.byte_size,
                        members: g.members,
                    };
                    proof {
                        lemma_classes_view_push(out@, cls);
                    }
                    out.push(cls);
                }
                let b = f.bit_offset / 8;
                if b > next_byte_pos && b - next_byte_pos > 1 {
                    let pad = FieldClass::Padding { byte_size: b - next_byte_pos };
                    proof {
                        lemma_classes_view_push(out@, pad);
                    }
                    out.push(pad);
                }
                let reg = FieldClass::Regular {
                    name: f.name.clone(),
                    ty: f.ty.clone(),
                    byte_size: f.storage_unit_width / 8,
                };
                proof {
                    lemma_classes_view_push(out@, reg);
                }
                out.push(reg);
                next_byte_pos = (f.bit_offset + f.storage_unit_width) / 8;
                proof {
                    assert(classes_view(out@) == classify_step(st, f_v).out);
                }
            },
        }
        i += 1;
    }
    proof {
        assert(dv.take(dv.len() as int) =~= dv);
    }
    // End of input: close the leftover group, pad up to the struct size.
    let prev = open;
    if let Some(g) = prev {
        let cls = FieldClass::BitGroup {
            start_bit: g.start_bit,
            name: g.name,
            byte_size: g.byte_size,
            members: g.members,
        };
        proof {
            lemma_classes_view_push(out@, cls);
        }
        out.push(cls);
    }
    if platform_byte_size > next_byte_pos {
        let pad = FieldClass::Padding { byte_size: platform_byte_size - next_byte_pos };
        proof {
            lemma_classes_view_push(out@, pad);
        }
        out.push(pad);
    }
    out
}

} // verus!
