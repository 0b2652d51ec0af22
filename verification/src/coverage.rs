//! Byte accounting for classified layouts.
//!
//! Laid out one after another, the elements of a classified layout are
//! meant to cover the struct byte for byte.  This module defines the byte
//! spans of the elements, proves that the spans never overlap, and proves
//! that for every layout-exact descriptor list — one whose members and
//! gaps line up with the classifier's cursor rules — the sizes sum to
//! exactly the platform byte size.

use vstd::prelude::*;
use vstd::set_lib::set_int_range;

use crate::classify::ClassifyState;
use crate::classify::GroupAcc;
use crate::classify::absorb_bytes;
use crate::classify::classify_fold;
use crate::classify::classify_step;
use crate::classify::close_open;
use crate::classify::init_state;
use crate::classify::spec_classify;
use crate::field::FieldClassV;
use crate::field::FieldDescV;
use crate::field::class_size;
use crate::field::lemma_sum_sizes_push;
use crate::field::sum_sizes;

verus! {

/// The byte size of the open group, if any.
pub open spec fn open_size(o: Option<GroupAcc>) -> int {
    match o {
        Some(g) => g.byte_size,
        None => 0,
    }
}

/// The bytes accounted for so far: emitted sizes plus the open group.
pub open spec fn acc_of(st: ClassifyState) -> int {
    sum_sizes(st.out) + open_size(st.open)
}

proof fn lemma_absorb_nonneg(seen: Set<int>, lo: int, hi: int)
    ensures
        absorb_bytes(seen, lo, hi).1 >= 0,
    decreases hi - lo,
{
    if lo < hi {
        lemma_absorb_nonneg(seen, lo, hi - 1);
    }
}

/// Absorbing bytes `lo..hi` yields exactly the union with that range.
proof fn lemma_absorb_set(seen: Set<int>, lo: int, hi: int)
    ensures
        absorb_bytes(seen, lo, hi).0 == seen.union(set_int_range(lo, hi)),
    decreases hi - lo,
{
    if lo >= hi {
        assert(absorb_bytes(seen, lo, hi).0 =~= seen.union(set_int_range(lo, hi)));
    } else {
        lemma_absorb_set(seen, lo, hi - 1);
        assert(absorb_bytes(seen, lo, hi).0 =~= seen.union(set_int_range(lo, hi)));
    }
}

/// When the bytes below `m` in `lo..hi` are already counted and no byte
/// at or above `m` is, absorbing counts exactly the bytes `m..hi`.
proof fn lemma_absorb_count(seen: Set<int>, lo: int, hi: int, m: int)
    requires
        lo <= m,
        forall|x: int| lo <= x < hi && x < m ==> seen.contains(x),
        forall|x: int| x >= m ==> !seen.contains(x),
    ensures
        absorb_bytes(seen, lo, hi).1 == if hi >= m {
            hi - m
        } else {
            0
        },
    decreases hi - lo,
{
    if lo >= hi {
        assert(absorb_bytes(seen, lo, hi).1 == 0);
    } else {
        lemma_absorb_count(seen, lo, hi - 1, m);
        lemma_absorb_set(seen, lo, hi - 1);
        let p = absorb_bytes(seen, lo, hi - 1);
        assert(p.0.contains(hi - 1) == seen.union(set_int_range(lo, hi - 1)).contains(hi - 1));
        assert(p.0.contains(hi - 1) <==> seen.contains(hi - 1));
        if hi - 1 >= m {
            assert(!seen.contains(hi - 1));
            assert(absorb_bytes(seen, lo, hi).1 == p.1 + 1);
        } else {
            assert(seen.contains(hi - 1));
            assert(absorb_bytes(seen, lo, hi).1 == p.1);
        }
    }
}

/// The structural byte accounting of a descriptor list: the bytes covered
/// so far, the classifier's cursor, and the position from which upward
/// every covered byte belongs to a bit-group.
#[verifier::ext_equal]
pub struct CoverState {
    pub covered: int,
    pub cursor: int,
    pub group_floor: int,
}

/// The accounting before any descriptor.
pub open spec fn cover_init() -> CoverState {
    CoverState { covered: 0, cursor: 0, group_floor: 0 }
}

/// One descriptor keeps the accounting exact.
///
/// A genuine bit-field must resume at the covered edge when it pads, must
/// not reach below the group floor or leave a gap, and must not end below
/// the covered edge.  A regular member must be byte-aligned with a
/// byte-multiple storage unit and must either find the accounting flush
/// with the cursor and leave no one-byte gap, or start right at the
/// covered edge where the last bit-field ended flush on a byte boundary.
/// Zero-width markers are always exact.
pub open spec fn cover_step_ok(cs: CoverState, f: FieldDescV) -> bool {
    match f.bit_width {
        Some(w) => if w == 0 {
            true
        } else {
            let o = f.bit_offset as int;
            let b = o / 8;
            let last = (o + w - 1) / 8;
            let a1 = if b > cs.cursor {
                b
            } else {
                cs.covered
            };
            &&& (b > cs.cursor ==> cs.covered == cs.cursor)
            &&& cs.group_floor <= b
            &&& b <= a1
            &&& a1 <= last + 1
        },
        None => {
            let b = f.bit_offset as int / 8;
            &&& ((cs.covered == cs.cursor && b >= cs.cursor && b != cs.cursor + 1) || (cs.covered
                == cs.cursor - 1 && b == cs.covered))
            &&& f.bit_offset % 8 == 0
            &&& f.storage_unit_width % 8 == 0
        },
    }
}

/// The accounting after one descriptor.
pub open spec fn cover_step(cs: CoverState, f: FieldDescV) -> CoverState {
    match f.bit_width {
        Some(w) => if w == 0 {
            cs
        } else {
            let o = f.bit_offset as int;
            let b = o / 8;
            let last = (o + w - 1) / 8;
            let a1 = if b > cs.cursor {
                b
            } else {
                cs.covered
            };
            CoverState {
                covered: if last + 1 > a1 {
                    last + 1
                } else {
                    a1
                },
                cursor: (o + w) / 8 + 1,
                group_floor: if b > cs.cursor {
                    b
                } else {
                    cs.group_floor
                },
            }
        },
        None => {
            let o = f.bit_offset as int;
            let s = f.storage_unit_width as int;
            CoverState { covered: o / 8 + s / 8, cursor: (o + s) / 8, group_floor: o / 8 + s / 8 }
        },
    }
}

/// The accounting folded over a descriptor list.
pub open spec fn cover_fold(fields: Seq<FieldDescV>) -> CoverState
    decreases fields.len(),
{
    if fields.len() == 0 {
        cover_init()
    } else {
        cover_step(cover_fold(fields.drop_last()), fields.last())
    }
}

/// Every descriptor keeps the accounting exact.
pub open spec fn cover_ok(fields: Seq<FieldDescV>) -> bool
    decreases fields.len(),
{
    if fields.len() == 0 {
        true
    } else {
        cover_ok(fields.drop_last()) && cover_step_ok(cover_fold(fields.drop_last()), fields.last())
    }
}

/// A layout-exact request: every descriptor keeps the accounting exact,
/// and the struct size completes it — either the covered bytes reach the
/// cursor and the size at least reaches it too (trailing padding fills the
/// rest), or the last bit-field ended flush on a byte boundary, where the
/// cursor overshoots the covered bytes by one and the size must equal
/// them.
pub open spec fn exact_layout(fields: Seq<FieldDescV>, size: u64) -> bool {
    let cs = cover_fold(fields);
    &&& cover_ok(fields)
    &&& ((cs.covered == cs.cursor && size >= cs.cursor) || (cs.covered == cs.cursor - 1 && size
        == cs.covered))
}

/// The structural accounting agrees with the classifier's state.
pub open spec fn cover_matches(cs: CoverState, st: ClassifyState) -> bool {
    &&& acc_of(st) == cs.covered
    &&& st.cursor == cs.cursor
    &&& (cs.covered == cs.cursor || cs.covered == cs.cursor - 1)
    &&& 0 <= cs.group_floor <= cs.covered
    &&& forall|x: int| st.seen.contains(x) ==> 0 <= x < cs.covered
    &&& forall|x: int| cs.group_floor <= x < cs.covered ==> st.seen.contains(x)
}

proof fn lemma_cover_one_step(cs: CoverState, st: ClassifyState, f: FieldDescV)
    requires
        cover_matches(cs, st),
        cover_step_ok(cs, f),
    ensures
        cover_matches(cover_step(cs, f), classify_step(st, f)),
{
    match f.bit_width {
        Some(w) => {
            if w == 0 {
                if st.open is Some {
                    lemma_sum_sizes_push(
                        st.out,
                        FieldClassV::BitGroup {
                            start_bit: st.open->0.start_bit,
                            name: st.open->0.name,
                            byte_size: st.open->0.byte_size,
                            members: st.open->0.members,
                        },
                    );
                }
            } else {
                let o = f.bit_offset as int;
                let b = o / 8;
                let last = (o + w - 1) / 8;
                let a1 = if b > cs.cursor {
                    b
                } else {
                    cs.covered
                };
                assert(last + 1 <= (o + w) / 8 + 1 <= last + 2) by {
                    assert((o + w - 1) / 8 <= (o + w) / 8 <= (o + w - 1) / 8 + 1) by (nonlinear_arith)
                        requires
                            o >= 0,
                            w >= 1,
                    ;
                };
                if b > st.cursor {
                    lemma_sum_sizes_push(st.out, FieldClassV::Padding { byte_size: b - st.cursor });
                }
                lemma_absorb_count(st.seen, b, last + 1, a1);
                lemma_absorb_set(st.seen, b, last + 1);
                lemma_absorb_nonneg(st.seen, b, last + 1);
                let stp = classify_step(st, f);
                let csp = cover_step(cs, f);
                let cnt = absorb_bytes(st.seen, b, last + 1).1;
                assert(cnt == last + 1 - a1);
                assert(open_size(stp.open) == open_size(st.open) + cnt);
                assert(sum_sizes(stp.out) == sum_sizes(st.out) + (if b > st.cursor {
                    b - st.cursor
                } else {
                    0
                }));
                assert(acc_of(stp) == csp.covered);
                assert(csp.covered == last + 1);
                assert(stp.cursor == csp.cursor);
                assert(csp.covered == csp.cursor || csp.covered == csp.cursor - 1);
                assert(0 <= csp.group_floor <= csp.covered);
                assert(stp.seen == st.seen.union(set_int_range(b, last + 1)));
                assert forall|x: int| stp.seen.contains(x) implies 0 <= x < csp.covered by {
                    assert(st.seen.contains(x) || b <= x < last + 1);
                }
                assert forall|x: int|
                    csp.group_floor <= x < csp.covered implies stp.seen.contains(x) by {
                    assert(stp.seen.contains(x) <==> (st.seen.contains(x) || (b <= x < last + 1)));
                    if b > cs.cursor {
                        assert(b <= x < last + 1);
                    } else {
                        if x < cs.covered {
                            assert(st.seen.contains(x));
                        } else {
                            assert(a1 == cs.covered);
                            assert(b <= x < last + 1);
                        }
                    }
                }
            }
        },
        None => {
            let st1 = close_open(st);
            if st.open is Some {
                lemma_sum_sizes_push(
                    st.out,
                    FieldClassV::BitGroup {
                        start_bit: st.open->0.start_bit,
                        name: st.open->0.name,
                        byte_size: st.open->0.byte_size,
                        members: st.open->0.members,
                    },
                );
            }
            let o = f.bit_offset as int;
            let s = f.storage_unit_width as int;
            let b = o / 8;
            let diff = b - st1.cursor;
            assert((o + s) / 8 == o / 8 + s / 8) by (nonlinear_arith)
                requires
            o >= 0,
                    s >= 0,
                    o % 8 == 0,
                    s % 8 == 0,
            ;
            if diff > 1 {
                lemma_sum_sizes_push(st1.out, FieldClassV::Padding { byte_size: diff });
                lemma_sum_sizes_push(
                    st1.out.push(FieldClassV::Padding { byte_size: diff }),
                    FieldClassV::Regular { name: f.name, ty: f.ty, byte_size: s / 8 },
                );
            } else {
                lemma_sum_sizes_push(
                    st1.out,
                    FieldClassV::Regular { name: f.name, ty: f.ty, byte_size: s / 8 },
                );
            }
        },
    }
}

proof fn lemma_cover_fold_matches(fields: Seq<FieldDescV>)
    requires
        cover_ok(fields),
    ensures
        cover_matches(cover_fold(fields), classify_fold(fields)),
    decreases fields.len(),
{
    if fields.len() == 0 {
        assert(sum_sizes(init_state().out) == 0);
    } else {
        lemma_cover_fold_matches(fields.drop_last());
        lemma_cover_one_step(
            cover_fold(fields.drop_last()),
            classify_fold(fields.drop_last()),
            fields.last(),
        );
    }
}

/// For every layout-exact descriptor list, the byte sizes of the
/// classified layout sum to exactly the platform byte size.
pub proof fn lemma_layout_covers_struct(fields: Seq<FieldDescV>, size: u64)
    requires
        exact_layout(fields, size),
    ensures
        sum_sizes(spec_classify(fields, size)) == size,
{
    lemma_cover_fold_matches(fields);
    let st = classify_fold(fields);
    let st1 = close_open(st);
    if st.open is Some {
        lemma_sum_sizes_push(
            st.out,
            FieldClassV::BitGroup {
                start_bit: st.open->0.start_bit,
                name: st.open->0.name,
                byte_size: st.open->0.byte_size,
                members: st.open->0.members,
            },
        );
    }
    assert(sum_sizes(st1.out) == acc_of(st));
    if size > st1.cursor {
        lemma_sum_sizes_push(
            st1.out,
            FieldClassV::Padding { byte_size: size - st1.cursor },
        );
    }
}

/// The byte offset at which the `i`-th layout element starts: the sizes
/// of the elements before it.
pub open spec fn span_start(classes: Seq<FieldClassV>, i: int) -> int {
    sum_sizes(classes.take(i))
}

/// The byte span the `i`-th layout element claims.
pub open spec fn class_span(classes: Seq<FieldClassV>, i: int) -> Set<int> {
    set_int_range(span_start(classes, i), span_start(classes, i) + class_size(classes[i]))
}

proof fn lemma_span_start_step(classes: Seq<FieldClassV>, i: int)
    requires
        0 <= i < classes.len(),
    ensures
        span_start(classes, i + 1) == span_start(classes, i) + class_size(classes[i]),
{
    assert(classes.take(i + 1).drop_last() =~= classes.take(i));
    assert(classes.take(i + 1).last() == classes[i]);
}

proof fn lemma_span_start_mono(classes: Seq<FieldClassV>, i: int, j: int)
    requires
        forall|k: int| 0 <= k < classes.len() ==> class_size(#[trigger] classes[k]) >= 0,
        0 <= i <= j <= classes.len(),
    ensures
        span_start(classes, i) <= span_start(classes, j),
    decreases j - i,
{
    if i < j {
        lemma_span_start_step(classes, j - 1);
        lemma_span_start_mono(classes, i, j - 1);
    }
}

/// No byte is claimed by two different layout elements: with the elements
/// laid out one after another, distinct elements claim disjoint spans.
pub proof fn lemma_no_byte_claimed_twice(classes: Seq<FieldClassV>, i: int, j: int)
    requires
        forall|k: int| 0 <= k < classes.len() ==> class_size(#[trigger] classes[k]) >= 0,
        0 <= i < j < classes.len(),
    ensures
        class_span(classes, i).disjoint(class_span(classes, j)),
{
    lemma_span_start_step(classes, i);
    lemma_span_start_mono(classes, i + 1, j);
    assert forall|x: int|
        class_span(classes, i).contains(x) implies !class_span(classes, j).contains(x) by {};
}

/// No byte is claimed by two different elements of a classified layout.
pub proof fn lemma_classified_spans_disjoint(fields: Seq<FieldDescV>, size: u64, i: int, j: int)
    requires
        0 <= i < j < spec_classify(fields, size).len(),
    ensures
        class_span(spec_classify(fields, size), i).disjoint(
            class_span(spec_classify(fields, size), j),
        ),
{
    lemma_classify_sizes_nonneg(fields, size);
    lemma_no_byte_claimed_twice(spec_classify(fields, size), i, j);
}

proof fn lemma_some_span_claims(classes: Seq<FieldClassV>, x: int)
    requires
        forall|k: int| 0 <= k < classes.len() ==> class_size(#[trigger] classes[k]) >= 0,
        0 <= x < sum_sizes(classes),
    ensures
        exists|i: int| 0 <= i < classes.len() && class_span(classes, i).contains(x),
    decreases classes.len(),
{
    assert(classes.len() > 0);
    let n = classes.len() as int;
    assert(classes.take(n) =~= classes);
    lemma_span_start_step(classes, n - 1);
    if x < span_start(classes, n - 1) {
        let head = classes.drop_last();
        assert(head =~= classes.take(n - 1));
        assert(sum_sizes(head) == span_start(classes, n - 1));
        lemma_some_span_claims(head, x);
        let i = choose|i: int| 0 <= i < head.len() && class_span(head, i).contains(x);
        assert(head.take(i) =~= classes.take(i));
        assert(class_span(classes, i).contains(x));
    } else {
        assert(class_span(classes, n - 1).contains(x));
    }
}

/// Together the layout elements of a layout-exact request claim every
/// byte of the struct: each byte position below the platform byte size
/// lies in the span of exactly one element.
pub proof fn lemma_layout_partitions_struct(fields: Seq<FieldDescV>, size: u64, x: int)
    requires
        exact_layout(fields, size),
        0 <= x < size,
    ensures
        exists|i: int|
            0 <= i < spec_classify(fields, size).len() && class_span(
                spec_classify(fields, size),
                i,
            ).contains(x),
        forall|i: int, j: int|
            0 <= i < j < spec_classify(fields, size).len() ==> !(class_span(
                spec_classify(fields, size),
                i,
            ).contains(x) && class_span(spec_classify(fields, size), j).contains(x)),
{
    lemma_layout_covers_struct(fields, size);
    lemma_classify_sizes_nonneg(fields, size);
    lemma_some_span_claims(spec_classify(fields, size), x);
    assert forall|i: int, j: int|
        0 <= i < j < spec_classify(fields, size).len() implies !(class_span(
        spec_classify(fields, size),
        i,
    ).contains(x) && class_span(spec_classify(fields, size), j).contains(x)) by {
        lemma_classified_spans_disjoint(fields, size, i, j);
    }
}

proof fn lemma_fold_sizes_nonneg(fields: Seq<FieldDescV>)
    ensures
        forall|k: int|
            0 <= k < classify_fold(fields).out.len() ==> class_size(
                #[trigger] classify_fold(fields).out[k],
            ) >= 0,
        open_size(classify_fold(fields).open) >= 0,
    decreases fields.len(),
{
    if fields.len() > 0 {
        lemma_fold_sizes_nonneg(fields.drop_last());
        let st = classify_fold(fields.drop_last());
        let f = fields.last();
        match f.bit_width {
            Some(w) => {
                if w != 0 {
                    let o = f.bit_offset as int;
                    lemma_absorb_nonneg(st.seen, o / 8, (o + w - 1) / 8 + 1);
                }
            },
            None => {},
        }
    }
}

/// Every element of a classified layout has a non-negative byte size, so
/// [`lemma_no_byte_claimed_twice`] applies to every classified layout.
pub proof fn lemma_classify_sizes_nonneg(fields: Seq<FieldDescV>, size: u64)
    ensures
        forall|k: int|
            0 <= k < spec_classify(fields, size).len() ==> class_size(
                #[trigger] spec_classify(fields, size)[k],
            ) >= 0,
{
    lemma_fold_sizes_nonneg(fields);
}

} // verus!
