//! The lazy layout pass: widgets flagged `PROPERTY_NEEDS_LAYOUT` are asked
//! once for their children, the flag is consumed, and the children are
//! appended in a second phase, so the table is never mutated while it is
//! being scanned.

use crate::cache::spec_add_all;
use crate::cache::spec_any_needs_layout;
use crate::cache::spec_needs_layout_at;
use crate::cache::EntryModel;
use crate::cache::WidgetCache;
use crate::properties::PropertyStore;
use crate::properties::PropertyValue;
use crate::properties::PROPERTY_NEEDS_LAYOUT;
use crate::widget::Widget;
use vstd::prelude::*;

verus! {

/// One staged insertion: the children one flagged widget asked for, waiting
/// for the scan to finish before they are appended under `parent_id`.
pub struct WidgetAddList<W> {
    /// The children to append, each with its initial properties.
    pub add_list: Vec<(W, PropertyStore)>,
    /// The widget that built them.
    pub parent_id: u32,
}

/// The model of one staged insertion: the parent and the children with
/// their property maps.
pub open spec fn stage_view_one<W>(a: WidgetAddList<W>) -> (u32, Seq<(W, Map<u32, PropertyValue>)>) {
    (a.parent_id, a.add_list@.map_values(|c: (W, PropertyStore)| (c.0, c.1@)))
}

/// The model of the whole staging list.
pub open spec fn stage_view<W>(s: Seq<WidgetAddList<W>>) -> Seq<
    (u32, Seq<(W, Map<u32, PropertyValue>)>),
> {
    s.map_values(|a: WidgetAddList<W>| stage_view_one(a))
}

/// What the scan stages, walking ids from `i` upwards: for every flagged
/// widget, the children its `layout_children` model yields for the
/// properties it has at scan time.
pub open spec fn spec_staged_from<W: Widget>(v: Seq<EntryModel<W>>, i: int) -> Seq<
    (u32, Seq<(W, Map<u32, PropertyValue>)>),
>
    decreases v.len() - i,
{
    if !(0 <= i < v.len()) {
        Seq::empty()
    } else {
        let rest = spec_staged_from(v, i + 1);
        if spec_needs_layout_at(v, i) {
            seq![(i as u32, v[i].widget.layout_children(i as u32, v[i].props))] + rest
        } else {
            rest
        }
    }
}

/// The table after the scan: every flagged widget has its layout flag
/// consumed; nothing else changes.
pub open spec fn spec_cleared<W: Widget>(v: Seq<EntryModel<W>>) -> Seq<EntryModel<W>> {
    Seq::new(
        v.len(),
        |i: int|
            if spec_needs_layout_at(v, i) {
                EntryModel {
                    widget: v[i].widget,
                    props: v[i].props.remove(PROPERTY_NEEDS_LAYOUT),
                    parent_id: v[i].parent_id,
                }
            } else {
                v[i]
            },
    )
}

/// The mutation phase: each staged insertion, in scan order, is appended
/// under its parent, and the parent then learns the ids its children were
/// given. A staged insertion that no longer fits the id space, or whose
/// parent id is out of range, is dropped; with engine-issued ids this
/// cannot happen.
pub open spec fn spec_apply_staged<W: Widget>(
    v: Seq<EntryModel<W>>,
    staged: Seq<(u32, Seq<(W, Map<u32, PropertyValue>)>)>,
    k: int,
) -> Seq<EntryModel<W>>
    decreases staged.len() - k,
{
    if !(0 <= k < staged.len()) {
        v
    } else {
        let p = staged[k].0;
        let cs = staged[k].1;
        if v.len() + cs.len() > 0xFFFF_FFFF || !((p as int) < v.len()) {
            spec_apply_staged(v, staged, k + 1)
        } else {
            let ids = Seq::new(cs.len(), |j: int| (v.len() + j) as u32);
            let v1 = spec_add_all(v, cs, p);
            let v2 = v1.update(
                p as int,
                EntryModel {
                    widget: v1[p as int].widget.with_layout_ids(ids),
                    props: v1[p as int].props,
                    parent_id: v1[p as int].parent_id,
                },
            );
            spec_apply_staged(v2, staged, k + 1)
        }
    }
}

/// The whole lazy layout pass: scan and consume the flags, then apply the
/// staged insertions.
pub open spec fn spec_layout_pass<W: Widget>(v: Seq<EntryModel<W>>) -> Seq<EntryModel<W>> {
    spec_apply_staged(spec_cleared(v), spec_staged_from(v, 0), 0)
}

/// The mutation phase only appends and touches widget states, never a
/// property map of an existing slot, and never shrinks the table.
pub proof fn lemma_apply_staged_props<W: Widget>(
    v: Seq<EntryModel<W>>,
    staged: Seq<(u32, Seq<(W, Map<u32, PropertyValue>)>)>,
    k: int,
)
    ensures
        spec_apply_staged(v, staged, k).len() >= v.len(),
        forall|i: int|
            0 <= i < v.len() ==> (#[trigger] spec_apply_staged(v, staged, k)[i]).props == v[i].props
                && spec_apply_staged(v, staged, k)[i].parent_id == v[i].parent_id,
    decreases staged.len() - k,
{
    if 0 <= k < staged.len() {
        let p = staged[k].0;
        let cs = staged[k].1;
        if v.len() + cs.len() > 0xFFFF_FFFF || !((p as int) < v.len()) {
            lemma_apply_staged_props(v, staged, k + 1);
        } else {
            let ids = Seq::new(cs.len(), |j: int| (v.len() + j) as u32);
            let v1 = spec_add_all(v, cs, p);
            let v2 = v1.update(
                p as int,
                EntryModel {
                    widget: v1[p as int].widget.with_layout_ids(ids),
                    props: v1[p as int].props,
                    parent_id: v1[p as int].parent_id,
                },
            );
            lemma_apply_staged_props(v2, staged, k + 1);
        }
    }
}

/// A widget flagged for layout produces its children exactly once: after
/// one pass, no widget that was in the table when the pass began carries
/// the flag any more, so no later pass can ask it to build again until the
/// flag is set anew.
pub proof fn lemma_layout_pass_consumes_flags<W: Widget>(v: Seq<EntryModel<W>>)
    ensures
        spec_layout_pass(v).len() >= v.len(),
        forall|i: int| 0 <= i < v.len() ==> !spec_needs_layout_at(#[trigger] spec_layout_pass(v), i),
{
    let cleared = spec_cleared(v);
    lemma_apply_staged_props(cleared, spec_staged_from(v, 0), 0);
    assert forall|i: int|
        0 <= i < v.len() implies !spec_needs_layout_at(#[trigger] spec_layout_pass(v), i) by {
        assert(spec_layout_pass(v)[i].props == cleared[i].props);
        assert(!cleared[i].props.contains_key(PROPERTY_NEEDS_LAYOUT));
    }
}

/// With no widget flagged, the layout pass changes nothing: in particular,
/// a second pass right after a first one is the identity.
pub proof fn lemma_layout_pass_noop<W: Widget>(v: Seq<EntryModel<W>>)
    requires
        !spec_any_needs_layout(v),
    ensures
        spec_layout_pass(v) == v,
{
    assert forall|i: int| 0 <= i < v.len() implies !spec_needs_layout_at(v, i) by {
        if spec_needs_layout_at(v, i) {
            assert(spec_any_needs_layout(v));
        }
    }
    lemma_staged_empty(v, 0);
    assert(spec_cleared(v) =~= v);
}

proof fn lemma_staged_empty<W: Widget>(v: Seq<EntryModel<W>>, i: int)
    requires
        forall|j: int| 0 <= j < v.len() ==> !spec_needs_layout_at(v, j),
    ensures
        spec_staged_from(v, i) == Seq::<(u32, Seq<(W, Map<u32, PropertyValue>)>)>::empty(),
    decreases v.len() - i,
{
    if 0 <= i < v.len() {
        lemma_staged_empty(v, i + 1);
    }
}

impl<W: Widget> WidgetCache<W> {
    /// Runs the whole lazy layout pass: scans every widget once, consuming
    /// the layout flag of each flagged widget and collecting the children
    /// it builds; then appends all collected children and hands each parent
    /// the ids its children were given. Two-phase on purpose: the table is
    /// never mutated while it is being scanned.
    pub fn run_layout_pass(&mut self)
        ensures
            final (self)@ == spec_layout_pass(old(self)@),
            !spec_any_needs_layout(old(self)@) ==> final (self).spec_invalidated() == old(
                self,
            ).spec_invalidated(),
    {
        let n = self.size();
        let ghost v0 = self@;
        let mut staged: Vec<WidgetAddList<W>> = Vec::new();
        let mut i: u32 = 0;
        while i < n
            invariant
                i <= n,
                v0 == old(self)@,
                n == v0.len(),
                self@.len() == v0.len(),
                forall|j: int| i <= j < v0.len() ==> #[trigger] self@[j] == v0[j],
                forall|j: int| 0 <= j < i ==> #[trigger] self@[j] == spec_cleared(v0)[j],
                spec_staged_from(v0, 0) == stage_view(staged@) + spec_staged_from(v0, i as int),
                staged@.len() == 0 ==> self.spec_invalidated() == old(self).spec_invalidated(),
            decreases n - i,
        {
            let flagged = self.get(i).properties().get_bool(PROPERTY_NEEDS_LAYOUT);
            let ghost staged_pre = staged@;
            proof {
                assert(flagged == spec_needs_layout_at(v0, i as int));
            }
            if flagged {
                let children = self.build_children(i);
                let ghost one = (
                    i,
                    v0[i as int].widget.layout_children(i, v0[i as int].props),
                );
                staged.push(WidgetAddList { add_list: children, parent_id: i });
                self.delete_property(i, PROPERTY_NEEDS_LAYOUT);
                proof {
                    assert(stage_view_one(staged@[staged@.len() - 1]) == one);
                    assert(stage_view(staged@) =~= stage_view(staged_pre).push(one));
                    assert(spec_staged_from(v0, i as int) == seq![one] + spec_staged_from(
                        v0,
                        i as int + 1,
                    ));
                    assert(stage_view(staged@) + spec_staged_from(v0, i as int + 1)
                        =~= stage_view(staged_pre) + spec_staged_from(v0, i as int));
                    assert(self@[i as int] == spec_cleared(v0)[i as int]);
                }
            } else {
                proof {
                    assert(spec_staged_from(v0, i as int) == spec_staged_from(v0, i as int + 1));
                    assert(self@[i as int] == spec_cleared(v0)[i as int]);
                }
            }
            i = i + 1;
        }
        proof {
            assert(self@ =~= spec_cleared(v0));
            assert(stage_view(staged@) + spec_staged_from(v0, n as int) =~= stage_view(staged@));
        }
        let ghost full = stage_view(staged@);
        let ghost v1 = self@;
        while staged.len() > 0
            invariant
                v0 == old(self)@,
                v1 == spec_cleared(v0),
                full == spec_staged_from(v0, 0),
                spec_apply_staged(v1, full, 0) == spec_apply_staged(
                    self@,
                    stage_view(staged@),
                    0,
                ),
                full.len() == 0 ==> staged@.len() == 0 && self.spec_invalidated() == old(
                    self,
                ).spec_invalidated(),
            decreases staged@.len(),
        {
            let ghost pre = self@;
            let ghost staged_pre = staged@;
            let item = staged.remove(0);
            proof {
                assert(stage_view(staged_pre)[0] == stage_view_one(item));
                assert(stage_view(staged@) =~= stage_view(staged_pre).subrange(
                    1,
                    stage_view(staged_pre).len() as int,
                ));
            }
            let parent_id = item.parent_id;
            let child_count = item.add_list.len();
            let size_now = self.size();
            let fits = (size_now as u128) + (child_count as u128) <= 0xFFFF_FFFFu128 && parent_id
                < size_now;
            let ghost cs = stage_view_one(item).1;
            proof {
                assert(cs.len() == child_count);
            }
            if fits {
                let ids = self.add_vec(item.add_list, parent_id);
                let ghost idsp = Seq::new(cs.len(), |j: int| (pre.len() + j) as u32);
                proof {
                    assert(ids@ =~= idsp);
                }
                self.notify_layout_ids(parent_id, &ids);
                proof {
                    let v1s = spec_add_all(pre, cs, parent_id);
                    let v2s = v1s.update(
                        parent_id as int,
                        EntryModel {
                            widget: v1s[parent_id as int].widget.with_layout_ids(idsp),
                            props: v1s[parent_id as int].props,
                            parent_id: v1s[parent_id as int].parent_id,
                        },
                    );
                    assert(self@ == v2s);
                    assert(spec_apply_staged(pre, stage_view(staged_pre), 0) == spec_apply_staged(
                        v2s,
                        stage_view(staged_pre),
                        1,
                    ));
                    lemma_apply_staged_shift(v2s, stage_view(staged_pre), stage_view(staged@));
                }
            } else {
                proof {
                    assert(spec_apply_staged(pre, stage_view(staged_pre), 0) == spec_apply_staged(
                        pre,
                        stage_view(staged_pre),
                        1,
                    ));
                    lemma_apply_staged_shift(pre, stage_view(staged_pre), stage_view(staged@));
                }
            }
        }
        proof {
            assert(stage_view(staged@) =~= Seq::<
                (u32, Seq<(W, Map<u32, PropertyValue>)>),
            >::empty());
            if !spec_any_needs_layout(v0) {
                assert forall|j: int| 0 <= j < v0.len() implies !spec_needs_layout_at(v0, j) by {
                    if spec_needs_layout_at(v0, j) {
                        assert(spec_any_needs_layout(v0));
                    }
                }
                lemma_staged_empty(v0, 0);
            }
        }
    }
}

/// Applying a staging list from its second element on is the same as
/// applying the list without its first element from the start.
proof fn lemma_apply_staged_shift<W: Widget>(
    v: Seq<EntryModel<W>>,
    whole: Seq<(u32, Seq<(W, Map<u32, PropertyValue>)>)>,
    rest: Seq<(u32, Seq<(W, Map<u32, PropertyValue>)>)>,
)
    requires
        whole.len() > 0,
        rest == whole.subrange(1, whole.len() as int),
    ensures
        spec_apply_staged(v, whole, 1) == spec_apply_staged(v, rest, 0),
{
    lemma_apply_staged_shift_rec(v, whole, rest, 0);
}

proof fn lemma_apply_staged_shift_rec<W: Widget>(
    v: Seq<EntryModel<W>>,
    whole: Seq<(u32, Seq<(W, Map<u32, PropertyValue>)>)>,
    rest: Seq<(u32, Seq<(W, Map<u32, PropertyValue>)>)>,
    k: int,
)
    requires
        whole.len() > 0,
        rest == whole.subrange(1, whole.len() as int),
        0 <= k,
    ensures
        spec_apply_staged(v, whole, k + 1) == spec_apply_staged(v, rest, k),
    decreases rest.len() - k,
{
    if k < rest.len() {
        assert(rest[k] == whole[k + 1]);
        let p = rest[k].0;
        let cs = rest[k].1;
        if v.len() + cs.len() > 0xFFFF_FFFF || !((p as int) < v.len()) {
            lemma_apply_staged_shift_rec(v, whole, rest, k + 1);
        } else {
            let ids = Seq::new(cs.len(), |j: int| (v.len() + j) as u32);
            let v1 = spec_add_all(v, cs, p);
            let v2 = v1.update(
                p as int,
                EntryModel {
                    widget: v1[p as int].widget.with_layout_ids(ids),
                    props: v1[p as int].props,
                    parent_id: v1[p as int].parent_id,
                },
            );
            lemma_apply_staged_shift_rec(v2, whole, rest, k + 1);
        }
    }
}

} // verus!
