//! The laws of the widget tree: freshness of issued ids, soundness of the
//! hit test, hidden subtrees staying out of hit-testing, and hiding being
//! undone by un-hiding.

use crate::cache::parents_ok;
use crate::cache::spec_hidden;
use crate::cache::spec_hit_match;
use crate::cache::spec_id_at_point;
use crate::cache::spec_scan;
use crate::cache::EntryModel;
use crate::properties::PropertyValue;
use crate::properties::PROPERTY_HIDDEN;
use vstd::prelude::*;

verus! {

/// Whether `a` lies on `w`'s parent chain, `w` itself included. The chain
/// is followed downwards only while it is well formed.
pub open spec fn spec_is_ancestor_or_self<W>(v: Seq<EntryModel<W>>, a: int, w: int) -> bool
    decreases w,
{
    if !(0 <= w < v.len()) {
        false
    } else if w == a {
        true
    } else if w == 0 {
        false
    } else if 0 <= v[w].parent_id < w {
        spec_is_ancestor_or_self(v, a, v[w].parent_id as int)
    } else {
        false
    }
}

/// Whether `w` and every widget on its parent chain strictly below `p` is
/// unhidden, following the chain from `w` down to `p`.
pub open spec fn spec_visible_above<W>(v: Seq<EntryModel<W>>, w: int, p: int) -> bool
    decreases w,
{
    if w == p {
        true
    } else if !(0 <= w < v.len()) {
        false
    } else if spec_hidden(v, w) {
        false
    } else if 0 <= v[w].parent_id < w {
        spec_visible_above(v, v[w].parent_id as int, p)
    } else {
        false
    }
}

/// The condition under which the hit-test walk reaches widget `a`: `a` and
/// each of its ancestors below the root is an unhidden match for the point,
/// and no sibling added after any of them matches at its level.
pub open spec fn spec_path_clear<W>(v: Seq<EntryModel<W>>, a: int, x: u32, y: u32) -> bool
    decreases a,
{
    if !(0 <= a < v.len()) {
        false
    } else if a == 0 {
        true
    } else if !(0 <= v[a].parent_id < a) {
        false
    } else {
        &&& spec_hit_match(v, a, x, y)
        &&& forall|q: int|
            a < q < v.len() && (#[trigger] v[q]).parent_id == v[a].parent_id ==> !spec_hit_match(
                v,
                q,
                x,
                y,
            )
        &&& spec_path_clear(v, v[a].parent_id as int, x, y)
    }
}

/// Ancestry is transitive.
proof fn lemma_ancestor_trans<W>(v: Seq<EntryModel<W>>, a: int, b: int, w: int)
    requires
        spec_is_ancestor_or_self(v, a, b),
        spec_is_ancestor_or_self(v, b, w),
    ensures
        spec_is_ancestor_or_self(v, a, w),
    decreases w,
{
    if w != b {
        lemma_ancestor_trans(v, a, b, v[w].parent_id as int);
    }
}

/// Chains of unhidden ancestry compose.
proof fn lemma_visible_glue<W>(v: Seq<EntryModel<W>>, w: int, m: int, p: int)
    requires
        spec_visible_above(v, w, m),
        spec_visible_above(v, m, p),
    ensures
        spec_visible_above(v, w, p),
    decreases w,
{
    if w != m && w != p {
        lemma_visible_glue(v, v[w].parent_id as int, m, p);
    }
}

/// What any hit-test walk yields: the widget it started from, or a strictly
/// deeper descendant that is an unhidden match for the point, with every
/// step of the chain down to the start unhidden.
proof fn lemma_scan_sound<W>(v: Seq<EntryModel<W>>, p: int, i: int, x: u32, y: u32)
    requires
        parents_ok(v),
        v.len() <= 0xFFFF_FFFF,
        0 <= p < v.len(),
    ensures
        ({
            let r = spec_scan(v, p, i, x, y) as int;
            &&& p <= r < v.len()
            &&& spec_is_ancestor_or_self(v, p, r)
            &&& r != p ==> spec_hit_match(v, r, x, y) && spec_visible_above(v, r, p)
        }),
    decreases v.len() - p, i,
{
    if 0 <= p < v.len() && p < i < v.len() {
        if v[i].parent_id == p && spec_hit_match(v, i, x, y) {
            lemma_scan_sound(v, i, v.len() - 1, x, y);
            let r = spec_scan(v, i, v.len() - 1, x, y) as int;
            assert(spec_is_ancestor_or_self(v, p, i)) by {
                assert(spec_is_ancestor_or_self(v, p, p));
            }
            lemma_ancestor_trans(v, p, i, r);
            assert(spec_visible_above(v, i, p)) by {
                assert(spec_visible_above(v, p, p));
            }
            if r != i {
                lemma_visible_glue(v, r, i, p);
            }
        } else {
            lemma_scan_sound(v, p, i - 1, x, y);
        }
    }
}

/// The walk descends as deep as it can: whatever it yields has no unhidden
/// child containing the point — there is no matching descendant more
/// recently added to go on to.
proof fn lemma_scan_deepest<W>(v: Seq<EntryModel<W>>, p: int, i: int, x: u32, y: u32)
    requires
        parents_ok(v),
        v.len() <= 0xFFFF_FFFF,
        0 <= p < v.len(),
        i < v.len(),
    ensures
        ({
            let r = spec_scan(v, p, i, x, y) as int;
            &&& r == p ==> (forall|q: int|
                p < q <= i && (#[trigger] v[q]).parent_id == p ==> !spec_hit_match(v, q, x, y))
            &&& r != p ==> (forall|q: int|
                r < q < v.len() && (#[trigger] v[q]).parent_id == r ==> !spec_hit_match(
                    v,
                    q,
                    x,
                    y,
                ))
        }),
    decreases v.len() - p, i,
{
    if 0 <= p < v.len() && p < i < v.len() {
        if v[i].parent_id == p && spec_hit_match(v, i, x, y) {
            lemma_scan_sound(v, i, v.len() - 1, x, y);
            lemma_scan_deepest(v, i, v.len() - 1, x, y);
        } else {
            lemma_scan_deepest(v, p, i - 1, x, y);
        }
    }
}

/// A stretch of candidate ids in which no child of `p` matches can be
/// skipped without changing the walk's outcome.
proof fn lemma_scan_skip_range<W>(v: Seq<EntryModel<W>>, p: int, i: int, j: int, x: u32, y: u32)
    requires
        0 <= p < v.len(),
        p <= j <= i < v.len(),
        forall|q: int|
            j < q <= i && (#[trigger] v[q]).parent_id == p ==> !spec_hit_match(v, q, x, y),
    ensures
        spec_scan(v, p, i, x, y) == spec_scan(v, p, j, x, y),
    decreases i - j,
{
    if i > j {
        lemma_scan_skip_range(v, p, i - 1, j, x, y);
    }
}

/// The hit test returns the root, or an unhidden widget containing the
/// point whose whole chain of ancestors below the root is unhidden — never
/// anything in a hidden subtree and never a widget the point lies outside.
pub proof fn lemma_hit_test_sound<W>(v: Seq<EntryModel<W>>, x: u32, y: u32)
    requires
        parents_ok(v),
        v.len() <= 0xFFFF_FFFF,
        v.len() > 0,
    ensures
        ({
            let r = spec_id_at_point(v, x, y) as int;
            &&& 0 <= r < v.len()
            &&& spec_is_ancestor_or_self(v, 0, r)
            &&& r != 0 ==> spec_hit_match(v, r, x, y) && spec_visible_above(v, r, 0)
        }),
{
    lemma_scan_sound(v, 0, v.len() - 1, x, y);
}

/// The hit test goes as deep as the point allows: the widget it yields has
/// no unhidden child containing the point, so it is a most recently added
/// matching descendant and never an ancestor of a deeper match.
pub proof fn lemma_hit_test_deepest<W>(v: Seq<EntryModel<W>>, x: u32, y: u32)
    requires
        parents_ok(v),
        v.len() <= 0xFFFF_FFFF,
        v.len() > 0,
    ensures
        ({
            let r = spec_id_at_point(v, x, y) as int;
            forall|q: int|
                r < q < v.len() && (#[trigger] v[q]).parent_id == r ==> !spec_hit_match(v, q, x, y)
        }),
{
    lemma_scan_deepest(v, 0, v.len() - 1, x, y);
}

/// Among the children of one parent, the walk picks the last-added match:
/// given that every already-scanned candidate above `i` failed, no sibling
/// added after the result matches the point.
proof fn lemma_scan_last_sibling<W>(v: Seq<EntryModel<W>>, p: int, i: int, x: u32, y: u32)
    requires
        parents_ok(v),
        v.len() <= 0xFFFF_FFFF,
        0 <= p < v.len(),
        i < v.len(),
        forall|q: int|
            i < q < v.len() && (#[trigger] v[q]).parent_id == p ==> !spec_hit_match(v, q, x, y),
    ensures
        ({
            let r = spec_scan(v, p, i, x, y) as int;
            r != p ==> forall|q: int|
                r < q < v.len() && (#[trigger] v[q]).parent_id == v[r].parent_id
                    ==> !spec_hit_match(v, q, x, y)
        }),
    decreases v.len() - p, i,
{
    if 0 <= p < v.len() && p < i < v.len() {
        if v[i].parent_id == p && spec_hit_match(v, i, x, y) {
            lemma_scan_sound(v, i, v.len() - 1, x, y);
            lemma_scan_last_sibling(v, i, v.len() - 1, x, y);
        } else {
            lemma_scan_last_sibling(v, p, i - 1, x, y);
        }
    }
}

/// The z-order rule of overlapping regions: of two widgets under one parent
/// both containing the point, the one added later wins — no unhidden
/// sibling added after the hit result contains the point.
pub proof fn lemma_hit_last_added_wins<W>(v: Seq<EntryModel<W>>, x: u32, y: u32)
    requires
        parents_ok(v),
        v.len() <= 0xFFFF_FFFF,
        v.len() > 0,
    ensures
        ({
            let r = spec_id_at_point(v, x, y) as int;
            r != 0 ==> forall|q: int|
                r < q < v.len() && (#[trigger] v[q]).parent_id == v[r].parent_id
                    ==> !spec_hit_match(v, q, x, y)
        }),
{
    lemma_scan_last_sibling(v, 0, v.len() - 1, x, y);
}

/// An unhidden chain below an unhidden root is a visible subtree.
proof fn lemma_visible_above_root<W>(v: Seq<EntryModel<W>>, w: int)
    requires
        0 < v.len(),
        !spec_hidden(v, 0),
        spec_visible_above(v, w, 0),
        0 <= w < v.len(),
    ensures
        crate::cache::spec_subtree_visible(v, w),
    decreases w,
{
    if w != 0 {
        lemma_visible_above_root(v, v[w].parent_id as int);
    }
}

/// Hit-testing and drawing agree: as long as the root is not hidden, the
/// widget the hit test yields is in the drawn set.
pub proof fn lemma_hit_is_drawn<W>(v: Seq<EntryModel<W>>, x: u32, y: u32)
    requires
        parents_ok(v),
        v.len() <= 0xFFFF_FFFF,
        v.len() > 0,
        !spec_hidden(v, 0),
    ensures
        crate::cache::spec_subtree_visible(v, spec_id_at_point(v, x, y) as int),
{
    lemma_scan_sound(v, 0, v.len() - 1, x, y);
    let r = spec_id_at_point(v, x, y) as int;
    if r != 0 {
        lemma_visible_above_root(v, r);
    }
}

/// On a chain that is unhidden all the way down to the root, no widget but
/// possibly the root itself is hidden.
proof fn lemma_visible_chain_not_hidden<W>(v: Seq<EntryModel<W>>, a: int, w: int)
    requires
        spec_visible_above(v, w, 0),
        spec_is_ancestor_or_self(v, a, w),
        a != 0,
    ensures
        !spec_hidden(v, a),
    decreases w,
{
    if w != a {
        lemma_visible_chain_not_hidden(v, a, v[w].parent_id as int);
    }
}

/// Hiding removes a widget and its entire subtree from hit-testing: while
/// any widget on `w`'s ancestor chain (itself included, the root excepted)
/// is hidden, no point hits `w`. Siblings and ancestors are unaffected,
/// since hiding changes only the hidden widget's own entry.
pub proof fn lemma_hidden_subtree_unhittable<W>(
    v: Seq<EntryModel<W>>,
    a: int,
    w: int,
    x: u32,
    y: u32,
)
    requires
        parents_ok(v),
        v.len() <= 0xFFFF_FFFF,
        1 <= a < v.len(),
        0 <= w < v.len(),
        spec_hidden(v, a),
        spec_is_ancestor_or_self(v, a, w),
    ensures
        spec_id_at_point(v, x, y) != w,
{
    let r = spec_id_at_point(v, x, y) as int;
    lemma_scan_sound(v, 0, v.len() - 1, x, y);
    if r == w {
        if w == 0 {
            assert(spec_is_ancestor_or_self(v, a, 0));
            assert(false);
        } else {
            lemma_visible_chain_not_hidden(v, a, w);
            assert(false);
        }
    }
}

/// When the walk can reach widget `a` — `a` and its ancestors are unhidden
/// matches and no later sibling shadows any of them — the hit test starts
/// its descent at `a`.
proof fn lemma_path_scan<W>(v: Seq<EntryModel<W>>, a: int, x: u32, y: u32)
    requires
        parents_ok(v),
        v.len() <= 0xFFFF_FFFF,
        1 <= a < v.len(),
        spec_path_clear(v, a, x, y),
    ensures
        spec_id_at_point(v, x, y) == spec_scan(v, a, v.len() - 1, x, y),
    decreases a,
{
    let b = v[a].parent_id as int;
    if b == 0 {
        lemma_scan_skip_range(v, 0, v.len() - 1, a, x, y);
    } else {
        lemma_path_scan(v, b, x, y);
        lemma_scan_skip_range(v, b, v.len() - 1, a, x, y);
    }
}

/// On a point strictly inside widget `a` and outside every sibling added
/// after `a` — at `a`'s level and at each ancestor's level — the hit test
/// yields `a`'s most recently added matching descendant: a widget of `a`'s
/// subtree that contains the point, never an ancestor of `a`.
pub proof fn lemma_hit_descends_into<W>(v: Seq<EntryModel<W>>, a: int, x: u32, y: u32)
    requires
        parents_ok(v),
        v.len() <= 0xFFFF_FFFF,
        1 <= a < v.len(),
        spec_path_clear(v, a, x, y),
    ensures
        spec_is_ancestor_or_self(v, a, spec_id_at_point(v, x, y) as int),
        spec_hit_match(v, spec_id_at_point(v, x, y) as int, x, y),
{
    lemma_path_scan(v, a, x, y);
    lemma_scan_sound(v, a, v.len() - 1, x, y);
}

/// A point inside no added widget falls through to the root: the hit test
/// returns 0.
pub proof fn lemma_no_match_returns_root<W>(v: Seq<EntryModel<W>>, x: u32, y: u32)
    requires
        parents_ok(v),
        v.len() <= 0xFFFF_FFFF,
        forall|i: int| 1 <= i < v.len() ==> !spec_hit_match(v, i, x, y),
    ensures
        spec_id_at_point(v, x, y) == 0,
{
    if v.len() > 0 {
        lemma_scan_skip_range(v, 0, v.len() - 1, 0, x, y);
    }
}

/// Un-hiding undoes hiding: on a widget that is not hidden, setting the
/// hidden flag and then clearing it restores the table exactly, so
/// hit-testing and the drawn set are restored with it. Both steps change
/// only widget `id`'s own entry, so siblings and ancestors were unaffected
/// throughout.
pub proof fn lemma_unhide_restores<W>(v: Seq<EntryModel<W>>, id: int)
    requires
        0 <= id < v.len(),
        !v[id].props.contains_key(PROPERTY_HIDDEN),
    ensures
        ({
            let hidden = v.update(
                id,
                EntryModel {
                    widget: v[id].widget,
                    props: v[id].props.insert(PROPERTY_HIDDEN, PropertyValue::Flag),
                    parent_id: v[id].parent_id,
                },
            );
            let restored = hidden.update(
                id,
                EntryModel {
                    widget: hidden[id].widget,
                    props: hidden[id].props.remove(PROPERTY_HIDDEN),
                    parent_id: hidden[id].parent_id,
                },
            );
            restored == v
        }),
{
    let hidden = v.update(
        id,
        EntryModel {
            widget: v[id].widget,
            props: v[id].props.insert(PROPERTY_HIDDEN, PropertyValue::Flag),
            parent_id: v[id].parent_id,
        },
    );
    let restored = hidden.update(
        id,
        EntryModel {
            widget: hidden[id].widget,
            props: hidden[id].props.remove(PROPERTY_HIDDEN),
            parent_id: hidden[id].parent_id,
        },
    );
    assert(restored[id].props =~= v[id].props);
    assert(restored =~= v);
}

/// Ids are issued strictly increasing and never reused: a bulk add on a
/// table of `n0` widgets yields the ids `n0`, `n0 + 1`, and so on, each
/// larger than every id issued before it.
pub proof fn lemma_ids_strictly_increasing(n0: nat, ids: Seq<u32>)
    requires
        forall|j: int| 0 <= j < ids.len() ==> #[trigger] ids[j] == n0 + j,
    ensures
        forall|j: int, k: int| 0 <= j < k < ids.len() ==> ids[j] < ids[k],
        forall|j: int| 0 <= j < ids.len() ==> #[trigger] ids[j] >= n0,
{
}

} // verus!
