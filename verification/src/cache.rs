//! The widget cache: a flat, append-only table of widgets indexed by
//! `WidgetId`, with a parent-pointer tree built top-down, z-order
//! hit-testing, hidden-subtree handling and a process-wide dirty latch.

use crate::events::SemanticEvent;
use crate::properties::spec_pair_of;
use crate::properties::PropertyStore;
use crate::properties::PropertyValue;
use crate::properties::PROPERTY_BOUNDS;
use crate::properties::PROPERTY_HIDDEN;
use crate::properties::PROPERTY_NEEDS_LAYOUT;
use crate::properties::PROPERTY_ORIGIN;
use crate::widget::Widget;
use vstd::prelude::*;

verus! {

/// The mathematical model of one cache slot: the widget's state, its
/// property map and its parent's id.
pub struct EntryModel<W> {
    pub widget: W,
    pub props: Map<u32, PropertyValue>,
    pub parent_id: u32,
}

/// One slot of the cache: a widget, the property store it exclusively owns,
/// its parent's id and a name used only for diagnostics.
pub struct CacheEntry<W> {
    widget: W,
    properties: PropertyStore,
    parent_id: u32,
    debug_name: String,
}

impl<W> View for CacheEntry<W> {
    type V = EntryModel<W>;

    closed spec fn view(&self) -> EntryModel<W> {
        EntryModel { widget: self.widget, props: self.properties@, parent_id: self.parent_id }
    }
}

impl<W> CacheEntry<W> {
    /// Read access to the widget itself.
    pub fn widget(&self) -> (w: &W)
        ensures
            *w == self@.widget,
    {
        &self.widget
    }

    /// Read access to the widget's property store.
    pub fn properties(&self) -> (p: &PropertyStore)
        ensures
            p@ == self@.props,
    {
        &self.properties
    }

    /// The id of this widget's parent.
    pub fn parent_id(&self) -> (p: u32)
        ensures
            p == self@.parent_id,
    {
        self.parent_id
    }

    /// The diagnostic name given when the widget was added.
    pub fn debug_name(&self) -> &String {
        &self.debug_name
    }
}

/// What one widget does with one event, as the cache model sees it: the
/// updated table, the derived event, and whether the widget asked for a
/// repaint. `None` and no change when `id` is out of range.
pub open spec fn spec_deliver<W: Widget>(
    v: Seq<EntryModel<W>>,
    id: int,
    event: SemanticEvent,
) -> (Seq<EntryModel<W>>, Option<SemanticEvent>, bool) {
    if 0 <= id < v.len() {
        let e = v[id];
        let o = e.widget.on_event(id as u32, e.props, event);
        (
            v.update(id, EntryModel { widget: o.0, props: o.1, parent_id: e.parent_id }),
            o.2,
            o.3,
        )
    } else {
        (v, None, false)
    }
}

/// The tree shape every cache keeps: the root is its own parent, and every
/// other widget points at a widget added before it, so parent chains always
/// lead down to the root.
pub open spec fn parents_ok<W>(v: Seq<EntryModel<W>>) -> bool {
    &&& v.len() > 0 ==> v[0].parent_id == 0
    &&& forall|i: int| 1 <= i < v.len() ==> (#[trigger] v[i]).parent_id < i
}

/// Whether widget `i` carries the hidden flag.
pub open spec fn spec_hidden<W>(v: Seq<EntryModel<W>>, i: int) -> bool {
    v[i].props.contains_key(PROPERTY_HIDDEN)
}

/// Whether widget `i` carries the lazy-layout flag.
pub open spec fn spec_needs_layout_at<W>(v: Seq<EntryModel<W>>, i: int) -> bool {
    v[i].props.contains_key(PROPERTY_NEEDS_LAYOUT)
}

/// Whether any widget currently asks for a lazy layout pass.
pub open spec fn spec_any_needs_layout<W>(v: Seq<EntryModel<W>>) -> bool {
    exists|i: int| 0 <= i < v.len() && spec_needs_layout_at(v, i)
}

/// Whether the window point (x, y) lies in widget `i`'s rectangle. The
/// rectangle is half-open: the origin row and column are inside, the row
/// and column at origin plus bounds are outside.
pub open spec fn spec_contains_point<W>(v: Seq<EntryModel<W>>, i: int, x: u32, y: u32) -> bool {
    let origin = spec_pair_of(v[i].props, PROPERTY_ORIGIN);
    let bounds = spec_pair_of(v[i].props, PROPERTY_BOUNDS);
    &&& origin.0 <= x < origin.0 + bounds.0
    &&& origin.1 <= y < origin.1 + bounds.1
}

/// Whether widget `i` is a hit candidate at (x, y): not hidden itself and
/// containing the point.
pub open spec fn spec_hit_match<W>(v: Seq<EntryModel<W>>, i: int, x: u32, y: u32) -> bool {
    !spec_hidden(v, i) && spec_contains_point(v, i, x, y)
}

/// The hit-test walk. With current match `p`, candidate ids run from `i`
/// down to `p + 1` in reverse insertion order; the first non-hidden child of
/// `p` containing the point wins and the walk descends into its children.
/// When no child matches, `p` itself is the hit.
pub open spec fn spec_scan<W>(v: Seq<EntryModel<W>>, p: int, i: int, x: u32, y: u32) -> u32
    decreases v.len() - p, i,
{
    if !(0 <= p < v.len() && p < i < v.len()) {
        if 0 <= p < v.len() {
            p as u32
        } else {
            0
        }
    } else if v[i].parent_id == p && spec_hit_match(v, i, x, y) {
        spec_scan(v, i, v.len() - 1, x, y)
    } else {
        spec_scan(v, p, i - 1, x, y)
    }
}

/// The id the hit test yields at (x, y): the walk starting at the root.
/// The root is the fallback when nothing more specific matches.
pub open spec fn spec_id_at_point<W>(v: Seq<EntryModel<W>>, x: u32, y: u32) -> u32 {
    spec_scan(v, 0, v.len() - 1, x, y)
}

/// Whether widget `i` takes part in hit-testing and drawing: neither it nor
/// any of its ancestors is hidden. Outside the table, or with a malformed
/// parent chain, a widget is not visible.
pub open spec fn spec_subtree_visible<W>(v: Seq<EntryModel<W>>, i: int) -> bool
    decreases i,
{
    if !(0 <= i < v.len()) {
        false
    } else if spec_hidden(v, i) {
        false
    } else if i == 0 {
        true
    } else if 0 <= v[i].parent_id < i {
        spec_subtree_visible(v, v[i].parent_id as int)
    } else {
        false
    }
}

/// The model of a bulk add: the new entries appended in order, all under
/// the same parent.
pub open spec fn spec_add_all<W>(
    v: Seq<EntryModel<W>>,
    children: Seq<(W, Map<u32, PropertyValue>)>,
    parent_id: u32,
) -> Seq<EntryModel<W>> {
    v + children.map_values(
        |c: (W, Map<u32, PropertyValue>)| EntryModel { widget: c.0, props: c.1, parent_id },
    )
}

/// The widget tree. Insertion order is id order; ids are never reused; every
/// non-root widget's parent is already present when the widget is added.
pub struct WidgetCache<W> {
    entries: Vec<CacheEntry<W>>,
    invalidated: bool,
}

impl<W> View for WidgetCache<W> {
    type V = Seq<EntryModel<W>>;

    closed spec fn view(&self) -> Seq<EntryModel<W>> {
        self.entries@.map_values(|e: CacheEntry<W>| e@)
    }
}

impl<W> WidgetCache<W> {
    /// Tree shape: the table fits the id space, and every non-root entry
    /// points at an earlier entry, so parent chains always lead down to the
    /// root.
    #[verifier::type_invariant]
    spec fn wf(self) -> bool {
        &&& self.entries@.len() <= 0xFFFF_FFFFnat
        &&& self.entries@.len() > 0 ==> self.entries@[0].parent_id == 0
        &&& forall|i: int|
            1 <= i < self.entries@.len() ==> (#[trigger] self.entries@[i]).parent_id < i
    }

    /// Whether a redraw is owed. The latch is set by any mutation that can
    /// affect appearance and cleared only by the redraw pass.
    pub closed spec fn spec_invalidated(&self) -> bool {
        self.invalidated
    }
}

impl<W: Widget> WidgetCache<W> {
    /// Creates the cache with the implicit root widget at id 0, spanning
    /// the full window.
    pub fn new(root: W, width: u32, height: u32) -> (cache: Self)
        ensures
            cache@.len() == 1,
            cache@[0].widget == root,
            cache@[0].props == Map::<u32, PropertyValue>::empty().insert(
                PROPERTY_ORIGIN,
                PropertyValue::Pair(0, 0),
            ).insert(PROPERTY_BOUNDS, PropertyValue::Pair(width, height)),
            cache@[0].parent_id == 0,
            !cache.spec_invalidated(),
    {
        let mut props = PropertyStore::new();
        props.set_origin(0, 0);
        props.set_bounds(width, height);
        let entry = CacheEntry {
            widget: root,
            properties: props,
            parent_id: 0,
            debug_name: String::new(),
        };
        let entries = vec![entry];
        let cache = WidgetCache { entries, invalidated: false };
        proof {
            assert(cache@ =~= seq![cache.entries@[0]@]);
        }
        cache
    }

    /// The number of widgets in the cache, the root included. Also hands
    /// the caller the tree shape, for use with the hit-testing and hiding
    /// laws.
    pub fn size(&self) -> (n: u32)
        ensures
            n == self@.len(),
            parents_ok(self@),
    {
        proof {
            use_type_invariant(self);
            assert forall|i: int| 1 <= i < self@.len() implies (#[trigger] self@[i]).parent_id
                < i by {
                assert(self@[i] == self.entries@[i]@);
            }
        }
        self.entries.len() as u32
    }

    /// Appends a widget under `parent_id`, which must already be present,
    /// and returns the fresh id: always the current size of the cache, so
    /// ids are handed out strictly increasing and never reused.
    pub fn add(&mut self, widget: W, properties: PropertyStore, debug_name: String, parent_id: u32)
        -> (id: u32)
        requires
            (parent_id as int) < old(self)@.len(),
            old(self)@.len() < 0xFFFF_FFFF,
        ensures
            id == old(self)@.len(),
            final (self)@ == old(self)@.push(
                EntryModel { widget, props: properties@, parent_id },
            ),
            final (self).spec_invalidated(),
    {
        proof {
            use_type_invariant(&*self);
        }
        let id = self.entries.len() as u32;
        let entry = CacheEntry { widget, properties, parent_id, debug_name };
        let ghost entry_model = entry@;
        let mut entries: Vec<CacheEntry<W>> = Vec::new();
        std::mem::swap(&mut self.entries, &mut entries);
        entries.push(entry);
        std::mem::swap(&mut self.entries, &mut entries);
        self.invalidated = true;
        proof {
            assert(final (self)@ =~= old(self)@.push(entry_model));
        }
        id
    }

    /// Appends a list of widgets under one parent — the bulk form used for
    /// lazy-layout results — and returns their fresh ids in insertion order.
    pub fn add_vec(&mut self, widgets: Vec<(W, PropertyStore)>, parent_id: u32) -> (ids: Vec<u32>)
        requires
            (parent_id as int) < old(self)@.len(),
            old(self)@.len() + widgets@.len() <= 0xFFFF_FFFF,
        ensures
            final (self)@ == spec_add_all(
                old(self)@,
                widgets@.map_values(|c: (W, PropertyStore)| (c.0, c.1@)),
                parent_id,
            ),
            ids@.len() == widgets@.len(),
            forall|j: int| 0 <= j < ids@.len() ==> ids@[j] == old(self)@.len() + j,
            widgets@.len() > 0 ==> final (self).spec_invalidated(),
            widgets@.len() == 0 ==> final (self).spec_invalidated() == old(
                self,
            ).spec_invalidated(),
    {
        proof {
            use_type_invariant(&*self);
        }
        let ghost all = widgets@.map_values(|c: (W, PropertyStore)| (c.0, c.1@));
        let mut widgets = widgets;
        let mut ids: Vec<u32> = Vec::new();
        let ghost n0 = self@.len();
        let ghost total = all.len();
        while widgets.len() > 0
            invariant
                total == all.len(),
                ids@.len() + widgets@.len() == total,
                n0 + total <= 0xFFFF_FFFF,
                (parent_id as int) < n0,
                self@.len() == n0 + ids@.len(),
                self@ == spec_add_all(old(self)@, all.take(ids@.len() as int), parent_id),
                forall|k: int|
                    0 <= k < widgets@.len() ==> (#[trigger] widgets@[k]).0 == all[ids@.len() + k].0
                        && widgets@[k].1@ == all[ids@.len() + k].1,
                forall|j: int| 0 <= j < ids@.len() ==> ids@[j] == n0 + j,
                ids@.len() > 0 ==> self.spec_invalidated(),
                ids@.len() == 0 ==> self.spec_invalidated() == old(self).spec_invalidated(),
            decreases widgets@.len(),
        {
            let ghost done = ids@.len() as int;
            let ghost wpre = widgets@;
            let (w, p) = widgets.remove(0);
            proof {
                assert(w == all[done].0 && p@ == all[done].1) by {
                    assert(wpre[0].0 == all[done + 0].0 && wpre[0].1@ == all[done + 0].1);
                }
                assert forall|k: int|
                    0 <= k < widgets@.len() implies (#[trigger] widgets@[k]).0 == all[done + 1
                    + k].0 && widgets@[k].1@ == all[done + 1 + k].1 by {
                    assert(widgets@[k] == wpre[k + 1]);
                    assert(wpre[k + 1].0 == all[done + (k + 1)].0 && wpre[k + 1].1@ == all[done + (k
                        + 1)].1);
                }
            }
            let id = self.add(w, p, String::new(), parent_id);
            ids.push(id);
            proof {
                assert(0 <= done && done + 1 <= all.len());
                assert(all.take(done + 1) =~= all.take(done).push(all[done]));
                assert(self@ =~= spec_add_all(old(self)@, all.take(done + 1), parent_id));
            }
        }
        proof {
            assert(all.take(ids@.len() as int) =~= all);
        }
        ids
    }

    /// Bounds-checked read access to a widget and its properties. An
    /// out-of-range id is a programming error: ids are engine-issued and the
    /// table is append-only, so a caller can always know its id is valid.
    pub fn get(&self, id: u32) -> (entry: &CacheEntry<W>)
        requires
            (id as int) < self@.len(),
        ensures
            entry@ == self@[id as int],
    {
        proof {
            use_type_invariant(self);
        }
        &self.entries[id as usize]
    }

    /// The parent of `id`; the root is its own parent.
    pub fn get_parent_of(&self, id: u32) -> (parent: u32)
        requires
            (id as int) < self@.len(),
        ensures
            parent == self@[id as int].parent_id,
    {
        proof {
            use_type_invariant(self);
        }
        self.entries[id as usize].parent_id
    }

    /// Stores `value` under `key` in widget `id`'s property store and marks
    /// the cache invalidated.
    pub fn set_property(&mut self, id: u32, key: u32, value: PropertyValue)
        requires
            (id as int) < old(self)@.len(),
        ensures
            final (self)@ == old(self)@.update(
                id as int,
                EntryModel {
                    widget: old(self)@[id as int].widget,
                    props: old(self)@[id as int].props.insert(key, value),
                    parent_id: old(self)@[id as int].parent_id,
                },
            ),
            final (self).spec_invalidated(),
    {
        proof {
            use_type_invariant(&*self);
        }
        let idx = id as usize;
        let mut entries: Vec<CacheEntry<W>> = Vec::new();
        std::mem::swap(&mut self.entries, &mut entries);
        let entry = &mut entries[idx];
        entry.properties.set(key, value);
        std::mem::swap(&mut self.entries, &mut entries);
        self.invalidated = true;
        proof {
            assert(final (self)@ =~= old(self)@.update(id as int, final (self)@[id as int]));
        }
    }

    /// Removes `key` from widget `id`'s property store and marks the cache
    /// invalidated.
    pub fn delete_property(&mut self, id: u32, key: u32)
        requires
            (id as int) < old(self)@.len(),
        ensures
            final (self)@ == old(self)@.update(
                id as int,
                EntryModel {
                    widget: old(self)@[id as int].widget,
                    props: old(self)@[id as int].props.remove(key),
                    parent_id: old(self)@[id as int].parent_id,
                },
            ),
            final (self).spec_invalidated(),
    {
        proof {
            use_type_invariant(&*self);
        }
        let idx = id as usize;
        let mut entries: Vec<CacheEntry<W>> = Vec::new();
        std::mem::swap(&mut self.entries, &mut entries);
        let entry = &mut entries[idx];
        entry.properties.delete(key);
        std::mem::swap(&mut self.entries, &mut entries);
        self.invalidated = true;
        proof {
            assert(final (self)@ =~= old(self)@.update(id as int, final (self)@[id as int]));
        }
    }

    /// Sets or clears the hidden flag on widget `id`, removing or restoring
    /// the widget and its whole subtree in hit-testing and drawing, and
    /// marks the cache invalidated. Only widget `id`'s own hidden key
    /// changes; siblings and ancestors are untouched.
    pub fn set_hidden(&mut self, id: u32, hidden: bool)
        requires
            (id as int) < old(self)@.len(),
        ensures
            final (self)@ == old(self)@.update(
                id as int,
                EntryModel {
                    widget: old(self)@[id as int].widget,
                    props: if hidden {
                        old(self)@[id as int].props.insert(PROPERTY_HIDDEN, PropertyValue::Flag)
                    } else {
                        old(self)@[id as int].props.remove(PROPERTY_HIDDEN)
                    },
                    parent_id: old(self)@[id as int].parent_id,
                },
            ),
            final (self).spec_invalidated(),
    {
        if hidden {
            self.set_property(id, PROPERTY_HIDDEN, PropertyValue::Flag);
        } else {
            self.delete_property(id, PROPERTY_HIDDEN);
        }
    }

    /// Sets the dirty latch: a redraw is owed before the next present.
    pub fn invalidate(&mut self)
        ensures
            final (self)@ == old(self)@,
            final (self).spec_invalidated(),
    {
        proof {
            use_type_invariant(&*self);
        }
        self.invalidated = true;
    }

    /// Reads the dirty latch without resetting it.
    pub fn invalidated(&self) -> (dirty: bool)
        ensures
            dirty == self.spec_invalidated(),
    {
        self.invalidated
    }

    /// Whether any widget currently carries the lazy-layout flag.
    pub fn needs_layout(&self) -> (needed: bool)
        ensures
            needed == spec_any_needs_layout(self@),
    {
        proof {
            use_type_invariant(self);
        }
        let n = self.entries.len();
        let mut i: usize = 0;
        while i < n
            invariant
                i <= n,
                n == self@.len(),
                forall|j: int| 0 <= j < i ==> !spec_needs_layout_at(self@, j),
            decreases n - i,
        {
            if self.entries[i].properties.get_bool(PROPERTY_NEEDS_LAYOUT) {
                proof {
                    assert(spec_needs_layout_at(self@, i as int));
                }
                return true;
            }
            i = i + 1;
        }
        false
    }

    /// The hit test: walks candidates in reverse-insertion z-order within
    /// the current match, descending into the children of each matched
    /// widget and skipping hidden widgets, so the most recently added
    /// matching widget wins overlapping regions. Yields the root id 0 when
    /// nothing more specific matches.
    pub fn id_at_point(&self, x: u32, y: u32) -> (id: u32)
        ensures
            id == spec_id_at_point(self@, x, y),
    {
        proof {
            use_type_invariant(self);
        }
        let n = self.entries.len();
        if n == 0 {
            return 0;
        }
        let mut p: u32 = 0;
        let mut i: u32 = (n - 1) as u32;
        while i > p
            invariant
                n == self@.len(),
                0 < n <= 0xFFFF_FFFF,
                (p as int) < n,
                (i as int) < n,
                spec_id_at_point(self@, x, y) == spec_scan(self@, p as int, i as int, x, y),
            decreases self@.len() - p, i,
        {
            let entry = &self.entries[i as usize];
            let origin = entry.properties.get_origin();
            let bounds = entry.properties.get_bounds();
            let inside = x >= origin.0 && x - origin.0 < bounds.0 && y >= origin.1 && y - origin.1
                < bounds.1;
            if entry.parent_id == p && !entry.properties.get_bool(PROPERTY_HIDDEN) && inside {
                p = i;
                i = (n - 1) as u32;
            } else {
                i = i - 1;
            }
        }
        p
    }

    /// The redraw pass: clears the dirty latch and yields the ids to draw,
    /// in id order, which is z-order — parents before children, earlier
    /// siblings before later ones — with every hidden subtree left out.
    pub fn refresh(&mut self) -> (drawn: Vec<u32>)
        ensures
            final (self)@ == old(self)@,
            !final (self).spec_invalidated(),
            forall|j: int, k: int| 0 <= j < k < drawn@.len() ==> drawn@[j] < drawn@[k],
            forall|j: int|
                0 <= j < drawn@.len() ==> spec_subtree_visible(final (self)@, drawn@[j] as int),
            forall|i: int|
                0 <= i < final (self)@.len() && spec_subtree_visible(final (self)@, i)
                    ==> drawn@.contains(i as u32),
    {
        proof {
            use_type_invariant(&*self);
        }
        self.invalidated = false;
        let n = self.entries.len();
        let mut visible: Vec<bool> = Vec::new();
        let mut drawn: Vec<u32> = Vec::new();
        let mut i: usize = 0;
        while i < n
            invariant
                i <= n,
                n == self@.len(),
                n <= 0xFFFF_FFFF,
                parents_ok(self@),
                visible@.len() == i,
                forall|j: int| 0 <= j < i ==> visible@[j] == spec_subtree_visible(self@, j),
                forall|j: int, k: int| 0 <= j < k < drawn@.len() ==> drawn@[j] < drawn@[k],
                forall|j: int| 0 <= j < drawn@.len() ==> (drawn@[j] as int) < i,
                forall|j: int|
                    0 <= j < drawn@.len() ==> spec_subtree_visible(self@, drawn@[j] as int),
                forall|j: int|
                    0 <= j < i && spec_subtree_visible(self@, j) ==> drawn@.contains(j as u32),
            decreases n - i,
        {
            let entry = &self.entries[i];
            proof {
                assert(self@[i as int] == self.entries@[i as int]@);
            }
            let hidden = entry.properties.get_bool(PROPERTY_HIDDEN);
            let vis = if hidden {
                false
            } else if i == 0 {
                true
            } else {
                proof {
                    assert(0 <= self@[i as int].parent_id < i);
                }
                visible[entry.parent_id as usize]
            };
            proof {
                assert(vis == spec_subtree_visible(self@, i as int));
            }
            let ghost pre_drawn = drawn@;
            if vis {
                drawn.push(i as u32);
            }
            visible.push(vis);
            proof {
                assert forall|j: int|
                    0 <= j < i + 1 && spec_subtree_visible(self@, j) implies drawn@.contains(
                    j as u32,
                ) by {
                    if j < i {
                        let k = choose|k: int|
                            0 <= k < pre_drawn.len() && pre_drawn[k] == j as u32;
                        assert(drawn@[k] == j as u32);
                    } else {
                        assert(drawn@[drawn@.len() - 1] == i as u32);
                    }
                }
            }
            i = i + 1;
        }
        drawn
    }

    /// Asks widget `id` for its lazily constructed children, handing the
    /// widget read access to its own properties.
    pub(crate) fn build_children(&self, id: u32) -> (children: Vec<(W, PropertyStore)>)
        requires
            (id as int) < self@.len(),
        ensures
            children@.map_values(|c: (W, PropertyStore)| (c.0, c.1@)) == self@[
                id as int
            ].widget.layout_children(id, self@[id as int].props),
    {
        proof {
            use_type_invariant(self);
        }
        let idx = id as usize;
        let entry = &self.entries[idx];
        let children = entry.widget.build_layout(id, &entry.properties);
        proof {
            assert(children@.map_values(|c: (W, PropertyStore)| (c.0, c.1@)) =~= self@[
                id as int
            ].widget.layout_children(id, self@[id as int].props));
        }
        children
    }

    /// Tells widget `id` the ids its lazily constructed children were given.
    pub(crate) fn notify_layout_ids(&mut self, id: u32, ids: &Vec<u32>)
        requires
            (id as int) < old(self)@.len(),
        ensures
            final (self)@ == old(self)@.update(
                id as int,
                EntryModel {
                    widget: old(self)@[id as int].widget.with_layout_ids(ids@),
                    props: old(self)@[id as int].props,
                    parent_id: old(self)@[id as int].parent_id,
                },
            ),
            final (self).spec_invalidated() == old(self).spec_invalidated(),
    {
        proof {
            use_type_invariant(&*self);
        }
        let idx = id as usize;
        let mut entries: Vec<CacheEntry<W>> = Vec::new();
        std::mem::swap(&mut self.entries, &mut entries);
        let entry = &mut entries[idx];
        entry.widget.constructed_layout_ids(ids);
        std::mem::swap(&mut self.entries, &mut entries);
        proof {
            assert(final (self)@ =~= old(self)@.update(id as int, final (self)@[id as int]));
        }
    }

    /// Routes one semantic event to the widget `id`, handing the widget
    /// mutable access to its own property store, and passes the derived
    /// event back. A widget that changed its appearance sets the dirty
    /// latch. An out-of-range id is ignored.
    pub fn deliver_to(&mut self, id: u32, event: &SemanticEvent) -> (emitted: Option<
        SemanticEvent>)
        ensures
            ({
                let o = spec_deliver::<W>(old(self)@, id as int, *event);
                &&& final (self)@ == o.0
                &&& emitted == o.1
                &&& final (self).spec_invalidated() == (old(self).spec_invalidated() || o.2)
            }),
    {
        proof {
            use_type_invariant(&*self);
        }
        let n = self.entries.len();
        if (id as usize) < n {
            let idx = id as usize;
            let mut entries: Vec<CacheEntry<W>> = Vec::new();
            std::mem::swap(&mut self.entries, &mut entries);
            let entry = &mut entries[idx];
            let (emitted, repaint) = entry.widget.handle_event(id, event, &mut entry.properties);
            std::mem::swap(&mut self.entries, &mut entries);
            if repaint {
                self.invalidated = true;
            }
            proof {
                assert(final (self)@ =~= spec_deliver::<W>(old(self)@, id as int, *event).0);
            }
            emitted
        } else {
            None
        }
    }
}

} // verus!
