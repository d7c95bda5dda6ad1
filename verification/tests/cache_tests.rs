use pushrod::cache::WidgetCache;
use pushrod::properties::PropertyStore;
use pushrod::properties::PropertyValue;
use pushrod::properties::PROPERTY_BORDER_COLOR;
use pushrod::properties::PROPERTY_BORDER_WIDTH;
use pushrod::properties::PROPERTY_HIDDEN;
use pushrod::properties::PROPERTY_NEEDS_LAYOUT;
use pushrod::properties::PROPERTY_TEXT;
use pushrod::widget::BaseWidget;

fn props_at(x: u32, y: u32, w: u32, h: u32) -> PropertyStore {
    let mut props = PropertyStore::new();
    props.set_origin(x, y);
    props.set_bounds(w, h);
    props
}

#[test]
fn ids_are_strictly_increasing_and_never_reused() {
    let mut cache = WidgetCache::new(BaseWidget {}, 800, 600);
    let a = cache.add(BaseWidget {}, props_at(0, 0, 10, 10), String::from("a"), 0);
    let b = cache.add(BaseWidget {}, props_at(0, 0, 10, 10), String::from("b"), 0);
    let c = cache.add(BaseWidget {}, props_at(0, 0, 10, 10), String::from("c"), a);
    assert_eq!(a, 1);
    assert_eq!(b, 2);
    assert_eq!(c, 3);
    let more = cache.add_vec(
        vec![
            (BaseWidget {}, props_at(0, 0, 5, 5)),
            (BaseWidget {}, props_at(5, 0, 5, 5)),
        ],
        b,
    );
    assert_eq!(more, vec![4, 5]);
    let after = cache.add(BaseWidget {}, props_at(0, 0, 1, 1), String::from("z"), 0);
    assert_eq!(after, 6);
    assert_eq!(cache.size(), 7);
}

#[test]
fn overlapping_siblings_hit_second_added() {
    let mut cache = WidgetCache::new(BaseWidget {}, 800, 600);
    let first = cache.add(BaseWidget {}, props_at(10, 10, 100, 100), String::from("first"), 0);
    let second = cache.add(BaseWidget {}, props_at(50, 50, 100, 100), String::from("second"), 0);
    // (60, 60) lies inside both; the most recently added wins.
    assert_eq!(cache.id_at_point(60, 60), second);
    // (20, 20) lies only inside the first.
    assert_eq!(cache.id_at_point(20, 20), first);
}

#[test]
fn hit_test_returns_descendant_not_ancestor() {
    let mut cache = WidgetCache::new(BaseWidget {}, 800, 600);
    let a = cache.add(BaseWidget {}, props_at(10, 10, 50, 50), String::from("a"), 0);
    let inner = cache.add(BaseWidget {}, props_at(20, 20, 10, 10), String::from("inner"), a);
    assert_eq!(cache.id_at_point(25, 25), inner);
    assert_eq!(cache.id_at_point(12, 12), a);
    // A point inside no added widget falls through to the root.
    assert_eq!(cache.id_at_point(700, 500), 0);
}

#[test]
fn hit_test_is_half_open_on_the_far_edge() {
    let mut cache = WidgetCache::new(BaseWidget {}, 800, 600);
    let a = cache.add(BaseWidget {}, props_at(10, 10, 50, 50), String::from("a"), 0);
    assert_eq!(cache.id_at_point(10, 10), a);
    assert_eq!(cache.id_at_point(59, 59), a);
    assert_eq!(cache.id_at_point(60, 60), 0);
}

#[test]
fn hiding_removes_subtree_and_unhiding_restores_it() {
    let mut cache = WidgetCache::new(BaseWidget {}, 800, 600);
    let a = cache.add(BaseWidget {}, props_at(10, 10, 50, 50), String::from("a"), 0);
    let child = cache.add(BaseWidget {}, props_at(20, 20, 10, 10), String::from("child"), a);
    let sibling = cache.add(BaseWidget {}, props_at(100, 10, 50, 50), String::from("sib"), 0);

    cache.set_hidden(a, true);
    // Neither the hidden widget nor its child can be hit any more.
    assert_eq!(cache.id_at_point(25, 25), 0);
    assert_eq!(cache.id_at_point(12, 12), 0);
    // The sibling is unaffected.
    assert_eq!(cache.id_at_point(110, 20), sibling);
    // The drawn set skips the hidden subtree.
    let drawn = cache.refresh();
    assert_eq!(drawn, vec![0, sibling]);

    cache.set_hidden(a, false);
    assert_eq!(cache.id_at_point(25, 25), child);
    assert_eq!(cache.id_at_point(12, 12), a);
    let drawn = cache.refresh();
    assert_eq!(drawn, vec![0, a, child, sibling]);
}

#[test]
fn hiding_only_the_child_keeps_the_parent_hittable() {
    let mut cache = WidgetCache::new(BaseWidget {}, 800, 600);
    let a = cache.add(BaseWidget {}, props_at(10, 10, 50, 50), String::from("a"), 0);
    let child = cache.add(BaseWidget {}, props_at(20, 20, 10, 10), String::from("child"), a);
    cache.set_hidden(child, true);
    assert_eq!(cache.id_at_point(25, 25), a);
    cache.set_hidden(child, false);
    assert_eq!(cache.id_at_point(25, 25), child);
}

#[test]
fn property_store_defaults_and_overwrites() {
    let mut props = PropertyStore::new();
    assert_eq!(props.get_origin(), (0, 0));
    assert_eq!(props.get_bounds(), (0, 0));
    assert!(!props.get_bool(PROPERTY_HIDDEN));
    assert_eq!(props.get_unsigned(PROPERTY_BORDER_WIDTH), 0);
    assert!(props.get(PROPERTY_TEXT).is_none());

    props.set_origin(3, 4);
    assert_eq!(props.get_origin(), (3, 4));
    props.set_origin(5, 6);
    assert_eq!(props.get_origin(), (5, 6));

    props.set_unsigned(PROPERTY_BORDER_WIDTH, 2);
    assert_eq!(props.get_unsigned(PROPERTY_BORDER_WIDTH), 2);

    props.set_bool(PROPERTY_HIDDEN);
    assert!(props.get_bool(PROPERTY_HIDDEN));
    props.delete(PROPERTY_HIDDEN);
    assert!(!props.get_bool(PROPERTY_HIDDEN));

    props.set(PROPERTY_TEXT, PropertyValue::Text(String::from("hello")));
    match props.get(PROPERTY_TEXT) {
        Some(PropertyValue::Text(text)) => assert_eq!(text, "hello"),
        other => panic!("unexpected property value: {:?}", other.is_some()),
    }
}

#[test]
fn a_value_of_the_wrong_shape_reads_as_the_default() {
    let mut props = PropertyStore::new();
    props.set(PROPERTY_BORDER_WIDTH, PropertyValue::Text(String::from("wide")));
    assert_eq!(props.get_unsigned(PROPERTY_BORDER_WIDTH), 0);
    assert_eq!(props.get_pair(PROPERTY_BORDER_WIDTH), (0, 0));
    assert_eq!(props.get_color(PROPERTY_BORDER_WIDTH), (255, 255, 255, 255));
}

#[test]
fn colors_are_stored_and_returned_whole() {
    let mut props = PropertyStore::new();
    assert_eq!(props.get_color(PROPERTY_BORDER_COLOR), (255, 255, 255, 255));
    props.set_color(PROPERTY_BORDER_COLOR, 10, 20, 30, 40);
    assert_eq!(props.get_color(PROPERTY_BORDER_COLOR), (10, 20, 30, 40));
}

#[test]
fn invalidation_latch_is_set_by_mutation_and_cleared_by_refresh() {
    let mut cache = WidgetCache::new(BaseWidget {}, 800, 600);
    assert!(!cache.invalidated());
    let a = cache.add(BaseWidget {}, props_at(0, 0, 10, 10), String::from("a"), 0);
    assert!(cache.invalidated());
    // Reading the latch does not reset it.
    assert!(cache.invalidated());
    cache.refresh();
    assert!(!cache.invalidated());
    cache.set_hidden(a, true);
    assert!(cache.invalidated());
    cache.refresh();
    assert!(!cache.invalidated());
    cache.invalidate();
    assert!(cache.invalidated());
}

#[test]
fn needs_layout_reports_any_flagged_widget() {
    let mut cache = WidgetCache::new(BaseWidget {}, 800, 600);
    assert!(!cache.needs_layout());
    let a = cache.add(BaseWidget {}, props_at(0, 0, 10, 10), String::from("a"), 0);
    assert!(!cache.needs_layout());
    cache.set_property(a, PROPERTY_NEEDS_LAYOUT, PropertyValue::Flag);
    assert!(cache.needs_layout());
    cache.delete_property(a, PROPERTY_NEEDS_LAYOUT);
    assert!(!cache.needs_layout());
}

#[test]
fn parents_are_recorded() {
    let mut cache = WidgetCache::new(BaseWidget {}, 800, 600);
    let a = cache.add(BaseWidget {}, props_at(0, 0, 10, 10), String::from("a"), 0);
    let b = cache.add(BaseWidget {}, props_at(0, 0, 10, 10), String::from("b"), a);
    assert_eq!(cache.get_parent_of(0), 0);
    assert_eq!(cache.get_parent_of(a), 0);
    assert_eq!(cache.get_parent_of(b), a);
    assert_eq!(cache.get(b).parent_id(), a);
    assert_eq!(cache.get(a).debug_name(), "a");
}
