use pushrod::cache::WidgetCache;
use pushrod::menu::MenuWidget;
use pushrod::properties::PropertyStore;
use pushrod::properties::PROPERTY_MENU_ITEM_COUNT;
use pushrod::properties::PROPERTY_NEEDS_LAYOUT;

fn menu_props(items: u32) -> PropertyStore {
    let mut props = PropertyStore::new();
    props.set_origin(10, 10);
    props.set_bounds(100, 20);
    props.set_unsigned(PROPERTY_MENU_ITEM_COUNT, items);
    props.set_bool(PROPERTY_NEEDS_LAYOUT);
    props
}

#[test]
fn a_flagged_menu_builds_its_children_exactly_once() {
    let mut cache = WidgetCache::new(MenuWidget::new(), 800, 600);
    let menu = cache.add(MenuWidget::new(), menu_props(3), String::from("menu"), 0);
    assert!(cache.needs_layout());
    assert_eq!(cache.size(), 2);

    cache.run_layout_pass();
    // Three items were appended under the menu, with the next free ids.
    assert_eq!(cache.size(), 5);
    assert_eq!(cache.get_parent_of(2), menu);
    assert_eq!(cache.get_parent_of(3), menu);
    assert_eq!(cache.get_parent_of(4), menu);
    // The flag was consumed and the menu learned its items' actual ids,
    // exactly once.
    assert!(!cache.needs_layout());
    assert!(!cache.get(menu).properties().get_bool(PROPERTY_NEEDS_LAYOUT));
    assert_eq!(cache.get(menu).widget().first_item_id, 2);
    assert_eq!(cache.get(menu).widget().item_count, 3);
    assert_eq!(cache.get(menu).widget().times_notified, 1);

    // Later passes find no flag: nothing is built or reported again.
    cache.run_layout_pass();
    cache.run_layout_pass();
    assert_eq!(cache.size(), 5);
    assert_eq!(cache.get(menu).widget().times_notified, 1);
}

#[test]
fn two_flagged_menus_expand_in_one_pass_in_id_order() {
    let mut cache = WidgetCache::new(MenuWidget::new(), 800, 600);
    let first = cache.add(MenuWidget::new(), menu_props(2), String::from("first"), 0);
    let second = cache.add(MenuWidget::new(), menu_props(1), String::from("second"), 0);
    cache.run_layout_pass();
    assert_eq!(cache.size(), 6);
    // The first menu's items were appended first.
    assert_eq!(cache.get(first).widget().first_item_id, 3);
    assert_eq!(cache.get(first).widget().item_count, 2);
    assert_eq!(cache.get(second).widget().first_item_id, 5);
    assert_eq!(cache.get(second).widget().item_count, 1);
    assert_eq!(cache.get_parent_of(3), first);
    assert_eq!(cache.get_parent_of(4), first);
    assert_eq!(cache.get_parent_of(5), second);
}

#[test]
fn a_menu_with_no_items_still_consumes_its_flag() {
    let mut cache = WidgetCache::new(MenuWidget::new(), 800, 600);
    let menu = cache.add(MenuWidget::new(), menu_props(0), String::from("menu"), 0);
    cache.run_layout_pass();
    assert_eq!(cache.size(), 2);
    assert!(!cache.needs_layout());
    assert_eq!(cache.get(menu).widget().item_count, 0);
    assert_eq!(cache.get(menu).widget().times_notified, 1);
}
