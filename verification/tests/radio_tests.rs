use pushrod::cache::WidgetCache;
use pushrod::engine::Engine;
use pushrod::engine::EventHandler;
use pushrod::events::SemanticEvent;
use pushrod::properties::PropertyStore;
use pushrod::properties::PROPERTY_GROUP_ID;
use pushrod::properties::PROPERTY_TOGGLED;
use pushrod::radio::RadioButtonWidget;
use std::cell::RefCell;
use std::rc::Rc;

fn radio_props(x: u32, y: u32, group: u32, toggled: bool) -> PropertyStore {
    let mut props = PropertyStore::new();
    props.set_origin(x, y);
    props.set_bounds(150, 30);
    props.set_unsigned(PROPERTY_GROUP_ID, group);
    if toggled {
        props.set_bool(PROPERTY_TOGGLED);
    }
    props
}

fn toggled_ids(cache: &WidgetCache<RadioButtonWidget>) -> Vec<u32> {
    let mut ids = Vec::new();
    let mut id = 0;
    while id < cache.size() {
        if cache.get(id).properties().get_bool(PROPERTY_TOGGLED) {
            ids.push(id);
        }
        id += 1;
    }
    ids
}

#[test]
fn selecting_a_member_clears_the_rest_of_its_group() {
    let mut cache = WidgetCache::new(RadioButtonWidget {}, 430, 210);
    let b1 = cache.add(RadioButtonWidget {}, radio_props(20, 30, 1, true), String::from("b1"), 0);
    let b2 = cache.add(RadioButtonWidget {}, radio_props(20, 64, 1, false), String::from("b2"), 0);
    let b3 = cache.add(RadioButtonWidget {}, radio_props(20, 98, 1, false), String::from("b3"), 0);
    assert_eq!(toggled_ids(&cache), vec![b1]);

    // A button release lands on b2: b2 takes the selection, b1 clears, and
    // a redraw is owed.
    cache.refresh();
    let release = SemanticEvent::MouseButton { widget_id: b2, button: 1, state: false };
    let derived = cache.broadcast(&release);
    assert_eq!(toggled_ids(&cache), vec![b2]);
    assert!(cache.invalidated());
    assert_eq!(
        derived,
        vec![
            SemanticEvent::WidgetRadioSelected { widget_id: b2, group_id: 1 },
            SemanticEvent::WidgetRadioUnselected { widget_id: b1 },
        ],
    );

    // And then on b3.
    let release = SemanticEvent::MouseButton { widget_id: b3, button: 1, state: false };
    cache.broadcast(&release);
    assert_eq!(toggled_ids(&cache), vec![b3]);
}

#[test]
fn selecting_the_selected_member_is_a_no_op() {
    let mut cache = WidgetCache::new(RadioButtonWidget {}, 430, 210);
    let b1 = cache.add(RadioButtonWidget {}, radio_props(20, 30, 1, true), String::from("b1"), 0);
    let _b2 = cache.add(RadioButtonWidget {}, radio_props(20, 64, 1, false), String::from("b2"), 0);
    cache.refresh();
    let release = SemanticEvent::MouseButton { widget_id: b1, button: 1, state: false };
    let derived = cache.broadcast(&release);
    // No state change, no rebroadcast storm, no redraw owed: the no-op
    // selection derives nothing at all.
    assert_eq!(derived, Vec::new());
    assert_eq!(toggled_ids(&cache), vec![b1]);
    assert!(!cache.invalidated());
}

#[test]
fn two_groups_select_independently() {
    let mut cache = WidgetCache::new(RadioButtonWidget {}, 430, 210);
    let a1 = cache.add(RadioButtonWidget {}, radio_props(20, 30, 1, true), String::from("a1"), 0);
    let a2 = cache.add(RadioButtonWidget {}, radio_props(20, 64, 1, false), String::from("a2"), 0);
    let b1 = cache.add(RadioButtonWidget {}, radio_props(240, 30, 2, false), String::from("b1"), 0);
    let b2 = cache.add(RadioButtonWidget {}, radio_props(240, 64, 2, true), String::from("b2"), 0);

    let release = SemanticEvent::MouseButton { widget_id: a2, button: 1, state: false };
    cache.broadcast(&release);
    // Group 1 moved to a2; group 2 is untouched.
    assert_eq!(toggled_ids(&cache), vec![a2, b2]);

    let release = SemanticEvent::MouseButton { widget_id: b1, button: 1, state: false };
    cache.broadcast(&release);
    assert_eq!(toggled_ids(&cache), vec![a2, b1]);
    let _ = a1;
}

/// Records forwarded events; the tree is built by the test through the
/// engine's init hook.
struct RadioScreen {
    log: Rc<RefCell<Vec<SemanticEvent>>>,
}

impl EventHandler<RadioButtonWidget> for RadioScreen {
    fn handle_event(
        &mut self,
        event: &SemanticEvent,
        _cache: &mut WidgetCache<RadioButtonWidget>,
    ) {
        self.log.borrow_mut().push(*event);
    }

    fn build_layout(&mut self, cache: &mut WidgetCache<RadioButtonWidget>) {
        cache.add(RadioButtonWidget {}, radio_props(20, 30, 1, true), String::from("b1"), 0);
        cache.add(RadioButtonWidget {}, radio_props(20, 64, 1, false), String::from("b2"), 0);
        cache.add(RadioButtonWidget {}, radio_props(20, 98, 1, false), String::from("b3"), 0);
    }
}

#[test]
fn a_click_through_the_engine_moves_the_selection() {
    let log = Rc::new(RefCell::new(Vec::new()));
    let handler = RadioScreen { log: Rc::clone(&log) };
    // The root is a radio button too, in the default group 0, never
    // targeted by these clicks.
    let mut engine = Engine::new(handler, RadioButtonWidget {}, 430, 210);
    engine.init_layout();

    // Click on b2 (id 2): press, then release over the widget.
    engine.handle_mouse_move(30, 70);
    engine.handle_mouse_button(1, true);
    engine.handle_mouse_button(1, false);
    let toggled: Vec<u32> = {
        let cache = engine.get_cache();
        let mut ids = Vec::new();
        let mut id = 0;
        while id < cache.size() {
            if cache.get(id).properties().get_bool(PROPERTY_TOGGLED) {
                ids.push(id);
            }
            id += 1;
        }
        ids
    };
    assert_eq!(toggled, vec![2]);
    // The handler saw the selection and the clearing of the old member.
    let log = log.borrow();
    assert!(log.contains(&SemanticEvent::WidgetRadioSelected { widget_id: 2, group_id: 1 }));
    assert!(log.contains(&SemanticEvent::WidgetRadioUnselected { widget_id: 1 }));
}
