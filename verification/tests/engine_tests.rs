use pushrod::cache::WidgetCache;
use pushrod::engine::frame_sleep_ms;
use pushrod::engine::Engine;
use pushrod::engine::EventHandler;
use pushrod::events::RawEvent;
use pushrod::events::SemanticEvent;
use pushrod::properties::PropertyStore;
use pushrod::widget::BaseWidget;
use std::cell::RefCell;
use std::rc::Rc;

/// Records every event the engine forwards, and builds one widget `a`
/// spanning origin (10, 10), bounds (50, 50).
struct Recorder {
    log: Rc<RefCell<Vec<SemanticEvent>>>,
}

impl EventHandler<BaseWidget> for Recorder {
    fn handle_event(&mut self, event: &SemanticEvent, _cache: &mut WidgetCache<BaseWidget>) {
        self.log.borrow_mut().push(*event);
    }

    fn build_layout(&mut self, cache: &mut WidgetCache<BaseWidget>) {
        let mut props = PropertyStore::new();
        props.set_origin(10, 10);
        props.set_bounds(50, 50);
        cache.add(BaseWidget {}, props, String::from("a"), 0);
    }
}

fn recording_engine() -> (Engine<BaseWidget, Recorder>, Rc<RefCell<Vec<SemanticEvent>>>) {
    let log = Rc::new(RefCell::new(Vec::new()));
    let handler = Recorder { log: Rc::clone(&log) };
    let mut engine = Engine::new(handler, BaseWidget {}, 800, 600);
    engine.init_layout();
    (engine, log)
}

#[test]
fn pointer_leaving_a_widget_emits_exit_enter_then_translated_move() {
    let (mut engine, log) = recording_engine();
    // Pointer at (15, 15), over widget a (id 1).
    engine.handle_mouse_move(15, 15);
    assert_eq!(
        log.borrow().as_slice(),
        &[
            SemanticEvent::WidgetMouseExited { widget_id: 0 },
            SemanticEvent::WidgetMouseEntered { widget_id: 1 },
            SemanticEvent::MouseMoved { widget_id: 1, x: 5, y: 5 },
        ],
    );
    log.borrow_mut().clear();
    // Moving to (5, 5), outside a and over the root, exits a, enters the
    // root, and reports the move in the root's space.
    engine.handle_mouse_move(5, 5);
    assert_eq!(
        log.borrow().as_slice(),
        &[
            SemanticEvent::WidgetMouseExited { widget_id: 1 },
            SemanticEvent::WidgetMouseEntered { widget_id: 0 },
            SemanticEvent::MouseMoved { widget_id: 0, x: 5, y: 5 },
        ],
    );
}

#[test]
fn moves_within_one_widget_emit_no_enter_or_exit() {
    let (mut engine, log) = recording_engine();
    engine.handle_mouse_move(15, 15);
    log.borrow_mut().clear();
    engine.handle_mouse_move(16, 17);
    engine.handle_mouse_move(30, 40);
    assert_eq!(
        log.borrow().as_slice(),
        &[
            SemanticEvent::MouseMoved { widget_id: 1, x: 6, y: 7 },
            SemanticEvent::MouseMoved { widget_id: 1, x: 20, y: 30 },
        ],
    );
}

#[test]
fn button_press_and_release_carry_the_current_widget() {
    let (mut engine, log) = recording_engine();
    engine.handle_mouse_move(15, 15);
    log.borrow_mut().clear();
    engine.handle_mouse_button(1, true);
    engine.handle_mouse_button(1, false);
    assert_eq!(
        log.borrow().as_slice(),
        &[
            SemanticEvent::MouseButton { widget_id: 1, button: 1, state: true },
            SemanticEvent::MouseButton { widget_id: 1, button: 1, state: false },
        ],
    );
}

#[test]
fn frame_tick_reaches_the_handler_with_its_timestamp() {
    let (mut engine, log) = recording_engine();
    engine.handle_draw_frame(12345);
    assert_eq!(
        log.borrow().as_slice(),
        &[SemanticEvent::DrawFrame { timestamp: 12345 }],
    );
}

#[test]
fn raw_events_map_to_the_dispatch_paths() {
    let (mut engine, log) = recording_engine();
    assert!(engine.is_running());
    assert!(engine.dispatch_raw(RawEvent::MouseMove { x: 15, y: 15 }));
    assert!(engine.dispatch_raw(RawEvent::ButtonDown { button: 1 }));
    assert!(engine.dispatch_raw(RawEvent::ButtonUp { button: 1 }));
    // An unmapped sample is dropped, not fatal.
    assert!(!engine.dispatch_raw(RawEvent::Other));
    let events = log.borrow().len();
    assert!(engine.dispatch_raw(RawEvent::Quit));
    assert!(!engine.is_running());
    // Quit and the dropped sample forwarded nothing.
    assert_eq!(log.borrow().len(), events);
}

#[test]
fn stop_ends_the_loop_flag() {
    let (mut engine, _log) = recording_engine();
    assert!(engine.is_running());
    engine.stop();
    assert!(!engine.is_running());
}

#[test]
fn engine_refresh_reports_the_visible_tree_and_clears_the_latch() {
    let (mut engine, _log) = recording_engine();
    assert!(engine.get_cache().invalidated());
    let drawn = engine.refresh();
    assert_eq!(drawn, vec![0, 1]);
    assert!(!engine.get_cache().invalidated());
}

#[test]
fn frame_sleep_never_goes_negative() {
    // Work finished early: sleep the rest of the budget.
    assert_eq!(frame_sleep_ms(16, 100, 110), 6);
    // Work used the budget exactly.
    assert_eq!(frame_sleep_ms(16, 100, 116), 0);
    // Frame overran: start the next frame immediately, no negative sleep.
    assert_eq!(frame_sleep_ms(16, 100, 200), 0);
    // A clock that jumped backwards counts as no elapsed time.
    assert_eq!(frame_sleep_ms(16, 200, 100), 16);
}

/// Hides widget 1 the moment the pointer enters it — a handler mutating the
/// cache in the middle of dispatch, which the engine must tolerate.
struct HideOnEnter {
    log: Rc<RefCell<Vec<SemanticEvent>>>,
}

impl EventHandler<BaseWidget> for HideOnEnter {
    fn handle_event(&mut self, event: &SemanticEvent, cache: &mut WidgetCache<BaseWidget>) {
        self.log.borrow_mut().push(*event);
        if let SemanticEvent::WidgetMouseEntered { widget_id: 1 } = event {
            cache.set_hidden(1, true);
        }
    }

    fn build_layout(&mut self, cache: &mut WidgetCache<BaseWidget>) {
        let mut props = PropertyStore::new();
        props.set_origin(10, 10);
        props.set_bounds(50, 50);
        cache.add(BaseWidget {}, props, String::from("a"), 0);
    }
}

#[test]
fn a_handler_may_mutate_the_cache_during_dispatch() {
    let log = Rc::new(RefCell::new(Vec::new()));
    let handler = HideOnEnter { log: Rc::clone(&log) };
    let mut engine = Engine::new(handler, BaseWidget {}, 800, 600);
    engine.init_layout();

    // The pointer enters widget 1; the handler hides it on the spot.
    engine.handle_mouse_move(15, 15);
    assert!(engine.get_cache().get(1).properties().get_bool(
        pushrod::properties::PROPERTY_HIDDEN,
    ));
    log.borrow_mut().clear();

    // The next sample no longer hits the hidden widget: the engine reports
    // the crossing back to the root.
    engine.handle_mouse_move(16, 16);
    assert_eq!(
        log.borrow().as_slice(),
        &[
            SemanticEvent::WidgetMouseExited { widget_id: 1 },
            SemanticEvent::WidgetMouseEntered { widget_id: 0 },
            SemanticEvent::MouseMoved { widget_id: 0, x: 16, y: 16 },
        ],
    );
}
