//! The dispatch engine: the run-loop state (current hovered widget, the
//! cache, the running flag), the translation of raw input samples into
//! semantic events, and the forwarding of every event — synthesized and
//! widget-derived — to the application's handler.
//!
//! Within one dispatch step the engine first routes the events to the
//! widgets, collecting their derived events, and then forwards the whole
//! ordered stream to the application handler. The handler therefore sees
//! the same events in the same order as it would with interleaved calls,
//! and the table is never handed out for mutation in the middle of a
//! widget pass.

use crate::cache::spec_deliver;
use crate::cache::spec_id_at_point;
use crate::cache::EntryModel;
use crate::cache::WidgetCache;
use crate::dispatch::opt_seq;
use crate::dispatch::spec_broadcast;
use crate::dispatch::spec_pass;
use crate::events::RawEvent;
use crate::events::SemanticEvent;
use crate::properties::spec_pair_of;
use crate::properties::PropertyValue;
use crate::properties::PROPERTY_BOUNDS;
use crate::properties::PROPERTY_ORIGIN;
use crate::widget::Widget;
use vstd::prelude::*;

verus! {

/// The handler an application hands to the engine's run loop. It receives
/// every semantic event together with mutable access to the cache, and it
/// populates the initial tree once, before the frame loop starts.
pub trait EventHandler<W: Widget>: Sized {
    /// Called for every semantic and derived event. Doing nothing is a
    /// valid implementation.
    fn handle_event(&mut self, event: &SemanticEvent, cache: &mut WidgetCache<W>) {
    }

    /// Called exactly once, before the frame loop starts, to populate the
    /// initial widget tree.
    fn build_layout(&mut self, cache: &mut WidgetCache<W>);
}

/// The origin of widget `i`, or `(0, 0)` outside the table.
pub open spec fn spec_origin_of<W>(v: Seq<EntryModel<W>>, i: int) -> (u32, u32) {
    if 0 <= i < v.len() {
        spec_pair_of(v[i].props, PROPERTY_ORIGIN)
    } else {
        (0, 0)
    }
}

/// Subtraction on window coordinates, stopping at zero.
pub open spec fn spec_sat_sub(a: u32, b: u32) -> u32 {
    if a >= b {
        (a - b) as u32
    } else {
        0
    }
}

/// Every event a pointer-move sample makes the engine forward, in order.
/// When the hit widget changes, the old widget is exited and the new one
/// entered — each notice going to the application and to that widget, whose
/// derived answer follows it in the stream. The move event itself always
/// follows, with the coordinates translated into the target widget's local
/// space using the origin it had at the sample.
pub open spec fn spec_mouse_move_events<W: Widget>(
    v: Seq<EntryModel<W>>,
    old_id: u32,
    x: u32,
    y: u32,
) -> Seq<SemanticEvent> {
    let new_id = spec_id_at_point(v, x, y);
    let origin = spec_origin_of(v, new_id as int);
    let moved = SemanticEvent::MouseMoved {
        widget_id: new_id,
        x: spec_sat_sub(x, origin.0),
        y: spec_sat_sub(y, origin.1),
    };
    if old_id != new_id {
        let exited = SemanticEvent::WidgetMouseExited { widget_id: old_id };
        let entered = SemanticEvent::WidgetMouseEntered { widget_id: new_id };
        let s1 = spec_deliver(v, old_id as int, exited);
        let s2 = spec_deliver(s1.0, new_id as int, entered);
        let s3 = spec_deliver(s2.0, new_id as int, moved);
        seq![exited] + opt_seq(s1.1) + seq![entered] + opt_seq(s2.1) + seq![moved] + opt_seq(s3.1)
    } else {
        let s3 = spec_deliver(v, new_id as int, moved);
        seq![moved] + opt_seq(s3.1)
    }
}

/// Every event a button sample makes the engine forward: the button event
/// itself, then — on a press — the derived answer of the current widget
/// alone, or — on a release — the derived answers of the broadcast to every
/// widget, radio selections rebroadcast once.
pub open spec fn spec_button_events<W: Widget>(
    v: Seq<EntryModel<W>>,
    current_id: u32,
    button: u32,
    state: bool,
) -> Seq<SemanticEvent> {
    let event = SemanticEvent::MouseButton { widget_id: current_id, button, state };
    if state {
        seq![event] + opt_seq(spec_deliver(v, current_id as int, event).1)
    } else {
        seq![event] + spec_broadcast(v, event).1
    }
}

/// Every event a frame tick makes the engine forward: the tick itself, then
/// the derived answers of every widget in id order.
pub open spec fn spec_frame_events<W: Widget>(v: Seq<EntryModel<W>>, timestamp: u128) -> Seq<
    SemanticEvent,
> {
    let event = SemanticEvent::DrawFrame { timestamp };
    seq![event] + spec_pass(v, event, v.len()).1
}

/// When the pointer crosses from one widget to another and the widgets
/// involved derive no events of their own, the engine forwards exactly one
/// exit notice for the old widget, then exactly one enter notice for the
/// new widget, then the move event, whose coordinates are the raw pointer
/// coordinates minus the new widget's origin.
pub proof fn lemma_mouse_move_boundary<W: Widget>(
    v: Seq<EntryModel<W>>,
    old_id: u32,
    x: u32,
    y: u32,
)
    requires
        old_id != spec_id_at_point(v, x, y),
        ({
            let new_id = spec_id_at_point(v, x, y);
            let origin = spec_origin_of(v, new_id as int);
            let moved = SemanticEvent::MouseMoved {
                widget_id: new_id,
                x: spec_sat_sub(x, origin.0),
                y: spec_sat_sub(y, origin.1),
            };
            let exited = SemanticEvent::WidgetMouseExited { widget_id: old_id };
            let entered = SemanticEvent::WidgetMouseEntered { widget_id: new_id };
            let s1 = spec_deliver(v, old_id as int, exited);
            let s2 = spec_deliver(s1.0, new_id as int, entered);
            let s3 = spec_deliver(s2.0, new_id as int, moved);
            s1.1 is None && s2.1 is None && s3.1 is None
        }),
        spec_origin_of(v, spec_id_at_point(v, x, y) as int).0 <= x,
        spec_origin_of(v, spec_id_at_point(v, x, y) as int).1 <= y,
    ensures
        ({
            let new_id = spec_id_at_point(v, x, y);
            let origin = spec_origin_of(v, new_id as int);
            spec_mouse_move_events(v, old_id, x, y) =~= seq![
                SemanticEvent::WidgetMouseExited { widget_id: old_id },
                SemanticEvent::WidgetMouseEntered { widget_id: new_id },
                SemanticEvent::MouseMoved {
                    widget_id: new_id,
                    x: (x - origin.0) as u32,
                    y: (y - origin.1) as u32,
                },
            ]
        }),
{
}

/// How long the frame loop should sleep to hold the frame rate: the frame
/// budget minus the time the frame's work took, and never a negative
/// duration. A clock that jumped backwards counts as no elapsed time.
pub open spec fn spec_frame_sleep(budget_ms: u64, start_ms: u128, now_ms: u128) -> u64 {
    let elapsed = if now_ms >= start_ms {
        now_ms - start_ms
    } else {
        0
    };
    if elapsed < budget_ms {
        (budget_ms - elapsed) as u64
    } else {
        0
    }
}

/// Computes the remaining sleep budget of a frame; the result never exceeds
/// the frame budget and is zero once the work has used the budget up.
pub fn frame_sleep_ms(budget_ms: u64, start_ms: u128, now_ms: u128) -> (ms: u64)
    ensures
        ms == spec_frame_sleep(budget_ms, start_ms, now_ms),
        ms <= budget_ms,
{
    let elapsed: u128 = if now_ms >= start_ms {
        now_ms - start_ms
    } else {
        0
    };
    if elapsed < budget_ms as u128 {
        budget_ms - (elapsed as u64)
    } else {
        0
    }
}

/// The run-loop state: the widget under the pointer, the application's
/// handler, the cache, and the running flag an explicit stop clears. The
/// ghost trace records every event forwarded to the handler, in order, so
/// the dispatch contracts can pin the forwarded stream down exactly.
pub struct Engine<W, H> {
    current_widget_id: u32,
    handler: H,
    cache: WidgetCache<W>,
    running: bool,
    trace: Ghost<Seq<SemanticEvent>>,
}

impl<W: Widget, H: EventHandler<W>> Engine<W, H> {
    /// The id of the widget most recently under the pointer.
    pub closed spec fn spec_current_widget_id(&self) -> u32 {
        self.current_widget_id
    }

    /// Whether the run loop should keep going.
    pub closed spec fn spec_running(&self) -> bool {
        self.running
    }

    /// Every event forwarded to the application handler so far, in order.
    pub closed spec fn spec_trace(&self) -> Seq<SemanticEvent> {
        self.trace@
    }

    /// The model of the engine's widget table.
    pub closed spec fn spec_cache(&self) -> Seq<EntryModel<W>> {
        self.cache@
    }

    /// Whether the cache currently owes a redraw.
    pub closed spec fn spec_invalidated(&self) -> bool {
        self.cache.spec_invalidated()
    }

    /// Creates the engine for a window of the given size: the pointer rests
    /// on the root widget, the loop is running, and the cache holds the
    /// root alone.
    pub fn new(handler: H, root: W, width: u32, height: u32) -> (engine: Self)
        ensures
            engine.spec_current_widget_id() == 0,
            engine.spec_running(),
            engine.spec_trace() == Seq::<SemanticEvent>::empty(),
            engine.spec_cache().len() == 1,
            engine.spec_cache()[0].widget == root,
            engine.spec_cache()[0].props == Map::<u32, PropertyValue>::empty().insert(
                PROPERTY_ORIGIN,
                PropertyValue::Pair(0, 0),
            ).insert(PROPERTY_BOUNDS, PropertyValue::Pair(width, height)),
            engine.spec_cache()[0].parent_id == 0,
            !engine.spec_invalidated(),
    {
        Engine {
            current_widget_id: 0,
            handler,
            cache: WidgetCache::new(root, width, height),
            running: true,
            trace: Ghost(Seq::empty()),
        }
    }

    /// Stops the run loop; the current frame still completes.
    pub fn stop(&mut self)
        ensures
            !final (self).spec_running(),
            final (self).spec_current_widget_id() == old(self).spec_current_widget_id(),
            final (self).spec_trace() == old(self).spec_trace(),
            final (self).spec_cache() == old(self).spec_cache(),
            final (self).spec_invalidated() == old(self).spec_invalidated(),
    {
        self.running = false;
    }

    /// Whether the run loop should keep going; the frame loop checks this
    /// once per iteration.
    pub fn is_running(&self) -> (running: bool)
        ensures
            running == self.spec_running(),
    {
        self.running
    }

    /// Read access to the widget cache, for drawing and inspection.
    pub fn get_cache(&self) -> (cache: &WidgetCache<W>)
        ensures
            cache@ == self.spec_cache(),
            cache.spec_invalidated() == self.spec_invalidated(),
    {
        &self.cache
    }

    /// Lets the handler populate the initial tree. Called once, before the
    /// frame loop starts.
    pub fn init_layout(&mut self)
        ensures
            final (self).spec_current_widget_id() == old(self).spec_current_widget_id(),
            final (self).spec_running() == old(self).spec_running(),
            final (self).spec_trace() == old(self).spec_trace(),
    {
        self.handler.build_layout(&mut self.cache);
    }

    /// Forwards one event to the application handler and records it in the
    /// trace.
    fn forward(&mut self, event: SemanticEvent)
        ensures
            final (self).spec_trace() == old(self).spec_trace().push(event),
            final (self).spec_current_widget_id() == old(self).spec_current_widget_id(),
            final (self).spec_running() == old(self).spec_running(),
    {
        self.trace = Ghost(self.trace@.push(event));
        self.handler.handle_event(&event, &mut self.cache);
    }

    /// Forwards a whole stream of events to the application handler, in
    /// order.
    fn forward_all(&mut self, events: &Vec<SemanticEvent>)
        ensures
            final (self).spec_trace() == old(self).spec_trace() + events@,
            final (self).spec_current_widget_id() == old(self).spec_current_widget_id(),
            final (self).spec_running() == old(self).spec_running(),
    {
        let n = events.len();
        let mut i: usize = 0;
        while i < n
            invariant
                i <= n,
                n == events@.len(),
                self.spec_trace() == old(self).spec_trace() + events@.take(i as int),
                self.spec_current_widget_id() == old(self).spec_current_widget_id(),
                self.spec_running() == old(self).spec_running(),
            decreases n - i,
        {
            let ghost pre = self.spec_trace();
            self.forward(events[i]);
            proof {
                assert(old(self).spec_trace() + events@.take(i as int + 1) =~= pre.push(
                    events@[i as int],
                ));
            }
            i = i + 1;
        }
        proof {
            assert(events@.take(n as int) =~= events@);
        }
    }

    /// Handles a pointer-move sample: hit-tests the new position, emits the
    /// exit and enter notices when the hit widget changed, and always emits
    /// the move event with coordinates translated into the target widget's
    /// local space. The coordinates and the new current widget are fixed by
    /// the table as it stood at the sample, before any handler runs.
    pub fn handle_mouse_move(&mut self, x: u32, y: u32)
        ensures
            final (self).spec_current_widget_id() == spec_id_at_point(
                old(self).spec_cache(),
                x,
                y,
            ),
            final (self).spec_running() == old(self).spec_running(),
            final (self).spec_trace() == old(self).spec_trace() + spec_mouse_move_events(
                old(self).spec_cache(),
                old(self).spec_current_widget_id(),
                x,
                y,
            ),
    {
        let ghost v0 = self.spec_cache();
        let cur = self.current_widget_id;
        let new_id = self.cache.id_at_point(x, y);
        self.current_widget_id = new_id;
        let n = self.cache.size();
        let origin = if new_id < n {
            self.cache.get(new_id).properties().get_origin()
        } else {
            (0, 0)
        };
        let mut stream: Vec<SemanticEvent> = Vec::new();
        if cur != new_id {
            let exited = SemanticEvent::WidgetMouseExited { widget_id: cur };
            stream.push(exited);
            if let Some(derived) = self.cache.deliver_to(cur, &exited) {
                stream.push(derived);
            }
            let entered = SemanticEvent::WidgetMouseEntered { widget_id: new_id };
            stream.push(entered);
            if let Some(derived) = self.cache.deliver_to(new_id, &entered) {
                stream.push(derived);
            }
        }
        let moved_x = if x >= origin.0 {
            x - origin.0
        } else {
            0
        };
        let moved_y = if y >= origin.1 {
            y - origin.1
        } else {
            0
        };
        let moved = SemanticEvent::MouseMoved { widget_id: new_id, x: moved_x, y: moved_y };
        stream.push(moved);
        if let Some(derived) = self.cache.deliver_to(new_id, &moved) {
            stream.push(derived);
        }
        proof {
            assert(stream@ =~= spec_mouse_move_events(v0, cur, x, y));
        }
        self.forward_all(&stream);
    }

    /// Handles a button sample. A press is routed to the current widget
    /// alone, so its drag or click logic sees it first; a release is
    /// broadcast to every widget, since the pointer may have moved off the
    /// widget that saw the press, with radio selections rebroadcast once.
    pub fn handle_mouse_button(&mut self, button: u32, state: bool)
        ensures
            final (self).spec_current_widget_id() == old(self).spec_current_widget_id(),
            final (self).spec_running() == old(self).spec_running(),
            final (self).spec_trace() == old(self).spec_trace() + spec_button_events(
                old(self).spec_cache(),
                old(self).spec_current_widget_id(),
                button,
                state,
            ),
    {
        let ghost v0 = self.spec_cache();
        let cur = self.current_widget_id;
        let event = SemanticEvent::MouseButton { widget_id: cur, button, state };
        let mut stream: Vec<SemanticEvent> = Vec::new();
        stream.push(event);
        if state {
            if let Some(derived) = self.cache.deliver_to(cur, &event) {
                stream.push(derived);
            }
        } else {
            let mut derived = self.cache.broadcast(&event);
            stream.append(&mut derived);
        }
        proof {
            assert(stream@ =~= spec_button_events(v0, cur, button, state));
        }
        self.forward_all(&stream);
    }

    /// Handles the frame tick: the tick event goes to the application and
    /// to every widget in id order, so widgets can animate or invalidate
    /// themselves.
    pub fn handle_draw_frame(&mut self, timestamp: u128)
        ensures
            final (self).spec_current_widget_id() == old(self).spec_current_widget_id(),
            final (self).spec_running() == old(self).spec_running(),
            final (self).spec_trace() == old(self).spec_trace() + spec_frame_events(
                old(self).spec_cache(),
                timestamp,
            ),
    {
        let ghost v0 = self.spec_cache();
        let event = SemanticEvent::DrawFrame { timestamp };
        let mut stream: Vec<SemanticEvent> = Vec::new();
        stream.push(event);
        let mut derived = self.cache.broadcast_plain(&event);
        stream.append(&mut derived);
        proof {
            assert(stream@ =~= spec_frame_events(v0, timestamp));
        }
        self.forward_all(&stream);
    }

    /// Runs the lazy layout pass over the cache: every widget flagged for
    /// layout builds its children once, the flag is consumed, and the
    /// staged children are appended afterwards.
    pub fn handle_build_layout(&mut self)
        ensures
            final (self).spec_cache() == crate::layout::spec_layout_pass(old(self).spec_cache()),
            final (self).spec_current_widget_id() == old(self).spec_current_widget_id(),
            final (self).spec_running() == old(self).spec_running(),
            final (self).spec_trace() == old(self).spec_trace(),
    {
        self.cache.run_layout_pass();
    }

    /// The redraw pass: clears the dirty latch and yields the visible
    /// widgets in z-order for the rendering backend to draw.
    pub fn refresh(&mut self) -> (drawn: Vec<u32>)
        ensures
            final (self).spec_cache() == old(self).spec_cache(),
            !final (self).spec_invalidated(),
            final (self).spec_current_widget_id() == old(self).spec_current_widget_id(),
            final (self).spec_running() == old(self).spec_running(),
            final (self).spec_trace() == old(self).spec_trace(),
            forall|j: int, k: int| 0 <= j < k < drawn@.len() ==> drawn@[j] < drawn@[k],
            forall|j: int|
                0 <= j < drawn@.len() ==> crate::cache::spec_subtree_visible(
                    final (self).spec_cache(),
                    drawn@[j] as int,
                ),
            forall|i: int|
                0 <= i < final (self).spec_cache().len() && crate::cache::spec_subtree_visible(
                    final (self).spec_cache(),
                    i,
                ) ==> drawn@.contains(i as u32),
    {
        self.cache.refresh()
    }

    /// Consumes one raw input sample: pointer moves and button changes
    /// become semantic events, a quit request stops the loop, and anything
    /// unmapped is dropped — the engine reports it as unrecognized so the
    /// loop can log it, but never fails on it.
    pub fn dispatch_raw(&mut self, event: RawEvent) -> (recognized: bool)
        ensures
            event is Quit ==> ({
                &&& !final (self).spec_running()
                &&& final (self).spec_trace() == old(self).spec_trace()
                &&& final (self).spec_cache() == old(self).spec_cache()
                &&& final (self).spec_current_widget_id() == old(self).spec_current_widget_id()
                &&& recognized
            }),
            event matches RawEvent::MouseMove { x, y } ==> ({
                &&& final (self).spec_current_widget_id() == spec_id_at_point(
                    old(self).spec_cache(),
                    x,
                    y,
                )
                &&& final (self).spec_running() == old(self).spec_running()
                &&& final (self).spec_trace() == old(self).spec_trace() + spec_mouse_move_events(
                    old(self).spec_cache(),
                    old(self).spec_current_widget_id(),
                    x,
                    y,
                )
                &&& recognized
            }),
            event matches RawEvent::ButtonDown { button } ==> ({
                &&& final (self).spec_current_widget_id() == old(self).spec_current_widget_id()
                &&& final (self).spec_running() == old(self).spec_running()
                &&& final (self).spec_trace() == old(self).spec_trace() + spec_button_events(
                    old(self).spec_cache(),
                    old(self).spec_current_widget_id(),
                    button,
                    true,
                )
                &&& recognized
            }),
            event matches RawEvent::ButtonUp { button } ==> ({
                &&& final (self).spec_current_widget_id() == old(self).spec_current_widget_id()
                &&& final (self).spec_running() == old(self).spec_running()
                &&& final (self).spec_trace() == old(self).spec_trace() + spec_button_events(
                    old(self).spec_cache(),
                    old(self).spec_current_widget_id(),
                    button,
                    false,
                )
                &&& recognized
            }),
            event is Other ==> *final (self) == *old(self) && !recognized,
    {
        match event {
            RawEvent::Quit => {
                self.stop();
                true
            },
            RawEvent::MouseMove { x, y } => {
                self.handle_mouse_move(x, y);
                true
            },
            RawEvent::ButtonDown { button } => {
                self.handle_mouse_button(button, true);
                true
            },
            RawEvent::ButtonUp { button } => {
                self.handle_mouse_button(button, false);
                true
            },
            RawEvent::Other => false,
        }
    }
}

} // verus!
