//! The widget capability contract: a polymorphic unit that consumes one
//! semantic event at a time, optionally derives a higher-level event, and
//! optionally produces child widgets for lazy layout.

use crate::events::SemanticEvent;
use crate::properties::PropertyStore;
use crate::properties::PropertyValue;
use vstd::prelude::*;

verus! {

/// What a concrete widget kind must support so the cache can route events
/// through it. Each executable method is pinned to a specification-level
/// model declared by the implementation, so the engine's own contracts can
/// describe dispatch exactly for any widget kind.
pub trait Widget: Sized {
    /// Model of `handle_event`: the widget's next state, its next property
    /// map, the derived event it emits, and whether it changed something
    /// that affects its appearance, as a function of its state, its id, its
    /// properties and the incoming event.
    spec fn on_event(self, my_id: u32, props: Map<u32, PropertyValue>, event: SemanticEvent) -> (
        Self,
        Map<u32, PropertyValue>,
        Option<SemanticEvent>,
        bool,
    );

    /// Model of `build_layout`: the children the widget asks the engine to
    /// append, each with its initial property map.
    spec fn layout_children(self, my_id: u32, props: Map<u32, PropertyValue>) -> Seq<
        (Self, Map<u32, PropertyValue>),
    >;

    /// Model of `constructed_layout_ids`: the widget's state after learning
    /// the ids its children were given.
    spec fn with_layout_ids(self, ids: Seq<u32>) -> Self;

    /// Consumes one semantic event. The widget may mutate its own
    /// properties and may return exactly one derived event; it must not
    /// attempt structural tree mutation (that is deferred to lazy layout,
    /// which the two-phase engine pass performs). The second result tells
    /// the cache whether the widget's appearance changed, so the dirty
    /// latch can be set.
    fn handle_event(&mut self, my_id: u32, event: &SemanticEvent, props: &mut PropertyStore) -> (
        outcome: (Option<SemanticEvent>, bool))
        ensures
            ({
                let o = old(self).on_event(my_id, old(props)@, *event);
                *final (self) == o.0 && final (props)@ == o.1 && outcome.0 == o.2 && outcome.1
                    == o.3
            }),
    ;

    /// Produces the widget's lazily constructed children. The engine calls
    /// this at most once per setting of the layout flag, then clears the
    /// flag.
    fn build_layout(&self, my_id: u32, props: &PropertyStore) -> (children: Vec<
        (Self, PropertyStore)>)
        ensures
            ({
                let l = self.layout_children(my_id, props@);
                &&& children@.len() == l.len()
                &&& forall|j: int|
                    0 <= j < l.len() ==> (#[trigger] children@[j]).0 == l[j].0 && children@[j].1@
                        == l[j].1
            }),
    ;

    /// Tells the widget the final ids its requested children were given, so
    /// it can retain references to them.
    fn constructed_layout_ids(&mut self, ids: &Vec<u32>)
        ensures
            *final (self) == old(self).with_layout_ids(ids@),
    ;
}

/// An inert widget: it owns properties, never derives an event and never
/// builds children. Serves as the root widget and as a plain drawn panel.
pub struct BaseWidget {}

impl Widget for BaseWidget {
    open spec fn on_event(self, my_id: u32, props: Map<u32, PropertyValue>, event: SemanticEvent)
        -> (Self, Map<u32, PropertyValue>, Option<SemanticEvent>, bool) {
        (self, props, None, false)
    }

    open spec fn layout_children(self, my_id: u32, props: Map<u32, PropertyValue>) -> Seq<
        (Self, Map<u32, PropertyValue>),
    > {
        Seq::empty()
    }

    open spec fn with_layout_ids(self, ids: Seq<u32>) -> Self {
        self
    }

    fn handle_event(&mut self, my_id: u32, event: &SemanticEvent, props: &mut PropertyStore) -> (
        outcome: (Option<SemanticEvent>, bool)) {
        (None, false)
    }

    fn build_layout(&self, my_id: u32, props: &PropertyStore) -> (children: Vec<
        (Self, PropertyStore)>) {
        Vec::new()
    }

    fn constructed_layout_ids(&mut self, ids: &Vec<u32>) {
    }
}

} // verus!
