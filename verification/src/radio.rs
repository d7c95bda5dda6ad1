//! The radio button widget: the one selected member of its group. Selecting
//! it on a button release derives a radio-selection event; on the engine's
//! rebroadcast of such a selection, every other member of the same group
//! clears its own toggle — which is how the group stays mutually exclusive.

use crate::cache::spec_deliver;
use crate::cache::EntryModel;
use crate::dispatch::spec_broadcast;
use crate::dispatch::spec_pass;
use crate::dispatch::spec_pass_rebroadcast;
use crate::events::SemanticEvent;
use crate::properties::spec_unsigned_of;
use crate::properties::PropertyStore;
use crate::properties::PropertyValue;
use crate::properties::PROPERTY_GROUP_ID;
use crate::properties::PROPERTY_TOGGLED;
use crate::widget::Widget;
use vstd::prelude::*;

verus! {

/// A radio button. All of its state lives in its property store: the group
/// under `PROPERTY_GROUP_ID` and the selection under `PROPERTY_TOGGLED`.
pub struct RadioButtonWidget {}

impl Widget for RadioButtonWidget {
    open spec fn on_event(
        self,
        my_id: u32,
        props: Map<u32, PropertyValue>,
        event: SemanticEvent,
    ) -> (Self, Map<u32, PropertyValue>, Option<SemanticEvent>, bool) {
        match event {
            SemanticEvent::MouseButton { widget_id, button: _, state } => {
                if !state && widget_id == my_id && !props.contains_key(PROPERTY_TOGGLED) {
                    (
                        self,
                        props.insert(PROPERTY_TOGGLED, PropertyValue::Flag),
                        Some(
                            SemanticEvent::WidgetRadioSelected {
                                widget_id: my_id,
                                group_id: spec_unsigned_of(props, PROPERTY_GROUP_ID),
                            },
                        ),
                        true,
                    )
                } else {
                    (self, props, None, false)
                }
            },
            SemanticEvent::WidgetRadioSelected { widget_id, group_id } => {
                if group_id == spec_unsigned_of(props, PROPERTY_GROUP_ID) && widget_id != my_id
                    && props.contains_key(PROPERTY_TOGGLED) {
                    (
                        self,
                        props.remove(PROPERTY_TOGGLED),
                        Some(SemanticEvent::WidgetRadioUnselected { widget_id: my_id }),
                        true,
                    )
                } else {
                    (self, props, None, false)
                }
            },
            _ => (self, props, None, false),
        }
    }

    open spec fn layout_children(self, my_id: u32, props: Map<u32, PropertyValue>) -> Seq<
        (Self, Map<u32, PropertyValue>),
    > {
        Seq::empty()
    }

    open spec fn with_layout_ids(self, ids: Seq<u32>) -> Self {
        self
    }

    fn handle_event(&mut self, my_id: u32, event: &SemanticEvent, props: &mut PropertyStore) -> (
        outcome: (Option<SemanticEvent>, bool))
    {
        match *event {
            SemanticEvent::MouseButton { widget_id, button: _, state } => {
                if !state && widget_id == my_id && !props.get_bool(PROPERTY_TOGGLED) {
                    let group_id = props.get_unsigned(PROPERTY_GROUP_ID);
                    props.set_bool(PROPERTY_TOGGLED);
                    (
                        Some(SemanticEvent::WidgetRadioSelected { widget_id: my_id, group_id }),
                        true,
                    )
                } else {
                    (None, false)
                }
            },
            SemanticEvent::WidgetRadioSelected { widget_id, group_id } => {
                let my_group = props.get_unsigned(PROPERTY_GROUP_ID);
                if group_id == my_group && widget_id != my_id && props.get_bool(PROPERTY_TOGGLED) {
                    props.delete(PROPERTY_TOGGLED);
                    (
                        Some(SemanticEvent::WidgetRadioUnselected { widget_id: my_id }),
                        true,
                    )
                } else {
                    (None, false)
                }
            },
            _ => (None, false),
        }
    }

    fn build_layout(&self, my_id: u32, props: &PropertyStore) -> (children: Vec<
        (Self, PropertyStore)>)
    {
        Vec::new()
    }

    fn constructed_layout_ids(&mut self, ids: &Vec<u32>) {
    }
}

/// Whether radio widget `i` belongs to group `g`.
pub open spec fn spec_in_group(v: Seq<EntryModel<RadioButtonWidget>>, i: int, g: u32) -> bool {
    spec_unsigned_of(v[i].props, PROPERTY_GROUP_ID) == g
}

/// Whether radio widget `i` is the selected member of its group.
pub open spec fn spec_toggled(v: Seq<EntryModel<RadioButtonWidget>>, i: int) -> bool {
    v[i].props.contains_key(PROPERTY_TOGGLED)
}

/// At most one member of group `g` is selected.
pub open spec fn spec_group_exclusive(v: Seq<EntryModel<RadioButtonWidget>>, g: u32) -> bool {
    forall|i: int, j: int|
        0 <= i < v.len() && 0 <= j < v.len() && spec_in_group(v, i, g) && spec_in_group(v, j, g)
            && #[trigger] spec_toggled(v, i) && #[trigger] spec_toggled(v, j) ==> i == j
}

/// The button-release event the engine broadcasts.
pub open spec fn spec_button_up(t: u32, button: u32) -> SemanticEvent {
    SemanticEvent::MouseButton { widget_id: t, button, state: false }
}

/// The selection event a radio button derives.
pub open spec fn spec_radio_selected(t: u32, g: u32) -> SemanticEvent {
    SemanticEvent::WidgetRadioSelected { widget_id: t, group_id: g }
}

/// The rebroadcast of a radio selection clears the toggle of every other
/// member of the selected group among the widgets it reaches, and touches
/// nothing else.
proof fn lemma_rebroadcast_clears(
    v: Seq<EntryModel<RadioButtonWidget>>,
    t: u32,
    g: u32,
    remaining: nat,
)
    requires
        v.len() <= 0xFFFF_FFFF,
        remaining <= v.len(),
    ensures
        ({
            let r = spec_pass(v, spec_radio_selected(t, g), remaining).0;
            &&& r.len() == v.len()
            &&& forall|j: int| 0 <= j < v.len() - remaining ==> r[j] == v[j]
            &&& forall|j: int|
                v.len() - remaining <= j < v.len() ==> (#[trigger] r[j]).widget == v[j].widget
                    && r[j].parent_id == v[j].parent_id && (if spec_in_group(v, j, g) && j != t
                    && spec_toggled(v, j) {
                    r[j].props == v[j].props.remove(PROPERTY_TOGGLED)
                } else {
                    r[j].props == v[j].props
                })
        }),
    decreases remaining,
{
    if remaining > 0 {
        let x = spec_radio_selected(t, g);
        let i = v.len() - remaining;
        let step = spec_deliver(v, i, x);
        let v1 = step.0;
        assert(v1.len() == v.len());
        if spec_in_group(v, i, g) && i != t && spec_toggled(v, i) {
            assert(v1 == v.update(
                i,
                EntryModel {
                    widget: v[i].widget,
                    props: v[i].props.remove(PROPERTY_TOGGLED),
                    parent_id: v[i].parent_id,
                },
            ));
        } else {
            assert(v1 =~= v) by {
                assert(v1 == v.update(i, v[i]));
            }
        }
        lemma_rebroadcast_clears(v1, t, g, (remaining - 1) as nat);
        let r = spec_pass(v1, x, (remaining - 1) as nat).0;
        assert forall|j: int|
            v.len() - remaining <= j < v.len() implies (#[trigger] r[j]).widget == v[j].widget
                && r[j].parent_id == v[j].parent_id && (if spec_in_group(v, j, g) && j != t
                && spec_toggled(v, j) {
                r[j].props == v[j].props.remove(PROPERTY_TOGGLED)
            } else {
                r[j].props == v[j].props
            }) by {
            if j == i {
                assert(r[j] == v1[j]);
            } else {
                assert(v1[j] == v[j]);
            }
        }
    }
}

/// A button release aimed at widget `t` is ignored by every widget it is
/// not aimed at: delivering it to a range of widgets that does not contain
/// `t` changes nothing and derives nothing.
proof fn lemma_button_up_skip(
    v: Seq<EntryModel<RadioButtonWidget>>,
    t: u32,
    button: u32,
    remaining: nat,
)
    requires
        v.len() <= 0xFFFF_FFFF,
        remaining <= v.len(),
        (t as int) < v.len() - remaining || (t as int) >= v.len(),
    ensures
        spec_pass_rebroadcast(v, spec_button_up(t, button), remaining).0 == v,
        spec_pass_rebroadcast(v, spec_button_up(t, button), remaining).1 == Seq::<
            SemanticEvent,
        >::empty(),
        !spec_pass_rebroadcast(v, spec_button_up(t, button), remaining).2,
    decreases remaining,
{
    if remaining > 0 {
        let e = spec_button_up(t, button);
        let i = v.len() - remaining;
        let step = spec_deliver(v, i, e);
        assert(step.0 =~= v) by {
            assert(step.0 == v.update(i, v[i]));
        }
        lemma_button_up_skip(step.0, t, button, (remaining - 1) as nat);
    }
}

/// The heart of the radio law: processing a button release through the
/// remaining widgets, with `t` still to come. If `t` is not yet selected,
/// it becomes selected, its selection is rebroadcast once, and afterwards
/// the selected widgets are exactly `t` and those outside `t`'s group that
/// were selected before. If `t` is already selected, nothing changes and
/// nothing is rebroadcast.
proof fn lemma_button_up_main(
    v: Seq<EntryModel<RadioButtonWidget>>,
    t: u32,
    button: u32,
    g: u32,
    remaining: nat,
)
    requires
        v.len() <= 0xFFFF_FFFF,
        remaining <= v.len(),
        v.len() - remaining <= (t as int),
        (t as int) < v.len(),
        spec_in_group(v, t as int, g),
    ensures
        ({
            let r = spec_pass_rebroadcast(v, spec_button_up(t, button), remaining);
            &&& r.0.len() == v.len()
            &&& !spec_toggled(v, t as int) ==> (forall|j: int|
                0 <= j < v.len() ==> ((#[trigger] spec_toggled(r.0, j)) <==> (j == t as int || (
                spec_toggled(v, j) && !spec_in_group(v, j, g)))))
            &&& !spec_toggled(v, t as int) ==> (forall|j: int, h: u32|
                0 <= j < v.len() ==> ((#[trigger] spec_in_group(r.0, j, h)) <==> spec_in_group(
                    v,
                    j,
                    h,
                )))
            &&& spec_toggled(v, t as int) ==> r.0 == v && r.1 == Seq::<SemanticEvent>::empty()
                && !r.2
        }),
    decreases remaining,
{
    let e = spec_button_up(t, button);
    let i = v.len() - remaining;
    let step = spec_deliver(v, i, e);
    if i < t as int {
        assert(step.0 =~= v) by {
            assert(step.0 == v.update(i, v[i]));
        }
        lemma_button_up_main(step.0, t, button, g, (remaining - 1) as nat);
    } else {
        assert(i == t as int);
        if spec_toggled(v, t as int) {
            assert(step.0 =~= v) by {
                assert(step.0 == v.update(i, v[i]));
            }
            lemma_button_up_skip(step.0, t, button, (remaining - 1) as nat);
        } else {
            let toggled_entry = EntryModel {
                widget: v[i].widget,
                props: v[i].props.insert(PROPERTY_TOGGLED, PropertyValue::Flag),
                parent_id: v[i].parent_id,
            };
            let v1 = v.update(i, toggled_entry);
            assert(step.0 == v1);
            assert(step.1 == Some(spec_radio_selected(t, g)));
            lemma_rebroadcast_clears(v1, t, g, v1.len());
            let v2 = spec_pass(v1, spec_radio_selected(t, g), v1.len()).0;
            lemma_button_up_skip(v2, t, button, (remaining - 1) as nat);
            let r = spec_pass_rebroadcast(v, e, remaining);
            assert(r.0 == v2);
            assert forall|j: int|
                0 <= j < v.len() implies ((#[trigger] spec_toggled(r.0, j)) <==> (j == t as int || (
                spec_toggled(v, j) && !spec_in_group(v, j, g)))) by {
                if j == t as int {
                    assert(spec_in_group(v1, j, g) && spec_toggled(v1, j));
                    assert(r.0[j].props == v1[j].props);
                } else {
                    assert(v1[j] == v[j]);
                }
            }
            assert forall|j: int, h: u32|
                0 <= j < v.len() implies ((#[trigger] spec_in_group(r.0, j, h)) <==> spec_in_group(
                    v,
                    j,
                    h,
                )) by {
                if j == t as int {
                    assert(r.0[j].props == v1[j].props);
                } else {
                    assert(v1[j] == v[j]);
                }
            }
        }
    }
}

/// The radio-group law. A button release lands on radio button `t` of group
/// `g`. If `t` was not selected, then after the broadcast settles exactly
/// one member of `g` is selected — `t` itself — and members of other groups
/// keep their state; if `t` was already selected, the whole broadcast is a
/// no-op and derives no event at all, so there is no rebroadcast storm.
/// Every group that was mutually exclusive stays mutually exclusive, so any
/// sequence of button releases keeps every group exclusive.
pub proof fn lemma_radio_group_exclusive(
    v: Seq<EntryModel<RadioButtonWidget>>,
    t: u32,
    button: u32,
    g: u32,
)
    requires
        v.len() <= 0xFFFF_FFFF,
        (t as int) < v.len(),
        spec_in_group(v, t as int, g),
    ensures
        ({
            let r = spec_broadcast(v, spec_button_up(t, button));
            &&& r.0.len() == v.len()
            &&& !spec_toggled(v, t as int) ==> spec_toggled(r.0, t as int) && (forall|j: int|
                0 <= j < r.0.len() && j != t as int && spec_in_group(v, j, g)
                    ==> !(#[trigger] spec_toggled(r.0, j)))
            &&& !spec_toggled(v, t as int) ==> spec_group_exclusive(r.0, g)
            &&& spec_toggled(v, t as int) ==> r.0 == v && r.1 == Seq::<SemanticEvent>::empty()
                && !r.2
            &&& forall|h: u32|
                #[trigger] spec_group_exclusive(v, h) ==> spec_group_exclusive(r.0, h)
        }),
{
    lemma_button_up_main(v, t, button, g, v.len());
    let r = spec_broadcast(v, spec_button_up(t, button));
    if !spec_toggled(v, t as int) {
        assert forall|h: u32| spec_group_exclusive(v, h) implies spec_group_exclusive(
            r.0,
            h,
        ) by {
            lemma_exclusive_after(v, r.0, t, g, h);
        }
        assert(spec_group_exclusive(r.0, g)) by {
            assert forall|i: int, j: int|
                0 <= i < r.0.len() && 0 <= j < r.0.len() && spec_in_group(r.0, i, g)
                    && spec_in_group(r.0, j, g) && #[trigger] spec_toggled(r.0, i)
                    && #[trigger] spec_toggled(r.0, j) implies i == j by {
                assert(spec_in_group(v, i, g) && spec_in_group(v, j, g));
                assert(i == t as int && j == t as int);
            }
        }
    }
}

/// After an initially unselected radio button of group `g` takes the
/// selection, every group that was exclusive is exclusive still.
proof fn lemma_exclusive_after(
    v: Seq<EntryModel<RadioButtonWidget>>,
    r: Seq<EntryModel<RadioButtonWidget>>,
    t: u32,
    g: u32,
    h: u32,
)
    requires
        (t as int) < v.len(),
        r.len() == v.len(),
        spec_in_group(v, t as int, g),
        spec_group_exclusive(v, h),
        forall|j: int|
            0 <= j < v.len() ==> ((#[trigger] spec_toggled(r, j)) <==> (j == t as int || (
            spec_toggled(v, j) && !spec_in_group(v, j, g)))),
        forall|j: int, h2: u32|
            0 <= j < v.len() ==> ((#[trigger] spec_in_group(r, j, h2)) <==> spec_in_group(
                v,
                j,
                h2,
            )),
    ensures
        spec_group_exclusive(r, h),
{
    assert forall|i: int, j: int|
        0 <= i < r.len() && 0 <= j < r.len() && spec_in_group(r, i, h) && spec_in_group(r, j, h)
            && #[trigger] spec_toggled(r, i) && #[trigger] spec_toggled(r, j) implies i == j by {
        if h == g {
            assert(i == t as int && j == t as int);
        } else {
            if i == t as int {
                assert(spec_in_group(v, t as int, g) && spec_in_group(v, t as int, h));
                assert(false);
            }
            if j == t as int {
                assert(false);
            }
            assert(spec_toggled(v, i) && spec_toggled(v, j));
        }
    }
}

} // verus!
