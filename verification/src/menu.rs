//! A menu widget: the library's lazy-layout widget. Flagged with
//! `PROPERTY_NEEDS_LAYOUT`, it expands once into one child per menu item —
//! the engine consumes the flag — and it remembers the ids its items were
//! given.

use crate::events::SemanticEvent;
use crate::properties::PropertyStore;
use crate::properties::PropertyValue;
use crate::properties::PROPERTY_MENU_ITEM_COUNT;
use crate::widget::Widget;
use vstd::prelude::*;

verus! {

/// A menu, or one of the items it expands into. An item is inert; the menu
/// itself asks for as many children as its `PROPERTY_MENU_ITEM_COUNT`
/// property says, and records the ids they were given.
pub struct MenuWidget {
    /// The id of the first constructed item, 0 before construction.
    pub first_item_id: u32,
    /// How many items were constructed.
    pub item_count: u32,
    /// How many times the engine reported constructed ids to this menu.
    pub times_notified: u32,
}

impl MenuWidget {
    /// A fresh menu that has not built its items yet.
    pub fn new() -> (menu: Self)
        ensures
            menu == (MenuWidget { first_item_id: 0, item_count: 0, times_notified: 0 }),
    {
        MenuWidget { first_item_id: 0, item_count: 0, times_notified: 0 }
    }
}

impl Widget for MenuWidget {
    open spec fn on_event(
        self,
        my_id: u32,
        props: Map<u32, PropertyValue>,
        event: SemanticEvent,
    ) -> (Self, Map<u32, PropertyValue>, Option<SemanticEvent>, bool) {
        (self, props, None, false)
    }

    open spec fn layout_children(self, my_id: u32, props: Map<u32, PropertyValue>) -> Seq<
        (Self, Map<u32, PropertyValue>),
    > {
        Seq::new(
            crate::properties::spec_unsigned_of(props, PROPERTY_MENU_ITEM_COUNT) as nat,
            |j: int|
                (
                    MenuWidget { first_item_id: 0, item_count: 0, times_notified: 0 },
                    Map::<u32, PropertyValue>::empty(),
                ),
        )
    }

    open spec fn with_layout_ids(self, ids: Seq<u32>) -> Self {
        MenuWidget {
            first_item_id: if ids.len() > 0 {
                ids[0]
            } else {
                0
            },
            item_count: if ids.len() <= 0xFFFF_FFFF {
                ids.len() as u32
            } else {
                0xFFFF_FFFFu32
            },
            times_notified: if self.times_notified < 0xFFFF_FFFFu32 {
                (self.times_notified + 1) as u32
            } else {
                0xFFFF_FFFFu32
            },
        }
    }

    fn handle_event(&mut self, my_id: u32, event: &SemanticEvent, props: &mut PropertyStore) -> (
        outcome: (Option<SemanticEvent>, bool))
    {
        (None, false)
    }

    fn build_layout(&self, my_id: u32, props: &PropertyStore) -> (children: Vec<
        (Self, PropertyStore)>)
    {
        let count = props.get_unsigned(PROPERTY_MENU_ITEM_COUNT);
        let mut children: Vec<(Self, PropertyStore)> = Vec::new();
        let ghost target = self.layout_children(my_id, props@);
        let mut j: u32 = 0;
        while j < count
            invariant
                j <= count,
                target == self.layout_children(my_id, props@),
                target.len() == count,
                children@.len() == j,
                forall|k: int|
                    0 <= k < j ==> (#[trigger] children@[k]).0 == target[k].0 && children@[k].1@
                        == target[k].1,
            decreases count - j,
        {
            let ghost pre = children@;
            children.push(
                (MenuWidget { first_item_id: 0, item_count: 0, times_notified: 0 }, PropertyStore::new()),
            );
            proof {
                assert forall|k: int|
                    0 <= k < j + 1 implies (#[trigger] children@[k]).0 == target[k].0 && children@[
                    k
                ].1@ == target[k].1 by {
                    assert(target[k] == (
                        MenuWidget { first_item_id: 0, item_count: 0, times_notified: 0 },
                        Map::<u32, PropertyValue>::empty(),
                    ));
                    if k < j {
                        assert(children@[k] == pre[k]);
                    }
                }
            }
            j = j + 1;
        }
        children
    }

    fn constructed_layout_ids(&mut self, ids: &Vec<u32>) {
        self.first_item_id = if ids.len() > 0 {
            ids[0]
        } else {
            0
        };
        self.item_count = if ids.len() <= 0xFFFF_FFFF {
            ids.len() as u32
        } else {
            0xFFFF_FFFFu32
        };
        self.times_notified = if self.times_notified < 0xFFFF_FFFFu32 {
            self.times_notified + 1
        } else {
            0xFFFF_FFFFu32
        };
    }
}

} // verus!
