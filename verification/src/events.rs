//! The semantic event catalog: everything the dispatch engine synthesizes
//! from raw input or routes on from a widget, and the raw input samples the
//! engine consumes.

use vstd::prelude::*;

verus! {

/// A semantic UI event. The engine synthesizes the mouse events from raw
/// input; widgets derive the higher-level ones and hand them back to the
/// engine, which forwards every event to the application handler.
#[derive(Clone, Copy, PartialEq, Eq, Structural, Debug)]
pub enum SemanticEvent {
    /// The pointer moved; `x` and `y` are translated into the target
    /// widget's local space.
    MouseMoved { widget_id: u32, x: u32, y: u32 },
    /// A mouse button changed state; `state` is true on press.
    MouseButton { widget_id: u32, button: u32, state: bool },
    /// The pointer entered the widget.
    WidgetMouseEntered { widget_id: u32 },
    /// The pointer left the widget.
    WidgetMouseExited { widget_id: u32 },
    /// The widget was clicked.
    WidgetClicked { widget_id: u32, button: u32 },
    /// The widget was selected.
    WidgetSelected { widget_id: u32 },
    /// A toggle widget changed state.
    WidgetToggled { widget_id: u32, selected: bool },
    /// A radio-group member became the selected one; the engine rebroadcasts
    /// this event to every widget so the other members of `group_id` clear
    /// themselves.
    WidgetRadioSelected { widget_id: u32, group_id: u32 },
    /// A radio-group member stopped being the selected one.
    WidgetRadioUnselected { widget_id: u32 },
    /// The widget gained keyboard focus.
    WidgetFocusGained { widget_id: u32 },
    /// The widget lost keyboard focus.
    WidgetFocusLost { widget_id: u32 },
    /// A tab of a tab bar was selected.
    WidgetTabSelected { widget_id: u32, tab: u32 },
    /// A widget's value changed.
    WidgetValueChanged { widget_id: u32, value: u32 },
    /// A widget moved to a new origin.
    WidgetMoved { widget_id: u32, x: u32, y: u32 },
    /// A widget was hidden or shown.
    WidgetVisibilityChanged { widget_id: u32, visible: bool },
    /// An item of a menu widget was selected.
    WidgetMenuItemSelected { widget_id: u32, item: u32 },
    /// The per-frame timer tick.
    DrawFrame { timestamp: u128 },
}

/// A raw input sample as the windowing layer produces it. Anything the
/// engine cannot map to a semantic event arrives as `Other` and is dropped.
#[derive(Clone, Copy, PartialEq, Eq, Structural, Debug)]
pub enum RawEvent {
    /// The input source asks the frame loop to end.
    Quit,
    /// The pointer moved to window coordinates (x, y).
    MouseMove { x: u32, y: u32 },
    /// A mouse button was pressed.
    ButtonDown { button: u32 },
    /// A mouse button was released.
    ButtonUp { button: u32 },
    /// An unmapped input variant; logged and discarded, never fatal.
    Other,
}

} // verus!
