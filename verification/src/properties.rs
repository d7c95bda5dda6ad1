//! Per-widget property store: a typed key/value bag with default-on-miss
//! lookup. Boolean properties are modelled as key presence.

use std::collections::HashMap;
use vstd::prelude::*;

verus! {

broadcast use vstd::std_specs::hash::group_hash_axioms;

/// Key of the widget's on-screen position, stored as a `Pair` of window
/// coordinates.
pub const PROPERTY_ORIGIN: u32 = 1;

/// Key of the widget's size, stored as a `Pair` of width and height.
pub const PROPERTY_BOUNDS: u32 = 2;

/// Presence flag: the widget and its whole subtree are excluded from
/// hit-testing and from the drawn set.
pub const PROPERTY_HIDDEN: u32 = 3;

/// Presence flag: the widget asks the engine to run its lazy layout pass;
/// the engine consumes the flag once.
pub const PROPERTY_NEEDS_LAYOUT: u32 = 4;

/// Numeric id of the mutual-exclusion group a radio button belongs to.
pub const PROPERTY_GROUP_ID: u32 = 5;

/// Presence flag: the widget is the selected member of its radio group,
/// or a checkbox that is checked.
pub const PROPERTY_TOGGLED: u32 = 6;

/// Main fill colour of the widget, stored as a `Color`.
pub const PROPERTY_MAIN_COLOR: u32 = 7;

/// Border colour of the widget, stored as a `Color`.
pub const PROPERTY_BORDER_COLOR: u32 = 8;

/// Border width in pixels, stored as an `Unsigned`.
pub const PROPERTY_BORDER_WIDTH: u32 = 9;

/// Caption or label text, stored as a `Text`.
pub const PROPERTY_TEXT: u32 = 10;

/// Count of children a lazy-layout widget builds, stored as an `Unsigned`.
pub const PROPERTY_MENU_ITEM_COUNT: u32 = 11;

/// A tagged property value: numeric, presence flag, colour, text, or a pair
/// of coordinates (used for both origin and bounds).
#[derive(Clone)]
pub enum PropertyValue {
    /// A plain number.
    Unsigned(u32),
    /// A presence flag; looking the key up at all is the boolean.
    Flag,
    /// An RGBA colour.
    Color { r: u8, g: u8, b: u8, a: u8 },
    /// A text value.
    Text(String),
    /// Two coordinates: an origin (x, y) or bounds (width, height).
    Pair(u32, u32),
}

impl View for PropertyValue {
    type V = PropertyValue;

    open spec fn view(&self) -> PropertyValue {
        *self
    }
}

/// The pair held under `key`, or `(0, 0)` when the key is absent or holds
/// a value of another type.
pub open spec fn spec_pair_of(m: Map<u32, PropertyValue>, key: u32) -> (u32, u32) {
    if m.contains_key(key) {
        match m[key] {
            PropertyValue::Pair(a, b) => (a, b),
            _ => (0, 0),
        }
    } else {
        (0, 0)
    }
}

/// The number held under `key`, or `0` when the key is absent or holds a
/// value of another type.
pub open spec fn spec_unsigned_of(m: Map<u32, PropertyValue>, key: u32) -> u32 {
    if m.contains_key(key) {
        match m[key] {
            PropertyValue::Unsigned(n) => n,
            _ => 0,
        }
    } else {
        0
    }
}

/// The colour held under `key`, or opaque white when the key is absent or
/// holds a value of another type.
pub open spec fn spec_color_of(m: Map<u32, PropertyValue>, key: u32) -> (u8, u8, u8, u8) {
    if m.contains_key(key) {
        match m[key] {
            PropertyValue::Color { r, g, b, a } => (r, g, b, a),
            _ => (255, 255, 255, 255),
        }
    } else {
        (255, 255, 255, 255)
    }
}

/// A per-widget bag of properties keyed by the `PROPERTY_` constants.
/// A lookup of an absent key yields the key's documented default, never an
/// error.
pub struct PropertyStore {
    values: HashMap<u32, PropertyValue>,
}

impl View for PropertyStore {
    type V = Map<u32, PropertyValue>;

    closed spec fn view(&self) -> Map<u32, PropertyValue> {
        self.values@
    }
}

impl PropertyStore {
    /// An empty store: every lookup yields its default.
    pub fn new() -> (store: Self)
        ensures
            store@ == Map::<u32, PropertyValue>::empty(),
    {
        PropertyStore { values: HashMap::new() }
    }

    /// Stores `value` under `key`, overwriting any earlier value.
    pub fn set(&mut self, key: u32, value: PropertyValue)
        ensures
            final(self)@ == old(self)@.insert(key, value),
    {
        self.values.insert(key, value);
    }

    /// Removes `key`; a later lookup yields the default again.
    pub fn delete(&mut self, key: u32)
        ensures
            final(self)@ == old(self)@.remove(key),
    {
        self.values.remove(&key);
    }

    /// Stores a presence flag under `key`.
    pub fn set_bool(&mut self, key: u32)
        ensures
            final(self)@ == old(self)@.insert(key, PropertyValue::Flag),
    {
        self.values.insert(key, PropertyValue::Flag);
    }

    /// Whether `key` is present at all; this is the boolean reading of a
    /// presence-flag property.
    pub fn get_bool(&self, key: u32) -> (present: bool)
        ensures
            present == self@.contains_key(key),
    {
        self.values.contains_key(&key)
    }

    /// The value under `key`, if any.
    pub fn get(&self, key: u32) -> (value: Option<&PropertyValue>)
        ensures
            match value {
                Some(v) => self@.contains_key(key) && *v == self@[key],
                None => !self@.contains_key(key),
            },
    {
        self.values.get(&key)
    }

    /// Stores the widget's origin.
    pub fn set_origin(&mut self, x: u32, y: u32)
        ensures
            final(self)@ == old(self)@.insert(PROPERTY_ORIGIN, PropertyValue::Pair(x, y)),
    {
        self.values.insert(PROPERTY_ORIGIN, PropertyValue::Pair(x, y));
    }

    /// Stores the widget's bounds.
    pub fn set_bounds(&mut self, w: u32, h: u32)
        ensures
            final(self)@ == old(self)@.insert(PROPERTY_BOUNDS, PropertyValue::Pair(w, h)),
    {
        self.values.insert(PROPERTY_BOUNDS, PropertyValue::Pair(w, h));
    }

    /// The pair under `key`, defaulting to `(0, 0)`.
    pub fn get_pair(&self, key: u32) -> (pair: (u32, u32))
        ensures
            pair == spec_pair_of(self@, key),
    {
        match self.values.get(&key) {
            Some(PropertyValue::Pair(a, b)) => (*a, *b),
            _ => (0, 0),
        }
    }

    /// The widget's origin, defaulting to `(0, 0)`.
    pub fn get_origin(&self) -> (origin: (u32, u32))
        ensures
            origin == spec_pair_of(self@, PROPERTY_ORIGIN),
    {
        self.get_pair(PROPERTY_ORIGIN)
    }

    /// The widget's bounds, defaulting to `(0, 0)`.
    pub fn get_bounds(&self) -> (bounds: (u32, u32))
        ensures
            bounds == spec_pair_of(self@, PROPERTY_BOUNDS),
    {
        self.get_pair(PROPERTY_BOUNDS)
    }

    /// The number under `key`, defaulting to `0`.
    pub fn get_unsigned(&self, key: u32) -> (n: u32)
        ensures
            n == spec_unsigned_of(self@, key),
    {
        match self.values.get(&key) {
            Some(PropertyValue::Unsigned(n)) => *n,
            _ => 0,
        }
    }

    /// Stores a colour under `key`.
    pub fn set_color(&mut self, key: u32, r: u8, g: u8, b: u8, a: u8)
        ensures
            final (self)@ == old(self)@.insert(key, PropertyValue::Color { r, g, b, a }),
    {
        self.values.insert(key, PropertyValue::Color { r, g, b, a });
    }

    /// The colour under `key`, defaulting to opaque white.
    pub fn get_color(&self, key: u32) -> (color: (u8, u8, u8, u8))
        ensures
            color == spec_color_of(self@, key),
    {
        match self.values.get(&key) {
            Some(PropertyValue::Color { r, g, b, a }) => (*r, *g, *b, *a),
            _ => (255, 255, 255, 255),
        }
    }

    /// Stores a number under `key`.
    pub fn set_unsigned(&mut self, key: u32, n: u32)
        ensures
            final(self)@ == old(self)@.insert(key, PropertyValue::Unsigned(n)),
    {
        self.values.insert(key, PropertyValue::Unsigned(n));
    }
}

} // verus!
