//! A retained-mode GUI widget engine: a widget tree with hit-testing and
//! dirty tracking, a property store per widget, and a dispatch engine that
//! turns raw input samples into semantic UI events.

pub mod cache;
pub mod dispatch;
pub mod engine;
pub mod events;
pub mod laws;
pub mod layout;
pub mod menu;
pub mod properties;
pub mod radio;
pub mod widget;
