//! The verified core of trance, a screensaver host and picker.
pub mod text;
pub mod theme;
pub mod styled;
pub mod markdown;
pub mod layout;
pub mod registry;
pub mod model;
pub mod app;
pub mod actions;
pub mod catalog;
pub mod flow;
pub mod keys;
pub mod events;
pub mod cycle;
pub mod laws;
pub mod view;
