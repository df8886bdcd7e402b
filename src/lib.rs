//! A terminal feed reader's core: a markup layout engine that turns post
//! HTML into styled lines, a content-addressed record store, the feed and
//! post model, and the navigation state machine.

pub mod style;
pub mod text;
pub mod markup;
pub mod store;
pub mod feed;
pub mod app;
