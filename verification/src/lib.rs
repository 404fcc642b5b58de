//! Verified building blocks around a template-driven text banner renderer:
//! alignment of text inside a fixed-width field, template records loaded from
//! serialized data, substitution of a message into a template drawing, and a
//! number of small verified state and notification helpers.

pub mod adapter;
pub mod align;
pub mod banner;
pub mod builder;
pub mod chain;
pub mod command;
pub mod facade;
pub mod flyweight;
pub mod fluent_builder;
pub mod memento;
pub mod observer;
pub mod prototype;
pub mod singleton;
pub mod strategy;
pub mod styles;
pub mod team;
pub mod text;
