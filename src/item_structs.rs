use vstd::prelude::*;
use std::collections::HashMap;

verus! {

/// An item as read from the raw data files.
#[derive(Debug)]
pub struct Item {
    pub name: String,
    pub hp: i32,
    pub renderable: Option<Renderable>,
    pub consumable: Option<Consumable>,
}

/// How an item is drawn: glyph, colours by name, and drawing order.
#[derive(Debug)]
pub struct Renderable {
    pub glyph: String,
    pub fg: String,
    pub bg: String,
    pub order: i32,
}

/// The effects an item has when used, by name.
#[derive(Debug)]
pub struct Consumable {
    pub effects: HashMap<String, String>,
}

} // verus!
