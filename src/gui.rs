use vstd::prelude::*;
use crate::camera::Point;

verus! {

/// An entry of the main menu.
#[derive(Clone, Copy, Debug, PartialEq, Eq, Structural)]
pub enum MainMenuSelection {
    NewGame,
    LoadGame,
    Quit,
}

/// What the main menu reports after one key.
#[derive(Clone, Copy, Debug, PartialEq, Eq, Structural)]
pub enum MainMenuResult {
    NoSelection { selected: MainMenuSelection },
    Selected { selected: MainMenuSelection },
}

/// What the inventory menu reports after one key.
#[derive(Clone, Copy, Debug, PartialEq, Eq, Structural)]
pub enum ItemMenuResult {
    Cancel,
    NoResponse,
    Up,
    Down,
    Selected,
    Drop,
}

/// What target selection reports after one frame.
#[derive(Clone, Copy, Debug, PartialEq, Eq, Structural)]
pub enum SelectResult {
    Cancel,
    NoResponse,
    Selected,
}

/// The meaning of a pressed key in a menu, after the key bindings are applied.
#[derive(Clone, Copy, Debug, PartialEq, Eq, Structural)]
pub enum MenuKey {
    Exit,
    Up,
    Down,
    Drop,
    Select,
    Return,
    Other,
}

/// The entry above `s`; the load entry is passed over when there is no save.
pub open spec fn entry_above(s: MainMenuSelection, save_exists: bool) -> MainMenuSelection {
    match s {
        MainMenuSelection::NewGame => MainMenuSelection::NewGame,
        MainMenuSelection::LoadGame => MainMenuSelection::NewGame,
        MainMenuSelection::Quit => if save_exists {
            MainMenuSelection::LoadGame
        } else {
            MainMenuSelection::NewGame
        },
    }
}

/// The entry below `s`; the load entry is passed over when there is no save.
pub open spec fn entry_below(s: MainMenuSelection, save_exists: bool) -> MainMenuSelection {
    match s {
        MainMenuSelection::NewGame => if save_exists {
            MainMenuSelection::LoadGame
        } else {
            MainMenuSelection::Quit
        },
        MainMenuSelection::LoadGame => MainMenuSelection::Quit,
        MainMenuSelection::Quit => MainMenuSelection::Quit,
    }
}

/// The main menu's answer to `key` while `selection` is highlighted.
pub open spec fn main_menu_result_of(
    selection: MainMenuSelection,
    key: Option<MenuKey>,
    save_exists: bool,
) -> MainMenuResult {
    match key {
        Some(MenuKey::Exit) => MainMenuResult::NoSelection { selected: MainMenuSelection::Quit },
        Some(MenuKey::Up) => MainMenuResult::NoSelection { selected: entry_above(selection, save_exists) },
        Some(MenuKey::Down) => MainMenuResult::NoSelection { selected: entry_below(selection, save_exists) },
        Some(MenuKey::Return) => MainMenuResult::Selected { selected: selection },
        _ => MainMenuResult::NoSelection { selected: selection },
    }
}

/// The entry at position `i` of the main menu, top first.
pub open spec fn entry_of(i: int) -> MainMenuSelection {
    if i == 0 {
        MainMenuSelection::NewGame
    } else if i == 1 {
        MainMenuSelection::LoadGame
    } else {
        MainMenuSelection::Quit
    }
}

fn entry_index(s: MainMenuSelection) -> (r: i8)
    ensures
        0 <= r <= 2,
        entry_of(r as int) == s,
{
    match s {
        MainMenuSelection::NewGame => 0,
        MainMenuSelection::LoadGame => 1,
        MainMenuSelection::Quit => 2,
    }
}

fn entry_at(i: i8) -> (r: MainMenuSelection)
    requires
        0 <= i <= 2,
    ensures
        r == entry_of(i as int),
{
    if i == 0 {
        MainMenuSelection::NewGame
    } else if i == 1 {
        MainMenuSelection::LoadGame
    } else {
        MainMenuSelection::Quit
    }
}

/// The main menu's answer to `key` while `selection` is highlighted: up and down
/// move the highlight (skipping the load entry when no save exists), exit moves it
/// to quit, and return chooses the highlighted entry.
pub fn main_menu_choice(selection: MainMenuSelection, key: Option<MenuKey>, save_exists: bool) -> (r: MainMenuResult)
    ensures
        r == main_menu_result_of(selection, key, save_exists),
{
    let idx = entry_index(selection);
    match key {
        None => MainMenuResult::NoSelection { selected: selection },
        Some(MenuKey::Exit) => MainMenuResult::NoSelection { selected: MainMenuSelection::Quit },
        Some(MenuKey::Up) => {
            let up = if idx > 0 { idx - 1 } else { 0 };
            let mut next = entry_at(up);
            if next == MainMenuSelection::LoadGame && !save_exists {
                next = MainMenuSelection::NewGame;
            }
            MainMenuResult::NoSelection { selected: next }
        },
        Some(MenuKey::Down) => {
            let down = if idx < 2 { idx + 1 } else { 2 };
            let mut next = entry_at(down);
            if next == MainMenuSelection::LoadGame && !save_exists {
                next = MainMenuSelection::Quit;
            }
            MainMenuResult::NoSelection { selected: next }
        },
        Some(MenuKey::Return) => MainMenuResult::Selected { selected: selection },
        Some(_) => MainMenuResult::NoSelection { selected: selection },
    }
}

/// The inventory menu's answer to `key` with entry `selection` highlighted; drop
/// and select name the highlighted entry.
pub fn inventory_choice(key: Option<MenuKey>, selection: usize, item_count: usize) -> (r: (ItemMenuResult, Option<usize>))
    requires
        key == Some(MenuKey::Drop) || key == Some(MenuKey::Select) ==> selection < item_count,
    ensures
        r == match key {
            Some(MenuKey::Exit) => (ItemMenuResult::Cancel, None),
            Some(MenuKey::Up) => (ItemMenuResult::Up, None),
            Some(MenuKey::Down) => (ItemMenuResult::Down, None),
            Some(MenuKey::Drop) => (ItemMenuResult::Drop, Some(selection)),
            Some(MenuKey::Select) => (ItemMenuResult::Selected, Some(selection)),
            _ => (ItemMenuResult::NoResponse, None),
        },
{
    match key {
        None => (ItemMenuResult::NoResponse, None),
        Some(MenuKey::Exit) => (ItemMenuResult::Cancel, None),
        Some(MenuKey::Up) => (ItemMenuResult::Up, None),
        Some(MenuKey::Down) => (ItemMenuResult::Down, None),
        Some(MenuKey::Drop) => (ItemMenuResult::Drop, Some(selection)),
        Some(MenuKey::Select) => (ItemMenuResult::Selected, Some(selection)),
        Some(_) => (ItemMenuResult::NoResponse, None),
    }
}

/// Target selection's answer for one frame. Without a viewshed there is nothing to
/// aim at; otherwise a click on one of the `available` cells picks it, and a click
/// elsewhere cancels.
pub fn target_choice(has_viewshed: bool, available: &Vec<Point>, mouse: Point, left_click: bool) -> (r: (SelectResult, Option<Point>))
    ensures
        r == if !has_viewshed {
            (SelectResult::Cancel, None)
        } else if !left_click {
            (SelectResult::NoResponse, None)
        } else if available@.contains(mouse) {
            (SelectResult::Selected, Some(mouse))
        } else {
            (SelectResult::Cancel, None)
        },
{
    if !has_viewshed {
        return (SelectResult::Cancel, None);
    }
    let mut valid_target = false;
    let mut i: usize = 0;
    while i < available.len()
        invariant
            i <= available@.len(),
            valid_target == exists|k: int| 0 <= k < i && available@[k] == mouse,
        decreases available@.len() - i,
    {
        if available[i].x == mouse.x && available[i].y == mouse.y {
            valid_target = true;
        }
        i = i + 1;
    }
    if !left_click {
        (SelectResult::NoResponse, None)
    } else if valid_target {
        (SelectResult::Selected, Some(mouse))
    } else {
        (SelectResult::Cancel, None)
    }
}

} // verus!
