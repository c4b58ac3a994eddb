use malefactor::camera::Point;
use malefactor::damage::{apply_damage, fate_of, Fate};
use malefactor::gui::{
    inventory_choice, main_menu_choice, target_choice, ItemMenuResult, MainMenuResult,
    MainMenuSelection, MenuKey, SelectResult,
};
use malefactor::item_structs::{Consumable, Item, Renderable};
use std::collections::HashMap;

fn no_selection(s: MainMenuSelection) -> MainMenuResult {
    MainMenuResult::NoSelection { selected: s }
}

#[test]
fn main_menu_moves_and_skips_load_without_save() {
    assert_eq!(main_menu_choice(MainMenuSelection::NewGame, Some(MenuKey::Down), true), no_selection(MainMenuSelection::LoadGame));
    assert_eq!(main_menu_choice(MainMenuSelection::NewGame, Some(MenuKey::Down), false), no_selection(MainMenuSelection::Quit));
    assert_eq!(main_menu_choice(MainMenuSelection::Quit, Some(MenuKey::Up), true), no_selection(MainMenuSelection::LoadGame));
    assert_eq!(main_menu_choice(MainMenuSelection::Quit, Some(MenuKey::Up), false), no_selection(MainMenuSelection::NewGame));
    assert_eq!(main_menu_choice(MainMenuSelection::NewGame, Some(MenuKey::Up), true), no_selection(MainMenuSelection::NewGame));
    assert_eq!(main_menu_choice(MainMenuSelection::Quit, Some(MenuKey::Down), true), no_selection(MainMenuSelection::Quit));
    assert_eq!(main_menu_choice(MainMenuSelection::LoadGame, Some(MenuKey::Exit), true), no_selection(MainMenuSelection::Quit));
    assert_eq!(main_menu_choice(MainMenuSelection::LoadGame, None, true), no_selection(MainMenuSelection::LoadGame));
    assert_eq!(main_menu_choice(MainMenuSelection::LoadGame, Some(MenuKey::Other), true), no_selection(MainMenuSelection::LoadGame));
    assert_eq!(
        main_menu_choice(MainMenuSelection::LoadGame, Some(MenuKey::Return), true),
        MainMenuResult::Selected { selected: MainMenuSelection::LoadGame }
    );
}

#[test]
fn inventory_keys() {
    assert_eq!(inventory_choice(None, 0, 0), (ItemMenuResult::NoResponse, None));
    assert_eq!(inventory_choice(Some(MenuKey::Exit), 0, 0), (ItemMenuResult::Cancel, None));
    assert_eq!(inventory_choice(Some(MenuKey::Up), 1, 3), (ItemMenuResult::Up, None));
    assert_eq!(inventory_choice(Some(MenuKey::Down), 1, 3), (ItemMenuResult::Down, None));
    assert_eq!(inventory_choice(Some(MenuKey::Drop), 2, 3), (ItemMenuResult::Drop, Some(2)));
    assert_eq!(inventory_choice(Some(MenuKey::Select), 0, 3), (ItemMenuResult::Selected, Some(0)));
    assert_eq!(inventory_choice(Some(MenuKey::Return), 0, 3), (ItemMenuResult::NoResponse, None));
}

#[test]
fn targeting_needs_a_viewshed_and_a_valid_click() {
    let cells = vec![Point { x: 3, y: 4 }, Point { x: 5, y: 5 }];
    let on = Point { x: 5, y: 5 };
    let off = Point { x: 9, y: 9 };
    assert_eq!(target_choice(false, &cells, on, true), (SelectResult::Cancel, None));
    assert_eq!(target_choice(true, &cells, on, true), (SelectResult::Selected, Some(on)));
    assert_eq!(target_choice(true, &cells, on, false), (SelectResult::NoResponse, None));
    assert_eq!(target_choice(true, &cells, off, true), (SelectResult::Cancel, None));
    assert_eq!(target_choice(true, &cells, off, false), (SelectResult::NoResponse, None));
}

#[test]
fn damage_is_summed_and_subtracted() {
    assert_eq!(apply_damage(30, &vec![4, 7, 1]), 18);
    assert_eq!(apply_damage(5, &vec![]), 5);
    assert_eq!(apply_damage(5, &vec![10, -2]), -3);
}

#[test]
fn fate_by_hit_points() {
    assert_eq!(fate_of(1, false), Fate::Survives);
    assert_eq!(fate_of(0, false), Fate::Removed);
    assert_eq!(fate_of(-4, true), Fate::GameOver);
    assert_eq!(fate_of(10, true), Fate::Survives);
}

#[test]
fn item_records_hold_their_fields() {
    let mut effects = HashMap::new();
    effects.insert("provides_healing".to_string(), "8".to_string());
    let item = Item {
        name: "Health Potion".to_string(),
        hp: 0,
        renderable: Some(Renderable { glyph: "!".to_string(), fg: "#FF00FF".to_string(), bg: "#000000".to_string(), order: 2 }),
        consumable: Some(Consumable { effects }),
    };
    assert_eq!(item.renderable.as_ref().map(|r| r.order), Some(2));
    assert_eq!(item.consumable.as_ref().unwrap().effects.get("provides_healing").map(|s| s.as_str()), Some("8"));
}
