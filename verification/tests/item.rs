use typegin_core::world::item::{Item, ItemData, ItemId, ItemInfo, ItemResolution};

fn item(id: i32, name: &str, aliases: &[&str]) -> Item {
    Item::from_data(&ItemData {
        id,
        primary_name: name.to_string(),
        aliases: aliases.iter().map(|a| a.to_string()).collect(),
    })
}

#[test]
fn item_id_converts_both_ways() {
    let id = ItemId::from(7);
    assert_eq!(id, ItemId::new(7));
    assert_eq!(id.get(), 7);
    assert_eq!(i32::from(id), 7);
}

#[test]
fn item_answers_to_its_primary_name_and_aliases() {
    let lamp = item(1, "lamp", &["lantern", "oil lamp"]);
    assert!(lamp.has_name("lamp"));
    assert!(lamp.has_name("lantern"));
    assert!(lamp.has_name("oil lamp"));
    assert!(!lamp.has_name("oil"));
    assert!(!lamp.has_name("lantern;oil lamp"));
}

#[test]
fn item_without_aliases_answers_to_the_empty_name() {
    let rock = item(2, "rock", &[]);
    assert!(rock.has_name("rock"));
    assert!(rock.has_name(""));
}

#[test]
fn resolve_item_by_name_finds_one_item() {
    let items = vec![item(1, "lamp", &["light"]), item(2, "rock", &[])];
    assert_eq!(Item::resolve_item_by_name(&items, "light"), ItemResolution::Found(ItemId::new(1)));
}

#[test]
fn resolve_item_by_name_reports_every_match_when_ambiguous() {
    let items = vec![item(1, "red key", &["key"]), item(2, "rock", &[]), item(3, "blue key", &["key"])];
    assert_eq!(
        Item::resolve_item_by_name(&items, "key"),
        ItemResolution::Ambiguous { ids: vec![ItemId::new(1), ItemId::new(3)], alias: "key".to_string() }
    );
}

#[test]
fn resolve_item_by_name_reports_no_match() {
    let items = vec![item(1, "lamp", &[])];
    assert_eq!(Item::resolve_item_by_name(&items, "sword"), ItemResolution::NotFound);
}

#[test]
fn item_info_drops_empty_aliases() {
    let info = ItemInfo::from_item(&item(4, "coin", &["", "gold coin", ""]));
    assert_eq!(info.id, ItemId::new(4));
    assert_eq!(info.name, "coin");
    assert_eq!(info.aliases, vec!["gold coin".to_string()]);
}
