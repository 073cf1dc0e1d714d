use alien_archive::assets::{AnchorKind, AssetDatabase, AssetDefinition, AssetKind, SnapMode};
use alien_archive::editor::asset_registry::AssetRegistry;
use alien_archive::map::LayerKind;

fn definition(id: &str, category: &str, path: &str) -> AssetDefinition {
    AssetDefinition {
        id: id.to_owned(),
        category: category.to_owned(),
        path: path.to_owned(),
        kind: AssetKind::Object,
        default_layer: LayerKind::Objects,
        default_size_bits: [64.0f32.to_bits(), 32.0f32.to_bits()],
        footprint: None,
        anchor: AnchorKind::BottomCenter,
        snap: SnapMode::Grid,
        tags: vec!["props".to_owned()],
        entity_type: None,
        codex_id: Some("codex.rock".to_owned()),
    }
}

fn registry() -> AssetRegistry {
    let mut database = AssetDatabase::new("Overworld");
    database.assets = vec![
        definition("rock", "props", "sprites\\props\\rock.png"),
        definition("grass", "ground", "sprites/ground/grass.png"),
        definition("crate", "props", "sprites/props/crate.png"),
        definition("dirt", "ground", "sprites/ground/dirt.png"),
        definition("crate", "props", "sprites/props/crate_b.png"),
    ];
    AssetRegistry::from_database(database)
}

#[test]
fn registry_sorts_by_category_then_id_keeping_catalogue_order_among_equals() {
    let registry = registry();
    let listed: Vec<(&str, &str, &str)> = registry
        .assets()
        .iter()
        .map(|entry| (entry.category.as_str(), entry.id.as_str(), entry.relative_path.as_str()))
        .collect();
    assert_eq!(
        listed,
        vec![
            ("ground", "dirt", "sprites/ground/dirt.png"),
            ("ground", "grass", "sprites/ground/grass.png"),
            ("props", "crate", "sprites/props/crate.png"),
            ("props", "crate", "sprites/props/crate_b.png"),
            ("props", "rock", "sprites/props/rock.png"),
        ]
    );
    let rock = registry.get("rock").unwrap();
    assert_eq!(rock.default_size_bits, [64.0f32.to_bits(), 32.0f32.to_bits()]);
    assert_eq!(rock.codex_id.as_deref(), Some("codex.rock"));
    assert_eq!(rock.tags, vec!["props".to_owned()]);
}

#[test]
fn registry_lookups() {
    let registry = registry();
    assert_eq!(registry.get("crate").map(|entry| entry.relative_path.as_str()), Some("sprites/props/crate.png"));
    assert!(registry.get("missing").is_none());
    assert!(registry.contains_path("sprites/props/rock.png"));
    assert!(!registry.contains_path("sprites\\props\\rock.png"));
    assert_eq!(registry.categories(), vec!["ground", "props"]);
    let props: Vec<&str> = registry.in_category("props").iter().map(|entry| entry.id.as_str()).collect();
    assert_eq!(props, vec!["crate", "crate", "rock"]);
    assert!(registry.in_category("none").is_empty());
    assert!(AssetRegistry::default().assets().is_empty());
}
