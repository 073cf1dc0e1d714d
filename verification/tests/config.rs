use alien_archive::editor::config::{EditorConfig, RECENT_MAP_LIMIT};

fn labels(config: &EditorConfig) -> Vec<&str> {
    config.recent_maps.iter().map(String::as_str).collect()
}

#[test]
fn editor_config_defaults_to_chinese_without_recent_maps() {
    let config = EditorConfig::default();
    assert!(config.recent_maps.is_empty());
    assert_eq!(config.language, "zh-Hans");
}

#[test]
fn opening_a_map_moves_it_to_the_front_once() {
    let mut config = EditorConfig::default();
    config.push_recent_map("maps/a.ron");
    config.push_recent_map("maps/b.ron");
    config.push_recent_map("maps/a.ron");
    assert_eq!(labels(&config), vec!["maps/a.ron", "maps/b.ron"]);
    assert_eq!(config.language, "zh-Hans");
}

#[test]
fn recent_maps_keep_only_the_newest_ten() {
    let mut config = EditorConfig::default();
    for i in 0..12 {
        config.push_recent_map(&format!("maps/{i}.ron"));
    }
    assert_eq!(config.recent_maps.len(), RECENT_MAP_LIMIT);
    assert_eq!(config.recent_maps[0], "maps/11.ron");
    assert_eq!(config.recent_maps[9], "maps/2.ron");
}

#[test]
fn forgetting_a_map_removes_every_mention() {
    let mut config = EditorConfig::default();
    config.recent_maps = vec!["a".to_owned(), "b".to_owned(), "a".to_owned()];
    config.forget_recent_map("a");
    assert_eq!(labels(&config), vec!["b"]);
    config.forget_recent_map("missing");
    assert_eq!(labels(&config), vec!["b"]);
}
