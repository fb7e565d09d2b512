//! Binding-table lookups and validation.

use apcdeck::config::{
    AudioBinding, DeckBindings, DeckConfig, SceneBinding, SourceBinding,
};

fn table() -> DeckConfig {
    DeckConfig {
        bindings: DeckBindings {
            audio: vec![
                AudioBinding { slider: 0, name: "Mic".to_string() },
                AudioBinding { slider: 3, name: "Desktop".to_string() },
            ],
            scenes: vec![
                SceneBinding { button: 5, name: "Intro".to_string() },
                SceneBinding { button: 6, name: "Main".to_string() },
            ],
            sources: vec![
                SourceBinding { button: 10, name: "Camera".to_string() },
            ],
        },
    }
}

#[test]
fn lookups_find_bound_identifiers() {
    let c = table();
    assert_eq!(c.get_button_by_scene("Intro".to_string()), Some(5));
    assert_eq!(c.get_button_by_scene("Main".to_string()), Some(6));
    assert_eq!(c.get_scene_by_button(5), Some("Intro".to_string()));
    assert_eq!(c.get_scene_by_button(6), Some("Main".to_string()));
    assert_eq!(c.get_audiosource_by_slider(0), Some("Mic".to_string()));
    assert_eq!(c.get_audiosource_by_slider(3), Some("Desktop".to_string()));
    assert_eq!(c.get_source_by_button(10), Some("Camera".to_string()));
}

#[test]
fn lookups_miss_unbound_identifiers() {
    let c = table();
    assert_eq!(c.get_button_by_scene("Credits".to_string()), None);
    assert_eq!(c.get_scene_by_button(10), None);
    assert_eq!(c.get_audiosource_by_slider(1), None);
    assert_eq!(c.get_source_by_button(5), None);
}

#[test]
fn first_match_wins_on_duplicate_names() {
    let c = DeckConfig {
        bindings: DeckBindings {
            audio: vec![],
            scenes: vec![
                SceneBinding { button: 1, name: "Twin".to_string() },
                SceneBinding { button: 2, name: "Twin".to_string() },
            ],
            sources: vec![],
        },
    };
    assert_eq!(c.get_button_by_scene("Twin".to_string()), Some(1));
}

#[test]
fn a_well_formed_table_is_accepted() {
    assert!(table().is_valid());
    let empty = DeckConfig {
        bindings: DeckBindings { audio: vec![], scenes: vec![], sources: vec![] },
    };
    assert!(empty.is_valid());
}

#[test]
fn out_of_range_identifiers_are_rejected() {
    let mut c = table();
    c.bindings.scenes.push(SceneBinding { button: 64, name: "High".to_string() });
    assert!(!c.is_valid());
    let mut c = table();
    c.bindings.sources.push(SourceBinding { button: 200, name: "High".to_string() });
    assert!(!c.is_valid());
    let mut c = table();
    c.bindings.audio.push(AudioBinding { slider: 10, name: "High".to_string() });
    assert!(!c.is_valid());
}

#[test]
fn duplicate_identifiers_are_rejected() {
    let mut c = table();
    c.bindings.scenes.push(SceneBinding { button: 5, name: "Again".to_string() });
    assert!(!c.is_valid());
    let mut c = table();
    c.bindings.audio.push(AudioBinding { slider: 3, name: "Again".to_string() });
    assert!(!c.is_valid());
}

#[test]
fn a_button_in_two_namespaces_is_rejected() {
    let mut c = table();
    c.bindings.sources.push(SourceBinding { button: 5, name: "Clash".to_string() });
    assert!(!c.is_valid());
}
