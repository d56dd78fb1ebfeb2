use visual::manager::{SceneBuilder, SceneManager};
use visual::params::{reload_wanted, ParamsData, WatchEventKind};
use visual::sound::DirtSound;

const KEY_B: u32 = 66;
const KEY_S: u32 = 83;

fn two_scenes() -> SceneManager {
    SceneManager::new(vec![
        SceneBuilder::new(500).dirt_sound("bd").key(KEY_B).build(),
        SceneBuilder::new(100)
            .dirt_sound("sn")
            .key(KEY_S)
            .param_file("snare.toml")
            .build(),
    ])
}

#[test]
fn registry_build_carries_bindings() {
    let scenes = two_scenes();
    assert_eq!(scenes.scene_count(), 2);
    let snare = scenes.scene_at(1);
    assert_eq!(snare.instance.threshold_ms, 100);
    assert_eq!(snare.keys, vec![KEY_S]);
    assert_eq!(snare.param_file, Some(String::from("snare.toml")));
    assert!(!snare.instance.active);
}

#[test]
fn registry_find_by_sound_and_key() {
    let scenes = two_scenes();
    assert_eq!(scenes.find_by_sound(&DirtSound::new("bd")), Some(0));
    assert_eq!(scenes.find_by_sound(&DirtSound::new("sn")), Some(1));
    assert_eq!(scenes.find_by_sound(&DirtSound::new("xx")), None);
    assert_eq!(scenes.find_by_key(KEY_B), Some(0));
    assert_eq!(scenes.find_by_key(999), None);
    assert!(scenes.get_by_dirt_sound(&DirtSound::new("sn")).is_some());
    assert!(scenes.get_by_key(KEY_B).is_some());
    assert!(scenes.get_by_key(999).is_none());
}

#[test]
fn registry_duplicate_sound_first_registered_wins() {
    let mut scenes = SceneManager::new(vec![
        SceneBuilder::new(500).dirt_sound("bd").build(),
        SceneBuilder::new(100).dirt_sound("bd").build(),
    ]);
    scenes.dispatch_trigger(&DirtSound::new("bd"));
    assert!(scenes.scene_at(0).instance.active);
    assert!(!scenes.scene_at(1).instance.active);
}

#[test]
fn registry_dispatch_unbound_trigger_is_noop() {
    let mut scenes = two_scenes();
    scenes.dispatch_trigger(&DirtSound::new("nothing"));
    for i in 0..scenes.scene_count() {
        assert!(!scenes.scene_at(i).instance.active);
        assert_eq!(scenes.scene_at(i).instance.elapsed_ms, 0);
        assert_eq!(scenes.scene_at(i).instance.key_counter, 0);
    }
}

#[test]
fn registry_invoke_and_stop_all() {
    let mut scenes = two_scenes();
    scenes.invoke_all();
    assert!(scenes.scene_at(0).instance.active);
    assert!(scenes.scene_at(1).instance.active);
    scenes.stop_all();
    assert!(!scenes.scene_at(0).instance.active);
    assert!(!scenes.scene_at(1).instance.active);
}

#[test]
fn registry_update_all_advances_each_scene() {
    let mut scenes = two_scenes();
    scenes.dispatch_trigger(&DirtSound::new("bd"));
    scenes.update_all(80);
    assert!(scenes.scene_at(0).instance.active);
    assert_eq!(scenes.scene_at(0).instance.elapsed_ms, 80);
    assert!(!scenes.scene_at(1).instance.active);
    assert_eq!(scenes.scene_at(1).instance.elapsed_ms, 0);
}

#[test]
fn registry_key_dispatch_debounces() {
    let mut scenes = two_scenes();
    assert_eq!(scenes.dispatch_key_pressed(KEY_S), Some(true));
    assert!(scenes.scene_at(1).instance.active);
    assert_eq!(scenes.dispatch_key_pressed(KEY_S), Some(false));
    scenes.dispatch_key_released(KEY_S);
    assert_eq!(scenes.dispatch_key_pressed(KEY_S), Some(true));
    assert_eq!(scenes.dispatch_key_pressed(12345), None);
}

#[test]
fn registry_add_scene_appends() {
    let mut scenes = two_scenes();
    scenes.add_scene(SceneBuilder::new(100).dirt_sound("hc").build());
    assert_eq!(scenes.scene_count(), 3);
    assert_eq!(scenes.find_by_sound(&DirtSound::new("hc")), Some(2));
}

#[test]
fn registry_params_reload_round_trip() {
    let mut scenes = two_scenes();
    // The host's watcher reports a modification of the snare's document
    // and hands over the newly read text.
    let kind = WatchEventKind::Modified;
    assert!(reload_wanted(kind));
    let text = String::from("size = 120.5\n");
    scenes.on_params_update_at(1, ParamsData::new(text));
    // The new values are visible from the next registry update on.
    scenes.update_all(16);
    assert_eq!(scenes.scene_at(1).instance.params.size_bits, (120.5f64).to_bits());
    assert_eq!(scenes.scene_at(0).instance.params.size_bits, 0);
}

#[test]
fn registry_params_reload_bad_text_keeps_previous() {
    let mut scenes = two_scenes();
    scenes.on_params_update_at(1, ParamsData::new(String::from("size = 7.25\n")));
    scenes.on_params_update_at(1, ParamsData::new(String::from("= broken =")));
    scenes.update_all(16);
    assert_eq!(scenes.scene_at(1).instance.params.size_bits, (7.25f64).to_bits());
}

#[test]
fn registry_metadata_event_not_reloaded() {
    assert!(!reload_wanted(WatchEventKind::Other));
}
