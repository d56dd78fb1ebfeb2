use visual::params::ParamsData;
use visual::scene::{SceneState, HAT_THRESHOLD_MS, KICK_THRESHOLD_MS, SNARE_THRESHOLD_MS};

#[test]
fn scene_starts_inactive() {
    let s = SceneState::new(KICK_THRESHOLD_MS);
    assert!(!s.active);
    assert_eq!(s.elapsed_ms, 0);
    assert_eq!(s.threshold_ms, 500);
}

#[test]
fn scene_invoke_resets_elapsed() {
    let mut s = SceneState::new(100);
    s.invoke();
    s.update(60);
    assert!(s.active);
    assert_eq!(s.elapsed_ms, 60);
    s.invoke();
    assert!(s.active);
    assert_eq!(s.elapsed_ms, 0);
}

#[test]
fn scene_auto_stops_past_threshold() {
    let mut s = SceneState::new(SNARE_THRESHOLD_MS);
    s.invoke();
    s.update(60);
    assert!(s.active);
    s.update(50);
    assert!(!s.active);
    assert_eq!(s.elapsed_ms, 0);
}

#[test]
fn scene_exactly_threshold_still_active() {
    let mut s = SceneState::new(100);
    s.invoke();
    s.update(100);
    assert!(s.active);
    assert_eq!(s.elapsed_ms, 100);
    s.update(1);
    assert!(!s.active);
}

#[test]
fn scene_single_large_update_stops() {
    let mut s = SceneState::new(HAT_THRESHOLD_MS);
    s.invoke();
    s.update(u64::MAX);
    assert!(!s.active);
    assert_eq!(s.elapsed_ms, 0);
}

#[test]
fn scene_inactive_update_changes_nothing() {
    let mut s = SceneState::new(100);
    s.update(1000);
    assert!(!s.active);
    assert_eq!(s.elapsed_ms, 0);
    let copy = s;
    s.update(u64::MAX);
    assert_eq!(s, copy);
}

#[test]
fn scene_stop_resets() {
    let mut s = SceneState::new(100);
    s.invoke();
    s.update(40);
    s.stop();
    assert!(!s.active);
    assert_eq!(s.elapsed_ms, 0);
}

#[test]
fn scene_key_debounce_fires_once() {
    let mut s = SceneState::new(100);
    assert!(s.key_pressed());
    assert!(s.active);
    assert!(!s.key_pressed());
    assert!(!s.key_pressed());
    s.key_released();
    assert!(s.key_pressed());
}

#[test]
fn scene_params_update_applies() {
    let mut s = SceneState::new(100);
    s.on_params_update(ParamsData::new(String::from("size = 42.5\n")));
    assert_eq!(s.params.size_bits, (42.5f64).to_bits());
}

#[test]
fn scene_params_update_bad_document_keeps_old() {
    let mut s = SceneState::new(100);
    s.on_params_update(ParamsData::new(String::from("size = 42.5\n")));
    s.on_params_update(ParamsData::new(String::from("size = [not toml")));
    assert_eq!(s.params.size_bits, (42.5f64).to_bits());
    s.on_params_update(ParamsData::new(String::from("other = 1.0\n")));
    assert_eq!(s.params.size_bits, (42.5f64).to_bits());
}
