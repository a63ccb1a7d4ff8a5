use scrybe_core::sample::Sample;
use scrybe_core::types::{
    AdvancedSettings, AppState, InternalState, OverlayConfig, WebsocketRequest,
    WebsocketResponse, DEFAULT_AUDIO_STEP_SIZE,
};
use scrybe_core::model::{
    find_model_file, setup_whisper_manager, ModelCandidate, ModelSource, DEFAULT_MODEL_FILE,
    DEFAULT_MODEL_REPO,
};
use scrybe_core::window::{RolloverPolicy, WindowSettings};
use scrybe_core::ws::{
    state_kind, RequestAction, StateKind, StateSyncer, StateValue, WebsocketManager,
};

fn manager() -> WebsocketManager {
    WebsocketManager::new(StateSyncer::new(AppState::default(), InternalState::default()))
}

fn app_with_model(path: &str) -> AppState {
    AppState { model_path: path.to_string(), ..AppState::default() }
}

fn request(kind: &str) -> Option<WebsocketRequest> {
    Some(WebsocketRequest { kind: kind.to_string(), data: String::new() })
}

fn strings(items: &[&str]) -> Vec<String> {
    items.iter().map(|s| s.to_string()).collect()
}

#[test]
fn app_state_default() {
    let s = AppState::default();
    assert_eq!(s.current_device.name, "default");
    assert_eq!(s.current_device.id, "");
    assert_eq!(s.audio_format.name, "");
    assert_eq!(s.model_path, "");
    assert_eq!(s.audio_segment_size, 15);
    assert_eq!(s.overlay_config, OverlayConfig::default());
    assert_eq!(s.whisper_params.language, "auto");
    assert_eq!(s.advanced_settings, AdvancedSettings::default());
    assert_eq!(s.clone(), s);
}

#[test]
fn advanced_settings_default() {
    let a = AdvancedSettings::default();
    assert_eq!(a.rollover_policy, RolloverPolicy::Discard);
    assert_eq!(a.silence_threshold.bits, 0.01f32.to_bits());
    assert_eq!(a.min_window_samples, 4000);
}

#[test]
fn window_settings_come_from_the_configuration() {
    assert_eq!(AppState::default().window_settings(), WindowSettings::default());
    let state = AppState {
        audio_segment_size: 30,
        advanced_settings: AdvancedSettings {
            rollover_policy: RolloverPolicy::RetainTail { samples: 8000 },
            silence_threshold: Sample::from_bits(0.05f32.to_bits()),
            min_window_samples: 16000,
        },
        ..AppState::default()
    };
    assert_eq!(
        state.window_settings(),
        WindowSettings {
            segment_secs: 30,
            min_samples: 16000,
            threshold: Sample::from_bits(0.05f32.to_bits()),
            policy: RolloverPolicy::RetainTail { samples: 8000 },
        }
    );
}

#[test]
fn overlay_default() {
    let o = OverlayConfig::default();
    assert_eq!(o.name, "default");
    assert_eq!(o.id, "");
    assert_eq!(o.text_alignment, "center");
    assert_eq!(o.background_color, "#030712");
    assert_eq!(o.transparency, 75);
    assert_eq!(o.font_size, 16);
}

#[test]
fn internal_state_default() {
    let s = InternalState::default();
    assert!(!s.transcribe_running);
    assert_eq!(s.audio_step_size, 500);
    assert_eq!(DEFAULT_AUDIO_STEP_SIZE, 500);
    assert_eq!(s.version, "");
    assert_eq!(s.name, "");
}

#[test]
fn envelopes_default() {
    let r = WebsocketRequest::default();
    assert_eq!((r.kind.as_str(), r.data.as_str()), ("", ""));
    let r = WebsocketResponse::default();
    assert_eq!((r.kind.as_str(), r.data.as_str(), r.is_error), ("", "", false));
}

#[test]
fn names_of_the_documents() {
    assert_eq!(state_kind(&"app_state".to_string()), Some(StateKind::AppState));
    assert_eq!(state_kind(&"internal_state".to_string()), Some(StateKind::InternalState));
    assert_eq!(state_kind(&"".to_string()), None);
    assert_eq!(state_kind(&"App_State".to_string()), None);
    assert_eq!(StateKind::AppState.event_name(), "app_state_update");
    assert_eq!(StateKind::InternalState.event_name(), "internal_state_update");
}

#[test]
fn store_starts_uncounted() {
    let store = StateSyncer::new(app_with_model("m.bin"), InternalState::default());
    assert_eq!(store.version(), 0);
    assert_eq!(store.snapshot_app_state(), app_with_model("m.bin"));
    assert_eq!(store.snapshot_internal_state(), InternalState::default());
}

#[test]
fn store_update_supersedes_and_counts() {
    let mut store = StateSyncer::new(AppState::default(), InternalState::default());
    store.update(StateValue::App(app_with_model("a.bin")));
    assert_eq!(store.version(), 1);
    assert_eq!(store.snapshot_app_state(), app_with_model("a.bin"));
    assert_eq!(store.snapshot_internal_state(), InternalState::default());
    let flags = InternalState { audio_step_size: 250, ..InternalState::default() };
    store.update(StateValue::Internal(flags.clone()));
    assert_eq!(store.version(), 2);
    assert_eq!(store.snapshot_internal_state(), flags);
    assert_eq!(store.snapshot_app_state(), app_with_model("a.bin"));
}

#[test]
fn model_change_is_detected() {
    let store = StateSyncer::new(app_with_model("a.bin"), InternalState::default());
    assert!(!store.model_changed(&app_with_model("a.bin")));
    assert!(store.model_changed(&app_with_model("b.bin")));
    assert!(store.model_changed(&app_with_model("")));
}

#[test]
fn start_is_refused_while_running() {
    let mut store = StateSyncer::new(AppState::default(), InternalState::default());
    assert!(!store.get_transcribe_running());
    assert_eq!(store.start_transcribe(), Ok(()));
    assert!(store.get_transcribe_running());
    assert_eq!(store.start_transcribe(), Err(()));
    assert!(store.get_transcribe_running());
    store.stop_transcribe();
    assert!(!store.get_transcribe_running());
    store.stop_transcribe();
    assert!(!store.get_transcribe_running());
    assert_eq!(store.start_transcribe(), Ok(()));
    assert_eq!(store.version(), 0);
}

#[test]
fn hub_start_and_stop() {
    let mut m = manager();
    m.register("a".to_string());
    assert_eq!(m.start_transcribe(), Ok(()));
    assert!(m.store().get_transcribe_running());
    assert_eq!(m.start_transcribe(), Err(()));
    m.stop_transcribe();
    assert!(!m.store().get_transcribe_running());
    assert_eq!(m.start_transcribe(), Ok(()));
    assert_eq!(m.store().version(), 0);
    assert!(m.take_outbox(&"a".to_string()).is_empty());
}

#[test]
fn model_source() {
    assert_eq!(DEFAULT_MODEL_REPO, "ggerganov/whisper.cpp");
    assert_eq!(DEFAULT_MODEL_FILE, "ggml-small-q8_0.bin");
    assert_eq!(setup_whisper_manager(&"".to_string()), ModelSource::Default);
    assert_eq!(
        setup_whisper_manager(&"models/x.bin".to_string()),
        ModelSource::Path("models/x.bin".to_string())
    );
}

#[test]
fn first_bin_file_is_the_model() {
    let candidate = |path: &str, is_file: bool, extension: Option<&str>| ModelCandidate {
        path: path.to_string(),
        is_file,
        extension: extension.map(|e| e.to_string()),
    };
    let entries = vec![
        candidate("models/readme", true, None),
        candidate("models/old.bin", false, Some("bin")),
        candidate("models/a.txt", true, Some("txt")),
        candidate("models/a.bin", true, Some("bin")),
        candidate("models/b.bin", true, Some("bin")),
    ];
    assert_eq!(find_model_file(&entries), Some(3));
    assert_eq!(find_model_file(&entries[..3].iter().map(|c| ModelCandidate {
        path: c.path.clone(),
        is_file: c.is_file,
        extension: c.extension.clone(),
    }).collect()), None);
    assert_eq!(find_model_file(&Vec::new()), None);
    assert_eq!(find_model_file(&vec![candidate("x.BIN", true, Some("BIN"))]), None);
}

#[test]
fn clients_connect_under_fresh_ids() {
    let mut m = manager();
    let a = m.client_connection();
    let b = m.client_connection();
    assert_eq!(a.chars().count(), 32);
    assert!(a.chars().all(|c| c.is_ascii_hexdigit()));
    assert_ne!(a, b);
    assert_eq!(m.client_count(), 2);
    assert_eq!(m.position(&a), 0);
    assert_eq!(m.position(&b), 1);
    assert_eq!(m.position(&"nobody".to_string()), 2);
}

#[test]
fn register_supersedes_a_client_with_the_same_id() {
    let mut m = manager();
    m.register("a".to_string());
    m.register("b".to_string());
    m.broadcast("one".to_string());
    m.register("a".to_string());
    assert_eq!(m.client_count(), 2);
    assert_eq!(m.position(&"a".to_string()), 0);
    assert!(m.take_outbox(&"a".to_string()).is_empty());
    assert_eq!(m.take_outbox(&"b".to_string()), strings(&["one"]));
}

#[test]
fn disconnect_removes_only_that_client() {
    let mut m = manager();
    m.register("a".to_string());
    m.register("b".to_string());
    m.register("c".to_string());
    m.broadcast("one".to_string());
    m.disconnect(&"b".to_string());
    m.disconnect(&"nobody".to_string());
    assert_eq!(m.client_count(), 2);
    assert_eq!(m.position(&"a".to_string()), 0);
    assert_eq!(m.position(&"c".to_string()), 1);
    m.broadcast("two".to_string());
    assert_eq!(m.take_outbox(&"a".to_string()), strings(&["one", "two"]));
    assert_eq!(m.take_outbox(&"c".to_string()), strings(&["one", "two"]));
    assert!(m.take_outbox(&"b".to_string()).is_empty());
}

#[test]
fn broadcast_without_clients_is_harmless() {
    let mut m = manager();
    m.broadcast("one".to_string());
    assert_eq!(m.client_count(), 0);
}

#[test]
fn outbox_is_handed_out_oldest_first_and_emptied() {
    let mut m = manager();
    m.register("a".to_string());
    m.broadcast("one".to_string());
    m.broadcast("two".to_string());
    assert!(m.send_to(&"a".to_string(), "three".to_string()));
    assert!(!m.send_to(&"b".to_string(), "three".to_string()));
    assert_eq!(m.take_outbox(&"a".to_string()), strings(&["one", "two", "three"]));
    assert!(m.take_outbox(&"a".to_string()).is_empty());
    m.broadcast("four".to_string());
    assert_eq!(m.take_outbox(&"a".to_string()), strings(&["four"]));
}

#[test]
fn requests_are_classified() {
    assert_eq!(
        WebsocketManager::handle_websocket_message(&request("get_appstate")),
        RequestAction::SendAppState
    );
    assert_eq!(
        WebsocketManager::handle_websocket_message(&request("")),
        RequestAction::MissingKind
    );
    assert_eq!(
        WebsocketManager::handle_websocket_message(&request("set_appstate")),
        RequestAction::UnknownKind
    );
    assert_eq!(WebsocketManager::handle_websocket_message(&None), RequestAction::Malformed);
}

#[test]
fn envelope_of_a_payload() {
    assert_eq!(
        WebsocketManager::to_ws_response("app_state_update".to_string(), Ok("{}".to_string())),
        WebsocketResponse {
            kind: "app_state_update".to_string(),
            data: "{}".to_string(),
            is_error: false
        }
    );
    assert_eq!(
        WebsocketManager::to_ws_response("k".to_string(), Err("no".to_string())),
        WebsocketResponse { kind: "k".to_string(), data: "no".to_string(), is_error: true }
    );
}

#[test]
fn update_is_refused_for_unknown_names_and_unread_values() {
    let mut m = manager();
    m.register("a".to_string());
    let app = || Some(StateValue::App(app_with_model("x.bin")));
    let flags = || Some(StateValue::Internal(InternalState::default()));
    assert!(!m.update_state(&"other".to_string(), app(), Some("msg".to_string())));
    assert!(!m.update_state(&"app_state".to_string(), None, Some("msg".to_string())));
    assert!(!m.update_state(&"app_state".to_string(), flags(), Some("msg".to_string())));
    assert!(!m.update_state(&"internal_state".to_string(), app(), Some("msg".to_string())));
    assert_eq!(m.store().version(), 0);
    assert_eq!(m.store().snapshot_app_state(), AppState::default());
    assert!(m.take_outbox(&"a".to_string()).is_empty());
}

#[test]
fn every_applied_update_raises_the_version() {
    let mut m = manager();
    let mut last = m.store().version();
    for i in 0..5 {
        let name = if i % 2 == 0 { "app_state" } else { "internal_state" };
        let value = if i % 2 == 0 {
            StateValue::App(app_with_model(&format!("{}.bin", i)))
        } else {
            StateValue::Internal(InternalState { audio_step_size: i, ..InternalState::default() })
        };
        assert!(m.update_state(&name.to_string(), Some(value), None));
        assert!(m.store().version() > last);
        last = m.store().version();
    }
    assert_eq!(last, 5);
    assert_eq!(m.store().snapshot_app_state(), app_with_model("4.bin"));
    assert_eq!(m.store().snapshot_internal_state().audio_step_size, 3);
}

#[test]
fn an_older_value_still_wins_when_written_last() {
    let mut m = manager();
    assert!(m.update_state(
        &"app_state".to_string(),
        Some(StateValue::App(app_with_model("new.bin"))),
        None
    ));
    assert!(m.update_state(
        &"app_state".to_string(),
        Some(StateValue::App(app_with_model("old.bin"))),
        None
    ));
    assert_eq!(m.store().snapshot_app_state(), app_with_model("old.bin"));
    assert_eq!(m.store().version(), 2);
}

#[test]
fn two_subscribers_get_the_same_update() {
    let mut m = manager();
    let a = m.client_connection();
    let b = m.client_connection();
    let next = app_with_model("x.bin");
    let payload = "{\"model_path\":\"x.bin\"}".to_string();
    let envelope =
        WebsocketManager::to_ws_response(StateKind::AppState.event_name(), Ok(payload.clone()));
    assert_eq!(envelope.kind, "app_state_update");
    assert_eq!(envelope.data, payload);
    let message = format!("{}|{}|{}", envelope.kind, envelope.data, envelope.is_error);
    assert!(m.update_state(
        &"app_state".to_string(),
        Some(StateValue::App(next.clone())),
        Some(message.clone())
    ));
    let to_a = m.take_outbox(&a);
    let to_b = m.take_outbox(&b);
    assert_eq!(to_a, vec![message]);
    assert_eq!(to_a, to_b);
    assert_eq!(m.store().snapshot_app_state(), next);
}

#[test]
fn subscribers_see_updates_in_the_order_applied() {
    let mut m = manager();
    m.register("a".to_string());
    m.broadcast("before".to_string());
    m.register("b".to_string());
    for i in 0..4u64 {
        let value = StateValue::Internal(InternalState {
            audio_step_size: i,
            ..InternalState::default()
        });
        assert!(m.update_state(
            &"internal_state".to_string(),
            Some(value),
            Some(format!("update {}", i))
        ));
    }
    assert_eq!(
        m.take_outbox(&"a".to_string()),
        strings(&["before", "update 0", "update 1", "update 2", "update 3"])
    );
    assert_eq!(
        m.take_outbox(&"b".to_string()),
        strings(&["update 0", "update 1", "update 2", "update 3"])
    );
}

#[test]
fn update_without_announcement_is_still_applied() {
    let mut m = manager();
    m.register("a".to_string());
    assert!(m.update_state(
        &"app_state".to_string(),
        Some(StateValue::App(app_with_model("x.bin"))),
        None
    ));
    assert_eq!(m.store().version(), 1);
    assert!(m.take_outbox(&"a".to_string()).is_empty());
}
