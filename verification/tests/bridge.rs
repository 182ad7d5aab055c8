use tauriless::bridge::{
    encode_batch, forwarded_event_names, validate, IdKind, Outbox, Request, Route, Tauriless,
    CREATE_WEBVIEW_WINDOW_COMMAND, SET_APP_USER_MODEL_ID_COMMAND, TAURILESS_ERROR, TAURILESS_INVALID_ARGUMENT,
    TAURILESS_OK, TAURILESS_PANIC,
};
use tauriless::data_dir::DEFAULT_IDENTIFIER;
use tauriless::error::Error;
use tauriless::events::{EventSubscriptions, SUBSCRIBE_COMMAND};

fn request(id: IdKind, cmd: &str, webview: Option<&str>) -> Request {
    Request { id, cmd: cmd.to_string(), webview: webview.map(|w| w.to_string()) }
}

#[test]
fn request_validation_is_small_and_explicit() {
    let request = request(IdKind::Number, "plugin:app|name", None);
    validate(&request).unwrap();
}

#[test]
fn rejects_requests_without_callback_id() {
    let request = request(IdKind::Other, "plugin:app|name", None);
    assert!(validate(&request).is_err());
}

#[test]
fn forwarded_tauri_commands_require_webview_creation_without_a_context() {
    let rejected = request(IdKind::Number, "plugin:app|name", None);
    assert_ne!(rejected.cmd, CREATE_WEBVIEW_WINDOW_COMMAND);

    let accepted = request(IdKind::Number, "plugin:webview|create_webview_window", None);
    assert_eq!(accepted.cmd, CREATE_WEBVIEW_WINDOW_COMMAND);

    let runtime = Tauriless::new();
    match runtime.send(true, Ok(rejected)) {
        Err(Error::Request(message)) => assert_eq!(
            message,
            "no webview exists; the first command must be `plugin:webview|create_webview_window`"
        ),
        other => panic!("unexpected outcome {other:?}"),
    }
    assert_eq!(runtime.send(true, Ok(accepted)).unwrap(), Route::CreateWebviewWindow);
}

#[test]
fn bridge_can_drain_before_tauri_app_is_built() {
    let mut runtime = Tauriless::new();
    assert!(!runtime.app_built());
    runtime.begin_drain(true).unwrap();
    let bytes = runtime.finish_drain(&Vec::new());
    let value: serde_json::Value = serde_json::from_slice(&bytes).unwrap();
    assert!(value["messages"].as_array().unwrap().is_empty());
    assert_eq!(bytes, b"{\"messages\":[]}");
}

#[test]
fn default_identifier_is_tauriless() {
    assert_eq!(DEFAULT_IDENTIFIER, "Tauriless");
}

#[test]
fn validation_names_each_problem() {
    match validate(&request(IdKind::Text, "", None)) {
        Err(Error::Request(m)) => assert_eq!(m, "cmd must not be empty"),
        other => panic!("unexpected outcome {other:?}"),
    }
    match validate(&request(IdKind::Other, "x", None)) {
        Err(Error::Request(m)) => assert_eq!(m, "id must be a string or number"),
        other => panic!("unexpected outcome {other:?}"),
    }
    match validate(&request(IdKind::Text, "x", Some(""))) {
        Err(Error::Request(m)) => assert_eq!(m, "webview must not be empty when provided"),
        other => panic!("unexpected outcome {other:?}"),
    }
    assert!(validate(&request(IdKind::Text, "x", Some("main"))).is_ok());
}

#[test]
fn requests_are_routed_by_command() {
    let mut runtime = Tauriless::new();
    let route = |runtime: &Tauriless, cmd: &str| runtime.send(true, Ok(request(IdKind::Text, cmd, None)));
    assert_eq!(route(&runtime, SET_APP_USER_MODEL_ID_COMMAND).unwrap(), Route::SetAppUserModelId);
    assert_eq!(route(&runtime, "tauriless:asset-response").unwrap(), Route::AssetResponse);
    assert_eq!(route(&runtime, SUBSCRIBE_COMMAND).unwrap(), Route::EventSubscription);
    assert_eq!(route(&runtime, "tauriless:unsubscribe").unwrap(), Route::EventSubscription);
    runtime.mark_app_built();
    assert_eq!(route(&runtime, "plugin:app|name").unwrap(), Route::Forward);
}

#[test]
fn unreadable_json_and_foreign_threads_are_refused() {
    let runtime = Tauriless::new();
    match runtime.send(false, Ok(request(IdKind::Text, "x", None))) {
        Err(e @ Error::WrongThread) => {
            assert_eq!(e.message(), "the runtime must be used from the OS thread that created it")
        }
        other => panic!("unexpected outcome {other:?}"),
    }
    match runtime.send(true, Err("expected value at line 1 column 1".to_string())) {
        Err(e @ Error::Json(_)) => assert_eq!(e.message(), "invalid JSON: expected value at line 1 column 1"),
        other => panic!("unexpected outcome {other:?}"),
    }
}

#[test]
fn shutdown_is_idempotent_and_final() {
    let mut runtime = Tauriless::new();
    runtime.mark_app_built();
    assert!(matches!(runtime.shutdown(false), Err(Error::WrongThread)));
    assert!(runtime.app_built());
    assert!(matches!(runtime.shutdown(true), Ok(true)));
    assert!(!runtime.app_built());
    assert!(matches!(runtime.shutdown(true), Ok(false)));
    match runtime.send(true, Ok(request(IdKind::Text, SUBSCRIBE_COMMAND, None))) {
        Err(e @ Error::Shutdown) => assert_eq!(e.message(), "the runtime has already been shut down"),
        other => panic!("unexpected outcome {other:?}"),
    }
    assert!(matches!(runtime.begin_drain(true), Err(Error::Shutdown)));
}

#[test]
fn drain_is_not_reentrant() {
    let mut runtime = Tauriless::new();
    assert!(matches!(runtime.begin_drain(false), Err(Error::WrongThread)));
    runtime.begin_drain(true).unwrap();
    match runtime.begin_drain(true) {
        Err(e @ Error::ReentrantDrain) => assert_eq!(e.message(), "drain is already running"),
        other => panic!("unexpected outcome {other:?}"),
    }
    let bytes = runtime.finish_drain(&vec![b"1".to_vec(), b"{\"a\":2}".to_vec()]);
    assert_eq!(bytes, b"{\"messages\":[1,{\"a\":2}]}");
    runtime.begin_drain(true).unwrap();
}

#[test]
fn batches_frame_serialized_messages() {
    assert_eq!(encode_batch(&vec![b"\"x\"".to_vec()]), b"{\"messages\":[\"x\"]}");
    let three = encode_batch(&vec![b"1".to_vec(), b"2".to_vec(), b"3".to_vec()]);
    let value: serde_json::Value = serde_json::from_slice(&three).unwrap();
    assert_eq!(value["messages"].as_array().unwrap().len(), 3);
}

#[test]
fn identity_is_set_before_the_app_and_names_it() {
    let mut runtime = Tauriless::new();
    assert!(runtime.app_user_model_id_rejection().is_none());
    assert_eq!(runtime.tauri_identifier(), "Tauriless");
    assert!(Tauriless::validate_app_user_model_id("com.example.app").is_ok());
    let nul = Tauriless::validate_app_user_model_id("com.\0example").unwrap_err();
    assert_eq!(nul.operation, "validate-app-user-model-id");
    assert_eq!(nul.message, "appId must not contain a NUL character");
    runtime.record_app_user_model_id("com.example.app".to_string());
    assert_eq!(runtime.tauri_identifier(), "com.example.app");
    runtime.mark_app_built();
    let late = runtime.app_user_model_id_rejection().unwrap();
    assert_eq!(late.operation, "set-app-user-model-id");
    assert_eq!(late.message, "AppUserModelID must be set before the Tauri app is initialized");
}

#[test]
fn forwarded_requests_need_an_existing_webview_window() {
    let runtime = Tauriless::new();
    match runtime.forward_target(Vec::new(), None) {
        Err(Error::Request(m)) => {
            assert_eq!(m, "no webview exists; create one with `plugin:webview|create_webview_window`")
        }
        other => panic!("unexpected outcome {other:?}"),
    }
    assert_eq!(runtime.forward_target(vec!["a".to_string(), "b".to_string()], Some("b".to_string())).unwrap(), "b");
    match runtime.forward_target(vec!["a".to_string()], Some("c".to_string())) {
        Err(e @ Error::Request(_)) => assert_eq!(e.message(), "invalid request: unknown webview `c`"),
        other => panic!("unexpected outcome {other:?}"),
    }
}

#[test]
fn the_initial_forwarded_events_cover_window_and_plugin_events() {
    let names = forwarded_event_names();
    assert_eq!(names.len(), 20);
    assert_eq!(names[0], "tauri://resize");
    assert_eq!(names[19], "tauriless://webview-message");
    let subscriptions = EventSubscriptions::new(&names);
    assert!(subscriptions.is_active("store://change"));
    assert!(subscriptions.is_active("tauri://focus"));
    assert!(!subscriptions.is_active("tauri://unknown"));
}

#[test]
fn c_abi_codes_are_distinct() {
    assert_eq!(TAURILESS_OK, 0);
    assert_eq!(TAURILESS_INVALID_ARGUMENT, 1);
    assert_eq!(TAURILESS_ERROR, 2);
    assert_eq!(TAURILESS_PANIC, 3);
}

#[test]
fn a_drain_returns_each_queued_message_once_in_order() {
    let mut outbox = Outbox::new();
    outbox.push(b"1".to_vec());
    outbox.push(b"{\"kind\":\"event\"}".to_vec());
    outbox.push(b"3".to_vec());
    let mut runtime = Tauriless::new();
    runtime.begin_drain(true).unwrap();
    let batch = runtime.finish_drain(&outbox.take_all());
    assert_eq!(batch, b"{\"messages\":[1,{\"kind\":\"event\"},3]}");
    runtime.begin_drain(true).unwrap();
    assert_eq!(runtime.finish_drain(&outbox.take_all()), b"{\"messages\":[]}");
}
