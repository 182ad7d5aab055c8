use tauriless::events::{
    validate_event_name, EventSubscriptions, SubscriptionRequest, TargetKind, EVENT_NAME_ERROR, SUBSCRIBE_COMMAND,
    UNSUBSCRIBE_COMMAND,
};

/// Listener ids as the tests hand them out: the event name's length.
fn ids_for(names: &[String]) -> Vec<u32> {
    names.iter().map(|name| name.len() as u32).collect()
}

/// Registers a window, making one listener per requested name.
fn register(subscriptions: &mut EventSubscriptions, label: &str) -> Vec<u32> {
    let ids = ids_for(&subscriptions.listen_requests());
    subscriptions.register_window(label.to_string(), ids, 999)
}

/// Carries out a subscription command as the runtime does.
fn run(subscriptions: &mut EventSubscriptions, command: &str, event: &str) -> Result<(String, bool), String> {
    match subscriptions.handle(command, Ok(event.to_string()))? {
        SubscriptionRequest::Subscribe { event, listen_on } => {
            let ids = listen_on.iter().map(|_| event.len() as u32).collect();
            let changed = subscriptions.subscribe(event.clone(), ids);
            Ok((event, changed))
        }
        SubscriptionRequest::Unsubscribe { event } => {
            let (removed, _) = subscriptions.unsubscribe(&event);
            Ok((event, removed))
        }
    }
}

#[test]
fn validates_names_like_tauri_without_panicking() {
    assert!(validate_event_name("plugin://ready_2").is_ok());
    assert!(validate_event_name("").is_err());
    assert!(validate_event_name("spaces are invalid").is_err());
    assert!(validate_event_name("wildcard://*").is_err());
}

#[test]
fn recognizes_only_bridge_subscription_commands() {
    assert!(EventSubscriptions::handles(SUBSCRIBE_COMMAND));
    assert!(EventSubscriptions::handles(UNSUBSCRIBE_COMMAND));
    assert!(!EventSubscriptions::handles("plugin:event|listen"));
}

#[test]
fn an_initial_default_can_be_removed_and_restored() {
    let mut subscriptions = EventSubscriptions::new(&["tauri://focus"]);

    let (event, removed) = run(&mut subscriptions, UNSUBSCRIBE_COMMAND, "tauri://focus").unwrap();
    assert_eq!(event, "tauri://focus");
    assert_eq!(removed, true);
    assert!(!subscriptions.is_active("tauri://focus"));

    let (event, changed) = run(&mut subscriptions, SUBSCRIBE_COMMAND, "tauri://focus").unwrap();
    assert_eq!(event, "tauri://focus");
    assert_eq!(changed, true);
    assert!(subscriptions.is_active("tauri://focus"));
}

#[test]
fn event_names_accept_unicode_letters_and_digits() {
    assert!(validate_event_name("événement:prêt").is_ok());
    assert!(validate_event_name("日本語/イベント_1").is_ok());
    assert!(validate_event_name("٣-digits").is_ok());
    assert!(validate_event_name("arrow→event").is_err());
    assert!(validate_event_name("dot.event").is_err());
    assert_eq!(validate_event_name("a b").unwrap_err(), EVENT_NAME_ERROR);
}

#[test]
fn subscribing_twice_asks_for_listeners_once() {
    let mut subscriptions = EventSubscriptions::new(&["tauri://focus"]);
    register(&mut subscriptions, "main");
    register(&mut subscriptions, "aux");
    match subscriptions.handle(SUBSCRIBE_COMMAND, Ok("custom://ping".to_string())).unwrap() {
        SubscriptionRequest::Subscribe { listen_on, .. } => assert_eq!(listen_on, vec!["main", "aux"]),
        other => panic!("unexpected request {other:?}"),
    }
    assert!(subscriptions.subscribe("custom://ping".to_string(), vec![1, 2]));
    match subscriptions.handle(SUBSCRIBE_COMMAND, Ok("custom://ping".to_string())).unwrap() {
        SubscriptionRequest::Subscribe { listen_on, .. } => assert!(listen_on.is_empty()),
        other => panic!("unexpected request {other:?}"),
    }
    assert!(!subscriptions.subscribe("custom://ping".to_string(), Vec::new()));
    let (removed, ids) = subscriptions.unsubscribe("custom://ping");
    assert!(removed);
    assert_eq!(ids, vec![1, 2]);
}

#[test]
fn unsubscribing_twice_releases_nothing_the_second_time() {
    let mut subscriptions = EventSubscriptions::new(&["log://log", "tauri://focus"]);
    register(&mut subscriptions, "main");
    let (first, first_ids) = subscriptions.unsubscribe("log://log");
    let (second, second_ids) = subscriptions.unsubscribe("log://log");
    assert!(first);
    assert_eq!(first_ids, vec![9]);
    assert!(!second);
    assert!(second_ids.is_empty());
}

#[test]
fn registration_listens_in_ascending_order_and_replaces_by_label() {
    let mut subscriptions = EventSubscriptions::new(&["tauri://focus", "log://log"]);
    assert_eq!(subscriptions.listen_requests(), vec!["log://log", "tauri://focus"]);
    let first = register(&mut subscriptions, "main");
    assert!(first.is_empty());
    let second = subscriptions.register_webview_window("main".to_string(), vec![7, 8], 500);
    assert_eq!(second, vec![999, 9, 13]);
    let cleared = subscriptions.clear_targets();
    assert_eq!(cleared, vec![500, 7, 8]);
    assert!(subscriptions.clear_targets().is_empty());
}

#[test]
fn removing_an_unknown_target_releases_nothing() {
    let mut subscriptions = EventSubscriptions::new(&["tauri://focus"]);
    subscriptions.register_webview("main".to_string(), vec![13], 999);
    assert!(subscriptions.remove_target("other").is_none());
    assert_eq!(subscriptions.remove_target("main"), Some(vec![999, 13]));
    assert!(subscriptions.remove_target("main").is_none());
}

#[test]
fn handle_reports_payload_name_and_command_errors() {
    let subscriptions = EventSubscriptions::new(&[]);
    let unreadable = subscriptions.handle(SUBSCRIBE_COMMAND, Err("missing field `event`".to_string())).unwrap_err();
    assert_eq!(unreadable, "missing field `event`");
    let bad_name = subscriptions.handle(SUBSCRIBE_COMMAND, Ok("wildcard://*".to_string())).unwrap_err();
    assert_eq!(bad_name, EVENT_NAME_ERROR);
    let unknown = subscriptions.handle("tauriless:other", Ok("tauri://focus".to_string())).unwrap_err();
    assert_eq!(unknown, "unknown event subscription command `tauriless:other`");
    assert!(!subscriptions.is_active("tauri://focus"));
}

#[test]
fn target_kinds_name_their_event_source() {
    assert_eq!(TargetKind::Window.source(), "window");
    assert_eq!(TargetKind::WebviewWindow.source(), "webview-window");
    assert_eq!(TargetKind::Webview.source(), "webview");
}
