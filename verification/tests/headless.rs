use tauriless::headless::{
    AppHandle, Bounds, Dispatch, ManagedWebview, ManagedWebviewDispatcher, Webview, WebviewDispatcher, Window, WindowDispatcher,
};

#[test]
fn a_headless_webview_shares_its_window_dispatcher() {
    let window =
        Window { label: "main".to_string(), dispatcher: WindowDispatcher { window_id: 7 }, app: AppHandle { app_id: 3 } };
    let webview = Webview::new_headless(window, "main".to_string());
    assert_eq!(webview.app, AppHandle { app_id: 3 });
    assert_eq!(webview.window.app, AppHandle { app_id: 3 });
    assert!(webview.resources.resource_ids.is_empty());
    assert_eq!(webview.webview.label, "main");
    assert_eq!(webview.webview.dispatcher, ManagedWebviewDispatcher::Headless(WindowDispatcher { window_id: 7 }));
    assert!(!webview.use_https_scheme);
}

#[test]
fn headless_operations_answer_neutrally() {
    let headless = ManagedWebviewDispatcher::Headless(WindowDispatcher { window_id: 1 });
    assert!(matches!(headless.url(), Dispatch::Done(url) if url == "tauriless://headless"));
    assert!(matches!(headless.bounds(), Dispatch::Done(Bounds { x: 0, y: 0, width: 0, height: 0 })));
    assert!(matches!(headless.is_devtools_open(), Dispatch::Done(false)));
    assert!(matches!(headless.on_webview_event(), Dispatch::Done(0)));
    assert!(matches!(headless.eval_script_result(), Dispatch::Done(v) if v == "null"));
    assert!(matches!(headless.neutral_operation(), Dispatch::Done(())));
    assert!(matches!(headless.run_on_main_thread(), Dispatch::ToWindow(WindowDispatcher { window_id: 1 })));
}

#[test]
fn a_real_webview_uses_its_own_dispatcher() {
    let real = ManagedWebview::from_detached("aux".to_string(), WebviewDispatcher { webview_id: 3 });
    assert_eq!(real.label, "aux");
    assert!(matches!(real.dispatcher.url(), Dispatch::ToWebview(WebviewDispatcher { webview_id: 3 })));
    assert!(matches!(real.dispatcher.run_on_main_thread(), Dispatch::ToWebview(WebviewDispatcher { webview_id: 3 })));
}
