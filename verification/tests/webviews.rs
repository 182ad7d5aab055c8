use tauriless::error::Error;
use tauriless::webviews::{choose_default_webview_label, select_webview_label};

#[test]
fn default_webview_selection_is_deterministic() {
    assert_eq!(choose_default_webview_label(vec!["only".into()]).unwrap(), "only");
    assert_eq!(choose_default_webview_label(vec!["secondary".into(), "main".into()]).unwrap(), "main");

    let error = choose_default_webview_label(vec!["zeta".into(), "alpha".into()]).unwrap_err();
    assert_eq!(error.message(), "invalid request: multiple webviews exist (alpha, zeta); set `webview` explicitly");
}

#[test]
fn default_selection_does_not_depend_on_listing_order() {
    let a = choose_default_webview_label(vec!["b".into(), "c".into(), "a".into()]).unwrap_err().message();
    let b = choose_default_webview_label(vec!["c".into(), "a".into(), "b".into()]).unwrap_err().message();
    assert_eq!(a, b);
    assert_eq!(a, "invalid request: multiple webviews exist (a, b, c); set `webview` explicitly");
    assert_eq!(choose_default_webview_label(vec!["main".into(), "x".into(), "main2".into()]).unwrap(), "main");
}

#[test]
fn no_webview_is_a_request_error() {
    match choose_default_webview_label(Vec::new()) {
        Err(Error::Request(m)) => assert_eq!(m, "no webview exists"),
        other => panic!("unexpected outcome {other:?}"),
    }
}

#[test]
fn a_requested_label_must_exist() {
    let labels = vec!["main".to_string(), "tools".to_string()];
    assert_eq!(select_webview_label(labels.clone(), Some("tools".into())).unwrap(), "tools");
    assert_eq!(select_webview_label(labels.clone(), None).unwrap(), "main");
    match select_webview_label(labels, Some("gone".into())) {
        Err(Error::Request(m)) => assert_eq!(m, "unknown webview `gone`"),
        other => panic!("unexpected outcome {other:?}"),
    }
}
