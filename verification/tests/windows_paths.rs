use tauriless::data_dir::{
    default_webview_data_directory, resolved_explicit_webview_data_directory, webview_data_directory_for_executable, windows_path_hash,
    DEFAULT_IDENTIFIER,
};
use tauriless::paths::{join_path_text, path_extension, path_file_name, path_file_stem, path_is_absolute};
use tauriless::shortcut::{
    application_name_from_args, executable_error, registration_error, shortcut_name, start_menu_shortcut_path,
    valid_windows_name,
};

#[test]
fn explicit_webview_data_directory_is_resolved_and_confined() {
    let local_data = r"C:\Users\test\AppData\Local";
    assert_eq!(
        resolved_explicit_webview_data_directory(local_data, "main", r"profiles\webview").unwrap(),
        join_path_text(&join_path_text(local_data, "main"), r"profiles\webview")
    );
    assert_eq!(
        resolved_explicit_webview_data_directory(local_data, "main", r"profiles\webview").unwrap(),
        r"C:\Users\test\AppData\Local\main\profiles\webview"
    );
    assert!(resolved_explicit_webview_data_directory(local_data, "main", r"..\escape").is_err());
    assert!(resolved_explicit_webview_data_directory(local_data, "main", r"C:\absolute").is_err());
}

#[test]
fn refused_data_directories_report_where_they_would_have_gone() {
    let error =
        resolved_explicit_webview_data_directory(r"C:\Local", "main", r"a\..\..\escape").unwrap_err();
    assert_eq!(error.operation, "resolve-webview-data-directory");
    assert_eq!(error.message, "dataDirectory must be a safe relative path");
    assert_eq!(error.webview_data_directory.as_deref(), Some(r"C:\Local\main\a\..\..\escape"));
    assert!(resolved_explicit_webview_data_directory(r"C:\Local", "main", r"\\server\share").is_err());
    assert!(resolved_explicit_webview_data_directory(r"C:\Local", "main", r"a..b\c").is_ok());
}

#[test]
fn default_webview_data_directory_is_stable_per_executable_path() {
    let local_data = r"C:\Users\test\AppData\Local";
    let executable = r"C:\Apps\Example\app.exe";
    let first = webview_data_directory_for_executable(local_data, executable);
    let second = webview_data_directory_for_executable(local_data, executable);
    let moved = webview_data_directory_for_executable(local_data, r"C:\Other\app.exe");

    assert_eq!(first, second);
    let parent = join_path_text(local_data, DEFAULT_IDENTIFIER);
    assert_eq!(parent, r"C:\Users\test\AppData\Local\Tauriless");
    assert_eq!(first, join_path_text(&parent, &windows_path_hash(executable)));
    assert_ne!(first, moved);
    assert_eq!(path_file_name(&first).unwrap().len(), 64);
}

#[test]
fn profile_directories_are_named_by_the_sha256_of_the_utf16_path() {
    assert_eq!(
        windows_path_hash(r"C:\Apps\Example\app.exe"),
        "7b90134c6829fc6e4a92d7afef1d8a5fe70f1a14a756775f515867556408c7da"
    );
    assert_eq!(windows_path_hash(""), "e3b0c44298fc1c149afbf4c8996fb92427ae41e4649b934ca495991b7852b855");
    assert_eq!(
        webview_data_directory_for_executable(r"C:\Local\", r"C:\Other\app.exe"),
        r"C:\Local\Tauriless\8a9ecd70a33313bbe4995e4d832a249f4beb4062b7c4d18bf636232a7e1b2236"
    );
}

#[test]
fn shortcut_is_directly_under_programs_and_uses_only_its_name() {
    let programs = r"C:\Users\test\AppData\Roaming\Microsoft\Windows\Start Menu\Programs";
    let shortcut = start_menu_shortcut_path(programs, "Example App");

    assert_eq!(shortcut, join_path_text(programs, "Example App.lnk"));
    assert_eq!(shortcut, format!("{programs}\\Example App.lnk"));
    assert_eq!(path_file_name(&shortcut).as_deref(), Some("Example App.lnk"));
}

#[test]
fn shortcut_name_prefers_argument_then_script_then_executable() {
    let executable = r"C:\Tools\deno.exe";
    assert_eq!(
        application_name_from_args(Some("Passed Name"), executable, &vec![r"C:\apps\ignored.js".to_string()])
            .unwrap(),
        "Passed Name"
    );
    assert_eq!(
        application_name_from_args(None, executable, &vec!["run".to_string(), r"C:\apps\demo.js".to_string()])
            .unwrap(),
        "demo"
    );
    assert_eq!(application_name_from_args(None, executable, &Vec::new()).unwrap(), "deno");
}

#[test]
fn script_extensions_are_matched_without_regard_to_case() {
    let executable = r"C:\Tools\python.exe";
    assert_eq!(
        application_name_from_args(None, executable, &vec![r"C:\work\Tool.PY".to_string()]).unwrap(),
        "Tool"
    );
    assert_eq!(
        application_name_from_args(None, executable, &vec![r"notes.txt".to_string(), r"serve.mts".to_string()])
            .unwrap(),
        "serve"
    );
    assert_eq!(
        application_name_from_args(None, r"C:\", &Vec::new()).unwrap_err(),
        "cannot infer a name from the host script or executable"
    );
}

#[test]
fn path_errors_are_structured_for_hosts() {
    let error = registration_error(
        "save-start-menu-shortcut",
        "access denied".into(),
        r"C:\Tools\deno.exe",
        r"C:\Programs\Demo.lnk",
    );
    assert_eq!(error.operation, "save-start-menu-shortcut");
    assert_eq!(error.message, "access denied");
    assert_eq!(error.shortcut_path.as_deref(), Some(r"C:\Programs\Demo.lnk"));
    assert_eq!(error.executable_path.as_deref(), Some(r"C:\Tools\deno.exe"));
}

#[test]
fn windows_names_are_trimmed_and_checked() {
    assert_eq!(valid_windows_name("  Example App \t").unwrap(), "Example App");
    assert!(valid_windows_name("").is_err());
    assert!(valid_windows_name("   ").is_err());
    assert!(valid_windows_name("name.").is_err());
    assert!(valid_windows_name("a/b").is_err());
    assert!(valid_windows_name("a:b").is_err());
    assert!(valid_windows_name("tab\u{7}bell").is_err());
    assert!(valid_windows_name("con").is_err());
    assert!(valid_windows_name("Com1.txt").is_err());
    assert!(valid_windows_name("console").is_ok());
    assert_eq!(valid_windows_name("lpt1").unwrap_err(), "name must be a valid single Windows file name");
}

#[test]
fn windows_paths_join_and_split_like_std_on_windows() {
    assert_eq!(join_path_text(r"C:\a", "b"), r"C:\a\b");
    assert_eq!(join_path_text(r"C:\a\", "b"), r"C:\a\b");
    assert_eq!(join_path_text("C:", "b"), "C:b");
    assert_eq!(join_path_text(r"C:\a", r"\b"), r"C:\b");
    assert_eq!(join_path_text(r"C:\a", r"D:\b"), r"D:\b");
    assert!(path_is_absolute(r"C:\x"));
    assert!(!path_is_absolute(r"C:x"));
    assert!(!path_is_absolute(r"\x"));
    assert!(path_is_absolute(r"\\server\share"));
    assert_eq!(join_path_text(r"\\server\share\dir", r"\foo"), r"\\server\share\foo");
    assert_eq!(join_path_text(r"\\?\UNC\server\share\dir", r"\foo"), r"\\?\UNC\server\share\foo");
    assert_eq!(join_path_text(r"\\?\C:\dir", r"\foo"), r"\\?\C:\foo");
    assert_eq!(path_file_name(r"\\server\share"), None);
    assert_eq!(path_file_name(r"\\?\C:\dir/app.js").as_deref(), Some("dir/app.js"));
    assert_eq!(join_path_text(r"\\?\C:\a\.\b", r"c\..\d"), r"\\?\C:\a\.\b\d");
    assert_eq!(join_path_text(r"\\?\C:\a", r"\x/y"), r"\\?\C:\x\y");
    assert_eq!(join_path_text(r"\\?\C:\a", r"..\..\b"), r"\\?\C:\b");
    assert_eq!(join_path_text(r"\\?\C:\a", r"./b"), r"\\?\C:\a\b");
    assert_eq!(join_path_text(r"\\?\C:\a", ""), r"\\?\C:\a\");
    assert_eq!(path_file_name(r"\\?\C:\dir\."), None);
    assert_eq!(path_file_name(r"C:\dir\."), Some("dir".to_string()));
    assert!(application_name_from_args(None, r"C:\x.exe", &vec![r"\\?\C:\dir/app.js".to_string()]).is_err());
    assert_eq!(path_file_name(r"\\server\share\x.txt").as_deref(), Some("x.txt"));
    assert_eq!(path_file_name(r"C:\a\b.tar.gz\").as_deref(), Some("b.tar.gz"));
    assert_eq!(path_file_stem(r"C:\a\b.tar.gz").as_deref(), Some("b.tar"));
    assert_eq!(path_extension(r"C:\a\b.tar.gz").as_deref(), Some("gz"));
    assert_eq!(path_extension(r"C:\a\.hidden"), None);
    assert_eq!(path_file_name(r"C:\a\.."), None);
}

#[test]
fn name_and_executable_failures_are_structured() {
    let error = shortcut_name(Some("bad|name"), r"C:\Tools\deno.exe", &Vec::new()).unwrap_err();
    assert_eq!(error.operation, "resolve-shortcut-name");
    assert_eq!(error.message, "name must be a valid single Windows file name");
    assert_eq!(error.executable_path.as_deref(), Some(r"C:\Tools\deno.exe"));
    assert_eq!(shortcut_name(None, r"C:\Tools\deno.exe", &Vec::new()).unwrap(), "deno");

    let missing = executable_error("module not found");
    assert_eq!(missing.operation, "resolve-executable");
    assert_eq!(missing.message, "module not found");
}

#[test]
fn the_default_directory_needs_the_executable_path() {
    assert_eq!(
        default_webview_data_directory(r"C:\Local", Ok(r"C:\Other\app.exe".to_string())).unwrap(),
        r"C:\Local\Tauriless\8a9ecd70a33313bbe4995e4d832a249f4beb4062b7c4d18bf636232a7e1b2236"
    );
    let error = default_webview_data_directory(r"C:\Local", Err("access denied".to_string())).unwrap_err();
    assert_eq!(error.operation, "resolve-executable");
    assert_eq!(error.message, "access denied");
}
