//! A webview context backed by a native window but without a platform
//! webview: application state, resources and channels keep working, while
//! webview operations answer neutrally instead of reaching a webview.
//!
//! Native dispatchers are referred to by the ids of their window or webview.

use vstd::prelude::*;

verus! {

/// The URL a headless webview reports.
pub const HEADLESS_URL: &'static str = "tauriless://headless";

/// The dispatcher of a native window.
#[derive(Debug, Clone, Copy, PartialEq, Eq, Structural)]
pub struct WindowDispatcher {
    pub window_id: u64,
}

/// The dispatcher of a platform webview.
#[derive(Debug, Clone, Copy, PartialEq, Eq, Structural)]
pub struct WebviewDispatcher {
    pub webview_id: u64,
}

/// A real platform webview, or a headless one that owns its window's dispatcher.
#[derive(Debug, Clone, Copy, PartialEq, Eq, Structural)]
pub enum ManagedWebviewDispatcher {
    Real(WebviewDispatcher),
    Headless(WindowDispatcher),
}

/// A labelled webview and its dispatcher.
#[derive(Debug, Clone)]
pub struct ManagedWebview {
    pub label: String,
    pub dispatcher: ManagedWebviewDispatcher,
}

impl ManagedWebview {
    /// A headless webview labelled `label` that uses the window's dispatcher.
    pub fn headless(label: String, dispatcher: WindowDispatcher) -> (r: Self)
        ensures
            r.label@ == label@,
            r.dispatcher == ManagedWebviewDispatcher::Headless(dispatcher),
    {
        ManagedWebview { label, dispatcher: ManagedWebviewDispatcher::Headless(dispatcher) }
    }

    /// The managed form of a platform webview created by the runtime.
    pub fn from_detached(label: String, dispatcher: WebviewDispatcher) -> (r: Self)
        ensures
            r.label@ == label@,
            r.dispatcher == ManagedWebviewDispatcher::Real(dispatcher),
    {
        ManagedWebview { label, dispatcher: ManagedWebviewDispatcher::Real(dispatcher) }
    }
}

/// The app a window or webview belongs to: its app handle and manager,
/// referred to by id.
#[derive(Debug, Clone, Copy, PartialEq, Eq, Structural)]
pub struct AppHandle {
    pub app_id: u64,
}

/// A webview's table of resources, by resource id.
#[derive(Debug, Clone)]
pub struct ResourceTable {
    pub resource_ids: Vec<u32>,
}

/// A native window.
#[derive(Debug, Clone)]
pub struct Window {
    pub label: String,
    pub dispatcher: WindowDispatcher,
    pub app: AppHandle,
}

/// A webview context: the window it belongs to, the webview itself, the app
/// it shares with the window, and its own resources.
#[derive(Debug, Clone)]
pub struct Webview {
    pub window: Window,
    pub webview: ManagedWebview,
    pub app: AppHandle,
    pub resources: ResourceTable,
    pub use_https_scheme: bool,
}

impl Webview {
    /// A logical webview context labelled `label` on `window`, without a
    /// platform webview: it shares the window's dispatcher, app handle and
    /// manager, starts with an empty resource table, and does not use the
    /// https scheme.
    pub fn new_headless(window: Window, label: String) -> (r: Self)
        ensures
            r.window.label@ == window.label@,
            r.window.dispatcher == window.dispatcher,
            r.window.app == window.app,
            r.app == window.app,
            r.webview.label@ == label@,
            r.webview.dispatcher == ManagedWebviewDispatcher::Headless(window.dispatcher),
            r.resources.resource_ids@.len() == 0,
            !r.use_https_scheme,
    {
        let dispatcher = window.dispatcher;
        let app = window.app;
        Webview {
            window,
            webview: ManagedWebview::headless(label, dispatcher),
            app,
            resources: ResourceTable { resource_ids: Vec::new() },
            use_https_scheme: false,
        }
    }
}

/// How a webview operation is carried out: by the platform webview's
/// dispatcher, by the window's dispatcher, or answered at once.
#[derive(Debug)]
pub enum Dispatch<T> {
    ToWebview(WebviewDispatcher),
    ToWindow(WindowDispatcher),
    Done(T),
}

/// An empty rectangle's position and size.
#[derive(Debug, Clone, Copy, PartialEq, Eq, Structural)]
pub struct Bounds {
    pub x: i32,
    pub y: i32,
    pub width: u32,
    pub height: u32,
}

impl ManagedWebviewDispatcher {
    /// Work run on the main thread goes through the window when headless.
    pub fn run_on_main_thread(&self) -> (r: Dispatch<()>)
        ensures
            match *self {
                ManagedWebviewDispatcher::Real(d) => r matches Dispatch::ToWebview(x) && x == d,
                ManagedWebviewDispatcher::Headless(w) => r matches Dispatch::ToWindow(x) && x == w,
            },
    {
        match self {
            ManagedWebviewDispatcher::Real(d) => Dispatch::ToWebview(*d),
            ManagedWebviewDispatcher::Headless(w) => Dispatch::ToWindow(*w),
        }
    }

    /// The URL: `tauriless://headless` when headless.
    pub fn url(&self) -> (r: Dispatch<String>)
        ensures
            match *self {
                ManagedWebviewDispatcher::Real(d) => r matches Dispatch::ToWebview(x) && x == d,
                ManagedWebviewDispatcher::Headless(_) => r matches Dispatch::Done(u) && u@ == HEADLESS_URL@,
            },
    {
        match self {
            ManagedWebviewDispatcher::Real(d) => Dispatch::ToWebview(*d),
            ManagedWebviewDispatcher::Headless(_) => Dispatch::Done(HEADLESS_URL.to_owned()),
        }
    }

    /// Bounds, position and size: all zero when headless.
    pub fn bounds(&self) -> (r: Dispatch<Bounds>)
        ensures
            match *self {
                ManagedWebviewDispatcher::Real(d) => r matches Dispatch::ToWebview(x) && x == d,
                ManagedWebviewDispatcher::Headless(_) => r matches Dispatch::Done(b)
                    && b == (Bounds { x: 0, y: 0, width: 0, height: 0 }),
            },
    {
        match self {
            ManagedWebviewDispatcher::Real(d) => Dispatch::ToWebview(*d),
            ManagedWebviewDispatcher::Headless(_) => Dispatch::Done(Bounds { x: 0, y: 0, width: 0, height: 0 }),
        }
    }

    /// The id of a webview event handler: 0 when headless, where no event comes.
    pub fn on_webview_event(&self) -> (r: Dispatch<u64>)
        ensures
            match *self {
                ManagedWebviewDispatcher::Real(d) => r matches Dispatch::ToWebview(x) && x == d,
                ManagedWebviewDispatcher::Headless(_) => r matches Dispatch::Done(id) && id == 0,
            },
    {
        match self {
            ManagedWebviewDispatcher::Real(d) => Dispatch::ToWebview(*d),
            ManagedWebviewDispatcher::Headless(_) => Dispatch::Done(0),
        }
    }

    /// Whether devtools are open: never when headless.
    pub fn is_devtools_open(&self) -> (r: Dispatch<bool>)
        ensures
            match *self {
                ManagedWebviewDispatcher::Real(d) => r matches Dispatch::ToWebview(x) && x == d,
                ManagedWebviewDispatcher::Headless(_) => r matches Dispatch::Done(open) && !open,
            },
    {
        match self {
            ManagedWebviewDispatcher::Real(d) => Dispatch::ToWebview(*d),
            ManagedWebviewDispatcher::Headless(_) => Dispatch::Done(false),
        }
    }

    /// The value a script evaluation hands its callback: `null` when headless.
    pub fn eval_script_result(&self) -> (r: Dispatch<String>)
        ensures
            match *self {
                ManagedWebviewDispatcher::Real(d) => r matches Dispatch::ToWebview(x) && x == d,
                ManagedWebviewDispatcher::Headless(_) => r matches Dispatch::Done(v) && v@ == "null"@,
            },
    {
        match self {
            ManagedWebviewDispatcher::Real(d) => Dispatch::ToWebview(*d),
            ManagedWebviewDispatcher::Headless(_) => Dispatch::Done("null".to_owned()),
        }
    }

    /// Every other operation (navigation, reload, printing, closing, geometry,
    /// focus, visibility, scripts, reparenting, cookies, zoom, colours,
    /// browsing data): done at once, with no effect and no cookies, when headless.
    pub fn neutral_operation(&self) -> (r: Dispatch<()>)
        ensures
            match *self {
                ManagedWebviewDispatcher::Real(d) => r matches Dispatch::ToWebview(x) && x == d,
                ManagedWebviewDispatcher::Headless(_) => r matches Dispatch::Done(_),
            },
    {
        match self {
            ManagedWebviewDispatcher::Real(d) => Dispatch::ToWebview(*d),
            ManagedWebviewDispatcher::Headless(_) => Dispatch::Done(()),
        }
    }
}

} // verus!
