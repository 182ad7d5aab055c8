//! The runtime's decisions: which requests it takes, in which state, where
//! each goes, when output may be drained, and shutdown.
//!
//! The caller owns the Tauri application and the outbox; it tells the runtime
//! whether it runs on the thread that created it, and performs the Tauri work
//! each decision asks for.

use vstd::prelude::*;
use vstd::string::*;
use crate::assets::RESPONSE_COMMAND;
use crate::data_dir::DEFAULT_IDENTIFIER;
use crate::error::{Error, OperationError};
use crate::events::{is_subscription_command, str_texts, EventSubscriptions, SUBSCRIBE_COMMAND, UNSUBSCRIBE_COMMAND};
use crate::text::{concat, same_text, texts};
use crate::webviews::{label_outcome, opt_text, select_webview_label, webview_label_choice};

verus! {

/// The command that creates a webview window; the first forwarded command.
pub const CREATE_WEBVIEW_WINDOW_COMMAND: &'static str = "plugin:webview|create_webview_window";

/// The bridge command that sets the application identity.
pub const SET_APP_USER_MODEL_ID_COMMAND: &'static str = "tauriless:set-app-user-model-id";

/// C ABI result: success.
pub const TAURILESS_OK: i32 = 0;

/// C ABI result: a null or otherwise invalid argument.
pub const TAURILESS_INVALID_ARGUMENT: i32 = 1;

/// C ABI result: the operation failed; the message is in the last error.
pub const TAURILESS_ERROR: i32 = 2;

/// C ABI result: a panic was caught at the boundary.
pub const TAURILESS_PANIC: i32 = 3;

/// The event names forwarded from the start: Tauri's core window and webview
/// events, the plugin events emitted on Tauri's event bus, and the webview's
/// message to the host.
pub open spec fn forwarded_event_list() -> Seq<Seq<char>> {
    seq![
        "tauri://resize"@, "tauri://move"@, "tauri://close-requested"@, "tauri://destroyed"@,
        "tauri://focus"@, "tauri://blur"@, "tauri://scale-change"@, "tauri://theme-changed"@,
        "tauri://window-created"@, "tauri://webview-created"@, "tauri://drag-enter"@,
        "tauri://drag-over"@, "tauri://drag-drop"@, "tauri://drag-leave"@, "tauri://suspended"@,
        "tauri://resumed"@, "deep-link://new-url"@, "log://log"@, "store://change"@,
        "tauriless://webview-message"@,
    ]
}

/// The event names forwarded from the start.
pub fn forwarded_event_names() -> (r: Vec<&'static str>)
    ensures
        str_texts(r@) == forwarded_event_list(),
{
    let mut r: Vec<&'static str> = Vec::new();
    r.push("tauri://resize");
    r.push("tauri://move");
    r.push("tauri://close-requested");
    r.push("tauri://destroyed");
    r.push("tauri://focus");
    r.push("tauri://blur");
    r.push("tauri://scale-change");
    r.push("tauri://theme-changed");
    r.push("tauri://window-created");
    r.push("tauri://webview-created");
    r.push("tauri://drag-enter");
    r.push("tauri://drag-over");
    r.push("tauri://drag-drop");
    r.push("tauri://drag-leave");
    r.push("tauri://suspended");
    r.push("tauri://resumed");
    r.push("deep-link://new-url");
    r.push("log://log");
    r.push("store://change");
    r.push("tauriless://webview-message");
    assert(str_texts(r@) =~= forwarded_event_list());
    r
}

/// The JSON kind of a request's `id`, which the runtime echoes in its result.
#[derive(Debug, Clone, Copy, PartialEq, Eq, Structural)]
pub enum IdKind {
    Text,
    Number,
    Other,
}

/// A request as the runtime reads it; its payload stays with the caller.
#[derive(Debug)]
pub struct Request {
    pub id: IdKind,
    pub cmd: String,
    pub webview: Option<String>,
}

/// Why a request is refused, if it is: an empty command, an id that is
/// neither a string nor a number, or an empty webview label.
pub open spec fn request_problem(request: Request) -> Option<Seq<char>> {
    if request.cmd@.len() == 0 {
        Some("cmd must not be empty"@)
    } else if request.id == IdKind::Other {
        Some("id must be a string or number"@)
    } else if request.webview matches Some(w) && w@.len() == 0 {
        Some("webview must not be empty when provided"@)
    } else {
        None
    }
}

/// Checks the fields every request must have right.
pub fn validate(request: &Request) -> (r: Result<(), Error>)
    ensures
        match request_problem(*request) {
            None => r is Ok,
            Some(reason) => r matches Err(Error::Request(m)) && m@ == reason,
        },
{
    if request.cmd.as_str().unicode_len() == 0 {
        return Err(Error::Request("cmd must not be empty".to_owned()));
    }
    if request.id == IdKind::Other {
        return Err(Error::Request("id must be a string or number".to_owned()));
    }
    match &request.webview {
        Some(w) => {
            if w.as_str().unicode_len() == 0 {
                return Err(Error::Request("webview must not be empty when provided".to_owned()));
            }
        },
        None => {},
    }
    Ok(())
}

/// Where an accepted request goes.
#[derive(Debug, Clone, Copy, PartialEq, Eq, Structural)]
pub enum Route {
    /// The identity command, answered by the bridge.
    SetAppUserModelId,
    /// The host's answer to an asset request.
    AssetResponse,
    /// A subscribe or unsubscribe command.
    EventSubscription,
    /// The creation of a webview window (which builds the app first).
    CreateWebviewWindow,
    /// Any other command, delivered to a webview window through Tauri.
    Forward,
}

/// The route of a command.
pub open spec fn route_of(cmd: Seq<char>) -> Route {
    if cmd == SET_APP_USER_MODEL_ID_COMMAND@ {
        Route::SetAppUserModelId
    } else if cmd == RESPONSE_COMMAND@ {
        Route::AssetResponse
    } else if is_subscription_command(cmd) {
        Route::EventSubscription
    } else if cmd == CREATE_WEBVIEW_WINDOW_COMMAND@ {
        Route::CreateWebviewWindow
    } else {
        Route::Forward
    }
}

/// The reason given for a forwarded command before any webview exists.
pub open spec fn no_app_message() -> Seq<char> {
    "no webview exists; the first command must be `"@ + CREATE_WEBVIEW_WINDOW_COMMAND@ + "`"@
}

/// The reason given for a forwarded command when no webview window is left.
pub open spec fn no_webview_message() -> Seq<char> {
    "no webview exists; create one with `"@ + CREATE_WEBVIEW_WINDOW_COMMAND@ + "`"@
}

/// Whether `r` is what `send` gives for `request` on a runtime that is
/// `closed` or not and whose app is built or not: the thread is checked first,
/// then shutdown, then the JSON, then the request's fields, then, for a
/// forwarded command, whether the app exists.
pub open spec fn is_send_outcome(
    r: Result<Route, Error>,
    on_owner_thread: bool,
    closed: bool,
    app_built: bool,
    request: Result<Request, String>,
) -> bool {
    if !on_owner_thread {
        r matches Err(Error::WrongThread)
    } else if closed {
        r matches Err(Error::Shutdown)
    } else {
        match request {
            Err(m) => r matches Err(Error::Json(x)) && x@ == m@,
            Ok(req) => match request_problem(req) {
                Some(reason) => r matches Err(Error::Request(x)) && x@ == reason,
                None => if route_of(req.cmd@) == Route::Forward && !app_built {
                    r matches Err(Error::Request(x)) && x@ == no_app_message()
                } else {
                    r == Ok::<Route, Error>(route_of(req.cmd@))
                },
            },
        }
    }
}

/// The start of a drain batch: `{"messages":[`.
pub open spec fn batch_head() -> Seq<u8> {
    seq![123u8, 34, 109, 101, 115, 115, 97, 103, 101, 115, 34, 58, 91]
}

/// The end of a drain batch: `]}`.
pub open spec fn batch_tail() -> Seq<u8> {
    seq![93u8, 125]
}

/// Byte strings separated by commas.
pub open spec fn comma_joined(items: Seq<Seq<u8>>) -> Seq<u8>
    decreases items.len(),
{
    if items.len() == 0 {
        seq![]
    } else if items.len() == 1 {
        items[0]
    } else {
        comma_joined(items.drop_last()) + seq![44u8] + items.last()
    }
}

/// The JSON batch a drain returns: `{"messages":[m1,m2,...]}` around the
/// messages, each already serialized.
pub open spec fn batch_bytes(messages: Seq<Seq<u8>>) -> Seq<u8> {
    batch_head() + comma_joined(messages) + batch_tail()
}

/// The views of a list of byte vectors.
pub open spec fn byte_texts(v: Seq<Vec<u8>>) -> Seq<Seq<u8>> {
    v.map_values(|b: Vec<u8>| b@)
}

/// Frames serialized messages as one drain batch.
pub fn encode_batch(messages: &Vec<Vec<u8>>) -> (r: Vec<u8>)
    ensures
        r@ == batch_bytes(byte_texts(messages@)),
{
    let mut r: Vec<u8> = Vec::new();
    r.push(123u8);
    r.push(34u8);
    r.push(109u8);
    r.push(101u8);
    r.push(115u8);
    r.push(115u8);
    r.push(97u8);
    r.push(103u8);
    r.push(101u8);
    r.push(115u8);
    r.push(34u8);
    r.push(58u8);
    r.push(91u8);
    assert(r@ =~= batch_head());
    let n = messages.len();
    let mut i: usize = 0;
    while i < n
        invariant
            n == messages@.len(),
            i <= n,
            r@ == batch_head() + comma_joined(byte_texts(messages@.subrange(0, i as int))),
        decreases n - i,
    {
        let ghost before = r@;
        proof {
            let pre = byte_texts(messages@.subrange(0, i as int));
            let nxt = byte_texts(messages@.subrange(0, i + 1));
            assert(nxt.drop_last() =~= pre);
            assert(nxt.last() == messages@[i as int]@);
        }
        if i > 0 {
            r.push(44u8);
        }
        let m = &messages[i];
        let k = m.len();
        let mut j: usize = 0;
        let ghost mid = r@;
        while j < k
            invariant
                k == m@.len(),
                j <= k,
                r@ == mid + m@.subrange(0, j as int),
            decreases k - j,
        {
            r.push(m[j]);
            assert(m@.subrange(0, j + 1) =~= m@.subrange(0, j as int).push(m@[j as int]));
            assert(r@ =~= mid + m@.subrange(0, j + 1));
            j = j + 1;
        }
        proof {
            assert(m@.subrange(0, k as int) =~= m@);
            let pre = byte_texts(messages@.subrange(0, i as int));
            let nxt = byte_texts(messages@.subrange(0, i + 1));
            if i == 0 {
                assert(pre.len() == 0);
                assert(nxt.len() == 1);
                assert(r@ =~= batch_head() + comma_joined(nxt));
            } else {
                assert(r@ =~= batch_head() + comma_joined(nxt));
            }
        }
        i = i + 1;
    }
    assert(messages@.subrange(0, n as int) =~= messages@);
    let ghost body = r@;
    r.push(93u8);
    r.push(125u8);
    assert(r@ =~= body + batch_tail());
    r
}

/// The messages waiting for the next drain, each already serialized, in the
/// order they were queued.
#[derive(Debug)]
pub struct Outbox {
    messages: Vec<Vec<u8>>,
}

/// `after` is `before` with `message` queued last.
pub open spec fn queued_after(before: Outbox, after: Outbox, message: Seq<u8>) -> bool {
    after.queued() == before.queued().push(message)
}

/// `after` is `before` emptied, handing out `taken`: every queued message,
/// once, in queue order.
pub open spec fn emptied(before: Outbox, after: Outbox, taken: Seq<Seq<u8>>) -> bool {
    &&& taken == before.queued()
    &&& after.queued() == Seq::<Seq<u8>>::empty()
}

impl Outbox {
    /// The queued messages, oldest first.
    pub closed spec fn queued(&self) -> Seq<Seq<u8>> {
        byte_texts(self.messages@)
    }

    /// An empty queue.
    pub fn new() -> (r: Self)
        ensures
            r.queued() == Seq::<Seq<u8>>::empty(),
    {
        let r = Outbox { messages: Vec::new() };
        assert(r.queued() =~= Seq::<Seq<u8>>::empty());
        r
    }

    /// Queues one serialized message.
    pub fn push(&mut self, message: Vec<u8>)
        ensures
            queued_after(*old(self), *final(self), message@),
    {
        let ghost m = message@;
        self.messages.push(message);
        assert(byte_texts(self.messages@) =~= byte_texts(old(self).messages@).push(m));
    }

    /// Takes every queued message, oldest first, leaving the queue empty.
    pub fn take_all(&mut self) -> (r: Vec<Vec<u8>>)
        ensures
            emptied(*old(self), *final(self), byte_texts(r@)),
    {
        let mut r: Vec<Vec<u8>> = Vec::new();
        std::mem::swap(&mut r, &mut self.messages);
        assert(byte_texts(self.messages@) =~= Seq::<Seq<u8>>::empty());
        r
    }
}

/// A drain hands out each queued message exactly once and in queue order:
/// after `first` and `second` were queued on `o0`, taking everything gives the
/// messages of `o0` followed by `first` and `second`, and taking again gives
/// nothing.
pub proof fn law_drain_returns_each_message_once(
    o0: Outbox,
    o1: Outbox,
    o2: Outbox,
    o3: Outbox,
    o4: Outbox,
    first: Seq<u8>,
    second: Seq<u8>,
    taken: Seq<Seq<u8>>,
    again: Seq<Seq<u8>>,
)
    requires
        queued_after(o0, o1, first),
        queued_after(o1, o2, second),
        emptied(o2, o3, taken),
        emptied(o3, o4, again),
    ensures
        taken == o0.queued().push(first).push(second),
        again.len() == 0,
        batch_bytes(taken) == batch_bytes(o0.queued().push(first).push(second)),
{
}

/// The operation named when the identity command comes too late.
pub const SET_APP_USER_MODEL_ID_OPERATION: &'static str = "set-app-user-model-id";

/// The message given when the identity command comes after the app was built.
pub const APP_ALREADY_BUILT_MESSAGE: &'static str = "AppUserModelID must be set before the Tauri app is initialized";

/// The operation named when an application id is unusable.
pub const VALIDATE_APP_USER_MODEL_ID_OPERATION: &'static str = "validate-app-user-model-id";

/// The message given for an application id with a NUL character.
pub const NUL_APP_ID_MESSAGE: &'static str = "appId must not contain a NUL character";

/// The runtime's own state: whether the Tauri app exists, the identity the
/// host set, whether it was shut down, and whether a drain is running.
#[derive(Debug)]
pub struct Tauriless {
    app_built: bool,
    app_user_model_id: Option<String>,
    closed: bool,
    draining: bool,
}

impl Tauriless {
    pub closed spec fn is_app_built(&self) -> bool {
        self.app_built
    }

    pub closed spec fn is_closed(&self) -> bool {
        self.closed
    }

    pub closed spec fn is_draining(&self) -> bool {
        self.draining
    }

    /// The identity the host set, if any.
    pub closed spec fn identity(&self) -> Option<Seq<char>> {
        match self.app_user_model_id {
            Some(id) => Some(id@),
            None => None,
        }
    }

    /// A shut-down runtime has no app.
    pub closed spec fn wf(&self) -> bool {
        self.closed ==> !self.app_built
    }

    /// A fresh runtime: no app, no identity, not shut down, not draining.
    pub fn new() -> (r: Self)
        ensures
            r.wf(),
            !r.is_app_built(),
            !r.is_closed(),
            !r.is_draining(),
            r.identity() is None,
    {
        Tauriless { app_built: false, app_user_model_id: None, closed: false, draining: false }
    }

    /// Whether the Tauri app has been built.
    pub fn app_built(&self) -> (r: bool)
        ensures
            r == self.is_app_built(),
    {
        self.app_built
    }

    /// Takes one request: `request` is the request read from the host's JSON,
    /// or the JSON parser's message. Gives where the request goes, or why it
    /// is refused; the state does not change.
    pub fn send(&self, on_owner_thread: bool, request: Result<Request, String>) -> (r: Result<Route, Error>)
        ensures
            is_send_outcome(r, on_owner_thread, self.is_closed(), self.is_app_built(), request),
    {
        if !on_owner_thread {
            return Err(Error::WrongThread);
        }
        if self.closed {
            return Err(Error::Shutdown);
        }
        let request = match request {
            Ok(request) => request,
            Err(message) => return Err(Error::Json(message)),
        };
        match validate(&request) {
            Ok(()) => {},
            Err(error) => return Err(error),
        }
        let cmd = request.cmd.as_str();
        if same_text(cmd, SET_APP_USER_MODEL_ID_COMMAND) {
            Ok(Route::SetAppUserModelId)
        } else if same_text(cmd, RESPONSE_COMMAND) {
            Ok(Route::AssetResponse)
        } else if EventSubscriptions::handles(cmd) {
            Ok(Route::EventSubscription)
        } else if same_text(cmd, CREATE_WEBVIEW_WINDOW_COMMAND) {
            Ok(Route::CreateWebviewWindow)
        } else if !self.app_built {
            let head = concat("no webview exists; the first command must be `", CREATE_WEBVIEW_WINDOW_COMMAND);
            Err(Error::Request(concat(head.as_str(), "`")))
        } else {
            Ok(Route::Forward)
        }
    }

    /// The webview window a forwarded request goes to, among the labels of the
    /// existing webview windows: none existing is an error of its own.
    pub fn forward_target(&self, labels: Vec<String>, requested: Option<String>) -> (r: Result<String, Error>)
        ensures
            labels@.len() == 0 ==> (r matches Err(Error::Request(m)) && m@ == no_webview_message()),
            labels@.len() > 0 ==> label_outcome(r, webview_label_choice(texts(labels@), opt_text(requested))),
    {
        if labels.len() == 0 {
            let head = concat("no webview exists; create one with `", CREATE_WEBVIEW_WINDOW_COMMAND);
            return Err(Error::Request(concat(head.as_str(), "`")));
        }
        select_webview_label(labels, requested)
    }

    /// The refusal of the identity command once the app exists.
    pub fn app_user_model_id_rejection(&self) -> (r: Option<OperationError>)
        ensures
            match r {
                Some(e) => self.is_app_built() && e.operation@ == SET_APP_USER_MODEL_ID_OPERATION@
                    && e.message@ == APP_ALREADY_BUILT_MESSAGE@ && e.executable_path is None
                    && e.shortcut_path is None && e.webview_data_directory is None,
                None => !self.is_app_built(),
            },
    {
        if self.app_built {
            Some(OperationError::plain(SET_APP_USER_MODEL_ID_OPERATION, APP_ALREADY_BUILT_MESSAGE))
        } else {
            None
        }
    }

    /// Checks an application id: it must not contain NUL.
    pub fn validate_app_user_model_id(app_id: &str) -> (r: Result<(), OperationError>)
        ensures
            r is Ok <==> !app_id@.contains('\0'),
            r matches Err(e) ==> e.operation@ == VALIDATE_APP_USER_MODEL_ID_OPERATION@
                && e.message@ == NUL_APP_ID_MESSAGE@ && e.executable_path is None
                && e.shortcut_path is None && e.webview_data_directory is None,
    {
        let n = app_id.unicode_len();
        let mut i: usize = 0;
        while i < n
            invariant
                n == app_id@.len(),
                i <= n,
                forall|j: int| 0 <= j < i ==> app_id@[j] != '\0',
            decreases n - i,
        {
            if app_id.get_char(i) == '\0' {
                assert(app_id@[i as int] == '\0');
                return Err(OperationError::plain(VALIDATE_APP_USER_MODEL_ID_OPERATION, NUL_APP_ID_MESSAGE));
            }
            i = i + 1;
        }
        Ok(())
    }

    /// Keeps the identity the host set, for the app built later.
    pub fn record_app_user_model_id(&mut self, app_id: String)
        requires
            old(self).wf(),
            !old(self).is_app_built(),
        ensures
            final(self).wf(),
            final(self).identity() == Some(app_id@),
            final(self).is_app_built() == old(self).is_app_built(),
            final(self).is_closed() == old(self).is_closed(),
            final(self).is_draining() == old(self).is_draining(),
    {
        self.app_user_model_id = Some(app_id);
    }

    /// The identifier the Tauri app is built with: the host's identity, or
    /// `Tauriless` when it set none.
    pub fn tauri_identifier(&self) -> (r: String)
        ensures
            r@ == match self.identity() {
                Some(id) => id,
                None => DEFAULT_IDENTIFIER@,
            },
    {
        match &self.app_user_model_id {
            Some(id) => id.clone(),
            None => DEFAULT_IDENTIFIER.to_owned(),
        }
    }

    /// Records that the Tauri app was built.
    pub fn mark_app_built(&mut self)
        requires
            old(self).wf(),
            !old(self).is_closed(),
        ensures
            final(self).wf(),
            final(self).is_app_built(),
            final(self).identity() == old(self).identity(),
            final(self).is_closed() == old(self).is_closed(),
            final(self).is_draining() == old(self).is_draining(),
    {
        self.app_built = true;
    }

    /// Starts a drain: refused from another thread, after shutdown, or while a
    /// drain runs; otherwise the runtime is draining until `finish_drain`.
    pub fn begin_drain(&mut self, on_owner_thread: bool) -> (r: Result<(), Error>)
        requires
            old(self).wf(),
        ensures
            drain_started(*old(self), *final(self), on_owner_thread, r),
    {
        if !on_owner_thread {
            return Err(Error::WrongThread);
        }
        if self.closed {
            return Err(Error::Shutdown);
        }
        if self.draining {
            return Err(Error::ReentrantDrain);
        }
        self.draining = true;
        Ok(())
    }

    /// Ends a drain and frames the collected messages as its batch.
    pub fn finish_drain(&mut self, messages: &Vec<Vec<u8>>) -> (r: Vec<u8>)
        requires
            old(self).wf(),
        ensures
            drain_finished(*old(self), *final(self), byte_texts(messages@), r@),
    {
        self.draining = false;
        encode_batch(messages)
    }

    /// Shuts the runtime down: refused from another thread; `Ok(false)` when it
    /// was already shut down; `Ok(true)` when this call shut it down, after which
    /// the caller unregisters every target and cleans up the app.
    pub fn shutdown(&mut self, on_owner_thread: bool) -> (r: Result<bool, Error>)
        requires
            old(self).wf(),
        ensures
            shut_down(*old(self), *final(self), on_owner_thread, r),
    {
        if !on_owner_thread {
            return Err(Error::WrongThread);
        }
        if self.closed {
            return Ok(false);
        }
        self.app_built = false;
        self.closed = true;
        Ok(true)
    }
}

/// `after` is what starting a drain makes of `before`, answered with `r`:
/// refused from another thread, after shutdown, or while a drain runs (in this
/// order), otherwise started; nothing else changes.
pub open spec fn drain_started(before: Tauriless, after: Tauriless, on_owner_thread: bool, r: Result<(), Error>) -> bool {
    &&& after.wf()
    &&& if !on_owner_thread {
        r matches Err(Error::WrongThread)
    } else if before.is_closed() {
        r matches Err(Error::Shutdown)
    } else if before.is_draining() {
        r matches Err(Error::ReentrantDrain)
    } else {
        r is Ok
    }
    &&& after.is_draining() == (before.is_draining() || r is Ok)
    &&& after.is_app_built() == before.is_app_built()
    &&& after.is_closed() == before.is_closed()
    &&& after.identity() == before.identity()
}

/// `after` is what shutting down makes of `before`, answered with `r`:
/// refused from another thread with nothing changed; otherwise the runtime is
/// shut down without an app, and `r` tells whether this call shut it down.
pub open spec fn shut_down(before: Tauriless, after: Tauriless, on_owner_thread: bool, r: Result<bool, Error>) -> bool {
    &&& after.wf()
    &&& !on_owner_thread ==> (r matches Err(Error::WrongThread) && after == before)
    &&& on_owner_thread ==> r == Ok::<bool, Error>(!before.is_closed())
    &&& on_owner_thread ==> after.is_closed() && !after.is_app_built()
    &&& after.identity() == before.identity()
    &&& after.is_draining() == before.is_draining()
}

/// `after` is what finishing a drain of `messages` makes of `before`, giving
/// `batch`: the batch frames exactly those messages, and the runtime is no
/// longer draining.
pub open spec fn drain_finished(before: Tauriless, after: Tauriless, messages: Seq<Seq<u8>>, batch: Seq<u8>) -> bool {
    &&& after.wf()
    &&& batch == batch_bytes(messages)
    &&& !after.is_draining()
    &&& after.is_app_built() == before.is_app_built()
    &&& after.is_closed() == before.is_closed()
    &&& after.identity() == before.identity()
}

/// Draining twice on the runtime's thread, emptying the outbox each time:
/// both drains start, the first batch frames every message queued before it,
/// in queue order, and the second frames none, `{"messages":[]}`.
pub proof fn law_drain_returns_the_queue_once(
    t0: Tauriless,
    t1: Tauriless,
    t2: Tauriless,
    t3: Tauriless,
    t4: Tauriless,
    first: Result<(), Error>,
    second: Result<(), Error>,
    o0: Outbox,
    o1: Outbox,
    o2: Outbox,
    taken1: Seq<Seq<u8>>,
    taken2: Seq<Seq<u8>>,
    batch1: Seq<u8>,
    batch2: Seq<u8>,
)
    requires
        !t0.is_closed(),
        !t0.is_draining(),
        drain_started(t0, t1, true, first),
        emptied(o0, o1, taken1),
        drain_finished(t1, t2, taken1, batch1),
        drain_started(t2, t3, true, second),
        emptied(o1, o2, taken2),
        drain_finished(t3, t4, taken2, batch2),
    ensures
        first is Ok,
        second is Ok,
        batch1 == batch_bytes(o0.queued()),
        batch2 == batch_head() + batch_tail(),
{
    assert(taken2 =~= Seq::<Seq<u8>>::empty());
    assert(comma_joined(taken2) =~= Seq::<u8>::empty());
    assert(batch_head() + comma_joined(taken2) =~= batch_head());
}

/// Shutting down twice is harmless: the second shutdown answers `Ok(false)`
/// and the runtime stays shut down.
pub proof fn law_shutdown_is_idempotent(
    t0: Tauriless,
    t1: Tauriless,
    t2: Tauriless,
    first: Result<bool, Error>,
    second: Result<bool, Error>,
)
    requires
        shut_down(t0, t1, true, first),
        shut_down(t1, t2, true, second),
    ensures
        second == Ok::<bool, Error>(false),
        t2.is_closed(),
        !t2.is_app_built(),
{
}

/// Once shut down, the runtime refuses every request on its own thread, and
/// every drain, with `Error::Shutdown`.
pub proof fn law_shut_down_runtime_refuses_work(
    t0: Tauriless,
    t1: Tauriless,
    r: Result<bool, Error>,
    request: Result<Request, String>,
    sent: Result<Route, Error>,
    t2: Tauriless,
    drained: Result<(), Error>,
)
    requires
        shut_down(t0, t1, true, r),
        is_send_outcome(sent, true, t1.is_closed(), t1.is_app_built(), request),
        drain_started(t1, t2, true, drained),
    ensures
        sent matches Err(Error::Shutdown),
        drained matches Err(Error::Shutdown),
{
}

/// A drain cannot start while another runs: after a drain started, starting
/// another before it finished is refused with `Error::ReentrantDrain`.
pub proof fn law_drain_is_not_reentrant(
    t0: Tauriless,
    t1: Tauriless,
    t2: Tauriless,
    first: Result<(), Error>,
    second: Result<(), Error>,
)
    requires
        drain_started(t0, t1, true, first),
        first is Ok,
        drain_started(t1, t2, true, second),
    ensures
        second matches Err(Error::ReentrantDrain),
{
}

/// Before the app is built, a forwarded command is refused: the first command
/// that reaches Tauri must create a webview window.
pub proof fn law_forwarding_needs_an_app(r: Result<Route, Error>, closed: bool, request: Request)
    requires
        request_problem(request) is None,
        route_of(request.cmd@) == Route::Forward,
        is_send_outcome(r, true, closed, false, Ok(request)),
    ensures
        r is Err,
{
}

/// Every window creation goes through the bridge: a valid request to
/// `plugin:webview|create_webview_window` on an open runtime, on its thread, is
/// routed to `Route::CreateWebviewWindow`, whether or not the app is built.
pub proof fn law_window_creation_is_always_intercepted(r: Result<Route, Error>, app_built: bool, request: Request)
    requires
        request.cmd@ == "plugin:webview|create_webview_window"@,
        request.id != IdKind::Other,
        request.webview matches Some(w) ==> w@.len() > 0,
        is_send_outcome(r, true, false, app_built, Ok(request)),
    ensures
        r == Ok::<Route, Error>(Route::CreateWebviewWindow),
{
    reveal_strlit("plugin:webview|create_webview_window");
    reveal_strlit("tauriless:set-app-user-model-id");
    reveal_strlit("tauriless:asset-response");
    reveal_strlit("tauriless:subscribe");
    reveal_strlit("tauriless:unsubscribe");
    assert(request.cmd@[0] == 'p');
    assert(SET_APP_USER_MODEL_ID_COMMAND@[0] == 't');
    assert(RESPONSE_COMMAND@[0] == 't');
    assert(SUBSCRIBE_COMMAND@[0] == 't');
    assert(UNSUBSCRIBE_COMMAND@[0] == 't');
}

/// The route of an accepted request depends only on its command: on an open
/// runtime, two requests with the same command that are both accepted go the
/// same way, whether the app was built for one and not the other.
pub proof fn law_route_depends_only_on_command(
    r1: Result<Route, Error>,
    built1: bool,
    request1: Request,
    r2: Result<Route, Error>,
    built2: bool,
    request2: Request,
)
    requires
        request1.cmd@ == request2.cmd@,
        is_send_outcome(r1, true, false, built1, Ok(request1)),
        is_send_outcome(r2, true, false, built2, Ok(request2)),
        r1 is Ok,
        r2 is Ok,
    ensures
        r1 == r2,
{
}

/// The names forwarded from the start are exactly Tauri 2's sixteen core window
/// and webview events (file drops as `tauri://drag-*`), the deep-link, log and
/// store plugin events, and the webview's message to the host, in this order.
pub proof fn law_initial_forwarded_names(names: Seq<&str>)
    requires
        str_texts(names) == forwarded_event_list(),
    ensures
        str_texts(names) == seq![
            "tauri://resize"@, "tauri://move"@, "tauri://close-requested"@, "tauri://destroyed"@,
            "tauri://focus"@, "tauri://blur"@, "tauri://scale-change"@, "tauri://theme-changed"@,
            "tauri://window-created"@, "tauri://webview-created"@, "tauri://drag-enter"@,
            "tauri://drag-over"@, "tauri://drag-drop"@, "tauri://drag-leave"@, "tauri://suspended"@,
            "tauri://resumed"@, "deep-link://new-url"@, "log://log"@, "store://change"@,
            "tauriless://webview-message"@,
        ],
        str_texts(names).contains("tauri://drag-drop"@),
{
    assert(str_texts(names)[12] == "tauri://drag-drop"@);
}


} // verus!
