//! Which Tauri events are forwarded to the host, and which listeners every
//! registered window or webview holds for them.
//!
//! The host changes the set of forwarded event names with the bridge's
//! subscribe and unsubscribe commands. Every registered target (a window, a
//! webview window or a webview) listens to exactly the forwarded names. The
//! library says which listeners to make (`listen_requests`,
//! `subscription_targets`) and takes back their ids, one per request; the ids
//! that must be released are handed back to the caller, so every listener is
//! made and released exactly once by the caller.

use vstd::prelude::*;
use vstd::string::*;
use crate::order::{lemma_text_less_irreflexive, lemma_text_less_total, lemma_text_less_transitive, text_less, text_lt};
use crate::text::{ascii_alphanumeric, char_is_alphanumeric, concat, copy_text, same_text, texts, unicode_alphanumeric};

verus! {

/// The bridge command that adds an event name to the forwarded set.
pub const SUBSCRIBE_COMMAND: &'static str = "tauriless:subscribe";

/// The bridge command that removes an event name from the forwarded set.
pub const UNSUBSCRIBE_COMMAND: &'static str = "tauriless:unsubscribe";

/// The reason given for an event name that Tauri would not accept.
pub const EVENT_NAME_ERROR: &'static str = "event must be non-empty and contain only alphanumeric characters, `-`, `/`, `:` and `_`";

/// A character Tauri accepts in an event name.
pub open spec fn is_event_name_char(c: char) -> bool {
    unicode_alphanumeric(c) || c == '-' || c == '/' || c == ':' || c == '_'
}

/// A non-empty name made of event-name characters.
pub open spec fn is_valid_event_name(name: Seq<char>) -> bool {
    name.len() > 0 && forall|i: int| 0 <= i < name.len() ==> is_event_name_char(#[trigger] name[i])
}

/// Every character is ASCII.
pub open spec fn is_ascii_text(s: Seq<char>) -> bool {
    forall|i: int| 0 <= i < s.len() ==> (#[trigger] s[i] as u32) < 128
}

/// An ASCII character Tauri accepts in an event name: a letter, a digit, `-`,
/// `/`, `:` or `_`.
pub open spec fn is_ascii_event_name_char(c: char) -> bool {
    ascii_alphanumeric(c) || c == '-' || c == '/' || c == ':' || c == '_'
}

/// Checks an event name against the characters Tauri accepts; `*` is no
/// wildcard. For an ASCII name the answer is stated in full: accepted exactly
/// when it is non-empty and made of letters, digits, `-`, `/`, `:` and `_`.
pub fn validate_event_name(event: &str) -> (r: Result<(), String>)
    ensures
        r is Ok <==> is_valid_event_name(event@),
        is_ascii_text(event@) ==> (r is Ok <==> (event@.len() > 0 && forall|i: int|
            0 <= i < event@.len() ==> is_ascii_event_name_char(#[trigger] event@[i]))),
        r matches Err(m) ==> m@ == EVENT_NAME_ERROR@,
{
    let n = event.unicode_len();
    let mut i: usize = 0;
    while i < n
        invariant
            n == event@.len(),
            i <= n,
            forall|j: int| 0 <= j < i ==> is_event_name_char(#[trigger] event@[j]),
            forall|j: int| 0 <= j < i && (event@[j] as u32) < 128 ==> is_ascii_event_name_char(#[trigger] event@[j]),
        decreases n - i,
    {
        let c = event.get_char(i);
        if !(char_is_alphanumeric(c) || c == '-' || c == '/' || c == ':' || c == '_') {
            proof {
                if is_ascii_text(event@) {
                    assert((event@[i as int] as u32) < 128);
                    assert(!is_ascii_event_name_char(event@[i as int]));
                }
            }
            return Err(EVENT_NAME_ERROR.to_owned());
        }
        i = i + 1;
    }
    if n == 0 {
        return Err(EVENT_NAME_ERROR.to_owned());
    }
    Ok(())
}

/// The commands handled by `EventSubscriptions::handle`.
pub open spec fn is_subscription_command(command: Seq<char>) -> bool {
    command == SUBSCRIBE_COMMAND@ || command == UNSUBSCRIBE_COMMAND@
}

/// What kind of Tauri object a target is; its name is the `source` of the
/// events forwarded from it.
#[derive(Debug, Clone, Copy, PartialEq, Eq, Structural)]
pub enum TargetKind {
    Window,
    WebviewWindow,
    Webview,
}

impl TargetKind {
    /// The `source` field of events forwarded from this kind of target.
    pub fn source(&self) -> (r: &'static str)
        ensures
            r@ == target_source(*self),
    {
        match self {
            TargetKind::Window => "window",
            TargetKind::WebviewWindow => "webview-window",
            TargetKind::Webview => "webview",
        }
    }
}

pub open spec fn target_source(kind: TargetKind) -> Seq<char> {
    match kind {
        TargetKind::Window => "window"@,
        TargetKind::WebviewWindow => "webview-window"@,
        TargetKind::Webview => "webview"@,
    }
}

/// One listener a target holds: the event it listens to and Tauri's id for it.
#[derive(Debug)]
pub struct Listener {
    pub event: String,
    pub id: u32,
}

/// A registered window or webview, keyed by its label.
#[derive(Debug)]
pub struct TargetSubscriptions {
    /// The target's label, which is also its key.
    pub key: String,
    pub kind: TargetKind,
    /// The id of the listener that unregisters the target when it is destroyed.
    pub housekeeping: u32,
    pub listeners: Vec<Listener>,
}

/// The event names a target's listeners listen to, in order.
pub open spec fn listened_events(t: TargetSubscriptions) -> Seq<Seq<char>> {
    t.listeners@.map_values(|l: Listener| l.event@)
}

/// The ids a target holds: its housekeeping listener first, then its event listeners.
pub open spec fn held_ids(t: TargetSubscriptions) -> Seq<u32> {
    seq![t.housekeeping] + t.listeners@.map_values(|l: Listener| l.id)
}

/// No text occurs twice.
pub open spec fn distinct_texts(s: Seq<Seq<char>>) -> bool {
    forall|i: int, j: int| 0 <= i < s.len() && 0 <= j < s.len() && i != j ==> s[i] != s[j]
}

/// Each text below the next: ascending and without repetition.
pub open spec fn strictly_sorted(s: Seq<Seq<char>>) -> bool {
    forall|i: int, j: int| 0 <= i < j < s.len() ==> text_less(#[trigger] s[i], #[trigger] s[j])
}

/// The forwarded event names and the registered targets.
pub struct EventSubscriptions {
    active: Vec<String>,
    targets: Vec<TargetSubscriptions>,
}

impl EventSubscriptions {
    /// The forwarded event names, in ascending order.
    pub closed spec fn active_list(&self) -> Seq<Seq<char>> {
        texts(self.active@)
    }

    /// The set of forwarded event names.
    pub open spec fn active_events(&self) -> Set<Seq<char>> {
        self.active_list().to_set()
    }

    /// The registered targets, in registration order.
    pub closed spec fn target_list(&self) -> Seq<TargetSubscriptions> {
        self.targets@
    }

    /// The keys of the registered targets.
    pub open spec fn target_keys(&self) -> Seq<Seq<char>> {
        self.target_list().map_values(|t: TargetSubscriptions| t.key@)
    }

    /// The well-formedness every operation keeps: the forwarded names are
    /// ascending without repetition, target keys are distinct, and every target
    /// listens to every forwarded name exactly once and to nothing else.
    pub open spec fn wf(&self) -> bool {
        &&& strictly_sorted(self.active_list())
        &&& distinct_texts(self.target_keys())
        &&& forall|i: int| 0 <= i < self.target_list().len() ==> {
            let t = #[trigger] self.target_list()[i];
            &&& distinct_texts(listened_events(t))
            &&& listened_events(t).to_set() == self.active_events()
        }
    }

    /// The ids held by all registered targets, target after target.
    pub open spec fn all_held_ids(&self) -> Seq<u32> {
        ids_of_targets(self.target_list())
    }
}

/// The ids held by the given targets, in order.
pub open spec fn ids_of_targets(ts: Seq<TargetSubscriptions>) -> Seq<u32>
    decreases ts.len(),
{
    if ts.len() == 0 {
        seq![]
    } else {
        ids_of_targets(ts.drop_last()) + held_ids(ts.last())
    }
}

/// A strictly ascending list contains `x` exactly where the search stops.
proof fn lemma_slot(s: Seq<Seq<char>>, x: Seq<char>, k: int)
    requires
        strictly_sorted(s),
        0 <= k <= s.len(),
        forall|j: int| 0 <= j < k ==> text_less(#[trigger] s[j], x),
        k < s.len() ==> !text_less(s[k], x),
    ensures
        s.contains(x) <==> (k < s.len() && s[k] == x),
{
    if s.contains(x) {
        let m = choose|m: int| 0 <= m < s.len() && s[m] == x;
        if m < k {
            lemma_text_less_irreflexive(x);
        } else if m > k {
            assert(text_less(s[k], s[m]));
        }
    }
}

impl EventSubscriptions {
    /// The first position whose name is not below `x`.
    fn find_slot(&self, x: &str) -> (k: usize)
        requires
            strictly_sorted(self.active_list()),
        ensures
            k <= self.active_list().len(),
            forall|j: int| 0 <= j < k ==> text_less(#[trigger] self.active_list()[j], x@),
            k < self.active_list().len() ==> !text_less(self.active_list()[k as int], x@),
            self.active_list().contains(x@) <==> (k < self.active_list().len() && self.active_list()[k as int] == x@),
    {
        let n = self.active.len();
        let mut k: usize = 0;
        while k < n && text_lt(self.active[k].as_str(), x)
            invariant
                n == self.active@.len(),
                k <= n,
                forall|j: int| 0 <= j < k ==> text_less(#[trigger] texts(self.active@)[j], x@),
            decreases n - k,
        {
            k = k + 1;
        }
        proof {
            lemma_slot(self.active_list(), x@, k as int);
        }
        k
    }

    /// Whether `event` is forwarded.
    pub fn is_active(&self, event: &str) -> (r: bool)
        requires
            self.wf(),
        ensures
            r == self.active_events().contains(event@),
    {
        let k = self.find_slot(event);
        k < self.active.len() && same_text(self.active[k].as_str(), event)
    }

    /// Adds `event` to the forwarded names; false when it was already there.
    fn insert_active(&mut self, event: String) -> (changed: bool)
        requires
            strictly_sorted(old(self).active_list()),
        ensures
            strictly_sorted(final(self).active_list()),
            changed == !old(self).active_events().contains(event@),
            final(self).active_events() == old(self).active_events().insert(event@),
            final(self).targets == old(self).targets,
    {
        let n = self.active.len();
        let k = self.find_slot(event.as_str());
        let ghost s = self.active_list();
        if k < n && same_text(self.active[k].as_str(), event.as_str()) {
            proof {
                assert(s.to_set().contains(event@));
                assert(s.to_set().insert(event@) =~= s.to_set());
            }
            return false;
        }
        self.active.insert(k, event);
        proof {
            let t = texts(self.active@);
            assert(t =~= s.subrange(0, k as int).push(event@) + s.subrange(k as int, n as int));
            if k < n {
                lemma_text_less_total(s[k as int], event@);
            }
            assert forall|i: int, j: int| 0 <= i < j < t.len() implies text_less(#[trigger] t[i], #[trigger] t[j]) by {
                if j <= k {
                } else if i < k {
                    assert(t[i] == s[i]);
                    assert(t[j] == s[j - 1]);
                    if i < j - 1 {
                        assert(text_less(s[i], s[j - 1]));
                    }
                } else if i == k {
                    assert(t[j] == s[j - 1]);
                    if j - 1 > k {
                        assert(text_less(s[k as int], s[j - 1]));
                        lemma_text_less_transitive(event@, s[k as int], s[j - 1]);
                    }
                } else {
                    assert(t[i] == s[i - 1]);
                    assert(t[j] == s[j - 1]);
                }
            }
            assert forall|x: Seq<char>| t.to_set().contains(x) <==> s.to_set().insert(event@).contains(x) by {
                if t.contains(x) {
                    let m = choose|m: int| 0 <= m < t.len() && t[m] == x;
                    if m < k {
                        assert(s[m] == x);
                    } else if m > k {
                        assert(s[m - 1] == x);
                    }
                }
                if s.contains(x) {
                    let m = choose|m: int| 0 <= m < s.len() && s[m] == x;
                    if m < k {
                        assert(t[m] == x);
                    } else {
                        assert(t[m + 1] == x);
                    }
                }
                if x == event@ {
                    assert(t[k as int] == x);
                }
            }
            assert(t.to_set() =~= s.to_set().insert(event@));
        }
        true
    }
}

impl EventSubscriptions {
    /// Removes `event` from the forwarded names; false when it was not there.
    fn remove_active(&mut self, event: &str) -> (removed: bool)
        requires
            strictly_sorted(old(self).active_list()),
        ensures
            strictly_sorted(final(self).active_list()),
            removed == old(self).active_events().contains(event@),
            final(self).active_events() == old(self).active_events().remove(event@),
            final(self).targets == old(self).targets,
    {
        let n = self.active.len();
        let k = self.find_slot(event);
        let ghost s = self.active_list();
        if k < n && same_text(self.active[k].as_str(), event) {
            self.active.remove(k);
            proof {
                let t = texts(self.active@);
                assert(t =~= s.remove(k as int));
                assert forall|i: int, j: int| 0 <= i < j < t.len() implies text_less(#[trigger] t[i], #[trigger] t[j]) by {
                    let i0 = if i < k { i } else { i + 1 };
                    let j0 = if j < k { j } else { j + 1 };
                    assert(t[i] == s[i0]);
                    assert(t[j] == s[j0]);
                }
                assert forall|x: Seq<char>| t.to_set().contains(x) <==> s.to_set().remove(event@).contains(x) by {
                    if t.contains(x) {
                        let m = choose|m: int| 0 <= m < t.len() && t[m] == x;
                        let m0 = if m < k { m } else { m + 1 };
                        assert(s[m0] == x);
                        if x == event@ {
                            if m0 < k {
                                lemma_text_less_irreflexive(x);
                            } else {
                                assert(text_less(s[k as int], s[m0]));
                                lemma_text_less_irreflexive(x);
                            }
                        }
                    }
                    if s.contains(x) && x != event@ {
                        let m = choose|m: int| 0 <= m < s.len() && s[m] == x;
                        if m < k {
                            assert(t[m] == x);
                        } else {
                            assert(m != k);
                            assert(t[m - 1] == x);
                        }
                    }
                }
                assert(t.to_set() =~= s.to_set().remove(event@));
            }
            return true;
        }
        proof {
            assert(s.to_set().remove(event@) =~= s.to_set());
        }
        false
    }
}

/// The view of a list of string slices.
pub open spec fn str_texts(v: Seq<&str>) -> Seq<Seq<char>> {
    v.map_values(|s: &str| s@)
}

impl EventSubscriptions {
    /// Starts with `default_events` forwarded and no target registered.
    pub fn new(default_events: &[&str]) -> (r: Self)
        ensures
            r.wf(),
            r.active_events() == str_texts(default_events@).to_set(),
            r.target_list().len() == 0,
    {
        let mut r = EventSubscriptions { active: Vec::new(), targets: Vec::new() };
        let n = default_events.len();
        let mut i: usize = 0;
        assert(texts(r.active@).to_set() =~= Set::empty());
        while i < n
            invariant
                n == default_events@.len(),
                i <= n,
                strictly_sorted(r.active_list()),
                r.targets@.len() == 0,
                r.active_events() == str_texts(default_events@.subrange(0, i as int)).to_set(),
            decreases n - i,
        {
            let e = default_events[i];
            proof {
                let pre = str_texts(default_events@.subrange(0, i as int));
                let nxt = str_texts(default_events@.subrange(0, i + 1));
                assert(nxt =~= pre.push(e@));
                assert(nxt.to_set() =~= pre.to_set().insert(e@)) by {
                    assert forall|x: Seq<char>| nxt.contains(x) <==> pre.to_set().insert(e@).contains(x) by {
                        if nxt.contains(x) {
                            let m = choose|m: int| 0 <= m < nxt.len() && nxt[m] == x;
                            if m < pre.len() {
                                assert(pre[m] == x);
                            }
                        }
                        if pre.contains(x) {
                            let m = choose|m: int| 0 <= m < pre.len() && pre[m] == x;
                            assert(nxt[m] == x);
                        }
                        if x == e@ {
                            assert(nxt[pre.len() as int] == x);
                        }
                    }
                }
            }
            r.insert_active(copy_text(e));
            i = i + 1;
        }
        assert(default_events@.subrange(0, n as int) =~= default_events@);
        r
    }

    /// Whether `command` is one of the subscription commands.
    pub fn handles(command: &str) -> (r: bool)
        ensures
            r == is_subscription_command(command@),
    {
        same_text(command, SUBSCRIBE_COMMAND) || same_text(command, UNSUBSCRIBE_COMMAND)
    }

    /// Forwards `event` too. When it was not forwarded yet, the caller has
    /// made one listener for it on each target named by `subscription_targets`,
    /// with ids `ids` in target order, and each target keeps exactly that one;
    /// when it was forwarded, `ids` is empty and nothing changes. Returns
    /// whether the forwarded names changed.
    pub fn subscribe(&mut self, event: String, ids: Vec<u32>) -> (changed: bool)
        requires
            old(self).wf(),
            ids@.len() == (if old(self).active_events().contains(event@) { 0 } else { old(self).target_list().len() }),
        ensures
            subscribed(*old(self), *final(self), event@, changed),
            changed ==> listeners_given(*final(self), ids@),
    {
        let ghost before = self.active_events();
        let changed = self.insert_active(event.clone());
        if changed {
            let n = self.targets.len();
            let mut i: usize = 0;
            while i < n
                invariant
                    n == self.targets@.len(),
                    ids@.len() == n,
                    i <= n,
                    strictly_sorted(self.active_list()),
                    !before.contains(event@),
                    self.active_events() == before.insert(event@),
                    self.target_keys() == old(self).target_keys(),
                    forall|j: int| 0 <= j < n ==> {
                        let t = #[trigger] self.target_list()[j];
                        &&& distinct_texts(listened_events(t))
                        &&& listened_events(t).to_set() == (if j < i { before.insert(event@) } else { before })
                    },
                    old(self).targets@.len() == n,
                    forall|j: int| 0 <= j < n ==> if j < i {
                        &&& listener_added(old(self).targets@[j], #[trigger] self.targets@[j], event@)
                        &&& self.targets@[j].listeners@.last().id == ids@[j]
                    } else {
                        #[trigger] self.targets@[j] == old(self).targets@[j]
                    },
                decreases n - i,
            {
                let id = ids[i];
                let ghost t0 = self.targets@[i as int];
                let ghost prev = self.targets@;
                self.targets[i].listeners.push(Listener { event: event.clone(), id });
                proof {
                    let t1 = self.targets@[i as int];
                    let l0 = listened_events(t0);
                    let l1 = listened_events(t1);
                    assert(l1 =~= l0.push(event@));
                    assert(l0.to_set() == before);
                    assert forall|a: int, b: int| 0 <= a < l1.len() && 0 <= b < l1.len() && a != b implies l1[a] != l1[b] by {
                        if a == l0.len() && b < l0.len() {
                            assert(l0.to_set().contains(l0[b]));
                        } else if b == l0.len() && a < l0.len() {
                            assert(l0.to_set().contains(l0[a]));
                        }
                    }
                    assert forall|x: Seq<char>| l1.to_set().contains(x) <==> before.insert(event@).contains(x) by {
                        if l1.contains(x) {
                            let m = choose|m: int| 0 <= m < l1.len() && l1[m] == x;
                            if m < l0.len() {
                                assert(l0[m] == x);
                                assert(l0.contains(x));
                            }
                        }
                        if l0.contains(x) {
                            let m = choose|m: int| 0 <= m < l0.len() && l0[m] == x;
                            assert(l1[m] == x);
                        }
                        if x == event@ {
                            assert(l1[l0.len() as int] == x);
                        }
                    }
                    assert(l1.to_set() =~= before.insert(event@));
                    let prev_keys = prev.map_values(|t: TargetSubscriptions| t.key@);
                    assert(self.target_keys() =~= prev_keys) by {
                        assert forall|j: int| 0 <= j < n implies self.target_keys()[j] == prev_keys[j] by {
                            if j != i {
                                assert(self.targets@[j] == prev[j]);
                            }
                        }
                    }
                    assert forall|j: int| 0 <= j < n && j != i implies #[trigger] self.target_list()[j] == prev[j] by {}
                    assert(self.targets@[i as int].listeners@ == t0.listeners@.push(Listener { event: event, id }));
                    assert(self.targets@[i as int].listeners@.drop_last() =~= t0.listeners@);
                }
                i = i + 1;
            }
        } else {
            assert(before.insert(event@) =~= before);
        }
        assert(self.target_keys() == old(self).target_keys());
        assert(self.active_events() == before.insert(event@));
        changed
    }
}

/// `after` is what subscribing to `event` makes of `before`, answering
/// `changed`: the name is forwarded, `changed` tells whether it was not before,
/// and the targets stay registered.
pub open spec fn subscribed(before: EventSubscriptions, after: EventSubscriptions, event: Seq<char>, changed: bool) -> bool {
    &&& after.wf()
    &&& changed == !before.active_events().contains(event)
    &&& after.active_events() == before.active_events().insert(event)
    &&& after.target_keys() == before.target_keys()
    &&& after.target_list().len() == before.target_list().len()
    &&& forall|j: int| 0 <= j < before.target_list().len() ==> if changed {
        listener_added(before.target_list()[j], #[trigger] after.target_list()[j], event)
    } else {
        #[trigger] after.target_list()[j] == before.target_list()[j]
    }
}

/// Each target's last listener has the id given for it, in target order.
pub open spec fn listeners_given(s: EventSubscriptions, ids: Seq<u32>) -> bool {
    forall|j: int| 0 <= j < s.target_list().len() ==> (#[trigger] s.target_list()[j]).listeners@.last().id == ids[j]
}

/// Target `after` is `before` with one more listener, for `event`, at the end.
pub open spec fn listener_added(before: TargetSubscriptions, after: TargetSubscriptions, event: Seq<char>) -> bool {
    &&& after.key == before.key
    &&& after.kind == before.kind
    &&& after.housekeeping == before.housekeeping
    &&& after.listeners@.len() == before.listeners@.len() + 1
    &&& after.listeners@.drop_last() == before.listeners@
    &&& after.listeners@.last().event@ == event
}

/// Removing one element of a list without repetition removes exactly that element.
proof fn lemma_remove_distinct(l: Seq<Seq<char>>, m: int)
    requires
        distinct_texts(l),
        0 <= m < l.len(),
    ensures
        distinct_texts(l.remove(m)),
        l.remove(m).to_set() == l.to_set().remove(l[m]),
{
    let r = l.remove(m);
    assert forall|a: int, b: int| 0 <= a < r.len() && 0 <= b < r.len() && a != b implies r[a] != r[b] by {
        let a0 = if a < m { a } else { a + 1 };
        let b0 = if b < m { b } else { b + 1 };
        assert(r[a] == l[a0]);
        assert(r[b] == l[b0]);
    }
    assert forall|x: Seq<char>| r.to_set().contains(x) <==> l.to_set().remove(l[m]).contains(x) by {
        if r.contains(x) {
            let k = choose|k: int| 0 <= k < r.len() && r[k] == x;
            let k0 = if k < m { k } else { k + 1 };
            assert(l[k0] == x);
        }
        if l.contains(x) && x != l[m] {
            let k = choose|k: int| 0 <= k < l.len() && l[k] == x;
            if k < m {
                assert(r[k] == x);
            } else {
                assert(r[k - 1] == x);
            }
        }
    }
    assert(r.to_set() =~= l.to_set().remove(l[m]));
}

/// `after` is what unsubscribing from `event` makes of `before`, answering
/// `removed` and the ids `released`: the name is no longer forwarded,
/// `removed` tells whether it was, the targets stay registered, and when it
/// was forwarded each target, in order, gave up its listener for it.
pub open spec fn unsubscribed(
    before: EventSubscriptions,
    after: EventSubscriptions,
    event: Seq<char>,
    removed: bool,
    released: Seq<u32>,
) -> bool {
    &&& after.wf()
    &&& removed == before.active_events().contains(event)
    &&& after.active_events() == before.active_events().remove(event)
    &&& after.target_keys() == before.target_keys()
    &&& released.len() == (if removed { before.target_list().len() } else { 0 })
    &&& after.target_list().len() == before.target_list().len()
    &&& forall|j: int| 0 <= j < before.target_list().len() ==> if removed {
        listener_dropped(before.target_list()[j], #[trigger] after.target_list()[j], event, released[j])
    } else {
        #[trigger] after.target_list()[j] == before.target_list()[j]
    }
}

/// Target `after` is `before` without its listener for `event`, whose id is `id`.
pub open spec fn listener_dropped(before: TargetSubscriptions, after: TargetSubscriptions, event: Seq<char>, id: u32) -> bool {
    &&& after.key == before.key
    &&& after.kind == before.kind
    &&& after.housekeeping == before.housekeeping
    &&& exists|m: int|
        0 <= m < before.listeners@.len() && #[trigger] before.listeners@[m].event@ == event && before.listeners@[m].id == id
            && after.listeners@ == before.listeners@.remove(m)
}

impl EventSubscriptions {
    /// Stops forwarding `event`. When it was forwarded, every registered target
    /// drops its listener for it; returns whether the forwarded names changed and
    /// the ids of the dropped listeners, one per target in target order, which the
    /// caller releases with Tauri.
    pub fn unsubscribe(&mut self, event: &str) -> (r: (bool, Vec<u32>))
        requires
            old(self).wf(),
        ensures
            unsubscribed(*old(self), *final(self), event@, r.0, r.1@),
    {
        let ghost before = self.active_events();
        let mut released: Vec<u32> = Vec::new();
        let removed = self.remove_active(event);
        if removed {
            let n = self.targets.len();
            let mut i: usize = 0;
            while i < n
                invariant
                    n == self.targets@.len(),
                    n == old(self).targets@.len(),
                    i <= n,
                    released@.len() == i,
                    strictly_sorted(self.active_list()),
                    before.contains(event@),
                    self.active_events() == before.remove(event@),
                    self.target_keys() == old(self).target_keys(),
                    forall|j: int| i <= j < n ==> #[trigger] self.target_list()[j] == old(self).target_list()[j],
                    forall|j: int| 0 <= j < n ==> {
                        let t = #[trigger] self.target_list()[j];
                        &&& distinct_texts(listened_events(t))
                        &&& listened_events(t).to_set() == (if j < i { before.remove(event@) } else { before })
                    },
                    forall|j: int| 0 <= j < i ==> listener_dropped(old(self).targets@[j], #[trigger] self.targets@[j], event@, released@[j]),
                decreases n - i,
            {
                let ghost t0 = self.targets@[i as int];
                let ghost prev = self.targets@;
                let ghost l0 = listened_events(t0);
                assert(t0 == old(self).target_list()[i as int]);
                let count = self.targets[i].listeners.len();
                let mut m: usize = 0;
                proof {
                    assert(l0.to_set().contains(event@));
                    assert(l0.contains(event@));
                }
                while m < count && !same_text(self.targets[i].listeners[m].event.as_str(), event)
                    invariant
                        count == t0.listeners@.len(),
                        self.targets@ == prev,
                        t0 == prev[i as int],
                        i < n,
                        n == prev.len(),
                        l0 == listened_events(t0),
                        l0.contains(event@),
                        m <= count,
                        forall|q: int| 0 <= q < m ==> l0[q] != event@,
                    decreases count - m,
                {
                    m = m + 1;
                }
                proof {
                    if m == count {
                        let q = choose|q: int| 0 <= q < l0.len() && l0[q] == event@;
                        assert(false);
                    }
                }
                let listener = self.targets[i].listeners.remove(m);
                released.push(listener.id);
                proof {
                    let t1 = self.targets@[i as int];
                    assert(listened_events(t1) =~= l0.remove(m as int));
                    lemma_remove_distinct(l0, m as int);
                    assert(l0[m as int] == event@);
                    assert(t0.listeners@[m as int].event@ == event@);
                    let prev_keys = prev.map_values(|t: TargetSubscriptions| t.key@);
                    assert(self.target_keys() =~= prev_keys) by {
                        assert forall|j: int| 0 <= j < n implies self.target_keys()[j] == prev_keys[j] by {
                            if j != i {
                                assert(self.targets@[j] == prev[j]);
                            }
                        }
                    }
                    assert forall|j: int| 0 <= j < n && j != i implies #[trigger] self.target_list()[j] == prev[j] by {}
                    assert(t1.listeners@ == t0.listeners@.remove(m as int));
                    assert(t0.listeners@[m as int].event@ == event@);
                    assert(listener_dropped(old(self).targets@[i as int], t1, event@, listener.id));
                    assert forall|j: int| 0 <= j < i + 1 implies listener_dropped(old(self).targets@[j], #[trigger] self.targets@[j], event@, released@[j]) by {
                        if j < i {
                            assert(self.targets@[j] == prev[j]);
                        }
                    }
                }
                i = i + 1;
            }
        } else {
            assert(before.remove(event@) =~= before);
        }
        assert(self.target_keys() == old(self).target_keys());
        (removed, released)
    }
}

/// The outcome of removing the target keyed `key` from `before`, leaving
/// `after` and handing back `released`.
pub open spec fn target_removed(
    before: Seq<TargetSubscriptions>,
    key: Seq<char>,
    after: Seq<TargetSubscriptions>,
    released: Option<Seq<u32>>,
) -> bool {
    match released {
        Some(ids) => exists|m: int|
            0 <= m < before.len() && #[trigger] before[m].key@ == key && ids == held_ids(before[m])
                && after == before.remove(m),
        None => (forall|m: int| 0 <= m < before.len() ==> #[trigger] before[m].key@ != key) && after == before,
    }
}

/// The ids a target holds, as a vector.
fn ids_held_by(t: &TargetSubscriptions) -> (r: Vec<u32>)
    ensures
        r@ == held_ids(*t),
{
    let mut r: Vec<u32> = Vec::new();
    r.push(t.housekeeping);
    let n = t.listeners.len();
    let mut i: usize = 0;
    while i < n
        invariant
            n == t.listeners@.len(),
            i <= n,
            r@ == seq![t.housekeeping] + t.listeners@.subrange(0, i as int).map_values(|l: Listener| l.id),
        decreases n - i,
    {
        r.push(t.listeners[i].id);
        assert(t.listeners@.subrange(0, i + 1).map_values(|l: Listener| l.id) =~= t.listeners@.subrange(0, i as int).map_values(|l: Listener| l.id).push(t.listeners@[i as int].id));
        i = i + 1;
    }
    assert(t.listeners@.subrange(0, n as int) =~= t.listeners@);
    r
}

impl EventSubscriptions {
    /// The position of the target keyed `key`, if any.
    fn find_target(&self, key: &str) -> (r: Option<usize>)
        ensures
            match r {
                Some(m) => m < self.targets@.len() && self.targets@[m as int].key@ == key@,
                None => forall|m: int| 0 <= m < self.targets@.len() ==> #[trigger] self.targets@[m].key@ != key@,
            },
    {
        let n = self.targets.len();
        let mut m: usize = 0;
        while m < n
            invariant
                n == self.targets@.len(),
                m <= n,
                forall|q: int| 0 <= q < m ==> #[trigger] self.targets@[q].key@ != key@,
            decreases n - m,
        {
            if same_text(self.targets[m].key.as_str(), key) {
                return Some(m);
            }
            m = m + 1;
        }
        None
    }

    /// Unregisters the target keyed `key`; returns the ids it held (its
    /// housekeeping listener first), which the caller releases with Tauri,
    /// or `None` when no target has that key.
    pub fn remove_target(&mut self, key: &str) -> (r: Option<Vec<u32>>)
        requires
            old(self).wf(),
        ensures
            final(self).wf(),
            final(self).active_list() == old(self).active_list(),
            target_removed(old(self).target_list(), key@, final(self).target_list(), match r {
                Some(ids) => Some(ids@),
                None => None,
            }),
    {
        match self.find_target(key) {
            Some(m) => {
                let ids = ids_held_by(&self.targets[m]);
                let ghost before = self.targets@;
                self.targets.remove(m);
                proof {
                    let after = self.targets@;
                    assert(after =~= before.remove(m as int));
                    let kb = before.map_values(|t: TargetSubscriptions| t.key@);
                    assert(self.target_keys() =~= kb.remove(m as int));
                    assert forall|a: int, b: int| 0 <= a < after.len() && 0 <= b < after.len() && a != b
                        implies self.target_keys()[a] != self.target_keys()[b] by {
                        let a0 = if a < m { a } else { a + 1 };
                        let b0 = if b < m { b } else { b + 1 };
                        assert(self.target_keys()[a] == kb[a0]);
                        assert(self.target_keys()[b] == kb[b0]);
                    }
                    assert forall|j: int| 0 <= j < after.len() implies #[trigger] after[j] == before[if j < m { j } else { j + 1 }] by {}
                    assert forall|j: int| 0 <= j < after.len() implies {
                        let t = #[trigger] self.target_list()[j];
                        &&& distinct_texts(listened_events(t))
                        &&& listened_events(t).to_set() == self.active_events()
                    } by {
                        let j0 = if j < m { j } else { j + 1 };
                        assert(after[j] == before[j0]);
                        assert(old(self).target_list()[j0] == before[j0]);
                    }
                    assert(before[m as int].key@ == key@);
                }
                Some(ids)
            },
            None => None,
        }
    }

    /// Unregisters every target; returns the ids they held, target after
    /// target, which the caller releases with Tauri.
    pub fn clear_targets(&mut self) -> (released: Vec<u32>)
        requires
            old(self).wf(),
        ensures
            final(self).wf(),
            final(self).active_list() == old(self).active_list(),
            final(self).target_list().len() == 0,
            released@ == old(self).all_held_ids(),
    {
        let mut released: Vec<u32> = Vec::new();
        let n = self.targets.len();
        let mut i: usize = 0;
        while i < n
            invariant
                n == self.targets@.len(),
                i <= n,
                released@ == ids_of_targets(self.targets@.subrange(0, i as int)),
            decreases n - i,
        {
            let mut ids = ids_held_by(&self.targets[i]);
            released.append(&mut ids);
            assert(self.targets@.subrange(0, i + 1).drop_last() =~= self.targets@.subrange(0, i as int));
            i = i + 1;
        }
        assert(self.targets@.subrange(0, n as int) =~= self.targets@);
        self.targets = Vec::new();
        released
    }
}

/// Target `t` holds the listener ids `ids`, in order, and the housekeeping id `housekeeping`.
pub open spec fn holds_ids(t: TargetSubscriptions, ids: Seq<u32>, housekeeping: u32) -> bool {
    &&& t.housekeeping == housekeeping
    &&& t.listeners@.map_values(|l: Listener| l.id) == ids
}

/// `after` is what registering a target of `kind` keyed `key` makes of
/// `before`, handing back `released`: a target with that key is removed (its
/// ids released; none when there was no such target), the forwarded names stay,
/// and the new target goes last, listening to every forwarded name in
/// ascending order.
pub open spec fn target_replaced(
    before: EventSubscriptions,
    after: EventSubscriptions,
    key: Seq<char>,
    kind: TargetKind,
    released: Seq<u32>,
) -> bool {
    &&& after.wf()
    &&& after.active_list() == before.active_list()
    &&& after.target_list().len() >= 1
    &&& target_removed(
        before.target_list(),
        key,
        after.target_list().drop_last(),
        if released.len() == 0 { None } else { Some(released) },
    )
    &&& after.target_list().last().key@ == key
    &&& after.target_list().last().kind == kind
    &&& listened_events(after.target_list().last()) == after.active_list()
}

impl EventSubscriptions {
    /// Registers the target keyed `key`, replacing a target with that key.
    /// The replaced target's ids are handed back for release (empty when there
    /// was none). The caller has made one listener per forwarded name, in the
    /// order `listen_requests` gives them, with ids `ids`, and one listener for
    /// the target's destruction, with id `housekeeping`; the new target holds
    /// exactly these and goes last.
    pub fn replace_target(&mut self, key: String, kind: TargetKind, ids: Vec<u32>, housekeeping: u32) -> (released: Vec<
        u32,
    >)
        requires
            old(self).wf(),
            ids@.len() == old(self).active_list().len(),
        ensures
            target_replaced(*old(self), *final(self), key@, kind, released@),
            holds_ids(final(self).target_list().last(), ids@, housekeeping),
    {
        let released = match self.remove_target(key.as_str()) {
            Some(ids) => ids,
            None => Vec::new(),
        };
        let ghost kept = self.targets@;
        let ghost kept_keys = self.target_keys();
        assert(distinct_texts(kept_keys));
        let mut listeners: Vec<Listener> = Vec::new();
        let n = self.active.len();
        let mut i: usize = 0;
        while i < n
            invariant
                n == self.active@.len(),
                ids@.len() == n,
                i <= n,
                listeners@.map_values(|l: Listener| l.event@) == texts(self.active@).subrange(0, i as int),
                listeners@.map_values(|l: Listener| l.id) == ids@.subrange(0, i as int),
            decreases n - i,
        {
            let id = ids[i];
            let event = self.active[i].clone();
            let ghost pre = listeners@;
            listeners.push(Listener { event, id });
            proof {
                assert(listeners@ == pre.push(Listener { event, id }));
                assert(event@ == texts(self.active@)[i as int]);
                assert(listeners@.map_values(|l: Listener| l.event@) =~= pre.map_values(|l: Listener| l.event@).push(event@));
                assert(texts(self.active@).subrange(0, i + 1) =~= texts(self.active@).subrange(0, i as int).push(event@));
                assert(listeners@.map_values(|l: Listener| l.id) =~= pre.map_values(|l: Listener| l.id).push(id));
                assert(ids@.subrange(0, i + 1) =~= ids@.subrange(0, i as int).push(id));
            }
            i = i + 1;
        }
        assert(texts(self.active@).subrange(0, n as int) =~= texts(self.active@));
        assert(ids@.subrange(0, n as int) =~= ids@);
        let ghost new_key = key@;
        self.targets.push(TargetSubscriptions { key, kind, housekeeping, listeners });
        proof {
            let after = self.targets@;
            assert(after.drop_last() =~= kept);
            let l = listened_events(after.last());
            let a = self.active_list();
            assert(l == a);
            assert(distinct_texts(l)) by {
                assert forall|x: int, y: int| 0 <= x < l.len() && 0 <= y < l.len() && x != y implies l[x] != l[y] by {
                    if x < y {
                        assert(text_less(a[x], a[y]));
                    } else {
                        assert(text_less(a[y], a[x]));
                    }
                    lemma_text_less_irreflexive(a[x]);
                }
            }
            let ks = self.target_keys();
            assert(ks[kept.len() as int] == new_key);
            assert forall|j: int| 0 <= j < kept.len() implies #[trigger] kept[j].key@ != new_key by {
                if released@.len() > 0 {
                    let m = choose|m: int| 0 <= m < old(self).target_list().len() && #[trigger] old(self).target_list()[m].key@ == new_key
                        && kept == old(self).target_list().remove(m);
                    let j0 = if j < m { j } else { j + 1 };
                    assert(kept[j] == old(self).target_list()[j0]);
                    assert(old(self).target_keys()[j0] != old(self).target_keys()[m]);
                }
            }
            assert forall|x: int, y: int| 0 <= x < ks.len() && 0 <= y < ks.len() && x != y implies ks[x] != ks[y] by {
                if x < kept.len() && y < kept.len() {
                    assert(kept_keys[x] == kept[x].key@);
                    assert(kept_keys[y] == kept[y].key@);
                    assert(ks[x] == kept[x].key@);
                    assert(ks[y] == kept[y].key@);
                    assert(self.target_list()[x] == kept[x]);
                    assert(self.target_list()[y] == kept[y]);
                } else if x < kept.len() {
                    assert(ks[x] == kept[x].key@);
                } else {
                    assert(ks[y] == kept[y].key@);
                }
            }
            assert forall|j: int| 0 <= j < after.len() implies {
                let t = #[trigger] self.target_list()[j];
                &&& distinct_texts(listened_events(t))
                &&& listened_events(t).to_set() == self.active_events()
            } by {
                if j < kept.len() {
                    assert(after[j] == kept[j]);
                }
            }
        }
        released
    }
}

impl EventSubscriptions {
    /// Registers a window under its label (see `replace_target`).
    pub fn register_window(&mut self, label: String, ids: Vec<u32>, housekeeping: u32) -> (released: Vec<u32>)
        requires
            old(self).wf(),
            ids@.len() == old(self).active_list().len(),
        ensures
            target_replaced(*old(self), *final(self), label@, TargetKind::Window, released@),
            holds_ids(final(self).target_list().last(), ids@, housekeeping),
    {
        self.replace_target(label, TargetKind::Window, ids, housekeeping)
    }

    /// Registers a webview window under its label, replacing the window target
    /// Tauri announced first for it (see `replace_target`).
    pub fn register_webview_window(&mut self, label: String, ids: Vec<u32>, housekeeping: u32) -> (released: Vec<u32>)
        requires
            old(self).wf(),
            ids@.len() == old(self).active_list().len(),
        ensures
            target_replaced(*old(self), *final(self), label@, TargetKind::WebviewWindow, released@),
            holds_ids(final(self).target_list().last(), ids@, housekeeping),
    {
        self.replace_target(label, TargetKind::WebviewWindow, ids, housekeeping)
    }

    /// Registers a webview under its label (see `replace_target`).
    pub fn register_webview(&mut self, label: String, ids: Vec<u32>, housekeeping: u32) -> (released: Vec<u32>)
        requires
            old(self).wf(),
            ids@.len() == old(self).active_list().len(),
        ensures
            target_replaced(*old(self), *final(self), label@, TargetKind::Webview, released@),
            holds_ids(final(self).target_list().last(), ids@, housekeeping),
    {
        self.replace_target(label, TargetKind::Webview, ids, housekeeping)
    }
}

/// What a valid subscription command asks for.
#[derive(Debug)]
pub enum SubscriptionRequest {
    /// Forward `event`. `listen_on` holds the keys of the targets that each
    /// need one new listener for it, in target order: every target when the
    /// name is new, none when it is already forwarded. The caller makes those
    /// listeners and passes their ids to `subscribe`.
    Subscribe { event: String, listen_on: Vec<String> },
    /// Stop forwarding `event`, with `unsubscribe`.
    Unsubscribe { event: String },
}

/// The text of the error for a command other than the two subscription commands.
pub open spec fn unknown_command_message(command: Seq<char>) -> Seq<char> {
    "unknown event subscription command `"@ + command + "`"@
}

impl EventSubscriptions {
    /// Reads a subscription command. `payload` is the event name the request
    /// carried, or why its payload could not be read; the reading error comes
    /// first, then the name check, then the command itself. Nothing changes:
    /// the caller carries out what the command asks for, with `subscribe` or
    /// `unsubscribe`.
    pub fn handle(&self, command: &str, payload: Result<String, String>) -> (r: Result<SubscriptionRequest, String>)
        requires
            self.wf(),
        ensures
            match payload {
                Err(reason) => r matches Err(m) && m@ == reason@,
                Ok(event) => if !is_valid_event_name(event@) {
                    r matches Err(m) && m@ == EVENT_NAME_ERROR@
                } else if command@ == SUBSCRIBE_COMMAND@ {
                    &&& r matches Ok(SubscriptionRequest::Subscribe { event: e, listen_on })
                    &&& e@ == event@
                    &&& texts(listen_on@) == subscription_targets_of(*self, event@)
                } else if command@ == UNSUBSCRIBE_COMMAND@ {
                    r matches Ok(SubscriptionRequest::Unsubscribe { event: e }) && e@ == event@
                } else {
                    r matches Err(m) && m@ == unknown_command_message(command@)
                },
            },
    {
        let event = match payload {
            Ok(event) => event,
            Err(reason) => return Err(reason),
        };
        match validate_event_name(event.as_str()) {
            Ok(()) => {},
            Err(reason) => return Err(reason),
        }
        if same_text(command, SUBSCRIBE_COMMAND) {
            let listen_on = self.subscription_targets(event.as_str());
            Ok(SubscriptionRequest::Subscribe { event, listen_on })
        } else if same_text(command, UNSUBSCRIBE_COMMAND) {
            Ok(SubscriptionRequest::Unsubscribe { event })
        } else {
            let head = concat("unknown event subscription command `", command);
            Err(concat(head.as_str(), "`"))
        }
    }

    /// The keys of the targets that need one new listener each when `event`
    /// is subscribed to: all of them, in order, when it is not forwarded yet;
    /// none when it is.
    pub fn subscription_targets(&self, event: &str) -> (r: Vec<String>)
        requires
            self.wf(),
        ensures
            texts(r@) == subscription_targets_of(*self, event@),
    {
        if self.is_active(event) {
            let r: Vec<String> = Vec::new();
            assert(texts(r@) =~= Seq::<Seq<char>>::empty());
            return r;
        }
        self.target_key_list()
    }

    /// The keys of the registered targets, in target order: the order of the
    /// ids `unsubscribe` and `clear_targets` hand back.
    pub fn target_key_list(&self) -> (r: Vec<String>)
        ensures
            texts(r@) == self.target_keys(),
    {
        let mut r: Vec<String> = Vec::new();
        let n = self.targets.len();
        let mut i: usize = 0;
        while i < n
            invariant
                n == self.targets@.len(),
                i <= n,
                texts(r@) == self.target_keys().subrange(0, i as int),
            decreases n - i,
        {
            let key = self.targets[i].key.clone();
            let ghost pre = r@;
            r.push(key);
            assert(r@ == pre.push(key));
            assert(self.target_keys()[i as int] == key@);
            assert(texts(r@) =~= texts(pre).push(key@));
            assert(self.target_keys().subrange(0, i + 1) =~= self.target_keys().subrange(0, i as int).push(key@));
            i = i + 1;
        }
        assert(self.target_keys().subrange(0, n as int) =~= self.target_keys());
        r
    }

    /// The names a newly registered target listens to, in the order
    /// `replace_target` takes their listener ids: the forwarded names, ascending.
    pub fn listen_requests(&self) -> (r: Vec<String>)
        ensures
            texts(r@) == self.active_list(),
    {
        let mut r: Vec<String> = Vec::new();
        let n = self.active.len();
        let mut i: usize = 0;
        while i < n
            invariant
                n == self.active@.len(),
                i <= n,
                texts(r@) == texts(self.active@).subrange(0, i as int),
            decreases n - i,
        {
            let name = self.active[i].clone();
            let ghost pre = r@;
            r.push(name);
            assert(r@ == pre.push(name));
            assert(texts(self.active@)[i as int] == name@);
            assert(texts(r@) =~= texts(pre).push(name@));
            assert(texts(self.active@).subrange(0, i + 1) =~= texts(self.active@).subrange(0, i as int).push(name@));
            i = i + 1;
        }
        assert(texts(self.active@).subrange(0, n as int) =~= texts(self.active@));
        r
    }
}

/// The keys of the targets that need a listener for `event` when it is
/// subscribed to: every target key when it is not forwarded, else none.
pub open spec fn subscription_targets_of(s: EventSubscriptions, event: Seq<char>) -> Seq<Seq<char>> {
    if s.active_events().contains(event) {
        seq![]
    } else {
        s.target_keys()
    }
}

/// Subscribing twice to the same name changes nothing the second time: the
/// second call answers `changed == false` and forwards the same names.
pub proof fn law_subscribe_is_idempotent(
    s0: EventSubscriptions,
    s1: EventSubscriptions,
    s2: EventSubscriptions,
    event: Seq<char>,
    first: bool,
    second: bool,
)
    requires
        subscribed(s0, s1, event, first),
        subscribed(s1, s2, event, second),
    ensures
        !second,
        s2.active_events() == s1.active_events(),
{
    assert(s1.active_events().insert(event) =~= s1.active_events());
}

/// Unsubscribing twice from the same name changes nothing the second time:
/// the second call answers `removed == false`, releases no listener and
/// forwards the same names.
pub proof fn law_unsubscribe_is_idempotent(
    s0: EventSubscriptions,
    s1: EventSubscriptions,
    s2: EventSubscriptions,
    event: Seq<char>,
    first: bool,
    first_released: Seq<u32>,
    second: bool,
    second_released: Seq<u32>,
)
    requires
        unsubscribed(s0, s1, event, first, first_released),
        unsubscribed(s1, s2, event, second, second_released),
    ensures
        !second,
        second_released.len() == 0,
        s2.active_events() == s1.active_events(),
{
    assert(s1.active_events().remove(event) =~= s1.active_events());
}

/// A forwarded name, the initial ones included, can be removed and restored:
/// unsubscribing removes it, subscribing again adds it back, and the
/// forwarded names are then those before the removal.
pub proof fn law_unsubscribe_then_subscribe_restores(
    s0: EventSubscriptions,
    s1: EventSubscriptions,
    s2: EventSubscriptions,
    event: Seq<char>,
    removed: bool,
    released: Seq<u32>,
    changed: bool,
)
    requires
        s0.active_events().contains(event),
        unsubscribed(s0, s1, event, removed, released),
        subscribed(s1, s2, event, changed),
    ensures
        removed,
        changed,
        s2.active_events() == s0.active_events(),
        s2.target_keys() == s0.target_keys(),
{
    assert(s0.active_events().remove(event).insert(event) =~= s0.active_events());
}

/// Unsubscribing undoes a subscription to a name that was not forwarded: the
/// forwarded names are those before, each target releases exactly the
/// listener the subscription gave it, and keeps the listeners it had before.
pub proof fn law_subscribe_then_unsubscribe_restores(
    s0: EventSubscriptions,
    s1: EventSubscriptions,
    s2: EventSubscriptions,
    event: Seq<char>,
    changed: bool,
    removed: bool,
    released: Seq<u32>,
)
    requires
        !s0.active_events().contains(event),
        subscribed(s0, s1, event, changed),
        unsubscribed(s1, s2, event, removed, released),
    ensures
        changed,
        removed,
        released.len() == s0.target_list().len(),
        s2.active_events() == s0.active_events(),
        s2.target_keys() == s0.target_keys(),
        s2.target_list().len() == s0.target_list().len(),
        forall|j: int| 0 <= j < s0.target_list().len() ==> {
            &&& released[j] == (#[trigger] s1.target_list()[j]).listeners@.last().id
            &&& s2.target_list()[j].listeners@ == s0.target_list()[j].listeners@
            &&& s2.target_list()[j].key == s0.target_list()[j].key
            &&& s2.target_list()[j].kind == s0.target_list()[j].kind
            &&& s2.target_list()[j].housekeeping == s0.target_list()[j].housekeeping
        },
{
    assert(s0.active_events().insert(event).remove(event) =~= s0.active_events());
    assert forall|j: int| 0 <= j < s0.target_list().len() implies {
        &&& released[j] == (#[trigger] s1.target_list()[j]).listeners@.last().id
        &&& s2.target_list()[j].listeners@ == s0.target_list()[j].listeners@
        &&& s2.target_list()[j].key == s0.target_list()[j].key
        &&& s2.target_list()[j].kind == s0.target_list()[j].kind
        &&& s2.target_list()[j].housekeeping == s0.target_list()[j].housekeeping
    } by {
        let t0 = s0.target_list()[j];
        let t1 = s1.target_list()[j];
        let t2 = s2.target_list()[j];
        assert(listener_added(t0, t1, event));
        assert(listener_dropped(t1, t2, event, released[j]));
        let last = t1.listeners@.len() - 1;
        let m = choose|m: int|
            0 <= m < t1.listeners@.len() && #[trigger] t1.listeners@[m].event@ == event && t1.listeners@[m].id == released[j]
                && t2.listeners@ == t1.listeners@.remove(m);
        let l = listened_events(t1);
        assert(distinct_texts(l));
        assert(l[m] == event);
        assert(l[last] == t1.listeners@.last().event@);
        assert(m == last);
        assert(t1.listeners@.remove(m) =~= t1.listeners@.drop_last());
    }
}

/// Every registered target listens to exactly the forwarded names, each once.
pub proof fn law_targets_listen_to_forwarded_names(s: EventSubscriptions, i: int)
    requires
        s.wf(),
        0 <= i < s.target_list().len(),
    ensures
        listened_events(s.target_list()[i]).to_set() == s.active_events(),
        distinct_texts(listened_events(s.target_list()[i])),
{
}

/// Registering a target twice under one key keeps one target for that key:
/// the second registration releases the first target's ids and leaves the
/// same number of targets.
pub proof fn law_reregistration_replaces(
    s0: EventSubscriptions,
    s1: EventSubscriptions,
    s2: EventSubscriptions,
    key: Seq<char>,
    first_kind: TargetKind,
    first_released: Seq<u32>,
    second_kind: TargetKind,
    second_released: Seq<u32>,
)
    requires
        s0.wf(),
        target_replaced(s0, s1, key, first_kind, first_released),
        target_replaced(s1, s2, key, second_kind, second_released),
    ensures
        second_released == held_ids(s1.target_list().last()),
        s2.target_list().len() == s1.target_list().len(),
        s2.target_list().last().kind == second_kind,
{
    let before = s1.target_list();
    let n = before.len();
    assert(before[n - 1].key@ == key);
    if second_released.len() == 0 {
        assert(before[n - 1].key@ != key);
    }
    let m = choose|m: int| 0 <= m < before.len() && #[trigger] before[m].key@ == key && second_released == held_ids(before[m])
        && s2.target_list().drop_last() == before.remove(m);
    if m != n - 1 {
        assert(s1.target_keys()[m] == s1.target_keys()[n - 1]);
    }
}

/// A subscription makes exactly one listener per target, and only for a new
/// name: `handle` names every target when the name is not forwarded and none
/// when it is; subscribing with one id per named target gives each target one
/// more listener, for the name, with its id, and leaves the targets as they
/// were otherwise.
pub proof fn law_subscription_listens_once_per_target(
    s0: EventSubscriptions,
    s1: EventSubscriptions,
    event: Seq<char>,
    listen_on: Seq<Seq<char>>,
    ids: Seq<u32>,
    changed: bool,
)
    requires
        s0.wf(),
        listen_on == subscription_targets_of(s0, event),
        ids.len() == listen_on.len(),
        subscribed(s0, s1, event, changed),
        changed ==> listeners_given(s1, ids),
    ensures
        changed == !s0.active_events().contains(event),
        listen_on.len() == (if changed { s0.target_list().len() } else { 0 }),
        forall|j: int| 0 <= j < s0.target_list().len() ==> if changed {
            &&& (#[trigger] s1.target_list()[j]).listeners@.len() == s0.target_list()[j].listeners@.len() + 1
            &&& s1.target_list()[j].listeners@.last().event@ == event
            &&& s1.target_list()[j].listeners@.last().id == ids[j]
            &&& s1.target_list()[j].listeners@.drop_last() == s0.target_list()[j].listeners@
        } else {
            #[trigger] s1.target_list()[j] == s0.target_list()[j]
        },
{
    assert forall|j: int| 0 <= j < s0.target_list().len() implies if changed {
        &&& (#[trigger] s1.target_list()[j]).listeners@.len() == s0.target_list()[j].listeners@.len() + 1
        &&& s1.target_list()[j].listeners@.last().event@ == event
        &&& s1.target_list()[j].listeners@.last().id == ids[j]
        &&& s1.target_list()[j].listeners@.drop_last() == s0.target_list()[j].listeners@
    } else {
        #[trigger] s1.target_list()[j] == s0.target_list()[j]
    } by {
        if changed {
            assert(listener_added(s0.target_list()[j], s1.target_list()[j], event));
        }
    }
}

/// Registering a target listens exactly once per forwarded name: the new
/// target, last in order, holds one listener per forwarded name, in ascending
/// order, with the ids given for them, and its housekeeping id; no other
/// target keeps its key; and the ids handed back are those the replaced target
/// held, or none when there was no target with that key.
pub proof fn law_registration_listens_once_per_name(
    s0: EventSubscriptions,
    s1: EventSubscriptions,
    key: Seq<char>,
    kind: TargetKind,
    ids: Seq<u32>,
    housekeeping: u32,
    released: Seq<u32>,
)
    requires
        s0.wf(),
        ids.len() == s0.active_list().len(),
        target_replaced(s0, s1, key, kind, released),
        holds_ids(s1.target_list().last(), ids, housekeeping),
    ensures
        s1.target_list().last().listeners@.len() == s0.active_list().len(),
        forall|j: int| 0 <= j < s0.active_list().len() ==> {
            &&& (#[trigger] s1.target_list().last().listeners@[j]).event@ == s0.active_list()[j]
            &&& s1.target_list().last().listeners@[j].id == ids[j]
        },
        s1.target_list().last().housekeeping == housekeeping,
        forall|i: int| 0 <= i < s1.target_list().len() - 1 ==> (#[trigger] s1.target_list()[i]).key@ != key,
        (exists|m: int| 0 <= m < s0.target_list().len() && #[trigger] s0.target_list()[m].key@ == key) ==> exists|m: int|
            0 <= m < s0.target_list().len() && #[trigger] s0.target_list()[m].key@ == key && released == held_ids(
                s0.target_list()[m],
            ),
        (forall|m: int| 0 <= m < s0.target_list().len() ==> #[trigger] s0.target_list()[m].key@ != key) ==> released.len()
            == 0,
{
    let t = s1.target_list().last();
    let l = listened_events(t);
    assert(l == s0.active_list());
    assert(t.listeners@.map_values(|x: Listener| x.id) == ids);
    assert forall|j: int| 0 <= j < s0.active_list().len() implies {
        &&& (#[trigger] s1.target_list().last().listeners@[j]).event@ == s0.active_list()[j]
        &&& s1.target_list().last().listeners@[j].id == ids[j]
    } by {
        assert(l[j] == t.listeners@[j].event@);
        assert(t.listeners@.map_values(|x: Listener| x.id)[j] == t.listeners@[j].id);
    }
    let n = s1.target_list().len();
    assert forall|i: int| 0 <= i < n - 1 implies (#[trigger] s1.target_list()[i]).key@ != key by {
        assert(s1.target_keys()[i] != s1.target_keys()[n - 1]);
    }
    if released.len() > 0 {
        let m = choose|m: int| 0 <= m < s0.target_list().len() && #[trigger] s0.target_list()[m].key@ == key && released == held_ids(s0.target_list()[m])
            && s1.target_list().drop_last() == s0.target_list().remove(m);
    } else {
        assert forall|m: int| 0 <= m < s0.target_list().len() implies #[trigger] s0.target_list()[m].key@ != key by {}
    }
}

/// A letter of the ASCII alphabet, either case, or a digit.
pub open spec fn is_ascii_letter_or_digit(c: char) -> bool {
    ('a' <= c && c <= 'z') || ('A' <= c && c <= 'Z') || ('0' <= c && c <= '9')
}

/// Event names of ASCII characters are accepted exactly when they are
/// non-empty and made of letters of either case, digits, `-`, `/`, `:` and
/// `_`, as `char::is_alphanumeric` and Tauri have it: `myPlugin://stateChanged`
/// is accepted, `wildcard://*` and names with spaces are not.
pub proof fn law_ascii_event_names(name: Seq<char>, r: Result<(), String>)
    requires
        r is Ok <==> is_valid_event_name(name),
        is_ascii_text(name) ==> (r is Ok <==> (name.len() > 0 && forall|i: int|
            0 <= i < name.len() ==> is_ascii_event_name_char(#[trigger] name[i]))),
        forall|i: int| 0 <= i < name.len() ==> (#[trigger] name[i] as u32) < 128,
    ensures
        r is Ok <==> (name.len() > 0 && forall|i: int| 0 <= i < name.len() ==> {
            let c = #[trigger] name[i];
            is_ascii_letter_or_digit(c) || c == '-' || c == '/' || c == ':' || c == '_'
        }),
{
}


} // verus!
