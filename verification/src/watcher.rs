//! The filesystem watcher's decisions: the queue of requests to watch or
//! unwatch a directory, the table of watched directories with the library
//! that registered each, and the filter that turns a raw filesystem event
//! into a notification.
//!
//! The loop that owns the native watch handle takes requests from the queue,
//! asks the table what to do, and does it.

use vstd::prelude::*;
use crate::table::{distinct, lemma_pairing_push, pairing, Table};
use crate::text::string_views;

verus! {

/// A request to the watcher.
#[derive(Debug, PartialEq, Eq)]
pub enum WatcherEvent {
    /// Watch the directory, on behalf of the library.
    Add(String, String),
    /// Stop watching the directory.
    Remove(String),
    /// Stop watching every directory that the library registered.
    RemoveLibrary(String),
}

/// What a [`WatcherEvent`] holds, as mathematical values.
pub enum WatcherEventView {
    Add(Seq<char>, Seq<char>),
    Remove(Seq<char>),
    RemoveLibrary(Seq<char>),
}

impl View for WatcherEvent {
    type V = WatcherEventView;

    open spec fn view(&self) -> WatcherEventView {
        match self {
            WatcherEvent::Add(path, library) => WatcherEventView::Add(path@, library@),
            WatcherEvent::Remove(path) => WatcherEventView::Remove(path@),
            WatcherEvent::RemoveLibrary(library) => WatcherEventView::RemoveLibrary(library@),
        }
    }
}

/// The views of a sequence of requests.
pub open spec fn event_views(v: Seq<WatcherEvent>) -> Seq<WatcherEventView> {
    Seq::new(v.len(), |i: int| v[i]@)
}

/// The requests that wait to be handled, oldest first.
pub struct Watcher {
    pending: Vec<WatcherEvent>,
}

impl View for Watcher {
    type V = Seq<WatcherEventView>;

    closed spec fn view(&self) -> Seq<WatcherEventView> {
        event_views(self.pending@)
    }
}

impl Watcher {
    /// A watcher without requests.
    pub fn new() -> (w: Watcher)
        ensures
            w@ == Seq::<WatcherEventView>::empty(),
    {
        let w = Watcher { pending: Vec::new() };
        assert(w@ =~= Seq::<WatcherEventView>::empty());
        w
    }

    /// Number of requests that wait.
    pub fn pending(&self) -> (n: usize)
        ensures
            n == self@.len(),
    {
        self.pending.len()
    }

    fn enqueue(&mut self, event: WatcherEvent)
        ensures
            final(self)@ == old(self)@.push(event@),
    {
        self.pending.push(event);
        assert(self@ =~= old(self)@.push(event@));
    }

    /// Asks for `path` to be watched on behalf of the library at
    /// `library_path`.
    pub fn watch_path(&mut self, path: &str, library_path: &str)
        ensures
            final(self)@ == old(self)@.push(WatcherEventView::Add(path@, library_path@)),
    {
        self.enqueue(WatcherEvent::Add(path.to_owned(), library_path.to_owned()));
    }

    /// Asks for `path` to be watched no longer.
    pub fn unwatch_path(&mut self, path: &str)
        ensures
            final(self)@ == old(self)@.push(WatcherEventView::Remove(path@)),
    {
        self.enqueue(WatcherEvent::Remove(path.to_owned()));
    }

    /// Asks for every directory of the library at `library_path` to be watched
    /// no longer.
    pub fn unwatch_library(&mut self, library_path: &str)
        ensures
            final(self)@ == old(self)@.push(WatcherEventView::RemoveLibrary(library_path@)),
    {
        self.enqueue(WatcherEvent::RemoveLibrary(library_path.to_owned()));
    }

    /// Takes all waiting requests, oldest first, and leaves none.
    pub fn drain(&mut self) -> (events: Vec<WatcherEvent>)
        ensures
            event_views(events@) == old(self)@,
            final(self)@ == Seq::<WatcherEventView>::empty(),
    {
        let mut events: Vec<WatcherEvent> = Vec::new();
        std::mem::swap(&mut events, &mut self.pending);
        assert(self@ =~= Seq::<WatcherEventView>::empty());
        events
    }
}

/// What the loop has to do with the native watch handle.
#[derive(Debug, PartialEq, Eq)]
pub enum WatchAction {
    /// Start a recursive watch on the directory.
    Watch(String),
    /// End the watch on the directory.
    Unwatch(String),
}

/// What a [`WatchAction`] holds, as mathematical values.
pub enum WatchActionView {
    Watch(Seq<char>),
    Unwatch(Seq<char>),
}

impl View for WatchAction {
    type V = WatchActionView;

    open spec fn view(&self) -> WatchActionView {
        match self {
            WatchAction::Watch(path) => WatchActionView::Watch(path@),
            WatchAction::Unwatch(path) => WatchActionView::Unwatch(path@),
        }
    }
}

/// The views of a sequence of actions.
pub open spec fn action_views(v: Seq<WatchAction>) -> Seq<WatchActionView> {
    Seq::new(v.len(), |i: int| v[i]@)
}

/// The watched directories after `path` was registered for `library`.
pub open spec fn watched(m: Map<Seq<char>, Seq<char>>, path: Seq<char>, library: Seq<char>) -> Map<
    Seq<char>,
    Seq<char>,
> {
    m.insert(path, library)
}

/// The watched directories without those of `library`.
pub open spec fn without_library(m: Map<Seq<char>, Seq<char>>, library: Seq<char>) -> Map<
    Seq<char>,
    Seq<char>,
> {
    Map::new(|p: Seq<char>| m.dom().contains(p) && m[p] != library, |p: Seq<char>| m[p])
}

/// The watched directories after a request.
pub open spec fn routed(m: Map<Seq<char>, Seq<char>>, event: WatcherEventView) -> Map<
    Seq<char>,
    Seq<char>,
> {
    match event {
        WatcherEventView::Add(path, library) => watched(m, path, library),
        WatcherEventView::Remove(path) => m.remove(path),
        WatcherEventView::RemoveLibrary(library) => without_library(m, library),
    }
}

/// Whether `actions` is what a request asks of the native handle: a watch for
/// a directory that was not watched, the end of the watch for one that was,
/// and for a library the end of each of its watches, once.
pub open spec fn answers(
    m: Map<Seq<char>, Seq<char>>,
    event: WatcherEventView,
    actions: Seq<WatchActionView>,
) -> bool {
    match event {
        WatcherEventView::Add(path, library) => actions == (if m.dom().contains(path) {
            Seq::<WatchActionView>::empty()
        } else {
            seq![WatchActionView::Watch(path)]
        }),
        WatcherEventView::Remove(path) => actions == (if m.dom().contains(path) {
            seq![WatchActionView::Unwatch(path)]
        } else {
            Seq::<WatchActionView>::empty()
        }),
        WatcherEventView::RemoveLibrary(library) => {
            &&& forall|i: int|
                0 <= i < actions.len() ==> (#[trigger] actions[i]) is Unwatch && m.dom().contains(
                    actions[i]->Unwatch_0,
                ) && m[actions[i]->Unwatch_0] == library
            &&& forall|i: int, j: int| 0 <= i < j < actions.len() ==> actions[i] != actions[j]
            &&& forall|p: Seq<char>|
                m.dom().contains(p) && m[p] == library ==> actions.contains(
                    WatchActionView::Unwatch(p),
                )
        },
    }
}

/// Asking twice for the same watch is asking once: the second request leaves
/// the table as it is and calls for no action.
pub proof fn lemma_watch_again(m: Map<Seq<char>, Seq<char>>, path: Seq<char>, library: Seq<char>)
    ensures
        watched(watched(m, path, library), path, library) == watched(m, path, library),
        answers(
            watched(m, path, library),
            WatcherEventView::Add(path, library),
            Seq::<WatchActionView>::empty(),
        ),
{
    assert(watched(watched(m, path, library), path, library) =~= watched(m, path, library));
}

/// After the watches of a library were ended, none of its directories is in
/// the table, and the directories of every other library are as before.
pub proof fn lemma_without_library(
    m: Map<Seq<char>, Seq<char>>,
    library: Seq<char>,
    path: Seq<char>,
)
    ensures
        without_library(m, library).dom().contains(path) <==> m.dom().contains(path) && m[path]
            != library,
        without_library(m, library).dom().contains(path) ==> without_library(m, library)[path]
            == m[path],
{
}

/// The directories under watch, each with the library that registered it.
pub struct WatchSet {
    routes: Table<String>,
}

impl View for WatchSet {
    type V = Map<Seq<char>, Seq<char>>;

    closed spec fn view(&self) -> Map<Seq<char>, Seq<char>> {
        Map::new(|p: Seq<char>| self.routes@.dom().contains(p), |p: Seq<char>| self.routes@[p]@)
    }
}

/// The owners of the first `n` routes, by path.
spec fn owners(keys: Seq<Seq<char>>, values: Seq<String>, n: int) -> Map<Seq<char>, Seq<char>> {
    Map::new(
        |p: Seq<char>| pairing(keys.take(n), values.take(n)).dom().contains(p),
        |p: Seq<char>| pairing(keys.take(n), values.take(n))[p]@,
    )
}

impl WatchSet {
    /// A set without directories.
    pub fn new() -> (s: Self)
        ensures
            s@ == Map::<Seq<char>, Seq<char>>::empty(),
    {
        let s = WatchSet { routes: Table::new() };
        assert(s@ =~= Map::<Seq<char>, Seq<char>>::empty());
        s
    }

    /// Number of watched directories.
    pub fn len(&self) -> (n: usize)
        ensures
            n == self@.dom().len(),
            self@.dom().finite(),
    {
        let n = self.routes.len();
        assert(self@.dom() =~= self.routes@.dom());
        n
    }

    /// The library that registered `path`, if the directory is watched.
    pub fn owner(&self, path: &str) -> (r: Option<&String>)
        ensures
            match r {
                Some(library) => self@.dom().contains(path@) && self@[path@] == library@,
                None => !self@.dom().contains(path@),
            },
    {
        self.routes.get(path)
    }

    /// Handles one request: updates the table and says what to do with the
    /// native handle.
    pub fn apply(&mut self, event: &WatcherEvent) -> (actions: Vec<WatchAction>)
        ensures
            final(self)@ == routed(old(self)@, event@),
            answers(old(self)@, event@, action_views(actions@)),
    {
        match event {
            WatcherEvent::Add(path, library) => self.add(path.as_str(), library.as_str()),
            WatcherEvent::Remove(path) => self.remove(path.as_str()),
            WatcherEvent::RemoveLibrary(library) => self.remove_library(library.as_str()),
        }
    }

    /// Registers `path` for `library` and asks for a watch if there was none.
    pub fn add(&mut self, path: &str, library: &str) -> (actions: Vec<WatchAction>)
        ensures
            final(self)@ == watched(old(self)@, path@, library@),
            answers(old(self)@, WatcherEventView::Add(path@, library@), action_views(actions@)),
    {
        let mut actions: Vec<WatchAction> = Vec::new();
        let owner = library.to_owned();
        let previous = self.routes.insert(path, owner);
        if previous.is_none() {
            actions.push(WatchAction::Watch(path.to_owned()));
            assert(action_views(actions@) =~= seq![WatchActionView::Watch(path@)]);
        } else {
            assert(action_views(actions@) =~= Seq::<WatchActionView>::empty());
        }
        assert(self@ =~= watched(old(self)@, path@, library@));
        actions
    }

    /// Forgets `path` and asks for the end of its watch if it had one.
    pub fn remove(&mut self, path: &str) -> (actions: Vec<WatchAction>)
        ensures
            final(self)@ == old(self)@.remove(path@),
            answers(old(self)@, WatcherEventView::Remove(path@), action_views(actions@)),
    {
        let mut actions: Vec<WatchAction> = Vec::new();
        let previous = self.routes.remove(path);
        if previous.is_some() {
            actions.push(WatchAction::Unwatch(path.to_owned()));
            assert(action_views(actions@) =~= seq![WatchActionView::Unwatch(path@)]);
        } else {
            assert(action_views(actions@) =~= Seq::<WatchActionView>::empty());
        }
        assert(self@ =~= old(self)@.remove(path@));
        actions
    }

    /// Forgets every directory of `library` and asks for the end of each of
    /// their watches.
    pub fn remove_library(&mut self, library: &str) -> (actions: Vec<WatchAction>)
        ensures
            final(self)@ == without_library(old(self)@, library@),
            answers(
                old(self)@,
                WatcherEventView::RemoveLibrary(library@),
                action_views(actions@),
            ),
    {
        let wanted = library.to_owned();
        let mut all: Table<String> = Table::new();
        std::mem::swap(&mut all, &mut self.routes);
        let n = all.len();
        let ghost keys = all.spec_keys();
        let ghost values = all.spec_values();
        let ghost whole = old(self)@;
        let mut kept: Table<String> = Table::new();
        let mut actions: Vec<WatchAction> = Vec::new();
        let mut i: usize = 0;
        proof {
            assert(keys.take(0) =~= Seq::<Seq<char>>::empty());
            assert(owners(keys, values, 0) =~= Map::<Seq<char>, Seq<char>>::empty());
            assert(keys.take(n as int) =~= keys);
            assert(values.take(n as int) =~= values);
            assert(owners(keys, values, n as int) =~= whole);
        }
        while i < n
            invariant
                0 <= i <= n,
                n == keys.len(),
                n == values.len(),
                keys == all.spec_keys(),
                values == all.spec_values(),
                wanted@ == library@,
                distinct(keys),
                forall|p: Seq<char>|
                    kept@.dom().contains(p) <==> owners(keys, values, i as int).dom().contains(p)
                        && owners(keys, values, i as int)[p] != library@,
                forall|p: Seq<char>|
                    kept@.dom().contains(p) ==> kept@[p]@ == owners(keys, values, i as int)[p],
                forall|k: int|
                    0 <= k < actions.len() ==> (#[trigger] action_views(actions@)[k]) is Unwatch
                        && owners(keys, values, i as int).dom().contains(
                        action_views(actions@)[k]->Unwatch_0,
                    ) && owners(keys, values, i as int)[action_views(actions@)[k]->Unwatch_0]
                        == library@,
                forall|a: int, b: int|
                    0 <= a < b < actions.len() ==> action_views(actions@)[a] != action_views(
                        actions@,
                    )[b],
                forall|p: Seq<char>|
                    owners(keys, values, i as int).dom().contains(p) && owners(
                        keys,
                        values,
                        i as int,
                    )[p] == library@ ==> action_views(actions@).contains(
                        WatchActionView::Unwatch(p),
                    ),
            decreases n - i,
        {
            let path = all.key_at(i);
            let owner = all.value_at(i);
            proof {
                let ks = keys.take(i as int);
                let vs = values.take(i as int);
                assert(keys.take(i + 1) =~= ks.push(keys[i as int]));
                assert(values.take(i + 1) =~= vs.push(values[i as int]));
                assert(distinct(ks)) by {
                    assert forall|a: int, b: int| 0 <= a < b < ks.len() implies ks[a] != ks[b] by {
                        assert(keys[a] != keys[b]);
                    }
                }
                assert(!ks.contains(keys[i as int])) by {
                    if ks.contains(keys[i as int]) {
                        let j = choose|j: int| 0 <= j < ks.len() && ks[j] == keys[i as int];
                        assert(keys[j] != keys[i as int]);
                    }
                }
                lemma_pairing_push(ks, vs, keys[i as int], values[i as int]);
                assert(owners(keys, values, i + 1) =~= owners(keys, values, i as int).insert(
                    keys[i as int],
                    values[i as int]@,
                ));
                assert(!owners(keys, values, i as int).dom().contains(keys[i as int]));
            }
            let ghost before_actions = action_views(actions@);
            if *owner == wanted {
                actions.push(WatchAction::Unwatch(path.clone()));
                proof {
                    let now = action_views(actions@);
                    assert(now =~= before_actions.push(WatchActionView::Unwatch(path@)));
                    assert forall|a: int, b: int| 0 <= a < b < now.len() implies now[a]
                        != now[b] by {
                        if b == now.len() - 1 {
                            assert(before_actions[a] is Unwatch);
                            assert(owners(keys, values, i as int).dom().contains(
                                before_actions[a]->Unwatch_0,
                            ));
                        } else {
                            assert(before_actions[a] != before_actions[b]);
                        }
                    }
                    assert forall|p: Seq<char>|
                        owners(keys, values, i + 1).dom().contains(p) && owners(
                            keys,
                            values,
                            i + 1,
                        )[p] == library@ implies now.contains(WatchActionView::Unwatch(p)) by {
                        if p == keys[i as int] {
                            assert(now[now.len() - 1] == WatchActionView::Unwatch(p));
                        } else {
                            assert(before_actions.contains(WatchActionView::Unwatch(p)));
                            let k = choose|k: int|
                                0 <= k < before_actions.len() && before_actions[k]
                                    == WatchActionView::Unwatch(p);
                            assert(now[k] == WatchActionView::Unwatch(p));
                        }
                    }
                }
            } else {
                kept.insert(path.as_str(), owner.clone());
                proof {
                    let now = action_views(actions@);
                    assert forall|p: Seq<char>|
                        owners(keys, values, i + 1).dom().contains(p) && owners(
                            keys,
                            values,
                            i + 1,
                        )[p] == library@ implies now.contains(WatchActionView::Unwatch(p)) by {
                        assert(p != keys[i as int]);
                    }
                }
            }
            i = i + 1;
        }
        self.routes = kept;
        proof {
            assert(self@ =~= without_library(whole, library@));
        }
        actions
    }
}

/// The kinds of raw filesystem events.
#[derive(Debug, PartialEq, Eq, Structural, Clone, Copy)]
pub enum FsEventKind {
    /// Something was created.
    Create,
    /// Something was removed.
    Remove,
    /// Something was changed.
    Modify,
    /// Something was read or opened.
    Access,
    /// Anything else.
    Other,
}

/// Name of the notification that tells clients to scan again.
pub open spec fn library_changed() -> Seq<char> {
    seq![
        'l',
        'i',
        'b',
        'r',
        'a',
        'r',
        'y',
        '_',
        'c',
        'h',
        'a',
        'n',
        'g',
        'e',
        'd',
    ]
}

/// A message for every connected client.
#[derive(Debug, PartialEq, Eq)]
pub struct Notification {
    /// Name of the event.
    pub event: String,
    /// The path that the event is about.
    pub path: String,
}

/// What a raw event of kind `kind` on `paths` tells the clients: a change of
/// the library at the first path for a creation or a removal, nothing for
/// anything else or for an event without a path.
pub open spec fn notification_for(kind: FsEventKind, paths: Seq<Seq<char>>) -> Option<
    (Seq<char>, Seq<char>),
> {
    if (kind == FsEventKind::Create || kind == FsEventKind::Remove) && paths.len() > 0 {
        Some((library_changed(), paths[0]))
    } else {
        None
    }
}

/// Turns a raw filesystem event into the notification it calls for, if any.
pub fn notify_clients(kind: FsEventKind, paths: &Vec<String>) -> (r: Option<Notification>)
    ensures
        match r {
            Some(n) => notification_for(kind, string_views(paths@)) == Some(
                (n.event@, n.path@),
            ),
            None => notification_for(kind, string_views(paths@)) is None,
        },
{
    match kind {
        FsEventKind::Create | FsEventKind::Remove => {
            if paths.len() > 0 {
                let event = String::from_str("library_changed");
                proof {
                    reveal_strlit("library_changed");
                    assert(event@ =~= library_changed());
                }
                Some(Notification { event, path: paths[0].clone() })
            } else {
                None
            }
        },
        _ => None,
    }
}

} // verus!
