use nas_rom_manager::watcher::{
    notify_clients, FsEventKind, Notification, WatchAction, WatchSet, Watcher, WatcherEvent,
};

#[test]
fn new_watcher_has_no_requests() {
    let mut watcher = Watcher::new();
    assert_eq!(watcher.pending(), 0);
    assert!(watcher.drain().is_empty());
}

#[test]
fn requests_wait_in_order() {
    let mut watcher = Watcher::new();
    watcher.watch_path("/lib/roms/snes", "/lib");
    watcher.unwatch_path("/lib/roms/gba");
    watcher.unwatch_library("/lib");
    assert_eq!(watcher.pending(), 3);
    assert_eq!(
        watcher.drain(),
        vec![
            WatcherEvent::Add("/lib/roms/snes".to_string(), "/lib".to_string()),
            WatcherEvent::Remove("/lib/roms/gba".to_string()),
            WatcherEvent::RemoveLibrary("/lib".to_string()),
        ]
    );
    assert_eq!(watcher.pending(), 0);
}

#[test]
fn new_path_is_watched() {
    let mut set = WatchSet::new();
    assert_eq!(set.add("/lib/roms/snes", "/lib"), vec![WatchAction::Watch("/lib/roms/snes".to_string())]);
    assert_eq!(set.len(), 1);
    assert_eq!(set.owner("/lib/roms/snes"), Some(&"/lib".to_string()));
}

#[test]
fn watched_path_is_not_watched_again() {
    let mut set = WatchSet::new();
    set.add("/lib/roms/snes", "/lib");
    assert!(set.add("/lib/roms/snes", "/lib").is_empty());
    assert_eq!(set.len(), 1);
}

#[test]
fn path_goes_to_the_library_that_registered_it_last() {
    let mut set = WatchSet::new();
    set.add("/shared", "/lib-a");
    assert!(set.add("/shared", "/lib-b").is_empty());
    assert_eq!(set.owner("/shared"), Some(&"/lib-b".to_string()));
}

#[test]
fn removed_path_is_unwatched() {
    let mut set = WatchSet::new();
    set.add("/lib/roms/snes", "/lib");
    assert_eq!(set.remove("/lib/roms/snes"), vec![WatchAction::Unwatch("/lib/roms/snes".to_string())]);
    assert_eq!(set.len(), 0);
    assert!(set.owner("/lib/roms/snes").is_none());
}

#[test]
fn removing_unknown_path_does_nothing() {
    let mut set = WatchSet::new();
    set.add("/lib/roms/snes", "/lib");
    assert!(set.remove("/lib/roms/gba").is_empty());
    assert_eq!(set.len(), 1);
}

#[test]
fn removing_a_library_unwatches_its_paths() {
    let mut set = WatchSet::new();
    set.add("/a/snes", "/a");
    set.add("/b/snes", "/b");
    set.add("/a/gba", "/a");
    let mut actions = set.remove_library("/a");
    actions.sort_by_key(|a| format!("{:?}", a));
    assert_eq!(
        actions,
        vec![WatchAction::Unwatch("/a/gba".to_string()), WatchAction::Unwatch("/a/snes".to_string())]
    );
    assert_eq!(set.len(), 1);
    assert_eq!(set.owner("/b/snes"), Some(&"/b".to_string()));
}

#[test]
fn removing_unknown_library_does_nothing() {
    let mut set = WatchSet::new();
    set.add("/a/snes", "/a");
    assert!(set.remove_library("/zzz").is_empty());
    assert_eq!(set.len(), 1);
}

#[test]
fn requests_are_applied_to_the_table() {
    let mut watcher = Watcher::new();
    watcher.watch_path("/a/snes", "/a");
    watcher.watch_path("/a/snes", "/a");
    watcher.watch_path("/a/gba", "/a");
    watcher.unwatch_path("/a/gba");
    watcher.unwatch_library("/a");
    let mut set = WatchSet::new();
    let mut all = Vec::new();
    for event in watcher.drain() {
        all.extend(set.apply(&event));
    }
    assert_eq!(
        all,
        vec![
            WatchAction::Watch("/a/snes".to_string()),
            WatchAction::Watch("/a/gba".to_string()),
            WatchAction::Unwatch("/a/gba".to_string()),
            WatchAction::Unwatch("/a/snes".to_string()),
        ]
    );
    assert_eq!(set.len(), 0);
}

#[test]
fn watching_twice_is_watching_once() {
    let mut once = WatchSet::new();
    once.add("/a/snes", "/a");
    let mut twice = WatchSet::new();
    twice.add("/a/snes", "/a");
    twice.add("/a/snes", "/a");
    assert_eq!(once.len(), twice.len());
    assert_eq!(once.owner("/a/snes"), twice.owner("/a/snes"));
}

#[test]
fn creation_and_removal_notify_clients() {
    let paths = vec!["/lib/roms/snes/new.sfc".to_string(), "/other".to_string()];
    let expected = || Notification {
        event: "library_changed".to_string(),
        path: "/lib/roms/snes/new.sfc".to_string(),
    };
    assert_eq!(notify_clients(FsEventKind::Create, &paths), Some(expected()));
    assert_eq!(notify_clients(FsEventKind::Remove, &paths), Some(expected()));
}

#[test]
fn other_events_are_ignored() {
    let paths = vec!["/lib/roms/snes/new.sfc".to_string()];
    assert_eq!(notify_clients(FsEventKind::Modify, &paths), None);
    assert_eq!(notify_clients(FsEventKind::Access, &paths), None);
    assert_eq!(notify_clients(FsEventKind::Other, &paths), None);
}

#[test]
fn event_without_path_is_ignored() {
    assert_eq!(notify_clients(FsEventKind::Create, &Vec::new()), None);
}
