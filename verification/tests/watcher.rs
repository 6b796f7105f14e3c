use ubitix::watcher::{FileWatcher, WatchAction, WatchEvent};

#[test]
fn the_watcher_starts_at_the_end_of_the_file() {
    let mut watcher = FileWatcher::new(120);
    assert_eq!(watcher.position, 120);
    assert_eq!(watcher.watch(WatchEvent::Changed { length: 120 }), WatchAction::Ignore);
    assert_eq!(watcher.position, 120);
}

#[test]
fn the_watcher_reads_from_the_last_position() {
    let mut watcher = FileWatcher::new(120);
    assert_eq!(watcher.watch(WatchEvent::Changed { length: 200 }), WatchAction::Read { from: 120 });
    assert_eq!(watcher.position, 200);
    assert_eq!(watcher.watch(WatchEvent::Changed { length: 200 }), WatchAction::Ignore);
    assert_eq!(watcher.watch(WatchEvent::Changed { length: 260 }), WatchAction::Read { from: 200 });
    assert_eq!(watcher.position, 260);
}

#[test]
fn the_watcher_follows_a_file_that_shrank() {
    let mut watcher = FileWatcher::new(260);
    assert_eq!(watcher.watch(WatchEvent::Changed { length: 10 }), WatchAction::Read { from: 260 });
    assert_eq!(watcher.position, 10);
    assert_eq!(watcher.watch(WatchEvent::Changed { length: 30 }), WatchAction::Read { from: 10 });
}

#[test]
fn an_error_of_the_watch_is_passed_over() {
    let mut watcher = FileWatcher::new(50);
    assert_eq!(watcher.watch(WatchEvent::Failed), WatchAction::Ignore);
    assert_eq!(watcher.position, 50);
    assert_eq!(watcher.watch(WatchEvent::Changed { length: 70 }), WatchAction::Read { from: 50 });
}

#[test]
fn the_end_of_the_watch_stops_it() {
    let mut watcher = FileWatcher::new(50);
    assert_eq!(watcher.watch(WatchEvent::Closed), WatchAction::Stop);
    assert_eq!(watcher.position, 50);
}
