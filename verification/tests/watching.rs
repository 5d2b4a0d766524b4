use iced::futures::channel::mpsc;
use iqviewer::item::{Bitmap, FileInfo, FileItem};
use iqviewer::items::{ItemList, Scan};
use iqviewer::watcher::{
    ChangeKind, Cmd, EntryKind, FolderWatcher, ModifyKind, Notice, WatcherEvent,
};

fn item(path: &str) -> FileItem {
    FileItem::new(
        path.to_string(),
        FileInfo {
            size: None,
            sample_format: "CU8".to_string(),
            sample_count: 0,
            center_freq: 0,
            sample_rate: 0,
            center_label: "0".to_string(),
            rate_label: "0".to_string(),
            thumbnail: Bitmap { width: 0, height: 0, pixels: Vec::new() },
        },
    )
}

fn told(commands: Vec<Cmd>) -> Vec<String> {
    commands
        .into_iter()
        .map(|c| match c {
            Cmd::Watch(path) => format!("watch {}", path),
            Cmd::Unwatch(path) => format!("unwatch {}", path),
        })
        .collect()
}

#[test]
fn new_watcher_watches_nothing() {
    let mut watcher = FolderWatcher::new();
    assert_eq!(watcher.len(), 0);
    assert!(watcher.paths().is_empty());
    assert!(watcher.take_commands().is_empty());
}

#[test]
fn added_lists_a_folder_once() {
    let mut watcher = FolderWatcher::new();
    watcher.added("/a".to_string());
    watcher.added("/b".to_string());
    watcher.added("/a".to_string());
    assert_eq!(watcher.len(), 2);
    assert_eq!(watcher.paths(), &vec!["/a".to_string(), "/b".to_string()]);
}

#[test]
fn removed_unlists_a_folder() {
    let mut watcher = FolderWatcher::new();
    watcher.added("/a".to_string());
    watcher.added("/b".to_string());
    watcher.added("/c".to_string());
    watcher.removed("/b".to_string());
    assert_eq!(watcher.paths(), &vec!["/a".to_string(), "/c".to_string()]);
    watcher.removed("/unknown".to_string());
    assert_eq!(watcher.len(), 2);
}

#[test]
fn requests_wait_in_order_until_taken() {
    let mut watcher = FolderWatcher::new();
    watcher.watch("/a".to_string());
    watcher.unwatch("/b".to_string());
    watcher.watch_all(vec!["/c".to_string(), "/d".to_string()]);
    assert_eq!(watcher.len(), 0);
    assert_eq!(
        told(watcher.take_commands()),
        vec!["watch /a", "unwatch /b", "watch /c", "watch /d"]
    );
    assert!(watcher.take_commands().is_empty());
}

#[test]
fn unwatch_all_gives_up_every_folder() {
    let mut watcher = FolderWatcher::new();
    watcher.added("/a".to_string());
    watcher.added("/b".to_string());
    watcher.unwatch_all();
    assert_eq!(watcher.len(), 0);
    assert_eq!(told(watcher.take_commands()), vec!["unwatch /a", "unwatch /b"]);
    // the acknowledgements find nothing left to unlist
    watcher.removed("/a".to_string());
    assert_eq!(watcher.len(), 0);
}

#[test]
fn folders_wait_for_the_watcher() {
    let mut list = ItemList::new();
    list.push(Scan::Folder("/a".to_string(), vec![item("/a/1.cu8")]));
    list.push(Scan::Folder("/b".to_string(), Vec::new()));
    list.push(Scan::File(item("/c/2.cu8")));
    assert_eq!(list.count_watches(), 0);
    assert!(list.take_commands().is_empty());
    list.watcher_event(WatcherEvent::Ready(FolderWatcher::new()));
    assert_eq!(told(list.take_commands()), vec!["watch /a", "watch /b"]);
    assert!(list.take_commands().is_empty());
    assert_eq!(list.count_watches(), 0);
    assert_eq!(list.unfiltered_len(), 2);
}

#[test]
fn folders_are_watched_at_once_when_the_watcher_is_ready() {
    let mut list = ItemList::new();
    list.watcher_event(WatcherEvent::Ready(FolderWatcher::new()));
    assert!(list.take_commands().is_empty());
    list.push(Scan::Folder("/a".to_string(), Vec::new()));
    assert_eq!(told(list.take_commands()), vec!["watch /a"]);
    list.push(Scan::File(item("/a/1.cu8")));
    assert!(list.take_commands().is_empty());
}

#[test]
fn acknowledgements_update_the_watched_folders() {
    let mut list = ItemList::new();
    // without a watcher there is nothing to update
    list.watcher_event(WatcherEvent::Added("/early".to_string()));
    assert_eq!(list.count_watches(), 0);
    list.watcher_event(WatcherEvent::Ready(FolderWatcher::new()));
    list.watcher_event(WatcherEvent::Added("/a".to_string()));
    list.watcher_event(WatcherEvent::Added("/b".to_string()));
    list.watcher_event(WatcherEvent::Added("/a".to_string()));
    assert_eq!(list.count_watches(), 2);
    list.watcher_event(WatcherEvent::Removed("/a".to_string()));
    assert_eq!(list.count_watches(), 1);
    list.watcher_event(WatcherEvent::Removed("/a".to_string()));
    assert_eq!(list.count_watches(), 1);
    assert_eq!(list.unfiltered_len(), 0);
}

#[test]
fn clear_unwatches_every_watched_folder() {
    let mut list = ItemList::new();
    list.watcher_event(WatcherEvent::Ready(FolderWatcher::new()));
    list.push(Scan::Folder("/a".to_string(), vec![item("/a/1.cu8")]));
    list.push(Scan::Folder("/b".to_string(), vec![item("/b/2.cu8")]));
    assert_eq!(told(list.take_commands()), vec!["watch /a", "watch /b"]);
    list.watcher_event(WatcherEvent::Added("/a".to_string()));
    list.watcher_event(WatcherEvent::Added("/b".to_string()));
    assert_eq!(list.count_watches(), 2);
    list.clear();
    assert_eq!(told(list.take_commands()), vec!["unwatch /a", "unwatch /b"]);
    assert_eq!(list.count_watches(), 0);
    assert_eq!(list.unfiltered_len(), 0);
}

#[test]
fn clear_forgets_folders_that_still_wait() {
    let mut list = ItemList::new();
    list.push(Scan::Folder("/a".to_string(), Vec::new()));
    list.clear();
    list.watcher_event(WatcherEvent::Ready(FolderWatcher::new()));
    assert!(list.take_commands().is_empty());
}

#[test]
fn ready_brings_the_watcher_as_it_is() {
    let mut watcher = FolderWatcher::new();
    watcher.added("/known".to_string());
    watcher.watch("/asked".to_string());
    let mut list = ItemList::new();
    list.push(Scan::Folder("/waiting".to_string(), Vec::new()));
    list.watcher_event(WatcherEvent::Ready(watcher));
    assert_eq!(list.count_watches(), 1);
    assert_eq!(told(list.take_commands()), vec!["watch /asked", "watch /waiting"]);
}

#[test]
fn notices_are_made_of_file_changes_only() {
    let paths = vec!["/d/a.cu8".to_string()];
    assert!(matches!(
        Notice::from_change(ChangeKind::Create(EntryKind::File), paths.clone()),
        Some(Notice::Create(p)) if p == paths
    ));
    assert!(matches!(
        Notice::from_change(ChangeKind::Modify(ModifyKind::Data), paths.clone()),
        Some(Notice::Modify(p)) if p == paths
    ));
    assert!(matches!(
        Notice::from_change(ChangeKind::Remove(EntryKind::File), paths.clone()),
        Some(Notice::Remove(p)) if p == paths
    ));
    for kind in [
        ChangeKind::Any,
        ChangeKind::Access,
        ChangeKind::Other,
        ChangeKind::Create(EntryKind::Any),
        ChangeKind::Create(EntryKind::Folder),
        ChangeKind::Create(EntryKind::Other),
        ChangeKind::Modify(ModifyKind::Any),
        ChangeKind::Modify(ModifyKind::Metadata),
        ChangeKind::Modify(ModifyKind::Name),
        ChangeKind::Modify(ModifyKind::Other),
        ChangeKind::Remove(EntryKind::Any),
        ChangeKind::Remove(EntryKind::Folder),
        ChangeKind::Remove(EntryKind::Other),
    ] {
        assert!(Notice::from_change(kind, paths.clone()).is_none(), "{:?}", kind);
    }
}

#[test]
fn requests_are_acknowledged_only_when_done() {
    assert!(matches!(
        Cmd::Watch("/a".to_string()).acknowledged(true),
        Some(WatcherEvent::Added(p)) if p == "/a"
    ));
    assert!(matches!(
        Cmd::Unwatch("/a".to_string()).acknowledged(true),
        Some(WatcherEvent::Removed(p)) if p == "/a"
    ));
    assert!(Cmd::Watch("/a".to_string()).acknowledged(false).is_none());
    assert!(Cmd::Unwatch("/a".to_string()).acknowledged(false).is_none());
}

fn received(receiver: &mut mpsc::Receiver<Cmd>) -> Vec<String> {
    let mut commands = Vec::new();
    while let Ok(command) = receiver.try_recv() {
        commands.push(command);
    }
    told(commands)
}

#[test]
fn waiting_requests_are_sent_in_order() {
    let (mut sender, mut receiver) = mpsc::channel::<Cmd>(100);
    let mut list = ItemList::new();
    assert_eq!(list.send_commands(&mut sender), 0);
    list.watcher_event(WatcherEvent::Ready(FolderWatcher::new()));
    list.push(Scan::Folder("/a".to_string(), Vec::new()));
    list.push(Scan::Folder("/b".to_string(), Vec::new()));
    assert_eq!(list.send_commands(&mut sender), 0);
    assert_eq!(received(&mut receiver), vec!["watch /a", "watch /b"]);
    // what was sent does not wait any more
    assert_eq!(list.send_commands(&mut sender), 0);
    assert!(received(&mut receiver).is_empty());
    assert!(list.take_commands().is_empty());
}

#[test]
fn requests_that_the_channel_does_not_take_are_given_up() {
    // a channel without buffer still has room for one message of each sender
    let (mut sender, mut receiver) = mpsc::channel::<Cmd>(0);
    let mut watcher = FolderWatcher::new();
    watcher.watch("/a".to_string());
    watcher.watch("/b".to_string());
    watcher.watch("/c".to_string());
    assert_eq!(watcher.send_commands(&mut sender), 2);
    assert_eq!(received(&mut receiver), vec!["watch /a"]);
    assert!(watcher.take_commands().is_empty());
    // a closed channel takes nothing
    drop(receiver);
    watcher.unwatch("/a".to_string());
    assert_eq!(watcher.send_commands(&mut sender), 1);
}
