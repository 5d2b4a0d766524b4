//! The folder watcher as the collection sees it: the folders known to be
//! watched, the requests that wait to be handed to the watching task, which
//! takes them through a channel, and the events by which that task reports
//! back.

use crate::item::{FileInfo, FileItem, InfoView, ItemView};
use crate::seqs::lemma_filter_no_duplicates;
use crate::text::{holds_text, texts};
use iced::futures::channel::mpsc::Sender;
use vstd::prelude::*;

verus! {

/// The sending end of a bounded channel, `futures::channel::mpsc::Sender`,
/// which the toolkit hands on as `iced::futures::channel::mpsc::Sender`.
#[verifier::external_type_specification]
#[verifier::external_body]
#[verifier::reject_recursive_types(T)]
pub struct ExSender<T>(Sender<T>);

/// Wraps `Sender::try_send`, which offers a message to the channel without
/// waiting. The channel takes the message unless it is full or closed; which
/// of the two happens is not for the sender to know beforehand, so nothing
/// is said of it.
#[verifier::external_body]
fn offer(sender: &mut Sender<Cmd>, cmd: Cmd) -> (taken: bool) {
    sender.try_send(cmd).is_ok()
}

/// A request to the watching task.
#[derive(Debug)]
pub enum Cmd {
    Watch(String),
    Unwatch(String),
}

/// A request as plain values.
pub enum CmdView {
    Watch(Seq<char>),
    Unwatch(Seq<char>),
}

impl View for Cmd {
    type V = CmdView;

    open spec fn view(&self) -> CmdView {
        match self {
            Cmd::Watch(path) => CmdView::Watch(path@),
            Cmd::Unwatch(path) => CmdView::Unwatch(path@),
        }
    }
}

/// The requests held by a list of commands.
pub open spec fn cmd_views(list: Seq<Cmd>) -> Seq<CmdView> {
    Seq::new(list.len(), |k: int| list[k]@)
}

/// A watch request for each of `folders`, in their order.
pub open spec fn watch_each(folders: Seq<Seq<char>>) -> Seq<CmdView> {
    Seq::new(folders.len(), |k: int| CmdView::Watch(folders[k]))
}

/// An unwatch request for each of `folders`, in their order.
pub open spec fn unwatch_each(folders: Seq<Seq<char>>) -> Seq<CmdView> {
    Seq::new(folders.len(), |k: int| CmdView::Unwatch(folders[k]))
}

/// The test that a folder is another one than `path`.
pub open spec fn other_than(path: Seq<char>) -> spec_fn(Seq<char>) -> bool {
    |p: Seq<char>| p != path
}

/// A folder watcher as plain values: the folders that are watched, and the
/// requests that have been made and not yet taken.
pub struct WatcherView {
    pub paths: Seq<Seq<char>>,
    pub pending: Seq<CmdView>,
}

impl WatcherView {
    /// No folder is listed twice.
    pub open spec fn valid(self) -> bool {
        self.paths.no_duplicates()
    }

    pub open spec fn fresh() -> WatcherView {
        WatcherView { paths: Seq::empty(), pending: Seq::empty() }
    }

    /// The watching task has begun to watch `path`.
    pub open spec fn added(self, path: Seq<char>) -> WatcherView {
        if self.paths.contains(path) {
            self
        } else {
            WatcherView { paths: self.paths.push(path), ..self }
        }
    }

    /// The watching task has stopped watching `path`.
    pub open spec fn removed(self, path: Seq<char>) -> WatcherView {
        WatcherView { paths: self.paths.filter(other_than(path)), ..self }
    }

    /// `requests` are made, after those that wait already.
    pub open spec fn asked(self, requests: Seq<CmdView>) -> WatcherView {
        WatcherView { pending: self.pending + requests, ..self }
    }

    /// All watched folders are given up: an unwatch request is made for
    /// each, and none is listed any more.
    pub open spec fn unwatch_all(self) -> WatcherView {
        WatcherView { paths: Seq::empty(), pending: self.pending + unwatch_each(self.paths) }
    }

    /// The waiting requests have been taken.
    pub open spec fn taken(self) -> WatcherView {
        WatcherView { pending: Seq::empty(), ..self }
    }
}

/// The collection's end of the folder watcher.
#[derive(Debug)]
pub struct FolderWatcher {
    paths: Vec<String>,
    pending: Vec<Cmd>,
}

impl View for FolderWatcher {
    type V = WatcherView;

    closed spec fn view(&self) -> WatcherView {
        WatcherView { paths: texts(self.paths@), pending: cmd_views(self.pending@) }
    }
}

impl FolderWatcher {
    pub open spec fn wf(&self) -> bool {
        self@.valid()
    }

    /// A watcher that watches nothing and has asked for nothing.
    pub fn new() -> (watcher: FolderWatcher)
        ensures
            watcher.wf(),
            watcher@ == WatcherView::fresh(),
    {
        let watcher = FolderWatcher { paths: Vec::new(), pending: Vec::new() };
        proof {
            assert(watcher@.paths =~= Seq::empty());
            assert(watcher@.pending =~= Seq::empty());
        }
        watcher
    }

    /// Number of folders that are watched.
    pub fn len(&self) -> (count: usize)
        ensures
            count == self@.paths.len(),
    {
        self.paths.len()
    }

    /// The folders that are watched.
    pub fn paths(&self) -> (paths: &Vec<String>)
        ensures
            texts(paths@) == self@.paths,
    {
        &self.paths
    }

    /// Notes that `path` is now watched. A folder that is listed already is
    /// not listed again.
    pub fn added(&mut self, path: String)
        requires
            old(self).wf(),
        ensures
            final(self).wf(),
            final(self)@ == old(self)@.added(path@),
    {
        if !holds_text(&self.paths, path.as_str()) {
            proof {
                assert(texts(self.paths@.push(path)) =~= texts(self.paths@).push(path@));
            }
            self.paths.push(path);
        }
    }

    /// Notes that `path` is no longer watched.
    pub fn removed(&mut self, path: String)
        requires
            old(self).wf(),
        ensures
            final(self).wf(),
            final(self)@ == old(self)@.removed(path@),
    {
        let mut before: Vec<String> = Vec::new();
        core::mem::swap(&mut self.paths, &mut before);
        let ghost all = texts(before@);
        for entry in it: before
            invariant
                it.seq() == before@,
                all == texts(before@),
                self.pending == old(self).pending,
                texts(self.paths@) == all.take(it.index() as int).filter(other_than(path@)),
        {
            proof {
                let seen = all.take(it.index() as int);
                assert(all.take(it.index() + 1) =~= seen.push(entry@));
                seen.lemma_filter_push(entry@, other_than(path@));
            }
            if entry != path {
                self.paths.push(entry);
            }
        }
        proof {
            assert(all.take(all.len() as int) =~= all);
            lemma_filter_no_duplicates(all, other_than(path@));
        }
    }

    /// Asks the watching task to watch `path`.
    pub fn watch(&mut self, path: String)
        ensures
            final(self)@ == old(self)@.asked(seq![CmdView::Watch(path@)]),
    {
        proof {
            let cmd = Cmd::Watch(path);
            assert(cmd_views(self.pending@.push(cmd)) =~= cmd_views(self.pending@) + seq![cmd@]);
        }
        self.pending.push(Cmd::Watch(path));
    }

    /// Asks the watching task to stop watching `path`.
    pub fn unwatch(&mut self, path: String)
        ensures
            final(self)@ == old(self)@.asked(seq![CmdView::Unwatch(path@)]),
    {
        proof {
            let cmd = Cmd::Unwatch(path);
            assert(cmd_views(self.pending@.push(cmd)) =~= cmd_views(self.pending@) + seq![cmd@]);
        }
        self.pending.push(Cmd::Unwatch(path));
    }

    /// Asks the watching task to watch each of `folders`.
    pub fn watch_all(&mut self, folders: Vec<String>)
        ensures
            final(self)@ == old(self)@.asked(watch_each(texts(folders@))),
    {
        let ghost all = texts(folders@);
        for folder in it: folders
            invariant
                it.seq() == folders@,
                all == texts(folders@),
                self.paths == old(self).paths,
                self@.pending == old(self)@.pending + watch_each(all.take(it.index() as int)),
        {
            proof {
                let cmd = Cmd::Watch(folder);
                assert(cmd_views(self.pending@.push(cmd)) =~= cmd_views(self.pending@) + seq![
                    cmd@,
                ]);
            }
            self.pending.push(Cmd::Watch(folder));
        }
        proof {
            assert(all.take(all.len() as int) =~= all);
        }
    }

    /// Gives up all watched folders: asks the watching task to stop
    /// watching each of them, and lists none any more.
    pub fn unwatch_all(&mut self)
        ensures
            final(self).wf(),
            final(self)@ == old(self)@.unwatch_all(),
    {
        let mut before: Vec<String> = Vec::new();
        core::mem::swap(&mut self.paths, &mut before);
        let ghost all = texts(before@);
        for folder in it: before
            invariant
                it.seq() == before@,
                all == texts(before@),
                self.paths@.len() == 0,
                self@.pending == old(self)@.pending + unwatch_each(all.take(it.index() as int)),
        {
            proof {
                let cmd = Cmd::Unwatch(folder);
                assert(cmd_views(self.pending@.push(cmd)) =~= cmd_views(self.pending@) + seq![
                    cmd@,
                ]);
            }
            self.pending.push(Cmd::Unwatch(folder));
        }
        proof {
            assert(all.take(all.len() as int) =~= all);
            assert(self@.paths =~= Seq::empty());
        }
    }

    /// Offers the requests that wait to the channel that leads to the
    /// watching task, oldest first, and keeps none. A request that the
    /// channel does not take is given up; their number is returned.
    pub fn send_commands(&mut self, sender: &mut Sender<Cmd>) -> (lost: usize)
        ensures
            final(self)@ == old(self)@.taken(),
            lost <= old(self)@.pending.len(),
    {
        let commands = self.take_commands();
        let mut lost: usize = commands.len();
        for command in it: commands
            invariant
                it.seq() == commands@,
                commands@.len() - it.index() <= lost <= commands@.len(),
        {
            if offer(sender, command) {
                lost -= 1;
            }
        }
        lost
    }

    /// Hands out the requests that wait, oldest first, and keeps none.
    pub fn take_commands(&mut self) -> (commands: Vec<Cmd>)
        ensures
            cmd_views(commands@) == old(self)@.pending,
            final(self)@ == old(self)@.taken(),
    {
        let mut commands: Vec<Cmd> = Vec::new();
        core::mem::swap(&mut self.pending, &mut commands);
        proof {
            assert(self@.pending =~= Seq::empty());
        }
        commands
    }
}

/// A file that appeared in a watched folder: the path as it was reported,
/// and the item made for it, absent where the file could not be resolved or
/// read any more.
#[derive(Debug)]
pub struct Created {
    pub path: String,
    pub item: Option<FileItem>,
}

/// An appeared file as plain values.
pub struct CreatedView {
    pub path: Seq<char>,
    pub item: Option<ItemView>,
}

impl View for Created {
    type V = CreatedView;

    open spec fn view(&self) -> CreatedView {
        CreatedView {
            path: self.path@,
            item: match self.item {
                Some(item) => Some(item@),
                None => None,
            },
        }
    }
}

/// A file whose data changed: its path, and what a new look at it found,
/// absent where that look failed.
#[derive(Debug)]
pub struct Modified {
    pub path: String,
    pub info: Option<FileInfo>,
}

/// A changed file as plain values.
pub struct ModifiedView {
    pub path: Seq<char>,
    pub info: Option<InfoView>,
}

impl View for Modified {
    type V = ModifiedView;

    open spec fn view(&self) -> ModifiedView {
        ModifiedView {
            path: self.path@,
            info: match self.info {
                Some(info) => Some(info@),
                None => None,
            },
        }
    }
}

/// What the watching task reports to the collection.
#[derive(Debug)]
pub enum WatcherEvent {
    /// The task has started; here is the collection's end of it.
    Ready(FolderWatcher),
    /// A folder is now watched.
    Added(String),
    /// A folder is no longer watched.
    Removed(String),
    /// Files appeared.
    Create(Vec<Created>),
    /// Files changed.
    Modify(Vec<Modified>),
    /// Files disappeared.
    Remove(Vec<String>),
}

/// The appeared files held by a list.
pub open spec fn created_views(list: Seq<Created>) -> Seq<CreatedView> {
    Seq::new(list.len(), |k: int| list[k]@)
}

/// The changed files held by a list.
pub open spec fn modified_views(list: Seq<Modified>) -> Seq<ModifiedView> {
    Seq::new(list.len(), |k: int| list[k]@)
}

/// A report of the watching task as plain values.
pub enum EventView {
    Ready(WatcherView),
    Added(Seq<char>),
    Removed(Seq<char>),
    Create(Seq<CreatedView>),
    Modify(Seq<ModifiedView>),
    Remove(Seq<Seq<char>>),
}

impl View for WatcherEvent {
    type V = EventView;

    open spec fn view(&self) -> EventView {
        match self {
            WatcherEvent::Ready(watcher) => EventView::Ready(watcher@),
            WatcherEvent::Added(path) => EventView::Added(path@),
            WatcherEvent::Removed(path) => EventView::Removed(path@),
            WatcherEvent::Create(list) => EventView::Create(created_views(list@)),
            WatcherEvent::Modify(list) => EventView::Modify(modified_views(list@)),
            WatcherEvent::Remove(paths) => EventView::Remove(texts(paths@)),
        }
    }
}

impl WatcherEvent {
    /// A watcher that comes with `Ready` is a proper one.
    pub open spec fn wf(&self) -> bool {
        match self {
            WatcherEvent::Ready(watcher) => watcher.wf(),
            _ => true,
        }
    }
}

impl Cmd {
    /// The report that answers a request: where the watching task could do
    /// what was asked, that the folder is now watched, or no longer
    /// watched; where it could not, nothing.
    pub fn acknowledged(self, done: bool) -> (event: Option<WatcherEvent>)
        ensures
            !done ==> event is None,
            done ==> event is Some && event->0@ == (match self@ {
                CmdView::Watch(path) => EventView::Added(path),
                CmdView::Unwatch(path) => EventView::Removed(path),
            }),
    {
        if done {
            match self {
                Cmd::Watch(path) => Some(WatcherEvent::Added(path)),
                Cmd::Unwatch(path) => Some(WatcherEvent::Removed(path)),
            }
        } else {
            None
        }
    }
}

/// What kind of entry a change in a folder is about.
#[derive(Debug, Clone, Copy, PartialEq, Eq, Structural)]
pub enum EntryKind {
    Any,
    File,
    Folder,
    Other,
}

/// What about an entry was modified.
#[derive(Debug, Clone, Copy, PartialEq, Eq, Structural)]
pub enum ModifyKind {
    Any,
    Data,
    Metadata,
    Name,
    Other,
}

/// The kind of a change that a platform watcher reports.
#[derive(Debug, Clone, Copy, PartialEq, Eq, Structural)]
pub enum ChangeKind {
    Any,
    Access,
    Create(EntryKind),
    Modify(ModifyKind),
    Remove(EntryKind),
    Other,
}

/// A change that matters to the collection, with the paths it is about.
#[derive(Debug)]
pub enum Notice {
    Create(Vec<String>),
    Modify(Vec<String>),
    Remove(Vec<String>),
}

impl Notice {
    /// Picks the changes that matter: a file was created, the data of a
    /// file was modified, or a file was removed. All other changes, those
    /// to folders and to metadata among them, are passed over.
    pub fn from_change(kind: ChangeKind, paths: Vec<String>) -> (notice: Option<Notice>)
        ensures
            notice == (match kind {
                ChangeKind::Create(EntryKind::File) => Some(Notice::Create(paths)),
                ChangeKind::Modify(ModifyKind::Data) => Some(Notice::Modify(paths)),
                ChangeKind::Remove(EntryKind::File) => Some(Notice::Remove(paths)),
                _ => None,
            }),
    {
        match kind {
            ChangeKind::Create(EntryKind::File) => Some(Notice::Create(paths)),
            ChangeKind::Modify(ModifyKind::Data) => Some(Notice::Modify(paths)),
            ChangeKind::Remove(EntryKind::File) => Some(Notice::Remove(paths)),
            _ => None,
        }
    }
}

} // verus!
