//! The collection of sample files: a list of items with a text filter over
//! it, a selection that stays on its item while the list changes, and the
//! reconciliation of the list with what a folder watcher reports.

use crate::dirs::{file_name, is_iq_file, join};
use crate::item::{FileInfo, FileItem, ItemView};
use crate::model::{
    arrivals, clamped, count_below, distinct_paths, doomed, doomed_paths, has_path,
    lemma_count_below_push, lemma_merged, lemma_merged_one, lemma_merged_push, lemma_refresh_each,
    lemma_visible_upto, lemma_visible_upto_prefix, lemma_without_distinct, marked, merged,
    planned_moves, refresh_each, refresh_one, reselect, stays, visible_upto, without, CommandView,
    ListView, MoveView, Pick, ScanView,
};
use crate::text::{ascii_lowercase, holds_text, split_words, texts, views, words};
use crate::watcher::{
    cmd_views, created_views, modified_views, Cmd, Created, FolderWatcher, Modified, ModifiedView,
    WatcherEvent,
};
use iced::futures::channel::mpsc::Sender;
use vstd::prelude::*;
use vstd::string::*;

verus! {

/// The items held by a list as plain values.
pub open spec fn item_views(items: Seq<FileItem>) -> Seq<ItemView> {
    Seq::new(items.len(), |i: int| items[i]@)
}

/// What was found at a path that is to be added to the collection: a single
/// file with its item, or a folder with the items of its sample files, in
/// the order in which they are to be shown.
///
/// There is an item only for a file that could be resolved and read. A file
/// that has vanished, or that the spectrogram engine cannot read, is left
/// out by whoever makes the scan, and so is a folder that cannot be listed.
#[derive(Debug)]
pub enum Scan {
    File(FileItem),
    Folder(String, Vec<FileItem>),
}

impl View for Scan {
    type V = ScanView;

    open spec fn view(&self) -> ScanView {
        match self {
            Scan::File(item) => ScanView::File(item@),
            Scan::Folder(path, items) => ScanView::Folder(path@, item_views(items@)),
        }
    }
}

/// The scans held by a list as plain values.
pub open spec fn scan_views(scans: Seq<Scan>) -> Seq<ScanView> {
    Seq::new(scans.len(), |i: int| scans[i]@)
}

/// Everything that can be asked of the collection, as one value: what a
/// user does, what was found on disk, and what the watching task reports.
#[derive(Debug)]
pub enum Command {
    Push(Scan),
    Extend(Vec<Scan>),
    SetFilter(String),
    SetSelection(usize),
    IncSelection(usize),
    DecSelection(usize),
    RemoveSelected,
    ToggleMark,
    ToggleDelete,
    MoveMarked(Vec<String>),
    DeleteMarked(Vec<String>),
    Clear,
    Watcher(WatcherEvent),
}

impl View for Command {
    type V = CommandView;

    open spec fn view(&self) -> CommandView {
        match self {
            Command::Push(scan) => CommandView::Push(scan@),
            Command::Extend(scans) => CommandView::Extend(scan_views(scans@)),
            Command::SetFilter(text) => CommandView::SetFilter(text@),
            Command::SetSelection(index) => CommandView::SetSelection(*index as int),
            Command::IncSelection(offset) => CommandView::IncSelection(*offset as int),
            Command::DecSelection(offset) => CommandView::DecSelection(*offset as int),
            Command::RemoveSelected => CommandView::RemoveSelected,
            Command::ToggleMark => CommandView::ToggleMark,
            Command::ToggleDelete => CommandView::ToggleDelete,
            Command::MoveMarked(moved) => CommandView::MoveMarked(texts(moved@)),
            Command::DeleteMarked(deleted) => CommandView::DeleteMarked(texts(deleted@)),
            Command::Clear => CommandView::Clear,
            Command::Watcher(event) => CommandView::Watcher(event@),
        }
    }
}

impl Command {
    /// A watcher that comes with a command is a proper one.
    pub open spec fn wf(&self) -> bool {
        match self {
            Command::Watcher(event) => event.wf(),
            _ => true,
        }
    }
}

/// A file to be moved: where it lies, and where it is to lie.
#[derive(Debug)]
pub struct Move {
    pub from: String,
    pub to: String,
}

impl View for Move {
    type V = MoveView;

    open spec fn view(&self) -> MoveView {
        MoveView { from: self.from@, to: self.to@ }
    }
}

/// The moves held by a list as plain values.
pub open spec fn move_views(moves: Seq<Move>) -> Seq<MoveView> {
    Seq::new(moves.len(), |i: int| moves[i]@)
}

/// A list of sample files that keeps a filter and a selection.
///
/// The items stand in the order in which they came. No two of them lie at
/// the same path: an item that comes for a path that is held already is
/// passed over, and the item that is there stays as it is, marks included.
/// The filtered view holds the positions of exactly those items whose search
/// text holds every word of the filter, and the selection is an entry of
/// that view whenever it has one.
#[derive(Debug)]
pub struct ItemList {
    items: Vec<FileItem>,
    selection: usize,
    filter_map: Vec<usize>,
    filter_text: String,
    watcher: Option<FolderWatcher>,
    recent_folders: Vec<String>,
}

impl View for ItemList {
    type V = ListView;

    closed spec fn view(&self) -> ListView {
        ListView {
            items: item_views(self.items@),
            filter: self.filter_text@,
            selection: self.selection as nat,
            watcher: match self.watcher {
                Some(w) => Some(w@),
                None => None,
            },
            queued: texts(self.recent_folders@),
        }
    }
}

impl ItemList {
    /// The stored view is the filtered view of the items.
    spec fn mapped(&self) -> bool {
        &&& self.filter_map@.len() == self@.visible().len()
        &&& forall|k: int|
            0 <= k < self.filter_map@.len() ==> self.filter_map@[k] as int == self@.visible()[k]
    }

    /// The position that the stored view gives for the selection, 0 where
    /// the selection is no entry of it.
    spec fn raw_anchor(&self) -> int {
        if self.selection < self.filter_map@.len() {
            self.filter_map@[self.selection as int] as int
        } else {
            0
        }
    }

    /// The collection is consistent: what holds of every collection holds
    /// of it, and the view it keeps is the filtered view of its items.
    pub closed spec fn wf(&self) -> bool {
        &&& self@.valid()
        &&& self.mapped()
    }

    /// A consistent collection is a valid one. In particular its selection
    /// is an entry of the filtered view whenever that view is not empty,
    /// and 0 when it is.
    pub proof fn law_wf_is_valid(&self)
        requires
            self.wf(),
        ensures
            self@.valid(),
            self@.visible().len() > 0 ==> self@.selection < self@.visible().len(),
            self@.visible().len() == 0 ==> self@.selection == 0,
    {
    }

    /// A collection without items, filter and watcher.
    pub fn new() -> (list: ItemList)
        ensures
            list.wf(),
            list@ == ListView::empty(),
    {
        let list = ItemList {
            items: Vec::new(),
            selection: 0,
            filter_map: Vec::new(),
            filter_text: String::new(),
            watcher: None,
            recent_folders: Vec::new(),
        };
        proof {
            assert(list@.items =~= Seq::empty());
            assert(list@.queued =~= Seq::empty());
        }
        list
    }

    /// Number of items that pass the filter.
    pub fn len(&self) -> (count: usize)
        requires
            self.wf(),
        ensures
            count == self@.visible().len(),
    {
        self.filter_map.len()
    }

    /// Whether no item passes the filter.
    pub fn is_empty(&self) -> (empty: bool)
        requires
            self.wf(),
        ensures
            empty == (self@.visible().len() == 0),
    {
        self.filter_map.len() == 0
    }

    /// Number of all items, shown or not.
    pub fn unfiltered_len(&self) -> (count: usize)
        ensures
            count == self@.items.len(),
    {
        self.items.len()
    }

    /// The filter text, in lower case.
    pub fn filter(&self) -> (text: &str)
        ensures
            text@ == self@.filter,
    {
        self.filter_text.as_str()
    }

    /// Whether an item is selected, which is the case exactly when some
    /// item passes the filter.
    pub fn has_selection(&self) -> (selected: bool)
        requires
            self.wf(),
        ensures
            selected == self@.has_selection(),
            selected == (self@.visible().len() > 0),
    {
        self.selection < self.filter_map.len()
    }

    /// The selected entry of the filtered view.
    pub fn selection(&self) -> (index: usize)
        ensures
            index == self@.selection,
    {
        self.selection
    }

    /// The position in the items of the selected item, 0 where none is
    /// selected, as the stored view gives it.
    fn anchor_index(&self) -> (at: usize)
        ensures
            at as int == self.raw_anchor(),
    {
        if self.selection < self.filter_map.len() {
            self.filter_map[self.selection]
        } else {
            0
        }
    }

    /// Filters the items anew and moves the selection along with the item
    /// it stood on, where no item has changed its position.
    fn apply_filter(&mut self)
        ensures
            final(self).items == old(self).items,
            final(self).filter_text == old(self).filter_text,
            final(self).watcher == old(self).watcher,
            final(self).recent_folders == old(self).recent_folders,
            final(self).mapped(),
            final(self).selection as nat == reselect(
                final(self)@.visible(),
                old(self).raw_anchor(),
            ),
    {
        let prev_index = self.anchor_index();
        self.apply_filter_at(prev_index);
    }

    /// Filters the items anew and moves the selection to the item at
    /// position `prev_index`, or to the shown item that is nearest after
    /// it, or to the last shown item.
    fn apply_filter_at(&mut self, prev_index: usize)
        ensures
            final(self).items == old(self).items,
            final(self).filter_text == old(self).filter_text,
            final(self).watcher == old(self).watcher,
            final(self).recent_folders == old(self).recent_folders,
            final(self).mapped(),
            final(self).selection as nat == reselect(final(self)@.visible(), prev_index as int),
    {
        let wanted = split_words(self.filter_text.as_str());
        let mut selection: usize = 0;
        let mut map: Vec<usize> = Vec::new();
        let ghost model = item_views(self.items@);
        let ghost filter = self.filter_text@;
        let mut i: usize = 0;
        while i < self.items.len()
            invariant
                i <= self.items.len(),
                model == item_views(self.items@),
                views(wanted@) == words(filter),
                map@.len() == visible_upto(model, filter, i as nat).len(),
                forall|k: int|
                    0 <= k < map@.len() ==> map@[k] as int == visible_upto(
                        model,
                        filter,
                        i as nat,
                    )[k],
                selection as nat == count_below(
                    visible_upto(model, filter, i as nat),
                    prev_index as int,
                ),
                selection <= map@.len() <= i,
            decreases self.items.len() - i,
        {
            proof {
                lemma_count_below_push(
                    visible_upto(model, filter, i as nat),
                    prev_index as int,
                    i as int,
                );
            }
            if self.items[i].matches_all(&wanted) {
                map.push(i);
                if i < prev_index {
                    selection += 1;
                }
            }
            i += 1;
        }
        self.filter_map = map;
        let last: usize = if self.filter_map.len() == 0 {
            0
        } else {
            self.filter_map.len() - 1
        };
        self.selection = if selection < last {
            selection
        } else {
            last
        };
    }

    /// Whether one of the items lies at `path`.
    pub fn contains_path(&self, path: &str) -> (found: bool)
        ensures
            found == has_path(self@.items, path@),
    {
        let wanted = path.to_owned();
        let mut i: usize = 0;
        while i < self.items.len()
            invariant
                i <= self.items.len(),
                wanted@ == path@,
                forall|j: int| 0 <= j < i ==> item_views(self.items@)[j].path != path@,
            decreases self.items.len() - i,
        {
            if self.items[i].is_at(&wanted) {
                proof {
                    assert(item_views(self.items@)[i as int].path == path@);
                }
                return true;
            }
            i += 1;
        }
        false
    }

    /// Appends an item, unless one lies at its path already.
    fn adopt(&mut self, item: FileItem)
        ensures
            item_views(final(self).items@) == merged(item_views(old(self).items@), seq![item@]),
            final(self).selection == old(self).selection,
            final(self).filter_map == old(self).filter_map,
            final(self).filter_text == old(self).filter_text,
            final(self).watcher == old(self).watcher,
            final(self).recent_folders == old(self).recent_folders,
    {
        proof {
            let before = item_views(self.items@);
            lemma_merged_one(before, item@);
        }
        if !self.contains_path(item.path()) {
            self.items.push(item);
        }
    }

    /// Hands the folders that wait to the watcher, if one is ready.
    fn flush(&mut self)
        ensures
            final(self)@ == old(self)@.flushed(),
            final(self).items == old(self).items,
            final(self).selection == old(self).selection,
            final(self).filter_map == old(self).filter_map,
            final(self).filter_text == old(self).filter_text,
    {
        match &mut self.watcher {
            Some(watcher) => {
                let mut folders: Vec<String> = Vec::new();
                core::mem::swap(&mut self.recent_folders, &mut folders);
                watcher.watch_all(folders);
                proof {
                    assert(texts(self.recent_folders@) =~= Seq::empty());
                }
            },
            None => {},
        }
    }

    /// Takes in what was found at a path: a single file, or the sample
    /// files of a folder, which is then watched as soon as a watcher is
    /// ready. An item whose path is held already is passed over. The
    /// filter is applied anew.
    pub fn push(&mut self, scan: Scan)
        requires
            old(self).wf(),
        ensures
            final(self).wf(),
            final(self)@ == old(self)@.with_scan(scan@),
    {
        match scan {
            Scan::File(item) => {
                proof {
                    lemma_merged(self@.items, seq![item@]);
                }
                self.adopt(item);
            },
            Scan::Folder(path, items) => {
                let ghost new = item_views(items@);
                proof {
                    lemma_merged(self@.items, new);
                }
                for item in it: items
                    invariant
                        it.seq() == items@,
                        new == item_views(items@),
                        item_views(self.items@) == merged(
                            item_views(old(self).items@),
                            new.take(it.index() as int),
                        ),
                        self.selection == old(self).selection,
                        self.filter_map == old(self).filter_map,
                        self.filter_text == old(self).filter_text,
                        self.watcher == old(self).watcher,
                        self.recent_folders == old(self).recent_folders,
                {
                    proof {
                        let seen = new.take(it.index() as int);
                        assert(new.take(it.index() + 1) =~= seen.push(item@));
                        lemma_merged_push(item_views(old(self).items@), seen, item@);
                    }
                    self.adopt(item);
                }
                proof {
                    assert(new.take(new.len() as int) =~= new);
                    assert(texts(self.recent_folders@.push(path)) =~= texts(
                        self.recent_folders@,
                    ).push(path@));
                }
                self.recent_folders.push(path);
                self.flush();
            },
        }
        self.apply_filter();
    }

    /// Takes in each of `scans` in turn, as `push` does.
    pub fn extend(&mut self, scans: Vec<Scan>)
        requires
            old(self).wf(),
        ensures
            final(self).wf(),
            final(self)@ == old(self)@.with_scans(scan_views(scans@)),
    {
        let ghost all = scan_views(scans@);
        for scan in it: scans
            invariant
                it.seq() == scans@,
                all == scan_views(scans@),
                self.wf(),
                self@ == old(self)@.with_scans(all.take(it.index() as int)),
        {
            proof {
                let next = all.take(it.index() + 1);
                assert(next.drop_last() =~= all.take(it.index() as int));
            }
            self.push(scan);
        }
        proof {
            assert(all.take(all.len() as int) =~= all);
        }
    }

    /// The item at an entry of the filtered view.
    pub fn get(&self, index: usize) -> (item: Option<&FileItem>)
        requires
            self.wf(),
        ensures
            match item {
                Some(it) => {
                    &&& index < self@.visible().len()
                    &&& it@ == self@.items[self@.visible()[index as int]]
                },
                None => index >= self@.visible().len(),
            },
    {
        if index < self.filter_map.len() {
            proof {
                lemma_visible_upto(self@.items, self@.filter, self@.items.len());
            }
            let at = self.filter_map[index];
            Some(&self.items[at])
        } else {
            None
        }
    }

    /// The selected item, if there is one.
    pub fn selected(&self) -> (item: Option<&FileItem>)
        requires
            self.wf(),
        ensures
            match item {
                Some(it) => self@.has_selection() && it@ == self@.items[self@.anchor()],
                None => !self@.has_selection(),
            },
    {
        self.get(self.selection)
    }

    /// The selected item, if there is one, for changing it in place.
    ///
    /// The collection stays consistent as long as the path and the search
    /// text of the item are left as they are, which holds of the two
    /// toggles. After a `refresh` of the item the filter has to be applied
    /// anew, by `set_filter`.
    pub fn selected_mut(&mut self) -> (item: Option<&mut FileItem>)
        requires
            old(self).wf(),
        ensures
            match item {
                Some(it) => {
                    &&& old(self)@.has_selection()
                    &&& it@ == old(self)@.items[old(self)@.anchor()]
                    &&& final(self)@ == (ListView {
                        items: old(self)@.items.update(old(self)@.anchor(), final(it)@),
                        ..old(self)@
                    })
                    &&& final(it)@.path == it@.path && final(it)@.metadata == it@.metadata
                        ==> final(self).wf()
                },
                None => {
                    &&& !old(self)@.has_selection()
                    &&& final(self)@ == old(self)@
                    &&& final(self).wf()
                },
            },
    {
        if self.selection < self.filter_map.len() {
            proof {
                lemma_visible_upto(self@.items, self@.filter, self@.items.len());
            }
            let at = self.filter_map[self.selection];
            proof {
                assert(forall|x: FileItem| #[trigger]
                    item_views(self.items@.update(at as int, x)) == item_views(
                        self.items@,
                    ).update(at as int, x@));
                let before = self@.items;
                assert forall|l: ItemList|
                    l.items@ == self.items@.update(at as int, l.items@[at as int])
                        && l.selection == self.selection && l.filter_map == self.filter_map
                        && l.filter_text == self.filter_text && l.watcher == self.watcher
                        && l.recent_folders == self.recent_folders && l.items@[at as int]@.path
                        == before[at as int].path && l.items@[at as int]@.metadata
                        == before[at as int].metadata implies #[trigger] l.wf() by {
                    let after = before.update(at as int, l.items@[at as int]@);
                    lemma_visible_upto_prefix(before, after, self@.filter, before.len());
                }
            }
            Some(&mut self.items[at])
        } else {
            None
        }
    }

    /// The items that pass the filter, in the order of the filtered view.
    pub fn iter(&self) -> (shown: Vec<&FileItem>)
        requires
            self.wf(),
        ensures
            shown@.len() == self@.visible().len(),
            forall|k: int|
                0 <= k < shown@.len() ==> (#[trigger] shown@[k])@
                    == self@.items[self@.visible()[k]],
    {
        let mut shown: Vec<&FileItem> = Vec::new();
        let mut k: usize = 0;
        proof {
            lemma_visible_upto(self@.items, self@.filter, self@.items.len());
        }
        while k < self.filter_map.len()
            invariant
                k <= self.filter_map.len(),
                self.wf(),
                shown@.len() == k,
                forall|j: int|
                    0 <= j < self@.visible().len() ==> 0 <= #[trigger] self@.visible()[j]
                        < self.items@.len(),
                forall|j: int|
                    0 <= j < k ==> (#[trigger] shown@[j])@ == self@.items[self@.visible()[j]],
            decreases self.filter_map.len() - k,
        {
            let at = self.filter_map[k];
            shown.push(&self.items[at]);
            k += 1;
        }
        shown
    }

    /// Number of folders that are watched.
    pub fn count_watches(&self) -> (count: usize)
        ensures
            count == (match self@.watcher {
                Some(w) => w.paths.len(),
                None => 0,
            }),
    {
        match &self.watcher {
            Some(watcher) => watcher.len(),
            None => 0,
        }
    }

    /// Offers the requests that wait to the channel that leads to the
    /// watching task, oldest first, and keeps none. A request that the
    /// channel does not take is given up; their number is returned.
    pub fn send_commands(&mut self, sender: &mut Sender<Cmd>) -> (lost: usize)
        requires
            old(self).wf(),
        ensures
            final(self).wf(),
            final(self)@ == old(self)@.commands_taken(),
            lost <= (match old(self)@.watcher {
                Some(w) => w.pending.len(),
                None => 0,
            }),
    {
        match &mut self.watcher {
            Some(watcher) => watcher.send_commands(sender),
            None => 0,
        }
    }

    /// Hands out the requests to the watching task that wait, oldest
    /// first, and keeps none.
    pub fn take_commands(&mut self) -> (commands: Vec<Cmd>)
        requires
            old(self).wf(),
        ensures
            final(self).wf(),
            final(self)@ == old(self)@.commands_taken(),
            cmd_views(commands@) == (match old(self)@.watcher {
                Some(w) => w.pending,
                None => Seq::empty(),
            }),
    {
        match &mut self.watcher {
            Some(watcher) => watcher.take_commands(),
            None => {
                let none: Vec<Cmd> = Vec::new();
                none
            },
        }
    }

    /// Removes the items picked at `paths`, and tells where the item at
    /// position `anchor` has come to lie, or the next one that stayed.
    fn discard(&mut self, pick: Pick, paths: &Vec<String>, anchor: usize) -> (moved_to: usize)
        requires
            anchor <= old(self).items@.len(),
        ensures
            item_views(final(self).items@) == without(
                item_views(old(self).items@),
                pick,
                texts(paths@),
            ),
            moved_to as int == without(
                item_views(old(self).items@).take(anchor as int),
                pick,
                texts(paths@),
            ).len(),
            final(self).selection == old(self).selection,
            final(self).filter_map == old(self).filter_map,
            final(self).filter_text == old(self).filter_text,
            final(self).watcher == old(self).watcher,
            final(self).recent_folders == old(self).recent_folders,
    {
        let mut before: Vec<FileItem> = Vec::new();
        core::mem::swap(&mut self.items, &mut before);
        let ghost all = item_views(before@);
        let ghost gone = texts(paths@);
        let mut ahead: usize = anchor;
        let mut moved_to: usize = 0;
        proof {
            reveal(Seq::filter);
        }
        for item in it: before
            invariant
                it.seq() == before@,
                all == item_views(before@),
                gone == texts(paths@),
                anchor <= before@.len(),
                ahead == if it.index() < anchor { anchor - it.index() } else { 0 },
                moved_to <= anchor - ahead,
                moved_to == without(all.take(anchor - ahead), pick, gone).len(),
                item_views(self.items@) == without(all.take(it.index() as int), pick, gone),
                self.selection == old(self).selection,
                self.filter_map == old(self).filter_map,
                self.filter_text == old(self).filter_text,
                self.watcher == old(self).watcher,
                self.recent_folders == old(self).recent_folders,
        {
            proof {
                let seen = all.take(it.index() as int);
                assert(all.take(it.index() + 1) =~= seen.push(item@));
                seen.lemma_filter_push(item@, stays(pick, gone));
            }
            let meant = match pick {
                Pick::All => true,
                Pick::Marked => item.has_mark(),
                Pick::Doomed => item.has_delete(),
            };
            let kept = !(meant && holds_text(paths, item.path()));
            if ahead > 0 {
                ahead -= 1;
                if kept {
                    moved_to += 1;
                }
            }
            if kept {
                self.items.push(item);
            }
        }
        proof {
            assert(all.take(all.len() as int) =~= all);
        }
        moved_to
    }

    /// Removes the items picked at `paths` and applies the filter anew. The
    /// selection follows the item it stood on to its new position.
    fn reduce(&mut self, pick: Pick, paths: &Vec<String>)
        requires
            old(self).wf(),
        ensures
            final(self).wf(),
            final(self)@ == old(self)@.reduced(pick, texts(paths@)),
    {
        proof {
            lemma_visible_upto(self@.items, self@.filter, self@.items.len());
            lemma_without_distinct(self@.items, pick, texts(paths@));
        }
        let anchor = self.anchor_index();
        let moved_to = self.discard(pick, paths, anchor);
        self.apply_filter_at(moved_to);
    }

    /// Takes over a new look at the item that lies at `path`, if there is
    /// one.
    fn refresh_at(&mut self, path: &String, info: FileInfo)
        requires
            distinct_paths(item_views(old(self).items@)),
        ensures
            item_views(final(self).items@) == refresh_one(
                item_views(old(self).items@),
                path@,
                info@,
            ),
            final(self).selection == old(self).selection,
            final(self).filter_map == old(self).filter_map,
            final(self).filter_text == old(self).filter_text,
            final(self).watcher == old(self).watcher,
            final(self).recent_folders == old(self).recent_folders,
    {
        let ghost before = item_views(self.items@);
        let mut i: usize = 0;
        while i < self.items.len()
            invariant
                i <= self.items.len(),
                *self == *old(self),
                before == item_views(self.items@),
                distinct_paths(before),
                forall|j: int| 0 <= j < i ==> before[j].path != path@,
            decreases self.items.len() - i,
        {
            if self.items[i].is_at(path) {
                let item = &mut self.items[i];
                item.refresh(info);
                proof {
                    assert(before[i as int].path == path@);
                }
                return;
            }
            i += 1;
        }
    }

    /// Takes over a new look at the item that lies at `path`, if there is
    /// one, and applies the filter anew. Path and marks of the item stay.
    pub fn refresh(&mut self, path: &str, info: FileInfo)
        requires
            old(self).wf(),
        ensures
            final(self).wf(),
            final(self)@ == old(self)@.with_changes(
                seq![ModifiedView { path: path@, info: Some(info@) }],
            ),
    {
        let wanted = path.to_owned();
        proof {
            let change = ModifiedView { path: path@, info: Some(info@) };
            assert(refresh_each(self@.items, seq![change].drop_last()) == self@.items);
        }
        self.refresh_at(&wanted, info);
        self.apply_filter();
    }

    /// Removes the item that lies at `path`, if there is one, and applies
    /// the filter anew. The selection stays on the item it stood on; where
    /// that item is the one removed, it moves to the shown item that is
    /// nearest after it, or else to the last shown item.
    pub fn remove(&mut self, path: &str)
        requires
            old(self).wf(),
        ensures
            final(self).wf(),
            final(self)@ == old(self)@.without_paths(seq![path@]),
    {
        let mut paths: Vec<String> = Vec::new();
        paths.push(path.to_owned());
        proof {
            assert(texts(paths@) =~= seq![path@]);
        }
        self.reduce(Pick::All, &paths);
    }

    /// Removes the selected item, if there is one, and applies the filter
    /// anew. The file itself is left alone.
    pub fn selected_remove(&mut self)
        requires
            old(self).wf(),
        ensures
            final(self).wf(),
            final(self)@ == old(self)@.without_selected(),
    {
        if self.selection < self.filter_map.len() {
            proof {
                lemma_visible_upto(self@.items, self@.filter, self@.items.len());
            }
            let at = self.filter_map[self.selection];
            proof {
                assert(item_views(self.items@.remove(at as int)) =~= self@.items.remove(at as int));
            }
            self.items.remove(at);
            self.apply_filter();
        }
    }

    /// Flips the move mark of the selected item, if there is one.
    pub fn selected_toggle_mark(&mut self)
        requires
            old(self).wf(),
        ensures
            final(self).wf(),
            final(self)@ == old(self)@.mark_toggled(),
    {
        if self.selection < self.filter_map.len() {
            proof {
                lemma_visible_upto(self@.items, self@.filter, self@.items.len());
            }
            let at = self.filter_map[self.selection];
            let item = &mut self.items[at];
            item.toggle_mark();
            proof {
                let before = old(self)@.items;
                let after = before.update(at as int, before[at as int].mark_toggled());
                assert(item_views(self.items@) =~= after);
                lemma_visible_upto_prefix(before, after, self@.filter, before.len());
            }
        }
    }

    /// Flips the delete mark of the selected item, if there is one.
    pub fn selected_toggle_delete(&mut self)
        requires
            old(self).wf(),
        ensures
            final(self).wf(),
            final(self)@ == old(self)@.delete_toggled(),
    {
        if self.selection < self.filter_map.len() {
            proof {
                lemma_visible_upto(self@.items, self@.filter, self@.items.len());
            }
            let at = self.filter_map[self.selection];
            let item = &mut self.items[at];
            item.toggle_delete();
            proof {
                let before = old(self)@.items;
                let after = before.update(at as int, before[at as int].delete_toggled());
                assert(item_views(self.items@) =~= after);
                lemma_visible_upto_prefix(before, after, self@.filter, before.len());
            }
        }
    }

    /// Number of items that are marked for moving.
    pub fn count_marked(&self) -> (count: usize)
        ensures
            count == marked(self@.items).len(),
    {
        let ghost all = item_views(self.items@);
        let mut count: usize = 0;
        let mut i: usize = 0;
        proof {
            reveal(Seq::filter);
        }
        while i < self.items.len()
            invariant
                i <= self.items.len(),
                all == item_views(self.items@),
                count <= i,
                count == marked(all.take(i as int)).len(),
            decreases self.items.len() - i,
        {
            proof {
                let seen = all.take(i as int);
                assert(all.take(i + 1) =~= seen.push(all[i as int]));
                seen.lemma_filter_push(all[i as int], |item: ItemView| item.has_mark);
            }
            if self.items[i].has_mark() {
                count += 1;
            }
            i += 1;
        }
        proof {
            assert(all.take(all.len() as int) =~= all);
        }
        count
    }

    /// Number of items that are marked for deletion.
    pub fn count_to_delete(&self) -> (count: usize)
        ensures
            count == doomed(self@.items).len(),
    {
        let ghost all = item_views(self.items@);
        let mut count: usize = 0;
        let mut i: usize = 0;
        proof {
            reveal(Seq::filter);
        }
        while i < self.items.len()
            invariant
                i <= self.items.len(),
                all == item_views(self.items@),
                count <= i,
                count == doomed(all.take(i as int)).len(),
            decreases self.items.len() - i,
        {
            proof {
                let seen = all.take(i as int);
                assert(all.take(i + 1) =~= seen.push(all[i as int]));
                seen.lemma_filter_push(all[i as int], |item: ItemView| item.has_delete);
            }
            if self.items[i].has_delete() {
                count += 1;
            }
            i += 1;
        }
        proof {
            assert(all.take(all.len() as int) =~= all);
        }
        count
    }

    /// The moves that bring the items marked for moving into the folder
    /// `dst`, each under its own file name.
    pub fn marked_moves(&self, dst: &str) -> (moves: Vec<Move>)
        ensures
            move_views(moves@) == planned_moves(self@.items, dst@),
    {
        let ghost all = item_views(self.items@);
        let mut moves: Vec<Move> = Vec::new();
        let mut i: usize = 0;
        while i < self.items.len()
            invariant
                i <= self.items.len(),
                all == item_views(self.items@),
                move_views(moves@) == planned_moves(all.take(i as int), dst@),
            decreases self.items.len() - i,
        {
            proof {
                let next = all.take(i + 1);
                assert(next.drop_last() =~= all.take(i as int));
            }
            let item = &self.items[i];
            if item.has_mark() {
                match file_name(item.path()) {
                    Some(name) => {
                        let step = Move {
                            from: item.path().to_owned(),
                            to: join(dst, name.as_str()),
                        };
                        moves.push(step);
                    },
                    None => {},
                }
            }
            i += 1;
        }
        proof {
            assert(all.take(all.len() as int) =~= all);
        }
        moves
    }

    /// The paths of the items that are marked for deletion.
    pub fn marked_deletes(&self) -> (paths: Vec<String>)
        ensures
            texts(paths@) == doomed_paths(self@.items),
    {
        let ghost all = item_views(self.items@);
        let mut paths: Vec<String> = Vec::new();
        let mut i: usize = 0;
        while i < self.items.len()
            invariant
                i <= self.items.len(),
                all == item_views(self.items@),
                texts(paths@) == doomed_paths(all.take(i as int)),
            decreases self.items.len() - i,
        {
            proof {
                let next = all.take(i + 1);
                assert(next.drop_last() =~= all.take(i as int));
            }
            let item = &self.items[i];
            if item.has_delete() {
                let path = item.path().to_owned();
                paths.push(path);
            }
            i += 1;
        }
        proof {
            assert(all.take(all.len() as int) =~= all);
        }
        paths
    }

    /// Settles the moving of marked files: `moved` holds the paths of the
    /// files that were moved. The items marked for moving that lie at one
    /// of them leave the collection; every other item stays as it is,
    /// marks included, so that a move that failed can be tried again. The
    /// filter is applied anew, and the selection stays on the item it stood
    /// on, or moves to the nearest shown item after it where that item has
    /// left.
    pub fn move_marked_to(&mut self, moved: &Vec<String>)
        requires
            old(self).wf(),
        ensures
            final(self).wf(),
            final(self)@ == old(self)@.after_moves(texts(moved@)),
    {
        self.reduce(Pick::Marked, moved);
    }

    /// Settles the deletion of marked files: `deleted` holds the paths of
    /// the files that were deleted. The items marked for deletion that lie
    /// at one of them leave the collection; every other item stays as it
    /// is, marks included. The filter is applied anew, and the selection
    /// stays on the item it stood on, or moves to the nearest shown item
    /// after it where that item has left.
    pub fn delete_marked(&mut self, deleted: &Vec<String>)
        requires
            old(self).wf(),
        ensures
            final(self).wf(),
            final(self)@ == old(self)@.after_deletes(texts(deleted@)),
    {
        self.reduce(Pick::Doomed, deleted);
    }

    /// Empties the collection: no item and no filter is left, no folder
    /// waits to be watched, and the watcher, if one is ready, is asked to
    /// give up every folder it watches.
    pub fn clear(&mut self)
        requires
            old(self).wf(),
        ensures
            final(self).wf(),
            final(self)@ == old(self)@.cleared(),
    {
        self.items.clear();
        self.filter_text = String::new();
        self.apply_filter();
        self.recent_folders.clear();
        match &mut self.watcher {
            Some(watcher) => {
                watcher.unwatch_all();
            },
            None => {},
        }
        proof {
            assert(self@.items =~= Seq::empty());
            assert(self@.queued =~= Seq::empty());
        }
    }

    /// Reconciles the collection with a report of the watching task.
    ///
    /// `Ready` brings the watcher, which is asked at once to watch the
    /// folders that waited for it. `Added` and `Removed` update the list of
    /// watched folders. `Create` takes in the items of those files whose
    /// reported path names a sample file, `Modify` takes over new looks at
    /// the items they are about, and `Remove` removes the items that lie
    /// at the given paths; after each of these the filter is applied anew,
    /// and the selection stays on the item it stood on as long as that
    /// item is there and shown.
    pub fn watcher_event(&mut self, event: WatcherEvent)
        requires
            old(self).wf(),
            event.wf(),
        ensures
            final(self).wf(),
            final(self)@ == old(self)@.on_event(event@),
    {
        match event {
            WatcherEvent::Ready(watcher) => {
                self.watcher = Some(watcher);
                self.flush();
            },
            WatcherEvent::Added(path) => {
                match &mut self.watcher {
                    Some(watcher) => {
                        watcher.added(path);
                    },
                    None => {},
                }
            },
            WatcherEvent::Removed(path) => {
                match &mut self.watcher {
                    Some(watcher) => {
                        watcher.removed(path);
                    },
                    None => {},
                }
            },
            WatcherEvent::Create(list) => {
                let ghost all = created_views(list@);
                let ghost start = item_views(self.items@);
                proof {
                    lemma_merged(start, arrivals(all));
                }
                for created in it: list
                    invariant
                        it.seq() == list@,
                        all == created_views(list@),
                        start == item_views(old(self).items@),
                        item_views(self.items@) == merged(
                            start,
                            arrivals(all.take(it.index() as int)),
                        ),
                        self.selection == old(self).selection,
                        self.filter_map == old(self).filter_map,
                        self.filter_text == old(self).filter_text,
                        self.watcher == old(self).watcher,
                        self.recent_folders == old(self).recent_folders,
                {
                    proof {
                        let seen = all.take(it.index() as int);
                        let next = all.take(it.index() + 1);
                        assert(next.drop_last() =~= seen);
                    }
                    let Created { path, item } = created;
                    match item {
                        Some(item) => {
                            if is_iq_file(path.as_str()) {
                                proof {
                                    lemma_merged_push(
                                        start,
                                        arrivals(all.take(it.index() as int)),
                                        item@,
                                    );
                                }
                                self.adopt(item);
                            }
                        },
                        None => {},
                    }
                }
                proof {
                    assert(all.take(all.len() as int) =~= all);
                }
                self.apply_filter();
            },
            WatcherEvent::Modify(list) => {
                let ghost all = modified_views(list@);
                let ghost start = item_views(self.items@);
                proof {
                    lemma_refresh_each(start, all);
                }
                for modified in it: list
                    invariant
                        it.seq() == list@,
                        all == modified_views(list@),
                        start == item_views(old(self).items@),
                        distinct_paths(start),
                        item_views(self.items@) == refresh_each(
                            start,
                            all.take(it.index() as int),
                        ),
                        self.selection == old(self).selection,
                        self.filter_map == old(self).filter_map,
                        self.filter_text == old(self).filter_text,
                        self.watcher == old(self).watcher,
                        self.recent_folders == old(self).recent_folders,
                {
                    proof {
                        let seen = all.take(it.index() as int);
                        let next = all.take(it.index() + 1);
                        assert(next.drop_last() =~= seen);
                        lemma_refresh_each(start, seen);
                    }
                    let Modified { path, info } = modified;
                    match info {
                        Some(info) => {
                            self.refresh_at(&path, info);
                        },
                        None => {},
                    }
                }
                proof {
                    assert(all.take(all.len() as int) =~= all);
                }
                self.apply_filter();
            },
            WatcherEvent::Remove(paths) => {
                self.reduce(Pick::All, &paths);
            },
        }
    }

    /// Does what a command asks for, by the operation that the command
    /// names.
    pub fn apply(&mut self, command: Command)
        requires
            old(self).wf(),
            command.wf(),
        ensures
            final(self).wf(),
            final(self)@ == old(self)@.applied(command@),
    {
        match command {
            Command::Push(scan) => self.push(scan),
            Command::Extend(scans) => self.extend(scans),
            Command::SetFilter(text) => self.set_filter(text.as_str()),
            Command::SetSelection(index) => self.set_selection(index),
            Command::IncSelection(offset) => self.inc_selection(offset),
            Command::DecSelection(offset) => self.dec_selection(offset),
            Command::RemoveSelected => self.selected_remove(),
            Command::ToggleMark => self.selected_toggle_mark(),
            Command::ToggleDelete => self.selected_toggle_delete(),
            Command::MoveMarked(moved) => self.move_marked_to(&moved),
            Command::DeleteMarked(deleted) => self.delete_marked(&deleted),
            Command::Clear => self.clear(),
            Command::Watcher(event) => self.watcher_event(event),
        }
    }

    /// Replaces the filter by `filter` in lower case. The items shown are
    /// then those whose search text holds every word of the filter, and
    /// the selection has followed the item it stood on: it stays on that
    /// item where it is still shown, else moves to the next shown item
    /// after it, else to the last shown item.
    pub fn set_filter(&mut self, filter: &str)
        requires
            old(self).wf(),
        ensures
            final(self).wf(),
            final(self)@ == old(self)@.with_filter(filter@),
    {
        self.filter_text = ascii_lowercase(filter);
        self.apply_filter();
    }

    /// Moves the selection to `index`, or to the last shown item where
    /// `index` lies beyond it.
    pub fn set_selection(&mut self, index: usize)
        requires
            old(self).wf(),
        ensures
            final(self).wf(),
            final(self)@ == old(self)@.with_selection(index as int),
    {
        let last: usize = if self.filter_map.len() == 0 {
            0
        } else {
            self.filter_map.len() - 1
        };
        self.selection = if index < last {
            index
        } else {
            last
        };
    }

    /// Moves the selection down by `offset` entries, at most to the last.
    pub fn inc_selection(&mut self, offset: usize)
        requires
            old(self).wf(),
        ensures
            final(self).wf(),
            final(self)@ == old(self)@.with_selection(old(self)@.selection + offset),
    {
        let index = self.selection.saturating_add(offset);
        let shown = self.filter_map.len();
        proof {
            // the view is no longer than a vector can be, so that a sum
            // beyond all indices selects the last entry as its cap does
            assert(clamped(index as int, shown as nat) == clamped(
                self.selection + offset,
                shown as nat,
            ));
        }
        self.set_selection(index);
    }

    /// Moves the selection up by `offset` entries, at most to the first.
    pub fn dec_selection(&mut self, offset: usize)
        requires
            old(self).wf(),
        ensures
            final(self).wf(),
            final(self)@ == old(self)@.with_selection(old(self)@.selection - offset),
    {
        let index = self.selection.saturating_sub(offset);
        self.set_selection(index);
    }
}

impl Default for ItemList {
    fn default() -> (list: ItemList)
        ensures
            list.wf(),
            list@ == ListView::empty(),
    {
        ItemList::new()
    }
}

} // verus!
