//! The collection as a mathematical value, and what each operation makes of
//! it. The collection's contracts are stated over this model, and so are the
//! laws that relate its operations to each other.

use crate::dirs::{file_name_of, is_iq_path, joined};
use crate::item::{InfoView, ItemView};
use crate::seqs::lemma_filter_positions;
use crate::text::{lower_text, passes};
use crate::watcher::{watch_each, CreatedView, EventView, ModifiedView, WatcherView};
use vstd::prelude::*;

verus! {

/// The positions below `n` of the items that pass the filter, in ascending
/// order.
pub open spec fn visible_upto(items: Seq<ItemView>, filter: Seq<char>, n: nat) -> Seq<int>
    decreases n,
{
    if n == 0 {
        Seq::empty()
    } else if passes(items[n - 1].metadata, filter) {
        visible_upto(items, filter, (n - 1) as nat).push(n - 1)
    } else {
        visible_upto(items, filter, (n - 1) as nat)
    }
}

/// The filtered view: the positions of the items that pass the filter, in
/// ascending order.
pub open spec fn visible_of(items: Seq<ItemView>, filter: Seq<char>) -> Seq<int> {
    visible_upto(items, filter, items.len())
}

/// How many entries of `list` are less than `bound`.
pub open spec fn count_below(list: Seq<int>, bound: int) -> nat
    decreases list.len(),
{
    if list.len() == 0 {
        0
    } else {
        count_below(list.drop_last(), bound) + if list.last() < bound {
            1nat
        } else {
            0nat
        }
    }
}

/// A selection moved into a view of `len` entries: the last entry where it
/// lies beyond, and 0 where the view is empty.
pub open spec fn clamped(index: int, len: nat) -> nat {
    if len == 0 || index < 0 {
        0
    } else if index < len {
        index as nat
    } else {
        (len - 1) as nat
    }
}

/// The selection in a new view `list` for a cursor that stood on the item
/// which now lies at position `anchor` of the items: as many entries down as
/// there are visible items before `anchor`, but never beyond the last entry.
pub open spec fn reselect(list: Seq<int>, anchor: int) -> nat {
    clamped(count_below(list, anchor) as int, list.len())
}

/// Whether one of `items` lies at `path`.
pub open spec fn has_path(items: Seq<ItemView>, path: Seq<char>) -> bool {
    exists|i: int| 0 <= i < items.len() && (#[trigger] items[i]).path == path
}

/// No two of `items` lie at the same path.
pub open spec fn distinct_paths(items: Seq<ItemView>) -> bool {
    forall|i: int, j: int|
        0 <= i < j < items.len() ==> (#[trigger] items[i]).path != (#[trigger] items[j]).path
}

/// `items` with those of `new` appended, one after the other, whose path
/// is not held yet at its turn.
pub open spec fn merged(items: Seq<ItemView>, new: Seq<ItemView>) -> Seq<ItemView>
    decreases new.len(),
{
    if new.len() == 0 {
        items
    } else {
        let before = merged(items, new.drop_last());
        if has_path(before, new.last().path) {
            before
        } else {
            before.push(new.last())
        }
    }
}

/// Which of the items at given paths are meant: all of them, those marked
/// for moving, or those marked for deletion.
#[derive(Debug, Clone, Copy, PartialEq, Eq, Structural)]
pub enum Pick {
    All,
    Marked,
    Doomed,
}

/// Whether an item is one of those picked at `paths`.
pub open spec fn picked(item: ItemView, pick: Pick, paths: Seq<Seq<char>>) -> bool {
    &&& paths.contains(item.path)
    &&& match pick {
        Pick::All => true,
        Pick::Marked => item.has_mark,
        Pick::Doomed => item.has_delete,
    }
}

/// The test that an item is none of those picked at `paths`.
pub open spec fn stays(pick: Pick, paths: Seq<Seq<char>>) -> spec_fn(ItemView) -> bool {
    |item: ItemView| !picked(item, pick, paths)
}

/// `items` without those picked at `paths`; the others keep their order.
pub open spec fn without(items: Seq<ItemView>, pick: Pick, paths: Seq<Seq<char>>) -> Seq<ItemView> {
    items.filter(stays(pick, paths))
}

/// The items that are marked for moving.
pub open spec fn marked(items: Seq<ItemView>) -> Seq<ItemView> {
    items.filter(|item: ItemView| item.has_mark)
}

/// The items that are marked for deletion.
pub open spec fn doomed(items: Seq<ItemView>) -> Seq<ItemView> {
    items.filter(|item: ItemView| item.has_delete)
}

/// `items` with `info` taken over by the one that lies at `path`.
pub open spec fn refresh_one(items: Seq<ItemView>, path: Seq<char>, info: InfoView) -> Seq<
    ItemView,
> {
    Seq::new(
        items.len(),
        |i: int|
            if items[i].path == path {
                items[i].refreshed(info)
            } else {
                items[i]
            },
    )
}

/// `items` after each of `changes` that comes with a new look has been
/// taken over, in their order.
pub open spec fn refresh_each(items: Seq<ItemView>, changes: Seq<ModifiedView>) -> Seq<ItemView>
    decreases changes.len(),
{
    if changes.len() == 0 {
        items
    } else {
        let before = refresh_each(items, changes.drop_last());
        match changes.last().info {
            Some(info) => refresh_one(before, changes.last().path, info),
            None => before,
        }
    }
}

/// The items of those appeared files that are taken in: the path that was
/// reported names a sample file, and an item could be made.
pub open spec fn arrivals(list: Seq<CreatedView>) -> Seq<ItemView>
    decreases list.len(),
{
    if list.len() == 0 {
        Seq::empty()
    } else {
        let before = arrivals(list.drop_last());
        match list.last().item {
            Some(item) => if is_iq_path(list.last().path) {
                before.push(item)
            } else {
                before
            },
            None => before,
        }
    }
}

/// A file to be moved: where it lies, and where it is to lie.
pub struct MoveView {
    pub from: Seq<char>,
    pub to: Seq<char>,
}

/// The moves that bring the items marked for moving into the folder `dst`
/// under their own file names, in the order of the items. An item whose path
/// has no file name cannot be moved, and is passed over.
pub open spec fn planned_moves(items: Seq<ItemView>, dst: Seq<char>) -> Seq<MoveView>
    decreases items.len(),
{
    if items.len() == 0 {
        Seq::empty()
    } else {
        let before = planned_moves(items.drop_last(), dst);
        match file_name_of(items.last().path) {
            Some(name) => if items.last().has_mark {
                before.push(MoveView { from: items.last().path, to: joined(dst, name) })
            } else {
                before
            },
            None => before,
        }
    }
}

/// The paths of the items marked for deletion, in the order of the items.
pub open spec fn doomed_paths(items: Seq<ItemView>) -> Seq<Seq<char>>
    decreases items.len(),
{
    if items.len() == 0 {
        Seq::empty()
    } else if items.last().has_delete {
        doomed_paths(items.drop_last()).push(items.last().path)
    } else {
        doomed_paths(items.drop_last())
    }
}

/// What was found at a path that is to be added: one file, or a folder with
/// the items of its sample files in the order in which they are to be shown.
pub enum ScanView {
    File(ItemView),
    Folder(Seq<char>, Seq<ItemView>),
}

/// Everything that can be asked of the collection, as one value.
pub enum CommandView {
    Push(ScanView),
    Extend(Seq<ScanView>),
    SetFilter(Seq<char>),
    SetSelection(int),
    IncSelection(int),
    DecSelection(int),
    RemoveSelected,
    ToggleMark,
    ToggleDelete,
    MoveMarked(Seq<Seq<char>>),
    DeleteMarked(Seq<Seq<char>>),
    Clear,
    Watcher(EventView),
}

/// The collection as a value: its items in the order in which they came,
/// the filter text, the selected entry of the filtered view, the folder
/// watcher once it has reported ready, and the folders that wait for it.
pub struct ListView {
    pub items: Seq<ItemView>,
    pub filter: Seq<char>,
    pub selection: nat,
    pub watcher: Option<WatcherView>,
    pub queued: Seq<Seq<char>>,
}

impl ListView {
    /// The collection that holds nothing.
    pub open spec fn empty() -> ListView {
        ListView {
            items: Seq::empty(),
            filter: Seq::empty(),
            selection: 0,
            watcher: None,
            queued: Seq::empty(),
        }
    }

    /// The filtered view: positions into `items`.
    pub open spec fn visible(self) -> Seq<int> {
        visible_of(self.items, self.filter)
    }

    /// Whether an entry of the filtered view is selected.
    pub open spec fn has_selection(self) -> bool {
        self.selection < self.visible().len()
    }

    /// What holds of every collection: no two items lie at the same path,
    /// the selection is an entry of the filtered view, or 0 where that is
    /// empty, and no folder is listed twice as watched.
    pub open spec fn valid(self) -> bool {
        &&& distinct_paths(self.items)
        &&& self.selection == clamped(self.selection as int, self.visible().len())
        &&& match self.watcher {
            Some(w) => w.valid(),
            None => true,
        }
    }

    /// The position in `items` of the selected item, 0 where none is
    /// selected.
    pub open spec fn anchor(self) -> int {
        if self.has_selection() {
            self.visible()[self.selection as int]
        } else {
            0
        }
    }

    /// The collection with other items or another filter, where the item
    /// that the selection stood on lies at position `anchor` of the new
    /// items, or would lie there had it stayed: the view is filtered anew,
    /// and the selection follows that item.
    pub open spec fn refiltered_at(
        self,
        items: Seq<ItemView>,
        filter: Seq<char>,
        anchor: int,
    ) -> ListView {
        ListView { items, filter, selection: reselect(visible_of(items, filter), anchor), ..self }
    }

    /// The collection with other items or another filter, where no item has
    /// changed its position: the view is filtered anew, and the selection
    /// follows the item it stood on.
    pub open spec fn refiltered(self, items: Seq<ItemView>, filter: Seq<char>) -> ListView {
        self.refiltered_at(items, filter, self.anchor())
    }

    /// Where the selected item lies once the items picked at `paths` are
    /// gone: as far down as there are items that stay before it. Where the
    /// selected item goes itself, this is where the next one that stays
    /// comes to lie.
    pub open spec fn anchor_without(self, pick: Pick, paths: Seq<Seq<char>>) -> int {
        without(self.items.take(self.anchor()), pick, paths).len() as int
    }

    /// The collection without the items picked at `paths`: the others keep
    /// their order, the view is filtered anew, and the selection follows
    /// the item it stood on to its new position.
    pub open spec fn reduced(self, pick: Pick, paths: Seq<Seq<char>>) -> ListView {
        self.refiltered_at(
            without(self.items, pick, paths),
            self.filter,
            self.anchor_without(pick, paths),
        )
    }

    /// After `set_filter`: the filter is the text in lower case.
    pub open spec fn with_filter(self, text: Seq<char>) -> ListView {
        self.refiltered(self.items, lower_text(text))
    }

    /// After `set_selection`: the selection is `index`, or the last entry
    /// where `index` lies beyond.
    pub open spec fn with_selection(self, index: int) -> ListView {
        ListView { selection: clamped(index, self.visible().len()), ..self }
    }

    /// Where a watcher is ready, a watch request is made for every folder
    /// that waits, and none waits any more.
    pub open spec fn flushed(self) -> ListView {
        match self.watcher {
            Some(w) => ListView {
                watcher: Some(w.asked(watch_each(self.queued))),
                queued: Seq::empty(),
                ..self
            },
            None => self,
        }
    }

    /// A folder is noted for watching: it waits where no watcher is ready,
    /// and else a watch request is made for it and for all that waited.
    pub open spec fn with_folder(self, path: Seq<char>) -> ListView {
        ListView { queued: self.queued.push(path), ..self }.flushed()
    }

    /// After `push`.
    pub open spec fn with_scan(self, scan: ScanView) -> ListView {
        match scan {
            ScanView::File(item) => self.refiltered(merged(self.items, seq![item]), self.filter),
            ScanView::Folder(path, new) => self.with_folder(path).refiltered(
                merged(self.items, new),
                self.filter,
            ),
        }
    }

    /// After `extend`: each scan is pushed in turn.
    pub open spec fn with_scans(self, scans: Seq<ScanView>) -> ListView
        decreases scans.len(),
    {
        if scans.len() == 0 {
            self
        } else {
            self.with_scans(scans.drop_last()).with_scan(scans.last())
        }
    }

    /// After `refresh`: new looks are taken over by the items they are
    /// about.
    pub open spec fn with_changes(self, changes: Seq<ModifiedView>) -> ListView {
        self.refiltered(refresh_each(self.items, changes), self.filter)
    }

    /// After `remove`: the items that lie at one of `paths` are gone.
    pub open spec fn without_paths(self, paths: Seq<Seq<char>>) -> ListView {
        self.reduced(Pick::All, paths)
    }

    /// After `selected_remove`: the selected item is gone.
    pub open spec fn without_selected(self) -> ListView {
        if self.has_selection() {
            self.refiltered(self.items.remove(self.anchor()), self.filter)
        } else {
            self
        }
    }

    /// After `selected_toggle_mark`.
    pub open spec fn mark_toggled(self) -> ListView {
        if self.has_selection() {
            ListView {
                items: self.items.update(self.anchor(), self.items[self.anchor()].mark_toggled()),
                ..self
            }
        } else {
            self
        }
    }

    /// After `selected_toggle_delete`.
    pub open spec fn delete_toggled(self) -> ListView {
        if self.has_selection() {
            ListView {
                items: self.items.update(
                    self.anchor(),
                    self.items[self.anchor()].delete_toggled(),
                ),
                ..self
            }
        } else {
            self
        }
    }

    /// After `move_marked_to`: the items marked for moving whose files were
    /// moved are gone; all others stay as they are.
    pub open spec fn after_moves(self, moved: Seq<Seq<char>>) -> ListView {
        self.reduced(Pick::Marked, moved)
    }

    /// After `delete_marked`: the items marked for deletion whose files were
    /// deleted are gone; all others stay as they are.
    pub open spec fn after_deletes(self, deleted: Seq<Seq<char>>) -> ListView {
        self.reduced(Pick::Doomed, deleted)
    }

    /// After `clear`: no items, no filter, no folder waiting, and every
    /// watched folder given up.
    pub open spec fn cleared(self) -> ListView {
        ListView {
            items: Seq::empty(),
            filter: Seq::empty(),
            selection: 0,
            watcher: match self.watcher {
                Some(w) => Some(w.unwatch_all()),
                None => None,
            },
            queued: Seq::empty(),
        }
    }

    /// After `take_commands`.
    pub open spec fn commands_taken(self) -> ListView {
        ListView {
            watcher: match self.watcher {
                Some(w) => Some(w.taken()),
                None => None,
            },
            ..self
        }
    }

    /// After `apply`: what the operation that the command names makes of
    /// the collection.
    pub open spec fn applied(self, command: CommandView) -> ListView {
        match command {
            CommandView::Push(scan) => self.with_scan(scan),
            CommandView::Extend(scans) => self.with_scans(scans),
            CommandView::SetFilter(text) => self.with_filter(text),
            CommandView::SetSelection(index) => self.with_selection(index),
            CommandView::IncSelection(offset) => self.with_selection(self.selection + offset),
            CommandView::DecSelection(offset) => self.with_selection(self.selection - offset),
            CommandView::RemoveSelected => self.without_selected(),
            CommandView::ToggleMark => self.mark_toggled(),
            CommandView::ToggleDelete => self.delete_toggled(),
            CommandView::MoveMarked(moved) => self.after_moves(moved),
            CommandView::DeleteMarked(deleted) => self.after_deletes(deleted),
            CommandView::Clear => self.cleared(),
            CommandView::Watcher(event) => self.on_event(event),
        }
    }

    /// After `watcher_event`.
    pub open spec fn on_event(self, event: EventView) -> ListView {
        match event {
            EventView::Ready(w) => ListView { watcher: Some(w), ..self }.flushed(),
            EventView::Added(path) => ListView {
                watcher: match self.watcher {
                    Some(w) => Some(w.added(path)),
                    None => None,
                },
                ..self
            },
            EventView::Removed(path) => ListView {
                watcher: match self.watcher {
                    Some(w) => Some(w.removed(path)),
                    None => None,
                },
                ..self
            },
            EventView::Create(list) => self.refiltered(
                merged(self.items, arrivals(list)),
                self.filter,
            ),
            EventView::Modify(changes) => self.with_changes(changes),
            EventView::Remove(paths) => self.without_paths(paths),
        }
    }
}

/// The filtered view holds positions of items that pass the filter, and
/// holds them in ascending order.
pub proof fn lemma_visible_upto(items: Seq<ItemView>, filter: Seq<char>, n: nat)
    requires
        n <= items.len(),
    ensures
        visible_upto(items, filter, n).len() <= n,
        forall|k: int|
            0 <= k < visible_upto(items, filter, n).len() ==> 0 <= (#[trigger] visible_upto(
                items,
                filter,
                n,
            )[k]) < n && passes(items[visible_upto(items, filter, n)[k]].metadata, filter),
        forall|k: int, l: int|
            0 <= k < l < visible_upto(items, filter, n).len() ==> visible_upto(items, filter, n)[k]
                < visible_upto(items, filter, n)[l],
        forall|i: int|
            0 <= i < n && passes(items[i].metadata, filter) ==> visible_upto(
                items,
                filter,
                n,
            ).contains(i),
    decreases n,
{
    if n > 0 {
        let before = visible_upto(items, filter, (n - 1) as nat);
        let now = visible_upto(items, filter, n);
        lemma_visible_upto(items, filter, (n - 1) as nat);
        assert forall|i: int| 0 <= i < n && passes(items[i].metadata, filter) implies now.contains(
            i,
        ) by {
            if i == n - 1 {
                assert(now[before.len() as int] == i);
            } else {
                assert(before.contains(i));
                let k = choose|k: int| 0 <= k < before.len() && before[k] == i;
                assert(now[k] == i);
            }
        }
    }
}

/// The filtered view below `n` depends on the first `n` items only.
pub proof fn lemma_visible_upto_prefix(
    a: Seq<ItemView>,
    b: Seq<ItemView>,
    filter: Seq<char>,
    n: nat,
)
    requires
        n <= a.len(),
        n <= b.len(),
        forall|i: int| 0 <= i < n ==> (#[trigger] a[i]).metadata == (#[trigger] b[i]).metadata,
    ensures
        visible_upto(a, filter, n) == visible_upto(b, filter, n),
    decreases n,
{
    if n > 0 {
        lemma_visible_upto_prefix(a, b, filter, (n - 1) as nat);
    }
}

/// In an ascending list the entries below a bound come first: `count_below`
/// is the position at which the entries begin to reach the bound.
pub proof fn lemma_count_below(list: Seq<int>, bound: int)
    requires
        forall|k: int, l: int| 0 <= k < l < list.len() ==> list[k] < list[l],
    ensures
        count_below(list, bound) <= list.len(),
        forall|k: int| 0 <= k < count_below(list, bound) ==> list[k] < bound,
        forall|k: int| count_below(list, bound) <= k < list.len() ==> list[k] >= bound,
    decreases list.len(),
{
    if list.len() > 0 {
        let front = list.drop_last();
        lemma_count_below(front, bound);
        let ahead = count_below(front, bound);
        if list.last() < bound {
            if ahead < front.len() {
                assert(front[ahead as int] >= bound);
            }
        } else {
            assert forall|k: int| 0 <= k < count_below(list, bound) implies list[k] < bound by {
                assert(list[k] == front[k]);
            }
        }
    }
}

/// Appending entries that reach the bound does not change the count of
/// those below it.
pub proof fn lemma_count_below_push(list: Seq<int>, bound: int, entry: int)
    ensures
        count_below(list.push(entry), bound) == count_below(list, bound) + if entry < bound {
            1nat
        } else {
            0nat
        },
{
    assert(list.push(entry).drop_last() =~= list);
}

/// Merging keeps the items that were there, in their places, and keeps
/// paths distinct.
pub proof fn lemma_merged(items: Seq<ItemView>, new: Seq<ItemView>)
    ensures
        items.len() <= merged(items, new).len() <= items.len() + new.len(),
        forall|i: int| 0 <= i < items.len() ==> merged(items, new)[i] == items[i],
        distinct_paths(items) ==> distinct_paths(merged(items, new)),
    decreases new.len(),
{
    if new.len() > 0 {
        lemma_merged(items, new.drop_last());
    }
}

/// Merging a single item appends it, unless its path is held already.
pub proof fn lemma_merged_one(items: Seq<ItemView>, item: ItemView)
    ensures
        merged(items, seq![item]) == if has_path(items, item.path) {
            items
        } else {
            items.push(item)
        },
{
    assert(merged(items, seq![item].drop_last()) == items);
}

/// Merging item by item is merging all at once.
pub proof fn lemma_merged_push(items: Seq<ItemView>, new: Seq<ItemView>, item: ItemView)
    ensures
        merged(items, new.push(item)) == merged(merged(items, new), seq![item]),
{
    lemma_merged_one(merged(items, new), item);
    assert(new.push(item).drop_last() =~= new);
}

/// Removing items keeps paths distinct.
pub proof fn lemma_without_distinct(items: Seq<ItemView>, pick: Pick, paths: Seq<Seq<char>>)
    requires
        distinct_paths(items),
    ensures
        distinct_paths(without(items, pick, paths)),
{
    let pred = stays(pick, paths);
    let at = lemma_filter_positions(items, pred);
    let kept = without(items, pick, paths);
    assert forall|i: int, j: int| 0 <= i < j < kept.len() implies (#[trigger] kept[i]).path != (
    #[trigger] kept[j]).path by {
        assert(items[at[i]] == kept[i]);
        assert(items[at[j]] == kept[j]);
    }
}

/// Taking a new look at items keeps their paths, and so keeps them
/// distinct.
pub proof fn lemma_refresh_each(items: Seq<ItemView>, changes: Seq<ModifiedView>)
    ensures
        refresh_each(items, changes).len() == items.len(),
        forall|i: int|
            0 <= i < items.len() ==> (#[trigger] refresh_each(items, changes)[i]).path
                == items[i].path,
        distinct_paths(items) ==> distinct_paths(refresh_each(items, changes)),
    decreases changes.len(),
{
    if changes.len() > 0 {
        lemma_refresh_each(items, changes.drop_last());
    }
}

} // verus!
