//! Laws of the collection: what holds of its filtered view and its selection
//! whatever the items and the filter are, and how its operations relate to
//! each other. Each law is stated over the model that the contracts of the
//! collection speak of, and proved from its definitions.

use crate::dirs::is_iq_path;
use crate::item::{InfoView, ItemView};
use crate::model::{
    arrivals, count_below, distinct_paths, has_path, lemma_count_below, lemma_count_below_push,
    lemma_merged, lemma_merged_one, lemma_refresh_each, lemma_visible_upto,
    lemma_visible_upto_prefix, lemma_without_distinct, picked, reselect, stays, visible_of,
    visible_upto, without, ListView, Pick, ScanView,
};
use crate::seqs::{lemma_filter_all, lemma_filter_no_duplicates, lemma_filter_one_out};
use crate::text::{is_space, lemma_blank_has_no_words, lower_text, passes, words};
use crate::watcher::{other_than, CreatedView, EventView, ModifiedView};
use vstd::prelude::*;

verus! {

/// The filtered view is exactly the set of matching positions: every entry
/// is the position of an item whose search text holds all words of the
/// filter, every such position is an entry, and the entries ascend, so that
/// none comes twice.
pub proof fn law_view_is_exact(list: ListView)
    ensures
        forall|k: int|
            0 <= k < list.visible().len() ==> 0 <= (#[trigger] list.visible()[k])
                < list.items.len() && passes(list.items[list.visible()[k]].metadata, list.filter),
        forall|i: int|
            0 <= i < list.items.len() && passes(list.items[i].metadata, list.filter)
                ==> list.visible().contains(i),
        forall|k: int, l: int|
            0 <= k < l < list.visible().len() ==> list.visible()[k] < list.visible()[l],
        list.visible().len() <= list.items.len(),
{
    lemma_visible_upto(list.items, list.filter, list.items.len());
}

/// In a valid collection the selection is an entry of the filtered view
/// whenever that view has entries, and where it has none, the selection is
/// 0 and selects nothing.
pub proof fn law_selection_in_range(list: ListView)
    requires
        list.valid(),
    ensures
        list.visible().len() > 0 ==> list.selection < list.visible().len(),
        list.visible().len() == 0 ==> list.selection == 0,
        list.has_selection() <==> list.visible().len() > 0,
        list.has_selection() ==> 0 <= list.anchor() < list.items.len(),
{
    law_view_is_exact(list);
}

/// Whatever items and filter a collection is given, filtering anew leaves
/// it valid, as long as no two of the items lie at the same path.
pub proof fn law_refiltered_is_valid(list: ListView, items: Seq<ItemView>, filter: Seq<char>)
    requires
        distinct_paths(items),
        match list.watcher {
            Some(w) => w.valid(),
            None => true,
        },
    ensures
        list.refiltered(items, filter).valid(),
{
}

/// Every operation of the collection leaves a valid collection valid.
pub proof fn law_operations_keep_valid(
    list: ListView,
    text: Seq<char>,
    index: int,
    scan: ScanView,
    paths: Seq<Seq<char>>,
    changes: Seq<ModifiedView>,
)
    requires
        list.valid(),
    ensures
        list.with_filter(text).valid(),
        list.with_selection(index).valid(),
        list.with_scan(scan).valid(),
        list.with_changes(changes).valid(),
        list.without_paths(paths).valid(),
        list.without_selected().valid(),
        list.mark_toggled().valid(),
        list.delete_toggled().valid(),
        list.after_moves(paths).valid(),
        list.after_deletes(paths).valid(),
        list.cleared().valid(),
        list.commands_taken().valid(),
{
    law_selection_in_range(list);
    match scan {
        ScanView::File(item) => {
            lemma_merged(list.items, seq![item]);
        },
        ScanView::Folder(path, new) => {
            lemma_merged(list.items, new);
        },
    }
    lemma_refresh_each(list.items, changes);
    lemma_without_distinct(list.items, Pick::All, paths);
    lemma_without_distinct(list.items, Pick::Marked, paths);
    lemma_without_distinct(list.items, Pick::Doomed, paths);
    if list.has_selection() {
        let at = list.anchor();
        let marked = list.items.update(at, list.items[at].mark_toggled());
        let doomed = list.items.update(at, list.items[at].delete_toggled());
        lemma_same_texts_same_view(list.items, marked, list.filter);
        lemma_same_texts_same_view(list.items, doomed, list.filter);
    }
}

/// Every report of the watching task leaves a valid collection valid,
/// given that a watcher that comes with `Ready` is a valid one.
pub proof fn law_events_keep_valid(list: ListView, event: EventView)
    requires
        list.valid(),
        match event {
            EventView::Ready(w) => w.valid(),
            _ => true,
        },
    ensures
        list.on_event(event).valid(),
{
    match event {
        EventView::Removed(path) => {
            if let Some(w) = list.watcher {
                lemma_filter_no_duplicates(w.paths, other_than(path));
            }
        },
        EventView::Create(created) => {
            lemma_merged(list.items, arrivals(created));
        },
        EventView::Modify(changes) => {
            lemma_refresh_each(list.items, changes);
        },
        EventView::Remove(paths) => {
            lemma_without_distinct(list.items, Pick::All, paths);
        },
        _ => {},
    }
}

/// Items with the same search texts have the same filtered view.
pub proof fn lemma_same_texts_same_view(a: Seq<ItemView>, b: Seq<ItemView>, filter: Seq<char>)
    requires
        a.len() == b.len(),
        forall|i: int| 0 <= i < a.len() ==> (#[trigger] a[i]).metadata == b[i].metadata,
    ensures
        visible_of(a, filter) == visible_of(b, filter),
{
    lemma_visible_upto_prefix(a, b, filter, a.len());
}

/// A filter without words shows every item: after `set_filter` with an
/// empty text, or one of whitespace only, the filtered view holds all
/// positions in order, and `len()` is `unfiltered_len()`. This holds of any
/// collection, so also of one that has just been pushed to.
pub proof fn law_blank_filter_shows_all(list: ListView, text: Seq<char>)
    requires
        forall|i: int| 0 <= i < text.len() ==> is_space(#[trigger] text[i]),
    ensures
        list.with_filter(text).visible().len() == list.items.len(),
        forall|k: int|
            0 <= k < list.items.len() ==> (#[trigger] list.with_filter(text).visible()[k]) == k,
{
    let blank = lower_text(text);
    lemma_blank_has_no_words(blank);
    lemma_all_shown(list.items, blank, list.items.len());
}

/// Where the filter has no words, the view below `n` holds all positions
/// below `n`.
proof fn lemma_all_shown(items: Seq<ItemView>, filter: Seq<char>, n: nat)
    requires
        words(filter).len() == 0,
    ensures
        visible_upto(items, filter, n).len() == n,
        forall|k: int| 0 <= k < n ==> (#[trigger] visible_upto(items, filter, n)[k]) == k,
    decreases n,
{
    if n > 0 {
        lemma_all_shown(items, filter, (n - 1) as nat);
    }
}

/// In an ascending list, as many entries lie below an entry as its
/// position says.
pub proof fn lemma_count_below_entry(list: Seq<int>, at: int)
    requires
        forall|k: int, l: int| 0 <= k < l < list.len() ==> list[k] < list[l],
        0 <= at < list.len(),
    ensures
        count_below(list, list[at]) == at,
{
    lemma_count_below(list, list[at]);
    let ahead = count_below(list, list[at]) as int;
    if ahead < at {
        assert(list[ahead] >= list[at]);
    }
}

/// The selection follows the item it stood on. When the view is filtered
/// anew and the cursor stood on the item at position `anchor`:
/// where that item is still shown, it stays selected; where it is not, but
/// some item after it is shown, the nearest of these is selected; and where
/// none after it is shown, the last shown item is selected.
pub proof fn law_selection_follows(view: Seq<int>, anchor: int)
    requires
        forall|k: int, l: int| 0 <= k < l < view.len() ==> view[k] < view[l],
    ensures
        view.len() > 0 ==> reselect(view, anchor) < view.len(),
        view.contains(anchor) ==> view[reselect(view, anchor) as int] == anchor,
        !view.contains(anchor) && (exists|k: int| 0 <= k < view.len() && view[k] > anchor) ==> {
            &&& view[reselect(view, anchor) as int] > anchor
            &&& forall|k: int| 0 <= k < reselect(view, anchor) ==> view[k] < anchor
        },
        view.len() > 0 && (forall|k: int| 0 <= k < view.len() ==> view[k] < anchor) ==> reselect(
            view,
            anchor,
        ) == view.len() - 1,
{
    lemma_count_below(view, anchor);
}

/// Filtering a valid collection anew with the items and the filter it has
/// changes nothing.
pub proof fn law_refilter_same(list: ListView)
    requires
        list.valid(),
    ensures
        list.refiltered(list.items, list.filter) == list,
{
    law_view_is_exact(list);
    if list.has_selection() {
        lemma_count_below_entry(list.visible(), list.selection as int);
    }
}

/// `set_filter` is idempotent: setting the same filter text a second time
/// leaves the filter, the filtered view and the selection as the first
/// time left them.
pub proof fn law_set_filter_idempotent(list: ListView, text: Seq<char>)
    ensures
        list.with_filter(text).with_filter(text) == list.with_filter(text),
        list.with_filter(text).with_filter(text).visible() == list.with_filter(text).visible(),
        list.with_filter(text).with_filter(text).selection == list.with_filter(text).selection,
{
    let once = list.with_filter(text);
    law_view_is_exact(once);
    if once.has_selection() {
        lemma_count_below_entry(once.visible(), once.selection as int);
    }
}

/// Where none of the items is picked, taking the picked ones away leaves a
/// valid collection as it is.
pub proof fn law_nothing_leaves(list: ListView, pick: Pick, paths: Seq<Seq<char>>)
    requires
        list.valid(),
        forall|i: int| 0 <= i < list.items.len() ==> !picked(#[trigger] list.items[i], pick, paths),
    ensures
        list.reduced(pick, paths) == list,
{
    law_view_is_exact(list);
    let before = list.items.take(list.anchor());
    assert forall|i: int| 0 <= i < before.len() implies stays(pick, paths)(
        #[trigger] before[i],
    ) by {
        assert(before[i] == list.items[i]);
    }
    lemma_filter_all(before, stays(pick, paths));
    lemma_filter_all(list.items, stays(pick, paths));
    law_refilter_same(list);
}

/// When items leave the collection, those that stay keep their order, and
/// the place the selection is carried to parts them as the selected item
/// parted the old ones: before it lie the items that stay of those before
/// the selected item, from it on those that stay of the selected item and
/// the ones after it.
pub proof fn law_removal_parts_at_anchor(list: ListView, pick: Pick, paths: Seq<Seq<char>>)
    ensures
        0 <= list.anchor_without(pick, paths) <= list.reduced(pick, paths).items.len(),
        list.reduced(pick, paths).items.take(list.anchor_without(pick, paths)) == without(
            list.items.take(list.anchor()),
            pick,
            paths,
        ),
        list.reduced(pick, paths).items.skip(list.anchor_without(pick, paths)) == without(
            list.items.skip(list.anchor()),
            pick,
            paths,
        ),
{
    law_view_is_exact(list);
    let at = list.anchor();
    let head = list.items.take(at);
    let tail = list.items.skip(at);
    assert(list.items =~= head + tail);
    Seq::filter_distributes_over_add(head, tail, stays(pick, paths));
    let kept = without(list.items, pick, paths);
    let to = list.anchor_without(pick, paths);
    assert(kept.take(to) =~= without(head, pick, paths));
    assert(kept.skip(to) =~= without(tail, pick, paths));
}

/// The selection stays on its item when other items leave: where the
/// selected item is not among those that are taken away, the same item is
/// selected afterwards, at whatever entry of the view it has come to stand.
pub proof fn law_selection_survives_removal(list: ListView, pick: Pick, paths: Seq<Seq<char>>)
    requires
        list.valid(),
        list.has_selection(),
        !picked(list.items[list.anchor()], pick, paths),
    ensures
        list.reduced(pick, paths).has_selection(),
        list.reduced(pick, paths).anchor() == list.anchor_without(pick, paths),
        list.reduced(pick, paths).items[list.reduced(pick, paths).anchor()]
            == list.items[list.anchor()],
{
    reveal(Seq::filter);
    law_view_is_exact(list);
    law_removal_parts_at_anchor(list, pick, paths);
    let after = list.reduced(pick, paths);
    let at = list.anchor();
    let to = list.anchor_without(pick, paths);
    let tail = list.items.skip(at);
    let chosen = list.items[at];
    assert(tail =~= seq![chosen] + tail.skip(1));
    Seq::filter_distributes_over_add(seq![chosen], tail.skip(1), stays(pick, paths));
    assert(seq![chosen].drop_last() =~= Seq::<ItemView>::empty());
    assert(seq![chosen].filter(stays(pick, paths)) =~= seq![chosen]);
    let rest = after.items.skip(to);
    assert(rest == seq![chosen] + without(tail.skip(1), pick, paths));
    assert(rest[0] == chosen);
    assert(rest.len() > 0 && to < after.items.len());
    assert(after.items[to] == rest[0]);
    law_view_is_exact(after);
    law_selection_follows(after.visible(), to);
}

/// Where the selected item leaves with the others, the selection moves to
/// the shown item that is nearest after it, and where none is shown after
/// it, to the last shown item.
pub proof fn law_selection_moves_on(list: ListView, pick: Pick, paths: Seq<Seq<char>>)
    requires
        list.valid(),
    ensures
        list.reduced(pick, paths).valid(),
        list.reduced(pick, paths).has_selection() ==> {
            ||| list.reduced(pick, paths).anchor() >= list.anchor_without(pick, paths)
            ||| list.reduced(pick, paths).selection == list.reduced(pick, paths).visible().len()
                - 1
        },
        forall|k: int|
            0 <= k < list.reduced(pick, paths).selection ==> list.reduced(pick, paths).visible()[k]
                < list.anchor_without(pick, paths),
{
    lemma_without_distinct(list.items, pick, paths);
    let after = list.reduced(pick, paths);
    law_view_is_exact(after);
    lemma_count_below(after.visible(), list.anchor_without(pick, paths));
}

/// Settling deletions when no item is marked for deletion leaves a valid
/// collection as it is, whatever is said to have been deleted. So it does
/// after a folder has been pushed: new items carry no mark.
pub proof fn law_delete_nothing_marked(list: ListView, deleted: Seq<Seq<char>>)
    requires
        list.valid(),
        forall|i: int| 0 <= i < list.items.len() ==> !(#[trigger] list.items[i]).has_delete,
    ensures
        list.after_deletes(deleted) == list,
{
    law_nothing_leaves(list, Pick::Doomed, deleted);
}

/// Settling moves when no item is marked for moving, or when nothing was
/// moved, leaves a valid collection as it is: an item whose file could not
/// be moved stays, and stays marked.
pub proof fn law_move_nothing_moved(list: ListView, moved: Seq<Seq<char>>)
    requires
        list.valid(),
        forall|i: int|
            0 <= i < list.items.len() ==> !((#[trigger] list.items[i]).has_mark && moved.contains(
                list.items[i].path,
            )),
    ensures
        list.after_moves(moved) == list,
{
    law_nothing_leaves(list, Pick::Marked, moved);
}

/// Items pushed from a folder carry no mark.
pub proof fn law_pushed_items_are_unmarked(path: Seq<char>, info: InfoView)
    ensures
        !ItemView::fresh(path, info).has_mark,
        !ItemView::fresh(path, info).has_delete,
{
}

/// Of a single appeared file the item is taken in exactly when the reported
/// path names a sample file and an item could be made.
proof fn lemma_arrivals_one(created: CreatedView)
    ensures
        arrivals(seq![created]) == (match created.item {
            Some(item) => if is_iq_path(created.path) {
                seq![item]
            } else {
                Seq::<ItemView>::empty()
            },
            None => Seq::<ItemView>::empty(),
        }),
{
    assert(arrivals(seq![created].drop_last()) =~= Seq::<ItemView>::empty());
}

/// A file that appears in a watched folder under a path that names a sample
/// file is taken in: the collection grows by one item, the new one, at its
/// end. This supposes that an item could be made for the file, and that no
/// item lies at its path already.
pub proof fn law_create_recognized(list: ListView, created: CreatedView)
    requires
        list.valid(),
        is_iq_path(created.path),
        created.item is Some,
        !has_path(list.items, created.item->0.path),
    ensures
        list.on_event(EventView::Create(seq![created])).items == list.items.push(created.item->0),
        list.on_event(EventView::Create(seq![created])).items.len() == list.items.len() + 1,
        list.on_event(EventView::Create(seq![created])).valid(),
{
    let item = created.item->0;
    lemma_arrivals_one(created);
    lemma_merged_one(list.items, item);
    law_events_keep_valid(list, EventView::Create(seq![created]));
}

/// A file that appears under a path that does not name a sample file is
/// passed over: the collection stays as it is.
pub proof fn law_create_unrecognized(list: ListView, created: CreatedView)
    requires
        list.valid(),
        !is_iq_path(created.path),
    ensures
        list.on_event(EventView::Create(seq![created])) == list,
{
    lemma_arrivals_one(created);
    law_refilter_same(list);
}

/// A file that appears under a path at which an item lies already is
/// passed over as well.
pub proof fn law_create_known(list: ListView, created: CreatedView)
    requires
        list.valid(),
        created.item matches Some(item) && has_path(list.items, item.path),
    ensures
        list.on_event(EventView::Create(seq![created])) == list,
{
    let item = created.item->0;
    lemma_arrivals_one(created);
    if is_iq_path(created.path) {
        lemma_merged_one(list.items, item);
    }
    law_refilter_same(list);
}

/// When a file is reported as removed at whose path an item lies, the
/// collection shrinks by one item, that one, and is valid afterwards.
pub proof fn law_remove_present(list: ListView, path: Seq<char>)
    requires
        list.valid(),
        has_path(list.items, path),
    ensures
        list.on_event(EventView::Remove(seq![path])).items.len() == list.items.len() - 1,
        !has_path(list.on_event(EventView::Remove(seq![path])).items, path),
        list.on_event(EventView::Remove(seq![path])).valid(),
{
    let at = choose|i: int| 0 <= i < list.items.len() && (#[trigger] list.items[i]).path == path;
    let paths = seq![path];
    let pred = stays(Pick::All, paths);
    assert(paths[0] == path);
    lemma_filter_one_out(list.items, pred, at);
    law_events_keep_valid(list, EventView::Remove(paths));
}

/// When a file is reported as removed at whose path no item lies, the
/// collection stays as it is.
pub proof fn law_remove_absent(list: ListView, path: Seq<char>)
    requires
        list.valid(),
        !has_path(list.items, path),
    ensures
        list.on_event(EventView::Remove(seq![path])) == list,
{
    law_nothing_leaves(list, Pick::All, seq![path]);
}

/// Pushing a single file at whose path an item lies already changes
/// nothing: by whichever way a file comes a second time, it is taken in
/// once.
pub proof fn law_push_known(list: ListView, item: ItemView)
    requires
        list.valid(),
        has_path(list.items, item.path),
    ensures
        list.with_scan(ScanView::File(item)) == list,
{
    lemma_merged_one(list.items, item);
    law_refilter_same(list);
}

/// Pushing a single file whose path is not held yet appends its item and
/// leaves the selection where it was.
pub proof fn law_push_appends(list: ListView, item: ItemView)
    requires
        list.valid(),
        !has_path(list.items, item.path),
    ensures
        list.with_scan(ScanView::File(item)).items == list.items.push(item),
        list.with_scan(ScanView::File(item)).selection == list.selection,
{
    lemma_merged_one(list.items, item);
    let items = list.items.push(item);
    let before = list.visible();
    law_view_is_exact(list);
    lemma_visible_upto_prefix(list.items, items, list.filter, list.items.len());
    let anchor = list.anchor();
    if passes(item.metadata, list.filter) {
        lemma_count_below_push(before, anchor, list.items.len() as int);
    }
    if list.has_selection() {
        lemma_count_below_entry(before, list.selection as int);
    }
}

} // verus!
