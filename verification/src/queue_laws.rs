//! What each operation does to the outbox, entry by entry.
use crate::first;
use crate::outbox::{
    self, EntryView, ItemView, Outbox, OutboxEntry, OutboxFile, OutboxItem, OutboxView,
};
use vstd::prelude::*;

verus! {

/// Whether an item is told as what it holds.
pub open spec fn tells_item(told: ItemView, item: OutboxItem) -> bool {
    match item {
        OutboxItem::PendingMatch { game_id } => told == ItemView::PendingMatch { game_id },
        OutboxItem::MatchPayload { game_id, payload } => told == ItemView::MatchPayload {
            game_id,
            payload: payload@,
        },
        OutboxItem::Snapshot { game_id, champion_stats, peak } => told == ItemView::Snapshot {
            game_id,
            champion_stats: champion_stats@,
            peak: peak@,
        },
    }
}

/// Whether an entry is told as what it holds.
pub open spec fn tells_entry(told: EntryView, entry: OutboxEntry) -> bool {
    &&& told.id == entry.id
    &&& tells_item(told.item, entry.item)
    &&& told.permanent_failures == entry.permanent_failures
    &&& match entry.last_error {
        Some(err) => told.last_error == Some(err@),
        None => told.last_error is None,
    }
}

/// Entries and items mean what they hold.
pub proof fn law_entries_mean_what_they_hold(entry: OutboxEntry, entries: Vec<OutboxEntry>)
    ensures
        tells_entry(entry@, entry),
        tells_item(entry.item@, entry.item),
        outbox::entries_view(entries@).len() == entries@.len(),
        forall|i: int|
            0 <= i < entries@.len() ==> tells_entry(
                #[trigger] outbox::entries_view(entries@)[i],
                entries@[i],
            ),
{
}

/// An outbox is taken up as the file holds it, and empty without a file; and
/// what is to be written is what it holds.
pub proof fn law_file_is_taken_up_and_given_back(
    file: Option<OutboxFile>,
    loaded: Outbox,
    outbox: Outbox,
    given: &OutboxFile,
    copies: Vec<OutboxEntry>,
    next_id: u64,
    n: usize,
)
    requires
        call_ensures(Outbox::load, (file,), loaded),
        call_ensures(Outbox::file, (&outbox,), given),
        call_ensures(Outbox::entries, (&outbox,), copies),
        call_ensures(Outbox::next_id, (&outbox,), next_id),
        call_ensures(Outbox::len, (&outbox,), n),
    ensures
        file is None ==> loaded@.next_id == 0 && loaded@.entries.len() == 0,
        file matches Some(file) ==> {
            &&& loaded@.next_id == file.next_id
            &&& loaded@.entries.len() == file.entries@.len()
            &&& forall|i: int|
                0 <= i < file.entries@.len() ==> tells_entry(
                    #[trigger] loaded@.entries[i],
                    file.entries@[i],
                )
        },
        !loaded.save_due(),
        given.next_id == outbox@.next_id && given.entries@.len() == outbox@.entries.len(),
        forall|i: int|
            0 <= i < outbox@.entries.len() ==> tells_entry(
                #[trigger] outbox@.entries[i],
                given.entries@[i],
            ),
        copies@.len() == outbox@.entries.len(),
        forall|i: int|
            0 <= i < outbox@.entries.len() ==> tells_entry(
                #[trigger] outbox@.entries[i],
                copies@[i],
            ),
        next_id == outbox@.next_id,
        n == outbox@.entries.len(),
{
    assert(given@ == outbox@);
    assert(outbox::entries_view(given.entries@) == outbox@.entries);
    assert(forall|i: int|
        0 <= i < outbox@.entries.len() ==> #[trigger] outbox@.entries[i] == outbox::entries_view(
            given.entries@,
        )[i]);
    assert(forall|i: int|
        0 <= i < outbox@.entries.len() ==> #[trigger] outbox@.entries[i] == outbox::entries_view(
            copies@,
        )[i]);
    if let Some(file) = file {
        assert(loaded@ == file@);
        assert(forall|i: int|
            0 <= i < loaded@.entries.len() ==> #[trigger] loaded@.entries[i]
                == outbox::entries_view(file.entries@)[i]);
    }
}

/// A due write is told once.
pub proof fn law_due_write_is_told_once(outbox: &mut Outbox, due: bool)
    requires
        call_ensures(Outbox::take_save_due, (outbox,), due),
    ensures
        due == old(outbox).save_due(),
        !final(outbox).save_due(),
        final(outbox)@ == old(outbox)@,
{
}

/// An item is queued behind all others, under the next number, without a
/// failure.
pub proof fn law_push_queues_at_the_end(outbox: &mut Outbox, item: OutboxItem, id: u64)
    requires
        call_ensures(Outbox::push, (outbox, item), id),
        old(outbox)@.next_id < u64::MAX,
    ensures
        ({
            let n = old(outbox)@.entries.len() as int;
            let new = final(outbox)@.entries[n];
            &&& id == old(outbox)@.next_id
            &&& final(outbox)@.next_id == id + 1
            &&& final(outbox)@.entries.len() == n + 1
            &&& forall|i: int|
                0 <= i < n ==> #[trigger] final(outbox)@.entries[i] == old(outbox)@.entries[i]
            &&& new.id == id
            &&& tells_item(new.item, item)
            &&& new.permanent_failures == 0
            &&& new.last_error is None
            &&& final(outbox).save_due()
        }),
{
}

/// A game is reported where an entry holds it, pending or complete; it has a
/// snapshot where an entry holds that.
pub proof fn law_items_are_found_by_game(
    outbox: Outbox,
    game_id: i64,
    reported: bool,
    captured: bool,
    item: OutboxItem,
    about: i64,
)
    requires
        call_ensures(Outbox::has_match_for, (&outbox, game_id), reported),
        call_ensures(Outbox::has_snapshot_for, (&outbox, game_id), captured),
        call_ensures(OutboxItem::game_id, (&item,), about),
    ensures
        reported <==> exists|i: int|
            0 <= i < outbox@.entries.len() && match (#[trigger] outbox@.entries[i]).item {
                ItemView::PendingMatch { game_id: g } => g == game_id,
                ItemView::MatchPayload { game_id: g, .. } => g == game_id,
                ItemView::Snapshot { .. } => false,
            },
        captured <==> exists|i: int|
            0 <= i < outbox@.entries.len() && match (#[trigger] outbox@.entries[i]).item {
                ItemView::Snapshot { game_id: g, .. } => g == game_id,
                _ => false,
            },
        item matches OutboxItem::PendingMatch { game_id: g } ==> about == g,
        item matches OutboxItem::MatchPayload { game_id: g, .. } ==> about == g,
        item matches OutboxItem::Snapshot { game_id: g, .. } ==> about == g,
{
    lemma_items(outbox@, game_id);
}

/// A game is reported, or has a snapshot, by the items that say so.
pub proof fn lemma_items(outbox: OutboxView, game_id: i64)
    ensures
        outbox.has_match_for(game_id) <==> exists|i: int|
            0 <= i < outbox.entries.len() && match (#[trigger] outbox.entries[i]).item {
                ItemView::PendingMatch { game_id: g } => g == game_id,
                ItemView::MatchPayload { game_id: g, .. } => g == game_id,
                ItemView::Snapshot { .. } => false,
            },
        outbox.has_snapshot_for(game_id) <==> exists|i: int|
            0 <= i < outbox.entries.len() && match (#[trigger] outbox.entries[i]).item {
                ItemView::Snapshot { game_id: g, .. } => g == game_id,
                _ => false,
            },
{
    if outbox.has_match_for(game_id) {
        let i = choose|i: int|
            0 <= i < outbox.entries.len() && (#[trigger] outbox.entries[i]).item.is_match_for(
                game_id,
            );
        assert(outbox.entries[i].item.game_id() == game_id);
    }
    if outbox.has_snapshot_for(game_id) {
        let i = choose|i: int|
            0 <= i < outbox.entries.len() && (#[trigger] outbox.entries[i]).item.is_snapshot_for(
                game_id,
            );
        assert(outbox.entries[i].item.game_id() == game_id);
    }
    assert(forall|i: int|
        0 <= i < outbox.entries.len() ==> ((#[trigger] outbox.entries[i]).item.is_match_for(game_id)
            == match outbox.entries[i].item {
            ItemView::PendingMatch { game_id: g } => g == game_id,
            ItemView::MatchPayload { game_id: g, .. } => g == game_id,
            ItemView::Snapshot { .. } => false,
        }));
}

/// Whether entry `i` is the first with a number.
pub open spec fn first_numbered(outbox: OutboxView, id: u64, i: int) -> bool {
    &&& 0 <= i < outbox.entries.len()
    &&& outbox.entries[i].id == id
    &&& forall|j: int| 0 <= j < i ==> (#[trigger] outbox.entries[j]).id != id
}

/// Whether no entry has a number.
pub open spec fn unnumbered(outbox: OutboxView, id: u64) -> bool {
    forall|j: int| 0 <= j < outbox.entries.len() ==> (#[trigger] outbox.entries[j]).id != id
}

/// The place of an entry is that of the first with its number.
pub proof fn lemma_place_is_first(outbox: OutboxView, id: u64)
    ensures
        forall|i: int| #[trigger] first_numbered(outbox, id, i) ==> outbox.place(id) == Some(i),
        unnumbered(outbox, id) ==> outbox.place(id) is None,
{
    let test = |e: EntryView| e.id == id;
    assert forall|i: int| #[trigger] first_numbered(outbox, id, i) implies outbox.place(id)
        == Some(i) by {
        first::lemma_first_is(outbox.entries, test, i);
    }
    if unnumbered(outbox, id) {
        first::lemma_first_none(outbox.entries, test);
    }
}

/// Whether a queue is another with one entry changed.
pub open spec fn changed(before: OutboxView, after: OutboxView, i: int, entry: EntryView) -> bool {
    &&& after.next_id == before.next_id
    &&& after.entries == before.entries.update(i, entry)
}

/// Whether a queue is another without the entries that have a number.
pub open spec fn without(before: OutboxView, after: OutboxView, id: u64) -> bool {
    &&& after.next_id == before.next_id
    &&& after.entries == before.entries.filter(|e: EntryView| e.id != id)
}

/// Replacing changes the item of the first entry with the number, and that
/// alone.
pub proof fn law_replace_changes_the_item(
    outbox: &mut Outbox,
    id: u64,
    item: OutboxItem,
    i: int,
)
    requires
        call_ensures(Outbox::replace_item, (outbox, id, item), ()),
    ensures
        first_numbered(old(outbox)@, id, i) ==> changed(
            old(outbox)@,
            final(outbox)@,
            i,
            EntryView { item: item@, ..old(outbox)@.entries[i] },
        ),
        unnumbered(old(outbox)@, id) ==> final(outbox)@ == old(outbox)@,
        final(outbox).save_due(),
{
    lemma_place_is_first(old(outbox)@, id);
}

/// Removing takes out the entries with the number, and those alone.
pub proof fn law_remove_takes_out_the_number(outbox: &mut Outbox, id: u64)
    requires
        call_ensures(Outbox::remove, (outbox, id), ()),
    ensures
        without(old(outbox)@, final(outbox)@, id),
        final(outbox).save_due(),
{
}

/// A permanent failure is counted with its error, and at the fifth the entry
/// goes.
pub proof fn law_fifth_permanent_failure_drops(outbox: &mut Outbox, id: u64, err: &str, i: int)
    requires
        call_ensures(Outbox::record_permanent_failure, (outbox, id, err), ()),
        first_numbered(old(outbox)@, id, i) || unnumbered(old(outbox)@, id),
    ensures
        ({
            let entry = old(outbox)@.entries[i];
            &&& unnumbered(old(outbox)@, id) ==> final(outbox)@ == old(outbox)@
            &&& !unnumbered(old(outbox)@, id) && entry.permanent_failures < 4 ==> changed(
                old(outbox)@,
                final(outbox)@,
                i,
                EntryView {
                    permanent_failures: (entry.permanent_failures + 1) as u32,
                    last_error: Some(err@),
                    ..entry
                },
            )
            &&& !unnumbered(old(outbox)@, id) && entry.permanent_failures >= 4 ==> without(
                old(outbox)@,
                final(outbox)@,
                id,
            )
            &&& final(outbox).save_due()
        }),
{
    lemma_place_is_first(old(outbox)@, id);
}

/// A transient failure notes its error, and nothing else.
pub proof fn law_transient_failure_is_noted(outbox: &mut Outbox, id: u64, err: &str, i: int)
    requires
        call_ensures(Outbox::record_transient_failure, (outbox, id, err), ()),
    ensures
        first_numbered(old(outbox)@, id, i) ==> changed(
            old(outbox)@,
            final(outbox)@,
            i,
            EntryView { last_error: Some(err@), ..old(outbox)@.entries[i] },
        ),
        unnumbered(old(outbox)@, id) ==> final(outbox)@ == old(outbox)@,
        final(outbox).save_due(),
{
    lemma_place_is_first(old(outbox)@, id);
}

/// A failure can be counted unless the counter of the entry is full.
pub proof fn law_full_counters_cannot_count(outbox: Outbox, id: u64, r: bool, i: int)
    requires
        call_ensures(Outbox::can_count, (&outbox, id), r),
    ensures
        first_numbered(outbox@, id, i) ==> (r <==> outbox@.entries[i].permanent_failures
            < u32::MAX),
        unnumbered(outbox@, id) ==> r,
{
    lemma_place_is_first(outbox@, id);
}

} // verus!
