//! What holds of the outbox, whatever is done to it.
use crate::capture;
use crate::first;
use crate::json::JsonView;
use crate::lcu;
use crate::lcu_laws;
use crate::outbox::{EntryView, ItemView, OutboxView, MAX_PERMANENT_FAILURES};
use crate::sync;
use vstd::prelude::*;

verus! {

/// No two entries share a number, and the next number is free.
pub open spec fn well_numbered(outbox: OutboxView) -> bool {
    &&& forall|i: int|
        0 <= i < outbox.entries.len() ==> (#[trigger] outbox.entries[i]).id < outbox.next_id
    &&& forall|i: int, j: int|
        0 <= i < j < outbox.entries.len() ==> (#[trigger] outbox.entries[i]).id != (
        #[trigger] outbox.entries[j]).id
}

/// The entry `id` of a well-numbered queue stands in one place, and that is
/// where it is found.
pub proof fn lemma_place(outbox: OutboxView, i: int)
    requires
        well_numbered(outbox),
        0 <= i < outbox.entries.len(),
    ensures
        outbox.place(outbox.entries[i].id) == Some(i),
{
    let id = outbox.entries[i].id;
    let test = |e: EntryView| e.id == id;
    assert forall|j: int| 0 <= j < i implies !test(#[trigger] outbox.entries[j]) by {
        assert(outbox.entries[j].id != outbox.entries[i].id);
    }
    first::lemma_first_is(outbox.entries, test, i);
}

/// A place that is found is in the queue and holds the number looked for.
pub proof fn lemma_found(outbox: OutboxView, id: u64)
    requires
        outbox.place(id) is Some,
    ensures
        0 <= outbox.place(id)->0 < outbox.entries.len(),
        outbox.entries[outbox.place(id)->0].id == id,
{
    let test = |e: EntryView| e.id == id;
    let i = choose|i: int| first::is_first(outbox.entries, test, i);
    assert(first::is_first(outbox.entries, test, i));
}

/// Filtering keeps the order of what passes: each kept item was there, and two
/// kept items come from two places.
pub proof fn lemma_filter_places<A>(s: Seq<A>, test: spec_fn(A) -> bool) -> (from: Seq<int>)
    ensures
        from.len() == s.filter(test).len(),
        forall|i: int|
            0 <= i < from.len() ==> 0 <= #[trigger] from[i] < s.len() && s.filter(test)[i]
                == s[from[i]] && test(s[from[i]]),
        forall|i: int, j: int| 0 <= i < j < from.len() ==> #[trigger] from[i] < #[trigger] from[j],
        forall|k: int| 0 <= k < s.len() && test(#[trigger] s[k]) ==> from.contains(k),
    decreases s.len(),
{
    reveal(Seq::filter);
    if s.len() == 0 {
        Seq::empty()
    } else {
        let rest = s.drop_last();
        let before = lemma_filter_places(rest, test);
        let last = s.len() - 1;
        if test(s.last()) {
            let from = before.push(last);
            assert forall|k: int| 0 <= k < s.len() && test(#[trigger] s[k]) implies from.contains(
                k,
            ) by {
                if k < last {
                    assert(rest[k] == s[k]);
                    let i = choose|i: int| 0 <= i < before.len() && before[i] == k;
                    assert(from[i] == k);
                } else {
                    assert(from[from.len() - 1] == k);
                }
            }
            assert forall|i: int| 0 <= i < from.len() implies 0 <= #[trigger] from[i] < s.len()
                && s.filter(test)[i] == s[from[i]] && test(s[from[i]]) by {
                if i < before.len() {
                    assert(from[i] == before[i]);
                    assert(rest[before[i]] == s[before[i]]);
                }
            }
            from
        } else {
            assert forall|k: int| 0 <= k < s.len() && test(#[trigger] s[k]) implies before.contains(
                k,
            ) by {
                assert(k < last);
                assert(rest[k] == s[k]);
            }
            assert forall|i: int| 0 <= i < before.len() implies 0 <= #[trigger] before[i] < s.len()
                && s.filter(test)[i] == s[before[i]] && test(s[before[i]]) by {
                assert(rest[before[i]] == s[before[i]]);
            }
            before
        }
    }
}

/// An empty queue is well numbered, and every operation keeps a queue so.
pub proof fn law_numbers_stay_unique(outbox: OutboxView, id: u64, item: ItemView, err: Seq<char>)
    requires
        well_numbered(outbox),
    ensures
        well_numbered(OutboxView::empty()),
        outbox.next_id < u64::MAX ==> well_numbered(outbox.pushed(item)),
        well_numbered(outbox.replaced(id, item)),
        well_numbered(outbox.removed(id)),
        well_numbered(outbox.failed_permanently(id, err)),
        well_numbered(outbox.failed_transiently(id, err)),
{
    if outbox.place(id) is Some {
        lemma_found(outbox, id);
    }
    let test = |e: EntryView| e.id != id;
    let from = lemma_filter_places(outbox.entries, test);
    let kept = outbox.removed(id).entries;
    assert forall|i: int, j: int| 0 <= i < j < kept.len() implies (#[trigger] kept[i]).id != (
    #[trigger] kept[j]).id by {
        assert(from[i] < from[j]);
        assert(kept[i] == outbox.entries[from[i]]);
        assert(kept[j] == outbox.entries[from[j]]);
    }
    assert forall|i: int| 0 <= i < kept.len() implies (#[trigger] kept[i]).id < outbox.next_id by {
        assert(0 <= from[i]);
        assert(kept[i] == outbox.entries[from[i]]);
    }
    assert(well_numbered(outbox.removed(id)));
}

/// Whether a queue holds an entry.
pub open spec fn holds(outbox: OutboxView, entry: EntryView) -> bool {
    outbox.entries.contains(entry)
}

/// What is done about one entry leaves every entry with another number as it is.
pub proof fn law_other_entries_untouched(
    outbox: OutboxView,
    id: u64,
    item: ItemView,
    err: Seq<char>,
    other: EntryView,
)
    requires
        holds(outbox, other),
        other.id != id,
    ensures
        holds(outbox.pushed(item), other),
        holds(outbox.replaced(id, item), other),
        holds(outbox.removed(id), other),
        holds(outbox.failed_permanently(id, err), other),
        holds(outbox.failed_transiently(id, err), other),
{
    let k = choose|k: int| 0 <= k < outbox.entries.len() && outbox.entries[k] == other;
    assert(outbox.pushed(item).entries[k] == other);
    let test = |e: EntryView| e.id != id;
    let from = lemma_filter_places(outbox.entries, test);
    assert(test(outbox.entries[k]));
    assert(from.contains(k));
    let i = choose|i: int| 0 <= i < from.len() && from[i] == k;
    assert(outbox.removed(id).entries[i] == other);
    if outbox.place(id) is Some {
        lemma_found(outbox, id);
        let p = outbox.place(id)->0;
        assert(outbox.replaced(id, item).entries[k] == other);
        assert(outbox.failed_transiently(id, err).entries[k] == other);
        if outbox.entries[p].permanent_failures + 1 < MAX_PERMANENT_FAILURES {
            assert(outbox.failed_permanently(id, err).entries[k] == other);
        }
    }
}

/// A transient failure never drops an entry: all of them stay in place, with
/// their items and their counters.
pub proof fn law_transient_failure_never_drops(outbox: OutboxView, id: u64, err: Seq<char>)
    ensures
        outbox.failed_transiently(id, err).entries.len() == outbox.entries.len(),
        forall|i: int|
            0 <= i < outbox.entries.len() ==> {
                let after = #[trigger] outbox.failed_transiently(id, err).entries[i];
                &&& after.id == outbox.entries[i].id
                &&& after.item == outbox.entries[i].item
                &&& after.permanent_failures == outbox.entries[i].permanent_failures
                &&& after.last_error == outbox.entries[i].last_error || after.last_error == Some(
                    err,
                )
            },
{
    if outbox.place(id) is Some {
        lemma_found(outbox, id);
    }
}

/// The queue after so many transient failures of an entry.
pub open spec fn failed_transiently_times(
    outbox: OutboxView,
    id: u64,
    err: Seq<char>,
    times: nat,
) -> OutboxView
    decreases times,
{
    if times == 0 {
        outbox
    } else {
        failed_transiently_times(outbox, id, err, (times - 1) as nat).failed_transiently(id, err)
    }
}

/// However often it fails transiently, an entry stays, and remembers the error.
pub proof fn law_transient_failures_retry_forever(
    outbox: OutboxView,
    i: int,
    err: Seq<char>,
    times: nat,
)
    requires
        well_numbered(outbox),
        0 <= i < outbox.entries.len(),
        times > 0,
    ensures
        holds(
            failed_transiently_times(outbox, outbox.entries[i].id, err, times),
            EntryView { last_error: Some(err), ..outbox.entries[i] },
        ),
        failed_transiently_times(outbox, outbox.entries[i].id, err, times).entries.len()
            == outbox.entries.len(),
    decreases times,
{
    let id = outbox.entries[i].id;
    let before = failed_transiently_times(outbox, id, err, (times - 1) as nat);
    lemma_transient_run(outbox, i, err, (times - 1) as nat);
    lemma_place(before, i);
    assert(before.failed_transiently(id, err).entries[i] == EntryView {
        last_error: Some(err),
        ..outbox.entries[i]
    });
}

proof fn lemma_transient_run(outbox: OutboxView, i: int, err: Seq<char>, times: nat)
    requires
        well_numbered(outbox),
        0 <= i < outbox.entries.len(),
    ensures
        ({
            let after = failed_transiently_times(outbox, outbox.entries[i].id, err, times);
            &&& well_numbered(after)
            &&& after.entries.len() == outbox.entries.len()
            &&& EntryView { last_error: None, ..after.entries[i] } == EntryView {
                last_error: None,
                ..outbox.entries[i]
            }
        }),
    decreases times,
{
    if times > 0 {
        let id = outbox.entries[i].id;
        lemma_transient_run(outbox, i, err, (times - 1) as nat);
        let before = failed_transiently_times(outbox, id, err, (times - 1) as nat);
        lemma_place(before, i);
        law_numbers_stay_unique(before, id, before.entries[i].item, err);
    }
}

/// The queue after so many permanent failures of an entry.
pub open spec fn failed_permanently_times(
    outbox: OutboxView,
    id: u64,
    err: Seq<char>,
    times: nat,
) -> OutboxView
    decreases times,
{
    if times == 0 {
        outbox
    } else {
        failed_permanently_times(outbox, id, err, (times - 1) as nat).failed_permanently(id, err)
    }
}

/// An entry that never failed survives as many permanent failures as stay
/// below the limit, with its item, and is gone at the limit.
pub proof fn law_permanent_failures_drop_at_limit(
    outbox: OutboxView,
    i: int,
    err: Seq<char>,
    times: nat,
)
    requires
        well_numbered(outbox),
        0 <= i < outbox.entries.len(),
        outbox.entries[i].permanent_failures == 0,
    ensures
        0 < times < MAX_PERMANENT_FAILURES ==> holds(
            failed_permanently_times(outbox, outbox.entries[i].id, err, times),
            EntryView {
                permanent_failures: times as u32,
                last_error: Some(err),
                ..outbox.entries[i]
            },
        ),
        times >= MAX_PERMANENT_FAILURES ==> failed_permanently_times(
            outbox,
            outbox.entries[i].id,
            err,
            times,
        ).place(outbox.entries[i].id) is None,
    decreases times,
{
    let id = outbox.entries[i].id;
    if 0 < times < MAX_PERMANENT_FAILURES {
        lemma_permanent_run(outbox, i, err, times);
        let after = failed_permanently_times(outbox, id, err, times);
        assert(after.entries[i] == EntryView {
            permanent_failures: times as u32,
            last_error: Some(err),
            ..outbox.entries[i]
        });
    } else if times == MAX_PERMANENT_FAILURES {
        lemma_permanent_run(outbox, i, err, (times - 1) as nat);
        let before = failed_permanently_times(outbox, id, err, (times - 1) as nat);
        lemma_place(before, i);
        law_removed_is_gone(before, id);
    } else if times > MAX_PERMANENT_FAILURES {
        law_permanent_failures_drop_at_limit(outbox, i, err, (times - 1) as nat);
    }
}

proof fn lemma_permanent_run(outbox: OutboxView, i: int, err: Seq<char>, times: nat)
    requires
        well_numbered(outbox),
        0 <= i < outbox.entries.len(),
        outbox.entries[i].permanent_failures == 0,
        times < MAX_PERMANENT_FAILURES,
    ensures
        ({
            let after = failed_permanently_times(outbox, outbox.entries[i].id, err, times);
            &&& well_numbered(after)
            &&& after.entries.len() == outbox.entries.len()
            &&& after.entries[i] == if times == 0 {
                outbox.entries[i]
            } else {
                EntryView {
                    permanent_failures: times as u32,
                    last_error: Some(err),
                    ..outbox.entries[i]
                }
            }
        }),
    decreases times,
{
    if times > 0 {
        let id = outbox.entries[i].id;
        lemma_permanent_run(outbox, i, err, (times - 1) as nat);
        let before = failed_permanently_times(outbox, id, err, (times - 1) as nat);
        lemma_place(before, i);
        law_numbers_stay_unique(before, id, before.entries[i].item, err);
    }
}

/// An entry that was removed is gone.
pub proof fn law_removed_is_gone(outbox: OutboxView, id: u64)
    ensures
        outbox.removed(id).place(id) is None,
{
    let test = |e: EntryView| e.id != id;
    let from = lemma_filter_places(outbox.entries, test);
    let kept = outbox.removed(id).entries;
    let same = |e: EntryView| e.id == id;
    assert forall|i: int| 0 <= i < kept.len() implies !same(#[trigger] kept[i]) by {
        assert(0 <= from[i]);
        assert(kept[i] == outbox.entries[from[i]]);
    }
    first::lemma_first_none(kept, same);
}

/// An entry whose item is replaced keeps its place, its number and its counters.
pub proof fn law_replacing_keeps_number_and_counters(outbox: OutboxView, i: int, item: ItemView)
    requires
        well_numbered(outbox),
        0 <= i < outbox.entries.len(),
    ensures
        outbox.replaced(outbox.entries[i].id, item).entries == outbox.entries.update(
            i,
            EntryView { item, ..outbox.entries[i] },
        ),
{
    lemma_place(outbox, i);
}

/// No game is reported by two entries.
pub open spec fn one_match_per_game(outbox: OutboxView) -> bool {
    forall|i: int, j: int|
        0 <= i < j < outbox.entries.len() && !((#[trigger] outbox.entries[i]).item is Snapshot)
            && !((#[trigger] outbox.entries[j]).item is Snapshot)
            ==> outbox.entries[i].item.game_id() != outbox.entries[j].item.game_id()
}

proof fn lemma_push_once(outbox: OutboxView, item: ItemView)
    requires
        one_match_per_game(outbox),
        item is Snapshot || !outbox.has_match_for(item.game_id()),
    ensures
        one_match_per_game(outbox.pushed(item)),
{
    let after = outbox.pushed(item);
    assert forall|i: int, j: int|
        0 <= i < j < after.entries.len() && !((#[trigger] after.entries[i]).item is Snapshot) && !((
        #[trigger] after.entries[j]).item is Snapshot) implies after.entries[i].item.game_id()
        != after.entries[j].item.game_id() by {
        assert(after.entries[i] == outbox.entries[i]);
        if j == outbox.entries.len() {
            assert(!outbox.entries[i].item.is_match_for(item.game_id()));
        } else {
            assert(after.entries[j] == outbox.entries[j]);
        }
    }
}

/// Searching the history never queues a game twice, and queues every game that
/// it was given unless it was queued.
pub proof fn law_search_reports_each_game_once(outbox: OutboxView, ids: Seq<i64>)
    requires
        one_match_per_game(outbox),
        outbox.next_id + sync::new_games(outbox, ids).len() <= u64::MAX,
    ensures
        one_match_per_game(sync::enqueued(outbox, ids)),
        forall|g: i64| #[trigger]
            sync::enqueued(outbox, ids).has_match_for(g) <==> outbox.has_match_for(g)
                || ids.contains(g),
    decreases ids.len(),
{
    assert forall|g: i64| #[trigger]
        sync::enqueued(outbox, ids).has_match_for(g) <==> outbox.has_match_for(g) || ids.contains(
            g,
        ) by {
        sync::lemma_enqueued_reports(outbox, ids, g);
    }
    if ids.len() > 0 {
        let before = sync::enqueued(outbox, ids.drop_last());
        law_search_reports_each_game_once(outbox, ids.drop_last());
        sync::lemma_enqueued_step(outbox, ids);
        if !before.has_match_for(ids.last()) {
            lemma_push_once(before, ItemView::PendingMatch { game_id: ids.last() });
        }
    } else {
        assert(sync::enqueued(outbox, ids).entries =~= outbox.entries);
    }
}

/// Whether `from` gives for each item of `picked` the place at which it first
/// occurs in `all`, in order.
pub open spec fn first_places(all: Seq<i64>, picked: Seq<i64>, from: Seq<int>) -> bool {
    &&& from.len() == picked.len()
    &&& forall|k: int|
        0 <= k < from.len() ==> 0 <= #[trigger] from[k] < all.len() && all[from[k]] == picked[k]
            && !all.take(from[k]).contains(picked[k])
    &&& forall|k: int, l: int| 0 <= k < l < from.len() ==> #[trigger] from[k] < #[trigger] from[l]
}

/// The new ids are picked where they first occur.
pub proof fn lemma_new_games_places(outbox: OutboxView, ids: Seq<i64>) -> (from: Seq<int>)
    ensures
        first_places(ids, sync::new_games(outbox, ids), from),
    decreases ids.len(),
{
    let new = sync::new_games(outbox, ids);
    if ids.len() == 0 {
        Seq::empty()
    } else {
        let rest = ids.drop_last();
        let last = ids.len() - 1;
        let before = lemma_new_games_places(outbox, rest);
        let old_new = sync::new_games(outbox, rest);
        assert forall|k: int| 0 <= k < before.len() implies 0 <= #[trigger] before[k] < ids.len()
            && ids[before[k]] == old_new[k] && !ids.take(before[k]).contains(old_new[k]) by {
            assert(rest.take(before[k]) =~= ids.take(before[k]));
        }
        if outbox.has_match_for(ids.last()) || rest.contains(ids.last()) {
            before
        } else {
            let from = before.push(last);
            assert(ids.take(last) =~= rest);
            assert forall|k: int| 0 <= k < from.len() implies 0 <= #[trigger] from[k] < ids.len()
                && ids[from[k]] == new[k] && !ids.take(from[k]).contains(new[k]) by {
                if k < before.len() {
                    assert(from[k] == before[k]);
                }
            }
            from
        }
    }
}

/// Searching the history adds exactly one pending game for each id that the
/// queue did not report, in the order in which the ids first occur, and nothing
/// else; what was queued stays as it is.
pub proof fn law_search_adds_exactly_the_new_games(outbox: OutboxView, ids: Seq<i64>)
    requires
        outbox.next_id + sync::new_games(outbox, ids).len() <= u64::MAX,
    ensures
        ({
            let new = sync::new_games(outbox, ids);
            let after = sync::enqueued(outbox, ids);
            let n = outbox.entries.len();
            &&& after.entries.len() == n + new.len()
            &&& after.next_id == outbox.next_id + new.len()
            &&& outbox.entries.is_prefix_of(after.entries)
            &&& forall|k: int|
                0 <= k < new.len() ==> #[trigger] after.entries[n + k] == (EntryView {
                    id: (outbox.next_id + k) as u64,
                    item: ItemView::PendingMatch { game_id: new[k] },
                    permanent_failures: 0,
                    last_error: None,
                })
            &&& new.no_duplicates()
            &&& forall|g: i64| #[trigger]
                new.contains(g) <==> ids.contains(g) && !outbox.has_match_for(g)
            &&& exists|from: Seq<int>| first_places(ids, new, from)
        }),
{
    sync::lemma_new_games(outbox, ids);
    let from = lemma_new_games_places(outbox, ids);
    assert(first_places(ids, sync::new_games(outbox, ids), from));
}

/// What a search of the history adds are the listed games of ARAM: Mayhem that
/// the backend has not taken and the queue did not report.
pub proof fn law_search_adds_unsynced_mayhem_games(
    outbox: OutboxView,
    games: Seq<JsonView>,
    synced: Set<i64>,
    game_id: i64,
)
    ensures
        sync::new_games(outbox, lcu::new_mayhem_ids(games, synced)).contains(game_id) <==> {
            &&& exists|i: int|
                0 <= i < games.len() && lcu::is_mayhem(#[trigger] games[i]) && games[i].get_i64(
                    "gameId"@,
                ) == Some(game_id)
            &&& !synced.contains(game_id)
            &&& !outbox.has_match_for(game_id)
        },
{
    let ids = lcu::new_mayhem_ids(games, synced);
    sync::lemma_new_games(outbox, ids);
    lcu_laws::law_new_ids_are_mayhem_and_unknown(games, synced);
    assert(sync::new_games(outbox, ids).contains(game_id) <==> ids.contains(game_id)
        && !outbox.has_match_for(game_id));
}

/// The end of a game leaves its snapshot in the queue, and the game itself
/// unless the backend has taken it; and never reports a game twice.
pub proof fn law_game_end_is_queued(
    outbox: OutboxView,
    synced: Set<i64>,
    game_id: i64,
    stats: JsonView,
    peak: JsonView,
)
    requires
        one_match_per_game(outbox),
        outbox.next_id + 2 <= u64::MAX,
    ensures
        ({
            let after = capture::game_queued(outbox, synced, game_id, stats, peak);
            &&& one_match_per_game(after)
            &&& after.has_snapshot_for(game_id)
            &&& synced.contains(game_id) || after.has_match_for(game_id)
            &&& outbox.entries.is_prefix_of(after.entries)
        }),
{
    let shot = ItemView::Snapshot { game_id, champion_stats: stats, peak };
    let middle = if outbox.has_snapshot_for(game_id) {
        outbox
    } else {
        outbox.pushed(shot)
    };
    lemma_push_once(outbox, shot);
    let after = capture::game_queued(outbox, synced, game_id, stats, peak);
    let item = ItemView::PendingMatch { game_id };
    if !middle.has_match_for(game_id) {
        lemma_push_once(middle, item);
    }
    assert(middle.has_snapshot_for(game_id)) by {
        if !outbox.has_snapshot_for(game_id) {
            assert(middle.entries[outbox.entries.len() as int].item.is_snapshot_for(game_id));
        }
    }
    assert(after.has_snapshot_for(game_id)) by {
        let i = choose|i: int|
            0 <= i < middle.entries.len() && (
            #[trigger] middle.entries[i]).item.is_snapshot_for(game_id);
        assert(after.entries[i] == middle.entries[i]);
    }
    assert(synced.contains(game_id) || after.has_match_for(game_id)) by {
        if !synced.contains(game_id) && !middle.has_match_for(game_id) {
            assert(after.entries[middle.entries.len() as int].item.is_match_for(game_id));
        }
    }
}

/// What a drain does to the queue never makes two entries report one game: an
/// entry leaves, fails, or turns from pending to complete.
pub proof fn law_drain_reports_each_game_once(
    outbox: OutboxView,
    id: u64,
    err: Seq<char>,
    game_id: i64,
    payload: JsonView,
)
    requires
        one_match_per_game(outbox),
    ensures
        one_match_per_game(outbox.removed(id)),
        one_match_per_game(outbox.failed_permanently(id, err)),
        one_match_per_game(outbox.failed_transiently(id, err)),
        outbox.place(id) matches Some(i) ==> outbox.entries[i].item == (
        ItemView::PendingMatch { game_id }) ==> one_match_per_game(
            outbox.replaced(id, ItemView::MatchPayload { game_id, payload }),
        ),
{
    let test = |e: EntryView| e.id != id;
    let from = lemma_filter_places(outbox.entries, test);
    let kept = outbox.removed(id);
    assert forall|i: int, j: int|
        0 <= i < j < kept.entries.len() && !((#[trigger] kept.entries[i]).item is Snapshot) && !((
        #[trigger] kept.entries[j]).item is Snapshot) implies kept.entries[i].item.game_id()
        != kept.entries[j].item.game_id() by {
        assert(from[i] < from[j]);
        assert(kept.entries[i] == outbox.entries[from[i]]);
        assert(kept.entries[j] == outbox.entries[from[j]]);
    }
    if outbox.place(id) is Some {
        lemma_found(outbox, id);
    }
}

/// A queued item is found again.
pub proof fn law_queued_item_is_found(outbox: OutboxView, item: ItemView)
    requires
        outbox.next_id < u64::MAX,
    ensures
        item is Snapshot ==> outbox.pushed(item).has_snapshot_for(item.game_id()),
        !(item is Snapshot) ==> outbox.pushed(item).has_match_for(item.game_id()),
        forall|g: i64|
            outbox.pushed(item).has_match_for(g) ==> #[trigger] outbox.has_match_for(g)
                || item.is_match_for(g),
        forall|g: i64|
            outbox.pushed(item).has_snapshot_for(g) ==> #[trigger] outbox.has_snapshot_for(g)
                || item.is_snapshot_for(g),
{
    let after = outbox.pushed(item);
    assert(after.entries[outbox.entries.len() as int].item == item);
    assert forall|g: i64| after.has_match_for(g) implies #[trigger] outbox.has_match_for(g)
        || item.is_match_for(g) by {
        let i = choose|i: int|
            0 <= i < after.entries.len() && (#[trigger] after.entries[i]).item.is_match_for(g);
        if i < outbox.entries.len() {
            assert(outbox.entries[i] == after.entries[i]);
        }
    }
    assert forall|g: i64| after.has_snapshot_for(g) implies #[trigger] outbox.has_snapshot_for(g)
        || item.is_snapshot_for(g) by {
        let i = choose|i: int|
            0 <= i < after.entries.len() && (#[trigger] after.entries[i]).item.is_snapshot_for(g);
        if i < outbox.entries.len() {
            assert(outbox.entries[i] == after.entries[i]);
        }
    }
}

/// Something done to the queue.
pub enum QueueOp {
    Pushed(ItemView),
    Replaced(u64, ItemView),
    Removed(u64),
    FailedPermanently(u64, Seq<char>),
    FailedTransiently(u64, Seq<char>),
}

/// The queue after one thing was done to it.
pub open spec fn applied(outbox: OutboxView, op: QueueOp) -> OutboxView {
    match op {
        QueueOp::Pushed(item) => outbox.pushed(item),
        QueueOp::Replaced(id, item) => outbox.replaced(id, item),
        QueueOp::Removed(id) => outbox.removed(id),
        QueueOp::FailedPermanently(id, err) => outbox.failed_permanently(id, err),
        QueueOp::FailedTransiently(id, err) => outbox.failed_transiently(id, err),
    }
}

/// The queue after all of this was done to it, in order.
pub open spec fn applied_all(outbox: OutboxView, ops: Seq<QueueOp>) -> OutboxView
    decreases ops.len(),
{
    if ops.len() == 0 {
        outbox
    } else {
        applied(applied_all(outbox, ops.drop_last()), ops.last())
    }
}

/// How often the entry `id` failed permanently.
pub open spec fn permanent_failures_in(ops: Seq<QueueOp>, id: u64) -> nat
    decreases ops.len(),
{
    if ops.len() == 0 {
        0
    } else {
        permanent_failures_in(ops.drop_last(), id) + match ops.last() {
            QueueOp::FailedPermanently(failed, _) if failed == id => 1nat,
            _ => 0nat,
        }
    }
}

/// Whether the entry `id` was removed.
pub open spec fn removed_in(ops: Seq<QueueOp>, id: u64) -> bool {
    exists|i: int| 0 <= i < ops.len() && #[trigger] ops[i] == QueueOp::Removed(id)
}

/// Whether the item of the entry `id` is replaced by this.
pub open spec fn replaces(op: QueueOp, id: u64) -> bool {
    match op {
        QueueOp::Replaced(replaced, _) => replaced == id,
        _ => false,
    }
}

/// Whether the item of the entry `id` was replaced.
pub open spec fn replaced_in(ops: Seq<QueueOp>, id: u64) -> bool {
    exists|i: int| 0 <= i < ops.len() && replaces(#[trigger] ops[i], id)
}

/// Whatever is done to the queue, an entry stays in it until it is removed or
/// its permanent failures reach the limit; its number never changes, its
/// failures are counted one by one, and only a replacement changes its item.
pub proof fn law_entry_stays_until_removed_or_dropped(
    outbox: OutboxView,
    i: int,
    ops: Seq<QueueOp>,
)
    requires
        well_numbered(outbox),
        0 <= i < outbox.entries.len(),
        outbox.next_id + ops.len() <= u64::MAX,
        !removed_in(ops, outbox.entries[i].id),
        outbox.entries[i].permanent_failures + permanent_failures_in(ops, outbox.entries[i].id)
            < MAX_PERMANENT_FAILURES,
    ensures
        ({
            let id = outbox.entries[i].id;
            let after = applied_all(outbox, ops);
            &&& well_numbered(after)
            &&& after.next_id <= outbox.next_id + ops.len()
            &&& after.place(id) is Some
            &&& after.entries[after.place(id)->0].permanent_failures
                == outbox.entries[i].permanent_failures + permanent_failures_in(ops, id)
            &&& !replaced_in(ops, id) ==> after.entries[after.place(id)->0].item
                == outbox.entries[i].item
        }),
    decreases ops.len(),
{
    let id = outbox.entries[i].id;
    lemma_place(outbox, i);
    if ops.len() > 0 {
        let rest = ops.drop_last();
        let last = ops.len() - 1;
        assert(!removed_in(rest, id)) by {
            if removed_in(rest, id) {
                let k = choose|k: int| 0 <= k < rest.len() && #[trigger] rest[k]
                    == QueueOp::Removed(id);
                assert(ops[k] == QueueOp::Removed(id));
            }
        }
        assert(!replaced_in(ops, id) ==> !replaced_in(rest, id)) by {
            if replaced_in(rest, id) {
                let k = choose|k: int| 0 <= k < rest.len() && replaces(#[trigger] rest[k], id);
                assert(ops[k] == rest[k]);
            }
        }
        law_entry_stays_until_removed_or_dropped(outbox, i, rest);
        let before = applied_all(outbox, rest);
        let after = applied_all(outbox, ops);
        let p = before.place(id)->0;
        lemma_found(before, id);
        let entry = before.entries[p];
        match ops[last] {
            QueueOp::Pushed(item) => {
                law_numbers_stay_unique(before, id, item, Seq::empty());
                assert(after.entries[p] == entry);
                lemma_place(after, p);
            },
            QueueOp::Replaced(r, item) => {
                law_numbers_stay_unique(before, r, item, Seq::empty());
                if before.place(r) is Some {
                    lemma_found(before, r);
                }
                assert(after.entries[p].id == id);
                lemma_place(after, p);
            },
            QueueOp::Removed(r) => {
                assert(r != id);
                law_numbers_stay_unique(before, r, entry.item, Seq::empty());
                law_other_entries_untouched(before, r, entry.item, Seq::empty(), entry);
                let q = choose|q: int| 0 <= q < after.entries.len() && after.entries[q] == entry;
                lemma_place(after, q);
            },
            QueueOp::FailedPermanently(r, err) => {
                law_numbers_stay_unique(before, r, entry.item, err);
                if r != id {
                    law_other_entries_untouched(before, r, entry.item, err, entry);
                    let q = choose|q: int|
                        0 <= q < after.entries.len() && after.entries[q] == entry;
                    lemma_place(after, q);
                } else {
                    assert(after.entries[p].id == id);
                    lemma_place(after, p);
                }
            },
            QueueOp::FailedTransiently(r, err) => {
                law_numbers_stay_unique(before, r, entry.item, err);
                if before.place(r) is Some {
                    lemma_found(before, r);
                }
                assert(after.entries[p].id == id);
                lemma_place(after, p);
            },
        }
    }
}

} // verus!
