//! What holds of a whole drain of the outbox.
use crate::adg::AdgError;
use crate::first;
use crate::game::GameDetail;
use crate::lcu::LcuError;
use crate::lcu_laws;
use crate::outbox::{EntryView, OutboxView};
use crate::outbox_laws;
use crate::state::AppState;
use crate::sync::{self, ActionView, SyncPoint, SyncView};
use crate::sync_laws;
use vstd::prelude::*;

verus! {

/// What an action of a drain came to.
pub enum Answer {
    Detail(Result<GameDetail, LcuError>),
    Match(Result<u64, AdgError>),
    Snapshot(Result<(), AdgError>),
}

/// Whether the backend has taken what was posted.
pub open spec fn accepted(answer: Answer) -> bool {
    match answer {
        Answer::Detail(_) => false,
        Answer::Match(posted) => posted is Ok,
        Answer::Snapshot(posted) => posted is Ok,
    }
}

/// Whether the answer is a permanent failure: the backend refused what was
/// posted, or the game has no participants.
pub open spec fn fails_permanently(answer: Answer) -> bool {
    match answer {
        Answer::Detail(detail) => detail is Ok && detail->Ok_0@.participants.len() == 0,
        Answer::Match(posted) => posted is Err && posted->Err_0 is Permanent,
        Answer::Snapshot(posted) => posted is Err && posted->Err_0 is Permanent,
    }
}

/// Whether an answer takes an entry out of the queue.
pub open spec fn takes_out(entry: EntryView, answer: Answer) -> bool {
    accepted(answer) || (fails_permanently(answer) && sync_laws::at_limit(entry))
}

/// The entry that an action is about.
pub open spec fn entry_of(action: ActionView) -> Option<u64> {
    match action {
        ActionView::ReadDetail { entry_id, .. } => Some(entry_id),
        ActionView::PostMatch { entry_id, .. } => Some(entry_id),
        ActionView::PostSnapshot { entry_id, .. } => Some(entry_id),
        _ => None,
    }
}

/// Whether an answer to the action of one moment leads to another moment.
pub open spec fn answered(before: SyncPoint, answer: Answer, after: SyncPoint) -> bool {
    match (before.action, answer) {
        (
            ActionView::ReadDetail { entry_id, game_id, .. },
            Answer::Detail(detail),
        ) => sync::detail_answered(before.run, before.state, entry_id, game_id, detail, after),
        (
            ActionView::PostMatch { entry_id, game_id, .. },
            Answer::Match(posted),
        ) => sync::match_answered(before.run, before.state, entry_id, game_id, posted, after),
        (
            ActionView::PostSnapshot { entry_id, .. },
            Answer::Snapshot(posted),
        ) => sync::snapshot_answered(before.run, before.state, entry_id, posted, after),
        _ => false,
    }
}

/// Whether `points` are the moments of a drain, or of the beginning of one,
/// that starts in `state` and gets these answers; nothing else changes the
/// state meanwhile.
pub open spec fn is_drain(
    run: SyncView,
    state: AppState,
    points: Seq<SyncPoint>,
    answers: Seq<Answer>,
) -> bool {
    &&& points.len() == answers.len() + 1
    &&& points[0].state == state
    &&& (points[0].run, points[0].action) == run.drain(state)
    &&& forall|k: int|
        0 <= k < answers.len() ==> answered(points[k], #[trigger] answers[k], points[k + 1])
}

/// Whether the entries of one queue are entries of another, by their numbers
/// and in the same order.
pub open spec fn thinned(all: OutboxView, kept: OutboxView) -> bool {
    exists|from: Seq<int>| #[trigger] places_in(all, kept, from)
}

/// Whether `from` tells where the entries of `kept` stand in `all`.
pub open spec fn places_in(all: OutboxView, kept: OutboxView, from: Seq<int>) -> bool {
    &&& from.len() == kept.entries.len()
    &&& forall|i: int|
        0 <= i < from.len() ==> 0 <= #[trigger] from[i] < all.entries.len()
            && kept.entries[i].id == all.entries[from[i]].id
    &&& forall|i: int, j: int| 0 <= i < j < from.len() ==> #[trigger] from[i] < #[trigger] from[j]
}

proof fn lemma_thinned_same(all: OutboxView, kept: OutboxView)
    requires
        kept.entries.len() == all.entries.len(),
        forall|i: int|
            0 <= i < all.entries.len() ==> (#[trigger] kept.entries[i]).id == all.entries[i].id,
    ensures
        thinned(all, kept),
{
    let from = Seq::new(all.entries.len(), |i: int| i);
    assert(places_in(all, kept, from));
}

proof fn lemma_thinned_twice(a: OutboxView, b: OutboxView, c: OutboxView)
    requires
        thinned(a, b),
        thinned(b, c),
    ensures
        thinned(a, c),
{
    let f = choose|f: Seq<int>| #[trigger] places_in(a, b, f);
    let g = choose|g: Seq<int>| #[trigger] places_in(b, c, g);
    let h = Seq::new(g.len(), |i: int| f[g[i]]);
    assert forall|i: int| 0 <= i < h.len() implies 0 <= #[trigger] h[i] < a.entries.len()
        && c.entries[i].id == a.entries[h[i]].id by {
        assert(0 <= g[i] < b.entries.len());
        assert(0 <= f[g[i]]);
    }
    assert forall|i: int, j: int| 0 <= i < j < h.len() implies #[trigger] h[i] < #[trigger] h[j] by {
        assert(g[i] < g[j]);
        assert(0 <= g[i] && g[j] < f.len());
        assert(f[g[i]] < f[g[j]]);
    }
    assert(places_in(a, c, h));
}

/// An entry that is held is found.
proof fn lemma_held_is_found(outbox: OutboxView, i: int)
    requires
        0 <= i < outbox.entries.len(),
    ensures
        outbox.place(outbox.entries[i].id) is Some,
{
    let id = outbox.entries[i].id;
    first::lemma_first_some(outbox.entries, |e: EntryView| e.id == id, i);
}

/// What is found in a thinned queue was there before.
proof fn lemma_thinned_found(all: OutboxView, kept: OutboxView, id: u64)
    requires
        thinned(all, kept),
        kept.place(id) is Some,
    ensures
        all.place(id) is Some,
{
    let from = choose|from: Seq<int>| #[trigger] places_in(all, kept, from);
    outbox_laws::lemma_found(kept, id);
    let i = kept.place(id)->0;
    assert(0 <= from[i]);
    lemma_held_is_found(all, from[i]);
}

/// What one answer about the entry at `i` does to the queue.
pub open spec fn one_answer(before: OutboxView, i: int, answer: Answer, after: OutboxView) -> bool {
    let entry = before.entries[i];
    &&& outbox_laws::well_numbered(after)
    &&& after.next_id == before.next_id
    &&& thinned(before, after)
    &&& after.place(entry.id) is None <==> takes_out(entry, answer)
    &&& forall|other: EntryView| #[trigger]
        outbox_laws::holds(before, other) && other.id != entry.id ==> outbox_laws::holds(
            after,
            other,
        )
    &&& forall|id: u64|
        id != entry.id ==> (#[trigger] after.place(id) is None <==> before.place(id) is None)
}

proof fn lemma_one_answer(before: SyncPoint, i: int, answer: Answer, after: SyncPoint)
    requires
        outbox_laws::well_numbered(before.state.outbox@),
        0 <= i < before.state.outbox@.entries.len(),
        entry_of(before.action) == Some(before.state.outbox@.entries[i].id),
        answered(before, answer, after),
    ensures
        one_answer(before.state.outbox@, i, answer, after.state.outbox@),
{
    let old_box = before.state.outbox@;
    let new_box = after.state.outbox@;
    let entry = old_box.entries[i];
    let id = entry.id;
    outbox_laws::lemma_place(old_box, i);
    if let Answer::Detail(detail) = answer {
        if detail is Ok {
            lcu_laws::law_own_participant(detail->Ok_0@, before.run.summoner->0.puuid);
        }
    }
    let gone = takes_out(entry, answer);
    if gone {
        assert(new_box == old_box.removed(id));
        outbox_laws::law_removed_is_gone(old_box, id);
        outbox_laws::law_numbers_stay_unique(old_box, id, entry.item, Seq::empty());
        lemma_removed_is_thinned(old_box, id);
    } else {
        assert(new_box.entries.len() == old_box.entries.len());
        assert(forall|j: int|
            0 <= j < old_box.entries.len() ==> (#[trigger] new_box.entries[j]).id
                == old_box.entries[j].id);
        assert(forall|j: int|
            0 <= j < old_box.entries.len() && j != i ==> #[trigger] new_box.entries[j]
                == old_box.entries[j]);
        assert(outbox_laws::well_numbered(new_box));
        lemma_thinned_same(old_box, new_box);
        lemma_held_is_found(new_box, i);
    }
    assert forall|other: EntryView| #[trigger]
        outbox_laws::holds(old_box, other) && other.id != id implies outbox_laws::holds(
        new_box,
        other,
    ) by {
        if gone {
            outbox_laws::law_other_entries_untouched(
                old_box,
                id,
                entry.item,
                Seq::empty(),
                other,
            );
        } else {
            let j = choose|j: int| 0 <= j < old_box.entries.len() && old_box.entries[j] == other;
            assert(new_box.entries[j] == other);
        }
    }
    assert forall|other: u64| other != id implies (#[trigger] new_box.place(other) is None
        <==> old_box.place(other) is None) by {
        if new_box.place(other) is Some {
            lemma_thinned_found(old_box, new_box, other);
        }
        if old_box.place(other) is Some {
            outbox_laws::lemma_found(old_box, other);
            let e = old_box.entries[old_box.place(other)->0];
            assert(outbox_laws::holds(old_box, e));
            assert(outbox_laws::holds(new_box, e));
            let j = choose|j: int| 0 <= j < new_box.entries.len() && new_box.entries[j] == e;
            lemma_held_is_found(new_box, j);
        }
    }
}

proof fn lemma_removed_is_thinned(outbox: OutboxView, id: u64)
    ensures
        thinned(outbox, outbox.removed(id)),
{
    let from = outbox_laws::lemma_filter_places(outbox.entries, |e: EntryView| e.id != id);
    assert(places_in(outbox, outbox.removed(id), from));
}

/// Whether some answer so far took an entry out of the queue.
pub open spec fn taken_out(
    entry: EntryView,
    points: Seq<SyncPoint>,
    answers: Seq<Answer>,
) -> bool {
    exists|k: int|
        0 <= k < answers.len() && entry_of(points[k].action) == Some(entry.id) && takes_out(
            entry,
            #[trigger] answers[k],
        )
}

/// How far a drain has come: the place in the queue at its start up to which
/// entries were looked at.
spec fn reached(all: OutboxView, point: SyncPoint) -> int {
    all.entries.len() - point.run.waiting.len()
}

/// The place from which on entries are as they were at the start.
spec fn untouched_from(all: OutboxView, point: SyncPoint) -> int {
    if point.action is Finish {
        reached(all, point)
    } else {
        reached(all, point) - 1
    }
}

spec fn on_course(all: OutboxView, point: SyncPoint) -> bool {
    let c = reached(all, point);
    &&& 0 <= c <= all.entries.len()
    &&& point.run.waiting == all.entries.skip(c)
    &&& !(point.action is Finish) ==> c >= 1 && entry_of(point.action) == Some(
        all.entries[c - 1].id,
    )
}

/// The next step of a drain looks at the first entry ahead about which
/// something can be done.
proof fn lemma_next_on_course(all: OutboxView, run: SyncView, point: SyncPoint, c: int)
    requires
        0 <= c <= all.entries.len(),
        run.waiting == all.entries.skip(c),
        (point.run, point.action) == run.next() || (point.run, point.action) == run.halted(),
    ensures
        on_course(all, point),
        untouched_from(all, point) >= c,
{
    if (point.run, point.action) == run.next() && run.next_place() is Some {
        sync_laws::lemma_next_place(run);
        let i = run.next_place()->0;
        assert(run.waiting.skip(i + 1) =~= all.entries.skip(c + i + 1));
        assert(run.waiting[i] == all.entries[c + i]);
    } else {
        assert(point.run.waiting =~= all.entries.skip(all.entries.len() as int));
    }
}

spec fn drained_so_far(
    all: OutboxView,
    points: Seq<SyncPoint>,
    answers: Seq<Answer>,
) -> bool {
    let point = points.last();
    let now = point.state.outbox@;
    &&& on_course(all, point)
    &&& outbox_laws::well_numbered(now)
    &&& now.next_id == all.next_id
    &&& thinned(all, now)
    &&& forall|j: int|
        untouched_from(all, point) <= j < all.entries.len() ==> outbox_laws::holds(
            now,
            #[trigger] all.entries[j],
        )
    &&& forall|m: int, j: int|
        #![trigger points[m], all.entries[j]]
        0 <= m < answers.len() && 0 <= j < all.entries.len() && entry_of(points[m].action) == Some(
            all.entries[j].id,
        ) ==> j < untouched_from(all, point)
    &&& forall|j: int|
        0 <= j < all.entries.len() ==> (now.place((#[trigger] all.entries[j]).id) is None
            <==> taken_out(all.entries[j], points, answers))
}

proof fn lemma_drain(
    run: SyncView,
    state: AppState,
    points: Seq<SyncPoint>,
    answers: Seq<Answer>,
)
    requires
        outbox_laws::well_numbered(state.outbox@),
        is_drain(run, state, points, answers),
    ensures
        drained_so_far(state.outbox@, points, answers),
    decreases answers.len(),
{
    let all = state.outbox@;
    if answers.len() == 0 {
        let waiting = SyncView { waiting: all.entries, ..run };
        assert(all.entries.skip(0) =~= all.entries);
        if state.update_required is Some {
            assert(points[0].run.waiting =~= all.entries.skip(all.entries.len() as int));
        } else {
            lemma_next_on_course(all, waiting, points[0], 0);
        }
        lemma_thinned_same(all, all);
        assert(points.last() == points[0]);
        assert(forall|j: int|
            0 <= j < all.entries.len() ==> outbox_laws::holds(all, #[trigger] all.entries[j]));
        assert forall|j: int| 0 <= j < all.entries.len() implies (all.place(
            (#[trigger] all.entries[j]).id,
        ) is None <==> taken_out(all.entries[j], points, answers)) by {
            lemma_held_is_found(all, j);
        }
    } else {
        let last = answers.len() - 1;
        let rest_points = points.drop_last();
        let rest = answers.drop_last();
        assert forall|k: int| 0 <= k < rest.len() implies answered(
            rest_points[k],
            #[trigger] rest[k],
            rest_points[k + 1],
        ) by {
            assert(answered(points[k], answers[k], points[k + 1]));
        }
        lemma_drain(run, state, rest_points, rest);
        let before = points[last];
        let after = points[last + 1];
        assert(rest_points.last() == before);
        assert(points.last() == after);
        assert(answered(before, answers[last], after));
        let c = reached(all, before);
        let entry = all.entries[c - 1];
        let now = before.state.outbox@;
        assert(outbox_laws::holds(now, entry));
        let i = choose|i: int| 0 <= i < now.entries.len() && now.entries[i] == entry;
        lemma_one_answer(before, i, answers[last], after);
        let next = after.state.outbox@;
        lemma_thinned_twice(all, now, next);
        lemma_after_on_course(all, before, answers[last], after);
        assert forall|j: int| untouched_from(all, after) <= j < all.entries.len() implies
            outbox_laws::holds(next, #[trigger] all.entries[j]) by {
            assert(outbox_laws::holds(now, all.entries[j]));
            assert(all.entries[j].id != entry.id);
        }
        assert forall|m: int, j: int|
            #![trigger points[m], all.entries[j]]
            0 <= m < answers.len() && 0 <= j < all.entries.len() && entry_of(points[m].action)
                == Some(all.entries[j].id) implies j < untouched_from(all, after) by {
            if m < last {
                assert(rest[m] == answers[m]);
                assert(rest_points[m] == points[m]);
            } else {
                if j > c - 1 {
                    assert(all.entries[c - 1].id != all.entries[j].id);
                }
            }
        }
        assert forall|j: int| 0 <= j < all.entries.len() implies (next.place(
            (#[trigger] all.entries[j]).id,
        ) is None <==> taken_out(all.entries[j], points, answers)) by {
            let e = all.entries[j];
            assert(now.place(e.id) is None <==> taken_out(e, rest_points, rest));
            if taken_out(e, rest_points, rest) {
                let k = choose|k: int|
                    0 <= k < rest.len() && entry_of(rest_points[k].action) == Some(e.id)
                        && takes_out(e, #[trigger] rest[k]);
                assert(answers[k] == rest[k] && points[k] == rest_points[k]);
            }
            if taken_out(e, points, answers) && !taken_out(e, rest_points, rest) {
                let k = choose|k: int|
                    0 <= k < answers.len() && entry_of(points[k].action) == Some(e.id)
                        && takes_out(e, #[trigger] answers[k]);
                if k < last {
                    assert(rest[k] == answers[k] && rest_points[k] == points[k]);
                }
                assert(k == last);
            }
            if e.id == entry.id {
                if j != c - 1 {
                    if j < c - 1 {
                        assert(all.entries[j].id != all.entries[c - 1].id);
                    } else {
                        assert(all.entries[c - 1].id != all.entries[j].id);
                    }
                }
                lemma_held_is_found(now, i);
                if takes_out(e, answers[last]) {
                    assert(taken_out(e, points, answers));
                }
            }
        }
    }
}

proof fn lemma_after_on_course(
    all: OutboxView,
    before: SyncPoint,
    answer: Answer,
    after: SyncPoint,
)
    requires
        on_course(all, before),
        answered(before, answer, after),
    ensures
        on_course(all, after),
        untouched_from(all, after) > untouched_from(all, before),
{
    let run = match answer {
        Answer::Detail(_) => before.run,
        Answer::Match(posted) => match posted {
            Ok(n) => SyncView { sent: (before.run.sent + n) as u64, ..before.run },
            Err(_) => SyncView { send_failed: true, ..before.run },
        },
        Answer::Snapshot(posted) => match posted {
            Ok(_) => before.run,
            Err(_) => SyncView { send_failed: true, ..before.run },
        },
    };
    assert((after.run, after.action) == run.after_entry(after.state));
    lemma_next_on_course(all, run, after, reached(all, before));
}

/// Over a whole drain, however far it has come, an entry is missing if and only
/// if its own post was accepted or it took a permanent failure that reached the
/// limit; the entries that remain keep their numbers and their order, and none
/// is added.
pub proof fn law_drain_loses_only_what_was_taken_or_dropped(
    run: SyncView,
    state: AppState,
    points: Seq<SyncPoint>,
    answers: Seq<Answer>,
)
    requires
        outbox_laws::well_numbered(state.outbox@),
        is_drain(run, state, points, answers),
    ensures
        forall|j: int|
            0 <= j < state.outbox@.entries.len() ==> (points.last().state.outbox@.place(
                (#[trigger] state.outbox@.entries[j]).id,
            ) is None <==> taken_out(state.outbox@.entries[j], points, answers)),
        thinned(state.outbox@, points.last().state.outbox@),
        outbox_laws::well_numbered(points.last().state.outbox@),
        points.last().state.outbox@.next_id == state.outbox@.next_id,
{
    lemma_drain(run, state, points, answers);
}

/// A drain acts on an entry once at most.
pub proof fn law_drain_acts_on_an_entry_once(
    run: SyncView,
    state: AppState,
    points: Seq<SyncPoint>,
    answers: Seq<Answer>,
    k: int,
    l: int,
)
    requires
        outbox_laws::well_numbered(state.outbox@),
        is_drain(run, state, points, answers),
        0 <= k < l < points.len(),
        entry_of(points[k].action) is Some,
    ensures
        entry_of(points[l].action) != entry_of(points[k].action),
{
    let all = state.outbox@;
    let some = points.take(l + 1);
    let first = answers.take(l);
    assert forall|m: int| 0 <= m < first.len() implies answered(
        some[m],
        #[trigger] first[m],
        some[m + 1],
    ) by {
        assert(answered(points[m], answers[m], points[m + 1]));
    }
    lemma_drain(run, state, some, first);
    assert(some.last() == points[l]);
    let c = reached(all, points[l]);
    if entry_of(points[l].action) == entry_of(points[k].action) {
        assert(some[k] == points[k]);
        assert(first[k] == answers[k]);
        assert(entry_of(some[k].action) == Some(all.entries[c - 1].id));
    }
}

/// Whether the backend did not take what was posted.
pub open spec fn send_failed(answer: Answer) -> bool {
    match answer {
        Answer::Detail(_) => false,
        Answer::Match(posted) => posted is Err,
        Answer::Snapshot(posted) => posted is Err,
    }
}

/// A sync that has nothing left to do was successful if and only if nothing
/// that it sent failed and the backend wants no update.
pub proof fn law_success_is_no_failed_send_and_no_update(
    run: SyncView,
    state: AppState,
    points: Seq<SyncPoint>,
    answers: Seq<Answer>,
)
    requires
        is_drain(run, state, points, answers),
        !run.send_failed,
    ensures
        sync::succeeded(points.last().run, points.last().state) <==> (forall|k: int|
            0 <= k < answers.len() ==> !send_failed(#[trigger] answers[k]))
            && points.last().state.update_required is None,
{
    lemma_failed_sends(run, state, points, answers);
}

proof fn lemma_failed_sends(
    run: SyncView,
    state: AppState,
    points: Seq<SyncPoint>,
    answers: Seq<Answer>,
)
    requires
        is_drain(run, state, points, answers),
        !run.send_failed,
    ensures
        points.last().run.send_failed <==> exists|k: int|
            0 <= k < answers.len() && send_failed(#[trigger] answers[k]),
    decreases answers.len(),
{
    if answers.len() > 0 {
        let last = answers.len() - 1;
        let rest_points = points.drop_last();
        let rest = answers.drop_last();
        assert forall|k: int| 0 <= k < rest.len() implies answered(
            rest_points[k],
            #[trigger] rest[k],
            rest_points[k + 1],
        ) by {
            assert(answered(points[k], answers[k], points[k + 1]));
        }
        lemma_failed_sends(run, state, rest_points, rest);
        assert(rest_points.last() == points[last]);
        assert(points.last() == points[last + 1]);
        assert(answered(points[last], answers[last], points[last + 1]));
        assert(points.last().run.send_failed <==> points[last].run.send_failed || send_failed(
            answers[last],
        ));
        if points[last].run.send_failed {
            let k = choose|k: int| 0 <= k < rest.len() && send_failed(#[trigger] rest[k]);
            assert(answers[k] == rest[k]);
        }
        if exists|k: int| 0 <= k < answers.len() && send_failed(#[trigger] answers[k]) {
            let k = choose|k: int| 0 <= k < answers.len() && send_failed(#[trigger] answers[k]);
            if k < last {
                assert(rest[k] == answers[k]);
            }
        }
    }
}

} // verus!
