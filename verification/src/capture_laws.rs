//! What holds of the live capture.
use crate::capture::{
    self, CaptureView, GameIdLookup, GameOver, LiveCapture, LookupStep, Reading, ReadingView,
};
use crate::first;
use crate::json::{self, Json, JsonView};
use crate::lcu::{self, LcuError};
use crate::outbox::{EntryView, ItemView, Outbox};
use crate::queue_laws;
use crate::state::AppState;
use vstd::prelude::*;

verus! {

/// A moment of the capture.
pub enum Look {
    /// A game is under way; its build, where it could be read, and the readings.
    Seen { stats: Option<JsonView>, readings: Seq<Option<ReadingView>> },
    /// The client spoke of the game under way.
    Told { id: Option<i64> },
    /// No game is under way; one that was seen has been queued or lost.
    Over,
}

/// The capture after a moment.
pub open spec fn after_look(capture: CaptureView, look: Look) -> CaptureView {
    match look {
        Look::Seen { stats, readings } => capture.seen(stats, readings),
        Look::Told { id } => capture.told(id),
        Look::Over => if capture.over() is Idle {
            capture.left()
        } else {
            CaptureView::empty()
        },
    }
}

/// The capture after moments, taken from the start.
pub open spec fn after_looks(looks: Seq<Look>) -> CaptureView
    decreases looks.len(),
{
    if looks.len() == 0 {
        CaptureView::empty()
    } else {
        after_look(after_looks(looks.drop_last()), looks.last())
    }
}

/// Where no game was seen, no build is kept and no reading either.
proof fn lemma_nothing_without_a_game(looks: Seq<Look>)
    ensures
        !after_looks(looks).was_in_game ==> after_looks(looks).last_stats is None && after_looks(
            looks,
        ).peaks == capture::no_peaks(),
    decreases looks.len(),
{
    if looks.len() > 0 {
        lemma_nothing_without_a_game(looks.drop_last());
    }
}

/// After a look that found no game and had none to end, the next look at a game
/// wants its id.
pub proof fn law_idle_look_forgets_the_id(
    capture: CaptureView,
    stats: Option<JsonView>,
    readings: Seq<Option<ReadingView>>,
)
    requires
        capture.over() is Idle,
    ensures
        capture.left().game_id is None,
        capture.left().seen(stats, readings).game_id is None,
{
}

/// Games are kept apart: once none is under way, what is captured next is the
/// same as if nothing had been captured before.
pub proof fn law_games_are_kept_apart(before: Seq<Look>, during: Seq<Look>)
    ensures
        after_looks(before.push(Look::Over) + during) == after_looks(during),
    decreases during.len(),
{
    let all = before.push(Look::Over) + during;
    if during.len() == 0 {
        assert(all.drop_last() =~= before);
        lemma_nothing_without_a_game(before);
    } else {
        assert(all.drop_last() =~= before.push(Look::Over) + during.drop_last());
        law_games_are_kept_apart(before, during.drop_last());
    }
}

/// The id under which a game ends is the last that the client told of it while
/// it was under way.
pub proof fn law_game_ends_under_its_own_id(before: Seq<Look>, during: Seq<Look>, game_id: i64)
    requires
        forall|i: int| 0 <= i < during.len() ==> !(#[trigger] during[i] is Over),
        after_looks(before.push(Look::Over) + during).over() == (GameOver::Ended { game_id }),
    ensures
        exists|i: int|
            0 <= i < during.len() && #[trigger] during[i] == (Look::Told { id: Some(game_id) })
                && forall|j: int|
                i < j < during.len() ==> ((#[trigger] during[j]) matches Look::Told { id } ==> id
                    is None),
{
    law_games_are_kept_apart(before, during);
    lemma_id_was_told(during, game_id);
}

proof fn lemma_id_was_told(looks: Seq<Look>, game_id: i64)
    requires
        forall|i: int| 0 <= i < looks.len() ==> !(#[trigger] looks[i] is Over),
        after_looks(looks).game_id == Some(game_id),
    ensures
        exists|i: int|
            0 <= i < looks.len() && #[trigger] looks[i] == (Look::Told { id: Some(game_id) })
                && forall|j: int|
                i < j < looks.len() ==> ((#[trigger] looks[j]) matches Look::Told { id } ==> id
                    is None),
    decreases looks.len(),
{
    if looks.len() > 0 {
        let rest = looks.drop_last();
        let last = looks.len() - 1;
        if looks[last] == (Look::Told { id: Some(game_id) }) {
        } else {
            assert forall|i: int| 0 <= i < rest.len() implies !(#[trigger] rest[i] is Over) by {
                assert(rest[i] == looks[i]);
            }
            assert(!(looks[last] is Over));
            lemma_id_was_told(rest, game_id);
            let i = choose|i: int|
                0 <= i < rest.len() && #[trigger] rest[i] == (Look::Told { id: Some(game_id) })
                    && forall|j: int|
                    i < j < rest.len() ==> ((#[trigger] rest[j]) matches Look::Told { id } ==> id
                        is None);
            assert(looks[i] == rest[i]);
            assert forall|j: int| i < j < looks.len() implies ((
            #[trigger] looks[j]) matches Look::Told { id } ==> id is None) by {
                if j < last {
                    assert(rest[j] == looks[j]);
                }
            }
        }
    }
}

/// Whether a page of the history lists a game of ARAM: Mayhem under an id.
pub open spec fn lists_mayhem(games: Result<Seq<JsonView>, LcuError>, game_id: i64) -> bool {
    games is Ok && exists|i: int|
        0 <= i < games->Ok_0.len() && lcu::is_mayhem(#[trigger] games->Ok_0[i])
            && games->Ok_0[i].get_i64("gameId"@) == Some(game_id)
}

/// A look at the history finds a game where the history lists one of ARAM:
/// Mayhem, and only such a game: the newest. A game of another queue is never
/// taken for the one that has just ended.
pub proof fn law_lookup_finds_mayhem_only(looks: u32, games: Result<Seq<JsonView>, LcuError>)
    ensures
        lookup_found(looks, games) is None <==> forall|id: i64| !lists_mayhem(games, id),
        lookup_found(looks, games) matches Some(id) ==> lists_mayhem(games, id),
        lookup_found(looks, games) matches Some(id) ==> exists|i: int|
            0 <= i < games->Ok_0.len() && lcu::is_mayhem(#[trigger] games->Ok_0[i])
                && games->Ok_0[i].get_i64("gameId"@) == Some(id) && forall|j: int|
                0 <= j < i && lcu::is_mayhem(#[trigger] games->Ok_0[j])
                    ==> games->Ok_0[j].get_i64("gameId"@) is None,
{
    if let Ok(list) = games {
        let test = |game: JsonView| lcu::is_mayhem(game) && game.get_i64("gameId"@) is Some;
        if lookup_found(looks, games) is Some {
            let i = choose|i: int| first::is_first(list, test, i);
            assert(first::is_first(list, test, i));
            first::lemma_first_is(list, test, i);
            assert(lists_mayhem(games, list[i].get_i64("gameId"@)->0));
            assert forall|j: int| 0 <= j < i && lcu::is_mayhem(#[trigger] list[j]) implies list[
            j].get_i64("gameId"@) is None by {
                assert(!test(list[j]));
            }
        } else {
            assert forall|id: i64| !lists_mayhem(games, id) by {
                if lists_mayhem(games, id) {
                    let i = choose|i: int|
                        0 <= i < list.len() && lcu::is_mayhem(#[trigger] list[i])
                            && list[i].get_i64("gameId"@) == Some(id);
                    first::lemma_first_some(list, test, i);
                    assert(first::first_item(list, test) is Some);
                    assert(test(first::first_item(list, test)->0));
                }
            }
        }
    }
}

/// The game that a look at the history finds.
pub open spec fn lookup_found(
    looks: u32,
    games: Result<Seq<JsonView>, LcuError>,
) -> Option<i64> {
    match capture::lookup_step(looks, games) {
        LookupStep::Found { game_id } => Some(game_id),
        _ => None,
    }
}

/// What a whole lookup finds in the pages that it gets to see, `looks` of them
/// seen before.
pub open spec fn lookup_result(
    looks: u32,
    pages: Seq<Result<Seq<JsonView>, LcuError>>,
) -> Option<i64>
    decreases pages.len(),
{
    if pages.len() == 0 {
        None
    } else {
        match capture::lookup_step(looks, pages[0]) {
            LookupStep::Found { game_id } => Some(game_id),
            LookupStep::Again => lookup_result((looks + 1) as u32, pages.skip(1)),
            LookupStep::GiveUp => None,
        }
    }
}

/// A lookup waits until a page lists a game of ARAM: Mayhem, through pages that
/// list others only or could not be read, and takes the newest of that page; it
/// finds nothing where none of its looks sees one.
pub proof fn law_lookup_waits_for_the_game(
    looks: u32,
    pages: Seq<Result<Seq<JsonView>, LcuError>>,
    n: int,
)
    requires
        0 <= n < pages.len(),
        looks + n < capture::LOOKUP_ATTEMPTS,
        forall|k: int, id: i64| 0 <= k < n ==> !#[trigger] lists_mayhem(pages[k], id),
    ensures
        (exists|id: i64| lists_mayhem(pages[n], id)) ==> lookup_result(looks, pages) is Some
            && lookup_result(looks, pages) == lcu::newest_mayhem_id(pages[n]->Ok_0),
        looks + n + 1 == capture::LOOKUP_ATTEMPTS && (forall|id: i64| !lists_mayhem(pages[n], id))
            ==> lookup_result(looks, pages) is None,
    decreases n,
{
    law_lookup_finds_mayhem_only(looks, pages[0]);
    if n > 0 {
        let rest = pages.skip(1);
        assert(rest[n - 1] == pages[n]);
        assert forall|k: int, id: i64| 0 <= k < n - 1 implies !#[trigger] lists_mayhem(
            rest[k],
            id,
        ) by {
            assert(rest[k] == pages[k + 1]);
        }
        assert(forall|id: i64| !lists_mayhem(pages[0], id));
        law_lookup_waits_for_the_game((looks + 1) as u32, rest, n - 1);
    }
}

/// The peaks after rounds of readings, taken from the start.
pub open spec fn peaks_after(rounds: Seq<Seq<Option<ReadingView>>>) -> Seq<Option<ReadingView>>
    decreases rounds.len(),
{
    if rounds.len() == 0 {
        capture::no_peaks()
    } else {
        capture::higher_all(peaks_after(rounds.drop_last()), rounds.last())
    }
}

/// The peak of a statistic is one of its readings, and none ranks above it; it
/// is missing only where every reading is.
pub proof fn law_peak_is_the_highest_reading(rounds: Seq<Seq<Option<ReadingView>>>, field: int)
    requires
        0 <= field < capture::PEAK_COUNT,
        forall|r: int| 0 <= r < rounds.len() ==> (#[trigger] rounds[r]).len() == capture::PEAK_COUNT,
    ensures
        peaks_after(rounds).len() == capture::PEAK_COUNT,
        match peaks_after(rounds)[field] {
            Some(peak) => {
                &&& exists|r: int|
                    0 <= r < rounds.len() && (#[trigger] rounds[r])[field] == Some(peak)
                &&& forall|r: int|
                    0 <= r < rounds.len() ==> match (#[trigger] rounds[r])[field] {
                        Some(reading) => capture::rank(reading.bits) <= capture::rank(peak.bits),
                        None => true,
                    }
            },
            None => forall|r: int|
                0 <= r < rounds.len() ==> (#[trigger] rounds[r])[field] is None,
        },
    decreases rounds.len(),
{
    if rounds.len() > 0 {
        let rest = rounds.drop_last();
        let last = rounds.len() - 1;
        assert forall|r: int| 0 <= r < rest.len() implies (#[trigger] rest[r]).len()
            == capture::PEAK_COUNT by {
            assert(rest[r] == rounds[r]);
        }
        law_peak_is_the_highest_reading(rest, field);
        assert(forall|r: int| 0 <= r < last ==> rest[r] == #[trigger] rounds[r]);
        assert(rounds.last() == rounds[last]);
        let before = peaks_after(rest)[field];
        let after = peaks_after(rounds)[field];
        assert(after == capture::higher(before, rounds[last][field]));
        if before is Some {
            let r = choose|r: int| 0 <= r < rest.len() && (#[trigger] rest[r])[field] == before;
            assert(rounds[r][field] == before);
        }
    }
}

/// Whether one double, by its bits, is at least another: the top bit is the
/// sign, the rest grows with the magnitude, and the two zeros are equal.
pub open spec fn at_least(a: u64, b: u64) -> bool {
    let sign: u64 = 0x8000_0000_0000_0000;
    if a < sign && b < sign {
        a >= b
    } else if a < sign {
        true
    } else if b < sign {
        a == sign && b == 0
    } else {
        a <= b
    }
}

/// Readings rank as their doubles are ordered.
pub proof fn law_readings_rank_as_doubles(a: u64, b: u64)
    ensures
        capture::rank(a) >= capture::rank(b) <==> at_least(a, b),
{
}

/// Whether a peak is this reading.
pub open spec fn is_reading(peak: ReadingView, reading: Option<Reading>) -> bool {
    reading matches Some(r) && r.bits == peak.bits && r.number@ == peak.number
}

/// Whether a peak is there and at least this reading, where there is a reading.
pub open spec fn tops(peak: Option<ReadingView>, reading: Option<Reading>) -> bool {
    reading matches Some(r) ==> peak is Some && at_least(peak->0.bits, r.bits)
}

/// The reading of a statistic among the readings of a look, where there is one.
pub open spec fn reading_of(readings: Vec<Option<Reading>>, f: int) -> Option<Reading> {
    if f < readings@.len() {
        readings@[f]
    } else {
        None
    }
}

/// A look keeps the build that it saw and, of each statistic, the higher of the
/// peak so far and the new reading; a look without a build changes nothing. The
/// id of the game is wanted until it is known.
pub proof fn law_look_keeps_the_higher(
    capture: &mut LiveCapture,
    stats: Option<Json>,
    readings: Vec<Option<Reading>>,
    wants_id: bool,
    f: int,
)
    requires
        call_ensures(LiveCapture::in_game, (capture, stats, readings), wants_id),
        old(capture)@.peaks.len() == 9,
        0 <= f < 9,
    ensures
        wants_id <==> old(capture)@.game_id is None,
        final(capture)@.game_id == old(capture)@.game_id,
        stats is None ==> final(capture)@ == old(capture)@,
        stats matches Some(build) ==> {
            let was = old(capture)@.peaks[f];
            let now = final(capture)@.peaks[f];
            &&& final(capture)@.was_in_game
            &&& final(capture)@.last_stats == Some(build@)
            &&& final(capture)@.peaks.len() == 9
            &&& now == was || now is Some && is_reading(now->0, reading_of(readings, f))
            &&& was is Some ==> now is Some && at_least(now->0.bits, was->0.bits)
            &&& tops(now, reading_of(readings, f))
            &&& was is Some && reading_of(readings, f) is Some && at_least(
                was->0.bits,
                reading_of(readings, f)->0.bits,
            ) ==> now == was
        },
{
    let all = capture::readings_view(readings@);
    assert(f < readings@.len() ==> all[f] == capture::opt_reading(readings@[f]));
}

/// Whether a look saw a build and a reading of a statistic.
pub open spec fn read_at(
    stats: Seq<Option<Json>>,
    readings: Seq<Vec<Option<Reading>>>,
    k: int,
    f: int,
) -> bool {
    stats[k] is Some && reading_of(readings[k], f) is Some
}

/// After any number of looks at one game, the peak of each statistic is one of
/// its readings in those looks, and none of them is above it; it is missing only
/// where there was no reading.
pub proof fn law_peaks_are_the_highest_of_the_game(
    calls: Seq<&mut LiveCapture>,
    stats: Seq<Option<Json>>,
    readings: Seq<Vec<Option<Reading>>>,
    wants: Seq<bool>,
    f: int,
)
    requires
        0 <= f < 9,
        calls.len() > 0,
        calls.len() == stats.len(),
        calls.len() == readings.len(),
        calls.len() == wants.len(),
        (*calls[0])@.peaks.len() == 9,
        forall|g: int| 0 <= g < 9 ==> (#[trigger] (*calls[0])@.peaks[g]) is None,
        forall|k: int|
            0 <= k < calls.len() ==> call_ensures(
                LiveCapture::in_game,
                (#[trigger] calls[k], stats[k], readings[k]),
                wants[k],
            ),
        forall|k: int|
            0 <= k < calls.len() - 1 ==> (*calls[k + 1])@ == final(#[trigger] calls[k])@,
    ensures
        final(calls.last())@.peaks.len() == 9,
        final(calls.last())@.peaks[f] matches Some(peak) ==> exists|k: int|
            0 <= k < calls.len() && #[trigger] read_at(stats, readings, k, f) && is_reading(
                peak,
                reading_of(readings[k], f),
            ),
        forall|k: int|
            0 <= k < calls.len() && #[trigger] read_at(stats, readings, k, f) ==> tops(
                final(calls.last())@.peaks[f],
                reading_of(readings[k], f),
            ),
    decreases calls.len(),
{
    let last = calls.len() - 1;
    let before = (*calls[last])@;
    assert(call_ensures(
        LiveCapture::in_game,
        (calls[last], stats[last], readings[last]),
        wants[last],
    ));
    let all = capture::readings_view(readings[last]@);
    assert(f < all.len() ==> all[f] == capture::opt_reading(readings[last]@[f]));
    if last == 0 {
        assert(before.peaks[f] is None);
        if final(calls.last())@.peaks[f] is Some {
            assert(read_at(stats, readings, 0, f));
        }
    } else {
        let rest = calls.drop_last();
        let rest_stats = stats.drop_last();
        let rest_readings = readings.drop_last();
        let rest_wants = wants.drop_last();
        assert(rest[0] == calls[0]);
        assert forall|k: int| 0 <= k < rest.len() implies call_ensures(
            LiveCapture::in_game,
            (#[trigger] rest[k], rest_stats[k], rest_readings[k]),
            rest_wants[k],
        ) by {
            assert(rest[k] == calls[k]);
            assert(call_ensures(
                LiveCapture::in_game,
                (calls[k], stats[k], readings[k]),
                wants[k],
            ));
        }
        assert forall|k: int| 0 <= k < rest.len() - 1 implies (*rest[k + 1])@
            == final(#[trigger] rest[k])@ by {
            assert(rest[k] == calls[k] && rest[k + 1] == calls[k + 1]);
        }
        law_peaks_are_the_highest_of_the_game(rest, rest_stats, rest_readings, rest_wants, f);
        assert(rest.last() == calls[last - 1]);
        assert(before == final(calls[last - 1])@);
        if let Some(peak) = final(calls.last())@.peaks[f] {
            if stats[last] is Some && is_reading(peak, reading_of(readings[last], f)) {
                assert(read_at(stats, readings, last, f));
            } else {
                assert(before.peaks[f] == Some(peak));
                let k = choose|k: int|
                    0 <= k < rest.len() && #[trigger] read_at(rest_stats, rest_readings, k, f)
                        && is_reading(peak, reading_of(rest_readings[k], f));
                assert(read_at(stats, readings, k, f));
            }
        }
        assert forall|k: int| 0 <= k < calls.len() && #[trigger] read_at(
            stats,
            readings,
            k,
            f,
        ) implies tops(final(calls.last())@.peaks[f], reading_of(readings[k], f)) by {
            if k < last {
                assert(read_at(rest_stats, rest_readings, k, f));
                assert(tops(before.peaks[f], reading_of(rest_readings[k], f)));
                law_readings_rank_as_doubles(
                    before.peaks[f]->0.bits,
                    reading_of(readings[k], f)->0.bits,
                );
                law_readings_rank_as_doubles(
                    final(calls.last())@.peaks[f]->0.bits,
                    reading_of(readings[k], f)->0.bits,
                );
            }
        }
    }
}

/// The names of the nine statistics.
pub open spec fn nine_names() -> Seq<Seq<char>> {
    seq![
        "attackDamage"@,
        "abilityPower"@,
        "armor"@,
        "magicResist"@,
        "maxHealth"@,
        "attackSpeed"@,
        "moveSpeed"@,
        "lifeSteal"@,
        "omnivamp"@,
    ]
}

proof fn lemma_nine_names()
    ensures
        nine_names().len() == 9,
        forall|i: int| 0 <= i < 9 ==> #[trigger] nine_names()[i] == capture::peak_field_text(i),
        forall|i: int, j: int|
            0 <= i < j < 9 ==> #[trigger] nine_names()[i] != #[trigger] nine_names()[j],
{
    reveal_strlit("attackDamage");
    reveal_strlit("abilityPower");
    reveal_strlit("armor");
    reveal_strlit("magicResist");
    reveal_strlit("maxHealth");
    reveal_strlit("attackSpeed");
    reveal_strlit("moveSpeed");
    reveal_strlit("lifeSteal");
    reveal_strlit("omnivamp");
    assert("attackDamage"@.len() == 12 && "abilityPower"@.len() == 12);
    assert("armor"@.len() == 5 && "omnivamp"@.len() == 8);
    assert("magicResist"@.len() == 11 && "attackSpeed"@.len() == 11);
    assert("maxHealth"@.len() == 9 && "moveSpeed"@.len() == 9 && "lifeSteal"@.len() == 9);
    assert("attackDamage"@[1] != "abilityPower"@[1]);
    assert("magicResist"@[0] != "attackSpeed"@[0]);
    assert("maxHealth"@[1] != "moveSpeed"@[1]);
    assert("maxHealth"@[0] != "lifeSteal"@[0]);
    assert("moveSpeed"@[0] != "lifeSteal"@[0]);
}

/// The statistics whose peak is kept are the nine, each read under its name.
pub proof fn law_nine_statistics_are_watched(
    i: usize,
    field: &'static str,
    build: Json,
    found: Vec<Option<Json>>,
)
    requires
        i < 9,
        call_ensures(capture::peak_field, (i,), field),
        call_ensures(capture::peak_candidates, (&build,), found),
    ensures
        field@ == nine_names()[i as int],
        found@.len() == 9,
        found@[i as int] is Some <==> build@.get(nine_names()[i as int]) is Some,
        found@[i as int] matches Some(doc) ==> build@.get(nine_names()[i as int]) == Some(doc@),
{
    lemma_nine_names();
    let view = found@.map_values(|c: Option<Json>| json::opt_json(c));
    assert(view == capture::peak_candidates_view(build@));
    assert(view.len() == found@.len());
    assert(view[i as int] == json::opt_json(found@[i as int]));
}

/// Whether a document reports the peaks: under each statistic's name the number
/// of its peak, where it has one, and nothing else.
pub open spec fn reports_peaks(doc: JsonView, peaks: Seq<Option<ReadingView>>) -> bool {
    &&& doc is Object
    &&& forall|i: int|
        0 <= i < 9 ==> doc.get(#[trigger] nine_names()[i]) == match peaks[i] {
            Some(peak) => Some(peak.number),
            None => None,
        }
    &&& forall|key: Seq<char>| #[trigger] doc.get(key) is Some ==> nine_names().contains(key)
}

proof fn lemma_peak_members(peaks: Seq<Option<ReadingView>>, n: nat)
    requires
        n <= 9,
    ensures
        forall|i: int|
            0 <= i < 9 ==> JsonView::Object(capture::peak_members(peaks, n)).get(
                #[trigger] nine_names()[i],
            ) == if i < n && peaks[i] is Some {
                Some(peaks[i]->0.number)
            } else {
                None
            },
        forall|key: Seq<char>| #[trigger]
            JsonView::Object(capture::peak_members(peaks, n)).get(key) is Some
                ==> nine_names().contains(key),
    decreases n,
{
    lemma_nine_names();
    if n > 0 {
        let k = n - 1;
        lemma_peak_members(peaks, k as nat);
        let before = JsonView::Object(capture::peak_members(peaks, k as nat));
        let now = JsonView::Object(capture::peak_members(peaks, n));
        assert(nine_names()[k] == capture::peak_field_text(k));
        assert forall|i: int| 0 <= i < 9 implies now.get(#[trigger] nine_names()[i]) == if i < n
            && peaks[i] is Some {
            Some(peaks[i]->0.number)
        } else {
            None
        } by {
            if i < k {
                assert(nine_names()[i] != nine_names()[k]);
            } else if i > k {
                assert(nine_names()[k] != nine_names()[i]);
            }
            assert(before.get(nine_names()[i]) == if i < k && peaks[i] is Some {
                Some(peaks[i]->0.number)
            } else {
                None
            });
        }
        assert forall|key: Seq<char>| #[trigger] now.get(key) is Some implies nine_names().contains(
            key,
        ) by {
            if key != nine_names()[k] {
                assert(before.get(key) == now.get(key));
            } else {
                assert(nine_names().contains(nine_names()[k]));
            }
        }
    }
}

/// How often a game is looked at, and how long and how often a lookup waits.
pub proof fn law_waits()
    ensures
        capture::POLL_SECS == 3,
        capture::LOOKUP_ATTEMPTS == 6,
        capture::LOOKUP_WAIT_SECS == 5,
        capture::PEAK_COUNT == 9,
{
}

/// Whether nothing is captured.
pub open spec fn nothing_captured(capture: CaptureView) -> bool {
    &&& capture.last_stats is None
    &&& capture.game_id is None
    &&& !capture.was_in_game
    &&& capture.peaks.len() == 9
    &&& forall|i: int| 0 <= i < 9 ==> (#[trigger] capture.peaks[i]) is None
}

/// A capture starts with nothing.
pub proof fn law_capture_starts_with_nothing(capture: LiveCapture)
    requires
        call_ensures(LiveCapture::new, (), capture),
    ensures
        nothing_captured(capture@),
{
}

/// An id that the client tells is kept, and nothing else changes; where it
/// tells none, nothing does.
pub proof fn law_told_id_is_kept(
    capture: &mut LiveCapture,
    told: Result<Option<i64>, LcuError>,
)
    requires
        call_ensures(LiveCapture::note_game_id, (capture, told), ()),
    ensures
        told matches Ok(Some(id)) ==> final(capture)@ == (CaptureView {
            game_id: Some(id),
            ..old(capture)@
        }),
        !(told matches Ok(Some(_))) ==> final(capture)@ == old(capture)@,
{
}

/// Without a game under way, one that was seen has ended, under the id that was
/// told or under none; where none was seen there is nothing to do, and an id
/// that was told is forgotten.
pub proof fn law_seen_game_has_ended(capture: &mut LiveCapture, over: GameOver)
    requires
        call_ensures(LiveCapture::out_of_game, (capture,), over),
    ensures
        !old(capture)@.was_in_game ==> over is Idle && final(capture)@ == (CaptureView {
            game_id: None,
            ..old(capture)@
        }),
        old(capture)@.was_in_game ==> final(capture)@ == old(capture)@ && match old(
            capture,
        )@.game_id {
            Some(game_id) => over == (GameOver::Ended { game_id }),
            None => over is EndedUnknown,
        },
{
}

/// Whether an entry of a queue has just been made.
pub open spec fn fresh_entry(entry: EntryView, id: int) -> bool {
    entry.id == id && entry.permanent_failures == 0 && entry.last_error is None
}

/// The end of a game queues its snapshot, with the build as last seen and the
/// peaks, unless the queue has one of the game; and then the game as pending,
/// unless it is synced or the queue reports it. What was queued stays, and
/// nothing that was captured remains. Without an id or a build nothing is
/// queued.
pub proof fn law_end_of_a_game(
    capture: &mut LiveCapture,
    s: &mut AppState,
    game_id: Option<i64>,
    sync_due: bool,
    queue: Outbox,
    reported: bool,
    captured: bool,
)
    requires
        call_ensures(LiveCapture::finish_game, (capture, s, game_id), sync_due),
        old(capture)@.peaks.len() == 9,
        old(s).outbox@.next_id + 2 <= u64::MAX,
        queue@ == old(s).outbox@,
        game_id is Some ==> call_ensures(
            Outbox::has_match_for,
            (&queue, game_id->0),
            reported,
        ) && call_ensures(Outbox::has_snapshot_for, (&queue, game_id->0), captured),
    ensures
        sync_due <==> old(capture)@.last_stats is Some && game_id is Some,
        nothing_captured(final(capture)@),
        final(s).config == old(s).config && final(s).token == old(s).token,
        final(s).summoner == old(s).summoner && final(s).lcu_connected == old(s).lcu_connected,
        final(s).update_required == old(s).update_required,
        final(s).backfilled_lcu == old(s).backfilled_lcu,
        final(s).last_error == old(s).last_error,
        !sync_due ==> final(s).outbox == old(s).outbox,
        sync_due ==> {
            let n = old(s).outbox@.entries.len() as int;
            let id = game_id->0;
            let known = old(s).config.synced_ids@.contains(id) || reported;
            let shots: int = if captured {
                0
            } else {
                1
            };
            let games: int = if known {
                0
            } else {
                1
            };
            let after = final(s).outbox@;
            &&& after.entries.len() == n + shots + games
            &&& after.next_id == old(s).outbox@.next_id + shots + games
            &&& after.entries.take(n) == old(s).outbox@.entries
            &&& !captured ==> fresh_entry(after.entries[n], old(s).outbox@.next_id as int) && (
            after.entries[n].item matches ItemView::Snapshot { game_id: g, champion_stats, peak }
                && g == id && champion_stats == old(capture)@.last_stats->0 && reports_peaks(
                peak,
                old(capture)@.peaks,
            ))
            &&& !known ==> fresh_entry(
                after.entries[n + shots],
                old(s).outbox@.next_id + shots,
            ) && after.entries[n + shots].item == (ItemView::PendingMatch { game_id: id })
            &&& !(captured && known) ==> final(s).outbox.save_due()
        },
{
    lemma_peak_members(old(capture)@.peaks, 9);
    if sync_due {
        let id = game_id->0;
        let before = old(s).outbox@;
        let n = before.entries.len() as int;
        let peak = JsonView::Object(capture::peak_members(old(capture)@.peaks, 9));
        assert(reports_peaks(peak, old(capture)@.peaks));
        let shot = ItemView::Snapshot {
            game_id: id,
            champion_stats: old(capture)@.last_stats->0,
            peak,
        };
        let middle = if captured {
            before
        } else {
            before.pushed(shot)
        };
        assert(middle.has_match_for(id) <==> reported) by {
            queue_laws::lemma_items(before, id);
            queue_laws::lemma_items(middle, id);
            if reported {
                let i = choose|i: int|
                    0 <= i < n && (#[trigger] before.entries[i]).item.is_match_for(id);
                assert(middle.entries[i] == before.entries[i]);
            }
            if middle.has_match_for(id) {
                let i = choose|i: int|
                    0 <= i < middle.entries.len() && (
                    #[trigger] middle.entries[i]).item.is_match_for(id);
                assert(i < n);
                assert(middle.entries[i] == before.entries[i]);
            }
        }
        assert(final(s).outbox@.entries.take(n) =~= before.entries);
        if captured && !(old(s).config.synced_ids@.contains(id) || reported) {
            assert(final(s).outbox@.entries.len() != before.entries.len());
        }
    }
}

/// A lookup starts without an attempt and counts each; it finds the newest
/// listed game of ARAM: Mayhem, and else looks again until the sixth attempt.
pub proof fn law_lookup_tries_six_times(
    start: GameIdLookup,
    lookup: &mut GameIdLookup,
    games: Result<Vec<Json>, LcuError>,
    step: LookupStep,
    list: Vec<Json>,
    newest: Option<i64>,
)
    requires
        call_ensures(GameIdLookup::new, (), start),
        call_ensures(GameIdLookup::resolve_game_id, (lookup, games), step),
        games matches Ok(page) ==> page == list,
        call_ensures(lcu::get_newest_mayhem_game_id, (&list,), newest),
    ensures
        start.attempts == 0,
        final(lookup).attempts == old(lookup).attempts + 1,
        games is Ok && newest is Some ==> step == (LookupStep::Found { game_id: newest->0 }),
        (games is Err || newest is None) && old(lookup).attempts < 5 ==> step is Again,
        (games is Err || newest is None) && old(lookup).attempts >= 5 ==> step is GiveUp,
{
}

} // verus!
