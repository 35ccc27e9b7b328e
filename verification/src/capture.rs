//! The live capture: what a game of ARAM: Mayhem leaves behind.
//!
//! While a game is under way the build of the player is kept, and the highest
//! value of each of its statistics. When the game is over, a snapshot of both
//! and the game itself enter the outbox, whether or not there is a session.
use crate::json::{self, put, Json, JsonView};
use crate::lcu::{self, get_newest_mayhem_game_id, LcuError};
use crate::outbox::{ItemView, OutboxItem, OutboxView};
use crate::state::AppState;
use vstd::prelude::*;

verus! {

/// How long to wait between two looks at the game, in seconds.
pub const POLL_SECS: u64 = 3;

/// How often the history is asked for a game whose id is not known.
pub const LOOKUP_ATTEMPTS: u32 = 6;

/// How long to wait after an attempt that found nothing, in seconds.
pub const LOOKUP_WAIT_SECS: u64 = 5;

/// How many statistics of the build have their peak kept.
pub const PEAK_COUNT: usize = 9;

/// The names of the statistics whose peak is kept.
pub open spec fn peak_field_text(i: int) -> Seq<char> {
    if i == 0 {
        "attackDamage"@
    } else if i == 1 {
        "abilityPower"@
    } else if i == 2 {
        "armor"@
    } else if i == 3 {
        "magicResist"@
    } else if i == 4 {
        "maxHealth"@
    } else if i == 5 {
        "attackSpeed"@
    } else if i == 6 {
        "moveSpeed"@
    } else if i == 7 {
        "lifeSteal"@
    } else {
        "omnivamp"@
    }
}

/// The names of the statistics whose peak is kept.
pub fn peak_field(i: usize) -> (field: &'static str)
    requires
        i < PEAK_COUNT,
    ensures
        field@ == peak_field_text(i as int),
{
    match i {
        0 => "attackDamage",
        1 => "abilityPower",
        2 => "armor",
        3 => "magicResist",
        4 => "maxHealth",
        5 => "attackSpeed",
        6 => "moveSpeed",
        7 => "lifeSteal",
        _ => "omnivamp",
    }
}

/// A statistic at one moment: the number, and the bits of its IEEE 754 double,
/// by which it is ordered.
#[derive(Debug)]
pub struct Reading {
    pub bits: u64,
    pub number: Json,
}

/// What a [`Reading`] says.
pub struct ReadingView {
    pub bits: u64,
    pub number: JsonView,
}

impl View for Reading {
    type V = ReadingView;

    open spec fn view(&self) -> ReadingView {
        ReadingView { bits: self.bits, number: self.number@ }
    }
}

/// The rank of a double among all that are numbers: the top bit is the sign,
/// the others grow with the magnitude, and the two zeros rank the same.
pub open spec fn rank(bits: u64) -> int {
    if bits < 0x8000_0000_0000_0000 {
        bits as int
    } else {
        0x8000_0000_0000_0000 - bits
    }
}

/// What optional readings say.
pub open spec fn opt_reading(reading: Option<Reading>) -> Option<ReadingView> {
    match reading {
        Some(reading) => Some(reading@),
        None => None,
    }
}

/// What a list of optional readings says.
pub open spec fn readings_view(readings: Seq<Option<Reading>>) -> Seq<Option<ReadingView>> {
    readings.map_values(|r: Option<Reading>| opt_reading(r))
}

/// The peak after another reading: the new one, where it ranks above the old.
pub open spec fn higher(peak: Option<ReadingView>, new: Option<ReadingView>) -> Option<
    ReadingView,
> {
    match (peak, new) {
        (Some(p), Some(n)) => if rank(n.bits) > rank(p.bits) {
            Some(n)
        } else {
            Some(p)
        },
        (None, new) => new,
        (peak, None) => peak,
    }
}

/// The peaks after another round of readings; a reading that is missing
/// changes nothing.
pub open spec fn higher_all(
    peaks: Seq<Option<ReadingView>>,
    new: Seq<Option<ReadingView>>,
) -> Seq<Option<ReadingView>> {
    Seq::new(
        peaks.len(),
        |i: int|
            higher(
                peaks[i],
                if i < new.len() {
                    new[i]
                } else {
                    None
                },
            ),
    )
}

/// The first `n` peaks as members of an object.
pub open spec fn peak_members(peaks: Seq<Option<ReadingView>>, n: nat) -> Map<Seq<char>, JsonView>
    decreases n,
{
    if n == 0 {
        Map::empty()
    } else {
        let before = peak_members(peaks, (n - 1) as nat);
        match peaks[n - 1] {
            Some(reading) => before.insert(peak_field_text(n - 1), reading.number),
            None => before,
        }
    }
}

/// What was captured so far.
#[derive(Debug)]
pub struct LiveCapture {
    last_stats: Option<Json>,
    peaks: Vec<Option<Reading>>,
    game_id: Option<i64>,
    was_in_game: bool,
}

/// What a [`LiveCapture`] holds.
pub struct CaptureView {
    /// The build, as last seen.
    pub last_stats: Option<JsonView>,
    /// The highest reading of each statistic.
    pub peaks: Seq<Option<ReadingView>>,
    /// The game under way, where the client told.
    pub game_id: Option<i64>,
    /// Whether a game was seen that is not over.
    pub was_in_game: bool,
}

/// What is to be done when no game of ARAM: Mayhem is under way.
#[derive(Debug, Clone, Copy)]
pub enum GameOver {
    /// None was: nothing.
    Idle,
    /// One has ended, with this id.
    Ended { game_id: i64 },
    /// One has ended, and its id has to be looked for.
    EndedUnknown,
}

impl View for LiveCapture {
    type V = CaptureView;

    closed spec fn view(&self) -> CaptureView {
        CaptureView {
            last_stats: json::opt_json(self.last_stats),
            peaks: readings_view(self.peaks@),
            game_id: self.game_id,
            was_in_game: self.was_in_game,
        }
    }
}

/// No reading of any statistic.
pub open spec fn no_peaks() -> Seq<Option<ReadingView>> {
    Seq::new(PEAK_COUNT as nat, |i: int| None)
}

impl CaptureView {
    /// Nothing captured.
    pub open spec fn empty() -> CaptureView {
        CaptureView { last_stats: None, peaks: no_peaks(), game_id: None, was_in_game: false }
    }

    /// The capture after a look at a game under way.
    pub open spec fn seen(
        self,
        stats: Option<JsonView>,
        readings: Seq<Option<ReadingView>>,
    ) -> CaptureView {
        match stats {
            Some(stats) => CaptureView {
                last_stats: Some(stats),
                peaks: higher_all(self.peaks, readings),
                game_id: self.game_id,
                was_in_game: true,
            },
            None => self,
        }
    }

    /// The capture after the client spoke of the game under way.
    pub open spec fn told(self, id: Option<i64>) -> CaptureView {
        match id {
            Some(id) => CaptureView { game_id: Some(id), ..self },
            None => self,
        }
    }

    /// What is to be done when no game is under way.
    pub open spec fn over(self) -> GameOver {
        if !self.was_in_game {
            GameOver::Idle
        } else {
            match self.game_id {
                Some(game_id) => GameOver::Ended { game_id },
                None => GameOver::EndedUnknown,
            }
        }
    }

    /// The capture after a look that found no game under way: the id of a game
    /// of which no build was seen is forgotten.
    pub open spec fn left(self) -> CaptureView {
        if !self.was_in_game {
            CaptureView { game_id: None, ..self }
        } else {
            self
        }
    }
}

/// What the end of a game leaves in the queue: its snapshot and the game, each
/// unless it is there; a game that the backend has taken is not queued again.
pub open spec fn game_queued(
    outbox: OutboxView,
    synced: Set<i64>,
    game_id: i64,
    stats: JsonView,
    peak: JsonView,
) -> OutboxView {
    let with_snapshot = if outbox.has_snapshot_for(game_id) {
        outbox
    } else {
        outbox.pushed(ItemView::Snapshot { game_id, champion_stats: stats, peak })
    };
    if synced.contains(game_id) || with_snapshot.has_match_for(game_id) {
        with_snapshot
    } else {
        with_snapshot.pushed(ItemView::PendingMatch { game_id })
    }
}

/// The statistics of a build whose peak is kept, each where the build has it.
pub open spec fn peak_candidates_view(stats: JsonView) -> Seq<Option<JsonView>> {
    Seq::new(PEAK_COUNT as nat, |i: int| stats.get(peak_field_text(i)))
}

/// Picks the statistics of a build whose peak is kept.
pub fn peak_candidates(stats: &Json) -> (found: Vec<Option<Json>>)
    ensures
        found@.map_values(|c: Option<Json>| json::opt_json(c)) == peak_candidates_view(stats@),
{
    let mut found: Vec<Option<Json>> = Vec::new();
    let mut i: usize = 0;
    while i < PEAK_COUNT
        invariant
            i <= PEAK_COUNT,
            found.len() == i,
            forall|j: int|
                0 <= j < i ==> json::opt_json(#[trigger] found@[j]) == stats@.get(
                    peak_field_text(j),
                ),
        decreases PEAK_COUNT - i,
    {
        let candidate = match stats.get(peak_field(i)) {
            Some(member) => Some(member.clone()),
            None => None,
        };
        found.push(candidate);
        i = i + 1;
    }
    assert(found@.map_values(|c: Option<Json>| json::opt_json(c)) =~= peak_candidates_view(
        stats@,
    ));
    found
}

fn ranks_above(a: u64, b: u64) -> (r: bool)
    ensures
        r == (rank(a) > rank(b)),
{
    let top: u64 = 0x8000_0000_0000_0000;
    if a < top {
        if b < top {
            a > b
        } else {
            a > 0 || b > top
        }
    } else {
        if b < top {
            false
        } else {
            a < b
        }
    }
}

fn fresh_peaks() -> (peaks: Vec<Option<Reading>>)
    ensures
        readings_view(peaks@) == no_peaks(),
{
    let mut peaks: Vec<Option<Reading>> = Vec::new();
    let mut i: usize = 0;
    while i < PEAK_COUNT
        invariant
            i <= PEAK_COUNT,
            peaks.len() == i,
            forall|j: int| 0 <= j < i ==> (#[trigger] peaks@[j]) is None,
        decreases PEAK_COUNT - i,
    {
        peaks.push(None);
        i = i + 1;
    }
    assert(readings_view(peaks@) =~= no_peaks());
    peaks
}

impl LiveCapture {
    #[verifier::type_invariant]
    spec fn has_all_peaks(self) -> bool {
        self.peaks@.len() == PEAK_COUNT
    }

    /// Nothing captured.
    pub fn new() -> (capture: LiveCapture)
        ensures
            capture@ == CaptureView::empty(),
    {
        let peaks = fresh_peaks();
        assert(peaks@.len() == readings_view(peaks@).len());
        LiveCapture { last_stats: None, peaks, game_id: None, was_in_game: false }
    }

    /// Takes a look at a game under way: the build, where it could be read,
    /// and its readings. Says whether the id of the game is still wanted.
    pub fn in_game(&mut self, stats: Option<Json>, readings: Vec<Option<Reading>>) -> (wants_id:
        bool)
        ensures
            final(self)@ == old(self)@.seen(json::opt_json(stats), readings_view(readings@)),
            wants_id == (old(self)@.game_id is None),
    {
        proof {
            use_type_invariant(&*self);
        }
        if let Some(stats) = stats {
            let ghost before = self@.peaks;
            let ghost all = readings_view(readings@);
            let mut peaks: Vec<Option<Reading>> = fresh_peaks();
            assert(peaks@.len() == readings_view(peaks@).len());
            std::mem::swap(&mut peaks, &mut self.peaks);
            assert(readings_view(peaks@) == before);
            let n: usize = readings.len();
            let mut i: usize = 0;
            for reading in it: readings
                invariant
                    i == it.index(),
                    it.seq() == readings@,
                    n == readings@.len(),
                    all == readings_view(readings@),
                    peaks@.len() == PEAK_COUNT,
                    before.len() == PEAK_COUNT,
                    forall|j: int|
                        0 <= j < PEAK_COUNT ==> opt_reading(#[trigger] peaks@[j]) == if j < i {
                            higher(before[j], all[j])
                        } else {
                            before[j]
                        },
            {
                assert(all[i as int] == opt_reading(reading));
                if i < PEAK_COUNT {
                    if let Some(new) = reading {
                        let replace = match &peaks[i] {
                            Some(peak) => ranks_above(new.bits, peak.bits),
                            None => true,
                        };
                        if replace {
                            peaks[i] = Some(new);
                        }
                    }
                }
                i = i + 1;
            }
            assert(readings_view(peaks@) =~= higher_all(before, all));
            self.peaks = peaks;
            self.last_stats = Some(stats);
            self.was_in_game = true;
        }
        self.game_id.is_none()
    }

    /// Takes what the client said of the game under way.
    pub fn note_game_id(&mut self, told: Result<Option<i64>, LcuError>)
        ensures
            final(self)@ == old(self)@.told(
                match told {
                    Ok(id) => id,
                    Err(_) => None,
                },
            ),
    {
        proof {
            use_type_invariant(&*self);
        }
        if let Ok(Some(id)) = told {
            self.game_id = Some(id);
        }
    }

    /// What is to be done when no game of ARAM: Mayhem is under way. The id of a
    /// game of which no build was seen is forgotten, so that the next game does
    /// not get it.
    pub fn out_of_game(&mut self) -> (over: GameOver)
        ensures
            over == old(self)@.over(),
            final(self)@ == old(self)@.left(),
    {
        proof {
            use_type_invariant(&*self);
        }
        if !self.was_in_game {
            self.game_id = None;
            GameOver::Idle
        } else {
            match self.game_id {
                Some(game_id) => GameOver::Ended { game_id },
                None => GameOver::EndedUnknown,
            }
        }
    }

    fn peak_object(&self) -> (peak: Json)
        ensures
            peak@ == JsonView::Object(peak_members(self@.peaks, PEAK_COUNT as nat)),
    {
        proof {
            use_type_invariant(self);
            json::lemma_empty_views();
        }
        let mut m: Vec<(String, Json)> = Vec::new();
        let mut i: usize = 0;
        while i < PEAK_COUNT
            invariant
                i <= PEAK_COUNT,
                self.peaks@.len() == PEAK_COUNT,
                json::object_view(m@) == peak_members(self@.peaks, i as nat),
            decreases PEAK_COUNT - i,
        {
            assert(self@.peaks[i as int] == opt_reading(self.peaks@[i as int]));
            if let Some(reading) = &self.peaks[i] {
                put(&mut m, peak_field(i), reading.number.clone());
            }
            i = i + 1;
        }
        Json::Object(m)
    }

    /// Ends a game: with its id and a build, the snapshot and the game are
    /// queued. Nothing captured remains. Says whether a sync is due.
    pub fn finish_game(&mut self, s: &mut AppState, game_id: Option<i64>) -> (sync_due: bool)
        requires
            old(s).outbox@.next_id + 2 <= u64::MAX,
        ensures
            sync_due == (old(self)@.last_stats is Some && game_id is Some),
            *final(s) == (AppState { outbox: final(s).outbox, ..*old(s) }),
            final(s).outbox@ == if sync_due {
                game_queued(
                    old(s).outbox@,
                    old(s).config.synced_ids@,
                    game_id->0,
                    old(self)@.last_stats->0,
                    JsonView::Object(peak_members(old(self)@.peaks, PEAK_COUNT as nat)),
                )
            } else {
                old(s).outbox@
            },
            final(s).outbox@ != old(s).outbox@ ==> final(s).outbox.save_due(),
            final(s).outbox@ == old(s).outbox@ ==> final(s).outbox == old(s).outbox,
            final(self)@ == CaptureView::empty(),
    {
        broadcast use vstd::std_specs::hash::group_hash_axioms;

        let peak = self.peak_object();
        let mut stats: Option<Json> = None;
        proof {
            use_type_invariant(&*self);
        }
        std::mem::swap(&mut stats, &mut self.last_stats);
        let mut sync_due = false;
        if let (Some(champion_stats), Some(game_id)) = (stats, game_id) {
            if !s.outbox.has_snapshot_for(game_id) {
                s.outbox.push(OutboxItem::Snapshot { game_id, champion_stats, peak });
            }
            if !s.config.synced_ids.contains(&game_id) && !s.outbox.has_match_for(game_id) {
                s.outbox.push(OutboxItem::PendingMatch { game_id });
            }
            sync_due = true;
        }
        let peaks = fresh_peaks();
        assert(peaks@.len() == readings_view(peaks@).len());
        self.peaks = peaks;
        self.game_id = None;
        self.was_in_game = false;
        sync_due
    }
}

/// Looking through the history for a game that has just ended.
#[derive(Debug, Clone, Copy)]
pub struct GameIdLookup {
    pub attempts: u32,
}

/// What to do after a look at the history.
#[derive(Debug, Clone, Copy)]
pub enum LookupStep {
    /// The game is found.
    Found { game_id: i64 },
    /// Wait, and look again.
    Again,
    /// Wait, and take the game as lost.
    GiveUp,
}

/// What to do after a look at the history with so many looks before it: only a
/// game of ARAM: Mayhem ends the wait, since the newest game of another queue was
/// played before the one that has just ended.
pub open spec fn lookup_step(looks: u32, games: Result<Seq<JsonView>, LcuError>) -> LookupStep {
    let found = match games {
        Ok(games) => lcu::newest_mayhem_id(games),
        Err(_) => None,
    };
    match found {
        Some(game_id) => LookupStep::Found { game_id },
        None => if looks + 1 < LOOKUP_ATTEMPTS {
            LookupStep::Again
        } else {
            LookupStep::GiveUp
        },
    }
}

impl GameIdLookup {
    /// Before the first look.
    pub fn new() -> (lookup: GameIdLookup)
        ensures
            lookup.attempts == 0,
    {
        GameIdLookup { attempts: 0 }
    }

    /// Takes a look at the history.
    pub fn resolve_game_id(&mut self, games: Result<Vec<Json>, LcuError>) -> (step: LookupStep)
        requires
            old(self).attempts < LOOKUP_ATTEMPTS,
        ensures
            final(self).attempts == old(self).attempts + 1,
            step == lookup_step(old(self).attempts, lcu::games_view(games)),
    {
        self.attempts = self.attempts + 1;
        let found = match &games {
            Ok(games) => get_newest_mayhem_game_id(games),
            Err(_) => None,
        };
        match found {
            Some(game_id) => LookupStep::Found { game_id },
            None => if self.attempts < LOOKUP_ATTEMPTS {
                LookupStep::Again
            } else {
                LookupStep::GiveUp
            },
        }
    }
}

} // verus!
