//! The outbox: the queue of everything that still has to reach the backend.
//!
//! What is captured enters the queue before it is sent, and leaves it once the
//! backend has taken it. A transient failure keeps an entry for ever; a
//! permanent one is counted, and the entry is dropped at
//! [`MAX_PERMANENT_FAILURES`].
use crate::first;
use crate::json::{Json, JsonView};
use crate::text::{self, clone_opt};
use vstd::prelude::*;

verus! {

/// The permanent failure at which an entry is dropped.
pub const MAX_PERMANENT_FAILURES: u32 = 5;

/// What an entry of the outbox sends.
#[derive(Debug)]
pub enum OutboxItem {
    /// A game that was seen; it becomes a payload once the client tells its detail.
    PendingMatch { game_id: i64 },
    /// The complete payload of a game, ready to be posted.
    MatchPayload { game_id: i64, payload: Json },
    /// The statistics of the player's build at the end of a game and at their peak.
    Snapshot { game_id: i64, champion_stats: Json, peak: Json },
}

/// An entry of the outbox.
#[derive(Debug)]
pub struct OutboxEntry {
    pub id: u64,
    pub item: OutboxItem,
    pub permanent_failures: u32,
    pub last_error: Option<String>,
}

/// What the outbox keeps on disk.
#[derive(Debug)]
pub struct OutboxFile {
    pub next_id: u64,
    pub entries: Vec<OutboxEntry>,
}

/// The queue, and whether what it holds has yet to be written to disk.
#[derive(Debug)]
pub struct Outbox {
    file: OutboxFile,
    save_due: bool,
}

/// What an [`OutboxItem`] says.
pub enum ItemView {
    PendingMatch { game_id: i64 },
    MatchPayload { game_id: i64, payload: JsonView },
    Snapshot { game_id: i64, champion_stats: JsonView, peak: JsonView },
}

/// What an [`OutboxEntry`] says.
pub struct EntryView {
    pub id: u64,
    pub item: ItemView,
    pub permanent_failures: u32,
    pub last_error: Option<Seq<char>>,
}

/// What an [`Outbox`] holds.
pub struct OutboxView {
    pub next_id: u64,
    pub entries: Seq<EntryView>,
}

impl View for OutboxItem {
    type V = ItemView;

    open spec fn view(&self) -> ItemView {
        match self {
            OutboxItem::PendingMatch { game_id } => ItemView::PendingMatch { game_id: *game_id },
            OutboxItem::MatchPayload { game_id, payload } => ItemView::MatchPayload {
                game_id: *game_id,
                payload: payload@,
            },
            OutboxItem::Snapshot { game_id, champion_stats, peak } => ItemView::Snapshot {
                game_id: *game_id,
                champion_stats: champion_stats@,
                peak: peak@,
            },
        }
    }
}

impl View for OutboxEntry {
    type V = EntryView;

    open spec fn view(&self) -> EntryView {
        EntryView {
            id: self.id,
            item: self.item@,
            permanent_failures: self.permanent_failures,
            last_error: text::opt_text(self.last_error),
        }
    }
}

/// What a list of entries says.
pub open spec fn entries_view(entries: Seq<OutboxEntry>) -> Seq<EntryView> {
    entries.map_values(|e: OutboxEntry| e@)
}

impl View for OutboxFile {
    type V = OutboxView;

    open spec fn view(&self) -> OutboxView {
        OutboxView { next_id: self.next_id, entries: entries_view(self.entries@) }
    }
}

impl View for Outbox {
    type V = OutboxView;

    closed spec fn view(&self) -> OutboxView {
        self.file@
    }
}

impl ItemView {
    /// The game that the item is about.
    pub open spec fn game_id(self) -> i64 {
        match self {
            ItemView::PendingMatch { game_id } => game_id,
            ItemView::MatchPayload { game_id, .. } => game_id,
            ItemView::Snapshot { game_id, .. } => game_id,
        }
    }

    /// Whether the item reports a game, pending or complete.
    pub open spec fn is_match_for(self, game_id: i64) -> bool {
        !(self is Snapshot) && self.game_id() == game_id
    }

    /// Whether the item is the snapshot of a game.
    pub open spec fn is_snapshot_for(self, game_id: i64) -> bool {
        self is Snapshot && self.game_id() == game_id
    }
}

impl OutboxView {
    /// Nothing queued, nothing numbered.
    pub open spec fn empty() -> OutboxView {
        OutboxView { next_id: 0, entries: Seq::empty() }
    }

    /// The place of the first entry with an id.
    pub open spec fn place(self, id: u64) -> Option<int> {
        first::first_index(self.entries, |e: EntryView| e.id == id)
    }

    /// The queue with another item at its end.
    pub open spec fn pushed(self, item: ItemView) -> OutboxView {
        OutboxView {
            next_id: (self.next_id + 1) as u64,
            entries: self.entries.push(
                EntryView { id: self.next_id, item, permanent_failures: 0, last_error: None },
            ),
        }
    }

    /// The queue with entry `i` changed.
    pub open spec fn with_entry(self, i: int, entry: EntryView) -> OutboxView {
        OutboxView { entries: self.entries.update(i, entry), ..self }
    }

    /// The queue with the item of the entry `id` replaced.
    pub open spec fn replaced(self, id: u64, item: ItemView) -> OutboxView {
        match self.place(id) {
            Some(i) => self.with_entry(i, EntryView { item, ..self.entries[i] }),
            None => self,
        }
    }

    /// The queue without the entries numbered `id`.
    pub open spec fn removed(self, id: u64) -> OutboxView {
        OutboxView { entries: self.entries.filter(|e: EntryView| e.id != id), ..self }
    }

    /// The queue after a permanent failure of the entry `id`.
    pub open spec fn failed_permanently(self, id: u64, err: Seq<char>) -> OutboxView {
        match self.place(id) {
            Some(i) => if self.entries[i].permanent_failures + 1 >= MAX_PERMANENT_FAILURES {
                self.removed(id)
            } else {
                self.with_entry(
                    i,
                    EntryView {
                        permanent_failures: (self.entries[i].permanent_failures + 1) as u32,
                        last_error: Some(err),
                        ..self.entries[i]
                    },
                )
            },
            None => self,
        }
    }

    /// The queue after a transient failure of the entry `id`.
    pub open spec fn failed_transiently(self, id: u64, err: Seq<char>) -> OutboxView {
        match self.place(id) {
            Some(i) => self.with_entry(
                i,
                EntryView { last_error: Some(err), ..self.entries[i] },
            ),
            None => self,
        }
    }

    /// Whether an item reports the game, pending or complete.
    pub open spec fn has_match_for(self, game_id: i64) -> bool {
        exists|i: int|
            0 <= i < self.entries.len() && (#[trigger] self.entries[i]).item.is_match_for(game_id)
    }

    /// Whether an item is the snapshot of the game.
    pub open spec fn has_snapshot_for(self, game_id: i64) -> bool {
        exists|i: int|
            0 <= i < self.entries.len() && (#[trigger] self.entries[i]).item.is_snapshot_for(
                game_id,
            )
    }

    /// Whether one more failure of the entry `id` can be counted.
    pub open spec fn can_count(self, id: u64) -> bool {
        match self.place(id) {
            Some(i) => self.entries[i].permanent_failures < u32::MAX,
            None => true,
        }
    }
}

impl OutboxItem {
    /// The game that the item is about.
    pub fn game_id(&self) -> (id: i64)
        ensures
            id == self@.game_id(),
    {
        match self {
            OutboxItem::PendingMatch { game_id } => *game_id,
            OutboxItem::MatchPayload { game_id, .. } => *game_id,
            OutboxItem::Snapshot { game_id, .. } => *game_id,
        }
    }
}

impl Clone for OutboxItem {
    fn clone(&self) -> (copy: Self)
        ensures
            copy@ == self@,
    {
        match self {
            OutboxItem::PendingMatch { game_id } => OutboxItem::PendingMatch { game_id: *game_id },
            OutboxItem::MatchPayload { game_id, payload } => OutboxItem::MatchPayload {
                game_id: *game_id,
                payload: payload.clone(),
            },
            OutboxItem::Snapshot { game_id, champion_stats, peak } => OutboxItem::Snapshot {
                game_id: *game_id,
                champion_stats: champion_stats.clone(),
                peak: peak.clone(),
            },
        }
    }
}

impl Clone for OutboxEntry {
    fn clone(&self) -> (copy: Self)
        ensures
            copy@ == self@,
    {
        OutboxEntry {
            id: self.id,
            item: self.item.clone(),
            permanent_failures: self.permanent_failures,
            last_error: clone_opt(&self.last_error),
        }
    }
}

impl Outbox {
    /// Whether what the queue holds has yet to be written to disk.
    pub closed spec fn save_due(&self) -> bool {
        self.save_due
    }

    /// Takes up what was read from disk; an absent or broken file is an empty queue.
    pub fn load(file: Option<OutboxFile>) -> (outbox: Outbox)
        ensures
            outbox@ == match file {
                Some(file) => file@,
                None => OutboxView::empty(),
            },
            !outbox.save_due(),
    {
        let file = match file {
            Some(file) => file,
            None => {
                let file = OutboxFile { next_id: 0, entries: Vec::new() };
                assert(file@.entries =~= Seq::<EntryView>::empty());
                file
            },
        };
        Outbox { file, save_due: false }
    }

    /// What has to be written to disk.
    pub fn file(&self) -> (file: &OutboxFile)
        ensures
            file@ == self@,
    {
        &self.file
    }

    /// Tells whether a write to disk is due, and takes it as under way.
    pub fn take_save_due(&mut self) -> (due: bool)
        ensures
            due == old(self).save_due(),
            !final(self).save_due(),
            final(self)@ == old(self)@,
    {
        let due = self.save_due;
        self.save_due = false;
        due
    }

    /// The number that the next entry gets.
    pub fn next_id(&self) -> (id: u64)
        ensures
            id == self@.next_id,
    {
        self.file.next_id
    }

    /// A copy of every entry, in order.
    pub fn entries(&self) -> (copies: Vec<OutboxEntry>)
        ensures
            entries_view(copies@) == self@.entries,
    {
        let mut copies: Vec<OutboxEntry> = Vec::new();
        let mut i: usize = 0;
        while i < self.file.entries.len()
            invariant
                i <= self.file.entries.len(),
                copies.len() == i,
                forall|j: int| 0 <= j < i ==> (#[trigger] copies@[j])@ == self@.entries[j],
            decreases self.file.entries.len() - i,
        {
            copies.push(self.file.entries[i].clone());
            i = i + 1;
        }
        assert(entries_view(copies@) =~= self@.entries);
        copies
    }

    /// How many entries wait.
    pub fn len(&self) -> (n: usize)
        ensures
            n == self@.entries.len(),
    {
        self.file.entries.len()
    }

    /// Queues an item under the next number.
    pub fn push(&mut self, item: OutboxItem) -> (id: u64)
        requires
            old(self)@.next_id < u64::MAX,
        ensures
            id == old(self)@.next_id,
            final(self)@ == old(self)@.pushed(item@),
            final(self).save_due(),
    {
        let id: u64 = self.file.next_id;
        self.file.next_id = id + 1;
        let entry = OutboxEntry { id, item, permanent_failures: 0, last_error: None };
        self.file.entries.push(entry);
        self.save_due = true;
        assert(self@.entries =~= old(self)@.pushed(item@).entries);
        id
    }

    /// Whether an item reports the game, pending or complete.
    pub fn has_match_for(&self, game_id: i64) -> (found: bool)
        ensures
            found == self@.has_match_for(game_id),
    {
        let mut i: usize = 0;
        while i < self.file.entries.len()
            invariant
                i <= self.file.entries.len(),
                forall|j: int|
                    0 <= j < i ==> !(#[trigger] self@.entries[j]).item.is_match_for(game_id),
            decreases self.file.entries.len() - i,
        {
            assert(self@.entries[i as int] == self.file.entries@[i as int]@);
            let hit = match &self.file.entries[i].item {
                OutboxItem::PendingMatch { game_id: g } => *g == game_id,
                OutboxItem::MatchPayload { game_id: g, .. } => *g == game_id,
                OutboxItem::Snapshot { .. } => false,
            };
            if hit {
                return true;
            }
            i = i + 1;
        }
        false
    }

    /// Whether an item is the snapshot of the game.
    pub fn has_snapshot_for(&self, game_id: i64) -> (found: bool)
        ensures
            found == self@.has_snapshot_for(game_id),
    {
        let mut i: usize = 0;
        while i < self.file.entries.len()
            invariant
                i <= self.file.entries.len(),
                forall|j: int|
                    0 <= j < i ==> !(#[trigger] self@.entries[j]).item.is_snapshot_for(game_id),
            decreases self.file.entries.len() - i,
        {
            assert(self@.entries[i as int] == self.file.entries@[i as int]@);
            let hit = match &self.file.entries[i].item {
                OutboxItem::Snapshot { game_id: g, .. } => *g == game_id,
                _ => false,
            };
            if hit {
                return true;
            }
            i = i + 1;
        }
        false
    }

    fn find(&self, id: u64) -> (place: Option<usize>)
        ensures
            match place {
                Some(i) => self@.place(id) == Some(i as int) && i < self.file.entries@.len(),
                None => self@.place(id) is None,
            },
    {
        let ghost test = |e: EntryView| e.id == id;
        let mut i: usize = 0;
        while i < self.file.entries.len()
            invariant
                i <= self.file.entries.len(),
                test == (|e: EntryView| e.id == id),
                forall|j: int| 0 <= j < i ==> !test(#[trigger] self@.entries[j]),
            decreases self.file.entries.len() - i,
        {
            assert(self@.entries[i as int] == self.file.entries@[i as int]@);
            if self.file.entries[i].id == id {
                proof {
                    first::lemma_first_is(self@.entries, test, i as int);
                }
                return Some(i);
            }
            i = i + 1;
        }
        proof {
            first::lemma_first_none(self@.entries, test);
        }
        None
    }

    /// Whether one more failure of the entry `id` can be counted.
    pub fn can_count(&self, id: u64) -> (r: bool)
        ensures
            r == self@.can_count(id),
    {
        match self.find(id) {
            Some(i) => self.file.entries[i].permanent_failures < u32::MAX,
            None => true,
        }
    }

    /// Replaces the item of an entry, which keeps its number and its counters.
    pub fn replace_item(&mut self, id: u64, item: OutboxItem)
        ensures
            final(self)@ == old(self)@.replaced(id, item@),
            final(self).save_due(),
    {
        if let Some(i) = self.find(id) {
            self.file.entries[i].item = item;
            assert(self@.entries =~= old(self)@.replaced(id, item@).entries);
        }
        self.save_due = true;
    }

    fn retain_others(&mut self, id: u64)
        ensures
            final(self)@ == old(self)@.removed(id),
            final(self).save_due == old(self).save_due,
    {
        let ghost test = |e: EntryView| e.id != id;
        let ghost before = self@;
        let mut i: usize = 0;
        proof {
            reveal(Seq::filter);
            assert(self@.entries.take(0) =~= Seq::<EntryView>::empty());
            assert(self@.entries.skip(0) =~= self@.entries);
        }
        while i < self.file.entries.len()
            invariant
                i <= self.file.entries.len(),
                test == (|e: EntryView| e.id != id),
                self@.next_id == before.next_id,
                self.save_due == old(self).save_due,
                before.entries.filter(test) == self@.entries.take(i as int)
                    + self@.entries.skip(i as int).filter(test),
            decreases self.file.entries.len() - i,
        {
            let ghost now = self@.entries;
            let ghost rest = now.skip(i as int);
            assert(now[i as int] == self.file.entries@[i as int]@);
            proof {
                assert(rest =~= seq![now[i as int]] + now.skip(i + 1));
                Seq::filter_distributes_over_add(seq![now[i as int]], now.skip(i + 1), test);
                lemma_filter_one(now[i as int], test);
            }
            if self.file.entries[i].id == id {
                let _ = self.file.entries.remove(i);
                assert(self@.entries =~= now.remove(i as int));
                assert(self@.entries.take(i as int) =~= now.take(i as int));
                assert(self@.entries.skip(i as int) =~= now.skip(i + 1));
                assert(seq![now[i as int]].filter(test) + now.skip(i + 1).filter(test)
                    =~= now.skip(i + 1).filter(test));
            } else {
                assert(now.take(i as int) + (seq![now[i as int]] + now.skip(i + 1).filter(test))
                    =~= now.take(i + 1) + now.skip(i + 1).filter(test));
                i = i + 1;
            }
        }
        proof {
            reveal(Seq::filter);
            assert(self@.entries.skip(i as int) =~= Seq::<EntryView>::empty());
            assert(self@.entries.take(i as int) =~= self@.entries);
            assert(self@.entries =~= before.entries.filter(test));
        }
    }

    /// Takes an entry out of the queue.
    pub fn remove(&mut self, id: u64)
        ensures
            final(self)@ == old(self)@.removed(id),
            final(self).save_due(),
    {
        self.retain_others(id);
        self.save_due = true;
    }

    /// Counts a permanent failure, and drops the entry at the limit.
    pub fn record_permanent_failure(&mut self, id: u64, err: &str)
        requires
            old(self)@.can_count(id),
        ensures
            final(self)@ == old(self)@.failed_permanently(id, err@),
            final(self).save_due(),
    {
        if let Some(i) = self.find(id) {
            let failures: u32 = self.file.entries[i].permanent_failures + 1;
            if failures >= MAX_PERMANENT_FAILURES {
                self.retain_others(id);
            } else {
                self.file.entries[i].permanent_failures = failures;
                self.file.entries[i].last_error = Some(err.to_string());
                assert(self@.entries =~= old(self)@.failed_permanently(id, err@).entries);
            }
        }
        self.save_due = true;
    }

    /// Notes a transient failure; the entry stays.
    pub fn record_transient_failure(&mut self, id: u64, err: &str)
        ensures
            final(self)@ == old(self)@.failed_transiently(id, err@),
            final(self).save_due(),
    {
        if let Some(i) = self.find(id) {
            self.file.entries[i].last_error = Some(err.to_string());
            assert(self@.entries =~= old(self)@.failed_transiently(id, err@).entries);
        }
        self.save_due = true;
    }
}

/// A sequence of one item keeps it or loses it.
proof fn lemma_filter_one<A>(a: A, test: spec_fn(A) -> bool)
    ensures
        test(a) ==> seq![a].filter(test) == seq![a],
        !test(a) ==> seq![a].filter(test) == Seq::<A>::empty(),
{
    reveal(Seq::filter);
    assert(seq![a].drop_last() =~= Seq::<A>::empty());
    assert(Seq::<A>::empty().filter(test) =~= Seq::<A>::empty());
    assert(Seq::<A>::empty().push(a) =~= seq![a]);
}

} // verus!
