//! The catalog: song records in the order in which they were added.

use vstd::prelude::*;
use crate::search::{lemma_selected_push, selected, Filters};
use crate::song::{copy_songs, played, views_of, NewSongView, Song, SongView};

verus! {

/// The record that a catalog holding `catalog` creates for `entry`: it gets
/// the next number and has not been played.
pub open spec fn new_record(catalog: Seq<SongView>, entry: NewSongView) -> SongView {
    SongView {
        id: catalog.len() + 1,
        title: entry.title,
        artist: entry.artist,
        genre: entry.genre,
        play_count: 0,
    }
}

/// The catalog after a record for `entry` was added.
pub open spec fn with_added(catalog: Seq<SongView>, entry: NewSongView) -> Seq<SongView> {
    catalog.push(new_record(catalog, entry))
}

/// The catalog after a record was added for each of `entries`, in their
/// order.
pub open spec fn after_adds(catalog: Seq<SongView>, entries: Seq<NewSongView>) -> Seq<SongView>
    decreases entries.len(),
{
    if entries.len() == 0 {
        catalog
    } else {
        with_added(after_adds(catalog, entries.drop_last()), entries.last())
    }
}

/// `id` names a record of `catalog`: records are addressed by their
/// position, counted from one.
pub open spec fn holds(catalog: Seq<SongView>, id: int) -> bool {
    1 <= id <= catalog.len()
}

/// The catalog after one play of record `id`: the record at that position
/// has one play more, and nothing else differs.  Where the catalog holds no
/// record `id`, it is unchanged.
pub open spec fn with_play(catalog: Seq<SongView>, id: int) -> Seq<SongView> {
    if holds(catalog, id) {
        catalog.update(id - 1, played(catalog[id - 1]))
    } else {
        catalog
    }
}

/// Every record carries its position, counted from one, as its number.
pub open spec fn numbered(catalog: Seq<SongView>) -> bool {
    forall|i: int| 0 <= i < catalog.len() ==> (#[trigger] catalog[i]).id == i + 1
}

/// One of the two ways in which a catalog changes.
pub enum Change {
    /// A record for the entry is added.
    Add(NewSongView),
    /// A play of the record with the number is counted.
    Play(int),
}

/// The catalog after one change.
pub open spec fn with_change(catalog: Seq<SongView>, change: Change) -> Seq<SongView> {
    match change {
        Change::Add(entry) => with_added(catalog, entry),
        Change::Play(id) => with_play(catalog, id),
    }
}

/// The catalog after the changes, in their order.
pub open spec fn after_changes(catalog: Seq<SongView>, changes: Seq<Change>) -> Seq<SongView>
    decreases changes.len(),
{
    if changes.len() == 0 {
        catalog
    } else {
        with_change(after_changes(catalog, changes.drop_last()), changes.last())
    }
}

/// An ordered collection of song records.
pub struct Catalog {
    songs: Vec<Song>,
}

impl View for Catalog {
    type V = Seq<SongView>;

    closed spec fn view(&self) -> Seq<SongView> {
        views_of(self.songs@)
    }
}

impl Catalog {
    /// One more play of record `id` can be counted: the record is absent, or
    /// its counter is below the largest machine integer.
    pub open spec fn has_room(&self, id: int) -> bool {
        holds(self@, id) ==> self@[id - 1].play_count < usize::MAX
    }

    /// The empty catalog.
    pub fn new() -> (catalog: Catalog)
        ensures
            catalog@ == Seq::<SongView>::empty(),
    {
        Catalog { songs: Vec::new() }
    }

    /// The catalog that holds the given records in the given order, as they
    /// are.
    pub fn from_records(songs: Vec<Song>) -> (catalog: Catalog)
        ensures
            catalog@ == views_of(songs@),
    {
        Catalog { songs }
    }

    /// The catalog with which the service starts: the records of the last
    /// snapshot where one could be read, and no record where none could.
    pub fn restore(snapshot: Option<Vec<Song>>) -> (catalog: Catalog)
        ensures
            catalog@ == match snapshot {
                Some(songs) => views_of(songs@),
                None => Seq::empty(),
            },
    {
        match snapshot {
            Some(songs) => Catalog::from_records(songs),
            None => Catalog::new(),
        }
    }

    /// A copy of every record, in catalog order: what a snapshot holds.
    pub fn records(&self) -> (songs: Vec<Song>)
        ensures
            views_of(songs@) == self@,
    {
        copy_songs(&self.songs)
    }

    /// The number of records.
    pub fn len(&self) -> (n: usize)
        ensures
            n == self@.len(),
    {
        self.songs.len()
    }

    /// Appends a record for the given fields and returns a copy of it.
    pub fn add(&mut self, title: String, artist: String, genre: String) -> (song: Song)
        requires
            old(self)@.len() < usize::MAX,
        ensures
            song@ == new_record(
                old(self)@,
                NewSongView { title: title@, artist: artist@, genre: genre@ },
            ),
            final(self)@ == with_added(
                old(self)@,
                NewSongView { title: title@, artist: artist@, genre: genre@ },
            ),
    {
        let song = Song { id: self.songs.len() + 1, title, artist, genre, play_count: 0 };
        let copy = song.clone();
        self.songs.push(song);
        copy
    }

    /// A copy of every record that passes the filters, in catalog order.
    pub fn search(&self, filters: &Filters) -> (found: Vec<Song>)
        ensures
            views_of(found@) == selected(self@, filters@),
    {
        let lowered = filters.folded();
        let mut found: Vec<Song> = Vec::new();
        let mut i: usize = 0;
        assert(self@.take(0) =~= Seq::<SongView>::empty());
        assert(selected(Seq::<SongView>::empty(), filters@) =~= Seq::<SongView>::empty()) by {
            reveal(Seq::filter);
        }
        while i < self.songs.len()
            invariant
                i <= self.songs.len(),
                lowered@ == filters@.folded(),
                self@ == views_of(self.songs@),
                views_of(found@) == selected(self@.take(i as int), filters@),
            decreases self.songs.len() - i,
        {
            let song = &self.songs[i];
            proof {
                lemma_selected_push(self@.take(i as int), song@, filters@);
                assert(self@.take(i as int).push(song@) =~= self@.take(i + 1));
            }
            if lowered.accepts_folded(song) {
                let copy = song.clone();
                assert(views_of(found@.push(copy)) =~= views_of(found@).push(copy@));
                found.push(copy);
            }
            i += 1;
        }
        assert(self@.take(self.songs.len() as int) =~= self@);
        found
    }

    /// Whether one more play of record `id` can be counted.
    pub fn play_fits(&self, id: usize) -> (fits: bool)
        ensures
            fits == self.has_room(id as int),
    {
        if 1 <= id && id <= self.songs.len() {
            self.songs[id - 1].play_count < usize::MAX
        } else {
            true
        }
    }

    /// Counts one play of record `id` and returns a copy of the updated
    /// record.  Where the catalog holds no record `id`, nothing changes and
    /// nothing is returned.
    pub fn increment_play(&mut self, id: usize) -> (updated: Option<Song>)
        requires
            old(self).has_room(id as int),
        ensures
            final(self)@ == with_play(old(self)@, id as int),
            match updated {
                Some(song) => holds(old(self)@, id as int) && song@ == played(old(self)@[id - 1]),
                None => !holds(old(self)@, id as int),
            },
    {
        if id < 1 || id > self.songs.len() {
            return None;
        }
        let at: usize = id - 1;
        self.songs[at].play_count += 1;
        Some(self.songs[at].clone())
    }
}

/// Adding numbers the records consecutively.  After a record was added for
/// each of `entries`, the catalog has as many records more; those it had
/// are as they were; the new ones carry the submitted fields, no plays, and
/// their position, counted from one, as their number.
pub proof fn lemma_adds_extend(catalog: Seq<SongView>, entries: Seq<NewSongView>)
    ensures
        after_adds(catalog, entries).len() == catalog.len() + entries.len(),
        forall|i: int|
            0 <= i < catalog.len() ==> (#[trigger] after_adds(catalog, entries)[i]) == catalog[i],
        forall|k: int|
            0 <= k < entries.len() ==> {
                let added = #[trigger] after_adds(catalog, entries)[catalog.len() + k];
                &&& added.id == catalog.len() + k + 1
                &&& added.title == entries[k].title
                &&& added.artist == entries[k].artist
                &&& added.genre == entries[k].genre
                &&& added.play_count == 0
            },
    decreases entries.len(),
{
    if entries.len() > 0 {
        lemma_adds_extend(catalog, entries.drop_last());
    }
}

/// However many songs are added to an empty catalog, and in whatever order
/// they arrive, the catalog then holds one record for each, and their
/// numbers are 1, 2, ... without a gap and without a repeat.
pub proof fn lemma_adds_from_empty(entries: Seq<NewSongView>)
    ensures
        after_adds(Seq::empty(), entries).len() == entries.len(),
        numbered(after_adds(Seq::empty(), entries)),
        forall|i: int, j: int|
            #![trigger after_adds(Seq::empty(), entries)[i], after_adds(Seq::empty(), entries)[j]]
            0 <= i < j < entries.len() ==> after_adds(Seq::empty(), entries)[i].id != after_adds(
                Seq::empty(),
                entries,
            )[j].id,
{
    lemma_adds_extend(Seq::empty(), entries);
    let all = after_adds(Seq::empty(), entries);
    assert forall|i: int| 0 <= i < all.len() implies (#[trigger] all[i]).id == i + 1 by {
        assert(all[0 + i].id == i + 1);
    }
}

/// In a catalog whose records carry their positions as numbers, no two
/// records have the same number.
pub proof fn lemma_numbers_differ(catalog: Seq<SongView>, i: int, j: int)
    requires
        numbered(catalog),
        0 <= i < catalog.len(),
        0 <= j < catalog.len(),
        i != j,
    ensures
        catalog[i].id != catalog[j].id,
{
}

/// A play changes one counter and nothing else: the catalog keeps its
/// length, every record keeps its number and its texts, and every record
/// but the one played keeps its count.
pub proof fn lemma_play_touches_one_count(catalog: Seq<SongView>, id: int)
    ensures
        with_play(catalog, id).len() == catalog.len(),
        forall|i: int|
            0 <= i < catalog.len() ==> {
                let before = catalog[i];
                let after = #[trigger] with_play(catalog, id)[i];
                &&& after.id == before.id
                &&& after.title == before.title
                &&& after.artist == before.artist
                &&& after.genre == before.genre
                &&& after.play_count == if i == id - 1 {
                    before.play_count + 1
                } else {
                    before.play_count
                }
            },
        numbered(catalog) ==> numbered(with_play(catalog, id)),
{
}

/// A play of a record that the catalog does not hold changes nothing.
pub proof fn lemma_play_outside_changes_nothing(catalog: Seq<SongView>, id: int)
    requires
        id < 1 || id > catalog.len(),
    ensures
        with_play(catalog, id) == catalog,
{
}

/// Records last and keep what identifies them.  Whatever adds and plays a
/// catalog goes through, it loses no record; every record it had keeps its
/// position, its number and its texts, and its count does not go down.  If
/// its records carried their positions as numbers before, they all do
/// after.
pub proof fn lemma_changes_keep_records(catalog: Seq<SongView>, changes: Seq<Change>)
    ensures
        after_changes(catalog, changes).len() >= catalog.len(),
        forall|i: int|
            0 <= i < catalog.len() ==> {
                let before = catalog[i];
                let after = #[trigger] after_changes(catalog, changes)[i];
                &&& after.id == before.id
                &&& after.title == before.title
                &&& after.artist == before.artist
                &&& after.genre == before.genre
                &&& after.play_count >= before.play_count
            },
        numbered(catalog) ==> numbered(after_changes(catalog, changes)),
    decreases changes.len(),
{
    if changes.len() > 0 {
        let earlier = after_changes(catalog, changes.drop_last());
        lemma_changes_keep_records(catalog, changes.drop_last());
        match changes.last() {
            Change::Add(entry) => {},
            Change::Play(id) => {
                lemma_play_touches_one_count(earlier, id);
            },
        }
        assert forall|i: int| 0 <= i < catalog.len() implies {
            let before = catalog[i];
            let after = #[trigger] after_changes(catalog, changes)[i];
            &&& after.id == before.id
            &&& after.title == before.title
            &&& after.artist == before.artist
            &&& after.genre == before.genre
            &&& after.play_count >= before.play_count
        } by {
            let mid = earlier[i];
            let after = with_change(earlier, changes.last())[i];
            assert(after.id == mid.id && after.title == mid.title && after.artist == mid.artist
                && after.genre == mid.genre && after.play_count >= mid.play_count);
        }
    }
}

} // verus!
