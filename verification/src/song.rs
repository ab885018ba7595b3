//! Song records and the values from which they are made.

use vstd::prelude::*;

verus! {

/// A song record as the catalog holds it.
#[derive(Debug, PartialEq, Eq)]
pub struct Song {
    /// The number the catalog gave the record when it was added.
    pub id: usize,
    pub title: String,
    pub artist: String,
    pub genre: String,
    /// How often the song was played.
    pub play_count: usize,
}

/// The mathematical value of a [`Song`].
pub struct SongView {
    pub id: nat,
    pub title: Seq<char>,
    pub artist: Seq<char>,
    pub genre: Seq<char>,
    pub play_count: nat,
}

impl View for Song {
    type V = SongView;

    open spec fn view(&self) -> SongView {
        SongView {
            id: self.id as nat,
            title: self.title@,
            artist: self.artist@,
            genre: self.genre@,
            play_count: self.play_count as nat,
        }
    }
}

impl Clone for Song {
    fn clone(&self) -> (copy: Self)
        ensures
            copy@ == self@,
    {
        Song {
            id: self.id,
            title: self.title.clone(),
            artist: self.artist.clone(),
            genre: self.genre.clone(),
            play_count: self.play_count,
        }
    }
}

/// The three text fields submitted for a new song.
#[derive(Debug, PartialEq, Eq)]
pub struct NewSong {
    pub title: String,
    pub artist: String,
    pub genre: String,
}

/// The mathematical value of a [`NewSong`].
pub struct NewSongView {
    pub title: Seq<char>,
    pub artist: Seq<char>,
    pub genre: Seq<char>,
}

impl View for NewSong {
    type V = NewSongView;

    open spec fn view(&self) -> NewSongView {
        NewSongView { title: self.title@, artist: self.artist@, genre: self.genre@ }
    }
}

/// The views of a sequence of records, in the same order.
pub open spec fn views_of(songs: Seq<Song>) -> Seq<SongView> {
    songs.map_values(|s: Song| s@)
}

/// The same record after one more play.
pub open spec fn played(song: SongView) -> SongView {
    SongView { play_count: song.play_count + 1, ..song }
}

/// Copies a list of records.
pub fn copy_songs(songs: &Vec<Song>) -> (copies: Vec<Song>)
    ensures
        views_of(copies@) == views_of(songs@),
{
    let mut copies: Vec<Song> = Vec::new();
    let mut i: usize = 0;
    while i < songs.len()
        invariant
            i <= songs.len(),
            copies.len() == i,
            forall|j: int| 0 <= j < i ==> copies@[j]@ == songs@[j]@,
        decreases songs.len() - i,
    {
        copies.push(songs[i].clone());
        i += 1;
    }
    assert(views_of(copies@) =~= views_of(songs@));
    copies
}

} // verus!
