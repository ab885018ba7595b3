//! The service's rules: which operation a request path asks for, and what
//! each operation replies.
//!
//! The embedding program receives a request, asks [`route_for`] which
//! operation its path names, takes the lock that the operation needs, and
//! calls the operation's function with what it read from the request.  It
//! then sends the reply: the status from [`Reply::status`], and as body
//! either the text from [`Reply::text`] or the encoding of the reply's
//! records.

use vstd::prelude::*;
use crate::catalog::{holds, new_record, with_added, with_play, Catalog};
use crate::number::{decimal, decimal_text};
use crate::query::{parse_play_id, parse_search_filters, play_id, search_filters};
use crate::search::selected;
use crate::song::{played, views_of, NewSong, Song, SongView};
use crate::text::{chars_of, same_chars, starts_with};
use crate::visits::{after_visits, VisitCounter};

verus! {

/// The operations of the service.
#[derive(Debug, PartialEq, Eq, Clone, Copy, Structural)]
pub enum Route {
    /// Count a visit and report the count.
    VisitCount,
    /// Add the submitted song.
    AddSong,
    /// Search by the filters in the address.
    Search,
    /// Count a play of the song that the address names.
    Play,
    /// Anything else: greet.
    Welcome,
}

/// The operation that a request path names.
pub open spec fn route_of(path: Seq<char>) -> Route {
    if path == "/count"@ {
        Route::VisitCount
    } else if path == "/songs/new"@ {
        Route::AddSong
    } else if path == "/songs/search"@ {
        Route::Search
    } else if "/songs/play"@.is_prefix_of(path) {
        Route::Play
    } else {
        Route::Welcome
    }
}

/// Finds the operation that a request path names.
pub fn route_for(path: &str) -> (route: Route)
    ensures
        route == route_of(path@),
{
    let chars = chars_of(path);
    let p = chars.as_slice();
    if same_chars(p, chars_of("/count").as_slice()) {
        Route::VisitCount
    } else if same_chars(p, chars_of("/songs/new").as_slice()) {
        Route::AddSong
    } else if same_chars(p, chars_of("/songs/search").as_slice()) {
        Route::Search
    } else if starts_with(p, chars_of("/songs/play").as_slice()) {
        Route::Play
    } else {
        Route::Welcome
    }
}

/// What the service answers.
#[derive(Debug, PartialEq, Eq)]
pub enum Reply {
    /// The visit count after this visit.
    VisitCount(usize),
    /// One record: the song that was added or played.
    Song(Song),
    /// The records that a search found, in catalog order.
    Songs(Vec<Song>),
    /// The submitted song could not be read.
    Rejected,
    /// The address names no record of the catalog.
    SongNotFound,
    /// The greeting.
    Welcome,
}

/// The mathematical value of a [`Reply`].
pub enum ReplyView {
    VisitCount(nat),
    Song(SongView),
    Songs(Seq<SongView>),
    Rejected,
    SongNotFound,
    Welcome,
}

impl View for Reply {
    type V = ReplyView;

    open spec fn view(&self) -> ReplyView {
        match self {
            Reply::VisitCount(n) => ReplyView::VisitCount(*n as nat),
            Reply::Song(song) => ReplyView::Song(song@),
            Reply::Songs(songs) => ReplyView::Songs(views_of(songs@)),
            Reply::Rejected => ReplyView::Rejected,
            Reply::SongNotFound => ReplyView::SongNotFound,
            Reply::Welcome => ReplyView::Welcome,
        }
    }
}

impl ReplyView {
    /// The status code of the reply: 400 where the request is refused, 200
    /// otherwise.
    pub open spec fn status(self) -> u16 {
        match self {
            ReplyView::Rejected | ReplyView::SongNotFound => 400,
            _ => 200,
        }
    }

    /// The body of a reply that carries no record.  The body of one that
    /// does is the encoding of its records, which is not fixed here.
    pub open spec fn text(self) -> Option<Seq<char>> {
        match self {
            ReplyView::VisitCount(n) => Some("Visit count: "@ + decimal_text(n)),
            ReplyView::Song(_) => None,
            ReplyView::Songs(_) => None,
            ReplyView::Rejected => Some(""@),
            ReplyView::SongNotFound => Some("{\"error\":\"Song not found\"}"@),
            ReplyView::Welcome => Some("Welcome to the Rust-powered web server!"@),
        }
    }
}

impl Reply {
    /// The status code to send with the reply.
    pub fn status(&self) -> (code: u16)
        ensures
            code == self@.status(),
    {
        match self {
            Reply::Rejected | Reply::SongNotFound => 400,
            _ => 200,
        }
    }

    /// The body to send with a reply that carries no record.
    pub fn text(&self) -> (body: Option<String>)
        ensures
            match body {
                Some(t) => self@.text() == Some(t@),
                None => self@.text() is None,
            },
    {
        match self {
            Reply::VisitCount(n) => {
                let digits = decimal(*n);
                Some("Visit count: ".to_owned().concat(digits.as_str()))
            },
            Reply::Song(_) => None,
            Reply::Songs(_) => None,
            Reply::Rejected => Some("".to_owned()),
            Reply::SongNotFound => Some("{\"error\":\"Song not found\"}".to_owned()),
            Reply::Welcome => Some("Welcome to the Rust-powered web server!".to_owned()),
        }
    }
}

/// Answers a tracked visit: counts it and reports the new count.
pub fn visit(counter: &mut VisitCounter) -> (reply: Reply)
    requires
        old(counter)@ < usize::MAX,
    ensures
        final(counter)@ == after_visits(old(counter)@, 1),
        reply@ == ReplyView::VisitCount(final(counter)@),
{
    Reply::VisitCount(counter.increment())
}

/// Answers a submission.  Where the submitted fields could be read, the
/// catalog gets a record for them and the reply carries it.  Where they
/// could not, the request is rejected and the catalog stays as it is.
pub fn add_song(catalog: &mut Catalog, submitted: Option<NewSong>) -> (reply: Reply)
    requires
        old(catalog)@.len() < usize::MAX,
    ensures
        match submitted {
            Some(entry) => {
                &&& reply@ == ReplyView::Song(new_record(old(catalog)@, entry@))
                &&& final(catalog)@ == with_added(old(catalog)@, entry@)
            },
            None => reply@ == ReplyView::Rejected && final(catalog)@ == old(catalog)@,
        },
{
    match submitted {
        Some(entry) => Reply::Song(catalog.add(entry.title, entry.artist, entry.genre)),
        None => Reply::Rejected,
    }
}

/// The records that a search address selects from a catalog: those that pass
/// the filters of its query, or none where the address has no query.
pub open spec fn search_result(catalog: Seq<SongView>, uri: Seq<char>) -> Seq<SongView> {
    match search_filters(uri) {
        Some(filters) => selected(catalog, filters),
        None => Seq::empty(),
    }
}

/// Answers a search: the reply carries the records that the address
/// selects, in catalog order.
pub fn search_songs(catalog: &Catalog, uri: &str) -> (reply: Reply)
    ensures
        reply@ == ReplyView::Songs(search_result(catalog@, uri@)),
{
    match parse_search_filters(uri) {
        Some(filters) => Reply::Songs(catalog.search(&filters)),
        None => {
            let none: Vec<Song> = Vec::new();
            assert(views_of(none@) =~= Seq::<SongView>::empty());
            Reply::Songs(none)
        },
    }
}

/// The number of the record that a play address names in a catalog, if it
/// names one that the catalog holds.
pub open spec fn play_target(catalog: Seq<SongView>, uri: Seq<char>) -> Option<int> {
    match play_id(uri) {
        Some(id) => if holds(catalog, id as int) {
            Some(id as int)
        } else {
            None
        },
        None => None,
    }
}

/// Answers a play.  Where the address names a record of the catalog, one
/// play of it is counted and the reply carries the updated record.
/// Otherwise the reply says that the song was not found, and the catalog
/// stays as it is.
pub fn play_song(catalog: &mut Catalog, uri: &str) -> (reply: Reply)
    requires
        play_id(uri@) matches Some(id) ==> old(catalog).has_room(id as int),
    ensures
        match play_target(old(catalog)@, uri@) {
            Some(id) => {
                &&& reply@ == ReplyView::Song(played(old(catalog)@[id - 1]))
                &&& final(catalog)@ == with_play(old(catalog)@, id)
            },
            None => reply@ == ReplyView::SongNotFound && final(catalog)@ == old(catalog)@,
        },
{
    match parse_play_id(uri) {
        Some(id) => match catalog.increment_play(id) {
            Some(song) => Reply::Song(song),
            None => Reply::SongNotFound,
        },
        None => Reply::SongNotFound,
    }
}

/// Answers any other request with the greeting.
pub fn welcome() -> (reply: Reply)
    ensures
        reply@ == ReplyView::Welcome,
{
    Reply::Welcome
}

} // verus!
