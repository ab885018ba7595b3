//! Search filters: three texts, each of which must be part of the
//! corresponding field of a song, letter case aside.

use vstd::prelude::*;
use crate::song::{Song, SongView};
use crate::text::{chars_of, contains, fold_case, folded, occurs_at, occurs_in};

verus! {

/// A filter for each of a song's text fields.  An empty filter lets every
/// field pass.
#[derive(Debug, PartialEq, Eq)]
pub struct Filters {
    pub title: String,
    pub artist: String,
    pub genre: String,
}

/// The mathematical value of [`Filters`].
pub struct FiltersView {
    pub title: Seq<char>,
    pub artist: Seq<char>,
    pub genre: Seq<char>,
}

impl View for Filters {
    type V = FiltersView;

    open spec fn view(&self) -> FiltersView {
        FiltersView { title: self.title@, artist: self.artist@, genre: self.genre@ }
    }
}

impl FiltersView {
    /// Three empty filters.
    pub open spec fn blank() -> FiltersView {
        FiltersView { title: Seq::empty(), artist: Seq::empty(), genre: Seq::empty() }
    }

    /// Each filter is a contiguous part of the text given for its field,
    /// letter for letter.
    pub open spec fn accepts(self, title: Seq<char>, artist: Seq<char>, genre: Seq<char>) -> bool {
        &&& occurs_in(self.title, title)
        &&& occurs_in(self.artist, artist)
        &&& occurs_in(self.genre, genre)
    }

    /// The filters with each text case-folded.
    pub open spec fn folded(self) -> FiltersView {
        FiltersView {
            title: folded(self.title),
            artist: folded(self.artist),
            genre: folded(self.genre),
        }
    }

    /// The song passes: each filter, case-folded, is a contiguous part of
    /// the case-folded field.
    pub open spec fn matches(self, song: SongView) -> bool {
        self.folded().accepts(folded(song.title), folded(song.artist), folded(song.genre))
    }
}

/// The records of `catalog` that pass `filters`, in catalog order.
pub open spec fn selected(catalog: Seq<SongView>, filters: FiltersView) -> Seq<SongView> {
    catalog.filter(|song: SongView| filters.matches(song))
}

/// Whether `needle` is a contiguous part of `hay`, letter for letter.
pub fn part_of(needle: &str, hay: &str) -> (yes: bool)
    ensures
        yes == occurs_in(needle@, hay@),
{
    let n = chars_of(needle);
    let h = chars_of(hay);
    contains(h.as_slice(), n.as_slice())
}

impl Filters {
    /// Filters with the given texts.
    pub fn new(title: &str, artist: &str, genre: &str) -> (filters: Filters)
        ensures
            filters@ == (FiltersView { title: title@, artist: artist@, genre: genre@ }),
    {
        Filters { title: title.to_owned(), artist: artist.to_owned(), genre: genre.to_owned() }
    }

    /// Three empty filters, which every song passes.
    pub fn blank() -> (filters: Filters)
        ensures
            filters@ == FiltersView::blank(),
    {
        Filters { title: String::new(), artist: String::new(), genre: String::new() }
    }

    /// The filters with each text case-folded.
    pub fn folded(&self) -> (lowered: Filters)
        ensures
            lowered@ == self@.folded(),
    {
        Filters {
            title: fold_case(self.title.as_str()),
            artist: fold_case(self.artist.as_str()),
            genre: fold_case(self.genre.as_str()),
        }
    }

    /// Whether each filter is a contiguous part of the text given for its
    /// field, letter for letter.
    pub fn accepts(&self, title: &str, artist: &str, genre: &str) -> (yes: bool)
        ensures
            yes == self@.accepts(title@, artist@, genre@),
    {
        part_of(self.title.as_str(), title) && part_of(self.artist.as_str(), artist) && part_of(
            self.genre.as_str(),
            genre,
        )
    }

    /// Whether each filter is a contiguous part of the case-folded field of
    /// the song, letter for letter: for filters that are case-folded
    /// already.
    pub fn accepts_folded(&self, song: &Song) -> (yes: bool)
        ensures
            yes == self@.accepts(folded(song@.title), folded(song@.artist), folded(song@.genre)),
    {
        let title = fold_case(song.title.as_str());
        let artist = fold_case(song.artist.as_str());
        let genre = fold_case(song.genre.as_str());
        self.accepts(title.as_str(), artist.as_str(), genre.as_str())
    }

    /// Whether the song passes the filters, letter case aside.
    pub fn matches(&self, song: &Song) -> (yes: bool)
        ensures
            yes == self@.matches(song@),
    {
        self.folded().accepts_folded(song)
    }
}

/// The empty text is part of every text.
pub proof fn lemma_empty_occurs_everywhere(hay: Seq<char>)
    ensures
        occurs_in(Seq::empty(), hay),
{
    assert(hay.subrange(0, 0) =~= Seq::<char>::empty());
    assert(occurs_at(Seq::empty(), hay, 0));
}

/// Every song passes three empty filters.
pub proof fn lemma_blank_filters_match(song: SongView)
    ensures
        FiltersView::blank().matches(song),
{
    lemma_empty_occurs_everywhere(folded(song.title));
    lemma_empty_occurs_everywhere(folded(song.artist));
    lemma_empty_occurs_everywhere(folded(song.genre));
}

/// A search with three empty filters selects every record, in catalog order.
pub proof fn lemma_blank_filters_select_all(catalog: Seq<SongView>)
    ensures
        selected(catalog, FiltersView::blank()) == catalog,
    decreases catalog.len(),
{
    reveal(Seq::filter);
    if catalog.len() > 0 {
        lemma_blank_filters_select_all(catalog.drop_last());
        lemma_blank_filters_match(catalog.last());
        assert(catalog.drop_last().push(catalog.last()) =~= catalog);
    }
}

/// Selecting from a catalog with one more record: the record is appended to
/// the selection if it passes, and left out if not.
pub proof fn lemma_selected_push(catalog: Seq<SongView>, song: SongView, filters: FiltersView)
    ensures
        selected(catalog.push(song), filters) == if filters.matches(song) {
            selected(catalog, filters).push(song)
        } else {
            selected(catalog, filters)
        },
{
    reveal(Seq::filter);
    assert(catalog.push(song).drop_last() =~= catalog);
}

/// A search selects the records that pass and no others: a record is among
/// the selected exactly if the catalog holds it and it passes the filters.
pub proof fn lemma_selected_are_those_that_match(
    catalog: Seq<SongView>,
    filters: FiltersView,
    song: SongView,
)
    ensures
        selected(catalog, filters).contains(song) <==> catalog.contains(song) && filters.matches(
            song,
        ),
    decreases catalog.len(),
{
    reveal(Seq::filter);
    if catalog.len() > 0 {
        let rest = catalog.drop_last();
        let last = catalog.last();
        lemma_selected_are_those_that_match(rest, filters, song);
        assert(catalog =~= rest.push(last));
        lemma_selected_push(rest, last, filters);
        let chosen = selected(rest, filters);
        if catalog.contains(song) && filters.matches(song) {
            let i = choose|i: int| 0 <= i < catalog.len() && catalog[i] == song;
            if i < rest.len() {
                assert(rest[i] == song);
                assert(rest.contains(song));
                let j = choose|j: int| 0 <= j < chosen.len() && chosen[j] == song;
                assert(selected(catalog, filters)[j] == song);
            } else {
                assert(last == song);
                assert(selected(catalog, filters)[chosen.len() as int] == song);
            }
        }
        if selected(catalog, filters).contains(song) {
            let j = choose|j: int|
                0 <= j < selected(catalog, filters).len() && selected(catalog, filters)[j] == song;
            if j < chosen.len() {
                assert(chosen[j] == song);
                assert(chosen.contains(song));
                let i = choose|i: int| 0 <= i < rest.len() && rest[i] == song;
                assert(catalog[i] == song);
            } else {
                assert(filters.matches(last));
                assert(last == song);
                assert(catalog[catalog.len() - 1] == song);
            }
        }
    }
}

/// A search keeps the catalog's order: selecting from two catalogs laid end
/// to end gives the two selections laid end to end.
pub proof fn lemma_selected_keeps_order(
    first: Seq<SongView>,
    second: Seq<SongView>,
    filters: FiltersView,
)
    ensures
        selected(first + second, filters) == selected(first, filters) + selected(second, filters),
{
    Seq::filter_distributes_over_add(first, second, |song: SongView| filters.matches(song));
}

} // verus!
