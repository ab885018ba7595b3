use song_catalog::catalog::Catalog;
use song_catalog::search::{part_of, Filters};
use song_catalog::song::Song;
use song_catalog::text::fold_case;

fn song(id: usize, title: &str, artist: &str, genre: &str, play_count: usize) -> Song {
    Song {
        id,
        title: title.to_string(),
        artist: artist.to_string(),
        genre: genre.to_string(),
        play_count,
    }
}

fn sample() -> Catalog {
    let mut catalog = Catalog::new();
    for (title, artist, genre) in [
        ("Yesterday", "The Beatles", "Rock"),
        ("So What", "Miles Davis", "Jazz"),
        ("Let It Be", "The Beatles", "Rock"),
        ("Blue in Green", "Miles Davis", "Jazz"),
        ("Rock Around the Clock", "Bill Haley", "Rock and Roll"),
    ] {
        catalog.add(title.to_string(), artist.to_string(), genre.to_string());
    }
    catalog
}

fn ids(found: &[Song]) -> Vec<usize> {
    found.iter().map(|s| s.id).collect()
}

#[test]
fn blank_filters_return_every_record_in_catalog_order() {
    let catalog = sample();
    let found = catalog.search(&Filters::blank());
    assert_eq!(found, catalog.records());
    assert_eq!(ids(&found), vec![1, 2, 3, 4, 5]);
    assert_eq!(catalog.search(&Filters::new("", "", "")), catalog.records());
}

#[test]
fn blank_filters_on_an_empty_catalog_return_nothing() {
    let catalog = Catalog::new();
    assert_eq!(catalog.search(&Filters::blank()), Vec::<Song>::new());
}

#[test]
fn filters_are_case_insensitive_substrings() {
    let mut catalog = Catalog::new();
    catalog.add("Yesterday".to_string(), "The Beatles".to_string(), "Rock".to_string());
    let expected = vec![song(1, "Yesterday", "The Beatles", "Rock", 0)];
    assert_eq!(catalog.search(&Filters::new("", "beatles", "")), expected);
    assert_eq!(catalog.search(&Filters::new("ESTER", "", "")), expected);
    assert_eq!(catalog.search(&Filters::new("yEsTeRdAy", "THE", "rOcK")), expected);
}

#[test]
fn every_filter_must_pass() {
    let catalog = sample();
    assert_eq!(ids(&catalog.search(&Filters::new("", "beatles", "rock"))), vec![1, 3]);
    assert_eq!(ids(&catalog.search(&Filters::new("let", "beatles", "rock"))), vec![3]);
    assert_eq!(ids(&catalog.search(&Filters::new("let", "davis", "rock"))), Vec::<usize>::new());
    assert_eq!(ids(&catalog.search(&Filters::new("let", "beatles", "jazz"))), Vec::<usize>::new());
}

#[test]
fn matches_come_in_catalog_order() {
    let catalog = sample();
    assert_eq!(ids(&catalog.search(&Filters::new("", "", "rock"))), vec![1, 3, 5]);
    assert_eq!(ids(&catalog.search(&Filters::new("", "miles", ""))), vec![2, 4]);
    assert_eq!(ids(&catalog.search(&Filters::new("e", "", ""))), vec![1, 3, 4, 5]);
}

#[test]
fn a_filter_searches_its_own_field_only() {
    let catalog = sample();
    assert_eq!(ids(&catalog.search(&Filters::new("rock", "", ""))), vec![5]);
    assert_eq!(ids(&catalog.search(&Filters::new("beatles", "", ""))), Vec::<usize>::new());
}

#[test]
fn no_match_gives_an_empty_result() {
    let catalog = sample();
    assert_eq!(catalog.search(&Filters::new("zzz", "", "")), Vec::<Song>::new());
    assert_eq!(catalog.search(&Filters::new("yesterdays", "", "")), Vec::<Song>::new());
}

#[test]
fn a_filter_with_a_space_must_match_the_space() {
    let catalog = sample();
    assert_eq!(ids(&catalog.search(&Filters::new("so what", "", ""))), vec![2]);
    assert_eq!(ids(&catalog.search(&Filters::new("sowhat", "", ""))), Vec::<usize>::new());
    assert_eq!(ids(&catalog.search(&Filters::new(" ", "", ""))), vec![2, 3, 4, 5]);
}

#[test]
fn search_returns_copies_with_current_counts() {
    let mut catalog = sample();
    catalog.increment_play(2);
    catalog.increment_play(2);
    let found = catalog.search(&Filters::new("so", "", ""));
    assert_eq!(found, vec![song(2, "So What", "Miles Davis", "Jazz", 2)]);
    assert_eq!(catalog.len(), 5);
}

#[test]
fn search_folds_letters_beyond_ascii() {
    let mut catalog = Catalog::new();
    catalog.add("ÉTUDE".to_string(), "Frédéric Chopin".to_string(), "Klassik".to_string());
    assert_eq!(ids(&catalog.search(&Filters::new("étude", "", ""))), vec![1]);
    assert_eq!(ids(&catalog.search(&Filters::new("", "FRÉDÉRIC", ""))), vec![1]);
    assert_eq!(ids(&catalog.search(&Filters::new("etude", "", ""))), Vec::<usize>::new());
}

#[test]
fn fold_case_maps_to_lower_case() {
    assert_eq!(fold_case("ESTER"), "ester");
    assert_eq!(fold_case("The Beatles"), "the beatles");
    assert_eq!(fold_case("already lower 123"), "already lower 123");
    assert_eq!(fold_case("ÀÉÎ"), "àéî");
    assert_eq!(fold_case(""), "");
}

#[test]
fn fold_case_follows_the_unicode_mapping() {
    assert_eq!(fold_case("ΟΔΟΣ"), "οδος");
    assert_eq!(fold_case("İ"), "i\u{307}");
}

#[test]
fn filters_fold_each_text() {
    let folded = Filters::new("YeS", "", "ROCK").folded();
    assert_eq!(folded, Filters::new("yes", "", "rock"));
}

#[test]
fn accepts_compares_letter_for_letter() {
    let filters = Filters::new("ester", "beatles", "");
    assert!(filters.accepts("yesterday", "the beatles", "rock"));
    assert!(filters.accepts("ester", "beatles", ""));
    assert!(!filters.accepts("Yesterday", "The Beatles", "Rock"));
    assert!(!filters.accepts("yesterday", "the beatle", "rock"));
    assert!(!filters.accepts("yestrday", "the beatles", "rock"));
}

#[test]
fn blank_filters_accept_anything() {
    assert!(Filters::blank().accepts("", "", ""));
    assert!(Filters::blank().accepts("a", "b", "c"));
}

#[test]
fn matches_agrees_with_search() {
    let catalog = sample();
    let filters = Filters::new("BLUE", "miles", "");
    let expected: Vec<Song> = catalog.records().into_iter().filter(|s| filters.matches(s)).collect();
    assert_eq!(catalog.search(&filters), expected);
    assert_eq!(ids(&expected), vec![4]);
}

#[test]
fn part_of_finds_a_text_at_any_position() {
    assert!(part_of("", ""));
    assert!(part_of("", "abc"));
    assert!(part_of("abc", "abc"));
    assert!(part_of("ab", "abc"));
    assert!(part_of("bc", "abc"));
    assert!(part_of("b", "abc"));
    assert!(part_of("aab", "aaab"));
    assert!(!part_of("abcd", "abc"));
    assert!(!part_of("ac", "abc"));
    assert!(!part_of("a", ""));
    assert!(!part_of("B", "abc"));
}

#[test]
fn part_of_goes_by_characters() {
    assert!(part_of("é", "café au lait"));
    assert!(part_of("é a", "café au lait"));
    assert!(!part_of("e", "café"));
    assert!(part_of("日本", "こんにちは日本語"));
}
