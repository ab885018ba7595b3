use song_catalog::catalog::Catalog;
use song_catalog::search::Filters;
use song_catalog::song::Song;

fn song(id: usize, title: &str, artist: &str, genre: &str, play_count: usize) -> Song {
    Song {
        id,
        title: title.to_string(),
        artist: artist.to_string(),
        genre: genre.to_string(),
        play_count,
    }
}

fn add(catalog: &mut Catalog, title: &str, artist: &str, genre: &str) -> Song {
    catalog.add(title.to_string(), artist.to_string(), genre.to_string())
}

#[test]
fn new_catalog_is_empty() {
    let catalog = Catalog::new();
    assert_eq!(catalog.len(), 0);
    assert_eq!(catalog.records(), Vec::<Song>::new());
}

#[test]
fn scenario_add_play_search_miss() {
    let mut catalog = Catalog::new();

    let added = add(&mut catalog, "Imagine", "John Lennon", "Rock");
    assert_eq!(added, song(1, "Imagine", "John Lennon", "Rock", 0));

    let played = catalog.increment_play(1);
    assert_eq!(played, Some(song(1, "Imagine", "John Lennon", "Rock", 1)));

    let found = catalog.search(&Filters::new("", "", "rock"));
    assert_eq!(found, vec![song(1, "Imagine", "John Lennon", "Rock", 1)]);

    assert_eq!(catalog.increment_play(2), None);
    assert_eq!(catalog.records(), vec![song(1, "Imagine", "John Lennon", "Rock", 1)]);
}

#[test]
fn add_returns_the_stored_record() {
    let mut catalog = Catalog::new();
    let first = add(&mut catalog, "Yesterday", "The Beatles", "Rock");
    let second = add(&mut catalog, "So What", "Miles Davis", "Jazz");
    assert_eq!(first, song(1, "Yesterday", "The Beatles", "Rock", 0));
    assert_eq!(second, song(2, "So What", "Miles Davis", "Jazz", 0));
    assert_eq!(catalog.records(), vec![first, second]);
}

#[test]
fn add_takes_empty_and_repeated_fields() {
    let mut catalog = Catalog::new();
    let a = add(&mut catalog, "", "", "");
    let b = add(&mut catalog, "", "", "");
    assert_eq!(a, song(1, "", "", "", 0));
    assert_eq!(b, song(2, "", "", "", 0));
    assert_eq!(catalog.len(), 2);
}

#[test]
fn adds_number_records_from_one_without_gap_or_repeat() {
    let mut catalog = Catalog::new();
    let n: usize = 200;
    let mut returned: Vec<usize> = Vec::new();
    for k in 0..n {
        let title = format!("song {}", (k * 7919) % n);
        returned.push(add(&mut catalog, &title, "someone", "any").id);
    }
    let expected: Vec<usize> = (1..=n).collect();
    assert_eq!(returned, expected);
    assert_eq!(catalog.len(), n);
    let stored: Vec<usize> = catalog.records().iter().map(|s| s.id).collect();
    assert_eq!(stored, expected);
}

#[test]
fn add_numbers_by_length_after_a_restore() {
    let mut catalog = Catalog::from_records(vec![song(7, "a", "b", "c", 3), song(7, "d", "e", "f", 0)]);
    let added = add(&mut catalog, "g", "h", "i");
    assert_eq!(added.id, 3);
    assert_eq!(catalog.len(), 3);
}

#[test]
fn increment_play_counts_up_each_time() {
    let mut catalog = Catalog::new();
    add(&mut catalog, "Imagine", "John Lennon", "Rock");
    for expected in 1..=5usize {
        let updated = catalog.increment_play(1).unwrap();
        assert_eq!(updated.play_count, expected);
        assert_eq!(updated.id, 1);
    }
    assert_eq!(catalog.records()[0].play_count, 5);
}

#[test]
fn increment_play_touches_only_the_named_record() {
    let mut catalog = Catalog::new();
    add(&mut catalog, "one", "a", "x");
    add(&mut catalog, "two", "b", "y");
    add(&mut catalog, "three", "c", "z");
    let updated = catalog.increment_play(2);
    assert_eq!(updated, Some(song(2, "two", "b", "y", 1)));
    assert_eq!(
        catalog.records(),
        vec![song(1, "one", "a", "x", 0), song(2, "two", "b", "y", 1), song(3, "three", "c", "z", 0)]
    );
}

#[test]
fn increment_play_goes_by_position_not_by_stored_number() {
    let mut catalog = Catalog::from_records(vec![song(10, "a", "b", "c", 0), song(20, "d", "e", "f", 4)]);
    assert_eq!(catalog.increment_play(2), Some(song(20, "d", "e", "f", 5)));
    assert_eq!(catalog.increment_play(10), None);
    assert_eq!(catalog.increment_play(20), None);
}

#[test]
fn increment_play_outside_the_catalog_reports_nothing_and_changes_nothing() {
    let mut catalog = Catalog::new();
    assert_eq!(catalog.increment_play(0), None);
    assert_eq!(catalog.increment_play(1), None);
    add(&mut catalog, "one", "a", "x");
    add(&mut catalog, "two", "b", "y");
    catalog.increment_play(1);
    let before = catalog.records();
    for id in [0usize, 3, 4, 1000, usize::MAX] {
        assert_eq!(catalog.increment_play(id), None);
        assert_eq!(catalog.records(), before);
    }
}

#[test]
fn play_fits_unless_the_counter_is_full() {
    let catalog = Catalog::from_records(vec![song(1, "a", "b", "c", usize::MAX), song(2, "d", "e", "f", usize::MAX - 1)]);
    assert!(!catalog.play_fits(1));
    assert!(catalog.play_fits(2));
    assert!(catalog.play_fits(0));
    assert!(catalog.play_fits(3));
}

#[test]
fn increment_play_reaches_the_largest_count() {
    let mut catalog = Catalog::from_records(vec![song(1, "a", "b", "c", usize::MAX - 1)]);
    assert!(catalog.play_fits(1));
    assert_eq!(catalog.increment_play(1).unwrap().play_count, usize::MAX);
    assert!(!catalog.play_fits(1));
}

#[test]
fn from_records_keeps_records_as_they_are() {
    let songs = vec![song(3, "c", "C", "z", 9), song(1, "a", "A", "x", 0), song(3, "c", "C", "z", 9)];
    let catalog = Catalog::from_records(songs.clone());
    assert_eq!(catalog.len(), 3);
    assert_eq!(catalog.records(), songs);
}

#[test]
fn records_then_from_records_gives_the_same_catalog() {
    let mut catalog = Catalog::new();
    add(&mut catalog, "Imagine", "John Lennon", "Rock");
    add(&mut catalog, "So What", "Miles Davis", "Jazz");
    catalog.increment_play(2);
    catalog.increment_play(2);
    let copy = Catalog::from_records(catalog.records());
    assert_eq!(copy.records(), catalog.records());
    assert_eq!(copy.records()[1].play_count, 2);
}

#[test]
fn restore_without_a_snapshot_starts_empty() {
    let catalog = Catalog::restore(None);
    assert_eq!(catalog.len(), 0);
}

#[test]
fn restore_with_a_snapshot_holds_its_records() {
    let songs = vec![song(1, "Imagine", "John Lennon", "Rock", 12), song(2, "So What", "Miles Davis", "Jazz", 0)];
    let catalog = Catalog::restore(Some(songs.clone()));
    assert_eq!(catalog.records(), songs);
}

#[test]
fn restore_with_an_empty_snapshot_is_empty() {
    let catalog = Catalog::restore(Some(Vec::new()));
    assert_eq!(catalog.len(), 0);
}

#[test]
fn song_clone_copies_every_field() {
    let first = song(4, "Título", "Artista", "Género", 17);
    let copy = first.clone();
    assert_eq!(copy, first);
}

fn to_json(songs: &[Song]) -> String {
    let mut items: Vec<serde_json::Value> = Vec::new();
    for s in songs {
        let mut object = serde_json::Map::new();
        object.insert("id".to_string(), serde_json::Value::from(s.id));
        object.insert("title".to_string(), serde_json::Value::from(s.title.clone()));
        object.insert("artist".to_string(), serde_json::Value::from(s.artist.clone()));
        object.insert("genre".to_string(), serde_json::Value::from(s.genre.clone()));
        object.insert("play_count".to_string(), serde_json::Value::from(s.play_count));
        items.push(serde_json::Value::Object(object));
    }
    serde_json::to_string(&serde_json::Value::Array(items)).unwrap()
}

fn from_json(text: &str) -> Option<Vec<Song>> {
    let value: serde_json::Value = serde_json::from_str(text).ok()?;
    let mut songs: Vec<Song> = Vec::new();
    for item in value.as_array()? {
        songs.push(Song {
            id: item.get("id")?.as_u64()? as usize,
            title: item.get("title")?.as_str()?.to_string(),
            artist: item.get("artist")?.as_str()?.to_string(),
            genre: item.get("genre")?.as_str()?.to_string(),
            play_count: item.get("play_count")?.as_u64()? as usize,
        });
    }
    Some(songs)
}

#[test]
fn snapshot_survives_a_trip_through_json() {
    let mut catalog = Catalog::new();
    add(&mut catalog, "Imagine", "John Lennon", "Rock");
    add(&mut catalog, "\"Heroes\"", "David Bowie", "Art\\Rock\n");
    add(&mut catalog, "Für Elise", "Beethoven", "");
    catalog.increment_play(1);
    catalog.increment_play(3);
    catalog.increment_play(3);

    let text = to_json(&catalog.records());
    let restored = Catalog::restore(from_json(&text));

    assert_eq!(restored.len(), 3);
    assert_eq!(restored.records(), catalog.records());
    assert_eq!(restored.records()[2], song(3, "Für Elise", "Beethoven", "", 2));
    assert_eq!(to_json(&restored.records()), text);
}

#[test]
fn unreadable_snapshot_gives_an_empty_catalog() {
    for text in ["", "not json", "{\"id\":1}", "[{\"id\":1,\"title\":\"x\"}]", "[1,2,3]"] {
        let restored = Catalog::restore(from_json(text));
        assert_eq!(restored.len(), 0);
    }
}
