//! The parts of a request address that the service reads: the search
//! filters in its query and the record number at its end.

use vstd::prelude::*;
use vstd::slice::slice_subrange;
use crate::number::{number_in, parse_number};
use crate::search::{Filters, FiltersView};
use crate::text::{chars_of, find_first, find_last, same_chars, text_of};

verus! {

/// The text that follows the last `sep` in `s`, if `s` holds one.
pub open spec fn text_after_last(s: Seq<char>, sep: char) -> Option<Seq<char>> {
    match s.index_of_last(sep) {
        Some(i) => Some(s.skip(i + 1)),
        None => None,
    }
}

/// The texts before and after the first `sep` in `s`, if `s` holds one.
pub open spec fn split_once(s: Seq<char>, sep: char) -> Option<(Seq<char>, Seq<char>)> {
    match s.index_of_first(sep) {
        Some(i) => Some((s.take(i), s.skip(i + 1))),
        None => None,
    }
}

/// The pieces into which the occurrences of `sep` cut `s`, in order.  A text
/// without `sep` is one piece, also where it is empty.
pub open spec fn split(s: Seq<char>, sep: char) -> Seq<Seq<char>>
    decreases s.len(),
{
    match s.index_of_first(sep) {
        Some(i) => {
            proof {
                s.index_of_first_ensures(sep);
            }
            seq![s.take(i)] + split(s.skip(i + 1), sep)
        },
        None => seq![s],
    }
}

/// The pieces joined again, with `sep` between each two.
pub open spec fn joined(pieces: Seq<Seq<char>>, sep: char) -> Seq<char>
    decreases pieces.len(),
{
    if pieces.len() == 0 {
        Seq::empty()
    } else if pieces.len() == 1 {
        pieces[0]
    } else {
        pieces[0] + seq![sep] + joined(pieces.skip(1), sep)
    }
}

/// `s` with a space in place of each `+`.
pub open spec fn plus_as_space(s: Seq<char>) -> Seq<char> {
    s.map_values(
        |c: char|
            if c == '+' {
                ' '
            } else {
                c
            },
    )
}

/// The filters after reading one `key=value` pair.  The keys `title`,
/// `artist` and `genre` set the filter of that name to the value, with its
/// `+` signs read as spaces.  Another key, or a text without `=`, changes
/// nothing.
pub open spec fn with_pair(filters: FiltersView, pair: Seq<char>) -> FiltersView {
    match split_once(pair, '=') {
        Some((key, value)) => {
            if key == "title"@ {
                FiltersView { title: plus_as_space(value), ..filters }
            } else if key == "artist"@ {
                FiltersView { artist: plus_as_space(value), ..filters }
            } else if key == "genre"@ {
                FiltersView { genre: plus_as_space(value), ..filters }
            } else {
                filters
            }
        },
        None => filters,
    }
}

/// The filters after reading the pairs in order, starting from three empty
/// filters: a later pair overrides an earlier one with the same key.
pub open spec fn filters_of_pairs(pairs: Seq<Seq<char>>) -> FiltersView
    decreases pairs.len(),
{
    if pairs.len() == 0 {
        FiltersView::blank()
    } else {
        with_pair(filters_of_pairs(pairs.drop_last()), pairs.last())
    }
}

/// The filters that a query text holds: its pairs are separated by `&`.
pub open spec fn filters_in(params: Seq<char>) -> FiltersView {
    filters_of_pairs(split(params, '&'))
}

/// The filters that a search address asks for: those of the query that
/// follows its last `?`.  An address without `?` asks for none.
pub open spec fn search_filters(uri: Seq<char>) -> Option<FiltersView> {
    match text_after_last(uri, '?') {
        Some(params) => Some(filters_in(params)),
        None => None,
    }
}

/// The record number that a play address names: the number in the text that
/// follows its last `/`.
pub open spec fn play_id(uri: Seq<char>) -> Option<nat> {
    match text_after_last(uri, '/') {
        Some(tail) => number_in(tail),
        None => None,
    }
}

/// `s` with a space in place of each `+`.
fn decode_plus(s: &[char]) -> (out: String)
    ensures
        out@ == plus_as_space(s@),
{
    let mut decoded: Vec<char> = Vec::new();
    let mut i: usize = 0;
    while i < s.len()
        invariant
            i <= s.len(),
            decoded@ == plus_as_space(s@).take(i as int),
        decreases s.len() - i,
    {
        let c = s[i];
        decoded.push(
            if c == '+' {
                ' '
            } else {
                c
            },
        );
        assert(plus_as_space(s@).take(i + 1) =~= plus_as_space(s@).take(i as int).push(
            plus_as_space(s@)[i as int],
        ));
        i += 1;
    }
    assert(plus_as_space(s@).take(s.len() as int) =~= plus_as_space(s@));
    text_of(decoded.as_slice())
}

/// Reads one `key=value` pair into the filters.
fn read_pair(filters: Filters, pair: &[char]) -> (out: Filters)
    ensures
        out@ == with_pair(filters@, pair@),
{
    match find_first(pair, '=') {
        Some(i) => {
            let key = slice_subrange(pair, 0, i);
            let value = slice_subrange(pair, i + 1, pair.len());
            assert(key@ == pair@.take(i as int));
            assert(value@ == pair@.skip(i + 1));
            if same_chars(key, chars_of("title").as_slice()) {
                Filters { title: decode_plus(value), artist: filters.artist, genre: filters.genre }
            } else if same_chars(key, chars_of("artist").as_slice()) {
                Filters { title: filters.title, artist: decode_plus(value), genre: filters.genre }
            } else if same_chars(key, chars_of("genre").as_slice()) {
                Filters { title: filters.title, artist: filters.artist, genre: decode_plus(value) }
            } else {
                filters
            }
        },
        None => filters,
    }
}

/// Reads the filters that a query text holds.
fn read_filters(params: &[char]) -> (filters: Filters)
    ensures
        filters@ == filters_in(params@),
{
    let mut filters = Filters::blank();
    let mut rest: &[char] = params;
    let ghost mut done: Seq<Seq<char>> = Seq::empty();
    loop
        invariant
            split(params@, '&') == done + split(rest@, '&'),
            filters@ == filters_of_pairs(done),
        decreases rest.len(),
    {
        match find_first(rest, '&') {
            Some(i) => {
                let pair = slice_subrange(rest, 0, i);
                let tail = slice_subrange(rest, i + 1, rest.len());
                proof {
                    assert(pair@ == rest@.take(i as int));
                    assert(tail@ == rest@.skip(i + 1));
                    assert(done.push(pair@).drop_last() =~= done);
                    assert(done + (seq![pair@] + split(tail@, '&')) =~= done.push(pair@) + split(
                        tail@,
                        '&',
                    ));
                    done = done.push(pair@);
                }
                filters = read_pair(filters, pair);
                rest = tail;
            },
            None => {
                proof {
                    assert(done + seq![rest@] =~= done.push(rest@));
                    assert(done.push(rest@).drop_last() =~= done);
                }
                return read_pair(filters, rest);
            },
        }
    }
}

/// Reads the filters that a search address asks for.
pub fn parse_search_filters(uri: &str) -> (filters: Option<Filters>)
    ensures
        match filters {
            Some(f) => search_filters(uri@) == Some(f@),
            None => search_filters(uri@) is None,
        },
{
    let chars = chars_of(uri);
    match find_last(chars.as_slice(), '?') {
        Some(i) => {
            let params = slice_subrange(chars.as_slice(), i + 1, chars.len());
            assert(params@ == uri@.skip(i + 1));
            Some(read_filters(params))
        },
        None => None,
    }
}

/// Reads the record number that a play address names.
pub fn parse_play_id(uri: &str) -> (id: Option<usize>)
    ensures
        match id {
            Some(n) => play_id(uri@) == Some(n as nat),
            None => play_id(uri@) is None,
        },
{
    let chars = chars_of(uri);
    match find_last(chars.as_slice(), '/') {
        Some(i) => {
            let tail = slice_subrange(chars.as_slice(), i + 1, chars.len());
            assert(tail@ == uri@.skip(i + 1));
            parse_number(tail)
        },
        None => None,
    }
}

/// Splitting loses nothing and leaves no separator behind: a text has at
/// least one piece, no piece holds the separator, and the pieces joined by
/// the separator are the text.
pub proof fn lemma_split_joins_back(s: Seq<char>, sep: char)
    ensures
        split(s, sep).len() >= 1,
        forall|i: int| 0 <= i < split(s, sep).len() ==> !(#[trigger] split(s, sep)[i]).contains(sep),
        joined(split(s, sep), sep) == s,
    decreases s.len(),
{
    s.index_of_first_ensures(sep);
    match s.index_of_first(sep) {
        Some(at) => {
            let head = s.take(at);
            let tail = s.skip(at + 1);
            let pieces = split(s, sep);
            lemma_split_joins_back(tail, sep);
            assert(pieces == seq![head] + split(tail, sep));
            assert(pieces.skip(1) =~= split(tail, sep));
            assert(pieces[0] == head);
            assert(!head.contains(sep)) by {
                if head.contains(sep) {
                    let j = choose|j: int| 0 <= j < head.len() && head[j] == sep;
                    assert(s[j] == sep);
                }
            }
            assert forall|i: int| 0 <= i < pieces.len() implies !(#[trigger] pieces[i]).contains(
                sep,
            ) by {
                if i > 0 {
                    assert(pieces[i] == split(tail, sep)[i - 1]);
                }
            }
            assert(head + seq![sep] + tail =~= s);
        },
        None => {
            assert(split(s, sep) == seq![s]);
        },
    }
}

/// One of the three keys that name a filter.
pub open spec fn is_filter_key(key: Seq<char>) -> bool {
    key == "title"@ || key == "artist"@ || key == "genre"@
}

/// The filter that a key names.
pub open spec fn filter_named(filters: FiltersView, key: Seq<char>) -> Seq<char> {
    if key == "title"@ {
        filters.title
    } else if key == "artist"@ {
        filters.artist
    } else {
        filters.genre
    }
}

/// The pair has the form `key=value` with the given key.
pub open spec fn sets_key(pair: Seq<char>, key: Seq<char>) -> bool {
    split_once(pair, '=') matches Some((k, _)) && k == key
}

/// The value of a pair of the form `key=value`, with `+` read as space.
pub open spec fn value_of(pair: Seq<char>) -> Seq<char> {
    match split_once(pair, '=') {
        Some((_, value)) => plus_as_space(value),
        None => Seq::empty(),
    }
}

/// The last pair with a key decides its filter: where `pairs[at]` sets `key`
/// and no later pair does, the filter that `key` names is the value of
/// `pairs[at]`.
pub proof fn lemma_last_pair_wins(pairs: Seq<Seq<char>>, key: Seq<char>, at: int)
    requires
        is_filter_key(key),
        0 <= at < pairs.len(),
        sets_key(pairs[at], key),
        forall|j: int| at < j < pairs.len() ==> !sets_key(#[trigger] pairs[j], key),
    ensures
        filter_named(filters_of_pairs(pairs), key) == value_of(pairs[at]),
    decreases pairs.len(),
{
    reveal_strlit("title");
    reveal_strlit("artist");
    reveal_strlit("genre");
    if at < pairs.len() - 1 {
        let rest = pairs.drop_last();
        assert(rest[at] == pairs[at]);
        assert forall|j: int| at < j < rest.len() implies !sets_key(#[trigger] rest[j], key) by {
            assert(rest[j] == pairs[j]);
        }
        lemma_last_pair_wins(rest, key, at);
        assert(!sets_key(pairs[pairs.len() - 1], key));
    }
}

/// A key that no pair sets leaves its filter empty.
pub proof fn lemma_unset_key_stays_blank(pairs: Seq<Seq<char>>, key: Seq<char>)
    requires
        is_filter_key(key),
        forall|j: int| 0 <= j < pairs.len() ==> !sets_key(#[trigger] pairs[j], key),
    ensures
        filter_named(filters_of_pairs(pairs), key) == Seq::<char>::empty(),
    decreases pairs.len(),
{
    reveal_strlit("title");
    reveal_strlit("artist");
    reveal_strlit("genre");
    if pairs.len() > 0 {
        let rest = pairs.drop_last();
        assert forall|j: int| 0 <= j < rest.len() implies !sets_key(#[trigger] rest[j], key) by {
            assert(rest[j] == pairs[j]);
        }
        lemma_unset_key_stays_blank(rest, key);
        assert(!sets_key(pairs[pairs.len() - 1], key));
    }
}

} // verus!
