use std::collections::{HashMap, HashSet};

use koan::graphql::catalog::{
    album_source, albums, artists, AlbumFacts, AlbumFilter, AlbumSortField, AlbumSource,
    ArtistFacts, ArtistFilter, ArtistSortField, ArtistStats, SortDirection,
};
use koan::graphql::pages::{
    album_year, extract_year, page_offset, page_size, paginate, paginate_window, Conn,
    DEFAULT_PAGE, MAX_PAGE,
};
use koan::rows::{AlbumRow, ArtistRow};

#[test]
fn page_sizes_are_clamped() {
    assert_eq!(page_size(None), DEFAULT_PAGE);
    assert_eq!(page_size(Some(-1)), 0);
    assert_eq!(page_size(Some(0)), 0);
    assert_eq!(page_size(Some(7)), 7);
    assert_eq!(page_size(Some(100_000)), MAX_PAGE);
}

#[test]
fn cursors_are_places() {
    assert_eq!(page_offset(None), 0);
    assert_eq!(page_offset(Some("0")), 1);
    assert_eq!(page_offset(Some("+41")), 42);
    assert_eq!(page_offset(Some("x")), 0);
    assert_eq!(page_offset(Some("-1")), 0);
    assert_eq!(page_offset(Some("18446744073709551615")), usize::MAX);
    assert_eq!(page_offset(Some("18446744073709551616")), 0);
}

#[test]
fn pages_follow_one_another() {
    let items: Vec<u32> = (0..7).collect();
    let mut seen: Vec<u32> = Vec::new();
    let mut after: Option<String> = None;
    loop {
        let page: Conn<u32> = paginate(items.clone(), after.as_deref(), Some(3));
        assert_eq!(page.has_previous_page, after.is_some());
        for (cursor, item) in &page.edges {
            assert_eq!(*cursor as u32, *item);
            seen.push(*item);
        }
        if !page.has_next_page {
            break;
        }
        after = page.edges.last().map(|(c, _)| c.to_string());
    }
    assert_eq!(seen, items);
}

#[test]
fn pages_past_the_end_are_empty() {
    let page = paginate(vec![1, 2], Some("5"), None);
    assert!(page.edges.is_empty());
    assert!(page.has_previous_page);
    assert!(!page.has_next_page);
    let page = paginate(vec![1, 2], None, Some(-4));
    assert!(page.edges.is_empty());
    assert!(page.has_next_page);
}

#[test]
fn a_spare_row_tells_of_a_next_page() {
    let page = paginate_window(vec!['a', 'b', 'c'], 10, 2);
    assert_eq!(page.edges, vec![(10, 'a'), (11, 'b')]);
    assert!(page.has_next_page);
    assert!(page.has_previous_page);
    let page = paginate_window(vec!['a'], 0, 2);
    assert_eq!(page.edges, vec![(0, 'a')]);
    assert!(!page.has_next_page);
    assert!(!page.has_previous_page);
}

#[test]
fn years_are_read_off_dates() {
    assert_eq!(extract_year("2024"), Some(2024));
    assert_eq!(extract_year("2024-01-15"), Some(2024));
    assert_eq!(extract_year("202"), None);
    assert_eq!(extract_year("c. 1999"), None);
    assert_eq!(extract_year("-123"), Some(-123));
    // Four bytes, not four characters.
    assert_eq!(extract_year("１９９９"), None);
    assert_eq!(album_year(&album(1, "A", "B", None)), None);
}

fn album(id: i64, artist: &str, title: &str, date: Option<&str>) -> AlbumRow {
    AlbumRow {
        id,
        title: title.into(),
        artist_id: 1,
        artist_name: artist.into(),
        date: date.map(str::to_owned),
        codec: Some("FLAC".into()),
        label: None,
        total_discs: None,
        total_tracks: None,
    }
}

fn any_album() -> AlbumFilter {
    AlbumFilter {
        ids: None,
        search: None,
        title: None,
        year_start: None,
        year_end: None,
        codec: None,
        label: None,
        genre: None,
        favourites_only: false,
    }
}

fn library() -> Vec<AlbumRow> {
    vec![
        album(1, "Aphex Twin", "Drukqs", Some("2001-10-22")),
        album(2, "Boards of Canada", "Geogaddi", Some("2002")),
        album(3, "Aphex Twin", "Syro", Some("2014")),
        album(4, "Aphex Twin", "Ambient", None),
    ]
}

fn facts() -> AlbumFacts {
    AlbumFacts {
        genres: HashMap::from([
            (1, vec!["idm".to_owned(), "drill and bass".to_owned()]),
            (2, vec!["Ambient".to_owned()]),
        ]),
        favourites: HashSet::from([3]),
        track_counts: HashMap::from([(1, 30), (2, 23), (3, 12)]),
    }
}

fn ids_of(page: Conn<AlbumRow>) -> Vec<i64> {
    page.edges.into_iter().map(|(_, a)| a.id).collect()
}

fn listed(f: &AlbumFilter, sort_by: AlbumSortField, dir: SortDirection) -> Vec<i64> {
    ids_of(albums(&library(), f, &facts(), None, None, sort_by, dir))
}

#[test]
fn albums_are_sorted() {
    let up = SortDirection::Asc;
    assert_eq!(
        listed(&any_album(), AlbumSortField::Title, up),
        vec![4, 1, 2, 3]
    );
    assert_eq!(
        listed(&any_album(), AlbumSortField::Date, up),
        vec![4, 1, 2, 3]
    );
    assert_eq!(
        listed(&any_album(), AlbumSortField::ArtistThenDate, up),
        vec![4, 1, 3, 2]
    );
    assert_eq!(
        listed(&any_album(), AlbumSortField::TrackCount, up),
        vec![4, 3, 2, 1]
    );
    assert_eq!(
        listed(&any_album(), AlbumSortField::ArtistThenDate, SortDirection::Desc),
        vec![2, 3, 1, 4]
    );
}

#[test]
fn albums_are_filtered() {
    let by_date = |f: AlbumFilter| listed(&f, AlbumSortField::Date, SortDirection::Asc);
    assert_eq!(
        by_date(AlbumFilter {
            search: Some("APHEX".into()),
            ..any_album()
        }),
        vec![4, 1, 3]
    );
    assert_eq!(
        by_date(AlbumFilter {
            search: Some("geo".into()),
            ..any_album()
        }),
        vec![2]
    );
    assert_eq!(
        by_date(AlbumFilter {
            title: Some("RUK".into()),
            ..any_album()
        }),
        vec![1]
    );
    assert_eq!(
        by_date(AlbumFilter {
            year_start: Some(2002),
            year_end: Some(2010),
            ..any_album()
        }),
        vec![2]
    );
    assert_eq!(
        by_date(AlbumFilter {
            codec: Some("flac".into()),
            ids: Some(vec![3, 4, 9]),
            ..any_album()
        }),
        vec![4, 3]
    );
    assert_eq!(
        by_date(AlbumFilter {
            label: Some("warp".into()),
            ..any_album()
        }),
        Vec::<i64>::new()
    );
    assert_eq!(
        by_date(AlbumFilter {
            genre: Some("BASS".into()),
            ..any_album()
        }),
        vec![1]
    );
    // Genres are matched whatever the case on either side.
    assert_eq!(
        by_date(AlbumFilter {
            genre: Some("ambient".into()),
            ..any_album()
        }),
        vec![2]
    );
    assert_eq!(
        by_date(AlbumFilter {
            favourites_only: true,
            ..any_album()
        }),
        vec![3]
    );
}

#[test]
fn album_pages_carry_cursors() {
    let page = albums(
        &library(),
        &any_album(),
        &facts(),
        Some("0"),
        Some(2),
        AlbumSortField::Title,
        SortDirection::Asc,
    );
    assert!(page.has_previous_page);
    assert!(page.has_next_page);
    let cursors: Vec<usize> = page.edges.iter().map(|(c, _)| *c).collect();
    assert_eq!(cursors, vec![1, 2]);
    assert_eq!(ids_of(page), vec![1, 2]);
}

#[test]
fn albums_are_read_from_one_source() {
    let q = "x".to_owned();
    assert!(matches!(
        album_source(Some(1), Some(vec![2]), Some(&q)),
        AlbumSource::OfArtist(1)
    ));
    assert!(matches!(
        album_source(None, Some(vec![2]), Some(&q)),
        AlbumSource::OfArtists(_)
    ));
    assert!(matches!(
        album_source(None, None, Some(&q)),
        AlbumSource::Found(_)
    ));
    assert!(matches!(
        album_source(None, None, None),
        AlbumSource::Everything
    ));
}

fn artist(id: i64, name: &str) -> ArtistRow {
    ArtistRow {
        id,
        name: name.into(),
        sort_name: None,
    }
}

#[test]
fn artists_are_filtered_and_sorted() {
    let rows = vec![artist(1, "Clark"), artist(2, "Autechre"), artist(3, "Bibio")];
    let facts = ArtistFacts {
        genres: HashMap::from([(1, vec!["idm".to_owned()]), (2, vec!["idm".to_owned()])]),
        favourites: HashSet::from([1, 3]),
        stats: HashMap::from([
            (
                1,
                ArtistStats {
                    album_count: 9,
                    track_count: 80,
                },
            ),
            (
                2,
                ArtistStats {
                    album_count: 9,
                    track_count: 120,
                },
            ),
        ]),
    };
    let any = || ArtistFilter {
        ids: None,
        genre: None,
        favourites_only: false,
    };
    let ids = |f: ArtistFilter, by, dir| -> Vec<i64> {
        artists(&rows, &f, &facts, None, None, by, dir)
            .edges
            .into_iter()
            .map(|(_, a)| a.id)
            .collect()
    };
    let up = SortDirection::Asc;
    assert_eq!(ids(any(), ArtistSortField::Name, up), vec![2, 3, 1]);
    assert_eq!(
        ids(any(), ArtistSortField::Name, SortDirection::Desc),
        vec![1, 3, 2]
    );
    // Where the numbers agree, names decide.
    assert_eq!(ids(any(), ArtistSortField::AlbumCount, up), vec![3, 2, 1]);
    assert_eq!(ids(any(), ArtistSortField::TrackCount, up), vec![3, 1, 2]);
    assert_eq!(
        ids(
            ArtistFilter {
                genre: Some("IDM".into()),
                ..any()
            },
            ArtistSortField::Name,
            up
        ),
        vec![2, 1]
    );
    assert_eq!(
        ids(
            ArtistFilter {
                favourites_only: true,
                ids: Some(vec![1, 2]),
                ..any()
            },
            ArtistSortField::Name,
            up
        ),
        vec![1]
    );
}
