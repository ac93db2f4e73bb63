//! Artists by first letter, and how many albums each has.

use std::collections::BTreeMap;

use vstd::prelude::*;

use crate::lists::{
    collecting_gives_one_list, collects, filter_collects, filter_contains, take_push,
};
use crate::order::{before, text_lt, text_lt_is_total, text_lt_is_transitive};
use crate::rows::{AlbumRow, ArtistRow};
use crate::subsonic::document::{element, node_view, NodeView, XmlNode};
use crate::subsonic::ids::{entity_id, typed_id, EntityKind};
use crate::text::{chars_of, decimal_int, decimal_of_int, same, upper_char, uppercase_of};

verus! {

broadcast use crate::lists::group_lists;

/// Whether a character is an ASCII letter.
pub open spec fn is_letter(c: char) -> bool {
    'a' <= c <= 'z' || 'A' <= c <= 'Z'
}

/// What a name is filed under, given its first character in upper case: that, if it
/// is a letter of ASCII, else `#`.
pub open spec fn filed_under(upper: Option<Seq<char>>) -> Seq<char> {
    match upper {
        Some(u) => if u.len() > 0 && is_letter(u[0]) {
            u
        } else {
            "#"@
        },
        None => "#"@,
    }
}

/// What an artist is sorted by.
pub open spec fn sorting_name(a: ArtistRow) -> Seq<char> {
    match a.sort_name {
        Some(s) => s@,
        None => a.name@,
    }
}

/// The first character of a name in upper case.
pub open spec fn initial(name: Seq<char>) -> Option<Seq<char>> {
    if name.len() > 0 {
        Some(uppercase_of(name[0]))
    } else {
        None
    }
}

/// The letter that an artist is filed under.
pub open spec fn letter_of(a: ArtistRow) -> Seq<char> {
    filed_under(initial(sorting_name(a)))
}

/// What a name is filed under, given its first character in upper case.
pub fn file_under(upper: Option<String>) -> (r: String)
    ensures
        r@ == filed_under(crate::text::opt_text(upper)),
{
    match upper {
        Some(u) => {
            let cs = chars_of(u.as_str());
            if cs.len() > 0 && (('a' <= cs[0] && cs[0] <= 'z') || ('A' <= cs[0] && cs[0] <= 'Z')) {
                u
            } else {
                "#".to_owned()
            }
        },
        None => "#".to_owned(),
    }
}

fn letter(a: &ArtistRow) -> (r: String)
    ensures
        r@ == letter_of(*a),
{
    let name: &str = match &a.sort_name {
        Some(s) => s.as_str(),
        None => a.name.as_str(),
    };
    let cs = chars_of(name);
    if cs.len() > 0 {
        file_under(Some(upper_char(cs[0])))
    } else {
        file_under(None)
    }
}

/// Artists under a letter.
#[derive(Debug)]
pub struct ArtistGroup {
    pub letter: String,
    pub artists: Vec<ArtistRow>,
}

/// Artists under a letter, as values.
pub type GroupView = (Seq<char>, Seq<ArtistRow>);

/// Groups, as values.
pub open spec fn groups_view(groups: Seq<ArtistGroup>) -> Seq<GroupView> {
    groups.map_values(|g: ArtistGroup| (g.letter@, g.artists@))
}

/// Groups with an artist put in under a letter, behind those already there.
pub open spec fn filed(groups: Seq<GroupView>, letter: Seq<char>, a: ArtistRow) -> Seq<GroupView>
    decreases groups.len(),
{
    if groups.len() == 0 || text_lt(letter, groups[0].0) {
        seq![(letter, seq![a])] + groups
    } else if groups[0].0 == letter {
        seq![(letter, groups[0].1.push(a))] + groups.skip(1)
    } else {
        seq![groups[0]] + filed(groups.skip(1), letter, a)
    }
}

/// Artists by letter, the letters in order, the artists of each as they came.
pub open spec fn by_letter(artists: Seq<ArtistRow>) -> Seq<GroupView>
    decreases artists.len(),
{
    if artists.len() == 0 {
        Seq::empty()
    } else {
        filed(by_letter(artists.drop_last()), letter_of(artists.last()), artists.last())
    }
}

/// Whether groups are in the order of their letters, no letter twice.
pub open spec fn letters_in_order(groups: Seq<GroupView>) -> bool {
    forall|i: int, j: int|
        0 <= i < j < groups.len() ==> text_lt((#[trigger] groups[i]).0, (#[trigger] groups[j]).0)
}

/// The artists in the group of a letter.
pub open spec fn under(groups: Seq<GroupView>, letter: Seq<char>) -> Seq<ArtistRow>
    decreases groups.len(),
{
    if groups.len() == 0 {
        Seq::empty()
    } else if groups[0].0 == letter {
        groups[0].1
    } else {
        under(groups.skip(1), letter)
    }
}

proof fn under_filed(groups: Seq<GroupView>, letter: Seq<char>, a: ArtistRow, other: Seq<char>)
    requires
        letters_in_order(groups),
    ensures
        under(filed(groups, letter, a), other) == if other == letter {
            under(groups, letter).push(a)
        } else {
            under(groups, other)
        },
    decreases groups.len(),
{
    let out = filed(groups, letter, a);
    reveal_with_fuel(under, 3);
    if groups.len() == 0 {
        assert(out =~= seq![(letter, seq![a])]);
        assert(out.skip(1) =~= Seq::empty());
        assert(Seq::<ArtistRow>::empty().push(a) =~= seq![a]);
    } else if text_lt(letter, groups[0].0) {
        assert(out.skip(1) =~= groups);
        assert(Seq::<ArtistRow>::empty().push(a) =~= seq![a]);
        if other == letter {
            not_under(groups, letter);
        }
    } else if groups[0].0 == letter {
        assert(out.skip(1) =~= groups.skip(1));
    } else {
        text_lt_is_total(letter, groups[0].0);
        let rest = groups.skip(1);
        assert forall|i: int, j: int| 0 <= i < j < rest.len() implies text_lt(
            (#[trigger] rest[i]).0,
            (#[trigger] rest[j]).0,
        ) by {
            assert(text_lt(groups[i + 1].0, groups[j + 1].0));
        }
        under_filed(rest, letter, a, other);
        assert(out.skip(1) =~= filed(rest, letter, a));
    }
}

proof fn not_under(groups: Seq<GroupView>, letter: Seq<char>)
    requires
        letters_in_order(groups),
        groups.len() > 0 ==> text_lt(letter, groups[0].0),
    ensures
        under(groups, letter) == Seq::<ArtistRow>::empty(),
    decreases groups.len(),
{
    if groups.len() > 0 {
        text_lt_is_total(letter, groups[0].0);
        let rest = groups.skip(1);
        assert forall|i: int, j: int| 0 <= i < j < rest.len() implies text_lt(
            (#[trigger] rest[i]).0,
            (#[trigger] rest[j]).0,
        ) by {
            assert(text_lt(groups[i + 1].0, groups[j + 1].0));
        }
        if rest.len() > 0 {
            assert(text_lt(groups[0].0, groups[1].0));
            text_lt_is_transitive(letter, groups[0].0, groups[1].0);
        }
        not_under(rest, letter);
    }
}

proof fn filing_keeps_order(groups: Seq<GroupView>, letter: Seq<char>, a: ArtistRow)
    requires
        letters_in_order(groups),
    ensures
        letters_in_order(filed(groups, letter, a)),
        forall|k: int|
            0 <= k < filed(groups, letter, a).len() ==> (#[trigger] filed(groups, letter, a)[k]).0
                == letter || exists|q: int|
                0 <= q < groups.len() && (#[trigger] groups[q]).0 == filed(groups, letter, a)[k].0,
    decreases groups.len(),
{
    let out = filed(groups, letter, a);
    if groups.len() == 0 {
        assert(out =~= seq![(letter, seq![a])]);
    } else if text_lt(letter, groups[0].0) {
        assert forall|i: int, j: int| 0 <= i < j < out.len() implies text_lt(
            (#[trigger] out[i]).0,
            (#[trigger] out[j]).0,
        ) by {
            assert(out[j] == groups[j - 1]);
            if i > 0 {
                assert(out[i] == groups[i - 1]);
            } else if j > 1 {
                assert(text_lt(groups[0].0, groups[j - 1].0));
                text_lt_is_transitive(letter, groups[0].0, groups[j - 1].0);
            }
        }
        assert forall|k: int| 0 <= k < out.len() implies (#[trigger] out[k]).0 == letter
            || exists|q: int| 0 <= q < groups.len() && (#[trigger] groups[q]).0 == out[k].0 by {
            if k > 0 {
                assert(groups[k - 1].0 == out[k].0);
            }
        }
    } else if groups[0].0 == letter {
        assert forall|i: int, j: int| 0 <= i < j < out.len() implies text_lt(
            (#[trigger] out[i]).0,
            (#[trigger] out[j]).0,
        ) by {
            assert(out[j] == groups[j]);
            assert(text_lt(groups[i].0, groups[j].0));
            assert(out[i].0 == groups[i].0);
        }
        assert forall|k: int| 0 <= k < out.len() implies (#[trigger] out[k]).0 == letter
            || exists|q: int| 0 <= q < groups.len() && (#[trigger] groups[q]).0 == out[k].0 by {
            assert(groups[k].0 == out[k].0);
        }
    } else {
        text_lt_is_total(letter, groups[0].0);
        let rest = groups.skip(1);
        let tail = filed(rest, letter, a);
        assert forall|i: int, j: int| 0 <= i < j < rest.len() implies text_lt(
            (#[trigger] rest[i]).0,
            (#[trigger] rest[j]).0,
        ) by {
            assert(text_lt(groups[i + 1].0, groups[j + 1].0));
        }
        filing_keeps_order(rest, letter, a);
        assert forall|i: int, j: int| 0 <= i < j < out.len() implies text_lt(
            (#[trigger] out[i]).0,
            (#[trigger] out[j]).0,
        ) by {
            assert(out[j] == tail[j - 1]);
            if i > 0 {
                assert(out[i] == tail[i - 1]);
            } else if tail[j - 1].0 != letter {
                let q = choose|q: int|
                    0 <= q < rest.len() && (#[trigger] rest[q]).0 == tail[j - 1].0;
                assert(rest[q] == groups[q + 1]);
                assert(text_lt(groups[0].0, groups[q + 1].0));
            }
        }
        assert forall|k: int| 0 <= k < out.len() implies (#[trigger] out[k]).0 == letter
            || exists|q: int| 0 <= q < groups.len() && (#[trigger] groups[q]).0 == out[k].0 by {
            if k == 0 {
                assert(groups[0].0 == out[0].0);
            } else {
                assert(out[k] == tail[k - 1]);
                if tail[k - 1].0 != letter {
                    let q = choose|q: int|
                        0 <= q < rest.len() && (#[trigger] rest[q]).0 == tail[k - 1].0;
                    assert(groups[q + 1] == rest[q]);
                }
            }
        }
    }
}

/// The letters of the index are in order, and under each stand exactly its artists,
/// in the order they came.
pub proof fn index_files_every_artist(artists: Seq<ArtistRow>, letter: Seq<char>)
    ensures
        letters_in_order(by_letter(artists)),
        under(by_letter(artists), letter) == artists.filter(
            |a: ArtistRow| letter_of(a) == letter,
        ),
    decreases artists.len(),
{
    let keep = |a: ArtistRow| letter_of(a) == letter;
    reveal(Seq::filter);
    if artists.len() > 0 {
        index_files_every_artist(artists.drop_last(), letter);
        let groups = by_letter(artists.drop_last());
        let last = artists.last();
        filing_keeps_order(groups, letter_of(last), last);
        under_filed(groups, letter_of(last), last, letter);
    } else {
        assert(under(by_letter(artists), letter) =~= artists.filter(keep));
    }
}

proof fn filed_at(groups: Seq<GroupView>, letter: Seq<char>, a: ArtistRow, p: int)
    requires
        0 <= p <= groups.len(),
        forall|k: int| 0 <= k < p ==> text_lt((#[trigger] groups[k]).0, letter),
        p < groups.len() ==> !text_lt(groups[p].0, letter),
    ensures
        filed(groups, letter, a) == if p < groups.len() && groups[p].0 == letter {
            groups.update(p, (letter, groups[p].1.push(a)))
        } else {
            groups.insert(p, (letter, seq![a]))
        },
    decreases groups.len(),
{
    let out = filed(groups, letter, a);
    if p == 0 {
        if groups.len() > 0 {
            text_lt_is_total(groups[0].0, letter);
            if groups[0].0 == letter {
                assert(out =~= groups.update(0, (letter, groups[0].1.push(a))));
            } else {
                assert(out =~= groups.insert(0, (letter, seq![a])));
            }
        } else {
            assert(out =~= groups.insert(0, (letter, seq![a])));
        }
    } else {
        text_lt_is_total(groups[0].0, letter);
        let rest = groups.skip(1);
        assert forall|k: int| 0 <= k < p - 1 implies text_lt((#[trigger] rest[k]).0, letter) by {
            assert(text_lt(groups[k + 1].0, letter));
        }
        filed_at(rest, letter, a, p - 1);
        if p < groups.len() && groups[p].0 == letter {
            assert(out =~= groups.update(p, (letter, groups[p].1.push(a))));
        } else {
            assert(out =~= groups.insert(p, (letter, seq![a])));
        }
    }
}

fn file_artist(groups: Vec<ArtistGroup>, letter: String, artist: ArtistRow) -> (r: Vec<ArtistGroup>)
    ensures
        groups_view(r@) == filed(groups_view(groups@), letter@, artist),
{
    let ghost all = groups_view(groups@);
    let ghost name = letter@;
    let mut p: usize = 0;
    while p < groups.len() && before(groups[p].letter.as_str(), letter.as_str())
        invariant
            p <= groups@.len(),
            all == groups_view(groups@),
            name == letter@,
            forall|k: int| 0 <= k < p ==> text_lt((#[trigger] all[k]).0, name),
        decreases groups@.len() - p,
    {
        p = p + 1;
    }
    proof {
        filed_at(all, name, artist, p as int);
    }
    let mut out = groups;
    if p < out.len() && same(out[p].letter.as_str(), letter.as_str()) {
        let mut group = out.remove(p);
        group.artists.push(artist);
        out.insert(p, group);
        assert(groups_view(out@) =~= all.update(p as int, (name, all[p as int].1.push(artist))));
    } else {
        let mut artists: Vec<ArtistRow> = Vec::new();
        artists.push(artist);
        assert(artists@ =~= seq![artist]);
        out.insert(p, ArtistGroup { letter, artists });
        assert(groups_view(out@) =~= all.insert(p as int, (name, seq![artist])));
    }
    out
}

/// Artists by first letter.
pub fn artist_index(artists: Vec<ArtistRow>) -> (r: Vec<ArtistGroup>)
    ensures
        groups_view(r@) == by_letter(artists@),
{
    let mut groups: Vec<ArtistGroup> = Vec::new();
    let mut i: usize = 0;
    assert(artists@.take(0) =~= Seq::empty());
    while i < artists.len()
        invariant
            i <= artists@.len(),
            groups_view(groups@) == by_letter(artists@.take(i as int)),
        decreases artists@.len() - i,
    {
        let name = letter(&artists[i]);
        groups = file_artist(groups, name, artists[i].clone());
        proof {
            assert(artists@.take(i as int + 1).drop_last() =~= artists@.take(i as int));
        }
        i = i + 1;
    }
    assert(artists@.take(i as int) =~= artists@);
    groups
}

/// How many of some albums are an artist's.
pub open spec fn albums_by(albums: Seq<AlbumRow>, artist_id: i64) -> nat
    decreases albums.len(),
{
    if albums.len() == 0 {
        0
    } else {
        albums_by(albums.drop_last(), artist_id) + if albums.last().artist_id == artist_id {
            1nat
        } else {
            0nat
        }
    }
}

proof fn albums_by_bound(albums: Seq<AlbumRow>, artist_id: i64)
    ensures
        albums_by(albums, artist_id) <= albums.len(),
    decreases albums.len(),
{
    if albums.len() > 0 {
        albums_by_bound(albums.drop_last(), artist_id);
    }
}

/// Whether a map holds how many albums each artist has.
pub open spec fn counts_albums(counts: Map<i64, i64>, albums: Seq<AlbumRow>) -> bool {
    forall|id: i64|
        {
            &&& #[trigger] counts.contains_key(id) <==> albums_by(albums, id) > 0
            &&& counts.contains_key(id) ==> counts[id] == albums_by(albums, id)
        }
}

/// How many albums each artist has.
pub fn album_counts_by_artist(albums: &Vec<AlbumRow>) -> (r: BTreeMap<i64, i64>)
    requires
        albums@.len() <= i64::MAX,
    ensures
        counts_albums(r@, albums@),
{
    broadcast use vstd::std_specs::btree::group_btree_axioms;

    let mut counts: BTreeMap<i64, i64> = BTreeMap::new();
    let mut i: usize = 0;
    assert(albums@.take(0) =~= Seq::empty());
    while i < albums.len()
        invariant
            i <= albums@.len() <= i64::MAX,
            counts_albums(counts@, albums@.take(i as int)),
        decreases albums@.len() - i,
    {
        let id: i64 = albums[i].artist_id;
        let ghost before = counts@;
        let ghost sofar = albums@.take(i as int);
        let ghost next = albums@.take(i as int + 1);
        proof {
            assert(next.drop_last() =~= sofar);
            albums_by_bound(sofar, id);
        }
        let count: i64 = match counts.get(&id) {
            Some(n) => *n,
            None => 0,
        };
        assert(before.contains_key(id) <==> albums_by(sofar, id) > 0);
        counts.insert(id, count + 1);
        assert forall|k: i64|
            {
                &&& #[trigger] counts@.contains_key(k) <==> albums_by(next, k) > 0
                &&& counts@.contains_key(k) ==> counts@[k] == albums_by(next, k)
            } by {
            assert(before.contains_key(k) <==> albums_by(sofar, k) > 0);
        }
        i = i + 1;
    }
    assert(albums@.take(i as int) =~= albums@);
    counts
}

fn count_of(counts: &BTreeMap<i64, i64>, id: i64, Ghost(albums): Ghost<Seq<AlbumRow>>) -> (r: i64)
    requires
        counts_albums(counts@, albums),
    ensures
        r == albums_by(albums, id),
{
    broadcast use vstd::std_specs::btree::group_btree_axioms;

    assert(counts@.contains_key(id) <==> albums_by(albums, id) > 0);
    match counts.get(&id) {
        Some(n) => *n,
        None => 0,
    }
}

/// The articles that clients skip when they sort.
pub open spec fn ignored_articles() -> Seq<char> {
    "The El La Los Las Le Les"@
}

/// An artist in the index, with a number of albums.
pub open spec fn artist_view(a: ArtistRow, albums: Seq<AlbumRow>) -> NodeView {
    element("artist"@).attr("id"@, decimal_int(a.id as int)).attr("name"@, a.name@).attr(
        "coverArt"@,
        typed_id(EntityKind::Artist, a.id as int),
    ).attr_int("albumCount"@, albums_by(albums, a.id) as int)
}

/// An artist in the file tree.
pub open spec fn directory_view(a: ArtistRow) -> NodeView {
    element("artist"@).attr("id"@, typed_id(EntityKind::Artist, a.id as int)).attr("name"@, a.name@)
}

/// A letter of the index with its artists.
pub open spec fn letter_view(g: GroupView, artist: spec_fn(ArtistRow) -> NodeView) -> NodeView {
    element("index"@).attr("name"@, g.0).array_of("artist"@).with_children(g.1.map_values(artist))
}

/// The artists of the library by letter.
pub open spec fn artists_view(artists: Seq<ArtistRow>, albums: Seq<AlbumRow>) -> NodeView {
    element("artists"@).attr("ignoredArticles"@, ignored_articles()).array_of(
        "index"@,
    ).with_children(
        by_letter(artists).map_values(
            |g: GroupView| letter_view(g, |a: ArtistRow| artist_view(a, albums)),
        ),
    )
}

/// The artists of the library by letter, as the top of a file tree.
pub open spec fn indexes_view(artists: Seq<ArtistRow>, last_modified: i64) -> NodeView {
    element("indexes"@).attr_int("lastModified"@, last_modified as int).attr(
        "ignoredArticles"@,
        ignored_articles(),
    ).array_of("index"@).with_children(
        by_letter(artists).map_values(
            |g: GroupView| letter_view(g, |a: ArtistRow| directory_view(a)),
        ),
    )
}

fn letter_node(group: &ArtistGroup, counts: &BTreeMap<i64, i64>, Ghost(albums): Ghost<Seq<AlbumRow>>) -> (r:
    XmlNode)
    requires
        counts_albums(counts@, albums),
    ensures
        node_view(r) == letter_view(
            (group.letter@, group.artists@),
            |a: ArtistRow| artist_view(a, albums),
        ),
{
    let mut node = XmlNode::new("index").attr("name", group.letter.as_str()).array_of("artist");
    let ghost start = node_view(node);
    let ghost all = group.artists@.map_values(|a: ArtistRow| artist_view(a, albums));
    let mut i: usize = 0;
    assert(start.children + all.take(0) =~= start.children);
    while i < group.artists.len()
        invariant
            i <= group.artists@.len(),
            counts_albums(counts@, albums),
            all == group.artists@.map_values(|a: ArtistRow| artist_view(a, albums)),
            node_view(node) == start.with_children(all.take(i as int)),
        decreases group.artists@.len() - i,
    {
        let a = &group.artists[i];
        let count = count_of(counts, a.id, Ghost(albums));
        node = node.child(
            XmlNode::new("artist").attr("id", decimal_of_int(a.id).as_str()).attr(
                "name",
                a.name.as_str(),
            ).attr("coverArt", entity_id(EntityKind::Artist, a.id).as_str()).attr_int(
                "albumCount",
                count,
            ),
        );
        proof {
            take_push(all, i as int);
            assert((start.children + all.take(i as int)).push(all[i as int]) =~= start.children
                + all.take(i as int + 1));
        }
        i = i + 1;
    }
    assert(all.take(i as int) =~= all);
    node
}

fn directory_node(group: &ArtistGroup) -> (r: XmlNode)
    ensures
        node_view(r) == letter_view(
            (group.letter@, group.artists@),
            |a: ArtistRow| directory_view(a),
        ),
{
    let mut node = XmlNode::new("index").attr("name", group.letter.as_str()).array_of("artist");
    let ghost start = node_view(node);
    let ghost all = group.artists@.map_values(|a: ArtistRow| directory_view(a));
    let mut i: usize = 0;
    assert(start.children + all.take(0) =~= start.children);
    while i < group.artists.len()
        invariant
            i <= group.artists@.len(),
            all == group.artists@.map_values(|a: ArtistRow| directory_view(a)),
            node_view(node) == start.with_children(all.take(i as int)),
        decreases group.artists@.len() - i,
    {
        let a = &group.artists[i];
        node = node.child(
            XmlNode::new("artist").attr("id", entity_id(EntityKind::Artist, a.id).as_str()).attr(
                "name",
                a.name.as_str(),
            ),
        );
        proof {
            take_push(all, i as int);
            assert((start.children + all.take(i as int)).push(all[i as int]) =~= start.children
                + all.take(i as int + 1));
        }
        i = i + 1;
    }
    assert(all.take(i as int) =~= all);
    node
}

/// The artists of the library by letter, with their numbers of albums.
pub fn get_artists(artists: Vec<ArtistRow>, albums: &Vec<AlbumRow>) -> (r: XmlNode)
    requires
        albums@.len() <= i64::MAX,
    ensures
        node_view(r) == artists_view(artists@, albums@),
{
    let ghost rows = artists@;
    let groups = artist_index(artists);
    let counts = album_counts_by_artist(albums);
    let mut node = XmlNode::new("artists").attr(
        "ignoredArticles",
        "The El La Los Las Le Les",
    ).array_of("index");
    let ghost start = node_view(node);
    let ghost all = by_letter(rows).map_values(
        |g: GroupView| letter_view(g, |a: ArtistRow| artist_view(a, albums@)),
    );
    let mut i: usize = 0;
    assert(start.children + all.take(0) =~= start.children);
    while i < groups.len()
        invariant
            i <= groups@.len(),
            counts_albums(counts@, albums@),
            groups_view(groups@) == by_letter(rows),
            all == by_letter(rows).map_values(
                |g: GroupView| letter_view(g, |a: ArtistRow| artist_view(a, albums@)),
            ),
            node_view(node) == start.with_children(all.take(i as int)),
        decreases groups@.len() - i,
    {
        node = node.child(letter_node(&groups[i], &counts, Ghost(albums@)));
        proof {
            assert(by_letter(rows)[i as int] == (
                groups@[i as int].letter@,
                groups@[i as int].artists@,
            ));
            take_push(all, i as int);
            assert((start.children + all.take(i as int)).push(all[i as int]) =~= start.children
                + all.take(i as int + 1));
        }
        i = i + 1;
    }
    assert(all.take(i as int) =~= all);
    node
}

/// The artists of the library by letter, as the top of a file tree.
pub fn get_indexes(artists: Vec<ArtistRow>, last_modified: i64) -> (r: XmlNode)
    ensures
        node_view(r) == indexes_view(artists@, last_modified),
{
    let ghost rows = artists@;
    let groups = artist_index(artists);
    let mut node = XmlNode::new("indexes").attr_int("lastModified", last_modified).attr(
        "ignoredArticles",
        "The El La Los Las Le Les",
    ).array_of("index");
    let ghost start = node_view(node);
    let ghost all = by_letter(rows).map_values(
        |g: GroupView| letter_view(g, |a: ArtistRow| directory_view(a)),
    );
    let mut i: usize = 0;
    assert(start.children + all.take(0) =~= start.children);
    while i < groups.len()
        invariant
            i <= groups@.len(),
            groups_view(groups@) == by_letter(rows),
            all == by_letter(rows).map_values(
                |g: GroupView| letter_view(g, |a: ArtistRow| directory_view(a)),
            ),
            node_view(node) == start.with_children(all.take(i as int)),
        decreases groups@.len() - i,
    {
        node = node.child(directory_node(&groups[i]));
        proof {
            assert(by_letter(rows)[i as int] == (
                groups@[i as int].letter@,
                groups@[i as int].artists@,
            ));
            take_push(all, i as int);
            assert((start.children + all.take(i as int)).push(all[i as int]) =~= start.children
                + all.take(i as int + 1));
        }
        i = i + 1;
    }
    assert(all.take(i as int) =~= all);
    node
}

// ---------------------------------------------------------------------------
// What the index tells
// ---------------------------------------------------------------------------

/// An artist is filed under the first letter, as a capital, of the name to sort by, else of
/// the name; under `#` where that is no letter.
pub proof fn artists_are_filed_by_their_letter(a: ArtistRow)
    ensures
        ({
            let name = match a.sort_name {
                Some(s) => s@,
                None => a.name@,
            };
            &&& name.len() == 0 ==> letter_of(a) == "#"@
            &&& name.len() > 0 && 'A' <= name[0] <= 'Z' ==> letter_of(a) == seq![name[0]]
            &&& name.len() > 0 && 'a' <= name[0] <= 'z' ==> letter_of(a) == seq![
                (name[0] as u32 - 32) as char,
            ]
            &&& name.len() > 0 && (name[0] as u32) < 128 && !('A' <= name[0] <= 'Z') && !('a'
                <= name[0] <= 'z') ==> letter_of(a) == "#"@
        }),
{
}

/// The number of an artist's albums is the length of the list of them.
pub proof fn albums_are_counted(albums: Seq<AlbumRow>, id: i64, found: Seq<AlbumRow>)
    requires
        collects(
            albums,
            |a: AlbumRow|
                if a.artist_id == id {
                    Some(a)
                } else {
                    None
                },
            found,
        ),
    ensures
        albums_by(albums, id) == found.len(),
{
    let f = |a: AlbumRow|
        if a.artist_id == id {
            Some(a)
        } else {
            None
        };
    let keep = |a: AlbumRow| a.artist_id == id;
    filter_collects(albums, keep, f);
    collecting_gives_one_list(albums, f, found, albums.filter(keep));
    albums_are_filtered(albums, id);
}

proof fn albums_are_filtered(albums: Seq<AlbumRow>, id: i64)
    ensures
        albums_by(albums, id) == albums.filter(|a: AlbumRow| a.artist_id == id).len(),
    decreases albums.len(),
{
    reveal(Seq::filter);
    if albums.len() > 0 {
        albums_are_filtered(albums.drop_last(), id);
    }
}

/// An artist in the index is told by its id, its name, its cover and the number of its
/// albums; in the index of directories by the id of its directory and its name.
pub proof fn indexed_artists_tell_their_row(a: ArtistRow, albums: Seq<AlbumRow>)
    ensures
        ({
            let v = artist_view(a, albums);
            let d = directory_view(a);
            &&& v.tag == "artist"@
            &&& v.says("id"@, decimal_int(a.id as int))
            &&& v.says("name"@, a.name@)
            &&& v.says("coverArt"@, "ar-"@ + decimal_int(a.id as int))
            &&& v.counts("albumCount"@, albums_by(albums, a.id) as int)
            &&& v.attrs.len() == 4
            &&& d.tag == "artist"@
            &&& d.says("id"@, "ar-"@ + decimal_int(a.id as int))
            &&& d.says("name"@, a.name@)
            &&& d.attrs.len() == 2
        }),
{
    broadcast use vstd::seq_lib::lemma_seq_contains_after_push;

}

proof fn filed_somewhere(groups: Seq<GroupView>, letter: Seq<char>, a: ArtistRow) -> (k: int)
    requires
        under(groups, letter).contains(a),
    ensures
        0 <= k < groups.len(),
        groups[k].0 == letter,
        groups[k].1.contains(a),
    decreases groups.len(),
{
    if groups[0].0 == letter {
        0
    } else {
        let k = filed_somewhere(groups.skip(1), letter, a);
        assert(groups.skip(1)[k] == groups[k + 1]);
        k + 1
    }
}

/// Whether an index has an element for an artist below the letter of the artist.
pub open spec fn indexes(v: NodeView, letter: Seq<char>, told: NodeView, k: int, i: int) -> bool {
    &&& 0 <= k < v.children.len()
    &&& v.children[k].tag == "index"@
    &&& v.children[k].says("name"@, letter)
    &&& 0 <= i < v.children[k].children.len()
    &&& v.children[k].children[i] == told
}

/// Every artist is in the index, and in the index of directories, below its letter.
pub proof fn every_artist_is_indexed(
    artists: Seq<ArtistRow>,
    albums: Seq<AlbumRow>,
    last_modified: i64,
    a: ArtistRow,
)
    requires
        artists.contains(a),
    ensures
        exists|k: int, i: int| #[trigger]
            indexes(artists_view(artists, albums), letter_of(a), artist_view(a, albums), k, i),
        exists|k: int, i: int| #[trigger]
            indexes(indexes_view(artists, last_modified), letter_of(a), directory_view(a), k, i),
        indexes_view(artists, last_modified).counts("lastModified"@, last_modified as int),
        artists_view(artists, albums).tag == "artists"@,
        indexes_view(artists, last_modified).tag == "indexes"@,
{
    broadcast use vstd::seq_lib::lemma_seq_contains_after_push;

    let letter = letter_of(a);
    let groups = by_letter(artists);
    index_files_every_artist(artists, letter);
    let keep = |x: ArtistRow| letter_of(x) == letter;
    filter_contains(artists, keep, a);
    let k = filed_somewhere(groups, letter, a);
    let i = choose|i: int| 0 <= i < groups[k].1.len() && groups[k].1[i] == a;
    let v = artists_view(artists, albums);
    let d = indexes_view(artists, last_modified);
    assert(v.children[k] == letter_view(groups[k], |x: ArtistRow| artist_view(x, albums)));
    assert(d.children[k] == letter_view(groups[k], |x: ArtistRow| directory_view(x)));
    assert(indexes(v, letter, artist_view(a, albums), k, i));
    assert(indexes(d, letter, directory_view(a), k, i));
}

/// The albums of an artist are counted where there are any.
pub proof fn counts_are_those_of_albums(counts: Map<i64, i64>, albums: Seq<AlbumRow>, id: i64)
    requires
        counts_albums(counts, albums),
    ensures
        counts.contains_key(id) ==> counts[id] == albums_by(albums, id) && counts[id] > 0,
        !counts.contains_key(id) ==> albums_by(albums, id) == 0,
{
}

} // verus!
