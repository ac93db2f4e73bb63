//! Cover art: which image answers a request, at which size, and the cache.

use vstd::prelude::*;

use crate::rows::TrackRow;
use crate::subsonic::browse::{clamped, not_found_error};
use crate::subsonic::errors::{SubsonicError, SubsonicErrorCode};
use crate::subsonic::ids::{entity_of, id_error, require_entity, EntityKind};
use crate::subsonic::media::{file_of, track_file_path};
use crate::text::{begins_with, concat, opt_str};
use crate::tui::screen::{max_int, min_int};

verus! {

/// The least side of a cover.
pub const MIN_COVER_SIZE: u32 = 16;

/// The greatest side of a cover.
pub const MAX_COVER_SIZE: u32 = 2048;

/// How many covers are kept.
pub const COVER_CACHE_ENTRIES: usize = 256;

/// What cover is asked for.
#[derive(Clone, Copy, Debug, PartialEq, Eq, Structural)]
pub struct CoverRequest {
    pub kind: Option<EntityKind>,
    pub id: i64,
    /// Between the least and the greatest side; `None` for the image as it is.
    pub size: Option<u32>,
}

/// A size within bounds.
pub open spec fn size_in_bounds(size: Option<u32>) -> Option<u32> {
    match size {
        Some(s) => Some(
            clamped(s as int, MIN_COVER_SIZE as int, MAX_COVER_SIZE as int) as u32,
        ),
        None => None,
    }
}

fn clamp_size(s: u32) -> (r: u32)
    ensures
        r == clamped(s as int, MIN_COVER_SIZE as int, MAX_COVER_SIZE as int),
{
    if s < MIN_COVER_SIZE {
        MIN_COVER_SIZE
    } else if s > MAX_COVER_SIZE {
        MAX_COVER_SIZE
    } else {
        s
    }
}

/// Reads what cover is asked for.
pub fn cover_request(id: Option<&str>, size: Option<u32>) -> (r: Result<CoverRequest, SubsonicError>)
    ensures
        match r {
            Ok(c) => id is Some && entity_of(id->0@) == Some((c.kind, c.id as int)) && c.size
                == size_in_bounds(size),
            Err(e) => (id is None || entity_of(id->0@) is None) && id_error(e, opt_str(id)),
        },
{
    match require_entity(id) {
        Ok((kind, n)) => Ok(
            CoverRequest {
                kind,
                id: n,
                size: match size {
                    Some(s) => Some(clamp_size(s)),
                    None => None,
                },
            },
        ),
        Err(e) => Err(e),
    }
}

/// What has to be looked up for a cover: albums and artists have none of their own.
#[derive(Clone, Copy, Debug, PartialEq, Eq, Structural)]
pub enum CoverLookup {
    /// The tracks of an album.
    TracksOfAlbum(i64),
    /// The tracks of each album of an artist.
    AlbumsOfArtist(i64),
    /// A track.
    Track(i64),
}

/// What has to be looked up for a cover. A bare number is that of a track.
pub fn cover_lookup(req: CoverRequest) -> (r: CoverLookup)
    ensures
        r == match req.kind {
            Some(EntityKind::Album) => CoverLookup::TracksOfAlbum(req.id),
            Some(EntityKind::Artist) => CoverLookup::AlbumsOfArtist(req.id),
            Some(EntityKind::Song) | None => CoverLookup::Track(req.id),
        },
{
    match req.kind {
        Some(EntityKind::Album) => CoverLookup::TracksOfAlbum(req.id),
        Some(EntityKind::Artist) => CoverLookup::AlbumsOfArtist(req.id),
        Some(EntityKind::Song) | None => CoverLookup::Track(req.id),
    }
}

/// What was found for a cover.
#[derive(Debug)]
pub enum CoverFound {
    OfAlbum(Vec<TrackRow>),
    OfArtist(Vec<Vec<TrackRow>>),
    OfSong(Option<TrackRow>),
}

/// The first track of the first album that has any.
pub open spec fn first_of_albums(albums: Seq<Vec<TrackRow>>) -> Option<TrackRow>
    decreases albums.len(),
{
    if albums.len() == 0 {
        None
    } else if albums[0]@.len() > 0 {
        Some(albums[0]@[0])
    } else {
        first_of_albums(albums.skip(1))
    }
}

/// The track whose art answers a request.
pub open spec fn cover_track(found: CoverFound) -> Option<TrackRow> {
    match found {
        CoverFound::OfAlbum(tracks) => if tracks@.len() > 0 {
            Some(tracks@[0])
        } else {
            None
        },
        CoverFound::OfArtist(albums) => first_of_albums(albums@),
        CoverFound::OfSong(track) => track,
    }
}

/// What is missing where no track was found.
pub open spec fn missing_cover(found: CoverFound) -> Seq<char> {
    match found {
        CoverFound::OfAlbum(_) => "Album"@,
        CoverFound::OfArtist(_) => "Artist"@,
        CoverFound::OfSong(_) => "Track"@,
    }
}

fn first_track_of(albums: &Vec<Vec<TrackRow>>) -> (r: Option<&TrackRow>)
    ensures
        match r {
            Some(t) => first_of_albums(albums@) == Some(*t),
            None => first_of_albums(albums@) is None,
        },
{
    let mut i: usize = 0;
    assert(albums@.skip(0) =~= albums@);
    while i < albums.len()
        invariant
            i <= albums@.len(),
            first_of_albums(albums@) == first_of_albums(albums@.skip(i as int)),
        decreases albums@.len() - i,
    {
        assert(albums@.skip(i as int)[0] == albums@[i as int]);
        if albums[i].len() > 0 {
            return Some(&albums[i][0]);
        }
        assert(albums@.skip(i as int).skip(1) =~= albums@.skip(i as int + 1));
        i = i + 1;
    }
    None
}

fn path_or_none(track: &TrackRow) -> (r: Result<String, SubsonicError>)
    ensures
        match r {
            Ok(path) => file_of(*track) == Some(path@),
            Err(e) => file_of(*track) is None && not_found_error(e, "Track has no local file"@),
        },
{
    match track_file_path(track) {
        Some(path) => Ok(path),
        None => Err(SubsonicError::not_found("Track has no local file")),
    }
}

/// The file whose art answers a request: that of the song, or of the first track of the
/// album or the artist.
pub fn cover_source_path(found: &CoverFound) -> (r: Result<String, SubsonicError>)
    ensures
        match (cover_track(*found), r) {
            (None, Err(e)) => not_found_error(e, missing_cover(*found)),
            (Some(t), Ok(path)) => file_of(t) == Some(path@),
            (Some(t), Err(e)) => file_of(t) is None && not_found_error(
                e,
                "Track has no local file"@,
            ),
            _ => false,
        },
{
    match found {
        CoverFound::OfAlbum(tracks) => if tracks.len() > 0 {
            path_or_none(&tracks[0])
        } else {
            Err(SubsonicError::not_found("Album"))
        },
        CoverFound::OfArtist(albums) => match first_track_of(albums) {
            Some(t) => path_or_none(t),
            None => Err(SubsonicError::not_found("Artist")),
        },
        CoverFound::OfSong(track) => match track {
            Some(t) => path_or_none(t),
            None => Err(SubsonicError::not_found("Track")),
        },
    }
}

// ---------------------------------------------------------------------------
// Images
// ---------------------------------------------------------------------------

/// The first bytes of every PNG image.
pub open spec fn is_png(data: Seq<u8>) -> bool {
    data.len() >= 4 && data[0] == 0x89 && data[1] == 0x50 && data[2] == 0x4e && data[3] == 0x47
}

/// Whether an image is a PNG.
pub fn has_png_signature(data: &Vec<u8>) -> (r: bool)
    ensures
        r == is_png(data@),
{
    data.len() >= 4 && data[0] == 0x89 && data[1] == 0x50 && data[2] == 0x4e && data[3] == 0x47
}

/// `image::DynamicImage`: a decoded image.
#[verifier::external_type_specification]
#[verifier::external_body]
pub struct ExDynamicImage(image::DynamicImage);

/// `image::ImageError`: why an image could not be read or written.
#[verifier::external_type_specification]
#[verifier::external_body]
pub struct ExImageError(image::ImageError);

/// Width and height of a decoded image.
pub uninterp spec fn dims_of(img: image::DynamicImage) -> (u32, u32);

/// Width and height of the image that some bytes encode; `None` if they encode none.
pub uninterp spec fn encoded_dims(data: Seq<u8>) -> Option<(u32, u32)>;

/// The bytes of an image as PNG or else as JPEG; `None` if it cannot be written so.
pub uninterp spec fn encoding(img: image::DynamicImage, png: bool) -> Option<Seq<u8>>;

/// The size of an image that was made to fit a square, by its size before.
pub uninterp spec fn fitted(dims: (u32, u32), side: u32) -> (u32, u32);

/// `image::load_from_memory`: whether it succeeds, and the image's size, depend on
/// the bytes alone.
#[verifier::external_body]
fn decode(data: &[u8]) -> (r: Result<image::DynamicImage, image::ImageError>)
    ensures
        match r {
            Ok(img) => encoded_dims(data@) == Some(dims_of(img)),
            Err(_) => encoded_dims(data@) is None,
        },
{
    image::load_from_memory(data)
}

/// `image::GenericImageView::dimensions`: width and height.
#[verifier::external_body]
fn dimensions(img: &image::DynamicImage) -> (r: (u32, u32))
    ensures
        r == dims_of(*img),
{
    image::GenericImageView::dimensions(img)
}

/// `image::DynamicImage::resize` into a square, with the Lanczos filter: the image
/// at a size that fits the square and depends on the size before. The pixels come out
/// of floating-point arithmetic, of which nothing is said here.
#[verifier::external_body]
fn resize(img: &image::DynamicImage, side: u32) -> (r: image::DynamicImage)
    requires
        side >= 1 || dims_of(*img) == (0u32, 0u32),
    ensures
        dims_of(r) == fitted(dims_of(*img), side),
        dims_of(r).0 <= side,
        dims_of(r).1 <= side,
{
    img.resize(side, side, image::imageops::FilterType::Lanczos3)
}

/// `image::DynamicImage::write_to` as PNG or JPEG, into memory.
#[verifier::external_body]
fn encode(img: &image::DynamicImage, png: bool) -> (r: Result<Vec<u8>, image::ImageError>)
    ensures
        match r {
            Ok(bytes) => encoding(*img, png) == Some(bytes@),
            Err(_) => encoding(*img, png) is None,
        },
{
    let format = if png { image::ImageFormat::Png } else { image::ImageFormat::Jpeg };
    let mut buf = std::io::Cursor::new(Vec::new());
    img.write_to(&mut buf, format).map(|_| buf.into_inner())
}

/// The display text of an `image::ImageError`. Nothing is said of it.
#[verifier::external_body]
fn error_text(e: image::ImageError) -> (r: String) {
    e.to_string()
}

/// The side to resize an image to: as asked, within bounds, and no greater than the
/// image itself.
pub open spec fn cover_side(size: u32, dims: (u32, u32)) -> int {
    min_int(
        clamped(size as int, MIN_COVER_SIZE as int, MAX_COVER_SIZE as int),
        max_int(dims.0 as int, dims.1 as int),
    )
}

/// The side to resize an image of some size to.
pub fn target_side(size: u32, width: u32, height: u32) -> (r: u32)
    ensures
        r == cover_side(size, (width, height)),
{
    let wanted = clamp_size(size);
    let longest: u32 = if width >= height {
        width
    } else {
        height
    };
    if wanted <= longest {
        wanted
    } else {
        longest
    }
}

/// A cover never gets greater than it was, nor than the bounds allow.
pub proof fn covers_never_grow(size: u32, dims: (u32, u32))
    ensures
        cover_side(size, dims) <= max_int(dims.0 as int, dims.1 as int),
        cover_side(size, dims) <= MAX_COVER_SIZE,
        0 < dims.0 || 0 < dims.1 ==> cover_side(size, dims) >= 1,
{
}

/// Whether bytes are an image of some size made to fit a square, as PNG or else as JPEG.
pub open spec fn encodes_fitted(bytes: Seq<u8>, dims: (u32, u32), side: int, png: bool) -> bool {
    exists|img: image::DynamicImage|
        {
            &&& #[trigger] dims_of(img) == fitted(dims, side as u32)
            &&& dims_of(img).0 <= side
            &&& dims_of(img).1 <= side
            &&& encoding(img, png) == Some(bytes)
        }
}

/// Whether an image of some size, made to fit a square, cannot be written as PNG or else
/// as JPEG.
pub open spec fn unwritable_fitted(dims: (u32, u32), side: int, png: bool) -> bool {
    exists|img: image::DynamicImage|
        dims_of(img) == fitted(dims, side as u32) && (#[trigger] encoding(img, png)) is None
}

/// An image made to fit a square, as PNG or else as JPEG.
pub fn resize_image(data: &Vec<u8>, size: u32, output_png: bool) -> (r: Result<
    Vec<u8>,
    SubsonicError,
>)
    ensures
        match (encoded_dims(data@), r) {
            (None, Err(e)) => e.code == SubsonicErrorCode::Generic && begins_with(
                e.message@,
                "image decode error: "@,
            ),
            (Some(dims), Ok(bytes)) => encodes_fitted(bytes@, dims, cover_side(size, dims), output_png),
            (Some(dims), Err(e)) => e.code == SubsonicErrorCode::Generic && begins_with(
                e.message@,
                "image encode error: "@,
            ) && unwritable_fitted(dims, cover_side(size, dims), output_png),
            _ => false,
        },
{
    match decode(data.as_slice()) {
        Err(e) => {
            let text = error_text(e);
            let message = concat("image decode error: ", text.as_str());
            assert(message@.take("image decode error: "@.len() as int)
                =~= "image decode error: "@);
            Err(SubsonicError::internal(message.as_str()))
        },
        Ok(img) => {
            let (w, h) = dimensions(&img);
            let side = target_side(size, w, h);
            let resized = resize(&img, side);
            match encode(&resized, output_png) {
                Ok(bytes) => {
                    assert(dims_of(resized).0 <= side);
                    Ok(bytes)
                },
                Err(e) => {
                    let text = error_text(e);
                    let message = concat("image encode error: ", text.as_str());
                    assert(message@.take("image encode error: "@.len() as int)
                        =~= "image encode error: "@);
                    Err(SubsonicError::internal(message.as_str()))
                },
            }
        },
    }
}

/// A cover ready to send.
#[derive(Debug)]
pub struct CachedCover {
    pub png: bool,
    pub bytes: Vec<u8>,
}

impl CachedCover {
    /// The media type of the cover.
    pub fn content_type(&self) -> (r: &'static str)
        ensures
            r@ == if self.png {
                "image/png"@
            } else {
                "image/jpeg"@
            },
    {
        if self.png {
            "image/png"
        } else {
            "image/jpeg"
        }
    }
}

/// The cover made of the art that was found, resized where a size is asked for. It
/// keeps the format of the art.
pub fn make_cover(art: Option<Vec<u8>>, size: Option<u32>) -> (r: Result<CachedCover, SubsonicError>)
    ensures
        match (art, r) {
            (None, Err(e)) => not_found_error(e, "No cover art embedded"@),
            (Some(data), Ok(c)) => c.png == is_png(data@) && match size {
                None => c.bytes@ == data@,
                Some(s) => encoded_dims(data@) is Some && encodes_fitted(
                    c.bytes@,
                    encoded_dims(data@)->0,
                    cover_side(s, encoded_dims(data@)->0),
                    is_png(data@),
                ),
            },
            (Some(data), Err(e)) => size is Some && e.code == SubsonicErrorCode::Generic
                && match encoded_dims(data@) {
                None => begins_with(e.message@, "image decode error: "@),
                Some(dims) => begins_with(e.message@, "image encode error: "@)
                    && unwritable_fitted(dims, cover_side(size->0, dims), is_png(data@)),
            },
            _ => false,
        },
{
    match art {
        None => Err(SubsonicError::not_found("No cover art embedded")),
        Some(data) => {
            let png = has_png_signature(&data);
            match size {
                None => Ok(CachedCover { png, bytes: data }),
                Some(s) => match resize_image(&data, s, png) {
                    Ok(bytes) => Ok(CachedCover { png, bytes }),
                    Err(e) => Err(e),
                },
            }
        },
    }
}

// ---------------------------------------------------------------------------
// Cache
// ---------------------------------------------------------------------------

/// `lru::LruCache`: a map that forgets what was used least recently.
#[verifier::external_type_specification]
#[verifier::external_body]
#[verifier::reject_recursive_types(K)]
#[verifier::reject_recursive_types(V)]
#[verifier::reject_recursive_types(S)]
pub struct ExLruCache<K, V, S>(lru::LruCache<K, V, S>);

/// `lru::DefaultHasher`: how the cache hashes its keys.
#[verifier::external_type_specification]
#[verifier::external_body]
pub struct ExDefaultHasher(lru::DefaultHasher);

/// What a cover is kept under: the kind of thing, its id, and the size.
pub type CoverKey = (u8, i64, u32);

/// A cover that is kept: whether it is a PNG, and its bytes.
pub type CoverValue = (bool, Vec<u8>);

/// The covers in a cache, the most recently used first.
pub uninterp spec fn kept(c: lru::LruCache<CoverKey, CoverValue>) -> Seq<
    (CoverKey, (bool, Seq<u8>)),
>;

/// How many covers a cache holds at most.
pub uninterp spec fn room(c: lru::LruCache<CoverKey, CoverValue>) -> nat;

/// Where a key is among kept covers; behind them if it is not there.
pub open spec fn place_of(s: Seq<(CoverKey, (bool, Seq<u8>))>, key: CoverKey) -> int
    decreases s.len(),
{
    if s.len() == 0 || s[0].0 == key {
        0
    } else {
        1 + place_of(s.skip(1), key)
    }
}

/// Whether a key is among kept covers.
pub open spec fn keeps(s: Seq<(CoverKey, (bool, Seq<u8>))>, key: CoverKey) -> bool {
    place_of(s, key) < s.len()
}

/// Kept covers with one moved to the front.
pub open spec fn used(s: Seq<(CoverKey, (bool, Seq<u8>))>, key: CoverKey) -> Seq<
    (CoverKey, (bool, Seq<u8>)),
> {
    let i = place_of(s, key);
    seq![s[i]] + s.remove(i)
}

/// Kept covers with one put in front, in place of one of the same key; else, where
/// there is no room, the last goes.
pub open spec fn kept_with(
    s: Seq<(CoverKey, (bool, Seq<u8>))>,
    key: CoverKey,
    value: (bool, Seq<u8>),
    room: nat,
) -> Seq<(CoverKey, (bool, Seq<u8>))> {
    seq![(key, value)] + if keeps(s, key) {
        s.remove(place_of(s, key))
    } else if s.len() == room {
        s.drop_last()
    } else {
        s
    }
}

/// `lru::LruCache::new`: an empty cache with some room.
#[verifier::external_body]
fn new_cache(entries: usize) -> (c: lru::LruCache<CoverKey, CoverValue>)
    requires
        entries > 0,
    ensures
        kept(c) == Seq::<(CoverKey, (bool, Seq<u8>))>::empty(),
        room(c) == entries,
{
    lru::LruCache::new(std::num::NonZeroUsize::new(entries).unwrap())
}

/// `lru::LruCache::get`: the value under a key, which is now the most recently used.
#[verifier::external_body]
fn cache_get(c: &mut lru::LruCache<CoverKey, CoverValue>, key: CoverKey) -> (r: Option<CoverValue>)
    ensures
        room(*final(c)) == room(*old(c)),
        match r {
            Some(v) => keeps(kept(*old(c)), key) && kept(*old(c))[place_of(kept(*old(c)), key)].1
                == (v.0, v.1@) && kept(*final(c)) == used(kept(*old(c)), key),
            None => !keeps(kept(*old(c)), key) && kept(*final(c)) == kept(*old(c)),
        },
{
    c.get(&key).cloned()
}

/// `lru::LruCache::put`: puts a value in front, over one under the same key or, in a
/// full cache, over the least recently used.
#[verifier::external_body]
fn cache_put(c: &mut lru::LruCache<CoverKey, CoverValue>, key: CoverKey, value: CoverValue)
    ensures
        room(*final(c)) == room(*old(c)),
        kept(*final(c)) == kept_with(kept(*old(c)), key, (value.0, value.1@), room(*old(c))),
{
    c.put(key, value);
}

/// The covers made lately.
pub struct CoverCache {
    pub entries: lru::LruCache<CoverKey, CoverValue>,
}

/// What a request's cover is kept under. An id without a kind is a song's.
pub open spec fn cover_key(req: CoverRequest) -> CoverKey {
    (
        match req.kind {
            Some(EntityKind::Artist) => 0u8,
            Some(EntityKind::Album) => 1u8,
            _ => 2u8,
        },
        req.id,
        match req.size {
            Some(s) => s,
            None => 0,
        },
    )
}

/// Requests for different things, or for different sizes, never share a cover.
pub proof fn covers_are_told_apart(a: CoverRequest, b: CoverRequest)
    requires
        cover_key(a) == cover_key(b),
        a.size is Some ==> a.size->0 >= MIN_COVER_SIZE,
        b.size is Some ==> b.size->0 >= MIN_COVER_SIZE,
    ensures
        a.id == b.id,
        a.size == b.size,
        a.kind == b.kind || (a.kind != Some(EntityKind::Artist) && a.kind != Some(
            EntityKind::Album,
        ) && b.kind != Some(EntityKind::Artist) && b.kind != Some(EntityKind::Album)),
{
}

fn key_of(req: CoverRequest) -> (r: CoverKey)
    ensures
        r == cover_key(req),
{
    let kind: u8 = match req.kind {
        Some(EntityKind::Artist) => 0,
        Some(EntityKind::Album) => 1,
        _ => 2,
    };
    let size: u32 = match req.size {
        Some(s) => s,
        None => 0,
    };
    (kind, req.id, size)
}

impl CoverCache {
    /// The covers that are kept, the most recently used first.
    pub open spec fn covers(self) -> Seq<(CoverKey, (bool, Seq<u8>))> {
        kept(self.entries)
    }

    /// No more covers than there is room for, none twice.
    pub open spec fn wf(self) -> bool {
        &&& room(self.entries) == COVER_CACHE_ENTRIES
        &&& self.covers().len() <= COVER_CACHE_ENTRIES
        &&& keys_differ(self.covers())
    }

    /// A cache with nothing in it.
    pub fn new() -> (r: Self)
        ensures
            r.wf(),
            r.covers() == Seq::<(CoverKey, (bool, Seq<u8>))>::empty(),
    {
        CoverCache { entries: new_cache(COVER_CACHE_ENTRIES) }
    }

    /// The cover of a request, if it is kept; it is now the most recently used.
    pub fn lookup(&mut self, req: CoverRequest) -> (r: Option<CachedCover>)
        requires
            old(self).wf(),
        ensures
            final(self).wf(),
            match r {
                Some(c) => keeps(old(self).covers(), cover_key(req)) && old(
                    self,
                ).covers()[place_of(old(self).covers(), cover_key(req))].1 == (c.png, c.bytes@)
                    && final(self).covers() == used(old(self).covers(), cover_key(req)),
                None => !keeps(old(self).covers(), cover_key(req)) && final(self).covers() == old(
                    self,
                ).covers(),
            },
    {
        let key = key_of(req);
        proof {
            place_facts(self.covers(), key);
        }
        match cache_get(&mut self.entries, key) {
            Some((png, bytes)) => {
                proof {
                    used_keeps_keys(old(self).covers(), key);
                }
                Some(CachedCover { png, bytes })
            },
            None => None,
        }
    }

    /// Keeps the cover of a request.
    pub fn store(&mut self, req: CoverRequest, cover: &CachedCover)
        requires
            old(self).wf(),
        ensures
            final(self).wf(),
            final(self).covers() == kept_with(
                old(self).covers(),
                cover_key(req),
                (cover.png, cover.bytes@),
                COVER_CACHE_ENTRIES as nat,
            ),
    {
        let key = key_of(req);
        let bytes = copy_bytes(&cover.bytes);
        proof {
            place_facts(self.covers(), key);
            kept_with_keeps_keys(
                self.covers(),
                key,
                (cover.png, cover.bytes@),
                COVER_CACHE_ENTRIES as nat,
            );
        }
        cache_put(&mut self.entries, key, (cover.png, bytes));
    }
}

fn copy_bytes(v: &Vec<u8>) -> (r: Vec<u8>)
    ensures
        r@ == v@,
{
    let mut out: Vec<u8> = Vec::new();
    let mut i: usize = 0;
    while i < v.len()
        invariant
            i <= v@.len(),
            out@ == v@.take(i as int),
        decreases v@.len() - i,
    {
        out.push(v[i]);
        proof {
            crate::lists::take_push(v@, i as int);
        }
        i = i + 1;
    }
    assert(v@.take(i as int) =~= v@);
    out
}

/// Whether no key occurs twice.
pub open spec fn keys_differ(s: Seq<(CoverKey, (bool, Seq<u8>))>) -> bool {
    forall|i: int, j: int| 0 <= i < j < s.len() ==> (#[trigger] s[i]).0 != (#[trigger] s[j]).0
}

proof fn place_facts(s: Seq<(CoverKey, (bool, Seq<u8>))>, key: CoverKey)
    ensures
        0 <= place_of(s, key) <= s.len(),
        keeps(s, key) ==> s[place_of(s, key)].0 == key,
        forall|k: int| 0 <= k < place_of(s, key) ==> (#[trigger] s[k]).0 != key,
    decreases s.len(),
{
    if s.len() > 0 && s[0].0 != key {
        place_facts(s.skip(1), key);
        assert forall|k: int| 0 <= k < place_of(s, key) implies (#[trigger] s[k]).0 != key by {
            if k > 0 {
                assert(s.skip(1)[k - 1] == s[k]);
            }
        }
    }
}

proof fn used_keeps_keys(s: Seq<(CoverKey, (bool, Seq<u8>))>, key: CoverKey)
    requires
        keys_differ(s),
        keeps(s, key),
    ensures
        keys_differ(used(s, key)),
        used(s, key).len() == s.len(),
{
    place_facts(s, key);
    let i = place_of(s, key);
    let u = used(s, key);
    assert forall|a: int, b: int| 0 <= a < b < u.len() implies (#[trigger] u[a]).0 != (
    #[trigger] u[b]).0 by {
        let q = if b - 1 < i { b - 1 } else { b };
        assert(u[b] == s[q]);
        if a > 0 {
            let p = if a - 1 < i { a - 1 } else { a };
            assert(u[a] == s[p]);
        }
    }
}

proof fn kept_with_keeps_keys(
    s: Seq<(CoverKey, (bool, Seq<u8>))>,
    key: CoverKey,
    value: (bool, Seq<u8>),
    room: nat,
)
    requires
        keys_differ(s),
        s.len() <= room,
        room > 0,
    ensures
        keys_differ(kept_with(s, key, value, room)),
        kept_with(s, key, value, room).len() <= room,
{
    place_facts(s, key);
    let i = place_of(s, key);
    let u = kept_with(s, key, value, room);
    assert forall|a: int, b: int| 0 <= a < b < u.len() implies (#[trigger] u[a]).0 != (
    #[trigger] u[b]).0 by {
        let q = if keeps(s, key) && b - 1 >= i { b } else { b - 1 };
        assert(u[b] == s[q]);
        if a > 0 {
            let p = if keeps(s, key) && a - 1 >= i { a } else { a - 1 };
            assert(u[a] == s[p]);
        }
    }
}

/// What was stored last is found again, as it was.
pub proof fn stored_covers_are_found(
    s: Seq<(CoverKey, (bool, Seq<u8>))>,
    key: CoverKey,
    value: (bool, Seq<u8>),
    room: nat,
)
    ensures
        keeps(kept_with(s, key, value, room), key),
        kept_with(s, key, value, room)[place_of(kept_with(s, key, value, room), key)].1 == value,
{
}

/// The cover of an artist is that of the first track of the first album that has any.
pub proof fn artists_show_their_first_album(albums: Seq<Vec<TrackRow>>)
    ensures
        match first_of_albums(albums) {
            Some(t) => exists|i: int| #[trigger] is_first_filled(albums, i) && t == albums[i]@[0],
            None => forall|i: int| 0 <= i < albums.len() ==> (#[trigger] albums[i])@.len() == 0,
        },
    decreases albums.len(),
{
    if albums.len() > 0 {
        let rest = albums.skip(1);
        if albums[0]@.len() > 0 {
            assert(is_first_filled(albums, 0));
        } else {
            artists_show_their_first_album(rest);
            assert forall|i: int| 0 < i < albums.len() implies #[trigger] albums[i] == rest[i
                - 1] by {}
            if first_of_albums(rest) is Some {
                let t = first_of_albums(rest)->0;
                let i = choose|i: int| #[trigger] is_first_filled(rest, i) && t == rest[i]@[0];
                assert(albums[i + 1] == rest[i]);
                assert forall|k: int| 0 <= k < i + 1 implies (#[trigger] albums[k])@.len()
                    == 0 by {
                    if k > 0 {
                        assert(rest[k - 1]@.len() == 0);
                    }
                }
                assert(is_first_filled(albums, i + 1));
            }
        }
    }
}

/// Whether the album at a place has tracks, and none before it does.
pub open spec fn is_first_filled(albums: Seq<Vec<TrackRow>>, i: int) -> bool {
    &&& 0 <= i < albums.len()
    &&& albums[i]@.len() > 0
    &&& forall|k: int| 0 <= k < i ==> (#[trigger] albums[k])@.len() == 0
}

/// A cover comes from what was asked for: the first track of an album, the first album of an
/// artist, or the track itself.
pub proof fn covers_come_from_what_was_found(found: CoverFound)
    ensures
        match found {
            CoverFound::OfAlbum(tracks) => match cover_track(found) {
                Some(t) => tracks@.len() > 0 && t == tracks@[0],
                None => tracks@.len() == 0,
            },
            CoverFound::OfArtist(albums) => cover_track(found) is None ==> forall|i: int|
                0 <= i < albums@.len() ==> (#[trigger] albums@[i])@.len() == 0,
            CoverFound::OfSong(track) => cover_track(found) == track,
        },
{
    if let CoverFound::OfArtist(albums) = found {
        artists_show_their_first_album(albums@);
    }
}

/// A cover is as large as is asked, within 16 and 2048, but never larger than the image.
pub proof fn covers_have_the_size_asked(size: u32, dims: (u32, u32))
    ensures
        16 <= size <= 2048 && (size <= dims.0 || size <= dims.1) ==> cover_side(size, dims) == size,
        size <= 16 && (16 <= dims.0 || 16 <= dims.1) ==> cover_side(size, dims) == 16,
        size >= 2048 && (2048 <= dims.0 || 2048 <= dims.1) ==> cover_side(size, dims) == 2048,
        dims.0 <= dims.1 && dims.1 <= size && dims.1 <= 2048 ==> cover_side(size, dims) == dims.1,
        dims.1 <= dims.0 && dims.0 <= size && dims.0 <= 2048 ==> cover_side(size, dims) == dims.0,
        size_in_bounds(None) is None,
        size_in_bounds(Some(size)) is Some,
        16 <= size_in_bounds(Some(size))->0 <= 2048,
        16 <= size <= 2048 ==> size_in_bounds(Some(size)) == Some(size),
{
}

/// Looking a cover up, or putting one in, leaves every other as it was, but for the one that
/// was longest unused where there is no more room.
pub proof fn other_covers_stay(
    s: Seq<(CoverKey, (bool, Seq<u8>))>,
    key: CoverKey,
    value: (bool, Seq<u8>),
    room: nat,
    k: int,
)
    requires
        0 <= k < s.len(),
        s[k].0 != key,
    ensures
        keeps(s, key) ==> used(s, key).contains(s[k]) && used(s, key).len() == s.len(),
        keeps(s, key) || s.len() < room || k < s.len() - 1 ==> kept_with(
            s,
            key,
            value,
            room,
        ).contains(s[k]),
        kept_with(s, key, value, room)[0] == (key, value),
{
    place_facts(s, key);
    let i = place_of(s, key);
    if keeps(s, key) {
        let rest = s.remove(i);
        let j = if k < i {
            k
        } else {
            k - 1
        };
        assert(rest[j] == s[k]);
        assert(used(s, key)[j + 1] == s[k]);
        assert(kept_with(s, key, value, room)[j + 1] == s[k]);
    } else if s.len() != room || k < s.len() - 1 {
        assert(kept_with(s, key, value, room)[k + 1] == s[k]);
    }
}

/// Where no cover can be found, what was looked for is told.
pub proof fn missing_covers_are_told(found: CoverFound)
    ensures
        missing_cover(found) == "Album"@ <==> found is OfAlbum,
        missing_cover(found) == "Artist"@ <==> found is OfArtist,
        missing_cover(found) == "Track"@ <==> found is OfSong,
{
    reveal_strlit("Album");
    reveal_strlit("Artist");
    reveal_strlit("Track");
    assert("Album"@[0] == 'A' && "Track"@[0] == 'T' && "Artist"@.len() == 6 && "Album"@.len()
        == 5 && "Track"@.len() == 5);
}

/// A cover that is looked up becomes the one used last, and one that is put in where there is
/// no room takes the place of the one that was longest unused.
pub proof fn used_covers_come_first(
    s: Seq<(CoverKey, (bool, Seq<u8>))>,
    key: CoverKey,
    value: (bool, Seq<u8>),
)
    ensures
        keeps(s, key) <==> exists|i: int| 0 <= i < s.len() && (#[trigger] s[i]).0 == key,
        keeps(s, key) ==> used(s, key)[0].0 == key && used(s, key)[0] == s[place_of(s, key)],
        !keeps(s, key) && s.len() == 256 ==> kept_with(s, key, value, 256) == seq![(key, value)]
            + s.take(255),
        !keeps(s, key) && s.len() < 256 ==> kept_with(s, key, value, 256) == seq![(key, value)]
            + s,
        COVER_CACHE_ENTRIES == 256,
{
    place_facts(s, key);
    if exists|i: int| 0 <= i < s.len() && (#[trigger] s[i]).0 == key {
        let i = choose|i: int| 0 <= i < s.len() && (#[trigger] s[i]).0 == key;
        assert(place_of(s, key) <= i);
    }
    if keeps(s, key) {
        assert(s[place_of(s, key)].0 == key);
    }
    if !keeps(s, key) && s.len() == 256 {
        assert(s.drop_last() =~= s.take(255));
    }
}

/// A cover is told apart by what it is of, its id and its size.
pub proof fn cover_keys_name_their_request(req: CoverRequest)
    ensures
        ({
            let (kind, id, size) = cover_key(req);
            &&& id == req.id
            &&& req.size is Some ==> size == req.size->0
            &&& req.size is None ==> size == 0
            &&& kind == 0 <==> req.kind == Some(EntityKind::Artist)
            &&& kind == 1 <==> req.kind == Some(EntityKind::Album)
        }),
{
}

/// An image that was resized has the size that fits, and is written in the format
/// that is asked for.
pub proof fn resized_covers_fit(bytes: Seq<u8>, dims: (u32, u32), side: int, png: bool)
    requires
        encodes_fitted(bytes, dims, side, png),
    ensures
        exists|img: image::DynamicImage| #[trigger]
            dims_of(img) == fitted(dims, side as u32) && encoding(img, png) == Some(bytes),
{
}

} // verus!
